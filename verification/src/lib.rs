//! Russell: a host-health harness library. Hash-chained journal
//! integrity, data-sovereignty gates, reflex budgets, schedules,
//! prompt sanitisation and the small text grammars they rely on.

pub mod text;
pub mod risk;
pub mod hash_chain;
pub mod sovereignty;
pub mod time;
pub mod event;
pub mod identity;
pub mod config;
pub mod error;
pub mod encryption;
pub mod journal;
pub mod lex;
pub mod paths;
pub mod profile;
pub mod env;
pub mod inference;
pub mod reflex;
pub mod schedule;
pub mod skill;
pub mod meta;
pub mod doctor;
pub mod mcp;
