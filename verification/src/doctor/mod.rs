//! The Nurse: LLM client configuration, the offline fallback, help
//! outcomes and Okapi health-check URLs.

pub mod action;
pub mod client;
pub mod completion;
pub mod error;
pub mod fallback;
pub mod health;
pub mod help;
pub mod model;
pub mod openrouter;
pub mod prompt;
