//! The meta layer: the ACTION protocol, prompt sanitisation, prompt
//! blocks and the offline fallback.

pub mod action;
pub mod fallback;
pub mod fallback_adapter;
pub mod help;
pub mod knapsack;
pub mod mock;
pub mod prompt_builders;
pub mod prompt_registry;
pub mod sanitizer;
pub mod scan;
pub mod symptoms;
