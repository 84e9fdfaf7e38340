//! The hKask MCP client's configuration, loopback gate, token providers
//! and errors.

pub mod auth;
pub mod client;
pub mod config;
pub mod error;
pub mod health;
pub mod ipv6;
pub mod port;
pub mod registry;
pub mod tools;
