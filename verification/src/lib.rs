//! A line-oriented key-value service: the command grammar, the shared store,
//! the username registry's file format and the per-connection protocol, each
//! with a machine-checked contract.

pub mod connection;
pub mod menu;
pub mod messages;
pub mod registration;
pub mod registry;
pub mod session;
pub mod store;
pub mod text;
