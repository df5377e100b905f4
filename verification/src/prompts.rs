//! The interactive prompts.
pub mod connection;
