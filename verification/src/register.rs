//! Register values.
pub mod value;
