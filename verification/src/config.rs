//! The data that the settings and the register table hold.
pub mod constants;
pub mod model;
