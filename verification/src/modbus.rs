//! Polling the Modbus device.
pub mod poll;
