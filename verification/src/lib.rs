//! Configuration, register decoding and the decision rules of a Modbus
//! RTU/TCP polling terminal.
pub mod config;
pub mod modbus;
pub mod persistence;
pub mod prompts;
pub mod register;
pub mod sort_registers;
pub mod text;
pub mod ui;
