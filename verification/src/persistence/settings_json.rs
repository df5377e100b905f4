//! The settings file: its defaults and the content written to it.
use vstd::prelude::*;

use crate::config::constants::{DEFAULT_TCP_HOST, DEFAULT_TCP_PORT, MODE_RTU};
use crate::config::model::{
    default_connection_mode, default_tcp_host, default_tcp_port, Config, ConnectionSettings,
    Metadata,
};

verus! {

/// The settings written on first start: COM1, device 1, 9600 baud, no
/// parity, one stop bit, RTU mode, TCP endpoint 127.0.0.1:502.
pub fn create_default_settings() -> (r: ConnectionSettings)
    ensures
        r.port@ == "COM1"@,
        r.device_address == 1,
        r.baud_rate == 9600,
        r.parity@ == "None"@,
        r.stop_bits == 1,
        r.mode@ == MODE_RTU@,
        r.tcp_host@ == DEFAULT_TCP_HOST@,
        r.tcp_port == DEFAULT_TCP_PORT,
{
    ConnectionSettings {
        port: String::from_str("COM1"),
        device_address: 1,
        baud_rate: 9600,
        parity: String::from_str("None"),
        stop_bits: 1,
        mode: default_connection_mode(),
        tcp_host: default_tcp_host(),
        tcp_port: default_tcp_port(),
    }
}

/// The settings file content for `connection`, stamped with `last_updated`.
pub fn settings_config(connection: ConnectionSettings, last_updated: String) -> (r: Config)
    ensures
        r.connection == connection,
        r.metadata.last_updated == last_updated,
        r.metadata.version@ == "1.0"@,
        r.metadata.description@ == "Настройки подключения для Modbus RTU и Modbus TCP"@,
{
    Config {
        connection,
        metadata: Metadata {
            last_updated,
            version: String::from_str("1.0"),
            description: String::from_str("Настройки подключения для Modbus RTU и Modbus TCP"),
        },
    }
}

} // verus!
