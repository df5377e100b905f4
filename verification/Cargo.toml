[package]
name = "cli_modbus_rtu_master_rust"
version = "0.1.0"
edition = "2021"
publish = false

[dependencies]
csv = "1"
serde = { version = "1", features = ["derive"] }
serde_json = "1"
chrono = "0.4"
colored = "*"
tokio = { version = "1", features = ["rt-multi-thread", "macros", "time", "net"] }
tokio-modbus = { version = "*", default-features = false, features = ["rtu", "tcp"] }
tokio-serial = { version = "*", default-features = false }
winapi = { version = "0.3", features = ["consoleapi", "processenv", "winbase", "wincon", "minwindef"] }
