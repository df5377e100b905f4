use cli_modbus_rtu_master_rust::config::constants::{
    AVAILABLE_BAUD_RATES, DEFAULT_TCP_HOST, DEFAULT_TCP_PORT, MODE_RTU, MODE_TCP,
};
use cli_modbus_rtu_master_rust::config::model::{
    default_connection_mode, default_tcp_host, default_tcp_port, is_tcp_mode, ConnectionSettings,
};
use cli_modbus_rtu_master_rust::persistence::settings_json::{create_default_settings, settings_config};
use cli_modbus_rtu_master_rust::ui::connection::{
    parity_from_name, parity_name, rtu_connection_settings, stop_bits_count, stop_bits_from_count,
    stop_bits_label, switch_mode, tcp_connection_settings, SerialParity, SerialStopBits,
};

#[test]
fn defaults() {
    assert_eq!(default_connection_mode(), "RTU");
    assert_eq!(default_tcp_host(), "127.0.0.1");
    assert_eq!(default_tcp_port(), 502);
    assert_eq!(MODE_RTU, "RTU");
    assert_eq!(MODE_TCP, "TCP");
    assert_eq!(DEFAULT_TCP_HOST, "127.0.0.1");
    assert_eq!(DEFAULT_TCP_PORT, 502);
    assert_eq!(AVAILABLE_BAUD_RATES.2, 9600);
}

#[test]
fn tcp_mode_ignores_ascii_case() {
    assert!(is_tcp_mode("TCP"));
    assert!(is_tcp_mode("tcp"));
    assert!(is_tcp_mode("tCp"));
    assert!(!is_tcp_mode("RTU"));
    assert!(!is_tcp_mode(" TCP"));
    assert!(!is_tcp_mode("TCPX"));
    assert!(!is_tcp_mode(""));
}

#[test]
fn default_settings() {
    let s = create_default_settings();
    assert_eq!(s.port, "COM1");
    assert_eq!(s.device_address, 1);
    assert_eq!(s.baud_rate, 9600);
    assert_eq!(s.parity, "None");
    assert_eq!(s.stop_bits, 1);
    assert_eq!(s.mode, "RTU");
    assert_eq!(s.tcp_host, "127.0.0.1");
    assert_eq!(s.tcp_port, 502);
    assert!(!is_tcp_mode(&s.mode));
}

#[test]
fn switching_mode_flips_and_flips_back() {
    let s = create_default_settings();
    let t = switch_mode(s.clone());
    assert_eq!(t.mode, "TCP");
    assert!(is_tcp_mode(&t.mode));
    assert_eq!(t.port, s.port);
    assert_eq!(t.tcp_port, s.tcp_port);
    let u = switch_mode(t);
    assert_eq!(u.mode, "RTU");
    let mut odd = create_default_settings();
    odd.mode = "tcp".to_string();
    assert_eq!(switch_mode(odd).mode, "RTU");
    let mut unknown = create_default_settings();
    unknown.mode = "serial".to_string();
    assert_eq!(switch_mode(unknown).mode, "TCP");
}

#[test]
fn tcp_settings_keep_the_serial_fields() {
    let current = create_default_settings();
    let s = tcp_connection_settings(current, "10.0.0.5".to_string(), 1502, 17);
    assert_eq!(s.mode, "TCP");
    assert_eq!(s.tcp_host, "10.0.0.5");
    assert_eq!(s.tcp_port, 1502);
    assert_eq!(s.device_address, 17);
    assert_eq!(s.port, "COM1");
    assert_eq!(s.baud_rate, 9600);
}

#[test]
fn rtu_settings_keep_the_tcp_endpoint() {
    let mut current = create_default_settings();
    current.tcp_host = "192.168.0.2".to_string();
    let s: ConnectionSettings = rtu_connection_settings(
        current,
        "COM4".to_string(),
        3,
        115200,
        SerialParity::Odd,
        SerialStopBits::Two,
    );
    assert_eq!(s.mode, "RTU");
    assert_eq!(s.port, "COM4");
    assert_eq!(s.parity, "Odd");
    assert_eq!(s.stop_bits, 2);
    assert_eq!(s.baud_rate, 115200);
    assert_eq!(s.tcp_host, "192.168.0.2");
}

#[test]
fn parity_and_stop_bits_round_trip() {
    for p in [SerialParity::NoParity, SerialParity::Even, SerialParity::Odd] {
        assert_eq!(parity_from_name(&parity_name(p)), p);
    }
    assert_eq!(parity_name(SerialParity::NoParity), "None");
    assert_eq!(parity_from_name("even"), SerialParity::NoParity);
    for s in [SerialStopBits::One, SerialStopBits::Two] {
        assert_eq!(stop_bits_from_count(stop_bits_count(s)), s);
    }
    assert_eq!(stop_bits_from_count(7), SerialStopBits::One);
    assert_eq!(stop_bits_label(1), "1 стоп-бит");
    assert_eq!(stop_bits_label(2), "2 стоп-бита");
    assert_eq!(stop_bits_label(0), "неизвестно");
}

#[test]
fn settings_file_content() {
    let cfg = settings_config(create_default_settings(), "2024-01-01T00:00:00+00:00".to_string());
    assert_eq!(cfg.metadata.version, "1.0");
    assert_eq!(cfg.metadata.description, "Настройки подключения для Modbus RTU и Modbus TCP");
    assert_eq!(cfg.metadata.last_updated, "2024-01-01T00:00:00+00:00");
    assert_eq!(cfg.connection.port, "COM1");
}
