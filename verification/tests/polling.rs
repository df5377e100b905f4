use cli_modbus_rtu_master_rust::config::model::RegisterConfig;
use cli_modbus_rtu_master_rust::modbus::poll::{
    enabled_registers, next_error_count, poll_readiness, poll_request, polling_target,
    tcp_socket_text, PollReadiness, PollRequest, PollTarget,
};
use cli_modbus_rtu_master_rust::persistence::settings_json::create_default_settings;
use cli_modbus_rtu_master_rust::ui::connection::{SerialParity, SerialStopBits};
use cli_modbus_rtu_master_rust::ui::registers::register_counts;

fn reg(name: &str, address: u16, var_type: &str, modbus_type: &str, enabled: bool) -> RegisterConfig {
    RegisterConfig {
        name: name.to_string(),
        description: String::new(),
        address,
        var_type: var_type.to_string(),
        modbus_type: modbus_type.to_string(),
        enabled,
    }
}

#[test]
fn requests_by_modbus_type() {
    assert_eq!(
        poll_request(&reg("a", 10, "float", "input_register", true)),
        PollRequest::InputRegisters { address: 10, quantity: 2 }
    );
    assert_eq!(
        poll_request(&reg("a", 11, "u16", "holding_register", true)),
        PollRequest::HoldingRegisters { address: 11, quantity: 1 }
    );
    assert_eq!(poll_request(&reg("a", 12, "u32", "coil", true)), PollRequest::Coil { address: 12 });
    assert_eq!(
        poll_request(&reg("a", 13, "bool", "discrete_input", true)),
        PollRequest::DiscreteInput { address: 13 }
    );
    assert_eq!(poll_request(&reg("a", 14, "bool", "Coil", true)), PollRequest::Unknown);
}

#[test]
fn only_enabled_registers_are_polled() {
    let regs = vec![
        reg("a", 1, "u16", "coil", true),
        reg("b", 2, "u16", "coil", false),
        reg("c", 3, "u16", "coil", true),
    ];
    let polled = enabled_registers(&regs);
    assert_eq!(polled.len(), 2);
    assert_eq!(polled[0].name, "a");
    assert_eq!(polled[1].name, "c");
    let counts = register_counts(&regs);
    assert_eq!(counts.total, 3);
    assert_eq!(counts.enabled, 2);
    assert_eq!(counts.disabled, 1);
    assert_eq!(counts.enabled, polled.len());
}

#[test]
fn readiness() {
    assert_eq!(poll_readiness(&[]), PollReadiness::NoRegisters);
    let off = vec![reg("a", 1, "u16", "coil", false), reg("b", 2, "u16", "coil", false)];
    assert_eq!(poll_readiness(&off), PollReadiness::NoEnabledRegisters { total: 2 });
    let on = vec![reg("a", 1, "u16", "coil", false), reg("b", 2, "u16", "coil", true)];
    assert_eq!(poll_readiness(&on), PollReadiness::Ready);
}

#[test]
fn error_counting() {
    assert_eq!(next_error_count(0, false), 1);
    assert_eq!(next_error_count(4, false), 5);
    assert_eq!(next_error_count(4, true), 0);
}

#[test]
fn targets() {
    assert_eq!(tcp_socket_text("127.0.0.1", 502), "127.0.0.1:502");
    let mut conn = create_default_settings();
    match polling_target(&conn) {
        PollTarget::Rtu { port, baud_rate, parity, stop_bits, slave } => {
            assert_eq!(port, "COM1");
            assert_eq!(baud_rate, 9600);
            assert_eq!(parity, SerialParity::NoParity);
            assert_eq!(stop_bits, SerialStopBits::One);
            assert_eq!(slave, 1);
        }
        other => panic!("expected RTU, got {:?}", other),
    }
    conn.parity = "Even".to_string();
    conn.stop_bits = 2;
    match polling_target(&conn) {
        PollTarget::Rtu { parity, stop_bits, .. } => {
            assert_eq!(parity, SerialParity::Even);
            assert_eq!(stop_bits, SerialStopBits::Two);
        }
        other => panic!("expected RTU, got {:?}", other),
    }
    conn.mode = "Tcp".to_string();
    conn.tcp_host = "plc.local".to_string();
    conn.tcp_port = 1502;
    conn.device_address = 9;
    match polling_target(&conn) {
        PollTarget::Tcp { socket, slave } => {
            assert_eq!(socket, "plc.local:1502");
            assert_eq!(slave, 9);
        }
        other => panic!("expected TCP, got {:?}", other),
    }
}

use cli_modbus_rtu_master_rust::modbus::poll::{cycle_succeeded, poll_cycle_end, CycleEnd, ReadOutcome};

#[test]
fn cycles_succeed_unless_a_read_failed() {
    assert!(cycle_succeeded(&[]));
    assert!(cycle_succeeded(&[ReadOutcome::Read, ReadOutcome::Skipped]));
    assert!(!cycle_succeeded(&[ReadOutcome::Read, ReadOutcome::Failed]));
}

#[test]
fn error_count_over_cycles() {
    let cycles: Vec<Vec<ReadOutcome>> = vec![
        vec![ReadOutcome::Failed],
        vec![ReadOutcome::Read, ReadOutcome::Failed],
        vec![ReadOutcome::Read],
        vec![ReadOutcome::Skipped, ReadOutcome::Failed],
        vec![ReadOutcome::Failed, ReadOutcome::Failed],
    ];
    let mut count = 0;
    let mut seen = Vec::new();
    for c in &cycles {
        let end = poll_cycle_end(count, c);
        count = end.error_count;
        seen.push((end.error_count, end.show_error_count));
    }
    assert_eq!(seen, vec![(1, true), (2, true), (0, false), (1, true), (2, true)]);
    assert_eq!(
        poll_cycle_end(7, &[ReadOutcome::Skipped]),
        CycleEnd { error_count: 0, show_error_count: false }
    );
}
