use cli_modbus_rtu_master_rust::prompts::connection::{
    baud_rate_input, com_port_choice, com_port_name, device_address_input, no_ports_choice,
    parity_input, read_u16_answer, read_u8_answer, read_usize_answer, stop_bits_input,
    tcp_host_input, tcp_port_input, DeviceAddressInput, NoPortsChoice, OptionInput,
};
use cli_modbus_rtu_master_rust::ui::connection::{SerialParity, SerialStopBits};
use cli_modbus_rtu_master_rust::ui::main_menu::{
    main_menu_action, main_menu_choice, switch_mode_label, MainMenuAction, MenuChoice,
};
use cli_modbus_rtu_master_rust::ui::registers::{
    delete_choice, is_delete_confirmation, registers_menu_action, registers_menu_choice,
    status_label, truncated_column, DeleteChoice, RegistersMenuAction,
};

#[test]
fn numbers_are_read_like_str_parse_after_trimming() {
    assert_eq!(read_u8_answer("5\n"), Some(5));
    assert_eq!(read_u8_answer("  +7 \r\n"), Some(7));
    assert_eq!(read_u8_answer("\u{3000}9\u{a0}"), Some(9));
    assert_eq!(read_u8_answer("255"), Some(255));
    assert_eq!(read_u8_answer("256"), None);
    assert_eq!(read_u8_answer("-1"), None);
    assert_eq!(read_u8_answer("+"), None);
    assert_eq!(read_u8_answer(""), None);
    assert_eq!(read_u8_answer("1 2"), None);
    assert_eq!(read_u8_answer("0x1"), None);
    assert_eq!(read_u16_answer("65535"), Some(65535));
    assert_eq!(read_u16_answer("65536"), None);
    assert_eq!(read_usize_answer("000012"), Some(12));
    assert_eq!(read_usize_answer("99999999999999999999999"), None);
}

#[test]
fn no_ports_answers() {
    assert_eq!(no_ports_choice("0\n"), NoPortsChoice::Exit);
    assert_eq!(no_ports_choice("1\n"), NoPortsChoice::Retry);
    assert_eq!(no_ports_choice("2\n"), NoPortsChoice::Invalid);
    assert_eq!(no_ports_choice("x"), NoPortsChoice::Invalid);
}

#[test]
fn com_port_answers() {
    let ports: [u8; 10] = [3, 7, 12, 0, 0, 0, 0, 0, 0, 0];
    assert_eq!(com_port_choice("1\n", &ports, 3), Some("COM3".to_string()));
    assert_eq!(com_port_choice("3\n", &ports, 3), Some("COM12".to_string()));
    assert_eq!(com_port_choice("4\n", &ports, 3), None);
    assert_eq!(com_port_choice("0\n", &ports, 3), None);
    assert_eq!(com_port_choice("one", &ports, 3), None);
    assert_eq!(com_port_name(255), "COM255");
}

#[test]
fn device_address_answers() {
    assert_eq!(device_address_input("1"), DeviceAddressInput::Valid(1));
    assert_eq!(device_address_input(" 240 "), DeviceAddressInput::Valid(240));
    assert_eq!(device_address_input("241"), DeviceAddressInput::OutOfRange(241));
    assert_eq!(device_address_input("0"), DeviceAddressInput::OutOfRange(0));
    assert_eq!(device_address_input("300"), DeviceAddressInput::Invalid);
    assert_eq!(device_address_input("abc"), DeviceAddressInput::Invalid);
}

#[test]
fn tcp_answers() {
    assert_eq!(tcp_host_input("\n", "127.0.0.1"), "127.0.0.1");
    assert_eq!(tcp_host_input("  10.1.1.1 \n", "127.0.0.1"), "10.1.1.1");
    assert_eq!(tcp_port_input("\n", 502), Some(502));
    assert_eq!(tcp_port_input("1502\n", 502), Some(1502));
    assert_eq!(tcp_port_input("0\n", 502), None);
    assert_eq!(tcp_port_input("70000\n", 502), None);
    assert_eq!(tcp_port_input("port", 502), None);
}

#[test]
fn option_menus() {
    assert_eq!(baud_rate_input("1"), OptionInput::Selected(115200));
    assert_eq!(baud_rate_input("3"), OptionInput::Selected(38400));
    assert_eq!(baud_rate_input("5"), OptionInput::Selected(9600));
    assert_eq!(baud_rate_input("7"), OptionInput::Selected(2400));
    assert_eq!(baud_rate_input("8"), OptionInput::OutOfRange(8));
    assert_eq!(baud_rate_input("0"), OptionInput::OutOfRange(0));
    assert_eq!(baud_rate_input("fast"), OptionInput::Invalid);
    assert_eq!(parity_input("1"), OptionInput::Selected(SerialParity::NoParity));
    assert_eq!(parity_input("2"), OptionInput::Selected(SerialParity::Even));
    assert_eq!(parity_input("3"), OptionInput::Selected(SerialParity::Odd));
    assert_eq!(parity_input("4"), OptionInput::OutOfRange(4));
    assert_eq!(parity_input(""), OptionInput::Invalid);
    assert_eq!(stop_bits_input("1"), OptionInput::Selected(SerialStopBits::One));
    assert_eq!(stop_bits_input("2"), OptionInput::Selected(SerialStopBits::Two));
    assert_eq!(stop_bits_input("3"), OptionInput::OutOfRange(3));
    assert_eq!(stop_bits_input("-"), OptionInput::Invalid);
}

#[test]
fn main_menu_answers() {
    assert_eq!(main_menu_choice("1\n"), MenuChoice { entry: 1, typed: true });
    assert_eq!(main_menu_choice("9\n"), MenuChoice { entry: 9, typed: true });
    assert_eq!(main_menu_choice("6\n"), MenuChoice { entry: 3, typed: false });
    assert_eq!(main_menu_choice("hello"), MenuChoice { entry: 3, typed: false });
    assert_eq!(main_menu_action(1), MainMenuAction::ShowConnectionSettings);
    assert_eq!(main_menu_action(2), MainMenuAction::ChangeConnectionSettings);
    assert_eq!(main_menu_action(3), MainMenuAction::StartPolling);
    assert_eq!(main_menu_action(4), MainMenuAction::Registers);
    assert_eq!(main_menu_action(5), MainMenuAction::SwitchConnectionMode);
    assert_eq!(main_menu_action(9), MainMenuAction::Exit);
    for input in ["0", "7", "", "x", "1000"] {
        let c = main_menu_choice(input).entry;
        assert!([1, 2, 3, 4, 5, 9].contains(&c));
    }
    assert_eq!(switch_mode_label("tcp"), "Перейти в режим TRU");
    assert_eq!(switch_mode_label("RTU"), "Перейти в режим TCP");
}

#[test]
fn registers_menu_answers() {
    assert_eq!(registers_menu_choice("6"), MenuChoice { entry: 6, typed: true });
    assert_eq!(registers_menu_choice("7"), MenuChoice { entry: 9, typed: false });
    assert_eq!(registers_menu_choice("?"), MenuChoice { entry: 9, typed: false });
    assert_eq!(registers_menu_action(1), RegistersMenuAction::ShowRegisters);
    assert_eq!(registers_menu_action(2), RegistersMenuAction::DeleteRegister);
    assert_eq!(registers_menu_action(3), RegistersMenuAction::AddRegister);
    assert_eq!(registers_menu_action(4), RegistersMenuAction::EditRegister);
    assert_eq!(registers_menu_action(5), RegistersMenuAction::SortByAddress);
    assert_eq!(registers_menu_action(6), RegistersMenuAction::DeleteAllRegisters);
    assert_eq!(registers_menu_action(9), RegistersMenuAction::Back);
}

#[test]
fn delete_answers() {
    assert_eq!(delete_choice("0\n", 3), DeleteChoice::Cancel);
    assert_eq!(delete_choice("1\n", 3), DeleteChoice::Remove(0));
    assert_eq!(delete_choice("3\n", 3), DeleteChoice::Remove(2));
    assert_eq!(delete_choice("4\n", 3), DeleteChoice::OutOfRange);
    assert_eq!(delete_choice("x\n", 3), DeleteChoice::Invalid);
    assert!(is_delete_confirmation("ДА\n"));
    assert!(is_delete_confirmation(" да "));
    assert!(is_delete_confirmation("YES"));
    assert!(is_delete_confirmation("yes\r\n"));
    assert!(!is_delete_confirmation("Yes"));
    assert!(!is_delete_confirmation("нет"));
    assert!(!is_delete_confirmation(""));
}

#[test]
fn table_columns() {
    assert_eq!(truncated_column("short", 19, 16), "short");
    assert_eq!(truncated_column("exactly_nineteen_ch", 19, 16), "exactly_nineteen_ch");
    assert_eq!(truncated_column("twenty_characters_x", 19, 16).chars().count(), 19);
    assert_eq!(truncated_column("a_name_that_is_too_long", 19, 16), "a_name_that_is_t...");
    assert_eq!(truncated_column("Очень длинное описание регистра номер один", 39, 36), "Очень длинное описание регистра номе...");
    assert_eq!(status_label(true), "Активен");
    assert_eq!(status_label(false), "Отключен");
}

use cli_modbus_rtu_master_rust::config::model::RegisterConfig;
use cli_modbus_rtu_master_rust::ui::connection::{com_port_step, com_port_step_after_retry, ComPortStep};
use cli_modbus_rtu_master_rust::ui::registers::remove_register;

#[test]
fn com_port_steps() {
    assert_eq!(com_port_step(0), ComPortStep::AskNoPorts);
    assert_eq!(com_port_step(2), ComPortStep::ChoosePort { ports_count: 2 });
    assert_eq!(com_port_step_after_retry(0, false), ComPortStep::Leave);
    assert_eq!(com_port_step_after_retry(0, true), ComPortStep::AskNoPorts);
    assert_eq!(com_port_step_after_retry(3, true), ComPortStep::ChoosePort { ports_count: 3 });
}

#[test]
fn removing_a_register() {
    let make = |name: &str| RegisterConfig {
        name: name.to_string(),
        description: String::new(),
        address: 1,
        var_type: "u16".to_string(),
        modbus_type: "coil".to_string(),
        enabled: true,
    };
    let mut regs = vec![make("a"), make("b"), make("c")];
    let removed = remove_register(&mut regs, 1);
    assert_eq!(removed.name, "b");
    let names: Vec<&str> = regs.iter().map(|r| r.name.as_str()).collect();
    assert_eq!(names, vec!["a", "c"]);
}

#[test]
fn short_texts_are_cut_whole() {
    assert_eq!(truncated_column("abcdef", 3, 10), "abcdef...");
    assert_eq!(truncated_column("abcdef", 3, 2), "ab...");
}
