use cli_modbus_rtu_master_rust::config::model::RegisterConfig;
use cli_modbus_rtu_master_rust::persistence::registers_csv::{
    decode_record, encode_registers_csv, parse_address, parse_bool, parse_registers_csv,
    register_records, registers_config, registers_from_table, CsvTable, RecordError,
    RegisterField, RegistersCsvError,
};

fn reg(name: &str, description: &str, address: u16, var_type: &str, modbus_type: &str, enabled: bool) -> RegisterConfig {
    RegisterConfig {
        name: name.to_string(),
        description: description.to_string(),
        address,
        var_type: var_type.to_string(),
        modbus_type: modbus_type.to_string(),
        enabled,
    }
}

fn same(a: &RegisterConfig, b: &RegisterConfig) -> bool {
    a.name == b.name
        && a.description == b.description
        && a.address == b.address
        && a.var_type == b.var_type
        && a.modbus_type == b.modbus_type
        && a.enabled == b.enabled
}

fn strings(v: &[&str]) -> Vec<String> {
    v.iter().map(|s| s.to_string()).collect()
}

fn record_error(bytes: &[u8]) -> (usize, RecordError) {
    match parse_registers_csv(bytes) {
        Err(RegistersCsvError::Record { row, error }) => (row, error),
        other => panic!("expected a record error, got {:?}", other),
    }
}

#[test]
fn reads_a_register_table() {
    let csv = "name;description;address;var_type;modbus_type;enabled\n\
               temp;Температура;100;i16;input_register;true\n\
               pump;Насос;0x1F;bool;coil;false\n";
    let regs = parse_registers_csv(csv.as_bytes()).unwrap();
    assert_eq!(regs.len(), 2);
    assert!(same(&regs[0], &reg("temp", "Температура", 100, "i16", "input_register", true)));
    assert!(same(&regs[1], &reg("pump", "Насос", 31, "bool", "coil", false)));
}

#[test]
fn header_only_table_is_empty() {
    let csv = "name;description;address;var_type;modbus_type;enabled\n";
    assert_eq!(parse_registers_csv(csv.as_bytes()).unwrap().len(), 0);
    assert_eq!(parse_registers_csv(b"").unwrap().len(), 0);
}

#[test]
fn columns_are_matched_by_name_and_unknown_ones_skipped() {
    let csv = "enabled;comment;address;name;modbus_type;var_type;description\n\
               true;x;+7;a;holding_register;u32;desc\n";
    let regs = parse_registers_csv(csv.as_bytes()).unwrap();
    assert!(same(&regs[0], &reg("a", "desc", 7, "u32", "holding_register", true)));
}

#[test]
fn missing_column_is_reported() {
    let csv = "name;description;address;var_type;enabled\na;b;1;u16;true\n";
    assert_eq!(record_error(csv.as_bytes()), (0, RecordError::MissingField(RegisterField::ModbusType)));
}

#[test]
fn repeated_column_is_reported() {
    let csv = "name;name;description;address;var_type;modbus_type;enabled\na;b;c;1;u16;coil;true\n";
    assert_eq!(record_error(csv.as_bytes()), (0, RecordError::DuplicateField(RegisterField::Name)));
}

#[test]
fn bad_values_are_reported_with_their_row() {
    let csv = "name;description;address;var_type;modbus_type;enabled\n\
               a;b;1;u16;coil;true\n\
               c;d;70000;u16;coil;true\n";
    assert_eq!(record_error(csv.as_bytes()), (1, RecordError::InvalidValue(RegisterField::Address)));
    let csv = "name;description;address;var_type;modbus_type;enabled\na;b;1;u16;coil;yes\n";
    assert_eq!(record_error(csv.as_bytes()), (0, RecordError::InvalidValue(RegisterField::Enabled)));
}

#[test]
fn rows_of_another_length_stop_the_reader() {
    let csv = "name;description;address;var_type;modbus_type;enabled\n\
               a;b;1;u16;coil;true\n\
               c;d;2\n";
    match parse_registers_csv(csv.as_bytes()) {
        Err(RegistersCsvError::Csv(_)) => {}
        other => panic!("expected a reader error, got {:?}", other),
    }
}

#[test]
fn a_bad_row_before_a_reader_error_is_reported_first() {
    let csv = "name;description;address;var_type;modbus_type;enabled\n\
               a;b;x;u16;coil;true\n\
               c;d;2\n";
    assert_eq!(record_error(csv.as_bytes()), (0, RecordError::InvalidValue(RegisterField::Address)));
}

#[test]
fn header_that_is_not_utf8_makes_records_positional() {
    let mut bytes = b"\xffname;description;address;var_type;modbus_type;enabled\n".to_vec();
    bytes.extend_from_slice(b"a;b;12;u16;coil;false\n");
    let regs = parse_registers_csv(&bytes).unwrap();
    assert!(same(&regs[0], &reg("a", "b", 12, "u16", "coil", false)));
}

#[test]
fn positional_records_report_their_length() {
    let row = strings(&["a", "b", "1"]);
    assert_eq!(decode_record(&None, &row).unwrap_err(), RecordError::InvalidLength(3));
    let row = strings(&["a", "b", "x", "u16", "coil", "true"]);
    assert_eq!(decode_record(&None, &row).unwrap_err(), RecordError::InvalidValue(RegisterField::Address));
    let row = strings(&[]);
    assert_eq!(decode_record(&None, &row).unwrap_err(), RecordError::InvalidLength(0));
}

#[test]
fn short_record_under_headers_is_reported() {
    let headers = Some(strings(&["name", "description", "address", "var_type", "modbus_type", "enabled"]));
    let row = strings(&["a", "b"]);
    assert_eq!(decode_record(&headers, &row).unwrap_err(), RecordError::UnexpectedEndOfRow);
}

#[test]
fn table_from_reader_output() {
    let table = CsvTable {
        headers: Some(strings(&["name", "description", "address", "var_type", "modbus_type", "enabled"])),
        rows: vec![strings(&["n", "d", "0x10", "float", "holding_register", "true"])],
        error: None,
    };
    let regs = registers_from_table(table).unwrap();
    assert!(same(&regs[0], &reg("n", "d", 16, "float", "holding_register", true)));
}

#[test]
fn address_and_flag_syntax() {
    assert_eq!(parse_address("65535"), Some(65535));
    assert_eq!(parse_address("65536"), None);
    assert_eq!(parse_address("0xffff"), Some(65535));
    assert_eq!(parse_address("0xFF"), Some(255));
    assert_eq!(parse_address("0x+a"), Some(10));
    assert_eq!(parse_address("0X10"), None);
    assert_eq!(parse_address("0x"), None);
    assert_eq!(parse_address("+"), None);
    assert_eq!(parse_address(" 1"), None);
    assert_eq!(parse_address("-1"), None);
    assert_eq!(parse_address("007"), Some(7));
    assert_eq!(parse_bool("true"), Some(true));
    assert_eq!(parse_bool("false"), Some(false));
    assert_eq!(parse_bool("True"), None);
}

#[test]
fn records_written_for_registers() {
    let regs = vec![reg("a", "b", 42, "u16", "coil", true)];
    let records = register_records(&regs);
    assert_eq!(records.len(), 2);
    assert_eq!(records[0], strings(&["name", "description", "address", "var_type", "modbus_type", "enabled"]));
    assert_eq!(records[1], strings(&["a", "b", "42", "u16", "coil", "true"]));
}

#[test]
fn written_table_bytes() {
    let regs = vec![reg("a", "x;y", 5, "u16", "coil", false)];
    let bytes = encode_registers_csv(&regs).unwrap();
    assert_eq!(
        String::from_utf8(bytes).unwrap(),
        "name;description;address;var_type;modbus_type;enabled\na;\"x;y\";5;u16;coil;false\n"
    );
}

#[test]
fn written_registers_read_back_unchanged() {
    let regs = vec![
        reg("a", "semi;colon", 0, "u16", "coil", true),
        reg("b", "quote \" and\nnewline", 65535, "float", "holding_register", false),
        reg("", "", 7, "raw", "discrete_input", true),
        reg("\u{feff}bom", "cr\rlf\r\n\"\"", 1, "", "", false),
    ];
    let bytes = encode_registers_csv(&regs).unwrap();
    let back = parse_registers_csv(&bytes).unwrap();
    assert_eq!(back.len(), regs.len());
    for (a, b) in regs.iter().zip(back.iter()) {
        assert!(same(a, b));
    }
    let empty: Vec<RegisterConfig> = Vec::new();
    assert_eq!(parse_registers_csv(&encode_registers_csv(&empty).unwrap()).unwrap().len(), 0);
}

#[test]
fn register_configuration_metadata() {
    let cfg = registers_config(vec![reg("a", "b", 1, "u16", "coil", true)], "now".to_string());
    assert_eq!(cfg.registers.len(), 1);
    assert_eq!(cfg.metadata.last_updated, "now");
    assert_eq!(cfg.metadata.version, "csv-1.0");
    assert_eq!(cfg.metadata.description, "Конфигурация регистров из CSV (tags.csv)");
}

/// The fields that csv's own deserializer reads from each record, in
/// declaration order, to hold the library's decoding against it.
fn csv_fields(bytes: &[u8]) -> Vec<(String, String, u16, String, String, bool)> {
    let mut rdr = csv::ReaderBuilder::new().delimiter(b';').has_headers(true).from_reader(bytes);
    rdr.deserialize::<(String, String, u16, String, String, bool)>()
        .map(|r| r.unwrap())
        .collect()
}

#[test]
fn decoding_agrees_with_csv_deserializer() {
    let csv = "name;description;address;var_type;modbus_type;enabled\n\
               a;\"x;y\";0x1F;u16;coil;true\n\
               b;;+12;i32;holding_register;false\n\
               \"c\"\"q\";d;007;float;input_register;true\n\
               e;f;0x+a;bool;discrete_input;false\n";
    let ours = parse_registers_csv(csv.as_bytes()).unwrap();
    let theirs = csv_fields(csv.as_bytes());
    assert_eq!(ours.len(), theirs.len());
    for (r, t) in ours.iter().zip(theirs.iter()) {
        assert_eq!((&r.name, &r.description, r.address, &r.var_type, &r.modbus_type, r.enabled),
                   (&t.0, &t.1, t.2, &t.3, &t.4, t.5));
    }
}

#[test]
fn rejected_values_agree_with_csv_deserializer() {
    for address in ["65536", "-1", "0X10", "0x", " 1", "1 ", "+", "x"] {
        let csv = format!("name;description;address;var_type;modbus_type;enabled\na;b;{};u16;coil;true\n", address);
        assert!(parse_registers_csv(csv.as_bytes()).is_err());
        let mut rdr = csv::ReaderBuilder::new().delimiter(b';').from_reader(csv.as_bytes());
        assert!(rdr.deserialize::<(String, String, u16, String, String, bool)>().next().unwrap().is_err());
    }
    for enabled in ["True", "1", "yes", ""] {
        let csv = format!("name;description;address;var_type;modbus_type;enabled\na;b;1;u16;coil;{}\n", enabled);
        assert!(parse_registers_csv(csv.as_bytes()).is_err());
        let mut rdr = csv::ReaderBuilder::new().delimiter(b';').from_reader(csv.as_bytes());
        assert!(rdr.deserialize::<(String, String, u16, String, String, bool)>().next().unwrap().is_err());
    }
}
