use cli_modbus_rtu_master_rust::config::model::RegisterConfig;
use cli_modbus_rtu_master_rust::register::value::{
    compute_quantity, format_bool_value, process_register_data, var_kind, RegisterText, VarKind,
};

fn register(var_type: &str) -> RegisterConfig {
    RegisterConfig {
        name: "r".to_string(),
        description: "d".to_string(),
        address: 1,
        var_type: var_type.to_string(),
        modbus_type: "holding_register".to_string(),
        enabled: true,
    }
}

fn text(data: &[u16], var_type: &str) -> String {
    match process_register_data(data, &register(var_type)) {
        RegisterText::Text(s) => s,
        RegisterText::Float32Bits(b) => panic!("unexpected float bits {b}"),
    }
}

#[test]
fn quantity_by_type() {
    assert_eq!(compute_quantity("bool"), 1);
    assert_eq!(compute_quantity("u16"), 1);
    assert_eq!(compute_quantity("i16"), 1);
    assert_eq!(compute_quantity("u32"), 2);
    assert_eq!(compute_quantity("i32"), 2);
    assert_eq!(compute_quantity("float"), 2);
    assert_eq!(compute_quantity("string"), 1);
    assert_eq!(compute_quantity("U32"), 1);
}

#[test]
fn var_kinds() {
    assert_eq!(var_kind("float"), VarKind::Float);
    assert_eq!(var_kind("i32"), VarKind::I32);
    assert_eq!(var_kind(""), VarKind::Other);
}

#[test]
fn bool_values_of_coils() {
    assert_eq!(format_bool_value(vec![true]), "true");
    assert_eq!(format_bool_value(vec![false, true]), "false");
    assert_eq!(format_bool_value(vec![]), "false");
}

#[test]
fn bool_register() {
    assert_eq!(text(&[0], "bool"), "false");
    assert_eq!(text(&[7], "bool"), "true");
    assert_eq!(text(&[], "bool"), "Недостаточно данных");
}

#[test]
fn sixteen_bit_registers() {
    assert_eq!(text(&[0], "u16"), "0");
    assert_eq!(text(&[65535], "u16"), "65535");
    assert_eq!(text(&[65535], "i16"), "-1");
    assert_eq!(text(&[32768], "i16"), "-32768");
    assert_eq!(text(&[32767], "i16"), "32767");
    assert_eq!(text(&[], "u16"), "Недостаточно данных");
    assert_eq!(text(&[], "i16"), "Недостаточно данных");
}

#[test]
fn thirty_two_bit_registers_take_the_first_word_as_low_half() {
    assert_eq!(text(&[0x0001, 0x0002], "u32"), "131073");
    assert_eq!(text(&[0xffff, 0xffff], "u32"), "4294967295");
    assert_eq!(text(&[0xffff, 0xffff], "i32"), "-1");
    assert_eq!(text(&[0x0000, 0x8000], "i32"), "-2147483648");
    assert_eq!(text(&[1234, 0], "i32"), "1234");
    assert_eq!(text(&[1], "u32"), "Недостаточно данных");
    assert_eq!(text(&[1], "i32"), "Недостаточно данных");
}

#[test]
fn float_register_gives_the_combined_bits() {
    let bits = 1.5f32.to_bits();
    let low = (bits & 0xffff) as u16;
    let high = (bits >> 16) as u16;
    match process_register_data(&[low, high], &register("float")) {
        RegisterText::Float32Bits(b) => {
            assert_eq!(b, bits);
            assert_eq!(format!("{:.3}", f32::from_bits(b)), "1.500");
        }
        RegisterText::Text(s) => panic!("unexpected text {s}"),
    }
    assert_eq!(text(&[1], "float"), "Недостаточно данных");
}

#[test]
fn unknown_type_lists_all_words() {
    assert_eq!(text(&[1, 20, 300], "raw"), "[1, 20, 300]");
    assert_eq!(text(&[5], "raw"), "[5]");
    assert_eq!(text(&[], "raw"), "[]");
}

#[test]
fn enough_words_never_show_the_notice() {
    for t in ["bool", "u16", "i16", "u32", "i32", "raw"] {
        let q = compute_quantity(t) as usize;
        let data = vec![9u16; q];
        assert_ne!(text(&data, t), "Недостаточно данных");
    }
}

#[test]
fn float_bits_match_u32_text() {
    let data = [0x1234u16, 0x4321u16];
    let bits = match process_register_data(&data, &register("float")) {
        RegisterText::Float32Bits(b) => b,
        RegisterText::Text(_) => panic!("expected float bits"),
    };
    assert_eq!(text(&data, "u32"), bits.to_string());
}
