use cli_modbus_rtu_master_rust::config::model::RegisterConfig;
use cli_modbus_rtu_master_rust::sort_registers::sort_by_address;

fn reg(name: &str, address: u16) -> RegisterConfig {
    RegisterConfig {
        name: name.to_string(),
        description: String::new(),
        address,
        var_type: "u16".to_string(),
        modbus_type: "holding_register".to_string(),
        enabled: true,
    }
}

#[test]
fn sorts_by_address_keeping_equal_addresses_in_order() {
    let regs = vec![reg("c", 30), reg("a1", 10), reg("b", 20), reg("a2", 10), reg("z", 0)];
    let sorted = sort_by_address(regs);
    let names: Vec<&str> = sorted.iter().map(|r| r.name.as_str()).collect();
    assert_eq!(names, vec!["z", "a1", "a2", "b", "c"]);
}

#[test]
fn sorting_nothing_or_one() {
    assert!(sort_by_address(Vec::new()).is_empty());
    let one = sort_by_address(vec![reg("x", 5)]);
    assert_eq!(one.len(), 1);
    assert_eq!(one[0].name, "x");
}
