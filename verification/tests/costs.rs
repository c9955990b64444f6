use era_consensus::host_function_costs::{HostFunction, HostFunctionCosts, DEFAULT_FIXED_COST};

#[test]
fn fixed_has_no_argument_weights() {
    let h = HostFunction::fixed(123);
    assert_eq!(h.cost, 123);
    assert!(h.arguments.is_empty());
}

#[test]
fn default_host_function_is_fixed_default_cost() {
    let h = HostFunction::default();
    assert_eq!(h, HostFunction::fixed(DEFAULT_FIXED_COST));
}

#[test]
fn host_function_wire_bytes() {
    let h = HostFunction { cost: 7, arguments: vec![1, 2] };
    let bytes = h.to_bytes().unwrap();
    assert_eq!(bytes, vec![7, 0, 0, 0, 2, 0, 0, 0, 1, 0, 0, 0, 2, 0, 0, 0]);
    assert_eq!(h.serialized_length(), bytes.len());
}

#[test]
fn host_function_round_trip() {
    let h = HostFunction { cost: 42, arguments: vec![9, 8, 7] };
    let mut bytes = h.to_bytes().unwrap();
    bytes.push(0xFF);
    let (back, rest) = HostFunction::from_bytes(&bytes).unwrap();
    assert_eq!(back, h);
    assert_eq!(rest, &[0xFF]);
}

#[test]
fn host_function_from_short_buffer_fails() {
    let bytes = [1u8, 2, 3, 4, 5];
    assert!(HostFunction::from_bytes(&bytes).is_err());
}

#[test]
fn costs_table_round_trip() {
    let mut costs = HostFunctionCosts::default();
    costs.read_value = HostFunction::fixed(11);
    costs.write = HostFunction { cost: 5, arguments: vec![3] };
    costs.print = HostFunction::fixed(99);
    let bytes = costs.to_bytes().unwrap();
    assert_eq!(costs.serialized_length(), bytes.len());
    let (back, rest) = HostFunctionCosts::from_bytes(&bytes).unwrap();
    assert_eq!(back, costs);
    assert!(rest.is_empty());
}

#[test]
fn default_costs_table_length() {
    // A default table holds one flat-cost entry of eight bytes for each of
    // the table's host functions.
    let costs = HostFunctionCosts::default();
    assert_eq!(costs.serialized_length(), 42 * 8);
    assert_eq!(costs.to_bytes().unwrap().len(), 42 * 8);
}

#[test]
fn costs_table_from_truncated_buffer_fails() {
    let costs = HostFunctionCosts::default();
    let bytes = costs.to_bytes().unwrap();
    assert!(HostFunctionCosts::from_bytes(&bytes[..bytes.len() - 1]).is_err());
}
