use ergo_orders::assembler::{
    assemble, create_candidate, fee_address, fee_output, sum_candidate_values, sum_input_values,
    REGISTER_CAPACITY,
};
use ergo_orders::{Constant, LedgerBox, ProtocolError, Token};

fn funding(value: u64) -> LedgerBox {
    LedgerBox {
        id: vec![1],
        address: "funder".to_string(),
        value,
        tokens: Vec::new(),
        registers: Vec::new(),
    }
}

#[test]
fn candidate_keeps_its_parts() {
    let tokens = vec![Token { token_id: vec![7], amount: 3 }];
    let registers = vec![Constant::Long(11)];
    let c = create_candidate(500, &"dest".to_string(), &tokens, &registers, 42).unwrap();
    assert_eq!(c.value, 500);
    assert_eq!(c.address, "dest".to_string());
    assert_eq!(c.tokens, tokens);
    assert_eq!(c.registers, registers);
    assert_eq!(c.creation_height, 42);
}

#[test]
fn zero_value_candidate_is_invalid() {
    let r = create_candidate(0, &"dest".to_string(), &Vec::new(), &Vec::new(), 1);
    assert_eq!(r, Err(ProtocolError::InvalidValue));
}

#[test]
fn too_many_registers_overflow() {
    let registers = vec![Constant::Long(0); REGISTER_CAPACITY + 1];
    let r = create_candidate(1, &"dest".to_string(), &Vec::new(), &registers, 1);
    assert_eq!(r, Err(ProtocolError::RegisterOverflow));
    let just_enough = vec![Constant::Long(0); REGISTER_CAPACITY];
    assert!(create_candidate(1, &"dest".to_string(), &Vec::new(), &just_enough, 1).is_ok());
}

#[test]
fn fee_output_pays_the_fee_address() {
    let c = fee_output(1000, 9).unwrap();
    assert_eq!(c.value, 1000);
    assert_eq!(c.address, fee_address());
    assert!(c.tokens.is_empty());
    assert!(c.registers.is_empty());
    assert_eq!(fee_output(0, 9), Err(ProtocolError::InvalidValue));
}

#[test]
fn assemble_balanced_transaction() {
    let inputs = vec![funding(10_000)];
    let outputs = vec![create_candidate(9_000, &"dest".to_string(), &Vec::new(), &Vec::new(), 1)
        .unwrap()];
    let tx = assemble(inputs, outputs, 1_000, 1).unwrap();
    assert_eq!(tx.outputs.len(), 2);
    assert_eq!(tx.outputs[1].value, 1_000);
    assert_eq!(tx.outputs[1].address, fee_address());
    assert!(tx.data_inputs.is_empty());
    assert_eq!(sum_input_values(&tx.inputs), sum_candidate_values(&tx.outputs));
}

#[test]
fn assemble_rejects_imbalance() {
    let inputs = vec![funding(10_000)];
    let outputs = vec![create_candidate(9_000, &"dest".to_string(), &Vec::new(), &Vec::new(), 1)
        .unwrap()];
    assert_eq!(assemble(inputs, outputs, 999, 1), Err(ProtocolError::ImbalancedValue));
}

#[test]
fn assemble_rejects_zero_fee() {
    let inputs = vec![funding(9_000)];
    let outputs = vec![create_candidate(9_000, &"dest".to_string(), &Vec::new(), &Vec::new(), 1)
        .unwrap()];
    assert_eq!(assemble(inputs, outputs, 0, 1), Err(ProtocolError::InvalidValue));
}

#[test]
fn sums_handle_large_values() {
    let inputs = vec![funding(u64::MAX), funding(u64::MAX)];
    assert_eq!(sum_input_values(&inputs), 2 * (u64::MAX as u128));
}
