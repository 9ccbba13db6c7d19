use ergo_orders::{
    AmountRange, BoxSpec, Constant, LedgerBox, RegisterSpec, SType, Token, TokenSpec,
};

fn plain_box(address: &str, value: u64) -> LedgerBox {
    LedgerBox {
        id: vec![9, 9, 9],
        address: address.to_string(),
        value,
        tokens: Vec::new(),
        registers: Vec::new(),
    }
}

fn wildcard_spec() -> BoxSpec {
    BoxSpec { address: None, value_range: None, registers: Vec::new(), tokens: Vec::new() }
}

#[test]
fn empty_spec_matches_anything() {
    let spec = wildcard_spec();
    assert!(ergo_orders::box_spec::matches(&spec, &plain_box("anywhere", 1)));
}

#[test]
fn address_constraint_checked() {
    let spec = wildcard_spec().modified_address(Some("here".to_string()));
    assert!(ergo_orders::box_spec::matches(&spec, &plain_box("here", 1)));
    assert!(!ergo_orders::box_spec::matches(&spec, &plain_box("there", 1)));
}

#[test]
fn value_range_is_inclusive() {
    let spec = BoxSpec {
        address: None,
        value_range: Some(AmountRange { min: 10, max: 20 }),
        registers: Vec::new(),
        tokens: Vec::new(),
    };
    assert!(!ergo_orders::box_spec::matches(&spec, &plain_box("a", 9)));
    assert!(ergo_orders::box_spec::matches(&spec, &plain_box("a", 10)));
    assert!(ergo_orders::box_spec::matches(&spec, &plain_box("a", 20)));
    assert!(!ergo_orders::box_spec::matches(&spec, &plain_box("a", 21)));
}

#[test]
fn missing_register_is_a_non_match() {
    let spec = wildcard_spec().modified_registers(vec![RegisterSpec::new(
        Some(SType::Long),
        None,
    )]);
    assert!(!ergo_orders::box_spec::matches(&spec, &plain_box("a", 1)));
}

#[test]
fn register_type_checked() {
    let spec = wildcard_spec().modified_registers(vec![RegisterSpec::new(
        Some(SType::Long),
        None,
    )]);
    let mut good = plain_box("a", 1);
    good.registers.push(Constant::Long(3));
    assert!(ergo_orders::box_spec::matches(&spec, &good));
    let mut bad = plain_box("a", 1);
    bad.registers.push(Constant::ByteColl(vec![3]));
    assert!(!ergo_orders::box_spec::matches(&spec, &bad));
}

#[test]
fn register_exact_value_checked() {
    let spec = wildcard_spec().modified_registers(vec![RegisterSpec::new(
        Some(SType::ByteColl),
        Some(Constant::ByteColl(vec![1, 2])),
    )]);
    let mut good = plain_box("a", 1);
    good.registers.push(Constant::ByteColl(vec![1, 2]));
    assert!(ergo_orders::box_spec::matches(&spec, &good));
    let mut bad = plain_box("a", 1);
    bad.registers.push(Constant::ByteColl(vec![1, 3]));
    assert!(!ergo_orders::box_spec::matches(&spec, &bad));
}

#[test]
fn token_id_and_range_checked() {
    let spec = wildcard_spec().modified_tokens(vec![Some(TokenSpec::new(
        AmountRange { min: 5, max: u64::MAX },
        Some(vec![7, 7]),
    ))]);
    let mut good = plain_box("a", 1);
    good.tokens.push(Token { token_id: vec![7, 7], amount: 5 });
    assert!(ergo_orders::box_spec::matches(&spec, &good));
    let mut low = plain_box("a", 1);
    low.tokens.push(Token { token_id: vec![7, 7], amount: 4 });
    assert!(!ergo_orders::box_spec::matches(&spec, &low));
    let mut wrong_id = plain_box("a", 1);
    wrong_id.tokens.push(Token { token_id: vec![7, 8], amount: 5 });
    assert!(!ergo_orders::box_spec::matches(&spec, &wrong_id));
}

#[test]
fn correct_token_id_at_wrong_index_does_not_match() {
    // The spec demands the id at slot 1; the record carries it at slot 0.
    let spec = wildcard_spec().modified_tokens(vec![
        None,
        Some(TokenSpec::new(AmountRange { min: 1, max: u64::MAX }, Some(vec![7, 7]))),
    ]);
    let mut b = plain_box("a", 1);
    b.tokens.push(Token { token_id: vec![7, 7], amount: 10 });
    b.tokens.push(Token { token_id: vec![8, 8], amount: 10 });
    assert!(!ergo_orders::box_spec::matches(&spec, &b));
    // With the slots swapped on the record, the same spec matches.
    let mut good = plain_box("a", 1);
    good.tokens.push(Token { token_id: vec![8, 8], amount: 10 });
    good.tokens.push(Token { token_id: vec![7, 7], amount: 10 });
    assert!(ergo_orders::box_spec::matches(&spec, &good));
}

#[test]
fn wildcard_token_slot_is_unconstrained() {
    let spec = wildcard_spec().modified_tokens(vec![None]);
    assert!(ergo_orders::box_spec::matches(&spec, &plain_box("a", 1)));
}

#[test]
fn modified_spec_is_a_fresh_value() {
    let base = wildcard_spec();
    let derived = base.modified_address(Some("x".to_string()));
    assert_eq!(base.address, None);
    assert_eq!(derived.address, Some("x".to_string()));
    assert_eq!(base, wildcard_spec());
}
