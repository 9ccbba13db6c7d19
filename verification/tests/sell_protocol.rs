use ergo_orders::assembler::fee_address;
use ergo_orders::{
    Constant, LedgerBox, ProtocolError, SellBox, SellProtocol, Token,
};

const SELL_CONTRACT: &str = "sell-order-contract";

fn sell_protocol() -> SellProtocol {
    SellProtocol::new(SELL_CONTRACT.to_string())
}

fn funding(value: u64) -> LedgerBox {
    LedgerBox {
        id: vec![1, 2, 3],
        address: "funder".to_string(),
        value,
        tokens: Vec::new(),
        registers: Vec::new(),
    }
}

fn order_record(value: u64, owner: &str, ask: u64, tokens: Vec<Token>) -> LedgerBox {
    LedgerBox {
        id: vec![4, 5, 6],
        address: SELL_CONTRACT.to_string(),
        value,
        tokens,
        registers: vec![
            Constant::ByteColl(owner.as_bytes().to_vec()),
            Constant::Long(ask as i64),
        ],
    }
}

fn value_box(value: u64) -> LedgerBox {
    LedgerBox {
        id: vec![7, 8, 9],
        address: "fulfiller".to_string(),
        value,
        tokens: Vec::new(),
        registers: Vec::new(),
    }
}

#[test]
fn create_sell_order_splits_funding() {
    // Funding box value 1,000,000 at fee 1,000 yields an order box of
    // 999,000 and a fee box of 1,000.
    let p = sell_protocol();
    let tx = p
        .action_create_sell_box("alice".to_string(), 500_000, funding(1_000_000), 100, 1_000)
        .unwrap();
    assert_eq!(tx.outputs.len(), 2);
    assert_eq!(tx.outputs[0].value, 999_000);
    assert_eq!(tx.outputs[0].address, SELL_CONTRACT.to_string());
    assert!(tx.outputs[0].tokens.is_empty());
    assert_eq!(
        tx.outputs[0].registers,
        vec![Constant::ByteColl(b"alice".to_vec()), Constant::Long(500_000)]
    );
    assert_eq!(tx.outputs[1].value, 1_000);
    assert_eq!(tx.outputs[1].address, fee_address());
    assert_eq!(tx.inputs.len(), 1);
    assert_eq!(tx.inputs[0].value, 1_000_000);
}

#[test]
fn create_sell_order_needs_funds() {
    let p = sell_protocol();
    let r = p.action_create_sell_box("alice".to_string(), 500_000, funding(1_000), 100, 1_000);
    assert_eq!(r, Err(ProtocolError::InsufficientFunds));
}

#[test]
fn created_sell_order_validates() {
    let p = sell_protocol();
    let tx = p
        .action_create_sell_box("alice".to_string(), 500_000, funding(1_000_000), 100, 1_000)
        .unwrap();
    let created = &tx.outputs[0];
    let record = LedgerBox {
        id: vec![0xaa],
        address: created.address.clone(),
        value: created.value,
        tokens: created.tokens.clone(),
        registers: created.registers.clone(),
    };
    let sb = SellBox::new(record, &SELL_CONTRACT.to_string()).unwrap();
    assert_eq!(sb.owner_address(), "alice".to_string());
    assert_eq!(sb.ask_amount(), 500_000);
    assert_eq!(sb.nano_ergs(), 999_000);
}

#[test]
fn sell_box_rejects_wrong_address() {
    let mut b = order_record(999_000, "alice", 500_000, Vec::new());
    b.address = "elsewhere".to_string();
    assert_eq!(
        SellBox::new(b, &SELL_CONTRACT.to_string()),
        Err(ProtocolError::SpecMismatch)
    );
}

#[test]
fn sell_box_rejects_missing_registers() {
    let mut b = order_record(999_000, "alice", 500_000, Vec::new());
    b.registers.pop();
    assert_eq!(
        SellBox::new(b, &SELL_CONTRACT.to_string()),
        Err(ProtocolError::SpecMismatch)
    );
}

#[test]
fn sell_box_rejects_undecodable_owner() {
    let mut b = order_record(999_000, "alice", 500_000, Vec::new());
    b.registers[0] = Constant::ByteColl(vec![0xff, 0xfe]);
    assert_eq!(
        SellBox::new(b, &SELL_CONTRACT.to_string()),
        Err(ProtocolError::SpecMismatch)
    );
}

#[test]
fn reclaim_refunds_owner_with_tokens() {
    // An order box of 999,000 at fee 1,000 returns 998,000 to the owner
    // address, tokens unchanged.
    let p = sell_protocol();
    let tokens = vec![Token { token_id: vec![7, 7], amount: 5 }];
    let sb = SellBox::new(
        order_record(999_000, "alice", 500_000, tokens.clone()),
        &SELL_CONTRACT.to_string(),
    )
    .unwrap();
    let tx = p.action_refund_sell_box(sb, 1_000, 101).unwrap();
    assert_eq!(tx.outputs.len(), 2);
    assert_eq!(tx.outputs[0].value, 998_000);
    assert_eq!(tx.outputs[0].address, "alice".to_string());
    assert_eq!(tx.outputs[0].tokens, tokens);
    assert_eq!(tx.outputs[1].value, 1_000);
    let in_total: u64 = tx.inputs.iter().map(|b| b.value).sum();
    let out_total: u64 = tx.outputs.iter().map(|c| c.value).sum();
    assert_eq!(in_total, out_total);
}

#[test]
fn reclaim_needs_value_above_fee() {
    let p = sell_protocol();
    let sb = SellBox::new(
        order_record(999, "alice", 500_000, Vec::new()),
        &SELL_CONTRACT.to_string(),
    )
    .unwrap();
    assert_eq!(p.action_refund_sell_box(sb, 1_000, 101), Err(ProtocolError::InvalidValue));
}

#[test]
fn execute_pays_exact_ask() {
    // Ask 500,000 with a counterparty of exactly 500,000 succeeds.
    let p = sell_protocol();
    let tokens = vec![Token { token_id: vec![7, 7], amount: 5 }];
    let sb = SellBox::new(
        order_record(999_000, "alice", 500_000, tokens.clone()),
        &SELL_CONTRACT.to_string(),
    )
    .unwrap();
    let tx = p.action_execute_sell_box(sb, value_box(500_000), 1_000, 102).unwrap();
    assert_eq!(tx.outputs.len(), 3);
    // The owner is paid the counterparty's whole value, tagged with the
    // order box's identity.
    assert_eq!(tx.outputs[0].value, 500_000);
    assert_eq!(tx.outputs[0].address, "alice".to_string());
    assert_eq!(tx.outputs[0].registers, vec![Constant::ByteColl(vec![4, 5, 6])]);
    // The fulfiller receives the order box's value and tokens, less the fee.
    assert_eq!(tx.outputs[1].value, 998_000);
    assert_eq!(tx.outputs[1].address, "fulfiller".to_string());
    assert_eq!(tx.outputs[1].tokens, tokens);
    assert_eq!(tx.outputs[2].value, 1_000);
    assert_eq!(tx.outputs[2].address, fee_address());
    let in_total: u64 = tx.inputs.iter().map(|b| b.value).sum();
    let out_total: u64 = tx.outputs.iter().map(|c| c.value).sum();
    assert_eq!(in_total, out_total);
}

#[test]
fn execute_rejects_underpayment() {
    // A counterparty one unit short of the ask is a spec mismatch.
    let p = sell_protocol();
    let sb = SellBox::new(
        order_record(999_000, "alice", 500_000, Vec::new()),
        &SELL_CONTRACT.to_string(),
    )
    .unwrap();
    let r = p.action_execute_sell_box(sb, value_box(499_999), 1_000, 102);
    assert_eq!(r, Err(ProtocolError::SpecMismatch));
}

#[test]
fn execute_accepts_overpayment() {
    // The demand is lower-bounded with no declared upper bound.
    let p = sell_protocol();
    let sb = SellBox::new(
        order_record(999_000, "alice", 500_000, Vec::new()),
        &SELL_CONTRACT.to_string(),
    )
    .unwrap();
    let tx = p.action_execute_sell_box(sb, value_box(600_000), 1_000, 102).unwrap();
    assert_eq!(tx.outputs[0].value, 600_000);
}

#[test]
fn sell_match_spec_satisfied_by_exact_payment() {
    // A record built to exactly satisfy the derived match spec matches it.
    let sb = SellBox::new(
        order_record(999_000, "alice", 500_000, Vec::new()),
        &SELL_CONTRACT.to_string(),
    )
    .unwrap();
    let spec = SellProtocol::get_sell_box_match_spec(&sb);
    assert!(ergo_orders::box_spec::matches(&spec, &value_box(500_000)));
    assert!(!ergo_orders::box_spec::matches(&spec, &value_box(499_999)));
}

#[test]
fn sell_match_spec_derivation_is_idempotent() {
    let sb = SellBox::new(
        order_record(999_000, "alice", 500_000, Vec::new()),
        &SELL_CONTRACT.to_string(),
    )
    .unwrap();
    let a = SellProtocol::get_sell_box_match_spec(&sb);
    let b = SellProtocol::get_sell_box_match_spec(&sb);
    assert_eq!(a, b);
}

#[test]
fn sell_conservation_across_actions() {
    // For every action, the outputs other than the fee box plus the fee add
    // up to the inputs.
    let p = sell_protocol();
    let fee: u64 = 1_000;
    let create_tx = p
        .action_create_sell_box("alice".to_string(), 500_000, funding(1_000_000), 100, fee)
        .unwrap();
    let sb = SellBox::new(
        order_record(999_000, "alice", 500_000, Vec::new()),
        &SELL_CONTRACT.to_string(),
    )
    .unwrap();
    let reclaim_tx = p
        .action_refund_sell_box(sb.clone(), fee, 101)
        .unwrap();
    let execute_tx = p.action_execute_sell_box(sb, value_box(500_000), fee, 102).unwrap();
    for tx in [create_tx, reclaim_tx, execute_tx] {
        let in_total: u64 = tx.inputs.iter().map(|b| b.value).sum();
        let non_fee: u64 = tx.outputs[..tx.outputs.len() - 1].iter().map(|c| c.value).sum();
        assert_eq!(non_fee + fee, in_total);
    }
}
