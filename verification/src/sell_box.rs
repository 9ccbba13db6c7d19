use vstd::prelude::*;

use crate::assembler::{
    assemble, boxes_model, candidate_model, create_candidate, fee_candidate_model,
    lemma_sum_box_values_push, lemma_sum_output_values_push, outputs_model, sum_box_values,
    sum_output_values, OutputCandidate, UnsignedTransaction,
};
use crate::box_spec::{
    spec_matches, AmountRange, BoxSpec, BoxSpecModel, RegisterSpec, RegisterSpecModel,
};
use crate::errors::ProtocolError;
use crate::ledger::{
    constant_type, copy_bytes, copy_constants, copy_tokens, Constant, ConstantModel, LedgerBox,
    LedgerBoxModel, SType, Token, TokenModel,
};
use crate::parsing::{constant_to_string, constant_to_u64, str_bytes_of, string_to_constant,
    u64_to_constant};

verus! {

/// A validated sell-order box: a ledger record at the sell contract address
/// whose registers encode `[owner address, ask amount]`.  The order owner
/// offers the record's value and asks to be paid at least the ask amount.
#[derive(Clone, Debug, PartialEq, Eq)]
pub struct SellBox {
    /// The underlying ledger record.
    pub inner: LedgerBox,
    /// The owner address decoded from the first register.
    pub owner: String,
    /// The ask amount decoded from the second register.
    pub ask: u64,
}

/// The box specification every sell-order record must satisfy: it sits at
/// the sell contract address, carries a positive value, and its first two
/// registers have the types of an owner address and an ask amount.
pub open spec fn spec_sell_box_spec(contract_address: Seq<char>) -> BoxSpecModel {
    BoxSpecModel {
        address: Some(contract_address),
        value_range: Some(AmountRange { min: 1, max: u64::MAX }),
        registers: seq![
            RegisterSpecModel { value_type: Some(SType::ByteColl), value: None },
            RegisterSpecModel { value_type: Some(SType::Long), value: None },
        ],
        tokens: Seq::empty(),
    }
}

/// Validity of a ledger record as a sell-order box for the given contract
/// address: it satisfies the sell box specification and its owner register
/// decodes to an address string.
pub open spec fn is_sell_order_box(contract_address: Seq<char>, b: LedgerBoxModel) -> bool {
    &&& spec_matches(spec_sell_box_spec(contract_address), b)
    &&& exists|s: Seq<char>| b.registers[0] == ConstantModel::ByteColl(str_bytes_of(s))
}

impl SellBox {
    /// The box specification every sell-order record must satisfy.
    pub fn box_spec(contract_address: &String) -> (r: BoxSpec)
        ensures
            r@ == spec_sell_box_spec(contract_address@),
    {
        let mut registers: Vec<RegisterSpec> = Vec::new();
        registers.push(RegisterSpec { value_type: Some(SType::ByteColl), value: None });
        registers.push(RegisterSpec { value_type: Some(SType::Long), value: None });
        let r = BoxSpec {
            address: Some(contract_address.clone()),
            value_range: Some(AmountRange { min: 1, max: u64::MAX }),
            registers,
            tokens: Vec::new(),
        };
        proof {
            assert(r@.registers =~= spec_sell_box_spec(contract_address@).registers);
            assert(r@.tokens =~= spec_sell_box_spec(contract_address@).tokens);
            assert(r@ =~= spec_sell_box_spec(contract_address@));
        }
        r
    }

    /// Validates a ledger record as a sell-order box and decodes its
    /// metadata.  Fails with `SpecMismatch` exactly when the record does not
    /// satisfy the sell box specification or its owner register is not the
    /// encoding of an address string.
    pub fn new(b: LedgerBox, contract_address: &String) -> (r: Result<SellBox, ProtocolError>)
        ensures
            (r matches Ok(sb) ==> {
                &&& sb.inner@ == b@
                &&& b@.registers[0] == ConstantModel::ByteColl(str_bytes_of(sb.owner@))
                &&& b@.registers[1] == ConstantModel::Long(sb.ask as i64)
            }),
            r is Ok <==> is_sell_order_box(contract_address@, b@),
            (r is Err ==> r == Err::<SellBox, ProtocolError>(ProtocolError::SpecMismatch)),
    {
        let ghost bm = b@;
        let sell_spec = SellBox::box_spec(contract_address);
        if !crate::box_spec::matches(&sell_spec, &b) {
            return Err(ProtocolError::SpecMismatch);
        }
        proof {
            assert(crate::box_spec::register_slot_ok(spec_sell_box_spec(contract_address@), bm, 0));
            assert(crate::box_spec::register_slot_ok(spec_sell_box_spec(contract_address@), bm, 1));
        }
        let owner = match constant_to_string(&b.registers[0]) {
            Some(s) => s,
            None => {
                return Err(ProtocolError::SpecMismatch);
            },
        };
        let ask = match constant_to_u64(&b.registers[1]) {
            Some(v) => v,
            None => {
                proof {
                    assert(constant_type(bm.registers[1]) == SType::Long);
                    assert(false);
                }
                return Err(ProtocolError::SpecMismatch);
            },
        };
        proof {
            let v = bm.registers[1]->Long_0;
            assert(ask as i64 == v) by (bit_vector)
                requires
                    ask == v as u64,
            ;
        }
        Ok(SellBox { inner: b, owner, ask })
    }

    /// The record's native value.
    pub fn nano_ergs(&self) -> (v: u64)
        ensures
            v == self.inner@.value,
    {
        self.inner.value
    }

    /// The record's asset entries.
    pub fn tokens(&self) -> (r: Vec<Token>)
        ensures
            r@.map_values(|t: Token| t@) == self.inner@.tokens,
    {
        copy_tokens(&self.inner.tokens)
    }

    /// The record's register slots.
    pub fn registers(&self) -> (r: Vec<Constant>)
        ensures
            r@.map_values(|c: Constant| c@) == self.inner@.registers,
    {
        copy_constants(&self.inner.registers)
    }

    /// The record's content-derived identity.
    pub fn box_id(&self) -> (r: Vec<u8>)
        ensures
            r@ == self.inner@.id,
    {
        copy_bytes(&self.inner.id)
    }

    /// The decoded owner address.
    pub fn owner_address(&self) -> (r: String)
        ensures
            r@ == self.owner@,
    {
        self.owner.clone()
    }

    /// The decoded ask amount.
    pub fn ask_amount(&self) -> (v: u64)
        ensures
            v == self.ask,
    {
        self.ask
    }
}

/// Model of the order record that a sell-order Create emits: the remaining
/// funding value at the contract address, no tokens, and registers encoding
/// the owner address and the ask amount.
pub open spec fn sell_order_candidate_model(
    contract_address: Seq<char>,
    owner: Seq<char>,
    order_amount: u64,
    value: u64,
    height: u64,
) -> crate::assembler::OutputCandidateModel {
    candidate_model(
        value,
        contract_address,
        Seq::empty(),
        seq![
            ConstantModel::ByteColl(str_bytes_of(owner)),
            ConstantModel::Long(order_amount as i64),
        ],
        height,
    )
}

/// The specification a record fulfilling a sell order must satisfy: it pays
/// at least the ask amount, with no declared upper bound; its address is
/// unconstrained, since any value box can pay the order.
pub open spec fn spec_sell_match_spec(ask: u64) -> BoxSpecModel {
    BoxSpecModel {
        address: None,
        value_range: Some(AmountRange { min: ask, max: u64::MAX }),
        registers: Seq::empty(),
        tokens: Seq::empty(),
    }
}

/// The canonical counterparty of a sell order: a record paying exactly the
/// ask amount.
pub open spec fn sell_counterparty_witness(ask: u64) -> LedgerBoxModel {
    LedgerBoxModel {
        id: Seq::empty(),
        address: Seq::empty(),
        value: ask,
        tokens: Seq::empty(),
        registers: Seq::empty(),
    }
}

/// Self-consistency of match derivation: a record built to exactly satisfy a
/// sell order's derived match specification does satisfy it.
pub proof fn lemma_sell_match_spec_satisfiable(ask: u64)
    ensures
        spec_matches(spec_sell_match_spec(ask), sell_counterparty_witness(ask)),
{
}

/// Derivation idempotence: two match specifications derived from the same
/// sell box are structurally equal.
pub proof fn lemma_sell_derivation_idempotent(a: BoxSpec, b: BoxSpec, sell_box: SellBox)
    requires
        a@ == spec_sell_match_spec(sell_box.ask),
        b@ == spec_sell_match_spec(sell_box.ask),
    ensures
        a@ == b@,
{
}

/// The sell-order protocol: stateless Create / Reclaim / Execute actions and
/// match-spec derivation over validated sell boxes.  The per-network contract
/// address is process-wide configuration resolved at startup.
pub struct SellProtocol {
    pub contract_address: String,
}

impl SellProtocol {
    /// A sell protocol instance for the given per-network contract address.
    pub fn new(contract_address: String) -> (r: SellProtocol)
        ensures
            r.contract_address@ == contract_address@,
    {
        SellProtocol { contract_address }
    }

    /// Creates a sell-order box from a funding box.
    ///
    /// Fails with `InsufficientFunds` exactly when the funding box does not
    /// cover the fee with a positive remainder, and with `InvalidValue` when
    /// the fee itself is zero.  On success the transaction consumes the
    /// funding box and emits the order record followed by the fee record,
    /// conserving value.
    pub fn action_create_sell_box(
        &self,
        order_owner: String,
        order_amount: u64,
        ergs_box_to_sell: LedgerBox,
        current_height: u64,
        tx_fee: u64,
    ) -> (r: Result<UnsignedTransaction, ProtocolError>)
        ensures
            (ergs_box_to_sell@.value <= tx_fee ==> r == Err::<UnsignedTransaction, ProtocolError>(
                ProtocolError::InsufficientFunds,
            )),
            (ergs_box_to_sell@.value > tx_fee && tx_fee == 0 ==> r == Err::<
                UnsignedTransaction,
                ProtocolError,
            >(ProtocolError::InvalidValue)),
            ergs_box_to_sell@.value > tx_fee && tx_fee > 0 ==> (r matches Ok(tx) && {
                &&& tx@.inputs == seq![ergs_box_to_sell@]
                &&& tx@.data_inputs == Seq::<LedgerBoxModel>::empty()
                &&& tx@.outputs == seq![
                    sell_order_candidate_model(
                        self.contract_address@,
                        order_owner@,
                        order_amount,
                        (ergs_box_to_sell@.value - tx_fee) as u64,
                        current_height,
                    ),
                    fee_candidate_model(tx_fee, current_height),
                ]
                &&& sum_output_values(tx@.outputs) == sum_box_values(tx@.inputs)
                &&& sum_output_values(tx@.outputs.drop_last()) + tx_fee == sum_box_values(
                    tx@.inputs,
                )
            }),
    {
        let ghost fbm = ergs_box_to_sell@;
        let ghost ownerm = order_owner@;
        if ergs_box_to_sell.value <= tx_fee {
            return Err(ProtocolError::InsufficientFunds);
        }
        let value_after_fee = ergs_box_to_sell.value - tx_fee;
        let mut registers: Vec<Constant> = Vec::new();
        registers.push(string_to_constant(order_owner));
        registers.push(u64_to_constant(order_amount));
        let no_tokens: Vec<Token> = Vec::new();
        let order_candidate = match create_candidate(
            value_after_fee,
            &self.contract_address,
            &no_tokens,
            &registers,
            current_height,
        ) {
            Ok(c) => c,
            Err(e) => {
                proof {
                    assert(false);
                }
                return Err(e);
            },
        };
        proof {
            assert(no_tokens@.map_values(|t: Token| t@) =~= Seq::<TokenModel>::empty());
            assert(registers@.map_values(|c0: Constant| c0@) =~= seq![
                ConstantModel::ByteColl(str_bytes_of(ownerm)),
                ConstantModel::Long(order_amount as i64),
            ]);
            assert(order_candidate@ == sell_order_candidate_model(
                self.contract_address@,
                ownerm,
                order_amount,
                value_after_fee,
                current_height,
            ));
        }
        let mut outputs: Vec<OutputCandidate> = Vec::new();
        outputs.push(order_candidate);
        let mut inputs: Vec<LedgerBox> = Vec::new();
        inputs.push(ergs_box_to_sell);
        proof {
            assert(boxes_model(inputs@) =~= seq![fbm]);
            lemma_sum_box_values_push(Seq::empty(), fbm);
            assert(Seq::<LedgerBoxModel>::empty().push(fbm) =~= seq![fbm]);
            lemma_sum_output_values_push(
                Seq::empty(),
                sell_order_candidate_model(
                    self.contract_address@,
                    ownerm,
                    order_amount,
                    value_after_fee,
                    current_height,
                ),
            );
            assert(outputs_model(outputs@) =~= Seq::empty().push(order_candidate@));
        }
        let r = assemble(inputs, outputs, tx_fee, current_height);
        proof {
            if tx_fee > 0 {
                let tx = r->Ok_0;
                lemma_sum_output_values_push(
                    outputs_model(outputs@),
                    fee_candidate_model(tx_fee, current_height),
                );
                assert(tx@.outputs =~= seq![
                    sell_order_candidate_model(
                        self.contract_address@,
                        ownerm,
                        order_amount,
                        value_after_fee,
                        current_height,
                    ),
                    fee_candidate_model(tx_fee, current_height),
                ]);
                assert(tx@.outputs.drop_last() =~= outputs_model(outputs@));
            }
        }
        r
    }

    /// Reclaims a sell-order box: refunds its value, less the fee, to the
    /// decoded owner address, returning the box's tokens unchanged.
    ///
    /// Fails with `InvalidValue` exactly when the order box does not cover
    /// the fee with a positive remainder or the fee is zero.
    pub fn action_refund_sell_box(
        &self,
        sell_box: SellBox,
        tx_fee: u64,
        current_height: u64,
    ) -> (r: Result<UnsignedTransaction, ProtocolError>)
        ensures
            (sell_box.inner@.value <= tx_fee || tx_fee == 0 ==> r == Err::<
                UnsignedTransaction,
                ProtocolError,
            >(ProtocolError::InvalidValue)),
            sell_box.inner@.value > tx_fee && tx_fee > 0 ==> (r matches Ok(tx) && {
                &&& tx@.inputs == seq![sell_box.inner@]
                &&& tx@.data_inputs == Seq::<LedgerBoxModel>::empty()
                &&& tx@.outputs == seq![
                    candidate_model(
                        (sell_box.inner@.value - tx_fee) as u64,
                        sell_box.owner@,
                        sell_box.inner@.tokens,
                        Seq::empty(),
                        current_height,
                    ),
                    fee_candidate_model(tx_fee, current_height),
                ]
                &&& sum_output_values(tx@.outputs) == sum_box_values(tx@.inputs)
                &&& sum_output_values(tx@.outputs.drop_last()) + tx_fee == sum_box_values(
                    tx@.inputs,
                )
            }),
    {
        let SellBox { inner, owner, ask: _ } = sell_box;
        let ghost bm = inner@;
        let ghost ownerm = owner@;
        if inner.value <= tx_fee {
            return Err(ProtocolError::InvalidValue);
        }
        let refund_value = inner.value - tx_fee;
        let refund_tokens = copy_tokens(&inner.tokens);
        let no_registers: Vec<Constant> = Vec::new();
        let refund_candidate = match create_candidate(
            refund_value,
            &owner,
            &refund_tokens,
            &no_registers,
            current_height,
        ) {
            Ok(c) => c,
            Err(e) => {
                proof {
                    assert(false);
                }
                return Err(e);
            },
        };
        proof {
            assert(no_registers@.map_values(|c0: Constant| c0@) =~= Seq::<ConstantModel>::empty());
            assert(refund_candidate@ == candidate_model(
                refund_value,
                ownerm,
                bm.tokens,
                Seq::empty(),
                current_height,
            ));
        }
        let mut outputs: Vec<OutputCandidate> = Vec::new();
        outputs.push(refund_candidate);
        let mut inputs: Vec<LedgerBox> = Vec::new();
        inputs.push(inner);
        proof {
            assert(boxes_model(inputs@) =~= seq![bm]);
            lemma_sum_box_values_push(Seq::empty(), bm);
            assert(Seq::<LedgerBoxModel>::empty().push(bm) =~= seq![bm]);
            lemma_sum_output_values_push(Seq::empty(), refund_candidate@);
            assert(outputs_model(outputs@) =~= Seq::empty().push(refund_candidate@));
        }
        let r = assemble(inputs, outputs, tx_fee, current_height);
        proof {
            if tx_fee > 0 {
                let tx = r->Ok_0;
                lemma_sum_output_values_push(
                    outputs_model(outputs@),
                    fee_candidate_model(tx_fee, current_height),
                );
                assert(tx@.outputs =~= seq![
                    candidate_model(refund_value, ownerm, bm.tokens, Seq::empty(), current_height),
                    fee_candidate_model(tx_fee, current_height),
                ]);
                assert(tx@.outputs.drop_last() =~= outputs_model(outputs@));
            }
        }
        r
    }

    /// Executes a sell order against a fulfilling value box.
    ///
    /// The candidate is re-validated against the order's derived match
    /// specification even if the caller already filtered it upstream — the
    /// discovery set may be stale — and the action fails with `SpecMismatch`
    /// exactly when it does not satisfy the specification.  On success the
    /// order owner is paid the fulfilling box's whole value in a record
    /// tagged with the order box's identity, and the fulfiller receives the
    /// order box's value and tokens, paying the fee from that reward.
    pub fn action_execute_sell_box(
        &self,
        sell_box: SellBox,
        ergs_box_to_fulfill_order: LedgerBox,
        tx_fee: u64,
        current_height: u64,
    ) -> (r: Result<UnsignedTransaction, ProtocolError>)
        ensures
            (!spec_matches(spec_sell_match_spec(sell_box.ask), ergs_box_to_fulfill_order@) ==> r
                == Err::<UnsignedTransaction, ProtocolError>(ProtocolError::SpecMismatch)),
            (spec_matches(spec_sell_match_spec(sell_box.ask), ergs_box_to_fulfill_order@) && (
            ergs_box_to_fulfill_order@.value == 0 || sell_box.inner@.value <= tx_fee || tx_fee == 0)
                ==> r == Err::<UnsignedTransaction, ProtocolError>(ProtocolError::InvalidValue)),
            spec_matches(spec_sell_match_spec(sell_box.ask), ergs_box_to_fulfill_order@)
                && ergs_box_to_fulfill_order@.value > 0 && sell_box.inner@.value > tx_fee && tx_fee
                > 0 ==> (r matches Ok(tx) && {
                &&& tx@.inputs == seq![sell_box.inner@, ergs_box_to_fulfill_order@]
                &&& tx@.data_inputs == Seq::<LedgerBoxModel>::empty()
                &&& tx@.outputs == seq![
                    candidate_model(
                        ergs_box_to_fulfill_order@.value,
                        sell_box.owner@,
                        Seq::empty(),
                        seq![ConstantModel::ByteColl(sell_box.inner@.id)],
                        current_height,
                    ),
                    candidate_model(
                        (sell_box.inner@.value - tx_fee) as u64,
                        ergs_box_to_fulfill_order@.address,
                        sell_box.inner@.tokens,
                        Seq::empty(),
                        current_height,
                    ),
                    fee_candidate_model(tx_fee, current_height),
                ]
                &&& sum_output_values(tx@.outputs) == sum_box_values(tx@.inputs)
                &&& sum_output_values(tx@.outputs.drop_last()) + tx_fee == sum_box_values(
                    tx@.inputs,
                )
            }),
    {
        let match_spec = SellProtocol::get_sell_box_match_spec(&sell_box);
        if !crate::box_spec::matches(&match_spec, &ergs_box_to_fulfill_order) {
            return Err(ProtocolError::SpecMismatch);
        }
        let SellBox { inner, owner, ask: _ } = sell_box;
        let cp = ergs_box_to_fulfill_order;
        let ghost bm = inner@;
        let ghost cpm = cp@;
        let ghost ownerm = owner@;
        if cp.value == 0 || inner.value <= tx_fee {
            return Err(ProtocolError::InvalidValue);
        }
        let reward_value = inner.value - tx_fee;
        let mut payout_registers: Vec<Constant> = Vec::new();
        payout_registers.push(Constant::ByteColl(copy_bytes(&inner.id)));
        let no_tokens: Vec<Token> = Vec::new();
        let payout_candidate = match create_candidate(
            cp.value,
            &owner,
            &no_tokens,
            &payout_registers,
            current_height,
        ) {
            Ok(c) => c,
            Err(e) => {
                proof {
                    assert(false);
                }
                return Err(e);
            },
        };
        let reward_tokens = copy_tokens(&inner.tokens);
        let no_registers: Vec<Constant> = Vec::new();
        let reward_candidate = match create_candidate(
            reward_value,
            &cp.address,
            &reward_tokens,
            &no_registers,
            current_height,
        ) {
            Ok(c) => c,
            Err(e) => {
                proof {
                    assert(false);
                }
                return Err(e);
            },
        };
        proof {
            assert(no_tokens@.map_values(|t: Token| t@) =~= Seq::<TokenModel>::empty());
            assert(no_registers@.map_values(|c0: Constant| c0@) =~= Seq::<ConstantModel>::empty());
            assert(payout_registers@.map_values(|c0: Constant| c0@) =~= seq![
                ConstantModel::ByteColl(bm.id),
            ]);
            assert(payout_candidate@ == candidate_model(
                cpm.value,
                ownerm,
                Seq::empty(),
                seq![ConstantModel::ByteColl(bm.id)],
                current_height,
            ));
            assert(reward_candidate@ == candidate_model(
                reward_value,
                cpm.address,
                bm.tokens,
                Seq::empty(),
                current_height,
            ));
        }
        let mut outputs: Vec<OutputCandidate> = Vec::new();
        outputs.push(payout_candidate);
        outputs.push(reward_candidate);
        let mut inputs: Vec<LedgerBox> = Vec::new();
        inputs.push(inner);
        inputs.push(cp);
        proof {
            assert(boxes_model(inputs@) =~= seq![bm].push(cpm));
            assert(seq![bm] =~= Seq::<LedgerBoxModel>::empty().push(bm));
            lemma_sum_box_values_push(Seq::empty(), bm);
            lemma_sum_box_values_push(seq![bm], cpm);
            assert(outputs_model(outputs@) =~= Seq::empty().push(payout_candidate@).push(
                reward_candidate@,
            ));
            lemma_sum_output_values_push(Seq::empty(), payout_candidate@);
            lemma_sum_output_values_push(Seq::empty().push(payout_candidate@), reward_candidate@);
        }
        let r = assemble(inputs, outputs, tx_fee, current_height);
        proof {
            if tx_fee > 0 {
                let tx = r->Ok_0;
                lemma_sum_output_values_push(
                    outputs_model(outputs@),
                    fee_candidate_model(tx_fee, current_height),
                );
                assert(tx@.inputs =~= seq![bm, cpm]);
                assert(tx@.outputs =~= seq![
                    candidate_model(
                        cpm.value,
                        ownerm,
                        Seq::empty(),
                        seq![ConstantModel::ByteColl(bm.id)],
                        current_height,
                    ),
                    candidate_model(
                        reward_value,
                        cpm.address,
                        bm.tokens,
                        Seq::empty(),
                        current_height,
                    ),
                    fee_candidate_model(tx_fee, current_height),
                ]);
                assert(tx@.outputs.drop_last() =~= outputs_model(outputs@));
            }
        }
        r
    }

    /// Derives the specification a record fulfilling the given sell order
    /// must satisfy: a value of at least the ask amount, with no declared
    /// upper bound and no address constraint.
    pub fn get_sell_box_match_spec(sell_box: &SellBox) -> (r: BoxSpec)
        ensures
            r@ == spec_sell_match_spec(sell_box.ask),
    {
        let r = BoxSpec {
            address: None,
            value_range: Some(AmountRange { min: sell_box.ask, max: u64::MAX }),
            registers: Vec::new(),
            tokens: Vec::new(),
        };
        proof {
            assert(r@.registers =~= spec_sell_match_spec(sell_box.ask).registers);
            assert(r@.tokens =~= spec_sell_match_spec(sell_box.ask).tokens);
            assert(r@ =~= spec_sell_match_spec(sell_box.ask));
        }
        r
    }
}

} // verus!
