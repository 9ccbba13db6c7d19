use vstd::prelude::*;

use crate::assembler::{
    assemble, boxes_model, candidate_model, create_candidate, fee_candidate_model,
    lemma_sum_box_values_push, lemma_sum_output_values_push, outputs_model, sum_box_values,
    sum_output_values, OutputCandidate, UnsignedTransaction,
};
use crate::box_spec::{
    spec_matches, AmountRange, BoxSpec, BoxSpecModel, RegisterSpec, RegisterSpecModel, TokenSpec,
    TokenSpecModel,
};
use crate::errors::ProtocolError;
use crate::ledger::{
    constant_type, copy_bytes, copy_constants, copy_tokens, Constant, ConstantModel, LedgerBox,
    LedgerBoxModel, SType, Token, TokenModel,
};
use crate::parsing::{constant_to_string, constant_to_u64, str_bytes_of, string_to_constant,
    u64_to_constant};

verus! {

/// A validated swap-order box: a ledger record at the swap contract address
/// offering its first token and demanding another.  Its registers encode
/// `[owner address, demanded token id, demanded amount]` and its first token
/// entry is the asset offered.
#[derive(Clone, Debug, PartialEq, Eq)]
pub struct SwapBox {
    /// The underlying ledger record.
    pub inner: LedgerBox,
    /// The owner address decoded from the first register.
    pub owner: String,
    /// The identifier of the asset offered: the record's first token entry.
    pub offered_token_id: Vec<u8>,
    /// The demanded token identifier decoded from the second register.
    pub demanded_token_id: Vec<u8>,
    /// The demanded amount decoded from the third register.
    pub demanded_amount: u64,
}

/// The box specification every swap-order record must satisfy: it sits at
/// the swap contract address, its first three registers have the types of an
/// owner address, a demanded token id and a demanded amount, and its first
/// token slot carries the offered asset with a positive amount.
pub open spec fn spec_swap_box_spec(contract_address: Seq<char>) -> BoxSpecModel {
    BoxSpecModel {
        address: Some(contract_address),
        value_range: None,
        registers: seq![
            RegisterSpecModel { value_type: Some(SType::ByteColl), value: None },
            RegisterSpecModel { value_type: Some(SType::ByteColl), value: None },
            RegisterSpecModel { value_type: Some(SType::Long), value: None },
        ],
        tokens: seq![
            Some(TokenSpecModel {
                value_range: AmountRange { min: 1, max: u64::MAX },
                token_id: None,
            }),
        ],
    }
}

/// Validity of a ledger record as a swap-order box for the given contract
/// address: it satisfies the swap box specification and its owner register
/// decodes to an address string.
pub open spec fn is_swap_order_box(contract_address: Seq<char>, b: LedgerBoxModel) -> bool {
    &&& spec_matches(spec_swap_box_spec(contract_address), b)
    &&& exists|s: Seq<char>| b.registers[0] == ConstantModel::ByteColl(str_bytes_of(s))
}

impl SwapBox {
    /// The box specification every swap-order record must satisfy.
    pub fn box_spec(contract_address: &String) -> (r: BoxSpec)
        ensures
            r@ == spec_swap_box_spec(contract_address@),
    {
        let mut registers: Vec<RegisterSpec> = Vec::new();
        registers.push(RegisterSpec { value_type: Some(SType::ByteColl), value: None });
        registers.push(RegisterSpec { value_type: Some(SType::ByteColl), value: None });
        registers.push(RegisterSpec { value_type: Some(SType::Long), value: None });
        let mut tokens: Vec<Option<TokenSpec>> = Vec::new();
        tokens.push(
            Some(TokenSpec { value_range: AmountRange { min: 1, max: u64::MAX }, token_id: None }),
        );
        let r = BoxSpec {
            address: Some(contract_address.clone()),
            value_range: None,
            registers,
            tokens,
        };
        proof {
            assert(r@.registers =~= spec_swap_box_spec(contract_address@).registers);
            assert(r@.tokens =~= spec_swap_box_spec(contract_address@).tokens);
            assert(r@ =~= spec_swap_box_spec(contract_address@));
        }
        r
    }

    /// Validates a ledger record as a swap-order box and decodes its
    /// metadata.  Fails with `SpecMismatch` exactly when the record does not
    /// satisfy the swap box specification or its owner register is not the
    /// encoding of an address string.
    pub fn new(b: LedgerBox, contract_address: &String) -> (r: Result<SwapBox, ProtocolError>)
        ensures
            (r matches Ok(sb) ==> {
                &&& sb.inner@ == b@
                &&& b@.registers[0] == ConstantModel::ByteColl(str_bytes_of(sb.owner@))
                &&& b@.registers[1] == ConstantModel::ByteColl(sb.demanded_token_id@)
                &&& b@.registers[2] == ConstantModel::Long(sb.demanded_amount as i64)
                &&& b@.tokens.len() >= 1 && sb.offered_token_id@ == b@.tokens[0].token_id
            }),
            r is Ok <==> is_swap_order_box(contract_address@, b@),
            (r is Err ==> r == Err::<SwapBox, ProtocolError>(ProtocolError::SpecMismatch)),
    {
        let ghost bm = b@;
        let swap_spec = SwapBox::box_spec(contract_address);
        if !crate::box_spec::matches(&swap_spec, &b) {
            return Err(ProtocolError::SpecMismatch);
        }
        proof {
            assert(crate::box_spec::register_slot_ok(spec_swap_box_spec(contract_address@), bm, 0));
            assert(crate::box_spec::register_slot_ok(spec_swap_box_spec(contract_address@), bm, 1));
            assert(crate::box_spec::register_slot_ok(spec_swap_box_spec(contract_address@), bm, 2));
            assert(crate::box_spec::token_slot_ok(spec_swap_box_spec(contract_address@), bm, 0));
        }
        let owner = match constant_to_string(&b.registers[0]) {
            Some(s) => s,
            None => {
                return Err(ProtocolError::SpecMismatch);
            },
        };
        let demanded_token_id = match &b.registers[1] {
            Constant::ByteColl(bytes) => copy_bytes(bytes),
            Constant::Long(_) => {
                proof {
                    assert(constant_type(bm.registers[1]) == SType::ByteColl);
                    assert(false);
                }
                return Err(ProtocolError::SpecMismatch);
            },
        };
        let demanded_amount = match constant_to_u64(&b.registers[2]) {
            Some(v) => v,
            None => {
                proof {
                    assert(constant_type(bm.registers[2]) == SType::Long);
                    assert(false);
                }
                return Err(ProtocolError::SpecMismatch);
            },
        };
        proof {
            let v = bm.registers[2]->Long_0;
            assert(demanded_amount as i64 == v) by (bit_vector)
                requires
                    demanded_amount == v as u64,
            ;
        }
        let offered_token_id = copy_bytes(&b.tokens[0].token_id);
        Ok(SwapBox { inner: b, owner, offered_token_id, demanded_token_id, demanded_amount })
    }

    /// The record's native value.
    pub fn nano_ergs(&self) -> (v: u64)
        ensures
            v == self.inner@.value,
    {
        self.inner.value
    }

    /// The record's asset entries.
    pub fn tokens(&self) -> (r: Vec<Token>)
        ensures
            r@.map_values(|t: Token| t@) == self.inner@.tokens,
    {
        copy_tokens(&self.inner.tokens)
    }

    /// The record's register slots.
    pub fn registers(&self) -> (r: Vec<Constant>)
        ensures
            r@.map_values(|c: Constant| c@) == self.inner@.registers,
    {
        copy_constants(&self.inner.registers)
    }

    /// The record's content-derived identity.
    pub fn box_id(&self) -> (r: Vec<u8>)
        ensures
            r@ == self.inner@.id,
    {
        copy_bytes(&self.inner.id)
    }

    /// The decoded owner address.
    pub fn owner_address(&self) -> (r: String)
        ensures
            r@ == self.owner@,
    {
        self.owner.clone()
    }

    /// The decoded demanded amount.
    pub fn order_amount(&self) -> (v: u64)
        ensures
            v == self.demanded_amount,
    {
        self.demanded_amount
    }
}

/// The specification a record fulfilling a swap order must satisfy: another
/// swap-order record — at the swap contract address, with swap-shaped
/// registers whose demanded token id is exactly the asset this order offers —
/// carrying at least the demanded amount of the demanded token at its first
/// token slot.
pub open spec fn spec_swap_match_spec(
    contract_address: Seq<char>,
    offered_token_id: Seq<u8>,
    demanded_token_id: Seq<u8>,
    demanded_amount: u64,
) -> BoxSpecModel {
    BoxSpecModel {
        address: Some(contract_address),
        value_range: None,
        registers: seq![
            RegisterSpecModel { value_type: Some(SType::ByteColl), value: None },
            RegisterSpecModel {
                value_type: Some(SType::ByteColl),
                value: Some(ConstantModel::ByteColl(offered_token_id)),
            },
            RegisterSpecModel { value_type: Some(SType::Long), value: None },
        ],
        tokens: seq![
            Some(TokenSpecModel {
                value_range: AmountRange { min: demanded_amount, max: u64::MAX },
                token_id: Some(demanded_token_id),
            }),
        ],
    }
}

/// The canonical counterparty of a swap order: a swap-shaped record at the
/// contract address offering exactly the demanded amount of the demanded
/// token and demanding the asset the order offers.
pub open spec fn swap_counterparty_witness(
    contract_address: Seq<char>,
    offered_token_id: Seq<u8>,
    demanded_token_id: Seq<u8>,
    demanded_amount: u64,
) -> LedgerBoxModel {
    LedgerBoxModel {
        id: Seq::empty(),
        address: contract_address,
        value: 1,
        tokens: seq![TokenModel { token_id: demanded_token_id, amount: demanded_amount }],
        registers: seq![
            ConstantModel::ByteColl(Seq::empty()),
            ConstantModel::ByteColl(offered_token_id),
            ConstantModel::Long(0),
        ],
    }
}

/// Self-consistency of match derivation: a record built to exactly satisfy a
/// swap order's derived match specification does satisfy it.
pub proof fn lemma_swap_match_spec_satisfiable(
    contract_address: Seq<char>,
    offered_token_id: Seq<u8>,
    demanded_token_id: Seq<u8>,
    demanded_amount: u64,
)
    ensures
        spec_matches(
            spec_swap_match_spec(
                contract_address,
                offered_token_id,
                demanded_token_id,
                demanded_amount,
            ),
            swap_counterparty_witness(
                contract_address,
                offered_token_id,
                demanded_token_id,
                demanded_amount,
            ),
        ),
{
    let s = spec_swap_match_spec(
        contract_address,
        offered_token_id,
        demanded_token_id,
        demanded_amount,
    );
    let b = swap_counterparty_witness(
        contract_address,
        offered_token_id,
        demanded_token_id,
        demanded_amount,
    );
    assert forall|i: int| 0 <= i < s.tokens.len() implies #[trigger] crate::box_spec::token_slot_ok(
        s,
        b,
        i,
    ) by {
        assert(i == 0);
    }
    assert forall|i: int| 0 <= i < s.registers.len() implies #[trigger] crate::box_spec::register_slot_ok(
        s,
        b,
        i,
    ) by {
        assert(0 <= i < 3);
    }
}

/// Derivation idempotence: two match specifications derived from the same
/// swap box are structurally equal.
pub proof fn lemma_swap_derivation_idempotent(
    a: BoxSpec,
    b: BoxSpec,
    contract_address: Seq<char>,
    swap_box: SwapBox,
)
    requires
        a@ == spec_swap_match_spec(
            contract_address,
            swap_box.offered_token_id@,
            swap_box.demanded_token_id@,
            swap_box.demanded_amount,
        ),
        b@ == spec_swap_match_spec(
            contract_address,
            swap_box.offered_token_id@,
            swap_box.demanded_token_id@,
            swap_box.demanded_amount,
        ),
    ensures
        a@ == b@,
{
}

/// The swap-order protocol: stateless Create / Reclaim / Execute actions,
/// match-spec derivation and candidate selection over validated swap boxes.
/// The per-network contract address is process-wide configuration resolved at
/// startup.
pub struct SwapProtocol {
    pub contract_address: String,
}

impl SwapProtocol {
    /// A swap protocol instance for the given per-network contract address.
    pub fn new(contract_address: String) -> (r: SwapProtocol)
        ensures
            r.contract_address@ == contract_address@,
    {
        SwapProtocol { contract_address }
    }

    /// Creates a swap-order box from a funding box, carrying all of the
    /// funding box's tokens as the offered asset.
    ///
    /// Fails with `InsufficientFunds` exactly when the funding box does not
    /// cover the fee with a positive remainder, and with `InvalidValue` when
    /// the fee itself is zero.  On success the transaction consumes the
    /// funding box and emits the order record followed by the fee record,
    /// conserving value.
    pub fn action_create_swap_box(
        &self,
        order_owner: String,
        order_token_id: String,
        order_amount: u64,
        ergs_box_for_swap: LedgerBox,
        current_height: u64,
        transaction_fee: u64,
    ) -> (r: Result<UnsignedTransaction, ProtocolError>)
        ensures
            (ergs_box_for_swap@.value <= transaction_fee ==> r == Err::<
                UnsignedTransaction,
                ProtocolError,
            >(ProtocolError::InsufficientFunds)),
            (ergs_box_for_swap@.value > transaction_fee && transaction_fee == 0 ==> r == Err::<
                UnsignedTransaction,
                ProtocolError,
            >(ProtocolError::InvalidValue)),
            ergs_box_for_swap@.value > transaction_fee && transaction_fee > 0 ==> (r matches Ok(tx)
                && {
                &&& tx@.inputs == seq![ergs_box_for_swap@]
                &&& tx@.data_inputs == Seq::<LedgerBoxModel>::empty()
                &&& tx@.outputs == seq![
                    candidate_model(
                        (ergs_box_for_swap@.value - transaction_fee) as u64,
                        self.contract_address@,
                        ergs_box_for_swap@.tokens,
                        seq![
                            ConstantModel::ByteColl(str_bytes_of(order_owner@)),
                            ConstantModel::ByteColl(str_bytes_of(order_token_id@)),
                            ConstantModel::Long(order_amount as i64),
                        ],
                        current_height,
                    ),
                    fee_candidate_model(transaction_fee, current_height),
                ]
                &&& sum_output_values(tx@.outputs) == sum_box_values(tx@.inputs)
                &&& sum_output_values(tx@.outputs.drop_last()) + transaction_fee == sum_box_values(
                    tx@.inputs,
                )
            }),
    {
        let ghost fbm = ergs_box_for_swap@;
        let ghost ownerm = order_owner@;
        let ghost tidm = order_token_id@;
        if ergs_box_for_swap.value <= transaction_fee {
            return Err(ProtocolError::InsufficientFunds);
        }
        let value_after_fee = ergs_box_for_swap.value - transaction_fee;
        let mut registers: Vec<Constant> = Vec::new();
        registers.push(string_to_constant(order_owner));
        registers.push(string_to_constant(order_token_id));
        registers.push(u64_to_constant(order_amount));
        let order_tokens = copy_tokens(&ergs_box_for_swap.tokens);
        let order_candidate = match create_candidate(
            value_after_fee,
            &self.contract_address,
            &order_tokens,
            &registers,
            current_height,
        ) {
            Ok(c) => c,
            Err(e) => {
                proof {
                    assert(false);
                }
                return Err(e);
            },
        };
        proof {
            assert(registers@.map_values(|c0: Constant| c0@) =~= seq![
                ConstantModel::ByteColl(str_bytes_of(ownerm)),
                ConstantModel::ByteColl(str_bytes_of(tidm)),
                ConstantModel::Long(order_amount as i64),
            ]);
            assert(order_candidate@ == candidate_model(
                value_after_fee,
                self.contract_address@,
                fbm.tokens,
                seq![
                    ConstantModel::ByteColl(str_bytes_of(ownerm)),
                    ConstantModel::ByteColl(str_bytes_of(tidm)),
                    ConstantModel::Long(order_amount as i64),
                ],
                current_height,
            ));
        }
        let mut outputs: Vec<OutputCandidate> = Vec::new();
        outputs.push(order_candidate);
        let mut inputs: Vec<LedgerBox> = Vec::new();
        inputs.push(ergs_box_for_swap);
        proof {
            assert(boxes_model(inputs@) =~= seq![fbm]);
            lemma_sum_box_values_push(Seq::empty(), fbm);
            assert(Seq::<LedgerBoxModel>::empty().push(fbm) =~= seq![fbm]);
            lemma_sum_output_values_push(Seq::empty(), order_candidate@);
            assert(outputs_model(outputs@) =~= Seq::empty().push(order_candidate@));
        }
        let r = assemble(inputs, outputs, transaction_fee, current_height);
        proof {
            if transaction_fee > 0 {
                let tx = r->Ok_0;
                lemma_sum_output_values_push(
                    outputs_model(outputs@),
                    fee_candidate_model(transaction_fee, current_height),
                );
                assert(tx@.outputs =~= seq![
                    order_candidate@,
                    fee_candidate_model(transaction_fee, current_height),
                ]);
                assert(tx@.outputs.drop_last() =~= outputs_model(outputs@));
            }
        }
        r
    }

    /// Reclaims a swap-order box: refunds its value, less the fee, to the
    /// decoded owner address, returning the box's tokens unchanged.
    ///
    /// Fails with `InvalidValue` exactly when the order box does not cover
    /// the fee with a positive remainder or the fee is zero.
    pub fn action_reclaim_swap(
        &self,
        swap_box_to_reclaim: SwapBox,
        current_height: u64,
        transaction_fee: u64,
    ) -> (r: Result<UnsignedTransaction, ProtocolError>)
        ensures
            (swap_box_to_reclaim.inner@.value <= transaction_fee || transaction_fee == 0 ==> r
                == Err::<UnsignedTransaction, ProtocolError>(ProtocolError::InvalidValue)),
            swap_box_to_reclaim.inner@.value > transaction_fee && transaction_fee > 0 ==> (
            r matches Ok(tx) && {
                &&& tx@.inputs == seq![swap_box_to_reclaim.inner@]
                &&& tx@.data_inputs == Seq::<LedgerBoxModel>::empty()
                &&& tx@.outputs == seq![
                    candidate_model(
                        (swap_box_to_reclaim.inner@.value - transaction_fee) as u64,
                        swap_box_to_reclaim.owner@,
                        swap_box_to_reclaim.inner@.tokens,
                        Seq::empty(),
                        current_height,
                    ),
                    fee_candidate_model(transaction_fee, current_height),
                ]
                &&& sum_output_values(tx@.outputs) == sum_box_values(tx@.inputs)
                &&& sum_output_values(tx@.outputs.drop_last()) + transaction_fee == sum_box_values(
                    tx@.inputs,
                )
            }),
    {
        let SwapBox { inner, owner, offered_token_id: _, demanded_token_id: _, demanded_amount: _ }
            = swap_box_to_reclaim;
        let ghost bm = inner@;
        let ghost ownerm = owner@;
        if inner.value <= transaction_fee {
            return Err(ProtocolError::InvalidValue);
        }
        let refund_value = inner.value - transaction_fee;
        let refund_tokens = copy_tokens(&inner.tokens);
        let no_registers: Vec<Constant> = Vec::new();
        let refund_candidate = match create_candidate(
            refund_value,
            &owner,
            &refund_tokens,
            &no_registers,
            current_height,
        ) {
            Ok(c) => c,
            Err(e) => {
                proof {
                    assert(false);
                }
                return Err(e);
            },
        };
        proof {
            assert(no_registers@.map_values(|c0: Constant| c0@) =~= Seq::<ConstantModel>::empty());
            assert(refund_candidate@ == candidate_model(
                refund_value,
                ownerm,
                bm.tokens,
                Seq::empty(),
                current_height,
            ));
        }
        let mut outputs: Vec<OutputCandidate> = Vec::new();
        outputs.push(refund_candidate);
        let mut inputs: Vec<LedgerBox> = Vec::new();
        inputs.push(inner);
        proof {
            assert(boxes_model(inputs@) =~= seq![bm]);
            lemma_sum_box_values_push(Seq::empty(), bm);
            assert(Seq::<LedgerBoxModel>::empty().push(bm) =~= seq![bm]);
            lemma_sum_output_values_push(Seq::empty(), refund_candidate@);
            assert(outputs_model(outputs@) =~= Seq::empty().push(refund_candidate@));
        }
        let r = assemble(inputs, outputs, transaction_fee, current_height);
        proof {
            if transaction_fee > 0 {
                let tx = r->Ok_0;
                lemma_sum_output_values_push(
                    outputs_model(outputs@),
                    fee_candidate_model(transaction_fee, current_height),
                );
                assert(tx@.outputs =~= seq![
                    candidate_model(refund_value, ownerm, bm.tokens, Seq::empty(), current_height),
                    fee_candidate_model(transaction_fee, current_height),
                ]);
                assert(tx@.outputs.drop_last() =~= outputs_model(outputs@));
            }
        }
        r
    }

    /// Executes two swap orders that fulfil each other.
    ///
    /// Both records are re-validated, each against the match specification
    /// derived from the other, even if the caller already paired them
    /// upstream — the discovery set may be stale — and the action fails with
    /// `SpecMismatch` exactly when either direction fails.  On success each
    /// owner is paid the other box's tokens together with that owner's own
    /// remaining value, the fee being split evenly between the two parties
    /// (the second party pays the odd unit of an odd fee), so the whole
    /// transaction conserves value.
    pub fn action_execute_swap(
        &self,
        swap_box_1: SwapBox,
        swap_box_2: SwapBox,
        current_height: u64,
        transaction_fee: u64,
    ) -> (r: Result<UnsignedTransaction, ProtocolError>)
        ensures
            (!(spec_matches(
                spec_swap_match_spec(
                    self.contract_address@,
                    swap_box_1.offered_token_id@,
                    swap_box_1.demanded_token_id@,
                    swap_box_1.demanded_amount,
                ),
                swap_box_2.inner@,
            ) && spec_matches(
                spec_swap_match_spec(
                    self.contract_address@,
                    swap_box_2.offered_token_id@,
                    swap_box_2.demanded_token_id@,
                    swap_box_2.demanded_amount,
                ),
                swap_box_1.inner@,
            )) ==> r == Err::<UnsignedTransaction, ProtocolError>(ProtocolError::SpecMismatch)),
            (spec_matches(
                spec_swap_match_spec(
                    self.contract_address@,
                    swap_box_1.offered_token_id@,
                    swap_box_1.demanded_token_id@,
                    swap_box_1.demanded_amount,
                ),
                swap_box_2.inner@,
            ) && spec_matches(
                spec_swap_match_spec(
                    self.contract_address@,
                    swap_box_2.offered_token_id@,
                    swap_box_2.demanded_token_id@,
                    swap_box_2.demanded_amount,
                ),
                swap_box_1.inner@,
            ) && (swap_box_1.inner@.value <= transaction_fee / 2 || swap_box_2.inner@.value
                <= transaction_fee - transaction_fee / 2 || transaction_fee == 0) ==> r == Err::<
                UnsignedTransaction,
                ProtocolError,
            >(ProtocolError::InvalidValue)),
            spec_matches(
                spec_swap_match_spec(
                    self.contract_address@,
                    swap_box_1.offered_token_id@,
                    swap_box_1.demanded_token_id@,
                    swap_box_1.demanded_amount,
                ),
                swap_box_2.inner@,
            ) && spec_matches(
                spec_swap_match_spec(
                    self.contract_address@,
                    swap_box_2.offered_token_id@,
                    swap_box_2.demanded_token_id@,
                    swap_box_2.demanded_amount,
                ),
                swap_box_1.inner@,
            ) && swap_box_1.inner@.value > transaction_fee / 2 && swap_box_2.inner@.value
                > transaction_fee - transaction_fee / 2 && transaction_fee > 0 ==> (r matches Ok(tx)
                && {
                &&& tx@.inputs == seq![swap_box_1.inner@, swap_box_2.inner@]
                &&& tx@.data_inputs == Seq::<LedgerBoxModel>::empty()
                &&& tx@.outputs == seq![
                    candidate_model(
                        (swap_box_1.inner@.value - transaction_fee / 2) as u64,
                        swap_box_1.owner@,
                        swap_box_2.inner@.tokens,
                        seq![ConstantModel::ByteColl(str_bytes_of(swap_box_1.owner@))],
                        current_height,
                    ),
                    candidate_model(
                        (swap_box_2.inner@.value - (transaction_fee - transaction_fee / 2)) as u64,
                        swap_box_2.owner@,
                        swap_box_1.inner@.tokens,
                        seq![ConstantModel::ByteColl(str_bytes_of(swap_box_2.owner@))],
                        current_height,
                    ),
                    fee_candidate_model(transaction_fee, current_height),
                ]
                &&& sum_output_values(tx@.outputs) == sum_box_values(tx@.inputs)
                &&& sum_output_values(tx@.outputs.drop_last()) + transaction_fee == sum_box_values(
                    tx@.inputs,
                )
            }),
    {
        let spec_for_1 = self.get_swap_box_match_spec(&swap_box_1);
        let spec_for_2 = self.get_swap_box_match_spec(&swap_box_2);
        if !crate::box_spec::matches(&spec_for_1, &swap_box_2.inner) || !crate::box_spec::matches(
            &spec_for_2,
            &swap_box_1.inner,
        ) {
            return Err(ProtocolError::SpecMismatch);
        }
        let fee_share_1 = transaction_fee / 2;
        let fee_share_2 = transaction_fee - fee_share_1;
        let SwapBox {
            inner: inner_1,
            owner: owner_1,
            offered_token_id: _,
            demanded_token_id: _,
            demanded_amount: _,
        } = swap_box_1;
        let SwapBox {
            inner: inner_2,
            owner: owner_2,
            offered_token_id: _,
            demanded_token_id: _,
            demanded_amount: _,
        } = swap_box_2;
        let ghost bm1 = inner_1@;
        let ghost bm2 = inner_2@;
        let ghost ownerm1 = owner_1@;
        let ghost ownerm2 = owner_2@;
        if inner_1.value <= fee_share_1 || inner_2.value <= fee_share_2 {
            return Err(ProtocolError::InvalidValue);
        }
        let payout_value_1 = inner_1.value - fee_share_1;
        let payout_value_2 = inner_2.value - fee_share_2;
        let mut registers_1: Vec<Constant> = Vec::new();
        registers_1.push(string_to_constant(owner_1.clone()));
        let mut registers_2: Vec<Constant> = Vec::new();
        registers_2.push(string_to_constant(owner_2.clone()));
        let tokens_for_1 = copy_tokens(&inner_2.tokens);
        let tokens_for_2 = copy_tokens(&inner_1.tokens);
        let payout_candidate_1 = match create_candidate(
            payout_value_1,
            &owner_1,
            &tokens_for_1,
            &registers_1,
            current_height,
        ) {
            Ok(c) => c,
            Err(e) => {
                proof {
                    assert(false);
                }
                return Err(e);
            },
        };
        let payout_candidate_2 = match create_candidate(
            payout_value_2,
            &owner_2,
            &tokens_for_2,
            &registers_2,
            current_height,
        ) {
            Ok(c) => c,
            Err(e) => {
                proof {
                    assert(false);
                }
                return Err(e);
            },
        };
        proof {
            assert(registers_1@.map_values(|c0: Constant| c0@) =~= seq![
                ConstantModel::ByteColl(str_bytes_of(ownerm1)),
            ]);
            assert(registers_2@.map_values(|c0: Constant| c0@) =~= seq![
                ConstantModel::ByteColl(str_bytes_of(ownerm2)),
            ]);
            assert(payout_candidate_1@ == candidate_model(
                payout_value_1,
                ownerm1,
                bm2.tokens,
                seq![ConstantModel::ByteColl(str_bytes_of(ownerm1))],
                current_height,
            ));
            assert(payout_candidate_2@ == candidate_model(
                payout_value_2,
                ownerm2,
                bm1.tokens,
                seq![ConstantModel::ByteColl(str_bytes_of(ownerm2))],
                current_height,
            ));
        }
        let mut outputs: Vec<OutputCandidate> = Vec::new();
        outputs.push(payout_candidate_1);
        outputs.push(payout_candidate_2);
        let mut inputs: Vec<LedgerBox> = Vec::new();
        inputs.push(inner_1);
        inputs.push(inner_2);
        proof {
            assert(boxes_model(inputs@) =~= seq![bm1].push(bm2));
            assert(seq![bm1] =~= Seq::<LedgerBoxModel>::empty().push(bm1));
            lemma_sum_box_values_push(Seq::empty(), bm1);
            lemma_sum_box_values_push(seq![bm1], bm2);
            assert(outputs_model(outputs@) =~= Seq::empty().push(payout_candidate_1@).push(
                payout_candidate_2@,
            ));
            lemma_sum_output_values_push(Seq::empty(), payout_candidate_1@);
            lemma_sum_output_values_push(
                Seq::empty().push(payout_candidate_1@),
                payout_candidate_2@,
            );
        }
        let r = assemble(inputs, outputs, transaction_fee, current_height);
        proof {
            if transaction_fee > 0 {
                let tx = r->Ok_0;
                lemma_sum_output_values_push(
                    outputs_model(outputs@),
                    fee_candidate_model(transaction_fee, current_height),
                );
                assert(tx@.inputs =~= seq![bm1, bm2]);
                assert(tx@.outputs =~= seq![
                    payout_candidate_1@,
                    payout_candidate_2@,
                    fee_candidate_model(transaction_fee, current_height),
                ]);
                assert(tx@.outputs.drop_last() =~= outputs_model(outputs@));
            }
        }
        r
    }

    /// Derives the specification a record fulfilling the given swap order
    /// must satisfy.
    pub fn get_swap_box_match_spec(&self, swap_box: &SwapBox) -> (r: BoxSpec)
        ensures
            r@ == spec_swap_match_spec(
                self.contract_address@,
                swap_box.offered_token_id@,
                swap_box.demanded_token_id@,
                swap_box.demanded_amount,
            ),
    {
        let ghost m = spec_swap_match_spec(
            self.contract_address@,
            swap_box.offered_token_id@,
            swap_box.demanded_token_id@,
            swap_box.demanded_amount,
        );
        let mut registers: Vec<RegisterSpec> = Vec::new();
        registers.push(RegisterSpec { value_type: Some(SType::ByteColl), value: None });
        registers.push(
            RegisterSpec {
                value_type: Some(SType::ByteColl),
                value: Some(Constant::ByteColl(copy_bytes(&swap_box.offered_token_id))),
            },
        );
        registers.push(RegisterSpec { value_type: Some(SType::Long), value: None });
        let mut tokens: Vec<Option<TokenSpec>> = Vec::new();
        tokens.push(
            Some(
                TokenSpec {
                    value_range: AmountRange { min: swap_box.demanded_amount, max: u64::MAX },
                    token_id: Some(copy_bytes(&swap_box.demanded_token_id)),
                },
            ),
        );
        let r = BoxSpec {
            address: Some(self.contract_address.clone()),
            value_range: None,
            registers,
            tokens,
        };
        proof {
            assert(r@.registers[1] =~= m.registers[1]);
            assert(r@.registers =~= m.registers);
            assert(r@.tokens[0] =~= m.tokens[0]);
            assert(r@.tokens =~= m.tokens);
            assert(r@ =~= m);
        }
        r
    }

    /// Selects from already-fetched discovery candidates the first record
    /// that satisfies the given swap order's derived match specification,
    /// re-verifying each candidate rather than trusting the index.  Returns
    /// `NotFound` — a normal, recoverable outcome — exactly when no candidate
    /// satisfies it.
    pub fn match_swap_box(&self, swap_box: &SwapBox, candidates: &Vec<LedgerBox>) -> (r: Result<
        LedgerBox,
        ProtocolError,
    >)
        ensures
            (r matches Ok(c) ==> exists|i: int|
                {
                    &&& 0 <= i < candidates@.len()
                    &&& c@ == candidates@[i]@
                    &&& spec_matches(
                        spec_swap_match_spec(
                            self.contract_address@,
                            swap_box.offered_token_id@,
                            swap_box.demanded_token_id@,
                            swap_box.demanded_amount,
                        ),
                        #[trigger] candidates@[i]@,
                    )
                    &&& forall|j: int| 0 <= j < i ==> !spec_matches(
                        spec_swap_match_spec(
                            self.contract_address@,
                            swap_box.offered_token_id@,
                            swap_box.demanded_token_id@,
                            swap_box.demanded_amount,
                        ),
                        #[trigger] candidates@[j]@,
                    )
                }),
            (r is Err ==> r == Err::<LedgerBox, ProtocolError>(ProtocolError::NotFound)
                && forall|i: int| 0 <= i < candidates@.len() ==> !spec_matches(
                spec_swap_match_spec(
                    self.contract_address@,
                    swap_box.offered_token_id@,
                    swap_box.demanded_token_id@,
                    swap_box.demanded_amount,
                ),
                #[trigger] candidates@[i]@,
            )),
    {
        let match_spec = self.get_swap_box_match_spec(swap_box);
        let n = candidates.len();
        let mut i: usize = 0;
        while i < n
            invariant
                n == candidates@.len(),
                i <= n,
                match_spec@ == spec_swap_match_spec(
                    self.contract_address@,
                    swap_box.offered_token_id@,
                    swap_box.demanded_token_id@,
                    swap_box.demanded_amount,
                ),
                forall|j: int| 0 <= j < i ==> !spec_matches(match_spec@, #[trigger] candidates@[j]@),
            decreases n - i,
        {
            if crate::box_spec::matches(&match_spec, &candidates[i]) {
                let found = crate::ledger::copy_box(&candidates[i]);
                proof {
                    assert(spec_matches(match_spec@, candidates@[i as int]@));
                }
                return Ok(found);
            }
            i += 1;
        }
        Err(ProtocolError::NotFound)
    }
}

} // verus!
