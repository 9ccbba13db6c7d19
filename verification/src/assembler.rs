use vstd::prelude::*;

use crate::errors::ProtocolError;
use crate::ledger::{
    copy_constants, copy_tokens, Constant, ConstantModel, LedgerBox, LedgerBoxModel, Token,
    TokenModel,
};

verus! {

/// The ledger's fixed number of optional register slots per record.
pub const REGISTER_CAPACITY: usize = 6;

/// An output candidate of an unsigned transaction: the record it will create.
#[derive(Clone, Debug, PartialEq, Eq)]
pub struct OutputCandidate {
    pub value: u64,
    pub address: String,
    pub tokens: Vec<Token>,
    pub registers: Vec<Constant>,
    pub creation_height: u64,
}

/// Mathematical model of an [`OutputCandidate`].
#[verifier::ext_equal]
pub ghost struct OutputCandidateModel {
    pub value: u64,
    pub address: Seq<char>,
    pub tokens: Seq<TokenModel>,
    pub registers: Seq<ConstantModel>,
    pub creation_height: u64,
}

impl View for OutputCandidate {
    type V = OutputCandidateModel;

    open spec fn view(&self) -> OutputCandidateModel {
        OutputCandidateModel {
            value: self.value,
            address: self.address@,
            tokens: self.tokens@.map_values(|t: Token| t@),
            registers: self.registers@.map_values(|c: Constant| c@),
            creation_height: self.creation_height,
        }
    }
}

/// An unsigned transaction: ordered input records, ordered data inputs
/// (always empty in this protocol) and ordered output candidates.  It is
/// handed to an external signing and submission component; this crate never
/// observes whether it is accepted.
#[derive(Clone, Debug, PartialEq, Eq)]
pub struct UnsignedTransaction {
    pub inputs: Vec<LedgerBox>,
    pub data_inputs: Vec<LedgerBox>,
    pub outputs: Vec<OutputCandidate>,
}

/// Mathematical model of an [`UnsignedTransaction`].
#[verifier::ext_equal]
pub ghost struct UnsignedTransactionModel {
    pub inputs: Seq<LedgerBoxModel>,
    pub data_inputs: Seq<LedgerBoxModel>,
    pub outputs: Seq<OutputCandidateModel>,
}

impl View for UnsignedTransaction {
    type V = UnsignedTransactionModel;

    open spec fn view(&self) -> UnsignedTransactionModel {
        UnsignedTransactionModel {
            inputs: self.inputs@.map_values(|b: LedgerBox| b@),
            data_inputs: self.data_inputs@.map_values(|b: LedgerBox| b@),
            outputs: self.outputs@.map_values(|c: OutputCandidate| c@),
        }
    }
}

/// Model of an output candidate assembled from the given parts.
pub open spec fn candidate_model(
    value: u64,
    address: Seq<char>,
    tokens: Seq<TokenModel>,
    registers: Seq<ConstantModel>,
    height: u64,
) -> OutputCandidateModel {
    OutputCandidateModel { value, address, tokens, registers, creation_height: height }
}

/// The well-known address of the ledger's fee contract; every transaction
/// pays its fee to a record at this address.
pub open spec fn spec_fee_address() -> Seq<char> {
    "2iHkR7CWvD1R4j1yZg5bkeDRQavjAaVPeTDFGGLZduHyfWMuYpmhHocX8GJoaieTx78FntzJbCBVL6rf96ocJoZdmWBL2fci7NqWgAirppPQmZ7fN9V6z13Ay6brPriBKYqLp1bT2Fk4FkFLCfdPpe"@
}

/// The well-known fee-contract address as an owned string.
pub fn fee_address() -> (r: String)
    ensures
        r@ == spec_fee_address(),
{
    String::from_str(
        "2iHkR7CWvD1R4j1yZg5bkeDRQavjAaVPeTDFGGLZduHyfWMuYpmhHocX8GJoaieTx78FntzJbCBVL6rf96ocJoZdmWBL2fci7NqWgAirppPQmZ7fN9V6z13Ay6brPriBKYqLp1bT2Fk4FkFLCfdPpe",
    )
}

/// Sum of the native values of a sequence of ledger records.
pub open spec fn sum_box_values(bs: Seq<LedgerBoxModel>) -> int
    decreases bs.len(),
{
    if bs.len() == 0 {
        0
    } else {
        sum_box_values(bs.drop_last()) + bs.last().value
    }
}

/// Sum of the values of a sequence of output candidates.
pub open spec fn sum_output_values(cs: Seq<OutputCandidateModel>) -> int
    decreases cs.len(),
{
    if cs.len() == 0 {
        0
    } else {
        sum_output_values(cs.drop_last()) + cs.last().value
    }
}

/// Models of a list of ledger records.
pub open spec fn boxes_model(v: Seq<LedgerBox>) -> Seq<LedgerBoxModel> {
    v.map_values(|b: LedgerBox| b@)
}

/// Models of a list of output candidates.
pub open spec fn outputs_model(v: Seq<OutputCandidate>) -> Seq<OutputCandidateModel> {
    v.map_values(|c: OutputCandidate| c@)
}

/// A sum of box values is bounded by the count of boxes times the largest
/// representable value.
pub proof fn lemma_sum_box_values_bound(bs: Seq<LedgerBoxModel>)
    ensures
        0 <= sum_box_values(bs),
        sum_box_values(bs) <= bs.len() * (u64::MAX as int),
    decreases bs.len(),
{
    if bs.len() == 0 {
    } else {
        lemma_sum_box_values_bound(bs.drop_last());
        assert((bs.len() - 1) * (u64::MAX as int) + (u64::MAX as int) == bs.len() * (
        u64::MAX as int)) by (nonlinear_arith);
    }
}

/// A sum of candidate values is bounded by the count of candidates times the
/// largest representable value.
pub proof fn lemma_sum_output_values_bound(cs: Seq<OutputCandidateModel>)
    ensures
        0 <= sum_output_values(cs),
        sum_output_values(cs) <= cs.len() * (u64::MAX as int),
    decreases cs.len(),
{
    if cs.len() == 0 {
    } else {
        lemma_sum_output_values_bound(cs.drop_last());
        assert((cs.len() - 1) * (u64::MAX as int) + (u64::MAX as int) == cs.len() * (
        u64::MAX as int)) by (nonlinear_arith);
    }
}

/// Appending a record adds its value to the sum.
pub proof fn lemma_sum_box_values_push(bs: Seq<LedgerBoxModel>, b: LedgerBoxModel)
    ensures
        sum_box_values(bs.push(b)) == sum_box_values(bs) + b.value,
{
    assert(bs.push(b).drop_last() =~= bs);
}

/// Appending a candidate adds its value to the sum.
pub proof fn lemma_sum_output_values_push(cs: Seq<OutputCandidateModel>, c: OutputCandidateModel)
    ensures
        sum_output_values(cs.push(c)) == sum_output_values(cs) + c.value,
{
    assert(cs.push(c).drop_last() =~= cs);
}

/// Total native value carried by a list of input records.
pub fn sum_input_values(v: &Vec<LedgerBox>) -> (s: u128)
    ensures
        s == sum_box_values(boxes_model(v@)),
{
    let n = v.len();
    let mut s: u128 = 0;
    let mut i: usize = 0;
    while i < n
        invariant
            n == v.len(),
            i <= n,
            s == sum_box_values(boxes_model(v@).take(i as int)),
        decreases n - i,
    {
        proof {
            let prefix = boxes_model(v@).take(i as int);
            let next = boxes_model(v@).take(i as int + 1);
            assert(next.drop_last() =~= prefix);
            assert(next.last() == v@[i as int]@);
            lemma_sum_box_values_bound(prefix);
            assert(i as int * (u64::MAX as int) <= (usize::MAX as int) * (u64::MAX as int))
                by (nonlinear_arith)
                requires
                    0 <= i as int <= usize::MAX as int,
            ;
        }
        s = s + (v[i].value as u128);
        i += 1;
    }
    proof {
        assert(boxes_model(v@).take(n as int) =~= boxes_model(v@));
    }
    s
}

/// Total value carried by a list of output candidates.
pub fn sum_candidate_values(v: &Vec<OutputCandidate>) -> (s: u128)
    ensures
        s == sum_output_values(outputs_model(v@)),
{
    let n = v.len();
    let mut s: u128 = 0;
    let mut i: usize = 0;
    while i < n
        invariant
            n == v.len(),
            i <= n,
            s == sum_output_values(outputs_model(v@).take(i as int)),
        decreases n - i,
    {
        proof {
            let prefix = outputs_model(v@).take(i as int);
            let next = outputs_model(v@).take(i as int + 1);
            assert(next.drop_last() =~= prefix);
            assert(next.last() == v@[i as int]@);
            lemma_sum_output_values_bound(prefix);
            assert(i as int * (u64::MAX as int) <= (usize::MAX as int) * (u64::MAX as int))
                by (nonlinear_arith)
                requires
                    0 <= i as int <= usize::MAX as int,
            ;
        }
        s = s + (v[i].value as u128);
        i += 1;
    }
    proof {
        assert(outputs_model(v@).take(n as int) =~= outputs_model(v@));
    }
    s
}

/// Builds one output candidate.
///
/// Fails with `InvalidValue` when the value is zero (a ledger record must
/// carry a positive value) and with `RegisterOverflow` when more registers
/// are supplied than the ledger's fixed slot capacity.
pub fn create_candidate(
    value: u64,
    address: &String,
    tokens: &Vec<Token>,
    registers: &Vec<Constant>,
    current_height: u64,
) -> (r: Result<OutputCandidate, ProtocolError>)
    ensures
        value == 0 ==> r == Err::<OutputCandidate, ProtocolError>(ProtocolError::InvalidValue),
        value > 0 && registers@.len() > REGISTER_CAPACITY ==> r == Err::<
            OutputCandidate,
            ProtocolError,
        >(ProtocolError::RegisterOverflow),
        value > 0 && registers@.len() <= REGISTER_CAPACITY ==> (r matches Ok(c) && c@
            == candidate_model(
            value,
            address@,
            tokens@.map_values(|t: Token| t@),
            registers@.map_values(|c0: Constant| c0@),
            current_height,
        )),
{
    if value == 0 {
        return Err(ProtocolError::InvalidValue);
    }
    if registers.len() > REGISTER_CAPACITY {
        return Err(ProtocolError::RegisterOverflow);
    }
    let c = OutputCandidate {
        value,
        address: address.clone(),
        tokens: copy_tokens(tokens),
        registers: copy_constants(registers),
        creation_height: current_height,
    };
    Ok(c)
}

/// Model of the fee output candidate for a given fee and height.
pub open spec fn fee_candidate_model(amount: u64, height: u64) -> OutputCandidateModel {
    candidate_model(amount, spec_fee_address(), Seq::empty(), Seq::empty(), height)
}

/// Builds the output candidate that pays the transaction fee to the
/// well-known fee address.  Fails with `InvalidValue` when the fee is zero.
pub fn fee_output(amount: u64, current_height: u64) -> (r: Result<OutputCandidate, ProtocolError>)
    ensures
        amount == 0 ==> r == Err::<OutputCandidate, ProtocolError>(ProtocolError::InvalidValue),
        amount > 0 ==> (r matches Ok(c) && c@ == fee_candidate_model(amount, current_height)),
{
    let addr = fee_address();
    let no_tokens: Vec<Token> = Vec::new();
    let no_registers: Vec<Constant> = Vec::new();
    let r = create_candidate(amount, &addr, &no_tokens, &no_registers, current_height);
    proof {
        if amount > 0 {
            assert(no_tokens@.map_values(|t: Token| t@) =~= Seq::<TokenModel>::empty());
            assert(no_registers@.map_values(|c0: Constant| c0@) =~= Seq::<ConstantModel>::empty());
        }
    }
    r
}

/// Whether the transaction parts balance: the non-fee outputs plus the fee
/// must consume the inputs exactly.
pub open spec fn balanced(inputs: Seq<LedgerBoxModel>, outputs: Seq<OutputCandidateModel>, fee: u64) -> bool {
    sum_output_values(outputs) + fee == sum_box_values(inputs)
}

/// Assembles an unsigned transaction from input records and non-fee output
/// candidates, appending the fee output last.
///
/// The assembler checks, it does not compute, the fee split: it fails with
/// `ImbalancedValue` unless the outputs plus the fee consume the inputs
/// exactly, so every successfully assembled transaction conserves value.
pub fn assemble(
    inputs: Vec<LedgerBox>,
    outputs: Vec<OutputCandidate>,
    fee: u64,
    current_height: u64,
) -> (r: Result<UnsignedTransaction, ProtocolError>)
    ensures
        !balanced(boxes_model(inputs@), outputs_model(outputs@), fee) ==> r == Err::<
            UnsignedTransaction,
            ProtocolError,
        >(ProtocolError::ImbalancedValue),
        balanced(boxes_model(inputs@), outputs_model(outputs@), fee) && fee == 0 ==> r == Err::<
            UnsignedTransaction,
            ProtocolError,
        >(ProtocolError::InvalidValue),
        balanced(boxes_model(inputs@), outputs_model(outputs@), fee) && fee > 0 ==> (r matches Ok(
            tx) && {
            &&& tx@.inputs == boxes_model(inputs@)
            &&& tx@.data_inputs == Seq::<LedgerBoxModel>::empty()
            &&& tx@.outputs == outputs_model(outputs@).push(
                fee_candidate_model(fee, current_height),
            )
            &&& sum_output_values(tx@.outputs) == sum_box_values(tx@.inputs)
        }),
{
    let ghost orig_outputs = outputs@;
    let total_in = sum_input_values(&inputs);
    let total_out = sum_candidate_values(&outputs);
    if total_out > u128::MAX - (fee as u128) || total_out + (fee as u128) != total_in {
        proof {
            lemma_sum_output_values_bound(outputs_model(outputs@));
            lemma_sum_box_values_bound(boxes_model(inputs@));
        }
        return Err(ProtocolError::ImbalancedValue);
    }
    let fee_candidate = match fee_output(fee, current_height) {
        Ok(c) => c,
        Err(e) => {
            return Err(e);
        },
    };
    let mut all_outputs = outputs;
    all_outputs.push(fee_candidate);
    let tx = UnsignedTransaction { inputs, data_inputs: Vec::new(), outputs: all_outputs };
    proof {
        assert(tx@.data_inputs =~= Seq::<LedgerBoxModel>::empty());
        assert(tx@.outputs =~= outputs_model(orig_outputs).push(
            fee_candidate_model(fee, current_height),
        ));
        assert(tx@.outputs.drop_last() =~= outputs_model(orig_outputs));
    }
    Ok(tx)
}

} // verus!
