use vstd::prelude::*;

use crate::ledger::{
    bytes_eq, constant_eq, constant_type, copy_bytes, copy_constant, Constant, ConstantModel,
    LedgerBox, LedgerBoxModel, SType, TokenModel,
};

verus! {

/// Inclusive range of unsigned amounts.
#[derive(Clone, Copy, Debug, PartialEq, Eq, Structural)]
pub struct AmountRange {
    pub min: u64,
    pub max: u64,
}

/// Predicate descriptor for one register slot: a declared scheme type and an
/// optional exact expected value.
#[derive(Clone, Debug, PartialEq, Eq)]
pub struct RegisterSpec {
    pub value_type: Option<SType>,
    pub value: Option<Constant>,
}

/// Mathematical model of a [`RegisterSpec`].
#[verifier::ext_equal]
pub ghost struct RegisterSpecModel {
    pub value_type: Option<SType>,
    pub value: Option<ConstantModel>,
}

/// Predicate descriptor for one token slot: an optional expected identifier
/// and an inclusive amount range.
#[derive(Clone, Debug, PartialEq, Eq)]
pub struct TokenSpec {
    pub value_range: AmountRange,
    pub token_id: Option<Vec<u8>>,
}

/// Mathematical model of a [`TokenSpec`].
#[verifier::ext_equal]
pub ghost struct TokenSpecModel {
    pub value_range: AmountRange,
    pub token_id: Option<Seq<u8>>,
}

/// Declarative schema a ledger record must satisfy to play a given role:
/// an optional address equality constraint, an optional inclusive value
/// range, and ordered positional register and token constraints.
///
/// A `BoxSpec` is immutable; the `modified_*` operations return a new spec,
/// so specs can be safely shared across concurrent discovery queries.
#[derive(Clone, Debug, PartialEq, Eq)]
pub struct BoxSpec {
    pub address: Option<String>,
    pub value_range: Option<AmountRange>,
    pub registers: Vec<RegisterSpec>,
    pub tokens: Vec<Option<TokenSpec>>,
}

/// Mathematical model of a [`BoxSpec`].
#[verifier::ext_equal]
pub ghost struct BoxSpecModel {
    pub address: Option<Seq<char>>,
    pub value_range: Option<AmountRange>,
    pub registers: Seq<RegisterSpecModel>,
    pub tokens: Seq<Option<TokenSpecModel>>,
}

pub open spec fn option_string_model(o: Option<String>) -> Option<Seq<char>> {
    match o {
        Some(s) => Some(s@),
        None => None,
    }
}

pub open spec fn option_constant_model(o: Option<Constant>) -> Option<ConstantModel> {
    match o {
        Some(c) => Some(c@),
        None => None,
    }
}

pub open spec fn option_bytes_model(o: Option<Vec<u8>>) -> Option<Seq<u8>> {
    match o {
        Some(b) => Some(b@),
        None => None,
    }
}

pub open spec fn option_token_spec_model(o: Option<TokenSpec>) -> Option<TokenSpecModel> {
    match o {
        Some(t) => Some(t@),
        None => None,
    }
}

impl View for RegisterSpec {
    type V = RegisterSpecModel;

    open spec fn view(&self) -> RegisterSpecModel {
        RegisterSpecModel {
            value_type: self.value_type,
            value: option_constant_model(self.value),
        }
    }
}

impl View for TokenSpec {
    type V = TokenSpecModel;

    open spec fn view(&self) -> TokenSpecModel {
        TokenSpecModel {
            value_range: self.value_range,
            token_id: option_bytes_model(self.token_id),
        }
    }
}

impl View for BoxSpec {
    type V = BoxSpecModel;

    open spec fn view(&self) -> BoxSpecModel {
        BoxSpecModel {
            address: option_string_model(self.address),
            value_range: self.value_range,
            registers: self.registers@.map_values(|r: RegisterSpec| r@),
            tokens: self.tokens@.map_values(|o: Option<TokenSpec>| option_token_spec_model(o)),
        }
    }
}

impl RegisterSpec {
    /// A register constraint from a declared type and an optional exact value.
    pub fn new(value_type: Option<SType>, value: Option<Constant>) -> (r: RegisterSpec)
        ensures
            r@.value_type == value_type,
            r@.value == option_constant_model(value),
    {
        RegisterSpec { value_type, value }
    }
}

impl TokenSpec {
    /// A token constraint from an inclusive amount range and an optional id.
    pub fn new(value_range: AmountRange, token_id: Option<Vec<u8>>) -> (r: TokenSpec)
        ensures
            r@.value_range == value_range,
            r@.token_id == option_bytes_model(token_id),
    {
        TokenSpec { value_range, token_id }
    }
}

/// Whether the record's address satisfies the optional address constraint.
pub open spec fn address_ok(expected: Option<Seq<char>>, actual: Seq<char>) -> bool {
    match expected {
        Some(a) => actual == a,
        None => true,
    }
}

/// Whether a value lies inside the optional inclusive range.
pub open spec fn value_in_range(expected: Option<AmountRange>, value: u64) -> bool {
    match expected {
        Some(r) => r.min <= value && value <= r.max,
        None => true,
    }
}

/// Whether one token entry satisfies one token constraint.
pub open spec fn token_ok(ts: TokenSpecModel, t: TokenModel) -> bool {
    &&& match ts.token_id {
        Some(id) => t.token_id == id,
        None => true,
    }
    &&& ts.value_range.min <= t.amount && t.amount <= ts.value_range.max
}

/// Whether the record satisfies the token constraint declared at slot `i`:
/// a declared constraint demands a token at exactly that position, and an
/// undeclared slot (`None`) is a wildcard.
pub open spec fn token_slot_ok(s: BoxSpecModel, b: LedgerBoxModel, i: int) -> bool {
    match s.tokens[i] {
        Some(ts) => i < b.tokens.len() && token_ok(ts, b.tokens[i]),
        None => true,
    }
}

/// Whether one register value satisfies one register constraint.
pub open spec fn register_ok(rs: RegisterSpecModel, c: ConstantModel) -> bool {
    &&& match rs.value_type {
        Some(t) => constant_type(c) == t,
        None => true,
    }
    &&& match rs.value {
        Some(v) => c == v,
        None => true,
    }
}

/// Whether the record satisfies the register constraint declared at slot `i`:
/// the register at exactly that position must exist and satisfy it.
pub open spec fn register_slot_ok(s: BoxSpecModel, b: LedgerBoxModel, i: int) -> bool {
    &&& i < b.registers.len()
    &&& register_ok(s.registers[i], b.registers[i])
}

/// The matching predicate: a pure, total function of a specification and a
/// record.  Absence of a demanded register or token is a non-match, never an
/// error; positions the spec leaves undeclared are unconstrained.
pub open spec fn spec_matches(s: BoxSpecModel, b: LedgerBoxModel) -> bool {
    &&& address_ok(s.address, b.address)
    &&& value_in_range(s.value_range, b.value)
    &&& forall|i: int| 0 <= i < s.tokens.len() ==> #[trigger] token_slot_ok(s, b, i)
    &&& forall|i: int| 0 <= i < s.registers.len() ==> #[trigger] register_slot_ok(s, b, i)
}

/// Evaluates a box specification against a ledger record.
pub fn matches(spec: &BoxSpec, b: &LedgerBox) -> (r: bool)
    ensures
        r == spec_matches(spec@, b@),
{
    match &spec.address {
        Some(a) => {
            if !a.eq(&b.address) {
                return false;
            }
        },
        None => {},
    }
    match &spec.value_range {
        Some(rng) => {
            if b.value < rng.min || b.value > rng.max {
                return false;
            }
        },
        None => {},
    }
    let nt = spec.tokens.len();
    let mut i: usize = 0;
    while i < nt
        invariant
            nt == spec.tokens@.len(),
            i <= nt,
            forall|k: int| 0 <= k < i ==> token_slot_ok(spec@, b@, k),
        decreases nt - i,
    {
        match &spec.tokens[i] {
            Some(ts) => {
                if i >= b.tokens.len() {
                    proof {
                        assert(!token_slot_ok(spec@, b@, i as int));
                    }
                    return false;
                }
                match &ts.token_id {
                    Some(id) => {
                        if !bytes_eq(id, &b.tokens[i].token_id) {
                            proof {
                                assert(!token_slot_ok(spec@, b@, i as int));
                            }
                            return false;
                        }
                    },
                    None => {},
                }
                if b.tokens[i].amount < ts.value_range.min
                    || b.tokens[i].amount > ts.value_range.max {
                    proof {
                        assert(!token_slot_ok(spec@, b@, i as int));
                    }
                    return false;
                }
            },
            None => {},
        }
        proof {
            assert(token_slot_ok(spec@, b@, i as int));
        }
        i += 1;
    }
    let nr = spec.registers.len();
    let mut j: usize = 0;
    while j < nr
        invariant
            nr == spec.registers@.len(),
            j <= nr,
            forall|k: int| 0 <= k < j ==> register_slot_ok(spec@, b@, k),
        decreases nr - j,
    {
        if j >= b.registers.len() {
            proof {
                assert(!register_slot_ok(spec@, b@, j as int));
            }
            return false;
        }
        let rs = &spec.registers[j];
        match &rs.value_type {
            Some(t) => {
                if b.registers[j].value_type() != *t {
                    proof {
                        assert(!register_slot_ok(spec@, b@, j as int));
                    }
                    return false;
                }
            },
            None => {},
        }
        match &rs.value {
            Some(v) => {
                if !constant_eq(&b.registers[j], v) {
                    proof {
                        assert(!register_slot_ok(spec@, b@, j as int));
                    }
                    return false;
                }
            },
            None => {},
        }
        proof {
            assert(register_slot_ok(spec@, b@, j as int));
        }
        j += 1;
    }
    true
}

/// Positional strictness for tokens: a token constraint declared at slot `i`
/// is checked against the record's slot `i` alone.  If that slot fails the
/// demand — including when the demanded id sits at some other index — the
/// record does not match the specification.
pub proof fn lemma_token_positional_strictness(s: BoxSpecModel, b: LedgerBoxModel, i: int)
    requires
        0 <= i < s.tokens.len(),
        !token_slot_ok(s, b, i),
    ensures
        !spec_matches(s, b),
{
}

/// Positional strictness for registers: a register constraint declared at
/// slot `i` is checked against the record's slot `i` alone.  If that slot
/// fails the demand — even when an identical value sits at some other index —
/// the record does not match the specification.
pub proof fn lemma_register_positional_strictness(s: BoxSpecModel, b: LedgerBoxModel, i: int)
    requires
        0 <= i < s.registers.len(),
        !register_slot_ok(s, b, i),
    ensures
        !spec_matches(s, b),
{
}

/// An owned copy of a register constraint.
pub fn copy_register_spec(rs: &RegisterSpec) -> (r: RegisterSpec)
    ensures
        r@ == rs@,
{
    let value = match &rs.value {
        Some(c) => Some(copy_constant(c)),
        None => None,
    };
    RegisterSpec { value_type: rs.value_type, value }
}

/// An owned copy of a token constraint.
pub fn copy_token_spec(ts: &TokenSpec) -> (r: TokenSpec)
    ensures
        r@ == ts@,
{
    let token_id = match &ts.token_id {
        Some(b) => Some(copy_bytes(b)),
        None => None,
    };
    TokenSpec { value_range: ts.value_range, token_id }
}

/// An owned copy of a register constraint list.
pub fn copy_register_specs(v: &Vec<RegisterSpec>) -> (r: Vec<RegisterSpec>)
    ensures
        r@.map_values(|x: RegisterSpec| x@) == v@.map_values(|x: RegisterSpec| x@),
{
    let n = v.len();
    let mut r: Vec<RegisterSpec> = Vec::new();
    let mut i: usize = 0;
    while i < n
        invariant
            n == v.len(),
            i <= n,
            r@.len() == i,
            forall|k: int| 0 <= k < i ==> r@[k]@ == v@[k]@,
        decreases n - i,
    {
        r.push(copy_register_spec(&v[i]));
        i += 1;
    }
    proof {
        assert(r@.map_values(|x: RegisterSpec| x@) =~= v@.map_values(|x: RegisterSpec| x@));
    }
    r
}

/// An owned copy of a token constraint list.
pub fn copy_token_slots(v: &Vec<Option<TokenSpec>>) -> (r: Vec<Option<TokenSpec>>)
    ensures
        r@.map_values(|o: Option<TokenSpec>| option_token_spec_model(o)) == v@.map_values(
            |o: Option<TokenSpec>| option_token_spec_model(o),
        ),
{
    let n = v.len();
    let mut r: Vec<Option<TokenSpec>> = Vec::new();
    let mut i: usize = 0;
    while i < n
        invariant
            n == v.len(),
            i <= n,
            r@.len() == i,
            forall|k: int| 0 <= k < i ==> option_token_spec_model(r@[k]) == option_token_spec_model(
                v@[k],
            ),
        decreases n - i,
    {
        let slot = match &v[i] {
            Some(ts) => Some(copy_token_spec(ts)),
            None => None,
        };
        r.push(slot);
        i += 1;
    }
    proof {
        assert(r@.map_values(|o: Option<TokenSpec>| option_token_spec_model(o)) =~= v@.map_values(
            |o: Option<TokenSpec>| option_token_spec_model(o),
        ));
    }
    r
}

impl BoxSpec {
    /// A box specification from its four constraint groups.
    pub fn new(
        address: Option<String>,
        value_range: Option<AmountRange>,
        registers: Vec<RegisterSpec>,
        tokens: Vec<Option<TokenSpec>>,
    ) -> (r: BoxSpec)
        ensures
            r@.address == option_string_model(address),
            r@.value_range == value_range,
            r@.registers == registers@.map_values(|x: RegisterSpec| x@),
            r@.tokens == tokens@.map_values(|o: Option<TokenSpec>| option_token_spec_model(o)),
    {
        BoxSpec { address, value_range, registers, tokens }
    }

    /// A copy of this spec with the address constraint replaced.
    pub fn modified_address(&self, address: Option<String>) -> (r: BoxSpec)
        ensures
            r@.address == option_string_model(address),
            r@.value_range == self@.value_range,
            r@.registers == self@.registers,
            r@.tokens == self@.tokens,
    {
        BoxSpec {
            address,
            value_range: self.value_range,
            registers: copy_register_specs(&self.registers),
            tokens: copy_token_slots(&self.tokens),
        }
    }

    /// A copy of this spec with the token constraints replaced.
    pub fn modified_tokens(&self, tokens: Vec<Option<TokenSpec>>) -> (r: BoxSpec)
        ensures
            r@.address == self@.address,
            r@.value_range == self@.value_range,
            r@.registers == self@.registers,
            r@.tokens == tokens@.map_values(|o: Option<TokenSpec>| option_token_spec_model(o)),
    {
        let address = match &self.address {
            Some(a) => Some(a.clone()),
            None => None,
        };
        BoxSpec {
            address,
            value_range: self.value_range,
            registers: copy_register_specs(&self.registers),
            tokens,
        }
    }

    /// A copy of this spec with the register constraints replaced.
    pub fn modified_registers(&self, registers: Vec<RegisterSpec>) -> (r: BoxSpec)
        ensures
            r@.address == self@.address,
            r@.value_range == self@.value_range,
            r@.registers == registers@.map_values(|x: RegisterSpec| x@),
            r@.tokens == self@.tokens,
    {
        let address = match &self.address {
            Some(a) => Some(a.clone()),
            None => None,
        };
        BoxSpec {
            address,
            value_range: self.value_range,
            registers,
            tokens: copy_token_slots(&self.tokens),
        }
    }
}

} // verus!
