use vstd::prelude::*;

verus! {

/// Scheme type that a register slot may carry.
#[derive(Clone, Copy, Debug, PartialEq, Eq, Structural)]
pub enum SType {
    /// A collection of bytes (serialized strings, identifiers, addresses).
    ByteColl,
    /// A signed 64-bit integer (amounts).
    Long,
}

/// A typed constant held in a register slot of a ledger record.
#[derive(Clone, Debug, PartialEq, Eq)]
pub enum Constant {
    ByteColl(Vec<u8>),
    Long(i64),
}

/// Mathematical model of a [`Constant`].
#[verifier::ext_equal]
pub ghost enum ConstantModel {
    ByteColl(Seq<u8>),
    Long(i64),
}

impl View for Constant {
    type V = ConstantModel;

    open spec fn view(&self) -> ConstantModel {
        match self {
            Constant::ByteColl(b) => ConstantModel::ByteColl(b@),
            Constant::Long(v) => ConstantModel::Long(*v),
        }
    }
}

/// The scheme type of a constant.
pub open spec fn constant_type(c: ConstantModel) -> SType {
    match c {
        ConstantModel::ByteColl(_) => SType::ByteColl,
        ConstantModel::Long(_) => SType::Long,
    }
}

impl Constant {
    /// The scheme type of this constant.
    pub fn value_type(&self) -> (t: SType)
        ensures
            t == constant_type(self@),
    {
        match self {
            Constant::ByteColl(_) => SType::ByteColl,
            Constant::Long(_) => SType::Long,
        }
    }
}

/// An asset entry of a ledger record: an identifier with a positive amount.
#[derive(Clone, Debug, PartialEq, Eq)]
pub struct Token {
    pub token_id: Vec<u8>,
    pub amount: u64,
}

/// Mathematical model of a [`Token`].
#[verifier::ext_equal]
pub ghost struct TokenModel {
    pub token_id: Seq<u8>,
    pub amount: u64,
}

impl View for Token {
    type V = TokenModel;

    open spec fn view(&self) -> TokenModel {
        TokenModel { token_id: self.token_id@, amount: self.amount }
    }
}

/// An immutable, previously-observed unspent ledger record.
///
/// This crate never mutates one; it only consumes values from it to produce
/// new output candidates.
#[derive(Clone, Debug, PartialEq, Eq)]
pub struct LedgerBox {
    /// Opaque content-derived identity.
    pub id: Vec<u8>,
    /// Opaque locator standing for the spending predicate.
    pub address: String,
    /// Unsigned amount of the ledger's native value.
    pub value: u64,
    /// Ordered sequence of asset entries.
    pub tokens: Vec<Token>,
    /// Fixed-position typed metadata slots; a slot beyond the length is absent.
    pub registers: Vec<Constant>,
}

/// Mathematical model of a [`LedgerBox`].
#[verifier::ext_equal]
pub ghost struct LedgerBoxModel {
    pub id: Seq<u8>,
    pub address: Seq<char>,
    pub value: u64,
    pub tokens: Seq<TokenModel>,
    pub registers: Seq<ConstantModel>,
}

impl View for LedgerBox {
    type V = LedgerBoxModel;

    open spec fn view(&self) -> LedgerBoxModel {
        LedgerBoxModel {
            id: self.id@,
            address: self.address@,
            value: self.value,
            tokens: self.tokens@.map_values(|t: Token| t@),
            registers: self.registers@.map_values(|c: Constant| c@),
        }
    }
}

/// Byte-collection equality, decided element by element.
pub fn bytes_eq(a: &Vec<u8>, b: &Vec<u8>) -> (r: bool)
    ensures
        r == (a@ == b@),
{
    if a.len() != b.len() {
        return false;
    }
    let n = a.len();
    let mut i: usize = 0;
    while i < n
        invariant
            n == a.len() == b.len(),
            i <= n,
            forall|k: int| 0 <= k < i ==> a@[k] == b@[k],
        decreases n - i,
    {
        if a[i] != b[i] {
            return false;
        }
        i += 1;
    }
    proof {
        assert(a@ =~= b@);
    }
    true
}

/// Constant equality, decided structurally.
pub fn constant_eq(a: &Constant, b: &Constant) -> (r: bool)
    ensures
        r == (a@ == b@),
{
    match (a, b) {
        (Constant::ByteColl(x), Constant::ByteColl(y)) => bytes_eq(x, y),
        (Constant::Long(x), Constant::Long(y)) => *x == *y,
        _ => false,
    }
}

/// An owned copy of a byte collection.
pub fn copy_bytes(v: &Vec<u8>) -> (r: Vec<u8>)
    ensures
        r@ == v@,
{
    let r = v.clone();
    proof {
        assert(r@ =~= v@);
    }
    r
}

/// An owned copy of a token entry.
pub fn copy_token(t: &Token) -> (r: Token)
    ensures
        r@ == t@,
{
    Token { token_id: copy_bytes(&t.token_id), amount: t.amount }
}

/// An owned copy of a token list, preserving order and contents.
pub fn copy_tokens(v: &Vec<Token>) -> (r: Vec<Token>)
    ensures
        r@.map_values(|t: Token| t@) == v@.map_values(|t: Token| t@),
{
    let n = v.len();
    let mut r: Vec<Token> = Vec::new();
    let mut i: usize = 0;
    while i < n
        invariant
            n == v.len(),
            i <= n,
            r@.len() == i,
            forall|k: int| 0 <= k < i ==> r@[k]@ == v@[k]@,
        decreases n - i,
    {
        r.push(copy_token(&v[i]));
        i += 1;
    }
    proof {
        assert(r@.map_values(|t: Token| t@) =~= v@.map_values(|t: Token| t@));
    }
    r
}

/// An owned copy of a constant.
pub fn copy_constant(c: &Constant) -> (r: Constant)
    ensures
        r@ == c@,
{
    match c {
        Constant::ByteColl(b) => Constant::ByteColl(copy_bytes(b)),
        Constant::Long(v) => Constant::Long(*v),
    }
}

/// An owned copy of a register list, preserving order and contents.
pub fn copy_constants(v: &Vec<Constant>) -> (r: Vec<Constant>)
    ensures
        r@.map_values(|c: Constant| c@) == v@.map_values(|c: Constant| c@),
{
    let n = v.len();
    let mut r: Vec<Constant> = Vec::new();
    let mut i: usize = 0;
    while i < n
        invariant
            n == v.len(),
            i <= n,
            r@.len() == i,
            forall|k: int| 0 <= k < i ==> r@[k]@ == v@[k]@,
        decreases n - i,
    {
        r.push(copy_constant(&v[i]));
        i += 1;
    }
    proof {
        assert(r@.map_values(|c: Constant| c@) =~= v@.map_values(|c: Constant| c@));
    }
    r
}

/// An owned copy of a ledger record.
pub fn copy_box(b: &LedgerBox) -> (r: LedgerBox)
    ensures
        r@ == b@,
{
    let r = LedgerBox {
        id: copy_bytes(&b.id),
        address: b.address.clone(),
        value: b.value,
        tokens: copy_tokens(&b.tokens),
        registers: copy_constants(&b.registers),
    };
    proof {
        assert(r@ =~= b@);
    }
    r
}

} // verus!
