use vstd::prelude::*;

use ergotree_ir::mir::constant::TryExtractInto;

use crate::ledger::{copy_bytes, Constant, ConstantModel};

verus! {

/// The UTF-8 encoding of a character sequence, as produced by the external
/// string codec.  Two equal strings always encode to the same bytes, on every
/// machine, so the encoding may be named even though writing it out would
/// take pages.
pub uninterp spec fn str_bytes_of(s: Seq<char>) -> Seq<u8>;

/// Relies on str::as_bytes: it returns the UTF-8 bytes of the string, a
/// function of its characters alone, empty exactly for the empty string.
#[verifier::external_body]
fn utf8_bytes(s: &str) -> (r: Vec<u8>)
    ensures
        r@ == str_bytes_of(s@),
        (s@.len() == 0) == (r@.len() == 0),
{
    s.as_bytes().to_vec()
}

/// The decoder's answer `r` inverts the encoding of `b` wherever it can:
/// every character sequence whose encoding is `b` is returned.
pub open spec fn decoding_inverts(b: Seq<u8>, r: Option<String>) -> bool {
    forall|s: Seq<char>| b == str_bytes_of(s) ==> (r matches Some(t) && t@ == s)
}

/// Relies on String::from_utf8: it succeeds exactly on byte collections that
/// are the UTF-8 encoding of some character sequence, and returns that
/// sequence.
#[verifier::external_body]
fn utf8_string(b: Vec<u8>) -> (r: Option<String>)
    ensures
        decoding_inverts(b@, r),
        (r matches Some(t) ==> b@ == str_bytes_of(t@)),
{
    String::from_utf8(b).ok()
}

/// Relies on ergotree_ir's typed constants: `Constant::from` wraps a byte
/// collection as a `SColl(SByte)` constant, and `TryExtractInto::<Vec<u8>>`
/// gives back exactly the wrapped bytes, so the pair is the identity.
#[verifier::external_body]
fn constant_byte_coll(b: Vec<u8>) -> (r: Vec<u8>)
    ensures
        r@ == b@,
{
    let c = ergotree_ir::mir::constant::Constant::from(b);
    match c.try_extract_into::<Vec<u8>>() {
        Ok(v) => v,
        Err(_) => Vec::new(),
    }
}

/// Relies on ergotree_ir's typed constants: `Constant::from` wraps a signed
/// 64-bit integer as a `SLong` constant, and `TryExtractInto::<i64>` gives
/// back exactly the wrapped value, so the pair is the identity.
#[verifier::external_body]
fn constant_long(x: i64) -> (r: i64)
    ensures
        r == x,
{
    let c = ergotree_ir::mir::constant::Constant::from(x);
    match c.try_extract_into::<i64>() {
        Ok(v) => v,
        Err(_) => x,
    }
}

/// Encodes a string into the byte-collection constant that order registers
/// carry: the typed constant holding the string's UTF-8 bytes.
pub fn string_to_constant(stringy: String) -> (r: Constant)
    ensures
        r@ == ConstantModel::ByteColl(str_bytes_of(stringy@)),
{
    Constant::ByteColl(constant_byte_coll(utf8_bytes(stringy.as_str())))
}

/// Decodes a byte-collection constant back into the string it encodes.
///
/// Returns `None` when the constant is a long, or when its bytes are not the
/// encoding of any string.
pub fn constant_to_string(c: &Constant) -> (r: Option<String>)
    ensures
        forall|s: Seq<char>| c@ == ConstantModel::ByteColl(str_bytes_of(s)) ==> (r matches Some(t)
            && t@ == s),
        (r matches Some(t) ==> c@ == ConstantModel::ByteColl(str_bytes_of(t@))),
{
    match c {
        Constant::ByteColl(b) => utf8_string(constant_byte_coll(copy_bytes(b))),
        Constant::Long(_) => None,
    }
}

/// Encodes an unsigned amount as the signed 64-bit long constant that order
/// registers carry, reinterpreting its bits.
pub fn u64_to_constant(x: u64) -> (r: Constant)
    ensures
        r@ == ConstantModel::Long(x as i64),
{
    Constant::Long(constant_long(x as i64))
}

/// Reads an unsigned amount back from a long constant, reinterpreting its
/// bits; `None` for a byte-collection constant.
pub fn constant_to_u64(c: &Constant) -> (r: Option<u64>)
    ensures
        (c@ matches ConstantModel::Long(v) ==> r == Some(v as u64)),
        (c@ matches ConstantModel::ByteColl(_) ==> r == None::<u64>),
{
    match c {
        Constant::Long(v) => Some(*v as u64),
        Constant::ByteColl(_) => None,
    }
}

/// Codec round trip for strings: decoding an encoded string gives it back
/// unchanged, for every string including the empty one.
pub fn string_codec_round_trip(stringy: String) -> (r: Option<String>)
    ensures
        r matches Some(t) && t@ == stringy@,
{
    let ghost chars = stringy@;
    let encoded = string_to_constant(stringy);
    let r = constant_to_string(&encoded);
    proof {
        assert(encoded@ == ConstantModel::ByteColl(str_bytes_of(chars)));
    }
    r
}

/// Codec round trip for unsigned 64-bit amounts: decoding an encoded amount
/// gives it back unchanged, for every amount including zero and the maximum.
pub fn u64_codec_round_trip(x: u64) -> (r: Option<u64>)
    ensures
        r == Some(x),
{
    let encoded = u64_to_constant(x);
    let r = constant_to_u64(&encoded);
    proof {
        assert(x as i64 as u64 == x) by (bit_vector);
    }
    r
}

} // verus!
