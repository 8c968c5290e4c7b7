//! Text tokens for integers, doubles and byte strings: little-endian bytes
//! in standard base64.

use vstd::bytes::*;
use vstd::prelude::*;

use crate::error::DecodeError;

verus! {

/// What `base64::encode` makes of a byte string.
pub uninterp spec fn base64_of(b: Seq<u8>) -> Seq<char>;

/// What `base64::decode` makes of a text, when it succeeds.
pub uninterp spec fn base64_decoded(s: Seq<char>) -> Option<Seq<u8>>;

/// Relies on `base64::encode`: standard alphabet with padding, a function of
/// the bytes alone.
#[verifier::external_body]
fn base64_encode(b: &[u8]) -> (r: String)
    ensures
        r@ == base64_of(b@),
{
    base64::encode(b)
}

/// Relies on `base64::decode`: standard alphabet, a function of the text
/// alone, and the text that `base64::encode` made of some bytes decodes to
/// those bytes.
#[verifier::external_body]
fn base64_decode(s: &str) -> (r: Option<Vec<u8>>)
    ensures
        match r {
            Some(v) => base64_decoded(s@) == Some(v@),
            None => base64_decoded(s@) is None,
        },
        forall|b: Seq<u8>| s@ == #[trigger] base64_of(b) ==> (r is Some && r->0@ == b),
{
    base64::decode(s).ok()
}

/// The token of a 64-bit word: its 8 little-endian bytes in base64.
pub open spec fn u64_token(x: u64) -> Seq<char> {
    base64_of(spec_u64_to_le_bytes(x))
}

/// The word a token stands for, if it decodes to exactly 8 bytes.
pub open spec fn u64_of_token(s: Seq<char>) -> Option<u64> {
    match base64_decoded(s) {
        Some(b) => if b.len() == 8 {
            Some(spec_u64_from_le_bytes(b))
        } else {
            None
        },
        None => None,
    }
}

/// Writes a 64-bit word as a token.
pub fn u64_to_string(x: u64) -> (r: String)
    ensures
        r@ == u64_token(x),
{
    let b = u64_to_le_bytes(x);
    base64_encode(b.as_slice())
}

/// Reads a token back into a 64-bit word. A token made by `u64_to_string`
/// reads back as the word it was made of.
pub fn string_to_u64(s: &str) -> (r: Result<u64, DecodeError>)
    ensures
        match r {
            Ok(x) => u64_of_token(s@) == Some(x),
            Err(e) => u64_of_token(s@) is None && e == DecodeError::MalformedEncoding,
        },
        forall|x: u64| s@ == #[trigger] u64_token(x) ==> r == Ok::<u64, DecodeError>(x),
{
    proof {
        lemma_auto_spec_u64_to_from_le_bytes();
    }
    match base64_decode(s) {
        Some(b) => {
            if b.len() == 8 {
                Ok(u64_from_le_bytes(b.as_slice()))
            } else {
                Err(DecodeError::MalformedEncoding)
            }
        },
        None => Err(DecodeError::MalformedEncoding),
    }
}

/// The token of a signed integer: its two's-complement word.
pub open spec fn i64_token(n: i64) -> Seq<char> {
    u64_token(n as u64)
}

/// Writes a signed integer as a token.
pub fn encode_integer(n: i64) -> (r: String)
    ensures
        r@ == i64_token(n),
{
    u64_to_string(n as u64)
}

/// Reads a token back into a signed integer.
pub fn decode_integer(s: &str) -> (r: Result<i64, DecodeError>)
    ensures
        match r {
            Ok(n) => u64_of_token(s@) == Some(n as u64),
            Err(e) => u64_of_token(s@) is None && e == DecodeError::MalformedEncoding,
        },
        forall|n: i64| s@ == #[trigger] i64_token(n) ==> r == Ok::<i64, DecodeError>(n),
{
    match string_to_u64(s) {
        Ok(x) => {
            assert forall|n: i64| s@ == #[trigger] i64_token(n) implies x as i64 == n by {
                assert(u64_token(n as u64) == s@);
                assert((n as u64) as i64 == n) by (bit_vector);
            }
            assert((x as i64) as u64 == x) by (bit_vector);
            Ok(x as i64)
        },
        Err(e) => {
            assert forall|n: i64| s@ != #[trigger] i64_token(n) by {
                if s@ == i64_token(n) {
                    assert(u64_token(n as u64) == s@);
                }
            }
            Err(e)
        },
    }
}

/// The token of a byte string.
pub fn encode_bytes(b: &Vec<u8>) -> (r: String)
    ensures
        r@ == base64_of(b@),
{
    base64_encode(b.as_slice())
}

/// Reads a token back into a byte string.
pub fn decode_bytes(s: &str) -> (r: Result<Vec<u8>, DecodeError>)
    ensures
        match r {
            Ok(b) => base64_decoded(s@) == Some(b@),
            Err(e) => base64_decoded(s@) is None && e == DecodeError::MalformedEncoding,
        },
        forall|b: Seq<u8>| s@ == #[trigger] base64_of(b) ==> (r is Ok && r->Ok_0@ == b),
{
    match base64_decode(s) {
        Some(b) => Ok(b),
        None => Err(DecodeError::MalformedEncoding),
    }
}

} // verus!
