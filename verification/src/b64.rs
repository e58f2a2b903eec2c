//! Standard-alphabet base64, behind trusted wrappers.
//!
//! Key material and compact bit sets arrive base64-encoded; the codec
//! itself is the outside crate's, and its results are named here so
//! contracts can speak of them.

use vstd::prelude::*;
use base64::Engine;

verus! {

/// What decoding a string as standard base64 yields: the byte string, or
/// nothing when the input is not valid base64.  A function of the input
/// alone.
pub uninterp spec fn base64_decoding(s: Seq<char>) -> Option<Seq<u8>>;

/// The standard base64 encoding of a byte string.  A function of the
/// input alone.
pub uninterp spec fn base64_encoding(b: Seq<u8>) -> Seq<char>;

/// Relies on `base64::engine::general_purpose::STANDARD` through
/// `base64::Engine::decode`: the result is a function of the input
/// string alone.
#[verifier::external_body]
pub fn base64_decode(s: &str) -> (r: Option<Vec<u8>>)
    ensures
        match r {
            Some(v) => base64_decoding(s@) == Some(v@),
            None => base64_decoding(s@) is None,
        },
{
    base64::engine::general_purpose::STANDARD.decode(s).ok()
}

/// Relies on `base64::engine::general_purpose::STANDARD` through
/// `base64::Engine::encode`: the result is a function of the input bytes
/// alone.
#[verifier::external_body]
pub fn base64_encode(b: &Vec<u8>) -> (r: String)
    ensures
        r@ == base64_encoding(b@),
{
    base64::engine::general_purpose::STANDARD.encode(b.as_slice())
}

} // verus!
