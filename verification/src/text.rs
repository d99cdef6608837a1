//! The UTF-8 check that gates identifier derivation.

use vstd::prelude::*;

verus! {

/// Relies on `core::str::from_utf8`: it returns `Ok` exactly when the bytes
/// are a valid UTF-8 encoding, which is what vstd's `valid_utf8` states.
#[verifier::external_body]
pub(crate) fn is_valid_utf8(bytes: &Vec<u8>) -> (r: bool)
    ensures
        r == vstd::utf8::valid_utf8(bytes@),
{
    match core::str::from_utf8(bytes.as_slice()) {
        Ok(_) => true,
        Err(_) => false,
    }
}

} // verus!
