//! The digest that hash mode truncates.

use vstd::prelude::*;
use sha1::Digest;

verus! {

/// The SHA-1 digest of a byte sequence. The digest's value is fixed by the
/// SHA-1 function itself; the contracts here rely only on it being a
/// function of the input bytes and on its length.
pub uninterp spec fn sha1_digest(bytes: Seq<u8>) -> Seq<u8>;

/// Relies on the `sha1` crate's `Sha1` hasher (through `Digest::digest`):
/// the digest depends on the input bytes alone and is 20 bytes long.
#[verifier::external_body]
pub(crate) fn sha1_of(bytes: &Vec<u8>) -> (r: Vec<u8>)
    ensures
        r@ == sha1_digest(bytes@),
        r@.len() == 20,
{
    sha1::Sha1::digest(bytes.as_slice()).as_slice().to_vec()
}

} // verus!
