//! The digest capability: a 32-byte cryptographic digest of a byte
//! string, used for batch checksums, ciphertext authentication and
//! deterministic task-identifier derivation.

use vstd::prelude::*;
use sha2::Digest;

verus! {

/// The 32-byte digest of `data`: a function of the bytes alone, too long
/// to state, so it only carries a name.
pub uninterp spec fn sha256_of(data: Seq<u8>) -> Seq<u8>;

/// Relies on sha2::Sha256: the digest depends on the input bytes alone
/// and is 32 bytes long.
#[verifier::external_body]
pub(crate) fn sha256(data: &Vec<u8>) -> (r: [u8; 32])
    ensures
        r@ == sha256_of(data@),
{
    sha2::Sha256::digest(data.as_slice()).into()
}

/// The digest of a report identifier, as batch checksums combine it.
pub fn sha256_of_id(id: &crate::messages::Id) -> (r: [u8; 32])
    ensures
        r@ == sha256_of(id@),
{
    let v = crate::bytesutil::bytes32_to_vec(&id.bytes);
    sha256(&v)
}

} // verus!
