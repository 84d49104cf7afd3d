//! The share-encryption capability consumed by both aggregator roles,
//! shipped here as an in-memory implementation with an exact contract:
//! a keyed stream cipher whose ciphertext carries a digest tag, so that
//! decryption inverts encryption and a tampered ciphertext is rejected.

use vstd::prelude::*;
use crate::bytesutil;
use crate::digest::sha256_of;
use crate::messages::{HpkeCiphertext, HpkeConfig};

verus! {

/// One decryption configuration held by an aggregator: the public half
/// that senders encrypt to, and the private key. In this in-memory
/// capability the two halves are equal.
#[derive(Clone, Debug)]
pub struct HpkeReceiverConfig {
    pub config: HpkeConfig,
    pub private_key: Vec<u8>,
}

impl HpkeReceiverConfig {
    /// A usable receiver configuration: a nonempty key whose public half
    /// matches the private half.
    pub open spec fn wf(&self) -> bool {
        &&& self.private_key@.len() >= 1
        &&& self.config.public_key@ == self.private_key@
    }

    /// Builds a receiver configuration from an identifier and a key.
    pub fn build(id: u8, key: Vec<u8>) -> (r: Self)
        requires
            key@.len() >= 1,
        ensures
            r.wf(),
            r.config.id == id,
            r.private_key@ == key@,
    {
        let public_key = bytesutil::bytes_clone(&key);
        HpkeReceiverConfig { config: HpkeConfig { id, public_key }, private_key: key }
    }
}

/// `data` combined with the keystream of `key`, element by element.
pub open spec fn xor_with_key(key: Seq<u8>, data: Seq<u8>) -> Seq<u8>
    recommends
        key.len() >= 1,
{
    Seq::new(data.len(), |i: int| data[i] ^ key[i % key.len() as int])
}

/// The authentication tag of a plaintext under a key.
pub open spec fn tag_of(key: Seq<u8>, plain: Seq<u8>) -> Seq<u8> {
    sha256_of(key + plain)
}

/// What decrypting a ciphertext yields: the unmasked payload when the
/// carried tag verifies against it, nothing otherwise.
pub open spec fn decrypt_view(key: Seq<u8>, payload: Seq<u8>, tag: Seq<u8>) -> Option<Seq<u8>>
    recommends
        key.len() >= 1,
{
    let plain = xor_with_key(key, payload);
    if tag == tag_of(key, plain) {
        Some(plain)
    } else {
        None
    }
}

/// Masks `data` with the keystream of `key`.
fn xor_with_key_exec(key: &Vec<u8>, data: &Vec<u8>) -> (r: Vec<u8>)
    requires
        key@.len() >= 1,
    ensures
        r@ == xor_with_key(key@, data@),
{
    let mut out: Vec<u8> = Vec::new();
    let mut i: usize = 0;
    while i < data.len()
        invariant
            i <= data@.len(),
            key@.len() >= 1,
            out@ =~= xor_with_key(key@, data@).take(i as int),
        decreases data@.len() - i,
    {
        out.push(data[i] ^ key[i % key.len()]);
        proof {
            assert(out@ =~= xor_with_key(key@, data@).take(i + 1));
        }
        i += 1;
    }
    proof {
        assert(out@ =~= xor_with_key(key@, data@));
    }
    out
}

/// The tag of `plain` under `key`.
fn compute_tag(key: &Vec<u8>, plain: &Vec<u8>) -> (r: [u8; 32])
    ensures
        r@ == tag_of(key@, plain@),
{
    let mut keyed: Vec<u8> = bytesutil::bytes_clone(key);
    keyed.extend_from_slice(plain.as_slice());
    proof {
        assert(keyed@ =~= key@ + plain@);
    }
    crate::digest::sha256(&keyed)
}

/// Encrypts `plain` to the holder of `config`: the payload is the masked
/// plaintext, `enc` carries the authentication tag.
pub fn hpke_encrypt(config: &HpkeConfig, plain: &Vec<u8>) -> (r: HpkeCiphertext)
    requires
        config.public_key@.len() >= 1,
    ensures
        r.config_id == config.id,
        r.payload@ == xor_with_key(config.public_key@, plain@),
        r.enc@ == tag_of(config.public_key@, plain@),
{
    let payload = xor_with_key_exec(&config.public_key, plain);
    let tag = compute_tag(&config.public_key, plain);
    let enc = bytesutil::bytes32_to_vec(&tag);
    HpkeCiphertext { config_id: config.id, enc, payload }
}

/// Decrypts a ciphertext with `key`, rejecting one whose tag does not
/// verify.
pub fn hpke_decrypt(key: &Vec<u8>, ct: &HpkeCiphertext) -> (r: Option<Vec<u8>>)
    requires
        key@.len() >= 1,
    ensures
        (r is Some) == (decrypt_view(key@, ct.payload@, ct.enc@) is Some),
        r matches Some(p) ==> decrypt_view(key@, ct.payload@, ct.enc@) == Some(p@),
{
    let plain = xor_with_key_exec(key, &ct.payload);
    let expected = compute_tag(key, &plain);
    let expected_vec = bytesutil::bytes32_to_vec(&expected);
    if bytesutil::bytes_eq(&ct.enc, &expected_vec) {
        Some(plain)
    } else {
        None
    }
}

/// Decryption inverts encryption: the masked plaintext together with its
/// tag decrypts, under the same key, to the plaintext encrypted.
pub proof fn lemma_hpke_round_trip(key: Seq<u8>, plain: Seq<u8>)
    requires
        key.len() >= 1,
    ensures
        decrypt_view(key, xor_with_key(key, plain), tag_of(key, plain)) == Some(plain),
{
    assert(xor_with_key(key, xor_with_key(key, plain)) =~= plain) by {
        assert forall|i: int| 0 <= i < plain.len() implies xor_with_key(
            key,
            xor_with_key(key, plain),
        )[i] == plain[i] by {
            let b = plain[i];
            let m = key[i % key.len() as int];
            assert(b ^ m ^ m == b) by (bit_vector);
        }
    }
}

} // verus!
