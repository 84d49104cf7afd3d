//! Byte-level helpers: comparisons, copies, XOR combination and the
//! little-endian encoding of 64-bit integers used for share material.

use vstd::prelude::*;

verus! {

/// Compares two byte vectors by value.
pub fn bytes_eq(a: &Vec<u8>, b: &Vec<u8>) -> (r: bool)
    ensures
        r <==> a@ == b@,
{
    if a.len() != b.len() {
        assert(a@ != b@);
        return false;
    }
    let mut i: usize = 0;
    while i < a.len()
        invariant
            i <= a.len(),
            a.len() == b.len(),
            forall|j: int| 0 <= j < i ==> a@[j] == b@[j],
        decreases a.len() - i,
    {
        if a[i] != b[i] {
            return false;
        }
        i += 1;
    }
    assert(a@ =~= b@);
    true
}

/// Compares two 32-byte arrays by value.
pub fn bytes32_eq(a: &[u8; 32], b: &[u8; 32]) -> (r: bool)
    ensures
        r <==> a@ == b@,
{
    let mut i: usize = 0;
    while i < 32
        invariant
            i <= 32,
            forall|j: int| 0 <= j < i ==> a@[j] == b@[j],
        decreases 32 - i,
    {
        if a[i] != b[i] {
            return false;
        }
        i += 1;
    }
    assert(a@ =~= b@);
    true
}

/// Copies a byte vector element by element.
pub fn bytes_clone(a: &Vec<u8>) -> (r: Vec<u8>)
    ensures
        r@ == a@,
{
    let mut out: Vec<u8> = Vec::new();
    let mut i: usize = 0;
    while i < a.len()
        invariant
            i <= a.len(),
            out@ =~= a@.subrange(0, i as int),
        decreases a.len() - i,
    {
        out.push(a[i]);
        i += 1;
    }
    assert(out@ =~= a@);
    out
}

/// Copies a 32-byte array into a vector.
pub fn bytes32_to_vec(a: &[u8; 32]) -> (r: Vec<u8>)
    ensures
        r@ == a@,
{
    let mut out: Vec<u8> = Vec::new();
    let mut i: usize = 0;
    while i < 32
        invariant
            i <= 32,
            out@ =~= a@.subrange(0, i as int),
        decreases 32 - i,
    {
        out.push(a[i]);
        i += 1;
    }
    assert(out@ =~= a@);
    out
}

/// The XOR of two equal-length byte sequences, element by element.
pub open spec fn xor_bytes(a: Seq<u8>, b: Seq<u8>) -> Seq<u8>
    recommends
        a.len() == b.len(),
{
    Seq::new(a.len(), |i: int| a[i] ^ b[i])
}

/// XORs `b` into `a`, in place, over 32-byte arrays.
pub fn xor32_assign(a: &mut [u8; 32], b: &[u8; 32])
    ensures
        final(a)@ == xor_bytes(old(a)@, b@),
{
    let mut i: usize = 0;
    while i < 32
        invariant
            i <= 32,
            forall|j: int| 0 <= j < i ==> a@[j] == (old(a)@[j] ^ b@[j]),
            forall|j: int| i <= j < 32 ==> a@[j] == old(a)@[j],
        decreases 32 - i,
    {
        a[i] = a[i] ^ b[i];
        i += 1;
    }
    assert(a@ =~= xor_bytes(old(a)@, b@));
}

/// The little-endian byte at position `i` of `x`.
pub open spec fn le_byte(x: u64, i: int) -> u8 {
    (x >> (8 * i) & 0xff) as u8
}

/// The 8-byte little-endian encoding of `x`.
pub open spec fn u64_to_le_bytes(x: u64) -> Seq<u8> {
    Seq::new(8, |i: int| le_byte(x, i))
}

/// The 64-bit integer read little-endian from the first 8 bytes of `s`.
pub open spec fn u64_from_le_bytes(s: Seq<u8>) -> u64
    recommends
        s.len() >= 8,
{
    (s[0] as u64) | (s[1] as u64) << 8 | (s[2] as u64) << 16 | (s[3] as u64) << 24 | (
    s[4] as u64) << 32 | (s[5] as u64) << 40 | (s[6] as u64) << 48 | (s[7] as u64) << 56
}

/// Reading back the little-endian encoding of `x` yields `x`.
pub proof fn lemma_u64_le_round_trip(x: u64)
    ensures
        u64_from_le_bytes(u64_to_le_bytes(x)) == x,
{
    let s = u64_to_le_bytes(x);
    let b0 = s[0];
    let b1 = s[1];
    let b2 = s[2];
    let b3 = s[3];
    let b4 = s[4];
    let b5 = s[5];
    let b6 = s[6];
    let b7 = s[7];
    assert((b0 as u64) | (b1 as u64) << 8 | (b2 as u64) << 16 | (b3 as u64) << 24 | (b4 as u64)
        << 32 | (b5 as u64) << 40 | (b6 as u64) << 48 | (b7 as u64) << 56 == x) by (bit_vector)
        requires
            b0 == (x >> 0 & 0xff) as u8,
            b1 == (x >> 8 & 0xff) as u8,
            b2 == (x >> 16 & 0xff) as u8,
            b3 == (x >> 24 & 0xff) as u8,
            b4 == (x >> 32 & 0xff) as u8,
            b5 == (x >> 40 & 0xff) as u8,
            b6 == (x >> 48 & 0xff) as u8,
            b7 == (x >> 56 & 0xff) as u8,
    ;
}

/// Encodes `x` as 8 little-endian bytes.
pub fn u64_encode_le(x: u64) -> (r: Vec<u8>)
    ensures
        r@ == u64_to_le_bytes(x),
{
    let mut out: Vec<u8> = Vec::new();
    out.push((x & 0xff) as u8);
    out.push((x >> 8 & 0xff) as u8);
    out.push((x >> 16 & 0xff) as u8);
    out.push((x >> 24 & 0xff) as u8);
    out.push((x >> 32 & 0xff) as u8);
    out.push((x >> 40 & 0xff) as u8);
    out.push((x >> 48 & 0xff) as u8);
    out.push((x >> 56 & 0xff) as u8);
    assert(out@[0] == le_byte(x, 0)) by {
        assert(x & 0xff == x >> 0 & 0xff) by (bit_vector);
    }
    assert(out@ =~= u64_to_le_bytes(x));
    out
}

/// Reads a 64-bit integer little-endian from the first 8 bytes of `s`.
pub fn u64_decode_le(s: &Vec<u8>) -> (r: u64)
    requires
        s@.len() >= 8,
    ensures
        r == u64_from_le_bytes(s@),
{
    (s[0] as u64) | (s[1] as u64) << 8 | (s[2] as u64) << 16 | (s[3] as u64) << 24 | (
    s[4] as u64) << 32 | (s[5] as u64) << 40 | (s[6] as u64) << 48 | (s[7] as u64) << 56
}

} // verus!
