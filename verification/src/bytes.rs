//! Big-endian integer encodings and byte-wise XOR, as used by the file header and by
//! the per-chunk nonces and associated data.
use vstd::prelude::*;

verus! {

/// The 8 bytes of `x`, most significant first.
pub open spec fn be_u64(x: u64) -> Seq<u8> {
    seq![
        (x >> 56u64) as u8,
        (x >> 48u64) as u8,
        (x >> 40u64) as u8,
        (x >> 32u64) as u8,
        (x >> 24u64) as u8,
        (x >> 16u64) as u8,
        (x >> 8u64) as u8,
        x as u8,
    ]
}

/// The 4 bytes of `x`, most significant first.
pub open spec fn be_u32(x: u32) -> Seq<u8> {
    seq![(x >> 24u32) as u8, (x >> 16u32) as u8, (x >> 8u32) as u8, x as u8]
}

/// The integer whose big-endian bytes are `b[0..8]`.
pub open spec fn u64_of_be(b: Seq<u8>) -> u64 {
    (b[0] as u64) << 56u64 | (b[1] as u64) << 48u64 | (b[2] as u64) << 40u64 | (b[3] as u64)
        << 32u64 | (b[4] as u64) << 24u64 | (b[5] as u64) << 16u64 | (b[6] as u64) << 8u64
        | (b[7] as u64)
}

/// The integer whose big-endian bytes are `b[0..4]`.
pub open spec fn u32_of_be(b: Seq<u8>) -> u32 {
    (b[0] as u32) << 24u32 | (b[1] as u32) << 16u32 | (b[2] as u32) << 8u32 | (b[3] as u32)
}

/// Byte-wise exclusive or of `a` with the first `a.len()` bytes of `b`.
pub open spec fn xor_bytes(a: Seq<u8>, b: Seq<u8>) -> Seq<u8> {
    Seq::new(a.len(), |i: int| a[i] ^ b[i])
}

/// Big-endian bytes of a `u64` (what `u64::to_be_bytes` gives).
pub fn u64_to_be_bytes(x: u64) -> (b: [u8; 8])
    ensures
        b@ == be_u64(x),
{
    let b = [
        (x >> 56u64) as u8,
        (x >> 48u64) as u8,
        (x >> 40u64) as u8,
        (x >> 32u64) as u8,
        (x >> 24u64) as u8,
        (x >> 16u64) as u8,
        (x >> 8u64) as u8,
        x as u8,
    ];
    assert(b@ =~= be_u64(x));
    b
}

/// Big-endian bytes of a `u32` (what `u32::to_be_bytes` gives).
pub fn u32_to_be_bytes(x: u32) -> (b: [u8; 4])
    ensures
        b@ == be_u32(x),
{
    let b = [(x >> 24u32) as u8, (x >> 16u32) as u8, (x >> 8u32) as u8, x as u8];
    assert(b@ =~= be_u32(x));
    b
}

/// The `u64` with the given big-endian bytes (what `u64::from_be_bytes` gives).
pub fn u64_from_be_bytes(b: &[u8; 8]) -> (x: u64)
    ensures
        x == u64_of_be(b@),
{
    (b[0] as u64) << 56u64 | (b[1] as u64) << 48u64 | (b[2] as u64) << 40u64 | (b[3] as u64)
        << 32u64 | (b[4] as u64) << 24u64 | (b[5] as u64) << 16u64 | (b[6] as u64) << 8u64
        | (b[7] as u64)
}

/// The `u32` with the given big-endian bytes (what `u32::from_be_bytes` gives).
pub fn u32_from_be_bytes(b: &[u8; 4]) -> (x: u32)
    ensures
        x == u32_of_be(b@),
{
    (b[0] as u32) << 24u32 | (b[1] as u32) << 16u32 | (b[2] as u32) << 8u32 | (b[3] as u32)
}

/// Decoding the big-endian bytes of `x` gives back `x`.
pub proof fn lemma_u64_be_roundtrip(x: u64)
    ensures
        u64_of_be(be_u64(x)) == x,
{
    let b = be_u64(x);
    let (b0, b1, b2, b3) = (b[0], b[1], b[2], b[3]);
    let (b4, b5, b6, b7) = (b[4], b[5], b[6], b[7]);
    assert(b0 == (x >> 56u64) as u8 && b1 == (x >> 48u64) as u8 && b2 == (x >> 40u64) as u8 && b3
        == (x >> 32u64) as u8 && b4 == (x >> 24u64) as u8 && b5 == (x >> 16u64) as u8 && b6 == (x
        >> 8u64) as u8 && b7 == x as u8);
    assert((b0 as u64) << 56u64 | (b1 as u64) << 48u64 | (b2 as u64) << 40u64 | (b3 as u64)
        << 32u64 | (b4 as u64) << 24u64 | (b5 as u64) << 16u64 | (b6 as u64) << 8u64 | (b7 as u64)
        == x) by (bit_vector)
        requires
            b0 == (x >> 56u64) as u8,
            b1 == (x >> 48u64) as u8,
            b2 == (x >> 40u64) as u8,
            b3 == (x >> 32u64) as u8,
            b4 == (x >> 24u64) as u8,
            b5 == (x >> 16u64) as u8,
            b6 == (x >> 8u64) as u8,
            b7 == x as u8,
    ;
}

/// Encoding the integer that 8 bytes decode to gives back those bytes.
pub proof fn lemma_u64_be_bytes_roundtrip(b: Seq<u8>)
    requires
        b.len() == 8,
    ensures
        be_u64(u64_of_be(b)) == b,
{
    let x = u64_of_be(b);
    let (b0, b1, b2, b3) = (b[0], b[1], b[2], b[3]);
    let (b4, b5, b6, b7) = (b[4], b[5], b[6], b[7]);
    assert(b0 == (x >> 56u64) as u8 && b1 == (x >> 48u64) as u8 && b2 == (x >> 40u64) as u8 && b3
        == (x >> 32u64) as u8 && b4 == (x >> 24u64) as u8 && b5 == (x >> 16u64) as u8 && b6 == (x
        >> 8u64) as u8 && b7 == x as u8) by (bit_vector)
        requires
            x == (b0 as u64) << 56u64 | (b1 as u64) << 48u64 | (b2 as u64) << 40u64 | (b3 as u64)
                << 32u64 | (b4 as u64) << 24u64 | (b5 as u64) << 16u64 | (b6 as u64) << 8u64 | (
            b7 as u64),
    ;
    assert(be_u64(x) =~= b);
}

/// Decoding the big-endian bytes of `x` gives back `x`.
pub proof fn lemma_u32_be_roundtrip(x: u32)
    ensures
        u32_of_be(be_u32(x)) == x,
{
    let b = be_u32(x);
    let (b0, b1, b2, b3) = (b[0], b[1], b[2], b[3]);
    assert(b0 == (x >> 24u32) as u8 && b1 == (x >> 16u32) as u8 && b2 == (x >> 8u32) as u8 && b3
        == x as u8);
    assert((b0 as u32) << 24u32 | (b1 as u32) << 16u32 | (b2 as u32) << 8u32 | (b3 as u32) == x)
        by (bit_vector)
        requires
            b0 == (x >> 24u32) as u8,
            b1 == (x >> 16u32) as u8,
            b2 == (x >> 8u32) as u8,
            b3 == x as u8,
    ;
}

/// Encoding the integer that 4 bytes decode to gives back those bytes.
pub proof fn lemma_u32_be_bytes_roundtrip(b: Seq<u8>)
    requires
        b.len() == 4,
    ensures
        be_u32(u32_of_be(b)) == b,
{
    let x = u32_of_be(b);
    let (b0, b1, b2, b3) = (b[0], b[1], b[2], b[3]);
    assert(b0 == (x >> 24u32) as u8 && b1 == (x >> 16u32) as u8 && b2 == (x >> 8u32) as u8 && b3
        == x as u8) by (bit_vector)
        requires
            x == (b0 as u32) << 24u32 | (b1 as u32) << 16u32 | (b2 as u32) << 8u32 | (b3 as u32),
    ;
    assert(be_u32(x) =~= b);
}

/// Distinct integers have distinct big-endian encodings.
pub proof fn lemma_be_u64_injective(x: u64, y: u64)
    requires
        be_u64(x) == be_u64(y),
    ensures
        x == y,
{
    lemma_u64_be_roundtrip(x);
    lemma_u64_be_roundtrip(y);
}

/// XOR with the same bytes is injective: equal results mean equal second operands.
pub proof fn lemma_xor_cancel(a: Seq<u8>, b: Seq<u8>, c: Seq<u8>)
    requires
        b.len() == a.len(),
        c.len() == a.len(),
        xor_bytes(a, b) == xor_bytes(a, c),
    ensures
        b == c,
{
    assert forall|i: int| 0 <= i < a.len() implies b[i] == c[i] by {
        let (ai, bi, ci) = (a[i], b[i], c[i]);
        assert(xor_bytes(a, b)[i] == xor_bytes(a, c)[i]);
        assert(xor_bytes(a, b)[i] == ai ^ bi);
        assert(xor_bytes(a, c)[i] == ai ^ ci);
        assert(ai ^ bi == ai ^ ci ==> bi == ci) by (bit_vector);
    }
    assert(b =~= c);
}

/// The integer that 8 bytes decode to is their base-256 value, most significant byte
/// first.
pub proof fn lemma_u64_of_be_value(b: Seq<u8>)
    requires
        b.len() == 8,
    ensures
        u64_of_be(b) as int == b[0] as int * 0x100000000000000 + b[1] as int * 0x1000000000000
            + b[2] as int * 0x10000000000 + b[3] as int * 0x100000000 + b[4] as int * 0x1000000
            + b[5] as int * 0x10000 + b[6] as int * 0x100 + b[7] as int,
{
    let (b0, b1, b2, b3) = (b[0], b[1], b[2], b[3]);
    let (b4, b5, b6, b7) = (b[4], b[5], b[6], b[7]);
    assert((b0 as u64) << 56u64 | (b1 as u64) << 48u64 | (b2 as u64) << 40u64 | (b3 as u64)
        << 32u64 | (b4 as u64) << 24u64 | (b5 as u64) << 16u64 | (b6 as u64) << 8u64 | (b7 as u64)
        == b0 as u64 * 0x100000000000000u64 + b1 as u64 * 0x1000000000000u64 + b2 as u64
        * 0x10000000000u64 + b3 as u64 * 0x100000000u64 + b4 as u64 * 0x1000000u64 + b5 as u64
        * 0x10000u64 + b6 as u64 * 0x100u64 + b7 as u64) by (bit_vector);
}

/// The integer that 4 bytes decode to is their base-256 value, most significant byte
/// first.
pub proof fn lemma_u32_of_be_value(b: Seq<u8>)
    requires
        b.len() == 4,
    ensures
        u32_of_be(b) as int == b[0] as int * 0x1000000 + b[1] as int * 0x10000 + b[2] as int
            * 0x100 + b[3] as int,
{
    let (b0, b1, b2, b3) = (b[0], b[1], b[2], b[3]);
    assert((b0 as u32) << 24u32 | (b1 as u32) << 16u32 | (b2 as u32) << 8u32 | (b3 as u32) == b0
        as u32 * 0x1000000u32 + b1 as u32 * 0x10000u32 + b2 as u32 * 0x100u32 + b3 as u32)
        by (bit_vector);
}

} // verus!
