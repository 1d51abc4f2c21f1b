//! How a byte string is cut into chunks, and how the per-chunk nonce and associated
//! data are formed.
use crate::bytes::{
    be_u64, lemma_be_u64_injective, lemma_u64_be_roundtrip, lemma_xor_cancel, u64_of_be,
    u64_to_be_bytes, xor_bytes,
};
use crate::keys::GcmNonce;
use vstd::prelude::*;

verus! {

/// The leading part of `s` that one read of at most `size` bytes yields.
pub open spec fn head_chunk(s: Seq<u8>, size: nat) -> Seq<u8> {
    if s.len() <= size {
        s
    } else {
        s.take(size as int)
    }
}

/// The chunks that reading `s` in reads of `size` bytes yields, one per sealed chunk:
/// consecutive pieces of `size` bytes, the last one possibly shorter, and a single
/// empty chunk for empty input. Only meant for a positive `size` (no stream uses a
/// size of zero).
pub open spec fn split_chunks(s: Seq<u8>, size: nat) -> Seq<Seq<u8>>
    recommends
        size > 0,
    decreases s.len(),
{
    if size == 0 || s.len() <= size {
        seq![s]
    } else {
        seq![s.take(size as int)] + split_chunks(s.skip(size as int), size)
    }
}

/// `chunks` has the shape that `split_chunks` gives for a positive `size`: at least one
/// chunk, every chunk but the last exactly `size` bytes, the last at most `size` bytes
/// and not empty unless it is the only chunk.
pub open spec fn chunk_shape(chunks: Seq<Seq<u8>>, size: nat) -> bool {
    &&& chunks.len() >= 1
    &&& forall|i: int| 0 <= i < chunks.len() - 1 ==> (#[trigger] chunks[i]).len() == size
    &&& chunks.last().len() <= size
    &&& chunks.len() > 1 ==> chunks.last().len() > 0
}

/// The 12 bytes formed from a chunk counter: four zero bytes, then the counter's
/// big-endian bytes.
pub open spec fn counter_block(counter: u64) -> Seq<u8> {
    seq![0u8, 0u8, 0u8, 0u8] + be_u64(counter)
}

/// The nonce of chunk `counter`: the root nonce XOR the counter block.
pub open spec fn chunk_nonce_bytes(root: Seq<u8>, counter: u64) -> Seq<u8> {
    xor_bytes(root, counter_block(counter))
}

/// The associated data of chunk `counter`: the counter block, then 1 for the final
/// chunk and 0 for any other.
pub open spec fn chunk_aad_bytes(counter: u64, is_final: bool) -> Seq<u8> {
    counter_block(counter).push(if is_final {
        1u8
    } else {
        0u8
    })
}

/// The 12 bytes of a chunk counter (see `counter_block`).
pub fn counter_to_bytes(counter: u64) -> (bytes: [u8; 12])
    ensures
        bytes@ == counter_block(counter),
{
    let be = u64_to_be_bytes(counter);
    let bytes = [0u8, 0u8, 0u8, 0u8, be[0], be[1], be[2], be[3], be[4], be[5], be[6], be[7]];
    assert(bytes@ =~= counter_block(counter));
    bytes
}

/// The nonce of chunk `counter` of a stream with root nonce `root`.
pub fn chunk_nonce(root: &GcmNonce, counter: u64) -> (nonce: GcmNonce)
    ensures
        nonce@ == chunk_nonce_bytes(root@, counter),
{
    let offset = counter_to_bytes(counter);
    let mut bytes = *root.as_slice();
    let ghost root_bytes = bytes@;
    let mut i: usize = 0;
    while i < 12
        invariant
            i <= 12,
            root_bytes == root@,
            root_bytes.len() == 12,
            offset@ == counter_block(counter),
            bytes@.len() == 12,
            forall|j: int| 0 <= j < i ==> bytes@[j] == root_bytes[j] ^ offset@[j],
            forall|j: int| i <= j < 12 ==> bytes@[j] == root_bytes[j],
        decreases 12 - i,
    {
        bytes[i] = bytes[i] ^ offset[i];
        i = i + 1;
    }
    assert(bytes@ =~= chunk_nonce_bytes(root@, counter));
    GcmNonce::from_slice(&bytes)
}

/// The associated data of chunk `counter`, final or not.
pub fn chunk_aad(counter: u64, is_final: bool) -> (aad: [u8; 13])
    ensures
        aad@ == chunk_aad_bytes(counter, is_final),
{
    let c = counter_to_bytes(counter);
    let flag: u8 = if is_final {
        1
    } else {
        0
    };
    let aad = [c[0], c[1], c[2], c[3], c[4], c[5], c[6], c[7], c[8], c[9], c[10], c[11], flag];
    assert(aad@ =~= chunk_aad_bytes(counter, is_final));
    aad
}

/// The next chunk of `input` from `pos`: at most `capacity` bytes, fewer only at the
/// end of the input.
pub fn fill_chunk(input: &[u8], pos: usize, capacity: usize) -> (chunk: Vec<u8>)
    requires
        pos <= input@.len(),
    ensures
        chunk@ == head_chunk(input@.skip(pos as int), capacity as nat),
{
    let remaining = input.len() - pos;
    let end = if remaining <= capacity {
        input.len()
    } else {
        pos + capacity
    };
    let chunk = vstd::slice::slice_to_vec(vstd::slice::slice_subrange(input, pos, end));
    assert(chunk@ =~= head_chunk(input@.skip(pos as int), capacity as nat));
    chunk
}

/// One read while filling a chunk buffer of `capacity` bytes, of which `filled` are
/// filled, after the read returned `n` bytes: the new filled count, and whether filling
/// stops, which it does at the end of the input (a read of no bytes) or once the buffer
/// is full. A buffer filled to less than its capacity therefore means end of input.
pub fn fill_progress(filled: usize, capacity: usize, n: usize) -> (step: (usize, bool))
    requires
        filled < capacity,
        n <= capacity - filled,
    ensures
        n == 0 ==> step == (filled, true),
        n > 0 ==> step.0 == filled + n && step.1 == (filled + n == capacity),
{
    if n == 0 {
        (filled, true)
    } else {
        let next = filled + n;
        (next, next == capacity)
    }
}

/// One step of reading: the first chunk of `s`, then, from what follows it, the next
/// read is empty exactly when that first chunk is the last one.
pub proof fn lemma_split_step(s: Seq<u8>, size: nat)
    requires
        size > 0,
    ensures
        ({
            let cur = head_chunk(s, size);
            let rest = s.skip(cur.len() as int);
            let next = head_chunk(rest, size);
            &&& cur == s.take(cur.len() as int)
            &&& cur.len() <= size
            &&& next.len() > 0 ==> cur.len() == size
            &&& cur.len() == 0 ==> next.len() == 0
            &&& next.len() == 0 ==> split_chunks(s, size) == seq![cur]
            &&& next.len() > 0 ==> split_chunks(s, size) == seq![cur] + split_chunks(rest, size)
        }),
{
    let cur = head_chunk(s, size);
    let rest = s.skip(cur.len() as int);
    assert(cur =~= s.take(cur.len() as int));
    if s.len() <= size {
        assert(rest =~= Seq::<u8>::empty());
    } else {
    }
}

/// Reading in chunks loses nothing: the chunks of `s` concatenate back to `s`.
pub proof fn lemma_split_flatten(s: Seq<u8>, size: nat)
    requires
        size > 0,
    ensures
        split_chunks(s, size).flatten() == s,
    decreases s.len(),
{
    if s.len() <= size {
        seq![s].lemma_flatten_one_element();
    } else {
        let first = s.take(size as int);
        let rest = s.skip(size as int);
        lemma_split_flatten(rest, size);
        vstd::seq_lib::lemma_flatten_concat(seq![first], split_chunks(rest, size));
        seq![first].lemma_flatten_one_element();
        assert(first + rest =~= s);
    }
}

/// The chunks of `s` have the shape of `chunk_shape`.
pub proof fn lemma_split_shape(s: Seq<u8>, size: nat)
    requires
        size > 0,
    ensures
        chunk_shape(split_chunks(s, size), size),
    decreases s.len(),
{
    if s.len() > size {
        let rest = s.skip(size as int);
        lemma_split_shape(rest, size);
        let c = split_chunks(s, size);
        let r = split_chunks(rest, size);
        assert(c == seq![s.take(size as int)] + r);
        assert forall|i: int| 0 <= i < c.len() - 1 implies (#[trigger] c[i]).len() == size by {
            if i > 0 {
                assert(c[i] == r[i - 1]);
            }
        }
        assert(c.last() == r.last());
    }
}

/// Cutting the concatenation of chunks of the right shape gives back those chunks.
pub proof fn lemma_flatten_split(chunks: Seq<Seq<u8>>, size: nat)
    requires
        size > 0,
        chunk_shape(chunks, size),
    ensures
        split_chunks(chunks.flatten(), size) == chunks,
    decreases chunks.len(),
{
    if chunks.len() == 1 {
        chunks.lemma_flatten_one_element();
    } else {
        let rest = chunks.drop_first();
        assert forall|i: int| 0 <= i < rest.len() - 1 implies (#[trigger] rest[i]).len() == size by {
            assert(rest[i] == chunks[i + 1]);
        }
        assert(rest.last() == chunks.last());
        lemma_flatten_split(rest, size);
        assert(chunks[0].len() == size);
        let flat = chunks.flatten();
        assert(flat == chunks[0] + rest.flatten());
        rest.lemma_flatten_length_ge_single_element_length(rest.len() - 1);
        assert(flat.take(size as int) =~= chunks[0]);
        assert(flat.skip(size as int) =~= rest.flatten());
        assert(chunks =~= seq![chunks[0]] + rest);
    }
}

/// Distinct counters give distinct chunk nonces under one root nonce.
pub proof fn lemma_chunk_nonce_injective(root: Seq<u8>, c1: u64, c2: u64)
    requires
        root.len() == 12,
        chunk_nonce_bytes(root, c1) == chunk_nonce_bytes(root, c2),
    ensures
        c1 == c2,
{
    lemma_xor_cancel(root, counter_block(c1), counter_block(c2));
    assert(be_u64(c1) =~= counter_block(c1).skip(4));
    assert(be_u64(c2) =~= counter_block(c2).skip(4));
    lemma_be_u64_injective(c1, c2);
}

/// Distinct chunk positions, or a final chunk and a non-final one, have distinct
/// associated data.
pub proof fn lemma_chunk_aad_injective(c1: u64, f1: bool, c2: u64, f2: bool)
    requires
        chunk_aad_bytes(c1, f1) == chunk_aad_bytes(c2, f2),
    ensures
        c1 == c2,
        f1 == f2,
{
    assert(counter_block(c1).len() == 12 && counter_block(c2).len() == 12);
    assert(chunk_aad_bytes(c1, f1)[12] == chunk_aad_bytes(c2, f2)[12]);
    assert(chunk_aad_bytes(c1, f1)[12] == (if f1 {
        1u8
    } else {
        0u8
    }));
    assert(chunk_aad_bytes(c2, f2)[12] == (if f2 {
        1u8
    } else {
        0u8
    }));
    assert(be_u64(c1) =~= chunk_aad_bytes(c1, f1).subrange(4, 12));
    assert(be_u64(c2) =~= chunk_aad_bytes(c2, f2).subrange(4, 12));
    lemma_be_u64_injective(c1, c2);
}

/// The layout of a chunk's associated data: four zero bytes, the chunk counter as 8
/// big-endian bytes, then 1 for the final chunk and 0 for any other.
pub proof fn lemma_chunk_aad_layout(counter: u64, is_final: bool)
    ensures
        chunk_aad_bytes(counter, is_final).len() == 13,
        forall|i: int| 0 <= i < 4 ==> chunk_aad_bytes(counter, is_final)[i] == 0,
        u64_of_be(chunk_aad_bytes(counter, is_final).subrange(4, 12)) == counter,
        chunk_aad_bytes(counter, is_final)[12] == (if is_final {
            1u8
        } else {
            0u8
        }),
{
    let a = chunk_aad_bytes(counter, is_final);
    lemma_u64_be_roundtrip(counter);
    assert(a.subrange(4, 12) =~= be_u64(counter));
}

/// The layout of a chunk nonce: the first four bytes are those of the root nonce, and
/// the last eight, XORed with the root nonce's, are the chunk counter in big-endian.
pub proof fn lemma_chunk_nonce_layout(root: Seq<u8>, counter: u64)
    requires
        root.len() == 12,
    ensures
        chunk_nonce_bytes(root, counter).len() == 12,
        forall|i: int| 0 <= i < 4 ==> chunk_nonce_bytes(root, counter)[i] == root[i],
        u64_of_be(
            Seq::new(8, |j: int| chunk_nonce_bytes(root, counter)[4 + j] ^ root[4 + j]),
        ) == counter,
{
    let n = chunk_nonce_bytes(root, counter);
    let c = counter_block(counter);
    assert forall|i: int| 0 <= i < 4 implies n[i] == root[i] by {
        let r = root[i];
        assert(n[i] == r ^ 0u8);
        assert(r ^ 0u8 == r) by (bit_vector);
    }
    let low = Seq::new(8, |j: int| n[4 + j] ^ root[4 + j]);
    assert forall|j: int| 0 <= j < 8 implies low[j] == be_u64(counter)[j] by {
        let (r, b) = (root[4 + j], c[4 + j]);
        assert(n[4 + j] == r ^ b);
        assert((r ^ b) ^ r == b) by (bit_vector);
        assert(c[4 + j] == be_u64(counter)[j]);
    }
    assert(low =~= be_u64(counter));
    lemma_u64_be_roundtrip(counter);
}

} // verus!
