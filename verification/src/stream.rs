//! Chunked stream encryption: a stream is cut into chunks, each sealed on its own with
//! AES-256-GCM under a nonce derived from a root nonce and the chunk's position, with
//! the position and an end-of-stream flag bound into the associated data, so that
//! chunks cannot be reordered, swapped or dropped from the end without detection.
//!
//! `StreamSealer` and `StreamOpener` make the per-chunk decisions for a caller that
//! reads and writes; `encrypt_stream` and `decrypt_stream` drive them over byte strings.
use crate::chunks::{
    chunk_aad, chunk_aad_bytes, chunk_nonce, chunk_nonce_bytes, fill_chunk,
    head_chunk, lemma_flatten_split, lemma_split_shape, lemma_split_step, split_chunks,
};
use crate::keys::{Error, Gcm256Key, GcmNonce, MAX_CHUNK_SIZE, TAG_LEN};
use crate::primitives::{aes256gcm_seal, gcm_accepts, gcm_open, gcm_opens_to, gcm_seal};
use vstd::prelude::*;

verus! {

/// The sealing of one chunk: AES-256-GCM under the chunk's nonce and associated data.
pub open spec fn chunk_seal(
    key: Seq<u8>,
    root: Seq<u8>,
    counter: u64,
    is_final: bool,
    chunk: Seq<u8>,
) -> Seq<u8> {
    aes256gcm_seal(
        key,
        chunk_nonce_bytes(root, counter),
        chunk_aad_bytes(counter, is_final),
        chunk,
    )
}

/// `sealed` is the sealing of the plaintext chunk `chunk` at position `counter`.
pub open spec fn chunk_opens_to(
    key: Seq<u8>,
    root: Seq<u8>,
    counter: u64,
    is_final: bool,
    sealed: Seq<u8>,
    chunk: Seq<u8>,
) -> bool {
    gcm_opens_to(
        key,
        chunk_nonce_bytes(root, counter),
        chunk_aad_bytes(counter, is_final),
        sealed,
        chunk,
    )
}

/// The sealed chunks of a stream of plaintext chunks: chunk `i` under counter `i`, the
/// last one marked final.
pub open spec fn sealed_chunks(key: Seq<u8>, root: Seq<u8>, chunks: Seq<Seq<u8>>) -> Seq<
    Seq<u8>,
> {
    Seq::new(
        chunks.len(),
        |i: int| chunk_seal(key, root, i as u64, i == chunks.len() - 1, chunks[i]),
    )
}

/// The sealed chunks of the first chunks of a stream that is not over yet (none final).
pub open spec fn sealed_prefix(key: Seq<u8>, root: Seq<u8>, chunks: Seq<Seq<u8>>) -> Seq<
    Seq<u8>,
> {
    Seq::new(chunks.len(), |i: int| chunk_seal(key, root, i as u64, false, chunks[i]))
}

/// Sealed chunk `i` opens, at its position and final if it is the last one, to
/// plaintext chunk `i`.
pub open spec fn opens_at(
    key: Seq<u8>,
    root: Seq<u8>,
    sealed: Seq<Seq<u8>>,
    chunks: Seq<Seq<u8>>,
    i: int,
) -> bool {
    chunk_opens_to(key, root, i as u64, i == sealed.len() - 1, sealed[i], chunks[i])
}

/// Every sealed chunk opens, at its position and with the last one final, to the
/// plaintext chunk at the same position.
pub open spec fn stream_opens_to(
    key: Seq<u8>,
    root: Seq<u8>,
    sealed: Seq<Seq<u8>>,
    chunks: Seq<Seq<u8>>,
) -> bool {
    &&& chunks.len() == sealed.len()
    &&& forall|i: int| 0 <= i < sealed.len() ==> #[trigger] opens_at(key, root, sealed, chunks, i)
}

/// Some sequence of plaintext chunks is what the sealed chunks open to.
pub open spec fn stream_opens(key: Seq<u8>, root: Seq<u8>, sealed: Seq<Seq<u8>>) -> bool {
    exists|chunks: Seq<Seq<u8>>| stream_opens_to(key, root, sealed, chunks)
}

/// The stream ciphertext of `plaintext`: the sealed chunks, one after the other.
pub open spec fn stream_ciphertext(
    key: Seq<u8>,
    root: Seq<u8>,
    plaintext: Seq<u8>,
    chunk_size: nat,
) -> Seq<u8> {
    sealed_chunks(key, root, split_chunks(plaintext, chunk_size)).flatten()
}

/// A chunk size that decryption accepts from a header.
pub open spec fn chunk_size_valid(chunk_size: u32) -> bool {
    0 < chunk_size <= MAX_CHUNK_SIZE
}

/// What one step of a sealer or opener hands back: bytes to write, and whether the
/// stream is complete.
pub struct StreamStep {
    pub bytes: Vec<u8>,
    pub finished: bool,
}

/// The decisions of stream encryption. Feed it the chunks read from the input, each
/// read of `read_len` bytes (shorter only at the end of the input, empty once the input
/// is exhausted); it holds one chunk back, so that it knows whether a chunk is the last
/// one, and hands back each sealed chunk to be written.
pub struct StreamSealer {
    key: [u8; 32],
    root: [u8; 12],
    chunk_size: u32,
    counter: u64,
    pending: Option<Vec<u8>>,
    finished: bool,
}

impl StreamSealer {
    pub closed spec fn key_bytes(&self) -> Seq<u8> {
        self.key@
    }

    pub closed spec fn root_bytes(&self) -> Seq<u8> {
        self.root@
    }

    pub closed spec fn chunk_size(&self) -> u32 {
        self.chunk_size
    }

    /// How many chunks have been sealed.
    pub closed spec fn counter(&self) -> u64 {
        self.counter
    }

    /// The chunk read but not sealed yet.
    pub closed spec fn pending(&self) -> Option<Seq<u8>> {
        match self.pending {
            Some(v) => Some(v@),
            None => None,
        }
    }

    pub closed spec fn is_finished(&self) -> bool {
        self.finished
    }

    /// A sealer for chunks of at most `chunk_size` bytes, which must be positive.
    pub fn new(key: &Gcm256Key, root_nonce: &GcmNonce, chunk_size: u32) -> (sealer: Result<
        Self,
        Error,
    >)
        ensures
            sealer is Err <==> chunk_size == 0,
            sealer matches Err(e) ==> e is InvalidChunkSize,
            sealer matches Ok(s) ==> {
                &&& s.key_bytes() == key@
                &&& s.root_bytes() == root_nonce@
                &&& s.chunk_size() == chunk_size
                &&& s.counter() == 0
                &&& s.pending() is None
                &&& !s.is_finished()
            },
    {
        if chunk_size == 0 {
            return Err(Error::InvalidChunkSize);
        }
        Ok(
            StreamSealer {
                key: *key.as_slice(),
                root: *root_nonce.as_slice(),
                chunk_size,
                counter: 0,
                pending: None,
                finished: false,
            },
        )
    }

    /// How many bytes each read of the input should ask for.
    pub fn read_len(&self) -> (n: usize)
        ensures
            n == self.chunk_size(),
    {
        self.chunk_size as usize
    }

    /// How many chunks have been sealed (the counter of the next one).
    pub fn chunks_done(&self) -> (n: u64)
        ensures
            n == self.counter(),
    {
        self.counter
    }

    /// Whether the final chunk has been sealed.
    pub fn finished(&self) -> (done: bool)
        ensures
            done == self.is_finished(),
    {
        self.finished
    }

    /// Takes the next chunk read from the input. The first chunk is only held. After
    /// that, each call seals the chunk held before, as the final chunk exactly when the
    /// new one is empty, and then holds the new one (or finishes).
    pub fn feed(&mut self, chunk: Vec<u8>) -> (step: Result<StreamStep, Error>)
        requires
            !old(self).is_finished(),
            old(self).pending() is Some ==> old(self).counter() < u64::MAX,
        ensures
            final(self).key_bytes() == old(self).key_bytes(),
            final(self).root_bytes() == old(self).root_bytes(),
            final(self).chunk_size() == old(self).chunk_size(),
            old(self).pending() is None ==> {
                &&& step matches Ok(s) && s.bytes@ == Seq::<u8>::empty() && !s.finished
                &&& final(self).pending() == Some(chunk@)
                &&& final(self).counter() == old(self).counter()
                &&& !final(self).is_finished()
            },
            old(self).pending() matches Some(cur) ==> {
                let is_final = chunk@.len() == 0;
                &&& step is Ok <==> gcm_accepts(13, cur.len())
                &&& step matches Ok(s) ==> {
                    &&& s.bytes@ == chunk_seal(
                        old(self).key_bytes(),
                        old(self).root_bytes(),
                        old(self).counter(),
                        is_final,
                        cur,
                    )
                    &&& s.bytes@.len() == cur.len() + 16
                    &&& s.finished == is_final
                    &&& final(self).counter() == old(self).counter() + 1
                    &&& final(self).is_finished() == is_final
                    &&& final(self).pending() == if is_final {
                        None
                    } else {
                        Some(chunk@)
                    }
                }
                &&& step matches Err(e) ==> e is Aes
            },
    {
        let held = self.pending.take();
        match held {
            None => {
                self.pending = Some(chunk);
                Ok(StreamStep { bytes: Vec::new(), finished: false })
            },
            Some(cur) => {
                let is_final = chunk.len() == 0;
                let nonce = chunk_nonce(&GcmNonce::from_slice(&self.root), self.counter);
                let aad = chunk_aad(self.counter, is_final);
                match gcm_seal(&self.key, nonce.as_slice(), &aad, cur.as_slice()) {
                    Some(sealed) => {
                        self.counter = self.counter + 1;
                        if is_final {
                            self.finished = true;
                        } else {
                            self.pending = Some(chunk);
                        }
                        Ok(StreamStep { bytes: sealed, finished: is_final })
                    },
                    None => Err(Error::Aes),
                }
            },
        }
    }
}

/// The decisions of stream decryption, as `StreamSealer` for encryption: feed it the
/// chunks read from the ciphertext, each read of `read_len` bytes; it hands back each
/// opened chunk to be written, or the error of the first chunk that does not open.
pub struct StreamOpener {
    config: OpenerConfig,
    counter: u64,
    pending: Option<Vec<u8>>,
    finished: bool,
}

/// What an opener is made with; it only exists for a chunk size that decryption
/// accepts.
struct OpenerConfig {
    key: [u8; 32],
    root: [u8; 12],
    chunk_size: u32,
}

impl OpenerConfig {
    #[verifier::type_invariant]
    spec fn chunk_size_accepted(&self) -> bool {
        chunk_size_valid(self.chunk_size)
    }
}

impl StreamOpener {

    pub closed spec fn key_bytes(&self) -> Seq<u8> {
        self.config.key@
    }

    pub closed spec fn root_bytes(&self) -> Seq<u8> {
        self.config.root@
    }

    pub closed spec fn chunk_size(&self) -> u32 {
        self.config.chunk_size
    }

    /// How many chunks have been opened.
    pub closed spec fn counter(&self) -> u64 {
        self.counter
    }

    /// The chunk read but not opened yet.
    pub closed spec fn pending(&self) -> Option<Seq<u8>> {
        match self.pending {
            Some(v) => Some(v@),
            None => None,
        }
    }

    pub closed spec fn is_finished(&self) -> bool {
        self.finished
    }

    /// An opener for a stream with the given chunk size, which must be positive and at
    /// most `MAX_CHUNK_SIZE`.
    pub fn new(key: &Gcm256Key, root_nonce: &GcmNonce, chunk_size: u32) -> (opener: Result<
        Self,
        Error,
    >)
        ensures
            opener is Err <==> !chunk_size_valid(chunk_size),
            opener matches Err(e) ==> e is InvalidChunkSize,
            opener matches Ok(o) ==> {
                &&& o.key_bytes() == key@
                &&& o.root_bytes() == root_nonce@
                &&& o.chunk_size() == chunk_size
                &&& o.counter() == 0
                &&& o.pending() is None
                &&& !o.is_finished()
            },
    {
        if chunk_size == 0 || chunk_size > MAX_CHUNK_SIZE {
            return Err(Error::InvalidChunkSize);
        }
        Ok(
            StreamOpener {
                config: OpenerConfig {
                    key: *key.as_slice(),
                    root: *root_nonce.as_slice(),
                    chunk_size,
                },
                counter: 0,
                pending: None,
                finished: false,
            },
        )
    }

    /// How many bytes each read of the ciphertext should ask for: a plaintext chunk and
    /// its tag.
    pub fn read_len(&self) -> (n: usize)
        ensures
            n == self.chunk_size() + 16,
            chunk_size_valid(self.chunk_size()),
    {
        proof {
            use_type_invariant(&self.config);
        }
        self.config.chunk_size as usize + TAG_LEN
    }

    /// How many chunks have been opened (the counter of the next one).
    pub fn chunks_done(&self) -> (n: u64)
        ensures
            n == self.counter(),
    {
        self.counter
    }

    /// Whether the final chunk has been opened.
    pub fn finished(&self) -> (done: bool)
        ensures
            done == self.is_finished(),
    {
        self.finished
    }

    /// Takes the next chunk read from the ciphertext. The first chunk is only held.
    /// After that, each call opens the chunk held before, as the final chunk exactly when
    /// the new one is empty, and then holds the new one (or finishes).
    pub fn feed(&mut self, chunk: Vec<u8>) -> (step: Result<StreamStep, Error>)
        requires
            !old(self).is_finished(),
            old(self).pending() is Some ==> old(self).counter() < u64::MAX,
        ensures
            final(self).key_bytes() == old(self).key_bytes(),
            final(self).root_bytes() == old(self).root_bytes(),
            final(self).chunk_size() == old(self).chunk_size(),
            old(self).pending() is None ==> {
                &&& step matches Ok(s) && s.bytes@ == Seq::<u8>::empty() && !s.finished
                &&& final(self).pending() == Some(chunk@)
                &&& final(self).counter() == old(self).counter()
                &&& !final(self).is_finished()
            },
            old(self).pending() matches Some(cur) ==> {
                let is_final = chunk@.len() == 0;
                let key = old(self).key_bytes();
                let root = old(self).root_bytes();
                let counter = old(self).counter();
                &&& (exists|m: Seq<u8>| chunk_opens_to(key, root, counter, is_final, cur, m))
                    ==> step is Ok
                &&& step matches Ok(s) ==> {
                    &&& chunk_opens_to(key, root, counter, is_final, cur, s.bytes@)
                    &&& cur.len() == s.bytes@.len() + 16
                    &&& forall|m: Seq<u8>|
                        chunk_opens_to(key, root, counter, is_final, cur, m) ==> m == s.bytes@
                    &&& s.finished == is_final
                    &&& final(self).counter() == counter + 1
                    &&& final(self).is_finished() == is_final
                    &&& final(self).pending() == if is_final {
                        None
                    } else {
                        Some(chunk@)
                    }
                }
                &&& step matches Err(e) ==> e is Aes
            },
    {
        let held = self.pending.take();
        match held {
            None => {
                self.pending = Some(chunk);
                Ok(StreamStep { bytes: Vec::new(), finished: false })
            },
            Some(cur) => {
                let is_final = chunk.len() == 0;
                let nonce = chunk_nonce(&GcmNonce::from_slice(&self.config.root), self.counter);
                let aad = chunk_aad(self.counter, is_final);
                match gcm_open(&self.config.key, nonce.as_slice(), &aad, cur.as_slice()) {
                    Some(plain) => {
                        self.counter = self.counter + 1;
                        if is_final {
                            self.finished = true;
                        } else {
                            self.pending = Some(chunk);
                        }
                        Ok(StreamStep { bytes: plain, finished: is_final })
                    },
                    None => Err(Error::Aes),
                }
            },
        }
    }
}

/// Sealing the first chunks of a stream and then its last chunk, as final, gives the
/// sealed chunks of the whole stream.
proof fn lemma_sealed_push(key: Seq<u8>, root: Seq<u8>, done: Seq<Seq<u8>>, last: Seq<u8>)
    ensures
        sealed_chunks(key, root, done.push(last)) == sealed_prefix(key, root, done).push(
            chunk_seal(key, root, done.len() as u64, true, last),
        ),
        sealed_prefix(key, root, done.push(last)) == sealed_prefix(key, root, done).push(
            chunk_seal(key, root, done.len() as u64, false, last),
        ),
{
    assert(sealed_chunks(key, root, done.push(last)) =~= sealed_prefix(key, root, done).push(
        chunk_seal(key, root, done.len() as u64, true, last),
    ));
    assert(sealed_prefix(key, root, done.push(last)) =~= sealed_prefix(key, root, done).push(
        chunk_seal(key, root, done.len() as u64, false, last),
    ));
}

/// Stream encryption for a positive chunk size.
fn encrypt_chunks(
    plaintext: &[u8],
    key: &Gcm256Key,
    root_nonce: &GcmNonce,
    chunk_size: u32,
) -> (ciphertext: Vec<u8>)
    requires
        chunk_size > 0,
    ensures
        ciphertext@ == stream_ciphertext(key@, root_nonce@, plaintext@, chunk_size as nat),
        split_chunks(ciphertext@, (chunk_size + 16) as nat) == sealed_chunks(
            key@,
            root_nonce@,
            split_chunks(plaintext@, chunk_size as nat),
        ),
        ciphertext@.len() == plaintext@.len() + 16 * split_chunks(
            plaintext@,
            chunk_size as nat,
        ).len(),
{
    let ghost s = plaintext@;
    let ghost size = chunk_size as nat;
    let ghost k = key@;
    let ghost r = root_nonce@;
    let total = plaintext.len();
    let mut sealer = match StreamSealer::new(key, root_nonce, chunk_size) {
        Ok(sealer) => sealer,
        Err(_) => {
            return Vec::new();
        },
    };
    let read_len = sealer.read_len();
    let first = fill_chunk(plaintext, 0, read_len);
    let mut pos: usize = first.len();
    let _ = sealer.feed(first);
    let ghost mut done: Seq<Seq<u8>> = Seq::empty();
    let ghost mut start: int = 0;
    let mut out: Vec<u8> = Vec::new();
    let mut finished = false;
    assert(s.skip(0) =~= s);
    while !finished
        invariant
            sealer.key_bytes() == k,
            sealer.root_bytes() == r,
            sealer.chunk_size() == chunk_size,
            read_len == chunk_size,
            s == plaintext@,
            total == s.len(),
            size == chunk_size as nat,
            size > 0,
            !finished ==> {
                &&& !sealer.is_finished()
                &&& sealer.pending() matches Some(cur) && {
                    &&& start + cur.len() == pos
                    &&& 0 <= start <= pos <= s.len()
                    &&& cur == head_chunk(s.skip(start), size)
                    &&& split_chunks(s, size) == done + split_chunks(s.skip(start), size)
                    &&& cur.len() == 0 ==> done.len() == 0
                }
                &&& sealer.counter() == done.len()
                &&& done.len() <= start
                &&& out@ == sealed_prefix(k, r, done).flatten()
                &&& out@.len() == done.flatten().len() + 16 * done.len()
                &&& forall|i: int|
                    0 <= i < done.len() ==> (#[trigger] sealed_prefix(k, r, done)[i]).len()
                        == done[i].len() + 16
            },
            finished ==> {
                &&& out@ == stream_ciphertext(k, r, s, size)
                &&& out@.len() == split_chunks(s, size).flatten().len() + 16 * split_chunks(
                    s,
                    size,
                ).len()
                &&& forall|i: int|
                    0 <= i < split_chunks(s, size).len() ==> (#[trigger] sealed_chunks(
                        k,
                        r,
                        split_chunks(s, size),
                    )[i]).len() == split_chunks(s, size)[i].len() + 16
            },
        decreases s.len() - pos + if finished {
            0int
        } else {
            1int
        },
    {
        let ghost cur = sealer.pending()->0;
        let next = fill_chunk(plaintext, pos, read_len);
        proof {
            lemma_split_step(s.skip(start), size);
            assert(s.skip(start).skip(cur.len() as int) =~= s.skip(pos as int));
            assert(usize::MAX as int <= u64::MAX as int);
            assert(next@.len() <= s.skip(pos as int).len());
        }
        pos = pos + next.len();
        let ghost old_out = out@;
        match sealer.feed(next) {
            Ok(step) => {
                let mut bytes = step.bytes;
                out.append(&mut bytes);
                proof {
                    vstd::seq::Seq::lemma_flatten_push(done, cur);
                    lemma_sealed_push(k, r, done, cur);
                    vstd::seq::Seq::lemma_flatten_push(sealed_prefix(k, r, done), chunk_seal(
                        k,
                        r,
                        done.len() as u64,
                        step.finished,
                        cur,
                    ));
                    if step.finished {
                        assert(split_chunks(s, size) == done.push(cur));
                        assert forall|i: int|
                            0 <= i < split_chunks(s, size).len() implies (#[trigger] sealed_chunks(
                            k,
                            r,
                            split_chunks(s, size),
                        )[i]).len() == split_chunks(s, size)[i].len() + 16 by {
                            if i < done.len() {
                                assert(sealed_chunks(k, r, split_chunks(s, size))[i]
                                    == sealed_prefix(k, r, done)[i]);
                            }
                        }
                    } else {
                        assert(split_chunks(s, size) == done.push(cur) + split_chunks(
                            s.skip(start + cur.len()),
                            size,
                        ));
                        start = start + cur.len();
                        done = done.push(cur);
                    }
                }
                finished = step.finished;
            },
            Err(_) => {
                proof {
                    assert(cur.len() <= u32::MAX);
                    assert(false);
                }
                return Vec::new();
            },
        }
    }
    proof {
        let pcs = split_chunks(s, size);
        let scs = sealed_chunks(k, r, pcs);
        lemma_split_shape(s, size);
        crate::chunks::lemma_split_flatten(s, size);
        assert forall|i: int| 0 <= i < scs.len() - 1 implies (#[trigger] scs[i]).len() == size
            + 16 by {
            assert(pcs[i].len() == size);
        }
        lemma_flatten_split(scs, size + 16);
    }
    out
}

/// Encrypts `plaintext` as a sequence of independently sealed chunks of at most
/// `chunk_size` bytes each, under `key`, with per-chunk nonces derived from
/// `root_nonce` (which must be unique per stream). There is always at least one chunk:
/// empty input gives a single empty final chunk, whatever the chunk size. A chunk size
/// of zero cannot hold any byte, so non-empty input with it is refused with
/// `InvalidChunkSize`.
pub fn encrypt_stream(
    plaintext: &[u8],
    key: &Gcm256Key,
    root_nonce: &GcmNonce,
    chunk_size: u32,
) -> (ciphertext: Result<Vec<u8>, Error>)
    ensures
        ciphertext is Err <==> (chunk_size == 0 && plaintext@.len() > 0),
        ciphertext matches Err(e) ==> e is InvalidChunkSize,
        ciphertext matches Ok(c) ==> c@ == stream_ciphertext(
            key@,
            root_nonce@,
            plaintext@,
            chunk_size as nat,
        ),
        ciphertext matches Ok(c) ==> split_chunks(c@, (chunk_size + 16) as nat) == sealed_chunks(
            key@,
            root_nonce@,
            split_chunks(plaintext@, chunk_size as nat),
        ),
        ciphertext matches Ok(c) ==> c@.len() == plaintext@.len() + 16 * split_chunks(
            plaintext@,
            chunk_size as nat,
        ).len(),
{
    if chunk_size > 0 {
        return Ok(encrypt_chunks(plaintext, key, root_nonce, chunk_size));
    }
    if plaintext.len() > 0 {
        return Err(Error::InvalidChunkSize);
    }
    // Empty input is one empty chunk whatever the read size, so read with size 1.
    let c = encrypt_chunks(plaintext, key, root_nonce, 1);
    proof {
        assert(split_chunks(plaintext@, 0) == split_chunks(plaintext@, 1));
        assert(c@.len() == 16);
        assert(split_chunks(c@, 16) == split_chunks(c@, 17));
    }
    Ok(c)
}

/// Decrypts a chunk stream produced by `encrypt_stream` with the same key, root nonce
/// and chunk size. The ciphertext is read in chunks of `chunk_size + 16` bytes; the last
/// one, detected by the end of the input, must open as the final chunk, so dropping
/// trailing chunks, reordering or swapping chunks, or changing any byte makes
/// decryption fail.
pub fn decrypt_stream(
    ciphertext: &[u8],
    key: &Gcm256Key,
    root_nonce: &GcmNonce,
    chunk_size: u32,
) -> (plaintext: Result<Vec<u8>, Error>)
    ensures
        ({
            let cts = split_chunks(ciphertext@, (chunk_size + 16) as nat);
            let opens = stream_opens(key@, root_nonce@, cts);
            &&& plaintext matches Err(e) ==> (e is InvalidChunkSize || e is Aes)
            &&& (plaintext matches Err(e) && e is InvalidChunkSize) <==> !chunk_size_valid(
                chunk_size,
            )
            &&& plaintext matches Err(e) ==> (e is Aes ==> chunk_size_valid(chunk_size) && !opens)
            &&& chunk_size_valid(chunk_size) && opens ==> plaintext is Ok
            &&& plaintext matches Ok(p) ==> {
                &&& chunk_size_valid(chunk_size)
                &&& opens
                &&& forall|pcs: Seq<Seq<u8>>|
                    stream_opens_to(key@, root_nonce@, cts, pcs) ==> p@ == pcs.flatten()
                &&& ciphertext@.len() == p@.len() + 16 * cts.len()
            }
        }),
{
    let ghost s = ciphertext@;
    let ghost size = (chunk_size + 16) as nat;
    let ghost k = key@;
    let ghost r = root_nonce@;
    let ghost cts = split_chunks(s, size);
    let mut opener = match StreamOpener::new(key, root_nonce, chunk_size) {
        Ok(o) => o,
        Err(e) => return Err(e),
    };
    let total = ciphertext.len();
    let read_len = opener.read_len();
    let first = fill_chunk(ciphertext, 0, read_len);
    let mut pos: usize = first.len();
    let _ = opener.feed(first);
    let ghost mut done: Seq<Seq<u8>> = Seq::empty();
    let ghost mut opened: Seq<Seq<u8>> = Seq::empty();
    let ghost mut start: int = 0;
    let mut out: Vec<u8> = Vec::new();
    let mut finished = false;
    assert(s.skip(0) =~= s);
    while !finished
        invariant
            opener.key_bytes() == k,
            opener.root_bytes() == r,
            k == key@,
            r == root_nonce@,
            opener.chunk_size() == chunk_size,
            chunk_size_valid(chunk_size),
            read_len == size,
            s == ciphertext@,
            total == s.len(),
            cts == split_chunks(s, size),
            size == (chunk_size + 16) as nat,
            out@ == opened.flatten(),
            !finished ==> out@.len() + 16 * done.len() == start,
            finished ==> out@.len() + 16 * cts.len() == s.len(),
            !finished ==> {
                &&& !opener.is_finished()
                &&& opener.pending() matches Some(cur) && {
                    &&& start + cur.len() == pos
                    &&& 0 <= start <= pos <= s.len()
                    &&& cur == head_chunk(s.skip(start), size)
                    &&& cts == done + split_chunks(s.skip(start), size)
                    &&& cur.len() == 0 ==> done.len() == 0
                }
                &&& opener.counter() == done.len()
                &&& done.len() <= start
                &&& opened.len() == done.len()
                &&& forall|i: int|
                    0 <= i < done.len() ==> #[trigger] chunk_opens_to(
                        k,
                        r,
                        i as u64,
                        false,
                        done[i],
                        opened[i],
                    )
                &&& forall|i: int, m: Seq<u8>|
                    0 <= i < done.len() && #[trigger] chunk_opens_to(
                        k,
                        r,
                        i as u64,
                        false,
                        done[i],
                        m,
                    ) ==> m == opened[i]
            },
            finished ==> {
                &&& stream_opens_to(k, r, cts, opened)
                &&& forall|pcs: Seq<Seq<u8>>| stream_opens_to(k, r, cts, pcs) ==> pcs == opened
            },
        decreases s.len() - pos + if finished {
            0int
        } else {
            1int
        },
    {
        let ghost cur = opener.pending()->0;
        let next = fill_chunk(ciphertext, pos, read_len);
        proof {
            lemma_split_step(s.skip(start), size);
            lemma_split_shape(s.skip(pos as int), size);
            assert(s.skip(start).skip(cur.len() as int) =~= s.skip(pos as int));
            assert(usize::MAX as int <= u64::MAX as int);
            assert(next@.len() <= s.skip(pos as int).len());
        }
        pos = pos + next.len();
        let ghost is_final = next@.len() == 0;
        match opener.feed(next) {
            Ok(step) => {
                let mut bytes = step.bytes;
                let ghost plain = bytes@;
                out.append(&mut bytes);
                proof {
                    vstd::seq::Seq::lemma_flatten_push(opened, plain);
                    let n = done.len() as int;
                    if step.finished {
                        assert(cts == done.push(cur));
                        let opened2 = opened.push(plain);
                        assert forall|i: int| 0 <= i < cts.len() implies #[trigger] opens_at(
                            k,
                            r,
                            cts,
                            opened2,
                            i,
                        ) by {
                            if i < n {
                                assert(chunk_opens_to(k, r, i as u64, false, done[i], opened[i]));
                            }
                        }
                        assert forall|pcs: Seq<Seq<u8>>|
                            stream_opens_to(k, r, cts, pcs) implies pcs == opened2 by {
                            assert forall|i: int| 0 <= i < pcs.len() implies pcs[i] == opened2[i] by {
                                assert(opens_at(k, r, cts, pcs, i));
                            }
                            assert(pcs =~= opened2);
                        }
                        opened = opened2;
                    } else {
                        assert(cts == done.push(cur) + split_chunks(s.skip(start + cur.len()), size));
                        start = start + cur.len();
                        done = done.push(cur);
                        opened = opened.push(plain);
                        assert forall|i: int, m: Seq<u8>|
                            0 <= i < done.len() && #[trigger] chunk_opens_to(
                                k,
                                r,
                                i as u64,
                                false,
                                done[i],
                                m,
                            ) implies m == opened[i] by {
                            if i < n {
                                assert(done[i] == done.drop_last()[i]);
                            }
                        }
                    }
                }
                finished = step.finished;
            },
            Err(e) => {
                proof {
                    let n = done.len() as int;
                    assert(cts[n] == cur);
                    assert(is_final <==> n == cts.len() - 1);
                    if exists|pcs: Seq<Seq<u8>>| stream_opens_to(k, r, cts, pcs) {
                        let pcs = choose|pcs: Seq<Seq<u8>>| stream_opens_to(k, r, cts, pcs);
                        assert(opens_at(k, r, cts, pcs, n));
                        assert(chunk_opens_to(k, r, n as u64, is_final, cur, pcs[n]));
                    }
                }
                return Err(e);
            },
        }
    }
    Ok(out)
}

/// Stream decryption undoes stream encryption. For a ciphertext whose chunks are, as
/// `encrypt_stream` promises, the sealed chunks of `plaintext`: they open, each at its
/// position and the last as final, to the chunks of `plaintext`, and those concatenate
/// back to `plaintext`; so `decrypt_stream` with the same key, root nonce and a valid
/// chunk size returns `Ok`, with exactly `plaintext`.
pub proof fn lemma_stream_roundtrip(
    key: Seq<u8>,
    root: Seq<u8>,
    plaintext: Seq<u8>,
    chunk_size: u32,
    ciphertext: Seq<u8>,
)
    requires
        chunk_size_valid(chunk_size),
        split_chunks(ciphertext, (chunk_size + 16) as nat) == sealed_chunks(
            key,
            root,
            split_chunks(plaintext, chunk_size as nat),
        ),
    ensures
        stream_opens_to(
            key,
            root,
            split_chunks(ciphertext, (chunk_size + 16) as nat),
            split_chunks(plaintext, chunk_size as nat),
        ),
        stream_opens(key, root, split_chunks(ciphertext, (chunk_size + 16) as nat)),
        split_chunks(plaintext, chunk_size as nat).flatten() == plaintext,
{
    let size = chunk_size as nat;
    let pcs = split_chunks(plaintext, size);
    let cts = split_chunks(ciphertext, (chunk_size + 16) as nat);
    lemma_split_shape(plaintext, size);
    crate::chunks::lemma_split_flatten(plaintext, size);
    assert forall|i: int| 0 <= i < cts.len() implies #[trigger] opens_at(key, root, cts, pcs, i) by {
        assert(pcs[i].len() <= size);
    }
    assert(stream_opens_to(key, root, cts, pcs));
}

} // verus!
