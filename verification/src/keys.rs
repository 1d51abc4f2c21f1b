//! Key material, nonces, salts and the library's error type.
use crate::primitives::random_bytes;
use vstd::prelude::*;

verus! {

/// Argon2 memory cost, in KiB.
pub const MEM_COST: u32 = 20000;

/// Argon2 degree of parallelism.
pub const PARALLELISM: u32 = 4;

/// Argon2 number of passes.
pub const ITERATION_COST: u32 = 4;

/// Length of an AES-GCM authentication tag, in bytes.
pub const TAG_LEN: usize = 16;

/// Default plaintext chunk size used by stream encryption (32 MiB).
pub const DEFAULT_CHUNK_SIZE: u32 = 33554432;

/// Largest chunk size that stream decryption honours from a file header, so that a
/// hostile header cannot force a huge allocation (256 MiB).
pub const MAX_CHUNK_SIZE: u32 = 268435456;

/// The external error type of `std::io`, carried through the library's `Error`.
#[verifier::external_type_specification]
#[verifier::external_body]
pub struct ExIoError(std::io::Error);

/// A ciphertext together with the nonce it was sealed under.
pub struct EncryptedData {
    pub bytes: Vec<u8>,
    pub nonce: GcmNonce,
}

/// A 256-bit AES-GCM key. The type has no destructor, so its bytes are not wiped when
/// it is dropped. `as_slice` exposes the raw bytes; a key is meant to be stored only
/// wrapped under a key-encryption key (`expose_with_kek`).
pub struct Gcm256Key([u8; 32]);

/// A 96-bit AES-GCM nonce.
pub struct GcmNonce([u8; 12]);

/// A 128-bit Argon2 salt.
pub struct Salt([u8; 16]);

impl View for Gcm256Key {
    type V = Seq<u8>;

    closed spec fn view(&self) -> Seq<u8> {
        self.0@
    }
}

impl View for GcmNonce {
    type V = Seq<u8>;

    closed spec fn view(&self) -> Seq<u8> {
        self.0@
    }
}

impl View for Salt {
    type V = Seq<u8>;

    closed spec fn view(&self) -> Seq<u8> {
        self.0@
    }
}

/// What can go wrong. Deliberately coarse: the AES-GCM error carries no information.
#[derive(Debug)]
#[non_exhaustive]
pub enum Error {
    /// Error in encryption or decryption. That's all that is known.
    Aes,
    /// The Argon2 parameters were rejected.
    ArgonParams,
    /// Argon2 hashing failed.
    Argon2Hashing,
    /// A decrypted key did not have the length of a key.
    ConversionError,
    /// An I/O error while reading plaintext or writing ciphertext during streaming.
    Io(std::io::Error),
    /// The chunk size read from a file header is zero or exceeds `MAX_CHUNK_SIZE`.
    InvalidChunkSize,
}

impl From<std::io::Error> for Error {
    fn from(err: std::io::Error) -> (e: Self) {
        Error::Io(err)
    }
}

impl vstd::std_specs::convert::FromSpecImpl<std::io::Error> for Error {
    open spec fn obeys_from_spec() -> bool {
        true
    }

    open spec fn from_spec(err: std::io::Error) -> Self {
        Error::Io(err)
    }
}

impl Gcm256Key {
    /// A fresh random 256-bit key, suitable for use as a data-encryption key.
    pub fn random() -> (key: Self)
        ensures
            key@.len() == 32,
    {
        Gcm256Key(random_bytes::<32>())
    }

    pub(crate) fn from_slice(slice: &[u8; 32]) -> (key: Self)
        ensures
            key@ == slice@,
    {
        Gcm256Key(*slice)
    }

    pub fn as_slice(&self) -> (bytes: &[u8; 32])
        ensures
            bytes@ == self@,
            self@.len() == 32,
    {
        &self.0
    }
}

impl GcmNonce {
    /// A fresh random nonce.
    pub fn random() -> (nonce: Self)
        ensures
            nonce@.len() == 12,
    {
        GcmNonce(random_bytes::<12>())
    }

    pub fn from_slice(slice: &[u8; 12]) -> (nonce: Self)
        ensures
            nonce@ == slice@,
    {
        GcmNonce(*slice)
    }

    pub fn as_slice(&self) -> (bytes: &[u8; 12])
        ensures
            bytes@ == self@,
            self@.len() == 12,
    {
        &self.0
    }
}

impl Salt {
    /// A fresh random salt.
    pub fn random() -> (salt: Self)
        ensures
            salt@.len() == 16,
    {
        Salt(random_bytes::<16>())
    }

    pub fn from_slice(slice: &[u8; 16]) -> (salt: Self)
        ensures
            salt@ == slice@,
    {
        Salt(*slice)
    }

    pub fn as_slice(&self) -> (bytes: &[u8; 16])
        ensures
            bytes@ == self@,
            self@.len() == 16,
    {
        &self.0
    }
}

/// A nonce is 12 bytes.
pub proof fn lemma_nonce_len(nonce: GcmNonce)
    ensures
        nonce@.len() == 12,
{
}

/// A salt is 16 bytes.
pub proof fn lemma_salt_len(salt: Salt)
    ensures
        salt@.len() == 16,
{
}

} // verus!
