//! Authenticated encryption of files and byte strings with AES-256-GCM, with keys
//! taken at random, derived from a password with Argon2id, or wrapped under a
//! key-encryption key, and a chunked stream format whose chunks are bound to their
//! position and to the end of the stream.
use vstd::prelude::*;

pub mod bytes;
pub mod chunks;
pub mod format;
pub mod keys;
pub mod message;
pub mod primitives;
pub mod stream;

pub use keys::{
    EncryptedData, Error, Gcm256Key, GcmNonce, Salt, DEFAULT_CHUNK_SIZE, MAX_CHUNK_SIZE,
};
pub use message::{
    decrypt_with_key, decrypt_with_password, derive_key_from_password, encrypt_with_password,
    encrypt_with_random_key,
};
pub use stream::{decrypt_stream, encrypt_stream, StreamOpener, StreamSealer, StreamStep};

verus! {

} // verus!
