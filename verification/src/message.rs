//! Whole-message encryption: under a fresh random key, under a key derived from a
//! password, and the wrapping of a key under a key-encryption key.
use crate::keys::{
    EncryptedData, Error, Gcm256Key, GcmNonce, Salt, ITERATION_COST, MEM_COST, PARALLELISM,
};
use crate::primitives::{
    aes256gcm_seal, argon2_params_valid, argon2id_derive, argon2id_v13, gcm_accepts, gcm_open,
    gcm_opens_to, gcm_seal, wipe, KdfFailure, ARGON2_MAX_PWD_LEN,
};
use vstd::prelude::*;
use vstd::string::StringSliceAdditionalSpecFns;

verus! {

/// The key that password mode derives from a password's UTF-8 bytes and a salt:
/// Argon2id with this library's costs.
pub open spec fn password_key(password: Seq<u8>, salt: Seq<u8>) -> Seq<u8> {
    argon2id_v13(password, salt, MEM_COST, ITERATION_COST, PARALLELISM)
}

/// `ciphertext` is the sealing, with no associated data, of some acceptable plaintext.
pub open spec fn opens_without_aad(key: Seq<u8>, nonce: Seq<u8>, ciphertext: Seq<u8>) -> bool {
    exists|m: Seq<u8>| gcm_opens_to(key, nonce, Seq::empty(), ciphertext, m)
}

/// This library's Argon2 costs are ones that Argon2 accepts.
pub proof fn lemma_costs_valid()
    ensures
        argon2_params_valid(MEM_COST, ITERATION_COST, PARALLELISM),
{
}

/// Seals `msg` under `key` and `nonce` with no associated data.
fn seal_no_aad(key: &[u8; 32], nonce: &[u8; 12], msg: &[u8]) -> (sealed: Result<Vec<u8>, Error>)
    ensures
        sealed is Ok <==> gcm_accepts(0, msg@.len()),
        sealed matches Ok(c) ==> c@ == aes256gcm_seal(key@, nonce@, Seq::empty(), msg@)
            && c@.len() == msg@.len() + 16,
        sealed matches Err(e) ==> e is Aes,
{
    let aad: [u8; 0] = [];
    assert(aad@ =~= Seq::<u8>::empty());
    match gcm_seal(key, nonce, &aad, msg) {
        Some(c) => Ok(c),
        None => Err(Error::Aes),
    }
}

/// Opens `ciphertext` under `key` and `nonce` with no associated data.
fn open_no_aad(key: &[u8; 32], nonce: &[u8; 12], ciphertext: &[u8]) -> (opened: Result<
    Vec<u8>,
    Error,
>)
    ensures
        opened matches Ok(p) ==> gcm_opens_to(key@, nonce@, Seq::empty(), ciphertext@, p@),
        opened matches Ok(p) ==> ciphertext@.len() == p@.len() + 16,
        opened matches Ok(p) ==> forall|m: Seq<u8>|
            gcm_opens_to(key@, nonce@, Seq::empty(), ciphertext@, m) ==> m == p@,
        opens_without_aad(key@, nonce@, ciphertext@) ==> opened is Ok,
        opened matches Err(e) ==> e is Aes,
{
    let aad: [u8; 0] = [];
    assert(aad@ =~= Seq::<u8>::empty());
    match gcm_open(key, nonce, &aad, ciphertext) {
        Some(p) => Ok(p),
        None => Err(Error::Aes),
    }
}

impl Gcm256Key {
    /// This key sealed under the key-encryption key `kek`, with a fresh random nonce,
    /// which is returned with it. Sealing a 32-byte key cannot fail.
    /// Sealing about 2^32 keys under one KEK makes a repeated nonce a real risk: rotate
    /// KEKs.
    pub fn expose_with_kek(&self, kek: &[u8; 32]) -> (wrapped: Result<(Vec<u8>, GcmNonce), Error>)
        ensures
            wrapped matches Ok((c, n)) && c@ == aes256gcm_seal(kek@, n@, Seq::empty(), self@)
                && c@.len() == 48,
    {
        let nonce = GcmNonce::random();
        let key = self.as_slice();
        match seal_no_aad(kek, nonce.as_slice(), key) {
            Ok(c) => Ok((c, nonce)),
            Err(e) => Err(e),
        }
    }

    /// Recovers a key from its wrapping `source` under `kek` and `nonce` (as
    /// `expose_with_kek` produced them). The decrypted key bytes are wiped once copied.
    pub fn recover_with_kek(source: &[u8; 48], kek: &[u8; 32], nonce: &GcmNonce) -> (key: Result<
        Gcm256Key,
        Error,
    >)
        ensures
            key matches Ok(k) ==> gcm_opens_to(kek@, nonce@, Seq::empty(), source@, k@),
            key matches Ok(k) ==> forall|m: Seq<u8>|
                gcm_opens_to(kek@, nonce@, Seq::empty(), source@, m) ==> m == k@,
            opens_without_aad(kek@, nonce@, source@) ==> key is Ok,
            key matches Err(e) ==> e is Aes,
    {
        let mut plaintext = match open_no_aad(kek, nonce.as_slice(), source) {
            Ok(p) => p,
            Err(e) => return Err(e),
        };
        assert(source@.len() == 48);
        if plaintext.len() != 32 {
            wipe(&mut plaintext);
            return Err(Error::ConversionError);
        }
        let ghost opened = plaintext@;
        let mut bytes = [0u8; 32];
        let mut i: usize = 0;
        while i < 32
            invariant
                i <= 32,
                plaintext@ == opened,
                opened.len() == 32,
                bytes@.len() == 32,
                forall|j: int| 0 <= j < i ==> bytes@[j] == opened[j],
            decreases 32 - i,
        {
            bytes[i] = plaintext[i];
            i = i + 1;
        }
        assert(bytes@ =~= opened);
        wipe(&mut plaintext);
        Ok(Gcm256Key::from_slice(&bytes))
    }
}

/// Encrypts `bytes` with AES-256-GCM under a fresh random key and nonce, and returns
/// the ciphertext (with its nonce) and the key. Fails only when `bytes` is too long for
/// AES-GCM.
pub fn encrypt_with_random_key(bytes: &[u8]) -> (sealed: Result<(EncryptedData, Gcm256Key), Error>)
    ensures
        sealed is Ok <==> gcm_accepts(0, bytes@.len()),
        sealed matches Ok((data, key)) ==> data.bytes@ == aes256gcm_seal(
            key@,
            data.nonce@,
            Seq::empty(),
            bytes@,
        ) && data.bytes@.len() == bytes@.len() + 16,
        sealed matches Err(e) ==> e is Aes,
{
    let rawkey = Gcm256Key::random();
    let rawnonce = GcmNonce::random();
    match seal_no_aad(rawkey.as_slice(), rawnonce.as_slice(), bytes) {
        Ok(c) => Ok((EncryptedData { bytes: c, nonce: rawnonce }, rawkey)),
        Err(e) => Err(e),
    }
}

/// Decrypts `bytes` under `key` and `nonce` (as `encrypt_with_random_key` produced
/// them). Succeeds exactly when `bytes` is an authentic sealing, and then returns the
/// one plaintext it seals.
pub fn decrypt_with_key(bytes: &[u8], key: &Gcm256Key, nonce: &GcmNonce) -> (opened: Result<
    Vec<u8>,
    Error,
>)
    ensures
        opened matches Ok(p) ==> gcm_opens_to(key@, nonce@, Seq::empty(), bytes@, p@),
        opened matches Ok(p) ==> bytes@.len() == p@.len() + 16,
        opened matches Ok(p) ==> forall|m: Seq<u8>|
            gcm_opens_to(key@, nonce@, Seq::empty(), bytes@, m) ==> m == p@,
        opens_without_aad(key@, nonce@, bytes@) ==> opened is Ok,
        opened matches Err(e) ==> e is Aes,
{
    open_no_aad(key.as_slice(), nonce.as_slice(), bytes)
}

/// Derives a 256-bit key from a password and a salt with Argon2id (this library's
/// costs). Deliberately expensive: derive once and reuse the key for many chunks.
pub fn derive_key_from_password(password: &str, salt: &Salt) -> (key: Result<Gcm256Key, Error>)
    ensures
        key matches Ok(k) ==> k@ == password_key(password.spec_bytes(), salt@),
        key matches Err(e) ==> e is Argon2Hashing,
        password.spec_bytes().len() > ARGON2_MAX_PWD_LEN ==> key is Err,
{
    let pw = password.as_bytes();
    match argon2id_derive(pw, salt.as_slice(), MEM_COST, ITERATION_COST, PARALLELISM) {
        Ok(bytes) => Ok(Gcm256Key::from_slice(&bytes)),
        Err(KdfFailure::Params) => Err(Error::ArgonParams),
        Err(KdfFailure::Hashing) => Err(Error::Argon2Hashing),
    }
}

/// Encrypts `bytes` under a key derived from `password` and a fresh random salt, with a
/// fresh random nonce; returns the ciphertext (with its nonce) and the salt.
pub fn encrypt_with_password(bytes: &[u8], password: &str) -> (sealed: Result<
    (EncryptedData, Salt),
    Error,
>)
    ensures
        sealed matches Ok((data, salt)) ==> data.bytes@ == aes256gcm_seal(
            password_key(password.spec_bytes(), salt@),
            data.nonce@,
            Seq::empty(),
            bytes@,
        ) && data.bytes@.len() == bytes@.len() + 16,
        sealed matches Err(e) ==> (e is Argon2Hashing || (e is Aes && !gcm_accepts(
            0,
            bytes@.len(),
        ))),
        !gcm_accepts(0, bytes@.len()) ==> sealed is Err,
        password.spec_bytes().len() > ARGON2_MAX_PWD_LEN ==> (sealed matches Err(e)
            && e is Argon2Hashing),
{
    let salt = Salt::random();
    let rawkey = match derive_key_from_password(password, &salt) {
        Ok(k) => k,
        Err(e) => return Err(e),
    };
    let rawnonce = GcmNonce::random();
    match seal_no_aad(rawkey.as_slice(), rawnonce.as_slice(), bytes) {
        Ok(c) => Ok((EncryptedData { bytes: c, nonce: rawnonce }, salt)),
        Err(e) => Err(e),
    }
}

/// Decrypts `bytes` under the key derived from `password` and `salt`, and `nonce` (as
/// `encrypt_with_password` produced them).
pub fn decrypt_with_password(bytes: &[u8], password: &str, salt: &Salt, nonce: &GcmNonce) -> (opened:
    Result<Vec<u8>, Error>)
    ensures
        ({
            let key = password_key(password.spec_bytes(), salt@);
            &&& opened matches Ok(p) ==> gcm_opens_to(key, nonce@, Seq::empty(), bytes@, p@)
            &&& opened matches Ok(p) ==> bytes@.len() == p@.len() + 16
            &&& opened matches Ok(p) ==> forall|m: Seq<u8>|
                gcm_opens_to(key, nonce@, Seq::empty(), bytes@, m) ==> m == p@
            &&& opened matches Err(e) ==> (e is Argon2Hashing || (e is Aes && !opens_without_aad(
                key,
                nonce@,
                bytes@,
            )))
            &&& opens_without_aad(key, nonce@, bytes@) ==> (opened is Ok || (opened matches Err(e)
                && e is Argon2Hashing))
            &&& password.spec_bytes().len() > ARGON2_MAX_PWD_LEN ==> (opened matches Err(e)
                && e is Argon2Hashing)
        }),
{
    let rawkey = match derive_key_from_password(password, salt) {
        Ok(k) => k,
        Err(e) => return Err(e),
    };
    open_no_aad(rawkey.as_slice(), nonce.as_slice(), bytes)
}

/// Decryption undoes encryption for whole messages: the sealing of an acceptable
/// message under a key and nonce, with no associated data, opens, and (by the
/// uniqueness that `decrypt_with_key`, `decrypt_with_password` and `recover_with_kek`
/// state) only to that message.
pub proof fn lemma_message_roundtrip(key: Seq<u8>, nonce: Seq<u8>, message: Seq<u8>)
    requires
        gcm_accepts(0, message.len()),
    ensures
        gcm_opens_to(
            key,
            nonce,
            Seq::empty(),
            aes256gcm_seal(key, nonce, Seq::empty(), message),
            message,
        ),
        opens_without_aad(key, nonce, aes256gcm_seal(key, nonce, Seq::empty(), message)),
{
    let sealed = aes256gcm_seal(key, nonce, Seq::empty(), message);
    assert(gcm_opens_to(key, nonce, Seq::empty(), sealed, message));
}

} // verus!
