//! The outside cryptography this library builds on: AES-256-GCM (`aes-gcm`),
//! Argon2id (`argon2`), the operating-system random source (`rand`) and memory
//! wiping (`zeroize`). Everything here is trusted: each item's doc comment says what
//! its contract claims of the outside code.
use aes_gcm::aead::{Aead, Payload};
use aes_gcm::{Aes256Gcm, Key, KeyInit, Nonce};
use argon2::{Algorithm, Argon2, ParamsBuilder, Version};
use rand::RngExt;
use vstd::prelude::*;
use zeroize::Zeroize;

verus! {

/// Longest plaintext that AES-GCM accepts, in bytes (`aes_gcm::P_MAX`).
pub const GCM_P_MAX: u64 = 68719476704;

/// Longest associated data that AES-GCM accepts, in bytes (`aes_gcm::A_MAX`).
pub const GCM_A_MAX: u64 = 2305843009213693951;

/// Argon2 parameter bounds (`argon2::Params::{MIN_M_COST, MIN_T_COST, MIN_P_COST, MAX_P_COST}`).
pub const ARGON2_MIN_M_COST: u32 = 8;

pub const ARGON2_MIN_T_COST: u32 = 1;

pub const ARGON2_MIN_P_COST: u32 = 1;

pub const ARGON2_MAX_P_COST: u32 = 16777215;

/// Longest password that Argon2 accepts, in bytes (`argon2::MAX_PWD_LEN`).
pub const ARGON2_MAX_PWD_LEN: u64 = 4294967295;

/// The ciphertext (body followed by the 16-byte tag) that AES-256-GCM, as implemented
/// by `aes_gcm::Aes256Gcm` through `aead::Aead::encrypt`, produces for a key, a 96-bit
/// nonce, associated data and a plaintext.
pub uninterp spec fn aes256gcm_seal(
    key: Seq<u8>,
    nonce: Seq<u8>,
    aad: Seq<u8>,
    plaintext: Seq<u8>,
) -> Seq<u8>;

/// The 32-byte output of `argon2::Argon2::hash_password_into` for Argon2id, version
/// 0x13, with the given costs, no secret and no associated data.
pub uninterp spec fn argon2id_v13(
    password: Seq<u8>,
    salt: Seq<u8>,
    m_cost: u32,
    t_cost: u32,
    p_cost: u32,
) -> Seq<u8>;

/// AES-GCM accepts a message of `msg_len` bytes with `aad_len` bytes of associated data.
pub open spec fn gcm_accepts(aad_len: nat, msg_len: nat) -> bool {
    msg_len <= GCM_P_MAX && aad_len <= GCM_A_MAX
}

/// `ciphertext` is the AES-256-GCM sealing of `plaintext` under `key`, `nonce` and `aad`.
pub open spec fn gcm_opens_to(
    key: Seq<u8>,
    nonce: Seq<u8>,
    aad: Seq<u8>,
    ciphertext: Seq<u8>,
    plaintext: Seq<u8>,
) -> bool {
    &&& gcm_accepts(aad.len(), plaintext.len())
    &&& ciphertext == aes256gcm_seal(key, nonce, aad, plaintext)
}

/// The cost parameters that `argon2::ParamsBuilder::build` accepts (with no output
/// length set): at least 8 KiB of memory and 8 KiB per lane, at least one pass, and
/// between 1 and 2^24 - 1 lanes.
pub open spec fn argon2_params_valid(m_cost: u32, t_cost: u32, p_cost: u32) -> bool {
    &&& m_cost >= ARGON2_MIN_M_COST
    &&& t_cost >= ARGON2_MIN_T_COST
    &&& ARGON2_MIN_P_COST <= p_cost <= ARGON2_MAX_P_COST
    &&& m_cost >= 8 * p_cost
}

/// Which step of Argon2 key derivation failed.
pub enum KdfFailure {
    /// `ParamsBuilder::build` rejected the costs.
    Params,
    /// `Argon2::hash_password_into` failed.
    Hashing,
}

/// `N` bytes from `rand::rng()` (the thread-local generator seeded by the operating
/// system) through `RngExt::random`. Nothing is claimed of the bytes: they depend on
/// chance. `rand::rng` panics if the operating system's random source fails on first
/// use; that is not a condition on any argument.
#[verifier::external_body]
pub(crate) fn random_bytes<const N: usize>() -> [u8; N] {
    rand::rng().random()
}

/// Seals `msg` with AES-256-GCM: `Aes256Gcm::new` on `key`, then `Aead::encrypt` with
/// `nonce` and a `Payload` of `msg` and `aad`. Claims, from `aes-gcm`'s source: the
/// call fails exactly when `msg` is longer than `P_MAX` or `aad` longer than `A_MAX`;
/// otherwise it returns the sealing, which is the encrypted message followed by a
/// 16-byte tag. The outside error, a unit struct, becomes `None`.
#[verifier::external_body]
pub(crate) fn gcm_seal(key: &[u8; 32], nonce: &[u8; 12], aad: &[u8], msg: &[u8]) -> (sealed: Option<
    Vec<u8>,
>)
    ensures
        sealed is Some <==> gcm_accepts(aad@.len(), msg@.len()),
        sealed matches Some(c) ==> c@ == aes256gcm_seal(key@, nonce@, aad@, msg@),
        sealed matches Some(c) ==> c@.len() == msg@.len() + 16,
{
    match Aes256Gcm::new(&Key::<Aes256Gcm>::from(*key)).encrypt(
        &Nonce::from(*nonce),
        Payload { msg, aad },
    ) {
        Ok(c) => Some(c),
        Err(_) => None,
    }
}

/// Opens `ciphertext` with AES-256-GCM: `Aes256Gcm::new` on `key`, then `Aead::decrypt`
/// with `nonce` and a `Payload` of `ciphertext` and `aad`. Claims, from `aes-gcm`'s
/// source (the tag is recomputed over the body and compared, and the body is decrypted
/// with the same counter-mode keystream that sealed it): a success returns a plaintext
/// whose sealing is exactly `ciphertext`, and any `ciphertext` that is the sealing of an
/// acceptable plaintext opens, and then to that plaintext only. The outside error, a
/// unit struct, becomes `None`.
#[verifier::external_body]
pub(crate) fn gcm_open(key: &[u8; 32], nonce: &[u8; 12], aad: &[u8], ciphertext: &[u8]) -> (opened:
    Option<Vec<u8>>)
    ensures
        opened matches Some(p) ==> gcm_opens_to(key@, nonce@, aad@, ciphertext@, p@),
        opened matches Some(p) ==> ciphertext@.len() == p@.len() + 16,
        opened matches Some(p) ==> forall|m: Seq<u8>|
            #[trigger] gcm_opens_to(key@, nonce@, aad@, ciphertext@, m) ==> p@ == m,
        (exists|m: Seq<u8>| #[trigger] gcm_opens_to(key@, nonce@, aad@, ciphertext@, m))
            ==> opened is Some,
{
    match Aes256Gcm::new(&Key::<Aes256Gcm>::from(*key)).decrypt(
        &Nonce::from(*nonce),
        Payload { msg: ciphertext, aad },
    ) {
        Ok(p) => Some(p),
        Err(_) => None,
    }
}

/// Derives 32 bytes from `password` and `salt` with Argon2id version 0x13: an
/// `argon2::ParamsBuilder` with the three costs, `build`, `Argon2::new`, then
/// `hash_password_into`. Claims, from `argon2`'s source: `build` fails exactly when the
/// costs are out of range; a password longer than `MAX_PWD_LEN` makes hashing fail; a
/// success yields the Argon2id output for these inputs. Hashing may also fail when the
/// memory for the costs cannot be allocated, which depends on the machine, so success
/// is not claimed otherwise.
#[verifier::external_body]
pub(crate) fn argon2id_derive(
    password: &[u8],
    salt: &[u8; 16],
    m_cost: u32,
    t_cost: u32,
    p_cost: u32,
) -> (derived: Result<[u8; 32], KdfFailure>)
    ensures
        derived matches Err(KdfFailure::Params) <==> !argon2_params_valid(m_cost, t_cost, p_cost),
        password@.len() > ARGON2_MAX_PWD_LEN ==> derived is Err,
        derived matches Ok(k) ==> k@ == argon2id_v13(password@, salt@, m_cost, t_cost, p_cost),
{
    let params = match ParamsBuilder::new().m_cost(m_cost).t_cost(t_cost).p_cost(p_cost).build() {
        Ok(params) => params,
        Err(_) => return Err(KdfFailure::Params),
    };
    let mut out = [0u8; 32];
    match Argon2::new(Algorithm::Argon2id, Version::V0x13, params).hash_password_into(
        password,
        salt,
        &mut out,
    ) {
        Ok(()) => Ok(out),
        Err(_) => Err(KdfFailure::Hashing),
    }
}

/// Overwrites `buffer` with zeros and empties it, through `zeroize::Zeroize` for `Vec`
/// (which zeroes the elements and the spare capacity, then calls `clear`).
#[verifier::external_body]
pub(crate) fn wipe(buffer: &mut Vec<u8>)
    ensures
        final(buffer)@ == Seq::<u8>::empty(),
{
    buffer.zeroize();
}

} // verus!
