//! The on-disk formats of the command-line tool: the stream file header, the
//! wrapped-key file and the password-mode file, and the choice of key source from the
//! command line.
use crate::bytes::{
    be_u32, be_u64, lemma_u32_be_roundtrip, lemma_u64_be_roundtrip, u32_of_be, u32_to_be_bytes,
    u64_of_be, u64_to_be_bytes,
};
use crate::keys::{EncryptedData, Error, GcmNonce, Salt};
use crate::message::{decrypt_with_password, encrypt_with_password, opens_without_aad, password_key};
use crate::primitives::{aes256gcm_seal, gcm_accepts, gcm_opens_to, ARGON2_MAX_PWD_LEN};
use vstd::prelude::*;
use vstd::string::StringSliceAdditionalSpecFns;

verus! {

/// On-disk format version that this library writes: a chunk stream. Version 0, a single
/// sealed blob, is still read.
pub const FORMAT_VERSION: u64 = 1;

/// Length of the header of a version-1 file: version, chunk size, root nonce.
pub const STREAM_HEADER_LEN: usize = 24;

/// Length of a wrapped-key file: the 48-byte wrapped key, then its 12-byte nonce.
pub const WRAPPED_KEY_FILE_LEN: usize = 60;

/// Length of the prefix of a password-mode file: 12-byte nonce, then 16-byte salt.
pub const PASSWORD_PREFIX_LEN: usize = 28;

/// The header of a version-1 file: the version and the chunk size, big-endian, then the
/// root nonce.
pub open spec fn stream_header_bytes(chunk_size: u32, root: Seq<u8>) -> Seq<u8> {
    be_u64(FORMAT_VERSION) + be_u32(chunk_size) + root
}

/// What the version field of a file says.
pub enum FileVersion {
    /// Version 0: a nonce, then the whole plaintext sealed at once.
    Legacy,
    /// Version 1: chunk size and root nonce, then a chunk stream.
    Chunked,
    /// Any other version.
    Unsupported(u64),
}

/// The version that the 8 bytes of a version field denote.
pub open spec fn version_of(field: Seq<u8>) -> FileVersion {
    let v = u64_of_be(field);
    if v == 0 {
        FileVersion::Legacy
    } else if v == 1 {
        FileVersion::Chunked
    } else {
        FileVersion::Unsupported(v)
    }
}

/// The header of a version-1 file.
pub fn stream_header(chunk_size: u32, root_nonce: &GcmNonce) -> (header: Vec<u8>)
    ensures
        header@ == stream_header_bytes(chunk_size, root_nonce@),
        header@.len() == STREAM_HEADER_LEN,
{
    let version = u64_to_be_bytes(FORMAT_VERSION);
    let size = u32_to_be_bytes(chunk_size);
    let mut header: Vec<u8> = Vec::new();
    header.extend_from_slice(&version);
    header.extend_from_slice(&size);
    header.extend_from_slice(root_nonce.as_slice());
    header
}

/// Reads the version field (the first 8 bytes of a file, big-endian).
pub fn file_version(field: &[u8; 8]) -> (version: FileVersion)
    ensures
        version == version_of(field@),
{
    let v = crate::bytes::u64_from_be_bytes(field);
    if v == 0 {
        FileVersion::Legacy
    } else if v == 1 {
        FileVersion::Chunked
    } else {
        FileVersion::Unsupported(v)
    }
}

/// Reads the rest of a version-1 header: the chunk size (big-endian) and the root nonce.
pub fn chunked_header_fields(field: &[u8; 16]) -> (fields: (u32, GcmNonce))
    ensures
        fields.0 == u32_of_be(field@.take(4)),
        fields.1@ == field@.skip(4),
{
    let size_bytes = [field[0], field[1], field[2], field[3]];
    assert(size_bytes@ =~= field@.take(4));
    let chunk_size = crate::bytes::u32_from_be_bytes(&size_bytes);
    let nonce_bytes = [
        field[4],
        field[5],
        field[6],
        field[7],
        field[8],
        field[9],
        field[10],
        field[11],
        field[12],
        field[13],
        field[14],
        field[15],
    ];
    assert(nonce_bytes@ =~= field@.skip(4));
    (chunk_size, GcmNonce::from_slice(&nonce_bytes))
}

/// Reading back a version-1 header gives what was written: its version field denotes
/// version 1, and the rest holds the chunk size and the root nonce.
pub proof fn lemma_stream_header_roundtrip(chunk_size: u32, root: Seq<u8>)
    requires
        root.len() == 12,
    ensures
        ({
            let h = stream_header_bytes(chunk_size, root);
            &&& h.len() == STREAM_HEADER_LEN
            &&& version_of(h.take(8)) == FileVersion::Chunked
            &&& u32_of_be(h.subrange(8, 24).take(4)) == chunk_size
            &&& h.subrange(8, 24).skip(4) == root
        }),
{
    let h = stream_header_bytes(chunk_size, root);
    lemma_u64_be_roundtrip(FORMAT_VERSION);
    lemma_u32_be_roundtrip(chunk_size);
    assert(h.take(8) =~= be_u64(FORMAT_VERSION));
    assert(h.subrange(8, 24).take(4) =~= be_u32(chunk_size));
    assert(h.subrange(8, 24).skip(4) =~= root);
}

/// The wrapped-key file: the wrapped key, then the nonce it was wrapped under.
pub fn wrapped_key_file(wrapped: &[u8], nonce: &GcmNonce) -> (file: Vec<u8>)
    ensures
        file@ == wrapped@ + nonce@,
{
    let mut file: Vec<u8> = Vec::new();
    file.extend_from_slice(wrapped);
    file.extend_from_slice(nonce.as_slice());
    file
}

/// Reads a wrapped-key file: the first 48 bytes are the wrapped key and the next 12 its
/// nonce; anything after them is ignored. `None` when the file is shorter than that.
pub fn parse_wrapped_key_file(file: &[u8]) -> (parsed: Option<([u8; 48], GcmNonce)>)
    ensures
        parsed is None <==> file@.len() < WRAPPED_KEY_FILE_LEN,
        parsed matches Some((wrapped, nonce)) ==> wrapped@ == file@.take(48) && nonce@
            == file@.subrange(48, 60),
{
    if file.len() < WRAPPED_KEY_FILE_LEN {
        return None;
    }
    let mut wrapped = [0u8; 48];
    let mut i: usize = 0;
    while i < 48
        invariant
            i <= 48,
            file@.len() >= 60,
            wrapped@.len() == 48,
            forall|j: int| 0 <= j < i ==> wrapped@[j] == file@[j],
        decreases 48 - i,
    {
        wrapped[i] = file[i];
        i = i + 1;
    }
    let mut nonce = [0u8; 12];
    let mut j: usize = 0;
    while j < 12
        invariant
            j <= 12,
            file@.len() >= 60,
            nonce@.len() == 12,
            forall|t: int| 0 <= t < j ==> nonce@[t] == file@[48 + t],
        decreases 12 - j,
    {
        nonce[j] = file[48 + j];
        j = j + 1;
    }
    assert(wrapped@ =~= file@.take(48));
    assert(nonce@ =~= file@.subrange(48, 60));
    Some((wrapped, GcmNonce::from_slice(&nonce)))
}

/// The file that password mode writes: the nonce, the salt, then the ciphertext.
pub fn password_file(data: &EncryptedData, salt: &Salt) -> (file: Vec<u8>)
    ensures
        file@ == data.nonce@ + salt@ + data.bytes@,
        file@.len() == PASSWORD_PREFIX_LEN + data.bytes@.len(),
{
    let mut file: Vec<u8> = Vec::new();
    file.extend_from_slice(data.nonce.as_slice());
    file.extend_from_slice(salt.as_slice());
    file.extend_from_slice(data.bytes.as_slice());
    file
}

/// Reads a password-mode file: nonce, salt, then the ciphertext. `None` when the file
/// is too short to hold the nonce and the salt.
pub fn parse_password_file(file: &[u8]) -> (parsed: Option<(EncryptedData, Salt)>)
    ensures
        parsed is None <==> file@.len() < PASSWORD_PREFIX_LEN,
        parsed matches Some((data, salt)) ==> {
            &&& data.nonce@ == file@.take(12)
            &&& salt@ == file@.subrange(12, 28)
            &&& data.bytes@ == file@.skip(28)
        },
{
    if file.len() < PASSWORD_PREFIX_LEN {
        return None;
    }
    let mut nonce = [0u8; 12];
    let mut i: usize = 0;
    while i < 12
        invariant
            i <= 12,
            file@.len() >= 28,
            nonce@.len() == 12,
            forall|t: int| 0 <= t < i ==> nonce@[t] == file@[t],
        decreases 12 - i,
    {
        nonce[i] = file[i];
        i = i + 1;
    }
    let mut salt = [0u8; 16];
    let mut j: usize = 0;
    while j < 16
        invariant
            j <= 16,
            file@.len() >= 28,
            salt@.len() == 16,
            forall|t: int| 0 <= t < j ==> salt@[t] == file@[12 + t],
        decreases 16 - j,
    {
        salt[j] = file[12 + j];
        j = j + 1;
    }
    let body = vstd::slice::slice_to_vec(vstd::slice::slice_subrange(file, 28, file.len()));
    assert(nonce@ =~= file@.take(12));
    assert(salt@ =~= file@.subrange(12, 28));
    assert(body@ =~= file@.skip(28));
    Some((EncryptedData { bytes: body, nonce: GcmNonce::from_slice(&nonce) }, Salt::from_slice(&salt)))
}

/// Reading back a password-mode file gives the nonce, salt and ciphertext written.
pub proof fn lemma_password_file_roundtrip(nonce: Seq<u8>, salt: Seq<u8>, ciphertext: Seq<u8>)
    requires
        nonce.len() == 12,
        salt.len() == 16,
    ensures
        ({
            let f = nonce + salt + ciphertext;
            &&& f.len() >= PASSWORD_PREFIX_LEN
            &&& f.take(12) == nonce
            &&& f.subrange(12, 28) == salt
            &&& f.skip(28) == ciphertext
        }),
{
    let f = nonce + salt + ciphertext;
    assert(f.take(12) =~= nonce);
    assert(f.subrange(12, 28) =~= salt);
    assert(f.skip(28) =~= ciphertext);
}

/// Reading back a wrapped-key file gives the wrapped key and nonce written.
pub proof fn lemma_wrapped_key_file_roundtrip(wrapped: Seq<u8>, nonce: Seq<u8>)
    requires
        wrapped.len() == 48,
        nonce.len() == 12,
    ensures
        ({
            let f = wrapped + nonce;
            &&& f.len() == WRAPPED_KEY_FILE_LEN
            &&& f.take(48) == wrapped
            &&& f.subrange(48, 60) == nonce
        }),
{
    let f = wrapped + nonce;
    assert(f.take(48) =~= wrapped);
    assert(f.subrange(48, 60) =~= nonce);
}

/// Where the key comes from, as the command line chooses it.
pub enum KeySource {
    /// A key-encryption key file, which wraps a fresh data key.
    Kek,
    /// A password given on the command line.
    Password,
    /// A password read from a file.
    PasswordFile,
}

/// A command line that names no usable key source.
pub enum UsageError {
    /// A KEK was given for decryption without the file of the wrapped data key.
    MissingWrappedKey,
    /// Both a password (or password file) and a KEK were given.
    PasswordAndKek,
    /// Both a password and a password file were given.
    PasswordAndPasswordFile,
    /// Neither a password nor a KEK was given.
    NoKeySource,
}

/// Decrypting with a KEK needs the file of the wrapped data key; this is checked first,
/// before any file is opened.
pub fn check_wrapped_key_given(decrypting: bool, has_kek: bool, has_wrapped_key: bool) -> (ok:
    Result<(), UsageError>)
    ensures
        ok is Err <==> (decrypting && has_kek && !has_wrapped_key),
        ok matches Err(e) ==> e is MissingWrappedKey,
{
    if decrypting && has_kek && !has_wrapped_key {
        Err(UsageError::MissingWrappedKey)
    } else {
        Ok(())
    }
}

/// The key source that the command line names: a KEK excludes any password, a password
/// excludes a password file, and one of them must be given.
pub fn select_key_source(has_kek: bool, has_password: bool, has_password_file: bool) -> (source:
    Result<KeySource, UsageError>)
    ensures
        has_kek ==> (if has_password || has_password_file {
            source matches Err(e) && e is PasswordAndKek
        } else {
            source matches Ok(s) && s is Kek
        }),
        !has_kek && has_password ==> (if has_password_file {
            source matches Err(e) && e is PasswordAndPasswordFile
        } else {
            source matches Ok(s) && s is Password
        }),
        !has_kek && !has_password && has_password_file ==> (source matches Ok(s)
            && s is PasswordFile),
        !has_kek && !has_password && !has_password_file ==> (source matches Err(e)
            && e is NoKeySource),
{
    if has_kek {
        if has_password || has_password_file {
            Err(UsageError::PasswordAndKek)
        } else {
            Ok(KeySource::Kek)
        }
    } else if has_password {
        if has_password_file {
            Err(UsageError::PasswordAndPasswordFile)
        } else {
            Ok(KeySource::Password)
        }
    } else if has_password_file {
        Ok(KeySource::PasswordFile)
    } else {
        Err(UsageError::NoKeySource)
    }
}

/// The key under which a password-mode file's body is sealed: derived from the
/// password and the salt that the file carries.
pub open spec fn password_file_key(password: Seq<u8>, file: Seq<u8>) -> Seq<u8> {
    password_key(password, file.subrange(12, 28))
}

/// Encrypts `bytes` under `password` (fresh salt and nonce) and lays the result out as
/// a password-mode file: nonce, salt, ciphertext.
pub fn encrypt_password_file(bytes: &[u8], password: &str) -> (file: Result<Vec<u8>, Error>)
    ensures
        file matches Ok(f) ==> {
            &&& f@.len() == PASSWORD_PREFIX_LEN + bytes@.len() + 16
            &&& f@.skip(28) == aes256gcm_seal(
                password_file_key(password.spec_bytes(), f@),
                f@.take(12),
                Seq::empty(),
                bytes@,
            )
        },
        file matches Err(e) ==> (e is Argon2Hashing || (e is Aes && !gcm_accepts(
            0,
            bytes@.len(),
        ))),
        !gcm_accepts(0, bytes@.len()) ==> file is Err,
        password.spec_bytes().len() > ARGON2_MAX_PWD_LEN ==> (file matches Err(e)
            && e is Argon2Hashing),
{
    match encrypt_with_password(bytes, password) {
        Ok((data, salt)) => {
            let f = password_file(&data, &salt);
            proof {
                let n = data.nonce@;
                let t = salt@;
                crate::keys::lemma_nonce_len(data.nonce);
                crate::keys::lemma_salt_len(salt);
                assert(f@.take(12) =~= n);
                assert(f@.subrange(12, 28) =~= t);
                assert(f@.skip(28) =~= data.bytes@);
            }
            Ok(f)
        },
        Err(e) => Err(e),
    }
}

/// Decrypts a password-mode file under `password`: the first 12 bytes are the nonce,
/// the next 16 the salt, the rest the ciphertext. The file must hold the nonce and the
/// salt.
pub fn decrypt_password_file(file: &[u8], password: &str) -> (opened: Result<Vec<u8>, Error>)
    requires
        file@.len() >= PASSWORD_PREFIX_LEN,
    ensures
        ({
            let key = password_file_key(password.spec_bytes(), file@);
            let nonce = file@.take(12);
            let body = file@.skip(28);
            &&& opened matches Ok(p) ==> gcm_opens_to(key, nonce, Seq::empty(), body, p@)
            &&& opened matches Ok(p) ==> body.len() == p@.len() + 16
            &&& opened matches Ok(p) ==> forall|m: Seq<u8>|
                gcm_opens_to(key, nonce, Seq::empty(), body, m) ==> m == p@
            &&& opened matches Err(e) ==> (e is Argon2Hashing || (e is Aes && !opens_without_aad(
                key,
                nonce,
                body,
            )))
            &&& forall|m: Seq<u8>|
                gcm_opens_to(key, nonce, Seq::empty(), body, m) ==> ((opened matches Ok(p) && p@
                    == m) || (opened matches Err(e) && e is Argon2Hashing))
            &&& password.spec_bytes().len() > ARGON2_MAX_PWD_LEN ==> (opened matches Err(e)
                && e is Argon2Hashing)
        }),
{
    match parse_password_file(file) {
        Some((data, salt)) => {
            let r = decrypt_with_password(&data.bytes, password, &salt, &data.nonce);
            proof {
                let key = password_file_key(password.spec_bytes(), file@);
                let nonce = file@.take(12);
                let body = file@.skip(28);
                assert forall|m: Seq<u8>|
                    gcm_opens_to(key, nonce, Seq::empty(), body, m) implies ((r matches Ok(p)
                    && p@ == m) || (r matches Err(e) && e is Argon2Hashing)) by {
                    assert(opens_without_aad(key, nonce, body));
                }
            }
            r
        },
        None => Err(Error::Aes),
    }
}

/// A password-mode file that `encrypt_password_file` wrote decrypts, under the same
/// password, to the bytes it was made from: its body opens, under the key derived from
/// the salt it carries and the nonce it carries, to those bytes, so `decrypt_password_file`
/// returns them (unless Argon2 fails, which depends on the machine's memory).
pub proof fn lemma_password_file_roundtrip_opens(
    password: Seq<u8>,
    file: Seq<u8>,
    plaintext: Seq<u8>,
)
    requires
        file.len() == PASSWORD_PREFIX_LEN + plaintext.len() + 16,
        file.skip(28) == aes256gcm_seal(
            password_file_key(password, file),
            file.take(12),
            Seq::empty(),
            plaintext,
        ),
        gcm_accepts(0, plaintext.len()),
    ensures
        file.len() >= PASSWORD_PREFIX_LEN,
        gcm_opens_to(
            password_file_key(password, file),
            file.take(12),
            Seq::empty(),
            file.skip(28),
            plaintext,
        ),
{
}

} // verus!
