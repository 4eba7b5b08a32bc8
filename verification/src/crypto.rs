use vstd::prelude::*;
use vstd::utf8::encode_utf8;
use crate::error::VaultError;
use aes_gcm::aead::{Aead, KeyInit, OsRng};
use aes_gcm::aead::rand_core::RngCore;
use aes_gcm::Aes256Gcm;
use argon2::password_hash::SaltString;

verus! {

/// Bytes of the nonce that starts every record.
pub const NONCE_SIZE: usize = 12;

/// Bytes of a key.
pub const KEY_SIZE: usize = 32;

/// Bytes of the integrity tag that ends every record.
pub const TAG_SIZE: usize = 16;

/// Bytes of a freshly generated salt.
pub const SALT_SIZE: usize = 22;

/// The shortest salt that key derivation takes.
pub const MIN_SALT_LEN: usize = 8;

/// The longest password and the longest salt that key derivation takes.
pub const MAX_DERIVE_INPUT_LEN: u64 = 0xFFFF_FFFF;

/// The longest plaintext that one record can seal.
pub const MAX_PLAINTEXT_LEN: u64 = 0x10_0000_0000;

/// `argon2::Error`, the refusal of `Argon2::hash_password_into`. Nothing is
/// read from it.
#[verifier::external_type_specification]
#[verifier::external_body]
pub struct ExArgon2Error(argon2::Error);

/// `aes_gcm::Error`, the refusal of `Aes256Gcm::encrypt` and
/// `Aes256Gcm::decrypt`. It holds nothing.
#[verifier::external_type_specification]
#[verifier::external_body]
pub struct ExAeadError(aes_gcm::Error);

/// The 32 bytes that `Argon2::hash_password_into` writes for a password and
/// a salt on `Argon2::default()`: Argon2id, version 0x13, 19 MiB, 2 passes,
/// 1 lane, no secret, no associated data.
pub uninterp spec fn argon2_output(password: Seq<u8>, salt: Seq<u8>) -> Seq<u8>;

/// What `Aes256Gcm::encrypt` returns for a plaintext under a key and a
/// 96-bit nonce, with no associated data: the ciphertext and its tag.
pub uninterp spec fn aes_gcm_sealed(key: Seq<u8>, nonce: Seq<u8>, plaintext: Seq<u8>) -> Seq<u8>;

/// What `Aes256Gcm::decrypt` returns for a ciphertext and tag under a key
/// and a 96-bit nonce, with no associated data: the plaintext, or `None`
/// where it refuses.
pub uninterp spec fn aes_gcm_opened(key: Seq<u8>, nonce: Seq<u8>, sealed: Seq<u8>) -> Option<
    Seq<u8>,
>;

/// A 256-bit symmetric key. It lives for one invocation and is never stored.
pub struct Key {
    bytes: [u8; 32],
}

impl View for Key {
    type V = Seq<u8>;

    closed spec fn view(&self) -> Seq<u8> {
        self.bytes@
    }
}

impl Key {
    /// The key with these bytes.
    pub fn from_bytes(bytes: [u8; 32]) -> (key: Key)
        ensures
            key@ == bytes@,
            key@.len() == KEY_SIZE,
    {
        proof {
            vstd::array::array_len_matches_n(&bytes);
        }
        Key { bytes }
    }

    /// The bytes of the key.
    pub fn as_bytes(&self) -> (bytes: &[u8; 32])
        ensures
            bytes@ == self@,
            self@.len() == KEY_SIZE,
    {
        proof {
            vstd::array::array_len_matches_n(&self.bytes);
        }
        &self.bytes
    }
}

/// Calls `argon2::Argon2::hash_password_into` on `Argon2::default()` with a
/// 32-byte output. The call is refused exactly when the password is longer
/// than `MAX_DERIVE_INPUT_LEN` or the salt is shorter than `MIN_SALT_LEN` or
/// longer than `MAX_DERIVE_INPUT_LEN`; otherwise the output depends on the
/// password and the salt alone.
#[verifier::external_body]
fn argon2_hash(password: &[u8], salt: &[u8]) -> (r: Result<[u8; 32], argon2::Error>)
    ensures
        r.is_ok() <==> (password@.len() <= MAX_DERIVE_INPUT_LEN && MIN_SALT_LEN <= salt@.len()
            <= MAX_DERIVE_INPUT_LEN),
        r matches Ok(out) ==> out@ == argon2_output(password@, salt@),
{
    let mut out = [0u8; 32];
    match argon2::Argon2::default().hash_password_into(password, salt, &mut out) {
        Ok(()) => Ok(out),
        Err(e) => Err(e),
    }
}

/// Whether key derivation takes this password and this salt.
pub open spec fn derivable(password: Seq<char>, salt: Seq<u8>) -> bool {
    &&& encode_utf8(password).len() <= MAX_DERIVE_INPUT_LEN
    &&& MIN_SALT_LEN <= salt.len() <= MAX_DERIVE_INPUT_LEN
}

/// The key that belongs to a password and a salt.
pub open spec fn derived_key(password: Seq<char>, salt: Seq<u8>) -> Seq<u8> {
    argon2_output(encode_utf8(password), salt)
}

/// What `derive_key` returns on a password and a salt.
pub open spec fn derive_key_result(password: Seq<char>, salt: Seq<u8>) -> Result<
    Seq<u8>,
    VaultError,
> {
    if derivable(password, salt) {
        Ok(derived_key(password, salt))
    } else {
        Err(VaultError::ConfigurationError)
    }
}

/// Whether `r` is what `derive_key` returns on a password and a salt.
pub open spec fn derive_key_returns(
    password: Seq<char>,
    salt: Seq<u8>,
    r: Result<Key, VaultError>,
) -> bool {
    match r {
        Ok(key) => derive_key_result(password, salt) == Ok::<Seq<u8>, VaultError>(key@),
        Err(e) => derive_key_result(password, salt) == Err::<Seq<u8>, VaultError>(e),
    }
}

/// Stretches the master password into a key. The key depends on the password
/// and the salt alone, so a later run derives the same key again.
pub fn derive_key(password: &str, salt: &[u8]) -> (r: Result<Key, VaultError>)
    ensures
        derive_key_returns(password@, salt@, r),
{
    match argon2_hash(password.as_bytes(), salt) {
        Ok(bytes) => Ok(Key::from_bytes(bytes)),
        Err(_) => Err(VaultError::ConfigurationError),
    }
}

/// Key derivation is deterministic: whatever two derivations from one
/// password and one salt return, they return the same, be it the key or the
/// refusal.
pub proof fn lemma_derive_key_deterministic(
    password: Seq<char>,
    salt: Seq<u8>,
    first: Result<Key, VaultError>,
    second: Result<Key, VaultError>,
)
    requires
        derive_key_returns(password, salt, first),
        derive_key_returns(password, salt, second),
    ensures
        match (first, second) {
            (Ok(a), Ok(b)) => a@ == b@,
            (Err(a), Err(b)) => a == b,
            _ => false,
        },
{
}

/// Draws a nonce from the operating system's random source with
/// `OsRng.fill_bytes`. Nothing is known of the bytes that come back.
#[verifier::external_body]
fn os_random_nonce() -> (nonce: [u8; 12]) {
    let mut nonce = [0u8; 12];
    OsRng.fill_bytes(&mut nonce);
    nonce
}

/// Calls `Aes256Gcm::encrypt` with no associated data. The call is refused
/// exactly when the plaintext is longer than `MAX_PLAINTEXT_LEN`. What it
/// returns is the ciphertext followed by a 16-byte tag, and `Aes256Gcm::decrypt`
/// recovers the plaintext from it under the same key and nonce.
#[verifier::external_body]
fn aes_gcm_encrypt(key: &[u8; 32], nonce: &[u8], plaintext: &[u8]) -> (r: Result<
    Vec<u8>,
    aes_gcm::Error,
>)
    requires
        nonce@.len() == NONCE_SIZE,
    ensures
        r.is_ok() <==> plaintext@.len() <= MAX_PLAINTEXT_LEN,
        r matches Ok(sealed) ==> {
            &&& sealed@ == aes_gcm_sealed(key@, nonce@, plaintext@)
            &&& sealed@.len() == plaintext@.len() + TAG_SIZE
            &&& aes_gcm_opened(key@, nonce@, sealed@) == Some(plaintext@)
        },
{
    let cipher = Aes256Gcm::new(aes_gcm::Key::<Aes256Gcm>::from_slice(key));
    cipher.encrypt(aes_gcm::Nonce::from_slice(nonce), plaintext)
}

/// Calls `Aes256Gcm::decrypt` with no associated data. The call is refused
/// when fewer than 16 bytes are given or the tag does not verify; otherwise
/// it returns the plaintext, 16 bytes shorter than what was given.
#[verifier::external_body]
fn aes_gcm_decrypt(key: &[u8; 32], nonce: &[u8], sealed: &[u8]) -> (r: Result<
    Vec<u8>,
    aes_gcm::Error,
>)
    requires
        nonce@.len() == NONCE_SIZE,
    ensures
        match r {
            Ok(plaintext) => aes_gcm_opened(key@, nonce@, sealed@) == Some(plaintext@),
            Err(_) => aes_gcm_opened(key@, nonce@, sealed@) is None,
        },
        r matches Ok(plaintext) ==> plaintext@.len() + TAG_SIZE == sealed@.len(),
        sealed@.len() < TAG_SIZE ==> r.is_err(),
{
    let cipher = Aes256Gcm::new(aes_gcm::Key::<Aes256Gcm>::from_slice(key));
    cipher.decrypt(aes_gcm::Nonce::from_slice(nonce), sealed)
}

/// The record that sealing a plaintext under a key and a nonce gives: the
/// nonce, then the ciphertext and tag.
pub open spec fn sealed_record(key: Seq<u8>, nonce: Seq<u8>, plaintext: Seq<u8>) -> Seq<u8> {
    nonce + aes_gcm_sealed(key, nonce, plaintext)
}

/// The plaintext that a record holds under a key, or `None` where the record
/// is shorter than a nonce or its tag does not verify.
pub open spec fn opened_record(key: Seq<u8>, record: Seq<u8>) -> Option<Seq<u8>> {
    if record.len() < NONCE_SIZE {
        None
    } else {
        aes_gcm_opened(
            key,
            record.subrange(0, NONCE_SIZE as int),
            record.subrange(NONCE_SIZE as int, record.len() as int),
        )
    }
}

/// Seals a plaintext under a key and the nonce given. The caller answers for
/// the nonce: one nonce must never seal two plaintexts under one key.
pub fn seal_with_nonce(data: &[u8], key: &Key, nonce: &[u8; 12]) -> (r: Result<
    Vec<u8>,
    VaultError,
>)
    ensures
        data@.len() <= MAX_PLAINTEXT_LEN ==> r is Ok,
        data@.len() > MAX_PLAINTEXT_LEN ==> r == Err::<Vec<u8>, VaultError>(
            VaultError::FormatError,
        ),
        r matches Ok(record) ==> {
            &&& record@ == sealed_record(key@, nonce@, data@)
            &&& record@.len() == NONCE_SIZE + data@.len() + TAG_SIZE
            &&& opened_record(key@, record@) == Some(data@)
        },
{
    proof {
        vstd::array::array_len_matches_n(nonce);
    }
    match aes_gcm_encrypt(key.as_bytes(), nonce.as_slice(), data) {
        Ok(sealed) => {
            let mut record: Vec<u8> = Vec::new();
            record.extend_from_slice(nonce.as_slice());
            record.extend_from_slice(sealed.as_slice());
            proof {
                assert(record@ == nonce@ + sealed@);
                assert(record@.subrange(0, NONCE_SIZE as int) == nonce@);
                assert(record@.subrange(NONCE_SIZE as int, record@.len() as int) == sealed@);
            }
            Ok(record)
        },
        Err(_) => Err(VaultError::FormatError),
    }
}

/// Seals a plaintext under a key and a nonce drawn afresh from the operating
/// system's random source. The record starts with that nonce.
pub fn encrypt(data: &[u8], key: &Key) -> (r: Result<Vec<u8>, VaultError>)
    ensures
        data@.len() <= MAX_PLAINTEXT_LEN ==> r is Ok,
        data@.len() > MAX_PLAINTEXT_LEN ==> r == Err::<Vec<u8>, VaultError>(
            VaultError::FormatError,
        ),
        r matches Ok(record) ==> {
            &&& record@.len() == NONCE_SIZE + data@.len() + TAG_SIZE
            &&& record@ == sealed_record(key@, record@.subrange(0, NONCE_SIZE as int), data@)
            &&& opened_record(key@, record@) == Some(data@)
        },
{
    let nonce = os_random_nonce();
    proof {
        vstd::array::array_len_matches_n(&nonce);
    }
    let r = seal_with_nonce(data, key, &nonce);
    proof {
        if let Ok(record) = &r {
            assert(record@.subrange(0, NONCE_SIZE as int) == nonce@);
        }
    }
    r
}

/// What `decrypt` returns on a record and a key.
pub open spec fn decrypt_result(record: Seq<u8>, key: Seq<u8>) -> Result<Seq<u8>, VaultError> {
    match opened_record(key, record) {
        Some(plaintext) => Ok(plaintext),
        None => Err(VaultError::AuthenticationFailure),
    }
}

/// Splits a record at the nonce and opens the rest. A record that is cut
/// short, was sealed under another key or was changed since fails
/// authentication; no plaintext comes back then.
pub fn decrypt(record: &[u8], key: &Key) -> (r: Result<Vec<u8>, VaultError>)
    ensures
        match r {
            Ok(plaintext) => decrypt_result(record@, key@) == Ok::<Seq<u8>, VaultError>(
                plaintext@,
            ),
            Err(e) => decrypt_result(record@, key@) == Err::<Seq<u8>, VaultError>(e),
        },
{
    if record.len() < NONCE_SIZE {
        return Err(VaultError::AuthenticationFailure);
    }
    let (nonce, sealed) = record.split_at(NONCE_SIZE);
    match aes_gcm_decrypt(key.as_bytes(), nonce, sealed) {
        Ok(plaintext) => Ok(plaintext),
        Err(_) => Err(VaultError::AuthenticationFailure),
    }
}

/// Calls `SaltString::generate` on the operating system's random source and
/// takes the text as bytes: sixteen random bytes in unpadded base 64, which
/// is always 22 characters.
#[verifier::external_body]
fn random_salt_text() -> (salt: Vec<u8>)
    ensures
        salt@.len() == SALT_SIZE,
{
    SaltString::generate(&mut OsRng).to_string().into_bytes()
}

/// A fresh random salt, long enough for key derivation.
pub fn generate_salt() -> (salt: Vec<u8>)
    ensures
        salt@.len() == SALT_SIZE,
        forall|password: Seq<char>|
            encode_utf8(password).len() <= MAX_DERIVE_INPUT_LEN ==> #[trigger] derivable(
                password,
                salt@,
            ),
{
    random_salt_text()
}

} // verus!
