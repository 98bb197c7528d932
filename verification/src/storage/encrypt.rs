//! Argon2id key derivation and AES-256-GCM authenticated encryption.

use vstd::prelude::*;
use aes_gcm::aead::{Aead, KeyInit};
use crate::bytes::{append_bytes, array12_at, array16_at, wipe, wipe_array};
use crate::crypto::entropy::os_random_bytes;
use crate::error::UglyError;

verus! {

/// Argon2 memory cost in KiB (64 MiB).
pub const ARGON2_M_COST: u32 = 64 * 1024;
/// Argon2 number of passes.
pub const ARGON2_T_COST: u32 = 3;
/// Argon2 degree of parallelism.
pub const ARGON2_P_COST: u32 = 1;
/// Length of the AES-GCM nonce that prefixes every ciphertext.
pub const NONCE_LEN: usize = 12;
/// Length of the AES-GCM authentication tag appended to every ciphertext.
pub const AES_GCM_TAG_LEN: usize = 16;
/// Largest plaintext that AES-256-GCM accepts (2^36 bytes).
pub const AES_GCM_P_MAX: u64 = 0x10_0000_0000;

/// `argon2::Error`.
#[verifier::external_type_specification]
#[verifier::external_body]
pub struct ExArgon2Error(argon2::Error);

/// `aead::Error` (re-exported as `aes_gcm::Error`).
#[verifier::external_type_specification]
#[verifier::external_body]
pub struct ExAeadError(aes_gcm::Error);

/// The 32-byte Argon2id (version 0x13) output for a password (taken as its UTF-8 bytes),
/// a salt and the memory, time and parallelism costs.
pub uninterp spec fn argon2id_key(password: Seq<char>, salt: Seq<u8>, m_cost: u32, t_cost: u32, p_cost: u32) -> Seq<u8>;

/// The AES-256-GCM ciphertext followed by its 16-byte tag, for a key, a 12-byte nonce and a
/// plaintext, with no associated data.
pub uninterp spec fn aes256gcm_seal(key: Seq<u8>, nonce: Seq<u8>, plaintext: Seq<u8>) -> Seq<u8>;

/// AES-256-GCM decryption with no associated data: the plaintext when the tag authenticates
/// the ciphertext under the key and nonce, `None` otherwise.
pub uninterp spec fn aes256gcm_open(key: Seq<u8>, nonce: Seq<u8>, ciphertext: Seq<u8>) -> Option<Seq<u8>>;

/// The costs that `argon2::Params::new` accepts.
pub open spec fn argon2_costs_valid(m_cost: u32, t_cost: u32, p_cost: u32) -> bool {
    &&& 8 <= m_cost
    &&& 8 * p_cost <= m_cost
    &&& 1 <= t_cost
    &&& 1 <= p_cost <= 0xFF_FFFF
}

/// Argon2 accepts passwords of at most `u32::MAX` UTF-8 bytes.
pub open spec fn password_fits(password: Seq<char>) -> bool {
    vstd::utf8::encode_utf8(password).len() <= 0xFFFF_FFFF
}

/// Builds `argon2::Params::new(m_cost, t_cost, p_cost, Some(32))` and calls
/// `Argon2::new(Algorithm::Argon2id, Version::V0x13, params).hash_password_into` with the
/// password's bytes and the salt. The contract claims: a returned key is `argon2id_key` of the
/// arguments; with valid costs the call fails exactly when the password is longer than
/// `u32::MAX` bytes (the crate's `verify_inputs`; the 16-byte salt and 32-byte output are
/// within its limits).
#[verifier::external_body]
fn argon2id_hash(password: &str, salt: &[u8; 16], m_cost: u32, t_cost: u32, p_cost: u32) -> (res: core::result::Result<[u8; 32], argon2::Error>)
    requires
        argon2_costs_valid(m_cost, t_cost, p_cost),
    ensures
        res matches Ok(key) ==> key@ == argon2id_key(password@, salt@, m_cost, t_cost, p_cost),
        res is Ok <==> password_fits(password@),
{
    let params = argon2::Params::new(m_cost, t_cost, p_cost, Some(32))?;
    let mut key = [0u8; 32];
    argon2::Argon2::new(argon2::Algorithm::Argon2id, argon2::Version::V0x13, params)
        .hash_password_into(password.as_bytes(), salt, &mut key)?;
    Ok(key)
}

/// Calls `Aes256Gcm::new(key).encrypt(nonce, plaintext)`. The contract claims: the result is
/// `aes256gcm_seal` of the arguments, which `aes256gcm_open` with the same key and nonce turns
/// back into the plaintext (the keystream and tag are recomputed identically, and the output is
/// at most `C_MAX` long); the sealed text is the plaintext's length plus the 16-byte tag (the
/// keystream is applied in place, then the tag appended); the call fails exactly when the
/// plaintext is longer than `P_MAX`.
#[verifier::external_body]
fn aes_gcm_seal(key: &[u8; 32], nonce: &[u8; 12], plaintext: &[u8]) -> (res: core::result::Result<Vec<u8>, aes_gcm::Error>)
    ensures
        res matches Ok(sealed) ==> {
            &&& sealed@ == aes256gcm_seal(key@, nonce@, plaintext@)
            &&& sealed@.len() == plaintext@.len() + AES_GCM_TAG_LEN
            &&& aes256gcm_open(key@, nonce@, sealed@) == Some(plaintext@)
        },
        res is Ok <==> plaintext@.len() <= AES_GCM_P_MAX,
{
    aes_gcm::Aes256Gcm::new(key.into()).encrypt(aes_gcm::Nonce::from_slice(nonce), plaintext)
}

/// Calls `Aes256Gcm::new(key).decrypt(nonce, ciphertext)`. The contract claims that the
/// outcome is `aes256gcm_open` of the arguments.
#[verifier::external_body]
fn aes_gcm_open(key: &[u8; 32], nonce: &[u8; 12], ciphertext: &[u8]) -> (res: core::result::Result<Vec<u8>, aes_gcm::Error>)
    ensures
        res matches Ok(plain) ==> aes256gcm_open(key@, nonce@, ciphertext@) == Some(plain@),
        res is Err ==> aes256gcm_open(key@, nonce@, ciphertext@) is None,
{
    aes_gcm::Aes256Gcm::new(key.into()).decrypt(aes_gcm::Nonce::from_slice(nonce), ciphertext)
}

/// The wallet-file key for a password and salt: Argon2id with 64 MiB, 3 passes, 1 lane.
pub open spec fn wallet_key(password: Seq<char>, salt: Seq<u8>) -> Seq<u8> {
    argon2id_key(password, salt, ARGON2_M_COST, ARGON2_T_COST, ARGON2_P_COST)
}

/// Opening `nonce || ciphertext`: `None` when shorter than a nonce or not authentic.
pub open spec fn open_sealed(key: Seq<u8>, nonce_and_ciphertext: Seq<u8>) -> Option<Seq<u8>> {
    if nonce_and_ciphertext.len() < NONCE_LEN {
        None
    } else {
        aes256gcm_open(
            key,
            nonce_and_ciphertext.subrange(0, NONCE_LEN as int),
            nonce_and_ciphertext.subrange(NONCE_LEN as int, nonce_and_ciphertext.len() as int),
        )
    }
}

/// Derives a 32-byte encryption key from a password and salt using Argon2id.
pub fn derive_key(password: &str, salt: &[u8; 16]) -> (res: Result<[u8; 32], UglyError>)
    ensures
        res is Ok <==> password_fits(password@),
        res matches Ok(key) ==> key@ == wallet_key(password@, salt@),
        res matches Err(e) ==> e is EncryptionFailed,
{
    match argon2id_hash(password, salt, ARGON2_M_COST, ARGON2_T_COST, ARGON2_P_COST) {
        Ok(key) => Ok(key),
        Err(e) => Err(UglyError::EncryptionFailed(e.to_string())),
    }
}

/// Encrypts data with AES-256-GCM under a fresh random nonce. Returns nonce + ciphertext.
pub fn encrypt(data: &[u8], key: &[u8; 32]) -> (res: Result<Vec<u8>, UglyError>)
    ensures
        res is Ok <==> data@.len() <= AES_GCM_P_MAX,
        res matches Ok(out) ==> {
            &&& out@.len() == NONCE_LEN + data@.len() + AES_GCM_TAG_LEN
            &&& out@.subrange(NONCE_LEN as int, out@.len() as int)
                == aes256gcm_seal(key@, out@.subrange(0, NONCE_LEN as int), data@)
            &&& open_sealed(key@, out@) == Some(data@)
        },
        res matches Err(e) ==> e is EncryptionFailed,
{
    let mut nonce_vec = os_random_bytes(NONCE_LEN);
    let mut nonce = array12_at(nonce_vec.as_slice(), 0);
    assert(nonce_vec@.subrange(0, 12) =~= nonce_vec@);
    wipe(&mut nonce_vec);
    let res = match aes_gcm_seal(key, &nonce, data) {
        Ok(sealed) => {
            let mut out: Vec<u8> = Vec::new();
            append_bytes(&mut out, nonce.as_slice());
            append_bytes(&mut out, sealed.as_slice());
            assert(out@.subrange(0, 12) =~= nonce@);
            assert(out@.subrange(12, out@.len() as int) =~= sealed@);
            Ok(out)
        },
        Err(e) => Err(UglyError::EncryptionFailed(e.to_string())),
    };
    wipe_array(&mut nonce);
    res
}

/// Decrypts AES-256-GCM data whose 12-byte nonce is prepended to the ciphertext.
pub fn decrypt(nonce_and_ciphertext: &[u8], key: &[u8; 32]) -> (res: Result<Vec<u8>, UglyError>)
    ensures
        res matches Ok(plain) ==> open_sealed(key@, nonce_and_ciphertext@) == Some(plain@),
        res matches Err(e) ==> open_sealed(key@, nonce_and_ciphertext@) is None && e is DecryptionFailed,
{
    let n = nonce_and_ciphertext.len();
    if n < NONCE_LEN {
        return Err(UglyError::DecryptionFailed);
    }
    let nonce = array12_at(nonce_and_ciphertext, 0);
    let ciphertext = vstd::slice::slice_subrange(nonce_and_ciphertext, NONCE_LEN, n);
    match aes_gcm_open(key, &nonce, ciphertext) {
        Ok(plain) => Ok(plain),
        Err(_) => Err(UglyError::DecryptionFailed),
    }
}

/// Generates a random 16-byte salt.
pub fn generate_salt() -> [u8; 16] {
    let bytes = os_random_bytes(16);
    array16_at(bytes.as_slice(), 0)
}

} // verus!
