//! Key derivation and authenticated encryption: the app key, Argon2id keys
//! from passwords, the AES-256-GCM envelope and the password hash that the
//! master lock stores.

use aes_gcm::aead::{Aead, KeyInit};
use aes_gcm::{Aes256Gcm, Nonce};
use argon2::password_hash::SaltString;
use argon2::{Argon2, PasswordHash, PasswordHasher, PasswordVerifier};
use base64::Engine;
use rand::RngCore;
use vstd::prelude::*;
use vstd::slice::slice_subrange;
use vstd::utf8::encode_utf8;
use zeroize::Zeroize;
use crate::text::str_eq;

verus! {

/// Bytes of an AES-256 key.
pub const AES_KEY_SIZE: usize = 32;

/// Bytes of the nonce that heads an envelope.
pub const AES_GCM_NONCE_SIZE: usize = 12;

/// Bytes of the authentication tag that ends an envelope.
pub const AES_GCM_TAG_SIZE: usize = 16;

/// Bytes of the salt of a lock.
pub const SALT_SIZE: usize = 16;

/// The longest plaintext, in bytes, that AES-GCM seals under one nonce.
pub const AES_GCM_MAX_PLAINTEXT: u64 = 0x10_0000_0000;

/// The longest password and the longest salt, in bytes, that Argon2 takes.
pub const ARGON2_MAX_INPUT: u64 = 0xFFFF_FFFF;

/// The shortest salt, in bytes, that Argon2 takes.
pub const ARGON2_MIN_SALT: u64 = 8;

pub const DEFAULT_ARGON2_M_COST: u32 = 19456;

pub const DEFAULT_ARGON2_T_COST: u32 = 2;

pub const DEFAULT_ARGON2_P_COST: u32 = 1;

/// The most lanes that Argon2 takes.
pub const ARGON2_MAX_P_COST: u32 = 0xFF_FFFF;

/// The cost parameters of Argon2id.
#[derive(Debug, Clone, Copy, PartialEq, Eq, Structural)]
pub struct KdfParams {
    /// Memory, in KiB.
    pub m_cost: u32,
    /// Passes.
    pub t_cost: u32,
    /// Lanes.
    pub p_cost: u32,
}

/// What it takes to derive a key from a password again: the salt, in
/// base64, and the costs.
#[derive(Debug, Clone)]
pub struct LockInfo {
    pub kdf: String,
    pub salt_b64: String,
    pub params: KdfParams,
}

/// Why an envelope could not be made or opened.
#[derive(Debug, Clone, Copy, PartialEq, Eq, Structural)]
pub enum CryptoError {
    /// The envelope is shorter than a nonce.
    Malformed,
    /// The tag does not verify: a wrong key, or changed bytes.
    AuthenticationFailed,
    /// The plaintext is longer than AES-GCM seals.
    TooLong,
}

/// Why no key could be had.
#[derive(Debug, Clone, Copy, PartialEq, Eq, Structural)]
pub enum KeyError {
    /// There is no app key of 32 bytes.
    AppKeyUnavailable,
    /// The salt of the lock is no base64.
    CorruptLock,
    /// Argon2 refuses the costs, the salt or the password.
    InvalidKdfParams,
}

/// Why a password hash could not be made or checked.
#[derive(Debug, Clone, Copy, PartialEq, Eq, Structural)]
pub enum HashError {
    /// The password is longer than Argon2 takes.
    PasswordTooLong,
    /// The stored text is no password hash.
    Unparsable,
}

impl CryptoError {
    /// What to tell the user.
    pub fn message(&self) -> (m: String)
        ensures
            m@ == match *self {
                CryptoError::Malformed => "cipher too short"@,
                CryptoError::AuthenticationFailed =>
                    "decrypt: wrong password or corrupted data"@,
                CryptoError::TooLong => "encrypt: the data is too long"@,
            },
    {
        match self {
            CryptoError::Malformed => "cipher too short".to_string(),
            CryptoError::AuthenticationFailed =>
                "decrypt: wrong password or corrupted data".to_string(),
            CryptoError::TooLong => "encrypt: the data is too long".to_string(),
        }
    }
}

impl KeyError {
    /// What to tell the user.
    pub fn message(&self) -> (m: String)
        ensures
            m@ == match *self {
                KeyError::AppKeyUnavailable => "read app.key: missing or of invalid size"@,
                KeyError::CorruptLock => "salt b64: the salt of the lock is invalid"@,
                KeyError::InvalidKdfParams => "params: Argon2 refuses the parameters"@,
            },
    {
        match self {
            KeyError::AppKeyUnavailable => "read app.key: missing or of invalid size".to_string(),
            KeyError::CorruptLock => "salt b64: the salt of the lock is invalid".to_string(),
            KeyError::InvalidKdfParams => "params: Argon2 refuses the parameters".to_string(),
        }
    }
}

/// Ciphertext and tag that AES-256-GCM makes of a plaintext under a key and
/// a nonce, with no associated data.
pub uninterp spec fn aes256gcm_seal(key: Seq<u8>, nonce: Seq<u8>, plaintext: Seq<u8>) -> Seq<u8>;

/// The plaintext that AES-256-GCM gives back for ciphertext and tag under a
/// key and a nonce, or `None` where the tag does not verify.
pub uninterp spec fn aes256gcm_open(key: Seq<u8>, nonce: Seq<u8>, sealed: Seq<u8>) -> Option<
    Seq<u8>,
>;

/// The 32 bytes that Argon2id, version 0x13, without secret, derives.
pub uninterp spec fn argon2id_key(
    password: Seq<u8>,
    salt: Seq<u8>,
    m_cost: u32,
    t_cost: u32,
    p_cost: u32,
) -> Seq<u8>;

/// The bytes that a text in standard base64 stands for, if it is one.
pub uninterp spec fn base64_decode(text: Seq<char>) -> Option<Seq<u8>>;

/// Standard base64, padded, of a byte string.
pub uninterp spec fn base64_encode(bytes: Seq<u8>) -> Seq<char>;

/// The password hash, in PHC text form, that Argon2id with its default
/// costs makes of a password and a salt.
pub uninterp spec fn argon2_phc(password: Seq<u8>, salt: Seq<u8>) -> Seq<char>;

/// The parameters that a password hash in PHC text form carries, in their
/// order: each name, and its value where that is a decimal number. `None`
/// where the text is no password hash.
pub uninterp spec fn phc_params(hash: Seq<char>) -> Option<Seq<(Seq<char>, Option<u32>)>>;

/// Whether a password, hashed as a password hash in PHC text form says,
/// gives the output that the hash holds. `None` where the text is no
/// password hash.
pub uninterp spec fn argon2_matches(password: Seq<u8>, hash: Seq<char>) -> Option<bool>;

/// `rand::rng().fill_bytes`: `N` bytes from the thread's generator. Nothing
/// is known of them.
#[verifier::external_body]
fn random_array<const N: usize>() -> [u8; N] {
    let mut bytes = [0u8; N];
    rand::rng().fill_bytes(&mut bytes);
    bytes
}

/// `zeroize::Zeroize::zeroize` on an array: every byte is zero afterwards.
#[verifier::external_body]
fn zeroize_array<const N: usize>(bytes: &mut [u8; N])
    ensures
        forall|i: int| 0 <= i < N ==> (#[trigger] final(bytes)@[i]) == 0u8,
{
    bytes.zeroize();
}

/// `Aead::encrypt` of `Aes256Gcm`: ciphertext and tag, 16 bytes more than
/// the plaintext. It fails exactly where the plaintext is longer than 2^36
/// bytes. What it returns, `Aead::decrypt` opens under the same key and
/// nonce to the plaintext.
#[verifier::external_body]
fn aes_gcm_seal(key: &[u8; 32], nonce: &[u8; 12], plaintext: &[u8]) -> (r: Option<Vec<u8>>)
    ensures
        r is Some <==> plaintext@.len() <= AES_GCM_MAX_PLAINTEXT,
        r matches Some(sealed) ==> {
            &&& sealed@ == aes256gcm_seal(key@, nonce@, plaintext@)
            &&& sealed@.len() == plaintext@.len() + 16
            &&& aes256gcm_open(key@, nonce@, sealed@) == Some(plaintext@)
        },
{
    let cipher = Aes256Gcm::new_from_slice(key).ok()?;
    cipher.encrypt(Nonce::from_slice(nonce), plaintext).ok()
}

/// `Aead::decrypt` of `Aes256Gcm`: the plaintext, 16 bytes less than what
/// was sealed, or nothing where the tag does not verify; it does not for
/// fewer than 16 bytes.
#[verifier::external_body]
fn aes_gcm_open(key: &[u8; 32], nonce: &[u8], sealed: &[u8]) -> (r: Option<Vec<u8>>)
    requires
        nonce@.len() == 12,
    ensures
        r matches Some(plaintext) ==> aes256gcm_open(key@, nonce@, sealed@) == Some(plaintext@)
            && plaintext@.len() + 16 == sealed@.len(),
        r is None ==> aes256gcm_open(key@, nonce@, sealed@) is None,
        sealed@.len() < 16 ==> r is None,
{
    let cipher = Aes256Gcm::new_from_slice(key).ok()?;
    cipher.decrypt(Nonce::from_slice(nonce), sealed).ok()
}

/// `Argon2::hash_password_into` with `Params::new` and
/// `Argon2::new_with_secret`: Argon2id, version 0x13, no secret, 32 bytes
/// out. With costs that `Params::new` takes it fails exactly where the
/// password is longer than 2^32 - 1 bytes or the salt is not of 8 to
/// 2^32 - 1 bytes.
#[verifier::external_body]
fn argon2id_derive(password: &[u8], salt: &[u8], m_cost: u32, t_cost: u32, p_cost: u32) -> (r:
    Option<[u8; 32]>)
    requires
        kdf_params_valid(m_cost, t_cost, p_cost),
    ensures
        r is Some <==> argon2_inputs_valid(password@, salt@),
        r matches Some(key) ==> key@ == argon2id_key(password@, salt@, m_cost, t_cost, p_cost),
{
    let params = argon2::Params::new(m_cost, t_cost, p_cost, Some(32)).ok()?;
    let argon = Argon2::new_with_secret(
        &[],
        argon2::Algorithm::Argon2id,
        argon2::Version::V0x13,
        params,
    ).ok()?;
    let mut out = [0u8; 32];
    argon.hash_password_into(password, salt, &mut out).ok()?;
    Some(out)
}

/// `Engine::decode` of base64's `STANDARD`.
#[verifier::external_body]
fn base64_decode_standard(text: &str) -> (r: Option<Vec<u8>>)
    ensures
        r matches Some(bytes) ==> base64_decode(text@) == Some(bytes@),
        r is None ==> base64_decode(text@) is None,
{
    base64::engine::general_purpose::STANDARD.decode(text).ok()
}

/// `Engine::encode` of base64's `STANDARD`; `Engine::decode` gives the bytes
/// back.
#[verifier::external_body]
fn base64_encode_standard(bytes: &[u8; 16]) -> (text: String)
    ensures
        text@ == base64_encode(bytes@),
        base64_decode(text@) == Some(bytes@),
{
    base64::engine::general_purpose::STANDARD.encode(bytes)
}

/// `PasswordHasher::hash_password` of `Argon2::default()`, with the salt
/// through `SaltString::encode_b64`, as PHC text. It fails exactly where
/// the password is longer than 2^32 - 1 bytes. `PasswordVerifier` accepts
/// the password against the text.
#[verifier::external_body]
fn argon2_phc_hash(password: &[u8], salt: &[u8; 16]) -> (r: Option<String>)
    ensures
        r is Some <==> password@.len() <= ARGON2_MAX_INPUT,
        r matches Some(hash) ==> hash@ == argon2_phc(password@, salt@) && hash_accepts(
            password@,
            hash@,
        ),
{
    let salt = SaltString::encode_b64(salt).ok()?;
    Argon2::default().hash_password(password, &salt).ok().map(|h| h.to_string())
}

/// `PasswordHash::new` and its `params`: each parameter's name, and its
/// value through `Value::decimal`.
#[verifier::external_body]
fn phc_param_list(hash: &str) -> (r: Option<Vec<(String, Option<u32>)>>)
    ensures
        r matches Some(list) ==> phc_params(hash@) == Some(param_views(list@)),
        r is None ==> phc_params(hash@) is None,
{
    let parsed = PasswordHash::new(hash).ok()?;
    Some(parsed.params.iter().map(|(n, v)| (n.as_str().to_string(), v.decimal().ok())).collect())
}

/// `PasswordVerifier::verify_password` of `Argon2::default()` on
/// `PasswordHash::new` of the text. The lanes that the text asks for are
/// multiplied by 8 in 32 bits: the text must ask for no more than Argon2
/// takes.
#[verifier::external_body]
fn argon2_phc_verify(password: &[u8], hash: &str) -> (r: Option<bool>)
    requires
        phc_params(hash@) matches Some(list) && !lanes_oversized(list),
    ensures
        r == argon2_matches(password@, hash@),
{
    let parsed = PasswordHash::new(hash).ok()?;
    Some(Argon2::default().verify_password(password, &parsed).is_ok())
}

pub open spec fn param_views(list: Seq<(String, Option<u32>)>) -> Seq<(Seq<char>, Option<u32>)> {
    list.map_values(|e: (String, Option<u32>)| (e.0@, e.1))
}

/// Whether some parameter `p` asks for more lanes than Argon2 takes.
pub open spec fn lanes_oversized(list: Seq<(Seq<char>, Option<u32>)>) -> bool {
    exists|i: int| 0 <= i < list.len() && too_many_lanes(#[trigger] list[i])
}

/// Whether a parameter is `p` with a number greater than Argon2 takes.
pub open spec fn too_many_lanes(param: (Seq<char>, Option<u32>)) -> bool {
    param.0 == "p"@ && match param.1 {
        Some(p) => p > ARGON2_MAX_P_COST,
        None => false,
    }
}

/// The costs that Argon2 takes.
pub open spec fn kdf_params_valid(m_cost: u32, t_cost: u32, p_cost: u32) -> bool {
    &&& m_cost >= 8
    &&& m_cost >= 8 * p_cost
    &&& t_cost >= 1
    &&& 1 <= p_cost <= ARGON2_MAX_P_COST
}

/// The passwords and salts that Argon2 takes.
pub open spec fn argon2_inputs_valid(password: Seq<u8>, salt: Seq<u8>) -> bool {
    &&& password.len() <= ARGON2_MAX_INPUT
    &&& ARGON2_MIN_SALT <= salt.len() <= ARGON2_MAX_INPUT
}

/// The key that a password gives with a salt and costs.
pub open spec fn derive_spec(
    password: Seq<char>,
    salt: Seq<u8>,
    m_cost: u32,
    t_cost: u32,
    p_cost: u32,
) -> Result<Seq<u8>, KeyError> {
    if kdf_params_valid(m_cost, t_cost, p_cost) && argon2_inputs_valid(
        encode_utf8(password),
        salt,
    ) {
        Ok(argon2id_key(encode_utf8(password), salt, m_cost, t_cost, p_cost))
    } else {
        Err(KeyError::InvalidKdfParams)
    }
}

/// The key that a password gives with a lock's salt and costs.
pub open spec fn derive_lock_spec(password: Seq<char>, salt_b64: Seq<char>, params: KdfParams)
    -> Result<Seq<u8>, KeyError> {
    match base64_decode(salt_b64) {
        None => Err(KeyError::CorruptLock),
        Some(salt) => derive_spec(password, salt, params.m_cost, params.t_cost, params.p_cost),
    }
}

/// What opening an envelope gives: the first 12 bytes are the nonce, the
/// rest ciphertext and tag.
pub open spec fn decrypt_spec(key: Seq<u8>, data: Seq<u8>) -> Result<Seq<u8>, CryptoError> {
    if data.len() < AES_GCM_NONCE_SIZE {
        Err(CryptoError::Malformed)
    } else {
        match aes256gcm_open(key, data.take(12), data.skip(12)) {
            Some(plaintext) => Ok(plaintext),
            None => Err(CryptoError::AuthenticationFailed),
        }
    }
}

/// What checking a password against a stored hash gives.
pub open spec fn verify_spec(password: Seq<u8>, hash: Seq<char>) -> Result<bool, HashError> {
    match phc_params(hash) {
        None => Err(HashError::Unparsable),
        Some(list) => if lanes_oversized(list) {
            Ok(false)
        } else {
            match argon2_matches(password, hash) {
                None => Err(HashError::Unparsable),
                Some(b) => Ok(b),
            }
        },
    }
}

/// Whether the envelope opens under the key to the plaintext.
pub open spec fn opens_to(key: Seq<u8>, envelope: Seq<u8>, plaintext: Seq<u8>) -> bool {
    decrypt_spec(key, envelope) == Ok::<Seq<u8>, CryptoError>(plaintext)
}

/// Whether checking the password against the hash says yes.
pub open spec fn hash_accepts(password: Seq<u8>, hash: Seq<char>) -> bool {
    verify_spec(password, hash) == Ok::<bool, HashError>(true)
}

/// Whether an executable result is the one that a specification gives.
pub open spec fn key_result_is(r: Result<[u8; 32], KeyError>, s: Result<Seq<u8>, KeyError>)
    -> bool {
    match r {
        Ok(key) => s == Ok::<Seq<u8>, KeyError>(key@),
        Err(e) => s == Err::<Seq<u8>, KeyError>(e),
    }
}

pub open spec fn bytes_result_is(r: Result<Vec<u8>, CryptoError>, s: Result<Seq<u8>, CryptoError>)
    -> bool {
    match r {
        Ok(bytes) => s == Ok::<Seq<u8>, CryptoError>(bytes@),
        Err(e) => s == Err::<Seq<u8>, CryptoError>(e),
    }
}

/// Encrypts `plaintext` under `key` with a fresh random nonce: the envelope
/// is the nonce, then ciphertext and tag.
pub fn encrypt_with_key(key: &[u8; 32], plaintext: &[u8]) -> (r: Result<Vec<u8>, CryptoError>)
    ensures
        r is Ok <==> plaintext@.len() <= AES_GCM_MAX_PLAINTEXT,
        r matches Err(e) ==> e == CryptoError::TooLong,
        r matches Ok(envelope) ==> {
            &&& envelope@.len() == 12 + plaintext@.len() + 16
            &&& envelope@.skip(12) == aes256gcm_seal(key@, envelope@.take(12), plaintext@)
            &&& opens_to(key@, envelope@, plaintext@)
        },
{
    let nonce: [u8; 12] = random_array::<12>();
    match aes_gcm_seal(key, &nonce, plaintext) {
        None => Err(CryptoError::TooLong),
        Some(sealed) => {
            let mut out: Vec<u8> = Vec::new();
            out.extend_from_slice(nonce.as_slice());
            out.extend_from_slice(sealed.as_slice());
            proof {
                assert(out@.take(12) =~= nonce@);
                assert(out@.skip(12) =~= sealed@);
            }
            Ok(out)
        },
    }
}

/// Opens an envelope made by [`encrypt_with_key`].
pub fn decrypt_with_key(key: &[u8; 32], data: &[u8]) -> (r: Result<Vec<u8>, CryptoError>)
    ensures
        bytes_result_is(r, decrypt_spec(key@, data@)),
        r matches Ok(plaintext) ==> plaintext@.len() + 28 == data@.len(),
        12 <= data@.len() < 28 ==> r matches Err(CryptoError::AuthenticationFailed),
{
    if data.len() < AES_GCM_NONCE_SIZE {
        return Err(CryptoError::Malformed);
    }
    let nonce = slice_subrange(data, 0, AES_GCM_NONCE_SIZE);
    let sealed = slice_subrange(data, AES_GCM_NONCE_SIZE, data.len());
    proof {
        assert(nonce@ =~= data@.take(12));
        assert(sealed@ =~= data@.skip(12));
    }
    match aes_gcm_open(key, nonce, sealed) {
        Some(plaintext) => Ok(plaintext),
        None => Err(CryptoError::AuthenticationFailed),
    }
}

/// Whether Argon2 takes the costs.
pub fn check_kdf_params(params: &KdfParams) -> (r: bool)
    ensures
        r == kdf_params_valid(params.m_cost, params.t_cost, params.p_cost),
{
    params.p_cost >= 1 && params.p_cost <= ARGON2_MAX_P_COST && params.t_cost >= 1 && params.m_cost
        >= 8 && params.m_cost / 8 >= params.p_cost
}

/// Derives the key of `password` with `salt` and the costs `params`.
pub fn derive_key(password: &str, salt: &[u8], params: &KdfParams) -> (r: Result<
    [u8; 32],
    KeyError,
>)
    ensures
        key_result_is(
            r,
            derive_spec(password@, salt@, params.m_cost, params.t_cost, params.p_cost),
        ),
{
    if !check_kdf_params(params) {
        return Err(KeyError::InvalidKdfParams);
    }
    match argon2id_derive(
        password.as_bytes(),
        salt,
        params.m_cost,
        params.t_cost,
        params.p_cost,
    ) {
        Some(key) => Ok(key),
        None => Err(KeyError::InvalidKdfParams),
    }
}

/// Derives the key of `password` with the salt and the costs of `lock`.
pub fn derive_key_from_password(password: &str, lock: &LockInfo) -> (r: Result<[u8; 32], KeyError>)
    ensures
        key_result_is(r, derive_lock_spec(password@, lock.salt_b64@, lock.params)),
{
    match base64_decode_standard(lock.salt_b64.as_str()) {
        None => Err(KeyError::CorruptLock),
        Some(salt) => derive_key(password, salt.as_slice(), &lock.params),
    }
}

/// The costs that a new lock gets, and the master lock's key.
pub fn default_kdf_params() -> (p: KdfParams)
    ensures
        p == default_params(),
{
    KdfParams {
        m_cost: DEFAULT_ARGON2_M_COST,
        t_cost: DEFAULT_ARGON2_T_COST,
        p_cost: DEFAULT_ARGON2_P_COST,
    }
}

pub open spec fn default_params() -> KdfParams {
    KdfParams {
        m_cost: DEFAULT_ARGON2_M_COST,
        t_cost: DEFAULT_ARGON2_T_COST,
        p_cost: DEFAULT_ARGON2_P_COST,
    }
}

/// Derives the key of `password` with `salt` and the default costs.
pub fn derive_key_from_password_and_salt(password: &str, salt: &[u8]) -> (r: Result<
    [u8; 32],
    KeyError,
>)
    ensures
        key_result_is(
            r,
            derive_spec(
                password@,
                salt@,
                DEFAULT_ARGON2_M_COST,
                DEFAULT_ARGON2_T_COST,
                DEFAULT_ARGON2_P_COST,
            ),
        ),
        r is Ok <==> argon2_inputs_valid(encode_utf8(password@), salt@),
{
    let params = default_kdf_params();
    derive_key(password, salt, &params)
}

/// A new lock for `password`: a fresh random salt of 16 bytes and the
/// default costs, tried once by deriving the key.
pub fn create_lock(password: &str) -> (r: Result<LockInfo, KeyError>)
    ensures
        r is Ok <==> encode_utf8(password@).len() <= ARGON2_MAX_INPUT,
        r matches Err(e) ==> e == KeyError::InvalidKdfParams,
        r matches Ok(lock) ==> {
            &&& lock.kdf@ == "argon2id"@
            &&& lock.params == default_params()
            &&& base64_decode(lock.salt_b64@) matches Some(salt) && salt.len() == SALT_SIZE
            &&& derive_lock_spec(password@, lock.salt_b64@, lock.params) is Ok
        },
{
    let salt: [u8; 16] = random_array::<16>();
    let params = default_kdf_params();
    match derive_key(password, salt.as_slice(), &params) {
        Err(e) => Err(e),
        Ok(_) => {
            let salt_b64 = base64_encode_standard(&salt);
            Ok(LockInfo { kdf: "argon2id".to_string(), salt_b64, params })
        },
    }
}

/// Hashes a password for storage, with a fresh random salt.
pub fn argon2_hash(password: &[u8]) -> (r: Result<String, HashError>)
    ensures
        r is Ok <==> password@.len() <= ARGON2_MAX_INPUT,
        r matches Err(e) ==> e == HashError::PasswordTooLong,
        r matches Ok(hash) ==> hash_accepts(password@, hash@),
{
    let salt: [u8; 16] = random_array::<16>();
    match argon2_phc_hash(password, &salt) {
        Some(hash) => Ok(hash),
        None => Err(HashError::PasswordTooLong),
    }
}

/// Whether some parameter `p` of the list asks for more lanes than Argon2
/// takes.
fn any_lanes_oversized(list: &Vec<(String, Option<u32>)>) -> (r: bool)
    ensures
        r == lanes_oversized(param_views(list@)),
{
    let mut i: usize = 0;
    while i < list.len()
        invariant
            i <= list@.len(),
            forall|j: int| 0 <= j < i ==> !too_many_lanes(#[trigger] param_views(list@)[j]),
        decreases list@.len() - i,
    {
        if str_eq(list[i].0.as_str(), "p") {
            match list[i].1 {
                Some(p) => {
                    if p > ARGON2_MAX_P_COST {
                        assert(too_many_lanes(param_views(list@)[i as int]));
                        return true;
                    }
                },
                None => {},
            }
        }
        i += 1;
    }
    false
}

/// Checks a password against a stored hash.
pub fn argon2_verify(password: &[u8], hash: &str) -> (r: Result<bool, HashError>)
    ensures
        r == verify_spec(password@, hash@),
{
    match phc_param_list(hash) {
        None => Err(HashError::Unparsable),
        Some(list) => {
            if any_lanes_oversized(&list) {
                return Ok(false);
            }
            match argon2_phc_verify(password, hash) {
                Some(b) => Ok(b),
                None => Err(HashError::Unparsable),
            }
        },
    }
}

/// A fresh app key where there is none yet: 32 random bytes.
pub fn ensure_app_key(exists: bool) -> (r: Option<[u8; 32]>)
    ensures
        r is None <==> exists,
{
    if exists {
        None
    } else {
        Some(random_array::<32>())
    }
}

/// The app key that the key file holds: its 32 bytes.
pub fn load_app_key(data: Option<&[u8]>) -> (r: Result<[u8; 32], KeyError>)
    ensures
        key_result_is(r, app_key_spec(data)),
{
    match data {
        None => Err(KeyError::AppKeyUnavailable),
        Some(bytes) => {
            if bytes.len() != AES_KEY_SIZE {
                return Err(KeyError::AppKeyUnavailable);
            }
            let mut key: [u8; 32] = [0u8; 32];
            let mut i: usize = 0;
            while i < 32
                invariant
                    i <= 32,
                    bytes@.len() == 32,
                    forall|j: int| 0 <= j < i ==> key@[j] == bytes@[j],
                decreases 32 - i,
            {
                key[i] = bytes[i];
                i += 1;
            }
            assert(key@ =~= bytes@);
            Ok(key)
        },
    }
}

pub open spec fn app_key_spec(data: Option<&[u8]>) -> Result<Seq<u8>, KeyError> {
    match data {
        Some(bytes) if bytes@.len() == AES_KEY_SIZE => Ok(bytes@),
        _ => Err(KeyError::AppKeyUnavailable),
    }
}

/// Overwrites a key with zeros.
pub fn wipe_key(key: &mut [u8; 32])
    ensures
        forall|i: int| 0 <= i < 32 ==> (#[trigger] final(key)@[i]) == 0u8,
{
    zeroize_array(key);
}

/// Key derivation is a function of the password, the salt and the costs:
/// two derivations from the same inputs end alike, with the same key or
/// with the same error.
pub proof fn lemma_derivation_is_deterministic(
    first: Result<[u8; 32], KeyError>,
    second: Result<[u8; 32], KeyError>,
    password: Seq<char>,
    salt: Seq<u8>,
    params: KdfParams,
)
    requires
        key_result_is(
            first,
            derive_spec(password, salt, params.m_cost, params.t_cost, params.p_cost),
        ),
        key_result_is(
            second,
            derive_spec(password, salt, params.m_cost, params.t_cost, params.p_cost),
        ),
    ensures
        first is Ok <==> second is Ok,
        first is Ok ==> first->Ok_0@ == second->Ok_0@,
        first is Err ==> first->Err_0 == second->Err_0,
{
}

/// Round trip: an envelope that [`encrypt_with_key`] made of a plaintext
/// is opened by [`decrypt_with_key`], under the same key, to that plaintext.
pub proof fn lemma_envelope_round_trip(
    key: Seq<u8>,
    plaintext: Seq<u8>,
    sealed: Result<Vec<u8>, CryptoError>,
    opened: Result<Vec<u8>, CryptoError>,
)
    requires
        sealed matches Ok(envelope) && opens_to(key, envelope@, plaintext) && bytes_result_is(
            opened,
            decrypt_spec(key, envelope@),
        ),
    ensures
        opened matches Ok(bytes) && bytes@ == plaintext,
{
}

} // verus!
