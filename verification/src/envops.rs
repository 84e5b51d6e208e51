//! Work on the credentials of one bucket: which key opens it, reading and
//! writing its encrypted map, and the commands on its entries.

use vstd::prelude::*;
use vstd::string::*;
use vstd::utf8::{encode_utf8, encode_utf8_decode_utf8, encode_utf8_valid_utf8};
use crate::cli::{CountArgs, ExportArgs, RunArgs};
use crate::config::{global_dir, set_dir, Config, SetMeta};
use crate::crypto::{
    app_key_spec, decrypt_spec, decrypt_with_key, derive_key_from_password,
    derive_key_from_password_and_salt, derive_lock_spec, derive_spec, encrypt_with_key,
    load_app_key, opens_to, CryptoError, KeyError, LockInfo, AES_GCM_MAX_PLAINTEXT,
    DEFAULT_ARGON2_M_COST, DEFAULT_ARGON2_P_COST, DEFAULT_ARGON2_T_COST,
};
use crate::codec::{
    decode_text, encode_map, lemma_codec_round_trip, lossy_text, plain_map,
    read_env_map_from_bytes, trim, trimmed, write_env_string,
};
use crate::envmap::{canonical_pairs, lemma_canonical_pairs, CredentialMap};
use crate::master_lock::{
    verify_master_password, verify_master_spec, MasterLockError, MasterLockInfo,
};
use crate::store::{is_first_match, names_project, resolve_project};
use crate::text::{lowercase, pair_views, str_eq, string_views, to_lowercase};

verus! {

/// Why a command on credentials fails.
#[derive(Debug, Clone, Copy, PartialEq, Eq, Structural)]
pub enum VaultError {
    /// No key could be had.
    Key(KeyError),
    /// The stored credentials could not be opened, or the new ones not sealed.
    Crypto(CryptoError),
    /// The master lock could not be asked.
    MasterLock(MasterLockError),
    /// A password is needed and none was given.
    PasswordRequired,
    /// The master lock is on and the password is not the master password.
    InvalidMasterPassword,
    /// The bucket holds no such key.
    KeyNotFound,
    /// The catalog holds no such project.
    ProjectNotFound,
    /// The file to write is there already.
    FileExists,
    /// Neither a project nor the shared bucket was named.
    TargetRequired,
}

impl VaultError {
    /// What to tell the user.
    pub open spec fn message_text(&self) -> Seq<char> {
        match *self {
            VaultError::Key(KeyError::AppKeyUnavailable) =>
                "read app.key: missing or of invalid size"@,
            VaultError::Key(KeyError::CorruptLock) =>
                "salt b64: the salt of the lock is invalid"@,
            VaultError::Key(KeyError::InvalidKdfParams) =>
                "params: Argon2 refuses the parameters"@,
            VaultError::Crypto(CryptoError::Malformed) => "cipher too short"@,
            VaultError::Crypto(CryptoError::AuthenticationFailed) =>
                "decrypt: wrong password or corrupted data"@,
            VaultError::Crypto(CryptoError::TooLong) => "encrypt: the data is too long"@,
            VaultError::MasterLock(MasterLockError::PasswordTooShort) =>
                "Master password must be at least 8 characters long"@,
            VaultError::MasterLock(MasterLockError::PasswordTooLong) =>
                "Master password is too long"@,
            VaultError::MasterLock(MasterLockError::PasswordMismatch) =>
                "Passwords do not match"@,
            VaultError::MasterLock(MasterLockError::VerificationFailed) =>
                "Master password verification required to disable"@,
            VaultError::MasterLock(MasterLockError::MissingHash) =>
                "Master lock enabled but no password hash found"@,
            VaultError::MasterLock(MasterLockError::CorruptHash) =>
                "parse hash: the stored password hash is invalid"@,
            VaultError::MasterLock(MasterLockError::CorruptState) =>
                "the stored master lock state is no valid JSON"@,
            VaultError::PasswordRequired => "password-required"@,
            VaultError::InvalidMasterPassword => "❌ Invalid master password"@,
            VaultError::KeyNotFound => "key not found"@,
            VaultError::ProjectNotFound => "project not found"@,
            VaultError::FileExists => "file exists, use --force"@,
            VaultError::TargetRequired => "--project or --global required"@,
        }
    }

    /// What to tell the user.
    pub fn message(&self) -> (m: String)
        ensures
            m@ == self.message_text(),
    {
        match self {
            VaultError::Key(e) => e.message(),
            VaultError::Crypto(e) => e.message(),
            VaultError::MasterLock(e) => e.message(),
            VaultError::PasswordRequired => "password-required".to_string(),
            VaultError::InvalidMasterPassword => "❌ Invalid master password".to_string(),
            VaultError::KeyNotFound => "key not found".to_string(),
            VaultError::ProjectNotFound => "project not found".to_string(),
            VaultError::FileExists => "file exists, use --force".to_string(),
            VaultError::TargetRequired => "--project or --global required".to_string(),
        }
    }
}

/// Where the key of a bucket comes from.
#[derive(Debug, Clone, Copy, PartialEq, Eq, Structural)]
pub enum KeySource {
    /// From the master password: the master lock is on.
    MasterPassword,
    /// From the bucket's own password: it has a lock.
    OwnPassword,
    /// The app key.
    AppKey,
}

/// The salt with which the key is derived from the master password. It is
/// the same everywhere, so that one password gives one key.
pub open spec fn master_salt() -> Seq<u8> {
    encode_utf8("safehold_master_lock_salt_v1"@)
}

/// Where the key of a bucket comes from: the master lock, while it is on,
/// goes before the bucket's own lock, and that before the app key.
pub fn key_source(master: &MasterLockInfo, has_lock: bool) -> (s: KeySource)
    ensures
        s == if master.enabled {
            KeySource::MasterPassword
        } else if has_lock {
            KeySource::OwnPassword
        } else {
            KeySource::AppKey
        },
{
    if master.enabled {
        KeySource::MasterPassword
    } else if has_lock {
        KeySource::OwnPassword
    } else {
        KeySource::AppKey
    }
}

pub open spec fn lift_key(r: Result<Seq<u8>, KeyError>) -> Result<Seq<u8>, VaultError> {
    match r {
        Ok(k) => Ok(k),
        Err(e) => Err(VaultError::Key(e)),
    }
}

/// The key of a bucket. While the master lock is on, it is derived from
/// the password, which has to pass the master lock, whatever lock the
/// bucket has itself. Else it is derived from the password with the
/// bucket's lock, or is the app key where the bucket has no lock.
pub open spec fn key_for_dir_spec(
    master: MasterLockInfo,
    lock: Option<&LockInfo>,
    password: Option<&str>,
    app_key: Option<&[u8]>,
) -> Result<Seq<u8>, VaultError> {
    if master.enabled {
        match password {
            None => Err(VaultError::PasswordRequired),
            Some(p) => match verify_master_spec(master, p@) {
                Err(e) => Err(VaultError::MasterLock(e)),
                Ok(false) => Err(VaultError::InvalidMasterPassword),
                Ok(true) => lift_key(
                    derive_spec(
                        p@,
                        master_salt(),
                        DEFAULT_ARGON2_M_COST,
                        DEFAULT_ARGON2_T_COST,
                        DEFAULT_ARGON2_P_COST,
                    ),
                ),
            },
        }
    } else {
        match lock {
            Some(l) => match password {
                None => Err(VaultError::PasswordRequired),
                Some(p) => lift_key(derive_lock_spec(p@, l.salt_b64@, l.params)),
            },
            None => lift_key(app_key_spec(app_key)),
        }
    }
}

pub open spec fn vault_key_is(r: Result<[u8; 32], VaultError>, s: Result<Seq<u8>, VaultError>)
    -> bool {
    match r {
        Ok(key) => s == Ok::<Seq<u8>, VaultError>(key@),
        Err(e) => s == Err::<Seq<u8>, VaultError>(e),
    }
}

fn lift(r: Result<[u8; 32], KeyError>) -> (v: Result<[u8; 32], VaultError>)
    ensures
        match r {
            Ok(k) => v == Ok::<[u8; 32], VaultError>(k),
            Err(e) => v == Err::<[u8; 32], VaultError>(VaultError::Key(e)),
        },
{
    match r {
        Ok(k) => Ok(k),
        Err(e) => Err(VaultError::Key(e)),
    }
}

/// Resolves the key of a bucket from the state of the master lock, the
/// bucket's lock if it has one, the password that was given, and the
/// content of the app key file if there is one.
pub fn load_key_for_dir(
    master: &MasterLockInfo,
    lock: Option<&LockInfo>,
    password: Option<&str>,
    app_key: Option<&[u8]>,
) -> (r: Result<[u8; 32], VaultError>)
    ensures
        vault_key_is(r, key_for_dir_spec(*master, lock, password, app_key)),
{
    if master.enabled {
        match password {
            None => Err(VaultError::PasswordRequired),
            Some(p) => match verify_master_password(master, p) {
                Err(e) => Err(VaultError::MasterLock(e)),
                Ok(false) => Err(VaultError::InvalidMasterPassword),
                Ok(true) => lift(
                    derive_key_from_password_and_salt(p, "safehold_master_lock_salt_v1".as_bytes()),
                ),
            },
        }
    } else {
        match lock {
            Some(l) => match password {
                None => Err(VaultError::PasswordRequired),
                Some(p) => lift(derive_key_from_password(p, l)),
            },
            None => lift(load_app_key(app_key)),
        }
    }
}

/// While the master lock is on, neither the bucket's own lock nor the app
/// key has a say in the key, and a password that does not pass the master
/// lock gives no key.
pub proof fn lemma_master_lock_overrides(
    master: MasterLockInfo,
    lock: Option<&LockInfo>,
    other_lock: Option<&LockInfo>,
    password: Option<&str>,
    app_key: Option<&[u8]>,
    other_app_key: Option<&[u8]>,
)
    requires
        master.enabled,
    ensures
        key_for_dir_spec(master, lock, password, app_key) == key_for_dir_spec(
            master,
            other_lock,
            password,
            other_app_key,
        ),
        key_for_dir_spec(master, lock, password, app_key) is Ok ==> password is Some
            && verify_master_spec(master, password->0@) == Ok::<bool, MasterLockError>(true),
{
}

/// The credentials that a stored blob holds, read with a key: none where
/// nothing is stored; else what the opened envelope decodes to.
pub open spec fn read_spec(key: Seq<u8>, enc: Seq<u8>) -> Result<
    Map<Seq<char>, Seq<char>>,
    VaultError,
> {
    if enc.len() == 0 {
        Ok(Map::empty())
    } else {
        match decrypt_spec(key, enc) {
            Err(e) => Err(VaultError::Crypto(e)),
            Ok(plaintext) => Ok(decode_text(lossy_text(plaintext))),
        }
    }
}

pub open spec fn map_result_is(
    r: Result<CredentialMap, VaultError>,
    s: Result<Map<Seq<char>, Seq<char>>, VaultError>,
) -> bool {
    match r {
        Ok(m) => s == Ok::<Map<Seq<char>, Seq<char>>, VaultError>(m@),
        Err(e) => s == Err::<Map<Seq<char>, Seq<char>>, VaultError>(e),
    }
}

/// Whether a blob is an envelope that opens under the key to the text of
/// the mapping.
pub open spec fn holds(key: Seq<u8>, blob: Seq<u8>, m: Map<Seq<char>, Seq<char>>) -> bool {
    opens_to(key, blob, encode_utf8(encode_map(m)))
}

/// Whether the text of a mapping can be sealed.
pub open spec fn fits(m: Map<Seq<char>, Seq<char>>) -> bool {
    encode_utf8(encode_map(m)).len() <= AES_GCM_MAX_PLAINTEXT
}

/// What was stored is read back: a blob that holds a finite mapping of
/// plain keys and values under a key is read, with that key, as that
/// mapping.
pub proof fn lemma_stored_reads_back(key: Seq<u8>, blob: Seq<u8>, m: Map<Seq<char>, Seq<char>>)
    requires
        holds(key, blob, m),
        m.dom().finite(),
        plain_map(m),
    ensures
        read_spec(key, blob) == Ok::<Map<Seq<char>, Seq<char>>, VaultError>(m),
{
    let text = encode_map(m);
    encode_utf8_valid_utf8(text);
    encode_utf8_decode_utf8(text);
    lemma_codec_round_trip(m);
}

/// Reads the credentials of a bucket from its stored blob; `enc` is empty
/// where nothing is stored.
pub fn read_env_map(key: &[u8; 32], enc: &[u8]) -> (r: Result<CredentialMap, VaultError>)
    ensures
        map_result_is(r, read_spec(key@, enc@)),
{
    if enc.len() == 0 {
        return Ok(CredentialMap::new());
    }
    match decrypt_with_key(key, enc) {
        Err(e) => Err(VaultError::Crypto(e)),
        Ok(plaintext) => Ok(read_env_map_from_bytes(plaintext.as_slice())),
    }
}

/// Makes the blob to store for the credentials of a bucket. A mapping of
/// plain keys and values is read back from it as it was.
pub fn write_env_map(key: &[u8; 32], map: &CredentialMap) -> (r: Result<Vec<u8>, VaultError>)
    ensures
        r is Ok <==> fits(map@),
        r matches Err(e) ==> e == VaultError::Crypto(CryptoError::TooLong),
        r matches Ok(blob) ==> holds(key@, blob@, map@) && (plain_map(map@) ==> read_spec(
            key@,
            blob@,
        ) == Ok::<Map<Seq<char>, Seq<char>>, VaultError>(map@)),
{
    let text = write_env_string(map);
    match encrypt_with_key(key, text.as_str().as_bytes()) {
        Err(e) => Err(VaultError::Crypto(e)),
        Ok(blob) => {
            proof {
                encode_utf8_valid_utf8(text@);
                encode_utf8_decode_utf8(text@);
            }
            Ok(blob)
        },
    }
}

/// Seals the credentials that a stored blob holds under another key, as
/// is due where a bucket loses its lock and goes over to the app key.
/// Where nothing is stored, nothing is to store.
pub fn reencrypt(old_key: &[u8; 32], new_key: &[u8; 32], enc: &[u8]) -> (r: Result<
    Vec<u8>,
    VaultError,
>)
    ensures
        enc@.len() == 0 ==> (r matches Ok(blob) && blob@.len() == 0),
        enc@.len() > 0 ==> match decrypt_spec(old_key@, enc@) {
            Err(e) => r matches Err(f) && f == VaultError::Crypto(e),
            Ok(plaintext) => match r {
                Ok(blob) => opens_to(new_key@, blob@, plaintext) && read_spec(new_key@, blob@)
                    == read_spec(old_key@, enc@),
                Err(f) => f == VaultError::Crypto(CryptoError::TooLong) && plaintext.len()
                    > AES_GCM_MAX_PLAINTEXT,
            },
        },
{
    if enc.len() == 0 {
        return Ok(Vec::new());
    }
    match decrypt_with_key(old_key, enc) {
        Err(e) => Err(VaultError::Crypto(e)),
        Ok(plaintext) => match encrypt_with_key(new_key, plaintext.as_slice()) {
            Err(e) => Err(VaultError::Crypto(e)),
            Ok(blob) => Ok(blob),
        },
    }
}

/// What a command that stores a changed mapping returns: the error of
/// reading, or the blob of the changed mapping.
pub open spec fn stored(
    r: Result<Vec<u8>, VaultError>,
    key: Seq<u8>,
    m: Map<Seq<char>, Seq<char>>,
) -> bool {
    match r {
        Ok(blob) => fits(m) && holds(key, blob@, m),
        Err(e) => !fits(m) && e == VaultError::Crypto(CryptoError::TooLong),
    }
}

/// Puts `value` under `name` in the credentials of a bucket and returns
/// the blob to store.
pub fn cmd_add(key: &[u8; 32], enc: &[u8], name: String, value: String) -> (r: Result<
    Vec<u8>,
    VaultError,
>)
    ensures
        match read_spec(key@, enc@) {
            Err(e) => r matches Err(f) && f == e,
            Ok(m) => stored(r, key@, m.insert(name@, value@)),
        },
{
    match read_env_map(key, enc) {
        Err(e) => Err(e),
        Ok(mut map) => {
            map.insert(name, value);
            write_env_map(key, &map)
        },
    }
}

/// The value under `name` in the credentials of a bucket.
pub fn cmd_get(key: &[u8; 32], enc: &[u8], name: &str) -> (r: Result<String, VaultError>)
    ensures
        match read_spec(key@, enc@) {
            Err(e) => r matches Err(f) && f == e,
            Ok(m) => if m.dom().contains(name@) {
                r matches Ok(v) && v@ == m[name@]
            } else {
                r matches Err(VaultError::KeyNotFound)
            },
        },
{
    match read_env_map(key, enc) {
        Err(e) => Err(e),
        Ok(map) => match map.get(name) {
            Some(v) => Ok(v.clone()),
            None => Err(VaultError::KeyNotFound),
        },
    }
}

/// The lines `key=value` of a sequence of pairs.
pub open spec fn listing(pairs: Seq<(Seq<char>, Seq<char>)>) -> Seq<Seq<char>> {
    pairs.map_values(|p: (Seq<char>, Seq<char>)| p.0 + seq!['='] + p.1)
}

/// The lines `key=value` of a mapping, in key order.
pub fn list_lines(map: &CredentialMap) -> (lines: Vec<String>)
    ensures
        string_views(lines@) == listing(canonical_pairs(map@)),
{
    let entries = map.entries();
    let ghost pairs = map.pairs();
    proof {
        lemma_canonical_pairs(pairs);
    }
    let mut lines: Vec<String> = Vec::new();
    let mut i: usize = 0;
    assert(listing(pairs).take(0) =~= Seq::empty());
    assert(string_views(lines@) =~= Seq::empty());
    while i < entries.len()
        invariant
            i <= entries@.len(),
            entries@.len() == pairs.len(),
            forall|j: int|
                0 <= j < entries@.len() ==> (#[trigger] entries@[j]).0@ == pairs[j].0
                    && entries@[j].1@ == pairs[j].1,
            string_views(lines@) == listing(pairs).take(i as int),
        decreases entries@.len() - i,
    {
        let mut line = entries[i].0.clone();
        line.push('=');
        line.append(entries[i].1.as_str());
        proof {
            assert(entries@[i as int].0@ == pairs[i as int].0);
            assert(line@ == listing(pairs)[i as int]);
            assert(string_views(lines@.push(line)) =~= string_views(lines@).push(line@));
            assert(listing(pairs).take(i as int).push(listing(pairs)[i as int]) =~= listing(
                pairs,
            ).take(i as int + 1));
        }
        lines.push(line);
        i += 1;
    }
    proof {
        assert(listing(pairs).take(i as int) =~= listing(pairs));
    }
    lines
}

/// The credentials of a bucket as lines `key=value`, in key order.
pub fn cmd_list(key: &[u8; 32], enc: &[u8]) -> (r: Result<Vec<String>, VaultError>)
    ensures
        match read_spec(key@, enc@) {
            Err(e) => r matches Err(f) && f == e,
            Ok(m) => r matches Ok(lines) && string_views(lines@) == listing(canonical_pairs(m)),
        },
{
    match read_env_map(key, enc) {
        Err(e) => Err(e),
        Ok(map) => Ok(list_lines(&map)),
    }
}

/// Takes `name` out of the credentials of a project and returns the blob
/// to store, or nothing where there is no such key: nothing is stored then.
pub fn cmd_delete(key: &[u8; 32], enc: &[u8], name: &str) -> (r: Result<
    Option<Vec<u8>>,
    VaultError,
>)
    ensures
        match read_spec(key@, enc@) {
            Err(e) => r matches Err(f) && f == e,
            Ok(m) => if m.dom().contains(name@) {
                match r {
                    Ok(Some(blob)) => fits(m.remove(name@)) && holds(key@, blob@, m.remove(name@)),
                    Ok(None) => false,
                    Err(e) => !fits(m.remove(name@)) && e == VaultError::Crypto(
                        CryptoError::TooLong,
                    ),
                }
            } else {
                r matches Ok(None)
            },
        },
{
    match read_env_map(key, enc) {
        Err(e) => Err(e),
        Ok(mut map) => match map.remove(name) {
            None => Ok(None),
            Some(_) => match write_env_map(key, &map) {
                Ok(blob) => Ok(Some(blob)),
                Err(e) => Err(e),
            },
        },
    }
}

/// Takes `name` out of the credentials of the shared bucket and returns
/// the blob to store. It is an error where there is no such key.
pub fn cmd_global_delete(key: &[u8; 32], enc: &[u8], name: &str) -> (r: Result<
    Vec<u8>,
    VaultError,
>)
    ensures
        match read_spec(key@, enc@) {
            Err(e) => r matches Err(f) && f == e,
            Ok(m) => if m.dom().contains(name@) {
                stored(r, key@, m.remove(name@))
            } else {
                r matches Err(VaultError::KeyNotFound)
            },
        },
{
    match read_env_map(key, enc) {
        Err(e) => Err(e),
        Ok(mut map) => match map.remove(name) {
            None => Err(VaultError::KeyNotFound),
            Some(_) => write_env_map(key, &map),
        },
    }
}

/// Puts `value` under `name` in the credentials of the shared bucket and
/// returns the blob to store.
pub fn cmd_global_add(key: &[u8; 32], enc: &[u8], name: String, value: String) -> (r: Result<
    Vec<u8>,
    VaultError,
>)
    ensures
        match read_spec(key@, enc@) {
            Err(e) => r matches Err(f) && f == e,
            Ok(m) => stored(r, key@, m.insert(name@, value@)),
        },
{
    cmd_add(key, enc, name, value)
}

/// The value under `name` in the credentials of the shared bucket.
pub fn cmd_global_get(key: &[u8; 32], enc: &[u8], name: &str) -> (r: Result<String, VaultError>)
    ensures
        match read_spec(key@, enc@) {
            Err(e) => r matches Err(f) && f == e,
            Ok(m) => if m.dom().contains(name@) {
                r matches Ok(v) && v@ == m[name@]
            } else {
                r matches Err(VaultError::KeyNotFound)
            },
        },
{
    cmd_get(key, enc, name)
}

/// The credentials of the shared bucket as lines `key=value`, in key order.
pub fn cmd_global_list(key: &[u8; 32], enc: &[u8]) -> (r: Result<Vec<String>, VaultError>)
    ensures
        match read_spec(key@, enc@) {
            Err(e) => r matches Err(f) && f == e,
            Ok(m) => r matches Ok(lines) && string_views(lines@) == listing(canonical_pairs(m)),
        },
{
    cmd_list(key, enc)
}

/// Puts `value` under `name`, which must be there already, in the
/// credentials of the shared bucket and returns the blob to store.
pub fn cmd_global_update(key: &[u8; 32], enc: &[u8], name: String, value: String) -> (r: Result<
    Vec<u8>,
    VaultError,
>)
    ensures
        match read_spec(key@, enc@) {
            Err(e) => r matches Err(f) && f == e,
            Ok(m) => if m.dom().contains(name@) {
                stored(r, key@, m.insert(name@, value@))
            } else {
                r matches Err(VaultError::KeyNotFound)
            },
        },
{
    cmd_update(key, enc, name, value)
}

/// Puts `value` under `name`, which must be there already, and returns the
/// blob to store.
pub fn cmd_update(key: &[u8; 32], enc: &[u8], name: String, value: String) -> (r: Result<
    Vec<u8>,
    VaultError,
>)
    ensures
        match read_spec(key@, enc@) {
            Err(e) => r matches Err(f) && f == e,
            Ok(m) => if m.dom().contains(name@) {
                stored(r, key@, m.insert(name@, value@))
            } else {
                r matches Err(VaultError::KeyNotFound)
            },
        },
{
    match read_env_map(key, enc) {
        Err(e) => Err(e),
        Ok(mut map) => {
            if !map.contains_key(name.as_str()) {
                return Err(VaultError::KeyNotFound);
            }
            map.insert(name, value);
            write_env_map(key, &map)
        },
    }
}

/// Where the files of a bucket are, below the data directory: the shared
/// bucket's for `global`, else those of the first project that
/// `id_or_name` is the id or the name of.
pub fn resolve_set_dir(cfg: &Config, id_or_name: &str) -> (r: Result<Vec<String>, VaultError>)
    ensures
        id_or_name@ == "global"@ ==> (r matches Ok(path) && string_views(path@) == seq!["global"@]),
        id_or_name@ != "global"@ ==> match r {
            Ok(path) => exists|i: int| #[trigger]
                is_first_match(cfg.sets@, id_or_name@, i) && string_views(path@) == seq![
                    "credentials"@,
                    cfg.sets@[i].id@,
                ],
            Err(e) => e == VaultError::ProjectNotFound && forall|j: int|
                0 <= j < cfg.sets@.len() ==> !names_project(#[trigger] cfg.sets@[j], id_or_name@),
        },
{
    if str_eq(id_or_name, "global") {
        return Ok(global_dir());
    }
    match resolve_project(cfg.sets.as_slice(), id_or_name) {
        Some(i) => {
            assert(is_first_match(cfg.sets@, id_or_name@, i as int));
            Ok(set_dir(cfg.sets[i].id.as_str()))
        },
        None => Err(VaultError::ProjectNotFound),
    }
}

/// Whether an answer confirms: `yes`, in any case, with whitespace around
/// it. Forcing needs no answer.
pub open spec fn confirmed(force: bool, answer: Option<&str>) -> bool {
    force || (answer matches Some(a) && lowercase(trim(a@)) == "yes"@)
}

/// Whether a lowercase answer is `yes`.
pub fn is_yes_word(lower: &str) -> (r: bool)
    ensures
        r == (lower@ == "yes"@),
{
    str_eq(lower, "yes")
}

/// Whether a destructive command may go on.
pub fn ask_confirmation(force: bool, answer: Option<&str>) -> (r: bool)
    ensures
        r == confirmed(force, answer),
{
    if force {
        return true;
    }
    match answer {
        None => false,
        Some(a) => {
            let t = trimmed(a);
            let lower = to_lowercase(t.as_str());
            is_yes_word(lower.as_str())
        },
    }
}

/// What a command that deletes files does.
#[derive(Debug, Clone, Copy, PartialEq, Eq, Structural)]
pub enum Destruction {
    /// There is nothing to delete.
    Nothing,
    /// The confirmation was not given.
    Cancelled,
    /// The files are to be deleted.
    Proceed,
}

/// `clean-cache`: whether the cache files, `total_files` of them, are to
/// be deleted.
pub fn cmd_clean_cache(total_files: usize, force: bool, answer: Option<&str>) -> (r: Destruction)
    ensures
        r == if total_files == 0 {
            Destruction::Nothing
        } else if confirmed(force, answer) {
            Destruction::Proceed
        } else {
            Destruction::Cancelled
        },
{
    if total_files == 0 {
        Destruction::Nothing
    } else if ask_confirmation(force, answer) {
        Destruction::Proceed
    } else {
        Destruction::Cancelled
    }
}

/// `delete-all`: whether the data directory is to be deleted. Unless
/// forced, the answer has to be the sentence `DELETE ALL MY DATA`, with
/// nothing but whitespace around it.
pub fn cmd_delete_all(base_exists: bool, force: bool, answer: Option<&str>) -> (r: Destruction)
    ensures
        r == if !base_exists {
            Destruction::Nothing
        } else if force || (answer matches Some(a) && trim(a@) == "DELETE ALL MY DATA"@) {
            Destruction::Proceed
        } else {
            Destruction::Cancelled
        },
{
    if !base_exists {
        return Destruction::Nothing;
    }
    if force {
        return Destruction::Proceed;
    }
    match answer {
        None => Destruction::Cancelled,
        Some(a) => {
            let t = trimmed(a);
            if str_eq(t.as_str(), "DELETE ALL MY DATA") {
                Destruction::Proceed
            } else {
                Destruction::Cancelled
            }
        },
    }
}

/// `clean`: whether an entry of the directory tree is a stray plaintext
/// file of credentials.
pub fn cmd_clean(is_file: bool, file_name: &str) -> (r: bool)
    ensures
        r == (is_file && file_name@ == ".env"@),
{
    is_file && str_eq(file_name, ".env")
}

/// The directories, below the data directory, that hold cache files.
pub fn cache_dirs() -> (dirs: Vec<String>)
    ensures
        string_views(dirs@) == seq!["cache"@, "tmp"@, "temp"@, ".cache"@],
{
    let mut dirs: Vec<String> = Vec::new();
    dirs.push("cache".to_string());
    dirs.push("tmp".to_string());
    dirs.push("temp".to_string());
    dirs.push(".cache".to_string());
    assert(string_views(dirs@) =~= seq!["cache"@, "tmp"@, "temp"@, ".cache"@]);
    dirs
}

/// What `export` is to write.
#[derive(Debug)]
pub struct ExportPlan {
    pub file: String,
    pub content: String,
    /// Whether the file is to be removed again on interrupt.
    pub temporary: bool,
}

/// The bucket that `export` reads: the shared one, or a project.
pub fn export_target(args: &ExportArgs) -> (r: Result<String, VaultError>)
    ensures
        args.global ==> (r matches Ok(t) && t@ == "global"@),
        !args.global ==> match args.project {
            Some(p) => r matches Ok(t) && t@ == p@,
            None => r matches Err(VaultError::TargetRequired),
        },
{
    if args.global {
        Ok("global".to_string())
    } else {
        match &args.project {
            Some(p) => Ok(p.clone()),
            None => Err(VaultError::TargetRequired),
        }
    }
}

/// The file that `export` writes: `.env` where none is named.
pub fn export_file(args: &ExportArgs) -> (file: String)
    ensures
        file@ == match args.file {
            Some(f) => f@,
            None => ".env"@,
        },
{
    match &args.file {
        Some(f) => f.clone(),
        None => ".env".to_string(),
    }
}

/// `export`: the file to write and its content. A file that is there
/// already is only replaced where that is forced.
pub fn cmd_export(args: &ExportArgs, map: &CredentialMap, file_exists: bool) -> (r: Result<
    ExportPlan,
    VaultError,
>)
    ensures
        r is Err <==> file_exists && !args.force,
        r matches Err(e) ==> e == VaultError::FileExists,
        r matches Ok(plan) ==> {
            &&& plan.file@ == match args.file {
                Some(f) => f@,
                None => ".env"@,
            }
            &&& plan.content@ == encode_map(map@)
            &&& plan.temporary == args.temp
        },
{
    if file_exists && !args.force {
        return Err(VaultError::FileExists);
    }
    Ok(ExportPlan { file: export_file(args), content: write_env_string(map), temporary: args.temp })
}

/// What `run` is to start.
#[derive(Debug)]
pub struct RunPlan {
    pub program: String,
    pub args: Vec<String>,
    /// The variables to add to the environment.
    pub env: Vec<(String, String)>,
}

/// `run`: the program, its arguments and the variables for it: the
/// credentials of the project and, where asked for, those of the shared
/// bucket; where both hold a key, the shared bucket's value is taken.
/// There is no plan for an empty command.
pub fn cmd_run(args: &RunArgs, map: CredentialMap, global: Option<&CredentialMap>) -> (r: Option<
    RunPlan,
>)
    ensures
        r is Some <==> args.command@.len() > 0,
        r matches Some(plan) ==> {
            &&& plan.program@ == args.command@[0]@
            &&& string_views(plan.args@) == string_views(args.command@).skip(1)
            &&& pair_views(plan.env@) == canonical_pairs(
                match global {
                    Some(g) if args.with_global => map@.union_prefer_right(g@),
                    _ => map@,
                },
            )
        },
{
    if args.command.len() == 0 {
        return None;
    }
    let mut map = map;
    if args.with_global {
        match global {
            Some(g) => {
                map.extend(g);
            },
            None => {},
        }
    }
    let program = args.command[0].clone();
    let mut rest: Vec<String> = Vec::new();
    let mut i: usize = 1;
    assert(string_views(rest@) =~= string_views(args.command@).skip(1).take(0));
    while i < args.command.len()
        invariant
            1 <= i <= args.command@.len(),
            string_views(rest@) == string_views(args.command@).skip(1).take(i - 1),
        decreases args.command@.len() - i,
    {
        let a = args.command[i].clone();
        proof {
            assert(string_views(rest@.push(a)) =~= string_views(rest@).push(a@));
            assert(string_views(args.command@).skip(1).take(i - 1).push(a@) =~= string_views(
                args.command@,
            ).skip(1).take(i as int));
        }
        rest.push(a);
        i += 1;
    }
    let env = map.entries();
    proof {
        assert(string_views(args.command@).skip(1).take(i - 1) =~= string_views(args.command@).skip(
            1,
        ));
        lemma_canonical_pairs(map.pairs());
        assert(pair_views(env@) =~= map.pairs());
    }
    Some(RunPlan { program, args: rest, env })
}

/// The credentials counted in one project, or none where they could not
/// be read.
#[derive(Debug)]
pub struct ProjectCount {
    pub name: String,
    pub id: String,
    pub count: Option<usize>,
}

/// What `count` reports over all projects.
#[derive(Debug)]
pub struct CountSummary {
    /// Credentials in all buckets that were counted.
    pub total: u128,
    /// Credentials in the shared bucket, where it was counted.
    pub global_count: usize,
    /// Projects in the catalog.
    pub projects: usize,
}

pub open spec fn count_of(c: Option<usize>) -> nat {
    match c {
        Some(n) => n as nat,
        None => 0,
    }
}

/// The credentials counted in the projects.
pub open spec fn sum_counts(counts: Seq<ProjectCount>) -> nat
    decreases counts.len(),
{
    if counts.len() == 0 {
        0
    } else {
        sum_counts(counts.drop_last()) + count_of(counts.last().count)
    }
}

proof fn lemma_sum_bound(counts: Seq<ProjectCount>)
    ensures
        sum_counts(counts) <= counts.len() * usize::MAX,
    decreases counts.len(),
{
    if counts.len() > 0 {
        lemma_sum_bound(counts.drop_last());
        assert((counts.len() - 1) * usize::MAX + usize::MAX == counts.len() * usize::MAX)
            by (nonlinear_arith);
    }
}

/// `count` over all projects: buckets that could not be read count
/// nothing; the shared bucket counts where it is asked for.
pub fn cmd_count(args: &CountArgs, counts: &Vec<ProjectCount>, global: Option<usize>) -> (r:
    CountSummary)
    ensures
        r.projects == counts@.len(),
        r.global_count == if args.include_global {
            count_of(global)
        } else {
            0
        },
        r.total == sum_counts(counts@) + r.global_count,
{
    let global_count: usize = if args.include_global {
        match global {
            Some(n) => n,
            None => 0,
        }
    } else {
        0
    };
    let mut total: u128 = global_count as u128;
    let mut i: usize = 0;
    assert(counts@.take(0) =~= Seq::empty());
    while i < counts.len()
        invariant
            i <= counts@.len(),
            total == sum_counts(counts@.take(i as int)) + global_count,
        decreases counts@.len() - i,
    {
        proof {
            assert(counts@.take(i as int + 1).drop_last() =~= counts@.take(i as int));
            lemma_sum_bound(counts@.take(i as int));
            assert(i * usize::MAX + 2 * usize::MAX <= u128::MAX) by (nonlinear_arith)
                requires
                    i <= usize::MAX,
                    usize::MAX <= 0xFFFF_FFFF_FFFF_FFFF,
            ;
        }
        match counts[i].count {
            Some(n) => {
                total = total + n as u128;
            },
            None => {},
        }
        i += 1;
    }
    proof {
        assert(counts@.take(i as int) =~= counts@);
    }
    CountSummary { total, global_count, projects: counts.len() }
}

/// The lines of `show-all` for one bucket: its credentials, indented.
pub fn show_lines(map: &CredentialMap) -> (lines: Vec<String>)
    ensures
        string_views(lines@) == listing(canonical_pairs(map@)).map_values(
            |l: Seq<char>| "  "@ + l,
        ),
{
    let plain = list_lines(map);
    let ghost want = string_views(plain@).map_values(|l: Seq<char>| "  "@ + l);
    let mut lines: Vec<String> = Vec::new();
    let mut i: usize = 0;
    assert(string_views(lines@) =~= want.take(0));
    while i < plain.len()
        invariant
            i <= plain@.len(),
            want == string_views(plain@).map_values(|l: Seq<char>| "  "@ + l),
            string_views(lines@) == want.take(i as int),
        decreases plain@.len() - i,
    {
        let mut line = "  ".to_string();
        line.append(plain[i].as_str());
        proof {
            assert(string_views(lines@.push(line)) =~= string_views(lines@).push(line@));
            assert(want.take(i as int).push(want[i as int]) =~= want.take(i as int + 1));
        }
        lines.push(line);
        i += 1;
    }
    proof {
        assert(want.take(i as int) =~= want);
    }
    lines
}

/// The heading of `show-all` for a project.
pub fn show_heading(project: &SetMeta) -> (line: String)
    ensures
        line@ == "PROJECT "@ + project.id@ + " ("@ + project.name@ + ")"@,
{
    let mut line = "PROJECT ".to_string();
    line.append(project.id.as_str());
    line.append(" (");
    line.append(project.name.as_str());
    line.append(")");
    line
}

} // verus!
