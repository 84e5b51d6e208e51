//! The master lock: one password that, while the lock is on, stands before
//! every project in place of the projects' own locks.

use vstd::prelude::*;
use vstd::string::*;
use vstd::utf8::encode_utf8;
use crate::crypto::{argon2_hash, argon2_verify, verify_spec, ARGON2_MAX_INPUT};
use crate::text::{pair_views, str_eq, string_views};

verus! {

/// The fewest characters of a master password.
pub const MIN_MASTER_PASSWORD_CHARS: usize = 8;

/// The stored state of the master lock.
#[derive(Debug, Clone)]
pub struct MasterLockInfo {
    pub enabled: bool,
    /// The password hash against which the master password is checked.
    pub password_hash: Option<String>,
}

/// Why the master lock refuses.
#[derive(Debug, Clone, Copy, PartialEq, Eq, Structural)]
pub enum MasterLockError {
    /// The password has fewer than 8 characters.
    PasswordTooShort,
    /// The password is longer than can be hashed.
    PasswordTooLong,
    /// Password and confirmation differ.
    PasswordMismatch,
    /// The password is not the master password.
    VerificationFailed,
    /// The lock is on and holds no hash.
    MissingHash,
    /// The stored hash is no password hash.
    CorruptHash,
    /// The stored state is no JSON.
    CorruptState,
}

impl MasterLockError {
    /// What to tell the user.
    pub fn message(&self) -> (m: String)
        ensures
            m@ == match *self {
                MasterLockError::PasswordTooShort =>
                    "Master password must be at least 8 characters long"@,
                MasterLockError::PasswordTooLong => "Master password is too long"@,
                MasterLockError::PasswordMismatch => "Passwords do not match"@,
                MasterLockError::VerificationFailed =>
                    "Master password verification required to disable"@,
                MasterLockError::MissingHash => "Master lock enabled but no password hash found"@,
                MasterLockError::CorruptHash => "parse hash: the stored password hash is invalid"@,
                MasterLockError::CorruptState => "the stored master lock state is no valid JSON"@,
            },
    {
        match self {
            MasterLockError::PasswordTooShort =>
                "Master password must be at least 8 characters long".to_string(),
            MasterLockError::PasswordTooLong => "Master password is too long".to_string(),
            MasterLockError::PasswordMismatch => "Passwords do not match".to_string(),
            MasterLockError::VerificationFailed =>
                "Master password verification required to disable".to_string(),
            MasterLockError::MissingHash =>
                "Master lock enabled but no password hash found".to_string(),
            MasterLockError::CorruptHash =>
                "parse hash: the stored password hash is invalid".to_string(),
            MasterLockError::CorruptState =>
                "the stored master lock state is no valid JSON".to_string(),
        }
    }
}

/// What a request to pass the master lock leads to.
#[derive(Debug)]
pub enum AccessStep {
    /// The lock is off.
    NotNeeded,
    /// The password has to be asked for.
    Ask,
    /// The password was wrong and has to be asked for again.
    Retry,
    /// The password was right.
    Granted(String),
}

/// What `master-lock` did.
#[derive(Debug)]
pub enum MasterLockOutcome {
    AlreadyEnabled,
    AlreadyDisabled,
    /// A new password and its confirmation have to be asked for.
    AskNewPassword,
    /// The master password has to be asked for.
    AskPassword,
    /// The password was wrong and has to be asked for again.
    Retry,
    /// The lock is on now; the state is to be stored.
    Enabled(MasterLockInfo),
    /// The lock is off now; the state is to be stored.
    Disabled(MasterLockInfo),
    /// Nothing was asked for but the status.
    Status(Vec<(String, String)>),
}

/// The members `enabled`, where it is a boolean, and `password_hash`, where
/// it is a string, of the JSON value that a text holds. `None` where the
/// text is no JSON.
pub uninterp spec fn master_lock_fields(text: Seq<char>) -> Option<
    (Option<bool>, Option<Seq<char>>),
>;

/// The pretty-printed JSON object with the member `enabled` and, where one
/// is given, the member `password_hash`: a string, or null.
pub uninterp spec fn master_lock_json(
    enabled: bool,
    password_hash: Option<Option<Seq<char>>>,
) -> Option<Seq<char>>;

pub open spec fn opt_view(s: Option<String>) -> Option<Seq<char>> {
    match s {
        Some(t) => Some(t@),
        None => None,
    }
}

pub open spec fn opt_opt_view(s: Option<Option<&str>>) -> Option<Option<Seq<char>>> {
    match s {
        Some(Some(t)) => Some(Some(t@)),
        Some(None) => Some(None),
        None => None,
    }
}

/// `serde_json::from_str` to a `Value`, then `Value::get` with
/// `Value::as_bool` and `Value::as_str`.
#[verifier::external_body]
fn read_master_lock_json(data: &str) -> (r: Option<(Option<bool>, Option<String>)>)
    ensures
        r matches Some(f) ==> master_lock_fields(data@) == Some((f.0, opt_view(f.1))),
        r is None ==> master_lock_fields(data@) is None,
{
    let json: serde_json::Value = serde_json::from_str(data).ok()?;
    let enabled = json.get("enabled").and_then(|v| v.as_bool());
    let hash = json.get("password_hash").and_then(|v| v.as_str()).map(|s| s.to_string());
    Some((enabled, hash))
}

/// `serde_json::to_string_pretty` of an object built with
/// `serde_json::Map::insert`.
#[verifier::external_body]
fn write_master_lock_json(enabled: bool, password_hash: Option<Option<&str>>) -> (r: Option<
    String,
>)
    ensures
        r matches Some(t) ==> master_lock_json(enabled, opt_opt_view(password_hash)) == Some(t@),
        r is None ==> master_lock_json(enabled, opt_opt_view(password_hash)) is None,
{
    let mut map = serde_json::Map::new();
    map.insert("enabled".to_string(), serde_json::Value::Bool(enabled));
    if let Some(hash) = password_hash {
        let value = hash.map_or(serde_json::Value::Null, |h| serde_json::Value::String(h.to_string()));
        map.insert("password_hash".to_string(), value);
    }
    serde_json::to_string_pretty(&serde_json::Value::Object(map)).ok()
}

impl MasterLockInfo {
    /// The lock is on exactly where a hash is held.
    pub open spec fn wf(&self) -> bool {
        self.enabled <==> self.password_hash is Some
    }

    /// The state of a lock that was never turned on.
    pub fn disabled() -> (info: MasterLockInfo)
        ensures
            !info.enabled,
            info.password_hash is None,
    {
        MasterLockInfo { enabled: false, password_hash: None }
    }
}

/// Where the state of the master lock is stored, below the data directory.
pub fn master_lock_path() -> (path: Vec<String>)
    ensures
        string_views(path@) == seq!["master_lock.json"@],
{
    let mut path: Vec<String> = Vec::new();
    path.push("master_lock.json".to_string());
    assert(string_views(path@) =~= seq!["master_lock.json"@]);
    path
}

/// The state that the two stored members stand for: off where `enabled`
/// is missing.
pub fn master_lock_from_fields(enabled: Option<bool>, password_hash: Option<String>) -> (info:
    MasterLockInfo)
    ensures
        info.enabled == (enabled == Some(true)),
        info.password_hash == password_hash,
{
    let enabled = match enabled {
        Some(b) => b,
        None => false,
    };
    MasterLockInfo { enabled, password_hash }
}

/// The state of the master lock from the stored text; off where nothing is
/// stored (`None`).
pub fn load_master_lock_info(data: Option<&str>) -> (r: Result<MasterLockInfo, MasterLockError>)
    ensures
        match data {
            None => r matches Ok(info) && !info.enabled && info.password_hash is None,
            Some(text) => match master_lock_fields(text@) {
                None => r matches Err(MasterLockError::CorruptState),
                Some(f) => r matches Ok(info) && info.enabled == (f.0 == Some(true)) && opt_view(
                    info.password_hash,
                ) == f.1,
            },
        },
{
    match data {
        None => Ok(MasterLockInfo::disabled()),
        Some(text) => match read_master_lock_json(text) {
            None => Err(MasterLockError::CorruptState),
            Some(f) => Ok(master_lock_from_fields(f.0, f.1)),
        },
    }
}

/// The text to store for a state: with the hash while the lock is on,
/// without it otherwise.
pub open spec fn stored_text(info: MasterLockInfo) -> Option<Seq<char>> {
    if info.enabled {
        master_lock_json(true, Some(opt_view(info.password_hash)))
    } else {
        master_lock_json(false, None)
    }
}

/// The text to store for a state.
pub fn save_master_lock_info(info: &MasterLockInfo) -> (r: Option<String>)
    ensures
        opt_view(r) == stored_text(*info),
{
    if info.enabled {
        match &info.password_hash {
            Some(h) => write_master_lock_json(true, Some(Some(h.as_str()))),
            None => write_master_lock_json(true, Some(None)),
        }
    } else {
        write_master_lock_json(false, None)
    }
}

/// Whether the master lock is on; it is not where its state cannot be read.
pub fn is_master_lock_enabled(loaded: &Result<MasterLockInfo, MasterLockError>) -> (r: bool)
    ensures
        r == (loaded matches Ok(info) && info.enabled),
{
    match loaded {
        Ok(info) => info.enabled,
        Err(_) => false,
    }
}

/// What checking a password against the master lock gives: yes while the
/// lock is off; else what the stored hash says.
pub open spec fn verify_master_spec(info: MasterLockInfo, password: Seq<char>) -> Result<
    bool,
    MasterLockError,
> {
    if !info.enabled {
        Ok(true)
    } else {
        match info.password_hash {
            None => Err(MasterLockError::MissingHash),
            Some(hash) => match verify_spec(encode_utf8(password), hash@) {
                Ok(b) => Ok(b),
                Err(_) => Err(MasterLockError::CorruptHash),
            },
        }
    }
}

/// Whether the master lock lets the password pass.
pub open spec fn master_accepts(info: MasterLockInfo, password: Seq<char>) -> bool {
    verify_master_spec(info, password) == Ok::<bool, MasterLockError>(true)
}

/// Checks a password against the master lock.
pub fn verify_master_password(info: &MasterLockInfo, password: &str) -> (r: Result<
    bool,
    MasterLockError,
>)
    ensures
        r == verify_master_spec(*info, password@),
{
    if !info.enabled {
        return Ok(true);
    }
    match &info.password_hash {
        None => Err(MasterLockError::MissingHash),
        Some(hash) => match argon2_verify(password.as_bytes(), hash.as_str()) {
            Ok(b) => Ok(b),
            Err(_) => Err(MasterLockError::CorruptHash),
        },
    }
}

/// Turns the master lock on with `password`: the new state holds a fresh
/// hash of it and lets it pass. Existing data is not touched.
pub fn enable_master_lock(password: &str) -> (r: Result<MasterLockInfo, MasterLockError>)
    ensures
        r matches Err(e) ==> e == (if password@.len() < MIN_MASTER_PASSWORD_CHARS {
            MasterLockError::PasswordTooShort
        } else {
            MasterLockError::PasswordTooLong
        }),
        r is Ok <==> password@.len() >= MIN_MASTER_PASSWORD_CHARS && encode_utf8(password@).len()
            <= ARGON2_MAX_INPUT,
        r matches Ok(info) ==> info.enabled && info.wf() && master_accepts(info, password@),
{
    if password.unicode_len() < MIN_MASTER_PASSWORD_CHARS {
        return Err(MasterLockError::PasswordTooShort);
    }
    match argon2_hash(password.as_bytes()) {
        Err(_) => Err(MasterLockError::PasswordTooLong),
        Ok(hash) => Ok(MasterLockInfo { enabled: true, password_hash: Some(hash) }),
    }
}

/// Turns the master lock off, if `password` passes it.
pub fn disable_master_lock(info: &MasterLockInfo, password: &str) -> (r: Result<
    MasterLockInfo,
    MasterLockError,
>)
    ensures
        r is Ok <==> master_accepts(*info, password@),
        r matches Ok(off) ==> !off.enabled && off.password_hash is None,
        r matches Err(e) ==> e == MasterLockError::VerificationFailed,
{
    match verify_master_password(info, password) {
        Ok(true) => Ok(MasterLockInfo::disabled()),
        _ => Err(MasterLockError::VerificationFailed),
    }
}

/// One step of passing the master lock: `attempt` is the password that was
/// entered, if one was asked for already.
pub fn prompt_master_password_if_needed(info: &MasterLockInfo, attempt: Option<String>) -> (r:
    Result<AccessStep, MasterLockError>)
    ensures
        !info.enabled ==> r matches Ok(AccessStep::NotNeeded),
        info.enabled && attempt is None ==> r matches Ok(AccessStep::Ask),
        info.enabled ==> (attempt matches Some(p) ==> match verify_master_spec(*info, p@) {
            Ok(true) => r matches Ok(AccessStep::Granted(q)) && q == p,
            Ok(false) => r matches Ok(AccessStep::Retry),
            Err(e) => r matches Err(f) && f == e,
        }),
{
    if !info.enabled {
        return Ok(AccessStep::NotNeeded);
    }
    match attempt {
        None => Ok(AccessStep::Ask),
        Some(p) => match verify_master_password(info, p.as_str()) {
            Ok(true) => Ok(AccessStep::Granted(p)),
            Ok(false) => Ok(AccessStep::Retry),
            Err(e) => Err(e),
        },
    }
}

/// One step of passing the master lock before any work on a project.
pub fn check_master_access(info: &MasterLockInfo, attempt: Option<String>) -> (r: Result<
    AccessStep,
    MasterLockError,
>)
    ensures
        !info.enabled ==> r matches Ok(AccessStep::NotNeeded),
        info.enabled && attempt is None ==> r matches Ok(AccessStep::Ask),
        info.enabled ==> (attempt matches Some(p) ==> match verify_master_spec(*info, p@) {
            Ok(true) => r matches Ok(AccessStep::Granted(q)) && q == p,
            Ok(false) => r matches Ok(AccessStep::Retry),
            Err(e) => r matches Err(f) && f == e,
        }),
{
    prompt_master_password_if_needed(info, attempt)
}

/// The rows of the status of the master lock.
pub open spec fn status_rows(enabled: bool) -> Seq<(Seq<char>, Seq<char>)> {
    if enabled {
        seq![
            ("Status"@, "🔒 ENABLED"@),
            ("Protection"@, "ALL projects require master password"@),
            ("Security"@, "High - Unified password protection"@),
        ]
    } else {
        seq![
            ("Status"@, "🔓 DISABLED"@),
            ("Protection"@, "Projects use individual lock settings"@),
            ("Security"@, "Standard - Per-project passwords"@),
        ]
    }
}

/// The status of the master lock, as rows of a name and a text.
pub fn display_master_lock_status(info: &MasterLockInfo) -> (rows: Vec<(String, String)>)
    ensures
        pair_views(rows@) == status_rows(info.enabled),
{
    let mut rows: Vec<(String, String)> = Vec::new();
    if info.enabled {
        rows.push(("Status".to_string(), "🔒 ENABLED".to_string()));
        rows.push(("Protection".to_string(), "ALL projects require master password".to_string()));
        rows.push(("Security".to_string(), "High - Unified password protection".to_string()));
    } else {
        rows.push(("Status".to_string(), "🔓 DISABLED".to_string()));
        rows.push(("Protection".to_string(), "Projects use individual lock settings".to_string()));
        rows.push(("Security".to_string(), "Standard - Per-project passwords".to_string()));
    }
    assert(pair_views(rows@) =~= status_rows(info.enabled));
    rows
}

/// `master-lock`: enables (`Some(true)`), disables (`Some(false)`) or
/// shows the status (`None`). `password` is what was entered, if it was
/// asked for already; `confirm` its repetition, for enabling.
pub fn cmd_master_lock(
    info: &MasterLockInfo,
    action: Option<bool>,
    password: Option<&str>,
    confirm: Option<&str>,
) -> (r: Result<MasterLockOutcome, MasterLockError>)
    ensures
        action is None ==> (r matches Ok(MasterLockOutcome::Status(rows)) && pair_views(rows@)
            == status_rows(info.enabled)),
        action == Some(true) && info.enabled ==> r matches Ok(MasterLockOutcome::AlreadyEnabled),
        action == Some(true) && !info.enabled ==> match (password, confirm) {
            (Some(p), Some(c)) => if p@ != c@ {
                r matches Err(MasterLockError::PasswordMismatch)
            } else if p@.len() < MIN_MASTER_PASSWORD_CHARS {
                r matches Err(MasterLockError::PasswordTooShort)
            } else if encode_utf8(p@).len() > ARGON2_MAX_INPUT {
                r matches Err(MasterLockError::PasswordTooLong)
            } else {
                r matches Ok(MasterLockOutcome::Enabled(on)) && on.enabled && on.wf()
                    && master_accepts(on, p@)
            },
            _ => r matches Ok(MasterLockOutcome::AskNewPassword),
        },
        action == Some(false) && !info.enabled ==> r matches Ok(
            MasterLockOutcome::AlreadyDisabled,
        ),
        action == Some(false) && info.enabled ==> match password {
            None => r matches Ok(MasterLockOutcome::AskPassword),
            Some(p) => match verify_master_spec(*info, p@) {
                Ok(true) => r matches Ok(MasterLockOutcome::Disabled(off)) && !off.enabled
                    && off.password_hash is None,
                Ok(false) => r matches Ok(MasterLockOutcome::Retry),
                Err(e) => r matches Err(f) && f == e,
            },
        },
{
    match action {
        None => Ok(MasterLockOutcome::Status(display_master_lock_status(info))),
        Some(true) => {
            if info.enabled {
                return Ok(MasterLockOutcome::AlreadyEnabled);
            }
            match (password, confirm) {
                (Some(p), Some(c)) => {
                    if !str_eq(p, c) {
                        return Err(MasterLockError::PasswordMismatch);
                    }
                    match enable_master_lock(p) {
                        Ok(on) => Ok(MasterLockOutcome::Enabled(on)),
                        Err(e) => Err(e),
                    }
                },
                _ => Ok(MasterLockOutcome::AskNewPassword),
            }
        },
        Some(false) => {
            if !info.enabled {
                return Ok(MasterLockOutcome::AlreadyDisabled);
            }
            match password {
                None => Ok(MasterLockOutcome::AskPassword),
                Some(p) => match verify_master_password(info, p) {
                    Ok(true) => Ok(MasterLockOutcome::Disabled(MasterLockInfo::disabled())),
                    Ok(false) => Ok(MasterLockOutcome::Retry),
                    Err(e) => Err(e),
                },
            }
        },
    }
}

} // verus!
