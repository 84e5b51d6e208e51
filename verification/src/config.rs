//! The catalog of projects and the layout of the data directory.

use time::format_description::well_known::Rfc3339;
use time::OffsetDateTime;
use vstd::prelude::*;
use crate::codec::{find, lemma_find};
use crate::text::{str_eq, string_views, to_chars};

verus! {

/// Name of the data directory under the user's home.
pub const APP_DIR_NAME: &'static str = ".safehold";

/// The reserved name of the shared bucket.
pub const GLOBAL_NAME: &'static str = "global";

/// One project of the catalog.
#[derive(Debug, Clone)]
pub struct SetMeta {
    /// Sequence number, `_` and name.
    pub id: String,
    /// Display name.
    pub name: String,
    /// Whether a password is required.
    pub locked: bool,
}

/// The catalog.
#[derive(Debug, Clone)]
pub struct Config {
    pub sets: Vec<SetMeta>,
    pub global_locked: bool,
    pub created_at: String,
    pub version: String,
}

/// The catalog as it was stored before it had a version.
#[derive(Debug, Clone)]
pub struct LegacyConfig {
    pub sets: Vec<SetMeta>,
    pub global_locked: bool,
    pub created_at: String,
}

/// The version that last ran on the data directory.
#[derive(Debug, Clone)]
pub struct VersionInfo {
    pub version: String,
    pub last_updated: String,
}

/// What the stored catalog was read as.
pub enum StoredConfig {
    Current(Config),
    Legacy(LegacyConfig),
    Unreadable,
}

/// A catalog that was read, and whether it has to be stored again.
pub struct LoadedConfig {
    pub config: Config,
    pub migrated: bool,
}

#[derive(Debug, Clone, Copy, PartialEq, Eq, Structural)]
pub enum ConfigError {
    /// The stored catalog is in neither form.
    Unparsable,
}

/// What a start finds out about the version that ran before.
pub struct VersionCheck {
    /// No version was recorded yet.
    pub is_new: bool,
    /// The version recorded, where it is another one.
    pub old_version: Option<String>,
    /// Whether the current version is to be recorded.
    pub save: bool,
}

/// `OffsetDateTime::now_utc` of `time`, formatted as RFC 3339; empty where
/// that fails. Nothing is known of the text.
#[verifier::external_body]
fn now_rfc3339() -> String {
    OffsetDateTime::now_utc().format(&Rfc3339).unwrap_or_default()
}

/// The version that a catalog is stored with.
pub fn default_version() -> (v: String)
    ensures
        v@ == "0.0.2"@,
{
    "0.0.2".to_string()
}

/// The version of this crate.
pub fn package_version() -> (v: String)
    ensures
        v@ == "0.0.1"@,
{
    "0.0.1".to_string()
}

impl Default for Config {
    /// An empty catalog, created now.
    fn default() -> (c: Config)
        ensures
            c.sets@.len() == 0,
            !c.global_locked,
            c.version@ == "0.0.2"@,
    {
        Config {
            sets: Vec::new(),
            global_locked: false,
            created_at: now_rfc3339(),
            version: default_version(),
        }
    }
}

impl Default for VersionInfo {
    /// This version, recorded now.
    fn default() -> (v: VersionInfo)
        ensures
            v.version@ == "0.0.1"@,
    {
        VersionInfo { version: package_version(), last_updated: now_rfc3339() }
    }
}

/// Where a project's files are, below the data directory.
pub fn set_dir(id: &str) -> (path: Vec<String>)
    ensures
        string_views(path@) == seq!["credentials"@, id@],
{
    let mut path: Vec<String> = Vec::new();
    path.push("credentials".to_string());
    path.push(id.to_string());
    assert(string_views(path@) =~= seq!["credentials"@, id@]);
    path
}

/// Where the shared bucket's files are, below the data directory.
pub fn global_dir() -> (path: Vec<String>)
    ensures
        string_views(path@) == seq!["global"@],
{
    let mut path: Vec<String> = Vec::new();
    path.push("global".to_string());
    assert(string_views(path@) =~= seq!["global"@]);
    path
}

/// `dir` and one more component.
fn child_path(dir: &Vec<String>, name: &str) -> (path: Vec<String>)
    ensures
        string_views(path@) == string_views(dir@).push(name@),
{
    let mut path: Vec<String> = Vec::new();
    let mut i: usize = 0;
    while i < dir.len()
        invariant
            i <= dir@.len(),
            string_views(path@) == string_views(dir@).take(i as int),
        decreases dir@.len() - i,
    {
        let part = dir[i].clone();
        proof {
            assert(part@ == dir@[i as int]@);
            assert(string_views(path@.push(part)) =~= string_views(path@).push(part@));
            assert(string_views(dir@).take(i as int).push(part@) =~= string_views(dir@).take(i as int + 1));
        }
        path.push(part);
        i += 1;
    }
    let last = name.to_string();
    proof {
        assert(string_views(dir@).take(i as int) =~= string_views(dir@));
        assert(string_views(path@.push(last)) =~= string_views(dir@).push(name@));
    }
    path.push(last);
    path
}

/// Where the lock of the bucket in `dir` is.
pub fn lock_path(dir: &Vec<String>) -> (path: Vec<String>)
    ensures
        string_views(path@) == string_views(dir@).push("lock.json"@),
{
    child_path(dir, "lock.json")
}

/// Where the encrypted credentials of the bucket in `dir` are.
pub fn env_enc_path(dir: &Vec<String>) -> (path: Vec<String>)
    ensures
        string_views(path@) == string_views(dir@).push(".env.enc"@),
{
    child_path(dir, ".env.enc")
}

/// Where the version that ran last is recorded, below the data directory.
pub fn version_file_path() -> (path: Vec<String>)
    ensures
        string_views(path@) == seq!["version.json"@],
{
    let mut path: Vec<String> = Vec::new();
    path.push("version.json".to_string());
    assert(string_views(path@) =~= seq!["version.json"@]);
    path
}

/// Where the catalog is stored, below the data directory.
pub fn config_path() -> (path: Vec<String>)
    ensures
        string_views(path@) == seq!["config.json"@],
{
    let mut path: Vec<String> = Vec::new();
    path.push("config.json".to_string());
    assert(string_views(path@) =~= seq!["config.json"@]);
    path
}

/// Where the app key is stored, below the data directory.
pub fn app_key_path() -> (path: Vec<String>)
    ensures
        string_views(path@) == seq!["app.key"@],
{
    let mut path: Vec<String> = Vec::new();
    path.push("app.key".to_string());
    assert(string_views(path@) =~= seq!["app.key"@]);
    path
}

pub open spec fn is_digit(c: char) -> bool {
    0x30 <= c as u32 <= 0x39
}

pub open spec fn digit_char(d: nat) -> char
    recommends
        d < 10,
{
    ((0x30 + d) as u8) as char
}

/// The number that a text of decimal digits stands for; 0 for the empty
/// text, none where a character is no digit.
pub open spec fn decimal_value(s: Seq<char>) -> Option<nat>
    decreases s.len(),
{
    if s.len() == 0 {
        Some(0nat)
    } else {
        match decimal_value(s.drop_last()) {
            Some(v) if is_digit(s.last()) => Some((v * 10 + (s.last() as u32 - 0x30)) as nat),
            _ => None,
        }
    }
}

/// The number that a text stands for as an unsigned number of 32 bits:
/// decimal digits, at least one, after at most one `+`.
pub open spec fn parse_u32(s: Seq<char>) -> Option<u32> {
    let digits = if s.len() > 0 && s[0] == '+' {
        s.drop_first()
    } else {
        s
    };
    if digits.len() == 0 {
        None
    } else {
        match decimal_value(digits) {
            Some(v) if v <= u32::MAX => Some(v as u32),
            _ => None,
        }
    }
}

/// The sequence number of an id: what stands before its first `_`, read as
/// a number.
pub open spec fn id_number(id: Seq<char>) -> Option<u32> {
    let i = find(id, '_');
    if i == id.len() {
        None
    } else {
        parse_u32(id.take(i))
    }
}

/// The greatest sequence number among the ids; 0 where none has one.
pub open spec fn max_id_number(ids: Seq<Seq<char>>) -> nat
    decreases ids.len(),
{
    if ids.len() == 0 {
        0
    } else {
        let m = max_id_number(ids.drop_last());
        match id_number(ids.last()) {
            Some(v) if v > m => v as nat,
            _ => m,
        }
    }
}

/// The decimal digits of a number.
pub open spec fn decimal_digits(n: nat) -> Seq<char>
    decreases n,
{
    if n < 10 {
        seq![digit_char(n)]
    } else {
        decimal_digits(n / 10).push(digit_char(n % 10))
    }
}

/// The decimal digits of a number, with zeros in front up to three digits.
pub open spec fn pad3(n: nat) -> Seq<char> {
    if n < 10 {
        seq!['0', '0'] + decimal_digits(n)
    } else if n < 100 {
        seq!['0'] + decimal_digits(n)
    } else {
        decimal_digits(n)
    }
}

pub open spec fn ids_of(sets: Seq<SetMeta>) -> Seq<Seq<char>> {
    sets.map_values(|s: SetMeta| s.id@)
}

/// The id of the next project: one more than the greatest sequence number
/// in use, in at least three digits, `_` and the name.
pub open spec fn next_set_id_spec(name: Seq<char>, ids: Seq<Seq<char>>) -> Seq<char> {
    pad3(max_id_number(ids) + 1) + seq!['_'] + name
}

proof fn lemma_decimal_prefix(s: Seq<char>, k: int)
    requires
        0 <= k <= s.len(),
        decimal_value(s) is Some,
    ensures
        decimal_value(s.take(k)) is Some,
        decimal_value(s.take(k))->0 <= decimal_value(s)->0,
    decreases s.len(),
{
    if k == s.len() {
        assert(s.take(k) =~= s);
    } else {
        lemma_decimal_prefix(s.drop_last(), k);
        assert(s.drop_last().take(k) =~= s.take(k));
    }
}

/// Reads `v[lo..hi]` as an unsigned number of 32 bits.
fn parse_u32_range(v: &Vec<char>, lo: usize, hi: usize) -> (r: Option<u32>)
    requires
        lo <= hi <= v@.len(),
    ensures
        r == parse_u32(v@.subrange(lo as int, hi as int)),
{
    let ghost s = v@.subrange(lo as int, hi as int);
    let mut start: usize = lo;
    if lo < hi && v[lo] == '+' {
        start = lo + 1;
    }
    let ghost digits = v@.subrange(start as int, hi as int);
    proof {
        if start > lo {
            assert(s.drop_first() =~= digits);
        }
    }
    if start == hi {
        return None;
    }
    let mut acc: u64 = 0;
    let mut i: usize = start;
    assert(digits.take(0) =~= Seq::empty());
    let ghost want = match decimal_value(digits) {
        Some(n) if n <= u32::MAX => Some(n as u32),
        _ => None,
    };
    assert(parse_u32(s) == want);
    while i < hi
        invariant
            lo <= start <= i <= hi <= v@.len(),
            digits == v@.subrange(start as int, hi as int),
            want == match decimal_value(digits) {
                Some(n) if n <= u32::MAX => Some(n as u32),
                _ => None,
            },
            parse_u32(v@.subrange(lo as int, hi as int)) == want,
            decimal_value(digits.take(i - start)) == Some(acc as nat),
            acc <= u32::MAX,
        decreases hi - i,
    {
        let c = v[i];
        let u: u32 = c as u32;
        proof {
            assert(digits.take(i - start + 1).drop_last() =~= digits.take(i - start));
            assert(digits.take(i - start + 1).last() == c);
        }
        if u < 0x30 || u > 0x39 {
            proof {
                assert(!is_digit(c));
                if decimal_value(digits) is Some {
                    lemma_decimal_prefix(digits, i - start + 1);
                }
            }
            return None;
        }
        assert(is_digit(c));
        let next: u64 = acc * 10 + (u - 0x30) as u64;
        assert(decimal_value(digits.take(i - start + 1)) == Some(next as nat));
        if next > 0xFFFF_FFFF {
            proof {
                if decimal_value(digits) is Some {
                    lemma_decimal_prefix(digits, i - start + 1);
                }
            }
            return None;
        }
        acc = next;
        i += 1;
    }
    proof {
        assert(digits.take(i - start) =~= digits);
    }
    Some(acc as u32)
}

/// The sequence number of an id.
pub fn set_number(id: &str) -> (r: Option<u32>)
    ensures
        r == id_number(id@),
{
    let v = to_chars(id);
    let mut e: usize = 0;
    while e < v.len() && v[e] != '_'
        invariant
            e <= v@.len(),
            forall|j: int| 0 <= j < e ==> v@[j] != '_',
        decreases v@.len() - e,
    {
        e += 1;
    }
    proof {
        lemma_find(v@, '_', e as int);
        assert(v@.subrange(0, e as int) =~= v@.take(e as int));
    }
    if e == v.len() {
        None
    } else {
        parse_u32_range(&v, 0, e)
    }
}

proof fn lemma_digits_len(n: nat)
    ensures
        decimal_digits(n).len() >= 1,
        n >= 10 ==> decimal_digits(n).len() >= 2,
        n >= 100 ==> decimal_digits(n).len() >= 3,
    decreases n,
{
    if n >= 10 {
        lemma_digits_len(n / 10);
    }
}

/// Appends the decimal digits of `n`.
fn push_decimal(out: &mut String, n: u64)
    ensures
        final(out)@ == old(out)@ + decimal_digits(n as nat),
    decreases n,
{
    if n >= 10 {
        push_decimal(out, n / 10);
    }
    let d: u8 = (n % 10) as u8;
    let c: char = (0x30u8 + d) as char;
    out.push(c);
    proof {
        assert(c == digit_char((n % 10) as nat));
        if n < 10 {
            assert(out@ =~= old(out)@ + decimal_digits(n as nat));
        } else {
            assert(out@ =~= old(out)@ + decimal_digits(n as nat));
        }
    }
}

/// The id for a new project named `name` beside the projects `existing`.
pub fn next_set_id(name: &str, existing: &[SetMeta]) -> (id: String)
    ensures
        id@ == next_set_id_spec(name@, ids_of(existing@)),
{
    let ghost ids = ids_of(existing@);
    let mut maxn: u32 = 0;
    let mut i: usize = 0;
    assert(ids.take(0) =~= Seq::empty());
    while i < existing.len()
        invariant
            i <= existing@.len(),
            ids == ids_of(existing@),
            maxn == max_id_number(ids.take(i as int)),
        decreases existing@.len() - i,
    {
        proof {
            assert(ids.take(i as int + 1).drop_last() =~= ids.take(i as int));
            assert(ids.take(i as int + 1).last() == existing@[i as int].id@);
        }
        match set_number(existing[i].id.as_str()) {
            Some(v) => {
                if v > maxn {
                    maxn = v;
                }
            },
            None => {},
        }
        i += 1;
    }
    proof {
        assert(ids.take(i as int) =~= ids);
    }
    let n: u64 = maxn as u64 + 1;
    let mut id = String::new();
    if n < 10 {
        id.push('0');
        id.push('0');
    } else if n < 100 {
        id.push('0');
    }
    let ghost head = id@;
    push_decimal(&mut id, n);
    id.push('_');
    let ghost stem = id@;
    id.append(name);
    proof {
        assert(head + decimal_digits(n as nat) =~= pad3(n as nat));
        assert(id@ =~= pad3(n as nat) + seq!['_'] + name@);
    }
    id
}

/// The catalog to work with, from what was stored: a catalog without a
/// version, or with version 0.0.1 or none, is brought to the current form
/// and marked for storing.
pub fn load_config(stored: StoredConfig) -> (r: Result<LoadedConfig, ConfigError>)
    ensures
        match stored {
            StoredConfig::Current(c) => r matches Ok(l) && l.config.sets == c.sets
                && l.config.global_locked == c.global_locked && l.config.created_at == c.created_at
                && l.migrated == (c.version@.len() == 0 || c.version@ == "0.0.1"@)
                && l.config.version@ == (if l.migrated {
                "0.0.2"@
            } else {
                c.version@
            }),
            StoredConfig::Legacy(c) => r matches Ok(l) && l.config.sets == c.sets
                && l.config.global_locked == c.global_locked && l.config.created_at == c.created_at
                && l.migrated && l.config.version@ == "0.0.2"@,
            StoredConfig::Unreadable => r matches Err(ConfigError::Unparsable),
        },
{
    match stored {
        StoredConfig::Current(c) => {
            if c.version.as_str().is_empty() || str_eq(c.version.as_str(), "0.0.1") {
                let config = Config {
                    sets: c.sets,
                    global_locked: c.global_locked,
                    created_at: c.created_at,
                    version: default_version(),
                };
                Ok(LoadedConfig { config, migrated: true })
            } else {
                Ok(LoadedConfig { config: c, migrated: false })
            }
        },
        StoredConfig::Legacy(c) => {
            let config = Config {
                sets: c.sets,
                global_locked: c.global_locked,
                created_at: c.created_at,
                version: default_version(),
            };
            Ok(LoadedConfig { config, migrated: true })
        },
        StoredConfig::Unreadable => Err(ConfigError::Unparsable),
    }
}

/// Compares the version recorded in the data directory with `current`.
/// `stored` is `None` where nothing is recorded, and holds `None` where the
/// record cannot be read: that counts as the current version.
pub fn check_version_compatibility(stored: Option<Option<&str>>, current: &str) -> (r: VersionCheck)
    ensures
        r.is_new == (stored is None),
        r.old_version is Some <==> (stored matches Some(Some(v)) && v@ != current@),
        r.old_version matches Some(old) ==> stored matches Some(Some(v)) && old@ == v@,
        r.save == (r.is_new || r.old_version is Some),
{
    match stored {
        None => VersionCheck { is_new: true, old_version: None, save: true },
        Some(None) => VersionCheck { is_new: false, old_version: None, save: false },
        Some(Some(v)) => {
            if str_eq(v, current) {
                VersionCheck { is_new: false, old_version: None, save: false }
            } else {
                VersionCheck { is_new: false, old_version: Some(v.to_string()), save: true }
            }
        },
    }
}

proof fn lemma_digit_char(d: nat)
    requires
        d < 10,
    ensures
        digit_char(d) as u32 == 0x30 + d,
        is_digit(digit_char(d)),
        digit_char(d) != '_',
        digit_char(d) != '+',
{
}

proof fn lemma_digits_value(n: nat)
    ensures
        decimal_value(decimal_digits(n)) == Some(n),
        forall|i: int| 0 <= i < decimal_digits(n).len() ==> is_digit(#[trigger] decimal_digits(n)[i]),
    decreases n,
{
    let d = decimal_digits(n);
    if n < 10 {
        lemma_digit_char(n);
        assert(d.drop_last() =~= Seq::empty());
        assert(decimal_value(d.drop_last()) == Some(0nat));
    } else {
        lemma_digits_value(n / 10);
        lemma_digit_char(n % 10);
        assert(d.drop_last() =~= decimal_digits(n / 10));
    }
}

proof fn lemma_leading_zero(d: Seq<char>)
    ensures
        decimal_value(seq!['0'] + d) == decimal_value(d),
    decreases d.len(),
{
    let z = seq!['0'] + d;
    if d.len() == 0 {
        assert(z.drop_last() =~= Seq::empty());
        assert(decimal_value(z.drop_last()) == Some(0nat));
    } else {
        lemma_leading_zero(d.drop_last());
        assert(z.drop_last() =~= seq!['0'] + d.drop_last());
    }
}

proof fn lemma_pad3(n: nat)
    ensures
        decimal_value(pad3(n)) == Some(n),
        pad3(n).len() >= 3,
        forall|i: int| 0 <= i < pad3(n).len() ==> is_digit(#[trigger] pad3(n)[i]),
{
    let d = decimal_digits(n);
    lemma_digits_value(n);
    lemma_digits_len(n);
    if n < 10 {
        lemma_leading_zero(d);
        lemma_leading_zero(seq!['0'] + d);
        assert(seq!['0'] + (seq!['0'] + d) =~= pad3(n));
        assert forall|i: int| 0 <= i < pad3(n).len() implies is_digit(#[trigger] pad3(n)[i]) by {
            if i >= 2 {
                assert(pad3(n)[i] == d[i - 2]);
            }
        }
    } else if n < 100 {
        lemma_leading_zero(d);
        assert forall|i: int| 0 <= i < pad3(n).len() implies is_digit(#[trigger] pad3(n)[i]) by {
            if i >= 1 {
                assert(pad3(n)[i] == d[i - 1]);
            }
        }
    }
}

proof fn lemma_max_id_number(ids: Seq<Seq<char>>, i: int)
    requires
        0 <= i < ids.len(),
    ensures
        id_number(ids[i]) is Some ==> id_number(ids[i])->0 <= max_id_number(ids),
    decreases ids.len(),
{
    if i < ids.len() - 1 {
        lemma_max_id_number(ids.drop_last(), i);
    }
}

/// The id of the next project carries a sequence number one above the
/// greatest in use, so it is the id of no project yet.
pub proof fn lemma_next_set_id_is_new(name: Seq<char>, ids: Seq<Seq<char>>)
    requires
        max_id_number(ids) < u32::MAX,
    ensures
        id_number(next_set_id_spec(name, ids)) == Some((max_id_number(ids) + 1) as u32),
        forall|i: int|
            0 <= i < ids.len() && id_number(#[trigger] ids[i]) is Some ==> id_number(ids[i])->0
                <= max_id_number(ids),
        forall|i: int| 0 <= i < ids.len() ==> #[trigger] ids[i] != next_set_id_spec(name, ids),
{
    let n = max_id_number(ids) + 1;
    let head = pad3(n as nat);
    let id = next_set_id_spec(name, ids);
    lemma_pad3(n as nat);
    assert forall|j: int| 0 <= j < head.len() implies id[j] != '_' by {
        assert(id[j] == head[j]);
        assert(is_digit(head[j]));
    }
    assert(id[head.len() as int] == '_');
    lemma_find(id, '_', head.len() as int);
    assert(id.take(head.len() as int) =~= head);
    assert(is_digit(head[0]));
    assert(head[0] != '+');
    assert forall|i: int| 0 <= i < ids.len() implies (id_number(#[trigger] ids[i]) is Some
        ==> id_number(ids[i])->0 <= max_id_number(ids)) && ids[i] != id by {
        lemma_max_id_number(ids, i);
    }
}

} // verus!
