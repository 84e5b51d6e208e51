//! The state behind an interactive front end: which bucket is selected,
//! which credentials are loaded, what the forms hold and what the user is
//! told. The front end draws the state and does the reading and writing;
//! what happens to the state is decided here.

use vstd::prelude::*;
use vstd::string::*;
use crate::codec::{trim, trimmed};
use crate::config::{ids_of, Config};
use crate::crypto::{create_lock, LockInfo};
use crate::envmap::{lemma_insert_all_dom, CredentialMap};
use crate::envops::{write_env_map, VaultError};
use crate::master_lock::{
    enable_master_lock, master_accepts, verify_master_password, verify_master_spec,
    MasterLockError, MasterLockInfo, MIN_MASTER_PASSWORD_CHARS,
};
use crate::text::{str_eq, str_lt, string_views};

verus! {

/// The most notifications that are kept.
pub const MAX_NOTIFICATIONS: usize = 5;

/// The views of the front end.
#[derive(Debug, Clone, Copy, PartialEq, Eq, Structural)]
pub enum TabView {
    Projects,
    Credentials,
    Global,
    Export,
    Settings,
    Statistics,
}

#[derive(Debug, Clone, Copy, PartialEq, Eq, Structural)]
pub enum NotificationSeverity {
    Success,
    Warning,
    Error,
    Info,
}

/// Something the user is told.
#[derive(Debug, Clone)]
pub struct NotificationMessage {
    pub text: String,
    pub severity: NotificationSeverity,
}

/// What the front end is to do about the lock of the shared bucket.
#[derive(Debug)]
pub enum GlobalLockChange {
    /// Nothing.
    Keep,
    /// Store the lock.
    Lock(LockInfo),
    /// Remove the stored lock.
    Unlock,
}

/// The state of a session.
pub struct SafeHoldApp {
    /// The catalog.
    pub cfg: Config,
    /// The id of the selected bucket.
    pub selected: Option<String>,
    /// The credentials that were loaded, by the id of their bucket.
    pub maps_cache: Vec<(String, CredentialMap)>,
    /// The passwords that were entered, by the id of their bucket.
    pub passwords: CredentialMap,
    pub current_tab: TabView,
    pub search_filter: String,
    pub show_passwords: bool,
    pub auto_save_interval: u64,
    pub show_create: bool,
    pub new_project_name: String,
    pub new_project_lock: bool,
    pub new_project_password: String,
    pub new_project_confirm_password: String,
    pub show_add_credential: bool,
    pub new_key: String,
    pub new_val: String,
    pub notifications: Vec<NotificationMessage>,
    pub total_projects: usize,
    pub total_credentials: u128,
    /// Keys that more than one bucket holds, each with the ids of the buckets.
    pub duplicate_keys: Vec<(String, Vec<String>)>,
    pub master_lock_enabled: bool,
    pub show_master_lock_dialog: bool,
    pub master_password_input: String,
    pub master_password_confirm: String,
}

pub open spec fn note_views(notes: Seq<NotificationMessage>) -> Seq<
    (Seq<char>, NotificationSeverity),
> {
    notes.map_values(|n: NotificationMessage| (n.text@, n.severity))
}

/// The notifications after one more: the oldest leaves where there are
/// more than five.
pub open spec fn noted(
    before: Seq<(Seq<char>, NotificationSeverity)>,
    text: Seq<char>,
    severity: NotificationSeverity,
) -> Seq<(Seq<char>, NotificationSeverity)> {
    let all = before.push((text, severity));
    if all.len() > MAX_NOTIFICATIONS {
        all.drop_first()
    } else {
        all
    }
}

/// The credentials loaded for a bucket: those of the first entry with its id.
pub open spec fn cached(cache: Seq<(String, CredentialMap)>, id: Seq<char>) -> Option<
    Map<Seq<char>, Seq<char>>,
>
    decreases cache.len(),
{
    if cache.len() == 0 {
        None
    } else if cache[0].0@ == id {
        Some(cache[0].1@)
    } else {
        cached(cache.drop_first(), id)
    }
}

proof fn lemma_cached_at(cache: Seq<(String, CredentialMap)>, id: Seq<char>, i: int)
    requires
        0 <= i < cache.len(),
        cache[i].0@ == id,
        forall|j: int| 0 <= j < i ==> (#[trigger] cache[j]).0@ != id,
    ensures
        cached(cache, id) == Some(cache[i].1@),
    decreases i,
{
    if i > 0 {
        assert(cache[0].0@ != id);
        let rest = cache.drop_first();
        assert forall|j: int| 0 <= j < i - 1 implies (#[trigger] rest[j]).0@ != id by {
            assert(rest[j] == cache[j + 1]);
        }
        lemma_cached_at(rest, id, i - 1);
    }
}

proof fn lemma_cached_none(cache: Seq<(String, CredentialMap)>, id: Seq<char>)
    requires
        forall|j: int| 0 <= j < cache.len() ==> (#[trigger] cache[j]).0@ != id,
    ensures
        cached(cache, id) is None,
    decreases cache.len(),
{
    if cache.len() > 0 {
        assert(cache[0].0@ != id);
        let rest = cache.drop_first();
        assert forall|j: int| 0 <= j < rest.len() implies (#[trigger] rest[j]).0@ != id by {
            assert(rest[j] == cache[j + 1]);
        }
        lemma_cached_none(rest, id);
    }
}

/// Entries with the same ids and the same credentials under `id` give the
/// same credentials for `id`.
proof fn lemma_cached_same(
    before: Seq<(String, CredentialMap)>,
    after: Seq<(String, CredentialMap)>,
    id: Seq<char>,
)
    requires
        after.len() == before.len(),
        forall|j: int| 0 <= j < before.len() ==> (#[trigger] after[j]).0@ == before[j].0@,
        forall|j: int|
            0 <= j < before.len() && before[j].0@ == id ==> (#[trigger] after[j]).1@
                == before[j].1@,
    ensures
        cached(after, id) == cached(before, id),
    decreases before.len(),
{
    if before.len() > 0 {
        assert(after[0].0@ == before[0].0@);
        let b = before.drop_first();
        let a = after.drop_first();
        assert forall|j: int| 0 <= j < b.len() implies (#[trigger] a[j]).0@ == b[j].0@ by {
            assert(a[j] == after[j + 1]);
        }
        assert forall|j: int| 0 <= j < b.len() && b[j].0@ == id implies (#[trigger] a[j]).1@
            == b[j].1@ by {
            assert(a[j] == after[j + 1]);
        }
        lemma_cached_same(b, a, id);
    }
}

/// One more entry at the end is found where its id was not found before.
proof fn lemma_cached_push(
    cache: Seq<(String, CredentialMap)>,
    entry: (String, CredentialMap),
    id: Seq<char>,
)
    ensures
        cached(cache.push(entry), id) == if cached(cache, id) is Some {
            cached(cache, id)
        } else if entry.0@ == id {
            Some(entry.1@)
        } else {
            None
        },
    decreases cache.len(),
{
    let all = cache.push(entry);
    if cache.len() == 0 {
        assert(all[0] == entry);
        assert(all.drop_first() =~= Seq::empty());
        assert(cached(all.drop_first(), id) is None);
        assert(cached(cache, id) is None);
    } else {
        assert(all[0] == cache[0]);
        assert(all.drop_first() =~= cache.drop_first().push(entry));
        lemma_cached_push(cache.drop_first(), entry, id);
    }
}

/// Without one entry, the credentials of other ids are found as before.
proof fn lemma_cached_remove(cache: Seq<(String, CredentialMap)>, i: int, id: Seq<char>)
    requires
        0 <= i < cache.len(),
        cache[i].0@ != id,
    ensures
        cached(cache.remove(i), id) == cached(cache, id),
    decreases cache.len(),
{
    let rest = cache.remove(i);
    if i == 0 {
        assert(rest =~= cache.drop_first());
    } else {
        assert(rest[0] == cache[0]);
        assert(rest.drop_first() =~= cache.drop_first().remove(i - 1));
        lemma_cached_remove(cache.drop_first(), i - 1, id);
    }
}

/// Where the credentials of a bucket are in the cache.
fn find_cached(cache: &Vec<(String, CredentialMap)>, id: &str) -> (r: Option<usize>)
    ensures
        r matches Some(i) ==> i < cache@.len() && cache@[i as int].0@ == id@ && cached(cache@, id@)
            == Some(cache@[i as int].1@) && forall|j: int|
            0 <= j < i ==> (#[trigger] cache@[j]).0@ != id@,
        r is None ==> cached(cache@, id@) is None && forall|j: int|
            0 <= j < cache@.len() ==> (#[trigger] cache@[j]).0@ != id@,
{
    let mut i: usize = 0;
    while i < cache.len()
        invariant
            i <= cache@.len(),
            forall|j: int| 0 <= j < i ==> (#[trigger] cache@[j]).0@ != id@,
        decreases cache@.len() - i,
    {
        if str_eq(cache[i].0.as_str(), id) {
            proof {
                lemma_cached_at(cache@, id@, i as int);
            }
            return Some(i);
        }
        i += 1;
    }
    proof {
        lemma_cached_none(cache@, id@);
    }
    None
}

/// Appends a notification and lets the oldest go where there are more
/// than five.
fn notify(notes: &mut Vec<NotificationMessage>, text: String, severity: NotificationSeverity)
    ensures
        note_views(final(notes)@) == noted(note_views(old(notes)@), text@, severity),
{
    let ghost before = note_views(notes@);
    notes.push(NotificationMessage { text, severity });
    assert(note_views(notes@) =~= before.push((text@, severity)));
    if notes.len() > MAX_NOTIFICATIONS {
        let ghost all = notes@;
        let _ = notes.remove(0);
        assert(note_views(notes@) =~= note_views(all).drop_first());
    }
}

/// `head`, `name` and `tail` in a row.
fn framed(head: &str, name: &str, tail: &str) -> (s: String)
    ensures
        s@ == head@ + name@ + tail@,
{
    let mut s = head.to_string();
    s.append(name);
    s.append(tail);
    s
}

impl SafeHoldApp {
    /// The state at the start: nothing selected, nothing loaded, the
    /// projects in view. Without a catalog an empty one is taken.
    pub fn new(cfg: Option<Config>, master_lock_enabled: bool) -> (app: SafeHoldApp)
        ensures
            cfg matches Some(c) ==> app.cfg == c,
            cfg is None ==> app.cfg.sets@.len() == 0 && !app.cfg.global_locked,
            app.selected is None,
            app.maps_cache@.len() == 0,
            app.passwords@ == Map::<Seq<char>, Seq<char>>::empty(),
            app.current_tab == TabView::Projects,
            app.search_filter@.len() == 0,
            !app.show_passwords,
            app.auto_save_interval == 30,
            !app.show_create && !app.new_project_lock && !app.show_add_credential,
            app.new_project_name@.len() == 0 && app.new_project_password@.len() == 0
                && app.new_project_confirm_password@.len() == 0,
            app.new_key@.len() == 0 && app.new_val@.len() == 0,
            app.notifications@.len() == 0,
            app.total_projects == 0 && app.total_credentials == 0,
            app.duplicate_keys@.len() == 0,
            app.master_lock_enabled == master_lock_enabled,
            !app.show_master_lock_dialog,
            app.master_password_input@.len() == 0 && app.master_password_confirm@.len() == 0,
    {
        let cfg = match cfg {
            Some(c) => c,
            None => Config::default(),
        };
        SafeHoldApp {
            cfg,
            selected: None,
            maps_cache: Vec::new(),
            passwords: CredentialMap::new(),
            current_tab: TabView::Projects,
            search_filter: String::new(),
            show_passwords: false,
            auto_save_interval: 30,
            show_create: false,
            new_project_name: String::new(),
            new_project_lock: false,
            new_project_password: String::new(),
            new_project_confirm_password: String::new(),
            show_add_credential: false,
            new_key: String::new(),
            new_val: String::new(),
            notifications: Vec::new(),
            total_projects: 0,
            total_credentials: 0,
            duplicate_keys: Vec::new(),
            master_lock_enabled,
            show_master_lock_dialog: false,
            master_password_input: String::new(),
            master_password_confirm: String::new(),
        }
    }

    /// Tells the user something. Of more than five notifications the
    /// oldest leaves.
    pub fn add_notification(&mut self, text: String, severity: NotificationSeverity)
        ensures
            note_views(final(self).notifications@) == noted(
                note_views(old(self).notifications@),
                text@,
                severity,
            ),
            *final(self) == (SafeHoldApp { notifications: final(self).notifications, ..*old(self) }),
    {
        notify(&mut self.notifications, text, severity);
    }

    /// Whether the credentials of a bucket are loaded.
    pub fn is_loaded(&self, id_or_global: &str) -> (r: bool)
        ensures
            r == cached(self.maps_cache@, id_or_global@) is Some,
    {
        find_cached(&self.maps_cache, id_or_global).is_some()
    }

    /// Selects a bucket and shows its credentials. Says whether they have
    /// yet to be loaded.
    pub fn select(&mut self, id_or_global: &str) -> (load: bool)
        ensures
            load == cached(old(self).maps_cache@, id_or_global@) is None,
            final(self).selected matches Some(s) && s@ == id_or_global@,
            final(self).current_tab == TabView::Credentials,
            *final(self) == (SafeHoldApp {
                selected: final(self).selected,
                current_tab: TabView::Credentials,
                ..*old(self)
            }),
    {
        self.selected = Some(id_or_global.to_string());
        self.current_tab = TabView::Credentials;
        !self.is_loaded(id_or_global)
    }

    /// Takes in what loading the credentials of a bucket gave: the
    /// credentials, unless some were loaded before, or the error, of which
    /// the user is told.
    pub fn ensure_loaded(&mut self, id_or_global: &str, outcome: Result<CredentialMap, VaultError>)
        -> (ok: bool)
        ensures
            ok == (cached(old(self).maps_cache@, id_or_global@) is Some || outcome is Ok),
            cached(final(self).maps_cache@, id_or_global@) == match cached(
                old(self).maps_cache@,
                id_or_global@,
            ) {
                Some(m) => Some(m),
                None => match outcome {
                    Ok(m) => Some(m@),
                    Err(_) => None,
                },
            },
            forall|other: Seq<char>|
                other != id_or_global@ ==> cached(final(self).maps_cache@, other) == cached(
                    old(self).maps_cache@,
                    other,
                ),
            note_views(final(self).notifications@) == if ok {
                note_views(old(self).notifications@)
            } else {
                noted(
                    note_views(old(self).notifications@),
                    "Failed to load "@ + id_or_global@ + ": "@ + outcome->Err_0.message_text(),
                    NotificationSeverity::Error,
                )
            },
            *final(self) == (SafeHoldApp {
                maps_cache: final(self).maps_cache,
                notifications: final(self).notifications,
                ..*old(self)
            }),
    {
        if self.is_loaded(id_or_global) {
            return true;
        }
        match outcome {
            Ok(map) => {
                let entry = (id_or_global.to_string(), map);
                proof {
                    assert forall|other: Seq<char>| true implies #[trigger] cached(
                        self.maps_cache@.push(entry),
                        other,
                    ) == if cached(self.maps_cache@, other) is Some {
                        cached(self.maps_cache@, other)
                    } else if entry.0@ == other {
                        Some(entry.1@)
                    } else {
                        None
                    } by {
                        lemma_cached_push(self.maps_cache@, entry, other);
                    }
                }
                self.maps_cache.push(entry);
                true
            },
            Err(e) => {
                let mut text = framed("Failed to load ", id_or_global, ": ");
                text.append(e.message().as_str());
                notify(&mut self.notifications, text, NotificationSeverity::Error);
                false
            },
        }
    }

    /// Whether a bucket has a lock: whether its lock is stored. It has none
    /// where that cannot even be asked (`None`).
    pub fn is_locked(lock_stored: Option<bool>) -> (r: bool)
        ensures
            r == (lock_stored == Some(true)),
    {
        match lock_stored {
            Some(stored) => stored,
            None => false,
        }
    }

    /// Records whether the master lock is on.
    pub fn refresh_master_lock_status(&mut self, enabled: bool)
        ensures
            *final(self) == (SafeHoldApp { master_lock_enabled: enabled, ..*old(self) }),
    {
        self.master_lock_enabled = enabled;
    }
}

/// The credentials loaded for a bucket; none where none are loaded.
pub open spec fn loaded_or_empty(cache: Seq<(String, CredentialMap)>, id: Seq<char>) -> Map<
    Seq<char>,
    Seq<char>,
> {
    match cached(cache, id) {
        Some(m) => m,
        None => Map::empty(),
    }
}

/// Whether the credentials of all buckets but `id` are loaded as before.
pub open spec fn others_kept(
    before: Seq<(String, CredentialMap)>,
    after: Seq<(String, CredentialMap)>,
    id: Seq<char>,
) -> bool {
    forall|other: Seq<char>| other != id ==> #[trigger] cached(after, other) == cached(before, other)
}

/// Takes the credentials of a bucket out of the cache.
fn forget(cache: &mut Vec<(String, CredentialMap)>, id: &str)
    ensures
        cached(final(cache)@, id@) is None,
        others_kept(old(cache)@, final(cache)@, id@),
{
    loop
        invariant
            others_kept(old(cache)@, cache@, id@),
        ensures
            cached(cache@, id@) is None,
        decreases cache@.len(),
    {
        match find_cached(cache, id) {
            None => {
                break ;
            },
            Some(i) => {
                let ghost before = cache@;
                let _ = cache.remove(i);
                proof {
                    assert forall|other: Seq<char>| other != id@ implies #[trigger] cached(
                        cache@,
                        other,
                    ) == cached(old(cache)@, other) by {
                        lemma_cached_remove(before, i as int, other);
                    }
                }
            },
        }
    }
}

impl SafeHoldApp {
    /// Adds the credential of the form to the loaded credentials of a
    /// bucket and says whether they are to be saved. The key must not be
    /// blank, and must not be there already; it is taken without its
    /// surrounding whitespace.
    pub fn add_kv(&mut self, id_or_global: &str) -> (save: bool)
        ensures
            save == (trim(old(self).new_key@).len() > 0 && !loaded_or_empty(
                old(self).maps_cache@,
                id_or_global@,
            ).dom().contains(old(self).new_key@)),
            trim(old(self).new_key@).len() == 0 ==> final(self).maps_cache == old(self).maps_cache,
            trim(old(self).new_key@).len() > 0 ==> cached(final(self).maps_cache@, id_or_global@)
                == Some(
                if save {
                    loaded_or_empty(old(self).maps_cache@, id_or_global@).insert(
                        trim(old(self).new_key@),
                        old(self).new_val@,
                    )
                } else {
                    loaded_or_empty(old(self).maps_cache@, id_or_global@)
                },
            ),
            others_kept(old(self).maps_cache@, final(self).maps_cache@, id_or_global@),
            note_views(final(self).notifications@) == if save {
                note_views(old(self).notifications@)
            } else if trim(old(self).new_key@).len() == 0 {
                noted(
                    note_views(old(self).notifications@),
                    "Key cannot be empty"@,
                    NotificationSeverity::Warning,
                )
            } else {
                noted(
                    note_views(old(self).notifications@),
                    "Key '"@ + old(self).new_key@ + "' already exists. Use edit to modify."@,
                    NotificationSeverity::Warning,
                )
            },
            *final(self) == (SafeHoldApp {
                maps_cache: final(self).maps_cache,
                notifications: final(self).notifications,
                ..*old(self)
            }),
    {
        let key = trimmed(self.new_key.as_str());
        if key.as_str().is_empty() {
            notify(
                &mut self.notifications,
                "Key cannot be empty".to_string(),
                NotificationSeverity::Warning,
            );
            return false;
        }
        let ghost start = self.maps_cache@;
        let i = match find_cached(&self.maps_cache, id_or_global) {
            Some(i) => i,
            None => {
                let entry = (id_or_global.to_string(), CredentialMap::new());
                proof {
                    lemma_cached_push(start, entry, id_or_global@);
                    assert forall|other: Seq<char>| other != id_or_global@ implies #[trigger] cached(
                        start.push(entry),
                        other,
                    ) == cached(start, other) by {
                        lemma_cached_push(start, entry, other);
                    }
                    lemma_cached_at(start.push(entry), id_or_global@, start.len() as int);
                }
                self.maps_cache.push(entry);
                self.maps_cache.len() - 1
            },
        };
        let ghost ready = self.maps_cache@;
        assert(cached(ready, id_or_global@) == Some(loaded_or_empty(start, id_or_global@)));
        if self.maps_cache[i].1.contains_key(self.new_key.as_str()) {
            let text = framed("Key '", self.new_key.as_str(), "' already exists. Use edit to modify.");
            notify(&mut self.notifications, text, NotificationSeverity::Warning);
            return false;
        }
        let value = self.new_val.clone();
        self.maps_cache[i].1.insert(key, value);
        proof {
            let done = self.maps_cache@;
            lemma_cached_at(done, id_or_global@, i as int);
            assert forall|other: Seq<char>| other != id_or_global@ implies #[trigger] cached(
                done,
                other,
            ) == cached(start, other) by {
                lemma_cached_same(ready, done, other);
            }
        }
        true
    }

    /// Takes in what saving the added credential gave: the user is told,
    /// and after a success the form is cleared.
    pub fn kv_saved(&mut self, outcome: Result<(), String>)
        ensures
            match outcome {
                Ok(_) => note_views(final(self).notifications@) == noted(
                    note_views(old(self).notifications@),
                    "Added credential '"@ + old(self).new_key@ + "'"@,
                    NotificationSeverity::Success,
                ) && final(self).new_key@.len() == 0 && final(self).new_val@.len() == 0,
                Err(e) => note_views(final(self).notifications@) == noted(
                    note_views(old(self).notifications@),
                    "Save failed: "@ + e@,
                    NotificationSeverity::Error,
                ) && final(self).new_key == old(self).new_key && final(self).new_val == old(
                    self,
                ).new_val,
            },
            *final(self) == (SafeHoldApp {
                notifications: final(self).notifications,
                new_key: final(self).new_key,
                new_val: final(self).new_val,
                ..*old(self)
            }),
    {
        match outcome {
            Err(e) => {
                let mut text = "Save failed: ".to_string();
                text.append(e.as_str());
                notify(&mut self.notifications, text, NotificationSeverity::Error);
            },
            Ok(_) => {
                let text = framed("Added credential '", self.new_key.as_str(), "'");
                notify(&mut self.notifications, text, NotificationSeverity::Success);
                self.new_key = String::new();
                self.new_val = String::new();
            },
        }
    }

    /// Takes a key out of the loaded credentials of a bucket and says
    /// whether they are to be saved: they are where any are loaded.
    pub fn delete_key(&mut self, id_or_global: &str, key: &str) -> (save: bool)
        ensures
            save == cached(old(self).maps_cache@, id_or_global@) is Some,
            cached(final(self).maps_cache@, id_or_global@) == match cached(
                old(self).maps_cache@,
                id_or_global@,
            ) {
                Some(m) => Some(m.remove(key@)),
                None => None,
            },
            others_kept(old(self).maps_cache@, final(self).maps_cache@, id_or_global@),
            *final(self) == (SafeHoldApp { maps_cache: final(self).maps_cache, ..*old(self) }),
    {
        let ghost start = self.maps_cache@;
        match find_cached(&self.maps_cache, id_or_global) {
            None => false,
            Some(i) => {
                let _ = self.maps_cache[i].1.remove(key);
                proof {
                    let done = self.maps_cache@;
                    lemma_cached_at(done, id_or_global@, i as int);
                    assert forall|other: Seq<char>| other != id_or_global@ implies #[trigger] cached(
                        done,
                        other,
                    ) == cached(start, other) by {
                        lemma_cached_same(start, done, other);
                    }
                }
                true
            },
        }
    }

    /// The blob to store for the loaded credentials of a bucket, sealed
    /// under `key`; nothing where none are loaded.
    pub fn save_map(&self, id_or_global: &str, key: &[u8; 32]) -> (r: Option<
        Result<Vec<u8>, VaultError>,
    >)
        ensures
            r is None <==> cached(self.maps_cache@, id_or_global@) is None,
            r matches Some(w) ==> crate::envops::stored(
                w,
                key@,
                cached(self.maps_cache@, id_or_global@)->0,
            ),
    {
        match find_cached(&self.maps_cache, id_or_global) {
            None => None,
            Some(i) => Some(write_env_map(key, &self.maps_cache[i].1)),
        }
    }

    /// Checks the form for turning the master lock on and makes the new
    /// state of the lock, which is to be stored. The user is told what is
    /// wrong with the form.
    pub fn handle_master_lock_enable(&mut self) -> (r: Option<MasterLockInfo>)
        ensures
            r is Some ==> old(self).master_password_input@ == old(self).master_password_confirm@
                && old(self).master_password_input@.len() >= MIN_MASTER_PASSWORD_CHARS,
            r matches Some(info) ==> info.enabled && info.wf() && master_accepts(
                info,
                old(self).master_password_input@,
            ),
            note_views(final(self).notifications@) == if r is Some {
                note_views(old(self).notifications@)
            } else {
                noted(
                    note_views(old(self).notifications@),
                    if old(self).master_password_input@.len() == 0 {
                        "Enter master password"@
                    } else if old(self).master_password_input@ != old(self).master_password_confirm@ {
                        "Passwords do not match"@
                    } else if old(self).master_password_input@.len() < MIN_MASTER_PASSWORD_CHARS {
                        "Master password must be at least 8 characters"@
                    } else {
                        "Failed to enable master lock: Master password is too long"@
                    },
                    if old(self).master_password_input@.len() >= MIN_MASTER_PASSWORD_CHARS && old(
                        self,
                    ).master_password_input@ == old(self).master_password_confirm@ {
                        NotificationSeverity::Error
                    } else {
                        NotificationSeverity::Warning
                    },
                )
            },
            *final(self) == (SafeHoldApp { notifications: final(self).notifications, ..*old(self) }),
    {
        if self.master_password_input.as_str().is_empty() {
            notify(
                &mut self.notifications,
                "Enter master password".to_string(),
                NotificationSeverity::Warning,
            );
            return None;
        }
        if !str_eq(self.master_password_input.as_str(), self.master_password_confirm.as_str()) {
            notify(
                &mut self.notifications,
                "Passwords do not match".to_string(),
                NotificationSeverity::Warning,
            );
            return None;
        }
        match enable_master_lock(self.master_password_input.as_str()) {
            Ok(info) => Some(info),
            Err(MasterLockError::PasswordTooShort) => {
                notify(
                    &mut self.notifications,
                    "Master password must be at least 8 characters".to_string(),
                    NotificationSeverity::Warning,
                );
                None
            },
            Err(_) => {
                notify(
                    &mut self.notifications,
                    "Failed to enable master lock: Master password is too long".to_string(),
                    NotificationSeverity::Error,
                );
                None
            },
        }
    }

    /// Checks the form for turning the master lock off and says whether
    /// the lock may be turned off: the password of the form has to pass
    /// it. The user is told what is wrong.
    pub fn handle_master_lock_disable(&mut self, info: &MasterLockInfo) -> (r: bool)
        ensures
            r == (old(self).master_password_input@.len() > 0 && master_accepts(
                *info,
                old(self).master_password_input@,
            )),
            note_views(final(self).notifications@) == if r {
                note_views(old(self).notifications@)
            } else if old(self).master_password_input@.len() == 0 {
                noted(
                    note_views(old(self).notifications@),
                    "Enter master password to disable"@,
                    NotificationSeverity::Warning,
                )
            } else {
                noted(
                    note_views(old(self).notifications@),
                    match verify_master_spec(*info, old(self).master_password_input@) {
                        Err(MasterLockError::MissingHash) =>
                            "Error verifying password: Master lock enabled but no password hash found"@,
                        Err(_) =>
                            "Error verifying password: parse hash: the stored password hash is invalid"@,
                        Ok(_) => "Invalid master password"@,
                    },
                    NotificationSeverity::Error,
                )
            },
            *final(self) == (SafeHoldApp { notifications: final(self).notifications, ..*old(self) }),
    {
        if self.master_password_input.as_str().is_empty() {
            notify(
                &mut self.notifications,
                "Enter master password to disable".to_string(),
                NotificationSeverity::Warning,
            );
            return false;
        }
        match verify_master_password(info, self.master_password_input.as_str()) {
            Ok(true) => true,
            Ok(false) => {
                notify(
                    &mut self.notifications,
                    "Invalid master password".to_string(),
                    NotificationSeverity::Error,
                );
                false
            },
            Err(MasterLockError::MissingHash) => {
                notify(
                    &mut self.notifications,
                    "Error verifying password: Master lock enabled but no password hash found".to_string(),
                    NotificationSeverity::Error,
                );
                false
            },
            Err(_) => {
                notify(
                    &mut self.notifications,
                    "Error verifying password: parse hash: the stored password hash is invalid".to_string(),
                    NotificationSeverity::Error,
                );
                false
            },
        }
    }

    /// Takes in what storing the new state of the master lock gave: after
    /// a success the state is recorded, the form closed and cleared; the
    /// user is told either way.
    pub fn master_lock_stored(&mut self, enabled: bool, outcome: Result<(), String>)
        ensures
            match outcome {
                Ok(_) => {
                    &&& final(self).master_lock_enabled == enabled
                    &&& !final(self).show_master_lock_dialog
                    &&& final(self).master_password_input@.len() == 0
                    &&& final(self).master_password_confirm@.len() == 0
                    &&& note_views(final(self).notifications@) == noted(
                        note_views(old(self).notifications@),
                        if enabled {
                            "🔒 Global Master Lock ENABLED - All projects now require master password"@
                        } else {
                            "🔓 Global Master Lock DISABLED - Projects use individual settings"@
                        },
                        NotificationSeverity::Success,
                    )
                },
                Err(e) => {
                    &&& final(self).master_lock_enabled == old(self).master_lock_enabled
                    &&& final(self).show_master_lock_dialog == old(self).show_master_lock_dialog
                    &&& final(self).master_password_input == old(self).master_password_input
                    &&& final(self).master_password_confirm == old(self).master_password_confirm
                    &&& note_views(final(self).notifications@) == noted(
                        note_views(old(self).notifications@),
                        (if enabled {
                            "Failed to enable master lock: "@
                        } else {
                            "Failed to disable master lock: "@
                        }) + e@,
                        NotificationSeverity::Error,
                    )
                },
            },
            *final(self) == (SafeHoldApp {
                master_lock_enabled: final(self).master_lock_enabled,
                show_master_lock_dialog: final(self).show_master_lock_dialog,
                master_password_input: final(self).master_password_input,
                master_password_confirm: final(self).master_password_confirm,
                notifications: final(self).notifications,
                ..*old(self)
            }),
    {
        match outcome {
            Ok(_) => {
                self.master_lock_enabled = enabled;
                self.show_master_lock_dialog = false;
                self.master_password_input = String::new();
                self.master_password_confirm = String::new();
                let text = if enabled {
                    "🔒 Global Master Lock ENABLED - All projects now require master password".to_string()
                } else {
                    "🔓 Global Master Lock DISABLED - Projects use individual settings".to_string()
                };
                notify(&mut self.notifications, text, NotificationSeverity::Success);
            },
            Err(e) => {
                let mut text = if enabled {
                    "Failed to enable master lock: ".to_string()
                } else {
                    "Failed to disable master lock: ".to_string()
                };
                text.append(e.as_str());
                notify(&mut self.notifications, text, NotificationSeverity::Error);
            },
        }
    }

    /// Locks or unlocks the shared bucket as the form asks, where that is
    /// a change: `is_locked` says whether it has a lock now. To lock, the
    /// form has to hold a password and the same again; the new lock is to
    /// be stored. To unlock, the stored lock is to be removed; the
    /// credentials of the bucket are no longer held as loaded.
    pub fn lock_unlock_global(&mut self, lock: bool, is_locked: bool) -> (r: GlobalLockChange)
        ensures
            lock == is_locked ==> r is Keep && *final(self) == *old(self),
            !lock && is_locked ==> {
                &&& r is Unlock
                &&& final(self).passwords@ == old(self).passwords@.remove("global"@)
                &&& cached(final(self).maps_cache@, "global"@) is None
                &&& others_kept(old(self).maps_cache@, final(self).maps_cache@, "global"@)
                &&& note_views(final(self).notifications@) == noted(
                    note_views(old(self).notifications@),
                    "Global project unlocked"@,
                    NotificationSeverity::Success,
                )
                &&& final(self).new_project_password == old(self).new_project_password
                &&& final(self).new_project_confirm_password == old(
                    self,
                ).new_project_confirm_password
            },
            lock && !is_locked ==> {
                &&& final(self).maps_cache == old(self).maps_cache
                &&& r is Lock || r is Keep
                &&& r is Lock ==> {
                    &&& old(self).new_project_password@.len() > 0
                    &&& old(self).new_project_password@ == old(self).new_project_confirm_password@
                    &&& final(self).passwords@ == old(self).passwords@.insert(
                        "global"@,
                        old(self).new_project_password@,
                    )
                    &&& final(self).new_project_password@.len() == 0
                    &&& final(self).new_project_confirm_password@.len() == 0
                    &&& note_views(final(self).notifications@) == noted(
                        note_views(old(self).notifications@),
                        "Global project locked"@,
                        NotificationSeverity::Success,
                    )
                    &&& crate::crypto::derive_lock_spec(
                        old(self).new_project_password@,
                        r->Lock_0.salt_b64@,
                        r->Lock_0.params,
                    ) is Ok
                }
                &&& r is Keep ==> {
                    &&& final(self).passwords@ == old(self).passwords@
                    &&& final(self).new_project_password == old(self).new_project_password
                    &&& final(self).new_project_confirm_password == old(
                        self,
                    ).new_project_confirm_password
                    &&& note_views(final(self).notifications@) == noted(
                        note_views(old(self).notifications@),
                        if old(self).new_project_password@.len() == 0 {
                            "Enter password before locking"@
                        } else if old(self).new_project_password@ != old(
                            self,
                        ).new_project_confirm_password@ {
                            "Passwords do not match"@
                        } else {
                            "Lock failed: params: Argon2 refuses the parameters"@
                        },
                        if old(self).new_project_password@.len() > 0 && old(
                            self,
                        ).new_project_password@ == old(self).new_project_confirm_password@ {
                            NotificationSeverity::Error
                        } else {
                            NotificationSeverity::Warning
                        },
                    )
                }
            },
            *final(self) == (SafeHoldApp {
                passwords: final(self).passwords,
                maps_cache: final(self).maps_cache,
                notifications: final(self).notifications,
                new_project_password: final(self).new_project_password,
                new_project_confirm_password: final(self).new_project_confirm_password,
                ..*old(self)
            }),
    {
        if lock == is_locked {
            return GlobalLockChange::Keep;
        }
        if !lock {
            let _ = self.passwords.remove("global");
            notify(
                &mut self.notifications,
                "Global project unlocked".to_string(),
                NotificationSeverity::Success,
            );
            forget(&mut self.maps_cache, "global");
            return GlobalLockChange::Unlock;
        }
        if self.new_project_password.as_str().is_empty() {
            notify(
                &mut self.notifications,
                "Enter password before locking".to_string(),
                NotificationSeverity::Warning,
            );
            return GlobalLockChange::Keep;
        }
        if !str_eq(
            self.new_project_password.as_str(),
            self.new_project_confirm_password.as_str(),
        ) {
            notify(
                &mut self.notifications,
                "Passwords do not match".to_string(),
                NotificationSeverity::Warning,
            );
            return GlobalLockChange::Keep;
        }
        match create_lock(self.new_project_password.as_str()) {
            Err(_) => {
                notify(
                    &mut self.notifications,
                    "Lock failed: params: Argon2 refuses the parameters".to_string(),
                    NotificationSeverity::Error,
                );
                GlobalLockChange::Keep
            },
            Ok(lock_info) => {
                let password = self.new_project_password.clone();
                self.passwords.insert("global".to_string(), password);
                notify(
                    &mut self.notifications,
                    "Global project locked".to_string(),
                    NotificationSeverity::Success,
                );
                self.new_project_password = String::new();
                self.new_project_confirm_password = String::new();
                GlobalLockChange::Lock(lock_info)
            },
        }
    }
}

/// The buckets that the statistics look at: the shared bucket, then the
/// projects in the order of the catalog.
pub open spec fn bucket_ids(cfg: Config) -> Seq<Seq<char>> {
    seq!["global"@] + ids_of(cfg.sets@)
}

/// Whether the credentials loaded for a bucket hold a key.
pub open spec fn holds_key(cache: Seq<(String, CredentialMap)>, id: Seq<char>, k: Seq<char>)
    -> bool {
    match cached(cache, id) {
        Some(m) => m.dom().contains(k),
        None => false,
    }
}

/// Those of the buckets `ids`, in their order, whose loaded credentials
/// hold the key.
pub open spec fn holders(cache: Seq<(String, CredentialMap)>, ids: Seq<Seq<char>>, k: Seq<char>)
    -> Seq<Seq<char>>
    decreases ids.len(),
{
    if ids.len() == 0 {
        Seq::empty()
    } else if holds_key(cache, ids.last(), k) {
        holders(cache, ids.drop_last(), k).push(ids.last())
    } else {
        holders(cache, ids.drop_last(), k)
    }
}

/// Whether some bucket of `ids` holds the key in its loaded credentials.
pub open spec fn held_among(
    cache: Seq<(String, CredentialMap)>,
    ids: Seq<Seq<char>>,
    k: Seq<char>,
) -> bool {
    exists|j: int| 0 <= j < ids.len() && holds_key(cache, #[trigger] ids[j], k)
}

pub open spec fn dup_views(d: Seq<(String, Vec<String>)>) -> Seq<(Seq<char>, Seq<Seq<char>>)> {
    d.map_values(|e: (String, Vec<String>)| (e.0@, string_views(e.1@)))
}

/// Whether `d` lists, in key order, exactly the keys that more than one of
/// the buckets `ids` holds, each with the buckets that hold it.
pub open spec fn is_duplicates(
    d: Seq<(Seq<char>, Seq<Seq<char>>)>,
    cache: Seq<(String, CredentialMap)>,
    ids: Seq<Seq<char>>,
) -> bool {
    &&& forall|a: int, b: int| 0 <= a < b < d.len() ==> str_lt(#[trigger] d[a].0, #[trigger] d[b].0)
    &&& forall|a: int|
        0 <= a < d.len() ==> (#[trigger] d[a]).1 == holders(cache, ids, d[a].0) && d[a].1.len() > 1
    &&& forall|k: Seq<char>| #[trigger]
        holders(cache, ids, k).len() > 1 ==> exists|a: int| 0 <= a < d.len() && #[trigger] d[a].0 == k
}

/// The number of all loaded credentials.
pub open spec fn sum_sizes(cache: Seq<(String, CredentialMap)>) -> nat
    decreases cache.len(),
{
    if cache.len() == 0 {
        0
    } else {
        sum_sizes(cache.drop_last()) + cache.last().1@.dom().len()
    }
}

proof fn lemma_holders_held(cache: Seq<(String, CredentialMap)>, ids: Seq<Seq<char>>, k: Seq<char>)
    requires
        holders(cache, ids, k).len() > 0,
    ensures
        held_among(cache, ids, k),
    decreases ids.len(),
{
    if ids.len() > 0 {
        if holds_key(cache, ids.last(), k) {
            assert(holds_key(cache, ids[ids.len() - 1], k));
        } else {
            lemma_holders_held(cache, ids.drop_last(), k);
            let j = choose|j: int|
                0 <= j < ids.drop_last().len() && holds_key(cache, #[trigger] ids.drop_last()[j], k);
            assert(ids[j] == ids.drop_last()[j]);
        }
    }
}

/// The ids of the buckets that the statistics look at.
fn bucket_id_list(cfg: &Config) -> (ids: Vec<String>)
    ensures
        string_views(ids@) == bucket_ids(*cfg),
{
    let mut ids: Vec<String> = Vec::new();
    ids.push("global".to_string());
    let ghost all = ids_of(cfg.sets@);
    let mut i: usize = 0;
    assert(string_views(ids@) =~= seq!["global"@] + all.take(0));
    while i < cfg.sets.len()
        invariant
            i <= cfg.sets@.len(),
            all == ids_of(cfg.sets@),
            string_views(ids@) == seq!["global"@] + all.take(i as int),
        decreases cfg.sets@.len() - i,
    {
        let id = cfg.sets[i].id.clone();
        proof {
            assert(string_views(ids@.push(id)) =~= string_views(ids@).push(id@));
            assert((seq!["global"@] + all.take(i as int)).push(all[i as int]) =~= seq!["global"@]
                + all.take(i as int + 1));
        }
        ids.push(id);
        i += 1;
    }
    proof {
        assert(all.take(i as int) =~= all);
    }
    ids
}

/// Every key that some bucket of `ids` holds in its loaded credentials.
fn collect_keys(cache: &Vec<(String, CredentialMap)>, ids: &Vec<String>) -> (all: CredentialMap)
    ensures
        forall|k: Seq<char>| #[trigger]
            held_among(cache@, string_views(ids@), k) ==> all@.dom().contains(k),
{
    let mut all = CredentialMap::new();
    let ghost names = string_views(ids@);
    let mut i: usize = 0;
    while i < ids.len()
        invariant
            i <= ids@.len(),
            names == string_views(ids@),
            forall|k: Seq<char>| #[trigger]
                held_among(cache@, names.take(i as int), k) ==> all@.dom().contains(k),
        decreases ids@.len() - i,
    {
        let ghost before = all@;
        match find_cached(cache, ids[i].as_str()) {
            None => {},
            Some(at) => {
                let entries = cache[at].1.entries();
                let ghost pairs = cache@[at as int].1.pairs();
                let mut e: usize = 0;
                while e < entries.len()
                    invariant
                        e <= entries@.len(),
                        entries@.len() == pairs.len(),
                        forall|t: int|
                            0 <= t < entries@.len() ==> (#[trigger] entries@[t]).0@ == pairs[t].0,
                        forall|k: Seq<char>| before.dom().contains(k) ==> all@.dom().contains(k),
                        forall|t: int| 0 <= t < e ==> all@.dom().contains(#[trigger] pairs[t].0),
                    decreases entries@.len() - e,
                {
                    let key = entries[e].0.clone();
                    assert(key@ == pairs[e as int].0);
                    all.insert(key, String::new());
                    e += 1;
                }
                proof {
                    assert forall|k: Seq<char>| holds_key(cache@, names[i as int], k) implies all@.dom().contains(
                        k,
                    ) by {
                        lemma_insert_all_dom(Map::empty(), pairs, k);
                        let t = choose|t: int| 0 <= t < pairs.len() && #[trigger] pairs[t].0 == k;
                        assert(all@.dom().contains(pairs[t].0));
                    }
                }
            },
        }
        proof {
            let next = names.take(i as int + 1);
            assert forall|k: Seq<char>| #[trigger] held_among(cache@, next, k) implies all@.dom().contains(
                k,
            ) by {
                let j = choose|j: int| 0 <= j < next.len() && holds_key(cache@, #[trigger] next[j], k);
                if j < i {
                    assert(names.take(i as int)[j] == next[j]);
                    assert(held_among(cache@, names.take(i as int), k));
                } else {
                    assert(next[j] == names[i as int]);
                }
            }
        }
        i += 1;
    }
    proof {
        assert(names.take(i as int) =~= names);
    }
    all
}

/// The buckets of `ids` that hold the key in their loaded credentials.
fn holders_of(cache: &Vec<(String, CredentialMap)>, ids: &Vec<String>, key: &str) -> (h: Vec<
    String,
>)
    ensures
        string_views(h@) == holders(cache@, string_views(ids@), key@),
{
    let mut h: Vec<String> = Vec::new();
    let ghost names = string_views(ids@);
    let mut i: usize = 0;
    assert(names.take(0) =~= Seq::empty());
    assert(string_views(h@) =~= Seq::empty());
    while i < ids.len()
        invariant
            i <= ids@.len(),
            names == string_views(ids@),
            string_views(h@) == holders(cache@, names.take(i as int), key@),
        decreases ids@.len() - i,
    {
        proof {
            assert(names.take(i as int + 1).drop_last() =~= names.take(i as int));
            assert(names.take(i as int + 1).last() == ids@[i as int]@);
        }
        let holds = match find_cached(cache, ids[i].as_str()) {
            None => false,
            Some(at) => cache[at].1.contains_key(key),
        };
        if holds {
            let id = ids[i].clone();
            proof {
                assert(string_views(h@.push(id)) =~= string_views(h@).push(id@));
            }
            h.push(id);
        }
        i += 1;
    }
    proof {
        assert(names.take(i as int) =~= names);
    }
    h
}

/// The keys that more than one of the buckets `ids` holds.
fn duplicates(cache: &Vec<(String, CredentialMap)>, ids: &Vec<String>) -> (d: Vec<
    (String, Vec<String>),
>)
    ensures
        is_duplicates(dup_views(d@), cache@, string_views(ids@)),
{
    let all = collect_keys(cache, ids);
    let entries = all.entries();
    let ghost pairs = all.pairs();
    let ghost names = string_views(ids@);
    let mut d: Vec<(String, Vec<String>)> = Vec::new();
    let mut e: usize = 0;
    while e < entries.len()
        invariant
            e <= entries@.len(),
            entries@.len() == pairs.len(),
            names == string_views(ids@),
            crate::envmap::sorted_pairs(pairs),
            forall|t: int| 0 <= t < entries@.len() ==> (#[trigger] entries@[t]).0@ == pairs[t].0,
            forall|a: int, b: int|
                0 <= a < b < d@.len() ==> str_lt(
                    #[trigger] dup_views(d@)[a].0,
                    #[trigger] dup_views(d@)[b].0,
                ),
            forall|a: int, t: int|
                0 <= a < d@.len() && e <= t < pairs.len() ==> str_lt(
                    #[trigger] dup_views(d@)[a].0,
                    #[trigger] pairs[t].0,
                ),
            forall|a: int|
                0 <= a < d@.len() ==> (#[trigger] dup_views(d@)[a]).1 == holders(
                    cache@,
                    names,
                    dup_views(d@)[a].0,
                ) && dup_views(d@)[a].1.len() > 1,
            forall|t: int|
                0 <= t < e && holders(cache@, names, #[trigger] pairs[t].0).len() > 1 ==> exists|
                    a: int,
                |
                    0 <= a < d@.len() && #[trigger] dup_views(d@)[a].0 == pairs[t].0,
        decreases entries@.len() - e,
    {
        let key = entries[e].0.clone();
        assert(key@ == pairs[e as int].0);
        let h = holders_of(cache, ids, key.as_str());
        let ghost before = dup_views(d@);
        if h.len() > 1 {
            let item = (key, h);
            proof {
                assert(dup_views(d@.push(item)) =~= before.push((item.0@, string_views(item.1@))));
            }
            d.push(item);
        }
        proof {
            let after = dup_views(d@);
            assert forall|a: int, t: int|
                0 <= a < after.len() && e + 1 <= t < pairs.len() implies str_lt(
                #[trigger] after[a].0,
                #[trigger] pairs[t].0,
            ) by {
                if a < before.len() {
                    assert(after[a] == before[a]);
                } else {
                    assert(str_lt(pairs[e as int].0, pairs[t].0));
                }
            }
            assert forall|a: int, b: int| 0 <= a < b < after.len() implies str_lt(
                #[trigger] after[a].0,
                #[trigger] after[b].0,
            ) by {
                assert(after[a] == before[a]);
                if b < before.len() {
                    assert(after[b] == before[b]);
                } else {
                    assert(str_lt(before[a].0, pairs[e as int].0));
                }
            }
            assert forall|t: int|
                0 <= t < e + 1 && holders(cache@, names, #[trigger] pairs[t].0).len()
                    > 1 implies exists|a: int|
                0 <= a < after.len() && #[trigger] after[a].0 == pairs[t].0 by {
                if t < e {
                    let a = choose|a: int| 0 <= a < before.len() && #[trigger] before[a].0 == pairs[t].0;
                    assert(after[a].0 == pairs[t].0);
                } else {
                    assert(after[after.len() - 1].0 == pairs[t].0);
                }
            }
        }
        e += 1;
    }
    proof {
        let done = dup_views(d@);
        assert forall|k: Seq<char>| #[trigger] holders(cache@, names, k).len() > 1 implies exists|
            a: int,
        |
            0 <= a < done.len() && #[trigger] done[a].0 == k by {
            lemma_holders_held(cache@, names, k);
            lemma_insert_all_dom(Map::empty(), pairs, k);
            let t = choose|t: int| 0 <= t < pairs.len() && #[trigger] pairs[t].0 == k;
            assert(holders(cache@, names, pairs[t].0).len() > 1);
        }
    }
    d
}

proof fn lemma_sum_sizes_bound(cache: Seq<(String, CredentialMap)>, sizes: Seq<usize>)
    requires
        sizes.len() == cache.len(),
        forall|j: int| 0 <= j < cache.len() ==> #[trigger] sizes[j] == cache[j].1@.dom().len(),
    ensures
        sum_sizes(cache) <= cache.len() * usize::MAX,
    decreases cache.len(),
{
    if cache.len() > 0 {
        let c = cache.drop_last();
        let z = sizes.drop_last();
        assert forall|j: int| 0 <= j < c.len() implies #[trigger] z[j] == c[j].1@.dom().len() by {
            assert(z[j] == sizes[j]);
            assert(c[j] == cache[j]);
        }
        lemma_sum_sizes_bound(c, z);
        assert(sizes[cache.len() - 1] == cache.last().1@.dom().len());
        assert((cache.len() - 1) * usize::MAX + usize::MAX == cache.len() * usize::MAX)
            by (nonlinear_arith);
    }
}

/// The number of all loaded credentials.
fn count_loaded(cache: &Vec<(String, CredentialMap)>) -> (total: u128)
    ensures
        total == sum_sizes(cache@),
{
    let mut total: u128 = 0;
    let mut sizes: Ghost<Seq<usize>> = Ghost(Seq::empty());
    let mut i: usize = 0;
    assert(cache@.take(0) =~= Seq::empty());
    while i < cache.len()
        invariant
            i <= cache@.len(),
            sizes@.len() == i,
            forall|j: int| 0 <= j < i ==> #[trigger] sizes@[j] == cache@[j].1@.dom().len(),
            total == sum_sizes(cache@.take(i as int)),
        decreases cache@.len() - i,
    {
        let n = cache[i].1.len();
        proof {
            assert(cache@.take(i as int + 1).drop_last() =~= cache@.take(i as int));
            assert(cache@.take(i as int + 1).last() == cache@[i as int]);
            assert forall|j: int| 0 <= j < i implies #[trigger] sizes@[j] == cache@.take(
                i as int,
            )[j].1@.dom().len() by {}
            lemma_sum_sizes_bound(cache@.take(i as int), sizes@);
            assert(i * usize::MAX + usize::MAX <= u128::MAX) by (nonlinear_arith)
                requires
                    i <= usize::MAX,
                    usize::MAX <= 0xFFFF_FFFF_FFFF_FFFF,
            ;
            sizes@ = sizes@.push(n);
        }
        total = total + n as u128;
        i += 1;
    }
    proof {
        assert(cache@.take(i as int) =~= cache@);
    }
    total
}

impl SafeHoldApp {
    /// Brings the statistics up to date: the projects of the catalog, all
    /// loaded credentials, and the keys that more than one bucket holds.
    pub fn update_statistics(&mut self)
        ensures
            final(self).total_projects == old(self).cfg.sets@.len(),
            final(self).total_credentials == sum_sizes(old(self).maps_cache@),
            is_duplicates(
                dup_views(final(self).duplicate_keys@),
                old(self).maps_cache@,
                bucket_ids(old(self).cfg),
            ),
            *final(self) == (SafeHoldApp {
                total_projects: final(self).total_projects,
                total_credentials: final(self).total_credentials,
                duplicate_keys: final(self).duplicate_keys,
                ..*old(self)
            }),
    {
        self.total_projects = self.cfg.sets.len();
        self.total_credentials = count_loaded(&self.maps_cache);
        let ids = bucket_id_list(&self.cfg);
        self.duplicate_keys = duplicates(&self.maps_cache, &ids);
    }

    /// Takes in the catalog as it was read again, if it could be read, and
    /// brings the statistics up to date.
    pub fn refresh_config(&mut self, loaded: Option<Config>)
        ensures
            loaded is None ==> *final(self) == *old(self),
            loaded matches Some(c) ==> {
                &&& final(self).cfg == c
                &&& final(self).total_projects == c.sets@.len()
                &&& final(self).total_credentials == sum_sizes(old(self).maps_cache@)
                &&& is_duplicates(
                    dup_views(final(self).duplicate_keys@),
                    old(self).maps_cache@,
                    bucket_ids(c),
                )
                &&& *final(self) == (SafeHoldApp {
                    cfg: c,
                    total_projects: final(self).total_projects,
                    total_credentials: final(self).total_credentials,
                    duplicate_keys: final(self).duplicate_keys,
                    ..*old(self)
                })
            },
    {
        match loaded {
            None => {},
            Some(c) => {
                self.cfg = c;
                self.update_statistics();
            },
        }
    }

    /// Takes in what saving after a deletion gave: the user is told, and
    /// after a success the statistics are brought up to date.
    pub fn key_deleted(&mut self, key: &str, outcome: Result<(), String>)
        ensures
            match outcome {
                Ok(_) => {
                    &&& note_views(final(self).notifications@) == noted(
                        note_views(old(self).notifications@),
                        "Deleted credential '"@ + key@ + "'"@,
                        NotificationSeverity::Success,
                    )
                    &&& final(self).total_projects == old(self).cfg.sets@.len()
                    &&& final(self).total_credentials == sum_sizes(old(self).maps_cache@)
                    &&& is_duplicates(
                        dup_views(final(self).duplicate_keys@),
                        old(self).maps_cache@,
                        bucket_ids(old(self).cfg),
                    )
                },
                Err(e) => {
                    &&& note_views(final(self).notifications@) == noted(
                        note_views(old(self).notifications@),
                        "Delete failed: "@ + e@,
                        NotificationSeverity::Error,
                    )
                    &&& final(self).total_projects == old(self).total_projects
                    &&& final(self).total_credentials == old(self).total_credentials
                    &&& final(self).duplicate_keys == old(self).duplicate_keys
                },
            },
            *final(self) == (SafeHoldApp {
                notifications: final(self).notifications,
                total_projects: final(self).total_projects,
                total_credentials: final(self).total_credentials,
                duplicate_keys: final(self).duplicate_keys,
                ..*old(self)
            }),
    {
        match outcome {
            Err(e) => {
                let mut text = "Delete failed: ".to_string();
                text.append(e.as_str());
                notify(&mut self.notifications, text, NotificationSeverity::Error);
            },
            Ok(_) => {
                let text = framed("Deleted credential '", key, "'");
                notify(&mut self.notifications, text, NotificationSeverity::Success);
                self.update_statistics();
            },
        }
    }
}

} // verus!
