//! The project store: creating, listing and deleting projects in the
//! catalog.

use vstd::prelude::*;
use vstd::string::*;
use vstd::utf8::encode_utf8;
use crate::cli::{CreateArgs, DeleteProjectArgs};
use crate::config::{global_dir, ids_of, next_set_id, next_set_id_spec, set_dir, Config, SetMeta};
use crate::crypto::{
    create_lock, default_params, derive_lock_spec, KeyError, LockInfo, ARGON2_MAX_INPUT,
};
use crate::codec::{trim, trimmed};
use crate::install::gui_available;
use crate::text::{lowercase, pair_views, str_eq, string_views, to_lowercase};

verus! {

/// Why the store refuses.
#[derive(Debug, Clone, Copy, PartialEq, Eq, Structural)]
pub enum StoreError {
    /// The directory of the project is there already.
    AlreadyExists,
    /// Neither the catalog nor the data directory knows the project.
    NotFound,
    /// A locked project is asked for and no password is given.
    PasswordRequired,
    /// The lock could not be made.
    Key(KeyError),
}

/// A project that was entered in the catalog; its directory and, where it
/// has one, its lock are still to be written.
#[derive(Debug)]
pub struct Created {
    pub id: String,
    pub lock: Option<LockInfo>,
}

/// What `delete-project` did.
#[derive(Debug, Clone, Copy, PartialEq, Eq, Structural)]
pub enum DeleteOutcome {
    /// The confirmation was not given. Nothing changed.
    Cancelled,
    /// The project left the catalog; its directory is to be removed where
    /// there is one.
    Deleted { global: bool, remove_dir: bool },
}

/// What `launch` leads to.
#[derive(Debug, Clone, Copy, PartialEq, Eq, Structural)]
pub enum LaunchAction {
    StartGui,
    GuiUnavailable,
    ShowOptions { gui_available: bool },
}

/// What `setup` does about the search path.
#[derive(Debug, Clone, Copy, PartialEq, Eq, Structural)]
pub enum SetupAction {
    /// Says what would be done.
    DryRun,
    /// Adds the program's directory to the search path.
    UpdatePath,
    /// Says how to do it by hand.
    ManualHint,
}

/// Whether `x` is the id or the name of the project.
pub open spec fn names_project(s: SetMeta, x: Seq<char>) -> bool {
    s.id@ == x || s.name@ == x
}

/// The first project that `id_or_name` is the id or the name of.
pub fn resolve_project(sets: &[SetMeta], id_or_name: &str) -> (r: Option<usize>)
    ensures
        r matches Some(i) ==> i < sets@.len() && names_project(sets@[i as int], id_or_name@)
            && forall|j: int| 0 <= j < i ==> !names_project(#[trigger] sets@[j], id_or_name@),
        r is None ==> forall|j: int|
            0 <= j < sets@.len() ==> !names_project(#[trigger] sets@[j], id_or_name@),
{
    let mut i: usize = 0;
    while i < sets.len()
        invariant
            i <= sets@.len(),
            forall|j: int| 0 <= j < i ==> !names_project(#[trigger] sets@[j], id_or_name@),
        decreases sets@.len() - i,
    {
        if str_eq(sets[i].id.as_str(), id_or_name) || str_eq(sets[i].name.as_str(), id_or_name) {
            return Some(i);
        }
        i += 1;
    }
    None
}

/// The id that a new project gets: `global` is its own id.
pub open spec fn project_id_spec(name: Seq<char>, ids: Seq<Seq<char>>) -> Seq<char> {
    if name == "global"@ {
        name
    } else {
        next_set_id_spec(name, ids)
    }
}

/// The id that a new project named `name` gets.
pub fn project_id(name: &str, sets: &[SetMeta]) -> (id: String)
    ensures
        id@ == project_id_spec(name@, ids_of(sets@)),
{
    if str_eq(name, "global") {
        name.to_string()
    } else {
        next_set_id(name, sets)
    }
}

/// Where the files of the bucket with the id are, below the data directory.
pub fn project_dir(id: &str) -> (path: Vec<String>)
    ensures
        string_views(path@) == if id@ == "global"@ {
            seq!["global"@]
        } else {
            seq!["credentials"@, id@]
        },
{
    if str_eq(id, "global") {
        global_dir()
    } else {
        set_dir(id)
    }
}

/// What the catalog is after a project was created.
pub open spec fn created_in(before: Config, after: Config, name: Seq<char>, lock: bool) -> bool {
    &&& after.created_at == before.created_at
    &&& after.version == before.version
    &&& if name == "global"@ {
        &&& after.sets == before.sets
        &&& after.global_locked == lock
    } else {
        &&& after.global_locked == before.global_locked
        &&& after.sets@.len() == before.sets@.len() + 1
        &&& after.sets@.drop_last() == before.sets@
        &&& after.sets@.last().id@ == next_set_id_spec(name, ids_of(before.sets@))
        &&& after.sets@.last().name@ == name
        &&& after.sets@.last().locked == lock
    }
}

/// Whether a password can lock a project: it can where Argon2 takes it.
pub open spec fn lockable(password: Option<String>) -> bool {
    password matches Some(p) && encode_utf8(p@).len() <= ARGON2_MAX_INPUT
}

/// Creates a project, or sets up the shared bucket where the name is
/// `global`: allocates the id, makes the lock where one is asked for, and
/// enters the project in the catalog. `dir_exists` says whether the
/// directory of the id is there already.
pub fn cmd_create(cfg: &mut Config, args: &CreateArgs, dir_exists: bool) -> (r: Result<
    Created,
    StoreError,
>)
    ensures
        r is Err ==> *final(cfg) == *old(cfg),
        r matches Err(e) ==> e == (if dir_exists {
            StoreError::AlreadyExists
        } else if args.password is None {
            StoreError::PasswordRequired
        } else {
            StoreError::Key(KeyError::InvalidKdfParams)
        }),
        r is Ok <==> !dir_exists && (args.lock ==> lockable(args.password)),
        r matches Ok(c) ==> {
            &&& c.id@ == project_id_spec(args.name@, ids_of(old(cfg).sets@))
            &&& created_in(*old(cfg), *final(cfg), args.name@, args.lock)
            &&& c.lock is Some <==> args.lock
            &&& c.lock matches Some(l) ==> l.kdf@ == "argon2id"@ && l.params == default_params()
                && derive_lock_spec(args.password->0@, l.salt_b64@, l.params) is Ok
        },
{
    if dir_exists {
        return Err(StoreError::AlreadyExists);
    }
    let id = project_id(args.name.as_str(), cfg.sets.as_slice());
    let lock = if args.lock {
        match &args.password {
            None => {
                return Err(StoreError::PasswordRequired);
            },
            Some(p) => match create_lock(p.as_str()) {
                Err(e) => {
                    return Err(StoreError::Key(e));
                },
                Ok(l) => Some(l),
            },
        }
    } else {
        None
    };
    if str_eq(args.name.as_str(), "global") {
        cfg.global_locked = args.lock;
    } else {
        let meta = SetMeta { id: id.clone(), name: args.name.clone(), locked: args.lock };
        let ghost before = cfg.sets@;
        cfg.sets.push(meta);
        assert(cfg.sets@.drop_last() =~= before);
    }
    Ok(Created { id, lock })
}

pub open spec fn lock_text(locked: bool) -> Seq<char> {
    if locked {
        "🔒 Locked"@
    } else {
        "🔓 Unlocked"@
    }
}

pub open spec fn project_row(s: SetMeta) -> (Seq<char>, Seq<char>) {
    (s.id@, s.name@ + " - "@ + lock_text(s.locked))
}

/// The rows of the listing: the shared bucket, then the projects in the
/// order of the catalog; nothing where there is no project and the shared
/// bucket has no lock.
pub open spec fn list_rows(cfg: Config) -> Seq<(Seq<char>, Seq<char>)> {
    if cfg.sets@.len() == 0 && !cfg.global_locked {
        Seq::empty()
    } else {
        seq![("GLOBAL"@, "global - "@ + lock_text(cfg.global_locked))] + cfg.sets@.map_values(
            |s: SetMeta| project_row(s),
        )
    }
}

fn lock_label(locked: bool) -> (s: &'static str)
    ensures
        s@ == lock_text(locked),
{
    if locked {
        "🔒 Locked"
    } else {
        "🔓 Unlocked"
    }
}

/// Lists the shared bucket and the projects, each with its lock state.
pub fn cmd_list_sets(cfg: &Config) -> (rows: Vec<(String, String)>)
    ensures
        pair_views(rows@) == list_rows(*cfg),
{
    let mut rows: Vec<(String, String)> = Vec::new();
    if cfg.sets.len() == 0 && !cfg.global_locked {
        assert(pair_views(rows@) =~= list_rows(*cfg));
        return rows;
    }
    let mut text = "global - ".to_string();
    text.append(lock_label(cfg.global_locked));
    rows.push(("GLOBAL".to_string(), text));
    let ghost head = pair_views(rows@);
    let ghost all = cfg.sets@.map_values(|s: SetMeta| project_row(s));
    assert(head =~= seq![("GLOBAL"@, "global - "@ + lock_text(cfg.global_locked))]);
    let mut i: usize = 0;
    assert(all.take(0) =~= Seq::empty());
    assert(pair_views(rows@) =~= head + all.take(0));
    while i < cfg.sets.len()
        invariant
            i <= cfg.sets@.len(),
            all == cfg.sets@.map_values(|s: SetMeta| project_row(s)),
            pair_views(rows@) == head + all.take(i as int),
        decreases cfg.sets@.len() - i,
    {
        let s = &cfg.sets[i];
        let mut text = s.name.clone();
        text.append(" - ");
        text.append(lock_label(s.locked));
        let row = (s.id.clone(), text);
        proof {
            assert(pair_views(rows@.push(row)) =~= pair_views(rows@).push((row.0@, row.1@)));
            assert((head + all.take(i as int)).push(all[i as int]) =~= head + all.take(
                i as int + 1,
            ));
        }
        rows.push(row);
        i += 1;
    }
    proof {
        assert(all.take(i as int) =~= all);
    }
    rows
}

/// Whether an answer confirms a deletion: `y` or `yes`, in any case, with
/// whitespace around it.
pub open spec fn says_yes(answer: Seq<char>) -> bool {
    let t = lowercase(trim(answer));
    t == "y"@ || t == "yes"@
}

/// Whether a lowercase answer is `y` or `yes`.
pub fn is_yes(lower: &str) -> (r: bool)
    ensures
        r == (lower@ == "y"@ || lower@ == "yes"@),
{
    str_eq(lower, "y") || str_eq(lower, "yes")
}

/// Whether an answer confirms a deletion.
pub fn confirms_deletion(answer: &str) -> (r: bool)
    ensures
        r == says_yes(answer@),
{
    let t = trimmed(answer);
    let lower = to_lowercase(t.as_str());
    is_yes(lower.as_str())
}

/// Whether the catalog knows the bucket: the shared one where it has a
/// lock, a project where it is entered.
pub open spec fn in_catalog(cfg: Config, id_or_name: Seq<char>) -> bool {
    if id_or_name == "global"@ {
        cfg.global_locked
    } else {
        exists|j: int| 0 <= j < cfg.sets@.len() && names_project(#[trigger] cfg.sets@[j], id_or_name)
    }
}

/// Whether the catalog knows the bucket.
pub fn knows(cfg: &Config, id_or_name: &str) -> (r: bool)
    ensures
        r == in_catalog(*cfg, id_or_name@),
{
    if str_eq(id_or_name, "global") {
        cfg.global_locked
    } else {
        match resolve_project(cfg.sets.as_slice(), id_or_name) {
            Some(i) => {
                assert(names_project(cfg.sets@[i as int], id_or_name@));
                true
            },
            None => false,
        }
    }
}

/// The place in the catalog of the first project that `x` names.
pub open spec fn is_first_match(sets: Seq<SetMeta>, x: Seq<char>, i: int) -> bool {
    &&& 0 <= i < sets.len()
    &&& names_project(sets[i], x)
    &&& forall|j: int| 0 <= j < i ==> !names_project(#[trigger] sets[j], x)
}

/// What the catalog is after a bucket was deleted: the shared bucket has
/// no lock; of the projects the first that `x` names is gone.
pub open spec fn deleted_from(before: Config, after: Config, x: Seq<char>) -> bool {
    &&& after.created_at == before.created_at
    &&& after.version == before.version
    &&& if x == "global"@ {
        after.sets == before.sets && !after.global_locked
    } else {
        &&& after.global_locked == before.global_locked
        &&& if in_catalog(before, x) {
            exists|i: int| #[trigger]
                is_first_match(before.sets@, x, i) && after.sets@ == before.sets@.remove(i)
        } else {
            after.sets == before.sets
        }
    }
}

/// Where the files of the bucket to delete are, below the data directory:
/// the directory of the project that `id_or_name` names, or else the one
/// that a project with that id would have.
pub fn delete_target_dir(cfg: &Config, id_or_name: &str) -> (path: Vec<String>)
    ensures
        string_views(path@) == if id_or_name@ == "global"@ {
            seq!["global"@]
        } else if in_catalog(*cfg, id_or_name@) {
            seq![
                "credentials"@,
                cfg.sets@[choose|i: int| is_first_match(cfg.sets@, id_or_name@, i)].id@,
            ]
        } else {
            seq!["credentials"@, id_or_name@]
        },
{
    if str_eq(id_or_name, "global") {
        return global_dir();
    }
    match resolve_project(cfg.sets.as_slice(), id_or_name) {
        Some(i) => {
            proof {
                assert(is_first_match(cfg.sets@, id_or_name@, i as int));
                let c = choose|c: int| is_first_match(cfg.sets@, id_or_name@, c);
                assert(c == i);
            }
            set_dir(cfg.sets[i].id.as_str())
        },
        None => set_dir(id_or_name),
    }
}

/// Deletes a project, named by id or by name, or the shared bucket.
/// `dir_exists` says whether its directory is there; `answer` is what was
/// entered at the confirmation, which is asked for unless the deletion is
/// forced.
pub fn cmd_delete_set(
    cfg: &mut Config,
    args: &DeleteProjectArgs,
    dir_exists: bool,
    answer: Option<&str>,
) -> (r: Result<DeleteOutcome, StoreError>)
    ensures
        r is Err <==> !in_catalog(*old(cfg), args.id@) && !dir_exists,
        r matches Err(e) ==> e == StoreError::NotFound,
        r is Err || r == Ok::<DeleteOutcome, StoreError>(DeleteOutcome::Cancelled) ==> *final(cfg)
            == *old(cfg),
        r is Ok ==> (r == Ok::<DeleteOutcome, StoreError>(DeleteOutcome::Cancelled) <==> !args.force
            && !(answer matches Some(a) && says_yes(a@))),
        r matches Ok(DeleteOutcome::Deleted { global, remove_dir }) ==> global == (args.id@
            == "global"@) && remove_dir == dir_exists && deleted_from(
            *old(cfg),
            *final(cfg),
            args.id@,
        ),
{
    let is_global = str_eq(args.id.as_str(), "global");
    let target = if is_global {
        None
    } else {
        resolve_project(cfg.sets.as_slice(), args.id.as_str())
    };
    let known = if is_global {
        cfg.global_locked
    } else {
        target.is_some()
    };
    proof {
        if !is_global {
            match target {
                Some(i) => {
                    assert(names_project(cfg.sets@[i as int], args.id@));
                },
                None => {},
            }
        }
    }
    if !known && !dir_exists {
        return Err(StoreError::NotFound);
    }
    if !args.force {
        let confirmed = match answer {
            Some(a) => confirms_deletion(a),
            None => false,
        };
        if !confirmed {
            return Ok(DeleteOutcome::Cancelled);
        }
    }
    if is_global {
        cfg.global_locked = false;
    } else {
        match target {
            Some(i) => {
                let ghost before = cfg.sets@;
                let _ = cfg.sets.remove(i);
                proof {
                    assert(is_first_match(before, args.id@, i as int));
                }
            },
            None => {},
        }
    }
    Ok(DeleteOutcome::Deleted { global: is_global, remove_dir: dir_exists })
}

/// `launch`: the graphical interface where it is asked for and built in,
/// else what can be started.
pub fn cmd_launch(gui: bool) -> (r: LaunchAction)
    ensures
        r == if gui {
            LaunchAction::GuiUnavailable
        } else {
            LaunchAction::ShowOptions { gui_available: false }
        },
{
    let available = gui_available();
    if gui {
        if available {
            LaunchAction::StartGui
        } else {
            LaunchAction::GuiUnavailable
        }
    } else {
        LaunchAction::ShowOptions { gui_available: available }
    }
}

/// `setup`: what to do about the search path. `dry_run` is the value of
/// the variable that asks for a dry run, `1` to ask.
pub fn cmd_setup(add_path: bool, dry_run: Option<&str>) -> (r: SetupAction)
    ensures
        r == if !add_path {
            SetupAction::ManualHint
        } else if dry_run matches Some(v) && v@ == "1"@ {
            SetupAction::DryRun
        } else {
            SetupAction::UpdatePath
        },
{
    if !add_path {
        return SetupAction::ManualHint;
    }
    match dry_run {
        Some(v) => {
            if str_eq(v, "1") {
                SetupAction::DryRun
            } else {
                SetupAction::UpdatePath
            }
        },
        None => SetupAction::UpdatePath,
    }
}

} // verus!
