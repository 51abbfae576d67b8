//! Database health classification and project-root detection.
//!
//! Both are decisions over read-only probes of the filesystem and the
//! store. The probes themselves (does a file exist, does it open read-only,
//! what does its header say) are taken by the caller and handed in as plain
//! values; the decisions here are exact functions of them.
use vstd::prelude::*;
use crate::constants::EXPECTED_APPLICATION_ID;
use crate::error::ExitCode;

verus! {

/// Database health status, ordered by severity.
#[derive(Debug, Clone, Copy, PartialEq, Eq, Structural)]
#[non_exhaustive]
pub enum DatabaseHealth {
    /// Database exists, schema complete, has indexed content.
    Healthy,
    /// Schema exists but contains zero indexed files.
    Empty,
    /// No database file found at expected location.
    Missing,
    /// Database file exists but cannot be opened.
    Unreadable,
    /// Database opens but has another application's identifier; never auto-deleted.
    WrongApplicationId,
    /// Database opens but schema is incomplete.
    SchemaInvalid,
    /// Header or row count unreadable.
    Corrupted,
}

impl DatabaseHealth {
    /// Returns true if the database can be used for searching.
    pub fn is_usable(&self) -> (r: bool)
        ensures
            r == (*self == DatabaseHealth::Healthy),
    {
        matches!(self, DatabaseHealth::Healthy)
    }

    /// Returns true if auto-init should be attempted.
    pub fn needs_init(&self) -> (r: bool)
        ensures
            r == (*self == DatabaseHealth::Missing || *self == DatabaseHealth::Empty),
    {
        matches!(self, DatabaseHealth::Missing | DatabaseHealth::Empty)
    }

    /// Returns true if the database needs backup and reinitialization.
    pub fn needs_reinit(&self) -> (r: bool)
        ensures
            r == (*self == DatabaseHealth::SchemaInvalid || *self == DatabaseHealth::Corrupted),
    {
        matches!(self, DatabaseHealth::SchemaInvalid | DatabaseHealth::Corrupted)
    }

    /// Returns true if this is an unrecoverable state requiring user action.
    pub fn is_unrecoverable(&self) -> (r: bool)
        ensures
            r == (*self == DatabaseHealth::WrongApplicationId || *self
                == DatabaseHealth::Unreadable),
    {
        matches!(self, DatabaseHealth::WrongApplicationId | DatabaseHealth::Unreadable)
    }
}

/// What the read-only probes of one database file found, in the order in
/// which they are taken. A probe that was not reached (because an earlier
/// one failed) is ignored.
#[derive(Debug, Clone, Copy, PartialEq, Eq, Structural)]
pub struct DbProbe {
    /// The database file exists.
    pub exists: bool,
    /// It opened read-only.
    pub opened: bool,
    /// The header's application identifier, if it could be read.
    pub application_id: Option<u32>,
    /// Every schema object (two tables, three triggers, three indexes) is present.
    pub schema_complete: bool,
    /// The number of file records, if the count query succeeded.
    pub file_count: Option<u64>,
}

/// The health verdict for a probe, fail-fast in probe order.
pub open spec fn health_of(p: DbProbe) -> DatabaseHealth {
    if !p.exists {
        DatabaseHealth::Missing
    } else if !p.opened {
        DatabaseHealth::Unreadable
    } else if p.application_id is None {
        DatabaseHealth::Corrupted
    } else if p.application_id != Some(EXPECTED_APPLICATION_ID) {
        DatabaseHealth::WrongApplicationId
    } else if !p.schema_complete {
        DatabaseHealth::SchemaInvalid
    } else {
        match p.file_count {
            None => DatabaseHealth::Corrupted,
            Some(0) => DatabaseHealth::Empty,
            Some(_) => DatabaseHealth::Healthy,
        }
    }
}

/// Whether a probed file is one of this indexer's databases: it exists,
/// opens read-only and carries the expected application identifier.
pub open spec fn is_ours(p: DbProbe) -> bool {
    p.exists && p.opened && p.application_id == Some(EXPECTED_APPLICATION_ID)
}

/// Classifies a database from its probes: missing file, then unreadable,
/// then header identifier (absent: corrupted; foreign: wrong application),
/// then schema completeness, then row count (failed: corrupted; zero:
/// empty; positive: healthy).
pub fn check_health_fast(probe: &DbProbe) -> (r: DatabaseHealth)
    ensures
        r == health_of(*probe),
{
    if !probe.exists {
        return DatabaseHealth::Missing;
    }
    if !probe.opened {
        return DatabaseHealth::Unreadable;
    }
    match probe.application_id {
        Some(id) => {
            if id != EXPECTED_APPLICATION_ID {
                return DatabaseHealth::WrongApplicationId;
            }
        },
        None => {
            return DatabaseHealth::Corrupted;
        },
    }
    if !probe.schema_complete {
        return DatabaseHealth::SchemaInvalid;
    }
    match probe.file_count {
        None => DatabaseHealth::Corrupted,
        Some(0) => DatabaseHealth::Empty,
        Some(_) => DatabaseHealth::Healthy,
    }
}

/// Returns true only for a file that exists, opens read-only and carries
/// this indexer's application identifier; an empty, corrupt or foreign
/// database is not a root marker.
pub fn is_valid_ffts_database(probe: &DbProbe) -> (r: bool)
    ensures
        r == is_ours(*probe),
{
    probe.exists && probe.opened && match probe.application_id {
        Some(id) => id == EXPECTED_APPLICATION_ID,
        None => false,
    }
}

/// A healthy verdict is only given to one of this indexer's databases.
pub proof fn lemma_healthy_is_ours(p: DbProbe)
    ensures
        health_of(p) == DatabaseHealth::Healthy ==> is_ours(p) && p.schema_complete && p.file_count
            is Some && p.file_count->0 > 0,
{
}

/// What a search does about the database before it runs.
#[derive(Debug, Clone, Copy, PartialEq, Eq, Structural)]
pub enum Recovery {
    /// The database is usable: search it.
    Proceed,
    /// Build the database (missing or empty).
    AutoInit,
    /// Back up the damaged database and build a new one.
    BackupAndReinit,
    /// Stop with this exit status; nothing is repaired.
    Stop(ExitCode),
}

/// What a search does for each health state: a usable database is used;
/// a missing or empty one is initialized, a damaged one backed up and
/// initialized again,
/// unless automatic initialization is off (then the search stops with a
/// data error); a foreign database stops with a data error and an
/// unreadable one with a permission error, never repaired.
pub open spec fn recovery_for(h: DatabaseHealth, no_auto_init: bool) -> Recovery {
    match h {
        DatabaseHealth::Healthy => Recovery::Proceed,
        DatabaseHealth::Missing | DatabaseHealth::Empty => if no_auto_init {
            Recovery::Stop(ExitCode::DataErr)
        } else {
            Recovery::AutoInit
        },
        DatabaseHealth::SchemaInvalid | DatabaseHealth::Corrupted => if no_auto_init {
            Recovery::Stop(ExitCode::DataErr)
        } else {
            Recovery::BackupAndReinit
        },
        DatabaseHealth::WrongApplicationId => Recovery::Stop(ExitCode::DataErr),
        DatabaseHealth::Unreadable => Recovery::Stop(ExitCode::NoPerm),
    }
}

/// Chooses the recovery step for a health verdict.
pub fn plan_recovery(health: DatabaseHealth, no_auto_init: bool) -> (r: Recovery)
    ensures
        r == recovery_for(health, no_auto_init),
{
    match health {
        DatabaseHealth::Healthy => Recovery::Proceed,
        DatabaseHealth::Missing | DatabaseHealth::Empty => if no_auto_init {
            Recovery::Stop(ExitCode::DataErr)
        } else {
            Recovery::AutoInit
        },
        DatabaseHealth::SchemaInvalid | DatabaseHealth::Corrupted => if no_auto_init {
            Recovery::Stop(ExitCode::DataErr)
        } else {
            Recovery::BackupAndReinit
        },
        DatabaseHealth::WrongApplicationId => Recovery::Stop(ExitCode::DataErr),
        DatabaseHealth::Unreadable => Recovery::Stop(ExitCode::NoPerm),
    }
}

/// A foreign or unreadable database is never repaired automatically.
pub proof fn lemma_unrecoverable_never_repaired(h: DatabaseHealth, no_auto_init: bool)
    requires
        h == DatabaseHealth::WrongApplicationId || h == DatabaseHealth::Unreadable,
    ensures
        recovery_for(h, no_auto_init) is Stop,
{
}

// ---------------------------------------------------------------------
// Project root detection
// ---------------------------------------------------------------------

/// Method used to detect project root.
#[derive(Debug, Clone, Copy, PartialEq, Eq, Structural)]
pub enum DetectionMethod {
    /// Found an existing valid database (highest priority).
    ExistingDatabase,
    /// Found a `.git` directory.
    GitRepository,
    /// Used the start directory as-is.
    Fallback,
}

/// Project root detection result.
#[derive(Debug, Clone, PartialEq, Eq)]
pub struct ProjectRoot {
    /// The detected project root path.
    pub path: String,
    /// How the root was detected.
    pub method: DetectionMethod,
}

/// The probes of one ancestor directory.
#[derive(Debug, Clone)]
pub struct AncestorProbe {
    /// The ancestor's path.
    pub path: String,
    /// What the probes of `<ancestor>/<DB_NAME>` found.
    pub database: DbProbe,
    /// `<ancestor>/.git` exists.
    pub has_git: bool,
}

/// The first index at or after `i` whose database is ours, if any.
pub open spec fn first_db_from(a: Seq<AncestorProbe>, i: int) -> Option<int>
    decreases a.len() - i,
{
    if i < 0 || i >= a.len() {
        None
    } else if is_ours(a[i].database) {
        Some(i)
    } else {
        first_db_from(a, i + 1)
    }
}

/// The first index at or after `i` that holds a `.git` marker, if any.
pub open spec fn first_git_from(a: Seq<AncestorProbe>, i: int) -> Option<int>
    decreases a.len() - i,
{
    if i < 0 || i >= a.len() {
        None
    } else if a[i].has_git {
        Some(i)
    } else {
        first_git_from(a, i + 1)
    }
}

/// The root chosen for ancestors listed deepest first: the nearest valid
/// database, else the nearest `.git`, else the start directory.
pub open spec fn root_choice(start: Seq<char>, a: Seq<AncestorProbe>) -> (Seq<char>, DetectionMethod) {
    match first_db_from(a, 0) {
        Some(i) => (a[i].path@, DetectionMethod::ExistingDatabase),
        None => match first_git_from(a, 0) {
            Some(i) => (a[i].path@, DetectionMethod::GitRepository),
            None => (start, DetectionMethod::Fallback),
        },
    }
}

/// Finds the project root from the probes of the ancestors of `start_dir`,
/// listed from `start_dir` itself up to the filesystem root: a directory
/// holding a valid database of this indexer wins, then the nearest
/// directory holding `.git`, then `start_dir` itself.
pub fn find_project_root(start_dir: &str, ancestors: &Vec<AncestorProbe>) -> (r: ProjectRoot)
    ensures
        (r.path@, r.method) == root_choice(start_dir@, ancestors@),
{
    let mut git_root: Option<usize> = None;
    let mut i: usize = 0;
    while i < ancestors.len()
        invariant
            i <= ancestors.len(),
            first_db_from(ancestors@, 0) == first_db_from(ancestors@, i as int),
            git_root is None ==> first_git_from(ancestors@, 0) == first_git_from(
                ancestors@,
                i as int,
            ),
            git_root matches Some(g) ==> first_git_from(ancestors@, 0) == Some(g as int) && g < i,
        decreases ancestors.len() - i,
    {
        if is_valid_ffts_database(&ancestors[i].database) {
            return ProjectRoot {
                path: ancestors[i].path.clone(),
                method: DetectionMethod::ExistingDatabase,
            };
        }
        if git_root.is_none() && ancestors[i].has_git {
            git_root = Some(i);
        }
        i = i + 1;
    }
    match git_root {
        Some(g) => ProjectRoot { path: ancestors[g].path.clone(), method: DetectionMethod::GitRepository },
        None => ProjectRoot {
            path: crate::text::string_from_str(start_dir),
            method: DetectionMethod::Fallback,
        },
    }
}

/// Root detection priority: with a database candidate at ancestor `db`
/// (the only ancestor with one) and the nearest `.git` at a deeper
/// ancestor `git`, the chosen root is the `.git` directory exactly when
/// the database fails the identity check, and the database's directory
/// otherwise.
pub proof fn lemma_root_priority(start: Seq<char>, a: Seq<AncestorProbe>, db: int, git: int)
    requires
        0 <= git < db < a.len(),
        a[git].has_git,
        forall|k: int| 0 <= k < git ==> !(#[trigger] a[k]).has_git,
        forall|k: int| 0 <= k < a.len() && k != db ==> !is_ours((#[trigger] a[k]).database),
    ensures
        is_ours(a[db].database) ==> root_choice(start, a) == (a[db].path@,
            DetectionMethod::ExistingDatabase),
        !is_ours(a[db].database) ==> root_choice(start, a) == (a[git].path@,
            DetectionMethod::GitRepository),
{
    lemma_first_db_is(a, 0, db);
    lemma_first_git_is(a, 0, git);
}

proof fn lemma_first_db_is(a: Seq<AncestorProbe>, i: int, db: int)
    requires
        0 <= i <= db < a.len(),
        forall|k: int| 0 <= k < a.len() && k != db ==> !is_ours((#[trigger] a[k]).database),
    ensures
        first_db_from(a, i) == if is_ours(a[db].database) {
            Some(db)
        } else {
            None::<int>
        },
    decreases a.len() - i,
{
    if i < db {
        lemma_first_db_is(a, i + 1, db);
    } else if !is_ours(a[db].database) {
        lemma_first_db_none(a, i + 1);
    }
}

proof fn lemma_first_db_none(a: Seq<AncestorProbe>, i: int)
    requires
        0 <= i,
        forall|k: int| i <= k < a.len() ==> !is_ours((#[trigger] a[k]).database),
    ensures
        first_db_from(a, i) is None,
    decreases a.len() - i,
{
    if i < a.len() {
        lemma_first_db_none(a, i + 1);
    }
}

proof fn lemma_first_git_is(a: Seq<AncestorProbe>, i: int, git: int)
    requires
        0 <= i <= git < a.len(),
        a[git].has_git,
        forall|k: int| 0 <= k < git ==> !(#[trigger] a[k]).has_git,
    ensures
        first_git_from(a, i) == Some(git),
    decreases git - i,
{
    if i < git {
        lemma_first_git_is(a, i + 1, git);
    }
}

} // verus!
