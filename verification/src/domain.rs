//! The persisted data model: configuration, state and the discovery cache.
//!
//! Paths are held as text: the library never touches the file system
//! itself except through the few probes in `facts`.

use vstd::prelude::*;

verus! {

/// The schema version this build reads and writes.
pub const CURRENT_SCHEMA_VERSION: u32 = 1;

/// A persisted document that records the schema version it was written with.
pub trait Versioned {
    fn schema_version(&self) -> u32;
}

/// A copy of an optional string, equal to it.
pub fn copy_opt_string(o: &Option<String>) -> (r: Option<String>)
    ensures
        r == *o,
{
    match o {
        Some(s) => Some(s.clone()),
        None => None,
    }
}

/// A copy of a list of strings, equal to it.
pub fn copy_strings(v: &Vec<String>) -> (r: Vec<String>)
    ensures
        r@ == v@,
{
    let mut r: Vec<String> = Vec::new();
    let mut i: usize = 0;
    while i < v.len()
        invariant
            i <= v@.len(),
            r@ == v@.subrange(0, i as int),
        decreases v@.len() - i,
    {
        r.push(v[i].clone());
        i = i + 1;
        assert(r@ == v@.subrange(0, i as int));
    }
    assert(v@.subrange(0, v@.len() as int) == v@);
    r
}

/// Per-repo configuration.
#[derive(Debug, PartialEq, Eq)]
pub struct RepoConfig {
    pub alias: String,
    pub canonical_path: String,
    pub base_branch: Option<String>,
}

/// User configuration: scan roots, the worktree root and per-repo settings.
///
/// `repos` is a map from alias to settings, kept as pairs ordered by key.
#[derive(Debug, PartialEq, Eq)]
pub struct Config {
    pub schema_version: u32,
    pub scan_roots: Vec<String>,
    pub default_worktree_root: Option<String>,
    pub repos: Vec<(String, RepoConfig)>,
}

impl Config {
    /// An empty configuration at the current schema version.
    pub fn default() -> (r: Self)
        ensures
            r.schema_version == CURRENT_SCHEMA_VERSION,
            r.scan_roots@.len() == 0,
            r.default_worktree_root is None,
            r.repos@.len() == 0,
    {
        Config {
            schema_version: CURRENT_SCHEMA_VERSION,
            scan_roots: Vec::new(),
            default_worktree_root: None,
            repos: Vec::new(),
        }
    }
}

impl Versioned for Config {
    fn schema_version(&self) -> (r: u32)
        ensures
            r == self.schema_version,
    {
        self.schema_version
    }
}

/// How a repo came to be known.
#[derive(Debug, Clone, Copy, PartialEq, Eq, Structural)]
pub enum RepoSource {
    Adopted,
    Scanned,
    Workroot,
}

/// Who created a worktree.
#[derive(Debug, Clone, Copy, PartialEq, Eq, Structural)]
pub enum WorktreeSource {
    Workroot,
    Workmux,
    Manual,
    Unknown,
}

/// Whether a worktree has uncommitted changes, as last observed.
#[derive(Debug, Clone, Copy, PartialEq, Eq, Structural)]
pub enum DirtyState {
    Unknown,
    Clean,
    Dirty { files: u32 },
}

/// The terminal multiplexer that hosts a managed session.
#[derive(Debug, Clone, Copy, PartialEq, Eq, Structural)]
pub enum SessionBackend {
    Tmux,
}

/// The last known state of a managed session.
#[derive(Debug, Clone, Copy, PartialEq, Eq, Structural)]
pub enum SessionStatus {
    Running,
    Exited,
    Unknown,
}

/// A repo family as remembered in the persisted state.
#[derive(Debug, PartialEq, Eq)]
pub struct RepoState {
    pub alias: String,
    pub canonical_path: String,
    pub git_common_dir: String,
    pub base_branch: Option<String>,
    pub source: RepoSource,
}

/// A repo the user asked Workroot to hide.
#[derive(Debug, PartialEq, Eq)]
pub struct IgnoredRepo {
    pub alias: Option<String>,
    pub canonical_path: String,
    pub git_common_dir: String,
}

impl IgnoredRepo {
    pub fn duplicate(&self) -> (r: Self)
        ensures
            r == *self,
    {
        IgnoredRepo {
            alias: copy_opt_string(&self.alias),
            canonical_path: self.canonical_path.clone(),
            git_common_dir: self.git_common_dir.clone(),
        }
    }
}

/// A command session that Workroot started and manages.
#[derive(Debug, PartialEq, Eq)]
pub struct SessionRecord {
    pub repo_alias: String,
    pub target: String,
    pub worktree_path: String,
    pub backend: SessionBackend,
    pub command: Vec<String>,
    pub tmux_session_name: String,
    pub status: SessionStatus,
}

impl SessionRecord {
    pub fn duplicate(&self) -> (r: Self)
        ensures
            r.repo_alias == self.repo_alias,
            r.target == self.target,
            r.worktree_path == self.worktree_path,
            r.backend == self.backend,
            r.command@ == self.command@,
            r.tmux_session_name == self.tmux_session_name,
            r.status == self.status,
    {
        SessionRecord {
            repo_alias: self.repo_alias.clone(),
            target: self.target.clone(),
            worktree_path: self.worktree_path.clone(),
            backend: self.backend,
            command: copy_strings(&self.command),
            tmux_session_name: self.tmux_session_name.clone(),
            status: self.status,
        }
    }
}

/// Machine-wide state: adopted paths, ignored repos, known repos and sessions.
///
/// `repos` is a map from alias to repo state, kept as pairs ordered by key.
#[derive(Debug, PartialEq, Eq)]
pub struct State {
    pub schema_version: u32,
    pub adopted_paths: Vec<String>,
    pub ignored_repos: Vec<IgnoredRepo>,
    pub repos: Vec<(String, RepoState)>,
    pub sessions: Vec<SessionRecord>,
}

impl State {
    /// An empty state at the current schema version.
    pub fn default() -> (r: Self)
        ensures
            r.schema_version == CURRENT_SCHEMA_VERSION,
            r.adopted_paths@.len() == 0,
            r.ignored_repos@.len() == 0,
            r.repos@.len() == 0,
            r.sessions@.len() == 0,
    {
        State {
            schema_version: CURRENT_SCHEMA_VERSION,
            adopted_paths: Vec::new(),
            ignored_repos: Vec::new(),
            repos: Vec::new(),
            sessions: Vec::new(),
        }
    }
}

impl Versioned for State {
    fn schema_version(&self) -> (r: u32)
        ensures
            r == self.schema_version,
    {
        self.schema_version
    }
}

/// One repo family in the discovery cache.
#[derive(Debug, PartialEq, Eq)]
pub struct RepoRecord {
    pub alias: String,
    pub display_name: String,
    pub canonical_path: String,
    pub git_common_dir: String,
    pub base_branch: Option<String>,
    pub source: RepoSource,
    pub stale: bool,
}

impl RepoRecord {
    pub fn duplicate(&self) -> (r: Self)
        ensures
            r == *self,
    {
        RepoRecord {
            alias: self.alias.clone(),
            display_name: self.display_name.clone(),
            canonical_path: self.canonical_path.clone(),
            git_common_dir: self.git_common_dir.clone(),
            base_branch: copy_opt_string(&self.base_branch),
            source: self.source,
            stale: self.stale,
        }
    }
}

/// One worktree in the discovery cache.
#[derive(Debug, PartialEq, Eq)]
pub struct WorktreeRecord {
    pub repo_alias: String,
    pub target: String,
    pub display_name: String,
    pub branch: Option<String>,
    pub path: String,
    pub source: WorktreeSource,
    pub dirty: DirtyState,
    pub last_seen_unix: Option<i64>,
    pub stale: bool,
    pub detached: bool,
}

impl WorktreeRecord {
    pub fn duplicate(&self) -> (r: Self)
        ensures
            r == *self,
    {
        WorktreeRecord {
            repo_alias: self.repo_alias.clone(),
            target: self.target.clone(),
            display_name: self.display_name.clone(),
            branch: copy_opt_string(&self.branch),
            path: self.path.clone(),
            source: self.source,
            dirty: self.dirty,
            last_seen_unix: self.last_seen_unix,
            stale: self.stale,
            detached: self.detached,
        }
    }
}

/// The discovery cache: every known repo family and worktree.
#[derive(Debug, PartialEq, Eq)]
pub struct Cache {
    pub schema_version: u32,
    pub repos: Vec<RepoRecord>,
    pub worktrees: Vec<WorktreeRecord>,
    pub last_scan_unix: Option<i64>,
}

impl Cache {
    /// An empty cache at the current schema version.
    pub fn default() -> (r: Self)
        ensures
            r.schema_version == CURRENT_SCHEMA_VERSION,
            r.repos@.len() == 0,
            r.worktrees@.len() == 0,
            r.last_scan_unix is None,
    {
        Cache {
            schema_version: CURRENT_SCHEMA_VERSION,
            repos: Vec::new(),
            worktrees: Vec::new(),
            last_scan_unix: None,
        }
    }

    pub fn duplicate(&self) -> (r: Self)
        ensures
            r.schema_version == self.schema_version,
            r.repos@ == self.repos@,
            r.worktrees@ == self.worktrees@,
            r.last_scan_unix == self.last_scan_unix,
    {
        let mut repos: Vec<RepoRecord> = Vec::new();
        let mut i: usize = 0;
        while i < self.repos.len()
            invariant
                i <= self.repos@.len(),
                repos@ == self.repos@.subrange(0, i as int),
            decreases self.repos@.len() - i,
        {
            repos.push(self.repos[i].duplicate());
            i = i + 1;
            assert(repos@ == self.repos@.subrange(0, i as int));
        }
        let mut worktrees: Vec<WorktreeRecord> = Vec::new();
        let mut j: usize = 0;
        while j < self.worktrees.len()
            invariant
                j <= self.worktrees@.len(),
                worktrees@ == self.worktrees@.subrange(0, j as int),
            decreases self.worktrees@.len() - j,
        {
            worktrees.push(self.worktrees[j].duplicate());
            j = j + 1;
            assert(worktrees@ == self.worktrees@.subrange(0, j as int));
        }
        assert(repos@ == self.repos@);
        assert(worktrees@ == self.worktrees@);
        Cache {
            schema_version: self.schema_version,
            repos,
            worktrees,
            last_scan_unix: self.last_scan_unix,
        }
    }
}

impl Versioned for Cache {
    fn schema_version(&self) -> (r: u32)
        ensures
            r == self.schema_version,
    {
        self.schema_version
    }
}

} // verus!

verus! {

// ---------------------------------------------------------------------
// Mathematical views of the records
// ---------------------------------------------------------------------

pub open spec fn opt_str(o: Option<String>) -> Option<Seq<char>> {
    match o {
        Some(s) => Some(s@),
        None => None,
    }
}

pub struct RepoRecordV {
    pub alias: Seq<char>,
    pub display_name: Seq<char>,
    pub canonical_path: Seq<char>,
    pub git_common_dir: Seq<char>,
    pub base_branch: Option<Seq<char>>,
    pub source: RepoSource,
    pub stale: bool,
}

impl View for RepoRecord {
    type V = RepoRecordV;

    open spec fn view(&self) -> RepoRecordV {
        RepoRecordV {
            alias: self.alias@,
            display_name: self.display_name@,
            canonical_path: self.canonical_path@,
            git_common_dir: self.git_common_dir@,
            base_branch: opt_str(self.base_branch),
            source: self.source,
            stale: self.stale,
        }
    }
}

pub struct WorktreeRecordV {
    pub repo_alias: Seq<char>,
    pub target: Seq<char>,
    pub display_name: Seq<char>,
    pub branch: Option<Seq<char>>,
    pub path: Seq<char>,
    pub source: WorktreeSource,
    pub dirty: DirtyState,
    pub last_seen_unix: Option<i64>,
    pub stale: bool,
    pub detached: bool,
}

impl View for WorktreeRecord {
    type V = WorktreeRecordV;

    open spec fn view(&self) -> WorktreeRecordV {
        WorktreeRecordV {
            repo_alias: self.repo_alias@,
            target: self.target@,
            display_name: self.display_name@,
            branch: opt_str(self.branch),
            path: self.path@,
            source: self.source,
            dirty: self.dirty,
            last_seen_unix: self.last_seen_unix,
            stale: self.stale,
            detached: self.detached,
        }
    }
}

pub struct RepoStateV {
    pub alias: Seq<char>,
    pub canonical_path: Seq<char>,
    pub git_common_dir: Seq<char>,
    pub base_branch: Option<Seq<char>>,
    pub source: RepoSource,
}

impl View for RepoState {
    type V = RepoStateV;

    open spec fn view(&self) -> RepoStateV {
        RepoStateV {
            alias: self.alias@,
            canonical_path: self.canonical_path@,
            git_common_dir: self.git_common_dir@,
            base_branch: opt_str(self.base_branch),
            source: self.source,
        }
    }
}

pub struct IgnoredRepoV {
    pub alias: Option<Seq<char>>,
    pub canonical_path: Seq<char>,
    pub git_common_dir: Seq<char>,
}

impl View for IgnoredRepo {
    type V = IgnoredRepoV;

    open spec fn view(&self) -> IgnoredRepoV {
        IgnoredRepoV {
            alias: opt_str(self.alias),
            canonical_path: self.canonical_path@,
            git_common_dir: self.git_common_dir@,
        }
    }
}

pub struct SessionRecordV {
    pub repo_alias: Seq<char>,
    pub target: Seq<char>,
    pub worktree_path: Seq<char>,
    pub backend: SessionBackend,
    pub command: Seq<Seq<char>>,
    pub tmux_session_name: Seq<char>,
    pub status: SessionStatus,
}

impl View for SessionRecord {
    type V = SessionRecordV;

    open spec fn view(&self) -> SessionRecordV {
        SessionRecordV {
            repo_alias: self.repo_alias@,
            target: self.target@,
            worktree_path: self.worktree_path@,
            backend: self.backend,
            command: self.command@.map_values(|s: String| s@),
            tmux_session_name: self.tmux_session_name@,
            status: self.status,
        }
    }
}

pub open spec fn repo_views(v: Seq<RepoRecord>) -> Seq<RepoRecordV> {
    v.map_values(|r: RepoRecord| r@)
}

pub open spec fn worktree_views(v: Seq<WorktreeRecord>) -> Seq<WorktreeRecordV> {
    v.map_values(|w: WorktreeRecord| w@)
}

pub open spec fn repo_state_views(v: Seq<(String, RepoState)>) -> Seq<(Seq<char>, RepoStateV)> {
    v.map_values(|p: (String, RepoState)| (p.0@, p.1@))
}

pub open spec fn ignored_views(v: Seq<IgnoredRepo>) -> Seq<IgnoredRepoV> {
    v.map_values(|r: IgnoredRepo| r@)
}

pub open spec fn session_views(v: Seq<SessionRecord>) -> Seq<SessionRecordV> {
    v.map_values(|s: SessionRecord| s@)
}

pub open spec fn string_views(v: Seq<String>) -> Seq<Seq<char>> {
    v.map_values(|s: String| s@)
}

} // verus!
