//! Status views: the machine-wide worktree table, the radar of worktrees
//! and tmux processes, the session table and completion lists.
//!
//! What git and tmux report live is taken as input (`LiveProbes`); the
//! views are verified for every such report.

use vstd::prelude::*;

pub mod radar;

pub use radar::{
    build_radar_view, filtered_inventory, radar_output, radar_view_from_cache, render_radar_view, RadarState, RadarSummary,
    RadarTmuxRow, RadarView, RadarWorktreeRow, TmuxInventory,
};

use crate::discovery::isort;
use crate::domain::{
    opt_str, repo_views, session_views, worktree_views, Cache, DirtyState, RepoRecord, RepoRecordV,
    SessionRecord, SessionRecordV, SessionStatus, WorktreeRecord, WorktreeRecordV,
};
use crate::facts::PathFacts;
use crate::text::{
    chars_of, dec, decimal, join, join_strings, lemma_seq_lt_irreflexive, lemma_seq_lt_transitive, line_ranges, lines,
    range_views, seq_lt, str_eq, str_lt, trim, trim_range, trimmed, views,
};

verus! {

/// The branch a worktree shows.
#[derive(Debug, PartialEq, Eq)]
pub enum BranchDisplay {
    Named(String),
    Detached,
    Unknown,
}

pub enum BranchDisplayV {
    Named(Seq<char>),
    Detached,
    Unknown,
}

impl View for BranchDisplay {
    type V = BranchDisplayV;

    open spec fn view(&self) -> BranchDisplayV {
        match self {
            BranchDisplay::Named(b) => BranchDisplayV::Named(b@),
            BranchDisplay::Detached => BranchDisplayV::Detached,
            BranchDisplay::Unknown => BranchDisplayV::Unknown,
        }
    }
}

impl BranchDisplay {
    pub fn duplicate(&self) -> (r: Self)
        ensures
            r@ == self@,
    {
        match self {
            BranchDisplay::Named(b) => BranchDisplay::Named(b.clone()),
            BranchDisplay::Detached => BranchDisplay::Detached,
            BranchDisplay::Unknown => BranchDisplay::Unknown,
        }
    }
}

/// A worktree's status as observed now.
#[derive(Debug, PartialEq, Eq)]
pub struct LiveWorktreeStatus {
    pub branch: BranchDisplay,
    pub head: Option<String>,
    pub dirty: DirtyState,
    pub stale: bool,
}

pub struct LiveStatusV {
    pub branch: BranchDisplayV,
    pub head: Option<Seq<char>>,
    pub dirty: DirtyState,
    pub stale: bool,
}

impl View for LiveWorktreeStatus {
    type V = LiveStatusV;

    open spec fn view(&self) -> LiveStatusV {
        LiveStatusV { branch: self.branch@, head: opt_str(self.head), dirty: self.dirty, stale: self.stale }
    }
}

/// What git and tmux said just now, keyed by worktree path or session name.
#[derive(Debug, PartialEq, Eq)]
pub struct LiveProbes {
    /// Existence and canonical forms of the paths involved.
    pub facts: PathFacts,
    /// The checked-out branch per worktree path; a path git could not be
    /// asked about has no entry.
    pub branches: Vec<(String, BranchDisplay)>,
    /// The short HEAD commit per worktree path, where git gave one.
    pub heads: Vec<(String, String)>,
    /// Whether each named tmux session exists; a session tmux could not be
    /// asked about has no entry.
    pub sessions_alive: Vec<(String, SessionStatus)>,
}

impl LiveProbes {
    /// No observations: nothing exists and nothing answered.
    pub fn none() -> (r: Self)
        ensures
            r.facts.existing@.len() == 0,
            r.facts.canonical@.len() == 0,
            r.branches@.len() == 0,
            r.heads@.len() == 0,
            r.sessions_alive@.len() == 0,
    {
        LiveProbes {
            facts: PathFacts { existing: Vec::new(), canonical: Vec::new() },
            branches: Vec::new(),
            heads: Vec::new(),
            sessions_alive: Vec::new(),
        }
    }
}

pub open spec fn branch_probe(ps: Seq<(String, BranchDisplay)>, p: Seq<char>) -> Option<BranchDisplayV>
    decreases ps.len(),
{
    if ps.len() == 0 {
        None
    } else if ps[0].0@ == p {
        Some(ps[0].1@)
    } else {
        branch_probe(ps.drop_first(), p)
    }
}

pub open spec fn head_probe(ps: Seq<(String, String)>, p: Seq<char>) -> Option<Seq<char>>
    decreases ps.len(),
{
    if ps.len() == 0 {
        None
    } else if ps[0].0@ == p {
        Some(ps[0].1@)
    } else {
        head_probe(ps.drop_first(), p)
    }
}

pub open spec fn session_probe(ps: Seq<(String, SessionStatus)>, n: Seq<char>) -> SessionStatus
    decreases ps.len(),
{
    if ps.len() == 0 {
        SessionStatus::Unknown
    } else if ps[0].0@ == n {
        ps[0].1
    } else {
        session_probe(ps.drop_first(), n)
    }
}

fn probe_branch(ps: &Vec<(String, BranchDisplay)>, p: &str) -> (r: Option<BranchDisplay>)
    ensures
        match branch_probe(ps@, p@) {
            Some(b) => r matches Some(x) && x@ == b,
            None => r is None,
        },
{
    let mut i: usize = 0;
    assert(ps@.skip(0) =~= ps@);
    while i < ps.len()
        invariant
            i <= ps@.len(),
            branch_probe(ps@, p@) == branch_probe(ps@.skip(i as int), p@),
        decreases ps@.len() - i,
    {
        assert(ps@.skip(i as int)[0] == ps@[i as int]);
        if str_eq(ps[i].0.as_str(), p) {
            return Some(ps[i].1.duplicate());
        }
        assert(ps@.skip(i as int).drop_first() =~= ps@.skip(i + 1));
        i = i + 1;
    }
    None
}

fn probe_head(ps: &Vec<(String, String)>, p: &str) -> (r: Option<String>)
    ensures
        opt_str(r) == head_probe(ps@, p@),
{
    let mut i: usize = 0;
    assert(ps@.skip(0) =~= ps@);
    while i < ps.len()
        invariant
            i <= ps@.len(),
            head_probe(ps@, p@) == head_probe(ps@.skip(i as int), p@),
        decreases ps@.len() - i,
    {
        assert(ps@.skip(i as int)[0] == ps@[i as int]);
        if str_eq(ps[i].0.as_str(), p) {
            return Some(ps[i].1.clone());
        }
        assert(ps@.skip(i as int).drop_first() =~= ps@.skip(i + 1));
        i = i + 1;
    }
    None
}

fn probe_session(ps: &Vec<(String, SessionStatus)>, n: &str) -> (r: SessionStatus)
    ensures
        r == session_probe(ps@, n@),
{
    let mut i: usize = 0;
    assert(ps@.skip(0) =~= ps@);
    while i < ps.len()
        invariant
            i <= ps@.len(),
            session_probe(ps@, n@) == session_probe(ps@.skip(i as int), n@),
        decreases ps@.len() - i,
    {
        assert(ps@.skip(i as int)[0] == ps@[i as int]);
        if str_eq(ps[i].0.as_str(), n) {
            return ps[i].1;
        }
        assert(ps@.skip(i as int).drop_first() =~= ps@.skip(i + 1));
        i = i + 1;
    }
    SessionStatus::Unknown
}

// ---------------------------------------------------------------------
// Labels
// ---------------------------------------------------------------------

pub open spec fn spec_branch_label(b: BranchDisplayV) -> Seq<char> {
    match b {
        BranchDisplayV::Named(n) => n,
        BranchDisplayV::Detached => "detached"@,
        BranchDisplayV::Unknown => "unknown"@,
    }
}

pub fn branch_label(branch: &BranchDisplay) -> (r: String)
    ensures
        r@ == spec_branch_label(branch@),
{
    match branch {
        BranchDisplay::Named(b) => b.clone(),
        BranchDisplay::Detached => "detached".to_owned(),
        BranchDisplay::Unknown => "unknown".to_owned(),
    }
}

pub open spec fn spec_dirty_label(d: DirtyState) -> Seq<char> {
    match d {
        DirtyState::Unknown => "unknown"@,
        DirtyState::Clean => "clean"@,
        DirtyState::Dirty { files } => "dirty("@ + dec(files as nat) + ")"@,
    }
}

pub fn dirty_label(dirty: DirtyState) -> (r: String)
    ensures
        r@ == spec_dirty_label(dirty),
{
    match dirty {
        DirtyState::Unknown => "unknown".to_owned(),
        DirtyState::Clean => "clean".to_owned(),
        DirtyState::Dirty { files } => {
            let mut s = "dirty(".to_owned();
            let n = decimal(files as u64);
            s.append(n.as_str());
            s.append(")");
            s
        },
    }
}

pub open spec fn spec_status_dirty_label(s: LiveStatusV) -> Seq<char> {
    if s.stale { "stale"@ } else { spec_dirty_label(s.dirty) }
}

pub fn status_dirty_label(status: &LiveWorktreeStatus) -> (r: String)
    ensures
        r@ == spec_status_dirty_label(status@),
{
    if status.stale { "stale".to_owned() } else { dirty_label(status.dirty) }
}

pub open spec fn spec_status_head_label(s: LiveStatusV) -> Seq<char> {
    if s.stale {
        "stale"@
    } else {
        match s.head {
            Some(h) => h,
            None => "unknown"@,
        }
    }
}

pub fn status_head_label(status: &LiveWorktreeStatus) -> (r: String)
    ensures
        r@ == spec_status_head_label(status@),
{
    if status.stale {
        "stale".to_owned()
    } else {
        match &status.head {
            Some(h) => h.clone(),
            None => "unknown".to_owned(),
        }
    }
}

pub open spec fn spec_session_label(s: Option<SessionStatus>) -> Seq<char> {
    match s {
        Some(SessionStatus::Running) => "running"@,
        Some(SessionStatus::Exited) => "exited"@,
        Some(SessionStatus::Unknown) => "unknown"@,
        None => "-"@,
    }
}

pub fn session_label(session: Option<SessionStatus>) -> (r: String)
    ensures
        r@ == spec_session_label(session),
{
    match session {
        Some(SessionStatus::Running) => "running".to_owned(),
        Some(SessionStatus::Exited) => "exited".to_owned(),
        Some(SessionStatus::Unknown) => "unknown".to_owned(),
        None => "-".to_owned(),
    }
}

pub open spec fn spec_base_branch_label(repo: Option<RepoRecordV>) -> Seq<char> {
    match repo {
        Some(r) => match r.base_branch {
            Some(b) => b,
            None => "unknown"@,
        },
        None => "unknown"@,
    }
}

pub fn base_branch_label(repo: Option<&RepoRecord>) -> (r: String)
    ensures
        r@ == spec_base_branch_label(
            match repo {
                Some(x) => Some(x@),
                None => None,
            },
        ),
{
    match repo {
        Some(x) => match &x.base_branch {
            Some(b) => b.clone(),
            None => "unknown".to_owned(),
        },
        None => "unknown".to_owned(),
    }
}

/// The branch the cache remembers for a worktree.
pub open spec fn spec_cached_branch(w: WorktreeRecordV) -> BranchDisplayV {
    if w.detached {
        BranchDisplayV::Detached
    } else {
        match w.branch {
            Some(b) => BranchDisplayV::Named(b),
            None => BranchDisplayV::Unknown,
        }
    }
}

pub fn cached_branch_display(worktree: &WorktreeRecord) -> (r: BranchDisplay)
    ensures
        r@ == spec_cached_branch(worktree@),
{
    if worktree.detached {
        BranchDisplay::Detached
    } else {
        match &worktree.branch {
            Some(b) => BranchDisplay::Named(b.clone()),
            None => BranchDisplay::Unknown,
        }
    }
}

// ---------------------------------------------------------------------
// Live status of a worktree
// ---------------------------------------------------------------------

/// The last cached repo with alias `a` (later records win, as in a map
/// built from the list).
pub open spec fn repo_by_alias(rs: Seq<RepoRecordV>, a: Seq<char>) -> Option<RepoRecordV>
    decreases rs.len(),
{
    if rs.len() == 0 {
        None
    } else if rs.last().alias == a {
        Some(rs.last())
    } else {
        repo_by_alias(rs.drop_last(), a)
    }
}

/// Index of the last repo with alias `a`.
pub fn find_repo(rs: &Vec<RepoRecord>, a: &str) -> (r: Option<usize>)
    ensures
        match repo_by_alias(repo_views(rs@), a@) {
            Some(x) => r matches Some(i) && i < rs@.len() && rs@[i as int]@ == x,
            None => r is None,
        },
{
    let mut i = rs.len();
    assert(repo_views(rs@).take(rs@.len() as int) =~= repo_views(rs@));
    while i > 0
        invariant
            i <= rs@.len(),
            repo_by_alias(repo_views(rs@), a@) == repo_by_alias(repo_views(rs@).take(i as int), a@),
        decreases i,
    {
        let ghost pre = repo_views(rs@).take(i as int);
        assert(pre.drop_last() =~= repo_views(rs@).take(i - 1));
        assert(pre.last() == rs@[i - 1]@);
        if str_eq(rs[i - 1].alias.as_str(), a) {
            return Some(i - 1);
        }
        i = i - 1;
    }
    None
}

/// A worktree's status now: stale when its repo is unknown, stale or gone,
/// or when it is stale or gone itself; the live branch and head are read
/// only for a worktree that is not stale, the cached branch standing in
/// where git could not be asked.
pub open spec fn spec_live_status(rs: Seq<RepoRecordV>, w: WorktreeRecordV, probes: LiveProbes) -> LiveStatusV {
    let repo_stale = match repo_by_alias(rs, w.repo_alias) {
        Some(r) => r.stale || !probes.facts.has_path(r.canonical_path),
        None => true,
    };
    let stale = repo_stale || w.stale || !probes.facts.has_path(w.path);
    let branch = if stale {
        spec_cached_branch(w)
    } else {
        match branch_probe(probes.branches@, w.path) {
            Some(b) => b,
            None => spec_cached_branch(w),
        }
    };
    let head = if stale { None } else { head_probe(probes.heads@, w.path) };
    LiveStatusV { branch, head, dirty: w.dirty, stale }
}

/// Whether a worktree counts as stale now.
pub fn worktree_is_stale(repos: &Vec<RepoRecord>, worktree: &WorktreeRecord, facts: &PathFacts) -> (r: bool)
    ensures
        r == (match repo_by_alias(repo_views(repos@), worktree@.repo_alias) {
            Some(x) => x.stale || !facts.has_path(x.canonical_path),
            None => true,
        } || worktree.stale || !facts.has_path(worktree.path@)),
{
    let repo_stale = match find_repo(repos, worktree.repo_alias.as_str()) {
        Some(i) => repos[i].stale || !facts.path_exists(repos[i].canonical_path.as_str()),
        None => true,
    };
    repo_stale || worktree.stale || !facts.path_exists(worktree.path.as_str())
}

pub fn live_status(repos: &Vec<RepoRecord>, worktree: &WorktreeRecord, probes: &LiveProbes) -> (r: LiveWorktreeStatus)
    ensures
        r@ == spec_live_status(repo_views(repos@), worktree@, *probes),
{
    let stale = worktree_is_stale(repos, worktree, &probes.facts);
    let branch = if stale {
        cached_branch_display(worktree)
    } else {
        match probe_branch(&probes.branches, worktree.path.as_str()) {
            Some(b) => b,
            None => cached_branch_display(worktree),
        }
    };
    let head = if stale { None } else { probe_head(&probes.heads, worktree.path.as_str()) };
    LiveWorktreeStatus { branch, head, dirty: worktree.dirty, stale }
}

} // verus!

verus! {

use crate::discovery::{ins_pos, lemma_ins_pos_bound, lemma_isort_contains, lemma_isort_multiset, lemma_isort_sorted, sorted_by, strict_order};
use crate::table::{lemma_table_lines, line_breaks, one_line, render_table, rows_view, table};
use crate::paths::{path_lt, path_precedes};

// ---------------------------------------------------------------------
// Ordering of worktrees, sessions and rows
// ---------------------------------------------------------------------

/// Order by three text keys in turn.
pub open spec fn lt3(a: (Seq<char>, Seq<char>, Seq<char>), b: (Seq<char>, Seq<char>, Seq<char>)) -> bool {
    seq_lt(a.0, b.0) || (a.0 == b.0 && (seq_lt(a.1, b.1) || (a.1 == b.1 && seq_lt(a.2, b.2))))
}

pub proof fn lemma_lt3_irreflexive(a: (Seq<char>, Seq<char>, Seq<char>))
    ensures
        !lt3(a, a),
{
    lemma_seq_lt_irreflexive(a.0);
    lemma_seq_lt_irreflexive(a.1);
    lemma_seq_lt_irreflexive(a.2);
}

pub proof fn lemma_lt3_transitive(
    a: (Seq<char>, Seq<char>, Seq<char>),
    b: (Seq<char>, Seq<char>, Seq<char>),
    c: (Seq<char>, Seq<char>, Seq<char>),
)
    requires
        lt3(a, b),
        lt3(b, c),
    ensures
        lt3(a, c),
{
    if seq_lt(a.0, b.0) && seq_lt(b.0, c.0) {
        lemma_seq_lt_transitive(a.0, b.0, c.0);
    }
    if a.0 == b.0 && b.0 == c.0 {
        if seq_lt(a.1, b.1) && seq_lt(b.1, c.1) {
            lemma_seq_lt_transitive(a.1, b.1, c.1);
        }
        if a.1 == b.1 && b.1 == c.1 && seq_lt(a.2, b.2) && seq_lt(b.2, c.2) {
            lemma_seq_lt_transitive(a.2, b.2, c.2);
        }
    }
}

pub fn lt3_exec(a0: &str, a1: &str, a2: &str, b0: &str, b1: &str, b2: &str) -> (r: bool)
    ensures
        r == lt3((a0@, a1@, a2@), (b0@, b1@, b2@)),
{
    str_lt(a0, b0) || (str_eq(a0, b0) && (str_lt(a1, b1) || (str_eq(a1, b1) && str_lt(a2, b2))))
}

/// Order by two text keys in turn, then by a path in `Path`'s order,
/// component by component.
pub open spec fn lt_keys_path(a: (Seq<char>, Seq<char>, Seq<char>), b: (Seq<char>, Seq<char>, Seq<char>)) -> bool {
    seq_lt(a.0, b.0) || (a.0 == b.0 && (seq_lt(a.1, b.1) || (a.1 == b.1 && path_lt(a.2, b.2))))
}

pub fn lt_keys_path_exec(a0: &str, a1: &str, a2: &str, b0: &str, b1: &str, b2: &str) -> (r: bool)
    ensures
        r == lt_keys_path((a0@, a1@, a2@), (b0@, b1@, b2@)),
{
    str_lt(a0, b0) || (str_eq(a0, b0) && (str_lt(a1, b1) || (str_eq(a1, b1) && path_precedes(a2, b2))))
}

/// Worktrees by repo, then target, then path (as a `Path`).
pub open spec fn worktree_lt3(x: WorktreeRecordV, y: WorktreeRecordV) -> bool {
    lt_keys_path((x.repo_alias, x.target, x.path), (y.repo_alias, y.target, y.path))
}

/// The worktrees in stable (repo, target, path) order, the path compared
/// component by component.
pub fn sorted_worktrees(v: &Vec<WorktreeRecord>) -> (r: Vec<WorktreeRecord>)
    ensures
        worktree_views(r@) == isort(
            worktree_views(v@),
            |x: WorktreeRecordV, y: WorktreeRecordV| worktree_lt3(x, y),
        ),
{
    let ghost lt = |x: WorktreeRecordV, y: WorktreeRecordV| worktree_lt3(x, y);
    let mut out: Vec<WorktreeRecord> = Vec::new();
    let mut i: usize = 0;
    assert(worktree_views(v@.take(0)) =~= Seq::<WorktreeRecordV>::empty());
    assert(worktree_views(out@) =~= Seq::<WorktreeRecordV>::empty());
    while i < v.len()
        invariant
            lt == (|x: WorktreeRecordV, y: WorktreeRecordV| worktree_lt3(x, y)),
            i <= v@.len(),
            worktree_views(out@) == isort(worktree_views(v@.take(i as int)), lt),
        decreases v@.len() - i,
    {
        let x = v[i].duplicate();
        let ghost ov = worktree_views(out@);
        let mut p: usize = 0;
        while p < out.len() && !lt_keys_path_exec(
            x.repo_alias.as_str(),
            x.target.as_str(),
            x.path.as_str(),
            out[p].repo_alias.as_str(),
            out[p].target.as_str(),
            out[p].path.as_str(),
        )
            invariant
                lt == (|x: WorktreeRecordV, y: WorktreeRecordV| worktree_lt3(x, y)),
                ov == worktree_views(out@),
                p <= out@.len(),
                ins_pos(ov, x@, lt, 0) == ins_pos(ov, x@, lt, p as int),
            decreases out@.len() - p,
        {
            assert(ov[p as int] == out@[p as int]@);
            p = p + 1;
        }
        proof {
            if p < out@.len() {
                assert(ov[p as int] == out@[p as int]@);
            }
            let pre = worktree_views(v@.take(i + 1));
            assert(pre.drop_last() =~= worktree_views(v@.take(i as int)));
            assert(pre.last() == x@);
        }
        let ghost xv = x@;
        out.insert(p, x);
        assert(worktree_views(out@) =~= ov.insert(p as int, xv));
        i = i + 1;
    }
    assert(v@.take(v@.len() as int) =~= v@);
    out
}

// ---------------------------------------------------------------------
// The worktree table
// ---------------------------------------------------------------------

pub open spec fn status_header() -> Seq<Seq<char>> {
    seq!["REPO"@, "TARGET"@, "BASE BRANCH"@, "WORKTREE BRANCH"@, "HEAD"@, "STATE"@, "PATH"@]
}

/// One row of the worktree table.
pub open spec fn status_row(rs: Seq<RepoRecordV>, w: WorktreeRecordV, probes: LiveProbes) -> Seq<Seq<char>> {
    let st = spec_live_status(rs, w, probes);
    seq![
        w.repo_alias,
        w.target,
        spec_base_branch_label(repo_by_alias(rs, w.repo_alias)),
        spec_branch_label(st.branch),
        spec_status_head_label(st),
        spec_status_dirty_label(st),
        w.path,
    ]
}

/// The worktree table of a cache: a header, then one row per worktree in
/// (repo, target, path) order.
pub open spec fn spec_render_status(rs: Seq<RepoRecordV>, ws: Seq<WorktreeRecordV>, probes: LiveProbes) -> Seq<char> {
    let sorted = isort(ws, |x: WorktreeRecordV, y: WorktreeRecordV| worktree_lt3(x, y));
    table(seq![status_header()] + sorted.map_values(|w: WorktreeRecordV| status_row(rs, w, probes)))
}

fn strings7(a: String, b: String, c: String, d: String, e: String, f: String, g: String) -> (r: Vec<String>)
    ensures
        views(r@) == seq![a@, b@, c@, d@, e@, f@, g@],
{
    let mut r: Vec<String> = Vec::new();
    let ghost (av, bv, cv, dv, ev, fv, gv) = (a@, b@, c@, d@, e@, f@, g@);
    r.push(a);
    r.push(b);
    r.push(c);
    r.push(d);
    r.push(e);
    r.push(f);
    r.push(g);
    assert(views(r@) =~= seq![av, bv, cv, dv, ev, fv, gv]);
    r
}

/// The worktree table of every cached worktree.
pub fn status_output(cache: &Cache, probes: &LiveProbes) -> (r: String)
    ensures
        r@ == spec_render_status(repo_views(cache.repos@), worktree_views(cache.worktrees@), *probes),
{
    let ghost rs = repo_views(cache.repos@);
    let sorted = sorted_worktrees(&cache.worktrees);
    let ghost sv = worktree_views(sorted@);
    let mut rows: Vec<Vec<String>> = Vec::new();
    rows.push(strings7(
        "REPO".to_owned(),
        "TARGET".to_owned(),
        "BASE BRANCH".to_owned(),
        "WORKTREE BRANCH".to_owned(),
        "HEAD".to_owned(),
        "STATE".to_owned(),
        "PATH".to_owned(),
    ));
    let ghost spec_rows = seq![status_header()] + sv.map_values(|w: WorktreeRecordV| status_row(rs, w, *probes));
    let mut i: usize = 0;
    assert(rows_view(rows@) =~= spec_rows.take(1));
    while i < sorted.len()
        invariant
            rs == repo_views(cache.repos@),
            sv == worktree_views(sorted@),
            spec_rows == seq![status_header()] + sv.map_values(|w: WorktreeRecordV| status_row(rs, w, *probes)),
            i <= sorted@.len(),
            rows_view(rows@) == spec_rows.take(i + 1),
        decreases sorted@.len() - i,
    {
        let w = &sorted[i];
        assert(sv[i as int] == w@);
        let st = live_status(&cache.repos, w, probes);
        let repo = match find_repo(&cache.repos, w.repo_alias.as_str()) {
            Some(k) => Some(&cache.repos[k]),
            None => None,
        };
        let row = strings7(
            w.repo_alias.clone(),
            w.target.clone(),
            base_branch_label(repo),
            branch_label(&st.branch),
            status_head_label(&st),
            status_dirty_label(&st),
            w.path.clone(),
        );
        let ghost before = rows@;
        let ghost rowv = views(row@);
        rows.push(row);
        assert(rows_view(rows@) =~= rows_view(before).push(rowv));
        assert(spec_rows[i + 1] == status_row(rs, w@, *probes));
        assert(rows_view(rows@) =~= spec_rows.take(i + 2));
        i = i + 1;
    }
    assert(spec_rows.take(sorted@.len() as int + 1) =~= spec_rows);
    render_table(&rows)
}


// ---------------------------------------------------------------------
// Filtering a cache
// ---------------------------------------------------------------------

pub open spec fn opt_view(o: Option<&str>) -> Option<Seq<char>> {
    match o {
        Some(s) => Some(s@),
        None => None,
    }
}

/// A repo answers to a filter by its alias or its display name.
pub open spec fn repo_selected(r: RepoRecordV, f: Seq<char>) -> bool {
    r.alias == f || r.display_name == f
}

/// A worktree answers to a target filter by its target or display name.
pub open spec fn target_kept(w: WorktreeRecordV, t: Option<Seq<char>>) -> bool {
    match t {
        Some(t) => w.target == t || w.display_name == t,
        None => true,
    }
}

/// Some repo that answers to `f` has the alias `a`.
pub open spec fn alias_selected(rs: Seq<RepoRecord>, f: Seq<char>, a: Seq<char>) -> bool {
    exists|i: int| 0 <= i < rs.len() && repo_selected(#[trigger] rs[i]@, f) && rs[i]@.alias == a
}

pub open spec fn keeps_worktree(rs: Seq<RepoRecord>, f: Option<Seq<char>>, t: Option<Seq<char>>, w: WorktreeRecord) -> bool {
    (match f {
        Some(f) => alias_selected(rs, f, w@.repo_alias),
        None => true,
    }) && target_kept(w@, t)
}

/// The repos a filter keeps: all of them when there is none.
pub open spec fn kept_repos(rs: Seq<RepoRecord>, f: Option<Seq<char>>) -> Seq<RepoRecord> {
    match f {
        Some(f) => rs.filter(|r: RepoRecord| repo_selected(r@, f)),
        None => rs,
    }
}

/// The worktrees a repo filter and a target filter keep, in cache order.
pub open spec fn kept_worktrees(
    rs: Seq<RepoRecord>,
    ws: Seq<WorktreeRecord>,
    f: Option<Seq<char>>,
    t: Option<Seq<char>>,
) -> Seq<WorktreeRecord> {
    ws.filter(|w: WorktreeRecord| keeps_worktree(rs, f, t, w))
}

fn is_alias_selected(repos: &Vec<RepoRecord>, f: &str, a: &str) -> (r: bool)
    ensures
        r == alias_selected(repos@, f@, a@),
{
    let mut i: usize = 0;
    while i < repos.len()
        invariant
            i <= repos@.len(),
            forall|j: int| 0 <= j < i ==> !(repo_selected(#[trigger] repos@[j]@, f@) && repos@[j]@.alias == a@),
        decreases repos@.len() - i,
    {
        let r = &repos[i];
        if (str_eq(r.alias.as_str(), f) || str_eq(r.display_name.as_str(), f)) && str_eq(r.alias.as_str(), a) {
            assert(repo_selected(repos@[i as int]@, f@) && repos@[i as int]@.alias == a@);
            return true;
        }
        i = i + 1;
    }
    false
}

fn keep_worktree(repos: &Vec<RepoRecord>, f: Option<&str>, t: Option<&str>, w: &WorktreeRecord) -> (r: bool)
    ensures
        r == keeps_worktree(repos@, opt_view(f), opt_view(t), *w),
{
    let repo_ok = match f {
        Some(f) => is_alias_selected(repos, f, w.repo_alias.as_str()),
        None => true,
    };
    let target_ok = match t {
        Some(t) => str_eq(w.target.as_str(), t) || str_eq(w.display_name.as_str(), t),
        None => true,
    };
    repo_ok && target_ok
}

/// The cache narrowed to the repos that answer to `repo_filter` and the
/// worktrees of those repos that answer to `target_filter`.
pub fn filtered_cache(cache: &Cache, repo_filter: Option<&str>, target_filter: Option<&str>) -> (r: Cache)
    ensures
        r.schema_version == cache.schema_version,
        r.last_scan_unix == cache.last_scan_unix,
        r.repos@ == kept_repos(cache.repos@, opt_view(repo_filter)),
        r.worktrees@ == kept_worktrees(cache.repos@, cache.worktrees@, opt_view(repo_filter), opt_view(target_filter)),
{
    let ghost fv = opt_view(repo_filter);
    let ghost tv = opt_view(target_filter);
    let mut repos: Vec<RepoRecord> = Vec::new();
    let mut i: usize = 0;
    while i < cache.repos.len()
        invariant
            i <= cache.repos@.len(),
            fv == opt_view(repo_filter),
            repos@ == match fv {
                Some(f) => cache.repos@.take(i as int).filter(|r: RepoRecord| repo_selected(r@, f)),
                None => cache.repos@.take(i as int),
            },
        decreases cache.repos@.len() - i,
    {
        let r = &cache.repos[i];
        proof {
            assert(cache.repos@.take(i + 1).drop_last() =~= cache.repos@.take(i as int));
            assert(cache.repos@.take(i + 1).last() == *r);
        }
        let keep = match repo_filter {
            Some(f) => str_eq(r.alias.as_str(), f) || str_eq(r.display_name.as_str(), f),
            None => true,
        };
        let ghost before = repos@;
        if keep {
            repos.push(r.duplicate());
        }
        proof {
            match fv {
                Some(f) => {
                    let pred = |r: RepoRecord| repo_selected(r@, f);
                    assert(keep == pred(*r));
                    let pre = cache.repos@.take(i + 1);
                    reveal(Seq::filter);
                    assert(pre.filter(pred) == (if pred(pre.last()) {
                        pre.drop_last().filter(pred).push(pre.last())
                    } else {
                        pre.drop_last().filter(pred)
                    }));
                    if keep {
                        assert(repos@ == before.push(*r));
                    }
                },
                None => {
                    assert(repos@ =~= cache.repos@.take(i + 1));
                },
            }
        }
        i = i + 1;
    }
    assert(cache.repos@.take(cache.repos@.len() as int) =~= cache.repos@);
    let ghost keep = |w: WorktreeRecord| keeps_worktree(cache.repos@, fv, tv, w);
    let mut worktrees: Vec<WorktreeRecord> = Vec::new();
    let mut j: usize = 0;
    while j < cache.worktrees.len()
        invariant
            j <= cache.worktrees@.len(),
            fv == opt_view(repo_filter),
            tv == opt_view(target_filter),
            keep == (|w: WorktreeRecord| keeps_worktree(cache.repos@, fv, tv, w)),
            worktrees@ == cache.worktrees@.take(j as int).filter(keep),
        decreases cache.worktrees@.len() - j,
    {
        let w = &cache.worktrees[j];
        proof {
            assert(cache.worktrees@.take(j + 1).drop_last() =~= cache.worktrees@.take(j as int));
            assert(cache.worktrees@.take(j + 1).last() == *w);
        }
        let ghost before = worktrees@;
        let kept = keep_worktree(&cache.repos, repo_filter, target_filter, w);
        if kept {
            worktrees.push(w.duplicate());
        }
        proof {
            let pre = cache.worktrees@.take(j + 1);
            assert(kept == keep(*w));
            reveal(Seq::filter);
            assert(pre.filter(keep) == (if keep(pre.last()) {
                pre.drop_last().filter(keep).push(pre.last())
            } else {
                pre.drop_last().filter(keep)
            }));
            if kept {
                assert(worktrees@ == before.push(*w));
            }
        }
        j = j + 1;
    }
    assert(cache.worktrees@.take(cache.worktrees@.len() as int) =~= cache.worktrees@);
    Cache { schema_version: cache.schema_version, repos, worktrees, last_scan_unix: cache.last_scan_unix }
}

/// The worktree table of the repos that answer to `repo_filter` (all of
/// them when there is none).
pub fn list_output(cache: &Cache, repo_filter: Option<&str>, probes: &LiveProbes) -> (r: String)
    ensures
        r@ == spec_render_status(
            repo_views(kept_repos(cache.repos@, opt_view(repo_filter))),
            worktree_views(kept_worktrees(cache.repos@, cache.worktrees@, opt_view(repo_filter), None)),
            *probes,
        ),
{
    let narrowed = filtered_cache(cache, repo_filter, None);
    status_output(&narrowed, probes)
}

// ---------------------------------------------------------------------
// Completion lists
// ---------------------------------------------------------------------

/// Every cached repo alias, one per line.
pub open spec fn spec_complete_repos(rs: Seq<RepoRecordV>) -> Seq<char> {
    join(rs.map_values(|r: RepoRecordV| r.alias), "\n"@)
}

/// The cached targets of repo `repo` (of every repo when none), one per line.
pub open spec fn spec_complete_targets(ws: Seq<WorktreeRecordV>, repo: Option<Seq<char>>) -> Seq<char> {
    join(
        ws.filter(|w: WorktreeRecordV| match repo {
            Some(a) => w.repo_alias == a,
            None => true,
        }).map_values(|w: WorktreeRecordV| w.target),
        "\n"@,
    )
}

/// Every cached repo alias, one per line; reads nothing but the cache.
pub fn complete_repos(cache: &Cache) -> (r: String)
    ensures
        r@ == spec_complete_repos(repo_views(cache.repos@)),
{
    let ghost rs = repo_views(cache.repos@);
    let mut names: Vec<String> = Vec::new();
    let mut i: usize = 0;
    while i < cache.repos.len()
        invariant
            i <= cache.repos@.len(),
            rs == repo_views(cache.repos@),
            views(names@) == rs.take(i as int).map_values(|r: RepoRecordV| r.alias),
        decreases cache.repos@.len() - i,
    {
        let ghost before = views(names@);
        names.push(cache.repos[i].alias.clone());
        proof {
            assert(rs[i as int] == cache.repos@[i as int]@);
            assert(rs.take(i + 1) =~= rs.take(i as int).push(rs[i as int]));
            assert(views(names@) =~= before.push(rs[i as int].alias));
            assert(views(names@) =~= rs.take(i + 1).map_values(|r: RepoRecordV| r.alias));
        }
        i = i + 1;
    }
    assert(rs.take(rs.len() as int) =~= rs);
    join_strings(&names, "\n")
}

/// The cached targets of repo `repo` (of every repo when none), one per
/// line; reads nothing but the cache.
pub fn complete_targets(cache: &Cache, repo: Option<&str>) -> (r: String)
    ensures
        r@ == spec_complete_targets(worktree_views(cache.worktrees@), opt_view(repo)),
{
    let ghost ws = worktree_views(cache.worktrees@);
    let ghost rv = opt_view(repo);
    let ghost pick = |w: WorktreeRecordV| match rv {
        Some(a) => w.repo_alias == a,
        None => true,
    };
    let mut names: Vec<String> = Vec::new();
    let mut i: usize = 0;
    while i < cache.worktrees.len()
        invariant
            i <= cache.worktrees@.len(),
            ws == worktree_views(cache.worktrees@),
            rv == opt_view(repo),
            pick == (|w: WorktreeRecordV| match rv {
                Some(a) => w.repo_alias == a,
                None => true,
            }),
            views(names@) == ws.take(i as int).filter(pick).map_values(|w: WorktreeRecordV| w.target),
        decreases cache.worktrees@.len() - i,
    {
        let w = &cache.worktrees[i];
        proof {
            assert(ws.take(i + 1).drop_last() =~= ws.take(i as int));
            assert(ws.take(i + 1).last() == w@);
        }
        let keep = match repo {
            Some(a) => str_eq(w.repo_alias.as_str(), a),
            None => true,
        };
        let ghost before = views(names@);
        if keep {
            names.push(w.target.clone());
            assert(views(names@) =~= before.push(w@.target));
        }
        proof {
            let pre = ws.take(i + 1);
            assert(keep == pick(w@));
            reveal(Seq::filter);
            assert(pre.filter(pick) == (if pick(pre.last()) {
                pre.drop_last().filter(pick).push(pre.last())
            } else {
                pre.drop_last().filter(pick)
            }));
            if keep {
                assert(pre.filter(pick) == ws.take(i as int).filter(pick).push(w@));
                assert(pre.filter(pick).map_values(|w: WorktreeRecordV| w.target) =~= ws.take(i as int).filter(
                    pick,
                ).map_values(|w: WorktreeRecordV| w.target).push(w@.target));
            }
        }
        assert(views(names@) =~= ws.take(i + 1).filter(pick).map_values(|w: WorktreeRecordV| w.target));
        i = i + 1;
    }
    assert(ws.take(ws.len() as int) =~= ws);
    join_strings(&names, "\n")
}


// ---------------------------------------------------------------------
// The session table
// ---------------------------------------------------------------------

/// Sessions by repo, then target, then tmux session name.
pub open spec fn session_lt(x: SessionRecordV, y: SessionRecordV) -> bool {
    lt3((x.repo_alias, x.target, x.tmux_session_name), (y.repo_alias, y.target, y.tmux_session_name))
}

/// The sessions in stable (repo, target, tmux name) order.
pub fn sorted_sessions(v: &[SessionRecord]) -> (r: Vec<SessionRecord>)
    ensures
        session_views(r@) == isort(session_views(v@), |x: SessionRecordV, y: SessionRecordV| session_lt(x, y)),
{
    let ghost lt = |x: SessionRecordV, y: SessionRecordV| session_lt(x, y);
    let mut out: Vec<SessionRecord> = Vec::new();
    let mut i: usize = 0;
    assert(session_views(v@.take(0)) =~= Seq::<SessionRecordV>::empty());
    assert(session_views(out@) =~= Seq::<SessionRecordV>::empty());
    while i < v.len()
        invariant
            lt == (|x: SessionRecordV, y: SessionRecordV| session_lt(x, y)),
            i <= v@.len(),
            session_views(out@) == isort(session_views(v@.take(i as int)), lt),
        decreases v@.len() - i,
    {
        let x = v[i].duplicate();
        assert(x@ == v@[i as int]@) by {
            assert(x@.command =~= v@[i as int]@.command);
        }
        let ghost ov = session_views(out@);
        let mut p: usize = 0;
        while p < out.len() && !lt3_exec(
            x.repo_alias.as_str(),
            x.target.as_str(),
            x.tmux_session_name.as_str(),
            out[p].repo_alias.as_str(),
            out[p].target.as_str(),
            out[p].tmux_session_name.as_str(),
        )
            invariant
                lt == (|x: SessionRecordV, y: SessionRecordV| session_lt(x, y)),
                ov == session_views(out@),
                p <= out@.len(),
                ins_pos(ov, x@, lt, 0) == ins_pos(ov, x@, lt, p as int),
            decreases out@.len() - p,
        {
            assert(ov[p as int] == out@[p as int]@);
            p = p + 1;
        }
        proof {
            if p < out@.len() {
                assert(ov[p as int] == out@[p as int]@);
            }
            let pre = session_views(v@.take(i + 1));
            assert(pre.drop_last() =~= session_views(v@.take(i as int)));
            assert(pre.last() == x@);
        }
        let ghost xv = x@;
        out.insert(p, x);
        assert(session_views(out@) =~= ov.insert(p as int, xv));
        i = i + 1;
    }
    assert(v@.take(v@.len() as int) =~= v@);
    out
}

/// The last cached worktree of repo `repo` with target `target` (later
/// records win, as in a map built from the list).
pub open spec fn pair_worktree(ws: Seq<WorktreeRecordV>, repo: Seq<char>, target: Seq<char>) -> Option<WorktreeRecordV>
    decreases ws.len(),
{
    if ws.len() == 0 {
        None
    } else if ws.last().repo_alias == repo && ws.last().target == target {
        Some(ws.last())
    } else {
        pair_worktree(ws.drop_last(), repo, target)
    }
}

/// Index of the last worktree of `repo` with target `target`.
pub fn find_pair(ws: &Vec<WorktreeRecord>, repo: &str, target: &str) -> (r: Option<usize>)
    ensures
        match pair_worktree(worktree_views(ws@), repo@, target@) {
            Some(x) => r matches Some(i) && i < ws@.len() && ws@[i as int]@ == x,
            None => r is None,
        },
{
    let mut i = ws.len();
    assert(worktree_views(ws@).take(ws@.len() as int) =~= worktree_views(ws@));
    while i > 0
        invariant
            i <= ws@.len(),
            pair_worktree(worktree_views(ws@), repo@, target@) == pair_worktree(
                worktree_views(ws@).take(i as int),
                repo@,
                target@,
            ),
        decreases i,
    {
        let ghost pre = worktree_views(ws@).take(i as int);
        assert(pre.drop_last() =~= worktree_views(ws@).take(i - 1));
        assert(pre.last() == ws@[i - 1]@);
        if str_eq(ws[i - 1].repo_alias.as_str(), repo) && str_eq(ws[i - 1].target.as_str(), target) {
            return Some(i - 1);
        }
        i = i - 1;
    }
    None
}

pub open spec fn sessions_header() -> Seq<Seq<char>> {
    seq!["REPO"@, "TARGET"@, "STATUS"@, "TMUX"@, "COMMAND"@, "PATH"@]
}

/// One row of the session table: the session's live status as tmux
/// reported it, and the path of its worktree where the cache knows it.
pub open spec fn session_row(ws: Seq<WorktreeRecordV>, s: SessionRecordV, probes: LiveProbes) -> Seq<Seq<char>> {
    seq![
        s.repo_alias,
        s.target,
        spec_session_label(Some(session_probe(probes.sessions_alive@, s.tmux_session_name))),
        s.tmux_session_name,
        join(s.command, " "@),
        match pair_worktree(ws, s.repo_alias, s.target) {
            Some(w) => w.path,
            None => s.worktree_path,
        },
    ]
}

/// The session table: a header, then one row per session in (repo,
/// target, tmux name) order.
pub open spec fn spec_sessions_output(ws: Seq<WorktreeRecordV>, ss: Seq<SessionRecordV>, probes: LiveProbes) -> Seq<char> {
    let sorted = isort(ss, |x: SessionRecordV, y: SessionRecordV| session_lt(x, y));
    table(seq![sessions_header()] + sorted.map_values(|s: SessionRecordV| session_row(ws, s, probes)))
}

fn strings6(a: String, b: String, c: String, d: String, e: String, f: String) -> (r: Vec<String>)
    ensures
        views(r@) == seq![a@, b@, c@, d@, e@, f@],
{
    let mut r: Vec<String> = Vec::new();
    let ghost (av, bv, cv, dv, ev, fv) = (a@, b@, c@, d@, e@, f@);
    r.push(a);
    r.push(b);
    r.push(c);
    r.push(d);
    r.push(e);
    r.push(f);
    assert(views(r@) =~= seq![av, bv, cv, dv, ev, fv]);
    r
}

/// The managed sessions, apart from the worktree table.
pub fn sessions_output(cache: &Cache, sessions: &[SessionRecord], probes: &LiveProbes) -> (r: String)
    ensures
        r@ == spec_sessions_output(worktree_views(cache.worktrees@), session_views(sessions@), *probes),
{
    let ghost ws = worktree_views(cache.worktrees@);
    let sorted = sorted_sessions(sessions);
    let ghost sv = session_views(sorted@);
    let mut rows: Vec<Vec<String>> = Vec::new();
    rows.push(strings6(
        "REPO".to_owned(),
        "TARGET".to_owned(),
        "STATUS".to_owned(),
        "TMUX".to_owned(),
        "COMMAND".to_owned(),
        "PATH".to_owned(),
    ));
    let ghost spec_rows = seq![sessions_header()] + sv.map_values(|s: SessionRecordV| session_row(ws, s, *probes));
    let mut i: usize = 0;
    assert(rows_view(rows@) =~= spec_rows.take(1));
    while i < sorted.len()
        invariant
            ws == worktree_views(cache.worktrees@),
            sv == session_views(sorted@),
            spec_rows == seq![sessions_header()] + sv.map_values(|s: SessionRecordV| session_row(ws, s, *probes)),
            i <= sorted@.len(),
            rows_view(rows@) == spec_rows.take(i + 1),
        decreases sorted@.len() - i,
    {
        let s = &sorted[i];
        assert(sv[i as int] == s@);
        let live = probe_session(&probes.sessions_alive, s.tmux_session_name.as_str());
        let path = match find_pair(&cache.worktrees, s.repo_alias.as_str(), s.target.as_str()) {
            Some(k) => cache.worktrees[k].path.clone(),
            None => s.worktree_path.clone(),
        };
        let command = join_strings(&s.command, " ");
        assert(views(s.command@) =~= s@.command);
        let row = strings6(
            s.repo_alias.clone(),
            s.target.clone(),
            session_label(Some(live)),
            s.tmux_session_name.clone(),
            command,
            path,
        );
        let ghost before = rows@;
        let ghost rowv = views(row@);
        rows.push(row);
        assert(rows_view(rows@) =~= rows_view(before).push(rowv));
        assert(spec_rows[i + 1] == session_row(ws, s@, *probes));
        assert(rowv =~= session_row(ws, s@, *probes));
        assert(rows_view(rows@) =~= spec_rows.take(i + 2));
        i = i + 1;
    }
    assert(spec_rows.take(sorted@.len() as int + 1) =~= spec_rows);
    render_table(&rows)
}


// ---------------------------------------------------------------------
// Reading what git and tmux answered
// ---------------------------------------------------------------------

/// How many lines of `s` hold more than whitespace.
pub open spec fn nonblank_lines(s: Seq<char>) -> nat {
    lines(s).filter(|l: Seq<char>| trim(l).len() > 0).len()
}

/// The dirty state that `git status --porcelain` reports: unknown when it
/// failed, clean without a changed file, else the number of changed files
/// (as a `u32`, wrapping).
pub open spec fn spec_dirty_from_porcelain(success: bool, stdout: Seq<char>) -> DirtyState {
    if !success {
        DirtyState::Unknown
    } else if nonblank_lines(stdout) as u32 == 0 {
        DirtyState::Clean
    } else {
        DirtyState::Dirty { files: nonblank_lines(stdout) as u32 }
    }
}

pub fn dirty_from_porcelain(success: bool, stdout: &str) -> (r: DirtyState)
    ensures
        r == spec_dirty_from_porcelain(success, stdout@),
{
    if !success {
        return DirtyState::Unknown;
    }
    let v = chars_of(stdout);
    let rs = line_ranges(&v);
    let ghost ls = lines(v@);
    let ghost keep = |l: Seq<char>| trim(l).len() > 0;
    let mut n: usize = 0;
    let mut i: usize = 0;
    while i < rs.len()
        invariant
            ls == lines(v@),
            range_views(v@, rs@) == ls,
            forall|k: int| 0 <= k < rs@.len() ==> (#[trigger] rs@[k]).0 <= rs@[k].1 <= v@.len(),
            keep == (|l: Seq<char>| trim(l).len() > 0),
            i <= rs@.len(),
            n <= i,
            n == ls.take(i as int).filter(keep).len(),
        decreases rs@.len() - i,
    {
        let (lo, hi) = rs[i];
        let (a, b) = trim_range(&v, lo, hi);
        proof {
            reveal(Seq::filter);
            assert(ls[i as int] == v@.subrange(lo as int, hi as int));
            let pre = ls.take(i + 1);
            assert(pre.drop_last() =~= ls.take(i as int));
            assert(pre.last() == ls[i as int]);
        }
        if a < b {
            n = n + 1;
        }
        i = i + 1;
    }
    assert(ls.take(ls.len() as int) =~= ls);
    let files = n as u32;
    if files == 0 {
        DirtyState::Clean
    } else {
        DirtyState::Dirty { files }
    }
}

/// The branch that `git symbolic-ref --quiet --short HEAD` reports: its
/// trimmed output when it succeeded (unknown when that is empty), detached
/// when it failed.
pub open spec fn spec_branch_from_symbolic_ref(success: bool, stdout: Seq<char>) -> BranchDisplayV {
    if success {
        if trim(stdout).len() == 0 {
            BranchDisplayV::Unknown
        } else {
            BranchDisplayV::Named(trim(stdout))
        }
    } else {
        BranchDisplayV::Detached
    }
}

pub fn branch_from_symbolic_ref(success: bool, stdout: &str) -> (r: BranchDisplay)
    ensures
        r@ == spec_branch_from_symbolic_ref(success, stdout@),
{
    if success {
        let b = trimmed(stdout);
        if b.as_str().is_empty() {
            BranchDisplay::Unknown
        } else {
            BranchDisplay::Named(b)
        }
    } else {
        BranchDisplay::Detached
    }
}

/// The commit that `git rev-parse --short=8 HEAD` reports: its trimmed
/// output, when it succeeded with any.
pub open spec fn spec_head_from_rev_parse(success: bool, stdout: Seq<char>) -> Option<Seq<char>> {
    if success && trim(stdout).len() > 0 {
        Some(trim(stdout))
    } else {
        None
    }
}

pub fn head_from_rev_parse(success: bool, stdout: &str) -> (r: Option<String>)
    ensures
        opt_str(r) == spec_head_from_rev_parse(success, stdout@),
{
    if success {
        let h = trimmed(stdout);
        if h.as_str().is_empty() {
            None
        } else {
            Some(h)
        }
    } else {
        None
    }
}

/// A session's live status from `tmux has-session`: unknown when tmux
/// could not be run, running when it succeeded, exited otherwise.
pub open spec fn spec_session_status(ran: bool, success: bool) -> SessionStatus {
    if !ran {
        SessionStatus::Unknown
    } else if success {
        SessionStatus::Running
    } else {
        SessionStatus::Exited
    }
}

pub fn session_status_from_has_session(ran: bool, success: bool) -> (r: SessionStatus)
    ensures
        r == spec_session_status(ran, success),
{
    if !ran {
        SessionStatus::Unknown
    } else if success {
        SessionStatus::Running
    } else {
        SessionStatus::Exited
    }
}

// ---------------------------------------------------------------------
// Refreshing dirty states
// ---------------------------------------------------------------------

/// Worktrees with the same repo, target and path.
pub open spec fn same_wkey(a: WorktreeRecordV, b: WorktreeRecordV) -> bool {
    a.repo_alias == b.repo_alias && a.target == b.target && a.path == b.path
}

/// The refreshed dirty state for worktree `w` among the first `n`
/// observations: that of the last worktree with the same repo, target
/// and path whose observation came back.
pub open spec fn refreshed_upto(
    ws: Seq<WorktreeRecordV>,
    states: Seq<Option<DirtyState>>,
    w: WorktreeRecordV,
    n: nat,
) -> Option<DirtyState>
    decreases n,
{
    if n == 0 {
        None
    } else if same_wkey(ws[n - 1], w) && states[n - 1] is Some {
        states[n - 1]
    } else {
        refreshed_upto(ws, states, w, (n - 1) as nat)
    }
}

pub open spec fn refreshed(ws: Seq<WorktreeRecordV>, states: Seq<Option<DirtyState>>, w: WorktreeRecordV) -> Option<DirtyState> {
    refreshed_upto(ws, states, w, ws.len())
}

fn same_record_key(a: &WorktreeRecord, b: &WorktreeRecord) -> (r: bool)
    ensures
        r == same_wkey(a@, b@),
{
    str_eq(a.repo_alias.as_str(), b.repo_alias.as_str()) && str_eq(a.target.as_str(), b.target.as_str())
        && str_eq(a.path.as_str(), b.path.as_str())
}

fn refreshed_state(ws: &Vec<WorktreeRecord>, states: &Vec<Option<DirtyState>>, w: &WorktreeRecord) -> (r: Option<DirtyState>)
    requires
        states@.len() == ws@.len(),
    ensures
        r == refreshed(worktree_views(ws@), states@, w@),
{
    let ghost wv = worktree_views(ws@);
    let mut i = ws.len();
    while i > 0
        invariant
            wv == worktree_views(ws@),
            states@.len() == ws@.len(),
            i <= ws@.len(),
            refreshed(wv, states@, w@) == refreshed_upto(wv, states@, w@, i as nat),
        decreases i,
    {
        assert(wv[i - 1] == ws@[i - 1]@);
        if same_record_key(&ws[i - 1], w) && states[i - 1].is_some() {
            return states[i - 1];
        }
        i = i - 1;
    }
    None
}

/// Replaces each worktree's dirty state by the one observed for it, where
/// an observation came back; `states[i]` was observed at worktree `i`.
pub fn apply_dirty_refresh(cache: &mut Cache, states: &Vec<Option<DirtyState>>)
    requires
        states@.len() == old(cache).worktrees@.len(),
    ensures
        final(cache).schema_version == old(cache).schema_version,
        final(cache).repos@ == old(cache).repos@,
        final(cache).last_scan_unix == old(cache).last_scan_unix,
        final(cache).worktrees@.len() == old(cache).worktrees@.len(),
        forall|i: int|
            0 <= i < old(cache).worktrees@.len() ==> #[trigger] final(cache).worktrees@[i] == (WorktreeRecord {
                dirty: match refreshed(worktree_views(old(cache).worktrees@), states@, old(cache).worktrees@[i]@) {
                    Some(d) => d,
                    None => old(cache).worktrees@[i].dirty,
                },
                ..old(cache).worktrees@[i]
            }),
{
    let ghost orig = cache.worktrees@;
    let mut updated: Vec<WorktreeRecord> = Vec::new();
    let mut i: usize = 0;
    while i < cache.worktrees.len()
        invariant
            orig == cache.worktrees@,
            states@.len() == orig.len(),
            i <= orig.len(),
            updated@.len() == i,
            forall|j: int|
                0 <= j < i ==> #[trigger] updated@[j] == (WorktreeRecord {
                    dirty: match refreshed(worktree_views(orig), states@, orig[j]@) {
                        Some(d) => d,
                        None => orig[j].dirty,
                    },
                    ..orig[j]
                }),
        decreases orig.len() - i,
    {
        let mut w = cache.worktrees[i].duplicate();
        match refreshed_state(&cache.worktrees, states, &cache.worktrees[i]) {
            Some(d) => {
                w.dirty = d;
            },
            None => {},
        }
        updated.push(w);
        i = i + 1;
    }
    cache.worktrees = updated;
}


// ---------------------------------------------------------------------
// Laws
// ---------------------------------------------------------------------

proof fn lemma_filter_all(rs: Seq<RepoRecord>, ws: Seq<WorktreeRecord>)
    ensures
        kept_worktrees(rs, ws, None, None) == ws,
    decreases ws.len(),
{
    reveal(Seq::filter);
    if ws.len() > 0 {
        lemma_filter_all(rs, ws.drop_last());
        assert(kept_worktrees(rs, ws.drop_last(), None, None) == ws.drop_last());
        assert(ws.drop_last().push(ws.last()) =~= ws);
    }
}

/// Listing without a repo filter shows what `status` shows.
pub proof fn lemma_list_unfiltered_is_status(cache: Cache, probes: LiveProbes)
    ensures
        spec_render_status(
            repo_views(kept_repos(cache.repos@, None)),
            worktree_views(kept_worktrees(cache.repos@, cache.worktrees@, None, None)),
            probes,
        ) == spec_render_status(repo_views(cache.repos@), worktree_views(cache.worktrees@), probes),
{
    lemma_filter_all(cache.repos@, cache.worktrees@);
}

/// Every worktree a repo filter keeps belongs to a repo the filter keeps.
pub proof fn lemma_filter_keeps_whole_repos(rs: Seq<RepoRecord>, ws: Seq<WorktreeRecord>, f: Seq<char>, t: Option<Seq<char>>, i: int)
    requires
        0 <= i < kept_worktrees(rs, ws, Some(f), t).len(),
    ensures
        exists|j: int|
            0 <= j < kept_repos(rs, Some(f)).len() && (#[trigger] kept_repos(rs, Some(f))[j])@.alias
                == kept_worktrees(rs, ws, Some(f), t)[i]@.repo_alias,
{
    let pred = |w: WorktreeRecord| keeps_worktree(rs, Some(f), t, w);
    ws.lemma_filter_pred(pred, i);
    let w = kept_worktrees(rs, ws, Some(f), t)[i];
    let k = choose|k: int| 0 <= k < rs.len() && repo_selected(#[trigger] rs[k]@, f) && rs[k]@.alias == w@.repo_alias;
    let rpred = |r: RepoRecord| repo_selected(r@, f);
    rs.lemma_filter_contains(rpred, k);
    let kept = rs.filter(rpred);
    let j = choose|j: int| 0 <= j < kept.len() && kept[j] == rs[k];
    assert(kept == kept_repos(rs, Some(f)));
    assert(kept_repos(rs, Some(f))[j]@.alias == w@.repo_alias);
}

// ---------------------------------------------------------------------
// The layout of the session table
// ---------------------------------------------------------------------

proof fn lemma_join_one_line(parts: Seq<Seq<char>>, sep: Seq<char>)
    requires
        one_line(sep),
        forall|i: int| 0 <= i < parts.len() ==> one_line(#[trigger] parts[i]),
    ensures
        one_line(join(parts, sep)),
    decreases parts.len(),
{
    if parts.len() > 1 {
        assert forall|i: int| 0 <= i < parts.drop_last().len() implies one_line(#[trigger] parts.drop_last()[i]) by {
            assert(parts.drop_last()[i] == parts[i]);
        }
        lemma_join_one_line(parts.drop_last(), sep);
        assert(one_line(parts.last()));
    } else if parts.len() == 1 {
        assert(one_line(parts[0]));
    }
}

proof fn lemma_pair_worktree_in(ws: Seq<WorktreeRecordV>, repo: Seq<char>, target: Seq<char>)
    ensures
        pair_worktree(ws, repo, target) matches Some(w) ==> ws.contains(w),
    decreases ws.len(),
{
    if ws.len() > 0 {
        lemma_pair_worktree_in(ws.drop_last(), repo, target);
        if let Some(w) = pair_worktree(ws.drop_last(), repo, target) {
            if ws.drop_last().contains(w) {
                let k = choose|k: int| 0 <= k < ws.drop_last().len() && ws.drop_last()[k] == w;
                assert(ws[k] == w);
            }
        }
        assert(ws[ws.len() - 1] == ws.last());
    }
}

proof fn lemma_session_lt_strict()
    ensures
        strict_order(|x: SessionRecordV, y: SessionRecordV| session_lt(x, y)),
{
    assert forall|a: SessionRecordV| !#[trigger] session_lt(a, a) by {
        lemma_lt3_irreflexive((a.repo_alias, a.target, a.tmux_session_name));
    }
    assert forall|a: SessionRecordV, b: SessionRecordV, c: SessionRecordV|
        #[trigger] session_lt(a, b) && #[trigger] session_lt(b, c) implies session_lt(a, c) by {
        lemma_lt3_transitive(
            (a.repo_alias, a.target, a.tmux_session_name),
            (b.repo_alias, b.target, b.tmux_session_name),
            (c.repo_alias, c.target, c.tmux_session_name),
        );
    }
}

/// Whether no field of a session that the table shows holds a line break.
pub open spec fn session_one_line(s: SessionRecordV) -> bool {
    &&& one_line(s.repo_alias)
    &&& one_line(s.target)
    &&& one_line(s.tmux_session_name)
    &&& one_line(s.worktree_path)
    &&& forall|j: int| 0 <= j < s.command.len() ==> one_line(#[trigger] s.command[j])
}

/// The session table, when no shown field holds a line break, has one line
/// for its header and one per session; the sessions are listed in (repo,
/// target, tmux name) order, each exactly once.
pub proof fn lemma_sessions_layout(ws: Seq<WorktreeRecordV>, ss: Seq<SessionRecordV>, probes: LiveProbes)
    requires
        forall|i: int| 0 <= i < ss.len() ==> session_one_line(#[trigger] ss[i]),
        forall|i: int| 0 <= i < ws.len() ==> one_line(#[trigger] ws[i].path),
    ensures
        line_breaks(spec_sessions_output(ws, ss, probes)) == ss.len() + 1,
        sorted_by(
            isort(ss, |x: SessionRecordV, y: SessionRecordV| session_lt(x, y)),
            |x: SessionRecordV, y: SessionRecordV| session_lt(x, y),
        ),
        isort(ss, |x: SessionRecordV, y: SessionRecordV| session_lt(x, y)).to_multiset() == ss.to_multiset(),
{
    let lt = |x: SessionRecordV, y: SessionRecordV| session_lt(x, y);
    let sorted = isort(ss, lt);
    let rows = seq![sessions_header()] + sorted.map_values(|s: SessionRecordV| session_row(ws, s, probes));
    lemma_session_lt_strict();
    lemma_isort_sorted(ss, lt);
    lemma_isort_multiset(ss, lt);
    crate::discovery::lemma_isort_len(ss, lt);
    reveal_strlit("REPO");
    reveal_strlit("TARGET");
    reveal_strlit("STATUS");
    reveal_strlit("TMUX");
    reveal_strlit("COMMAND");
    reveal_strlit("PATH");
    reveal_strlit("running");
    reveal_strlit("exited");
    reveal_strlit("unknown");
    reveal_strlit("-");
    reveal_strlit(" ");
    assert forall|r: int, c: int| 0 <= r < rows.len() && 0 <= c < rows[r].len() implies one_line(#[trigger] rows[r][c]) by {
        if r == 0 {
            assert(rows[0] == sessions_header());
        } else {
            let s = sorted[r - 1];
            assert(rows[r] == session_row(ws, s, probes));
            assert(sorted.contains(s));
            lemma_isort_contains(ss, lt, s);
            let k = choose|k: int| 0 <= k < ss.len() && ss[k] == s;
            assert(session_one_line(ss[k]));
            lemma_join_one_line(s.command, " "@);
            lemma_pair_worktree_in(ws, s.repo_alias, s.target);
            if let Some(w) = pair_worktree(ws, s.repo_alias, s.target) {
                let j = choose|j: int| 0 <= j < ws.len() && ws[j] == w;
                assert(one_line(ws[j].path));
            }
        }
    }
    lemma_table_lines(rows);
}

/// For a worktree that is not stale, the branch shown is the one git
/// reports now for its path, whenever git answered: a branch switched
/// after discovery shows as the new branch, not the cached one.
pub proof fn lemma_live_branch_wins(rs: Seq<RepoRecordV>, w: WorktreeRecordV, probes: LiveProbes, b: BranchDisplayV)
    requires
        !spec_live_status(rs, w, probes).stale,
        branch_probe(probes.branches@, w.path) == Some(b),
    ensures
        spec_live_status(rs, w, probes).branch == b,
{
}

/// What the status shows of a worktree: it is stale exactly when its repo
/// is unknown, stale or gone, or it is itself stale or gone; a stale
/// worktree shows the branch the cache recorded (detached when it was) and
/// no HEAD; a live one shows the branch and HEAD git reports for its path,
/// falling back to the cached branch when git gave none; the dirty state
/// is the one recorded.
pub proof fn lemma_live_status_shows(rs: Seq<RepoRecordV>, w: WorktreeRecordV, probes: LiveProbes)
    ensures
        spec_live_status(rs, w, probes).stale <==> (match repo_by_alias(rs, w.repo_alias) {
            Some(r) => r.stale || !probes.facts.has_path(r.canonical_path),
            None => true,
        } || w.stale || !probes.facts.has_path(w.path)),
        spec_live_status(rs, w, probes).stale ==> spec_live_status(rs, w, probes).head is None && spec_live_status(
            rs,
            w,
            probes,
        ).branch == (if w.detached {
            BranchDisplayV::Detached
        } else {
            match w.branch {
                Some(x) => BranchDisplayV::Named(x),
                None => BranchDisplayV::Unknown,
            }
        }),
        !spec_live_status(rs, w, probes).stale ==> spec_live_status(rs, w, probes).head == head_probe(probes.heads@, w.path)
            && (branch_probe(probes.branches@, w.path) matches Some(b) ==> spec_live_status(rs, w, probes).branch == b),
        spec_live_status(rs, w, probes).dirty == w.dirty,
{
}

/// The probe lookup finds the first answer given for a path.
pub proof fn lemma_branch_probe_first(ps: Seq<(String, BranchDisplay)>, p: Seq<char>, k: int)
    requires
        0 <= k < ps.len(),
        ps[k].0@ == p,
        forall|j: int| 0 <= j < k ==> (#[trigger] ps[j]).0@ != p,
    ensures
        branch_probe(ps, p) == Some(ps[k].1@),
    decreases k,
{
    if k > 0 {
        assert forall|j: int| 0 <= j < k - 1 implies (#[trigger] ps.drop_first()[j]).0@ != p by {
            assert(ps.drop_first()[j] == ps[j + 1]);
        }
        assert(ps.drop_first()[k - 1] == ps[k]);
        assert(ps[0].0@ != p);
        lemma_branch_probe_first(ps.drop_first(), p, k - 1);
    }
}

} // verus!
