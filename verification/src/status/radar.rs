//! The radar: every known worktree with the process attached to it, the
//! worktrees that need attention first, and the tmux panes that belong to
//! no known worktree.

use vstd::prelude::*;

use crate::discovery::{
    ins_pos, isort, lemma_filter_len_perm, lemma_isort_contains, lemma_isort_len, lemma_isort_multiset, lemma_isort_sorted,
    lemma_map_filter_len, sorted_by, strict_order,
};
use crate::domain::{
    repo_views, session_views, worktree_views, Cache, DirtyState, SessionRecord, SessionRecordV,
    SessionStatus, WorktreeRecord, WorktreeRecordV,
};
use crate::facts::PathFacts;
use crate::paths::{path_has_prefix, path_same, path_starts_with, same_path};
use crate::session::{pane_views, TmuxPane, TmuxPaneV};
use crate::table::{blen, byte_len, paint_views, painted_table, render_painted_table, rows_view};
use crate::text::{dec, join, join_strings, push_decimal, str_eq, views};

use super::{
    filtered_cache, kept_repos, kept_worktrees, opt_view,
    base_branch_label, branch_label, find_pair, find_repo, lemma_lt3_irreflexive, lemma_lt3_transitive, live_status, lt3,
    lt3_exec, pair_worktree,
    repo_by_alias, sorted_worktrees, spec_base_branch_label, spec_branch_label, spec_live_status,
    spec_status_dirty_label, spec_status_head_label, status_dirty_label, status_head_label, worktree_lt3,
    LiveProbes, LiveStatusV, LiveWorktreeStatus,
};
use crate::domain::{copy_strings, RepoRecordV};

verus! {

/// The tmux panes that were listed, and whether tmux could be asked at all.
#[derive(Debug, PartialEq, Eq)]
pub struct TmuxInventory {
    pub panes: Vec<TmuxPane>,
    pub available: bool,
}

/// How a worktree row is classified on the radar.
#[derive(Debug, Clone, Copy, PartialEq, Eq, Structural)]
pub enum RadarState {
    Run,
    Exit,
    Mapped,
    Unmapped,
    Idle,
    Dirty,
    Stale,
    Unknown,
}

/// The counts above the radar; a count that needs tmux is absent when
/// tmux could not be asked.
#[derive(Debug, Clone, Copy, PartialEq, Eq, Structural)]
pub struct RadarSummary {
    pub repos: usize,
    pub worktrees: usize,
    pub active_panes: Option<usize>,
    pub managed_running: Option<usize>,
    pub exited: Option<usize>,
    pub unmapped: Option<usize>,
    pub dirty: usize,
    pub stale: usize,
    pub tmux_available: bool,
}

/// One worktree on the radar.
#[derive(Debug, PartialEq, Eq)]
pub struct RadarWorktreeRow {
    pub state: RadarState,
    pub repo: String,
    pub target: String,
    pub base_branch: String,
    pub branch: String,
    pub head: String,
    pub dirty: String,
    pub session: String,
    pub command: String,
    pub path: String,
}

pub struct RadarWorktreeRowV {
    pub state: RadarState,
    pub repo: Seq<char>,
    pub target: Seq<char>,
    pub base_branch: Seq<char>,
    pub branch: Seq<char>,
    pub head: Seq<char>,
    pub dirty: Seq<char>,
    pub session: Seq<char>,
    pub command: Seq<char>,
    pub path: Seq<char>,
}

impl View for RadarWorktreeRow {
    type V = RadarWorktreeRowV;

    open spec fn view(&self) -> RadarWorktreeRowV {
        RadarWorktreeRowV {
            state: self.state,
            repo: self.repo@,
            target: self.target@,
            base_branch: self.base_branch@,
            branch: self.branch@,
            head: self.head@,
            dirty: self.dirty@,
            session: self.session@,
            command: self.command@,
            path: self.path@,
        }
    }
}

/// One tmux pane that belongs to no known worktree.
#[derive(Debug, PartialEq, Eq)]
pub struct RadarTmuxRow {
    pub state: RadarState,
    pub session: String,
    pub command: String,
    pub cwd: String,
}

pub struct RadarTmuxRowV {
    pub state: RadarState,
    pub session: Seq<char>,
    pub command: Seq<char>,
    pub cwd: Seq<char>,
}

impl View for RadarTmuxRow {
    type V = RadarTmuxRowV;

    open spec fn view(&self) -> RadarTmuxRowV {
        RadarTmuxRowV { state: self.state, session: self.session@, command: self.command@, cwd: self.cwd@ }
    }
}

/// The whole radar.
#[derive(Debug, PartialEq, Eq)]
pub struct RadarView {
    pub summary: RadarSummary,
    pub attention: Vec<RadarWorktreeRow>,
    pub active: Vec<RadarWorktreeRow>,
    pub idle: Vec<RadarWorktreeRow>,
    pub unmapped: Vec<RadarTmuxRow>,
}

pub open spec fn row_views(v: Seq<RadarWorktreeRow>) -> Seq<RadarWorktreeRowV> {
    v.map_values(|r: RadarWorktreeRow| r@)
}

pub open spec fn tmux_row_views(v: Seq<RadarTmuxRow>) -> Seq<RadarTmuxRowV> {
    v.map_values(|r: RadarTmuxRow| r@)
}

// ---------------------------------------------------------------------
// Which worktree a path lies in
// ---------------------------------------------------------------------

/// Whether `p` lies in worktree `w`, both taken canonically.
pub open spec fn lies_in(facts: PathFacts, p: Seq<char>, w: WorktreeRecordV) -> bool {
    path_starts_with(facts.canon(p), facts.canon(w.path))
}

/// Among the first `n` worktrees, the index of the one `p` lies in with the
/// longest path; of several as long, the last.
pub open spec fn deepest_upto(ws: Seq<WorktreeRecordV>, facts: PathFacts, p: Seq<char>, n: nat) -> Option<int>
    decreases n,
{
    if n == 0 {
        None
    } else {
        let i = (n - 1) as int;
        let prev = deepest_upto(ws, facts, p, (n - 1) as nat);
        if lies_in(facts, p, ws[i]) {
            match prev {
                Some(j) => if blen(ws[i].path) >= blen(ws[j].path) {
                    Some(i)
                } else {
                    Some(j)
                },
                None => Some(i),
            }
        } else {
            prev
        }
    }
}

/// The worktree that `p` lies in: the deepest one, the last of equals.
pub open spec fn worktree_for_path(ws: Seq<WorktreeRecordV>, facts: PathFacts, p: Seq<char>) -> Option<int> {
    deepest_upto(ws, facts, p, ws.len())
}

proof fn lemma_deepest_bound(ws: Seq<WorktreeRecordV>, facts: PathFacts, p: Seq<char>, n: nat)
    ensures
        deepest_upto(ws, facts, p, n) matches Some(i) ==> 0 <= i < n,
    decreases n,
{
    if n > 0 {
        lemma_deepest_bound(ws, facts, p, (n - 1) as nat);
    }
}

/// Index of the worktree that `p` lies in.
pub fn find_worktree_for_path(ws: &Vec<WorktreeRecord>, facts: &PathFacts, p: &str) -> (r: Option<usize>)
    ensures
        match worktree_for_path(worktree_views(ws@), *facts, p@) {
            Some(i) => r matches Some(k) && k == i && 0 <= i < ws@.len(),
            None => r is None,
        },
{
    let ghost wv = worktree_views(ws@);
    let cp = facts.canonical_of(p);
    let mut best: Option<usize> = None;
    let mut best_len: usize = 0;
    let mut i: usize = 0;
    while i < ws.len()
        invariant
            wv == worktree_views(ws@),
            i <= ws@.len(),
            cp@ == facts.canon(p@),
            match deepest_upto(wv, *facts, p@, i as nat) {
                Some(j) => best matches Some(k) && k == j && 0 <= j < i && best_len == blen(wv[j].path),
                None => best is None,
            },
        decreases ws@.len() - i,
    {
        let w = &ws[i];
        assert(wv[i as int] == w@);
        let cw = facts.canonical_of(w.path.as_str());
        let n = byte_len(w.path.as_str());
        if path_has_prefix(cp.as_str(), cw.as_str()) {
            match best {
                Some(_) => {
                    if n >= best_len {
                        best = Some(i);
                        best_len = n;
                    }
                },
                None => {
                    best = Some(i);
                    best_len = n;
                },
            }
        }
        i = i + 1;
    }
    proof {
        lemma_deepest_bound(wv, *facts, p@, ws@.len() as nat);
    }
    best
}

// ---------------------------------------------------------------------
// Processes attached to worktrees
// ---------------------------------------------------------------------

/// A worktree's identity on the radar: repo, target and path.
pub open spec fn wkey(w: WorktreeRecordV) -> (Seq<char>, Seq<char>, Seq<char>) {
    (w.repo_alias, w.target, w.path)
}

/// Whether session `s` belongs to the worktree with key `k`: the cached
/// worktree of its repo and target (the last of several) has that key.
pub open spec fn session_for_key(ws: Seq<WorktreeRecordV>, s: SessionRecordV, k: (Seq<char>, Seq<char>, Seq<char>)) -> bool {
    match pair_worktree(ws, s.repo_alias, s.target) {
        Some(w) => wkey(w) == k,
        None => false,
    }
}

/// The first session that belongs to the worktree with key `k`.
pub open spec fn managed_session(
    ws: Seq<WorktreeRecordV>,
    ss: Seq<SessionRecordV>,
    k: (Seq<char>, Seq<char>, Seq<char>),
) -> Option<SessionRecordV>
    decreases ss.len(),
{
    if ss.len() == 0 {
        None
    } else if session_for_key(ws, ss[0], k) {
        Some(ss[0])
    } else {
        managed_session(ws, ss.drop_first(), k)
    }
}

/// Whether pane `p` lies in the worktree with key `k`.
pub open spec fn pane_for_key(
    ws: Seq<WorktreeRecordV>,
    facts: PathFacts,
    p: TmuxPaneV,
    k: (Seq<char>, Seq<char>, Seq<char>),
) -> bool {
    match worktree_for_path(ws, facts, p.current_path) {
        Some(i) => wkey(ws[i]) == k,
        None => false,
    }
}

/// The first pane that lies in the worktree with key `k`.
pub open spec fn mapped_pane(
    ws: Seq<WorktreeRecordV>,
    facts: PathFacts,
    ps: Seq<TmuxPaneV>,
    k: (Seq<char>, Seq<char>, Seq<char>),
) -> Option<TmuxPaneV>
    decreases ps.len(),
{
    if ps.len() == 0 {
        None
    } else if pane_for_key(ws, facts, ps[0], k) {
        Some(ps[0])
    } else {
        mapped_pane(ws, facts, ps.drop_first(), k)
    }
}

/// The first pane of tmux session `name`.
pub open spec fn pane_of_session(ps: Seq<TmuxPaneV>, name: Seq<char>) -> Option<TmuxPaneV>
    decreases ps.len(),
{
    if ps.len() == 0 {
        None
    } else if ps[0].session_name == name {
        Some(ps[0])
    } else {
        pane_of_session(ps.drop_first(), name)
    }
}

/// A process attached to a worktree: a managed session with its live
/// status, or a pane that merely runs inside the worktree.
#[derive(Debug, Clone, Copy, PartialEq, Eq, Structural)]
pub enum AttachmentKind {
    Managed(SessionStatus),
    Mapped,
}

#[derive(Debug, PartialEq, Eq)]
pub struct ProcessAttachment {
    pub kind: AttachmentKind,
    pub session: String,
    pub command: String,
}

pub struct ProcessV {
    pub kind: AttachmentKind,
    pub session: Seq<char>,
    pub command: Seq<char>,
}

impl View for ProcessAttachment {
    type V = ProcessV;

    open spec fn view(&self) -> ProcessV {
        ProcessV { kind: self.kind, session: self.session@, command: self.command@ }
    }
}

/// A managed session as the radar shows it: running when tmux lists one
/// of its panes, exited when tmux lists none, unknown without tmux; its
/// command is what the pane runs, or the recorded command.
pub open spec fn managed_process(s: SessionRecordV, ps: Seq<TmuxPaneV>, available: bool) -> ProcessV {
    let live = pane_of_session(ps, s.tmux_session_name);
    ProcessV {
        kind: AttachmentKind::Managed(
            if available {
                if live is Some {
                    SessionStatus::Running
                } else {
                    SessionStatus::Exited
                }
            } else {
                SessionStatus::Unknown
            },
        ),
        session: s.tmux_session_name,
        command: match live {
            Some(p) => if p.current_command.len() > 0 {
                p.current_command
            } else {
                join(s.command, " "@)
            },
            None => join(s.command, " "@),
        },
    }
}

/// The process attached to worktree `w`: its managed session first, else
/// a pane inside it.
pub open spec fn attached_process(
    ws: Seq<WorktreeRecordV>,
    ss: Seq<SessionRecordV>,
    ps: Seq<TmuxPaneV>,
    available: bool,
    facts: PathFacts,
    w: WorktreeRecordV,
) -> Option<ProcessV> {
    match managed_session(ws, ss, wkey(w)) {
        Some(s) => Some(managed_process(s, ps, available)),
        None => match mapped_pane(ws, facts, ps, wkey(w)) {
            Some(p) => Some(ProcessV { kind: AttachmentKind::Mapped, session: p.session_name, command: p.current_command }),
            None => None,
        },
    }
}

/// Whether two worktrees have the same repo, target and path.
fn same_key(a: &WorktreeRecord, b: &WorktreeRecord) -> (r: bool)
    ensures
        r == (wkey(a@) == wkey(b@)),
{
    str_eq(a.repo_alias.as_str(), b.repo_alias.as_str()) && str_eq(a.target.as_str(), b.target.as_str())
        && str_eq(a.path.as_str(), b.path.as_str())
}

fn find_managed_session(ws: &Vec<WorktreeRecord>, ss: &[SessionRecord], w: &WorktreeRecord) -> (r: Option<usize>)
    ensures
        match managed_session(worktree_views(ws@), session_views(ss@), wkey(w@)) {
            Some(s) => r matches Some(i) && i < ss@.len() && ss@[i as int]@ == s,
            None => r is None,
        },
{
    let ghost wv = worktree_views(ws@);
    let ghost sv = session_views(ss@);
    let mut i: usize = 0;
    assert(sv.skip(0) =~= sv);
    while i < ss.len()
        invariant
            wv == worktree_views(ws@),
            sv == session_views(ss@),
            i <= ss@.len(),
            managed_session(wv, sv, wkey(w@)) == managed_session(wv, sv.skip(i as int), wkey(w@)),
        decreases ss@.len() - i,
    {
        let s = &ss[i];
        assert(sv.skip(i as int)[0] == s@);
        let hit = match find_pair(ws, s.repo_alias.as_str(), s.target.as_str()) {
            Some(k) => same_key(&ws[k], w),
            None => false,
        };
        if hit {
            return Some(i);
        }
        assert(sv.skip(i as int).drop_first() =~= sv.skip(i + 1));
        i = i + 1;
    }
    None
}

fn find_mapped_pane(ws: &Vec<WorktreeRecord>, facts: &PathFacts, ps: &Vec<TmuxPane>, w: &WorktreeRecord) -> (r: Option<usize>)
    ensures
        match mapped_pane(worktree_views(ws@), *facts, pane_views(ps@), wkey(w@)) {
            Some(p) => r matches Some(i) && i < ps@.len() && ps@[i as int]@ == p,
            None => r is None,
        },
{
    let ghost wv = worktree_views(ws@);
    let ghost pv = pane_views(ps@);
    let mut i: usize = 0;
    assert(pv.skip(0) =~= pv);
    while i < ps.len()
        invariant
            wv == worktree_views(ws@),
            pv == pane_views(ps@),
            i <= ps@.len(),
            mapped_pane(wv, *facts, pv, wkey(w@)) == mapped_pane(wv, *facts, pv.skip(i as int), wkey(w@)),
        decreases ps@.len() - i,
    {
        let p = &ps[i];
        assert(pv.skip(i as int)[0] == p@);
        let found = find_worktree_for_path(ws, facts, p.current_path.as_str());
        let hit = match found {
            Some(k) => {
                assert(wv[k as int] == ws@[k as int]@);
                let h = same_key(&ws[k], w);
                assert(h == (wkey(wv[k as int]) == wkey(w@)));
                h
            },
            None => false,
        };
        proof {
            match worktree_for_path(wv, *facts, p@.current_path) {
                Some(j) => {
                    assert(hit == (wkey(wv[j]) == wkey(w@)));
                },
                None => {},
            }
            assert(hit == pane_for_key(wv, *facts, p@, wkey(w@)));
        }
        if hit {
            return Some(i);
        }
        assert(pv.skip(i as int).drop_first() =~= pv.skip(i + 1));
        i = i + 1;
    }
    None
}

fn find_pane_of_session(ps: &Vec<TmuxPane>, name: &str) -> (r: Option<usize>)
    ensures
        match pane_of_session(pane_views(ps@), name@) {
            Some(p) => r matches Some(i) && i < ps@.len() && ps@[i as int]@ == p,
            None => r is None,
        },
{
    let ghost pv = pane_views(ps@);
    let mut i: usize = 0;
    assert(pv.skip(0) =~= pv);
    while i < ps.len()
        invariant
            pv == pane_views(ps@),
            i <= ps@.len(),
            pane_of_session(pv, name@) == pane_of_session(pv.skip(i as int), name@),
        decreases ps@.len() - i,
    {
        assert(pv.skip(i as int)[0] == ps@[i as int]@);
        if str_eq(ps[i].session_name.as_str(), name) {
            return Some(i);
        }
        assert(pv.skip(i as int).drop_first() =~= pv.skip(i + 1));
        i = i + 1;
    }
    None
}

/// The process attached to worktree `w`.
pub fn process_for(
    ws: &Vec<WorktreeRecord>,
    sessions: &[SessionRecord],
    inventory: &TmuxInventory,
    facts: &PathFacts,
    w: &WorktreeRecord,
) -> (r: Option<ProcessAttachment>)
    ensures
        match attached_process(
            worktree_views(ws@),
            session_views(sessions@),
            pane_views(inventory.panes@),
            inventory.available,
            *facts,
            w@,
        ) {
            Some(x) => r matches Some(a) && a@ == x,
            None => r is None,
        },
{
    match find_managed_session(ws, sessions, w) {
        Some(i) => {
            let s = &sessions[i];
            let live = find_pane_of_session(&inventory.panes, s.tmux_session_name.as_str());
            let status = if inventory.available {
                if live.is_some() {
                    SessionStatus::Running
                } else {
                    SessionStatus::Exited
                }
            } else {
                SessionStatus::Unknown
            };
            assert(views(s.command@) =~= s@.command);
            let command = match live {
                Some(k) => {
                    if !inventory.panes[k].current_command.as_str().is_empty() {
                        inventory.panes[k].current_command.clone()
                    } else {
                        join_strings(&s.command, " ")
                    }
                },
                None => join_strings(&s.command, " "),
            };
            Some(ProcessAttachment {
                kind: AttachmentKind::Managed(status),
                session: s.tmux_session_name.clone(),
                command,
            })
        },
        None => match find_mapped_pane(ws, facts, &inventory.panes, w) {
            Some(k) => {
                let p = &inventory.panes[k];
                Some(ProcessAttachment {
                    kind: AttachmentKind::Mapped,
                    session: p.session_name.clone(),
                    command: p.current_command.clone(),
                })
            },
            None => None,
        },
    }
}


// ---------------------------------------------------------------------
// Rows
// ---------------------------------------------------------------------

/// Everything the radar is computed from.
pub struct RadarCtx {
    pub repos: Seq<RepoRecordV>,
    pub worktrees: Seq<WorktreeRecordV>,
    pub sessions: Seq<SessionRecordV>,
    pub panes: Seq<TmuxPaneV>,
    pub available: bool,
    pub probes: LiveProbes,
}

pub open spec fn radar_ctx(cache: Cache, sessions: Seq<SessionRecord>, inventory: TmuxInventory, probes: LiveProbes) -> RadarCtx {
    RadarCtx {
        repos: repo_views(cache.repos@),
        worktrees: worktree_views(cache.worktrees@),
        sessions: session_views(sessions),
        panes: pane_views(inventory.panes@),
        available: inventory.available,
        probes,
    }
}

/// A stale worktree first, then a dirty one; otherwise what its process
/// says, and idle without one.
pub open spec fn spec_radar_state(st: LiveStatusV, pr: Option<ProcessV>) -> RadarState {
    if st.stale {
        RadarState::Stale
    } else if st.dirty is Dirty {
        RadarState::Dirty
    } else {
        match pr {
            Some(p) => match p.kind {
                AttachmentKind::Managed(SessionStatus::Running) => RadarState::Run,
                AttachmentKind::Managed(SessionStatus::Exited) => RadarState::Exit,
                AttachmentKind::Managed(SessionStatus::Unknown) => RadarState::Unknown,
                AttachmentKind::Mapped => RadarState::Mapped,
            },
            None => RadarState::Idle,
        }
    }
}

pub fn radar_state(status: &LiveWorktreeStatus, process: &Option<ProcessAttachment>) -> (r: RadarState)
    ensures
        r == spec_radar_state(
            status@,
            match process {
                Some(p) => Some(p@),
                None => None,
            },
        ),
{
    if status.stale {
        return RadarState::Stale;
    }
    if let DirtyState::Dirty { .. } = status.dirty {
        return RadarState::Dirty;
    }
    match process {
        Some(p) => match p.kind {
            AttachmentKind::Managed(SessionStatus::Running) => RadarState::Run,
            AttachmentKind::Managed(SessionStatus::Exited) => RadarState::Exit,
            AttachmentKind::Managed(SessionStatus::Unknown) => RadarState::Unknown,
            AttachmentKind::Mapped => RadarState::Mapped,
        },
        None => RadarState::Idle,
    }
}

pub open spec fn process_of(c: RadarCtx, w: WorktreeRecordV) -> Option<ProcessV> {
    attached_process(c.worktrees, c.sessions, c.panes, c.available, c.probes.facts, w)
}

/// The radar row of worktree `w`.
pub open spec fn radar_row(c: RadarCtx, w: WorktreeRecordV) -> RadarWorktreeRowV {
    let st = spec_live_status(c.repos, w, c.probes);
    let pr = process_of(c, w);
    RadarWorktreeRowV {
        state: spec_radar_state(st, pr),
        repo: w.repo_alias,
        target: w.target,
        base_branch: spec_base_branch_label(repo_by_alias(c.repos, w.repo_alias)),
        branch: spec_branch_label(st.branch),
        head: spec_status_head_label(st),
        dirty: spec_status_dirty_label(st),
        session: match pr {
            Some(p) => p.session,
            None => "-"@,
        },
        command: match pr {
            Some(p) => p.command,
            None => "-"@,
        },
        path: w.path,
    }
}

/// The worktrees in (repo, target, path) order.
pub open spec fn sorted_ws(c: RadarCtx) -> Seq<WorktreeRecordV> {
    isort(c.worktrees, |x: WorktreeRecordV, y: WorktreeRecordV| worktree_lt3(x, y))
}

/// One row per worktree, in (repo, target, path) order.
pub open spec fn radar_rows(c: RadarCtx) -> Seq<RadarWorktreeRowV> {
    sorted_ws(c).map_values(|w: WorktreeRecordV| radar_row(c, w))
}

/// The order of urgency within a group.
pub open spec fn priority(s: RadarState) -> int {
    match s {
        RadarState::Stale => 0,
        RadarState::Exit => 1,
        RadarState::Unknown => 2,
        RadarState::Dirty => 3,
        RadarState::Run => 4,
        RadarState::Mapped => 5,
        RadarState::Idle => 6,
        RadarState::Unmapped => 7,
    }
}

fn priority_of(s: RadarState) -> (r: u8)
    ensures
        r == priority(s),
{
    match s {
        RadarState::Stale => 0,
        RadarState::Exit => 1,
        RadarState::Unknown => 2,
        RadarState::Dirty => 3,
        RadarState::Run => 4,
        RadarState::Mapped => 5,
        RadarState::Idle => 6,
        RadarState::Unmapped => 7,
    }
}

/// Rows by urgency, then repo, target and path.
pub open spec fn row_lt(a: RadarWorktreeRowV, b: RadarWorktreeRowV) -> bool {
    priority(a.state) < priority(b.state) || (priority(a.state) == priority(b.state) && lt3(
        (a.repo, a.target, a.path),
        (b.repo, b.target, b.path),
    ))
}

/// The section a row belongs to: attention (0) for stale, dirty, exited
/// and unknown worktrees, active processes (1), idle (2).
pub open spec fn group_of(s: RadarState) -> nat {
    match s {
        RadarState::Stale | RadarState::Dirty | RadarState::Exit | RadarState::Unknown => 0,
        RadarState::Run | RadarState::Mapped => 1,
        RadarState::Idle => 2,
        RadarState::Unmapped => 3,
    }
}

fn group_index(s: RadarState) -> (r: u8)
    ensures
        r == group_of(s),
{
    match s {
        RadarState::Stale | RadarState::Dirty | RadarState::Exit | RadarState::Unknown => 0,
        RadarState::Run | RadarState::Mapped => 1,
        RadarState::Idle => 2,
        RadarState::Unmapped => 3,
    }
}

/// The rows of section `g`, most urgent first.
pub open spec fn group(c: RadarCtx, g: nat) -> Seq<RadarWorktreeRowV> {
    isort(
        radar_rows(c).filter(|r: RadarWorktreeRowV| group_of(r.state) == g),
        |a: RadarWorktreeRowV, b: RadarWorktreeRowV| row_lt(a, b),
    )
}

/// Whether worktree `w` has a managed session in live status `st`.
pub open spec fn managed_in(c: RadarCtx, w: WorktreeRecordV, st: SessionStatus) -> bool {
    process_of(c, w) matches Some(p) && p.kind == AttachmentKind::Managed(st)
}

/// How many worktrees have a managed session in live status `st`.
pub open spec fn managed_count(c: RadarCtx, st: SessionStatus) -> nat {
    sorted_ws(c).filter(|w: WorktreeRecordV| managed_in(c, w, st)).len()
}

/// How many rows are in state `s`.
pub open spec fn state_count(c: RadarCtx, s: RadarState) -> nat {
    radar_rows(c).filter(|r: RadarWorktreeRowV| r.state == s).len()
}

fn strings_of_row(r: &RadarWorktreeRow) -> (v: Vec<String>)
    ensures
        views(v@) == worktree_cells(r@),
{
    let mut v: Vec<String> = Vec::new();
    v.push(radar_state_label(r.state));
    v.push(r.repo.clone());
    v.push(r.target.clone());
    v.push(r.base_branch.clone());
    v.push(r.branch.clone());
    v.push(r.head.clone());
    v.push(r.dirty.clone());
    v.push(r.session.clone());
    v.push(r.command.clone());
    v.push(r.path.clone());
    assert(views(v@) =~= worktree_cells(r@));
    v
}

/// The radar row of worktree `w`, with the process attached to it.
fn row_for(
    cache: &Cache,
    sessions: &[SessionRecord],
    inventory: &TmuxInventory,
    probes: &LiveProbes,
    w: &WorktreeRecord,
) -> (r: (RadarWorktreeRow, Option<ProcessAttachment>))
    ensures
        r.0@ == radar_row(radar_ctx(*cache, sessions@, *inventory, *probes), w@),
        match process_of(radar_ctx(*cache, sessions@, *inventory, *probes), w@) {
            Some(x) => r.1 matches Some(a) && a@ == x,
            None => r.1 is None,
        },
{
    let st = live_status(&cache.repos, w, probes);
    let pr = process_for(&cache.worktrees, sessions, inventory, &probes.facts, w);
    let state = radar_state(&st, &pr);
    let repo = match find_repo(&cache.repos, w.repo_alias.as_str()) {
        Some(k) => Some(&cache.repos[k]),
        None => None,
    };
    let (session, command) = match &pr {
        Some(p) => (p.session.clone(), p.command.clone()),
        None => ("-".to_owned(), "-".to_owned()),
    };
    let row = RadarWorktreeRow {
        state,
        repo: w.repo_alias.clone(),
        target: w.target.clone(),
        base_branch: base_branch_label(repo),
        branch: branch_label(&st.branch),
        head: status_head_label(&st),
        dirty: status_dirty_label(&st),
        session,
        command,
        path: w.path.clone(),
    };
    (row, pr)
}


// ---------------------------------------------------------------------
// Sorting rows
// ---------------------------------------------------------------------

impl RadarWorktreeRow {
    pub fn duplicate(&self) -> (r: Self)
        ensures
            r@ == self@,
    {
        RadarWorktreeRow {
            state: self.state,
            repo: self.repo.clone(),
            target: self.target.clone(),
            base_branch: self.base_branch.clone(),
            branch: self.branch.clone(),
            head: self.head.clone(),
            dirty: self.dirty.clone(),
            session: self.session.clone(),
            command: self.command.clone(),
            path: self.path.clone(),
        }
    }
}

impl RadarTmuxRow {
    pub fn duplicate(&self) -> (r: Self)
        ensures
            r@ == self@,
    {
        RadarTmuxRow {
            state: self.state,
            session: self.session.clone(),
            command: self.command.clone(),
            cwd: self.cwd.clone(),
        }
    }
}

fn row_lt_exec(a: &RadarWorktreeRow, b: &RadarWorktreeRow) -> (r: bool)
    ensures
        r == row_lt(a@, b@),
{
    let pa = priority_of(a.state);
    let pb = priority_of(b.state);
    pa < pb || (pa == pb && lt3_exec(
        a.repo.as_str(),
        a.target.as_str(),
        a.path.as_str(),
        b.repo.as_str(),
        b.target.as_str(),
        b.path.as_str(),
    ))
}

/// The rows in stable urgency order.
pub fn sort_rows(v: &Vec<RadarWorktreeRow>) -> (r: Vec<RadarWorktreeRow>)
    ensures
        row_views(r@) == isort(row_views(v@), |a: RadarWorktreeRowV, b: RadarWorktreeRowV| row_lt(a, b)),
{
    let ghost lt = |a: RadarWorktreeRowV, b: RadarWorktreeRowV| row_lt(a, b);
    let mut out: Vec<RadarWorktreeRow> = Vec::new();
    let mut i: usize = 0;
    assert(row_views(v@.take(0)) =~= Seq::<RadarWorktreeRowV>::empty());
    assert(row_views(out@) =~= Seq::<RadarWorktreeRowV>::empty());
    while i < v.len()
        invariant
            lt == (|a: RadarWorktreeRowV, b: RadarWorktreeRowV| row_lt(a, b)),
            i <= v@.len(),
            row_views(out@) == isort(row_views(v@.take(i as int)), lt),
        decreases v@.len() - i,
    {
        let x = v[i].duplicate();
        let ghost ov = row_views(out@);
        let mut p: usize = 0;
        while p < out.len() && !row_lt_exec(&x, &out[p])
            invariant
                lt == (|a: RadarWorktreeRowV, b: RadarWorktreeRowV| row_lt(a, b)),
                ov == row_views(out@),
                p <= out@.len(),
                ins_pos(ov, x@, lt, 0) == ins_pos(ov, x@, lt, p as int),
            decreases out@.len() - p,
        {
            assert(ov[p as int] == out@[p as int]@);
            p = p + 1;
        }
        proof {
            if p < out@.len() {
                assert(ov[p as int] == out@[p as int]@);
            }
            let pre = row_views(v@.take(i + 1));
            assert(pre.drop_last() =~= row_views(v@.take(i as int)));
            assert(pre.last() == x@);
        }
        let ghost xv = x@;
        out.insert(p, x);
        assert(row_views(out@) =~= ov.insert(p as int, xv));
        i = i + 1;
    }
    assert(v@.take(v@.len() as int) =~= v@);
    out
}

/// Tmux rows by session, then working directory, then command.
pub open spec fn tmux_lt(a: RadarTmuxRowV, b: RadarTmuxRowV) -> bool {
    lt3((a.session, a.cwd, a.command), (b.session, b.cwd, b.command))
}

fn sort_tmux_rows(v: &Vec<RadarTmuxRow>) -> (r: Vec<RadarTmuxRow>)
    ensures
        tmux_row_views(r@) == isort(tmux_row_views(v@), |a: RadarTmuxRowV, b: RadarTmuxRowV| tmux_lt(a, b)),
{
    let ghost lt = |a: RadarTmuxRowV, b: RadarTmuxRowV| tmux_lt(a, b);
    let mut out: Vec<RadarTmuxRow> = Vec::new();
    let mut i: usize = 0;
    assert(tmux_row_views(v@.take(0)) =~= Seq::<RadarTmuxRowV>::empty());
    assert(tmux_row_views(out@) =~= Seq::<RadarTmuxRowV>::empty());
    while i < v.len()
        invariant
            lt == (|a: RadarTmuxRowV, b: RadarTmuxRowV| tmux_lt(a, b)),
            i <= v@.len(),
            tmux_row_views(out@) == isort(tmux_row_views(v@.take(i as int)), lt),
        decreases v@.len() - i,
    {
        let x = v[i].duplicate();
        let ghost ov = tmux_row_views(out@);
        let mut p: usize = 0;
        while p < out.len() && !lt3_exec(
            x.session.as_str(),
            x.cwd.as_str(),
            x.command.as_str(),
            out[p].session.as_str(),
            out[p].cwd.as_str(),
            out[p].command.as_str(),
        )
            invariant
                lt == (|a: RadarTmuxRowV, b: RadarTmuxRowV| tmux_lt(a, b)),
                ov == tmux_row_views(out@),
                p <= out@.len(),
                ins_pos(ov, x@, lt, 0) == ins_pos(ov, x@, lt, p as int),
            decreases out@.len() - p,
        {
            assert(ov[p as int] == out@[p as int]@);
            p = p + 1;
        }
        proof {
            if p < out@.len() {
                assert(ov[p as int] == out@[p as int]@);
            }
            let pre = tmux_row_views(v@.take(i + 1));
            assert(pre.drop_last() =~= tmux_row_views(v@.take(i as int)));
            assert(pre.last() == x@);
        }
        let ghost xv = x@;
        out.insert(p, x);
        assert(tmux_row_views(out@) =~= ov.insert(p as int, xv));
        i = i + 1;
    }
    assert(v@.take(v@.len() as int) =~= v@);
    out
}

// ---------------------------------------------------------------------
// Unmapped tmux panes
// ---------------------------------------------------------------------

/// Whether some managed session is called `name`.
pub open spec fn is_managed_name(ss: Seq<SessionRecordV>, name: Seq<char>) -> bool {
    exists|i: int| 0 <= i < ss.len() && (#[trigger] ss[i]).tmux_session_name == name
}

/// A pane is unmapped when no managed session has its name and it lies in
/// no known worktree.
pub open spec fn pane_unmapped(c: RadarCtx, p: TmuxPaneV) -> bool {
    !is_managed_name(c.sessions, p.session_name) && worktree_for_path(c.worktrees, c.probes.facts, p.current_path) is None
}

pub open spec fn tmux_row(p: TmuxPaneV) -> RadarTmuxRowV {
    RadarTmuxRowV { state: RadarState::Unmapped, session: p.session_name, command: p.current_command, cwd: p.current_path }
}

/// Whether two rows stand for the same pane key: the same session and
/// command, in the same directory as a `Path` (component by component).
pub open spec fn same_row(a: RadarTmuxRowV, b: RadarTmuxRowV) -> bool {
    a.session == b.session && a.command == b.command && path_same(a.cwd, b.cwd)
}

/// Whether some row of `s` has the same key as `x`.
pub open spec fn has_same_row(s: Seq<RadarTmuxRowV>, x: RadarTmuxRowV) -> bool {
    exists|i: int| 0 <= i < s.len() && same_row(#[trigger] s[i], x)
}

/// The rows with later repeats of an earlier row's key left out.
pub open spec fn dedup_rows(s: Seq<RadarTmuxRowV>) -> Seq<RadarTmuxRowV>
    decreases s.len(),
{
    if s.len() == 0 {
        s
    } else if has_same_row(s.drop_last(), s.last()) {
        dedup_rows(s.drop_last())
    } else {
        dedup_rows(s.drop_last()).push(s.last())
    }
}

/// The unmapped panes, each (session, directory, command) once, sorted;
/// none when tmux could not be asked.
pub open spec fn spec_unmapped(c: RadarCtx) -> Seq<RadarTmuxRowV> {
    if c.available {
        isort(
            dedup_rows(c.panes.filter(|p: TmuxPaneV| pane_unmapped(c, p)).map_values(|p: TmuxPaneV| tmux_row(p))),
            |a: RadarTmuxRowV, b: RadarTmuxRowV| tmux_lt(a, b),
        )
    } else {
        seq![]
    }
}

fn managed_name(ss: &[SessionRecord], name: &str) -> (r: bool)
    ensures
        r == is_managed_name(session_views(ss@), name@),
{
    let ghost sv = session_views(ss@);
    let mut i: usize = 0;
    while i < ss.len()
        invariant
            sv == session_views(ss@),
            i <= ss@.len(),
            forall|j: int| 0 <= j < i ==> (#[trigger] sv[j]).tmux_session_name != name@,
        decreases ss@.len() - i,
    {
        assert(sv[i as int] == ss@[i as int]@);
        if str_eq(ss[i].tmux_session_name.as_str(), name) {
            return true;
        }
        i = i + 1;
    }
    false
}

fn same_tmux_row(a: &RadarTmuxRow, b: &RadarTmuxRow) -> (r: bool)
    ensures
        r == same_row(a@, b@),
{
    str_eq(a.session.as_str(), b.session.as_str()) && str_eq(a.command.as_str(), b.command.as_str())
        && same_path(a.cwd.as_str(), b.cwd.as_str())
}

/// The unmapped panes of the inventory, as tmux rows.
pub fn unmapped_tmux_panes(
    cache: &Cache,
    sessions: &[SessionRecord],
    inventory: &TmuxInventory,
    probes: &LiveProbes,
) -> (r: Vec<RadarTmuxRow>)
    ensures
        tmux_row_views(r@) == spec_unmapped(radar_ctx(*cache, sessions@, *inventory, *probes)),
{
    let ghost c = radar_ctx(*cache, sessions@, *inventory, *probes);
    let facts = &probes.facts;
    if !inventory.available {
        let r: Vec<RadarTmuxRow> = Vec::new();
        assert(tmux_row_views(r@) =~= seq![]);
        return r;
    }
    let ghost pv = pane_views(inventory.panes@);
    let ghost keep = |p: TmuxPaneV| pane_unmapped(c, p);
    // the unmapped panes, in inventory order
    let mut cands: Vec<RadarTmuxRow> = Vec::new();
    let mut i: usize = 0;
    while i < inventory.panes.len()
        invariant
            pv == pane_views(inventory.panes@),
            c == radar_ctx(*cache, sessions@, *inventory, *probes),
            facts == &probes.facts,
            keep == (|p: TmuxPaneV| pane_unmapped(c, p)),
            i <= inventory.panes@.len(),
            tmux_row_views(cands@) == pv.take(i as int).filter(keep).map_values(|p: TmuxPaneV| tmux_row(p)),
        decreases inventory.panes@.len() - i,
    {
        let p = &inventory.panes[i];
        assert(pv[i as int] == p@);
        let unmapped = !managed_name(sessions, p.session_name.as_str()) && find_worktree_for_path(
            &cache.worktrees,
            facts,
            p.current_path.as_str(),
        ).is_none();
        let ghost before = tmux_row_views(cands@);
        if unmapped {
            cands.push(
                RadarTmuxRow {
                    state: RadarState::Unmapped,
                    session: p.session_name.clone(),
                    command: p.current_command.clone(),
                    cwd: p.current_path.clone(),
                },
            );
        }
        proof {
            reveal(Seq::filter);
            let pre = pv.take(i + 1);
            assert(pre.drop_last() =~= pv.take(i as int));
            assert(pre.last() == p@);
            assert(unmapped == keep(p@));
            if unmapped {
                assert(tmux_row_views(cands@) =~= before.push(tmux_row(p@)));
                assert(pre.filter(keep) == pv.take(i as int).filter(keep).push(p@));
                assert(pre.filter(keep).map_values(|p: TmuxPaneV| tmux_row(p)) =~= pv.take(i as int).filter(
                    keep,
                ).map_values(|p: TmuxPaneV| tmux_row(p)).push(tmux_row(p@)));
            } else {
                assert(tmux_row_views(cands@) =~= before);
            }
        }
        i = i + 1;
    }
    assert(pv.take(pv.len() as int) =~= pv);
    // each row once
    let ghost cv = tmux_row_views(cands@);
    let mut once: Vec<RadarTmuxRow> = Vec::new();
    let mut k: usize = 0;
    while k < cands.len()
        invariant
            cv == tmux_row_views(cands@),
            k <= cands@.len(),
            tmux_row_views(once@) == dedup_rows(cv.take(k as int)),
        decreases cands@.len() - k,
    {
        let x = &cands[k];
        assert(cv[k as int] == x@);
        let mut seen = false;
        let mut j: usize = 0;
        while j < k
            invariant
                cv == tmux_row_views(cands@),
                k < cands@.len(),
                x == &cands@[k as int],
                j <= k,
                seen == (exists|m: int| 0 <= m < j && same_row(#[trigger] cv[m], x@)),
            decreases k - j,
        {
            assert(cv[j as int] == cands@[j as int]@);
            if same_tmux_row(&cands[j], x) {
                seen = true;
            }
            j = j + 1;
        }
        proof {
            let pre = cv.take(k + 1);
            assert(pre.drop_last() =~= cv.take(k as int));
            assert(pre.last() == x@);
            if seen {
                let m = choose|m: int| 0 <= m < k && same_row(#[trigger] cv[m], x@);
                assert(cv.take(k as int)[m] == cv[m]);
            } else {
                assert forall|m: int| 0 <= m < cv.take(k as int).len() implies !same_row(
                    #[trigger] cv.take(k as int)[m],
                    x@,
                ) by {
                    assert(cv.take(k as int)[m] == cv[m]);
                }
            }
            assert(seen == has_same_row(cv.take(k as int), x@));
        }
        let ghost before = tmux_row_views(once@);
        if !seen {
            once.push(x.duplicate());
            assert(tmux_row_views(once@) =~= before.push(x@));
        }
        k = k + 1;
    }
    assert(cv.take(cv.len() as int) =~= cv);
    sort_tmux_rows(&once)
}


// ---------------------------------------------------------------------
// The whole radar
// ---------------------------------------------------------------------

pub struct RadarViewV {
    pub summary: RadarSummary,
    pub attention: Seq<RadarWorktreeRowV>,
    pub active: Seq<RadarWorktreeRowV>,
    pub idle: Seq<RadarWorktreeRowV>,
    pub unmapped: Seq<RadarTmuxRowV>,
}

impl View for RadarView {
    type V = RadarViewV;

    open spec fn view(&self) -> RadarViewV {
        RadarViewV {
            summary: self.summary,
            attention: row_views(self.attention@),
            active: row_views(self.active@),
            idle: row_views(self.idle@),
            unmapped: tmux_row_views(self.unmapped@),
        }
    }
}

/// The counts: repos and worktrees always; panes, managed sessions
/// running and exited, and unmapped panes only when tmux answered;
/// worktrees in state dirty and stale.
pub open spec fn spec_summary(c: RadarCtx) -> RadarSummary {
    RadarSummary {
        repos: c.repos.len() as usize,
        worktrees: c.worktrees.len() as usize,
        active_panes: if c.available { Some(c.panes.len() as usize) } else { None },
        managed_running: if c.available { Some(managed_count(c, SessionStatus::Running) as usize) } else { None },
        exited: if c.available { Some(managed_count(c, SessionStatus::Exited) as usize) } else { None },
        unmapped: if c.available { Some(spec_unmapped(c).len() as usize) } else { None },
        dirty: state_count(c, RadarState::Dirty) as usize,
        stale: state_count(c, RadarState::Stale) as usize,
        tmux_available: c.available,
    }
}

/// The radar of a cache, its sessions and what tmux and git reported.
pub open spec fn spec_radar(c: RadarCtx) -> RadarViewV {
    RadarViewV {
        summary: spec_summary(c),
        attention: group(c, 0),
        active: group(c, 1),
        idle: group(c, 2),
        unmapped: spec_unmapped(c),
    }
}

pub fn build_radar_view(
    cache: &Cache,
    sessions: &[SessionRecord],
    inventory: &TmuxInventory,
    probes: &LiveProbes,
) -> (r: RadarView)
    ensures
        r@ == spec_radar(radar_ctx(*cache, sessions@, *inventory, *probes)),
{
    let ghost c = radar_ctx(*cache, sessions@, *inventory, *probes);
    let sorted = sorted_worktrees(&cache.worktrees);
    let ghost sv = worktree_views(sorted@);
    let ghost rows = radar_rows(c);
    proof {
        crate::discovery::lemma_isort_len(c.worktrees, |x: WorktreeRecordV, y: WorktreeRecordV| worktree_lt3(x, y));
    }
    let ghost p0 = |r: RadarWorktreeRowV| group_of(r.state) == 0;
    let ghost p1 = |r: RadarWorktreeRowV| group_of(r.state) == 1;
    let ghost p2 = |r: RadarWorktreeRowV| group_of(r.state) == 2;
    let ghost ps = |r: RadarWorktreeRowV| r.state == RadarState::Stale;
    let ghost pd = |r: RadarWorktreeRowV| r.state == RadarState::Dirty;
    let ghost mr = |w: WorktreeRecordV| managed_in(c, w, SessionStatus::Running);
    let ghost me = |w: WorktreeRecordV| managed_in(c, w, SessionStatus::Exited);
    let mut attention: Vec<RadarWorktreeRow> = Vec::new();
    let mut active: Vec<RadarWorktreeRow> = Vec::new();
    let mut idle: Vec<RadarWorktreeRow> = Vec::new();
    let mut stale: usize = 0;
    let mut dirty: usize = 0;
    let mut running: usize = 0;
    let mut exited: usize = 0;
    let mut i: usize = 0;
    while i < sorted.len()
        invariant
            c == radar_ctx(*cache, sessions@, *inventory, *probes),
            sv == worktree_views(sorted@),
            sv == sorted_ws(c),
            rows == radar_rows(c),
            rows.len() == sv.len(),
            p0 == (|r: RadarWorktreeRowV| group_of(r.state) == 0),
            p1 == (|r: RadarWorktreeRowV| group_of(r.state) == 1),
            p2 == (|r: RadarWorktreeRowV| group_of(r.state) == 2),
            ps == (|r: RadarWorktreeRowV| r.state == RadarState::Stale),
            pd == (|r: RadarWorktreeRowV| r.state == RadarState::Dirty),
            mr == (|w: WorktreeRecordV| managed_in(c, w, SessionStatus::Running)),
            me == (|w: WorktreeRecordV| managed_in(c, w, SessionStatus::Exited)),
            i <= sorted@.len(),
            row_views(attention@) == rows.take(i as int).filter(p0),
            row_views(active@) == rows.take(i as int).filter(p1),
            row_views(idle@) == rows.take(i as int).filter(p2),
            stale == rows.take(i as int).filter(ps).len(),
            dirty == rows.take(i as int).filter(pd).len(),
            running == sv.take(i as int).filter(mr).len(),
            exited == sv.take(i as int).filter(me).len(),
            stale <= i,
            dirty <= i,
            running <= i,
            exited <= i,
        decreases sorted@.len() - i,
    {
        let w = &sorted[i];
        assert(sv[i as int] == w@);
        let (row, pr) = row_for(cache, sessions, inventory, probes, w);
        let ghost rv = row@;
        assert(rows[i as int] == rv);
        let ghost a0 = row_views(attention@);
        let ghost a1 = row_views(active@);
        let ghost a2 = row_views(idle@);
        if row.state == RadarState::Stale {
            stale = stale + 1;
        } else if row.state == RadarState::Dirty {
            dirty = dirty + 1;
        }
        match &pr {
            Some(p) => match p.kind {
                AttachmentKind::Managed(SessionStatus::Running) => {
                    running = running + 1;
                },
                AttachmentKind::Managed(SessionStatus::Exited) => {
                    exited = exited + 1;
                },
                _ => {},
            },
            None => {},
        }
        let g = group_index(row.state);
        if g == 0 {
            attention.push(row);
        } else if g == 1 {
            active.push(row);
        } else {
            idle.push(row);
        }
        proof {
            reveal(Seq::filter);
            let rpre = rows.take(i + 1);
            assert(rpre.drop_last() =~= rows.take(i as int));
            assert(rpre.last() == rv);
            let wpre = sv.take(i + 1);
            assert(wpre.drop_last() =~= sv.take(i as int));
            assert(wpre.last() == w@);
            assert(group_of(rv.state) != 3);
            if g == 0 {
                assert(row_views(attention@) =~= a0.push(rv));
            } else if g == 1 {
                assert(row_views(active@) =~= a1.push(rv));
            } else {
                assert(row_views(idle@) =~= a2.push(rv));
            }
            assert(row_views(attention@) == rpre.filter(p0));
            assert(row_views(active@) == rpre.filter(p1));
            assert(row_views(idle@) == rpre.filter(p2));
            assert(stale == rpre.filter(ps).len());
            assert(dirty == rpre.filter(pd).len());
            assert(running == wpre.filter(mr).len());
            assert(exited == wpre.filter(me).len());
        }
        i = i + 1;
    }
    proof {
        assert(rows.take(rows.len() as int) =~= rows);
        assert(sv.take(sv.len() as int) =~= sv);
    }
    let unmapped = unmapped_tmux_panes(cache, sessions, inventory, probes);
    let available = inventory.available;
    let summary = RadarSummary {
        repos: cache.repos.len(),
        worktrees: cache.worktrees.len(),
        active_panes: if available { Some(inventory.panes.len()) } else { None },
        managed_running: if available { Some(running) } else { None },
        exited: if available { Some(exited) } else { None },
        unmapped: if available { Some(unmapped.len()) } else { None },
        dirty,
        stale,
        tmux_available: available,
    };
    let r = RadarView {
        summary,
        attention: sort_rows(&attention),
        active: sort_rows(&active),
        idle: sort_rows(&idle),
        unmapped,
    };
    assert(r@.summary == spec_summary(c));
    r
}


// ---------------------------------------------------------------------
// Rendering
// ---------------------------------------------------------------------

pub open spec fn spec_state_label(s: RadarState) -> Seq<char> {
    match s {
        RadarState::Run => "RUN"@,
        RadarState::Exit => "EXIT"@,
        RadarState::Mapped => "MAP"@,
        RadarState::Unmapped => "UNMAPPED"@,
        RadarState::Idle => "IDLE"@,
        RadarState::Dirty => "DIRTY"@,
        RadarState::Stale => "STALE"@,
        RadarState::Unknown => "UNKNOWN"@,
    }
}

pub fn radar_state_label(s: RadarState) -> (r: String)
    ensures
        r@ == spec_state_label(s),
{
    match s {
        RadarState::Run => "RUN".to_owned(),
        RadarState::Exit => "EXIT".to_owned(),
        RadarState::Mapped => "MAP".to_owned(),
        RadarState::Unmapped => "UNMAPPED".to_owned(),
        RadarState::Idle => "IDLE".to_owned(),
        RadarState::Dirty => "DIRTY".to_owned(),
        RadarState::Stale => "STALE".to_owned(),
        RadarState::Unknown => "UNKNOWN".to_owned(),
    }
}

/// The terminal color of a state: green running, red exited or stale,
/// cyan mapped, blue unmapped, dim idle, yellow dirty, magenta unknown.
pub open spec fn spec_state_color(s: RadarState) -> Seq<char> {
    match s {
        RadarState::Run => "32"@,
        RadarState::Exit => "31"@,
        RadarState::Mapped => "36"@,
        RadarState::Unmapped => "34"@,
        RadarState::Idle => "2"@,
        RadarState::Dirty => "33"@,
        RadarState::Stale => "31"@,
        RadarState::Unknown => "35"@,
    }
}

fn state_color(s: RadarState) -> (r: String)
    ensures
        r@ == spec_state_color(s),
{
    match s {
        RadarState::Run => "32".to_owned(),
        RadarState::Exit => "31".to_owned(),
        RadarState::Mapped => "36".to_owned(),
        RadarState::Unmapped => "34".to_owned(),
        RadarState::Idle => "2".to_owned(),
        RadarState::Dirty => "33".to_owned(),
        RadarState::Stale => "31".to_owned(),
        RadarState::Unknown => "35".to_owned(),
    }
}

pub open spec fn opt_count(n: Option<usize>) -> Seq<char> {
    match n {
        Some(k) => dec(k as nat),
        None => "unknown"@,
    }
}

/// The summary line.
pub open spec fn summary_line(s: RadarSummary) -> Seq<char> {
    "SUMMARY repos="@ + dec(s.repos as nat) + " worktrees="@ + dec(s.worktrees as nat) + " tmux="@ + (if s.tmux_available {
        "ok"@
    } else {
        "unavailable"@
    }) + " active-panes="@ + opt_count(s.active_panes) + " managed-running="@ + opt_count(s.managed_running)
        + " exited="@ + opt_count(s.exited) + " unmapped="@ + opt_count(s.unmapped) + " dirty="@ + dec(
        s.dirty as nat,
    ) + " stale="@ + dec(s.stale as nat)
}

fn push_count(out: &mut String, n: Option<usize>)
    ensures
        final(out)@ == old(out)@ + opt_count(n),
{
    match n {
        Some(k) => push_decimal(out, k as u64),
        None => {
            out.append("unknown");
        },
    }
}

fn render_summary(s: &RadarSummary) -> (r: String)
    ensures
        r@ == summary_line(*s),
{
    let mut out = String::new();
    out.append("SUMMARY repos=");
    push_decimal(&mut out, s.repos as u64);
    out.append(" worktrees=");
    push_decimal(&mut out, s.worktrees as u64);
    out.append(" tmux=");
    if s.tmux_available {
        out.append("ok");
    } else {
        out.append("unavailable");
    }
    out.append(" active-panes=");
    push_count(&mut out, s.active_panes);
    out.append(" managed-running=");
    push_count(&mut out, s.managed_running);
    out.append(" exited=");
    push_count(&mut out, s.exited);
    out.append(" unmapped=");
    push_count(&mut out, s.unmapped);
    out.append(" dirty=");
    push_decimal(&mut out, s.dirty as u64);
    out.append(" stale=");
    push_decimal(&mut out, s.stale as u64);
    assert(out@ =~= summary_line(*s));
    out
}

pub open spec fn worktree_header() -> Seq<Seq<char>> {
    seq![
        "STATE"@,
        "REPO"@,
        "TARGET"@,
        "BASE BRANCH"@,
        "WORKTREE BRANCH"@,
        "HEAD"@,
        "DIRTY"@,
        "SESSION"@,
        "COMMAND"@,
        "PATH"@,
    ]
}

pub open spec fn worktree_cells(r: RadarWorktreeRowV) -> Seq<Seq<char>> {
    seq![
        spec_state_label(r.state),
        r.repo,
        r.target,
        r.base_branch,
        r.branch,
        r.head,
        r.dirty,
        r.session,
        r.command,
        r.path,
    ]
}

pub open spec fn tmux_header() -> Seq<Seq<char>> {
    seq!["STATE"@, "TMUX"@, "COMMAND"@, "CWD"@]
}

pub open spec fn tmux_cells(r: RadarTmuxRowV) -> Seq<Seq<char>> {
    seq![spec_state_label(r.state), r.session, r.command, r.cwd]
}

/// The color of each row's state cell: none for the header, and none at
/// all without colors.
pub open spec fn state_paints(states: Seq<RadarState>, colors: bool) -> Seq<Option<Seq<char>>> {
    seq![None] + states.map_values(|s: RadarState| if colors { Some(spec_state_color(s)) } else { None })
}

/// A titled section: its table, or `none` when it has no rows.
pub open spec fn section(
    title: Seq<char>,
    header: Seq<Seq<char>>,
    cells: Seq<Seq<Seq<char>>>,
    states: Seq<RadarState>,
    colors: bool,
) -> Seq<char> {
    title + "\n"@ + if cells.len() == 0 {
        "  none\n"@
    } else {
        painted_table(seq![header] + cells, state_paints(states, colors))
    }
}

pub open spec fn worktree_section(title: Seq<char>, rows: Seq<RadarWorktreeRowV>, colors: bool) -> Seq<char> {
    section(
        title,
        worktree_header(),
        rows.map_values(|r: RadarWorktreeRowV| worktree_cells(r)),
        rows.map_values(|r: RadarWorktreeRowV| r.state),
        colors,
    )
}

pub open spec fn tmux_section(title: Seq<char>, rows: Seq<RadarTmuxRowV>, colors: bool) -> Seq<char> {
    section(
        title,
        tmux_header(),
        rows.map_values(|r: RadarTmuxRowV| tmux_cells(r)),
        rows.map_values(|r: RadarTmuxRowV| r.state),
        colors,
    )
}

/// The radar as text: the summary line, a blank line, then the sections
/// attention, active processes, idle and unmapped tmux, each after the
/// previous one and a blank line.
pub open spec fn spec_render_radar(v: RadarViewV, colors: bool) -> Seq<char> {
    summary_line(v.summary) + "\n\n"@ + worktree_section("ATTENTION"@, v.attention, colors) + "\n"@
        + worktree_section("ACTIVE PROCESSES"@, v.active, colors) + "\n"@ + worktree_section(
        "IDLE"@,
        v.idle,
        colors,
    ) + "\n"@ + tmux_section("UNMAPPED TMUX"@, v.unmapped, colors)
}

/// Renders a section from its rows' cells and states.
fn render_section(
    title: &str,
    header: Vec<String>,
    cells: Vec<Vec<String>>,
    states: &Vec<RadarState>,
    colors: bool,
) -> (r: String)
    requires
        cells@.len() == states@.len(),
    ensures
        r@ == section(title@, views(header@), rows_view(cells@), states@, colors),
{
    let mut out = String::new();
    out.append(title);
    out.append("\n");
    if cells.len() == 0 {
        out.append("  none\n");
        proof {
            reveal_strlit("\n");
            reveal_strlit("  none\n");
        }
        assert(out@ =~= section(title@, views(header@), rows_view(cells@), states@, colors));
        return out;
    }
    let mut rows: Vec<Vec<String>> = Vec::new();
    let mut paints: Vec<Option<String>> = Vec::new();
    let ghost hv = views(header@);
    rows.push(header);
    paints.push(None);
    let mut i: usize = 0;
    let ghost cv = rows_view(cells@);
    assert(rows_view(rows@) =~= (seq![hv] + cv).take(1));
    assert(paint_views(paints@) =~= state_paints(states@, colors).take(1));
    while i < cells.len()
        invariant
            cv == rows_view(cells@),
            cells@.len() == states@.len(),
            i <= cells@.len(),
            rows_view(rows@) == (seq![hv] + cv).take(i + 1),
            paint_views(paints@) == state_paints(states@, colors).take(i + 1),
        decreases cells@.len() - i,
    {
        let row = copy_strings(&cells[i]);
        let ghost rv = views(row@);
        let ghost before = rows@;
        rows.push(row);
        let st = states[i];
        let paint = if colors { Some(state_color(st)) } else { None };
        let ghost pbefore = paints@;
        paints.push(paint);
        proof {
            assert(rows_view(rows@) =~= rows_view(before).push(rv));
            assert((seq![hv] + cv)[i + 1] == cv[i as int]);
            assert(cv[i as int] == rv);
            assert(rows_view(rows@) =~= (seq![hv] + cv).take(i + 2));
            assert(paint_views(paints@) =~= paint_views(pbefore).push(
                if colors { Some(spec_state_color(st)) } else { None },
            ));
            assert(paint_views(paints@) =~= state_paints(states@, colors).take(i + 2));
        }
        i = i + 1;
    }
    proof {
        assert((seq![hv] + cv).take(i + 1) =~= seq![hv] + cv);
        assert(state_paints(states@, colors).take(i + 1) =~= state_paints(states@, colors));
    }
    let table = render_painted_table(&rows, &paints);
    out.append(table.as_str());
    proof {
        reveal_strlit("\n");
    }
    assert(out@ =~= section(title@, views(header@), rows_view(cells@), states@, colors));
    out
}

fn worktree_section_text(title: &str, rows: &Vec<RadarWorktreeRow>, colors: bool) -> (r: String)
    ensures
        r@ == worktree_section(title@, row_views(rows@), colors),
{
    let mut header: Vec<String> = Vec::new();
    header.push("STATE".to_owned());
    header.push("REPO".to_owned());
    header.push("TARGET".to_owned());
    header.push("BASE BRANCH".to_owned());
    header.push("WORKTREE BRANCH".to_owned());
    header.push("HEAD".to_owned());
    header.push("DIRTY".to_owned());
    header.push("SESSION".to_owned());
    header.push("COMMAND".to_owned());
    header.push("PATH".to_owned());
    let ghost rv = row_views(rows@);
    let mut cells: Vec<Vec<String>> = Vec::new();
    let mut states: Vec<RadarState> = Vec::new();
    let mut i: usize = 0;
    while i < rows.len()
        invariant
            rv == row_views(rows@),
            i <= rows@.len(),
            rows_view(cells@) == rv.take(i as int).map_values(|r: RadarWorktreeRowV| worktree_cells(r)),
            states@ == rv.take(i as int).map_values(|r: RadarWorktreeRowV| r.state),
        decreases rows@.len() - i,
    {
        let r = &rows[i];
        assert(rv[i as int] == r@);
        let c = strings_of_row(r);
        let ghost before = cells@;
        cells.push(c);
        states.push(r.state);
        assert(rows_view(cells@) =~= rows_view(before).push(worktree_cells(r@)));
        assert(rows_view(cells@) =~= rv.take(i + 1).map_values(|r: RadarWorktreeRowV| worktree_cells(r)));
        assert(states@ =~= rv.take(i + 1).map_values(|r: RadarWorktreeRowV| r.state));
        i = i + 1;
    }
    assert(rv.take(rv.len() as int) =~= rv);
    proof {
        reveal_strlit("STATE");
        reveal_strlit("REPO");
        reveal_strlit("TARGET");
        reveal_strlit("BASE BRANCH");
        reveal_strlit("WORKTREE BRANCH");
        reveal_strlit("HEAD");
        reveal_strlit("DIRTY");
        reveal_strlit("SESSION");
        reveal_strlit("COMMAND");
        reveal_strlit("PATH");
    }
    assert(views(header@) =~= worktree_header());
    render_section(title, header, cells, &states, colors)
}

fn tmux_section_text(title: &str, rows: &Vec<RadarTmuxRow>, colors: bool) -> (r: String)
    ensures
        r@ == tmux_section(title@, tmux_row_views(rows@), colors),
{
    let mut header: Vec<String> = Vec::new();
    header.push("STATE".to_owned());
    header.push("TMUX".to_owned());
    header.push("COMMAND".to_owned());
    header.push("CWD".to_owned());
    let ghost rv = tmux_row_views(rows@);
    let mut cells: Vec<Vec<String>> = Vec::new();
    let mut states: Vec<RadarState> = Vec::new();
    let mut i: usize = 0;
    while i < rows.len()
        invariant
            rv == tmux_row_views(rows@),
            i <= rows@.len(),
            rows_view(cells@) == rv.take(i as int).map_values(|r: RadarTmuxRowV| tmux_cells(r)),
            states@ == rv.take(i as int).map_values(|r: RadarTmuxRowV| r.state),
        decreases rows@.len() - i,
    {
        let r = &rows[i];
        assert(rv[i as int] == r@);
        let mut c: Vec<String> = Vec::new();
        c.push(radar_state_label(r.state));
        c.push(r.session.clone());
        c.push(r.command.clone());
        c.push(r.cwd.clone());
        assert(views(c@) =~= tmux_cells(r@));
        let ghost before = cells@;
        cells.push(c);
        states.push(r.state);
        assert(rows_view(cells@) =~= rows_view(before).push(tmux_cells(r@)));
        assert(rows_view(cells@) =~= rv.take(i + 1).map_values(|r: RadarTmuxRowV| tmux_cells(r)));
        assert(states@ =~= rv.take(i + 1).map_values(|r: RadarTmuxRowV| r.state));
        i = i + 1;
    }
    assert(rv.take(rv.len() as int) =~= rv);
    proof {
        reveal_strlit("STATE");
        reveal_strlit("TMUX");
        reveal_strlit("COMMAND");
        reveal_strlit("CWD");
    }
    assert(views(header@) =~= tmux_header());
    render_section(title, header, cells, &states, colors)
}

/// Renders the radar; `colors` paints each state cell.
pub fn render_radar_view(view: &RadarView, colors: bool) -> (r: String)
    ensures
        r@ == spec_render_radar(view@, colors),
{
    let mut out = render_summary(&view.summary);
    out.append("\n\n");
    let a = worktree_section_text("ATTENTION", &view.attention, colors);
    out.append(a.as_str());
    out.append("\n");
    let b = worktree_section_text("ACTIVE PROCESSES", &view.active, colors);
    out.append(b.as_str());
    out.append("\n");
    let c = worktree_section_text("IDLE", &view.idle, colors);
    out.append(c.as_str());
    out.append("\n");
    let d = tmux_section_text("UNMAPPED TMUX", &view.unmapped, colors);
    out.append(d.as_str());
    assert(out@ =~= spec_render_radar(view@, colors));
    out
}

/// The radar of a cache: its worktrees and their processes, and the tmux
/// panes outside every worktree.
pub fn radar_output(
    cache: &Cache,
    sessions: &[SessionRecord],
    inventory: &TmuxInventory,
    probes: &LiveProbes,
    colors: bool,
) -> (r: String)
    ensures
        r@ == spec_render_radar(spec_radar(radar_ctx(*cache, sessions@, *inventory, *probes)), colors),
{
    let view = build_radar_view(cache, sessions, inventory, probes);
    render_radar_view(&view, colors)
}


// ---------------------------------------------------------------------
// A radar narrowed to some repos or targets
// ---------------------------------------------------------------------

/// A pane is relevant to a narrowed radar when it runs a session managed
/// for one of the worktrees left, or lies in one of them.
pub open spec fn pane_relevant(ws: Seq<WorktreeRecordV>, ss: Seq<SessionRecordV>, facts: PathFacts, p: TmuxPaneV) -> bool {
    (exists|j: int|
        0 <= j < ss.len() && pair_worktree(ws, (#[trigger] ss[j]).repo_alias, ss[j].target) is Some
            && ss[j].tmux_session_name == p.session_name) || worktree_for_path(ws, facts, p.current_path) is Some
}

fn session_of_kept_worktree(ws: &Vec<WorktreeRecord>, ss: &[SessionRecord], name: &str) -> (r: bool)
    ensures
        r == (exists|j: int|
            0 <= j < ss@.len() && pair_worktree(worktree_views(ws@), (#[trigger] session_views(ss@)[j]).repo_alias, session_views(ss@)[j].target) is Some
                && session_views(ss@)[j].tmux_session_name == name@),
{
    let ghost sv = session_views(ss@);
    let mut i: usize = 0;
    while i < ss.len()
        invariant
            sv == session_views(ss@),
            i <= ss@.len(),
            forall|j: int|
                0 <= j < i ==> !(pair_worktree(worktree_views(ws@), (#[trigger] sv[j]).repo_alias, sv[j].target) is Some
                    && sv[j].tmux_session_name == name@),
        decreases ss@.len() - i,
    {
        let s = &ss[i];
        assert(sv[i as int] == s@);
        if str_eq(s.tmux_session_name.as_str(), name) && find_pair(ws, s.repo_alias.as_str(), s.target.as_str()).is_some() {
            return true;
        }
        i = i + 1;
    }
    false
}

/// The inventory narrowed to the panes relevant to the worktrees of
/// `cache`; unchanged when tmux could not be asked.
pub fn filtered_inventory(
    cache: &Cache,
    sessions: &[SessionRecord],
    inventory: &TmuxInventory,
    facts: &PathFacts,
) -> (r: TmuxInventory)
    ensures
        r.available == inventory.available,
        pane_views(r.panes@) == if inventory.available {
            pane_views(inventory.panes@).filter(
                |p: TmuxPaneV| pane_relevant(worktree_views(cache.worktrees@), session_views(sessions@), *facts, p),
            )
        } else {
            pane_views(inventory.panes@)
        },
{
    let ghost pv = pane_views(inventory.panes@);
    let ghost keep = |p: TmuxPaneV| pane_relevant(worktree_views(cache.worktrees@), session_views(sessions@), *facts, p);
    let mut panes: Vec<TmuxPane> = Vec::new();
    let mut i: usize = 0;
    while i < inventory.panes.len()
        invariant
            pv == pane_views(inventory.panes@),
            keep == (|p: TmuxPaneV| pane_relevant(worktree_views(cache.worktrees@), session_views(sessions@), *facts, p)),
            i <= pv.len(),
            pane_views(panes@) == if inventory.available {
                pv.take(i as int).filter(keep)
            } else {
                pv.take(i as int)
            },
        decreases pv.len() - i,
    {
        let p = &inventory.panes[i];
        assert(pv[i as int] == p@);
        let relevant = !inventory.available || session_of_kept_worktree(&cache.worktrees, sessions, p.session_name.as_str())
            || find_worktree_for_path(&cache.worktrees, facts, p.current_path.as_str()).is_some();
        let ghost before = pane_views(panes@);
        if relevant {
            panes.push(p.duplicate());
        }
        proof {
            reveal(Seq::filter);
            let pre = pv.take(i + 1);
            assert(pre.drop_last() =~= pv.take(i as int));
            assert(pre.last() == p@);
            if relevant {
                assert(pane_views(panes@) =~= before.push(p@));
            } else {
                assert(pane_views(panes@) =~= before);
            }
        }
        i = i + 1;
    }
    assert(pv.take(pv.len() as int) =~= pv);
    TmuxInventory { panes, available: inventory.available }
}

/// The radar of the repos that answer to `repo_filter` and the worktrees
/// that answer to `target_filter`; with either filter, only the panes
/// relevant to what is left count.
pub fn radar_view_from_cache(
    cache: &Cache,
    sessions: &[SessionRecord],
    repo_filter: Option<&str>,
    target_filter: Option<&str>,
    inventory: &TmuxInventory,
    probes: &LiveProbes,
) -> (r: RadarView)
    ensures
        ({
            let ws = worktree_views(
                kept_worktrees(cache.repos@, cache.worktrees@, opt_view(repo_filter), opt_view(target_filter)),
            );
            let narrowed = repo_filter is Some || target_filter is Some;
            r@ == spec_radar(
                RadarCtx {
                    repos: repo_views(kept_repos(cache.repos@, opt_view(repo_filter))),
                    worktrees: ws,
                    sessions: session_views(sessions@),
                    panes: if narrowed && inventory.available {
                        pane_views(inventory.panes@).filter(
                            |p: TmuxPaneV| pane_relevant(ws, session_views(sessions@), probes.facts, p),
                        )
                    } else {
                        pane_views(inventory.panes@)
                    },
                    available: inventory.available,
                    probes: *probes,
                },
            )
        }),
{
    let narrowed_cache = filtered_cache(cache, repo_filter, target_filter);
    if repo_filter.is_some() || target_filter.is_some() {
        let inv = filtered_inventory(&narrowed_cache, sessions, inventory, &probes.facts);
        build_radar_view(&narrowed_cache, sessions, &inv, probes)
    } else {
        let mut panes: Vec<TmuxPane> = Vec::new();
        let mut i: usize = 0;
        while i < inventory.panes.len()
            invariant
                i <= inventory.panes@.len(),
                pane_views(panes@) == pane_views(inventory.panes@).take(i as int),
            decreases inventory.panes@.len() - i,
        {
            let ghost before = pane_views(panes@);
            let d = inventory.panes[i].duplicate();
            assert(pane_views(inventory.panes@)[i as int] == d@);
            panes.push(d);
            assert(pane_views(panes@) =~= before.push(d@));
            assert(pane_views(panes@) =~= pane_views(inventory.panes@).take(i + 1));
            i = i + 1;
        }
        assert(pane_views(inventory.panes@).take(inventory.panes@.len() as int) =~= pane_views(inventory.panes@));
        let inv = TmuxInventory { panes, available: inventory.available };
        build_radar_view(&narrowed_cache, sessions, &inv, probes)
    }
}


// ---------------------------------------------------------------------
// Laws
// ---------------------------------------------------------------------

proof fn lemma_three_way(rows: Seq<RadarWorktreeRowV>)
    requires
        forall|i: int| 0 <= i < rows.len() ==> group_of((#[trigger] rows[i]).state) < 3,
    ensures
        rows.filter(|r: RadarWorktreeRowV| group_of(r.state) == 0).len() + rows.filter(
            |r: RadarWorktreeRowV| group_of(r.state) == 1,
        ).len() + rows.filter(|r: RadarWorktreeRowV| group_of(r.state) == 2).len() == rows.len(),
    decreases rows.len(),
{
    reveal(Seq::filter);
    if rows.len() > 0 {
        let init = rows.drop_last();
        assert forall|i: int| 0 <= i < init.len() implies group_of((#[trigger] init[i]).state) < 3 by {
            assert(init[i] == rows[i]);
        }
        lemma_three_way(init);
        assert(group_of(rows[rows.len() - 1].state) < 3);
    }
}

/// The radar shows every worktree exactly once: its three sections hold
/// as many rows as the cache has worktrees, tmux or no tmux.
pub proof fn lemma_radar_keeps_every_worktree(c: RadarCtx)
    ensures
        group(c, 0).len() + group(c, 1).len() + group(c, 2).len() == c.worktrees.len(),
{
    let lt = |a: RadarWorktreeRowV, b: RadarWorktreeRowV| row_lt(a, b);
    let rows = radar_rows(c);
    crate::discovery::lemma_isort_len(c.worktrees, |x: WorktreeRecordV, y: WorktreeRecordV| worktree_lt3(x, y));
    assert forall|i: int| 0 <= i < rows.len() implies group_of((#[trigger] rows[i]).state) < 3 by {
        let w = sorted_ws(c)[i];
        assert(rows[i] == radar_row(c, w));
    }
    lemma_three_way(rows);
    crate::discovery::lemma_isort_len(rows.filter(|r: RadarWorktreeRowV| group_of(r.state) == 0), lt);
    crate::discovery::lemma_isort_len(rows.filter(|r: RadarWorktreeRowV| group_of(r.state) == 1), lt);
    crate::discovery::lemma_isort_len(rows.filter(|r: RadarWorktreeRowV| group_of(r.state) == 2), lt);
}

// ---------------------------------------------------------------------
// What the radar promises
// ---------------------------------------------------------------------

proof fn lemma_row_lt_strict()
    ensures
        strict_order(|a: RadarWorktreeRowV, b: RadarWorktreeRowV| row_lt(a, b)),
{
    assert forall|a: RadarWorktreeRowV| !#[trigger] row_lt(a, a) by {
        lemma_lt3_irreflexive((a.repo, a.target, a.path));
    }
    assert forall|a: RadarWorktreeRowV, b: RadarWorktreeRowV, c: RadarWorktreeRowV|
        #[trigger] row_lt(a, b) && #[trigger] row_lt(b, c) implies row_lt(a, c) by {
        if priority(a.state) == priority(b.state) && priority(b.state) == priority(c.state) {
            lemma_lt3_transitive((a.repo, a.target, a.path), (b.repo, b.target, b.path), (c.repo, c.target, c.path));
        }
    }
}

/// The radar's sections split the worktrees' rows by state and order
/// them: attention (0) holds the stale, exited, unknown and dirty rows,
/// active processes (1) the running and mapped ones, idle (2) the idle
/// ones; each section is sorted by urgency, then repo, target and path;
/// and the rows are exactly one per worktree of the cache.
pub proof fn lemma_radar_sections(c: RadarCtx)
    ensures
        forall|g: nat| g < 3 ==> sorted_by(#[trigger] group(c, g), |a: RadarWorktreeRowV, b: RadarWorktreeRowV| row_lt(a, b)),
        forall|g: nat, r: RadarWorktreeRowV|
            #[trigger] group(c, g).contains(r) <==> radar_rows(c).contains(r) && group_of(r.state) == g,
        radar_rows(c).len() == c.worktrees.len(),
        forall|w: WorktreeRecordV| #[trigger] c.worktrees.contains(w) ==> radar_rows(c).contains(radar_row(c, w)),
        forall|i: int| 0 <= i < radar_rows(c).len() ==> exists|w: WorktreeRecordV|
            c.worktrees.contains(w) && #[trigger] radar_rows(c)[i] == radar_row(c, w),
{
    let lt = |a: RadarWorktreeRowV, b: RadarWorktreeRowV| row_lt(a, b);
    let wlt = |x: WorktreeRecordV, y: WorktreeRecordV| worktree_lt3(x, y);
    let rows = radar_rows(c);
    lemma_row_lt_strict();
    lemma_isort_len(c.worktrees, wlt);
    assert forall|g: nat| g < 3 implies sorted_by(#[trigger] group(c, g), lt) by {
        lemma_isort_sorted(rows.filter(|r: RadarWorktreeRowV| group_of(r.state) == g), lt);
    }
    assert forall|g: nat, r: RadarWorktreeRowV|
        #[trigger] group(c, g).contains(r) <==> rows.contains(r) && group_of(r.state) == g by {
        let pg = |r: RadarWorktreeRowV| group_of(r.state) == g;
        lemma_isort_contains(rows.filter(pg), lt, r);
        if rows.contains(r) && group_of(r.state) == g {
            let i = choose|i: int| 0 <= i < rows.len() && rows[i] == r;
            rows.lemma_filter_contains(pg, i);
        }
        if rows.filter(pg).contains(r) {
            rows.lemma_filter_contains_rev(pg, r);
            let k = choose|k: int| 0 <= k < rows.filter(pg).len() && rows.filter(pg)[k] == r;
            rows.lemma_filter_pred(pg, k);
        }
    }
    assert forall|w: WorktreeRecordV| #[trigger] c.worktrees.contains(w) implies rows.contains(radar_row(c, w)) by {
        lemma_isort_contains(c.worktrees, wlt, w);
        let k = choose|k: int| 0 <= k < sorted_ws(c).len() && sorted_ws(c)[k] == w;
        assert(rows[k] == radar_row(c, w));
    }
    assert forall|i: int| 0 <= i < rows.len() implies exists|w: WorktreeRecordV|
        c.worktrees.contains(w) && #[trigger] rows[i] == radar_row(c, w) by {
        let w = sorted_ws(c)[i];
        assert(sorted_ws(c).contains(w));
        lemma_isort_contains(c.worktrees, wlt, w);
        assert(rows[i] == radar_row(c, w));
    }
}

/// The summary counts the cache's repos and worktrees; among the
/// worktrees, those whose live status is stale, and those not stale that
/// have changes; and, only when tmux answered, its panes, its managed
/// sessions running and exited, and the unmapped rows shown.
pub proof fn lemma_radar_summary(c: RadarCtx)
    ensures
        spec_summary(c).repos == c.repos.len() as usize,
        spec_summary(c).worktrees == c.worktrees.len() as usize,
        state_count(c, RadarState::Stale) == c.worktrees.filter(
            |w: WorktreeRecordV| spec_live_status(c.repos, w, c.probes).stale,
        ).len(),
        state_count(c, RadarState::Dirty) == c.worktrees.filter(
            |w: WorktreeRecordV|
                !spec_live_status(c.repos, w, c.probes).stale && spec_live_status(c.repos, w, c.probes).dirty is Dirty,
        ).len(),
        spec_summary(c).stale == state_count(c, RadarState::Stale) as usize,
        spec_summary(c).dirty == state_count(c, RadarState::Dirty) as usize,
        spec_summary(c).tmux_available == c.available,
        c.available ==> spec_summary(c).active_panes == Some(c.panes.len() as usize) && spec_summary(c).unmapped == Some(
            spec_radar(c).unmapped.len() as usize,
        ),
        !c.available ==> spec_summary(c).active_panes is None && spec_summary(c).managed_running is None
            && spec_summary(c).exited is None && spec_summary(c).unmapped is None && spec_radar(c).unmapped.len() == 0,
{
    let wlt = |x: WorktreeRecordV, y: WorktreeRecordV| worktree_lt3(x, y);
    let f = |w: WorktreeRecordV| radar_row(c, w);
    let is_stale = |r: RadarWorktreeRowV| r.state == RadarState::Stale;
    let is_dirty = |r: RadarWorktreeRowV| r.state == RadarState::Dirty;
    let ws = |w: WorktreeRecordV| spec_live_status(c.repos, w, c.probes).stale;
    let wd = |w: WorktreeRecordV|
        !spec_live_status(c.repos, w, c.probes).stale && spec_live_status(c.repos, w, c.probes).dirty is Dirty;
    lemma_map_filter_len(sorted_ws(c), f, is_stale);
    lemma_map_filter_len(sorted_ws(c), f, is_dirty);
    assert((|w: WorktreeRecordV| is_stale(f(w))) =~= ws);
    assert((|w: WorktreeRecordV| is_dirty(f(w))) =~= wd);
    lemma_isort_multiset(c.worktrees, wlt);
    lemma_filter_len_perm(sorted_ws(c), c.worktrees, ws);
    lemma_filter_len_perm(sorted_ws(c), c.worktrees, wd);
}

/// Whether some pane belongs to the session called `name`.
pub open spec fn has_pane(ps: Seq<TmuxPaneV>, name: Seq<char>) -> bool {
    exists|i: int| 0 <= i < ps.len() && (#[trigger] ps[i]).session_name == name
}

proof fn lemma_pane_of_session(ps: Seq<TmuxPaneV>, name: Seq<char>)
    ensures
        pane_of_session(ps, name) is Some <==> has_pane(ps, name),
    decreases ps.len(),
{
    if ps.len() > 0 {
        lemma_pane_of_session(ps.drop_first(), name);
        if has_pane(ps, name) && ps[0].session_name != name {
            let i = choose|i: int| 0 <= i < ps.len() && (#[trigger] ps[i]).session_name == name;
            assert(ps.drop_first()[i - 1] == ps[i]);
        }
        if has_pane(ps.drop_first(), name) {
            let i = choose|i: int| 0 <= i < ps.drop_first().len() && (#[trigger] ps.drop_first()[i]).session_name == name;
            assert(ps[i + 1] == ps.drop_first()[i]);
        }
    }
}

/// The row of a worktree that has a managed session: stale when its live
/// status is stale, else dirty when it has changes, else unknown when tmux
/// could not be asked, else running when a pane belongs to the session and
/// exited when none does.  The row names the session, and carries the
/// worktree's repo, target and path.
pub proof fn lemma_radar_managed_row(c: RadarCtx, w: WorktreeRecordV, s: SessionRecordV)
    requires
        managed_session(c.worktrees, c.sessions, wkey(w)) == Some(s),
    ensures
        radar_row(c, w).state == (if spec_live_status(c.repos, w, c.probes).stale {
            RadarState::Stale
        } else if spec_live_status(c.repos, w, c.probes).dirty is Dirty {
            RadarState::Dirty
        } else if !c.available {
            RadarState::Unknown
        } else if has_pane(c.panes, s.tmux_session_name) {
            RadarState::Run
        } else {
            RadarState::Exit
        }),
        radar_row(c, w).session == s.tmux_session_name,
        radar_row(c, w).repo == w.repo_alias,
        radar_row(c, w).target == w.target,
        radar_row(c, w).path == w.path,
{
    lemma_pane_of_session(c.panes, s.tmux_session_name);
}

/// The row of a worktree without a managed session: stale, else dirty,
/// else mapped when some unmanaged pane lies in it, else idle.
pub proof fn lemma_radar_unmanaged_row(c: RadarCtx, w: WorktreeRecordV)
    requires
        managed_session(c.worktrees, c.sessions, wkey(w)) is None,
    ensures
        radar_row(c, w).state == (if spec_live_status(c.repos, w, c.probes).stale {
            RadarState::Stale
        } else if spec_live_status(c.repos, w, c.probes).dirty is Dirty {
            RadarState::Dirty
        } else if mapped_pane(c.worktrees, c.probes.facts, c.panes, wkey(w)) is Some {
            RadarState::Mapped
        } else {
            RadarState::Idle
        }),
{
}

} // verus!
