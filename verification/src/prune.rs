//! Pruning: how each worktree stands against its base branch, and which
//! worktrees are proven merged and may be removed.
//!
//! Git is asked one question at a time; the answers so far decide the next
//! question or the result.

use vstd::prelude::*;

use crate::discovery::{ins_pos, isort};
use crate::domain::{repo_views, worktree_views, Cache, RepoRecord, RepoRecordV, WorktreeRecord, WorktreeRecordV};
use crate::facts::PathFacts;
use crate::lineage::{evidence_views, short, short_commit, spec_proof_label, LineageReport, LineageReportV, LineageStatus};
use crate::status::{find_repo, lt3, lt3_exec, lt_keys_path, lt_keys_path_exec, repo_by_alias};
use crate::table::{render_table, rows_view, table};
use crate::paths::{path_same, same_path};
use crate::error::{AppError, AppResult};
use crate::resolver::{resolve_error_is, spec_resolve_repo, spec_resolve_worktree, Resolver};
use crate::text::{push_decimal, dec, str_eq, trim, trimmed, views};

verus! {

/// How one worktree stands against its repo's base branch.
#[derive(Debug, PartialEq, Eq)]
pub struct PruneRow {
    pub repo: String,
    pub target: String,
    pub base: String,
    pub head: String,
    pub state: String,
    pub path: String,
}

pub struct PruneRowV {
    pub repo: Seq<char>,
    pub target: Seq<char>,
    pub base: Seq<char>,
    pub head: Seq<char>,
    pub state: Seq<char>,
    pub path: Seq<char>,
}

impl View for PruneRow {
    type V = PruneRowV;

    open spec fn view(&self) -> PruneRowV {
        PruneRowV {
            repo: self.repo@,
            target: self.target@,
            base: self.base@,
            head: self.head@,
            state: self.state@,
            path: self.path@,
        }
    }
}

pub open spec fn prune_row_views(v: Seq<PruneRow>) -> Seq<PruneRowV> {
    v.map_values(|r: PruneRow| r@)
}

/// A question for git, asked in the directory `path`; each names the
/// answer it gives.
#[derive(Debug, PartialEq, Eq)]
pub enum GitQuestion {
    /// `git rev-parse --verify rev`: the base commit.
    BaseCommit { path: String, rev: String },
    /// `git rev-parse --verify rev`: the worktree's HEAD commit.
    HeadCommit { path: String, rev: String },
    /// `git merge-base --is-ancestor ancestor descendant`: whether the
    /// base is in HEAD.
    BaseInHead { path: String, ancestor: String, descendant: String },
    /// `git merge-base --is-ancestor ancestor descendant`: whether HEAD is
    /// in the base.
    HeadInBase { path: String, ancestor: String, descendant: String },
}

pub enum GitQuestionV {
    BaseCommit { path: Seq<char>, rev: Seq<char> },
    HeadCommit { path: Seq<char>, rev: Seq<char> },
    BaseInHead { path: Seq<char>, ancestor: Seq<char>, descendant: Seq<char> },
    HeadInBase { path: Seq<char>, ancestor: Seq<char>, descendant: Seq<char> },
}

impl View for GitQuestion {
    type V = GitQuestionV;

    open spec fn view(&self) -> GitQuestionV {
        match self {
            GitQuestion::BaseCommit { path, rev } => GitQuestionV::BaseCommit { path: path@, rev: rev@ },
            GitQuestion::HeadCommit { path, rev } => GitQuestionV::HeadCommit { path: path@, rev: rev@ },
            GitQuestion::BaseInHead { path, ancestor, descendant } => GitQuestionV::BaseInHead {
                path: path@,
                ancestor: ancestor@,
                descendant: descendant@,
            },
            GitQuestion::HeadInBase { path, ancestor, descendant } => GitQuestionV::HeadInBase {
                path: path@,
                ancestor: ancestor@,
                descendant: descendant@,
            },
        }
    }
}

/// The answers git gave so far about one worktree; a field is absent
/// until its question was asked.  A commit is absent when git knew no such
/// ref (or failed); a comparison is `None` when git could not compare.
#[derive(Debug, PartialEq, Eq)]
pub struct PruneAnswers {
    pub base_commit: Option<Option<String>>,
    pub head_commit: Option<Option<String>>,
    pub base_in_head: Option<Option<bool>>,
    pub head_in_base: Option<Option<bool>>,
}

pub open spec fn oo(o: Option<Option<String>>) -> Option<Option<Seq<char>>> {
    match o {
        Some(Some(s)) => Some(Some(s@)),
        Some(None) => Some(None),
        None => None,
    }
}

impl PruneAnswers {
    /// Nothing asked yet.
    pub fn new() -> (r: Self)
        ensures
            r.base_commit is None,
            r.head_commit is None,
            r.base_in_head is None,
            r.head_in_base is None,
    {
        PruneAnswers { base_commit: None, head_commit: None, base_in_head: None, head_in_base: None }
    }
}

/// The next step for a worktree: a question, or its row.
#[derive(Debug, PartialEq, Eq)]
pub enum PruneStep {
    Ask(GitQuestion),
    Row(PruneRow),
}

pub enum PruneStepV {
    Ask(GitQuestionV),
    Row(PruneRowV),
}

impl View for PruneStep {
    type V = PruneStepV;

    open spec fn view(&self) -> PruneStepV {
        match self {
            PruneStep::Ask(q) => PruneStepV::Ask(q@),
            PruneStep::Row(r) => PruneStepV::Row(r@),
        }
    }
}

pub open spec fn row_of(w: WorktreeRecordV, base: Seq<char>, head: Seq<char>, state: Seq<char>) -> PruneRowV {
    PruneRowV { repo: w.repo_alias, target: w.target, base, head, state, path: w.path }
}

/// The base branch of a repo: `HEAD` when none is known.
pub open spec fn base_of(r: RepoRecordV) -> Seq<char> {
    match r.base_branch {
        Some(b) => b,
        None => "HEAD"@,
    }
}

/// Whether a worktree cannot be asked about: its repo or itself is stale
/// or gone.
pub open spec fn prune_stale(r: RepoRecordV, w: WorktreeRecordV, facts: PathFacts) -> bool {
    r.stale || !facts.has_path(r.canonical_path) || w.stale || !facts.has_path(w.path)
}

/// The next step for worktree `w` of repo `repo`, given the answers so far:
/// the base is resolved in the repo, HEAD in the worktree, then each is
/// compared with the other.  A worktree that contains the base is fresh;
/// one the base contains is behind it; otherwise they diverged.
pub open spec fn spec_prune_next(
    repo: Option<RepoRecordV>,
    w: WorktreeRecordV,
    facts: PathFacts,
    a: PruneAnswers,
) -> PruneStepV {
    match repo {
        None => PruneStepV::Row(row_of(w, "-"@, "-"@, "missing-repo"@)),
        Some(r) => {
            let base = base_of(r);
            if prune_stale(r, w, facts) {
                PruneStepV::Row(row_of(w, base, "-"@, "stale"@))
            } else {
                match oo(a.base_commit) {
                    None => PruneStepV::Ask(GitQuestionV::BaseCommit { path: r.canonical_path, rev: base }),
                    Some(None) => PruneStepV::Row(row_of(w, base, "-"@, "base-missing"@)),
                    Some(Some(b)) => match oo(a.head_commit) {
                        None => PruneStepV::Ask(GitQuestionV::HeadCommit { path: w.path, rev: "HEAD"@ }),
                        Some(None) => PruneStepV::Row(row_of(w, base, "-"@, "head-missing"@)),
                        Some(Some(h)) => match a.base_in_head {
                            None => PruneStepV::Ask(
                                GitQuestionV::BaseInHead { path: r.canonical_path, ancestor: b, descendant: h },
                            ),
                            Some(None) => PruneStepV::Row(row_of(w, base, short_commit(h), "compare-failed"@)),
                            Some(Some(base_in_head)) => match a.head_in_base {
                                None => PruneStepV::Ask(
                                    GitQuestionV::HeadInBase { path: r.canonical_path, ancestor: h, descendant: b },
                                ),
                                Some(None) => PruneStepV::Row(row_of(w, base, short_commit(h), "compare-failed"@)),
                                Some(Some(head_in_base)) => PruneStepV::Row(
                                    row_of(
                                        w,
                                        base + "@"@ + short_commit(b),
                                        short_commit(h),
                                        if base_in_head {
                                            "fresh"@
                                        } else if head_in_base {
                                            "behind-base"@
                                        } else {
                                            "diverged-base"@
                                        },
                                    ),
                                ),
                            },
                        },
                    },
                }
            }
        },
    }
}

fn row(w: &WorktreeRecord, base: String, head: String, state: &str) -> (r: PruneRow)
    ensures
        r@ == row_of(w@, base@, head@, state@),
{
    PruneRow {
        repo: w.repo_alias.clone(),
        target: w.target.clone(),
        base,
        head,
        state: state.to_owned(),
        path: w.path.clone(),
    }
}

fn base_branch_of(r: &RepoRecord) -> (b: String)
    ensures
        b@ == base_of(r@),
{
    match &r.base_branch {
        Some(b) => b.clone(),
        None => "HEAD".to_owned(),
    }
}

/// The next step for worktree `w`, given the answers so far.
pub fn prune_next(repo: Option<&RepoRecord>, w: &WorktreeRecord, facts: &PathFacts, a: &PruneAnswers) -> (r: PruneStep)
    ensures
        r@ == spec_prune_next(
            match repo {
                Some(x) => Some(x@),
                None => None,
            },
            w@,
            *facts,
            *a,
        ),
{
    let r = match repo {
        None => return PruneStep::Row(row(w, "-".to_owned(), "-".to_owned(), "missing-repo")),
        Some(r) => r,
    };
    let base = base_branch_of(r);
    if r.stale || !facts.path_exists(r.canonical_path.as_str()) || w.stale || !facts.path_exists(w.path.as_str()) {
        return PruneStep::Row(row(w, base, "-".to_owned(), "stale"));
    }
    let b = match &a.base_commit {
        None => return PruneStep::Ask(GitQuestion::BaseCommit { path: r.canonical_path.clone(), rev: base }),
        Some(None) => return PruneStep::Row(row(w, base, "-".to_owned(), "base-missing")),
        Some(Some(b)) => b,
    };
    let h = match &a.head_commit {
        None => return PruneStep::Ask(GitQuestion::HeadCommit { path: w.path.clone(), rev: "HEAD".to_owned() }),
        Some(None) => return PruneStep::Row(row(w, base, "-".to_owned(), "head-missing")),
        Some(Some(h)) => h,
    };
    let base_in_head = match a.base_in_head {
        None => return PruneStep::Ask(
            GitQuestion::BaseInHead { path: r.canonical_path.clone(), ancestor: b.clone(), descendant: h.clone() },
        ),
        Some(None) => return PruneStep::Row(row(w, base, short(h.as_str()), "compare-failed")),
        Some(Some(x)) => x,
    };
    let head_in_base = match a.head_in_base {
        None => return PruneStep::Ask(
            GitQuestion::HeadInBase { path: r.canonical_path.clone(), ancestor: h.clone(), descendant: b.clone() },
        ),
        Some(None) => return PruneStep::Row(row(w, base, short(h.as_str()), "compare-failed")),
        Some(Some(x)) => x,
    };
    let mut label = base;
    label.append("@");
    let sb = short(b.as_str());
    label.append(sb.as_str());
    let state = if base_in_head {
        "fresh"
    } else if head_in_base {
        "behind-base"
    } else {
        "diverged-base"
    };
    PruneStep::Row(row(w, label, short(h.as_str()), state))
}

// ---------------------------------------------------------------------
// The prune table
// ---------------------------------------------------------------------

pub open spec fn prune_row_lt(x: PruneRowV, y: PruneRowV) -> bool {
    lt3((x.repo, x.target, x.path), (y.repo, y.target, y.path))
}

impl PruneRow {
    pub fn duplicate(&self) -> (r: Self)
        ensures
            r@ == self@,
    {
        PruneRow {
            repo: self.repo.clone(),
            target: self.target.clone(),
            base: self.base.clone(),
            head: self.head.clone(),
            state: self.state.clone(),
            path: self.path.clone(),
        }
    }
}

/// The rows in stable (repo, target, path) order.
pub fn sort_prune_rows(v: &Vec<PruneRow>) -> (r: Vec<PruneRow>)
    ensures
        prune_row_views(r@) == isort(prune_row_views(v@), |x: PruneRowV, y: PruneRowV| prune_row_lt(x, y)),
{
    let ghost lt = |x: PruneRowV, y: PruneRowV| prune_row_lt(x, y);
    let mut out: Vec<PruneRow> = Vec::new();
    let mut i: usize = 0;
    assert(prune_row_views(v@.take(0)) =~= Seq::<PruneRowV>::empty());
    assert(prune_row_views(out@) =~= Seq::<PruneRowV>::empty());
    while i < v.len()
        invariant
            lt == (|x: PruneRowV, y: PruneRowV| prune_row_lt(x, y)),
            i <= v@.len(),
            prune_row_views(out@) == isort(prune_row_views(v@.take(i as int)), lt),
        decreases v@.len() - i,
    {
        let x = v[i].duplicate();
        let ghost ov = prune_row_views(out@);
        let mut p: usize = 0;
        while p < out.len() && !lt3_exec(
            x.repo.as_str(),
            x.target.as_str(),
            x.path.as_str(),
            out[p].repo.as_str(),
            out[p].target.as_str(),
            out[p].path.as_str(),
        )
            invariant
                lt == (|x: PruneRowV, y: PruneRowV| prune_row_lt(x, y)),
                ov == prune_row_views(out@),
                p <= out@.len(),
                ins_pos(ov, x@, lt, 0) == ins_pos(ov, x@, lt, p as int),
            decreases out@.len() - p,
        {
            assert(ov[p as int] == out@[p as int]@);
            p = p + 1;
        }
        proof {
            if p < out@.len() {
                assert(ov[p as int] == out@[p as int]@);
            }
            let pre = prune_row_views(v@.take(i + 1));
            assert(pre.drop_last() =~= prune_row_views(v@.take(i as int)));
            assert(pre.last() == x@);
        }
        let ghost xv = x@;
        out.insert(p, x);
        assert(prune_row_views(out@) =~= ov.insert(p as int, xv));
        i = i + 1;
    }
    assert(v@.take(v@.len() as int) =~= v@);
    out
}

pub open spec fn prune_header() -> Seq<Seq<char>> {
    seq!["REPO"@, "TARGET"@, "BASE"@, "HEAD"@, "STATE"@, "PATH"@]
}

pub open spec fn prune_cells(r: PruneRowV) -> Seq<Seq<char>> {
    seq![r.repo, r.target, r.base, r.head, r.state, r.path]
}

/// The prune report: a header, then the rows in (repo, target, path) order.
pub open spec fn spec_prune_report(rows: Seq<PruneRowV>) -> Seq<char> {
    table(
        seq![prune_header()] + isort(rows, |x: PruneRowV, y: PruneRowV| prune_row_lt(x, y)).map_values(
            |r: PruneRowV| prune_cells(r),
        ),
    )
}

/// Renders the prune report of the rows, one per worktree.
pub fn render_prune_report(rows: &Vec<PruneRow>) -> (r: String)
    ensures
        r@ == spec_prune_report(prune_row_views(rows@)),
{
    let sorted = sort_prune_rows(rows);
    let ghost sv = prune_row_views(sorted@);
    let mut table_rows: Vec<Vec<String>> = Vec::new();
    let mut header: Vec<String> = Vec::new();
    header.push("REPO".to_owned());
    header.push("TARGET".to_owned());
    header.push("BASE".to_owned());
    header.push("HEAD".to_owned());
    header.push("STATE".to_owned());
    header.push("PATH".to_owned());
    assert(views(header@) =~= prune_header());
    table_rows.push(header);
    let ghost want = seq![prune_header()] + sv.map_values(|r: PruneRowV| prune_cells(r));
    assert(rows_view(table_rows@) =~= want.take(1));
    let mut i: usize = 0;
    while i < sorted.len()
        invariant
            sv == prune_row_views(sorted@),
            want == seq![prune_header()] + sv.map_values(|r: PruneRowV| prune_cells(r)),
            i <= sorted@.len(),
            rows_view(table_rows@) == want.take(i + 1),
        decreases sorted@.len() - i,
    {
        let r = &sorted[i];
        assert(sv[i as int] == r@);
        let mut cells: Vec<String> = Vec::new();
        cells.push(r.repo.clone());
        cells.push(r.target.clone());
        cells.push(r.base.clone());
        cells.push(r.head.clone());
        cells.push(r.state.clone());
        cells.push(r.path.clone());
        assert(views(cells@) =~= prune_cells(r@));
        let ghost before = table_rows@;
        table_rows.push(cells);
        assert(rows_view(table_rows@) =~= rows_view(before).push(prune_cells(r@)));
        assert(rows_view(table_rows@) =~= want.take(i + 2));
        i = i + 1;
    }
    assert(want.take(sorted@.len() as int + 1) =~= want);
    render_table(&table_rows)
}

// ---------------------------------------------------------------------
// Choosing worktrees to prune
// ---------------------------------------------------------------------

/// Which worktrees a prune is limited to: a repo, and maybe one target.
#[derive(Debug, PartialEq, Eq)]
pub struct WorktreeFilter {
    pub repo_alias: String,
    pub target: Option<String>,
}

pub open spec fn spec_matches_filter(w: WorktreeRecordV, f: Option<(Seq<char>, Option<Seq<char>>)>) -> bool {
    match f {
        None => true,
        Some((a, t)) => w.repo_alias == a && match t {
            Some(t) => w.target == t,
            None => true,
        },
    }
}

pub open spec fn filter_view(f: Option<&WorktreeFilter>) -> Option<(Seq<char>, Option<Seq<char>>)> {
    match f {
        None => None,
        Some(f) => Some(
            (
                f.repo_alias@,
                match f.target {
                    Some(t) => Some(t@),
                    None => None,
                },
            ),
        ),
    }
}

/// Whether worktree `w` is among those `filter` allows.
pub fn matches_filter(w: &WorktreeRecord, filter: Option<&WorktreeFilter>) -> (r: bool)
    ensures
        r == spec_matches_filter(w@, filter_view(filter)),
{
    match filter {
        None => true,
        Some(f) => str_eq(w.repo_alias.as_str(), f.repo_alias.as_str()) && match &f.target {
            Some(t) => str_eq(w.target.as_str(), t.as_str()),
            None => true,
        },
    }
}

/// Whether an answer to `Remove this worktree? [y/N]` is yes.
pub open spec fn spec_is_yes(answer: Seq<char>) -> bool {
    let a = trim(answer);
    a == "y"@ || a == "Y"@ || a == "yes"@ || a == "YES"@ || a == "Yes"@
}

pub fn is_yes(answer: &str) -> (r: bool)
    ensures
        r == spec_is_yes(answer@),
{
    let a = trimmed(answer);
    let s = a.as_str();
    str_eq(s, "y") || str_eq(s, "Y") || str_eq(s, "yes") || str_eq(s, "YES") || str_eq(s, "Yes")
}


/// The worktrees that `repo` (and `target`, when given) resolve to, for a
/// prune limited to them; no limit without a repo.
pub fn worktree_filter(cache: &Cache, repo: Option<&str>, target: Option<&str>) -> (r: AppResult<Option<WorktreeFilter>>)
    ensures
        match repo {
            None => r matches Ok(None),
            Some(ri) => match target {
                Some(ti) => match spec_resolve_worktree(repo_views(cache.repos@), worktree_views(cache.worktrees@), ri@, Some(ti@)) {
                    Ok((rr, w)) => r matches Ok(Some(f)) && f.repo_alias@ == rr.alias && (f.target matches Some(t) && t@ == w.target),
                    Err(fail) => r matches Err(e) && resolve_error_is(e, fail, ri@),
                },
                None => match spec_resolve_repo(repo_views(cache.repos@), ri@) {
                    Ok(rr) => r matches Ok(Some(f)) && f.repo_alias@ == rr.alias && f.target is None,
                    Err((code, text)) => r matches Err(e) && crate::resolver::repo_error_is(e, code, text, ri@),
                },
            },
        },
{
    let repo_input = match repo {
        None => return Ok(None),
        Some(r) => r,
    };
    let resolver = Resolver::new(cache.duplicate());
    match target {
        Some(t) => match resolver.resolve_worktree(repo_input, Some(t)) {
            Ok(resolved) => Ok(Some(WorktreeFilter { repo_alias: resolved.repo.alias, target: Some(resolved.worktree.target) })),
            Err(e) => Err(e),
        },
        None => match resolver.resolve_repo(repo_input) {
            Ok(rec) => Ok(Some(WorktreeFilter { repo_alias: rec.alias, target: None })),
            Err(e) => Err(e),
        },
    }
}

/// A worktree proven merged, with what the prompt shows about it.
#[derive(Debug, PartialEq, Eq)]
pub struct MergedWorktreeCandidate {
    pub repo: String,
    pub target: String,
    pub base_branch: String,
    pub worktree_branch: String,
    pub base_summary: String,
    pub head_summary: String,
    pub proof: String,
    pub evidence: Vec<String>,
    pub path: String,
}

pub struct CandidateV {
    pub repo: Seq<char>,
    pub target: Seq<char>,
    pub base_branch: Seq<char>,
    pub worktree_branch: Seq<char>,
    pub base_summary: Seq<char>,
    pub head_summary: Seq<char>,
    pub proof: Seq<char>,
    pub evidence: Seq<Seq<char>>,
    pub path: Seq<char>,
}

impl View for MergedWorktreeCandidate {
    type V = CandidateV;

    open spec fn view(&self) -> CandidateV {
        CandidateV {
            repo: self.repo@,
            target: self.target@,
            base_branch: self.base_branch@,
            worktree_branch: self.worktree_branch@,
            base_summary: self.base_summary@,
            head_summary: self.head_summary@,
            proof: self.proof@,
            evidence: evidence_views(self.evidence@),
            path: self.path@,
        }
    }
}

/// The answers gathered about a possible candidate; a field is absent
/// until its question was asked.  The lineage is `None` when the check
/// failed; a summary is `None` when git gave none.
#[derive(Debug, PartialEq, Eq)]
pub struct CandidateAnswers {
    pub base_commit: Option<Option<String>>,
    pub head_commit: Option<Option<String>>,
    pub lineage: Option<Option<LineageReport>>,
    pub base_summary: Option<Option<String>>,
    pub head_summary: Option<Option<String>>,
}

impl CandidateAnswers {
    /// Nothing asked yet.
    pub fn new() -> (r: Self)
        ensures
            r.base_commit is None,
            r.head_commit is None,
            r.lineage is None,
            r.base_summary is None,
            r.head_summary is None,
    {
        CandidateAnswers { base_commit: None, head_commit: None, lineage: None, base_summary: None, head_summary: None }
    }
}

/// The next step for a possible candidate.
#[derive(Debug, PartialEq, Eq)]
pub enum CandidateStep {
    /// Resolve the base with `git rev-parse --verify rev` in `path`.
    BaseCommit { path: String, rev: String },
    /// Resolve HEAD with `git rev-parse --verify rev` in `path`.
    HeadCommit { path: String, rev: String },
    /// Run a lineage check in `path` of `head_ref` against `base_ref`.
    Lineage { path: String, base_ref: String, head_ref: String, branch: Option<String> },
    /// Ask `git log -1 --format='%h %s' rev` in `path` for the base commit.
    BaseSummary { path: String, rev: String },
    /// Ask `git log -1 --format='%h %s' rev` in `path` for the HEAD commit.
    HeadSummary { path: String, rev: String },
    /// The worktree is a candidate, or not.
    Done(Option<MergedWorktreeCandidate>),
}

pub enum CandidateStepV {
    BaseCommit { path: Seq<char>, rev: Seq<char> },
    HeadCommit { path: Seq<char>, rev: Seq<char> },
    Lineage { path: Seq<char>, base_ref: Seq<char>, head_ref: Seq<char>, branch: Option<Seq<char>> },
    BaseSummary { path: Seq<char>, rev: Seq<char> },
    HeadSummary { path: Seq<char>, rev: Seq<char> },
    Done(Option<CandidateV>),
}

impl View for CandidateStep {
    type V = CandidateStepV;

    open spec fn view(&self) -> CandidateStepV {
        match self {
            CandidateStep::BaseCommit { path, rev } => CandidateStepV::BaseCommit { path: path@, rev: rev@ },
            CandidateStep::HeadCommit { path, rev } => CandidateStepV::HeadCommit { path: path@, rev: rev@ },
            CandidateStep::Lineage { path, base_ref, head_ref, branch } => CandidateStepV::Lineage {
                path: path@,
                base_ref: base_ref@,
                head_ref: head_ref@,
                branch: match branch {
                    Some(b) => Some(b@),
                    None => None,
                },
            },
            CandidateStep::BaseSummary { path, rev } => CandidateStepV::BaseSummary { path: path@, rev: rev@ },
            CandidateStep::HeadSummary { path, rev } => CandidateStepV::HeadSummary { path: path@, rev: rev@ },
            CandidateStep::Done(c) => CandidateStepV::Done(
                match c {
                    Some(c) => Some(c@),
                    None => None,
                },
            ),
        }
    }
}

pub open spec fn lineage_answer(o: Option<Option<LineageReport>>) -> Option<Option<LineageReportV>> {
    match o {
        Some(Some(r)) => Some(Some(r@)),
        Some(None) => Some(None),
        None => None,
    }
}

/// The next step for worktree `w` of repo `repo`: a worktree whose repo
/// or itself is stale or gone, that is its repo's own checkout, or that
/// has the base branch checked out is never a candidate; otherwise the
/// base and HEAD are resolved, the lineage of HEAD is checked, and a
/// worktree proven merged is a candidate described by both commits'
/// summaries (their short ids when git gives none).
pub open spec fn spec_candidate_next(
    repo: Option<RepoRecordV>,
    w: WorktreeRecordV,
    facts: PathFacts,
    a: CandidateAnswers,
) -> CandidateStepV {
    match repo {
        None => CandidateStepV::Done(None),
        Some(r) => {
            let base = base_of(r);
            if prune_stale(r, w, facts) || path_same(facts.canon(r.canonical_path), facts.canon(w.path)) || w.branch
                == Some(base) {
                CandidateStepV::Done(None)
            } else {
                match oo(a.base_commit) {
                    None => CandidateStepV::BaseCommit { path: r.canonical_path, rev: base },
                    Some(None) => CandidateStepV::Done(None),
                    Some(Some(b)) => match oo(a.head_commit) {
                        None => CandidateStepV::HeadCommit { path: w.path, rev: "HEAD"@ },
                        Some(None) => CandidateStepV::Done(None),
                        Some(Some(h)) => match lineage_answer(a.lineage) {
                            None => CandidateStepV::Lineage { path: r.canonical_path, base_ref: base, head_ref: h, branch: w.branch },
                            Some(None) => CandidateStepV::Done(None),
                            Some(Some(rep)) => if rep.status == LineageStatus::NotProven {
                                CandidateStepV::Done(None)
                            } else {
                                match oo(a.base_summary) {
                                    None => CandidateStepV::BaseSummary { path: r.canonical_path, rev: b },
                                    Some(bs) => match oo(a.head_summary) {
                                        None => CandidateStepV::HeadSummary { path: w.path, rev: h },
                                        Some(hs) => CandidateStepV::Done(
                                            Some(
                                                CandidateV {
                                                    repo: w.repo_alias,
                                                    target: w.target,
                                                    base_branch: base,
                                                    worktree_branch: match w.branch {
                                                        Some(x) => x,
                                                        None => "detached"@,
                                                    },
                                                    base_summary: match bs {
                                                        Some(x) => x,
                                                        None => short_commit(b),
                                                    },
                                                    head_summary: match hs {
                                                        Some(x) => x,
                                                        None => short_commit(h),
                                                    },
                                                    proof: spec_proof_label(rep.status),
                                                    evidence: rep.evidence,
                                                    path: w.path,
                                                },
                                            ),
                                        ),
                                    },
                                }
                            },
                        },
                    },
                }
            }
        },
    }
}

fn copy_evidence(v: &Vec<String>) -> (r: Vec<String>)
    ensures
        evidence_views(r@) == evidence_views(v@),
{
    let r = crate::domain::copy_strings(v);
    r
}

/// The next step for worktree `w`, given the answers so far.
pub fn candidate_next(
    repo: Option<&RepoRecord>,
    w: &WorktreeRecord,
    facts: &PathFacts,
    a: &CandidateAnswers,
) -> (r: CandidateStep)
    ensures
        r@ == spec_candidate_next(
            match repo {
                Some(x) => Some(x@),
                None => None,
            },
            w@,
            *facts,
            *a,
        ),
{
    let r = match repo {
        None => return CandidateStep::Done(None),
        Some(r) => r,
    };
    let base = base_branch_of(r);
    let on_base = match &w.branch {
        Some(b) => str_eq(b.as_str(), base.as_str()),
        None => false,
    };
    let rc = facts.canonical_of(r.canonical_path.as_str());
    let wc = facts.canonical_of(w.path.as_str());
    if r.stale || !facts.path_exists(r.canonical_path.as_str()) || w.stale || !facts.path_exists(w.path.as_str())
        || same_path(rc.as_str(), wc.as_str()) || on_base {
        return CandidateStep::Done(None);
    }
    let b = match &a.base_commit {
        None => return CandidateStep::BaseCommit { path: r.canonical_path.clone(), rev: base },
        Some(None) => return CandidateStep::Done(None),
        Some(Some(b)) => b,
    };
    let h = match &a.head_commit {
        None => return CandidateStep::HeadCommit { path: w.path.clone(), rev: "HEAD".to_owned() },
        Some(None) => return CandidateStep::Done(None),
        Some(Some(h)) => h,
    };
    let rep = match &a.lineage {
        None => return CandidateStep::Lineage {
            path: r.canonical_path.clone(),
            base_ref: base,
            head_ref: h.clone(),
            branch: crate::domain::copy_opt_string(&w.branch),
        },
        Some(None) => return CandidateStep::Done(None),
        Some(Some(rep)) => rep,
    };
    if !rep.is_prune_safe() {
        return CandidateStep::Done(None);
    }
    let bs = match &a.base_summary {
        None => return CandidateStep::BaseSummary { path: r.canonical_path.clone(), rev: b.clone() },
        Some(bs) => bs,
    };
    let hs = match &a.head_summary {
        None => return CandidateStep::HeadSummary { path: w.path.clone(), rev: h.clone() },
        Some(hs) => hs,
    };
    let worktree_branch = match &w.branch {
        Some(x) => x.clone(),
        None => "detached".to_owned(),
    };
    let base_summary = match bs {
        Some(x) => x.clone(),
        None => short(b.as_str()),
    };
    let head_summary = match hs {
        Some(x) => x.clone(),
        None => short(h.as_str()),
    };
    CandidateStep::Done(
        Some(
            MergedWorktreeCandidate {
                repo: w.repo_alias.clone(),
                target: w.target.clone(),
                base_branch: base,
                worktree_branch,
                base_summary,
                head_summary,
                proof: rep.proof_label().to_owned(),
                evidence: copy_evidence(&rep.evidence),
                path: w.path.clone(),
            },
        ),
    )
}

// ---------------------------------------------------------------------
// Asking before removing
// ---------------------------------------------------------------------

/// What the prompt shows about a candidate, ending with the question.
pub open spec fn spec_candidate_prompt(c: CandidateV) -> Seq<char> {
    c.repo + " "@ + c.target + "\n"@ + "  trunk  "@ + c.base_branch + ": "@ + c.base_summary + "\n"@ + "  branch "@
        + c.worktree_branch + ": "@ + c.head_summary + "\n"@ + "  proof: "@ + c.proof + "\n"@ + evidence_lines(c.evidence)
        + "  path: "@ + c.path + "\n"@ + "Remove this worktree? [y/N] "@
}

/// Each piece of evidence on a line of its own, as a list item.
pub open spec fn evidence_lines(ev: Seq<Seq<char>>) -> Seq<char>
    decreases ev.len(),
{
    if ev.len() == 0 {
        seq![]
    } else {
        evidence_lines(ev.drop_last()) + "    - "@ + ev.last() + "\n"@
    }
}

pub fn candidate_prompt(c: &MergedWorktreeCandidate) -> (r: String)
    ensures
        r@ == spec_candidate_prompt(c@),
{
    let mut s = c.repo.clone();
    s.append(" ");
    s.append(c.target.as_str());
    s.append("\n");
    s.append("  trunk  ");
    s.append(c.base_branch.as_str());
    s.append(": ");
    s.append(c.base_summary.as_str());
    s.append("\n");
    s.append("  branch ");
    s.append(c.worktree_branch.as_str());
    s.append(": ");
    s.append(c.head_summary.as_str());
    s.append("\n");
    s.append("  proof: ");
    s.append(c.proof.as_str());
    s.append("\n");
    let ghost start = s@;
    let ghost ev = evidence_views(c.evidence@);
    let mut i: usize = 0;
    while i < c.evidence.len()
        invariant
            ev == evidence_views(c.evidence@),
            i <= c.evidence@.len(),
            s@ == start + evidence_lines(ev.take(i as int)),
        decreases c.evidence@.len() - i,
    {
        s.append("    - ");
        s.append(c.evidence[i].as_str());
        s.append("\n");
        proof {
            let pre = ev.take(i + 1);
            assert(pre.drop_last() =~= ev.take(i as int));
            assert(pre.last() == c.evidence@[i as int]@);
        }
        i = i + 1;
    }
    assert(ev.take(ev.len() as int) =~= ev);
    s.append("  path: ");
    s.append(c.path.as_str());
    s.append("\n");
    s.append("Remove this worktree? [y/N] ");
    assert(s@ =~= spec_candidate_prompt(c@));
    s
}

/// What to do with a candidate after the prompt.
#[derive(Debug, PartialEq, Eq)]
pub enum Removal {
    /// The answer was not yes.
    Skip,
    /// The cache no longer knows the candidate's repo.
    MissingRepo,
    /// Remove the worktree with `git worktree remove`, run in `repo_path`.
    Remove { repo_path: String },
}

pub enum RemovalV {
    Skip,
    MissingRepo,
    Remove { repo_path: Seq<char> },
}

impl View for Removal {
    type V = RemovalV;

    open spec fn view(&self) -> RemovalV {
        match self {
            Removal::Skip => RemovalV::Skip,
            Removal::MissingRepo => RemovalV::MissingRepo,
            Removal::Remove { repo_path } => RemovalV::Remove { repo_path: repo_path@ },
        }
    }
}

/// Removal only on a yes, and only through the repo the cache knows.
pub open spec fn spec_removal(rs: Seq<RepoRecordV>, c: CandidateV, answer: Seq<char>) -> RemovalV {
    if !spec_is_yes(answer) {
        RemovalV::Skip
    } else {
        match repo_by_alias(rs, c.repo) {
            Some(r) => RemovalV::Remove { repo_path: r.canonical_path },
            None => RemovalV::MissingRepo,
        }
    }
}

pub fn decide_removal(cache: &Cache, c: &MergedWorktreeCandidate, answer: &str) -> (r: Removal)
    ensures
        r@ == spec_removal(repo_views(cache.repos@), c@, answer@),
{
    if !is_yes(answer) {
        return Removal::Skip;
    }
    match find_repo(&cache.repos, c.repo.as_str()) {
        Some(k) => Removal::Remove { repo_path: cache.repos[k].canonical_path.clone() },
        None => Removal::MissingRepo,
    }
}

/// Whether worktree `w` is the candidate's: same repo and target, and the
/// same path as a `Path` (component by component).
pub open spec fn is_candidate_worktree(w: WorktreeRecordV, c: CandidateV) -> bool {
    w.repo_alias == c.repo && w.target == c.target && path_same(w.path, c.path)
}

/// Forgets the removed candidate's worktree, keeping every other one in
/// order.
pub fn forget_candidate(cache: &mut Cache, c: &MergedWorktreeCandidate)
    ensures
        final(cache).schema_version == old(cache).schema_version,
        final(cache).repos@ == old(cache).repos@,
        final(cache).last_scan_unix == old(cache).last_scan_unix,
        final(cache).worktrees@ == old(cache).worktrees@.filter(|w: WorktreeRecord| !is_candidate_worktree(w@, c@)),
{
    let ghost keep = |w: WorktreeRecord| !is_candidate_worktree(w@, c@);
    let ghost orig = cache.worktrees@;
    let mut kept: Vec<WorktreeRecord> = Vec::new();
    let mut i: usize = 0;
    while i < cache.worktrees.len()
        invariant
            orig == cache.worktrees@,
            keep == (|w: WorktreeRecord| !is_candidate_worktree(w@, c@)),
            i <= orig.len(),
            kept@ == orig.take(i as int).filter(keep),
        decreases orig.len() - i,
    {
        let w = &cache.worktrees[i];
        let hit = str_eq(w.repo_alias.as_str(), c.repo.as_str()) && str_eq(w.target.as_str(), c.target.as_str())
            && same_path(w.path.as_str(), c.path.as_str());
        let ghost before = kept@;
        if !hit {
            kept.push(w.duplicate());
        }
        proof {
            reveal(Seq::filter);
            let pre = orig.take(i + 1);
            assert(pre.drop_last() =~= orig.take(i as int));
            assert(pre.last() == *w);
            assert(hit == !keep(*w));
        }
        i = i + 1;
    }
    assert(orig.take(orig.len() as int) =~= orig);
    cache.worktrees = kept;
}

/// What an interactive prune has counted so far: worktrees removed, and
/// candidates skipped.
#[derive(Debug, Clone, Copy, PartialEq, Eq)]
pub struct PruneTally {
    pub removed: u64,
    pub skipped: u64,
}

/// The counts after one more candidate's outcome: a removal counts as
/// removed, anything else as skipped.
pub open spec fn tally_step(removed: nat, skipped: nat, o: RemovalV) -> (nat, nat) {
    match o {
        RemovalV::Remove { .. } => (removed + 1, skipped),
        _ => (removed, skipped + 1),
    }
}

/// The counts of a whole run, outcome by outcome from nothing.
pub open spec fn spec_tally(os: Seq<RemovalV>) -> (nat, nat)
    decreases os.len(),
{
    if os.len() == 0 {
        (0, 0)
    } else {
        let t = spec_tally(os.drop_last());
        tally_step(t.0, t.1, os.last())
    }
}

/// The line printed after a candidate's outcome.
pub open spec fn spec_outcome_line(o: RemovalV) -> Seq<char> {
    match o {
        RemovalV::Skip => "skipped"@,
        RemovalV::MissingRepo => "skipped: repo missing from cache"@,
        RemovalV::Remove { .. } => "removed"@,
    }
}

impl PruneTally {
    /// Nothing counted yet.
    pub fn new() -> (r: Self)
        ensures
            r.removed == 0,
            r.skipped == 0,
    {
        PruneTally { removed: 0, skipped: 0 }
    }

    /// Counts one candidate's outcome, once any removal it asks for has
    /// been carried out, and gives the line to print for it.
    pub fn record(&mut self, o: &Removal) -> (line: String)
        requires
            old(self).removed + old(self).skipped < u64::MAX,
        ensures
            (final(self).removed as nat, final(self).skipped as nat) == tally_step(
                old(self).removed as nat,
                old(self).skipped as nat,
                o@,
            ),
            line@ == spec_outcome_line(o@),
    {
        match o {
            Removal::Skip => {
                self.skipped = self.skipped + 1;
                "skipped".to_owned()
            },
            Removal::MissingRepo => {
                self.skipped = self.skipped + 1;
                "skipped: repo missing from cache".to_owned()
            },
            Removal::Remove { .. } => {
                self.removed = self.removed + 1;
                "removed".to_owned()
            },
        }
    }

    /// The last line of the run.
    pub fn summary(&self) -> (r: String)
        ensures
            r@ == spec_prune_summary(self.removed as nat, self.skipped as nat),
    {
        prune_summary(self.removed, self.skipped)
    }
}

/// Every candidate of a prune run is counted exactly once: as removed when
/// its worktree was removed, as skipped otherwise.
pub proof fn lemma_tally_counts_every_candidate(os: Seq<RemovalV>)
    ensures
        spec_tally(os).0 + spec_tally(os).1 == os.len(),
        spec_tally(os).0 == os.filter(|o: RemovalV| o is Remove).len(),
        spec_tally(os).1 == os.filter(|o: RemovalV| !(o is Remove)).len(),
    decreases os.len(),
{
    reveal(Seq::filter);
    if os.len() > 0 {
        lemma_tally_counts_every_candidate(os.drop_last());
    }
}

/// The last line of an interactive prune.
pub open spec fn spec_prune_summary(removed: nat, skipped: nat) -> Seq<char> {
    "Removed "@ + dec(removed) + " merged worktree(s); skipped "@ + dec(skipped) + "."@
}

pub fn prune_summary(removed: u64, skipped: u64) -> (r: String)
    ensures
        r@ == spec_prune_summary(removed as nat, skipped as nat),
{
    let mut s = "Removed ".to_owned();
    push_decimal(&mut s, removed);
    s.append(" merged worktree(s); skipped ");
    push_decimal(&mut s, skipped);
    s.append(".");
    s
}


impl MergedWorktreeCandidate {
    pub fn duplicate(&self) -> (r: Self)
        ensures
            r@ == self@,
    {
        MergedWorktreeCandidate {
            repo: self.repo.clone(),
            target: self.target.clone(),
            base_branch: self.base_branch.clone(),
            worktree_branch: self.worktree_branch.clone(),
            base_summary: self.base_summary.clone(),
            head_summary: self.head_summary.clone(),
            proof: self.proof.clone(),
            evidence: copy_evidence(&self.evidence),
            path: self.path.clone(),
        }
    }
}

pub open spec fn candidate_views(v: Seq<MergedWorktreeCandidate>) -> Seq<CandidateV> {
    v.map_values(|c: MergedWorktreeCandidate| c@)
}

/// Candidates by repo, then target, then path (as a `Path`).
pub open spec fn candidate_lt(x: CandidateV, y: CandidateV) -> bool {
    lt_keys_path((x.repo, x.target, x.path), (y.repo, y.target, y.path))
}

/// The candidates in stable (repo, target, path) order, as they are offered.
pub fn sort_candidates(v: &Vec<MergedWorktreeCandidate>) -> (r: Vec<MergedWorktreeCandidate>)
    ensures
        candidate_views(r@) == isort(candidate_views(v@), |x: CandidateV, y: CandidateV| candidate_lt(x, y)),
{
    let ghost lt = |x: CandidateV, y: CandidateV| candidate_lt(x, y);
    let mut out: Vec<MergedWorktreeCandidate> = Vec::new();
    let mut i: usize = 0;
    assert(candidate_views(v@.take(0)) =~= Seq::<CandidateV>::empty());
    assert(candidate_views(out@) =~= Seq::<CandidateV>::empty());
    while i < v.len()
        invariant
            lt == (|x: CandidateV, y: CandidateV| candidate_lt(x, y)),
            i <= v@.len(),
            candidate_views(out@) == isort(candidate_views(v@.take(i as int)), lt),
        decreases v@.len() - i,
    {
        let x = v[i].duplicate();
        let ghost ov = candidate_views(out@);
        let mut p: usize = 0;
        while p < out.len() && !lt_keys_path_exec(
            x.repo.as_str(),
            x.target.as_str(),
            x.path.as_str(),
            out[p].repo.as_str(),
            out[p].target.as_str(),
            out[p].path.as_str(),
        )
            invariant
                lt == (|x: CandidateV, y: CandidateV| candidate_lt(x, y)),
                ov == candidate_views(out@),
                p <= out@.len(),
                ins_pos(ov, x@, lt, 0) == ins_pos(ov, x@, lt, p as int),
            decreases out@.len() - p,
        {
            assert(ov[p as int] == out@[p as int]@);
            p = p + 1;
        }
        proof {
            if p < out@.len() {
                assert(ov[p as int] == out@[p as int]@);
            }
            let pre = candidate_views(v@.take(i + 1));
            assert(pre.drop_last() =~= candidate_views(v@.take(i as int)));
            assert(pre.last() == x@);
        }
        let ghost xv = x@;
        out.insert(p, x);
        assert(candidate_views(out@) =~= ov.insert(p as int, xv));
        i = i + 1;
    }
    assert(v@.take(v@.len() as int) =~= v@);
    out
}


/// A worktree is offered for removal only with a proof that it merged:
/// its lineage report holds a proof, which the candidate names.
pub proof fn lemma_candidate_is_proven(repo: Option<RepoRecordV>, w: WorktreeRecordV, facts: PathFacts, a: CandidateAnswers)
    ensures
        spec_candidate_next(repo, w, facts, a) matches CandidateStepV::Done(Some(c)) ==> (lineage_answer(a.lineage) matches Some(
            Some(r),
        ) && r.status != LineageStatus::NotProven && c.proof == spec_proof_label(r.status) && c.evidence == r.evidence),
{
}

/// The base checkout, a worktree on the base branch, and a worktree whose
/// repo or path is stale or gone are never offered for removal.
pub proof fn lemma_base_and_stale_never_offered(r: RepoRecordV, w: WorktreeRecordV, facts: PathFacts, a: CandidateAnswers)
    requires
        prune_stale(r, w, facts) || path_same(facts.canon(r.canonical_path), facts.canon(w.path)) || w.branch == Some(
            base_of(r),
        ),
    ensures
        spec_candidate_next(Some(r), w, facts, a) == CandidateStepV::Done(None),
{
}

/// A worktree is removed only on a yes, and only through the repo the
/// cache knows for it.
pub proof fn lemma_removal_needs_yes(rs: Seq<RepoRecordV>, c: CandidateV, answer: Seq<char>)
    ensures
        spec_removal(rs, c, answer) matches RemovalV::Remove { repo_path } ==> spec_is_yes(answer) && (
        repo_by_alias(rs, c.repo) matches Some(x) && x.canonical_path == repo_path),
{
}

/// A worktree with a known repo is described in the prune report once
/// git has answered for it: `fresh` when its HEAD contains the base,
/// `behind-base` when only the base contains HEAD, `diverged-base`
/// otherwise, each with the base as `<branch>@<commit>` and HEAD's short
/// commit; a missing repo, a stale worktree, or a failed question is shown
/// as such.
pub proof fn lemma_prune_row_state(
    r: RepoRecordV,
    w: WorktreeRecordV,
    facts: PathFacts,
    a: PruneAnswers,
    b: Seq<char>,
    h: Seq<char>,
    base_in_head: bool,
    head_in_base: bool,
)
    requires
        !prune_stale(r, w, facts),
        oo(a.base_commit) == Some(Some(b)),
        oo(a.head_commit) == Some(Some(h)),
        a.base_in_head == Some(Some(base_in_head)),
        a.head_in_base == Some(Some(head_in_base)),
    ensures
        spec_prune_next(Some(r), w, facts, a) == PruneStepV::Row(
            row_of(
                w,
                base_of(r) + "@"@ + short_commit(b),
                short_commit(h),
                if base_in_head {
                    "fresh"@
                } else if head_in_base {
                    "behind-base"@
                } else {
                    "diverged-base"@
                },
            ),
        ),
{
}

/// The rows that need no git answer: a worktree whose repo is unknown is
/// `missing-repo`, and one whose repo or itself is stale or gone is
/// `stale`.
pub proof fn lemma_prune_row_without_git(repo: Option<RepoRecordV>, w: WorktreeRecordV, facts: PathFacts, a: PruneAnswers)
    ensures
        repo is None ==> spec_prune_next(repo, w, facts, a) == PruneStepV::Row(row_of(w, "-"@, "-"@, "missing-repo"@)),
        repo matches Some(r) ==> (prune_stale(r, w, facts) ==> spec_prune_next(repo, w, facts, a) == PruneStepV::Row(
            row_of(w, base_of(r), "-"@, "stale"@),
        )),
{
}

/// A merged candidate is offered only when all of this holds: its repo is
/// known, neither it nor its repo is stale and both paths exist, it is not
/// the repo's own checkout nor on the base branch, and its lineage was
/// proven; it then carries that proof's label and evidence, and the
/// worktree's repo, target and path.
pub proof fn lemma_candidate_conditions(repo: Option<RepoRecordV>, w: WorktreeRecordV, facts: PathFacts, a: CandidateAnswers)
    ensures
        spec_candidate_next(repo, w, facts, a) matches CandidateStepV::Done(Some(c)) ==> (repo matches Some(r) && {
            &&& !r.stale && !w.stale && facts.has_path(r.canonical_path) && facts.has_path(w.path)
            &&& !path_same(facts.canon(r.canonical_path), facts.canon(w.path))
            &&& w.branch != Some(base_of(r))
            &&& (lineage_answer(a.lineage) matches Some(Some(rep)) && rep.status != LineageStatus::NotProven && c.proof
                == spec_proof_label(rep.status) && c.evidence == rep.evidence)
            &&& c.repo == w.repo_alias && c.target == w.target && c.path == w.path
        }),
{
}

/// The outcomes of an interactive prune: candidate `i` decided by answer
/// `i`.
pub open spec fn prune_outcomes(rs: Seq<RepoRecordV>, cs: Seq<CandidateV>, answers: Seq<Seq<char>>) -> Seq<RemovalV> {
    Seq::new(cs.len(), |i: int| spec_removal(rs, cs[i], answers[i]))
}

/// An interactive prune removes a candidate exactly when its answer is yes
/// and the cache knows its repo, and counts every candidate once: the
/// removed and the skipped add up to the candidates.
pub proof fn lemma_prune_run(rs: Seq<RepoRecordV>, cs: Seq<CandidateV>, answers: Seq<Seq<char>>)
    requires
        cs.len() == answers.len(),
    ensures
        prune_outcomes(rs, cs, answers).len() == cs.len(),
        forall|i: int|
            0 <= i < cs.len() ==> ((#[trigger] prune_outcomes(rs, cs, answers)[i] is Remove) <==> spec_is_yes(answers[i])
                && repo_by_alias(rs, cs[i].repo) is Some),
        spec_tally(prune_outcomes(rs, cs, answers)).0 + spec_tally(prune_outcomes(rs, cs, answers)).1 == cs.len(),
        spec_tally(prune_outcomes(rs, cs, answers)).0 == prune_outcomes(rs, cs, answers).filter(
            |o: RemovalV| o is Remove,
        ).len(),
{
    lemma_tally_counts_every_candidate(prune_outcomes(rs, cs, answers));
}

/// The answers that count as yes to `Remove this worktree? [y/N]` are
/// exactly `y`, `Y`, `yes`, `YES` and `Yes`, with surrounding white space
/// (such as the line break) ignored.  On such an answer a candidate whose
/// repo the cache knows is removed through that repo's path; on any other
/// answer it is skipped.
pub proof fn lemma_yes_removes(rs: Seq<RepoRecordV>, c: CandidateV, answer: Seq<char>)
    ensures
        spec_is_yes(answer) <==> (trim(answer) == "y"@ || trim(answer) == "Y"@ || trim(answer) == "yes"@ || trim(answer)
            == "YES"@ || trim(answer) == "Yes"@),
        (trim(answer) == "y"@ || trim(answer) == "Y"@ || trim(answer) == "yes"@ || trim(answer) == "YES"@ || trim(answer)
            == "Yes"@) ==> (repo_by_alias(rs, c.repo) matches Some(r) ==> spec_removal(rs, c, answer) == RemovalV::Remove {
            repo_path: r.canonical_path,
        }),
        !(trim(answer) == "y"@ || trim(answer) == "Y"@ || trim(answer) == "yes"@ || trim(answer) == "YES"@ || trim(answer)
            == "Yes"@) ==> spec_removal(rs, c, answer) == RemovalV::Skip,
{
}

/// A live worktree that is neither its repo's checkout nor on the base
/// branch, whose base and HEAD resolve and whose lineage is proven merged
/// in any way (ancestry, a GitHub pull request or patch identity), is
/// offered for removal: the step is one of the two summary questions, or
/// the candidate itself once both are answered, named after the proof.
pub proof fn lemma_merged_worktree_offered(
    r: RepoRecordV,
    w: WorktreeRecordV,
    facts: PathFacts,
    a: CandidateAnswers,
    b: Seq<char>,
    h: Seq<char>,
    rep: LineageReportV,
)
    requires
        !r.stale,
        !w.stale,
        facts.has_path(r.canonical_path),
        facts.has_path(w.path),
        !path_same(facts.canon(r.canonical_path), facts.canon(w.path)),
        w.branch != Some(base_of(r)),
        oo(a.base_commit) == Some(Some(b)),
        oo(a.head_commit) == Some(Some(h)),
        lineage_answer(a.lineage) == Some(Some(rep)),
        rep.status is MergedByAncestry || rep.status is MergedByGithubPr || rep.status is MergedByPatchId,
    ensures
        spec_candidate_next(Some(r), w, facts, a) is BaseSummary || spec_candidate_next(Some(r), w, facts, a) is HeadSummary
            || spec_candidate_next(Some(r), w, facts, a) matches CandidateStepV::Done(Some(_)),
        (oo(a.base_summary) is Some && oo(a.head_summary) is Some) ==> (spec_candidate_next(Some(r), w, facts, a) matches CandidateStepV::Done(
            Some(c),
        ) && c.repo == w.repo_alias && c.target == w.target && c.path == w.path && c.evidence == rep.evidence && (
        rep.status is MergedByAncestry ==> c.proof == "merged-by-ancestry"@) && (rep.status is MergedByGithubPr ==> c.proof
            == "merged-by-github-pr"@) && (rep.status is MergedByPatchId ==> c.proof == "merged-by-patch-id"@)),
{
}

} // verus!
