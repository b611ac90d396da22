//! Merging one worktree's HEAD into the worktree that has another branch
//! checked out.

use vstd::prelude::*;

use crate::domain::{worktree_views, Cache, RepoRecordV, WorktreeRecord, WorktreeRecordV};
use crate::error::AppError;
use crate::facts::PathFacts;
use crate::resolver::ResolvedWorktree;
use crate::paths::{path_same, same_path};
use crate::text::{str_eq, trim, trimmed};

verus! {

/// The first worktree of `repo` that is not stale and has `branch`
/// checked out.
pub open spec fn destination_of(ws: Seq<WorktreeRecordV>, repo: Seq<char>, branch: Seq<char>) -> Option<WorktreeRecordV>
    decreases ws.len(),
{
    if ws.len() == 0 {
        None
    } else if ws[0].repo_alias == repo && !ws[0].stale && ws[0].branch == Some(branch) {
        Some(ws[0])
    } else {
        destination_of(ws.drop_first(), repo, branch)
    }
}

/// Index of the destination worktree of a merge into `branch`.
pub fn destination_worktree(ws: &Vec<WorktreeRecord>, repo: &str, branch: &str) -> (r: Option<usize>)
    ensures
        match destination_of(worktree_views(ws@), repo@, branch@) {
            Some(w) => r matches Some(i) && i < ws@.len() && ws@[i as int]@ == w,
            None => r is None,
        },
{
    let ghost wv = worktree_views(ws@);
    let mut i: usize = 0;
    assert(wv.skip(0) =~= wv);
    while i < ws.len()
        invariant
            wv == worktree_views(ws@),
            i <= ws@.len(),
            destination_of(wv, repo@, branch@) == destination_of(wv.skip(i as int), repo@, branch@),
        decreases ws@.len() - i,
    {
        let w = &ws[i];
        assert(wv.skip(i as int)[0] == w@);
        let on_branch = match &w.branch {
            Some(b) => str_eq(b.as_str(), branch),
            None => false,
        };
        if str_eq(w.repo_alias.as_str(), repo) && !w.stale && on_branch {
            return Some(i);
        }
        assert(wv.skip(i as int).drop_first() =~= wv.skip(i + 1));
        i = i + 1;
    }
    None
}

/// How `git merge` went: it could not be run, it failed with this output
/// and error output, or it succeeded.
#[derive(Debug, PartialEq, Eq)]
pub enum MergeOutcome {
    Missing,
    Failed { stdout: String, stderr: String },
    Merged,
}

/// The answers gathered so far.
#[derive(Debug, PartialEq, Eq)]
pub struct MergeAnswers {
    pub source_dirty: Option<bool>,
    pub destination_dirty: Option<bool>,
    pub source_head: Option<Option<String>>,
    pub merge: Option<MergeOutcome>,
}

impl MergeAnswers {
    pub fn new() -> (r: Self)
        ensures
            r.source_dirty is None,
            r.destination_dirty is None,
            r.source_head is None,
            r.merge is None,
    {
        MergeAnswers { source_dirty: None, destination_dirty: None, source_head: None, merge: None }
    }
}

/// The next step of a merge.
#[derive(Debug, PartialEq, Eq)]
pub enum MergeStep {
    /// Ask whether the source worktree at `path` has uncommitted changes.
    SourceDirty { path: String },
    /// Ask whether the destination worktree at `path` has uncommitted
    /// changes.
    DestinationDirty { path: String },
    /// Ask `git rev-parse --verify HEAD` in `path`.
    Head { path: String },
    /// Run `git merge commit` in `path`.
    Merge { path: String, commit: String },
    /// Merged: rediscover the repo family at `repo_path`, then print `message`.
    Merged { repo_path: String, message: String },
    /// The merge is refused or failed.
    Failed(AppError),
}

pub enum MergeStepV {
    SourceDirty { path: Seq<char> },
    DestinationDirty { path: Seq<char> },
    Head { path: Seq<char> },
    Merge { path: Seq<char>, commit: Seq<char> },
    Merged { repo_path: Seq<char>, message: Seq<char> },
    Refused(Seq<char>),
    GitError(Seq<char>),
    GitMissing,
}

pub open spec fn merge_step_is(s: MergeStep, v: MergeStepV) -> bool {
    match v {
        MergeStepV::SourceDirty { path } => s matches MergeStep::SourceDirty { path: p } && p@ == path,
        MergeStepV::DestinationDirty { path } => s matches MergeStep::DestinationDirty { path: p } && p@ == path,
        MergeStepV::Head { path } => s matches MergeStep::Head { path: p } && p@ == path,
        MergeStepV::Merge { path, commit } => s matches MergeStep::Merge { path: p, commit: c } && p@ == path && c@
            == commit,
        MergeStepV::Merged { repo_path, message } => s matches MergeStep::Merged { repo_path: p, message: m } && p@
            == repo_path && m@ == message,
        MergeStepV::Refused(m) => s matches MergeStep::Failed(AppError::InvalidCommand(x)) && x@ == m,
        MergeStepV::GitError(m) => s matches MergeStep::Failed(AppError::Git(x)) && x@ == m,
        MergeStepV::GitMissing => s matches MergeStep::Failed(AppError::MissingDependency { name }) && name@ == "git"@,
    }
}

pub enum MergeV {
    Missing,
    Failed(Seq<char>, Seq<char>),
    Merged,
}

pub open spec fn merge_view(o: Option<MergeOutcome>) -> Option<MergeV> {
    match o {
        None => None,
        Some(MergeOutcome::Missing) => Some(MergeV::Missing),
        Some(MergeOutcome::Failed { stdout, stderr }) => Some(MergeV::Failed(stdout@, stderr@)),
        Some(MergeOutcome::Merged) => Some(MergeV::Merged),
    }
}

/// What git printed about a failed merge, for the error message.
pub open spec fn failure_details(stdout: Seq<char>, stderr: Seq<char>) -> Seq<char> {
    let o = trim(stdout);
    let e = trim(stderr);
    if o.len() == 0 && e.len() == 0 {
        seq![]
    } else if e.len() == 0 {
        "\ngit output: "@ + o
    } else if o.len() == 0 {
        "\ngit output: "@ + e
    } else {
        "\ngit output: "@ + o + "\n"@ + e
    }
}

pub fn merge_failure_details(stdout: &str, stderr: &str) -> (r: String)
    ensures
        r@ == failure_details(stdout@, stderr@),
{
    let o = trimmed(stdout);
    let e = trimmed(stderr);
    let oe = o.as_str().is_empty();
    let ee = e.as_str().is_empty();
    if oe && ee {
        String::new()
    } else if ee {
        let mut s = "\ngit output: ".to_owned();
        s.append(o.as_str());
        s
    } else if oe {
        let mut s = "\ngit output: ".to_owned();
        s.append(e.as_str());
        s
    } else {
        let mut s = "\ngit output: ".to_owned();
        s.append(o.as_str());
        s.append("\n");
        s.append(e.as_str());
        s
    }
}

/// The next step of merging source worktree `src` (resolved from
/// `source_input`) of `repo` into the worktree `dest` that has `into`
/// checked out: a dirty source or destination, a missing destination, or
/// a destination that is the source itself, are refused; otherwise the
/// source HEAD is merged there, and a conflict is reported with what git
/// printed.
pub open spec fn spec_merge_next(
    repo: RepoRecordV,
    src: WorktreeRecordV,
    src_path: Seq<char>,
    dest: Option<WorktreeRecordV>,
    facts: PathFacts,
    source_input: Seq<char>,
    into: Seq<char>,
    source_dirty: Option<bool>,
    destination_dirty: Option<bool>,
    source_head: Option<Option<Seq<char>>>,
    merge: Option<MergeV>,
) -> MergeStepV {
    match source_dirty {
        None => MergeStepV::SourceDirty { path: src_path },
        Some(true) => MergeStepV::Refused(
            "source target `"@ + src.target + "` has uncommitted changes; commit or stash before merging"@,
        ),
        Some(false) => match dest {
            None => MergeStepV::Refused(
                "destination branch `"@ + into
                    + "` is not checked out in a known Workroot worktree\nfix: run `workroot new "@ + repo.alias
                    + " <target> --branch "@ + into + "`"@,
            ),
            Some(d) => if path_same(facts.canon(src_path), facts.canon(d.path)) {
                MergeStepV::Refused(
                    "source target `"@ + src.target + "` is already the destination branch `"@ + into + "`"@,
                )
            } else {
                match destination_dirty {
                    None => MergeStepV::DestinationDirty { path: d.path },
                    Some(true) => MergeStepV::Refused(
                        "destination branch `"@ + into + "` has uncommitted changes at "@ + d.path
                            + "; commit or stash before merging"@,
                    ),
                    Some(false) => match source_head {
                        None => MergeStepV::Head { path: src_path },
                        Some(None) => MergeStepV::GitError("could not resolve HEAD for `"@ + source_input + "`"@),
                        Some(Some(h)) => match merge {
                            None => MergeStepV::Merge { path: d.path, commit: h },
                            Some(MergeV::Missing) => MergeStepV::GitMissing,
                            Some(MergeV::Failed(o, e)) => MergeStepV::Refused(
                                "merge of `"@ + src.target + "` into `"@ + into + "` has conflicts at "@ + d.path
                                    + "\nfix: resolve conflicts there, then commit or run `git -C "@ + d.path
                                    + " merge --abort`"@ + failure_details(o, e),
                            ),
                            Some(MergeV::Merged) => MergeStepV::Merged {
                                repo_path: repo.canonical_path,
                                message: "merged `"@ + src.target + "` into `"@ + into + "` at "@ + d.path + "\n"@,
                            },
                        },
                    },
                }
            }
        },
    }
}

/// The next step of merging the resolved source worktree into the
/// worktree of `cache` that has `into` checked out.
pub fn merge_next(
    cache: &Cache,
    resolved: &ResolvedWorktree,
    facts: &PathFacts,
    source_input: &str,
    into: &str,
    a: &MergeAnswers,
) -> (r: MergeStep)
    ensures
        merge_step_is(
            r,
            spec_merge_next(
                resolved.repo@,
                resolved.worktree@,
                resolved.path@,
                destination_of(worktree_views(cache.worktrees@), resolved.repo@.alias, into@),
                *facts,
                source_input@,
                into@,
                a.source_dirty,
                a.destination_dirty,
                crate::push::opt2(a.source_head),
                merge_view(a.merge),
            ),
        ),
{
    let src = &resolved.worktree;
    match a.source_dirty {
        None => return MergeStep::SourceDirty { path: resolved.path.clone() },
        Some(true) => {
            let mut m = "source target `".to_owned();
            m.append(src.target.as_str());
            m.append("` has uncommitted changes; commit or stash before merging");
            return MergeStep::Failed(AppError::InvalidCommand(m));
        },
        Some(false) => {},
    }
    let d = match destination_worktree(&cache.worktrees, resolved.repo.alias.as_str(), into) {
        None => {
            let mut m = "destination branch `".to_owned();
            m.append(into);
            m.append("` is not checked out in a known Workroot worktree\nfix: run `workroot new ");
            m.append(resolved.repo.alias.as_str());
            m.append(" <target> --branch ");
            m.append(into);
            m.append("`");
            return MergeStep::Failed(AppError::InvalidCommand(m));
        },
        Some(k) => &cache.worktrees[k],
    };
    let sc = facts.canonical_of(resolved.path.as_str());
    let dc = facts.canonical_of(d.path.as_str());
    if same_path(sc.as_str(), dc.as_str()) {
        let mut m = "source target `".to_owned();
        m.append(src.target.as_str());
        m.append("` is already the destination branch `");
        m.append(into);
        m.append("`");
        return MergeStep::Failed(AppError::InvalidCommand(m));
    }
    match a.destination_dirty {
        None => return MergeStep::DestinationDirty { path: d.path.clone() },
        Some(true) => {
            let mut m = "destination branch `".to_owned();
            m.append(into);
            m.append("` has uncommitted changes at ");
            m.append(d.path.as_str());
            m.append("; commit or stash before merging");
            return MergeStep::Failed(AppError::InvalidCommand(m));
        },
        Some(false) => {},
    }
    let h = match &a.source_head {
        None => return MergeStep::Head { path: resolved.path.clone() },
        Some(None) => {
            let mut m = "could not resolve HEAD for `".to_owned();
            m.append(source_input);
            m.append("`");
            return MergeStep::Failed(AppError::Git(m));
        },
        Some(Some(h)) => h,
    };
    match &a.merge {
        None => MergeStep::Merge { path: d.path.clone(), commit: h.clone() },
        Some(MergeOutcome::Missing) => MergeStep::Failed(AppError::MissingDependency { name: "git".to_owned() }),
        Some(MergeOutcome::Failed { stdout, stderr }) => {
            let mut m = "merge of `".to_owned();
            m.append(src.target.as_str());
            m.append("` into `");
            m.append(into);
            m.append("` has conflicts at ");
            m.append(d.path.as_str());
            m.append("\nfix: resolve conflicts there, then commit or run `git -C ");
            m.append(d.path.as_str());
            m.append(" merge --abort`");
            let details = merge_failure_details(stdout.as_str(), stderr.as_str());
            m.append(details.as_str());
            MergeStep::Failed(AppError::InvalidCommand(m))
        },
        Some(MergeOutcome::Merged) => {
            let mut m = "merged `".to_owned();
            m.append(src.target.as_str());
            m.append("` into `");
            m.append(into);
            m.append("` at ");
            m.append(d.path.as_str());
            m.append("\n");
            MergeStep::Merged { repo_path: resolved.repo.canonical_path.clone(), message: m }
        },
    }
}

/// A merge refuses a dirty source, and a destination branch that no known
/// worktree has checked out, before any merge step: `git merge` is asked
/// for only when the source is clean, the destination is a known worktree
/// other than the source, and it is clean too.
pub proof fn lemma_merge_refuses_before_merging(
    repo: RepoRecordV,
    src: WorktreeRecordV,
    src_path: Seq<char>,
    dest: Option<WorktreeRecordV>,
    facts: PathFacts,
    source_input: Seq<char>,
    into: Seq<char>,
    source_dirty: Option<bool>,
    destination_dirty: Option<bool>,
    source_head: Option<Option<Seq<char>>>,
    merge: Option<MergeV>,
)
    ensures
        source_dirty == Some(true) ==> spec_merge_next(
            repo,
            src,
            src_path,
            dest,
            facts,
            source_input,
            into,
            source_dirty,
            destination_dirty,
            source_head,
            merge,
        ) == MergeStepV::Refused(
            "source target `"@ + src.target + "` has uncommitted changes; commit or stash before merging"@,
        ),
        source_dirty == Some(false) && dest is None ==> spec_merge_next(
            repo,
            src,
            src_path,
            dest,
            facts,
            source_input,
            into,
            source_dirty,
            destination_dirty,
            source_head,
            merge,
        ) == MergeStepV::Refused(
            "destination branch `"@ + into + "` is not checked out in a known Workroot worktree\nfix: run `workroot new "@
                + repo.alias + " <target> --branch "@ + into + "`"@,
        ),
        spec_merge_next(
            repo,
            src,
            src_path,
            dest,
            facts,
            source_input,
            into,
            source_dirty,
            destination_dirty,
            source_head,
            merge,
        ) is Merge ==> source_dirty == Some(false) && destination_dirty == Some(false) && (dest matches Some(d)
            && !path_same(facts.canon(src_path), facts.canon(d.path))),
{
}

/// The worktree a merge goes into belongs to the source's repo, is not
/// stale and has the destination branch checked out; there is none only
/// when no worktree of the cache is all three.
pub proof fn lemma_destination_in_same_repo(ws: Seq<WorktreeRecordV>, repo: Seq<char>, branch: Seq<char>)
    ensures
        destination_of(ws, repo, branch) matches Some(d) ==> ws.contains(d) && d.repo_alias == repo && !d.stale
            && d.branch == Some(branch),
        destination_of(ws, repo, branch) is None ==> forall|i: int|
            0 <= i < ws.len() ==> !((#[trigger] ws[i]).repo_alias == repo && !ws[i].stale && ws[i].branch == Some(branch)),
    decreases ws.len(),
{
    if ws.len() > 0 {
        let t = ws.drop_first();
        lemma_destination_in_same_repo(t, repo, branch);
        if !(ws[0].repo_alias == repo && !ws[0].stale && ws[0].branch == Some(branch)) {
            if let Some(d) = destination_of(t, repo, branch) {
                let k = choose|k: int| 0 <= k < t.len() && t[k] == d;
                assert(ws[k + 1] == d);
            } else {
                assert forall|i: int| 0 <= i < ws.len() implies !((#[trigger] ws[i]).repo_alias == repo && !ws[i].stale
                    && ws[i].branch == Some(branch)) by {
                    if i > 0 {
                        assert(ws[i] == t[i - 1]);
                    }
                }
            }
        } else {
            assert(ws[0] == ws[0]);
        }
    }
}

/// A merge goes only into a worktree of the source's own repo that has
/// the destination branch checked out and is not stale, and merges the
/// source's HEAD there.
pub proof fn lemma_merge_into_own_repo(
    repo: RepoRecordV,
    src: WorktreeRecordV,
    src_path: Seq<char>,
    ws: Seq<WorktreeRecordV>,
    facts: PathFacts,
    source_input: Seq<char>,
    into: Seq<char>,
    source_dirty: Option<bool>,
    destination_dirty: Option<bool>,
    source_head: Option<Option<Seq<char>>>,
    merge: Option<MergeV>,
)
    ensures
        spec_merge_next(
            repo,
            src,
            src_path,
            destination_of(ws, repo.alias, into),
            facts,
            source_input,
            into,
            source_dirty,
            destination_dirty,
            source_head,
            merge,
        ) matches MergeStepV::Merge { path, commit } ==> (exists|d: WorktreeRecordV|
            #[trigger] ws.contains(d) && d.repo_alias == repo.alias && !d.stale && d.branch == Some(into) && d.path == path)
            && source_head == Some(Some(commit)),
{
    lemma_destination_in_same_repo(ws, repo.alias, into);
}

} // verus!
