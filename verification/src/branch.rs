//! Attaching a detached worktree to a branch, and detaching a worktree
//! from its branch.

use vstd::prelude::*;

use crate::domain::{RepoRecordV, WorktreeRecordV};
use crate::error::AppError;
use crate::git::{entry_views, EntryView, GitWorktreeEntry};
use crate::push::opt2;
use crate::resolver::ResolvedWorktree;
use crate::text::str_eq;

verus! {

/// The path of the first worktree that has `branch` checked out.
pub open spec fn checked_out_at(es: Seq<EntryView>, branch: Seq<char>) -> Option<Seq<char>>
    decreases es.len(),
{
    if es.len() == 0 {
        None
    } else if es[0].branch == Some(branch) {
        Some(es[0].path)
    } else {
        checked_out_at(es.drop_first(), branch)
    }
}

/// Where `branch` is checked out, among the entries of `git worktree list`.
pub fn branch_checked_out_path(entries: &Vec<GitWorktreeEntry>, branch: &str) -> (r: Option<String>)
    ensures
        match checked_out_at(entry_views(entries@), branch@) {
            Some(p) => r matches Some(x) && x@ == p,
            None => r is None,
        },
{
    let ghost ev = entry_views(entries@);
    let mut i: usize = 0;
    assert(ev.skip(0) =~= ev);
    while i < entries.len()
        invariant
            ev == entry_views(entries@),
            i <= entries@.len(),
            checked_out_at(ev, branch@) == checked_out_at(ev.skip(i as int), branch@),
        decreases entries@.len() - i,
    {
        let e = &entries[i];
        assert(ev.skip(i as int)[0] == e@);
        let hit = match &e.branch {
            Some(b) => str_eq(b.as_str(), branch),
            None => false,
        };
        if hit {
            return Some(e.path.clone());
        }
        assert(ev.skip(i as int).drop_first() =~= ev.skip(i + 1));
        i = i + 1;
    }
    None
}

/// The answers gathered so far about attaching a branch.
#[derive(Debug, PartialEq, Eq)]
pub struct BranchAnswers {
    /// The worktree's current branch, none when detached.
    pub current: Option<Option<String>>,
    /// Where the branch is checked out, if anywhere.
    pub checked_out: Option<Option<String>>,
    /// Whether the branch exists.
    pub exists: Option<bool>,
    /// The worktree's HEAD and the branch's commit, when the branch exists.
    pub heads: Option<(Option<String>, Option<String>)>,
    /// Whether the switch ran and succeeded.
    pub switched: bool,
}

impl BranchAnswers {
    pub fn new() -> (r: Self)
        ensures
            r.current is None,
            r.checked_out is None,
            r.exists is None,
            r.heads is None,
            !r.switched,
    {
        BranchAnswers { current: None, checked_out: None, exists: None, heads: None, switched: false }
    }
}

/// The next step of attaching a branch to a worktree.
#[derive(Debug, PartialEq, Eq)]
pub enum BranchStep {
    /// Ask `git branch --show-current` in `path`.
    CurrentBranch { path: String },
    /// Ask where `branch` is checked out in the repo at `repo_path`.
    CheckedOut { repo_path: String, branch: String },
    /// Ask whether `branch` exists in the repo at `repo_path`.
    Exists { repo_path: String, branch: String },
    /// Ask HEAD in `path` and the commit of `branch` in `repo_path`.
    Heads { path: String, repo_path: String, branch: String },
    /// Run `git switch branch` in `path`.
    Switch { path: String, branch: String },
    /// Run `git switch -c branch` in `path`.
    SwitchCreate { path: String, branch: String },
    /// Done: rediscover the family at `repo_path`, then print `message`.
    Done { repo_path: String, message: String },
    /// Refused.
    Refused(AppError),
}

pub enum BranchStepV {
    CurrentBranch { path: Seq<char> },
    CheckedOut { repo_path: Seq<char>, branch: Seq<char> },
    Exists { repo_path: Seq<char>, branch: Seq<char> },
    Heads { path: Seq<char>, repo_path: Seq<char>, branch: Seq<char> },
    Switch { path: Seq<char>, branch: Seq<char> },
    SwitchCreate { path: Seq<char>, branch: Seq<char> },
    Done { repo_path: Seq<char>, message: Seq<char> },
    Refused(Seq<char>),
}

pub open spec fn branch_step_is(s: BranchStep, v: BranchStepV) -> bool {
    match v {
        BranchStepV::CurrentBranch { path } => s matches BranchStep::CurrentBranch { path: p } && p@ == path,
        BranchStepV::CheckedOut { repo_path, branch } => s matches BranchStep::CheckedOut { repo_path: p, branch: b }
            && p@ == repo_path && b@ == branch,
        BranchStepV::Exists { repo_path, branch } => s matches BranchStep::Exists { repo_path: p, branch: b } && p@
            == repo_path && b@ == branch,
        BranchStepV::Heads { path, repo_path, branch } => s matches BranchStep::Heads {
            path: p,
            repo_path: q,
            branch: b,
        } && p@ == path && q@ == repo_path && b@ == branch,
        BranchStepV::Switch { path, branch } => s matches BranchStep::Switch { path: p, branch: b } && p@ == path
            && b@ == branch,
        BranchStepV::SwitchCreate { path, branch } => s matches BranchStep::SwitchCreate { path: p, branch: b } && p@
            == path && b@ == branch,
        BranchStepV::Done { repo_path, message } => s matches BranchStep::Done { repo_path: p, message: m } && p@
            == repo_path && m@ == message,
        BranchStepV::Refused(m) => s matches BranchStep::Refused(AppError::InvalidCommand(x)) && x@ == m,
    }
}

pub open spec fn heads_view(h: Option<(Option<String>, Option<String>)>) -> Option<(Option<Seq<char>>, Option<Seq<char>>)> {
    match h {
        None => None,
        Some((a, b)) => Some(
            (
                match a {
                    Some(x) => Some(x@),
                    None => None,
                },
                match b {
                    Some(x) => Some(x@),
                    None => None,
                },
            ),
        ),
    }
}

/// The next step of attaching `branch` to worktree `w` of `repo` at
/// `path`: a worktree already on a branch, or a branch checked out
/// elsewhere, is refused; an existing branch is switched to only when it
/// points at the worktree's HEAD; a new branch is created there.
pub open spec fn spec_branch_next(
    repo: RepoRecordV,
    w: WorktreeRecordV,
    path: Seq<char>,
    branch: Seq<char>,
    current: Option<Option<Seq<char>>>,
    checked_out: Option<Option<Seq<char>>>,
    exists: Option<bool>,
    heads: Option<(Option<Seq<char>>, Option<Seq<char>>)>,
    switched: bool,
) -> BranchStepV {
    let done = BranchStepV::Done {
        repo_path: repo.canonical_path,
        message: "branched `"@ + w.target + "` as `"@ + branch + "`\n"@,
    };
    match current {
        None => BranchStepV::CurrentBranch { path },
        Some(Some(c)) => BranchStepV::Refused(
            "target `"@ + w.target + "` is already attached to branch `"@ + c + "`"@,
        ),
        Some(None) => match checked_out {
            None => BranchStepV::CheckedOut { repo_path: repo.canonical_path, branch },
            Some(Some(p)) => BranchStepV::Refused(
                "branch `"@ + branch + "` is already checked out at "@ + p + "; refusing to attach it here"@,
            ),
            Some(None) => match exists {
                None => BranchStepV::Exists { repo_path: repo.canonical_path, branch },
                Some(true) => match heads {
                    None => BranchStepV::Heads { path, repo_path: repo.canonical_path, branch },
                    Some((head, branch_head)) => if head is Some && head == branch_head {
                        if switched {
                            done
                        } else {
                            BranchStepV::Switch { path, branch }
                        }
                    } else {
                        BranchStepV::Refused(
                            "branch `"@ + branch + "` already exists at a different commit; choose a new branch name"@,
                        )
                    },
                },
                Some(false) => if switched {
                    done
                } else {
                    BranchStepV::SwitchCreate { path, branch }
                },
            },
        },
    }
}

fn same_opt(a: &Option<String>, b: &Option<String>) -> (r: bool)
    ensures
        r == (match a {
            Some(x) => Some(x@),
            None => None,
        } == match b {
            Some(x) => Some(x@),
            None => None,
        }),
{
    match (a, b) {
        (Some(x), Some(y)) => str_eq(x.as_str(), y.as_str()),
        (None, None) => true,
        _ => false,
    }
}

/// The next step of attaching `branch` to the resolved worktree.
pub fn branch_next(resolved: &ResolvedWorktree, branch: &str, a: &BranchAnswers) -> (r: BranchStep)
    ensures
        branch_step_is(
            r,
            spec_branch_next(
                resolved.repo@,
                resolved.worktree@,
                resolved.path@,
                branch@,
                opt2(a.current),
                opt2(a.checked_out),
                a.exists,
                heads_view(a.heads),
                a.switched,
            ),
        ),
{
    let repo_path = &resolved.repo.canonical_path;
    let t = &resolved.worktree.target;
    let done = || -> (s: BranchStep)
        ensures
            branch_step_is(
                s,
                BranchStepV::Done { repo_path: repo_path@, message: "branched `"@ + t@ + "` as `"@ + branch@ + "`\n"@ },
            ),
    {
        let mut m = "branched `".to_owned();
        m.append(t.as_str());
        m.append("` as `");
        m.append(branch);
        m.append("`\n");
        BranchStep::Done { repo_path: repo_path.clone(), message: m }
    };
    match &a.current {
        None => return BranchStep::CurrentBranch { path: resolved.path.clone() },
        Some(Some(c)) => {
            let mut m = "target `".to_owned();
            m.append(t.as_str());
            m.append("` is already attached to branch `");
            m.append(c.as_str());
            m.append("`");
            return BranchStep::Refused(AppError::InvalidCommand(m));
        },
        Some(None) => {},
    }
    match &a.checked_out {
        None => return BranchStep::CheckedOut { repo_path: repo_path.clone(), branch: branch.to_owned() },
        Some(Some(p)) => {
            let mut m = "branch `".to_owned();
            m.append(branch);
            m.append("` is already checked out at ");
            m.append(p.as_str());
            m.append("; refusing to attach it here");
            return BranchStep::Refused(AppError::InvalidCommand(m));
        },
        Some(None) => {},
    }
    match a.exists {
        None => BranchStep::Exists { repo_path: repo_path.clone(), branch: branch.to_owned() },
        Some(true) => match &a.heads {
            None => BranchStep::Heads { path: resolved.path.clone(), repo_path: repo_path.clone(), branch: branch.to_owned() },
            Some((head, branch_head)) => {
                if head.is_some() && same_opt(head, branch_head) {
                    if a.switched {
                        done()
                    } else {
                        BranchStep::Switch { path: resolved.path.clone(), branch: branch.to_owned() }
                    }
                } else {
                    let mut m = "branch `".to_owned();
                    m.append(branch);
                    m.append("` already exists at a different commit; choose a new branch name");
                    BranchStep::Refused(AppError::InvalidCommand(m))
                }
            },
        },
        Some(false) => if a.switched {
            done()
        } else {
            BranchStep::SwitchCreate { path: resolved.path.clone(), branch: branch.to_owned() }
        },
    }
}

/// The answers gathered so far about detaching.
#[derive(Debug, PartialEq, Eq)]
pub struct DetachAnswers {
    pub current: Option<Option<String>>,
    pub dirty: Option<bool>,
    pub detached: bool,
}

impl DetachAnswers {
    pub fn new() -> (r: Self)
        ensures
            r.current is None,
            r.dirty is None,
            !r.detached,
    {
        DetachAnswers { current: None, dirty: None, detached: false }
    }
}

/// The next step of detaching a worktree from its branch.
#[derive(Debug, PartialEq, Eq)]
pub enum DetachStep {
    /// Ask `git branch --show-current` in `path`.
    CurrentBranch { path: String },
    /// Ask whether the worktree at `path` has uncommitted changes.
    IsDirty { path: String },
    /// Run `git switch --detach` in `path`.
    Detach { path: String },
    /// Done; rediscover the family at `repo_path` first when `refresh`.
    Done { repo_path: String, refresh: bool, message: String },
    /// Refused.
    Refused(AppError),
}

pub enum DetachStepV {
    CurrentBranch { path: Seq<char> },
    IsDirty { path: Seq<char> },
    Detach { path: Seq<char> },
    Done { repo_path: Seq<char>, refresh: bool, message: Seq<char> },
    Refused(Seq<char>),
}

pub open spec fn detach_step_is(s: DetachStep, v: DetachStepV) -> bool {
    match v {
        DetachStepV::CurrentBranch { path } => s matches DetachStep::CurrentBranch { path: p } && p@ == path,
        DetachStepV::IsDirty { path } => s matches DetachStep::IsDirty { path: p } && p@ == path,
        DetachStepV::Detach { path } => s matches DetachStep::Detach { path: p } && p@ == path,
        DetachStepV::Done { repo_path, refresh, message } => s matches DetachStep::Done {
            repo_path: p,
            refresh: f,
            message: m,
        } && p@ == repo_path && f == refresh && m@ == message,
        DetachStepV::Refused(m) => s matches DetachStep::Refused(AppError::InvalidCommand(x)) && x@ == m,
    }
}

/// The next step of detaching worktree `w` of `repo` at `path`: an already
/// detached worktree is left alone; the base worktree, or one with
/// uncommitted changes, is refused.
pub open spec fn spec_detach_next(
    repo: RepoRecordV,
    w: WorktreeRecordV,
    path: Seq<char>,
    current: Option<Option<Seq<char>>>,
    dirty: Option<bool>,
    detached: bool,
) -> DetachStepV {
    match current {
        None => DetachStepV::CurrentBranch { path },
        Some(None) => DetachStepV::Done {
            repo_path: repo.canonical_path,
            refresh: false,
            message: "target `"@ + w.target + "` is already detached\n"@,
        },
        Some(Some(_)) => if w.target == "base"@ {
            DetachStepV::Refused("refusing to detach the base worktree"@)
        } else {
            match dirty {
                None => DetachStepV::IsDirty { path },
                Some(true) => DetachStepV::Refused(
                    "target `"@ + w.target + "` has uncommitted changes; commit or stash before detaching"@,
                ),
                Some(false) => if detached {
                    DetachStepV::Done { repo_path: repo.canonical_path, refresh: true, message: "detached `"@ + w.target + "`\n"@ }
                } else {
                    DetachStepV::Detach { path }
                },
            }
        },
    }
}

/// The next step of detaching the resolved worktree.
pub fn detach_next(resolved: &ResolvedWorktree, a: &DetachAnswers) -> (r: DetachStep)
    ensures
        detach_step_is(
            r,
            spec_detach_next(resolved.repo@, resolved.worktree@, resolved.path@, opt2(a.current), a.dirty, a.detached),
        ),
{
    let t = &resolved.worktree.target;
    match &a.current {
        None => return DetachStep::CurrentBranch { path: resolved.path.clone() },
        Some(None) => {
            let mut m = "target `".to_owned();
            m.append(t.as_str());
            m.append("` is already detached\n");
            return DetachStep::Done { repo_path: resolved.repo.canonical_path.clone(), refresh: false, message: m };
        },
        Some(Some(_)) => {},
    }
    if str_eq(t.as_str(), "base") {
        return DetachStep::Refused(AppError::InvalidCommand("refusing to detach the base worktree".to_owned()));
    }
    match a.dirty {
        None => DetachStep::IsDirty { path: resolved.path.clone() },
        Some(true) => {
            let mut m = "target `".to_owned();
            m.append(t.as_str());
            m.append("` has uncommitted changes; commit or stash before detaching");
            DetachStep::Refused(AppError::InvalidCommand(m))
        },
        Some(false) => if a.detached {
            let mut m = "detached `".to_owned();
            m.append(t.as_str());
            m.append("`\n");
            DetachStep::Done { repo_path: resolved.repo.canonical_path.clone(), refresh: true, message: m }
        } else {
            DetachStep::Detach { path: resolved.path.clone() }
        },
    }
}

} // verus!
