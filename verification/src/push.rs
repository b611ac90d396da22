//! Pushing a worktree's branch: which branch, whether it already tracks
//! an upstream, and what the user is told.

use vstd::prelude::*;

use crate::domain::{RepoRecordV, WorktreeRecordV};
use crate::error::AppError;
use crate::resolver::ResolvedWorktree;
use crate::text::str_eq;

verus! {

/// What a push did.
#[derive(Debug, PartialEq, Eq)]
pub struct PushOutcome {
    pub repo: String,
    pub target: String,
    pub branch: String,
    pub upstream: String,
    pub upstream_set: bool,
    pub path: String,
}

pub open spec fn spec_push_message(branch: Seq<char>, upstream: Seq<char>, upstream_set: bool) -> Seq<char> {
    if upstream_set {
        "pushed `"@ + branch + "` to `"@ + upstream + "` and set upstream\n"@
    } else {
        "pushed `"@ + branch + "` to `"@ + upstream + "`\n"@
    }
}

impl PushOutcome {
    /// What the user is told.
    pub fn message(&self) -> (r: String)
        ensures
            r@ == spec_push_message(self.branch@, self.upstream@, self.upstream_set),
    {
        let mut s = "pushed `".to_owned();
        s.append(self.branch.as_str());
        s.append("` to `");
        s.append(self.upstream.as_str());
        if self.upstream_set {
            s.append("` and set upstream\n");
        } else {
            s.append("`\n");
        }
        s
    }
}

/// The answers git gave so far about the worktree being pushed.
#[derive(Debug, PartialEq, Eq)]
pub struct PushAnswers {
    /// `git branch --show-current`: the branch, none when detached.
    pub branch: Option<Option<String>>,
    /// The branch's upstream, none when it has none.
    pub upstream: Option<Option<String>>,
    /// Whether the push ran and succeeded.
    pub pushed: bool,
}

impl PushAnswers {
    pub fn new() -> (r: Self)
        ensures
            r.branch is None,
            r.upstream is None,
            !r.pushed,
    {
        PushAnswers { branch: None, upstream: None, pushed: false }
    }
}

/// The next step of a push.
#[derive(Debug, PartialEq, Eq)]
pub enum PushStep {
    /// Ask `git branch --show-current` in `path`.
    CurrentBranch { path: String },
    /// Ask for the upstream of `branch` in `path`.
    Upstream { path: String, branch: String },
    /// Run `git push` in `path`.
    Push { path: String },
    /// Run `git push -u remote branch` in `path`.
    PushWithUpstream { path: String, remote: String, branch: String },
    /// The push is over.
    Done(Result<PushOutcome, AppError>),
}

pub open spec fn detached_message(target: Seq<char>, path: Seq<char>, alias: Seq<char>) -> Seq<char> {
    "target `"@ + target + "` is detached; choose a branch to push first\nfix: run `git -C "@ + path
        + " checkout <branch>`\nthen: run `workroot push "@ + alias + " "@ + target + "`"@
}

pub open spec fn base_message(target: Seq<char>, base: Seq<char>, alias: Seq<char>) -> Seq<char> {
    "target `"@ + target + "` is the base branch `"@ + base
        + "`; push feature worktrees instead\nfix: create one with `workroot new "@ + alias
        + " <worktree>`\nthen: run `workroot push "@ + alias + " <worktree>`"@
}

/// What the next step of a push is, in the terms of views.
pub enum PushStepV {
    CurrentBranch { path: Seq<char> },
    Upstream { path: Seq<char>, branch: Seq<char> },
    Push { path: Seq<char> },
    PushWithUpstream { path: Seq<char>, remote: Seq<char>, branch: Seq<char> },
    Pushed { repo: Seq<char>, target: Seq<char>, branch: Seq<char>, upstream: Seq<char>, upstream_set: bool, path: Seq<char> },
    Refused(Seq<char>),
}

pub open spec fn step_is(s: PushStep, v: PushStepV) -> bool {
    match v {
        PushStepV::CurrentBranch { path } => s matches PushStep::CurrentBranch { path: p } && p@ == path,
        PushStepV::Upstream { path, branch } => s matches PushStep::Upstream { path: p, branch: b } && p@ == path && b@
            == branch,
        PushStepV::Push { path } => s matches PushStep::Push { path: p } && p@ == path,
        PushStepV::PushWithUpstream { path, remote, branch } => s matches PushStep::PushWithUpstream {
            path: p,
            remote: m,
            branch: b,
        } && p@ == path && m@ == remote && b@ == branch,
        PushStepV::Pushed { repo, target, branch, upstream, upstream_set, path } => s matches PushStep::Done(Ok(o))
            && o.repo@ == repo && o.target@ == target && o.branch@ == branch && o.upstream@ == upstream
            && o.upstream_set == upstream_set && o.path@ == path,
        PushStepV::Refused(m) => s matches PushStep::Done(Err(AppError::InvalidCommand(x))) && x@ == m,
    }
}

pub open spec fn opt2(o: Option<Option<String>>) -> Option<Option<Seq<char>>> {
    match o {
        Some(Some(s)) => Some(Some(s@)),
        Some(None) => Some(None),
        None => None,
    }
}

/// The next step of pushing worktree `w` of `repo` at `path`: a detached
/// worktree or the base branch is refused; otherwise the branch is pushed,
/// setting `origin/<branch>` as its upstream when it has none.
pub open spec fn spec_push_next(
    repo: RepoRecordV,
    w: WorktreeRecordV,
    path: Seq<char>,
    branch: Option<Option<Seq<char>>>,
    upstream: Option<Option<Seq<char>>>,
    pushed: bool,
) -> PushStepV {
    if w.detached {
        PushStepV::Refused(detached_message(w.target, path, repo.alias))
    } else {
        match branch {
            None => PushStepV::CurrentBranch { path },
            Some(None) => PushStepV::Refused(detached_message(w.target, path, repo.alias)),
            Some(Some(b)) => if w.target == "base"@ || repo.base_branch == Some(b) {
                PushStepV::Refused(
                    base_message(
                        w.target,
                        match repo.base_branch {
                            Some(x) => x,
                            None => b,
                        },
                        repo.alias,
                    ),
                )
            } else {
                match upstream {
                    None => PushStepV::Upstream { path, branch: b },
                    Some(Some(u)) => if pushed {
                        PushStepV::Pushed { repo: repo.alias, target: w.target, branch: b, upstream: u, upstream_set: false, path }
                    } else {
                        PushStepV::Push { path }
                    },
                    Some(None) => if pushed {
                        PushStepV::Pushed {
                            repo: repo.alias,
                            target: w.target,
                            branch: b,
                            upstream: "origin/"@ + b,
                            upstream_set: true,
                            path,
                        }
                    } else {
                        PushStepV::PushWithUpstream { path, remote: "origin"@, branch: b }
                    },
                }
            },
        }
    }
}

/// The next step of pushing the resolved worktree, given the answers so far.
pub fn push_next(resolved: &ResolvedWorktree, a: &PushAnswers) -> (r: PushStep)
    ensures
        step_is(
            r,
            spec_push_next(resolved.repo@, resolved.worktree@, resolved.path@, opt2(a.branch), opt2(a.upstream), a.pushed),
        ),
{
    let repo = &resolved.repo;
    let w = &resolved.worktree;
    let path = &resolved.path;
    let detached = || -> (m: String)
        ensures
            m@ == detached_message(w.target@, path@, repo.alias@),
    {
        let mut m = "target `".to_owned();
        m.append(w.target.as_str());
        m.append("` is detached; choose a branch to push first\nfix: run `git -C ");
        m.append(path.as_str());
        m.append(" checkout <branch>`\nthen: run `workroot push ");
        m.append(repo.alias.as_str());
        m.append(" ");
        m.append(w.target.as_str());
        m.append("`");
        m
    };
    if w.detached {
        return PushStep::Done(Err(AppError::InvalidCommand(detached())));
    }
    let b = match &a.branch {
        None => return PushStep::CurrentBranch { path: path.clone() },
        Some(None) => return PushStep::Done(Err(AppError::InvalidCommand(detached()))),
        Some(Some(b)) => b,
    };
    let is_base = match &repo.base_branch {
        Some(x) => str_eq(x.as_str(), b.as_str()),
        None => false,
    };
    if str_eq(w.target.as_str(), "base") || is_base {
        let base = match &repo.base_branch {
            Some(x) => x.clone(),
            None => b.clone(),
        };
        let mut m = "target `".to_owned();
        m.append(w.target.as_str());
        m.append("` is the base branch `");
        m.append(base.as_str());
        m.append("`; push feature worktrees instead\nfix: create one with `workroot new ");
        m.append(repo.alias.as_str());
        m.append(" <worktree>`\nthen: run `workroot push ");
        m.append(repo.alias.as_str());
        m.append(" <worktree>`");
        return PushStep::Done(Err(AppError::InvalidCommand(m)));
    }
    match &a.upstream {
        None => PushStep::Upstream { path: path.clone(), branch: b.clone() },
        Some(Some(u)) => if a.pushed {
            PushStep::Done(
                Ok(
                    PushOutcome {
                        repo: repo.alias.clone(),
                        target: w.target.clone(),
                        branch: b.clone(),
                        upstream: u.clone(),
                        upstream_set: false,
                        path: path.clone(),
                    },
                ),
            )
        } else {
            PushStep::Push { path: path.clone() }
        },
        Some(None) => if a.pushed {
            let mut upstream = "origin/".to_owned();
            upstream.append(b.as_str());
            PushStep::Done(
                Ok(
                    PushOutcome {
                        repo: repo.alias.clone(),
                        target: w.target.clone(),
                        branch: b.clone(),
                        upstream,
                        upstream_set: true,
                        path: path.clone(),
                    },
                ),
            )
        } else {
            PushStep::PushWithUpstream { path: path.clone(), remote: "origin".to_owned(), branch: b.clone() }
        },
    }
}

/// Push refuses a detached worktree and one on the base branch before any
/// push step: a worktree that is detached, or that git reports on no
/// branch, is refused with the message asking for a branch to push; the
/// `base` target, or a worktree on the repo's base branch, with the message
/// naming the base branch and suggesting `workroot new`.  A push step is
/// asked only for a named branch that is neither.
pub proof fn lemma_push_refuses_detached_and_base(
    repo: RepoRecordV,
    w: WorktreeRecordV,
    path: Seq<char>,
    branch: Option<Option<Seq<char>>>,
    upstream: Option<Option<Seq<char>>>,
    pushed: bool,
)
    ensures
        (w.detached || branch == Some(None::<Seq<char>>)) ==> spec_push_next(repo, w, path, branch, upstream, pushed)
            == PushStepV::Refused(detached_message(w.target, path, repo.alias)),
        !w.detached ==> (branch matches Some(Some(b)) ==> ((w.target == "base"@ || repo.base_branch == Some(b)) ==> spec_push_next(
            repo,
            w,
            path,
            branch,
            upstream,
            pushed,
        ) == PushStepV::Refused(
            base_message(
                w.target,
                match repo.base_branch {
                    Some(x) => x,
                    None => b,
                },
                repo.alias,
            ),
        ))),
        (spec_push_next(repo, w, path, branch, upstream, pushed) is Push || spec_push_next(
            repo,
            w,
            path,
            branch,
            upstream,
            pushed,
        ) is PushWithUpstream) ==> !w.detached && (branch matches Some(Some(b)) && w.target != "base"@
            && repo.base_branch != Some(b)),
{
}

} // verus!
