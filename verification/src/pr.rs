//! Opening a pull request for a worktree's pushed branch with `gh`.

use vstd::prelude::*;

use crate::domain::{RepoRecordV, WorktreeRecordV};
use crate::error::AppError;
use crate::push::opt2;
use crate::resolver::ResolvedWorktree;
use crate::text::{trim, trimmed};

verus! {

/// How `gh pr create` went: it could not be run, it failed with this
/// error output, or it succeeded with this output.
#[derive(Debug, PartialEq, Eq)]
pub enum GhOutcome {
    Missing,
    Failed(String),
    Created(String),
}

/// The answers gathered so far about the worktree.
#[derive(Debug, PartialEq, Eq)]
pub struct PrAnswers {
    pub branch: Option<Option<String>>,
    pub upstream: Option<Option<String>>,
    pub gh: Option<GhOutcome>,
}

impl PrAnswers {
    pub fn new() -> (r: Self)
        ensures
            r.branch is None,
            r.upstream is None,
            r.gh is None,
    {
        PrAnswers { branch: None, upstream: None, gh: None }
    }
}

/// The next step of opening a pull request.
#[derive(Debug, PartialEq, Eq)]
pub enum PrStep {
    /// Ask `git branch --show-current` in `path`.
    CurrentBranch { path: String },
    /// Ask for the upstream of `branch` in `path`.
    Upstream { path: String, branch: String },
    /// Run `gh pr create --base base --head head` in `path`.
    Create { path: String, base: String, head: String },
    /// Over: what to print, or the error.
    Done(Result<String, AppError>),
}

pub enum PrStepV {
    CurrentBranch { path: Seq<char> },
    Upstream { path: Seq<char>, branch: Seq<char> },
    Create { path: Seq<char>, base: Seq<char>, head: Seq<char> },
    Printed(Seq<char>),
    Refused(Seq<char>),
    GhMissing,
    GhFailed(Seq<char>),
}

pub open spec fn pr_step_is(s: PrStep, v: PrStepV) -> bool {
    match v {
        PrStepV::CurrentBranch { path } => s matches PrStep::CurrentBranch { path: p } && p@ == path,
        PrStepV::Upstream { path, branch } => s matches PrStep::Upstream { path: p, branch: b } && p@ == path && b@
            == branch,
        PrStepV::Create { path, base, head } => s matches PrStep::Create { path: p, base: b, head: h } && p@ == path
            && b@ == base && h@ == head,
        PrStepV::Printed(t) => s matches PrStep::Done(Ok(x)) && x@ == t,
        PrStepV::Refused(m) => s matches PrStep::Done(Err(AppError::InvalidCommand(x))) && x@ == m,
        PrStepV::GhMissing => s matches PrStep::Done(Err(AppError::MissingDependency { name })) && name@ == "gh"@,
        PrStepV::GhFailed(m) => s matches PrStep::Done(Err(AppError::CommandFailed(x))) && x@ == m,
    }
}

pub enum GhV {
    Missing,
    Failed(Seq<char>),
    Created(Seq<char>),
}

pub open spec fn gh_view(o: Option<GhOutcome>) -> Option<GhV> {
    match o {
        None => None,
        Some(GhOutcome::Missing) => Some(GhV::Missing),
        Some(GhOutcome::Failed(e)) => Some(GhV::Failed(e@)),
        Some(GhOutcome::Created(out)) => Some(GhV::Created(out@)),
    }
}

pub open spec fn pr_detached_message(t: Seq<char>, a: Seq<char>) -> Seq<char> {
    "target `"@ + t + "` is detached; create a branch first\nfix: run `workroot switch "@ + a + " "@ + t
        + " -c <branch>`\nthen: run `workroot push "@ + a + " "@ + t + "`\nthen: run `workroot pr "@ + a + " "@ + t
        + "`"@
}

pub open spec fn pr_no_branch_message(t: Seq<char>, a: Seq<char>) -> Seq<char> {
    "target `"@ + t + "` is detached; create a branch first\nfix: run `workroot switch "@ + a + " "@ + t
        + " -c <branch>`"@
}

pub open spec fn pr_no_upstream_message(b: Seq<char>, a: Seq<char>, t: Seq<char>) -> Seq<char> {
    "branch `"@ + b + "` has no upstream\nfix: run `workroot push "@ + a + " "@ + t + "` first"@
}

/// The next step of opening a pull request for worktree `w` of `repo` at
/// `path`: a detached worktree, or a branch without an upstream, is
/// refused; otherwise `gh` opens the pull request against the repo's base
/// branch (`main` when none is known), and its output is printed.
pub open spec fn spec_pr_next(
    repo: RepoRecordV,
    w: WorktreeRecordV,
    path: Seq<char>,
    branch: Option<Option<Seq<char>>>,
    upstream: Option<Option<Seq<char>>>,
    gh: Option<GhV>,
) -> PrStepV {
    if w.detached {
        PrStepV::Refused(pr_detached_message(w.target, repo.alias))
    } else {
        match branch {
            None => PrStepV::CurrentBranch { path },
            Some(None) => PrStepV::Refused(pr_no_branch_message(w.target, repo.alias)),
            Some(Some(b)) => match upstream {
                None => PrStepV::Upstream { path, branch: b },
                Some(None) => PrStepV::Refused(pr_no_upstream_message(b, repo.alias, w.target)),
                Some(Some(_)) => match gh {
                    None => PrStepV::Create {
                        path,
                        base: match repo.base_branch {
                            Some(x) => x,
                            None => "main"@,
                        },
                        head: b,
                    },
                    Some(GhV::Missing) => PrStepV::GhMissing,
                    Some(GhV::Failed(e)) => PrStepV::GhFailed(
                        if trim(e).len() == 0 {
                            "gh pr create"@
                        } else {
                            trim(e)
                        },
                    ),
                    Some(GhV::Created(out)) => PrStepV::Printed(
                        if trim(out).len() == 0 {
                            "created PR for `"@ + b + "`\n"@
                        } else {
                            trim(out) + "\n"@
                        },
                    ),
                },
            },
        }
    }
}

/// The next step of opening a pull request, given the answers so far.
pub fn pr_next(resolved: &ResolvedWorktree, a: &PrAnswers) -> (r: PrStep)
    ensures
        pr_step_is(
            r,
            spec_pr_next(resolved.repo@, resolved.worktree@, resolved.path@, opt2(a.branch), opt2(a.upstream), gh_view(a.gh)),
        ),
{
    let repo = &resolved.repo;
    let w = &resolved.worktree;
    let path = &resolved.path;
    if w.detached {
        let mut m = "target `".to_owned();
        m.append(w.target.as_str());
        m.append("` is detached; create a branch first\nfix: run `workroot switch ");
        m.append(repo.alias.as_str());
        m.append(" ");
        m.append(w.target.as_str());
        m.append(" -c <branch>`\nthen: run `workroot push ");
        m.append(repo.alias.as_str());
        m.append(" ");
        m.append(w.target.as_str());
        m.append("`\nthen: run `workroot pr ");
        m.append(repo.alias.as_str());
        m.append(" ");
        m.append(w.target.as_str());
        m.append("`");
        return PrStep::Done(Err(AppError::InvalidCommand(m)));
    }
    let b = match &a.branch {
        None => return PrStep::CurrentBranch { path: path.clone() },
        Some(None) => {
            let mut m = "target `".to_owned();
            m.append(w.target.as_str());
            m.append("` is detached; create a branch first\nfix: run `workroot switch ");
            m.append(repo.alias.as_str());
            m.append(" ");
            m.append(w.target.as_str());
            m.append(" -c <branch>`");
            return PrStep::Done(Err(AppError::InvalidCommand(m)));
        },
        Some(Some(b)) => b,
    };
    match &a.upstream {
        None => return PrStep::Upstream { path: path.clone(), branch: b.clone() },
        Some(None) => {
            let mut m = "branch `".to_owned();
            m.append(b.as_str());
            m.append("` has no upstream\nfix: run `workroot push ");
            m.append(repo.alias.as_str());
            m.append(" ");
            m.append(w.target.as_str());
            m.append("` first");
            return PrStep::Done(Err(AppError::InvalidCommand(m)));
        },
        Some(Some(_)) => {},
    }
    match &a.gh {
        None => {
            let base = match &repo.base_branch {
                Some(x) => x.clone(),
                None => "main".to_owned(),
            };
            PrStep::Create { path: path.clone(), base, head: b.clone() }
        },
        Some(GhOutcome::Missing) => PrStep::Done(Err(AppError::MissingDependency { name: "gh".to_owned() })),
        Some(GhOutcome::Failed(e)) => {
            let t = trimmed(e.as_str());
            if t.as_str().is_empty() {
                PrStep::Done(Err(AppError::CommandFailed("gh pr create".to_owned())))
            } else {
                PrStep::Done(Err(AppError::CommandFailed(t)))
            }
        },
        Some(GhOutcome::Created(out)) => {
            let t = trimmed(out.as_str());
            if t.as_str().is_empty() {
                let mut m = "created PR for `".to_owned();
                m.append(b.as_str());
                m.append("`\n");
                PrStep::Done(Ok(m))
            } else {
                let mut m = t;
                m.append("\n");
                PrStep::Done(Ok(m))
            }
        },
    }
}

/// Opening a pull request refuses a detached worktree, one git reports on
/// no branch, and a branch without an upstream, before `gh pr create` is
/// asked for; `gh` is asked only for a named branch with an upstream, and
/// against the repo's base branch (`main` when none is known).
pub proof fn lemma_pr_refuses_before_create(
    repo: RepoRecordV,
    w: WorktreeRecordV,
    path: Seq<char>,
    branch: Option<Option<Seq<char>>>,
    upstream: Option<Option<Seq<char>>>,
    gh: Option<GhV>,
)
    ensures
        w.detached ==> spec_pr_next(repo, w, path, branch, upstream, gh) == PrStepV::Refused(
            pr_detached_message(w.target, repo.alias),
        ),
        !w.detached && branch == Some(None::<Seq<char>>) ==> spec_pr_next(repo, w, path, branch, upstream, gh)
            == PrStepV::Refused(pr_no_branch_message(w.target, repo.alias)),
        !w.detached ==> (branch matches Some(Some(b)) ==> (upstream == Some(None::<Seq<char>>) ==> spec_pr_next(
            repo,
            w,
            path,
            branch,
            upstream,
            gh,
        ) == PrStepV::Refused(pr_no_upstream_message(b, repo.alias, w.target)))),
        spec_pr_next(repo, w, path, branch, upstream, gh) matches PrStepV::Create { path: p, base, head } ==> !w.detached
            && branch == Some(Some(head)) && (upstream matches Some(Some(_))) && p == path && base == (match repo.base_branch {
            Some(x) => x,
            None => "main"@,
        }),
{
}

} // verus!
