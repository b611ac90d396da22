//! Creating a worktree: where it goes, which base branch it starts from,
//! bringing that base up to date first, and what is refused.

use vstd::prelude::*;

use crate::domain::{repo_views, Cache, Config, RepoConfig, RepoRecord, RepoRecordV};
use crate::resolver::{repo_error_is, spec_resolve_repo, Resolver};
use crate::error::{spec_message, AppError};
use crate::facts::PathFacts;
use crate::git::{entry_views, opt_view, EntryView, GitWorktreeEntry};
use crate::push::opt2;
use crate::paths::{join_path, path_join, path_same, same_path};
use crate::text::str_eq;

verus! {

/// The configured base branch of repo `alias`: that of the first entry
/// with that alias.
pub open spec fn configured_base(repos: Seq<(String, RepoConfig)>, alias: Seq<char>) -> Option<Seq<char>>
    decreases repos.len(),
{
    if repos.len() == 0 {
        None
    } else if repos[0].0@ == alias {
        opt_view(repos[0].1.base_branch)
    } else {
        configured_base(repos.drop_first(), alias)
    }
}

fn find_configured_base(repos: &Vec<(String, RepoConfig)>, alias: &str) -> (r: Option<String>)
    ensures
        opt_view(r) == configured_base(repos@, alias@),
{
    let mut i: usize = 0;
    assert(repos@.skip(0) =~= repos@);
    while i < repos.len()
        invariant
            i <= repos@.len(),
            configured_base(repos@, alias@) == configured_base(repos@.skip(i as int), alias@),
        decreases repos@.len() - i,
    {
        assert(repos@.skip(i as int)[0] == repos@[i as int]);
        if str_eq(repos[i].0.as_str(), alias) {
            return crate::domain::copy_opt_string(&repos[i].1.base_branch);
        }
        assert(repos@.skip(i as int).drop_first() =~= repos@.skip(i + 1));
        i = i + 1;
    }
    None
}

/// Where new worktrees go: the configured root, else `~/.worktrees`.
pub open spec fn spec_worktree_root(configured: Option<Seq<char>>, home: Option<Seq<char>>) -> Option<Seq<char>> {
    match configured {
        Some(r) => Some(r),
        None => match home {
            Some(h) => Some(path_join(h, ".worktrees"@)),
            None => None,
        },
    }
}

/// Where new worktrees go; fails without a configured root or a home.
pub fn default_worktree_root(config: &Config, home: Option<&str>) -> (r: Result<String, AppError>)
    ensures
        match spec_worktree_root(opt_view(config.default_worktree_root), match home {
            Some(h) => Some(h@),
            None => None,
        }) {
            Some(p) => r matches Ok(x) && x@ == p,
            None => r matches Err(AppError::MissingHome),
        },
{
    match &config.default_worktree_root {
        Some(r) => Ok(r.clone()),
        None => match home {
            Some(h) => Ok(join_path(h, ".worktrees")),
            None => Err(AppError::MissingHome),
        },
    }
}

/// The first entry whose branch is `b`.
pub open spec fn entry_on_branch(es: Seq<EntryView>, b: Seq<char>) -> Option<EntryView>
    decreases es.len(),
{
    if es.len() == 0 {
        None
    } else if es[0].branch == Some(b) {
        Some(es[0])
    } else {
        entry_on_branch(es.drop_first(), b)
    }
}

/// The first entry at path `p`, both taken canonically.
pub open spec fn entry_at(es: Seq<EntryView>, facts: PathFacts, p: Seq<char>) -> Option<EntryView>
    decreases es.len(),
{
    if es.len() == 0 {
        None
    } else if path_same(facts.canon(es[0].path), facts.canon(p)) {
        Some(es[0])
    } else {
        entry_at(es.drop_first(), facts, p)
    }
}

fn find_entry_on_branch(es: &Vec<GitWorktreeEntry>, b: &str) -> (r: Option<usize>)
    ensures
        match entry_on_branch(entry_views(es@), b@) {
            Some(e) => r matches Some(i) && i < es@.len() && es@[i as int]@ == e,
            None => r is None,
        },
{
    let ghost ev = entry_views(es@);
    let mut i: usize = 0;
    assert(ev.skip(0) =~= ev);
    while i < es.len()
        invariant
            ev == entry_views(es@),
            i <= es@.len(),
            entry_on_branch(ev, b@) == entry_on_branch(ev.skip(i as int), b@),
        decreases es@.len() - i,
    {
        assert(ev.skip(i as int)[0] == es@[i as int]@);
        let hit = match &es[i].branch {
            Some(x) => str_eq(x.as_str(), b),
            None => false,
        };
        if hit {
            return Some(i);
        }
        assert(ev.skip(i as int).drop_first() =~= ev.skip(i + 1));
        i = i + 1;
    }
    None
}

fn find_entry_at(es: &Vec<GitWorktreeEntry>, facts: &PathFacts, p: &str) -> (r: Option<usize>)
    ensures
        match entry_at(entry_views(es@), *facts, p@) {
            Some(e) => r matches Some(i) && i < es@.len() && es@[i as int]@ == e,
            None => r is None,
        },
{
    let ghost ev = entry_views(es@);
    let cp = facts.canonical_of(p);
    let mut i: usize = 0;
    assert(ev.skip(0) =~= ev);
    while i < es.len()
        invariant
            ev == entry_views(es@),
            cp@ == facts.canon(p@),
            i <= es@.len(),
            entry_at(ev, *facts, p@) == entry_at(ev.skip(i as int), *facts, p@),
        decreases es@.len() - i,
    {
        assert(ev.skip(i as int)[0] == es@[i as int]@);
        let c = facts.canonical_of(es[i].path.as_str());
        if same_path(c.as_str(), cp.as_str()) {
            return Some(i);
        }
        assert(ev.skip(i as int).drop_first() =~= ev.skip(i + 1));
        i = i + 1;
    }
    None
}

/// What is known so far about creating worktree `name` of a repo; a field
/// is absent until its question was asked.
#[derive(Debug, PartialEq, Eq)]
pub struct NewAnswers {
    /// `git worktree list` of the repo.
    pub family: Option<Vec<GitWorktreeEntry>>,
    /// The git common directory at the target path, when it is a repo.
    pub target_common_dir: Option<Option<String>>,
    /// The remote's default branch, when it names one.
    pub remote_default: Option<Option<String>>,
    /// Whether `main`, `master` and `trunk` exist, as far as asked.
    pub base_exists: Vec<bool>,
    /// The base checkout's branch, asked while inferring the base.
    pub inferred_current: Option<Option<String>>,
    /// The base branch's upstream.
    pub upstream: Option<Option<String>>,
    /// The URL of `origin`.
    pub origin: Option<Option<String>>,
    /// The base checkout's branch, asked before bringing it up to date.
    pub current: Option<Option<String>>,
    /// Whether the base checkout has uncommitted changes.
    pub dirty: Option<bool>,
    /// How the fast-forward went: `None` when it succeeded.
    pub pulled: Option<Option<AppError>>,
    /// Whether the worktree root's directory was made.
    pub dir_ready: bool,
    /// Whether branch `name` exists.
    pub name_exists: Option<bool>,
    /// Whether branch `name` was created from the base.
    pub branch_created: bool,
    /// Whether adding the worktree succeeded (`None` when it has not run).
    pub added: Option<bool>,
}

impl NewAnswers {
    pub fn new() -> (r: Self)
        ensures
            r.family is None,
            r.target_common_dir is None,
            r.remote_default is None,
            r.base_exists@.len() == 0,
            r.inferred_current is None,
            r.upstream is None,
            r.origin is None,
            r.current is None,
            r.dirty is None,
            r.pulled is None,
            !r.dir_ready,
            r.name_exists is None,
            !r.branch_created,
            r.added is None,
    {
        NewAnswers {
            family: None,
            target_common_dir: None,
            remote_default: None,
            base_exists: Vec::new(),
            inferred_current: None,
            upstream: None,
            origin: None,
            current: None,
            dirty: None,
            pulled: None,
            dir_ready: false,
            name_exists: None,
            branch_created: false,
            added: None,
        }
    }
}

/// The next step of creating a worktree.
#[derive(Debug, PartialEq, Eq)]
pub enum NewStep {
    /// Ask `git worktree list --porcelain` in `path`.
    ListWorktrees { path: String },
    /// Ask for the git common directory at `path`, if it is a repo.
    VerifyTarget { path: String },
    /// Ask for the remote's default branch in `path`.
    RemoteDefault { path: String },
    /// Ask whether the candidate base `branch` exists in `path`.
    BaseExists { path: String, branch: String },
    /// Ask whether the new worktree's `branch` exists in `path`.
    NameExists { path: String, branch: String },
    /// Ask `git branch --show-current` in `path`, to take the base from
    /// the base checkout's branch.
    BaseFromCheckout { path: String },
    /// Ask `git branch --show-current` in `path`, before bringing the base
    /// up to date.
    CheckoutBranch { path: String },
    /// Ask for the upstream of `branch` in `path`.
    Upstream { path: String, branch: String },
    /// Ask for the URL of `remote` in `path`.
    RemoteUrl { path: String, remote: String },
    /// Ask whether `path` has uncommitted changes.
    IsDirty { path: String },
    /// Run `git pull --ff-only` in `path`.
    Pull { path: String },
    /// Run `git pull --ff-only remote branch` in `path`.
    PullFrom { path: String, remote: String, branch: String },
    /// Make the directory that will hold `path`, and its parents.
    CreateParent { path: String },
    /// Run `git branch branch base` in `path`.
    CreateBranch { path: String, branch: String, base: String },
    /// Run `git worktree add target branch` in `repo_path`.
    AddWorktree { repo_path: String, target: String, branch: String },
    /// Adding failed: delete `branch` in `path` when `delete_branch` (it
    /// was just created), then fail with the error adding gave.
    AddFailed { path: String, branch: String, delete_branch: bool },
    /// Done: rediscover the family at `repo_path`, then print `output`.
    Refresh { repo_path: String, output: String },
    /// Refused or failed.
    Fail(AppError),
}


pub enum NewStepV {
    ListWorktrees { path: Seq<char> },
    VerifyTarget { path: Seq<char> },
    RemoteDefault { path: Seq<char> },
    BaseExists { path: Seq<char>, branch: Seq<char> },
    NameExists { path: Seq<char>, branch: Seq<char> },
    BaseFromCheckout { path: Seq<char> },
    CheckoutBranch { path: Seq<char> },
    Upstream { path: Seq<char>, branch: Seq<char> },
    RemoteUrl { path: Seq<char>, remote: Seq<char> },
    IsDirty { path: Seq<char> },
    Pull { path: Seq<char> },
    PullFrom { path: Seq<char>, remote: Seq<char>, branch: Seq<char> },
    CreateParent { path: Seq<char> },
    CreateBranch { path: Seq<char>, branch: Seq<char>, base: Seq<char> },
    AddWorktree { repo_path: Seq<char>, target: Seq<char>, branch: Seq<char> },
    AddFailed { path: Seq<char>, branch: Seq<char>, delete_branch: bool },
    Refresh { repo_path: Seq<char>, output: Seq<char> },
    Refused(Seq<char>),
    GitError(Seq<char>),
}

pub open spec fn new_step_is(s: NewStep, v: NewStepV) -> bool {
    match v {
        NewStepV::ListWorktrees { path } => s matches NewStep::ListWorktrees { path: p } && p@ == path,
        NewStepV::VerifyTarget { path } => s matches NewStep::VerifyTarget { path: p } && p@ == path,
        NewStepV::RemoteDefault { path } => s matches NewStep::RemoteDefault { path: p } && p@ == path,
        NewStepV::BaseExists { path, branch } => s matches NewStep::BaseExists { path: p, branch: b } && p@ == path
            && b@ == branch,
        NewStepV::NameExists { path, branch } => s matches NewStep::NameExists { path: p, branch: b } && p@ == path
            && b@ == branch,
        NewStepV::BaseFromCheckout { path } => s matches NewStep::BaseFromCheckout { path: p } && p@ == path,
        NewStepV::CheckoutBranch { path } => s matches NewStep::CheckoutBranch { path: p } && p@ == path,
        NewStepV::Upstream { path, branch } => s matches NewStep::Upstream { path: p, branch: b } && p@ == path && b@
            == branch,
        NewStepV::RemoteUrl { path, remote } => s matches NewStep::RemoteUrl { path: p, remote: r } && p@ == path && r@
            == remote,
        NewStepV::IsDirty { path } => s matches NewStep::IsDirty { path: p } && p@ == path,
        NewStepV::Pull { path } => s matches NewStep::Pull { path: p } && p@ == path,
        NewStepV::PullFrom { path, remote, branch } => s matches NewStep::PullFrom { path: p, remote: r, branch: b }
            && p@ == path && r@ == remote && b@ == branch,
        NewStepV::CreateParent { path } => s matches NewStep::CreateParent { path: p } && p@ == path,
        NewStepV::CreateBranch { path, branch, base } => s matches NewStep::CreateBranch { path: p, branch: b, base: x }
            && p@ == path && b@ == branch && x@ == base,
        NewStepV::AddWorktree { repo_path, target, branch } => s matches NewStep::AddWorktree {
            repo_path: p,
            target: t,
            branch: b,
        } && p@ == repo_path && t@ == target && b@ == branch,
        NewStepV::AddFailed { path, branch, delete_branch } => s matches NewStep::AddFailed {
            path: p,
            branch: b,
            delete_branch: d,
        } && p@ == path && b@ == branch && d == delete_branch,
        NewStepV::Refresh { repo_path, output } => s matches NewStep::Refresh { repo_path: p, output: o } && p@
            == repo_path && o@ == output,
        NewStepV::Refused(m) => s matches NewStep::Fail(AppError::InvalidCommand(x)) && x@ == m,
        NewStepV::GitError(m) => s matches NewStep::Fail(AppError::Git(x)) && x@ == m,
    }
}

/// The answers in terms of views.
pub struct NewAnswersV {
    pub family: Option<Seq<EntryView>>,
    pub target_common_dir: Option<Option<Seq<char>>>,
    pub remote_default: Option<Option<Seq<char>>>,
    pub base_exists: Seq<bool>,
    pub inferred_current: Option<Option<Seq<char>>>,
    pub upstream: Option<Option<Seq<char>>>,
    pub origin: Option<Option<Seq<char>>>,
    pub current: Option<Option<Seq<char>>>,
    pub dirty: Option<bool>,
    pub pulled: Option<Option<AppError>>,
    pub dir_ready: bool,
    pub name_exists: Option<bool>,
    pub branch_created: bool,
    pub added: Option<bool>,
}

pub open spec fn new_answers_view(a: NewAnswers) -> NewAnswersV {
    NewAnswersV {
        family: match a.family {
            Some(v) => Some(entry_views(v@)),
            None => None,
        },
        target_common_dir: opt2(a.target_common_dir),
        remote_default: opt2(a.remote_default),
        base_exists: a.base_exists@,
        inferred_current: opt2(a.inferred_current),
        upstream: opt2(a.upstream),
        origin: opt2(a.origin),
        current: opt2(a.current),
        dirty: a.dirty,
        pulled: a.pulled,
        dir_ready: a.dir_ready,
        name_exists: a.name_exists,
        branch_created: a.branch_created,
        added: a.added,
    }
}

/// The branches tried, in order, as the base when nothing names one.
pub open spec fn base_candidate(i: int) -> Seq<char> {
    if i == 0 {
        "main"@
    } else if i == 1 {
        "master"@
    } else {
        "trunk"@
    }
}

/// The first of the branches tried that exists, as far as answered.
pub open spec fn first_existing(xs: Seq<bool>) -> Option<int>
    decreases xs.len(),
{
    if xs.len() == 0 {
        None
    } else if xs[0] {
        Some(0)
    } else {
        match first_existing(xs.drop_first()) {
            Some(i) => Some(i + 1),
            None => None,
        }
    }
}

/// The base branch: the configured one, else the remote's default, else
/// the first of `main`, `master`, `trunk` that exists, else the branch the
/// base checkout is on.  `Err` carries the next question, or none when no
/// base can be inferred.
pub open spec fn spec_infer_base(r: RepoRecordV, configured: Option<Seq<char>>, a: NewAnswersV) -> Result<Seq<char>, Option<NewStepV>> {
    match configured {
        Some(b) => Ok(b),
        None => match a.remote_default {
            None => Err(Some(NewStepV::RemoteDefault { path: r.canonical_path })),
            Some(Some(b)) => Ok(b),
            Some(None) => match first_existing(a.base_exists) {
                Some(i) => Ok(base_candidate(i)),
                None => if a.base_exists.len() < 3 {
                    Err(Some(NewStepV::BaseExists { path: r.canonical_path, branch: base_candidate(a.base_exists.len() as int) }))
                } else {
                    match a.inferred_current {
                        None => Err(Some(NewStepV::BaseFromCheckout { path: r.canonical_path })),
                        Some(Some(c)) => Ok(c),
                        Some(None) => Err(None),
                    }
                },
            },
        },
    }
}

pub open spec fn not_on_base_message(r: RepoRecordV, current: Seq<char>, base: Seq<char>, name: Seq<char>) -> Seq<char> {
    "base worktree is on `"@ + current + "`, not `"@ + base + "`: "@ + r.canonical_path + "\nfix: run `git -C "@
        + r.canonical_path + " checkout "@ + base + "`\nthen: run `workroot new "@ + r.alias + " "@ + name + "`"@
}

pub open spec fn dirty_base_message(r: RepoRecordV, name: Seq<char>) -> Seq<char> {
    "base worktree has uncommitted changes: "@ + r.canonical_path + "\nfix: run `git -C "@ + r.canonical_path
        + " status --short`, then commit or stash those changes\nthen: run `workroot new "@ + r.alias + " "@ + name
        + "`"@
}

pub open spec fn pull_failed_message(r: RepoRecordV, base: Seq<char>, name: Seq<char>, tracking: bool, cause: Seq<char>) -> Seq<char> {
    let recovery = if tracking {
        "git -C "@ + r.canonical_path + " pull --ff-only"@
    } else {
        "git -C "@ + r.canonical_path + " pull --ff-only origin "@ + base
    };
    "could not fast-forward base branch `"@ + base + "` before creating `"@ + name + "`\nfix: run `"@ + recovery
        + "`\nthen: run `workroot new "@ + r.alias + " "@ + name + "`\ncause: "@ + cause
}

/// The steps after the base is known: bring it up to date when it tracks
/// an upstream or `origin` exists (only from a clean checkout of the base),
/// then make the directory, create the branch from the base when it does
/// not exist, and add the worktree.
pub open spec fn spec_after_base(r: RepoRecordV, base: Seq<char>, name: Seq<char>, target: Seq<char>, a: NewAnswersV) -> NewStepV {
    let rest = if !a.dir_ready {
        NewStepV::CreateParent { path: target }
    } else {
        match a.name_exists {
            None => NewStepV::NameExists { path: r.canonical_path, branch: name },
            Some(exists) => if !exists && !a.branch_created {
                NewStepV::CreateBranch { path: r.canonical_path, branch: name, base }
            } else {
                match a.added {
                    None => NewStepV::AddWorktree { repo_path: r.canonical_path, target, branch: name },
                    Some(true) => NewStepV::Refresh { repo_path: r.canonical_path, output: target + "\n"@ },
                    Some(false) => NewStepV::AddFailed { path: r.canonical_path, branch: name, delete_branch: a.branch_created },
                }
            }
        }
    };
    match a.upstream {
        None => NewStepV::Upstream { path: r.canonical_path, branch: base },
        Some(up) => {
            let ask_origin = up is None && a.origin is None;
            let pull = up is Some || a.origin matches Some(Some(_));
            if ask_origin {
                NewStepV::RemoteUrl { path: r.canonical_path, remote: "origin"@ }
            } else if !pull {
                rest
            } else {
                match a.current {
                    None => NewStepV::CheckoutBranch { path: r.canonical_path },
                    Some(c) => if c != Some(base) {
                        NewStepV::Refused(
                            not_on_base_message(
                                r,
                                match c {
                                    Some(x) => x,
                                    None => "detached HEAD"@,
                                },
                                base,
                                name,
                            ),
                        )
                    } else {
                        match a.dirty {
                            None => NewStepV::IsDirty { path: r.canonical_path },
                            Some(true) => NewStepV::Refused(dirty_base_message(r, name)),
                            Some(false) => match a.pulled {
                                None => if up is Some {
                                    NewStepV::Pull { path: r.canonical_path }
                                } else {
                                    NewStepV::PullFrom { path: r.canonical_path, remote: "origin"@, branch: base }
                                },
                                Some(Some(e)) => NewStepV::GitError(
                                    pull_failed_message(r, base, name, up is Some, spec_message(e)),
                                ),
                                Some(None) => rest,
                            },
                        }
                    }
                }
            }
        },
    }
}

/// The next step of creating worktree `name` of repo `r` under `root`: a
/// branch checked out elsewhere, or a target path that exists and is not
/// that branch's worktree, is refused; a worktree that already exists for
/// the branch at the target path is reported as created.
pub open spec fn spec_new_next(
    r: RepoRecordV,
    configured: Option<Seq<char>>,
    root: Seq<char>,
    name: Seq<char>,
    facts: PathFacts,
    a: NewAnswersV,
) -> NewStepV {
    let target = path_join(path_join(root, r.alias), name);
    match a.family {
        None => NewStepV::ListWorktrees { path: r.canonical_path },
        Some(es) => match entry_on_branch(es, name) {
            Some(e) => if path_same(facts.canon(e.path), facts.canon(target)) {
                NewStepV::Refresh { repo_path: r.canonical_path, output: e.path + "\n"@ }
            } else {
                NewStepV::GitError(
                    "branch `"@ + name + "` is already checked out at "@ + e.path + "; refusing to force"@,
                )
            },
            None => if facts.has_path(target) {
                match entry_at(es, facts, target) {
                    Some(e) => if e.branch == Some(name) {
                        NewStepV::Refresh { repo_path: r.canonical_path, output: target + "\n"@ }
                    } else {
                        NewStepV::Refused(
                            "target path exists as worktree for branch `"@ + match e.branch {
                                Some(b) => b,
                                None => "detached"@,
                            } + "`; refusing to report it as `"@ + name + "`"@,
                        )
                    },
                    None => match a.target_common_dir {
                        None => NewStepV::VerifyTarget { path: target },
                        Some(cd) => if cd matches Some(x) && path_same(x, r.git_common_dir) {
                            NewStepV::Refused(
                                "target path exists as a worktree for this repo but is not registered in `git worktree list`: "@
                                    + target,
                            )
                        } else {
                            NewStepV::Refused("target path already exists and is not the expected worktree: "@ + target)
                        },
                    },
                }
            } else {
                match spec_infer_base(r, configured, a) {
                    Ok(base) => spec_after_base(r, base, name, target, a),
                    Err(Some(q)) => q,
                    Err(None) => NewStepV::GitError(
                        "could not infer a base branch; configure a repo base branch before running `workroot new`"@,
                    ),
                }
            }
        },
    }
}


/// The repo a new worktree belongs to and the root it goes under: the
/// repo must resolve and must not be stale.
pub fn prepare_new(cache: &Cache, config: &Config, repo_input: &str, home: Option<&str>) -> (r: Result<(RepoRecord, String), AppError>)
    ensures
        match spec_resolve_repo(repo_views(cache.repos@), repo_input@) {
            Err((code, text)) => r matches Err(e) && repo_error_is(e, code, text, repo_input@),
            Ok(rec) => if rec.stale {
                r matches Err(AppError::StaleWorktree(p)) && p@ == rec.canonical_path
            } else {
                match spec_worktree_root(opt_view(config.default_worktree_root), match home {
                    Some(h) => Some(h@),
                    None => None,
                }) {
                    Some(root) => r matches Ok((x, y)) && x@ == rec && y@ == root,
                    None => r matches Err(AppError::MissingHome),
                }
            },
        },
{
    let resolver = Resolver::new(cache.duplicate());
    let rec = match resolver.resolve_repo(repo_input) {
        Ok(rec) => rec,
        Err(e) => return Err(e),
    };
    if rec.stale {
        return Err(AppError::StaleWorktree(rec.canonical_path));
    }
    match default_worktree_root(config, home) {
        Ok(root) => Ok((rec, root)),
        Err(e) => Err(e),
    }
}

fn candidate_name(i: usize) -> (r: String)
    ensures
        r@ == base_candidate(i as int),
{
    if i == 0 {
        "main".to_owned()
    } else if i == 1 {
        "master".to_owned()
    } else {
        "trunk".to_owned()
    }
}

fn first_true(xs: &Vec<bool>) -> (r: Option<usize>)
    ensures
        match first_existing(xs@) {
            Some(i) => r matches Some(k) && k == i,
            None => r is None,
        },
{
    let mut i: usize = 0;
    assert(xs@.skip(0) =~= xs@);
    while i < xs.len()
        invariant
            i <= xs@.len(),
            forall|j: int| 0 <= j < i ==> !xs@[j],
            first_existing(xs@) == match first_existing(xs@.skip(i as int)) {
                Some(k) => Some(k + i),
                None => None,
            },
        decreases xs@.len() - i,
    {
        assert(xs@.skip(i as int)[0] == xs@[i as int]);
        if xs[i] {
            return Some(i);
        }
        assert(xs@.skip(i as int).drop_first() =~= xs@.skip(i + 1));
        i = i + 1;
    }
    None
}

/// The base branch as far as it can be told from the answers so far.
fn infer_base(r: &RepoRecord, configured: &Option<String>, a: &NewAnswers) -> (res: Result<String, Option<NewStep>>)
    ensures
        match spec_infer_base(r@, opt_view(*configured), new_answers_view(*a)) {
            Ok(b) => res matches Ok(x) && x@ == b,
            Err(None) => res matches Err(None),
            Err(Some(q)) => res matches Err(Some(s)) && new_step_is(s, q),
        },
{
    if let Some(b) = configured {
        return Ok(b.clone());
    }
    match &a.remote_default {
        None => return Err(Some(NewStep::RemoteDefault { path: r.canonical_path.clone() })),
        Some(Some(b)) => return Ok(b.clone()),
        Some(None) => {},
    }
    match first_true(&a.base_exists) {
        Some(i) => return Ok(candidate_name(i)),
        None => {},
    }
    if a.base_exists.len() < 3 {
        return Err(Some(NewStep::BaseExists { path: r.canonical_path.clone(), branch: candidate_name(a.base_exists.len()) }));
    }
    match &a.inferred_current {
        None => Err(Some(NewStep::BaseFromCheckout { path: r.canonical_path.clone() })),
        Some(Some(c)) => Ok(c.clone()),
        Some(None) => Err(None),
    }
}

fn pull_failed_text(r: &RepoRecord, base: &str, name: &str, tracking: bool, cause: &str) -> (m: String)
    ensures
        m@ == pull_failed_message(r@, base@, name@, tracking, cause@),
{
    let mut m = "could not fast-forward base branch `".to_owned();
    m.append(base);
    m.append("` before creating `");
    m.append(name);
    m.append("`\nfix: run `");
    m.append("git -C ");
    m.append(r.canonical_path.as_str());
    if tracking {
        m.append(" pull --ff-only");
    } else {
        m.append(" pull --ff-only origin ");
        m.append(base);
    }
    m.append("`\nthen: run `workroot new ");
    m.append(r.alias.as_str());
    m.append(" ");
    m.append(name);
    m.append("`\ncause: ");
    m.append(cause);
    assert(m@ =~= pull_failed_message(r@, base@, name@, tracking, cause@));
    m
}

fn not_on_base_text(r: &RepoRecord, c: &Option<String>, base: &str, name: &str) -> (m: String)
    ensures
        m@ == not_on_base_message(
            r@,
            match c {
                Some(x) => x@,
                None => "detached HEAD"@,
            },
            base@,
            name@,
        ),
{
    let mut m = "base worktree is on `".to_owned();
    match c {
        Some(x) => m.append(x.as_str()),
        None => m.append("detached HEAD"),
    }
    m.append("`, not `");
    m.append(base);
    m.append("`: ");
    m.append(r.canonical_path.as_str());
    m.append("\nfix: run `git -C ");
    m.append(r.canonical_path.as_str());
    m.append(" checkout ");
    m.append(base);
    m.append("`\nthen: run `workroot new ");
    m.append(r.alias.as_str());
    m.append(" ");
    m.append(name);
    m.append("`");
    m
}

fn dirty_base_text(r: &RepoRecord, name: &str) -> (m: String)
    ensures
        m@ == dirty_base_message(r@, name@),
{
    let mut m = "base worktree has uncommitted changes: ".to_owned();
    m.append(r.canonical_path.as_str());
    m.append("\nfix: run `git -C ");
    m.append(r.canonical_path.as_str());
    m.append(" status --short`, then commit or stash those changes\nthen: run `workroot new ");
    m.append(r.alias.as_str());
    m.append(" ");
    m.append(name);
    m.append("`");
    m
}

fn after_base(r: &RepoRecord, base: &str, name: &str, target: &str, a: &NewAnswers) -> (s: NewStep)
    ensures
        new_step_is(s, spec_after_base(r@, base@, name@, target@, new_answers_view(*a))),
{
    let up = match &a.upstream {
        None => return NewStep::Upstream { path: r.canonical_path.clone(), branch: base.to_owned() },
        Some(up) => up,
    };
    let ask_origin = up.is_none() && a.origin.is_none();
    let pull = up.is_some() || match &a.origin {
        Some(Some(_)) => true,
        _ => false,
    };
    if ask_origin {
        return NewStep::RemoteUrl { path: r.canonical_path.clone(), remote: "origin".to_owned() };
    }
    if pull {
        let c = match &a.current {
            None => return NewStep::CheckoutBranch { path: r.canonical_path.clone() },
            Some(c) => c,
        };
        let on_base = match c {
            Some(x) => str_eq(x.as_str(), base),
            None => false,
        };
        if !on_base {
            return NewStep::Fail(AppError::InvalidCommand(not_on_base_text(r, c, base, name)));
        }
        match a.dirty {
            None => return NewStep::IsDirty { path: r.canonical_path.clone() },
            Some(true) => {
                return NewStep::Fail(AppError::InvalidCommand(dirty_base_text(r, name)));
            },
            Some(false) => {},
        }
        match &a.pulled {
            None => {
                if up.is_some() {
                    return NewStep::Pull { path: r.canonical_path.clone() };
                } else {
                    return NewStep::PullFrom { path: r.canonical_path.clone(), remote: "origin".to_owned(), branch: base.to_owned() };
                }
            },
            Some(Some(e)) => {
                let cause = e.message();
                return NewStep::Fail(AppError::Git(pull_failed_text(r, base, name, up.is_some(), cause.as_str())));
            },
            Some(None) => {},
        }
    }
    if !a.dir_ready {
        return NewStep::CreateParent { path: target.to_owned() };
    }
    let exists = match a.name_exists {
        None => return NewStep::NameExists { path: r.canonical_path.clone(), branch: name.to_owned() },
        Some(x) => x,
    };
    if !exists && !a.branch_created {
        return NewStep::CreateBranch { path: r.canonical_path.clone(), branch: name.to_owned(), base: base.to_owned() };
    }
    match a.added {
        None => NewStep::AddWorktree { repo_path: r.canonical_path.clone(), target: target.to_owned(), branch: name.to_owned() },
        Some(true) => {
            let mut o = target.to_owned();
            o.append("\n");
            NewStep::Refresh { repo_path: r.canonical_path.clone(), output: o }
        },
        Some(false) => NewStep::AddFailed { path: r.canonical_path.clone(), branch: name.to_owned(), delete_branch: a.branch_created },
    }
}

/// The next step of creating worktree `name` of repo `r` under `root`,
/// given the answers so far.
pub fn new_worktree_next(
    config: &Config,
    r: &RepoRecord,
    root: &str,
    name: &str,
    facts: &PathFacts,
    a: &NewAnswers,
) -> (s: NewStep)
    ensures
        new_step_is(s, spec_new_next(r@, configured_base(config.repos@, r@.alias), root@, name@, *facts, new_answers_view(*a))),
{
    let dir = join_path(root, r.alias.as_str());
    let target = join_path(dir.as_str(), name);
    let es = match &a.family {
        None => return NewStep::ListWorktrees { path: r.canonical_path.clone() },
        Some(es) => es,
    };
    match find_entry_on_branch(es, name) {
        Some(k) => {
            let e = &es[k];
            let ec = facts.canonical_of(e.path.as_str());
            let tc = facts.canonical_of(target.as_str());
            if same_path(ec.as_str(), tc.as_str()) {
                let mut o = e.path.clone();
                o.append("\n");
                return NewStep::Refresh { repo_path: r.canonical_path.clone(), output: o };
            }
            let mut m = "branch `".to_owned();
            m.append(name);
            m.append("` is already checked out at ");
            m.append(e.path.as_str());
            m.append("; refusing to force");
            return NewStep::Fail(AppError::Git(m));
        },
        None => {},
    }
    if facts.path_exists(target.as_str()) {
        match find_entry_at(es, facts, target.as_str()) {
            Some(k) => {
                let e = &es[k];
                let on = match &e.branch {
                    Some(b) => str_eq(b.as_str(), name),
                    None => false,
                };
                if on {
                    let mut o = target.clone();
                    o.append("\n");
                    return NewStep::Refresh { repo_path: r.canonical_path.clone(), output: o };
                }
                let mut m = "target path exists as worktree for branch `".to_owned();
                match &e.branch {
                    Some(b) => m.append(b.as_str()),
                    None => m.append("detached"),
                }
                m.append("`; refusing to report it as `");
                m.append(name);
                m.append("`");
                return NewStep::Fail(AppError::InvalidCommand(m));
            },
            None => {},
        }
        match &a.target_common_dir {
            None => return NewStep::VerifyTarget { path: target },
            Some(cd) => {
                let same = match cd {
                    Some(x) => same_path(x.as_str(), r.git_common_dir.as_str()),
                    None => false,
                };
                if same {
                    let mut m = "target path exists as a worktree for this repo but is not registered in `git worktree list`: ".to_owned();
                    m.append(target.as_str());
                    return NewStep::Fail(AppError::InvalidCommand(m));
                }
                let mut m = "target path already exists and is not the expected worktree: ".to_owned();
                m.append(target.as_str());
                return NewStep::Fail(AppError::InvalidCommand(m));
            },
        }
    }
    let configured = find_configured_base(&config.repos, r.alias.as_str());
    match infer_base(r, &configured, a) {
        Ok(base) => after_base(r, base.as_str(), name, target.as_str(), a),
        Err(Some(q)) => q,
        Err(None) => NewStep::Fail(
            AppError::Git("could not infer a base branch; configure a repo base branch before running `workroot new`".to_owned()),
        ),
    }
}

} // verus!
