use workroot::creation::{default_worktree_root, new_worktree_next, prepare_new, NewAnswers, NewStep};
use workroot::domain::{Cache, Config, DirtyState, RepoConfig, RepoRecord, RepoSource, WorktreeRecord, WorktreeSource};
use workroot::error::AppError;
use workroot::facts::PathFacts;
use workroot::git::GitWorktreeEntry;

/// A repository as git would describe it, for driving the steps.
struct FakeGit {
    worktrees: Vec<GitWorktreeEntry>,
    branches: Vec<String>,
    remote_default: Option<String>,
    current: Option<String>,
    upstream: Option<String>,
    origin: Option<String>,
    dirty: bool,
    add_ok: bool,
}

fn fake() -> FakeGit {
    FakeGit {
        worktrees: vec![GitWorktreeEntry {
            path: "/w/repo".to_string(),
            head: Some("abc".to_string()),
            branch: Some("main".to_string()),
            detached: false,
            bare: false,
        }],
        branches: vec!["main".to_string()],
        remote_default: None,
        current: Some("main".to_string()),
        upstream: None,
        origin: None,
        dirty: false,
        add_ok: true,
    }
}

fn repo() -> RepoRecord {
    RepoRecord {
        alias: "repo".to_string(),
        display_name: "repo".to_string(),
        canonical_path: "/w/repo".to_string(),
        git_common_dir: "/w/repo/.git".to_string(),
        base_branch: None,
        source: RepoSource::Adopted,
        stale: false,
    }
}

/// Answers each step as the fake repository would, until the steps end;
/// gives the steps taken.
fn drive(config: &Config, git: &FakeGit, facts: &PathFacts, name: &str) -> Vec<NewStep> {
    let r = repo();
    let mut a = NewAnswers::new();
    let mut steps = Vec::new();
    for _ in 0..40 {
        let step = new_worktree_next(config, &r, "/w/managed", name, facts, &a);
        let done = matches!(step, NewStep::Refresh { .. } | NewStep::Fail(_) | NewStep::AddFailed { .. });
        match &step {
            NewStep::ListWorktrees { .. } => {
                a.family = Some(
                    git.worktrees
                        .iter()
                        .map(|e| GitWorktreeEntry {
                            path: e.path.clone(),
                            head: e.head.clone(),
                            branch: e.branch.clone(),
                            detached: e.detached,
                            bare: e.bare,
                        })
                        .collect(),
                )
            }
            NewStep::VerifyTarget { .. } => a.target_common_dir = Some(None),
            NewStep::RemoteDefault { .. } => a.remote_default = Some(git.remote_default.clone()),
            NewStep::BaseExists { branch, .. } => a.base_exists.push(git.branches.contains(branch)),
            NewStep::NameExists { branch, .. } => a.name_exists = Some(git.branches.contains(branch)),
            NewStep::BaseFromCheckout { .. } => a.inferred_current = Some(git.current.clone()),
            NewStep::CheckoutBranch { .. } => a.current = Some(git.current.clone()),
            NewStep::Upstream { .. } => a.upstream = Some(git.upstream.clone()),
            NewStep::RemoteUrl { .. } => a.origin = Some(git.origin.clone()),
            NewStep::IsDirty { .. } => a.dirty = Some(git.dirty),
            NewStep::Pull { .. } | NewStep::PullFrom { .. } => a.pulled = Some(None),
            NewStep::CreateParent { .. } => a.dir_ready = true,
            NewStep::CreateBranch { .. } => a.branch_created = true,
            NewStep::AddWorktree { .. } => a.added = Some(git.add_ok),
            _ => {}
        }
        steps.push(step);
        if done {
            return steps;
        }
    }
    panic!("the steps did not end: {steps:?}");
}

fn no_paths() -> PathFacts {
    PathFacts { existing: vec!["/w/repo".to_string()], canonical: Vec::new() }
}

#[test]
fn new_creates_branch_and_worktree_under_configured_root() {
    let steps = drive(&Config::default(), &fake(), &no_paths(), "feature");
    assert!(steps.contains(&NewStep::BaseExists { path: "/w/repo".to_string(), branch: "main".to_string() }));
    assert!(steps.contains(&NewStep::CreateParent { path: "/w/managed/repo/feature".to_string() }));
    assert!(steps.contains(&NewStep::CreateBranch {
        path: "/w/repo".to_string(),
        branch: "feature".to_string(),
        base: "main".to_string(),
    }));
    assert!(steps.contains(&NewStep::AddWorktree {
        repo_path: "/w/repo".to_string(),
        target: "/w/managed/repo/feature".to_string(),
        branch: "feature".to_string(),
    }));
    assert_eq!(
        steps.last().unwrap(),
        &NewStep::Refresh { repo_path: "/w/repo".to_string(), output: "/w/managed/repo/feature\n".to_string() }
    );
}

#[test]
fn new_reuses_existing_branch_without_worktree() {
    let mut git = fake();
    git.branches.push("feature".to_string());
    let steps = drive(&Config::default(), &git, &no_paths(), "feature");
    assert!(!steps.iter().any(|s| matches!(s, NewStep::CreateBranch { .. })));
    assert!(matches!(steps.last().unwrap(), NewStep::Refresh { .. }));
}

#[test]
fn new_refuses_branch_checked_out_elsewhere() {
    let mut git = fake();
    git.worktrees.push(GitWorktreeEntry {
        path: "/elsewhere/feature".to_string(),
        head: Some("def".to_string()),
        branch: Some("feature".to_string()),
        detached: false,
        bare: false,
    });
    let steps = drive(&Config::default(), &git, &no_paths(), "feature");
    match steps.last().unwrap() {
        NewStep::Fail(AppError::Git(m)) => {
            assert_eq!(m, "branch `feature` is already checked out at /elsewhere/feature; refusing to force")
        }
        other => panic!("unexpected {other:?}"),
    }
}

#[test]
fn new_refuses_existing_target_path_for_different_branch() {
    let mut git = fake();
    git.worktrees.push(GitWorktreeEntry {
        path: "/w/managed/repo/feature".to_string(),
        head: Some("def".to_string()),
        branch: Some("other".to_string()),
        detached: false,
        bare: false,
    });
    let facts = PathFacts {
        existing: vec!["/w/repo".to_string(), "/w/managed/repo/feature".to_string()],
        canonical: Vec::new(),
    };
    let steps = drive(&Config::default(), &git, &facts, "feature");
    match steps.last().unwrap() {
        NewStep::Fail(AppError::InvalidCommand(m)) => assert!(m.contains("branch `other`"), "unexpected: {m}"),
        other => panic!("unexpected {other:?}"),
    }
}

#[test]
fn new_rejects_detached_repo_when_no_base_branch_can_be_inferred() {
    let mut git = fake();
    git.branches.clear();
    git.current = None;
    let steps = drive(&Config::default(), &git, &no_paths(), "feature");
    match steps.last().unwrap() {
        NewStep::Fail(AppError::Git(m)) => assert!(m.contains("could not infer a base branch")),
        other => panic!("unexpected {other:?}"),
    }
}

#[test]
fn new_fast_forwards_base_before_creating_worktree() {
    let mut git = fake();
    git.upstream = Some("origin/main".to_string());
    let steps = drive(&Config::default(), &git, &no_paths(), "feature");
    let pull = steps.iter().position(|s| *s == NewStep::Pull { path: "/w/repo".to_string() }).unwrap();
    let add = steps.iter().position(|s| matches!(s, NewStep::AddWorktree { .. })).unwrap();
    assert!(pull < add);
    assert!(matches!(steps.last().unwrap(), NewStep::Refresh { .. }));
}

#[test]
fn new_refuses_dirty_base_before_pulling() {
    let mut git = fake();
    git.origin = Some("git@github.com:acme/repo.git".to_string());
    git.dirty = true;
    let steps = drive(&Config::default(), &git, &no_paths(), "feature");
    assert!(!steps.iter().any(|s| matches!(s, NewStep::Pull { .. } | NewStep::PullFrom { .. })));
    match steps.last().unwrap() {
        NewStep::Fail(AppError::InvalidCommand(m)) => assert!(m.starts_with("base worktree has uncommitted changes: /w/repo")),
        other => panic!("unexpected {other:?}"),
    }
}

#[test]
fn new_uses_the_configured_base_and_reports_a_failed_add() {
    let mut config = Config::default();
    config.repos.push((
        "repo".to_string(),
        RepoConfig { alias: "repo".to_string(), canonical_path: "/w/repo".to_string(), base_branch: Some("develop".to_string()) },
    ));
    let mut git = fake();
    git.add_ok = false;
    let steps = drive(&config, &git, &no_paths(), "feature");
    assert!(!steps.iter().any(|s| matches!(s, NewStep::RemoteDefault { .. })));
    assert!(steps.contains(&NewStep::CreateBranch {
        path: "/w/repo".to_string(),
        branch: "feature".to_string(),
        base: "develop".to_string(),
    }));
    assert_eq!(
        steps.last().unwrap(),
        &NewStep::AddFailed { path: "/w/repo".to_string(), branch: "feature".to_string(), delete_branch: true }
    );
}

#[test]
fn worktree_root_defaults_under_home() {
    let mut config = Config::default();
    assert_eq!(default_worktree_root(&config, Some("/home/u")).unwrap(), "/home/u/.worktrees");
    assert_eq!(default_worktree_root(&config, None).unwrap_err(), AppError::MissingHome);
    config.default_worktree_root = Some("/srv/wt".to_string());
    assert_eq!(default_worktree_root(&config, None).unwrap(), "/srv/wt");

    let mut cache = Cache::default();
    cache.repos.push(repo());
    cache.worktrees.push(WorktreeRecord {
        repo_alias: "repo".to_string(),
        target: "base".to_string(),
        display_name: "base".to_string(),
        branch: Some("main".to_string()),
        path: "/w/repo".to_string(),
        source: WorktreeSource::Manual,
        dirty: DirtyState::Unknown,
        last_seen_unix: None,
        stale: false,
        detached: false,
    });
    let (rec, root) = prepare_new(&cache, &config, "repo", None).unwrap();
    assert_eq!((rec.alias.as_str(), root.as_str()), ("repo", "/srv/wt"));
    assert_eq!(prepare_new(&cache, &config, "nope", None).unwrap_err(), AppError::RepoNotFound("nope".to_string()));
    cache.repos[0].stale = true;
    assert_eq!(prepare_new(&cache, &config, "repo", None).unwrap_err(), AppError::StaleWorktree("/w/repo".to_string()));
}
