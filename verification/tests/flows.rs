use workroot::branch::{branch_next, detach_next, BranchAnswers, BranchStep, DetachAnswers, DetachStep};
use workroot::domain::{Cache, DirtyState, RepoRecord, RepoSource, WorktreeRecord, WorktreeSource};
use workroot::error::AppError;
use workroot::facts::PathFacts;
use workroot::merge::{merge_failure_details, merge_next, MergeAnswers, MergeOutcome, MergeStep};
use workroot::pr::{pr_next, GhOutcome, PrAnswers, PrStep};
use workroot::push::{push_next, PushAnswers, PushStep};
use workroot::resolver::ResolvedWorktree;

fn repo(alias: &str, path: &str, base: Option<&str>) -> RepoRecord {
    RepoRecord {
        alias: alias.to_string(),
        display_name: alias.to_string(),
        canonical_path: path.to_string(),
        git_common_dir: format!("{path}/.git"),
        base_branch: base.map(str::to_string),
        source: RepoSource::Adopted,
        stale: false,
    }
}

fn worktree(alias: &str, target: &str, branch: Option<&str>, path: &str) -> WorktreeRecord {
    WorktreeRecord {
        repo_alias: alias.to_string(),
        target: target.to_string(),
        display_name: target.to_string(),
        branch: branch.map(str::to_string),
        path: path.to_string(),
        source: WorktreeSource::Workroot,
        dirty: DirtyState::Unknown,
        last_seen_unix: None,
        stale: false,
        detached: branch.is_none(),
    }
}

fn resolved(target: &str, branch: Option<&str>, path: &str) -> ResolvedWorktree {
    ResolvedWorktree {
        repo: repo("repo", "/work/repo", Some("main")),
        worktree: worktree("repo", target, branch, path),
        path: path.to_string(),
    }
}

fn facts(existing: &[&str]) -> PathFacts {
    PathFacts { existing: existing.iter().map(|p| p.to_string()).collect(), canonical: Vec::new() }
}

fn invalid_message(step: &PushStep) -> String {
    match step {
        PushStep::Done(Err(AppError::InvalidCommand(m))) => m.clone(),
        other => panic!("expected a refusal, got {other:?}"),
    }
}

#[test]
fn push_sets_upstream_on_first_push() {
    let r = resolved("feature", Some("feature"), "/work/managed/repo/feature");
    let mut a = PushAnswers::new();
    assert_eq!(push_next(&r, &a), PushStep::CurrentBranch { path: "/work/managed/repo/feature".to_string() });
    a.branch = Some(Some("feature".to_string()));
    assert_eq!(
        push_next(&r, &a),
        PushStep::Upstream { path: "/work/managed/repo/feature".to_string(), branch: "feature".to_string() }
    );
    a.upstream = Some(None);
    assert_eq!(
        push_next(&r, &a),
        PushStep::PushWithUpstream {
            path: "/work/managed/repo/feature".to_string(),
            remote: "origin".to_string(),
            branch: "feature".to_string(),
        }
    );
    a.pushed = true;
    match push_next(&r, &a) {
        PushStep::Done(Ok(outcome)) => {
            assert!(outcome.message().contains("origin/feature"));
            assert_eq!(outcome.repo, "repo");
            assert_eq!(outcome.target, "feature");
            assert_eq!(outcome.branch, "feature");
            assert_eq!(outcome.upstream, "origin/feature");
            assert!(outcome.upstream_set);
            assert_eq!(outcome.path, "/work/managed/repo/feature");
            assert_eq!(outcome.message(), "pushed `feature` to `origin/feature` and set upstream\n");
        }
        other => panic!("unexpected step {other:?}"),
    }
}

#[test]
fn push_uses_existing_upstream_after_first_push() {
    let r = resolved("feature", Some("feature"), "/work/managed/repo/feature");
    let mut a = PushAnswers::new();
    a.branch = Some(Some("feature".to_string()));
    a.upstream = Some(Some("origin/feature".to_string()));
    assert_eq!(push_next(&r, &a), PushStep::Push { path: "/work/managed/repo/feature".to_string() });
    a.pushed = true;
    match push_next(&r, &a) {
        PushStep::Done(Ok(outcome)) => {
            assert!(!outcome.upstream_set);
            assert_eq!(outcome.message(), "pushed `feature` to `origin/feature`\n");
        }
        other => panic!("unexpected step {other:?}"),
    }
}

#[test]
fn push_refuses_base_branch_worktree() {
    let r = resolved("base", Some("main"), "/work/repo");
    let mut a = PushAnswers::new();
    a.branch = Some(Some("main".to_string()));
    let error = invalid_message(&push_next(&r, &a));
    assert!(error.contains("base branch `main`"), "unexpected error: {error}");
    assert!(error.contains("workroot new repo"), "unexpected error: {error}");
}

#[test]
fn push_refuses_detached_worktree() {
    let r = resolved("feature", Some("feature"), "/work/managed/repo/feature");
    let mut a = PushAnswers::new();
    a.branch = Some(None);
    let error = invalid_message(&push_next(&r, &a));
    assert!(error.contains("detached"), "unexpected error: {error}");
    assert!(error.contains("branch to push"), "unexpected error: {error}");
    let cached_detached = resolved("feature", None, "/work/managed/repo/feature");
    let error = invalid_message(&push_next(&cached_detached, &PushAnswers::new()));
    assert!(error.contains("git -C /work/managed/repo/feature checkout <branch>"));
}

#[test]
fn pr_refuses_detached_worktree_with_branch_guidance() {
    let r = resolved("feature", Some("feature"), "/work/managed/repo/feature");
    let mut a = PrAnswers::new();
    a.branch = Some(None);
    match pr_next(&r, &a) {
        PrStep::Done(Err(AppError::InvalidCommand(m))) => {
            assert!(m.contains("detached"));
            assert!(m.contains("workroot switch repo feature -c <branch>"));
        }
        other => panic!("unexpected step {other:?}"),
    }
}

#[test]
fn pr_refuses_unpushed_branch_with_push_guidance() {
    let r = resolved("feature", Some("feature"), "/work/managed/repo/feature");
    let mut a = PrAnswers::new();
    a.branch = Some(Some("feature".to_string()));
    a.upstream = Some(None);
    match pr_next(&r, &a) {
        PrStep::Done(Err(AppError::InvalidCommand(m))) => {
            assert_eq!(m, "branch `feature` has no upstream\nfix: run `workroot push repo feature` first");
        }
        other => panic!("unexpected step {other:?}"),
    }
}

#[test]
fn pr_flow_creates_against_base_and_reports_gh_outcomes() {
    let r = resolved("feature", Some("feature"), "/work/managed/repo/feature");
    let mut a = PrAnswers::new();
    a.branch = Some(Some("feature".to_string()));
    a.upstream = Some(Some("origin/feature".to_string()));
    assert_eq!(
        pr_next(&r, &a),
        PrStep::Create {
            path: "/work/managed/repo/feature".to_string(),
            base: "main".to_string(),
            head: "feature".to_string(),
        }
    );
    a.gh = Some(GhOutcome::Missing);
    match pr_next(&r, &a) {
        PrStep::Done(Err(AppError::MissingDependency { name })) => assert_eq!(name, "gh"),
        other => panic!("unexpected step {other:?}"),
    }
    a.gh = Some(GhOutcome::Failed("  \n".to_string()));
    match pr_next(&r, &a) {
        PrStep::Done(Err(AppError::CommandFailed(c))) => assert_eq!(c, "gh pr create"),
        other => panic!("unexpected step {other:?}"),
    }
    a.gh = Some(GhOutcome::Created("https://github.com/o/r/pull/7\n".to_string()));
    match pr_next(&r, &a) {
        PrStep::Done(Ok(out)) => assert!(out.contains("https://github.com/o/r/pull/7")),
        other => panic!("unexpected step {other:?}"),
    }
}

fn merge_cache() -> Cache {
    let mut cache = Cache::default();
    cache.repos.push(repo("repo", "/work/repo", Some("main")));
    cache.worktrees.push(worktree("repo", "base", Some("main"), "/work/repo"));
    cache.worktrees.push(worktree("repo", "task", Some("task"), "/work/managed/repo/task"));
    cache.worktrees.push(worktree("repo", "integration", Some("integration"), "/work/managed/repo/integration"));
    cache
}

#[test]
fn merge_merges_detached_source_head_into_destination_branch_worktree() {
    let cache = merge_cache();
    let r = resolved("task", None, "/work/managed/repo/task");
    let f = facts(&["/work/repo", "/work/managed/repo/task", "/work/managed/repo/integration"]);
    let mut a = MergeAnswers::new();
    assert_eq!(
        merge_next(&cache, &r, &f, "task", "integration", &a),
        MergeStep::SourceDirty { path: "/work/managed/repo/task".to_string() }
    );
    a.source_dirty = Some(false);
    assert_eq!(merge_next(&cache, &r, &f, "task", "integration", &a), MergeStep::DestinationDirty { path: "/work/managed/repo/integration".to_string() });
    a.destination_dirty = Some(false);
    assert_eq!(
        merge_next(&cache, &r, &f, "task", "integration", &a),
        MergeStep::Head { path: "/work/managed/repo/task".to_string() }
    );
    a.source_head = Some(Some("abc1234def".to_string()));
    assert_eq!(
        merge_next(&cache, &r, &f, "task", "integration", &a),
        MergeStep::Merge { path: "/work/managed/repo/integration".to_string(), commit: "abc1234def".to_string() }
    );
    a.merge = Some(MergeOutcome::Merged);
    match merge_next(&cache, &r, &f, "task", "integration", &a) {
        MergeStep::Merged { repo_path, message } => {
            assert_eq!(repo_path, "/work/repo");
            assert_eq!(message, "merged `task` into `integration` at /work/managed/repo/integration\n");
        }
        other => panic!("unexpected step {other:?}"),
    }
}

#[test]
fn merge_refuses_missing_destination_branch_worktree() {
    let cache = merge_cache();
    let r = resolved("task", Some("task"), "/work/managed/repo/task");
    let f = facts(&["/work/repo", "/work/managed/repo/task", "/work/managed/repo/integration"]);
    let mut a = MergeAnswers::new();
    a.source_dirty = Some(false);
    match merge_next(&cache, &r, &f, "task", "release", &a) {
        MergeStep::Failed(AppError::InvalidCommand(m)) => {
            assert!(m.contains("destination branch `release` is not checked out"), "unexpected: {m}");
            assert!(m.contains("workroot new repo <target> --branch release"), "unexpected: {m}");
        }
        other => panic!("unexpected step {other:?}"),
    }
}

#[test]
fn merge_leaves_conflict_state_in_destination_worktree() {
    let cache = merge_cache();
    let r = resolved("task", Some("task"), "/work/managed/repo/task");
    let f = facts(&["/work/repo", "/work/managed/repo/task", "/work/managed/repo/integration"]);
    let mut a = MergeAnswers::new();
    a.source_dirty = Some(false);
    a.destination_dirty = Some(false);
    a.source_head = Some(Some("abc1234def".to_string()));
    a.merge = Some(MergeOutcome::Failed {
        stdout: "CONFLICT (content): Merge conflict in README.md\n".to_string(),
        stderr: "Automatic merge failed\n".to_string(),
    });
    match merge_next(&cache, &r, &f, "task", "integration", &a) {
        MergeStep::Failed(AppError::InvalidCommand(m)) => {
            assert!(m.contains("has conflicts at /work/managed/repo/integration"), "unexpected: {m}");
            assert!(m.contains("git -C /work/managed/repo/integration merge --abort"), "unexpected: {m}");
            assert!(m.ends_with("\ngit output: CONFLICT (content): Merge conflict in README.md\nAutomatic merge failed"));
        }
        other => panic!("unexpected step {other:?}"),
    }
}

#[test]
fn merge_refuses_dirty_source() {
    let cache = merge_cache();
    let r = resolved("task", Some("task"), "/work/managed/repo/task");
    let f = facts(&["/work/repo", "/work/managed/repo/task", "/work/managed/repo/integration"]);
    let mut a = MergeAnswers::new();
    a.source_dirty = Some(true);
    match merge_next(&cache, &r, &f, "task", "integration", &a) {
        MergeStep::Failed(AppError::InvalidCommand(m)) => {
            assert_eq!(m, "source target `task` has uncommitted changes; commit or stash before merging")
        }
        other => panic!("unexpected {other:?}"),
    }
}

#[test]
fn merge_refuses_dirty_destination() {
    let cache = merge_cache();
    let r = resolved("task", Some("task"), "/work/managed/repo/task");
    let f = facts(&["/work/repo", "/work/managed/repo/task", "/work/managed/repo/integration"]);
    let mut a = MergeAnswers::new();
    a.source_dirty = Some(false);
    a.destination_dirty = Some(true);
    match merge_next(&cache, &r, &f, "task", "integration", &a) {
        MergeStep::Failed(AppError::InvalidCommand(m)) => assert_eq!(
            m,
            "destination branch `integration` has uncommitted changes at /work/managed/repo/integration; commit or stash before merging"
        ),
        other => panic!("unexpected {other:?}"),
    }
}

#[test]
fn merge_failure_details_joins_trimmed_outputs() {
    assert_eq!(merge_failure_details("  out \n", "\n err \n"), "\ngit output: out\nerr");
    assert_eq!(merge_failure_details("", " only err "), "\ngit output: only err");
    assert_eq!(merge_failure_details(" only out ", ""), "\ngit output: only out");
    assert_eq!(merge_failure_details("", ""), "");
}

#[test]
fn branch_converts_detached_worktree_to_branch_backed() {
    let r = resolved("scratch", None, "/work/managed/repo/scratch");
    let mut a = BranchAnswers::new();
    assert_eq!(
        branch_next(&r, "topic", &a),
        BranchStep::CurrentBranch { path: "/work/managed/repo/scratch".to_string() }
    );
    a.current = Some(None);
    assert_eq!(
        branch_next(&r, "topic", &a),
        BranchStep::CheckedOut { repo_path: "/work/repo".to_string(), branch: "topic".to_string() }
    );
    a.checked_out = Some(None);
    assert_eq!(
        branch_next(&r, "topic", &a),
        BranchStep::Exists { repo_path: "/work/repo".to_string(), branch: "topic".to_string() }
    );
    a.exists = Some(false);
    assert_eq!(
        branch_next(&r, "topic", &a),
        BranchStep::SwitchCreate { path: "/work/managed/repo/scratch".to_string(), branch: "topic".to_string() }
    );
    a.switched = true;
    assert_eq!(
        branch_next(&r, "topic", &a),
        BranchStep::Done { repo_path: "/work/repo".to_string(), message: "branched `scratch` as `topic`\n".to_string() }
    );
}

#[test]
fn branch_refuses_attached_worktree_and_moved_branch() {
    let r = resolved("scratch", None, "/work/managed/repo/scratch");
    let mut a = BranchAnswers::new();
    a.current = Some(Some("feature".to_string()));
    match branch_next(&r, "topic", &a) {
        BranchStep::Refused(e) => assert!(e.message().contains("already attached to branch `feature`")),
        other => panic!("unexpected step {other:?}"),
    }
    a.current = Some(None);
    a.checked_out = Some(Some("/work/other".to_string()));
    match branch_next(&r, "topic", &a) {
        BranchStep::Refused(e) => assert!(e.message().contains("already checked out at /work/other")),
        other => panic!("unexpected step {other:?}"),
    }
    a.checked_out = Some(None);
    a.exists = Some(true);
    a.heads = Some((Some("aaa".to_string()), Some("bbb".to_string())));
    match branch_next(&r, "topic", &a) {
        BranchStep::Refused(e) => assert!(e.message().contains("different commit")),
        other => panic!("unexpected step {other:?}"),
    }
    a.heads = Some((Some("aaa".to_string()), Some("aaa".to_string())));
    assert_eq!(
        branch_next(&r, "topic", &a),
        BranchStep::Switch { path: "/work/managed/repo/scratch".to_string(), branch: "topic".to_string() }
    );
}

#[test]
fn detach_converts_branch_worktree_to_detached_head() {
    let r = resolved("feature", Some("feature"), "/work/managed/repo/feature");
    let mut a = DetachAnswers::new();
    assert_eq!(detach_next(&r, &a), DetachStep::CurrentBranch { path: "/work/managed/repo/feature".to_string() });
    a.current = Some(Some("feature".to_string()));
    assert_eq!(detach_next(&r, &a), DetachStep::IsDirty { path: "/work/managed/repo/feature".to_string() });
    a.dirty = Some(false);
    assert_eq!(detach_next(&r, &a), DetachStep::Detach { path: "/work/managed/repo/feature".to_string() });
    a.detached = true;
    match detach_next(&r, &a) {
        DetachStep::Done { repo_path, refresh, message } => {
            assert_eq!(repo_path, "/work/repo");
            assert!(refresh);
            assert_eq!(message, "detached `feature`\n");
        }
        other => panic!("unexpected step {other:?}"),
    }
}

#[test]
fn detach_refuses_dirty_worktree() {
    let r = resolved("feature", Some("feature"), "/work/managed/repo/feature");
    let mut a = DetachAnswers::new();
    a.current = Some(Some("feature".to_string()));
    a.dirty = Some(true);
    assert!(matches!(detach_next(&r, &a), DetachStep::Refused(AppError::InvalidCommand(_))));
}

#[test]
fn push_outcome_exposes_json_ready_fields() {
    let r = resolved("feature", Some("feature"), "/work/managed/repo/feature");
    let mut a = PushAnswers::new();
    a.branch = Some(Some("feature".to_string()));
    a.upstream = Some(None);
    a.pushed = true;
    match push_next(&r, &a) {
        PushStep::Done(Ok(outcome)) => {
            assert_eq!(outcome.repo, "repo");
            assert_eq!(outcome.target, "feature");
            assert_eq!(outcome.branch, "feature");
            assert_eq!(outcome.upstream, "origin/feature");
            assert!(outcome.upstream_set);
            assert_eq!(outcome.path, "/work/managed/repo/feature");
            assert_eq!(outcome.message(), "pushed `feature` to `origin/feature` and set upstream\n");
        }
        other => panic!("unexpected step {other:?}"),
    }
}
