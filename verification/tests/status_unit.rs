use workroot::domain::{
    Cache, DirtyState, RepoRecord, RepoSource, SessionBackend, SessionRecord, SessionStatus, WorktreeRecord,
    WorktreeSource,
};
use workroot::status::{complete_repos, complete_targets, list_output, sessions_output, status_output, LiveProbes};

#[test]
fn renders_list_from_cached_index() {
    let cache = sample_cache(false, false, DirtyState::Clean);
    let output = list_output(&cache, None, &LiveProbes::none());

    assert!(output.contains("REPO"));
    assert!(output.contains("BASE BRANCH"));
    assert!(output.contains("WORKTREE BRANCH"));
    assert!(output.contains("HEAD"));
    assert!(output.contains("jam"));
    assert!(output.contains("missing-branch"));
    assert!(output.contains("stale"));
    assert!(!output.contains("FLAGS"));
}

#[test]
fn list_filters_by_repo_alias() {
    let mut cache = sample_cache(false, false, DirtyState::Clean);
    cache.repos.push(RepoRecord {
        alias: "other".to_string(),
        display_name: "other".to_string(),
        canonical_path: "/tmp/other".to_string(),
        git_common_dir: "/tmp/other/.git".to_string(),
        base_branch: Some("main".to_string()),
        source: RepoSource::Adopted,
        stale: false,
    });
    cache.worktrees.push(WorktreeRecord {
        repo_alias: "other".to_string(),
        target: "base".to_string(),
        display_name: "base".to_string(),
        branch: Some("main".to_string()),
        path: "/tmp/other".to_string(),
        source: WorktreeSource::Manual,
        dirty: DirtyState::Clean,
        last_seen_unix: None,
        stale: false,
        detached: false,
    });

    let output = list_output(&cache, Some("jam"), &LiveProbes::none());

    assert!(output.contains("/missing/auth"));
    assert!(!output.contains("/tmp/other"));
}

#[test]
fn renders_stale_rows_without_dash_placeholders() {
    let cache = sample_cache(true, true, DirtyState::Dirty { files: 2 });
    let output = status_output(&cache, &LiveProbes::none());

    assert!(output.contains("stale"));
    assert!(output.contains("detached"));
    assert!(!output.contains("SESSION"));
    assert!(!output.contains(" - "));
}

#[test]
fn renders_sessions_separately() {
    let cache = sample_cache(false, false, DirtyState::Clean);
    let sessions = vec![SessionRecord {
        repo_alias: "jam".to_string(),
        target: "auth-flow".to_string(),
        worktree_path: "/missing/auth".to_string(),
        backend: SessionBackend::Tmux,
        command: vec!["make".to_string()],
        tmux_session_name: "definitely-missing-workroot-test-session".to_string(),
        status: SessionStatus::Running,
    }];
    let output = sessions_output(&cache, &sessions, &LiveProbes::none());

    assert!(output.contains("SESSION") || output.contains("STATUS"));
    assert!(output.contains("make"));
    assert!(output.contains("exited") || output.contains("unknown"));
}

#[test]
fn completion_reads_cache_only() {
    let cache = sample_cache(false, false, DirtyState::Unknown);

    assert_eq!(complete_repos(&cache), "jam");
    assert_eq!(complete_targets(&cache, Some("jam")), "auth-flow");
}

fn sample_cache(stale: bool, detached: bool, dirty: DirtyState) -> Cache {
    Cache {
        schema_version: 1,
        repos: vec![RepoRecord {
            alias: "jam".to_string(),
            display_name: "jam".to_string(),
            canonical_path: "/tmp/jam".to_string(),
            git_common_dir: "/tmp/jam/.git".to_string(),
            base_branch: Some("main".to_string()),
            source: RepoSource::Adopted,
            stale,
        }],
        worktrees: vec![WorktreeRecord {
            repo_alias: "jam".to_string(),
            target: "auth-flow".to_string(),
            display_name: "auth-flow".to_string(),
            branch: Some("missing-branch".to_string()),
            path: "/missing/auth".to_string(),
            source: WorktreeSource::Manual,
            dirty,
            last_seen_unix: None,
            stale,
            detached,
        }],
        last_scan_unix: None,
    }
}
