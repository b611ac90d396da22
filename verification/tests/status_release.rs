use workroot::domain::{
    Cache, DirtyState, RepoRecord, RepoSource, SessionBackend, SessionRecord, SessionStatus, WorktreeRecord,
    WorktreeSource,
};
use workroot::facts::PathFacts;
use workroot::session::TmuxPane;
use workroot::status::{
    list_output, radar_output, sessions_output, status_output, BranchDisplay, LiveProbes, TmuxInventory,
};

#[test]
fn list_shows_global_known_worktrees() {
    let cache = cache_with_worktrees(vec![worktree("jam", "base", Some("main"), "/tmp/jam")]);

    let output = list_output(&cache, None, &LiveProbes::none());

    assert!(output.contains("REPO"));
    assert!(output.contains("BASE BRANCH"));
    assert!(output.contains("WORKTREE BRANCH"));
    assert!(output.contains("HEAD"));
    assert!(output.contains("jam"));
    assert!(output.contains("main"));
    assert!(output.contains("/tmp/jam"));
}

#[test]
fn status_default_uses_cached_dirty_and_live_branch_checks() {
    let repo = "/tmp/workroot-status-test/repo";
    let mut cache = cache_with_worktrees(vec![WorktreeRecord {
        path: repo.to_string(),
        dirty: DirtyState::Dirty { files: 7 },
        branch: Some("deleted-branch".to_string()),
        ..worktree("jam", "base", Some("deleted-branch"), "/tmp/placeholder")
    }]);
    cache.repos[0].canonical_path = repo.to_string();
    let mut probes = probes_with(&[repo]);
    probes.branches.push((repo.to_string(), BranchDisplay::Named("main".to_string())));

    let output = status_output(&cache, &probes);

    assert!(output.contains("dirty(7)"));
    assert!(!output.contains("branch-missing"));
}

#[test]
fn status_default_displays_stale_and_detached_cache_states() {
    let mut wt = worktree("jam", "detached", None, "/definitely/missing/workroot/worktree");
    wt.stale = true;
    wt.detached = true;
    let cache = cache_with_worktrees(vec![wt]);

    let output = status_output(&cache, &LiveProbes::none());

    assert!(output.contains("stale"));
    assert!(output.contains("detached"));
}

#[test]
fn status_marks_worktree_stale_when_cached_repo_root_is_missing() {
    let worktree_path = "/tmp/workroot-status-test/worktree";
    let mut cache = cache_with_worktrees(vec![WorktreeRecord {
        path: worktree_path.to_string(),
        ..worktree("jam", "base", Some("main"), "/tmp/placeholder")
    }]);
    cache.repos[0].canonical_path = "/tmp/workroot-status-test/missing-root".to_string();

    let output = status_output(&cache, &probes_with(&[worktree_path]));

    assert!(output.contains("stale"));
}

#[test]
fn radar_status_adds_managed_session_columns_to_worktrees() {
    let worktree_path = "/tmp/workroot-radar-test/jam";
    let mut cache = cache_with_worktrees(vec![WorktreeRecord {
        path: worktree_path.to_string(),
        ..worktree("jam", "base", Some("main"), "/tmp/jam")
    }]);
    cache.repos[0].canonical_path = worktree_path.to_string();
    let sessions = vec![managed_session(worktree_path)];

    let output = radar_output(
        &cache,
        &sessions,
        &TmuxInventory {
            available: true,
            panes: vec![TmuxPane {
                session_name: "workroot-jam-base".to_string(),
                current_path: worktree_path.to_string(),
                current_command: "make".to_string(),
            }],
        },
        &probes_with(&[worktree_path]),
        false,
    );

    assert!(output.contains("SUMMARY"));
    assert!(output.contains("ACTIVE PROCESSES"));
    assert!(output.contains("STATE"));
    assert!(output.contains("RUN"));
    assert!(output.contains("active-panes=1"));
    assert!(output.contains("managed-running=1"));
    assert!(output.contains("SESSION"));
    assert!(output.contains("COMMAND"));
    assert!(output.contains("workroot-jam-base"));
    assert!(output.contains("make"));
}

#[test]
fn radar_status_surfaces_missing_managed_session_as_attention_exit() {
    let worktree_path = "/tmp/workroot-radar-test/jam";
    let mut cache = cache_with_worktrees(vec![WorktreeRecord {
        path: worktree_path.to_string(),
        dirty: DirtyState::Clean,
        ..worktree("jam", "base", Some("main"), "/tmp/jam")
    }]);
    cache.repos[0].canonical_path = worktree_path.to_string();
    let sessions = vec![managed_session(worktree_path)];

    let output = radar_output(
        &cache,
        &sessions,
        &TmuxInventory { available: true, panes: Vec::new() },
        &probes_with(&[worktree_path]),
        false,
    );

    assert!(output.contains("ATTENTION"));
    assert!(output.contains("EXIT"));
    assert!(output.contains("exited=1"));
    assert!(output.contains("workroot-jam-base"));
    assert!(output.contains("make"));
}

#[test]
fn radar_status_maps_unmanaged_tmux_cwd_inside_known_worktree() {
    let worktree_path = "/tmp/workroot-radar-test/jam";
    let nested = "/tmp/workroot-radar-test/jam/src";
    let mut cache = cache_with_worktrees(vec![WorktreeRecord {
        path: worktree_path.to_string(),
        ..worktree("jam", "base", Some("main"), "/tmp/jam")
    }]);
    cache.repos[0].canonical_path = worktree_path.to_string();

    let output = radar_output(
        &cache,
        &[],
        &TmuxInventory {
            available: true,
            panes: vec![TmuxPane {
                session_name: "scratch".to_string(),
                current_path: nested.to_string(),
                current_command: "vim".to_string(),
            }],
        },
        &probes_with(&[worktree_path, nested]),
        false,
    );

    assert!(output.contains("ACTIVE PROCESSES"));
    assert!(output.contains("MAP"));
    assert!(output.contains("scratch"));
    assert!(output.contains("vim"));
    assert!(output.contains("unmapped=0"));
    assert!(output.contains("UNMAPPED TMUX"));
}

#[test]
fn radar_status_renders_unmapped_tmux_sessions_separately() {
    let cache = cache_with_worktrees(vec![worktree("jam", "base", Some("main"), "/tmp/jam")]);

    let output = radar_output(
        &cache,
        &[],
        &TmuxInventory {
            available: true,
            panes: vec![TmuxPane {
                session_name: "random".to_string(),
                current_path: "/tmp/outside".to_string(),
                current_command: "bash".to_string(),
            }],
        },
        &LiveProbes::none(),
        false,
    );

    assert!(output.contains("UNMAPPED TMUX"));
    assert!(output.contains("UNMAPPED"));
    assert!(output.contains("TMUX"));
    assert!(output.contains("random"));
    assert!(output.contains("/tmp/outside"));
    assert!(output.contains("bash"));
}

#[test]
fn radar_status_counts_dirty_and_stale_worktrees_in_attention() {
    let dirty_path = "/tmp/workroot-radar-test/dirty";
    let missing_path = "/tmp/workroot-radar-test/missing";
    let mut stale = WorktreeRecord {
        path: missing_path.to_string(),
        dirty: DirtyState::Clean,
        ..worktree("jam", "gone", Some("main"), "/tmp/missing")
    };
    stale.stale = true;
    let mut cache = cache_with_worktrees(vec![
        WorktreeRecord {
            path: dirty_path.to_string(),
            dirty: DirtyState::Dirty { files: 3 },
            ..worktree("jam", "dirty", Some("main"), "/tmp/dirty")
        },
        stale,
    ]);
    cache.repos[0].canonical_path = dirty_path.to_string();

    let output = radar_output(
        &cache,
        &[],
        &TmuxInventory { available: true, panes: Vec::new() },
        &probes_with(&[dirty_path]),
        false,
    );

    assert!(output.contains("dirty=1"));
    assert!(output.contains("stale=1"));
    assert!(output.contains("ATTENTION"));
    assert!(output.contains("DIRTY"));
    assert!(output.contains("dirty(3)"));
    assert!(output.contains("STALE"));
    assert!(output.contains(missing_path));
}

#[test]
fn radar_status_keeps_worktrees_when_tmux_is_unavailable() {
    let worktree_path = "/tmp/workroot-radar-test/jam";
    let mut cache = cache_with_worktrees(vec![WorktreeRecord {
        path: worktree_path.to_string(),
        dirty: DirtyState::Clean,
        ..worktree("jam", "base", Some("main"), "/tmp/jam")
    }]);
    cache.repos[0].canonical_path = worktree_path.to_string();
    let sessions = vec![managed_session(worktree_path)];

    let output = radar_output(
        &cache,
        &sessions,
        &TmuxInventory { available: false, panes: Vec::new() },
        &probes_with(&[worktree_path]),
        false,
    );

    assert!(output.contains("jam"));
    assert!(output.contains("tmux=unavailable"));
    assert!(output.contains("active-panes=unknown"));
    assert!(output.contains("UNKNOWN"));
    assert!(output.contains("workroot-jam-base"));
    assert!(output.contains("UNMAPPED TMUX"));
}

#[test]
fn sessions_are_reported_in_separate_view() {
    let cache = cache_with_worktrees(vec![worktree("jam", "base", Some("main"), "/tmp/jam")]);
    let sessions = vec![SessionRecord {
        repo_alias: "jam".to_string(),
        target: "base".to_string(),
        worktree_path: "/tmp/jam".to_string(),
        backend: SessionBackend::Tmux,
        command: vec!["make".to_string()],
        tmux_session_name: "definitely-missing-workroot-test-session".to_string(),
        status: SessionStatus::Running,
    }];

    let output = sessions_output(&cache, &sessions, &LiveProbes::none());

    assert!(output.contains("STATUS"));
    assert!(output.contains("make"));
    assert!(output.contains("exited") || output.contains("unknown"));
}

fn managed_session(path: &str) -> SessionRecord {
    SessionRecord {
        repo_alias: "jam".to_string(),
        target: "base".to_string(),
        worktree_path: path.to_string(),
        backend: SessionBackend::Tmux,
        command: vec!["make".to_string()],
        tmux_session_name: "workroot-jam-base".to_string(),
        status: SessionStatus::Running,
    }
}

fn probes_with(existing: &[&str]) -> LiveProbes {
    let mut probes = LiveProbes::none();
    probes.facts = PathFacts { existing: existing.iter().map(|p| p.to_string()).collect(), canonical: Vec::new() };
    probes
}

fn cache_with_worktrees(worktrees: Vec<WorktreeRecord>) -> Cache {
    Cache {
        schema_version: 1,
        repos: vec![RepoRecord {
            alias: "jam".to_string(),
            display_name: "jam".to_string(),
            canonical_path: "/tmp/jam".to_string(),
            git_common_dir: "/tmp/jam/.git".to_string(),
            base_branch: Some("main".to_string()),
            source: RepoSource::Adopted,
            stale: false,
        }],
        worktrees,
        last_scan_unix: Some(1),
    }
}

fn worktree(repo: &str, target: &str, branch: Option<&str>, path: &str) -> WorktreeRecord {
    WorktreeRecord {
        repo_alias: repo.to_string(),
        target: target.to_string(),
        display_name: target.to_string(),
        branch: branch.map(str::to_string),
        path: path.to_string(),
        source: WorktreeSource::Manual,
        dirty: DirtyState::Unknown,
        last_seen_unix: Some(1),
        stale: false,
        detached: false,
    }
}
