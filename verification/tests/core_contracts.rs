use workroot::domain::{
    Cache, DirtyState, RepoRecord, RepoSource, WorktreeRecord, WorktreeSource, CURRENT_SCHEMA_VERSION,
};
use workroot::git::parse_worktree_porcelain;
use workroot::resolver::Resolver;
use workroot::session::{sanitize_tmux_session_name, CommandSpec};
use workroot::shell::{shell_init, Shell};

#[test]
fn shell_init_wraps_cd_for_supported_shells() {
    for shell in [Shell::Zsh, Shell::Bash, Shell::Fish] {
        let init = shell_init(shell);
        assert!(init.contains("workroot"));
        assert!(init.contains("command workroot worktree path"));
        assert!(init.contains("command workroot worktree new"));
        assert!(init.contains("cd"));
        assert!(init.contains("wr"), "{shell:?} init missing wr alias:\n{init}");
    }
}

#[test]
fn command_spec_preserves_argv_and_serializes_only_for_shell_boundary() {
    let spec = CommandSpec::new(vec![
        "runner".to_string(),
        "run this".to_string(),
        "it's".to_string(),
        "$literal".to_string(),
    ])
    .unwrap();

    assert_eq!(spec.argv()[1], "run this");
    assert_eq!(spec.to_posix_shell_command(), "runner 'run this' 'it'\\''s' '$literal'");
}

#[test]
fn empty_command_spec_is_rejected() {
    assert!(CommandSpec::new(Vec::new()).is_err());
}

#[test]
fn tmux_session_names_are_sanitized_but_alias_based() {
    let name = sanitize_tmux_session_name("my repo", "auth/flow");
    assert!(name.starts_with("workroot-my_repo-auth_flow-"));
    assert!(!name.contains(':'));
    assert!(name.len() <= 80);
}

#[test]
fn parses_git_worktree_porcelain() {
    let entries = parse_worktree_porcelain(
        "worktree /tmp/base\nHEAD abc123\nbranch refs/heads/main\n\nworktree /tmp/wt\nHEAD def456\ndetached\n\n",
    )
    .unwrap();

    assert_eq!(entries.len(), 2);
    assert_eq!(entries[0].path, "/tmp/base");
    assert_eq!(entries[0].branch.as_deref(), Some("main"));
    assert!(entries[1].detached);
}

#[test]
fn resolver_contract_types_can_represent_collisions_and_stale_entries() {
    let repo = RepoRecord {
        alias: "jam".to_string(),
        display_name: "jam".to_string(),
        canonical_path: "/tmp/jam".to_string(),
        git_common_dir: "/tmp/jam/.git".to_string(),
        base_branch: Some("main".to_string()),
        source: RepoSource::Adopted,
        stale: false,
    };
    let worktree = WorktreeRecord {
        repo_alias: repo.alias.clone(),
        target: "base-2".to_string(),
        display_name: "base".to_string(),
        branch: Some("feature".to_string()),
        path: "/tmp/jam/base".to_string(),
        source: WorktreeSource::Manual,
        dirty: DirtyState::Unknown,
        last_seen_unix: None,
        stale: true,
        detached: false,
    };

    assert_eq!(repo.alias, "jam");
    assert_eq!(worktree.target, "base-2");
    assert!(worktree.stale);
}

#[test]
fn resolver_resolves_exact_repo_and_target_from_cache() {
    let repo = repo_record("jam", "jam", "/tmp/jam");
    let worktree = worktree_record("jam", "auth", "/tmp/jam-auth", false);
    let resolver = Resolver::new(Cache {
        schema_version: CURRENT_SCHEMA_VERSION,
        repos: vec![repo],
        worktrees: vec![worktree],
        last_scan_unix: None,
    });

    let resolved = resolver.resolve_worktree("jam", Some("auth")).unwrap();
    assert_eq!(resolved.path, "/tmp/jam-auth");
}

#[test]
fn resolver_reports_ambiguous_repo_matches() {
    let resolver = Resolver::new(Cache {
        schema_version: CURRENT_SCHEMA_VERSION,
        repos: vec![
            repo_record("jam", "shared", "/tmp/jam-one"),
            repo_record("jam-2", "shared", "/tmp/jam-two"),
        ],
        worktrees: Vec::new(),
        last_scan_unix: None,
    });

    let error = resolver.resolve_repo("shared").unwrap_err().message();
    assert!(error.contains("repo `shared` is ambiguous"));
    assert!(error.contains("fix: pass the exact repo alias"));
    assert!(error.contains("jam"));
    assert!(error.contains("jam-2"));
}

#[test]
fn resolver_prefers_exact_alias_over_display_name_collision() {
    let resolver = Resolver::new(Cache {
        schema_version: CURRENT_SCHEMA_VERSION,
        repos: vec![
            repo_record("jam", "jam", "/tmp/jam-one"),
            repo_record("jam-2", "jam", "/tmp/jam-two"),
        ],
        worktrees: vec![
            worktree_record("jam", "base", "/tmp/jam-one", false),
            worktree_record("jam-2", "base", "/tmp/jam-two", false),
        ],
        last_scan_unix: None,
    });

    let resolved = resolver.resolve_worktree("jam", Some("base")).unwrap();
    assert_eq!(resolved.repo.alias, "jam");
    assert_eq!(resolved.path, "/tmp/jam-one");
}

#[test]
fn resolver_reports_non_tty_target_ambiguity_without_stdout_choice() {
    let resolver = Resolver::new(Cache {
        schema_version: CURRENT_SCHEMA_VERSION,
        repos: vec![repo_record("jam", "jam", "/tmp/jam")],
        worktrees: vec![
            worktree_record("jam", "base", "/tmp/jam", false),
            worktree_record("jam", "auth", "/tmp/jam-auth", false),
        ],
        last_scan_unix: None,
    });

    let error = resolver.resolve_worktree("jam", None).unwrap_err().message();
    assert!(error.contains("target for repo `jam` is ambiguous"));
    assert!(error.contains("fix: pass the exact target name"));
    assert!(error.contains("base"));
    assert!(error.contains("auth"));
}

#[test]
fn resolver_completion_uses_cache_records_only() {
    let resolver = Resolver::new(Cache {
        schema_version: CURRENT_SCHEMA_VERSION,
        repos: vec![repo_record("jam", "jam", "/tmp/jam"), repo_record("other", "other", "/tmp/other")],
        worktrees: vec![
            worktree_record("jam", "base", "/tmp/jam", false),
            worktree_record("jam", "auth", "/tmp/jam-auth", false),
            worktree_record("jam", "old", "/tmp/jam-old", true),
        ],
        last_scan_unix: None,
    });

    assert_eq!(resolver.complete_repos(Some("ja")), vec!["jam"]);
    assert_eq!(resolver.complete_targets("jam", Some("a")).unwrap(), vec!["auth"]);
}

fn repo_record(alias: &str, display_name: &str, path: &str) -> RepoRecord {
    RepoRecord {
        alias: alias.to_string(),
        display_name: display_name.to_string(),
        canonical_path: path.to_string(),
        git_common_dir: format!("{path}/.git"),
        base_branch: Some("main".to_string()),
        source: RepoSource::Adopted,
        stale: false,
    }
}

fn worktree_record(repo_alias: &str, target: &str, path: &str, stale: bool) -> WorktreeRecord {
    WorktreeRecord {
        repo_alias: repo_alias.to_string(),
        target: target.to_string(),
        display_name: target.to_string(),
        branch: Some(target.to_string()),
        path: path.to_string(),
        source: WorktreeSource::Manual,
        dirty: DirtyState::Unknown,
        last_seen_unix: None,
        stale,
        detached: false,
    }
}
