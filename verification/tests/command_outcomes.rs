use workroot::cli::{complete_candidates, completion_text, path_line, CompleteKind};
use workroot::domain::{
    Cache, DirtyState, RepoRecord, RepoSource, SessionBackend, SessionRecord, SessionStatus, State, WorktreeRecord,
    WorktreeSource,
};
use workroot::error::AppError;
use workroot::facts::PathFacts;
use workroot::ignore::{apply_unignore, is_ignored};
use workroot::resolver::Resolver;
use workroot::scanning::{ignored_path_error, scan_roots};
use workroot::session::{
    find_session, plan_pair, sanitize_tmux_session_name, upsert_running_session, CommandSpec, ExistingSession, PairPlan,
};
use workroot::status::{radar_output, radar_view_from_cache, LiveProbes, TmuxInventory};
use workroot::domain::{Config, IgnoredRepo};

fn worktree_record(target: &str, path: &str) -> WorktreeRecord {
    WorktreeRecord {
        repo_alias: "jam".to_string(),
        target: target.to_string(),
        display_name: target.to_string(),
        branch: Some(target.to_string()),
        path: path.to_string(),
        source: WorktreeSource::Manual,
        dirty: DirtyState::Unknown,
        last_seen_unix: None,
        stale: false,
        detached: false,
    }
}

fn cache_with_worktrees(auth_path: &str, extra: &[(&str, &str)]) -> Cache {
    let mut worktrees = vec![worktree_record("auth", auth_path)];
    worktrees.extend(extra.iter().map(|(path, target)| worktree_record(target, path)));
    Cache {
        schema_version: 1,
        repos: vec![RepoRecord {
            alias: "jam".to_string(),
            display_name: "jam".to_string(),
            canonical_path: auth_path.to_string(),
            git_common_dir: format!("{auth_path}/.git"),
            base_branch: Some("main".to_string()),
            source: RepoSource::Adopted,
            stale: false,
        }],
        worktrees,
        last_scan_unix: None,
    }
}

fn existing(paths: &[&str]) -> LiveProbes {
    let mut probes = LiveProbes::none();
    probes.facts = PathFacts { existing: paths.iter().map(|p| p.to_string()).collect(), canonical: Vec::new() };
    probes
}

#[test]
fn path_prints_path_only_to_stdout() {
    let path = "/tmp/t/work tree $special [x]";
    let cache = cache_with_worktrees(path, &[]);
    let resolved = Resolver::new(cache).resolve_worktree("jam", Some("auth")).unwrap();
    assert_eq!(path_line(&resolved.path), format!("{path}\n"));
}

#[test]
fn path_fails_ambiguity_without_tty_and_keeps_stdout_empty() {
    let cache = cache_with_worktrees("/tmp/t/base", &[("/tmp/t/auth", "base")]);
    match Resolver::new(cache).resolve_worktree("jam", None) {
        Err(e @ AppError::AmbiguousTarget { .. }) => {
            assert_eq!(e.exit_code(), 3);
            assert!(e.message().contains("is ambiguous"));
        }
        other => panic!("unexpected {other:?}"),
    }
}

#[test]
fn complete_lists_repo_and_target_candidates_from_cache() {
    let cache = cache_with_worktrees("/tmp/t/auth", &[]);
    let repos = complete_candidates(&cache, CompleteKind::Repos, Some("ja"), None).unwrap();
    assert_eq!(completion_text(&repos), "jam\n");
    let targets = complete_candidates(&cache, CompleteKind::Targets, Some("jam"), Some("au")).unwrap();
    assert_eq!(completion_text(&targets), "auth\n");
    match complete_candidates(&cache, CompleteKind::Targets, None, None) {
        Err(AppError::InvalidCommand(m)) => assert_eq!(m, "expected repo for target completion"),
        other => panic!("unexpected {other:?}"),
    }
}

#[test]
fn complete_fails_clearly_for_corrupt_cache_without_git() {
    let error = AppError::ParseJson {
        kind: "cache".to_string(),
        path: "/tmp/t/cache/workroot/index.json".to_string(),
        source: "expected value at line 1 column 1".to_string(),
    };
    assert_eq!(error.exit_code(), 7);
    assert!(error.message().contains("could not parse JSON cache file"));
}

#[test]
fn status_can_filter_to_one_target() {
    let auth = "/tmp/t/auth";
    let docs = "/tmp/t/docs";
    let cache = cache_with_worktrees(auth, &[(docs, "docs")]);
    let inventory = TmuxInventory { panes: Vec::new(), available: false };
    let probes = existing(&[auth, docs]);
    let view = radar_view_from_cache(&cache, &[], Some("jam"), Some("auth"), &inventory, &probes);
    assert_eq!(view.summary.worktrees, 1);
    assert_eq!(view.idle.len(), 1);
    assert_eq!(view.idle[0].repo, "jam");
    assert_eq!(view.idle[0].target, "auth");
    assert_eq!(view.idle[0].path, auth);
    let output = workroot::status::render_radar_view(&view, false);
    assert!(output.contains("worktrees=1"));
    assert!(output.contains(auth));
    assert!(!output.contains(docs));
}

#[test]
fn discover_path_rejects_ignored_repo_until_unignored() {
    let mut state = State::default();
    state.ignored_repos.push(IgnoredRepo {
        alias: None,
        canonical_path: "/tmp/t/repo".to_string(),
        git_common_dir: "/tmp/t/repo/.git".to_string(),
    });
    assert!(is_ignored(&state, "/tmp/t/repo", "/tmp/t/repo/.git"));
    let error = ignored_path_error("/tmp/t/repo");
    assert!(error.message().contains("is ignored"));
    assert!(error.message().contains("workroot unignore /tmp/t/repo"));
    assert_eq!(apply_unignore(&mut state, "/tmp/t/repo", Some("/tmp/t/repo/.git"), "/tmp/t/repo").unwrap(), "unignored /tmp/t/repo\n");
    assert!(!is_ignored(&state, "/tmp/t/repo", "/tmp/t/repo/.git"));
}

#[test]
fn scan_uses_configured_roots_and_discovers_siblings_outside_roots() {
    let mut config = Config::default();
    config.scan_roots.push("/srv/code".to_string());
    assert_eq!(
        scan_roots(&config, Some("/home/u")).unwrap(),
        vec!["/home/u/.worktrees", "/home/u/.worktree", "/home/u/worktrees", "/srv/code"]
    );
    assert_eq!(scan_roots(&config, None).unwrap(), vec!["/srv/code"]);
    assert_eq!(scan_roots(&Config::default(), None).unwrap_err(), AppError::MissingHome);
}

#[test]
fn run_creates_managed_tmux_session_for_target() {
    let mut state = State::default();
    let name = sanitize_tmux_session_name("jam", "auth");
    let command = CommandSpec::new(vec!["make".to_string(), "dev".to_string()]).unwrap();
    let plan = plan_pair(&mut state, "jam", "auth", &command, &name, ExistingSession::Missing).unwrap();
    assert_eq!(plan, PairPlan::Create);
    upsert_running_session(&mut state, "jam".to_string(), "auth".to_string(), "/tmp/t/auth".to_string(), &command, name.clone());
    let i = find_session(&state, "jam", "auth").unwrap();
    assert_eq!(state.sessions[i].tmux_session_name, name);
    assert!(name.starts_with("workroot-"));
    assert_eq!(state.sessions[i].status, SessionStatus::Running);
    assert_eq!(state.sessions[i].backend, SessionBackend::Tmux);
}

#[test]
fn status_renders_managed_and_unmapped_tmux_inventory() {
    let auth = "/tmp/t/auth";
    let cache = cache_with_worktrees(auth, &[]);
    let sessions = vec![SessionRecord {
        repo_alias: "jam".to_string(),
        target: "auth".to_string(),
        worktree_path: auth.to_string(),
        backend: SessionBackend::Tmux,
        command: vec!["make".to_string()],
        tmux_session_name: "workroot-jam-auth".to_string(),
        status: SessionStatus::Running,
    }];
    let inventory = TmuxInventory {
        panes: vec![
            workroot::session::TmuxPane {
                session_name: "workroot-jam-auth".to_string(),
                current_path: auth.to_string(),
                current_command: "make".to_string(),
            },
            workroot::session::TmuxPane {
                session_name: "scratch".to_string(),
                current_path: "/elsewhere".to_string(),
                current_command: "vim".to_string(),
            },
        ],
        available: true,
    };
    let output = radar_output(&cache, &sessions, &inventory, &existing(&[auth]), false);
    assert!(output.contains("ACTIVE PROCESSES"));
    assert!(output.contains("workroot-jam-auth"));
    assert!(output.contains("UNMAPPED TMUX"));
    assert!(output.contains("scratch"));
}

#[test]
fn pair_creates_command_and_shell_panes_with_tmux_boundary_quoting() {
    let name = sanitize_tmux_session_name("jam repo", "auth/flow");
    let command = CommandSpec::new(
        ["runner", "run this", "it's", "$literal", "semi;colon"].iter().map(|s| s.to_string()).collect(),
    )
    .unwrap();
    let create = workroot::session::new_session_args(&name, "/tmp/t/auth", &command);
    assert_eq!(&create[..6], &["new-session", "-d", "-s", name.as_str(), "-c", "/tmp/t/auth"]);
    assert_eq!(create[6], "runner 'run this' 'it'\\''s' '$literal' 'semi;colon'");
    let split = workroot::session::split_window_args(&name, "/tmp/t/auth");
    assert_eq!(split, vec!["split-window", "-h", "-t", name.as_str(), "-c", "/tmp/t/auth"]);
    let mut state = State::default();
    assert_eq!(plan_pair(&mut state, "jam", "auth", &command, &name, ExistingSession::Missing).unwrap(), PairPlan::Create);
    upsert_running_session(&mut state, "jam".to_string(), "auth".to_string(), "/tmp/t/auth".to_string(), &command, name);
    assert_eq!(state.sessions.len(), 1);
    assert_eq!(state.sessions[0].command, vec!["runner", "run this", "it's", "$literal", "semi;colon"]);
    assert_eq!(state.sessions[0].status, SessionStatus::Running);
}

#[test]
fn pair_existing_managed_session_warns_on_different_command_and_attaches() {
    let mut state = State::default();
    let name = sanitize_tmux_session_name("jam", "auth");
    let old = CommandSpec::new(vec!["old".to_string()]).unwrap();
    upsert_running_session(&mut state, "jam".to_string(), "auth".to_string(), "/tmp/t/auth".to_string(), &old, name.clone());
    let runner = CommandSpec::new(vec!["runner".to_string()]).unwrap();
    match plan_pair(&mut state, "jam", "auth", &runner, &name, ExistingSession::Running).unwrap() {
        PairPlan::Attach { warning: Some(w) } => assert!(w.contains("warning: existing Workroot session")),
        other => panic!("unexpected {other:?}"),
    }
    assert_eq!(state.sessions[0].status, SessionStatus::Running);
}

#[test]
fn status_json_can_filter_to_one_target() {
    let auth = "/tmp/t/auth";
    let docs = "/tmp/t/docs";
    let cache = cache_with_worktrees(auth, &[(docs, "docs")]);
    let inventory = TmuxInventory { panes: Vec::new(), available: false };
    let view = radar_view_from_cache(&cache, &[], Some("jam"), Some("auth"), &inventory, &existing(&[auth, docs]));
    assert_eq!(view.summary.worktrees, 1);
    assert_eq!(view.idle[0].repo, "jam");
    assert_eq!(view.idle[0].target, "auth");
    assert_eq!(view.idle[0].path, auth);
}
