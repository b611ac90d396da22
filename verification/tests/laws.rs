use workroot::cli::{
    completion_text, list_repo_filter, output_or_text, path_line, status_output_format, trim_newlines, OutputFormat,
};
use workroot::discovery::{merge_families_with, unique_alias, Family};
use workroot::domain::{
    Cache, Config, DirtyState, IgnoredRepo, RepoRecord, RepoSource, SessionStatus, State, WorktreeRecord,
    WorktreeSource,
};
use workroot::error::AppError;
use workroot::facts::{observe_paths, PathFacts};
use workroot::git::{
    absolutize_git_path, current_branch_from, dirty_answer, git_failure, parse_cherry_output, query_value,
    remote_default_branch_from, repository_from_rev_parse, yes_no_from_exit, GitRepository, GitWorktreeEntry,
};
use workroot::ignore::{apply_ignore, apply_unignore, ignore_entry, ignored_message, is_ignored};
use workroot::lineage::{owner_of, parse_github_slug, short};
use workroot::resolver::pick_index;
use workroot::scanning::family_from;
use workroot::session::{
    find_session, new_session_args, plan_pair, posix_quote, settle_attach, split_window_args, stable_hash,
    upsert_running_session, CommandSpec, ExistingSession, PairPlan,
};
use workroot::status::{
    apply_dirty_refresh, branch_from_symbolic_ref, dirty_from_porcelain, head_from_rev_parse, list_output,
    session_status_from_has_session, status_output, BranchDisplay, LiveProbes,
};
use workroot::storage::{
    is_blank, lock_file_name, reject_future_schema, temp_file_name, StorageEnv, StoragePaths,
};
use workroot::text::decimal;

fn repo(alias: &str, path: &str) -> RepoRecord {
    RepoRecord {
        alias: alias.to_string(),
        display_name: alias.to_string(),
        canonical_path: path.to_string(),
        git_common_dir: format!("{path}/.git"),
        base_branch: Some("main".to_string()),
        source: RepoSource::Adopted,
        stale: false,
    }
}

fn worktree(alias: &str, target: &str, branch: &str, path: &str) -> WorktreeRecord {
    WorktreeRecord {
        repo_alias: alias.to_string(),
        target: target.to_string(),
        display_name: target.to_string(),
        branch: Some(branch.to_string()),
        path: path.to_string(),
        source: WorktreeSource::Workroot,
        dirty: DirtyState::Clean,
        last_seen_unix: None,
        stale: false,
        detached: false,
    }
}

fn two_repo_cache() -> Cache {
    let mut cache = Cache::default();
    cache.repos.push(repo("api", "/w/api"));
    cache.repos.push(repo("web", "/w/web"));
    cache.worktrees.push(worktree("api", "base", "main", "/w/api"));
    cache.worktrees.push(worktree("api", "fix", "fix", "/w/managed/api/fix"));
    cache.worktrees.push(worktree("web", "base", "main", "/w/web"));
    cache
}

fn command(args: &[&str]) -> CommandSpec {
    CommandSpec::new(args.iter().map(|a| a.to_string()).collect()).unwrap()
}

#[test]
fn posix_quote_reads_back_as_the_word() {
    assert_eq!(posix_quote(""), "''");
    assert_eq!(posix_quote("plain-word_1.2/x"), "plain-word_1.2/x");
    assert_eq!(posix_quote("two words"), "'two words'");
    assert_eq!(posix_quote("it's"), "'it'\\''s'");
    assert_eq!(command(&["echo", "a b", "c"]).to_posix_shell_command(), "echo 'a b' c");
}

#[test]
fn upsert_then_find_returns_the_running_session() {
    let mut state = State::default();
    upsert_running_session(
        &mut state,
        "api".to_string(),
        "fix".to_string(),
        "/w/managed/api/fix".to_string(),
        &command(&["cargo", "test"]),
        "workroot-api-fix".to_string(),
    );
    upsert_running_session(
        &mut state,
        "api".to_string(),
        "fix".to_string(),
        "/w/managed/api/fix".to_string(),
        &command(&["npm", "start"]),
        "workroot-api-fix".to_string(),
    );
    assert_eq!(state.sessions.len(), 1);
    let i = find_session(&state, "api", "fix").unwrap();
    assert_eq!(state.sessions[i].command, vec!["npm".to_string(), "start".to_string()]);
    assert_eq!(state.sessions[i].status, SessionStatus::Running);
    assert_eq!(find_session(&state, "api", "other"), None);
}

#[test]
fn pair_attaches_with_warning_and_recreates_missing_sessions() {
    let mut state = State::default();
    upsert_running_session(
        &mut state,
        "api".to_string(),
        "fix".to_string(),
        "/w/managed/api/fix".to_string(),
        &command(&["cargo", "test"]),
        "workroot-api-fix".to_string(),
    );
    let plan = plan_pair(&mut state, "api", "fix", &command(&["npm", "start"]), "workroot-api-fix", ExistingSession::Running)
        .unwrap();
    assert_eq!(
        plan,
        PairPlan::Attach {
            warning: Some(
                "warning: existing Workroot session `workroot-api-fix` was started with `cargo test`; attaching instead of replacing it"
                    .to_string()
            )
        }
    );
    let same = plan_pair(&mut state, "api", "fix", &command(&["cargo", "test"]), "workroot-api-fix", ExistingSession::Running)
        .unwrap();
    assert_eq!(same, PairPlan::Attach { warning: None });
    let plan = plan_pair(&mut state, "api", "fix", &command(&["cargo", "test"]), "workroot-api-fix", ExistingSession::Missing)
        .unwrap();
    assert_eq!(plan, PairPlan::Create);
    assert_eq!(state.sessions[0].status, SessionStatus::Exited);
    match plan_pair(&mut state, "web", "base", &command(&["x"]), "workroot-web-base", ExistingSession::Running) {
        Err(AppError::ManagedSessionNotFound { repo, target }) => assert_eq!((repo.as_str(), target.as_str()), ("web", "base")),
        other => panic!("unexpected {other:?}"),
    }
}

#[test]
fn attach_marks_killed_managed_session_exited() {
    let mut state = State::default();
    upsert_running_session(
        &mut state,
        "api".to_string(),
        "fix".to_string(),
        "/w/managed/api/fix".to_string(),
        &command(&["sleep", "100"]),
        "workroot-api-fix".to_string(),
    );
    let err = settle_attach(&mut state, 0, "api", "fix", ExistingSession::Missing).unwrap_err();
    assert_eq!(err, AppError::ManagedSessionNotFound { repo: "api".to_string(), target: "fix".to_string() });
    assert_eq!(state.sessions[0].status, SessionStatus::Exited);
    settle_attach(&mut state, 0, "api", "fix", ExistingSession::Running).unwrap();
    assert_eq!(state.sessions[0].status, SessionStatus::Running);
}

#[test]
fn tmux_arguments_keep_the_command_one_shell_word_list() {
    let args = new_session_args("workroot-api-fix", "/w/a b", &command(&["echo", "hi there"]));
    assert_eq!(args, vec!["new-session", "-d", "-s", "workroot-api-fix", "-c", "/w/a b", "echo 'hi there'"]);
    assert_eq!(split_window_args("s", "/w"), vec!["split-window", "-h", "-t", "s", "-c", "/w"]);
}

#[test]
fn stable_hash_is_fnv1a() {
    assert_eq!(stable_hash(""), 0x811c9dc5);
    assert_eq!(stable_hash("a"), 0xe40c292c);
}

#[test]
fn unique_alias_is_never_taken() {
    let mut repos = vec![repo("api", "/w/api")];
    assert_eq!(unique_alias(&repos, "web"), "web");
    assert_eq!(unique_alias(&repos, "api"), "api-2");
    repos.push(repo("api-2", "/w/api2"));
    assert_eq!(unique_alias(&repos, "api"), "api-3");
}

fn entry(path: &str, branch: &str) -> GitWorktreeEntry {
    GitWorktreeEntry {
        path: path.to_string(),
        head: Some("abc".to_string()),
        branch: Some(branch.to_string()),
        detached: false,
        bare: false,
    }
}

fn family(path: &str, display: &str, worktrees: Vec<GitWorktreeEntry>) -> Family {
    Family {
        common_dir: format!("{path}/.git"),
        canonical_path: path.to_string(),
        display_name: display.to_string(),
        base_branch: Some("main".to_string()),
        source: RepoSource::Adopted,
        worktrees,
    }
}

fn facts_for(paths: &[&str]) -> PathFacts {
    PathFacts { existing: paths.iter().map(|p| p.to_string()).collect(), canonical: Vec::new() }
}

#[test]
fn alias_and_target_collisions_receive_stable_suffixes() {
    let one = family(
        "/t/one/jam",
        "jam",
        vec![entry("/t/one/jam", "main"), entry("/t/worktrees-a/dup", "feat-a"), entry("/t/worktrees-b/dup", "feat-b")],
    );
    let two = family("/t/two/jam", "jam", vec![entry("/t/two/jam", "main")]);
    let facts = facts_for(&["/t/one/jam", "/t/worktrees-a/dup", "/t/worktrees-b/dup", "/t/two/jam"]);
    let mut state = State::default();
    let mut cache = Cache::default();
    merge_families_with(&mut state, &mut cache, &vec![one], &facts, 1_700_000_000);
    merge_families_with(&mut state, &mut cache, &vec![two], &facts, 1_700_000_000);

    assert!(cache.repos.iter().any(|repo| repo.alias == "jam"));
    assert!(cache.repos.iter().any(|repo| repo.alias == "jam-2"));
    let targets: Vec<&str> =
        cache.worktrees.iter().filter(|w| w.repo_alias == "jam").map(|w| w.target.as_str()).collect();
    assert!(targets.contains(&"dup"));
    assert!(targets.contains(&"dup-2"));
    assert!(cache.worktrees.iter().all(|w| w.last_seen_unix == Some(1_700_000_000)));
    assert_eq!(state.repos.len(), 2);

    // Merging the first family again keeps every alias and target.
    let again = family(
        "/t/one/jam",
        "jam",
        vec![entry("/t/one/jam", "main"), entry("/t/worktrees-a/dup", "feat-a"), entry("/t/worktrees-b/dup", "feat-b")],
    );
    let before: Vec<(String, String, String)> =
        cache.worktrees.iter().map(|w| (w.repo_alias.clone(), w.target.clone(), w.path.clone())).collect();
    merge_families_with(&mut state, &mut cache, &vec![again], &facts, 1_700_000_100);
    let after: Vec<(String, String, String)> =
        cache.worktrees.iter().map(|w| (w.repo_alias.clone(), w.target.clone(), w.path.clone())).collect();
    assert_eq!(before, after);
    assert_eq!(cache.repos.len(), 2);
}

#[test]
fn discover_path_indexes_one_repo_family_as_explicit() {
    let f = family(
        "/t/repo with spaces",
        "repo with spaces",
        vec![entry("/t/repo with spaces", "main"), entry("/t/outside root/base", "feature")],
    );
    let facts = facts_for(&["/t/repo with spaces", "/t/outside root/base"]);
    let mut state = State::default();
    let mut cache = Cache::default();
    merge_families_with(&mut state, &mut cache, &vec![f], &facts, 0);
    assert_eq!(cache.repos[0].alias, "repo with spaces");
    assert_eq!(cache.repos[0].source, RepoSource::Adopted);
    assert_eq!(cache.worktrees.len(), 2);
    assert!(cache.worktrees.iter().any(|w| w.target == "base" && w.path == "/t/repo with spaces"));
    assert!(cache.worktrees.iter().any(|w| w.target == "base-2" && w.path == "/t/outside root/base"));
}

#[test]
fn scan_marks_missing_worktree_paths_stale_without_deleting_state() {
    let f = family("/t/repo", "repo", vec![entry("/t/repo", "main"), entry("/t/wt", "feature")]);
    let mut state = State::default();
    let mut cache = Cache::default();
    merge_families_with(&mut state, &mut cache, &vec![f], &facts_for(&["/t/repo", "/t/wt"]), 0);
    let rescanned: Vec<Family> = Vec::new();
    merge_families_with(&mut state, &mut cache, &rescanned, &facts_for(&["/t/repo"]), 0);
    let stale = cache.worktrees.iter().find(|w| w.branch.as_deref() == Some("feature")).unwrap();
    assert!(stale.stale);
    assert_eq!(state.repos.len(), 1);
}

#[test]
fn ignore_removes_repo_and_blocks_future_discovery_until_unignored() {
    let mut state = State::default();
    let mut cache = two_repo_cache();
    let entry = ignore_entry(&cache, "api", None).unwrap();
    assert_eq!(
        entry,
        IgnoredRepo {
            alias: Some("api".to_string()),
            canonical_path: "/w/api".to_string(),
            git_common_dir: "/w/api/.git".to_string(),
        }
    );
    apply_ignore(&mut state, &mut cache, &entry);
    assert_eq!(ignored_message(&entry), "ignored /w/api\n");
    assert!(is_ignored(&state, "/w/api", "/w/api/.git"));
    assert!(is_ignored(&state, "/elsewhere", "/w/api/.git"));
    assert!(!is_ignored(&state, "/w/web", "/w/web/.git"));
    assert!(cache.repos.iter().all(|r| r.alias != "api"));
    assert!(cache.worktrees.iter().all(|w| w.repo_alias != "api"));
    assert_eq!(cache.worktrees.len(), 1);
    assert_eq!(state.ignored_repos.len(), 1);

    assert_eq!(apply_unignore(&mut state, "/w/api", None, "api").unwrap(), "unignored api\n");
    assert!(!is_ignored(&state, "/w/api", "/w/api/.git"));
}

#[test]
fn unignore_rejects_unknown_entry() {
    let mut state = State::default();
    match apply_unignore(&mut state, "/nowhere", None, "nowhere") {
        Err(e) => assert_eq!(e.message(), "invalid command: ignored repo `nowhere` was not found"),
        Ok(m) => panic!("unexpected success {m}"),
    }
}

#[test]
fn list_without_filter_is_the_status_table() {
    let cache = two_repo_cache();
    let probes = LiveProbes::none();
    assert_eq!(list_output(&cache, None, &probes), status_output(&cache, &probes));
    let filtered = list_output(&cache, Some("api"), &probes);
    assert!(filtered.contains("/w/managed/api/fix"));
    assert!(filtered.contains("/w/api"));
    assert!(!filtered.contains("/w/web"));
}

#[test]
fn dirty_refresh_updates_each_worktree_with_an_answer() {
    let mut cache = two_repo_cache();
    apply_dirty_refresh(&mut cache, &vec![Some(DirtyState::Dirty { files: 2 }), None, Some(DirtyState::Clean)]);
    assert_eq!(cache.worktrees[0].dirty, DirtyState::Dirty { files: 2 });
    assert_eq!(cache.worktrees[1].dirty, DirtyState::Clean);
    assert_eq!(cache.worktrees[2].dirty, DirtyState::Clean);
}

#[test]
fn git_answers_are_read_exactly() {
    assert_eq!(dirty_from_porcelain(true, " M a\n?? b\n\n"), DirtyState::Dirty { files: 2 });
    assert_eq!(dirty_from_porcelain(true, ""), DirtyState::Clean);
    assert_eq!(dirty_from_porcelain(false, " M a\n"), DirtyState::Unknown);
    assert_eq!(branch_from_symbolic_ref(true, "feature\n"), BranchDisplay::Named("feature".to_string()));
    assert_eq!(head_from_rev_parse(true, "abc123\n"), Some("abc123".to_string()));
    assert_eq!(head_from_rev_parse(false, "abc123\n"), None);
    assert_eq!(session_status_from_has_session(true, true), SessionStatus::Running);
    assert_eq!(session_status_from_has_session(true, false), SessionStatus::Exited);
    assert_eq!(session_status_from_has_session(false, false), SessionStatus::Unknown);
    assert_eq!(query_value(true, "  value \n"), Some("value".to_string()));
    assert_eq!(query_value(true, " \n"), None);
    assert_eq!(query_value(false, "value"), None);
    assert_eq!(current_branch_from("main\n"), Some("main".to_string()));
    assert_eq!(current_branch_from("\n"), None);
    assert_eq!(remote_default_branch_from("origin/main\n"), Some("main".to_string()));
    assert_eq!(yes_no_from_exit(Some(0)), Some(true));
    assert_eq!(yes_no_from_exit(Some(1)), Some(false));
    assert_eq!(yes_no_from_exit(Some(128)), None);
    assert_eq!(yes_no_from_exit(None), None);
    assert_eq!(absolutize_git_path("/w/repo", ".git"), "/w/repo/.git");
    assert_eq!(absolutize_git_path("/w/repo", "/abs/.git"), "/abs/.git");
    let marks = parse_cherry_output("- aaa\n+ bbb\nnoise\n");
    assert_eq!(marks.len(), 2);
    assert!(marks[0].applied && marks[0].commit == "aaa");
    assert!(!marks[1].applied && marks[1].commit == "bbb");
}

#[test]
fn commit_ids_and_remotes_are_shortened_and_split() {
    assert_eq!(short("0123456789abcdef"), "01234567");
    assert_eq!(short("abc"), "abc");
    assert_eq!(parse_github_slug("https://github.com/acme/widget"), Some("acme/widget".to_string()));
    assert_eq!(parse_github_slug("https://gitlab.com/acme/widget.git"), None);
    assert_eq!(owner_of("acme/widget"), "acme");
    assert_eq!(decimal(0), "0");
    assert_eq!(decimal(1234567), "1234567");
}

#[test]
fn storage_paths_follow_environment_precedence() {
    let env = StorageEnv {
        workroot_config_home: None,
        rostrum_config_home: None,
        xdg_config_home: Some("/xdg/config".to_string()),
        workroot_state_home: Some("/wr/state".to_string()),
        rostrum_state_home: Some("/ro/state".to_string()),
        xdg_state_home: None,
        workroot_cache_home: None,
        rostrum_cache_home: None,
        xdg_cache_home: None,
        home: Some("/home/u".to_string()),
    };
    assert_eq!(
        StoragePaths::default_for_user(&env).unwrap(),
        StoragePaths {
            config: "/xdg/config/workroot/config.toml".to_string(),
            state: "/wr/state/workroot/state.json".to_string(),
            cache: "/home/u/.cache/workroot/index.json".to_string(),
        }
    );
    let bare = StorageEnv { home: None, xdg_config_home: None, ..env };
    assert_eq!(StoragePaths::default_for_user(&bare).unwrap_err(), AppError::MissingHome);
    assert_eq!(lock_file_name("/s/state.json"), "state.json.lock");
    assert_eq!(temp_file_name("/s/state.json", 42), ".state.json.42.tmp");
    assert!(is_blank(" \n\t"));
    assert!(!is_blank(" {} "));
    assert!(reject_future_schema(1).is_ok());
    assert_eq!(reject_future_schema(2).unwrap_err(), AppError::FutureSchema { found: 2, supported: 1 });
}

#[test]
fn errors_carry_exit_codes_and_guidance() {
    assert_eq!(AppError::InvalidCommand("x".to_string()).exit_code(), 2);
    assert_eq!(AppError::RepoNotFound("x".to_string()).exit_code(), 4);
    assert_eq!(AppError::StaleWorktree("/p".to_string()).exit_code(), 5);
    assert_eq!(AppError::FutureSchema { found: 9, supported: 1 }.exit_code(), 6);
    assert_eq!(AppError::MissingHome.exit_code(), 7);
    assert_eq!(
        AppError::FutureSchema { found: 9, supported: 1 }.message(),
        "state schema version 9 is newer than supported version 1; upgrade Workroot"
    );
    assert_eq!(
        AppError::RepoNotFound("jam".to_string()).message(),
        "repo `jam` was not found\nfix: run `workroot discover` or `workroot discover <path-to-repo>`\nthen: run `workroot status`"
    );
    assert_eq!(
        AppError::UnsupportedShell("tcsh".to_string()).message(),
        "unsupported shell `tcsh`; supported shells: zsh, bash, fish"
    );
}

#[test]
fn cli_decisions_match_the_flags() {
    assert_eq!(output_or_text(None), OutputFormat::Text);
    assert_eq!(status_output_format(true, None).unwrap(), OutputFormat::Json);
    assert!(status_output_format(true, Some(OutputFormat::Text)).is_err());
    assert_eq!(status_output_format(false, None).unwrap(), OutputFormat::Text);
    assert_eq!(list_repo_filter(Some("a"), None).unwrap(), Some("a"));
    assert_eq!(list_repo_filter(None, Some("b")).unwrap(), Some("b"));
    assert!(list_repo_filter(Some("a"), Some("b")).is_err());
    assert_eq!(completion_text(&vec!["a".to_string(), "b".to_string()]), "a\nb\n");
    assert_eq!(completion_text(&Vec::new()), "");
    assert_eq!(path_line("/w/x"), "/w/x\n");
    assert_eq!(trim_newlines("abc\n\n"), "abc");
    assert_eq!(trim_newlines("abc\r\n"), "abc\r");
}

#[test]
fn observing_paths_records_each_path() {
    let paths = vec!["/definitely/missing/workroot/a".to_string(), "/".to_string()];
    let facts = observe_paths(&paths);
    assert_eq!(facts.canonical.len(), 2);
    assert_eq!(facts.canonical[0].0, "/definitely/missing/workroot/a");
    assert_eq!(facts.canonical[0].1, "/definitely/missing/workroot/a");
    assert!(facts.existing.contains(&"/".to_string()));
    assert!(!facts.existing.contains(&"/definitely/missing/workroot/a".to_string()));
}

#[test]
fn default_config_and_state_are_empty() {
    let c = Config::default();
    assert_eq!(c.schema_version, 1);
    assert!(c.scan_roots.is_empty() && c.repos.is_empty() && c.default_worktree_root.is_none());
    let s = State::default();
    assert!(s.sessions.is_empty() && s.ignored_repos.is_empty());
}

#[test]
fn rev_parse_output_names_the_repository() {
    assert_eq!(
        repository_from_rev_parse("/w/repo/sub", ".git\n/w/repo\n").unwrap(),
        ("/w/repo".to_string(), "/w/repo/sub/.git".to_string())
    );
    assert_eq!(
        repository_from_rev_parse("/w", "/abs/common\r\n/w/top").unwrap(),
        ("/w/top".to_string(), "/abs/common".to_string())
    );
    assert_eq!(
        repository_from_rev_parse("/w", "").unwrap_err(),
        AppError::Git("rev-parse did not return git common dir".to_string())
    );
    assert_eq!(
        repository_from_rev_parse("/w", ".git\n").unwrap_err(),
        AppError::Git("rev-parse did not return top level".to_string())
    );
}

#[test]
fn git_failures_carry_the_error_output() {
    assert_eq!(git_failure("  fatal: bad\n", "/w"), AppError::Git("fatal: bad".to_string()));
    assert_eq!(git_failure(" \n", "/w"), AppError::Git("git failed in /w".to_string()));
    assert_eq!(dirty_answer(true, " M a\n", "", "/w"), Ok(true));
    assert_eq!(dirty_answer(true, "\n", "", "/w"), Ok(false));
    assert_eq!(
        dirty_answer(false, "", "", "/w"),
        Err(AppError::Git("failed to inspect dirty state in /w".to_string()))
    );
    assert_eq!(dirty_answer(false, "", "boom\n", "/w"), Err(AppError::Git("boom".to_string())));
}

#[test]
fn picked_target_numbers_count_from_one() {
    assert_eq!(pick_index("2\n", 3), Ok(1));
    assert_eq!(pick_index(" +1 ", 3), Ok(0));
    assert_eq!(pick_index("0", 3), Ok(0));
    assert_eq!(pick_index("4", 3), Err(AppError::Picker("target number 4 is out of range".to_string())));
    assert_eq!(pick_index("two", 3), Err(AppError::Picker("expected a target number".to_string())));
    assert_eq!(pick_index("", 3), Err(AppError::Picker("expected a target number".to_string())));
    assert_eq!(
        pick_index("99999999999999999999999", 3),
        Err(AppError::Picker("expected a target number".to_string()))
    );
}

#[test]
fn adopt_linked_worktree_registers_the_base_family() {
    let root = GitRepository { top_level: "/t/wt".to_string(), common_dir: "/t/repo/.git".to_string() };
    let entries = vec![entry("/t/repo", "main"), entry("/t/wt", "feature")];
    let facts = facts_for(&["/t/repo", "/t/wt"]);
    let f = family_from(&root, &entries, RepoSource::Adopted, &facts);
    assert_eq!(f.canonical_path, "/t/repo");
    assert_eq!(f.display_name, "repo");
    assert_eq!(f.base_branch, Some("main".to_string()));
    let mut state = State::default();
    let mut cache = Cache::default();
    merge_families_with(&mut state, &mut cache, &vec![f], &facts, 0);
    assert_eq!(cache.repos[0].canonical_path, "/t/repo");
    assert_eq!(cache.worktrees.len(), 2);
}

#[test]
fn adopt_base_discovers_linked_worktrees_and_preserves_paths_with_spaces() {
    let root = GitRepository { top_level: "/t/repo with spaces".to_string(), common_dir: "/t/repo with spaces/.git".to_string() };
    let entries = vec![entry("/t/repo with spaces", "main"), entry("/t/linked tree", "feature")];
    let facts = facts_for(&["/t/repo with spaces", "/t/linked tree"]);
    let f = family_from(&root, &entries, RepoSource::Adopted, &facts);
    let mut state = State::default();
    let mut cache = Cache::default();
    merge_families_with(&mut state, &mut cache, &vec![f], &facts, 0);
    assert_eq!(cache.repos[0].alias, "repo with spaces");
    assert_eq!(cache.worktrees.len(), 2);
    assert!(cache.worktrees.iter().any(|w| w.target == "base" && w.path == "/t/repo with spaces"));
    assert!(cache.worktrees.iter().any(|w| w.target == "linked tree" && w.path == "/t/linked tree"));
}
