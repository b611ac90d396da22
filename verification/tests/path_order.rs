use workroot::domain::{Cache, DirtyState, WorktreeRecord, WorktreeSource};
use workroot::paths::{path_components, path_precedes, same_path};
use workroot::prune::{sort_candidates, MergedWorktreeCandidate};
use workroot::session::TmuxPane;
use workroot::status::radar::unmapped_tmux_panes;
use workroot::status::{sorted_worktrees, LiveProbes, TmuxInventory};

fn worktree(target: &str, path: &str) -> WorktreeRecord {
    WorktreeRecord {
        repo_alias: "jam".to_string(),
        target: target.to_string(),
        display_name: target.to_string(),
        branch: None,
        path: path.to_string(),
        source: WorktreeSource::Manual,
        dirty: DirtyState::Clean,
        last_seen_unix: None,
        stale: false,
        detached: false,
    }
}

fn candidate(path: &str) -> MergedWorktreeCandidate {
    MergedWorktreeCandidate {
        repo: "jam".to_string(),
        target: "t".to_string(),
        base_branch: "main".to_string(),
        worktree_branch: "t".to_string(),
        base_summary: String::new(),
        head_summary: String::new(),
        proof: "ancestry".to_string(),
        evidence: Vec::new(),
        path: path.to_string(),
    }
}

fn pane(session: &str, path: &str, command: &str) -> TmuxPane {
    TmuxPane {
        session_name: session.to_string(),
        current_path: path.to_string(),
        current_command: command.to_string(),
    }
}

#[test]
fn path_components_follow_std_path() {
    assert_eq!(path_components("/a//b/./c/"), vec!["/", "a", "b", "c"]);
    assert_eq!(path_components("./x/../y"), vec![".", "x", "..", "y"]);
    assert_eq!(path_components("a/b"), vec!["a", "b"]);
    assert!(path_components("").is_empty());
}

#[test]
fn paths_compare_component_by_component() {
    // '-' sorts before '/' as text, but "a" is a prefix of "a-b" as a component.
    assert!(path_precedes("/a/b", "/a-b"));
    assert!(!path_precedes("/a-b", "/a/b"));
    assert!(path_precedes("/a", "/a/b"));
    assert!(!path_precedes("/a/", "/a"));
    assert!(!path_precedes("/a", "/a/"));
    assert!(path_precedes("/z", "a"));
}

#[test]
fn same_path_ignores_redundant_separators() {
    assert!(same_path("/tmp/x/", "/tmp/x"));
    assert!(same_path("/tmp//x", "/tmp/./x"));
    assert!(!same_path("/tmp/x", "/tmp/y"));
    assert!(!same_path("/tmp/x", "tmp/x"));
}

#[test]
fn worktrees_sort_by_path_components() {
    let v = vec![worktree("t", "/w/a-b"), worktree("t", "/w/a/b")];
    let sorted = sorted_worktrees(&v);
    assert_eq!(sorted[0].path, "/w/a/b");
    assert_eq!(sorted[1].path, "/w/a-b");
}

#[test]
fn candidates_sort_by_path_components() {
    let v = vec![candidate("/w/a-b"), candidate("/w/a/b")];
    let sorted = sort_candidates(&v);
    assert_eq!(sorted[0].path, "/w/a/b");
    assert_eq!(sorted[1].path, "/w/a-b");
}

#[test]
fn unmapped_panes_in_one_directory_are_listed_once() {
    let cache = Cache { schema_version: 1, repos: Vec::new(), worktrees: Vec::new(), last_scan_unix: None };
    let inventory = TmuxInventory {
        available: true,
        panes: vec![
            pane("scratch", "/tmp/outside/", "bash"),
            pane("scratch", "/tmp/outside", "bash"),
            pane("scratch", "/tmp/outside", "vim"),
        ],
    };
    let rows = unmapped_tmux_panes(&cache, &[], &inventory, &LiveProbes::none());
    // The first pane of a key is kept; rows then sort by their text.
    assert_eq!(rows.len(), 2);
    assert_eq!(rows[0].cwd, "/tmp/outside");
    assert_eq!(rows[0].command, "vim");
    assert_eq!(rows[1].cwd, "/tmp/outside/");
    assert_eq!(rows[1].command, "bash");
}

#[test]
fn ignored_entries_match_paths_component_wise() {
    let mut state = workroot::domain::State::default();
    state.ignored_repos.push(workroot::domain::IgnoredRepo {
        alias: None,
        canonical_path: "/t/repo".to_string(),
        git_common_dir: "/t/repo/.git".to_string(),
    });
    assert!(workroot::ignore::is_ignored(&state, "/t/repo/", "/elsewhere/.git"));
    assert!(workroot::ignore::is_ignored(&state, "/t/other", "/t/repo//.git"));
    assert!(!workroot::ignore::is_ignored(&state, "/t/repo2", "/t/repo2/.git"));
    let r = workroot::ignore::apply_unignore(&mut state, "/t/repo/", None, "/t/repo/");
    assert_eq!(r.ok(), Some("unignored /t/repo/\n".to_string()));
    assert!(state.ignored_repos.is_empty());
}

#[test]
fn scan_takes_one_repo_per_common_directory_as_a_path() {
    let state = workroot::domain::State::default();
    let found = vec![
        workroot::git::GitRepository { top_level: "/t/a".to_string(), common_dir: "/t/a/.git".to_string() },
        workroot::git::GitRepository { top_level: "/t/a-link".to_string(), common_dir: "/t/a/.git/".to_string() },
        workroot::git::GitRepository { top_level: "/t/b".to_string(), common_dir: "/t/b/.git".to_string() },
    ];
    let facts = workroot::facts::PathFacts { existing: Vec::new(), canonical: Vec::new() };
    let picked = workroot::scanning::scan_pick(&state, &found, &facts);
    let tops: Vec<&str> = picked.iter().map(|g| g.top_level.as_str()).collect();
    assert_eq!(tops, vec!["/t/a", "/t/b"]);
}

#[test]
fn adopting_a_path_twice_records_it_once() {
    let mut state = workroot::domain::State::default();
    workroot::scanning::add_adopted(&mut state, "/t/repo");
    workroot::scanning::add_adopted(&mut state, "/t/repo/");
    assert_eq!(state.adopted_paths, vec!["/t/repo".to_string()]);
}
