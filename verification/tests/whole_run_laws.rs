use workroot::discovery::{merge_families_with, Family};
use workroot::domain::{
    Cache, DirtyState, RepoRecord, RepoSource, SessionBackend, SessionRecord, SessionStatus, State, WorktreeRecord,
    WorktreeSource,
};
use workroot::facts::PathFacts;
use workroot::git::{CherryMark, GitWorktreeEntry};
use workroot::ignore::apply_unignore;
use workroot::lineage::{LineageAction, LineageEvent, LineageProbe, LineageStatus};
use workroot::session::TmuxPane;
use workroot::status::{build_radar_view, sessions_output, LiveProbes, RadarState, TmuxInventory};

fn repo(alias: &str, path: &str) -> RepoRecord {
    RepoRecord {
        alias: alias.to_string(),
        display_name: alias.to_string(),
        canonical_path: path.to_string(),
        git_common_dir: format!("{path}/.git"),
        base_branch: Some("main".to_string()),
        source: RepoSource::Adopted,
        stale: false,
    }
}

fn worktree(alias: &str, target: &str, path: &str) -> WorktreeRecord {
    WorktreeRecord {
        repo_alias: alias.to_string(),
        target: target.to_string(),
        display_name: target.to_string(),
        branch: Some("main".to_string()),
        path: path.to_string(),
        source: WorktreeSource::Workroot,
        dirty: DirtyState::Clean,
        last_seen_unix: None,
        stale: false,
        detached: false,
    }
}

fn family(path: &str, display: &str) -> Family {
    Family {
        common_dir: format!("{path}/.git"),
        canonical_path: path.to_string(),
        display_name: display.to_string(),
        base_branch: Some("main".to_string()),
        source: RepoSource::Adopted,
        worktrees: vec![GitWorktreeEntry {
            path: path.to_string(),
            head: Some("abc".to_string()),
            branch: Some("main".to_string()),
            detached: false,
            bare: false,
        }],
    }
}

fn facts_for(paths: &[&str]) -> PathFacts {
    PathFacts { existing: paths.iter().map(|p| p.to_string()).collect(), canonical: Vec::new() }
}

#[test]
fn merge_sorts_repos_and_keeps_worktrees_of_other_repos() {
    let mut cache = Cache::default();
    cache.repos.push(repo("zoo", "/t/zoo"));
    cache.worktrees.push(worktree("zoo", "base", "/t/zoo"));
    let mut state = State::default();
    merge_families_with(&mut state, &mut cache, &vec![family("/t/alpha", "alpha")], &facts_for(&["/t/alpha"]), 7);

    let aliases: Vec<&str> = cache.repos.iter().map(|r| r.alias.as_str()).collect();
    assert_eq!(aliases, vec!["alpha", "zoo"]);
    let kept = cache.worktrees.iter().find(|w| w.repo_alias == "zoo").expect("zoo's worktree is kept");
    assert_eq!(kept.path, "/t/zoo");
    assert!(kept.stale);
    assert_eq!(cache.worktrees[0].repo_alias, "alpha");
}

#[test]
fn merge_keeps_the_alias_of_a_known_common_directory() {
    let mut cache = Cache::default();
    let mut known = repo("custom", "/t/jam");
    known.display_name = "jam".to_string();
    cache.repos.push(known);
    let mut state = State::default();
    merge_families_with(&mut state, &mut cache, &vec![family("/t/jam", "jam")], &facts_for(&["/t/jam"]), 7);
    assert_eq!(cache.repos.len(), 1);
    assert_eq!(cache.repos[0].alias, "custom");

    merge_families_with(&mut state, &mut cache, &vec![family("/t/other/jam", "custom")], &facts_for(&[]), 7);
    assert_eq!(cache.repos.len(), 2);
    assert!(cache.repos.iter().any(|r| r.alias == "custom-2" && r.git_common_dir == "/t/other/jam/.git"));
}

#[test]
fn radar_splits_rows_by_state_and_counts_them() {
    let cache = Cache {
        schema_version: 1,
        repos: vec![repo("jam", "/t/jam")],
        worktrees: vec![worktree("jam", "gone", "/t/gone"), worktree("jam", "base", "/t/jam")],
        last_scan_unix: None,
    };
    let view = build_radar_view(&cache, &[], &TmuxInventory { available: false, panes: Vec::new() }, &facts_probes());
    assert_eq!(view.attention.len(), 1);
    assert_eq!(view.attention[0].state, RadarState::Stale);
    assert_eq!(view.attention[0].target, "gone");
    assert!(view.active.is_empty());
    assert_eq!(view.idle.len(), 1);
    assert_eq!(view.idle[0].target, "base");
    assert_eq!(view.summary.worktrees, 2);
    assert_eq!(view.summary.stale, 1);
    assert_eq!(view.summary.dirty, 0);
    assert_eq!(view.summary.active_panes, None);
    assert_eq!(view.summary.unmapped, None);
    assert!(view.unmapped.is_empty());
}

fn facts_probes() -> LiveProbes {
    let mut probes = LiveProbes::none();
    probes.facts = facts_for(&["/t/jam"]);
    probes
}

#[test]
fn radar_names_the_managed_session_and_its_state() {
    let cache = Cache {
        schema_version: 1,
        repos: vec![repo("jam", "/t/jam")],
        worktrees: vec![worktree("jam", "base", "/t/jam")],
        last_scan_unix: None,
    };
    let session = SessionRecord {
        repo_alias: "jam".to_string(),
        target: "base".to_string(),
        worktree_path: "/t/jam".to_string(),
        backend: SessionBackend::Tmux,
        command: vec!["make".to_string()],
        tmux_session_name: "workroot-jam-base".to_string(),
        status: SessionStatus::Running,
    };
    let running = TmuxInventory {
        available: true,
        panes: vec![TmuxPane {
            session_name: "workroot-jam-base".to_string(),
            current_path: "/t/jam".to_string(),
            current_command: "make".to_string(),
        }],
    };
    let view = build_radar_view(&cache, &[session.duplicate()], &running, &facts_probes());
    assert_eq!(view.active.len(), 1);
    assert_eq!(view.active[0].state, RadarState::Run);
    assert_eq!(view.active[0].session, "workroot-jam-base");

    let gone = TmuxInventory { available: true, panes: Vec::new() };
    let view = build_radar_view(&cache, &[session], &gone, &facts_probes());
    assert_eq!(view.attention.len(), 1);
    assert_eq!(view.attention[0].state, RadarState::Exit);
}

const BASE: &str = "1111111111111111111111111111111111111111";
const HEAD: &str = "2222222222222222222222222222222222222222";

fn begin(branch: Option<&str>) -> LineageProbe {
    let (mut probe, first) = LineageProbe::start("main", "feature", branch);
    assert_eq!(first, LineageAction::RevParse("main".to_string()));
    let second = probe.step(LineageEvent::Commit(Some(BASE.to_string())));
    assert_eq!(second, LineageAction::RevParse("feature".to_string()));
    probe
}

#[test]
fn lineage_by_ancestry_names_both_commits_first() {
    let mut probe = begin(Some("feature"));
    let ask = probe.step(LineageEvent::Commit(Some(HEAD.to_string())));
    assert!(matches!(ask, LineageAction::IsAncestor { .. }));
    match probe.step(LineageEvent::Ancestor(true)) {
        LineageAction::Finish(report) => {
            assert_eq!(report.status, LineageStatus::MergedByAncestry);
            assert_eq!(report.base_commit, BASE);
            assert_eq!(report.head_commit, HEAD);
            assert_eq!(report.evidence[0], "base main@11111111");
            assert_eq!(report.evidence[1], "head feature@22222222");
        }
        other => panic!("unexpected {other:?}"),
    }
}

#[test]
fn detached_lineage_skips_github_and_goes_to_cherry() {
    let mut probe = begin(None);
    probe.step(LineageEvent::Commit(Some(HEAD.to_string())));
    let next = probe.step(LineageEvent::Ancestor(false));
    assert!(matches!(next, LineageAction::Cherry { .. }));
    let marks = vec![CherryMark { applied: true, commit: "c1".to_string() }];
    match probe.step(LineageEvent::Cherry(marks)) {
        LineageAction::Finish(report) => {
            assert_eq!(report.status, LineageStatus::MergedByPatchId);
            assert_eq!(report.evidence[0], "base main@11111111");
        }
        other => panic!("unexpected {other:?}"),
    }
}

#[test]
fn non_github_origin_never_asks_gh() {
    let mut probe = begin(Some("feature"));
    probe.step(LineageEvent::Commit(Some(HEAD.to_string())));
    let ask = probe.step(LineageEvent::Ancestor(false));
    assert_eq!(ask, LineageAction::RemoteUrl("origin".to_string()));
    let next = probe.step(LineageEvent::RemoteUrl(Some("https://gitlab.com/a/b.git".to_string())));
    assert!(matches!(next, LineageAction::Cherry { .. }));
}

#[test]
fn unknown_unignore_is_refused_and_changes_nothing() {
    let mut state = State::default();
    let r = apply_unignore(&mut state, "/t/nowhere", None, "nowhere");
    assert!(r.is_err());
    assert!(state.ignored_repos.is_empty());
}

#[test]
fn sessions_table_has_a_line_per_session_in_order() {
    let cache = Cache { schema_version: 1, repos: Vec::new(), worktrees: Vec::new(), last_scan_unix: None };
    let mk = |target: &str| SessionRecord {
        repo_alias: "jam".to_string(),
        target: target.to_string(),
        worktree_path: format!("/t/{target}"),
        backend: SessionBackend::Tmux,
        command: vec!["make".to_string(), "run".to_string()],
        tmux_session_name: format!("s-{target}"),
        status: SessionStatus::Running,
    };
    let out = sessions_output(&cache, &[mk("zed"), mk("abc")], &LiveProbes::none());
    let lines: Vec<&str> = out.lines().collect();
    assert_eq!(lines.len(), 3);
    assert!(lines[0].starts_with("REPO"));
    assert!(lines[1].contains("abc") && lines[1].contains("make run"));
    assert!(lines[2].contains("zed"));
}

#[test]
fn merge_matches_common_directories_as_paths() {
    let mut cache = Cache::default();
    cache.repos.push(repo("custom", "/t/jam"));
    let mut state = State::default();
    let mut f = family("/t/jam", "jam");
    f.common_dir = "/t/jam/.git/".to_string();
    merge_families_with(&mut state, &mut cache, &vec![f], &facts_for(&["/t/jam"]), 7);
    assert_eq!(cache.repos.len(), 1);
    assert_eq!(cache.repos[0].alias, "custom");
}

#[test]
fn clashing_directory_names_get_distinct_targets() {
    let mut f = family("/t/jam", "jam");
    for p in ["/t/a/dup", "/t/b/dup-2", "/t/c/dup", "/t/d/base"] {
        f.worktrees.push(GitWorktreeEntry {
            path: p.to_string(),
            head: Some("abc".to_string()),
            branch: Some("x".to_string()),
            detached: false,
            bare: false,
        });
    }
    let mut cache = Cache::default();
    let mut state = State::default();
    merge_families_with(&mut state, &mut cache, &vec![f], &facts_for(&[]), 7);
    let mut targets: Vec<(String, String)> =
        cache.worktrees.iter().map(|w| (w.path.clone(), w.target.clone())).collect();
    targets.sort();
    assert_eq!(
        targets,
        vec![
            ("/t/a/dup".to_string(), "dup".to_string()),
            ("/t/b/dup-2".to_string(), "dup-2".to_string()),
            ("/t/c/dup".to_string(), "dup-3".to_string()),
            ("/t/d/base".to_string(), "base-2".to_string()),
            ("/t/jam".to_string(), "base".to_string()),
        ]
    );
}

#[test]
fn a_new_worktree_never_takes_a_known_worktrees_target() {
    let mut cache = Cache::default();
    cache.repos.push(repo("jam", "/t/jam"));
    cache.worktrees.push(worktree("jam", "dup", "/t/c/dup"));
    let mut f = family("/t/jam", "jam");
    for p in ["/t/a/dup", "/t/c/dup"] {
        f.worktrees.push(GitWorktreeEntry {
            path: p.to_string(),
            head: Some("abc".to_string()),
            branch: Some("x".to_string()),
            detached: false,
            bare: false,
        });
    }
    let mut state = State::default();
    merge_families_with(&mut state, &mut cache, &vec![f], &facts_for(&[]), 7);
    let target_of = |p: &str| cache.worktrees.iter().find(|w| w.path == p).map(|w| w.target.clone());
    assert_eq!(target_of("/t/c/dup"), Some("dup".to_string()));
    assert_eq!(target_of("/t/a/dup"), Some("dup-2".to_string()));
    assert_eq!(target_of("/t/jam"), Some("base".to_string()));
}
