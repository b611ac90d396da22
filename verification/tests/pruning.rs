use workroot::domain::{Cache, DirtyState, RepoRecord, RepoSource, WorktreeRecord, WorktreeSource};
use workroot::facts::PathFacts;
use workroot::git::CherryMark;
use workroot::lineage::{
    GithubPr, LineageAction, LineageEvent, LineageProbe, LineageReport, LineageStatus, PrListOutcome,
};
use workroot::prune::{
    candidate_next, candidate_prompt, decide_removal, forget_candidate, is_yes, matches_filter, prune_next,
    prune_summary, render_prune_report, CandidateAnswers, CandidateStep, GitQuestion, MergedWorktreeCandidate,
    PruneAnswers, PruneRow, PruneStep, PruneTally, Removal, WorktreeFilter,
};

const BASE: &str = "1111111111111111111111111111111111111111";
const HEAD: &str = "2222222222222222222222222222222222222222";

fn repo() -> RepoRecord {
    RepoRecord {
        alias: "repo".to_string(),
        display_name: "repo".to_string(),
        canonical_path: "/work/repo".to_string(),
        git_common_dir: "/work/repo/.git".to_string(),
        base_branch: Some("main".to_string()),
        source: RepoSource::Adopted,
        stale: false,
    }
}

fn worktree(target: &str, branch: Option<&str>, path: &str) -> WorktreeRecord {
    WorktreeRecord {
        repo_alias: "repo".to_string(),
        target: target.to_string(),
        display_name: target.to_string(),
        branch: branch.map(str::to_string),
        path: path.to_string(),
        source: WorktreeSource::Workroot,
        dirty: DirtyState::Unknown,
        last_seen_unix: None,
        stale: false,
        detached: branch.is_none(),
    }
}

fn facts() -> PathFacts {
    PathFacts {
        existing: vec!["/work/repo".to_string(), "/work/feature".to_string()],
        canonical: Vec::new(),
    }
}

fn prune_row_for(base_in_head: bool, head_in_base: bool) -> PruneRow {
    let r = repo();
    let w = worktree("feature", Some("feature"), "/work/feature");
    let f = facts();
    let mut a = PruneAnswers::new();
    assert_eq!(
        prune_next(Some(&r), &w, &f, &a),
        PruneStep::Ask(GitQuestion::BaseCommit { path: "/work/repo".to_string(), rev: "main".to_string() })
    );
    a.base_commit = Some(Some(BASE.to_string()));
    assert_eq!(
        prune_next(Some(&r), &w, &f, &a),
        PruneStep::Ask(GitQuestion::HeadCommit { path: "/work/feature".to_string(), rev: "HEAD".to_string() })
    );
    a.head_commit = Some(Some(HEAD.to_string()));
    assert_eq!(
        prune_next(Some(&r), &w, &f, &a),
        PruneStep::Ask(GitQuestion::BaseInHead {
            path: "/work/repo".to_string(),
            ancestor: BASE.to_string(),
            descendant: HEAD.to_string(),
        })
    );
    a.base_in_head = Some(Some(base_in_head));
    if !base_in_head {
        assert_eq!(
            prune_next(Some(&r), &w, &f, &a),
            PruneStep::Ask(GitQuestion::HeadInBase {
                path: "/work/repo".to_string(),
                ancestor: HEAD.to_string(),
                descendant: BASE.to_string(),
            })
        );
    }
    a.head_in_base = Some(Some(head_in_base));
    match prune_next(Some(&r), &w, &f, &a) {
        PruneStep::Row(row) => row,
        other => panic!("expected a row, got {other:?}"),
    }
}

#[test]
fn prune_reports_worktree_behind_base_branch() {
    let row = prune_row_for(false, true);
    assert_eq!(row.state, "behind-base");
    assert_eq!(row.base, "main@11111111");
    assert_eq!(row.head, "22222222");
    let output = render_prune_report(&vec![row]);
    assert!(output.contains("feature"));
    assert!(output.contains("behind-base"));
}

#[test]
fn prune_reports_diverged_worktree_when_base_and_feature_moved() {
    let output = render_prune_report(&vec![prune_row_for(false, false)]);
    assert!(output.contains("feature"));
    assert!(output.contains("diverged-base"));
}

#[test]
fn prune_treats_feature_commits_on_current_base_as_fresh() {
    let output = render_prune_report(&vec![prune_row_for(true, false)]);
    assert!(output.contains("feature"));
    assert!(output.contains("fresh"));
    assert!(!output.contains("behind-base"));
    assert!(!output.contains("diverged-base"));
}

#[test]
fn prune_reports_missing_worktree_paths_as_stale_without_deleting_cache() {
    let r = repo();
    let w = worktree("feature", Some("feature"), "/work/gone");
    let row = match prune_next(Some(&r), &w, &facts(), &PruneAnswers::new()) {
        PruneStep::Row(row) => row,
        other => panic!("expected a row, got {other:?}"),
    };
    assert_eq!(row.state, "stale");
    assert_eq!(row.head, "-");
    let output = render_prune_report(&vec![row]);
    assert!(output.contains("feature"));
    assert!(output.contains("stale"));
}

#[test]
fn prune_rows_for_missing_repo_and_failures() {
    let w = worktree("feature", Some("feature"), "/work/feature");
    match prune_next(None, &w, &facts(), &PruneAnswers::new()) {
        PruneStep::Row(row) => assert_eq!((row.base.as_str(), row.state.as_str()), ("-", "missing-repo")),
        other => panic!("unexpected {other:?}"),
    }
    let mut a = PruneAnswers::new();
    a.base_commit = Some(None);
    match prune_next(Some(&repo()), &w, &facts(), &a) {
        PruneStep::Row(row) => assert_eq!(row.state, "base-missing"),
        other => panic!("unexpected {other:?}"),
    }
    a.base_commit = Some(Some(BASE.to_string()));
    a.head_commit = Some(Some(HEAD.to_string()));
    a.base_in_head = Some(None);
    match prune_next(Some(&repo()), &w, &facts(), &a) {
        PruneStep::Row(row) => assert_eq!((row.head.as_str(), row.state.as_str()), ("22222222", "compare-failed")),
        other => panic!("unexpected {other:?}"),
    }
}

#[test]
fn prune_report_is_sorted_by_repo_and_target() {
    let mk = |repo: &str, target: &str| PruneRow {
        repo: repo.to_string(),
        target: target.to_string(),
        base: "main".to_string(),
        head: "-".to_string(),
        state: "stale".to_string(),
        path: format!("/w/{repo}/{target}"),
    };
    let output = render_prune_report(&vec![mk("zed", "a"), mk("app", "b"), mk("app", "a")]);
    let lines: Vec<&str> = output.lines().collect();
    assert_eq!(lines.len(), 4);
    assert!(lines[0].starts_with("REPO"));
    assert!(lines[1].starts_with("app") && lines[1].contains("/w/app/a"));
    assert!(lines[2].starts_with("app") && lines[2].contains("/w/app/b"));
    assert!(lines[3].starts_with("zed"));
}

fn run_probe(branch: Option<&str>, answers: Vec<LineageEvent>) -> (Vec<LineageAction>, LineageReport) {
    let (mut probe, first) = LineageProbe::start("main", "HEAD", branch);
    let mut actions = vec![first];
    for e in answers {
        let a = probe.step(e);
        actions.push(a);
    }
    assert!(probe.is_done());
    match actions.last() {
        Some(LineageAction::Finish(report)) => {
            let report = LineageReport {
                status: report.status,
                base_commit: report.base_commit.clone(),
                head_commit: report.head_commit.clone(),
                evidence: report.evidence.clone(),
            };
            (actions, report)
        }
        other => panic!("expected a finished check, got {other:?}"),
    }
}

#[test]
fn lineage_proves_merge_by_ancestry() {
    let (actions, report) = run_probe(
        Some("feature"),
        vec![
            LineageEvent::Commit(Some(BASE.to_string())),
            LineageEvent::Commit(Some(HEAD.to_string())),
            LineageEvent::Ancestor(true),
        ],
    );
    assert_eq!(actions[0], LineageAction::RevParse("main".to_string()));
    assert_eq!(actions[1], LineageAction::RevParse("HEAD".to_string()));
    assert_eq!(
        actions[2],
        LineageAction::IsAncestor { ancestor: HEAD.to_string(), descendant: BASE.to_string() }
    );
    assert_eq!(report.status, LineageStatus::MergedByAncestry);
    assert!(report.is_prune_safe());
    assert_eq!(report.proof_label(), "merged-by-ancestry");
    assert_eq!(
        report.evidence,
        vec![
            "base main@11111111".to_string(),
            "head HEAD@22222222".to_string(),
            "`git merge-base --is-ancestor 22222222 11111111` succeeded".to_string(),
        ]
    );
}

#[test]
fn lineage_proves_merge_by_github_pr() {
    let pr = GithubPr {
        number: 42,
        head_ref_oid: HEAD.to_string(),
        merge_commit: Some("3333333333".to_string()),
        merged_at: Some("2024-01-02T03:04:05Z".to_string()),
        url: "https://github.com/acme/widget/pull/42".to_string(),
    };
    let (actions, report) = run_probe(
        Some("feature"),
        vec![
            LineageEvent::Commit(Some(BASE.to_string())),
            LineageEvent::Commit(Some(HEAD.to_string())),
            LineageEvent::Ancestor(false),
            LineageEvent::RemoteUrl(Some("git@github.com:acme/widget.git".to_string())),
            LineageEvent::PrList(PrListOutcome::Listed(vec![pr])),
            LineageEvent::Ancestor(true),
        ],
    );
    assert_eq!(actions[3], LineageAction::RemoteUrl("origin".to_string()));
    assert_eq!(
        actions[4],
        LineageAction::ListMergedPrs { repo: "acme/widget".to_string(), head: "acme:feature".to_string() }
    );
    assert_eq!(
        actions[5],
        LineageAction::IsAncestor { ancestor: "3333333333".to_string(), descendant: "main".to_string() }
    );
    assert_eq!(report.status, LineageStatus::MergedByGithubPr);
    assert!(report.evidence.contains(&"GitHub PR #42 was merged at 2024-01-02T03:04:05Z".to_string()));
    assert!(report.evidence.contains(&"PR URL: https://github.com/acme/widget/pull/42".to_string()));
}

#[test]
fn prune_merged_detects_squash_merge_by_patch_id() {
    let (actions, report) = run_probe(
        None,
        vec![
            LineageEvent::Commit(Some(BASE.to_string())),
            LineageEvent::Commit(Some(HEAD.to_string())),
            LineageEvent::Ancestor(false),
            LineageEvent::Cherry(vec![CherryMark { applied: true, commit: HEAD.to_string() }]),
        ],
    );
    assert_eq!(actions[3], LineageAction::Cherry { upstream: "main".to_string(), head: "HEAD".to_string() });
    assert_eq!(report.status, LineageStatus::MergedByPatchId);
    assert_eq!(report.proof_label(), "merged-by-patch-id");
    assert!(report.evidence.iter().any(|e| e.contains("git cherry main")));
    assert!(report.evidence.contains(&"GitHub PR lineage skipped: worktree is detached".to_string()));
}

#[test]
fn lineage_without_evidence_is_not_proven() {
    let (_, report) = run_probe(
        Some("feature"),
        vec![
            LineageEvent::Commit(Some(BASE.to_string())),
            LineageEvent::Commit(Some(HEAD.to_string())),
            LineageEvent::Ancestor(false),
            LineageEvent::RemoteUrl(Some("https://gitlab.com/acme/widget.git".to_string())),
            LineageEvent::Cherry(vec![
                CherryMark { applied: true, commit: "a".to_string() },
                CherryMark { applied: false, commit: "b".to_string() },
            ]),
        ],
    );
    assert_eq!(report.status, LineageStatus::NotProven);
    assert!(!report.is_prune_safe());
    assert_eq!(
        report.evidence.last().unwrap(),
        "`git cherry main HEAD` found 1 unapplied branch commit(s)"
    );
}

#[test]
fn lineage_fails_on_unknown_base() {
    let (mut probe, _) = LineageProbe::start("main", "HEAD", None);
    assert_eq!(
        probe.step(LineageEvent::Commit(None)),
        LineageAction::Fail("base ref `main` was not found".to_string())
    );
    assert!(probe.is_done());
}

fn candidate() -> MergedWorktreeCandidate {
    let r = repo();
    let w = worktree("feature", Some("feature"), "/work/feature");
    let f = facts();
    let mut a = CandidateAnswers::new();
    a.base_commit = Some(Some(BASE.to_string()));
    a.head_commit = Some(Some(HEAD.to_string()));
    assert_eq!(
        candidate_next(Some(&r), &w, &f, &a),
        CandidateStep::Lineage {
            path: "/work/repo".to_string(),
            base_ref: "main".to_string(),
            head_ref: HEAD.to_string(),
            branch: Some("feature".to_string()),
        }
    );
    a.lineage = Some(Some(LineageReport {
        status: LineageStatus::MergedByAncestry,
        base_commit: BASE.to_string(),
        head_commit: HEAD.to_string(),
        evidence: vec!["`git merge-base --is-ancestor 22222222 11111111` succeeded".to_string()],
    }));
    assert_eq!(
        candidate_next(Some(&r), &w, &f, &a),
        CandidateStep::BaseSummary { path: "/work/repo".to_string(), rev: BASE.to_string() }
    );
    a.base_summary = Some(Some("1111111 move base".to_string()));
    a.head_summary = Some(Some("2222222 init".to_string()));
    match candidate_next(Some(&r), &w, &f, &a) {
        CandidateStep::Done(Some(c)) => c,
        other => panic!("expected a candidate, got {other:?}"),
    }
}

#[test]
fn prune_merged_prompts_with_trunk_and_branch_commits_then_removes_yes() {
    let c = candidate();
    let output = candidate_prompt(&c);
    assert!(output.contains("trunk  main:"));
    assert!(output.contains("move base"));
    assert!(output.contains("branch feature:"));
    assert!(output.contains("init"));
    assert!(output.contains("proof: merged-by-ancestry"));
    assert!(output.contains("git merge-base --is-ancestor"));
    assert!(output.contains("Remove this worktree? [y/N]"));
    let mut cache = Cache::default();
    cache.repos.push(repo());
    cache.worktrees.push(worktree("base", Some("main"), "/work/repo"));
    cache.worktrees.push(worktree("feature", Some("feature"), "/work/feature"));
    assert_eq!(decide_removal(&cache, &c, "y\n"), Removal::Remove { repo_path: "/work/repo".to_string() });
    forget_candidate(&mut cache, &c);
    assert_eq!(cache.worktrees.len(), 1);
    assert_eq!(cache.worktrees[0].target, "base");
    assert_eq!(prune_summary(1, 0), "Removed 1 merged worktree(s); skipped 0.");
}

#[test]
fn prune_merged_skips_when_answer_is_not_yes() {
    let c = candidate();
    let mut cache = Cache::default();
    cache.repos.push(repo());
    assert_eq!(decide_removal(&cache, &c, "n\n"), Removal::Skip);
    assert_eq!(decide_removal(&cache, &c, ""), Removal::Skip);
    assert!(is_yes(" YES "));
    assert!(is_yes("y"));
    assert!(!is_yes("yep"));
    assert!(prune_summary(0, 1).contains("skipped 1"));
    assert_eq!(decide_removal(&Cache::default(), &c, "y"), Removal::MissingRepo);
}

#[test]
fn prune_merged_can_target_one_worktree() {
    let filter = WorktreeFilter { repo_alias: "repo".to_string(), target: Some("feature".to_string()) };
    assert!(matches_filter(&worktree("feature", Some("feature"), "/work/feature"), Some(&filter)));
    assert!(!matches_filter(&worktree("other", Some("other"), "/work/other"), Some(&filter)));
    assert!(matches_filter(&worktree("other", Some("other"), "/work/other"), None));
}

#[test]
fn base_checkout_is_never_a_candidate() {
    let r = repo();
    let base = worktree("base", Some("main"), "/work/repo");
    assert_eq!(candidate_next(Some(&r), &base, &facts(), &CandidateAnswers::new()), CandidateStep::Done(None));
    let on_main = worktree("hotfix", Some("main"), "/work/feature");
    assert_eq!(candidate_next(Some(&r), &on_main, &facts(), &CandidateAnswers::new()), CandidateStep::Done(None));
}

#[test]
fn prune_tally_counts_each_candidate_once() {
    let mut tally = PruneTally::new();
    assert_eq!(tally.record(&Removal::Skip), "skipped");
    assert_eq!(tally.record(&Removal::MissingRepo), "skipped: repo missing from cache");
    assert_eq!(tally.record(&Removal::Remove { repo_path: "/tmp/jam".to_string() }), "removed");
    assert_eq!(tally, PruneTally { removed: 1, skipped: 2 });
    assert_eq!(tally.summary(), "Removed 1 merged worktree(s); skipped 2.");
}

#[test]
fn forgetting_a_candidate_matches_its_path_component_wise() {
    let mut cache = Cache { schema_version: 1, repos: Vec::new(), worktrees: Vec::new(), last_scan_unix: None };
    for path in ["/w/feat/", "/w/feat", "/w/other"] {
        cache.worktrees.push(WorktreeRecord {
            repo_alias: "jam".to_string(),
            target: "feat".to_string(),
            display_name: "feat".to_string(),
            branch: None,
            path: path.to_string(),
            source: WorktreeSource::Manual,
            dirty: DirtyState::Clean,
            last_seen_unix: None,
            stale: false,
            detached: false,
        });
    }
    let candidate = MergedWorktreeCandidate {
        repo: "jam".to_string(),
        target: "feat".to_string(),
        base_branch: "main".to_string(),
        worktree_branch: "feat".to_string(),
        base_summary: String::new(),
        head_summary: String::new(),
        proof: "ancestry".to_string(),
        evidence: Vec::new(),
        path: "/w/feat".to_string(),
    };
    forget_candidate(&mut cache, &candidate);
    assert_eq!(cache.worktrees.len(), 1);
    assert_eq!(cache.worktrees[0].path, "/w/other");
}
