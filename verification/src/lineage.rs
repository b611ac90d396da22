//! Lineage: proving that a worktree's HEAD already landed on its base
//! branch, by ancestry, by a merged GitHub pull request, or by patch
//! identity, before anything offers to delete it.
//!
//! Git and `gh` are asked step by step: `LineageProbe` decides what to ask
//! next from each answer, and states the evidence it found.

use vstd::prelude::*;

use crate::git::{mark_views, CherryMark};
use crate::text::{
    chars_of, dec, find_char, first_char, join, push_decimal, range_starts_with, starts_with, string_of, trim,
    trim_range, trimmed,
};

verus! {

/// How a worktree's HEAD was shown to be on its base branch, if it was.
#[derive(Debug, Clone, Copy, PartialEq, Eq, Structural)]
pub enum LineageStatus {
    MergedByAncestry,
    MergedByGithubPr,
    MergedByPatchId,
    NotProven,
}

/// The outcome of a lineage check, with the evidence behind it.
#[derive(Debug, PartialEq, Eq)]
pub struct LineageReport {
    pub status: LineageStatus,
    pub base_commit: String,
    pub head_commit: String,
    pub evidence: Vec<String>,
}

pub struct LineageReportV {
    pub status: LineageStatus,
    pub base_commit: Seq<char>,
    pub head_commit: Seq<char>,
    pub evidence: Seq<Seq<char>>,
}

impl View for LineageReport {
    type V = LineageReportV;

    open spec fn view(&self) -> LineageReportV {
        LineageReportV {
            status: self.status,
            base_commit: self.base_commit@,
            head_commit: self.head_commit@,
            evidence: self.evidence@.map_values(|s: String| s@),
        }
    }
}

pub open spec fn spec_proof_label(s: LineageStatus) -> Seq<char> {
    match s {
        LineageStatus::MergedByAncestry => "merged-by-ancestry"@,
        LineageStatus::MergedByGithubPr => "merged-by-github-pr"@,
        LineageStatus::MergedByPatchId => "merged-by-patch-id"@,
        LineageStatus::NotProven => "not-proven-merged"@,
    }
}

impl LineageReport {
    /// Whether the worktree may be deleted: only when some proof holds.
    pub fn is_prune_safe(&self) -> (r: bool)
        ensures
            r == (self.status != LineageStatus::NotProven),
    {
        match self.status {
            LineageStatus::MergedByAncestry | LineageStatus::MergedByGithubPr | LineageStatus::MergedByPatchId => true,
            LineageStatus::NotProven => false,
        }
    }

    /// The name of the proof that holds.
    pub fn proof_label(&self) -> (r: &'static str)
        ensures
            r@ == spec_proof_label(self.status),
    {
        match self.status {
            LineageStatus::MergedByAncestry => "merged-by-ancestry",
            LineageStatus::MergedByGithubPr => "merged-by-github-pr",
            LineageStatus::MergedByPatchId => "merged-by-patch-id",
            LineageStatus::NotProven => "not-proven-merged",
        }
    }
}

// ---------------------------------------------------------------------
// Commits and remotes
// ---------------------------------------------------------------------

/// A commit id shortened to its first eight characters.
pub open spec fn short_commit(c: Seq<char>) -> Seq<char> {
    if c.len() <= 8 {
        c
    } else {
        c.take(8)
    }
}

pub fn short(commit: &str) -> (r: String)
    ensures
        r@ == short_commit(commit@),
{
    let v = chars_of(commit);
    let n = if v.len() <= 8 { v.len() } else { 8 };
    assert(v@.subrange(0, v@.len() as int) =~= v@);
    assert(v@.subrange(0, 8) =~= v@.take(8));
    string_of(&v, 0, n)
}

/// `s` with every trailing `.git` removed, as `trim_end_matches(".git")`.
pub open spec fn strip_git_suffixes(s: Seq<char>) -> Seq<char>
    decreases s.len(),
{
    if s.len() >= 4 && s.skip(s.len() - 4) == ".git"@ {
        strip_git_suffixes(s.take(s.len() - 4))
    } else {
        s
    }
}

/// The `owner/name` of a GitHub remote URL, over SSH or HTTP(S).
pub open spec fn spec_github_slug(url: Seq<char>) -> Option<Seq<char>> {
    let t = strip_git_suffixes(trim(url));
    if starts_with(t, "git@github.com:"@) {
        Some(t.skip("git@github.com:"@.len() as int))
    } else if starts_with(t, "https://github.com/"@) {
        Some(t.skip("https://github.com/"@.len() as int))
    } else if starts_with(t, "http://github.com/"@) {
        Some(t.skip("http://github.com/"@.len() as int))
    } else if starts_with(t, "ssh://git@github.com/"@) {
        Some(t.skip("ssh://git@github.com/"@.len() as int))
    } else {
        None
    }
}

/// The rest of `v[lo..hi]` after `p`, when it starts with `p`.
fn rest_after(v: &Vec<char>, lo: usize, hi: usize, p: &str) -> (r: Option<String>)
    requires
        lo <= hi <= v@.len(),
    ensures
        match r {
            Some(x) => starts_with(v@.subrange(lo as int, hi as int), p@) && x@ == v@.subrange(
                lo as int,
                hi as int,
            ).skip(p@.len() as int),
            None => !starts_with(v@.subrange(lo as int, hi as int), p@),
        },
{
    let pv = chars_of(p);
    if range_starts_with(v, lo, hi, &pv) {
        let start = lo + pv.len();
        assert(v@.subrange(lo as int, hi as int).skip(pv@.len() as int) =~= v@.subrange(start as int, hi as int));
        Some(string_of(v, start, hi))
    } else {
        None
    }
}

pub fn parse_github_slug(url: &str) -> (r: Option<String>)
    ensures
        match spec_github_slug(url@) {
            Some(s) => r matches Some(x) && x@ == s,
            None => r is None,
        },
{
    let v = chars_of(url);
    let (a, b0) = trim_range(&v, 0, v.len());
    assert(v@.subrange(0, v@.len() as int) =~= v@);
    let mut b = b0;
    while b - a >= 4 && v[b - 4] == '.' && v[b - 3] == 'g' && v[b - 2] == 'i' && v[b - 1] == 't'
        invariant
            a <= b <= v@.len(),
            strip_git_suffixes(v@.subrange(a as int, b as int)) == strip_git_suffixes(trim(url@)),
        decreases b - a,
    {
        proof {
            reveal_strlit(".git");
            let t = v@.subrange(a as int, b as int);
            assert(t.skip(t.len() - 4) =~= ".git"@);
            assert(t.take(t.len() - 4) =~= v@.subrange(a as int, b - 4));
        }
        b = b - 4;
    }
    proof {
        reveal_strlit(".git");
        let t = v@.subrange(a as int, b as int);
        if t.len() >= 4 && t.skip(t.len() - 4) == ".git"@ {
            assert(t.skip(t.len() - 4)[0] == v@[b - 4]);
            assert(t.skip(t.len() - 4)[1] == v@[b - 3]);
            assert(t.skip(t.len() - 4)[2] == v@[b - 2]);
            assert(t.skip(t.len() - 4)[3] == v@[b - 1]);
        }
        assert(strip_git_suffixes(t) == t);
    }
    if let Some(rest) = rest_after(&v, a, b, "git@github.com:") {
        return Some(rest);
    }
    if let Some(rest) = rest_after(&v, a, b, "https://github.com/") {
        return Some(rest);
    }
    if let Some(rest) = rest_after(&v, a, b, "http://github.com/") {
        return Some(rest);
    }
    rest_after(&v, a, b, "ssh://git@github.com/")
}

/// The owner of an `owner/name` slug: what comes before its first `/`.
pub open spec fn slug_owner(slug: Seq<char>) -> Seq<char> {
    slug.take(first_char(slug, '/') as int)
}


pub fn owner_of(slug: &str) -> (r: String)
    ensures
        r@ == slug_owner(slug@),
{
    let v = chars_of(slug);
    let k = find_char(&v, 0, v.len(), '/');
    assert(v@.subrange(0, v@.len() as int) =~= v@);
    assert(v@.subrange(0, k as int) =~= v@.take(k as int));
    string_of(&v, 0, k)
}

// ---------------------------------------------------------------------
// What git and gh answer
// ---------------------------------------------------------------------

/// A merged pull request as `gh pr list --json` describes it; the merge
/// commit is absent when GitHub gave none.
#[derive(Debug, PartialEq, Eq)]
pub struct GithubPr {
    pub number: u64,
    pub head_ref_oid: String,
    pub merge_commit: Option<String>,
    pub merged_at: Option<String>,
    pub url: String,
}

pub struct GithubPrV {
    pub number: u64,
    pub head_ref_oid: Seq<char>,
    pub merge_commit: Option<Seq<char>>,
    pub merged_at: Option<Seq<char>>,
    pub url: Seq<char>,
}

pub open spec fn ostr(o: Option<String>) -> Option<Seq<char>> {
    match o {
        Some(s) => Some(s@),
        None => None,
    }
}

impl View for GithubPr {
    type V = GithubPrV;

    open spec fn view(&self) -> GithubPrV {
        GithubPrV {
            number: self.number,
            head_ref_oid: self.head_ref_oid@,
            merge_commit: ostr(self.merge_commit),
            merged_at: ostr(self.merged_at),
            url: self.url@,
        }
    }
}

pub open spec fn pr_views(v: Seq<GithubPr>) -> Seq<GithubPrV> {
    v.map_values(|p: GithubPr| p@)
}

/// How `gh pr list` went: it could not be run, it failed with this error
/// output, or it listed these merged pull requests.
#[derive(Debug, PartialEq, Eq)]
pub enum PrListOutcome {
    Unavailable,
    Failed(String),
    Listed(Vec<GithubPr>),
}

pub enum PrListV {
    Unavailable,
    Failed(Seq<char>),
    Listed(Seq<GithubPrV>),
}

impl View for PrListOutcome {
    type V = PrListV;

    open spec fn view(&self) -> PrListV {
        match self {
            PrListOutcome::Unavailable => PrListV::Unavailable,
            PrListOutcome::Failed(e) => PrListV::Failed(e@),
            PrListOutcome::Listed(v) => PrListV::Listed(pr_views(v@)),
        }
    }
}

/// An answer to the last question asked.
#[derive(Debug, PartialEq, Eq)]
pub enum LineageEvent {
    /// `git rev-parse --verify`: the commit, if the ref exists.
    Commit(Option<String>),
    /// `git merge-base --is-ancestor`.
    Ancestor(bool),
    /// `git remote get-url`: the URL, if the remote exists.
    RemoteUrl(Option<String>),
    /// `gh pr list`.
    PrList(PrListOutcome),
    /// `git cherry`.
    Cherry(Vec<CherryMark>),
}

pub enum LineageEventV {
    Commit(Option<Seq<char>>),
    Ancestor(bool),
    RemoteUrl(Option<Seq<char>>),
    PrList(PrListV),
    Cherry(Seq<(bool, Seq<char>)>),
}

impl View for LineageEvent {
    type V = LineageEventV;

    open spec fn view(&self) -> LineageEventV {
        match self {
            LineageEvent::Commit(c) => LineageEventV::Commit(ostr(*c)),
            LineageEvent::Ancestor(b) => LineageEventV::Ancestor(*b),
            LineageEvent::RemoteUrl(u) => LineageEventV::RemoteUrl(ostr(*u)),
            LineageEvent::PrList(o) => LineageEventV::PrList(o@),
            LineageEvent::Cherry(m) => LineageEventV::Cherry(mark_views(m@)),
        }
    }
}

/// The next question, or the end.
#[derive(Debug, PartialEq, Eq)]
pub enum LineageAction {
    /// Resolve a ref with `git rev-parse --verify`.
    RevParse(String),
    /// Ask `git merge-base --is-ancestor ancestor descendant`.
    IsAncestor { ancestor: String, descendant: String },
    /// Ask `git remote get-url` for a remote.
    RemoteUrl(String),
    /// Ask `gh pr list --state merged` of repo `repo` for head `head`.
    ListMergedPrs { repo: String, head: String },
    /// Ask `git cherry upstream head`.
    Cherry { upstream: String, head: String },
    /// The check is over with this report.
    Finish(LineageReport),
    /// The check failed: a git error with this message.
    Fail(String),
}

pub enum LineageActionV {
    RevParse(Seq<char>),
    IsAncestor { ancestor: Seq<char>, descendant: Seq<char> },
    RemoteUrl(Seq<char>),
    ListMergedPrs { repo: Seq<char>, head: Seq<char> },
    Cherry { upstream: Seq<char>, head: Seq<char> },
    Finish(LineageReportV),
    Fail(Seq<char>),
}

impl View for LineageAction {
    type V = LineageActionV;

    open spec fn view(&self) -> LineageActionV {
        match self {
            LineageAction::RevParse(r) => LineageActionV::RevParse(r@),
            LineageAction::IsAncestor { ancestor, descendant } => LineageActionV::IsAncestor {
                ancestor: ancestor@,
                descendant: descendant@,
            },
            LineageAction::RemoteUrl(r) => LineageActionV::RemoteUrl(r@),
            LineageAction::ListMergedPrs { repo, head } => LineageActionV::ListMergedPrs { repo: repo@, head: head@ },
            LineageAction::Cherry { upstream, head } => LineageActionV::Cherry { upstream: upstream@, head: head@ },
            LineageAction::Finish(r) => LineageActionV::Finish(r@),
            LineageAction::Fail(m) => LineageActionV::Fail(m@),
        }
    }
}

// ---------------------------------------------------------------------
// The probe
// ---------------------------------------------------------------------

/// Which answer the probe waits for.
#[derive(Debug, Clone, Copy, PartialEq, Eq, Structural)]
pub enum LineagePhase {
    AwaitBase,
    AwaitHead,
    AwaitAncestry,
    AwaitRemote,
    AwaitPrs,
    AwaitPrCheck,
    AwaitCherry,
    Done,
}

/// A lineage check in progress.
#[derive(Debug, PartialEq, Eq)]
pub struct LineageProbe {
    base_ref: String,
    head_ref: String,
    branch: Option<String>,
    phase: LineagePhase,
    base_commit: String,
    head_commit: String,
    evidence: Vec<String>,
    head_filter: String,
    prs: Vec<GithubPr>,
    next: usize,
    moved: Vec<u64>,
}

pub struct ProbeV {
    pub base_ref: Seq<char>,
    pub head_ref: Seq<char>,
    pub branch: Option<Seq<char>>,
    pub phase: LineagePhase,
    pub base_commit: Seq<char>,
    pub head_commit: Seq<char>,
    pub evidence: Seq<Seq<char>>,
    pub head_filter: Seq<char>,
    pub prs: Seq<GithubPrV>,
    pub next: nat,
    pub moved: Seq<u64>,
}

impl View for LineageProbe {
    type V = ProbeV;

    closed spec fn view(&self) -> ProbeV {
        ProbeV {
            base_ref: self.base_ref@,
            head_ref: self.head_ref@,
            branch: ostr(self.branch),
            phase: self.phase,
            base_commit: self.base_commit@,
            head_commit: self.head_commit@,
            evidence: self.evidence@.map_values(|s: String| s@),
            head_filter: self.head_filter@,
            prs: pr_views(self.prs@),
            next: self.next as nat,
            moved: self.moved@,
        }
    }
}

/// The shape a probe keeps: it asks about remotes and pull requests only
/// for a branch, and checks a pull request only when it names a merge
/// commit and matches HEAD.
pub open spec fn probe_wf(s: ProbeV) -> bool {
    &&& (s.phase is AwaitRemote || s.phase is AwaitPrs || s.phase is AwaitPrCheck) ==> s.branch is Some
    &&& s.next <= s.prs.len()
    &&& s.phase is AwaitPrCheck ==> s.next < s.prs.len() && s.prs[s.next as int].merge_commit is Some
        && s.prs[s.next as int].head_ref_oid == s.head_commit
}

/// Whether `e` answers what a probe in phase `p` asked.
pub open spec fn answers(p: LineagePhase, e: LineageEventV) -> bool {
    match p {
        LineagePhase::AwaitBase | LineagePhase::AwaitHead => e is Commit,
        LineagePhase::AwaitAncestry | LineagePhase::AwaitPrCheck => e is Ancestor,
        LineagePhase::AwaitRemote => e is RemoteUrl,
        LineagePhase::AwaitPrs => e is PrList,
        LineagePhase::AwaitCherry => e is Cherry,
        LineagePhase::Done => false,
    }
}

// Evidence lines.

pub open spec fn ev_ref(kind: Seq<char>, r: Seq<char>, c: Seq<char>) -> Seq<char> {
    kind + " "@ + r + "@"@ + short_commit(c)
}

pub open spec fn ev_ancestor(h: Seq<char>, b: Seq<char>) -> Seq<char> {
    "`git merge-base --is-ancestor "@ + short_commit(h) + " "@ + short_commit(b) + "` succeeded"@
}

pub open spec fn ev_gh_failed(stderr: Seq<char>) -> Seq<char> {
    if trim(stderr).len() == 0 {
        "GitHub PR lineage skipped: `gh pr list` failed"@
    } else {
        "GitHub PR lineage skipped: "@ + trim(stderr)
    }
}

pub open spec fn ev_no_prs(head_filter: Seq<char>) -> Seq<char> {
    "GitHub PR lineage found no merged PR for `"@ + head_filter + "`"@
}

/// A list of numbers as `{:?}` prints it: `[1, 2]`.
pub open spec fn debug_list(ns: Seq<u64>) -> Seq<char> {
    "["@ + join(ns.map_values(|n: u64| dec(n as nat)), ", "@) + "]"@
}

pub open spec fn ev_none_matched(head: Seq<char>, moved: Seq<u64>) -> Seq<char> {
    "GitHub PR lineage found merged PR(s) for branch, but none matched current HEAD "@ + short_commit(head)
        + " and reachable base: "@ + debug_list(moved)
}

pub open spec fn ev_pr_merged(pr: GithubPrV, head: Seq<char>, merge: Seq<char>, base_ref: Seq<char>) -> Seq<Seq<char>> {
    seq![
        "GitHub PR #"@ + dec(pr.number as nat) + " was merged at "@ + match pr.merged_at {
            Some(t) => t,
            None => "unknown time"@,
        },
        "PR head matched worktree HEAD "@ + short_commit(head),
        "PR merge/squash commit "@ + short_commit(merge) + " is reachable from "@ + base_ref,
        "PR URL: "@ + pr.url,
    ]
}

pub open spec fn cherry_cmd(s: ProbeV) -> Seq<char> {
    "`git cherry "@ + s.base_ref + " "@ + s.head_ref + "`"@
}

pub open spec fn unapplied(marks: Seq<(bool, Seq<char>)>) -> nat {
    marks.filter(|m: (bool, Seq<char>)| !m.0).len()
}

/// Asking `git cherry` next.
pub open spec fn to_cherry(s: ProbeV, line: Seq<char>) -> (ProbeV, LineageActionV) {
    (
        ProbeV { phase: LineagePhase::AwaitCherry, evidence: s.evidence.push(line), ..s },
        LineageActionV::Cherry { upstream: s.base_ref, head: s.head_ref },
    )
}

pub open spec fn finish(s: ProbeV, status: LineageStatus, evidence: Seq<Seq<char>>) -> (ProbeV, LineageActionV) {
    (
        ProbeV { phase: LineagePhase::Done, evidence, ..s },
        LineageActionV::Finish(
            LineageReportV { status, base_commit: s.base_commit, head_commit: s.head_commit, evidence },
        ),
    )
}

/// Going through the listed pull requests from `s.next`: one without a
/// merge commit is passed over, one whose head is not HEAD is noted as
/// moved, and the first whose head is HEAD is checked against the base.
pub open spec fn scan(s: ProbeV) -> (ProbeV, LineageActionV)
    decreases s.prs.len() - s.next,
{
    if s.next >= s.prs.len() {
        to_cherry(s, ev_none_matched(s.head_commit, s.moved))
    } else {
        let pr = s.prs[s.next as int];
        match pr.merge_commit {
            None => scan(ProbeV { next: s.next + 1, ..s }),
            Some(m) => if pr.head_ref_oid == s.head_commit {
                (
                    ProbeV { phase: LineagePhase::AwaitPrCheck, ..s },
                    LineageActionV::IsAncestor { ancestor: m, descendant: s.base_ref },
                )
            } else {
                scan(ProbeV { next: s.next + 1, moved: s.moved.push(pr.number), ..s })
            },
        }
    }
}

/// What a probe does with an answer: its next state and its next question.
pub open spec fn lineage_next(s: ProbeV, e: LineageEventV) -> (ProbeV, LineageActionV) {
    match s.phase {
        LineagePhase::AwaitBase => match e {
            LineageEventV::Commit(Some(c)) => (
                ProbeV { phase: LineagePhase::AwaitHead, base_commit: c, ..s },
                LineageActionV::RevParse(s.head_ref),
            ),
            _ => (
                ProbeV { phase: LineagePhase::Done, ..s },
                LineageActionV::Fail("base ref `"@ + s.base_ref + "` was not found"@),
            ),
        },
        LineagePhase::AwaitHead => match e {
            LineageEventV::Commit(Some(h)) => (
                ProbeV {
                    phase: LineagePhase::AwaitAncestry,
                    head_commit: h,
                    evidence: seq![ev_ref("base"@, s.base_ref, s.base_commit), ev_ref("head"@, s.head_ref, h)],
                    ..s
                },
                LineageActionV::IsAncestor { ancestor: h, descendant: s.base_commit },
            ),
            _ => (
                ProbeV { phase: LineagePhase::Done, ..s },
                LineageActionV::Fail("head ref `"@ + s.head_ref + "` was not found"@),
            ),
        },
        LineagePhase::AwaitAncestry => match e {
            LineageEventV::Ancestor(true) => finish(
                s,
                LineageStatus::MergedByAncestry,
                s.evidence.push(ev_ancestor(s.head_commit, s.base_commit)),
            ),
            _ => {
                let s1 = ProbeV { evidence: s.evidence.push("head is not an ancestor of base"@), ..s };
                match s.branch {
                    Some(_) => (ProbeV { phase: LineagePhase::AwaitRemote, ..s1 }, LineageActionV::RemoteUrl("origin"@)),
                    None => to_cherry(s1, "GitHub PR lineage skipped: worktree is detached"@),
                }
            },
        },
        LineagePhase::AwaitRemote => {
            let slug = match e {
                LineageEventV::RemoteUrl(Some(u)) => spec_github_slug(u),
                _ => None,
            };
            match slug {
                Some(slug) => {
                    let head = slug_owner(slug) + ":"@ + s.branch.unwrap();
                    (
                        ProbeV { phase: LineagePhase::AwaitPrs, head_filter: head, ..s },
                        LineageActionV::ListMergedPrs { repo: slug, head },
                    )
                },
                None => to_cherry(s, "GitHub PR lineage skipped: origin is not a GitHub remote"@),
            }
        },
        LineagePhase::AwaitPrs => match e {
            LineageEventV::PrList(PrListV::Listed(prs)) => if prs.len() == 0 {
                to_cherry(s, ev_no_prs(s.head_filter))
            } else {
                scan(ProbeV { prs, next: 0, moved: seq![], ..s })
            },
            LineageEventV::PrList(PrListV::Failed(err)) => to_cherry(s, ev_gh_failed(err)),
            _ => to_cherry(s, "GitHub PR lineage skipped: `gh` CLI is unavailable"@),
        },
        LineagePhase::AwaitPrCheck => {
            let pr = s.prs[s.next as int];
            match e {
                LineageEventV::Ancestor(true) => finish(
                    s,
                    LineageStatus::MergedByGithubPr,
                    s.evidence + ev_pr_merged(pr, s.head_commit, pr.merge_commit.unwrap(), s.base_ref),
                ),
                _ => scan(ProbeV { next: s.next + 1, moved: s.moved.push(pr.number), ..s }),
            }
        },
        LineagePhase::AwaitCherry => {
            let marks = match e {
                LineageEventV::Cherry(m) => m,
                _ => seq![],
            };
            if marks.len() > 0 && unapplied(marks) == 0 {
                finish(
                    s,
                    LineageStatus::MergedByPatchId,
                    s.evidence.push(
                        cherry_cmd(s) + " marks all "@ + dec(marks.len()) + " branch commit(s) as applied upstream"@,
                    ),
                )
            } else if marks.len() == 0 {
                finish(s, LineageStatus::NotProven, s.evidence.push(cherry_cmd(s) + " found no branch-only commits"@))
            } else {
                finish(
                    s,
                    LineageStatus::NotProven,
                    s.evidence.push(cherry_cmd(s) + " found "@ + dec(unapplied(marks)) + " unapplied branch commit(s)"@),
                )
            }
        },
        LineagePhase::Done => (s, LineageActionV::Fail(seq![])),
    }
}


// ---------------------------------------------------------------------
// Evidence text
// ---------------------------------------------------------------------

fn ev_ref_text(kind: &str, r: &str, c: &str) -> (t: String)
    ensures
        t@ == ev_ref(kind@, r@, c@),
{
    let mut t = kind.to_owned();
    t.append(" ");
    t.append(r);
    t.append("@");
    let sc = short(c);
    t.append(sc.as_str());
    t
}

fn ev_ancestor_text(h: &str, b: &str) -> (t: String)
    ensures
        t@ == ev_ancestor(h@, b@),
{
    let mut t = "`git merge-base --is-ancestor ".to_owned();
    let sh = short(h);
    t.append(sh.as_str());
    t.append(" ");
    let sb = short(b);
    t.append(sb.as_str());
    t.append("` succeeded");
    t
}

fn ev_gh_failed_text(stderr: &str) -> (t: String)
    ensures
        t@ == ev_gh_failed(stderr@),
{
    let e = trimmed(stderr);
    if e.as_str().is_empty() {
        "GitHub PR lineage skipped: `gh pr list` failed".to_owned()
    } else {
        let mut t = "GitHub PR lineage skipped: ".to_owned();
        t.append(e.as_str());
        t
    }
}

fn ev_no_prs_text(head_filter: &str) -> (t: String)
    ensures
        t@ == ev_no_prs(head_filter@),
{
    let mut t = "GitHub PR lineage found no merged PR for `".to_owned();
    t.append(head_filter);
    t.append("`");
    t
}

fn debug_list_text(ns: &Vec<u64>) -> (t: String)
    ensures
        t@ == debug_list(ns@),
{
    let ghost parts = ns@.map_values(|n: u64| dec(n as nat));
    let mut body = String::new();
    let mut i: usize = 0;
    while i < ns.len()
        invariant
            parts == ns@.map_values(|n: u64| dec(n as nat)),
            i <= ns@.len(),
            body@ == join(parts.take(i as int), ", "@),
        decreases ns@.len() - i,
    {
        let ghost prev = parts.take(i as int);
        if i > 0 {
            body.append(", ");
        }
        push_decimal(&mut body, ns[i]);
        proof {
            let cur = parts.take(i + 1);
            assert(cur.drop_last() =~= prev);
            assert(cur.last() == dec(ns@[i as int] as nat));
            if i == 0 {
                assert(cur.len() == 1);
            }
        }
        i = i + 1;
    }
    assert(parts.take(ns@.len() as int) =~= parts);
    let mut t = "[".to_owned();
    t.append(body.as_str());
    t.append("]");
    t
}

fn ev_none_matched_text(head: &str, moved: &Vec<u64>) -> (t: String)
    ensures
        t@ == ev_none_matched(head@, moved@),
{
    let mut t = "GitHub PR lineage found merged PR(s) for branch, but none matched current HEAD ".to_owned();
    let sh = short(head);
    t.append(sh.as_str());
    t.append(" and reachable base: ");
    let l = debug_list_text(moved);
    t.append(l.as_str());
    t
}

pub open spec fn evidence_views(v: Seq<String>) -> Seq<Seq<char>> {
    v.map_values(|s: String| s@)
}

fn push_evidence(v: &mut Vec<String>, line: String)
    ensures
        evidence_views(final(v)@) == evidence_views(old(v)@).push(line@),
{
    let ghost l = line@;
    v.push(line);
    assert(evidence_views(v@) =~= evidence_views(old(v)@).push(l));
}

fn cherry_prefix(base_ref: &str, head_ref: &str) -> (t: String)
    ensures
        t@ == "`git cherry "@ + base_ref@ + " "@ + head_ref@ + "`"@,
{
    let mut t = "`git cherry ".to_owned();
    t.append(base_ref);
    t.append(" ");
    t.append(head_ref);
    t.append("`");
    t
}

// ---------------------------------------------------------------------
// Running the probe
// ---------------------------------------------------------------------

impl LineageProbe {
    /// The probe's state.
    pub closed spec fn state(&self) -> ProbeV {
        self@
    }

    /// Starts a lineage check of `head_ref` against `base_ref`; `branch` is
    /// the worktree's branch, none when it is detached.  The first question
    /// resolves the base.
    pub fn start(base_ref: &str, head_ref: &str, branch: Option<&str>) -> (r: (LineageProbe, LineageAction))
        ensures
            r.0@ == start_state(
                base_ref@,
                head_ref@,
                match branch {
                    Some(b) => Some(b@),
                    None => None,
                },
            ),
            probe_wf(r.0@),
            r.1@ == LineageActionV::RevParse(base_ref@),
    {
        let probe = LineageProbe {
            base_ref: base_ref.to_owned(),
            head_ref: head_ref.to_owned(),
            branch: match branch {
                Some(b) => Some(b.to_owned()),
                None => None,
            },
            phase: LineagePhase::AwaitBase,
            base_commit: String::new(),
            head_commit: String::new(),
            evidence: Vec::new(),
            head_filter: String::new(),
            prs: Vec::new(),
            next: 0,
            moved: Vec::new(),
        };
        assert(probe@.evidence =~= seq![]);
        assert(probe@.prs =~= seq![]);
        assert(probe@.moved =~= seq![]);
        (probe, LineageAction::RevParse(base_ref.to_owned()))
    }

    /// Whether the check is over.
    pub fn is_done(&self) -> (r: bool)
        ensures
            r == (self@.phase is Done),
    {
        self.phase == LineagePhase::Done
    }

    fn report(&self, status: LineageStatus) -> (r: LineageReport)
        ensures
            r@ == (LineageReportV {
                status,
                base_commit: self@.base_commit,
                head_commit: self@.head_commit,
                evidence: self@.evidence,
            }),
    {
        let mut evidence: Vec<String> = Vec::new();
        let mut i: usize = 0;
        while i < self.evidence.len()
            invariant
                i <= self.evidence@.len(),
                evidence_views(evidence@) == evidence_views(self.evidence@).take(i as int),
            decreases self.evidence@.len() - i,
        {
            push_evidence(&mut evidence, self.evidence[i].clone());
            assert(evidence_views(self.evidence@).take(i + 1) =~= evidence_views(self.evidence@).take(i as int).push(
                self.evidence@[i as int]@,
            ));
            i = i + 1;
        }
        assert(evidence_views(self.evidence@).take(self.evidence@.len() as int) =~= evidence_views(self.evidence@));
        LineageReport {
            status,
            base_commit: self.base_commit.clone(),
            head_commit: self.head_commit.clone(),
            evidence,
        }
    }

    fn go_cherry(&mut self, line: String) -> (r: LineageAction)
        ensures
            (final(self)@, r@) == to_cherry(old(self)@, line@),
    {
        push_evidence(&mut self.evidence, line);
        self.phase = LineagePhase::AwaitCherry;
        LineageAction::Cherry { upstream: self.base_ref.clone(), head: self.head_ref.clone() }
    }

    fn finish_with(&mut self, status: LineageStatus) -> (r: LineageAction)
        ensures
            (final(self)@, r@) == finish(old(self)@, status, old(self)@.evidence),
    {
        self.phase = LineagePhase::Done;
        LineageAction::Finish(self.report(status))
    }

    /// Goes on through the listed pull requests.
    fn scan_prs(&mut self) -> (r: LineageAction)
        requires
            old(self)@.next <= old(self)@.prs.len(),
            old(self)@.branch is Some,
        ensures
            (final(self)@, r@) == scan(old(self)@),
            probe_wf(final(self)@),
    {
        while self.next < self.prs.len()
            invariant
                self@.next <= self@.prs.len(),
                self@.branch is Some,
                scan(self@) == scan(old(self)@),
            decreases self@.prs.len() - self@.next,
        {
            let k = self.next;
            assert(self@.prs[k as int] == self.prs@[k as int]@);
            let hit = match &self.prs[k].merge_commit {
                Some(m) => {
                    if crate::text::str_eq(self.prs[k].head_ref_oid.as_str(), self.head_commit.as_str()) {
                        Some(m.clone())
                    } else {
                        None
                    }
                },
                None => None,
            };
            match hit {
                Some(m) => {
                    self.phase = LineagePhase::AwaitPrCheck;
                    return LineageAction::IsAncestor { ancestor: m, descendant: self.base_ref.clone() };
                },
                None => {
                    if self.prs[k].merge_commit.is_some() {
                        let n = self.prs[k].number;
                        self.moved.push(n);
                    }
                    self.next = k + 1;
                },
            }
        }
        let line = ev_none_matched_text(self.head_commit.as_str(), &self.moved);
        self.go_cherry(line)
    }

    /// Takes the answer to the last question and asks the next one.
    pub fn step(&mut self, event: LineageEvent) -> (r: LineageAction)
        requires
            probe_wf(old(self)@),
            answers(old(self)@.phase, event@),
        ensures
            (final(self)@, r@) == lineage_next(old(self)@, event@),
            probe_wf(final(self)@),
    {
        match self.phase {
            LineagePhase::AwaitBase => match event {
                LineageEvent::Commit(Some(c)) => {
                    self.base_commit = c;
                    self.phase = LineagePhase::AwaitHead;
                    LineageAction::RevParse(self.head_ref.clone())
                },
                _ => {
                    self.phase = LineagePhase::Done;
                    let mut m = "base ref `".to_owned();
                    m.append(self.base_ref.as_str());
                    m.append("` was not found");
                    LineageAction::Fail(m)
                },
            },
            LineagePhase::AwaitHead => match event {
                LineageEvent::Commit(Some(h)) => {
                    let mut evidence: Vec<String> = Vec::new();
                    push_evidence(&mut evidence, ev_ref_text("base", self.base_ref.as_str(), self.base_commit.as_str()));
                    push_evidence(&mut evidence, ev_ref_text("head", self.head_ref.as_str(), h.as_str()));
                    assert(evidence_views(evidence@) =~= seq![
                        ev_ref("base"@, self@.base_ref, self@.base_commit),
                        ev_ref("head"@, self@.head_ref, h@),
                    ]);
                    self.evidence = evidence;
                    let ancestor = h.clone();
                    self.head_commit = h;
                    self.phase = LineagePhase::AwaitAncestry;
                    LineageAction::IsAncestor { ancestor, descendant: self.base_commit.clone() }
                },
                _ => {
                    self.phase = LineagePhase::Done;
                    let mut m = "head ref `".to_owned();
                    m.append(self.head_ref.as_str());
                    m.append("` was not found");
                    LineageAction::Fail(m)
                },
            },
            LineagePhase::AwaitAncestry => match event {
                LineageEvent::Ancestor(true) => {
                    let line = ev_ancestor_text(self.head_commit.as_str(), self.base_commit.as_str());
                    push_evidence(&mut self.evidence, line);
                    self.finish_with(LineageStatus::MergedByAncestry)
                },
                _ => {
                    push_evidence(&mut self.evidence, "head is not an ancestor of base".to_owned());
                    if self.branch.is_some() {
                        self.phase = LineagePhase::AwaitRemote;
                        LineageAction::RemoteUrl("origin".to_owned())
                    } else {
                        self.go_cherry("GitHub PR lineage skipped: worktree is detached".to_owned())
                    }
                },
            },
            LineagePhase::AwaitRemote => {
                let slug = match &event {
                    LineageEvent::RemoteUrl(Some(u)) => parse_github_slug(u.as_str()),
                    _ => None,
                };
                match slug {
                    Some(slug) => {
                        let mut head = owner_of(slug.as_str());
                        head.append(":");
                        match &self.branch {
                            Some(b) => head.append(b.as_str()),
                            None => {},
                        }
                        self.head_filter = head.clone();
                        self.phase = LineagePhase::AwaitPrs;
                        LineageAction::ListMergedPrs { repo: slug, head }
                    },
                    None => self.go_cherry("GitHub PR lineage skipped: origin is not a GitHub remote".to_owned()),
                }
            },
            LineagePhase::AwaitPrs => match event {
                LineageEvent::PrList(PrListOutcome::Listed(prs)) => {
                    if prs.len() == 0 {
                        let line = ev_no_prs_text(self.head_filter.as_str());
                        self.go_cherry(line)
                    } else {
                        self.prs = prs;
                        self.next = 0;
                        self.moved = Vec::new();
                        assert(self@.moved =~= seq![]);
                        self.scan_prs()
                    }
                },
                LineageEvent::PrList(PrListOutcome::Failed(err)) => {
                    let line = ev_gh_failed_text(err.as_str());
                    self.go_cherry(line)
                },
                _ => self.go_cherry("GitHub PR lineage skipped: `gh` CLI is unavailable".to_owned()),
            },
            LineagePhase::AwaitPrCheck => {
                let k = self.next;
                assert(self@.prs[k as int] == self.prs@[k as int]@);
                match event {
                    LineageEvent::Ancestor(true) => {
                        let pr = &self.prs[k];
                        let merge = match &pr.merge_commit {
                            Some(m) => m.clone(),
                            None => String::new(),
                        };
                        let mut l1 = "GitHub PR #".to_owned();
                        push_decimal(&mut l1, pr.number);
                        l1.append(" was merged at ");
                        match &pr.merged_at {
                            Some(t) => l1.append(t.as_str()),
                            None => l1.append("unknown time"),
                        }
                        let mut l2 = "PR head matched worktree HEAD ".to_owned();
                        let sh = short(self.head_commit.as_str());
                        l2.append(sh.as_str());
                        let mut l3 = "PR merge/squash commit ".to_owned();
                        let sm = short(merge.as_str());
                        l3.append(sm.as_str());
                        l3.append(" is reachable from ");
                        l3.append(self.base_ref.as_str());
                        let mut l4 = "PR URL: ".to_owned();
                        l4.append(pr.url.as_str());
                        let ghost lines = ev_pr_merged(self@.prs[k as int], self@.head_commit, merge@, self@.base_ref);
                        let ghost ev0 = self@.evidence;
                        push_evidence(&mut self.evidence, l1);
                        push_evidence(&mut self.evidence, l2);
                        push_evidence(&mut self.evidence, l3);
                        push_evidence(&mut self.evidence, l4);
                        assert(self@.evidence =~= ev0 + lines);
                        self.finish_with(LineageStatus::MergedByGithubPr)
                    },
                    _ => {
                        let listed = self.prs.len();
                        let n = self.prs[k].number;
                        self.moved.push(n);
                        assert(k < listed);
                        self.next = k + 1;
                        self.scan_prs()
                    },
                }
            },
            LineagePhase::AwaitCherry => {
                let marks = match event {
                    LineageEvent::Cherry(m) => m,
                    _ => Vec::new(),
                };
                let ghost mv = mark_views(marks@);
                let ghost notp = |m: (bool, Seq<char>)| !m.0;
                let mut open: usize = 0;
                let mut i: usize = 0;
                while i < marks.len()
                    invariant
                        mv == mark_views(marks@),
                        notp == (|m: (bool, Seq<char>)| !m.0),
                        i <= marks@.len(),
                        open <= i,
                        open == mv.take(i as int).filter(notp).len(),
                    decreases marks@.len() - i,
                {
                    proof {
                        reveal(Seq::filter);
                        let pre = mv.take(i + 1);
                        assert(pre.drop_last() =~= mv.take(i as int));
                        assert(pre.last() == (marks@[i as int].applied, marks@[i as int].commit@));
                    }
                    if !marks[i].applied {
                        open = open + 1;
                    }
                    i = i + 1;
                }
                assert(mv.take(mv.len() as int) =~= mv);
                let mut line = cherry_prefix(self.base_ref.as_str(), self.head_ref.as_str());
                if marks.len() > 0 && open == 0 {
                    line.append(" marks all ");
                    push_decimal(&mut line, marks.len() as u64);
                    line.append(" branch commit(s) as applied upstream");
                    push_evidence(&mut self.evidence, line);
                    self.finish_with(LineageStatus::MergedByPatchId)
                } else if marks.len() == 0 {
                    line.append(" found no branch-only commits");
                    push_evidence(&mut self.evidence, line);
                    self.finish_with(LineageStatus::NotProven)
                } else {
                    line.append(" found ");
                    push_decimal(&mut line, open as u64);
                    line.append(" unapplied branch commit(s)");
                    push_evidence(&mut self.evidence, line);
                    self.finish_with(LineageStatus::NotProven)
                }
            },
            LineagePhase::Done => LineageAction::Fail(String::new()),
        }
    }
}


/// A lineage check proves a merge only on positive evidence: ancestry only
/// when git said HEAD is an ancestor of the base, a pull request only when
/// one whose head is HEAD has its merge commit reachable from the base, and
/// patch identity only when `git cherry` listed commits and marked every
/// one as applied.
pub proof fn lemma_merge_needs_evidence(s: ProbeV, e: LineageEventV)
    requires
        probe_wf(s),
        answers(s.phase, e),
    ensures
        match lineage_next(s, e).1 {
            LineageActionV::Finish(r) => {
                &&& r.status == LineageStatus::MergedByAncestry ==> s.phase is AwaitAncestry && e == LineageEventV::Ancestor(
                    true,
                )
                &&& r.status == LineageStatus::MergedByGithubPr ==> s.phase is AwaitPrCheck && e
                    == LineageEventV::Ancestor(true) && s.prs[s.next as int].head_ref_oid == s.head_commit
                    && s.prs[s.next as int].merge_commit is Some
                &&& r.status == LineageStatus::MergedByPatchId ==> (e matches LineageEventV::Cherry(m) && m.len() > 0
                    && forall|i: int| 0 <= i < m.len() ==> (#[trigger] m[i]).0)
            },
            _ => true,
        },
{
    if let LineageEventV::Cherry(m) = e {
        if s.phase is AwaitCherry && m.len() > 0 && unapplied(m) == 0 {
            assert forall|i: int| 0 <= i < m.len() implies (#[trigger] m[i]).0 by {
                if !m[i].0 {
                    m.lemma_filter_contains(|x: (bool, Seq<char>)| !x.0, i);
                }
            }
        }
    }
    if s.phase is AwaitPrCheck || s.phase is AwaitPrs {
        lemma_scan_checks_head(ProbeV { next: s.next + 1, moved: s.moved.push(s.prs[s.next as int].number), ..s });
    }
    if let LineageEventV::PrList(PrListV::Listed(prs)) = e {
        lemma_scan_checks_head(ProbeV { prs, next: 0, moved: seq![], ..s });
    }
}

/// Going through the pull requests ends by asking `git cherry` or by
/// checking one; it never finishes the check by itself.
proof fn lemma_scan_checks_head(s: ProbeV)
    ensures
        scan(s).1 is Cherry || scan(s).1 is IsAncestor,
    decreases s.prs.len() - s.next,
{
    if s.next < s.prs.len() {
        let pr = s.prs[s.next as int];
        match pr.merge_commit {
            None => lemma_scan_checks_head(ProbeV { next: s.next + 1, ..s }),
            Some(m) => if pr.head_ref_oid != s.head_commit {
                lemma_scan_checks_head(ProbeV { next: s.next + 1, moved: s.moved.push(pr.number), ..s });
            },
        }
    }
}

// ---------------------------------------------------------------------
// A whole check
// ---------------------------------------------------------------------

/// The state `start` gives.
pub open spec fn start_state(base_ref: Seq<char>, head_ref: Seq<char>, branch: Option<Seq<char>>) -> ProbeV {
    ProbeV {
        base_ref,
        head_ref,
        branch,
        phase: LineagePhase::AwaitBase,
        base_commit: seq![],
        head_commit: seq![],
        evidence: seq![],
        head_filter: seq![],
        prs: seq![],
        next: 0,
        moved: seq![],
    }
}

/// The state and the last action after taking the answers `es` in turn.
pub open spec fn run_probe(s: ProbeV, es: Seq<LineageEventV>) -> (ProbeV, LineageActionV)
    decreases es.len(),
{
    if es.len() <= 1 {
        lineage_next(s, es[0])
    } else {
        run_probe(lineage_next(s, es[0]).0, es.drop_first())
    }
}

/// Whether each of `es` answers the question asked just before it.
pub open spec fn answered(s: ProbeV, es: Seq<LineageEventV>) -> bool
    decreases es.len(),
{
    es.len() == 0 || (answers(s.phase, es[0]) && answered(lineage_next(s, es[0]).0, es.drop_first()))
}

/// A pull request whose head is `h` and which names a merge commit.
pub open spec fn good_pr(pr: GithubPrV, h: Seq<char>) -> bool {
    pr.head_ref_oid == h && pr.merge_commit is Some
}

/// Whether `gh` listed, among the answers, a pull request whose head is
/// `h` and which names a merge commit.
pub open spec fn listed_good_pr(es: Seq<LineageEventV>, h: Seq<char>) -> bool {
    exists|k: int| 0 <= k < es.len() && lists_good_pr(#[trigger] es[k], h)
}

/// Whether `e` is a list from `gh` that holds a pull request whose head is
/// `h` and which names a merge commit.
pub open spec fn lists_good_pr(e: LineageEventV, h: Seq<char>) -> bool {
    e matches LineageEventV::PrList(PrListV::Listed(prs)) && exists|j: int| 0 <= j < prs.len() && good_pr(#[trigger] prs[j], h)
}

/// What holds of a probe once both refs resolved to `b` and `h`, with the
/// two evidence lines `e0` and `e1` first, until it is done.
pub open spec fn resolved(s: ProbeV, b: Seq<char>, h: Seq<char>, e0: Seq<char>, e1: Seq<char>) -> bool {
    &&& (s.phase is AwaitAncestry || s.phase is AwaitRemote || s.phase is AwaitPrs || s.phase is AwaitPrCheck
        || s.phase is AwaitCherry)
    &&& s.base_commit == b
    &&& s.head_commit == h
    &&& s.evidence.len() >= 2
    &&& s.evidence[0] == e0
    &&& s.evidence[1] == e1
    &&& (s.phase is AwaitRemote || s.phase is AwaitPrs || s.phase is AwaitPrCheck) ==> s.branch is Some
    &&& s.phase is AwaitPrCheck ==> s.next < s.prs.len() && good_pr(s.prs[s.next as int], h)
}

proof fn lemma_scan_keeps(s: ProbeV)
    ensures
        scan(s).0.base_commit == s.base_commit,
        scan(s).0.head_commit == s.head_commit,
        scan(s).0.branch == s.branch,
        scan(s).0.base_ref == s.base_ref,
        scan(s).0.head_ref == s.head_ref,
        scan(s).0.prs == s.prs,
        scan(s).0.evidence.len() >= s.evidence.len(),
        forall|i: int| 0 <= i < s.evidence.len() ==> scan(s).0.evidence[i] == s.evidence[i],
        scan(s).0.phase is AwaitPrCheck || scan(s).0.phase is AwaitCherry,
        scan(s).0.phase is AwaitPrCheck ==> scan(s).0.next < s.prs.len() && good_pr(
            s.prs[scan(s).0.next as int],
            s.head_commit,
        ),
        scan(s).1 is Cherry || scan(s).1 is IsAncestor,
    decreases s.prs.len() - s.next,
{
    if s.next < s.prs.len() {
        let pr = s.prs[s.next as int];
        match pr.merge_commit {
            None => lemma_scan_keeps(ProbeV { next: s.next + 1, ..s }),
            Some(m) => if pr.head_ref_oid != s.head_commit {
                lemma_scan_keeps(ProbeV { next: s.next + 1, moved: s.moved.push(pr.number), ..s });
            },
        }
    }
}

proof fn lemma_resolved_step(s: ProbeV, e: LineageEventV, b: Seq<char>, h: Seq<char>, e0: Seq<char>, e1: Seq<char>)
    requires
        resolved(s, b, h, e0, e1),
        answers(s.phase, e),
    ensures
        lineage_next(s, e).0.branch == s.branch,
        lineage_next(s, e).0.phase is Done <==> lineage_next(s, e).1 is Finish,
        !(lineage_next(s, e).1 is Fail),
        !(lineage_next(s, e).0.phase is AwaitAncestry),
        !(lineage_next(s, e).0.phase is Done) ==> resolved(lineage_next(s, e).0, b, h, e0, e1),
        (exists|j: int| 0 <= j < lineage_next(s, e).0.prs.len() && good_pr(#[trigger] lineage_next(s, e).0.prs[j], h))
            ==> (exists|j: int| 0 <= j < s.prs.len() && good_pr(#[trigger] s.prs[j], h)) || e == LineageEventV::PrList(
            PrListV::Listed(lineage_next(s, e).0.prs),
        ),
        lineage_next(s, e).1 matches LineageActionV::Finish(r) ==> {
            &&& r.base_commit == b
            &&& r.head_commit == h
            &&& r.evidence.len() >= 2
            &&& r.evidence[0] == e0
            &&& r.evidence[1] == e1
            &&& (r.status == LineageStatus::MergedByAncestry <==> s.phase is AwaitAncestry && e == LineageEventV::Ancestor(
                true,
            ))
            &&& r.status == LineageStatus::MergedByGithubPr ==> s.branch is Some && s.phase is AwaitPrCheck
                && good_pr(s.prs[s.next as int], h) && s.next < s.prs.len()
            &&& r.status == LineageStatus::MergedByPatchId ==> (e matches LineageEventV::Cherry(m) && m.len() > 0
                && forall|i: int| 0 <= i < m.len() ==> (#[trigger] m[i]).0)
        },
{
    let (s1, a) = lineage_next(s, e);
    if s.phase is AwaitPrCheck {
        lemma_scan_keeps(ProbeV { next: s.next + 1, moved: s.moved.push(s.prs[s.next as int].number), ..s });
    }
    if s.phase is AwaitPrs {
        if let LineageEventV::PrList(PrListV::Listed(prs)) = e {
            lemma_scan_keeps(ProbeV { prs, next: 0, moved: seq![], ..s });
        }
    }
    if let LineageEventV::Cherry(m) = e {
        if s.phase is AwaitCherry && m.len() > 0 && unapplied(m) == 0 {
            assert forall|i: int| 0 <= i < m.len() implies (#[trigger] m[i]).0 by {
                if !m[i].0 {
                    m.lemma_filter_contains(|x: (bool, Seq<char>)| !x.0, i);
                }
            }
        }
    }
    if a is Finish {
        let r = a->Finish_0;
        assert(r.evidence[0] == e0 && r.evidence[1] == e1);
    }
}

proof fn lemma_resolved_run(s: ProbeV, es: Seq<LineageEventV>, b: Seq<char>, h: Seq<char>, e0: Seq<char>, e1: Seq<char>)
    requires
        resolved(s, b, h, e0, e1),
        es.len() > 0,
        answered(s, es),
    ensures
        run_probe(s, es).1 matches LineageActionV::Finish(r) ==> {
            &&& r.base_commit == b
            &&& r.head_commit == h
            &&& r.evidence.len() >= 2
            &&& r.evidence[0] == e0
            &&& r.evidence[1] == e1
            &&& (r.status == LineageStatus::MergedByAncestry <==> s.phase is AwaitAncestry && es[0] == LineageEventV::Ancestor(
                true,
            ))
            &&& r.status == LineageStatus::MergedByGithubPr ==> s.branch is Some && ((exists|j: int|
                0 <= j < s.prs.len() && good_pr(#[trigger] s.prs[j], h)) || listed_good_pr(es, h))
            &&& r.status == LineageStatus::MergedByPatchId ==> (es.last() matches LineageEventV::Cherry(m) && m.len() > 0
                && forall|i: int| 0 <= i < m.len() ==> (#[trigger] m[i]).0)
        },
    decreases es.len(),
{
    lemma_resolved_step(s, es[0], b, h, e0, e1);
    if es.len() > 1 {
        let s1 = lineage_next(s, es[0]).0;
        let rest = es.drop_first();
        assert(answered(s1, rest));
        assert(answers(s1.phase, rest[0]));
        assert(!(s1.phase is Done));
        lemma_resolved_run(s1, rest, b, h, e0, e1);
        assert(rest.last() == es.last());
        if listed_good_pr(rest, h) {
            let k = choose|k: int| 0 <= k < rest.len() && lists_good_pr(#[trigger] rest[k], h);
            assert(es[k + 1] == rest[k]);
        }
        if exists|j: int| 0 <= j < s1.prs.len() && good_pr(#[trigger] s1.prs[j], h) {
            if es[0] == LineageEventV::PrList(PrListV::Listed(s1.prs)) {
                assert(lists_good_pr(es[0], h));
            }
        }
    } else {
        assert(run_probe(s, es) == lineage_next(s, es[0]));
        assert(es.last() == es[0]);
    }
}

/// A whole lineage check whose two refs resolve, to `b` and `h`, and that
/// ends with a report: the report names those commits and begins with the
/// two lines that show them; it says merged by ancestry exactly when git
/// then said HEAD is an ancestor of the base; merged by a pull request
/// only for a branch, and only when `gh` listed a merged pull request
/// whose head is HEAD; merged by patch identity only when the last answer,
/// from `git cherry`, listed commits and marked every one as applied.
pub proof fn lemma_lineage_run(
    base_ref: Seq<char>,
    head_ref: Seq<char>,
    branch: Option<Seq<char>>,
    b: Seq<char>,
    h: Seq<char>,
    es: Seq<LineageEventV>,
)
    requires
        answered(
            start_state(base_ref, head_ref, branch),
            seq![LineageEventV::Commit(Some(b)), LineageEventV::Commit(Some(h))] + es,
        ),
        run_probe(
            start_state(base_ref, head_ref, branch),
            seq![LineageEventV::Commit(Some(b)), LineageEventV::Commit(Some(h))] + es,
        ).1 is Finish,
    ensures
        run_probe(
            start_state(base_ref, head_ref, branch),
            seq![LineageEventV::Commit(Some(b)), LineageEventV::Commit(Some(h))] + es,
        ).1 matches LineageActionV::Finish(r) && {
            &&& r.base_commit == b
            &&& r.head_commit == h
            &&& r.evidence.len() >= 2
            &&& r.evidence[0] == ev_ref("base"@, base_ref, b)
            &&& r.evidence[1] == ev_ref("head"@, head_ref, h)
            &&& (r.status == LineageStatus::MergedByAncestry <==> es[0] == LineageEventV::Ancestor(true))
            &&& r.status == LineageStatus::MergedByGithubPr ==> branch is Some && listed_good_pr(es, h)
            &&& r.status == LineageStatus::MergedByPatchId ==> (es.last() matches LineageEventV::Cherry(m) && m.len()
                > 0 && forall|i: int| 0 <= i < m.len() ==> (#[trigger] m[i]).0)
        },
{
    let s0 = start_state(base_ref, head_ref, branch);
    let all = seq![LineageEventV::Commit(Some(b)), LineageEventV::Commit(Some(h))] + es;
    let s1 = lineage_next(s0, LineageEventV::Commit(Some(b))).0;
    let s2 = lineage_next(s1, LineageEventV::Commit(Some(h))).0;
    assert(all[0] == LineageEventV::Commit(Some(b)));
    assert(all.drop_first()[0] == LineageEventV::Commit(Some(h)));
    assert(all.drop_first().drop_first() =~= es);
    if es.len() == 0 {
        assert(all.drop_first().len() == 1);
        assert(run_probe(s0, all) == run_probe(s1, all.drop_first()));
        assert(false);
    }
    assert(run_probe(s0, all) == run_probe(s1, all.drop_first()));
    assert(run_probe(s1, all.drop_first()) == run_probe(s2, es));
    assert(answered(s1, all.drop_first()));
    assert(answered(s2, all.drop_first().drop_first()));
    assert(answered(s2, es));
    let e0 = ev_ref("base"@, base_ref, b);
    let e1 = ev_ref("head"@, head_ref, h);
    assert(resolved(s2, b, h, e0, e1));
    lemma_resolved_run(s2, es, b, h, e0, e1);
}

/// `gh` is asked only for a branch whose `origin` parses as a GitHub
/// repository, about that repository and the branch under its owner; and
/// nothing `gh` answers (a list, a failure, or no `gh` at all) makes the
/// check fail: it goes on to check a pull request or to `git cherry`.
pub proof fn lemma_github_only_for_github_origin(s: ProbeV, e: LineageEventV)
    requires
        probe_wf(s),
        answers(s.phase, e),
    ensures
        lineage_next(s, e).1 matches LineageActionV::ListMergedPrs { repo, head } ==> s.phase is AwaitRemote
            && s.branch is Some && (e matches LineageEventV::RemoteUrl(Some(u)) && spec_github_slug(u) == Some(repo))
            && head == slug_owner(repo) + ":"@ + s.branch.unwrap(),
        s.phase is AwaitPrs ==> lineage_next(s, e).1 is Cherry || lineage_next(s, e).1 is IsAncestor,
{
    if s.phase is AwaitPrs {
        if let LineageEventV::PrList(PrListV::Listed(prs)) = e {
            lemma_scan_keeps(ProbeV { prs, next: 0, moved: seq![], ..s });
        }
    }
    if s.phase is AwaitPrCheck {
        lemma_scan_keeps(ProbeV { next: s.next + 1, moved: s.moved.push(s.prs[s.next as int].number), ..s });
    }
}

/// Going through the listed pull requests from `s.next` asks about the
/// first one whose head is HEAD and which names a merge commit (whether
/// that commit is an ancestor of the base), passing over the others; when
/// there is none it goes on to `git cherry`.
pub proof fn lemma_scan_asks_first_good(s: ProbeV)
    requires
        s.next <= s.prs.len(),
    ensures
        scan(s).0.phase is AwaitPrCheck <==> exists|j: int| s.next <= j < s.prs.len() && good_pr(#[trigger] s.prs[j], s.head_commit),
        scan(s).0.phase is AwaitPrCheck ==> {
            &&& s.next <= scan(s).0.next < s.prs.len()
            &&& good_pr(s.prs[scan(s).0.next as int], s.head_commit)
            &&& forall|j: int| s.next <= j < scan(s).0.next ==> !good_pr(#[trigger] s.prs[j], s.head_commit)
            &&& scan(s).1 == LineageActionV::IsAncestor {
                ancestor: s.prs[scan(s).0.next as int].merge_commit.unwrap(),
                descendant: s.base_ref,
            }
        },
        scan(s).0.phase is AwaitCherry ==> scan(s).1 is Cherry,
    decreases s.prs.len() - s.next,
{
    lemma_scan_keeps(s);
    if s.next < s.prs.len() {
        let pr = s.prs[s.next as int];
        match pr.merge_commit {
            None => {
                let t = ProbeV { next: s.next + 1, ..s };
                lemma_scan_asks_first_good(t);
                if exists|j: int| s.next <= j < s.prs.len() && good_pr(#[trigger] s.prs[j], s.head_commit) {
                    let j = choose|j: int| s.next <= j < s.prs.len() && good_pr(#[trigger] s.prs[j], s.head_commit);
                    assert(j != s.next);
                    assert(t.prs[j] == s.prs[j]);
                }
            },
            Some(m) => if pr.head_ref_oid != s.head_commit {
                let t = ProbeV { next: s.next + 1, moved: s.moved.push(pr.number), ..s };
                lemma_scan_asks_first_good(t);
                if exists|j: int| s.next <= j < s.prs.len() && good_pr(#[trigger] s.prs[j], s.head_commit) {
                    let j = choose|j: int| s.next <= j < s.prs.len() && good_pr(#[trigger] s.prs[j], s.head_commit);
                    assert(j != s.next);
                    assert(t.prs[j] == s.prs[j]);
                }
            } else {
                assert(good_pr(s.prs[s.next as int], s.head_commit));
            },
        }
    }
}

/// Checking a pull request: when git confirms its merge commit is an
/// ancestor of the base, the check ends merged by that pull request, with
/// its evidence; otherwise the next pull requests are gone through.
/// Nothing `gh` or git answers here makes the check fail.
pub proof fn lemma_pr_check_answer(s: ProbeV, e: LineageEventV)
    requires
        probe_wf(s),
        s.phase is AwaitPrCheck,
        answers(s.phase, e),
    ensures
        e == LineageEventV::Ancestor(true) ==> lineage_next(s, e).1 == LineageActionV::Finish(
            LineageReportV {
                status: LineageStatus::MergedByGithubPr,
                base_commit: s.base_commit,
                head_commit: s.head_commit,
                evidence: s.evidence + ev_pr_merged(
                    s.prs[s.next as int],
                    s.head_commit,
                    s.prs[s.next as int].merge_commit.unwrap(),
                    s.base_ref,
                ),
            },
        ),
        e != LineageEventV::Ancestor(true) ==> lineage_next(s, e) == scan(
            ProbeV { next: s.next + 1, moved: s.moved.push(s.prs[s.next as int].number), ..s },
        ),
        !(lineage_next(s, e).1 is Fail),
{
    lemma_scan_keeps(ProbeV { next: s.next + 1, moved: s.moved.push(s.prs[s.next as int].number), ..s });
}

proof fn lemma_resolved_run_no_fail(s: ProbeV, es: Seq<LineageEventV>, b: Seq<char>, h: Seq<char>, e0: Seq<char>, e1: Seq<char>)
    requires
        resolved(s, b, h, e0, e1),
        es.len() > 0,
        answered(s, es),
    ensures
        !(run_probe(s, es).1 is Fail),
    decreases es.len(),
{
    lemma_resolved_step(s, es[0], b, h, e0, e1);
    if es.len() > 1 {
        let s1 = lineage_next(s, es[0]).0;
        let rest = es.drop_first();
        assert(answered(s1, rest));
        assert(answers(s1.phase, rest[0]));
        lemma_resolved_run_no_fail(s1, rest, b, h, e0, e1);
    }
}

/// Once both refs resolve, a lineage check never fails: whatever git and
/// `gh` answer afterwards, each answer leads to the next question or to
/// the report.
pub proof fn lemma_lineage_never_fails_after_refs(
    base_ref: Seq<char>,
    head_ref: Seq<char>,
    branch: Option<Seq<char>>,
    b: Seq<char>,
    h: Seq<char>,
    es: Seq<LineageEventV>,
)
    requires
        es.len() > 0,
        answered(
            start_state(base_ref, head_ref, branch),
            seq![LineageEventV::Commit(Some(b)), LineageEventV::Commit(Some(h))] + es,
        ),
    ensures
        !(run_probe(
            start_state(base_ref, head_ref, branch),
            seq![LineageEventV::Commit(Some(b)), LineageEventV::Commit(Some(h))] + es,
        ).1 is Fail),
{
    let s0 = start_state(base_ref, head_ref, branch);
    let all = seq![LineageEventV::Commit(Some(b)), LineageEventV::Commit(Some(h))] + es;
    let s1 = lineage_next(s0, LineageEventV::Commit(Some(b))).0;
    let s2 = lineage_next(s1, LineageEventV::Commit(Some(h))).0;
    assert(all[0] == LineageEventV::Commit(Some(b)));
    assert(all.drop_first()[0] == LineageEventV::Commit(Some(h)));
    assert(all.drop_first().drop_first() =~= es);
    assert(run_probe(s0, all) == run_probe(s1, all.drop_first()));
    assert(run_probe(s1, all.drop_first()) == run_probe(s2, es));
    assert(answered(s1, all.drop_first()));
    assert(answered(s2, all.drop_first().drop_first()));
    let e0 = ev_ref("base"@, base_ref, b);
    let e1 = ev_ref("head"@, head_ref, h);
    assert(resolved(s2, b, h, e0, e1));
    lemma_resolved_run_no_fail(s2, es, b, h, e0, e1);
}

} // verus!
