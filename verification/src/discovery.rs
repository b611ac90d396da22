//! Discovery: turning git's view of repo families into the cache and state.

use vstd::prelude::*;
use vstd::set_lib::{lemma_int_range, lemma_len_subset, lemma_map_size, set_int_range};

use crate::domain::{
    repo_views, RepoRecord, RepoRecordV, RepoSource, WorktreeSource,
};
use crate::git::{entry_views, EntryView, GitWorktreeEntry};
use crate::paths::{path_same, same_path, segment_ranges, segments, seg_views};
use crate::text::{chars_of, dec, decimal, lemma_dec_injective, str_eq};

verus! {

/// A repo family: one git common directory and its worktrees, as git lists
/// them (the first is the base worktree).
#[derive(Debug, PartialEq, Eq)]
pub struct Family {
    pub common_dir: String,
    pub canonical_path: String,
    pub display_name: String,
    pub base_branch: Option<String>,
    pub source: RepoSource,
    pub worktrees: Vec<GitWorktreeEntry>,
}

pub struct FamilyV {
    pub common_dir: Seq<char>,
    pub canonical_path: Seq<char>,
    pub display_name: Seq<char>,
    pub base_branch: Option<Seq<char>>,
    pub source: RepoSource,
    pub worktrees: Seq<EntryView>,
}

impl View for Family {
    type V = FamilyV;

    open spec fn view(&self) -> FamilyV {
        FamilyV {
            common_dir: self.common_dir@,
            canonical_path: self.canonical_path@,
            display_name: self.display_name@,
            base_branch: crate::domain::opt_str(self.base_branch),
            source: self.source,
            worktrees: entry_views(self.worktrees@),
        }
    }
}

// ---------------------------------------------------------------------
// Worktree source
// ---------------------------------------------------------------------

/// Who created a worktree: Workroot for families it created, a `workmux`
/// path component marks workmux, anything else is manual.
pub open spec fn spec_worktree_source(path: Seq<char>, source: RepoSource) -> WorktreeSource {
    if source == RepoSource::Workroot {
        WorktreeSource::Workroot
    } else if segments(path).contains("workmux"@) {
        WorktreeSource::Workmux
    } else {
        WorktreeSource::Manual
    }
}

pub fn worktree_source(path: &str, source: RepoSource) -> (r: WorktreeSource)
    ensures
        r == spec_worktree_source(path@, source),
{
    if source == RepoSource::Workroot {
        return WorktreeSource::Workroot;
    }
    let v = chars_of(path);
    let rs = segment_ranges(&v);
    let mut i: usize = 0;
    while i < rs.len()
        invariant
            source != RepoSource::Workroot,
            v@ == path@,
            seg_views(v@, rs@) == segments(path@),
            forall|j: int| 0 <= j < rs@.len() ==> (#[trigger] rs@[j]).0 <= rs@[j].1 <= v@.len(),
            i <= rs@.len(),
            forall|j: int| 0 <= j < i ==> segments(path@)[j] != "workmux"@,
        decreases rs@.len() - i,
    {
        let (lo, hi) = rs[i];
        let seg = crate::text::string_of(&v, lo, hi);
        assert(seg_views(v@, rs@)[i as int] == seg@);
        if str_eq(seg.as_str(), "workmux") {
            assert(segments(path@)[i as int] == "workmux"@);
            assert(segments(path@).contains("workmux"@));
            return WorktreeSource::Workmux;
        }
        i = i + 1;
    }
    WorktreeSource::Manual
}

// ---------------------------------------------------------------------
// Unique aliases
// ---------------------------------------------------------------------

pub open spec fn aliases(repos: Seq<RepoRecordV>) -> Seq<Seq<char>> {
    repos.map_values(|r: RepoRecordV| r.alias)
}

/// `d` with the numeric suffix `-k`.
pub open spec fn suffixed(d: Seq<char>, k: nat) -> Seq<char> {
    d + "-"@ + dec(k)
}

/// The first `k` from `k0` on (trying `fuel` values) whose suffixed form is
/// not yet an alias.
pub open spec fn free_suffix(used: Seq<Seq<char>>, d: Seq<char>, k: nat, fuel: nat) -> nat
    decreases fuel,
{
    if fuel == 0 || !used.contains(suffixed(d, k)) {
        k
    } else {
        free_suffix(used, d, k + 1, (fuel - 1) as nat)
    }
}

/// A new alias for a family named `d`: `d` itself when it is free, else
/// `d-k` for the smallest `k >= 2` that is free.
pub open spec fn spec_unique_alias(repos: Seq<RepoRecordV>, d: Seq<char>) -> Seq<char> {
    let used = aliases(repos);
    if !used.contains(d) {
        d
    } else {
        suffixed(d, free_suffix(used, d, 2, (repos.len() + 1) as nat))
    }
}

proof fn lemma_suffixed_injective(d: Seq<char>, a: nat, b: nat)
    requires
        suffixed(d, a) == suffixed(d, b),
    ensures
        a == b,
{
    let p = d + "-"@;
    assert(suffixed(d, a).skip(p.len() as int) =~= dec(a));
    assert(suffixed(d, b).skip(p.len() as int) =~= dec(b));
    lemma_dec_injective(a, b);
}

/// Among `used.len() + 1` suffixes, one is free.
proof fn lemma_some_suffix_free(used: Seq<Seq<char>>, d: Seq<char>)
    ensures
        exists|k: nat| 2 <= k < used.len() + 3 && !used.contains(#[trigger] suffixed(d, k)),
{
    if forall|k: nat| 2 <= k < used.len() + 3 ==> used.contains(#[trigger] suffixed(d, k)) {
        let n = used.len() as int;
        let ks = set_int_range(2, n + 3);
        lemma_int_range(2, n + 3);
        let f = |k: int| suffixed(d, k as nat);
        let img = ks.map(f);
        assert forall|x: int, y: int| ks.contains(x) && ks.contains(y) && #[trigger] f(x) == #[trigger] f(y)
            implies x == y by {
            lemma_suffixed_injective(d, x as nat, y as nat);
        }
        lemma_map_size(ks, img, f);
        let us = used.to_set();
        used.lemma_cardinality_of_set();
        assert forall|x: Seq<char>| img.contains(x) implies us.contains(x) by {
            let k = choose|k: int| ks.contains(k) && f(k) == x;
            assert(used.contains(suffixed(d, k as nat)));
        }
        lemma_len_subset(img, us);
        assert(false);
    }
}

proof fn lemma_free_suffix(used: Seq<Seq<char>>, d: Seq<char>, k: nat, fuel: nat)
    requires
        exists|j: nat| k <= j < k + fuel && !used.contains(#[trigger] suffixed(d, j)),
    ensures
        k <= free_suffix(used, d, k, fuel) < k + fuel,
        !used.contains(suffixed(d, free_suffix(used, d, k, fuel))),
    decreases fuel,
{
    if used.contains(suffixed(d, k)) {
        let j = choose|j: nat| k <= j < k + fuel && !used.contains(#[trigger] suffixed(d, j));
        assert(j != k);
        assert(k + 1 <= j < k + 1 + (fuel - 1) as nat);
        lemma_free_suffix(used, d, k + 1, (fuel - 1) as nat);
    }
}

/// The unique alias is never one already in use.
pub proof fn lemma_unique_alias_is_free(repos: Seq<RepoRecordV>, d: Seq<char>)
    ensures
        !aliases(repos).contains(spec_unique_alias(repos, d)),
{
    let used = aliases(repos);
    if used.contains(d) {
        lemma_some_suffix_free(used, d);
        lemma_free_suffix(used, d, 2, (repos.len() + 1) as nat);
    }
}

fn alias_used(repos: &Vec<RepoRecord>, a: &str) -> (r: bool)
    ensures
        r == aliases(repo_views(repos@)).contains(a@),
{
    let mut i: usize = 0;
    while i < repos.len()
        invariant
            i <= repos@.len(),
            forall|j: int| 0 <= j < i ==> repos@[j].alias@ != a@,
        decreases repos@.len() - i,
    {
        if str_eq(repos[i].alias.as_str(), a) {
            assert(aliases(repo_views(repos@))[i as int] == a@);
            return true;
        }
        i = i + 1;
    }
    assert forall|j: int| 0 <= j < aliases(repo_views(repos@)).len() implies aliases(
        repo_views(repos@),
    )[j] != a@ by {
        assert(aliases(repo_views(repos@))[j] == repos@[j].alias@);
    }
    false
}

fn suffixed_name(d: &str, k: u64) -> (r: String)
    ensures
        r@ == suffixed(d@, k as nat),
{
    let mut r = d.to_owned();
    r.append("-");
    let n = decimal(k);
    r.append(n.as_str());
    r
}

/// A fresh alias for a family displayed as `display`.
pub fn unique_alias(repos: &Vec<RepoRecord>, display: &str) -> (r: String)
    requires
        repos@.len() + 3 <= u64::MAX,
    ensures
        r@ == spec_unique_alias(repo_views(repos@), display@),
        !aliases(repo_views(repos@)).contains(r@),
{
    proof {
        lemma_unique_alias_is_free(repo_views(repos@), display@);
    }
    if !alias_used(repos, display) {
        return display.to_owned();
    }
    let ghost used = aliases(repo_views(repos@));
    let n = repos.len() as u64;
    let mut k: u64 = 2;
    let mut fuel: u64 = n + 1;
    while fuel > 0
        invariant
            used == aliases(repo_views(repos@)),
            used.contains(display@),
            k + fuel == n + 3,
            n == repos@.len(),
            n + 3 <= u64::MAX,
            free_suffix(used, display@, k as nat, fuel as nat) == free_suffix(
                used,
                display@,
                2,
                (repos@.len() + 1) as nat,
            ),
        decreases fuel,
    {
        let cand = suffixed_name(display, k);
        if !alias_used(repos, cand.as_str()) {
            return cand;
        }
        k = k + 1;
        fuel = fuel - 1;
    }
    suffixed_name(display, k)
}

} // verus!

verus! {

// ---------------------------------------------------------------------
// Targets
// ---------------------------------------------------------------------

/// A name derived from `d` that `used` does not hold: `d` itself when it
/// is free, else `d-k` for the least free `k >= 2`.
pub open spec fn fresh_name(used: Seq<Seq<char>>, d: Seq<char>) -> Seq<char> {
    if !used.contains(d) {
        d
    } else {
        suffixed(d, free_suffix(used, d, 2, (used.len() + 1) as nat))
    }
}

/// The fresh name is free.
pub proof fn lemma_fresh_name_is_free(used: Seq<Seq<char>>, d: Seq<char>)
    ensures
        !used.contains(fresh_name(used, d)),
{
    if used.contains(d) {
        lemma_some_suffix_free(used, d);
        lemma_free_suffix(used, d, 2, (used.len() + 1) as nat);
    }
}

/// A fresh name for `d` among `taken`.
fn fresh_target(taken: &Vec<String>, d: &str) -> (r: String)
    requires
        taken@.len() + 3 <= u64::MAX,
    ensures
        r@ == fresh_name(crate::domain::string_views(taken@), d@),
{
    let ghost used = crate::domain::string_views(taken@);
    if !crate::facts::contains_string(taken, d) {
        return d.to_owned();
    }
    let n = taken.len() as u64;
    let mut k: u64 = 2;
    let mut fuel: u64 = n + 1;
    while fuel > 0
        invariant
            used == crate::domain::string_views(taken@),
            used.contains(d@),
            k + fuel == n + 3,
            n == taken@.len(),
            n + 3 <= u64::MAX,
            free_suffix(used, d@, k as nat, fuel as nat) == free_suffix(used, d@, 2, (used.len() + 1) as nat),
        decreases fuel,
    {
        let cand = suffixed_name(d, k);
        if !crate::facts::contains_string(taken, cand.as_str()) {
            return cand;
        }
        k = k + 1;
        fuel = fuel - 1;
    }
    suffixed_name(d, k)
}

// ---------------------------------------------------------------------
// Targets already known for a path
// ---------------------------------------------------------------------

use crate::domain::{string_views, worktree_views, WorktreeRecordV};
use crate::facts::{observes, PathFacts};

/// The target the cache last recorded, for repo `a`, at canonical path `p`
/// (paths compared as `Path`s).
pub open spec fn last_target(
    ws: Seq<WorktreeRecordV>,
    a: Seq<char>,
    p: Seq<char>,
    facts: PathFacts,
) -> Option<Seq<char>>
    decreases ws.len(),
{
    if ws.len() == 0 {
        None
    } else if ws.last().repo_alias == a && path_same(facts.canon(ws.last().path), p) {
        Some(ws.last().target)
    } else {
        last_target(ws.drop_last(), a, p, facts)
    }
}

fn known_target(
    ws: &Vec<crate::domain::WorktreeRecord>,
    a: &str,
    p: &str,
    facts: &PathFacts,
) -> (r: Option<String>)
    ensures
        match last_target(worktree_views(ws@), a@, p@, *facts) {
            Some(t) => r matches Some(s) && s@ == t,
            None => r is None,
        },
{
    let mut i = ws.len();
    proof { lemma_take_all_views(ws@); }
    while i > 0
        invariant
            i <= ws@.len(),
            last_target(worktree_views(ws@), a@, p@, *facts) == last_target(
                worktree_views(ws@.take(i as int)),
                a@,
                p@,
                *facts,
            ),
        decreases i,
    {
        let ghost pre = worktree_views(ws@.take(i as int));
        assert(pre.drop_last() =~= worktree_views(ws@.take(i - 1)));
        assert(pre.last() == ws@[i - 1]@);
        let w = &ws[i - 1];
        if str_eq(w.repo_alias.as_str(), a) {
            let c = facts.canonical_of(w.path.as_str());
            if same_path(c.as_str(), p) {
                return Some(w.target.clone());
            }
        }
        i = i - 1;
    }
    assert(worktree_views(ws@.take(0)) =~= Seq::<WorktreeRecordV>::empty());
    None
}

proof fn lemma_take_all_views(ws: Seq<crate::domain::WorktreeRecord>)
    ensures
        worktree_views(ws.take(ws.len() as int)) == worktree_views(ws),
{
    assert(ws.take(ws.len() as int) =~= ws);
}

} // verus!

verus! {

use crate::domain::{DirtyState, WorktreeRecord};
use crate::paths::{file_name, path_file_name};

/// The targets of `rs`, in order.
pub open spec fn targets_of(rs: Seq<WorktreeRecordV>) -> Seq<Seq<char>> {
    rs.map_values(|w: WorktreeRecordV| w.target)
}

/// The targets the cache already records, under alias `a`, at the paths
/// of the first `k` worktrees of the family, the main checkout aside.
pub open spec fn known_targets(
    f: FamilyV,
    a: Seq<char>,
    old_ws: Seq<WorktreeRecordV>,
    facts: PathFacts,
    k: nat,
) -> Seq<Seq<char>>
    decreases k,
{
    if k <= 1 {
        seq![]
    } else {
        let prev = known_targets(f, a, old_ws, facts, (k - 1) as nat);
        match last_target(old_ws, a, facts.canon(f.worktrees[k - 1].path), facts) {
            Some(t) => prev.push(t),
            None => prev,
        }
    }
}

/// The cache record for entry `idx` of a family merged under alias `a`,
/// after the entries before it took the targets `used`.  The main checkout
/// is `base`; another worktree keeps the target the cache records for its
/// path unless an earlier entry took it; otherwise it gets a fresh name
/// from its directory name, taken by no earlier entry and recorded for no
/// other path of the family.
pub open spec fn entry_record(
    f: FamilyV,
    a: Seq<char>,
    old_ws: Seq<WorktreeRecordV>,
    facts: PathFacts,
    now: i64,
    idx: nat,
    used: Seq<Seq<char>>,
) -> WorktreeRecordV {
    let e = f.worktrees[idx as int];
    let path = facts.canon(e.path);
    let display = if idx == 0 {
        "base"@
    } else {
        match file_name(path) {
            Some(n) => n,
            None => "worktree"@,
        }
    };
    let known = last_target(old_ws, a, path, facts);
    let target = if idx == 0 {
        "base"@
    } else if known is Some && !used.contains(known->0) {
        known->0
    } else {
        fresh_name(used + known_targets(f, a, old_ws, facts, f.worktrees.len()), display)
    };
    WorktreeRecordV {
        repo_alias: a,
        target,
        display_name: display,
        branch: e.branch,
        path,
        source: spec_worktree_source(e.path, f.source),
        dirty: DirtyState::Unknown,
        last_seen_unix: Some(now),
        stale: !facts.has_path(e.path),
        detached: e.detached,
    }
}

/// The records for the first `k` entries of a family.
pub open spec fn records_upto(
    f: FamilyV,
    a: Seq<char>,
    old_ws: Seq<WorktreeRecordV>,
    facts: PathFacts,
    now: i64,
    k: nat,
) -> Seq<WorktreeRecordV>
    decreases k,
{
    if k == 0 {
        seq![]
    } else {
        let prev = records_upto(f, a, old_ws, facts, now, (k - 1) as nat);
        prev.push(entry_record(f, a, old_ws, facts, now, (k - 1) as nat, targets_of(prev)))
    }
}

/// The cache records for all worktrees of a family merged under alias `a`.
pub open spec fn family_records(
    f: FamilyV,
    a: Seq<char>,
    old_ws: Seq<WorktreeRecordV>,
    facts: PathFacts,
    now: i64,
) -> Seq<WorktreeRecordV> {
    records_upto(f, a, old_ws, facts, now, f.worktrees.len())
}

fn copy_opt(o: &Option<String>) -> (r: Option<String>)
    ensures
        crate::domain::opt_str(r) == crate::domain::opt_str(*o),
{
    match o {
        Some(s) => Some(s.clone()),
        None => None,
    }
}

} // verus!

verus! {

/// `a` followed by `b`.
fn concat_strings(a: &Vec<String>, b: &Vec<String>) -> (r: Vec<String>)
    ensures
        string_views(r@) == string_views(a@) + string_views(b@),
{
    let mut r = crate::domain::copy_strings(a);
    let mut i: usize = 0;
    while i < b.len()
        invariant
            i <= b@.len(),
            string_views(r@) == string_views(a@) + string_views(b@).take(i as int),
        decreases b@.len() - i,
    {
        let ghost before = string_views(r@);
        r.push(b[i].clone());
        assert(string_views(r@) =~= before.push(b@[i as int]@));
        assert(string_views(b@).take(i + 1) =~= string_views(b@).take(i as int).push(b@[i as int]@));
        i = i + 1;
    }
    assert(string_views(b@).take(b@.len() as int) =~= string_views(b@));
    r
}

/// The targets the cache records for the family's worktrees other than
/// the main checkout.
fn build_known_targets(f: &Family, a: &str, old_ws: &Vec<WorktreeRecord>, facts: &PathFacts) -> (r: Vec<String>)
    ensures
        string_views(r@) == known_targets(f@, a@, worktree_views(old_ws@), *facts, f@.worktrees.len()),
        r@.len() <= f@.worktrees.len(),
{
    let ghost fv = f@;
    let ghost ow = worktree_views(old_ws@);
    let mut known: Vec<String> = Vec::new();
    let n = f.worktrees.len();
    let mut k: usize = 1;
    assert(string_views(known@) =~= Seq::<Seq<char>>::empty());
    while k < n
        invariant
            fv == f@,
            ow == worktree_views(old_ws@),
            n == f.worktrees@.len(),
            fv.worktrees.len() == n,
            1 <= k,
            k <= n || k == 1,
            known@.len() < k,
            string_views(known@) == known_targets(fv, a@, ow, *facts, k as nat),
        decreases n - k,
    {
        let e = &f.worktrees[k];
        assert(fv.worktrees[k as int] == e@);
        let path = facts.canonical_of(e.path.as_str());
        let ghost before = string_views(known@);
        match known_target(old_ws, a, path.as_str(), facts) {
            Some(t) => {
                known.push(t);
                assert(string_views(known@) =~= before.push(known@[known@.len() - 1]@));
            },
            None => {},
        }
        k = k + 1;
    }
    if n == 0 {
        assert(known_targets(fv, a@, ow, *facts, 0) =~= known_targets(fv, a@, ow, *facts, 1));
        assert(known@.len() == 0);
    } else {
        assert(k == n);
    }
    assert(fv.worktrees.len() == n);
    known
}

/// The cache records for all worktrees of a family merged under alias `a`.
fn build_family_records(
    f: &Family,
    a: &str,
    old_ws: &Vec<WorktreeRecord>,
    facts: &PathFacts,
    now: i64,
) -> (r: Vec<WorktreeRecord>)
    requires
        f.worktrees@.len() * 2 + 3 <= u64::MAX,
    ensures
        worktree_views(r@) == family_records(f@, a@, worktree_views(old_ws@), *facts, now),
{
    let ghost fv = f@;
    let ghost ow = worktree_views(old_ws@);
    let known = build_known_targets(f, a, old_ws, facts);
    let ghost kt = known_targets(fv, a@, ow, *facts, fv.worktrees.len());
    let mut recs: Vec<WorktreeRecord> = Vec::new();
    let mut used: Vec<String> = Vec::new();
    let mut k: usize = 0;
    assert(worktree_views(recs@) =~= Seq::<WorktreeRecordV>::empty());
    assert(string_views(used@) =~= targets_of(Seq::<WorktreeRecordV>::empty()));
    while k < f.worktrees.len()
        invariant
            fv == f@,
            ow == worktree_views(old_ws@),
            kt == known_targets(fv, a@, ow, *facts, fv.worktrees.len()),
            string_views(known@) == kt,
            known@.len() <= fv.worktrees.len(),
            fv.worktrees.len() == f.worktrees@.len(),
            f.worktrees@.len() * 2 + 3 <= u64::MAX,
            k <= f.worktrees@.len(),
            used@.len() == k,
            worktree_views(recs@) == records_upto(fv, a@, ow, *facts, now, k as nat),
            string_views(used@) == targets_of(records_upto(fv, a@, ow, *facts, now, k as nat)),
        decreases f.worktrees@.len() - k,
    {
        let e = &f.worktrees[k];
        assert(fv.worktrees[k as int] == e@);
        let ghost prev = records_upto(fv, a@, ow, *facts, now, k as nat);
        let path = facts.canonical_of(e.path.as_str());
        let display = if k == 0 {
            "base".to_owned()
        } else {
            match path_file_name(path.as_str()) {
                Some(n) => n,
                None => "worktree".to_owned(),
            }
        };
        let target = if k == 0 {
            "base".to_owned()
        } else {
            let kn = known_target(old_ws, a, path.as_str(), facts);
            let reuse = match &kn {
                Some(t) => !crate::facts::contains_string(&used, t.as_str()),
                None => false,
            };
            if reuse {
                match kn {
                    Some(t) => t,
                    None => "base".to_owned(),
                }
            } else {
                let taken = concat_strings(&used, &known);
                assert(taken@.len() == string_views(taken@).len());
                assert(string_views(taken@).len() == used@.len() + known@.len());
                fresh_target(&taken, display.as_str())
            }
        };
        let rec = WorktreeRecord {
            repo_alias: a.to_owned(),
            target,
            display_name: display,
            branch: copy_opt(&e.branch),
            path,
            source: worktree_source(e.path.as_str(), f.source),
            dirty: DirtyState::Unknown,
            last_seen_unix: Some(now),
            stale: !facts.path_exists(e.path.as_str()),
            detached: e.detached,
        };
        proof {
            let er = entry_record(fv, a@, ow, *facts, now, k as nat, targets_of(prev));
            assert(er == rec@);
        }
        let ghost before = recs@;
        let ghost ubefore = string_views(used@);
        let ghost rv = rec@;
        used.push(rec.target.clone());
        recs.push(rec);
        proof {
            assert(worktree_views(recs@) =~= worktree_views(before).push(rv));
            assert(records_upto(fv, a@, ow, *facts, now, (k + 1) as nat) == prev.push(
                entry_record(fv, a@, ow, *facts, now, k as nat, targets_of(prev)),
            ));
            assert(string_views(used@) =~= ubefore.push(rv.target));
            assert(targets_of(prev.push(rv)) =~= targets_of(prev).push(rv.target));
        }
        k = k + 1;
    }
    recs
}

} // verus!

verus! {

use crate::domain::{opt_str, repo_state_views, Cache, RepoState, RepoStateV, State};
use crate::text::{lemma_seq_lt_irreflexive, lemma_seq_lt_transitive, seq_lt, str_lt};

// ---------------------------------------------------------------------
// Repo records and the state map
// ---------------------------------------------------------------------

/// Index of the first repo from `i` on with common directory `cd`, or the
/// length when there is none.
pub open spec fn find_common(repos: Seq<RepoRecordV>, cd: Seq<char>, i: int) -> int
    decreases repos.len() - i,
{
    if i < 0 || i >= repos.len() {
        repos.len() as int
    } else if path_same(repos[i].git_common_dir, cd) {
        i
    } else {
        find_common(repos, cd, i + 1)
    }
}

proof fn lemma_find_common(repos: Seq<RepoRecordV>, cd: Seq<char>, i: int)
    requires
        0 <= i <= repos.len(),
    ensures
        i <= find_common(repos, cd, i) <= repos.len(),
        find_common(repos, cd, i) < repos.len() ==> path_same(repos[find_common(repos, cd, i)].git_common_dir, cd),
        forall|j: int| i <= j < find_common(repos, cd, i) ==> !path_same(#[trigger] repos[j].git_common_dir, cd),
    decreases repos.len() - i,
{
    if i < repos.len() && !path_same(repos[i].git_common_dir, cd) {
        lemma_find_common(repos, cd, i + 1);
    }
}

/// The alias a family is merged under: that of the cached repo with the
/// same common directory, or a fresh one.
pub open spec fn alias_for(repos: Seq<RepoRecordV>, f: FamilyV) -> Seq<char> {
    let j = find_common(repos, f.common_dir, 0);
    if j < repos.len() {
        repos[j].alias
    } else {
        spec_unique_alias(repos, f.display_name)
    }
}

/// `repos` with `rec` replacing the first repo of the same common
/// directory, or appended when there is none.
pub open spec fn upsert(repos: Seq<RepoRecordV>, rec: RepoRecordV) -> Seq<RepoRecordV> {
    let j = find_common(repos, rec.git_common_dir, 0);
    if j < repos.len() {
        repos.update(j, rec)
    } else {
        repos.push(rec)
    }
}

fn find_common_index(repos: &Vec<RepoRecord>, cd: &str) -> (r: usize)
    ensures
        r == find_common(repo_views(repos@), cd@, 0),
{
    let ghost rv = repo_views(repos@);
    let mut i: usize = 0;
    while i < repos.len()
        invariant
            rv == repo_views(repos@),
            i <= repos@.len(),
            find_common(rv, cd@, 0) == find_common(rv, cd@, i as int),
        decreases repos@.len() - i,
    {
        assert(rv[i as int] == repos@[i as int]@);
        if same_path(repos[i].git_common_dir.as_str(), cd) {
            return i;
        }
        i = i + 1;
    }
    i
}

/// The cached repo alias for the family, or a fresh one.
pub fn alias_for_family(repos: &Vec<RepoRecord>, f: &Family) -> (r: String)
    requires
        repos@.len() + 3 <= u64::MAX,
    ensures
        r@ == alias_for(repo_views(repos@), f@),
{
    let j = find_common_index(repos, f.common_dir.as_str());
    if j < repos.len() {
        assert(repo_views(repos@)[j as int] == repos@[j as int]@);
        repos[j].alias.clone()
    } else {
        unique_alias(repos, f.display_name.as_str())
    }
}

/// Replaces the cached repo with the same common directory, or appends.
pub fn upsert_repo(repos: &mut Vec<RepoRecord>, rec: RepoRecord)
    ensures
        repo_views(final(repos)@) == upsert(repo_views(old(repos)@), rec@),
{
    let j = find_common_index(repos, rec.git_common_dir.as_str());
    let ghost before = repos@;
    if j < repos.len() {
        repos.set(j, rec);
        assert(repo_views(repos@) =~= repo_views(before).update(j as int, rec@));
    } else {
        repos.push(rec);
        assert(repo_views(repos@) =~= repo_views(before).push(rec@));
    }
}

/// Index of the first entry from `i` on with key `k`, or the length.
pub open spec fn find_key(m: Seq<(Seq<char>, RepoStateV)>, k: Seq<char>, i: int) -> int
    decreases m.len() - i,
{
    if i < 0 || i >= m.len() {
        m.len() as int
    } else if m[i].0 == k {
        i
    } else {
        find_key(m, k, i + 1)
    }
}

/// Index of the first entry from `i` on whose key sorts after `k`, or the
/// length.
pub open spec fn key_pos(m: Seq<(Seq<char>, RepoStateV)>, k: Seq<char>, i: int) -> int
    decreases m.len() - i,
{
    if i < 0 || i >= m.len() {
        m.len() as int
    } else if seq_lt(k, m[i].0) {
        i
    } else {
        key_pos(m, k, i + 1)
    }
}

proof fn lemma_key_pos_bound(m: Seq<(Seq<char>, RepoStateV)>, k: Seq<char>, i: int)
    requires
        0 <= i <= m.len(),
    ensures
        i <= key_pos(m, k, i) <= m.len(),
    decreases m.len() - i,
{
    if i < m.len() && !seq_lt(k, m[i].0) {
        lemma_key_pos_bound(m, k, i + 1);
    }
}

proof fn lemma_find_key_bound(m: Seq<(Seq<char>, RepoStateV)>, k: Seq<char>, i: int)
    requires
        0 <= i <= m.len(),
    ensures
        i <= find_key(m, k, i) <= m.len(),
        find_key(m, k, i) < m.len() ==> m[find_key(m, k, i)].0 == k,
    decreases m.len() - i,
{
    if i < m.len() && m[i].0 != k {
        lemma_find_key_bound(m, k, i + 1);
    }
}

/// Inserting into an ordered map: the value of an existing key is replaced,
/// a new key goes to its place in key order.
pub open spec fn map_insert(
    m: Seq<(Seq<char>, RepoStateV)>,
    k: Seq<char>,
    v: RepoStateV,
) -> Seq<(Seq<char>, RepoStateV)> {
    let j = find_key(m, k, 0);
    if j < m.len() {
        m.update(j, (m[j].0, v))
    } else {
        m.insert(key_pos(m, k, 0), (k, v))
    }
}

/// Records `v` under key `k` in the ordered map of repo states.
pub fn state_insert(m: &mut Vec<(String, RepoState)>, k: String, v: RepoState)
    ensures
        repo_state_views(final(m)@) == map_insert(repo_state_views(old(m)@), k@, v@),
{
    let ghost mv = repo_state_views(m@);
    let mut i: usize = 0;
    while i < m.len()
        invariant
            mv == repo_state_views(m@),
            mv == repo_state_views(old(m)@),
            i <= m@.len(),
            find_key(mv, k@, 0) == find_key(mv, k@, i as int),
        decreases m@.len() - i,
    {
        assert(mv[i as int] == (m@[i as int].0@, m@[i as int].1@));
        if str_eq(m[i].0.as_str(), k.as_str()) {
            assert(find_key(mv, k@, i as int) == i);
            let key = m[i].0.clone();
            m.set(i, (key, v));
            assert(repo_state_views(m@) =~= mv.update(i as int, (mv[i as int].0, v@)));
            return;
        }
        i = i + 1;
    }
    let mut p: usize = 0;
    while p < m.len() && !str_lt(k.as_str(), m[p].0.as_str())
        invariant
            mv == repo_state_views(m@),
            mv == repo_state_views(old(m)@),
            p <= m@.len(),
            find_key(mv, k@, 0) == m@.len(),
            key_pos(mv, k@, 0) == key_pos(mv, k@, p as int),
        decreases m@.len() - p,
    {
        assert(mv[p as int] == (m@[p as int].0@, m@[p as int].1@));
        p = p + 1;
    }
    proof {
        lemma_key_pos_bound(mv, k@, p as int);
        if p < m@.len() {
            assert(mv[p as int] == (m@[p as int].0@, m@[p as int].1@));
            assert(seq_lt(k@, mv[p as int].0));
        }
    }
    let ghost kv = (k@, v@);
    m.insert(p, (k, v));
    assert(repo_state_views(m@) =~= mv.insert(p as int, kv));
}

// ---------------------------------------------------------------------
// Removing a repo's worktrees
// ---------------------------------------------------------------------

/// The worktrees that do not belong to repo `a`, in order.
pub open spec fn drop_alias(ws: Seq<WorktreeRecordV>, a: Seq<char>) -> Seq<WorktreeRecordV>
    decreases ws.len(),
{
    if ws.len() == 0 {
        seq![]
    } else if ws.last().repo_alias == a {
        drop_alias(ws.drop_last(), a)
    } else {
        drop_alias(ws.drop_last(), a).push(ws.last())
    }
}

fn without_alias(ws: &Vec<WorktreeRecord>, a: &str) -> (r: Vec<WorktreeRecord>)
    ensures
        worktree_views(r@) == drop_alias(worktree_views(ws@), a@),
{
    let mut r: Vec<WorktreeRecord> = Vec::new();
    let mut i: usize = 0;
    assert(worktree_views(ws@.take(0)) =~= Seq::<WorktreeRecordV>::empty());
    assert(worktree_views(r@) =~= Seq::<WorktreeRecordV>::empty());
    while i < ws.len()
        invariant
            i <= ws@.len(),
            worktree_views(r@) == drop_alias(worktree_views(ws@.take(i as int)), a@),
        decreases ws@.len() - i,
    {
        let ghost pre = worktree_views(ws@.take(i + 1));
        assert(pre.drop_last() =~= worktree_views(ws@.take(i as int)));
        assert(pre.last() == ws@[i as int]@);
        if !str_eq(ws[i].repo_alias.as_str(), a) {
            let ghost before = r@;
            r.push(ws[i].duplicate());
            assert(worktree_views(r@) =~= worktree_views(before).push(ws@[i as int]@));
        }
        i = i + 1;
    }
    assert(ws@.take(ws@.len() as int) =~= ws@);
    r
}

/// No two cached repos share a common directory.
pub open spec fn one_repo_per_common_dir(repos: Seq<RepoRecordV>) -> bool {
    forall|i: int, j: int|
        0 <= i < repos.len() && 0 <= j < repos.len() && i != j ==> !path_same(
            (#[trigger] repos[i]).git_common_dir,
            (#[trigger] repos[j]).git_common_dir,
        )
}

/// A repository is indexed once: recording a repo record never adds a
/// second record for the same common directory.
pub proof fn lemma_upsert_keeps_one_repo_per_common_dir(repos: Seq<RepoRecordV>, rec: RepoRecordV)
    requires
        one_repo_per_common_dir(repos),
    ensures
        one_repo_per_common_dir(upsert(repos, rec)),
{
    let cd = rec.git_common_dir;
    let u = upsert(repos, rec);
    lemma_find_common(repos, cd, 0);
    let j = find_common(repos, cd, 0);
    if j < repos.len() {
        assert forall|x: int, y: int|
            0 <= x < u.len() && 0 <= y < u.len() && x != y implies !path_same(
                (#[trigger] u[x]).git_common_dir,
                (#[trigger] u[y]).git_common_dir,
            ) by {
            if x == j {
                assert(u[x] == rec && u[y] == repos[y]);
                assert(!path_same(repos[x].git_common_dir, repos[y].git_common_dir));
            } else if y == j {
                assert(u[y] == rec && u[x] == repos[x]);
                assert(!path_same(repos[x].git_common_dir, repos[y].git_common_dir));
            } else {
                assert(u[x] == repos[x] && u[y] == repos[y]);
            }
        }
    } else {
        assert forall|x: int, y: int|
            0 <= x < u.len() && 0 <= y < u.len() && x != y implies !path_same(
                (#[trigger] u[x]).git_common_dir,
                (#[trigger] u[y]).git_common_dir,
            ) by {
            if x < repos.len() && y < repos.len() {
                assert(u[x] == repos[x] && u[y] == repos[y]);
            } else if x < repos.len() {
                assert(u[x] == repos[x]);
                assert(u[y] == rec);
            } else {
                assert(u[y] == repos[y]);
                assert(u[x] == rec);
            }
        }
    }
}

/// Rediscovering a family keeps its alias: once its repo record is in the
/// cache, the family is merged again under that record's alias.
pub proof fn lemma_known_family_keeps_alias(repos: Seq<RepoRecordV>, rec: RepoRecordV, f: FamilyV)
    requires
        rec.git_common_dir == f.common_dir,
    ensures
        alias_for(upsert(repos, rec), f) == rec.alias,
{
    let cd = f.common_dir;
    lemma_find_common(repos, cd, 0);
    let j = find_common(repos, cd, 0);
    let u = upsert(repos, rec);
    lemma_find_common(u, cd, 0);
    let k = find_common(u, cd, 0);
    if j < repos.len() {
        assert(u[j] == rec);
        assert forall|i: int| 0 <= i < j implies !path_same(#[trigger] u[i].git_common_dir, cd) by {
            assert(u[i] == repos[i]);
        }
        if k < j {
            assert(path_same(u[k].git_common_dir, cd));
        }
        assert(k == j);
    } else {
        assert(u.len() == repos.len() + 1);
        assert(u[repos.len() as int] == rec);
        assert forall|i: int| 0 <= i < repos.len() implies !path_same(#[trigger] u[i].git_common_dir, cd) by {
            assert(u[i] == repos[i]);
        }
        if k < repos.len() {
            assert(path_same(u[k].git_common_dir, cd));
        }
        assert(k == repos.len());
    }
}

/// Rediscovering a worktree keeps its target: a worktree (other than the
/// main checkout) whose path the cache already records under the family's
/// alias is merged again under the recorded target, unless an earlier
/// worktree of the family already took it.
pub proof fn lemma_known_path_keeps_target(
    f: FamilyV,
    a: Seq<char>,
    old_ws: Seq<WorktreeRecordV>,
    facts: PathFacts,
    now: i64,
    idx: nat,
    used: Seq<Seq<char>>,
    t: Seq<char>,
)
    requires
        0 < idx < f.worktrees.len(),
        last_target(old_ws, a, facts.canon(f.worktrees[idx as int].path), facts) == Some(t),
        !used.contains(t),
    ensures
        entry_record(f, a, old_ws, facts, now, idx, used).target == t,
        entry_record(f, a, old_ws, facts, now, idx, used).repo_alias == a,
{
}

/// The main checkout of a family is always its `base` target.
pub proof fn lemma_main_checkout_is_base(
    f: FamilyV,
    a: Seq<char>,
    old_ws: Seq<WorktreeRecordV>,
    facts: PathFacts,
    now: i64,
    used: Seq<Seq<char>>,
)
    requires
        f.worktrees.len() > 0,
    ensures
        entry_record(f, a, old_ws, facts, now, 0, used).target == "base"@,
{
}

/// A worktree's target is one that no earlier worktree of its family took.
pub proof fn lemma_entry_target_is_new(
    f: FamilyV,
    a: Seq<char>,
    old_ws: Seq<WorktreeRecordV>,
    facts: PathFacts,
    now: i64,
    idx: nat,
    used: Seq<Seq<char>>,
)
    requires
        idx < f.worktrees.len(),
        idx == 0 ==> used.len() == 0,
    ensures
        !used.contains(entry_record(f, a, old_ws, facts, now, idx, used).target),
{
    if idx > 0 {
        let known = known_targets(f, a, old_ws, facts, f.worktrees.len());
        let path = facts.canon(f.worktrees[idx as int].path);
        let display = match file_name(path) {
            Some(n) => n,
            None => "worktree"@,
        };
        lemma_fresh_name_is_free(used + known, display);
        let x = fresh_name(used + known, display);
        if used.contains(x) {
            let i = choose|i: int| 0 <= i < used.len() && used[i] == x;
            assert((used + known)[i] == x);
        }
    }
}

/// The worktrees of a family lie at distinct canonical paths (as `Path`s).
pub open spec fn family_paths_distinct(f: FamilyV, facts: PathFacts) -> bool {
    forall|i: int, j: int|
        0 <= i < f.worktrees.len() && 0 <= j < f.worktrees.len() && i != j ==> !path_same(
            facts.canon(#[trigger] f.worktrees[i].path),
            facts.canon(#[trigger] f.worktrees[j].path),
        )
}

/// Making a family's canonical paths canonical again changes nothing.
pub open spec fn family_paths_settled(f: FamilyV, facts: PathFacts) -> bool {
    forall|i: int|
        0 <= i < f.worktrees.len() ==> facts.canon(facts.canon(#[trigger] f.worktrees[i].path)) == facts.canon(
            f.worktrees[i].path,
        )
}

proof fn lemma_records_upto(f: FamilyV, a: Seq<char>, ws: Seq<WorktreeRecordV>, facts: PathFacts, now: i64, k: nat)
    ensures
        records_upto(f, a, ws, facts, now, k).len() == k,
        forall|j: int|
            0 <= j < k ==> #[trigger] records_upto(f, a, ws, facts, now, k)[j] == entry_record(
                f,
                a,
                ws,
                facts,
                now,
                j as nat,
                targets_of(records_upto(f, a, ws, facts, now, j as nat)),
            ),
        forall|j: int| 0 <= j <= k ==> #[trigger] records_upto(f, a, ws, facts, now, k).take(j) == records_upto(f, a, ws, facts, now, j as nat),
    decreases k,
{
    if k > 0 {
        lemma_records_upto(f, a, ws, facts, now, (k - 1) as nat);
        let prev = records_upto(f, a, ws, facts, now, (k - 1) as nat);
        let cur = records_upto(f, a, ws, facts, now, k);
        assert forall|j: int| 0 <= j < k implies #[trigger] cur[j] == entry_record(
            f,
            a,
            ws,
            facts,
            now,
            j as nat,
            targets_of(records_upto(f, a, ws, facts, now, j as nat)),
        ) by {
            if j < k - 1 {
                assert(cur[j] == prev[j]);
            }
        }
        assert forall|j: int| 0 <= j <= k implies #[trigger] cur.take(j) == records_upto(f, a, ws, facts, now, j as nat) by {
            if j == k {
                assert(cur.take(j) =~= cur);
            } else {
                assert(cur.take(j) =~= prev.take(j));
            }
        }
    } else {
        assert forall|j: int| 0 <= j <= k implies #[trigger] records_upto(f, a, ws, facts, now, k).take(j) == records_upto(f, a, ws, facts, now, j as nat) by {
            assert(records_upto(f, a, ws, facts, now, k).take(j) =~= Seq::<WorktreeRecordV>::empty());
        }
    }
}

/// The worktrees of a family take pairwise distinct targets, the main
/// checkout `base`.
pub proof fn lemma_family_targets_distinct(
    f: FamilyV,
    a: Seq<char>,
    ws: Seq<WorktreeRecordV>,
    facts: PathFacts,
    now: i64,
    k: nat,
)
    requires
        k <= f.worktrees.len(),
    ensures
        forall|i: int, j: int|
            0 <= i < j < k ==> (#[trigger] records_upto(f, a, ws, facts, now, k)[i]).target != (#[trigger] records_upto(
                f,
                a,
                ws,
                facts,
                now,
                k,
            )[j]).target,
        forall|i: int| 0 <= i < k ==> (#[trigger] records_upto(f, a, ws, facts, now, k)[i]).repo_alias == a,
        k > 0 ==> records_upto(f, a, ws, facts, now, k)[0].target == "base"@,
    decreases k,
{
    lemma_records_upto(f, a, ws, facts, now, k);
    if k > 0 {
        lemma_family_targets_distinct(f, a, ws, facts, now, (k - 1) as nat);
        let prev = records_upto(f, a, ws, facts, now, (k - 1) as nat);
        let cur = records_upto(f, a, ws, facts, now, k);
        lemma_records_upto(f, a, ws, facts, now, (k - 1) as nat);
        lemma_entry_target_is_new(f, a, ws, facts, now, (k - 1) as nat, targets_of(prev));
        let x = cur[k - 1];
        assert forall|i: int, j: int| 0 <= i < j < k implies (#[trigger] cur[i]).target != (#[trigger] cur[j]).target by {
            if j == k - 1 {
                assert(cur[i] == prev[i]);
                assert(targets_of(prev)[i] == prev[i].target);
            } else {
                assert(cur[i] == prev[i] && cur[j] == prev[j]);
            }
        }
        assert forall|i: int| 0 <= i < k implies (#[trigger] cur[i]).repo_alias == a by {
            if i < k - 1 {
                assert(cur[i] == prev[i]);
            }
        }
        if k > 1 {
            assert(cur[0] == prev[0]);
        }
    }
}

proof fn lemma_last_target_concat(x: Seq<WorktreeRecordV>, y: Seq<WorktreeRecordV>, a: Seq<char>, p: Seq<char>, facts: PathFacts)
    ensures
        last_target(x + y, a, p, facts) == match last_target(y, a, p, facts) {
            Some(t) => Some(t),
            None => last_target(x, a, p, facts),
        },
    decreases y.len(),
{
    if y.len() == 0 {
        assert(x + y =~= x);
    } else {
        assert((x + y).drop_last() =~= x + y.drop_last());
        assert((x + y).last() == y.last());
        lemma_last_target_concat(x, y.drop_last(), a, p, facts);
    }
}

/// In the records of a family, the last one at the path of entry `j` is
/// entry `j`'s own.
proof fn lemma_last_target_of_records(
    f: FamilyV,
    a: Seq<char>,
    ws: Seq<WorktreeRecordV>,
    facts: PathFacts,
    now: i64,
    j: int,
    k: nat,
)
    requires
        family_paths_distinct(f, facts),
        family_paths_settled(f, facts),
        0 <= j < k <= f.worktrees.len(),
    ensures
        last_target(
            records_upto(f, a, ws, facts, now, f.worktrees.len()).take(k as int),
            a,
            facts.canon(f.worktrees[j].path),
            facts,
        ) == Some(records_upto(f, a, ws, facts, now, f.worktrees.len())[j].target),
    decreases k,
{
    let n = f.worktrees.len();
    let r = records_upto(f, a, ws, facts, now, n);
    lemma_records_upto(f, a, ws, facts, now, n);
    let t = r.take(k as int);
    let i = k - 1;
    assert(t.last() == r[i]);
    assert(r[i] == entry_record(f, a, ws, facts, now, i as nat, targets_of(records_upto(f, a, ws, facts, now, i as nat))));
    assert(r[i].repo_alias == a);
    assert(r[i].path == facts.canon(f.worktrees[i].path));
    assert(facts.canon(r[i].path) == facts.canon(f.worktrees[i].path));
    if i == j {
    } else {
        assert(!path_same(facts.canon(f.worktrees[i].path), facts.canon(f.worktrees[j].path)));
        assert(t.drop_last() =~= r.take(i));
        lemma_last_target_of_records(f, a, ws, facts, now, j, (k - 1) as nat);
    }
}

proof fn lemma_drop_alias_concat(x: Seq<WorktreeRecordV>, y: Seq<WorktreeRecordV>, a: Seq<char>)
    ensures
        drop_alias(x + y, a) == drop_alias(x, a) + drop_alias(y, a),
    decreases y.len(),
{
    if y.len() == 0 {
        assert(x + y =~= x);
        assert(drop_alias(x, a) + drop_alias(y, a) =~= drop_alias(x, a));
    } else {
        assert((x + y).drop_last() =~= x + y.drop_last());
        assert((x + y).last() == y.last());
        lemma_drop_alias_concat(x, y.drop_last(), a);
        if y.last().repo_alias != a {
            assert(drop_alias(x, a) + drop_alias(y.drop_last(), a).push(y.last()) =~= (drop_alias(x, a) + drop_alias(
                y.drop_last(),
                a,
            )).push(y.last()));
        }
    }
}

proof fn lemma_drop_alias_twice(x: Seq<WorktreeRecordV>, a: Seq<char>)
    ensures
        drop_alias(drop_alias(x, a), a) == drop_alias(x, a),
    decreases x.len(),
{
    if x.len() > 0 {
        lemma_drop_alias_twice(x.drop_last(), a);
        if x.last().repo_alias != a {
            let d = drop_alias(x.drop_last(), a);
            assert(d.push(x.last()).drop_last() =~= d);
            assert(d.push(x.last()).last() == x.last());
        }
    }
}

proof fn lemma_drop_alias_all(y: Seq<WorktreeRecordV>, a: Seq<char>)
    requires
        forall|i: int| 0 <= i < y.len() ==> (#[trigger] y[i]).repo_alias == a,
    ensures
        drop_alias(y, a) == Seq::<WorktreeRecordV>::empty(),
    decreases y.len(),
{
    if y.len() > 0 {
        assert(y.last() == y[y.len() - 1]);
        assert forall|i: int| 0 <= i < y.drop_last().len() implies (#[trigger] y.drop_last()[i]).repo_alias == a by {
            assert(y.drop_last()[i] == y[i]);
        }
        lemma_drop_alias_all(y.drop_last(), a);
    }
}

/// Merging a family again over its own records gives each worktree the
/// same repo, target and path.
proof fn lemma_rediscovered_records(
    f: FamilyV,
    a: Seq<char>,
    ws: Seq<WorktreeRecordV>,
    x: Seq<WorktreeRecordV>,
    facts: PathFacts,
    now1: i64,
    now2: i64,
    k: nat,
)
    requires
        family_paths_distinct(f, facts),
        family_paths_settled(f, facts),
        k <= f.worktrees.len(),
    ensures
        forall|j: int|
            0 <= j < k ==> {
                &&& (#[trigger] family_records(f, a, x + family_records(f, a, ws, facts, now1), facts, now2)[j]).repo_alias
                    == family_records(f, a, ws, facts, now1)[j].repo_alias
                &&& family_records(f, a, x + family_records(f, a, ws, facts, now1), facts, now2)[j].target
                    == family_records(f, a, ws, facts, now1)[j].target
                &&& family_records(f, a, x + family_records(f, a, ws, facts, now1), facts, now2)[j].path
                    == family_records(f, a, ws, facts, now1)[j].path
            },
    decreases k,
{
    let n = f.worktrees.len();
    let r1 = family_records(f, a, ws, facts, now1);
    let r2 = family_records(f, a, x + r1, facts, now2);
    lemma_records_upto(f, a, ws, facts, now1, n);
    lemma_records_upto(f, a, x + r1, facts, now2, n);
    lemma_family_targets_distinct(f, a, ws, facts, now1, n);
    if k > 0 {
        lemma_rediscovered_records(f, a, ws, x, facts, now1, now2, (k - 1) as nat);
        let j = k - 1;
        let u1 = targets_of(records_upto(f, a, ws, facts, now1, j as nat));
        let u2 = targets_of(records_upto(f, a, x + r1, facts, now2, j as nat));
        assert(records_upto(f, a, ws, facts, now1, j as nat) == r1.take(j));
        assert(records_upto(f, a, x + r1, facts, now2, j as nat) == r2.take(j));
        assert(u1 =~= u2) by {
            assert forall|i: int| 0 <= i < j implies u1[i] == u2[i] by {
                assert(r1.take(j)[i] == r1[i]);
                assert(r2.take(j)[i] == r2[i]);
            }
        }
        assert(r1[j] == entry_record(f, a, ws, facts, now1, j as nat, u1));
        assert(r2[j] == entry_record(f, a, x + r1, facts, now2, j as nat, u2));
        if j > 0 {
            let p = facts.canon(f.worktrees[j].path);
            lemma_last_target_of_records(f, a, ws, facts, now1, j, n);
            assert(r1.take(n as int) =~= r1);
            lemma_last_target_concat(x, r1, a, p, facts);
            assert(last_target(x + r1, a, p, facts) == Some(r1[j].target));
            if u2.contains(r1[j].target) {
                let i = choose|i: int| 0 <= i < u2.len() && u2[i] == r1[j].target;
                assert(u1[i] == r1[i].target);
                assert(r1[i].target != r1[j].target);
            }
        }
    }
}

/// Discovering the same family twice keeps its alias and, for every
/// worktree in the index, its repo, target and path: rediscovery never
/// renames anything, when the family's worktrees lie at distinct paths
/// that are already canonical.
pub proof fn lemma_rediscovery_keeps_names(m0: MergeModel, f: FamilyV, facts: PathFacts, now1: i64, now2: i64)
    requires
        family_paths_distinct(f, facts),
        family_paths_settled(f, facts),
    ensures
        ({
            let m1 = merge_one(m0, f, facts, now1);
            let m2 = merge_one(m1, f, facts, now2);
            &&& alias_for(m1.repos, f) == alias_for(m0.repos, f)
            &&& m2.worktrees.len() == m1.worktrees.len()
            &&& forall|i: int|
                0 <= i < m1.worktrees.len() ==> {
                    &&& (#[trigger] m2.worktrees[i]).repo_alias == m1.worktrees[i].repo_alias
                    &&& m2.worktrees[i].target == m1.worktrees[i].target
                    &&& m2.worktrees[i].path == m1.worktrees[i].path
                }
        }),
{
    let m1 = merge_one(m0, f, facts, now1);
    let m2 = merge_one(m1, f, facts, now2);
    let a = alias_for(m0.repos, f);
    let rec = RepoRecordV {
        alias: a,
        display_name: f.display_name,
        canonical_path: f.canonical_path,
        git_common_dir: f.common_dir,
        base_branch: f.base_branch,
        source: f.source,
        stale: !facts.has_path(f.canonical_path),
    };
    assert(m1.repos == upsert(m0.repos, rec));
    lemma_known_family_keeps_alias(m0.repos, rec, f);
    let n = f.worktrees.len();
    let x = drop_alias(m0.worktrees, a);
    let r1 = family_records(f, a, m0.worktrees, facts, now1);
    let r2 = family_records(f, a, x + r1, facts, now2);
    assert(m1.worktrees == x + r1);
    lemma_records_upto(f, a, m0.worktrees, facts, now1, n);
    lemma_records_upto(f, a, x + r1, facts, now2, n);
    lemma_family_targets_distinct(f, a, m0.worktrees, facts, now1, n);
    lemma_drop_alias_concat(x, r1, a);
    lemma_drop_alias_twice(m0.worktrees, a);
    lemma_drop_alias_all(r1, a);
    assert(drop_alias(m1.worktrees, a) =~= x);
    assert(m2.worktrees == x + r2);
    lemma_rediscovered_records(f, a, m0.worktrees, x, facts, now1, now2, n);
    assert forall|i: int| 0 <= i < m1.worktrees.len() implies {
        &&& (#[trigger] m2.worktrees[i]).repo_alias == m1.worktrees[i].repo_alias
        &&& m2.worktrees[i].target == m1.worktrees[i].target
        &&& m2.worktrees[i].path == m1.worktrees[i].path
    } by {
        if i < x.len() {
            assert(m2.worktrees[i] == x[i]);
            assert(m1.worktrees[i] == x[i]);
        } else {
            let j = i - x.len();
            assert(m2.worktrees[i] == r2[j]);
            assert(m1.worktrees[i] == r1[j]);
            assert(r2[j].target == r1[j].target);
        }
    }
}

} // verus!


verus! {

// ---------------------------------------------------------------------
// Stable insertion order
// ---------------------------------------------------------------------

/// The first index from `i` on whose element sorts after `x`, or the length.
pub open spec fn ins_pos<T>(s: Seq<T>, x: T, lt: spec_fn(T, T) -> bool, i: int) -> int
    decreases s.len() - i,
{
    if i < 0 || i >= s.len() {
        s.len() as int
    } else if lt(x, s[i]) {
        i
    } else {
        ins_pos(s, x, lt, i + 1)
    }
}

pub proof fn lemma_ins_pos_bound<T>(s: Seq<T>, x: T, lt: spec_fn(T, T) -> bool, i: int)
    requires
        0 <= i <= s.len(),
    ensures
        i <= ins_pos(s, x, lt, i) <= s.len(),
        forall|j: int| i <= j < ins_pos(s, x, lt, i) ==> !lt(x, #[trigger] s[j]),
        ins_pos(s, x, lt, i) < s.len() ==> lt(x, s[ins_pos(s, x, lt, i)]),
    decreases s.len() - i,
{
    if i < s.len() && !lt(x, s[i]) {
        lemma_ins_pos_bound(s, x, lt, i + 1);
    }
}

/// Stable sort: each element, in order, goes after every element already
/// placed that does not sort after it.
pub open spec fn isort<T>(s: Seq<T>, lt: spec_fn(T, T) -> bool) -> Seq<T>
    decreases s.len(),
{
    if s.len() == 0 {
        s
    } else {
        let r = isort(s.drop_last(), lt);
        r.insert(ins_pos(r, s.last(), lt, 0), s.last())
    }
}

pub proof fn lemma_isort_len<T>(s: Seq<T>, lt: spec_fn(T, T) -> bool)
    ensures
        isort(s, lt).len() == s.len(),
    decreases s.len(),
{
    if s.len() > 0 {
        lemma_isort_len(s.drop_last(), lt);
        let r = isort(s.drop_last(), lt);
        lemma_ins_pos_bound(r, s.last(), lt, 0);
    }
}

/// `lt` is a strict order: irreflexive and transitive.
pub open spec fn strict_order<T>(lt: spec_fn(T, T) -> bool) -> bool {
    &&& forall|a: T| !#[trigger] lt(a, a)
    &&& forall|a: T, b: T, c: T| #[trigger] lt(a, b) && #[trigger] lt(b, c) ==> lt(a, c)
}

/// No element of `s` sorts before an earlier one.
pub open spec fn sorted_by<T>(s: Seq<T>, lt: spec_fn(T, T) -> bool) -> bool {
    forall|i: int, j: int| 0 <= i < j < s.len() ==> !lt(#[trigger] s[j], #[trigger] s[i])
}

/// The stable sort sorts, for any strict order.
pub proof fn lemma_isort_sorted<T>(s: Seq<T>, lt: spec_fn(T, T) -> bool)
    requires
        strict_order(lt),
    ensures
        sorted_by(isort(s, lt), lt),
    decreases s.len(),
{
    if s.len() > 0 {
        lemma_isort_sorted(s.drop_last(), lt);
        let r = isort(s.drop_last(), lt);
        let x = s.last();
        let p = ins_pos(r, x, lt, 0);
        lemma_ins_pos_bound(r, x, lt, 0);
        let t = r.insert(p, x);
        assert forall|i: int, j: int| 0 <= i < j < t.len() implies !lt(#[trigger] t[j], #[trigger] t[i]) by {
            if j < p {
                assert(t[j] == r[j] && t[i] == r[i]);
            } else if j == p {
                assert(t[i] == r[i]);
            } else if i < p {
                assert(t[j] == r[j - 1] && t[i] == r[i]);
            } else if i == p {
                assert(t[j] == r[j - 1]);
                if lt(r[j - 1], x) {
                    assert(lt(x, r[p]));
                    assert(lt(r[j - 1], r[p]));
                }
            } else {
                assert(t[j] == r[j - 1] && t[i] == r[i - 1]);
            }
        }
    }
}

/// The stable sort keeps every element, as often as it occurs.
pub proof fn lemma_isort_multiset<T>(s: Seq<T>, lt: spec_fn(T, T) -> bool)
    ensures
        isort(s, lt).to_multiset() == s.to_multiset(),
    decreases s.len(),
{
    if s.len() > 0 {
        lemma_isort_multiset(s.drop_last(), lt);
        lemma_isort_len(s.drop_last(), lt);
        let r = isort(s.drop_last(), lt);
        lemma_ins_pos_bound(r, s.last(), lt, 0);
        vstd::seq_lib::to_multiset_insert(r, ins_pos(r, s.last(), lt, 0), s.last());
        vstd::seq_lib::to_multiset_build(s.drop_last(), s.last());
        assert(s.drop_last().push(s.last()) =~= s);
    }
}

/// The stable sort holds exactly the elements of its input.
pub proof fn lemma_isort_contains<T>(s: Seq<T>, lt: spec_fn(T, T) -> bool, x: T)
    ensures
        isort(s, lt).contains(x) <==> s.contains(x),
{
    lemma_isort_multiset(s, lt);
    vstd::seq_lib::to_multiset_contains(s, x);
    vstd::seq_lib::to_multiset_contains(isort(s, lt), x);
}

/// Sequences with the same elements, counted with multiplicity, have as
/// many elements that satisfy `p`.
pub proof fn lemma_filter_len_perm<T>(a: Seq<T>, b: Seq<T>, p: spec_fn(T) -> bool)
    requires
        a.to_multiset() == b.to_multiset(),
    ensures
        a.filter(p).len() == b.filter(p).len(),
    decreases a.len(),
{
    reveal(Seq::filter);
    vstd::seq_lib::to_multiset_len(a);
    vstd::seq_lib::to_multiset_len(b);
    if a.len() == 0 {
        assert(b.len() == 0);
        assert(b.filter(p).len() == 0);
    } else {
        let x = a.last();
        let a1 = a.drop_last();
        vstd::seq_lib::to_multiset_build(a1, x);
        assert(a1.push(x) =~= a);
        assert(a.to_multiset().count(x) > 0) by {
            broadcast use vstd::multiset::group_multiset_axioms;
        }
        vstd::seq_lib::to_multiset_contains(b, x);
        let k = choose|k: int| 0 <= k < b.len() && b[k] == x;
        let b1 = b.remove(k);
        vstd::seq_lib::to_multiset_remove(b, k);
        assert(a1.to_multiset() =~= b1.to_multiset()) by {
            broadcast use vstd::multiset::group_multiset_axioms;
        }
        lemma_filter_len_perm(a1, b1, p);
        let l = b.take(k);
        let r = b.skip(k + 1);
        assert(b =~= l + seq![x] + r);
        assert(b1 =~= l + r);
        Seq::filter_distributes_over_add(l + seq![x], r, p);
        Seq::filter_distributes_over_add(l, seq![x], p);
        Seq::filter_distributes_over_add(l, r, p);
        assert(seq![x].drop_last() =~= Seq::<T>::empty());
        assert(Seq::<T>::empty().filter(p).len() == 0);
        assert(seq![x].filter(p).len() == if p(x) { 1int } else { 0int });
        assert(a.filter(p).len() == a1.filter(p).len() + if p(x) { 1int } else { 0int });
        assert(b.filter(p).len() == b1.filter(p).len() + if p(x) { 1int } else { 0int });
    }
}

/// Counting the images of `s` under `f` that satisfy `p` counts the
/// elements of `s` whose image does.
pub proof fn lemma_map_filter_len<T, U>(s: Seq<T>, f: spec_fn(T) -> U, p: spec_fn(U) -> bool)
    ensures
        s.map_values(f).filter(p).len() == s.filter(|x: T| p(f(x))).len(),
    decreases s.len(),
{
    reveal(Seq::filter);
    if s.len() > 0 {
        lemma_map_filter_len(s.drop_last(), f, p);
        assert(s.map_values(f).drop_last() =~= s.drop_last().map_values(f));
    }
}

pub open spec fn repo_lt(x: RepoRecordV, y: RepoRecordV) -> bool {
    seq_lt(x.alias, y.alias)
}

pub open spec fn worktree_lt(x: WorktreeRecordV, y: WorktreeRecordV) -> bool {
    seq_lt(x.repo_alias, y.repo_alias) || (x.repo_alias == y.repo_alias && seq_lt(x.target, y.target))
}

/// The repos in stable alias order.
pub fn sort_repos(v: &Vec<RepoRecord>) -> (r: Vec<RepoRecord>)
    ensures
        repo_views(r@) == isort(repo_views(v@), |x: RepoRecordV, y: RepoRecordV| repo_lt(x, y)),
{
    let ghost lt = |x: RepoRecordV, y: RepoRecordV| repo_lt(x, y);
    let mut out: Vec<RepoRecord> = Vec::new();
    let mut i: usize = 0;
    assert(repo_views(v@.take(0)) =~= Seq::<RepoRecordV>::empty());
    assert(repo_views(out@) =~= Seq::<RepoRecordV>::empty());
    while i < v.len()
        invariant
            lt == (|x: RepoRecordV, y: RepoRecordV| repo_lt(x, y)),
            i <= v@.len(),
            repo_views(out@) == isort(repo_views(v@.take(i as int)), lt),
        decreases v@.len() - i,
    {
        let x = v[i].duplicate();
        let ghost ov = repo_views(out@);
        let mut p: usize = 0;
        while p < out.len() && !str_lt(x.alias.as_str(), out[p].alias.as_str())
            invariant
                lt == (|x: RepoRecordV, y: RepoRecordV| repo_lt(x, y)),
                ov == repo_views(out@),
                p <= out@.len(),
                ins_pos(ov, x@, lt, 0) == ins_pos(ov, x@, lt, p as int),
            decreases out@.len() - p,
        {
            assert(ov[p as int] == out@[p as int]@);
            p = p + 1;
        }
        proof {
            if p < out@.len() {
                assert(ov[p as int] == out@[p as int]@);
            }
            let pre = repo_views(v@.take(i + 1));
            assert(pre.drop_last() =~= repo_views(v@.take(i as int)));
            assert(pre.last() == x@);
        }
        let ghost xv = x@;
        out.insert(p, x);
        assert(repo_views(out@) =~= ov.insert(p as int, xv));
        i = i + 1;
    }
    assert(v@.take(v@.len() as int) =~= v@);
    out
}

fn worktree_before(x: &WorktreeRecord, y: &WorktreeRecord) -> (r: bool)
    ensures
        r == worktree_lt(x@, y@),
{
    str_lt(x.repo_alias.as_str(), y.repo_alias.as_str()) || (str_eq(
        x.repo_alias.as_str(),
        y.repo_alias.as_str(),
    ) && str_lt(x.target.as_str(), y.target.as_str()))
}

/// The worktrees in stable (repo, target) order.
pub fn sort_worktrees(v: &Vec<WorktreeRecord>) -> (r: Vec<WorktreeRecord>)
    ensures
        worktree_views(r@) == isort(
            worktree_views(v@),
            |x: WorktreeRecordV, y: WorktreeRecordV| worktree_lt(x, y),
        ),
{
    let ghost lt = |x: WorktreeRecordV, y: WorktreeRecordV| worktree_lt(x, y);
    let mut out: Vec<WorktreeRecord> = Vec::new();
    let mut i: usize = 0;
    assert(worktree_views(v@.take(0)) =~= Seq::<WorktreeRecordV>::empty());
    assert(worktree_views(out@) =~= Seq::<WorktreeRecordV>::empty());
    while i < v.len()
        invariant
            lt == (|x: WorktreeRecordV, y: WorktreeRecordV| worktree_lt(x, y)),
            i <= v@.len(),
            worktree_views(out@) == isort(worktree_views(v@.take(i as int)), lt),
        decreases v@.len() - i,
    {
        let x = v[i].duplicate();
        let ghost ov = worktree_views(out@);
        let mut p: usize = 0;
        while p < out.len() && !worktree_before(&x, &out[p])
            invariant
                lt == (|x: WorktreeRecordV, y: WorktreeRecordV| worktree_lt(x, y)),
                ov == worktree_views(out@),
                p <= out@.len(),
                ins_pos(ov, x@, lt, 0) == ins_pos(ov, x@, lt, p as int),
            decreases out@.len() - p,
        {
            assert(ov[p as int] == out@[p as int]@);
            p = p + 1;
        }
        proof {
            if p < out@.len() {
                assert(ov[p as int] == out@[p as int]@);
            }
            let pre = worktree_views(v@.take(i + 1));
            assert(pre.drop_last() =~= worktree_views(v@.take(i as int)));
            assert(pre.last() == x@);
        }
        let ghost xv = x@;
        out.insert(p, x);
        assert(worktree_views(out@) =~= ov.insert(p as int, xv));
        i = i + 1;
    }
    assert(v@.take(v@.len() as int) =~= v@);
    out
}

} // verus!

verus! {

// ---------------------------------------------------------------------
// Merging families into the cache and state
// ---------------------------------------------------------------------

/// The part of the cache and state that merging changes.
pub struct MergeModel {
    pub repos: Seq<RepoRecordV>,
    pub worktrees: Seq<WorktreeRecordV>,
    pub state_repos: Seq<(Seq<char>, RepoStateV)>,
}

/// Merges one family: its repo record replaces the cached one with the same
/// common directory, its state entry is recorded under its alias, and its
/// worktree records replace every cached worktree of that alias.
pub open spec fn merge_one(m: MergeModel, f: FamilyV, facts: PathFacts, now: i64) -> MergeModel {
    let a = alias_for(m.repos, f);
    let rec = RepoRecordV {
        alias: a,
        display_name: f.display_name,
        canonical_path: f.canonical_path,
        git_common_dir: f.common_dir,
        base_branch: f.base_branch,
        source: f.source,
        stale: !facts.has_path(f.canonical_path),
    };
    let st = RepoStateV {
        alias: a,
        canonical_path: f.canonical_path,
        git_common_dir: f.common_dir,
        base_branch: f.base_branch,
        source: f.source,
    };
    MergeModel {
        repos: upsert(m.repos, rec),
        worktrees: drop_alias(m.worktrees, a) + family_records(f, a, m.worktrees, facts, now),
        state_repos: map_insert(m.state_repos, a, st),
    }
}

pub open spec fn merge_fold(m: MergeModel, fs: Seq<FamilyV>, facts: PathFacts, now: i64) -> MergeModel
    decreases fs.len(),
{
    if fs.len() == 0 {
        m
    } else {
        merge_one(merge_fold(m, fs.drop_last(), facts, now), fs.last(), facts, now)
    }
}

/// Repos marked stale exactly when their canonical path is missing.
pub open spec fn refresh_repos(rs: Seq<RepoRecordV>, facts: PathFacts) -> Seq<RepoRecordV> {
    rs.map_values(|r: RepoRecordV| RepoRecordV { stale: !facts.has_path(r.canonical_path), ..r })
}

/// Worktrees marked stale exactly when their path is missing.
pub open spec fn refresh_worktrees(ws: Seq<WorktreeRecordV>, facts: PathFacts) -> Seq<WorktreeRecordV> {
    ws.map_values(|w: WorktreeRecordV| WorktreeRecordV { stale: !facts.has_path(w.path), ..w })
}

pub open spec fn family_views(fs: Seq<Family>) -> Seq<FamilyV> {
    fs.map_values(|f: Family| f@)
}

/// The cache and state after merging `fs`: staleness refreshed, each
/// family merged in order, then repos sorted by alias and worktrees by
/// repo and target, both stably.
pub open spec fn merged(
    repos: Seq<RepoRecordV>,
    worktrees: Seq<WorktreeRecordV>,
    state_repos: Seq<(Seq<char>, RepoStateV)>,
    fs: Seq<FamilyV>,
    facts: PathFacts,
    now: i64,
) -> MergeModel {
    let m0 = MergeModel {
        repos: refresh_repos(repos, facts),
        worktrees: refresh_worktrees(worktrees, facts),
        state_repos,
    };
    let m = merge_fold(m0, fs, facts, now);
    MergeModel {
        repos: isort(m.repos, |x: RepoRecordV, y: RepoRecordV| repo_lt(x, y)),
        worktrees: isort(m.worktrees, |x: WorktreeRecordV, y: WorktreeRecordV| worktree_lt(x, y)),
        state_repos: m.state_repos,
    }
}

fn refreshed_repos(rs: &Vec<RepoRecord>, facts: &PathFacts) -> (r: Vec<RepoRecord>)
    ensures
        repo_views(r@) == refresh_repos(repo_views(rs@), *facts),
{
    let mut out: Vec<RepoRecord> = Vec::new();
    let mut i: usize = 0;
    while i < rs.len()
        invariant
            i <= rs@.len(),
            repo_views(out@) == refresh_repos(repo_views(rs@), *facts).take(i as int),
        decreases rs@.len() - i,
    {
        let mut x = rs[i].duplicate();
        x.stale = !facts.path_exists(rs[i].canonical_path.as_str());
        let ghost before = out@;
        out.push(x);
        assert(repo_views(rs@)[i as int] == rs@[i as int]@);
        assert(repo_views(out@) =~= repo_views(before).push(x@));
        assert(repo_views(out@) =~= refresh_repos(repo_views(rs@), *facts).take(i + 1));
        i = i + 1;
    }
    assert(refresh_repos(repo_views(rs@), *facts).take(rs@.len() as int) =~= refresh_repos(
        repo_views(rs@),
        *facts,
    ));
    out
}

fn refreshed_worktrees(ws: &Vec<WorktreeRecord>, facts: &PathFacts) -> (r: Vec<WorktreeRecord>)
    ensures
        worktree_views(r@) == refresh_worktrees(worktree_views(ws@), *facts),
{
    let mut out: Vec<WorktreeRecord> = Vec::new();
    let mut i: usize = 0;
    while i < ws.len()
        invariant
            i <= ws@.len(),
            worktree_views(out@) == refresh_worktrees(worktree_views(ws@), *facts).take(i as int),
        decreases ws@.len() - i,
    {
        let mut x = ws[i].duplicate();
        x.stale = !facts.path_exists(ws[i].path.as_str());
        let ghost before = out@;
        out.push(x);
        assert(worktree_views(ws@)[i as int] == ws@[i as int]@);
        assert(worktree_views(out@) =~= worktree_views(before).push(x@));
        assert(worktree_views(out@) =~= refresh_worktrees(worktree_views(ws@), *facts).take(i + 1));
        i = i + 1;
    }
    assert(refresh_worktrees(worktree_views(ws@), *facts).take(ws@.len() as int)
        =~= refresh_worktrees(worktree_views(ws@), *facts));
    out
}

/// Merges one family into the working copies of the cache and state.
fn merge_family(
    repos: &mut Vec<RepoRecord>,
    worktrees: &mut Vec<WorktreeRecord>,
    state_repos: &mut Vec<(String, RepoState)>,
    f: &Family,
    facts: &PathFacts,
    now: i64,
)
    requires
        old(repos)@.len() + 3 <= u64::MAX,
        f.worktrees@.len() * 2 + 3 <= u64::MAX,
    ensures
        final(repos)@.len() <= old(repos)@.len() + 1,
        (MergeModel {
            repos: repo_views(final(repos)@),
            worktrees: worktree_views(final(worktrees)@),
            state_repos: repo_state_views(final(state_repos)@),
        }) == merge_one(
            MergeModel {
                repos: repo_views(old(repos)@),
                worktrees: worktree_views(old(worktrees)@),
                state_repos: repo_state_views(old(state_repos)@),
            },
            f@,
            *facts,
            now,
        ),
{
    let alias = alias_for_family(repos, f);
    let rec = RepoRecord {
        alias: alias.clone(),
        display_name: f.display_name.clone(),
        canonical_path: f.canonical_path.clone(),
        git_common_dir: f.common_dir.clone(),
        base_branch: copy_opt(&f.base_branch),
        source: f.source,
        stale: !facts.path_exists(f.canonical_path.as_str()),
    };
    let st = RepoState {
        alias: alias.clone(),
        canonical_path: f.canonical_path.clone(),
        git_common_dir: f.common_dir.clone(),
        base_branch: copy_opt(&f.base_branch),
        source: f.source,
    };
    let ghost rv0 = repo_views(repos@);
    let ghost recv = rec@;
    upsert_repo(repos, rec);
    proof {
        lemma_find_common(rv0, recv.git_common_dir, 0);
        assert(repo_views(repos@).len() == repos@.len());
    }
    state_insert(state_repos, alias.clone(), st);
    let records = build_family_records(f, alias.as_str(), worktrees, facts, now);
    let mut kept = without_alias(worktrees, alias.as_str());
    let ghost kv = worktree_views(kept@);
    let ghost rv = worktree_views(records@);
    let mut j: usize = 0;
    while j < records.len()
        invariant
            j <= records@.len(),
            rv == worktree_views(records@),
            worktree_views(kept@) == kv + rv.take(j as int),
        decreases records@.len() - j,
    {
        let ghost before = kept@;
        kept.push(records[j].duplicate());
        assert(rv[j as int] == records@[j as int]@);
        assert(worktree_views(kept@) =~= worktree_views(before).push(records@[j as int]@));
        assert(worktree_views(kept@) =~= kv + rv.take(j + 1));
        j = j + 1;
    }
    assert(rv.take(records@.len() as int) =~= rv);
    *worktrees = kept;
}

/// Merges discovered families into the cache and state, given what the
/// file system says about the paths involved and the current time.
pub fn merge_families_with(
    state: &mut State,
    cache: &mut Cache,
    families: &Vec<Family>,
    facts: &PathFacts,
    now: i64,
)
    requires
        old(cache).repos@.len() + families@.len() + 3 <= u64::MAX,
        forall|i: int| 0 <= i < families@.len() ==> (#[trigger] families@[i]).worktrees@.len() * 2
            + 3 <= u64::MAX,
    ensures
        (MergeModel {
            repos: repo_views(final(cache).repos@),
            worktrees: worktree_views(final(cache).worktrees@),
            state_repos: repo_state_views(final(state).repos@),
        }) == merged(
            repo_views(old(cache).repos@),
            worktree_views(old(cache).worktrees@),
            repo_state_views(old(state).repos@),
            family_views(families@),
            *facts,
            now,
        ),
        final(cache).schema_version == old(cache).schema_version,
        final(cache).last_scan_unix == old(cache).last_scan_unix,
        final(state).schema_version == old(state).schema_version,
        final(state).adopted_paths@ == old(state).adopted_paths@,
        final(state).ignored_repos@ == old(state).ignored_repos@,
        final(state).sessions@ == old(state).sessions@,
{
    let mut repos = refreshed_repos(&cache.repos, facts);
    let mut worktrees = refreshed_worktrees(&cache.worktrees, facts);
    let mut state_repos: Vec<(String, RepoState)> = Vec::new();
    std::mem::swap(&mut state_repos, &mut state.repos);
    let ghost m0 = MergeModel {
        repos: repo_views(repos@),
        worktrees: worktree_views(worktrees@),
        state_repos: repo_state_views(state_repos@),
    };
    let ghost fs = family_views(families@);
    let mut i: usize = 0;
    assert(fs.take(0) =~= Seq::<FamilyV>::empty());
    assert(repo_views(repos@).len() == repos@.len());
    assert(repo_views(cache.repos@).len() == cache.repos@.len());
    while i < families.len()
        invariant
            fs == family_views(families@),
            i <= families@.len(),
            repos@.len() <= old(cache).repos@.len() + i,
            old(cache).repos@.len() + families@.len() + 3 <= u64::MAX,
            forall|k: int| 0 <= k < families@.len() ==> (#[trigger] families@[k]).worktrees@.len() * 2
                + 3 <= u64::MAX,
            (MergeModel {
                repos: repo_views(repos@),
                worktrees: worktree_views(worktrees@),
                state_repos: repo_state_views(state_repos@),
            }) == merge_fold(m0, fs.take(i as int), *facts, now),
        decreases families@.len() - i,
    {
        let f = &families[i];
        assert(fs.take(i + 1).drop_last() =~= fs.take(i as int));
        assert(fs.take(i + 1).last() == f@);
        merge_family(&mut repos, &mut worktrees, &mut state_repos, f, facts, now);
        i = i + 1;
    }
    assert(fs.take(families@.len() as int) =~= fs);
    cache.repos = sort_repos(&repos);
    cache.worktrees = sort_worktrees(&worktrees);
    state.repos = state_repos;
}

/// The paths of each family in turn: its canonical path, then its
/// worktrees' paths.
pub open spec fn family_paths(fs: Seq<FamilyV>) -> Seq<Seq<char>>
    decreases fs.len(),
{
    if fs.len() == 0 {
        seq![]
    } else {
        family_paths(fs.drop_last()) + seq![fs.last().canonical_path] + fs.last().worktrees.map_values(
            |e: EntryView| e.path,
        )
    }
}

/// The paths a merge observes, in order: the cached repos' canonical
/// paths, the cached worktrees' paths, then the families' paths.
pub open spec fn merge_paths(rs: Seq<RepoRecordV>, ws: Seq<WorktreeRecordV>, fs: Seq<FamilyV>) -> Seq<Seq<char>> {
    rs.map_values(|r: RepoRecordV| r.canonical_path) + ws.map_values(|w: WorktreeRecordV| w.path) + family_paths(fs)
}

/// Merges discovered families into the cache and state, observing the
/// file system for the paths involved and reading the clock.
pub fn merge_families(state: &mut State, cache: &mut Cache, families: &Vec<Family>)
    requires
        old(cache).repos@.len() + families@.len() + 3 <= u64::MAX,
        forall|i: int| 0 <= i < families@.len() ==> (#[trigger] families@[i]).worktrees@.len() * 2
            + 3 <= u64::MAX,
    ensures
        exists|facts: PathFacts, now: i64|
            observes(
                facts,
                merge_paths(
                    repo_views(old(cache).repos@),
                    worktree_views(old(cache).worktrees@),
                    family_views(families@),
                ),
            ) && (MergeModel {
                repos: repo_views(final(cache).repos@),
                worktrees: worktree_views(final(cache).worktrees@),
                state_repos: repo_state_views(final(state).repos@),
            }) == merged(
                repo_views(old(cache).repos@),
                worktree_views(old(cache).worktrees@),
                repo_state_views(old(state).repos@),
                family_views(families@),
                facts,
                now,
            ),
        final(cache).schema_version == old(cache).schema_version,
        final(cache).last_scan_unix == old(cache).last_scan_unix,
        final(state).schema_version == old(state).schema_version,
        final(state).adopted_paths@ == old(state).adopted_paths@,
        final(state).ignored_repos@ == old(state).ignored_repos@,
        final(state).sessions@ == old(state).sessions@,
{
    let ghost rp = repo_views(cache.repos@).map_values(|r: RepoRecordV| r.canonical_path);
    let ghost wp = worktree_views(cache.worktrees@).map_values(|w: WorktreeRecordV| w.path);
    let ghost fs = family_views(families@);
    let mut paths: Vec<String> = Vec::new();
    let mut i: usize = 0;
    while i < cache.repos.len()
        invariant
            rp == repo_views(cache.repos@).map_values(|r: RepoRecordV| r.canonical_path),
            i <= cache.repos@.len(),
            string_views(paths@) == rp.take(i as int),
        decreases cache.repos@.len() - i,
    {
        let ghost before = string_views(paths@);
        assert(repo_views(cache.repos@)[i as int] == cache.repos@[i as int]@);
        paths.push(cache.repos[i].canonical_path.clone());
        assert(string_views(paths@) =~= before.push(rp[i as int]));
        assert(string_views(paths@) =~= rp.take(i + 1));
        i = i + 1;
    }
    assert(rp.take(rp.len() as int) =~= rp);
    let mut j: usize = 0;
    while j < cache.worktrees.len()
        invariant
            wp == worktree_views(cache.worktrees@).map_values(|w: WorktreeRecordV| w.path),
            j <= cache.worktrees@.len(),
            string_views(paths@) == rp + wp.take(j as int),
        decreases cache.worktrees@.len() - j,
    {
        let ghost before = string_views(paths@);
        assert(worktree_views(cache.worktrees@)[j as int] == cache.worktrees@[j as int]@);
        paths.push(cache.worktrees[j].path.clone());
        assert(string_views(paths@) =~= before.push(wp[j as int]));
        assert(string_views(paths@) =~= rp + wp.take(j + 1));
        j = j + 1;
    }
    assert(wp.take(wp.len() as int) =~= wp);
    let mut k: usize = 0;
    assert(fs.take(0) =~= Seq::<FamilyV>::empty());
    while k < families.len()
        invariant
            fs == family_views(families@),
            k <= families@.len(),
            string_views(paths@) == rp + wp + family_paths(fs.take(k as int)),
        decreases families@.len() - k,
    {
        let f = &families[k];
        let ghost before = string_views(paths@);
        let ghost ep = f@.worktrees.map_values(|e: EntryView| e.path);
        paths.push(f.canonical_path.clone());
        assert(string_views(paths@) =~= before + seq![f@.canonical_path] + ep.take(0));
        let mut e: usize = 0;
        while e < f.worktrees.len()
            invariant
                ep == f@.worktrees.map_values(|e: EntryView| e.path),
                f@.worktrees == entry_views(f.worktrees@),
                e <= f.worktrees@.len(),
                string_views(paths@) == before + seq![f@.canonical_path] + ep.take(e as int),
            decreases f.worktrees@.len() - e,
        {
            let ghost mid = string_views(paths@);
            assert(entry_views(f.worktrees@)[e as int] == f.worktrees@[e as int]@);
            paths.push(f.worktrees[e].path.clone());
            assert(string_views(paths@) =~= mid.push(ep[e as int]));
            assert(string_views(paths@) =~= before + seq![f@.canonical_path] + ep.take(e + 1));
            e = e + 1;
        }
        assert(ep.take(ep.len() as int) =~= ep);
        assert(fs.take(k + 1).drop_last() =~= fs.take(k as int));
        assert(fs.take(k + 1).last() == f@);
        assert(string_views(paths@) =~= rp + wp + family_paths(fs.take(k + 1)));
        k = k + 1;
    }
    assert(fs.take(fs.len() as int) =~= fs);
    assert(string_views(paths@) =~= merge_paths(
        repo_views(cache.repos@),
        worktree_views(cache.worktrees@),
        fs,
    ));
    let facts = crate::facts::observe_paths(&paths);
    let now = crate::facts::now_unix();
    merge_families_with(state, cache, families, &facts, now);
}

// ---------------------------------------------------------------------
// What a merge keeps
// ---------------------------------------------------------------------

proof fn lemma_repo_lt_strict()
    ensures
        strict_order(|x: RepoRecordV, y: RepoRecordV| repo_lt(x, y)),
{
    assert forall|a: RepoRecordV| !#[trigger] repo_lt(a, a) by {
        lemma_seq_lt_irreflexive(a.alias);
    }
    assert forall|a: RepoRecordV, b: RepoRecordV, c: RepoRecordV|
        #[trigger] repo_lt(a, b) && #[trigger] repo_lt(b, c) implies repo_lt(a, c) by {
        lemma_seq_lt_transitive(a.alias, b.alias, c.alias);
    }
}

proof fn lemma_worktree_lt_strict()
    ensures
        strict_order(|x: WorktreeRecordV, y: WorktreeRecordV| worktree_lt(x, y)),
{
    assert forall|a: WorktreeRecordV| !#[trigger] worktree_lt(a, a) by {
        lemma_seq_lt_irreflexive(a.repo_alias);
        lemma_seq_lt_irreflexive(a.target);
    }
    assert forall|a: WorktreeRecordV, b: WorktreeRecordV, c: WorktreeRecordV|
        #[trigger] worktree_lt(a, b) && #[trigger] worktree_lt(b, c) implies worktree_lt(a, c) by {
        if seq_lt(a.repo_alias, b.repo_alias) && seq_lt(b.repo_alias, c.repo_alias) {
            lemma_seq_lt_transitive(a.repo_alias, b.repo_alias, c.repo_alias);
        }
        if a.repo_alias == b.repo_alias && b.repo_alias == c.repo_alias && seq_lt(a.target, b.target) && seq_lt(
            b.target,
            c.target,
        ) {
            lemma_seq_lt_transitive(a.target, b.target, c.target);
        }
    }
}

/// After a merge the repos are in alias order and the worktrees in
/// (repo, target) order.
pub proof fn lemma_merge_sorted(
    repos: Seq<RepoRecordV>,
    worktrees: Seq<WorktreeRecordV>,
    state_repos: Seq<(Seq<char>, RepoStateV)>,
    fs: Seq<FamilyV>,
    facts: PathFacts,
    now: i64,
)
    ensures
        sorted_by(
            merged(repos, worktrees, state_repos, fs, facts, now).repos,
            |x: RepoRecordV, y: RepoRecordV| repo_lt(x, y),
        ),
        sorted_by(
            merged(repos, worktrees, state_repos, fs, facts, now).worktrees,
            |x: WorktreeRecordV, y: WorktreeRecordV| worktree_lt(x, y),
        ),
{
    let m0 = MergeModel {
        repos: refresh_repos(repos, facts),
        worktrees: refresh_worktrees(worktrees, facts),
        state_repos,
    };
    let m = merge_fold(m0, fs, facts, now);
    lemma_repo_lt_strict();
    lemma_worktree_lt_strict();
    lemma_isort_sorted(m.repos, |x: RepoRecordV, y: RepoRecordV| repo_lt(x, y));
    lemma_isort_sorted(m.worktrees, |x: WorktreeRecordV, y: WorktreeRecordV| worktree_lt(x, y));
}

/// The aliases the families are merged under, in order.
pub open spec fn fold_aliases(m: MergeModel, fs: Seq<FamilyV>, facts: PathFacts, now: i64) -> Seq<Seq<char>>
    decreases fs.len(),
{
    if fs.len() == 0 {
        seq![]
    } else {
        fold_aliases(m, fs.drop_last(), facts, now).push(
            alias_for(merge_fold(m, fs.drop_last(), facts, now).repos, fs.last()),
        )
    }
}

/// The aliases a merge files the families under.
pub open spec fn merge_aliases(
    repos: Seq<RepoRecordV>,
    worktrees: Seq<WorktreeRecordV>,
    state_repos: Seq<(Seq<char>, RepoStateV)>,
    fs: Seq<FamilyV>,
    facts: PathFacts,
    now: i64,
) -> Seq<Seq<char>> {
    fold_aliases(
        MergeModel {
            repos: refresh_repos(repos, facts),
            worktrees: refresh_worktrees(worktrees, facts),
            state_repos,
        },
        fs,
        facts,
        now,
    )
}

proof fn lemma_drop_alias_keeps(ws: Seq<WorktreeRecordV>, a: Seq<char>, w: WorktreeRecordV)
    requires
        ws.contains(w),
        w.repo_alias != a,
    ensures
        drop_alias(ws, a).contains(w),
    decreases ws.len(),
{
    if ws.last() == w {
        assert(drop_alias(ws, a).last() == w);
    } else {
        let k = choose|k: int| 0 <= k < ws.len() && ws[k] == w;
        assert(ws.drop_last()[k] == w);
        lemma_drop_alias_keeps(ws.drop_last(), a, w);
        let d = drop_alias(ws.drop_last(), a);
        let j = choose|j: int| 0 <= j < d.len() && d[j] == w;
        if ws.last().repo_alias != a {
            assert(drop_alias(ws, a)[j] == w);
        }
    }
}

proof fn lemma_fold_keeps(m: MergeModel, fs: Seq<FamilyV>, facts: PathFacts, now: i64)
    ensures
        merge_fold(m, fs, facts, now).repos.len() >= m.repos.len(),
        forall|i: int| 0 <= i < m.repos.len() ==> (#[trigger] merge_fold(m, fs, facts, now).repos[i]).alias == m.repos[i].alias,
        forall|w: WorktreeRecordV| #[trigger] m.worktrees.contains(w) && !fold_aliases(m, fs, facts, now).contains(w.repo_alias)
            ==> merge_fold(m, fs, facts, now).worktrees.contains(w),
    decreases fs.len(),
{
    if fs.len() > 0 {
        lemma_fold_keeps(m, fs.drop_last(), facts, now);
        let mp = merge_fold(m, fs.drop_last(), facts, now);
        let f = fs.last();
        let a = alias_for(mp.repos, f);
        lemma_find_common(mp.repos, f.common_dir, 0);
        assert forall|w: WorktreeRecordV| #[trigger] m.worktrees.contains(w) && !fold_aliases(m, fs, facts, now).contains(
            w.repo_alias,
        ) implies merge_fold(m, fs, facts, now).worktrees.contains(w) by {
            let fa = fold_aliases(m, fs.drop_last(), facts, now);
            assert(fold_aliases(m, fs, facts, now) == fa.push(a));
            if fa.contains(w.repo_alias) {
                let k = choose|k: int| 0 <= k < fa.len() && fa[k] == w.repo_alias;
                assert(fa.push(a)[k] == w.repo_alias);
            }
            assert(fa.push(a)[fa.len() as int] == a);
            assert(w.repo_alias != a);
            lemma_drop_alias_keeps(mp.worktrees, a, w);
            let d = drop_alias(mp.worktrees, a);
            let j = choose|j: int| 0 <= j < d.len() && d[j] == w;
            assert((d + family_records(f, a, mp.worktrees, facts, now))[j] == w);
        }
    }
}

/// Whether some repo of `rs` has alias `a`.
pub open spec fn has_alias(rs: Seq<RepoRecordV>, a: Seq<char>) -> bool {
    exists|k: int| 0 <= k < rs.len() && (#[trigger] rs[k]).alias == a
}

/// A merge removes no repo: every cached repo's alias is still there.  It
/// keeps every cached worktree of a repo that no family was merged under,
/// only refreshing whether it is stale.
pub proof fn lemma_merge_keeps_records(
    repos: Seq<RepoRecordV>,
    worktrees: Seq<WorktreeRecordV>,
    state_repos: Seq<(Seq<char>, RepoStateV)>,
    fs: Seq<FamilyV>,
    facts: PathFacts,
    now: i64,
)
    ensures
        merged(repos, worktrees, state_repos, fs, facts, now).repos.len() >= repos.len(),
        forall|i: int|
            0 <= i < repos.len() ==> has_alias(
                merged(repos, worktrees, state_repos, fs, facts, now).repos,
                #[trigger] repos[i].alias,
            ),
        forall|w: WorktreeRecordV|
            #[trigger] worktrees.contains(w) && !merge_aliases(repos, worktrees, state_repos, fs, facts, now).contains(
                w.repo_alias,
            ) ==> merged(repos, worktrees, state_repos, fs, facts, now).worktrees.contains(
                WorktreeRecordV { stale: !facts.has_path(w.path), ..w },
            ),
{
    let m0 = MergeModel {
        repos: refresh_repos(repos, facts),
        worktrees: refresh_worktrees(worktrees, facts),
        state_repos,
    };
    let m = merge_fold(m0, fs, facts, now);
    let rlt = |x: RepoRecordV, y: RepoRecordV| repo_lt(x, y);
    let wlt = |x: WorktreeRecordV, y: WorktreeRecordV| worktree_lt(x, y);
    let out = merged(repos, worktrees, state_repos, fs, facts, now);
    lemma_fold_keeps(m0, fs, facts, now);
    lemma_isort_len(m.repos, rlt);
    assert forall|i: int| 0 <= i < repos.len() implies has_alias(out.repos, #[trigger] repos[i].alias) by {
        assert(m0.repos[i].alias == repos[i].alias);
        assert(m.repos[i].alias == repos[i].alias);
        assert(m.repos.contains(m.repos[i]));
        lemma_isort_contains(m.repos, rlt, m.repos[i]);
        let k = choose|k: int| 0 <= k < out.repos.len() && out.repos[k] == m.repos[i];
        assert(out.repos[k].alias == repos[i].alias);
        assert(0 <= k < out.repos.len() && out.repos[k].alias == repos[i].alias);
    }
    assert forall|w: WorktreeRecordV|
        #[trigger] worktrees.contains(w) && !merge_aliases(repos, worktrees, state_repos, fs, facts, now).contains(
            w.repo_alias,
        ) implies out.worktrees.contains(WorktreeRecordV { stale: !facts.has_path(w.path), ..w }) by {
        let rw = WorktreeRecordV { stale: !facts.has_path(w.path), ..w };
        let k = choose|k: int| 0 <= k < worktrees.len() && worktrees[k] == w;
        assert(m0.worktrees[k] == rw);
        assert(m0.worktrees.contains(rw));
        assert(m.worktrees.contains(rw));
        lemma_isort_contains(m.worktrees, wlt, rw);
    }
}

proof fn lemma_refresh_keeps_common(repos: Seq<RepoRecordV>, cd: Seq<char>, facts: PathFacts, i: int)
    ensures
        find_common(refresh_repos(repos, facts), cd, i) == find_common(repos, cd, i),
    decreases repos.len() - i,
{
    if 0 <= i < repos.len() {
        lemma_refresh_keeps_common(repos, cd, facts, i + 1);
    }
}

/// Merging a single family: when a cached repo has its common directory,
/// the family is filed under that repo's alias and no repo is added;
/// otherwise it gets a fresh alias (its name when free, else its name with
/// the least free suffix from 2) and exactly one repo is added.  Either
/// way the merged repos hold a record of that alias for the family's
/// common directory.
pub proof fn lemma_merge_one_family_alias(
    repos: Seq<RepoRecordV>,
    worktrees: Seq<WorktreeRecordV>,
    state_repos: Seq<(Seq<char>, RepoStateV)>,
    f: FamilyV,
    facts: PathFacts,
    now: i64,
)
    requires
        forall|i: int, j: int|
            0 <= i < j < repos.len() ==> !path_same((#[trigger] repos[i]).git_common_dir, (#[trigger] repos[j]).git_common_dir),
    ensures
        merge_aliases(repos, worktrees, state_repos, seq![f], facts, now) == seq![alias_for(repos, f)],
        forall|i: int|
            0 <= i < repos.len() && path_same((#[trigger] repos[i]).git_common_dir, f.common_dir) ==> alias_for(repos, f)
                == repos[i].alias && merged(repos, worktrees, state_repos, seq![f], facts, now).repos.len()
                == repos.len(),
        (forall|i: int| 0 <= i < repos.len() ==> !path_same((#[trigger] repos[i]).git_common_dir, f.common_dir)) ==> alias_for(
            repos,
            f,
        ) == spec_unique_alias(repos, f.display_name) && merged(
            repos,
            worktrees,
            state_repos,
            seq![f],
            facts,
            now,
        ).repos.len() == repos.len() + 1,
        exists|k: int|
            0 <= k < merged(repos, worktrees, state_repos, seq![f], facts, now).repos.len() && (#[trigger] merged(
                repos,
                worktrees,
                state_repos,
                seq![f],
                facts,
                now,
            ).repos[k]).alias == alias_for(repos, f) && merged(
                repos,
                worktrees,
                state_repos,
                seq![f],
                facts,
                now,
            ).repos[k].git_common_dir == f.common_dir,
{
    let fs = seq![f];
    let rr = refresh_repos(repos, facts);
    let m0 = MergeModel { repos: rr, worktrees: refresh_worktrees(worktrees, facts), state_repos };
    assert(fs.drop_last() =~= Seq::<FamilyV>::empty());
    assert(fs.last() == f);
    assert(merge_fold(m0, fs.drop_last(), facts, now) == m0);
    lemma_refresh_keeps_common(repos, f.common_dir, facts, 0);
    lemma_find_common(repos, f.common_dir, 0);
    assert(aliases(rr) =~= aliases(repos));
    assert(rr.len() == repos.len());
    assert(spec_unique_alias(rr, f.display_name) == spec_unique_alias(repos, f.display_name));
    let j0 = find_common(repos, f.common_dir, 0);
    if j0 < repos.len() {
        assert(rr[j0].alias == repos[j0].alias);
    }
    assert(alias_for(rr, f) == alias_for(repos, f));
    assert(fold_aliases(m0, fs.drop_last(), facts, now) =~= Seq::<Seq<char>>::empty());
    assert(fold_aliases(m0, fs, facts, now) =~= seq![alias_for(repos, f)]);
    let m = merge_fold(m0, fs, facts, now);
    assert(m == merge_one(m0, f, facts, now));
    let rlt = |x: RepoRecordV, y: RepoRecordV| repo_lt(x, y);
    lemma_isort_len(m.repos, rlt);
    lemma_find_common(repos, f.common_dir, 0);
    let j = find_common(repos, f.common_dir, 0);
    assert forall|i: int| 0 <= i < repos.len() && path_same((#[trigger] repos[i]).git_common_dir, f.common_dir) implies alias_for(
        repos,
        f,
    ) == repos[i].alias && merged(repos, worktrees, state_repos, fs, facts, now).repos.len() == repos.len() by {
        assert(j <= i);
        if j < i {
            assert(path_same(repos[j].git_common_dir, f.common_dir));
        }
    }
    let a = alias_for(repos, f);
    let k0 = if j < repos.len() { j } else { repos.len() as int };
    assert(m.repos[k0].alias == a && m.repos[k0].git_common_dir == f.common_dir);
    assert(m.repos.contains(m.repos[k0]));
    lemma_isort_contains(m.repos, rlt, m.repos[k0]);
    let out = merged(repos, worktrees, state_repos, fs, facts, now);
    assert(out.repos == isort(m.repos, rlt));
    let k = choose|k: int| 0 <= k < out.repos.len() && out.repos[k] == m.repos[k0];
    assert(out.repos[k].alias == a && out.repos[k].git_common_dir == f.common_dir);
}

// ---------------------------------------------------------------------
// Targets stay distinct
// ---------------------------------------------------------------------

/// No two worktree records of one repo share a target.
pub open spec fn targets_distinct(ws: Seq<WorktreeRecordV>) -> bool {
    forall|i: int, j: int|
        0 <= i < ws.len() && 0 <= j < ws.len() && i != j && (#[trigger] ws[i]).repo_alias == (#[trigger] ws[j]).repo_alias
            ==> ws[i].target != ws[j].target
}

/// The stable sort keeps a property of every two elements at distinct
/// places.
pub proof fn lemma_isort_pairwise<T>(s: Seq<T>, lt: spec_fn(T, T) -> bool, p: spec_fn(T, T) -> bool)
    requires
        forall|i: int, j: int| 0 <= i < s.len() && 0 <= j < s.len() && i != j ==> p(#[trigger] s[i], #[trigger] s[j]),
    ensures
        forall|i: int, j: int|
            0 <= i < isort(s, lt).len() && 0 <= j < isort(s, lt).len() && i != j ==> p(
                #[trigger] isort(s, lt)[i],
                #[trigger] isort(s, lt)[j],
            ),
    decreases s.len(),
{
    if s.len() > 0 {
        let s1 = s.drop_last();
        assert forall|i: int, j: int| 0 <= i < s1.len() && 0 <= j < s1.len() && i != j implies p(
            #[trigger] s1[i],
            #[trigger] s1[j],
        ) by {
            assert(s1[i] == s[i] && s1[j] == s[j]);
        }
        lemma_isort_pairwise(s1, lt, p);
        lemma_isort_len(s1, lt);
        let r = isort(s1, lt);
        let x = s.last();
        let q = ins_pos(r, x, lt, 0);
        lemma_ins_pos_bound(r, x, lt, 0);
        let t = r.insert(q, x);
        assert(t == isort(s, lt));
        assert forall|i: int, j: int| 0 <= i < t.len() && 0 <= j < t.len() && i != j implies p(
            #[trigger] t[i],
            #[trigger] t[j],
        ) by {
            let ri = if i < q { i } else { i - 1 };
            let rj = if j < q { j } else { j - 1 };
            if i == q {
                assert(t[j] == r[rj]);
                assert(r.contains(r[rj]));
                lemma_isort_contains(s1, lt, r[rj]);
                let m = choose|m: int| 0 <= m < s1.len() && s1[m] == r[rj];
                assert(s[m] == s1[m]);
                assert(s[s.len() - 1] == x);
            } else if j == q {
                assert(t[i] == r[ri]);
                assert(r.contains(r[ri]));
                lemma_isort_contains(s1, lt, r[ri]);
                let m = choose|m: int| 0 <= m < s1.len() && s1[m] == r[ri];
                assert(s[m] == s1[m]);
                assert(s[s.len() - 1] == x);
            } else {
                assert(t[i] == r[ri] && t[j] == r[rj]);
            }
        }
    }
}

proof fn lemma_drop_alias_in(ws: Seq<WorktreeRecordV>, a: Seq<char>, y: WorktreeRecordV)
    requires
        drop_alias(ws, a).contains(y),
    ensures
        ws.contains(y),
        y.repo_alias != a,
    decreases ws.len(),
{
    if ws.len() > 0 {
        let d = drop_alias(ws.drop_last(), a);
        if d.contains(y) {
            lemma_drop_alias_in(ws.drop_last(), a, y);
            let m = choose|m: int| 0 <= m < ws.drop_last().len() && ws.drop_last()[m] == y;
            assert(ws[m] == y);
        } else {
            let k = choose|k: int| 0 <= k < drop_alias(ws, a).len() && drop_alias(ws, a)[k] == y;
            assert(ws.last().repo_alias != a);
            assert(drop_alias(ws, a) == d.push(ws.last()));
            assert(k == d.len());
            assert(ws[ws.len() - 1] == y);
        }
    }
}

proof fn lemma_drop_alias_distinct(ws: Seq<WorktreeRecordV>, a: Seq<char>)
    requires
        targets_distinct(ws),
    ensures
        targets_distinct(drop_alias(ws, a)),
    decreases ws.len(),
{
    if ws.len() > 0 {
        let w1 = ws.drop_last();
        assert forall|i: int, j: int|
            0 <= i < w1.len() && 0 <= j < w1.len() && i != j && (#[trigger] w1[i]).repo_alias == (#[trigger] w1[j]).repo_alias
                implies w1[i].target != w1[j].target by {
            assert(w1[i] == ws[i] && w1[j] == ws[j]);
        }
        lemma_drop_alias_distinct(w1, a);
        let d = drop_alias(w1, a);
        if ws.last().repo_alias != a {
            let t = d.push(ws.last());
            assert forall|i: int, j: int|
                0 <= i < t.len() && 0 <= j < t.len() && i != j && (#[trigger] t[i]).repo_alias == (#[trigger] t[j]).repo_alias
                    implies t[i].target != t[j].target by {
                if i == d.len() || j == d.len() {
                    let o = if i == d.len() { j } else { i };
                    assert(t[o] == d[o]);
                    assert(d.contains(d[o]));
                    lemma_drop_alias_in(w1, a, d[o]);
                    let m = choose|m: int| 0 <= m < w1.len() && w1[m] == d[o];
                    assert(ws[m] == d[o]);
                    assert(ws[ws.len() - 1] == ws.last());
                } else {
                    assert(t[i] == d[i] && t[j] == d[j]);
                }
            }
        }
    }
}

/// Merging one family keeps the targets of each repo distinct, and files
/// under the family's alias exactly its own records: one per worktree,
/// the main checkout `base`.
pub proof fn lemma_merge_one_targets(m: MergeModel, f: FamilyV, facts: PathFacts, now: i64)
    requires
        targets_distinct(m.worktrees),
    ensures
        targets_distinct(merge_one(m, f, facts, now).worktrees),
        merge_one(m, f, facts, now).worktrees.filter(|w: WorktreeRecordV| w.repo_alias == alias_for(m.repos, f))
            == family_records(f, alias_for(m.repos, f), m.worktrees, facts, now),
        family_records(f, alias_for(m.repos, f), m.worktrees, facts, now).len() == f.worktrees.len(),
        f.worktrees.len() > 0 ==> family_records(f, alias_for(m.repos, f), m.worktrees, facts, now)[0].target == "base"@,
{
    let a = alias_for(m.repos, f);
    let n = f.worktrees.len();
    let d = drop_alias(m.worktrees, a);
    let r = family_records(f, a, m.worktrees, facts, now);
    let t = d + r;
    lemma_drop_alias_distinct(m.worktrees, a);
    lemma_records_upto(f, a, m.worktrees, facts, now, n);
    lemma_family_targets_distinct(f, a, m.worktrees, facts, now, n);
    assert forall|i: int, j: int|
        0 <= i < t.len() && 0 <= j < t.len() && i != j && (#[trigger] t[i]).repo_alias == (#[trigger] t[j]).repo_alias
            implies t[i].target != t[j].target by {
        if i < d.len() && j < d.len() {
            assert(t[i] == d[i] && t[j] == d[j]);
        } else if i >= d.len() && j >= d.len() {
            assert(t[i] == r[i - d.len()] && t[j] == r[j - d.len()]);
            if i < j {
                assert(r[i - d.len()].target != r[j - d.len()].target);
            } else {
                assert(r[j - d.len()].target != r[i - d.len()].target);
            }
        } else {
            let o = if i < d.len() { i } else { j };
            let q = if i < d.len() { j } else { i };
            assert(t[o] == d[o]);
            assert(d.contains(d[o]));
            lemma_drop_alias_in(m.worktrees, a, d[o]);
            assert(t[q] == r[q - d.len()]);
        }
    }
    let pa = |w: WorktreeRecordV| w.repo_alias == a;
    lemma_drop_alias_none(m.worktrees, a);
    Seq::filter_distributes_over_add(d, r, pa);
    lemma_filter_all(r, pa);
}

proof fn lemma_drop_alias_none(ws: Seq<WorktreeRecordV>, a: Seq<char>)
    ensures
        drop_alias(ws, a).filter(|w: WorktreeRecordV| w.repo_alias == a) == Seq::<WorktreeRecordV>::empty(),
    decreases ws.len(),
{
    reveal(Seq::filter);
    if ws.len() > 0 {
        lemma_drop_alias_none(ws.drop_last(), a);
        let d = drop_alias(ws.drop_last(), a);
        if ws.last().repo_alias != a {
            assert(d.push(ws.last()).drop_last() =~= d);
        }
    }
    assert(drop_alias(ws, a).filter(|w: WorktreeRecordV| w.repo_alias == a) =~= Seq::<WorktreeRecordV>::empty());
}

proof fn lemma_filter_all(r: Seq<WorktreeRecordV>, p: spec_fn(WorktreeRecordV) -> bool)
    requires
        forall|i: int| 0 <= i < r.len() ==> p(#[trigger] r[i]),
    ensures
        r.filter(p) == r,
    decreases r.len(),
{
    reveal(Seq::filter);
    if r.len() > 0 {
        assert forall|i: int| 0 <= i < r.drop_last().len() implies p(#[trigger] r.drop_last()[i]) by {
            assert(r.drop_last()[i] == r[i]);
        }
        lemma_filter_all(r.drop_last(), p);
        assert(p(r[r.len() - 1]));
        assert(r.drop_last().push(r.last()) =~= r);
    }
}

proof fn lemma_fold_targets(m: MergeModel, fs: Seq<FamilyV>, facts: PathFacts, now: i64)
    requires
        targets_distinct(m.worktrees),
    ensures
        targets_distinct(merge_fold(m, fs, facts, now).worktrees),
    decreases fs.len(),
{
    if fs.len() > 0 {
        lemma_fold_targets(m, fs.drop_last(), facts, now);
        lemma_merge_one_targets(merge_fold(m, fs.drop_last(), facts, now), fs.last(), facts, now);
    }
}

/// A merge never files two worktrees of one repo under the same target,
/// when the cache did not.
pub proof fn lemma_merge_targets_distinct(
    repos: Seq<RepoRecordV>,
    worktrees: Seq<WorktreeRecordV>,
    state_repos: Seq<(Seq<char>, RepoStateV)>,
    fs: Seq<FamilyV>,
    facts: PathFacts,
    now: i64,
)
    requires
        targets_distinct(worktrees),
    ensures
        targets_distinct(merged(repos, worktrees, state_repos, fs, facts, now).worktrees),
{
    let m0 = MergeModel {
        repos: refresh_repos(repos, facts),
        worktrees: refresh_worktrees(worktrees, facts),
        state_repos,
    };
    let w0 = m0.worktrees;
    assert forall|i: int, j: int|
        0 <= i < w0.len() && 0 <= j < w0.len() && i != j && (#[trigger] w0[i]).repo_alias == (#[trigger] w0[j]).repo_alias
            implies w0[i].target != w0[j].target by {
        assert(worktrees[i].repo_alias == w0[i].repo_alias && worktrees[j].repo_alias == w0[j].repo_alias);
    }
    lemma_fold_targets(m0, fs, facts, now);
    let m = merge_fold(m0, fs, facts, now);
    let p = |x: WorktreeRecordV, y: WorktreeRecordV| x.repo_alias == y.repo_alias ==> x.target != y.target;
    let wlt = |x: WorktreeRecordV, y: WorktreeRecordV| worktree_lt(x, y);
    assert forall|i: int, j: int| 0 <= i < m.worktrees.len() && 0 <= j < m.worktrees.len() && i != j implies p(
        #[trigger] m.worktrees[i],
        #[trigger] m.worktrees[j],
    ) by {
    }
    lemma_isort_pairwise(m.worktrees, wlt, p);
    let out = isort(m.worktrees, wlt);
    assert forall|i: int, j: int|
        0 <= i < out.len() && 0 <= j < out.len() && i != j && (#[trigger] out[i]).repo_alias == (#[trigger] out[j]).repo_alias
            implies out[i].target != out[j].target by {
        assert(p(out[i], out[j]));
    }
}

} // verus!
