//! Ignoring a repo: it leaves the cache and the state, and discovery skips
//! it until it is unignored.

use vstd::prelude::*;

use crate::domain::{
    copy_opt_string, ignored_views, repo_state_views, repo_views, session_views, Cache, IgnoredRepo, IgnoredRepoV,
    RepoRecord, RepoRecordV, RepoState, RepoStateV, SessionRecord, SessionRecordV, State, WorktreeRecord,
    string_views,
};
use crate::error::AppError;
use crate::resolver::{repo_error_is, spec_resolve_repo, Resolver};
use crate::paths::{path_same, same_path};
use crate::text::str_eq;

verus! {

/// Whether a repo at `canonical_path` with `common_dir` is ignored.
pub open spec fn spec_is_ignored(ignored: Seq<IgnoredRepoV>, canonical_path: Seq<char>, common_dir: Seq<char>) -> bool {
    exists|i: int|
        0 <= i < ignored.len() && (path_same((#[trigger] ignored[i]).git_common_dir, common_dir) || path_same(
            ignored[i].canonical_path,
            canonical_path,
        ))
}

/// Whether the repo is ignored; `canonical_path` is taken as canonical.
pub fn is_ignored(state: &State, canonical_path: &str, common_dir: &str) -> (r: bool)
    ensures
        r == spec_is_ignored(ignored_views(state.ignored_repos@), canonical_path@, common_dir@),
{
    let ghost iv = ignored_views(state.ignored_repos@);
    let mut i: usize = 0;
    while i < state.ignored_repos.len()
        invariant
            iv == ignored_views(state.ignored_repos@),
            i <= iv.len(),
            forall|j: int| 0 <= j < i ==> !(path_same((#[trigger] iv[j]).git_common_dir, common_dir@) || path_same(
                iv[j].canonical_path,
                canonical_path@,
            )),
        decreases iv.len() - i,
    {
        let e = &state.ignored_repos[i];
        assert(iv[i as int] == e@);
        if same_path(e.git_common_dir.as_str(), common_dir) || same_path(e.canonical_path.as_str(), canonical_path) {
            return true;
        }
        i = i + 1;
    }
    false
}

/// The alias of the first cached repo with `common_dir`.
pub open spec fn alias_of_common(rs: Seq<RepoRecordV>, common_dir: Seq<char>) -> Option<Seq<char>>
    decreases rs.len(),
{
    if rs.len() == 0 {
        None
    } else if path_same(rs[0].git_common_dir, common_dir) {
        Some(rs[0].alias)
    } else {
        alias_of_common(rs.drop_first(), common_dir)
    }
}

fn find_alias_of_common(rs: &Vec<RepoRecord>, common_dir: &str) -> (r: Option<String>)
    ensures
        match alias_of_common(repo_views(rs@), common_dir@) {
            Some(a) => r matches Some(x) && x@ == a,
            None => r is None,
        },
{
    let ghost rv = repo_views(rs@);
    let mut i: usize = 0;
    assert(rv.skip(0) =~= rv);
    while i < rs.len()
        invariant
            rv == repo_views(rs@),
            i <= rs@.len(),
            alias_of_common(rv, common_dir@) == alias_of_common(rv.skip(i as int), common_dir@),
        decreases rs@.len() - i,
    {
        assert(rv.skip(i as int)[0] == rs@[i as int]@);
        if same_path(rs[i].git_common_dir.as_str(), common_dir) {
            return Some(rs[i].alias.clone());
        }
        assert(rv.skip(i as int).drop_first() =~= rv.skip(i + 1));
        i = i + 1;
    }
    None
}

/// What a repo is ignored as: when the input is a repo on disk, by its
/// common directory (with the alias the cache knows it by); otherwise the
/// input must name a cached repo.
pub fn ignore_entry(cache: &Cache, input: &str, verified: Option<(&str, &str)>) -> (r: Result<IgnoredRepo, AppError>)
    ensures
        match verified {
            Some((top, common)) => r matches Ok(e) && e@ == (IgnoredRepoV {
                alias: alias_of_common(repo_views(cache.repos@), common@),
                canonical_path: top@,
                git_common_dir: common@,
            }),
            None => match spec_resolve_repo(repo_views(cache.repos@), input@) {
                Ok(rec) => r matches Ok(e) && e@ == (IgnoredRepoV {
                    alias: Some(rec.alias),
                    canonical_path: rec.canonical_path,
                    git_common_dir: rec.git_common_dir,
                }),
                Err((code, text)) => r matches Err(e) && repo_error_is(e, code, text, input@),
            },
        },
{
    match verified {
        Some((top, common)) => Ok(
            IgnoredRepo {
                alias: find_alias_of_common(&cache.repos, common),
                canonical_path: top.to_owned(),
                git_common_dir: common.to_owned(),
            },
        ),
        None => {
            let resolver = Resolver::new(cache.duplicate());
            match resolver.resolve_repo(input) {
                Ok(rec) => Ok(IgnoredRepo { alias: Some(rec.alias), canonical_path: rec.canonical_path, git_common_dir: rec.git_common_dir }),
                Err(e) => Err(e),
            }
        },
    }
}

/// The common directory of the first cached repo with alias `a`.
pub open spec fn common_of_alias(rs: Seq<RepoRecordV>, a: Seq<char>) -> Option<Seq<char>>
    decreases rs.len(),
{
    if rs.len() == 0 {
        None
    } else if rs[0].alias == a {
        Some(rs[0].git_common_dir)
    } else {
        common_of_alias(rs.drop_first(), a)
    }
}

fn find_common_of_alias(rs: &Vec<RepoRecord>, a: &str) -> (r: Option<usize>)
    ensures
        match common_of_alias(repo_views(rs@), a@) {
            Some(c) => r matches Some(i) && i < rs@.len() && rs@[i as int]@.git_common_dir == c,
            None => r is None,
        },
{
    let ghost rv = repo_views(rs@);
    let mut i: usize = 0;
    assert(rv.skip(0) =~= rv);
    while i < rs.len()
        invariant
            rv == repo_views(rs@),
            i <= rs@.len(),
            common_of_alias(rv, a@) == common_of_alias(rv.skip(i as int), a@),
        decreases rs@.len() - i,
    {
        assert(rv.skip(i as int)[0] == rs@[i as int]@);
        if str_eq(rs[i].alias.as_str(), a) {
            return Some(i);
        }
        assert(rv.skip(i as int).drop_first() =~= rv.skip(i + 1));
        i = i + 1;
    }
    None
}

/// Whether a record belongs to a repo other than the ignored one, as
/// looked up by alias in `rs`: one whose repo is not found is kept.
pub open spec fn kept_by_alias(rs: Seq<RepoRecordV>, alias: Seq<char>, common_dir: Seq<char>) -> bool {
    match common_of_alias(rs, alias) {
        Some(c) => !path_same(c, common_dir),
        None => true,
    }
}

/// The cache and state after ignoring `e`: the entry is recorded unless
/// one with its common directory already is; its path stops being
/// adopted; its repo leaves the state's repos and the cache; the sessions
/// of its repo are dropped; and so are its worktrees: each worktree is
/// kept unless the cache, as it was, names its alias with that common
/// directory.
pub open spec fn ignored_state_ok(old_state: State, new_state: State, old_cache: Cache, new_cache: Cache, e: IgnoredRepoV) -> bool {
    let cd = e.git_common_dir;
    let kept_repos = old_cache.repos@.filter(|r: RepoRecord| !path_same(r@.git_common_dir, cd));
    &&& ignored_views(new_state.ignored_repos@) == if exists|i: int|
        0 <= i < old_state.ignored_repos@.len() && path_same((#[trigger] old_state.ignored_repos@[i])@.git_common_dir, cd) {
        ignored_views(old_state.ignored_repos@)
    } else {
        ignored_views(old_state.ignored_repos@).push(e)
    }
    &&& string_views(new_state.adopted_paths@) == string_views(old_state.adopted_paths@).filter(
        |p: Seq<char>| !path_same(p, e.canonical_path),
    )
    &&& repo_state_views(new_state.repos@) == repo_state_views(old_state.repos@).filter(
        |p: (Seq<char>, RepoStateV)| !path_same(p.1.git_common_dir, cd),
    )
    &&& session_views(new_state.sessions@) == session_views(old_state.sessions@).filter(
        |s: SessionRecordV| kept_by_alias(repo_views(old_cache.repos@), s.repo_alias, cd),
    )
    &&& new_state.schema_version == old_state.schema_version
    &&& new_cache.repos@ == kept_repos
    &&& new_cache.worktrees@ == old_cache.worktrees@.filter(
        |w: WorktreeRecord| kept_by_alias(repo_views(old_cache.repos@), w@.repo_alias, cd),
    )
    &&& new_cache.schema_version == old_cache.schema_version
    &&& new_cache.last_scan_unix == old_cache.last_scan_unix
}

fn dup_repo_state(p: &(String, RepoState)) -> (r: (String, RepoState))
    ensures
        (r.0@, r.1@) == (p.0@, p.1@),
{
    (
        p.0.clone(),
        RepoState {
            alias: p.1.alias.clone(),
            canonical_path: p.1.canonical_path.clone(),
            git_common_dir: p.1.git_common_dir.clone(),
            base_branch: copy_opt_string(&p.1.base_branch),
            source: p.1.source,
        },
    )
}

/// Ignores the repo `e` describes.
pub fn apply_ignore(state: &mut State, cache: &mut Cache, e: &IgnoredRepo)
    ensures
        ignored_state_ok(*old(state), *final(state), *old(cache), *final(cache), e@),
{
    let cd = e.git_common_dir.as_str();
    // the ignored entries
    let mut known = false;
    let mut i: usize = 0;
    while i < state.ignored_repos.len()
        invariant
            i <= state.ignored_repos@.len(),
            state.ignored_repos@ == old(state).ignored_repos@,
            known == exists|j: int| 0 <= j < i && path_same((#[trigger] state.ignored_repos@[j])@.git_common_dir, cd@),
        decreases state.ignored_repos@.len() - i,
    {
        if same_path(state.ignored_repos[i].git_common_dir.as_str(), cd) {
            known = true;
        }
        i = i + 1;
    }
    if !known {
        let ghost before = ignored_views(state.ignored_repos@);
        state.ignored_repos.push(e.duplicate());
        assert(ignored_views(state.ignored_repos@) =~= before.push(e@));
    }
    // adopted paths
    let ghost ap = string_views(state.adopted_paths@);
    let ghost keep_path = |p: Seq<char>| !path_same(p, e@.canonical_path);
    let mut adopted: Vec<String> = Vec::new();
    let mut k: usize = 0;
    while k < state.adopted_paths.len()
        invariant
            ap == string_views(state.adopted_paths@),
            keep_path == (|p: Seq<char>| !path_same(p, e@.canonical_path)),
            k <= ap.len(),
            string_views(adopted@) == ap.take(k as int).filter(keep_path),
        decreases ap.len() - k,
    {
        let p = &state.adopted_paths[k];
        let keep = !same_path(p.as_str(), e.canonical_path.as_str());
        let ghost before = string_views(adopted@);
        if keep {
            adopted.push(p.clone());
        }
        proof {
            reveal(Seq::filter);
            let pre = ap.take(k + 1);
            assert(pre.drop_last() =~= ap.take(k as int));
            assert(pre.last() == p@);
            if keep {
                assert(string_views(adopted@) =~= before.push(p@));
            } else {
                assert(string_views(adopted@) =~= before);
            }
        }
        k = k + 1;
    }
    assert(ap.take(ap.len() as int) =~= ap);
    state.adopted_paths = adopted;
    // repos in the state
    let ghost sr = repo_state_views(state.repos@);
    let ghost keep_state = |p: (Seq<char>, RepoStateV)| !path_same(p.1.git_common_dir, cd@);
    let mut repos_state: Vec<(String, RepoState)> = Vec::new();
    let mut m: usize = 0;
    while m < state.repos.len()
        invariant
            sr == repo_state_views(state.repos@),
            keep_state == (|p: (Seq<char>, RepoStateV)| !path_same(p.1.git_common_dir, cd@)),
            m <= sr.len(),
            repo_state_views(repos_state@) == sr.take(m as int).filter(keep_state),
        decreases sr.len() - m,
    {
        let p = &state.repos[m];
        let keep = !same_path(p.1.git_common_dir.as_str(), cd);
        let ghost before = repo_state_views(repos_state@);
        if keep {
            repos_state.push(dup_repo_state(p));
        }
        proof {
            reveal(Seq::filter);
            let pre = sr.take(m + 1);
            assert(pre.drop_last() =~= sr.take(m as int));
            assert(pre.last() == (p.0@, p.1@));
            if keep {
                assert(repo_state_views(repos_state@) =~= before.push((p.0@, p.1@)));
            } else {
                assert(repo_state_views(repos_state@) =~= before);
            }
        }
        m = m + 1;
    }
    assert(sr.take(sr.len() as int) =~= sr);
    state.repos = repos_state;
    // sessions, by the repos as they were
    let ghost sv = session_views(state.sessions@);
    let ghost rv0 = repo_views(cache.repos@);
    let ghost keep_session = |s: SessionRecordV| kept_by_alias(rv0, s.repo_alias, cd@);
    let mut sessions: Vec<SessionRecord> = Vec::new();
    let mut n: usize = 0;
    while n < state.sessions.len()
        invariant
            sv == session_views(state.sessions@),
            rv0 == repo_views(cache.repos@),
            keep_session == (|s: SessionRecordV| kept_by_alias(rv0, s.repo_alias, cd@)),
            n <= sv.len(),
            session_views(sessions@) == sv.take(n as int).filter(keep_session),
        decreases sv.len() - n,
    {
        let s = &state.sessions[n];
        let keep = match find_common_of_alias(&cache.repos, s.repo_alias.as_str()) {
            Some(j) => !same_path(cache.repos[j].git_common_dir.as_str(), cd),
            None => true,
        };
        let ghost before = session_views(sessions@);
        if keep {
            let d = s.duplicate();
            assert(d@ == s@) by {
                assert(d@.command =~= s@.command);
            }
            sessions.push(d);
        }
        proof {
            reveal(Seq::filter);
            let pre = sv.take(n + 1);
            assert(pre.drop_last() =~= sv.take(n as int));
            assert(pre.last() == s@);
            if keep {
                assert(session_views(sessions@) =~= before.push(s@));
            } else {
                assert(session_views(sessions@) =~= before);
            }
        }
        n = n + 1;
    }
    assert(sv.take(sv.len() as int) =~= sv);
    state.sessions = sessions;
    // worktrees, by the repos as they were
    let ghost cw = cache.worktrees@;
    let ghost rv1 = repo_views(cache.repos@);
    let ghost keep_wt = |w: WorktreeRecord| kept_by_alias(rv1, w@.repo_alias, cd@);
    let mut worktrees: Vec<WorktreeRecord> = Vec::new();
    let mut t: usize = 0;
    while t < cache.worktrees.len()
        invariant
            cw == cache.worktrees@,
            rv1 == repo_views(cache.repos@),
            keep_wt == (|w: WorktreeRecord| kept_by_alias(rv1, w@.repo_alias, cd@)),
            t <= cw.len(),
            worktrees@ == cw.take(t as int).filter(keep_wt),
        decreases cw.len() - t,
    {
        let w = &cache.worktrees[t];
        let keep = match find_common_of_alias(&cache.repos, w.repo_alias.as_str()) {
            Some(j) => !same_path(cache.repos[j].git_common_dir.as_str(), cd),
            None => true,
        };
        if keep {
            worktrees.push(w.duplicate());
        }
        proof {
            reveal(Seq::filter);
            let pre = cw.take(t + 1);
            assert(pre.drop_last() =~= cw.take(t as int));
            assert(pre.last() == *w);
        }
        t = t + 1;
    }
    assert(cw.take(cw.len() as int) =~= cw);
    cache.worktrees = worktrees;
    // repos in the cache
    let ghost cr = cache.repos@;
    let ghost keep_repo = |r: RepoRecord| !path_same(r@.git_common_dir, cd@);
    let mut repos: Vec<RepoRecord> = Vec::new();
    let mut q: usize = 0;
    while q < cache.repos.len()
        invariant
            cr == cache.repos@,
            keep_repo == (|r: RepoRecord| !path_same(r@.git_common_dir, cd@)),
            q <= cr.len(),
            repos@ == cr.take(q as int).filter(keep_repo),
        decreases cr.len() - q,
    {
        let r = &cache.repos[q];
        let keep = !same_path(r.git_common_dir.as_str(), cd);
        if keep {
            repos.push(r.duplicate());
        }
        proof {
            reveal(Seq::filter);
            let pre = cr.take(q + 1);
            assert(pre.drop_last() =~= cr.take(q as int));
            assert(pre.last() == *r);
        }
        q = q + 1;
    }
    assert(cr.take(cr.len() as int) =~= cr);
    cache.repos = repos;
}

/// What `ignore` prints.
pub fn ignored_message(e: &IgnoredRepo) -> (r: String)
    ensures
        r@ == "ignored "@ + e.canonical_path@ + "\n"@,
{
    let mut m = "ignored ".to_owned();
    m.append(e.canonical_path.as_str());
    m.append("\n");
    m
}

/// Whether an ignored entry answers to an unignore of `input`: by its
/// path, by the common directory of the repo at `input`, or by its alias.
pub open spec fn unignore_matches(e: IgnoredRepoV, canonical_input: Seq<char>, lookup: Option<Seq<char>>, input: Seq<char>) -> bool {
    path_same(e.canonical_path, canonical_input) || (lookup matches Some(l) && path_same(e.git_common_dir, l))
        || e.alias == Some(input)
}

/// Forgets every ignored entry that answers to `input`; fails when none
/// does.  `canonical_input` is `input` made canonical and `lookup` the
/// common directory of the repo at `input`, when it is one.
pub fn apply_unignore(state: &mut State, canonical_input: &str, lookup: Option<&str>, input: &str) -> (r: Result<String, AppError>)
    ensures
        ({
            let lk = match lookup {
                Some(l) => Some(l@),
                None => None,
            };
            let left = unignore_left(ignored_views(old(state).ignored_repos@), canonical_input@, lk, input@);
            &&& ignored_views(final(state).ignored_repos@) == left
            &&& final(state).adopted_paths@ == old(state).adopted_paths@
            &&& final(state).repos@ == old(state).repos@
            &&& final(state).sessions@ == old(state).sessions@
            &&& final(state).schema_version == old(state).schema_version
            &&& if left.len() == old(state).ignored_repos@.len() {
                r matches Err(AppError::InvalidCommand(m)) && m@ == "ignored repo `"@ + input@ + "` was not found"@
            } else {
                r matches Ok(m) && m@ == "unignored "@ + input@ + "\n"@
            }
        }),
{
    let ghost lk = match lookup {
        Some(l) => Some(l@),
        None => None,
    };
    let ghost iv = ignored_views(state.ignored_repos@);
    let ghost keep = |e: IgnoredRepoV| !unignore_matches(e, canonical_input@, lk, input@);
    let mut left: Vec<IgnoredRepo> = Vec::new();
    let mut i: usize = 0;
    while i < state.ignored_repos.len()
        invariant
            iv == ignored_views(state.ignored_repos@),
            keep == (|e: IgnoredRepoV| !unignore_matches(e, canonical_input@, lk, input@)),
            lk == match lookup {
                Some(l) => Some(l@),
                None => None,
            },
            i <= iv.len(),
            ignored_views(left@) == iv.take(i as int).filter(keep),
        decreases iv.len() - i,
    {
        let e = &state.ignored_repos[i];
        let path_match = same_path(e.canonical_path.as_str(), canonical_input);
        let common_match = match lookup {
            Some(l) => same_path(e.git_common_dir.as_str(), l),
            None => false,
        };
        let alias_match = match &e.alias {
            Some(a) => str_eq(a.as_str(), input),
            None => false,
        };
        let ghost before = ignored_views(left@);
        if !(path_match || common_match || alias_match) {
            left.push(e.duplicate());
        }
        proof {
            reveal(Seq::filter);
            let pre = iv.take(i + 1);
            assert(pre.drop_last() =~= iv.take(i as int));
            assert(pre.last() == e@);
            assert((path_match || common_match || alias_match) == unignore_matches(e@, canonical_input@, lk, input@));
            if !(path_match || common_match || alias_match) {
                assert(ignored_views(left@) =~= before.push(e@));
            } else {
                assert(ignored_views(left@) =~= before);
            }
        }
        i = i + 1;
    }
    assert(iv.take(iv.len() as int) =~= iv);
    let unchanged = left.len() == state.ignored_repos.len();
    state.ignored_repos = left;
    if unchanged {
        let mut m = "ignored repo `".to_owned();
        m.append(input);
        m.append("` was not found");
        Err(AppError::InvalidCommand(m))
    } else {
        let mut m = "unignored ".to_owned();
        m.append(input);
        m.append("\n");
        Ok(m)
    }
}

/// An ignored repo stays ignored: after ignoring `e`, a repo at its path
/// or with its common directory is ignored.
pub proof fn lemma_ignore_blocks(old_state: State, new_state: State, old_cache: Cache, new_cache: Cache, e: IgnoredRepoV)
    requires
        ignored_state_ok(old_state, new_state, old_cache, new_cache, e),
    ensures
        spec_is_ignored(ignored_views(new_state.ignored_repos@), e.canonical_path, e.git_common_dir),
{
    let ov = ignored_views(old_state.ignored_repos@);
    if exists|i: int|
        0 <= i < old_state.ignored_repos@.len() && path_same((#[trigger] old_state.ignored_repos@[i])@.git_common_dir, e.git_common_dir)
    {
        let i = choose|i: int|
            0 <= i < old_state.ignored_repos@.len() && path_same(
                (#[trigger] old_state.ignored_repos@[i])@.git_common_dir,
                e.git_common_dir,
            );
        assert(ov[i] == old_state.ignored_repos@[i]@);
    } else {
        assert(ignored_views(new_state.ignored_repos@)[ov.len() as int] == e);
    }
}

proof fn lemma_common_of_alias_at(rs: Seq<RepoRecordV>, k: int)
    requires
        0 <= k < rs.len(),
        forall|i: int, j: int| 0 <= i < j < rs.len() ==> (#[trigger] rs[i]).alias != (#[trigger] rs[j]).alias,
    ensures
        common_of_alias(rs, rs[k].alias) == Some(rs[k].git_common_dir),
    decreases k,
{
    if k > 0 {
        let t = rs.drop_first();
        assert(rs[0].alias != rs[k].alias);
        assert forall|i: int, j: int| 0 <= i < j < t.len() implies (#[trigger] t[i]).alias != (#[trigger] t[j]).alias by {
            assert(t[i] == rs[i + 1] && t[j] == rs[j + 1]);
        }
        assert(t[k - 1] == rs[k]);
        lemma_common_of_alias_at(t, k - 1);
    }
}

/// Ignoring a repo hides it: afterwards no cached repo and no repo in the
/// state has its common directory, and, when the cached aliases are
/// distinct, no cached worktree is filed under the alias of a repo that had
/// it.
pub proof fn lemma_ignore_removes_repo(old_state: State, new_state: State, old_cache: Cache, new_cache: Cache, e: IgnoredRepoV)
    requires
        ignored_state_ok(old_state, new_state, old_cache, new_cache, e),
    ensures
        forall|i: int| 0 <= i < new_cache.repos@.len() ==> !path_same(#[trigger] new_cache.repos@[i]@.git_common_dir, e.git_common_dir),
        forall|i: int|
            0 <= i < new_state.repos@.len() ==> !path_same(
                #[trigger] repo_state_views(new_state.repos@)[i].1.git_common_dir,
                e.git_common_dir,
            ),
        (forall|i: int, j: int|
            0 <= i < j < old_cache.repos@.len() ==> (#[trigger] old_cache.repos@[i])@.alias != (#[trigger] old_cache.repos@[j])@.alias)
            ==> forall|k: int, w: int|
            0 <= k < old_cache.repos@.len() && path_same(old_cache.repos@[k]@.git_common_dir, e.git_common_dir) && 0 <= w
                < new_cache.worktrees@.len() ==> (#[trigger] new_cache.worktrees@[w])@.repo_alias != (#[trigger] old_cache.repos@[k])@.alias,
{
    let cd = e.git_common_dir;
    let keep_repo = |r: RepoRecord| !path_same(r@.git_common_dir, cd);
    assert forall|i: int| 0 <= i < new_cache.repos@.len() implies !path_same(#[trigger] new_cache.repos@[i]@.git_common_dir, cd) by {
        old_cache.repos@.lemma_filter_pred(keep_repo, i);
    }
    let keep_state = |p: (Seq<char>, RepoStateV)| !path_same(p.1.git_common_dir, cd);
    assert forall|i: int| 0 <= i < new_state.repos@.len() implies !path_same(
        #[trigger] repo_state_views(new_state.repos@)[i].1.git_common_dir,
        cd,
    ) by {
        repo_state_views(old_state.repos@).lemma_filter_pred(keep_state, i);
    }
    let rv = repo_views(old_cache.repos@);
    let keep_wt = |w: WorktreeRecord| kept_by_alias(rv, w@.repo_alias, cd);
    if forall|i: int, j: int|
        0 <= i < j < old_cache.repos@.len() ==> (#[trigger] old_cache.repos@[i])@.alias != (#[trigger] old_cache.repos@[j])@.alias {
        assert forall|i: int, j: int| 0 <= i < j < rv.len() implies (#[trigger] rv[i]).alias != (#[trigger] rv[j]).alias by {
            assert(rv[i] == old_cache.repos@[i]@ && rv[j] == old_cache.repos@[j]@);
        }
        assert forall|k: int, w: int|
            0 <= k < old_cache.repos@.len() && path_same(old_cache.repos@[k]@.git_common_dir, cd) && 0 <= w
                < new_cache.worktrees@.len() implies (#[trigger] new_cache.worktrees@[w])@.repo_alias != (#[trigger] old_cache.repos@[k])@.alias by {
            old_cache.worktrees@.lemma_filter_pred(keep_wt, w);
            assert(rv[k] == old_cache.repos@[k]@);
            lemma_common_of_alias_at(rv, k);
        }
    }
}

/// Unignoring by a repo's path lifts the ignore: afterwards no entry has
/// that path or, when the path is a repo, its common directory.
pub proof fn lemma_unignore_lifts(ignored: Seq<IgnoredRepoV>, canonical_input: Seq<char>, lookup: Seq<char>, input: Seq<char>)
    ensures
        !spec_is_ignored(
            ignored.filter(|e: IgnoredRepoV| !unignore_matches(e, canonical_input, Some(lookup), input)),
            canonical_input,
            lookup,
        ),
{
    let pred = |e: IgnoredRepoV| !unignore_matches(e, canonical_input, Some(lookup), input);
    let left = ignored.filter(pred);
    assert forall|i: int| 0 <= i < left.len() implies !(path_same((#[trigger] left[i]).git_common_dir, lookup) || path_same(
        left[i].canonical_path,
        canonical_input,
    )) by {
        ignored.lemma_filter_pred(pred, i);
    }
}

proof fn lemma_filter_keeps_all<T>(s: Seq<T>, p: spec_fn(T) -> bool)
    ensures
        s.filter(p).len() == s.len() <==> forall|i: int| 0 <= i < s.len() ==> p(#[trigger] s[i]),
        (forall|i: int| 0 <= i < s.len() ==> p(#[trigger] s[i])) ==> s.filter(p) == s,
    decreases s.len(),
{
    reveal(Seq::filter);
    if s.len() > 0 {
        lemma_filter_keeps_all(s.drop_last(), p);
        s.drop_last().lemma_filter_len(p);
        if forall|i: int| 0 <= i < s.len() ==> p(#[trigger] s[i]) {
            assert forall|i: int| 0 <= i < s.drop_last().len() implies p(#[trigger] s.drop_last()[i]) by {
                assert(s.drop_last()[i] == s[i]);
            }
            assert(s.drop_last().push(s.last()) =~= s);
        }
        if s.filter(p).len() == s.len() {
            assert forall|i: int| 0 <= i < s.len() implies p(#[trigger] s[i]) by {
                if i < s.len() - 1 {
                    assert(s.drop_last()[i] == s[i]);
                }
            }
        }
    }
}

/// The ignored entries that do not answer to the input.
pub open spec fn unignore_left(
    ignored: Seq<IgnoredRepoV>,
    canonical_input: Seq<char>,
    lookup: Option<Seq<char>>,
    input: Seq<char>,
) -> Seq<IgnoredRepoV> {
    ignored.filter(|e: IgnoredRepoV| !unignore_matches(e, canonical_input, lookup, input))
}

/// Unignoring is refused exactly when no ignored entry answers to the
/// input (by its canonical path, its repo's common directory, or its
/// alias), and the list is then left as it was; otherwise exactly the
/// entries that answer to it are forgotten.
pub proof fn lemma_unignore_refused_iff_unknown(
    ignored: Seq<IgnoredRepoV>,
    canonical_input: Seq<char>,
    lookup: Option<Seq<char>>,
    input: Seq<char>,
)
    ensures
        unignore_left(ignored, canonical_input, lookup, input).len() == ignored.len() <==> forall|i: int|
            0 <= i < ignored.len() ==> !unignore_matches(#[trigger] ignored[i], canonical_input, lookup, input),
        (forall|i: int| 0 <= i < ignored.len() ==> !unignore_matches(#[trigger] ignored[i], canonical_input, lookup, input))
            ==> unignore_left(ignored, canonical_input, lookup, input) == ignored,
        forall|e: IgnoredRepoV|
            #[trigger] unignore_left(ignored, canonical_input, lookup, input).contains(e) <==> ignored.contains(e)
                && !unignore_matches(e, canonical_input, lookup, input),
{
    let p = |e: IgnoredRepoV| !unignore_matches(e, canonical_input, lookup, input);
    lemma_filter_keeps_all(ignored, p);
    assert forall|e: IgnoredRepoV| #[trigger] ignored.filter(p).contains(e) <==> ignored.contains(e) && p(e) by {
        if ignored.contains(e) && p(e) {
            let i = choose|i: int| 0 <= i < ignored.len() && ignored[i] == e;
            ignored.lemma_filter_contains(p, i);
        }
        if ignored.filter(p).contains(e) {
            ignored.lemma_filter_contains_rev(p, e);
            let k = choose|k: int| 0 <= k < ignored.filter(p).len() && ignored.filter(p)[k] == e;
            ignored.lemma_filter_pred(p, k);
        }
    }
}

} // verus!
