//! Discovery around the merge of families: which repos a scan takes,
//! how a family is described, the adopted paths, and the plain listing.

use vstd::prelude::*;

use crate::discovery::{Family, FamilyV};
use crate::domain::{
    ignored_views, repo_views, string_views, worktree_views, Cache, Config, RepoRecordV, RepoSource, State,
    WorktreeRecordV,
};
use crate::error::AppError;
use crate::facts::PathFacts;
use crate::git::{entry_views, opt_view, EntryView, GitRepository, GitWorktreeEntry};
use crate::ignore::{is_ignored, spec_is_ignored};
use crate::paths::{file_name, join_path, path_file_name, path_join, path_same, same_path};
use crate::text::{dec, push_decimal, str_eq};

verus! {

/// A repo family as `git worktree list` describes it: its main checkout
/// (the first worktree listed, else the top level) made canonical, named
/// after that checkout's directory (`repo` when it has no name), with the
/// main checkout's branch as its base.
pub open spec fn spec_family(top: Seq<char>, common: Seq<char>, es: Seq<EntryView>, source: RepoSource, facts: PathFacts) -> FamilyV {
    let main = facts.canon(if es.len() > 0 { es[0].path } else { top });
    FamilyV {
        common_dir: common,
        canonical_path: main,
        display_name: match file_name(main) {
            Some(n) => n,
            None => "repo"@,
        },
        base_branch: if es.len() > 0 { es[0].branch } else { None },
        source,
        worktrees: es,
    }
}

fn copy_entries(v: &Vec<GitWorktreeEntry>) -> (r: Vec<GitWorktreeEntry>)
    ensures
        entry_views(r@) == entry_views(v@),
{
    let mut r: Vec<GitWorktreeEntry> = Vec::new();
    let mut i: usize = 0;
    while i < v.len()
        invariant
            i <= v@.len(),
            entry_views(r@) == entry_views(v@).take(i as int),
        decreases v@.len() - i,
    {
        let e = &v[i];
        let d = GitWorktreeEntry {
            path: e.path.clone(),
            head: crate::domain::copy_opt_string(&e.head),
            branch: crate::domain::copy_opt_string(&e.branch),
            detached: e.detached,
            bare: e.bare,
        };
        assert(d@ == e@);
        let ghost before = entry_views(r@);
        r.push(d);
        assert(entry_views(r@) =~= before.push(e@));
        assert(entry_views(v@).take(i + 1) =~= entry_views(v@).take(i as int).push(e@));
        i = i + 1;
    }
    assert(entry_views(v@).take(v@.len() as int) =~= entry_views(v@));
    r
}

/// Describes the family of the repo `root`, whose worktrees are `entries`.
pub fn family_from(root: &GitRepository, entries: &Vec<GitWorktreeEntry>, source: RepoSource, facts: &PathFacts) -> (r: Family)
    ensures
        r@ == spec_family(root.top_level@, root.common_dir@, entry_views(entries@), source, *facts),
{
    let main = if entries.len() > 0 {
        assert(entry_views(entries@)[0] == entries@[0]@);
        facts.canonical_of(entries[0].path.as_str())
    } else {
        facts.canonical_of(root.top_level.as_str())
    };
    let display_name = match path_file_name(main.as_str()) {
        Some(n) => n,
        None => "repo".to_owned(),
    };
    let base_branch = if entries.len() > 0 {
        crate::domain::copy_opt_string(&entries[0].branch)
    } else {
        None
    };
    Family {
        common_dir: root.common_dir.clone(),
        canonical_path: main,
        display_name,
        base_branch,
        source,
        worktrees: copy_entries(entries),
    }
}

/// The roots a scan walks: `~/.worktrees`, `~/.worktree` and `~/worktrees`
/// when there is a home, then the configured roots.
pub open spec fn spec_scan_roots(home: Option<Seq<char>>, configured: Seq<Seq<char>>) -> Seq<Seq<char>> {
    (match home {
        Some(h) => seq![path_join(h, ".worktrees"@), path_join(h, ".worktree"@), path_join(h, "worktrees"@)],
        None => seq![],
    }) + configured
}

/// The roots a scan walks; fails when there are none.
pub fn scan_roots(config: &Config, home: Option<&str>) -> (r: Result<Vec<String>, AppError>)
    ensures
        ({
            let roots = spec_scan_roots(
                match home {
                    Some(h) => Some(h@),
                    None => None,
                },
                string_views(config.scan_roots@),
            );
            if roots.len() == 0 {
                r matches Err(AppError::MissingHome)
            } else {
                r matches Ok(v) && string_views(v@) == roots
            }
        }),
{
    let mut roots: Vec<String> = Vec::new();
    let ghost hv: Option<Seq<char>> = match home {
        Some(h) => Some(h@),
        None => None,
    };
    if let Some(h) = home {
        roots.push(join_path(h, ".worktrees"));
        roots.push(join_path(h, ".worktree"));
        roots.push(join_path(h, "worktrees"));
    }
    let ghost start = string_views(roots@);
    assert(start =~= match hv {
        Some(h) => seq![path_join(h, ".worktrees"@), path_join(h, ".worktree"@), path_join(h, "worktrees"@)],
        None => Seq::<Seq<char>>::empty(),
    });
    let mut i: usize = 0;
    while i < config.scan_roots.len()
        invariant
            i <= config.scan_roots@.len(),
            string_views(roots@) == start + string_views(config.scan_roots@).take(i as int),
        decreases config.scan_roots@.len() - i,
    {
        let ghost before = string_views(roots@);
        roots.push(config.scan_roots[i].clone());
        assert(string_views(roots@) =~= before.push(config.scan_roots@[i as int]@));
        assert(string_views(config.scan_roots@).take(i + 1) =~= string_views(config.scan_roots@).take(i as int).push(
            config.scan_roots@[i as int]@,
        ));
        i = i + 1;
    }
    assert(string_views(config.scan_roots@).take(config.scan_roots@.len() as int) =~= string_views(config.scan_roots@));
    if roots.len() == 0 {
        Err(AppError::MissingHome)
    } else {
        Ok(roots)
    }
}

pub open spec fn repo_views_of(v: Seq<GitRepository>) -> Seq<(Seq<char>, Seq<char>)> {
    v.map_values(|g: GitRepository| (g.top_level@, g.common_dir@))
}

/// The repos a scan takes, of those found: none that is ignored, and of
/// several with one common directory (as a `Path`) only the first.
pub open spec fn spec_scan_pick(ignored: Seq<crate::domain::IgnoredRepoV>, found: Seq<(Seq<char>, Seq<char>)>, facts: PathFacts) -> Seq<(Seq<char>, Seq<char>)>
    decreases found.len(),
{
    if found.len() == 0 {
        seq![]
    } else {
        let before = spec_scan_pick(ignored, found.drop_last(), facts);
        let g = found.last();
        if spec_is_ignored(ignored, facts.canon(g.0), g.1) || exists|i: int|
            0 <= i < before.len() && path_same((#[trigger] before[i]).1, g.1) {
            before
        } else {
            before.push(g)
        }
    }
}

/// The repos a scan takes, of those found in scan order.
pub fn scan_pick(state: &State, found: &Vec<GitRepository>, facts: &PathFacts) -> (r: Vec<GitRepository>)
    ensures
        repo_views_of(r@) == spec_scan_pick(ignored_views(state.ignored_repos@), repo_views_of(found@), *facts),
{
    let ghost fv = repo_views_of(found@);
    let mut picked: Vec<GitRepository> = Vec::new();
    let mut i: usize = 0;
    while i < found.len()
        invariant
            fv == repo_views_of(found@),
            i <= fv.len(),
            repo_views_of(picked@) == spec_scan_pick(ignored_views(state.ignored_repos@), fv.take(i as int), *facts),
        decreases fv.len() - i,
    {
        let g = &found[i];
        let ghost pv = repo_views_of(picked@);
        let top = facts.canonical_of(g.top_level.as_str());
        let ignored = is_ignored(state, top.as_str(), g.common_dir.as_str());
        let mut seen = false;
        let mut j: usize = 0;
        while j < picked.len()
            invariant
                pv == repo_views_of(picked@),
                j <= pv.len(),
                seen == exists|k: int| 0 <= k < j && path_same((#[trigger] pv[k]).1, g.common_dir@),
            decreases pv.len() - j,
        {
            assert(pv[j as int] == (picked@[j as int].top_level@, picked@[j as int].common_dir@));
            if same_path(picked[j].common_dir.as_str(), g.common_dir.as_str()) {
                seen = true;
            }
            j = j + 1;
        }
        proof {
            let pre = fv.take(i + 1);
            assert(pre.drop_last() =~= fv.take(i as int));
            assert(pre.last() == (g.top_level@, g.common_dir@));
        }
        if !ignored && !seen {
            picked.push(GitRepository { top_level: g.top_level.clone(), common_dir: g.common_dir.clone() });
            assert(repo_views_of(picked@) =~= pv.push((g.top_level@, g.common_dir@)));
        }
        i = i + 1;
    }
    assert(fv.take(fv.len() as int) =~= fv);
    picked
}

/// What a scan prints: how many known repos are not stale.
pub open spec fn spec_scan_message(rs: Seq<RepoRecordV>) -> Seq<char> {
    "scanned "@ + dec(rs.filter(|r: RepoRecordV| !r.stale).len()) + " repos\n"@
}

pub fn scan_message(cache: &Cache) -> (r: String)
    ensures
        r@ == spec_scan_message(repo_views(cache.repos@)),
{
    let ghost rv = repo_views(cache.repos@);
    let ghost live = |r: RepoRecordV| !r.stale;
    let mut n: u64 = 0;
    let mut i: usize = 0;
    while i < cache.repos.len()
        invariant
            rv == repo_views(cache.repos@),
            live == (|r: RepoRecordV| !r.stale),
            i <= rv.len(),
            n <= i,
            n == rv.take(i as int).filter(live).len(),
        decreases rv.len() - i,
    {
        proof {
            reveal(Seq::filter);
            let pre = rv.take(i + 1);
            assert(pre.drop_last() =~= rv.take(i as int));
            assert(pre.last() == cache.repos@[i as int]@);
        }
        if !cache.repos[i].stale {
            n = n + 1;
        }
        i = i + 1;
    }
    assert(rv.take(rv.len() as int) =~= rv);
    let mut m = "scanned ".to_owned();
    push_decimal(&mut m, n);
    m.append(" repos\n");
    m
}

/// Whether some path of `ps` is `p` as a `Path` (component by component).
pub open spec fn has_same_path(ps: Seq<Seq<char>>, p: Seq<char>) -> bool {
    exists|i: int| 0 <= i < ps.len() && path_same(#[trigger] ps[i], p)
}

fn contains_path(v: &Vec<String>, p: &str) -> (r: bool)
    ensures
        r == has_same_path(string_views(v@), p@),
{
    let ghost sv = string_views(v@);
    let mut i: usize = 0;
    while i < v.len()
        invariant
            sv == string_views(v@),
            i <= v@.len(),
            forall|j: int| 0 <= j < i ==> !path_same(#[trigger] sv[j], p@),
        decreases v@.len() - i,
    {
        assert(sv[i as int] == v@[i as int]@);
        if same_path(v[i].as_str(), p) {
            return true;
        }
        i = i + 1;
    }
    false
}

/// Records `path` as adopted, unless it already is (as a `Path`).
pub fn add_adopted(state: &mut State, path: &str)
    ensures
        string_views(final(state).adopted_paths@) == if has_same_path(string_views(old(state).adopted_paths@), path@) {
            string_views(old(state).adopted_paths@)
        } else {
            string_views(old(state).adopted_paths@).push(path@)
        },
        final(state).ignored_repos@ == old(state).ignored_repos@,
        final(state).repos@ == old(state).repos@,
        final(state).sessions@ == old(state).sessions@,
        final(state).schema_version == old(state).schema_version,
{
    if !contains_path(&state.adopted_paths, path) {
        let ghost before = string_views(state.adopted_paths@);
        state.adopted_paths.push(path.to_owned());
        assert(string_views(state.adopted_paths@) =~= before.push(path@));
    }
}

/// Why discovering a path is refused: its repo is ignored.
pub fn ignored_path_error(top_level: &str) -> (r: AppError)
    ensures
        r matches AppError::InvalidCommand(m) && m@ == "repo at `"@ + top_level@ + "` is ignored\nfix: run `workroot unignore "@
            + top_level@ + "` first"@,
{
    let mut m = "repo at `".to_owned();
    m.append(top_level);
    m.append("` is ignored\nfix: run `workroot unignore ");
    m.append(top_level);
    m.append("` first");
    AppError::InvalidCommand(m)
}

/// One line of the plain listing.
pub open spec fn list_line(r: RepoRecordV, w: WorktreeRecordV) -> Seq<char> {
    r.alias + " "@ + w.target + " "@ + match w.branch {
        Some(b) => b,
        None => "detached"@,
    } + " "@ + w.path + (if r.stale || w.stale { " stale"@ } else { seq![] }) + "\n"@
}

/// The lines for repo `r`'s worktrees among `ws`, in order.
pub open spec fn repo_lines(r: RepoRecordV, ws: Seq<WorktreeRecordV>) -> Seq<char>
    decreases ws.len(),
{
    if ws.len() == 0 {
        seq![]
    } else {
        repo_lines(r, ws.drop_last()) + if ws.last().repo_alias == r.alias {
            list_line(r, ws.last())
        } else {
            seq![]
        }
    }
}

/// The plain listing: each repo's worktrees, repo by repo.
pub open spec fn spec_list(rs: Seq<RepoRecordV>, ws: Seq<WorktreeRecordV>) -> Seq<char>
    decreases rs.len(),
{
    if rs.len() == 0 {
        seq![]
    } else {
        spec_list(rs.drop_last(), ws) + repo_lines(rs.last(), ws)
    }
}

pub fn list(cache: &Cache) -> (r: String)
    ensures
        r@ == spec_list(repo_views(cache.repos@), worktree_views(cache.worktrees@)),
{
    let ghost rv = repo_views(cache.repos@);
    let ghost wv = worktree_views(cache.worktrees@);
    let mut out = String::new();
    let mut i: usize = 0;
    while i < cache.repos.len()
        invariant
            rv == repo_views(cache.repos@),
            wv == worktree_views(cache.worktrees@),
            i <= rv.len(),
            out@ == spec_list(rv.take(i as int), wv),
        decreases rv.len() - i,
    {
        let r = &cache.repos[i];
        assert(rv[i as int] == r@);
        let ghost start = out@;
        let mut j: usize = 0;
        while j < cache.worktrees.len()
            invariant
                wv == worktree_views(cache.worktrees@),
                j <= wv.len(),
                out@ == start + repo_lines(r@, wv.take(j as int)),
            decreases wv.len() - j,
        {
            let w = &cache.worktrees[j];
            assert(wv[j as int] == w@);
            proof {
                let pre = wv.take(j + 1);
                assert(pre.drop_last() =~= wv.take(j as int));
                assert(pre.last() == w@);
            }
            if str_eq(w.repo_alias.as_str(), r.alias.as_str()) {
                let ghost before = out@;
                out.append(r.alias.as_str());
                out.append(" ");
                out.append(w.target.as_str());
                out.append(" ");
                match &w.branch {
                    Some(b) => out.append(b.as_str()),
                    None => out.append("detached"),
                }
                out.append(" ");
                out.append(w.path.as_str());
                if r.stale || w.stale {
                    out.append(" stale");
                }
                out.append("\n");
                assert(out@ =~= before + list_line(r@, w@));
            }
            j = j + 1;
        }
        assert(wv.take(wv.len() as int) =~= wv);
        proof {
            let pre = rv.take(i + 1);
            assert(pre.drop_last() =~= rv.take(i as int));
            assert(pre.last() == r@);
        }
        i = i + 1;
    }
    assert(rv.take(rv.len() as int) =~= rv);
    out
}

/// A scan never picks an ignored repo: every repo it takes was found, is
/// not ignored (by its canonical top level or its common directory), and
/// no two share a common directory; and every found repo that is not
/// ignored is taken, or one with its common directory already was.
pub proof fn lemma_scan_skips_ignored(
    ignored: Seq<crate::domain::IgnoredRepoV>,
    found: Seq<(Seq<char>, Seq<char>)>,
    facts: PathFacts,
)
    ensures
        forall|i: int|
            0 <= i < spec_scan_pick(ignored, found, facts).len() ==> !spec_is_ignored(
                ignored,
                facts.canon((#[trigger] spec_scan_pick(ignored, found, facts)[i]).0),
                spec_scan_pick(ignored, found, facts)[i].1,
            ) && found.contains(spec_scan_pick(ignored, found, facts)[i]),
        forall|i: int, j: int|
            0 <= i < j < spec_scan_pick(ignored, found, facts).len() ==> !path_same(
                (#[trigger] spec_scan_pick(ignored, found, facts)[i]).1,
                (#[trigger] spec_scan_pick(ignored, found, facts)[j]).1,
            ),
        forall|k: int|
            0 <= k < found.len() && !spec_is_ignored(ignored, facts.canon((#[trigger] found[k]).0), found[k].1) ==> exists|i: int|
                0 <= i < spec_scan_pick(ignored, found, facts).len() && path_same(
                    spec_scan_pick(ignored, found, facts)[i].1,
                    found[k].1,
                ),
    decreases found.len(),
{
    if found.len() > 0 {
        let f0 = found.drop_last();
        lemma_scan_skips_ignored(ignored, f0, facts);
        let before = spec_scan_pick(ignored, f0, facts);
        let g = found.last();
        let cur = spec_scan_pick(ignored, found, facts);
        assert forall|i: int| 0 <= i < cur.len() implies !spec_is_ignored(ignored, facts.canon((#[trigger] cur[i]).0), cur[i].1)
            && found.contains(cur[i]) by {
            if i < before.len() {
                assert(cur[i] == before[i]);
                let m = choose|m: int| 0 <= m < f0.len() && f0[m] == before[i];
                assert(found[m] == f0[m]);
            } else {
                assert(cur[i] == g);
                assert(found[found.len() - 1] == g);
            }
        }
        assert forall|i: int, j: int| 0 <= i < j < cur.len() implies !path_same((#[trigger] cur[i]).1, (#[trigger] cur[j]).1) by {
            if j < before.len() {
                assert(cur[i] == before[i] && cur[j] == before[j]);
            } else {
                assert(cur[i] == before[i] && cur[j] == g);
            }
        }
        assert forall|k: int|
            0 <= k < found.len() && !spec_is_ignored(ignored, facts.canon((#[trigger] found[k]).0), found[k].1) implies exists|i: int|
                0 <= i < cur.len() && path_same(cur[i].1, found[k].1) by {
            if k < found.len() - 1 {
                assert(found[k] == f0[k]);
                let i = choose|i: int| 0 <= i < before.len() && path_same(before[i].1, f0[k].1);
                assert(cur[i] == before[i]);
            } else {
                assert(found[k] == g);
                if exists|i: int| 0 <= i < before.len() && path_same((#[trigger] before[i]).1, g.1) {
                    let i = choose|i: int| 0 <= i < before.len() && path_same((#[trigger] before[i]).1, g.1);
                    assert(cur[i] == before[i]);
                } else {
                    assert(cur[before.len() as int] == g);
                }
            }
        }
    }
}

} // verus!
