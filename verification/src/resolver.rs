//! Resolving repo and target names typed by the user against the cache.

use vstd::prelude::*;

use crate::domain::{
    repo_views, worktree_views, Cache, RepoRecord, RepoRecordV, WorktreeRecord, WorktreeRecordV,
};
use crate::error::{AppError, AppResult};
use crate::text::{chars_of, dec, join, push_decimal, starts_with, str_eq, str_starts_with, trim, trim_range};

verus! {

/// A worktree picked by name, with its repo.
#[derive(Debug, PartialEq, Eq)]
pub struct ResolvedWorktree {
    pub repo: RepoRecord,
    pub worktree: WorktreeRecord,
    pub path: String,
}

/// Looks up repos and targets in a cache snapshot.
#[derive(Debug, PartialEq, Eq)]
pub struct Resolver {
    cache: Cache,
}

/// The repos whose alias is `input`, in order.
pub open spec fn alias_matches(rs: Seq<RepoRecordV>, input: Seq<char>) -> Seq<RepoRecordV>
    decreases rs.len(),
{
    if rs.len() == 0 {
        seq![]
    } else if rs.last().alias == input {
        alias_matches(rs.drop_last(), input).push(rs.last())
    } else {
        alias_matches(rs.drop_last(), input)
    }
}

/// The repos whose display name is `input`, in order.
pub open spec fn display_matches(rs: Seq<RepoRecordV>, input: Seq<char>) -> Seq<RepoRecordV>
    decreases rs.len(),
{
    if rs.len() == 0 {
        seq![]
    } else if rs.last().display_name == input {
        display_matches(rs.drop_last(), input).push(rs.last())
    } else {
        display_matches(rs.drop_last(), input)
    }
}

/// `alias (path)` for each repo, joined with `, `.
pub open spec fn repo_candidates(rs: Seq<RepoRecordV>) -> Seq<char> {
    join(rs.map_values(|r: RepoRecordV| r.alias + " ("@ + r.canonical_path + ")"@), ", "@)
}

/// `target (path)` for each worktree, joined with `, `.
pub open spec fn worktree_candidates(ws: Seq<WorktreeRecordV>) -> Seq<char> {
    join(ws.map_values(|w: WorktreeRecordV| w.target + " ("@ + w.path + ")"@), ", "@)
}

/// What resolving a repo name gives: the single repo whose alias is the
/// input; failing that, the single repo displayed as the input; an
/// ambiguity error listing the candidates when several match; not found
/// when none does.  An exact alias always wins over display names.
pub open spec fn spec_resolve_repo(rs: Seq<RepoRecordV>, input: Seq<char>) -> Result<
    RepoRecordV,
    (int, Seq<char>),
> {
    let am = alias_matches(rs, input);
    let dm = display_matches(rs, input);
    if am.len() == 1 {
        Ok(am[0])
    } else if am.len() > 1 {
        Err((3, repo_candidates(am)))
    } else if dm.len() == 1 {
        Ok(dm[0])
    } else if dm.len() == 0 {
        Err((4, seq![]))
    } else {
        Err((3, repo_candidates(dm)))
    }
}

/// Whether `e` is the error that `spec_resolve_repo` describes as `(code, text)`.
pub open spec fn repo_error_is(e: AppError, code: int, text: Seq<char>, input: Seq<char>) -> bool {
    if code == 3 {
        e matches AppError::AmbiguousRepo { input: i, candidates: c } && i@ == input && c@ == text
    } else {
        e matches AppError::RepoNotFound(i) && i@ == input
    }
}

fn candidate_line(name: &String, path: &String) -> (r: String)
    ensures
        r@ == name@ + " ("@ + path@ + ")"@,
{
    let mut r = name.clone();
    r.append(" (");
    r.append(path.as_str());
    r.append(")");
    r
}

/// `alias (path)` for each repo, joined with `, `.
pub fn format_repo_candidates(rs: &Vec<RepoRecord>) -> (r: String)
    ensures
        r@ == repo_candidates(repo_views(rs@)),
{
    let mut parts: Vec<String> = Vec::new();
    let mut i: usize = 0;
    while i < rs.len()
        invariant
            i <= rs@.len(),
            crate::text::views(parts@) == repo_views(rs@).take(i as int).map_values(
                |r: RepoRecordV| r.alias + " ("@ + r.canonical_path + ")"@,
            ),
        decreases rs@.len() - i,
    {
        let line = candidate_line(&rs[i].alias, &rs[i].canonical_path);
        let ghost before = parts@;
        let ghost lv = line@;
        parts.push(line);
        assert(repo_views(rs@)[i as int] == rs@[i as int]@);
        assert(crate::text::views(parts@) =~= crate::text::views(before).push(lv));
        assert(crate::text::views(parts@) =~= repo_views(rs@).take(i + 1).map_values(
            |r: RepoRecordV| r.alias + " ("@ + r.canonical_path + ")"@,
        ));
        i = i + 1;
    }
    assert(repo_views(rs@).take(rs@.len() as int) =~= repo_views(rs@));
    crate::text::join_strings(&parts, ", ")
}

/// `target (path)` for each worktree, joined with `, `.
pub fn format_worktree_candidates(ws: &Vec<WorktreeRecord>) -> (r: String)
    ensures
        r@ == worktree_candidates(worktree_views(ws@)),
{
    let mut parts: Vec<String> = Vec::new();
    let mut i: usize = 0;
    while i < ws.len()
        invariant
            i <= ws@.len(),
            crate::text::views(parts@) == worktree_views(ws@).take(i as int).map_values(
                |w: WorktreeRecordV| w.target + " ("@ + w.path + ")"@,
            ),
        decreases ws@.len() - i,
    {
        let line = candidate_line(&ws[i].target, &ws[i].path);
        let ghost before = parts@;
        let ghost lv = line@;
        parts.push(line);
        assert(worktree_views(ws@)[i as int] == ws@[i as int]@);
        assert(crate::text::views(parts@) =~= crate::text::views(before).push(lv));
        assert(crate::text::views(parts@) =~= worktree_views(ws@).take(i + 1).map_values(
            |w: WorktreeRecordV| w.target + " ("@ + w.path + ")"@,
        ));
        i = i + 1;
    }
    assert(worktree_views(ws@).take(ws@.len() as int) =~= worktree_views(ws@));
    crate::text::join_strings(&parts, ", ")
}

fn repos_with_alias(rs: &Vec<RepoRecord>, input: &str) -> (r: Vec<RepoRecord>)
    ensures
        repo_views(r@) == alias_matches(repo_views(rs@), input@),
{
    let mut out: Vec<RepoRecord> = Vec::new();
    let mut i: usize = 0;
    assert(repo_views(rs@.take(0)) =~= Seq::<RepoRecordV>::empty());
    assert(repo_views(out@) =~= Seq::<RepoRecordV>::empty());
    while i < rs.len()
        invariant
            i <= rs@.len(),
            repo_views(out@) == alias_matches(repo_views(rs@.take(i as int)), input@),
        decreases rs@.len() - i,
    {
        let ghost pre = repo_views(rs@.take(i + 1));
        assert(pre.drop_last() =~= repo_views(rs@.take(i as int)));
        assert(pre.last() == rs@[i as int]@);
        if str_eq(rs[i].alias.as_str(), input) {
            let ghost before = out@;
            out.push(rs[i].duplicate());
            assert(repo_views(out@) =~= repo_views(before).push(rs@[i as int]@));
        }
        i = i + 1;
    }
    assert(rs@.take(rs@.len() as int) =~= rs@);
    out
}

fn repos_with_display(rs: &Vec<RepoRecord>, input: &str) -> (r: Vec<RepoRecord>)
    ensures
        repo_views(r@) == display_matches(repo_views(rs@), input@),
{
    let mut out: Vec<RepoRecord> = Vec::new();
    let mut i: usize = 0;
    assert(repo_views(rs@.take(0)) =~= Seq::<RepoRecordV>::empty());
    assert(repo_views(out@) =~= Seq::<RepoRecordV>::empty());
    while i < rs.len()
        invariant
            i <= rs@.len(),
            repo_views(out@) == display_matches(repo_views(rs@.take(i as int)), input@),
        decreases rs@.len() - i,
    {
        let ghost pre = repo_views(rs@.take(i + 1));
        assert(pre.drop_last() =~= repo_views(rs@.take(i as int)));
        assert(pre.last() == rs@[i as int]@);
        if str_eq(rs[i].display_name.as_str(), input) {
            let ghost before = out@;
            out.push(rs[i].duplicate());
            assert(repo_views(out@) =~= repo_views(before).push(rs@[i as int]@));
        }
        i = i + 1;
    }
    assert(rs@.take(rs@.len() as int) =~= rs@);
    out
}

impl Resolver {
    /// The repos of the cache this resolver reads.
    pub closed spec fn repos(&self) -> Seq<RepoRecordV> {
        repo_views(self.cache.repos@)
    }

    /// The worktrees of the cache this resolver reads.
    pub closed spec fn worktrees(&self) -> Seq<WorktreeRecordV> {
        worktree_views(self.cache.worktrees@)
    }

    pub fn new(cache: Cache) -> (r: Self)
        ensures
            r.repos() == repo_views(cache.repos@),
            r.worktrees() == worktree_views(cache.worktrees@),
    {
        Resolver { cache }
    }

    /// Resolves a repo by exact alias, falling back to display name.
    pub fn resolve_repo(&self, input: &str) -> (r: AppResult<RepoRecord>)
        ensures
            match spec_resolve_repo(self.repos(), input@) {
                Ok(rec) => r matches Ok(x) && x@ == rec,
                Err((code, text)) => r matches Err(e) && repo_error_is(e, code, text, input@),
            },
    {
        let am = repos_with_alias(&self.cache.repos, input);
        if am.len() == 1 {
            assert(repo_views(am@)[0] == am@[0]@);
            return Ok(am[0].duplicate());
        }
        if am.len() > 1 {
            return Err(AppError::AmbiguousRepo {
                input: input.to_owned(),
                candidates: format_repo_candidates(&am),
            });
        }
        let dm = repos_with_display(&self.cache.repos, input);
        if dm.len() == 1 {
            assert(repo_views(dm@)[0] == dm@[0]@);
            Ok(dm[0].duplicate())
        } else if dm.len() == 0 {
            Err(AppError::RepoNotFound(input.to_owned()))
        } else {
            Err(AppError::AmbiguousRepo {
                input: input.to_owned(),
                candidates: format_repo_candidates(&dm),
            })
        }
    }
}

} // verus!

verus! {

/// The worktrees of repo `a` that the target input names (all of them when
/// no target is given), in order.
pub open spec fn target_matches(
    ws: Seq<WorktreeRecordV>,
    a: Seq<char>,
    t: Option<Seq<char>>,
) -> Seq<WorktreeRecordV>
    decreases ws.len(),
{
    if ws.len() == 0 {
        seq![]
    } else {
        let w = ws.last();
        let rest = target_matches(ws.drop_last(), a, t);
        let hit = w.repo_alias == a && match t {
            Some(t) => w.target == t || w.display_name == t,
            None => true,
        };
        if hit { rest.push(w) } else { rest }
    }
}

/// Why a worktree could not be resolved.
pub enum ResolveFailure {
    /// Resolving the repo failed, as `spec_resolve_repo` describes it.
    Repo(int, Seq<char>),
    /// The one matching worktree is stale; its path.
    Stale(Seq<char>),
    /// No worktree matched; the repo alias and the target asked for.
    NotFound(Seq<char>, Seq<char>),
    /// Several worktrees matched; the repo alias and the candidates.
    Ambiguous(Seq<char>, Seq<char>),
}

/// What resolving a worktree gives, when no one can be asked to choose.
pub open spec fn spec_resolve_worktree(
    rs: Seq<RepoRecordV>,
    ws: Seq<WorktreeRecordV>,
    repo_input: Seq<char>,
    t: Option<Seq<char>>,
) -> Result<(RepoRecordV, WorktreeRecordV), ResolveFailure> {
    match spec_resolve_repo(rs, repo_input) {
        Err((code, text)) => Err(ResolveFailure::Repo(code, text)),
        Ok(repo) => {
            let cs = target_matches(ws, repo.alias, t);
            if cs.len() == 1 {
                if cs[0].stale {
                    Err(ResolveFailure::Stale(cs[0].path))
                } else {
                    Ok((repo, cs[0]))
                }
            } else if cs.len() == 0 {
                Err(
                    ResolveFailure::NotFound(
                        repo.alias,
                        match t {
                            Some(t) => t,
                            None => "<default>"@,
                        },
                    ),
                )
            } else {
                Err(ResolveFailure::Ambiguous(repo.alias, worktree_candidates(cs)))
            }
        },
    }
}

pub open spec fn resolve_error_is(e: AppError, f: ResolveFailure, repo_input: Seq<char>) -> bool {
    match f {
        ResolveFailure::Repo(code, text) => repo_error_is(e, code, text, repo_input),
        ResolveFailure::Stale(p) => e matches AppError::StaleWorktree(x) && x@ == p,
        ResolveFailure::NotFound(a, t) => e matches AppError::TargetNotFound { repo, target }
            && repo@ == a && target@ == t,
        ResolveFailure::Ambiguous(a, c) => e matches AppError::AmbiguousTarget { repo, candidates }
            && repo@ == a && candidates@ == c,
    }
}

fn opt_str_view(t: Option<&str>) -> (r: Ghost<Option<Seq<char>>>)
    ensures
        r@ == match t {
            Some(s) => Some(s@),
            None => None,
        },
{
    Ghost(
        match t {
            Some(s) => Some(s@),
            None => None,
        },
    )
}

fn worktrees_matching(ws: &Vec<WorktreeRecord>, a: &str, t: Option<&str>) -> (r: Vec<WorktreeRecord>)
    ensures
        worktree_views(r@) == target_matches(
            worktree_views(ws@),
            a@,
            match t {
                Some(s) => Some(s@),
                None => None,
            },
        ),
{
    let tv = opt_str_view(t);
    let mut out: Vec<WorktreeRecord> = Vec::new();
    let mut i: usize = 0;
    assert(worktree_views(ws@.take(0)) =~= Seq::<WorktreeRecordV>::empty());
    assert(worktree_views(out@) =~= Seq::<WorktreeRecordV>::empty());
    while i < ws.len()
        invariant
            tv@ == match t {
                Some(s) => Some(s@),
                None => None,
            },
            i <= ws@.len(),
            worktree_views(out@) == target_matches(worktree_views(ws@.take(i as int)), a@, tv@),
        decreases ws@.len() - i,
    {
        let ghost pre = worktree_views(ws@.take(i + 1));
        assert(pre.drop_last() =~= worktree_views(ws@.take(i as int)));
        assert(pre.last() == ws@[i as int]@);
        let w = &ws[i];
        let hit = str_eq(w.repo_alias.as_str(), a) && match t {
            Some(t) => str_eq(w.target.as_str(), t) || str_eq(w.display_name.as_str(), t),
            None => true,
        };
        if hit {
            let ghost before = out@;
            out.push(w.duplicate());
            assert(worktree_views(out@) =~= worktree_views(before).push(ws@[i as int]@));
        }
        i = i + 1;
    }
    assert(ws@.take(ws@.len() as int) =~= ws@);
    out
}

impl Resolver {
    /// Resolves a repo and a target to a worktree.  With no target and
    /// several worktrees, this reports the ambiguity; an interactive caller
    /// may then offer `target_candidates` to choose from.
    pub fn resolve_worktree(&self, repo_input: &str, target_input: Option<&str>) -> (r: AppResult<
        ResolvedWorktree,
    >)
        ensures
            match spec_resolve_worktree(
                self.repos(),
                self.worktrees(),
                repo_input@,
                match target_input {
                    Some(s) => Some(s@),
                    None => None,
                },
            ) {
                Ok((repo, w)) => r matches Ok(x) && x.repo@ == repo && x.worktree@ == w && x.path@
                    == w.path,
                Err(f) => r matches Err(e) && resolve_error_is(e, f, repo_input@),
            },
    {
        let repo = match self.resolve_repo(repo_input) {
            Ok(repo) => repo,
            Err(e) => return Err(e),
        };
        let cs = worktrees_matching(&self.cache.worktrees, repo.alias.as_str(), target_input);
        if cs.len() == 1 {
            assert(worktree_views(cs@)[0] == cs@[0]@);
            if cs[0].stale {
                return Err(AppError::StaleWorktree(cs[0].path.clone()));
            }
            let path = cs[0].path.clone();
            let worktree = cs[0].duplicate();
            Ok(ResolvedWorktree { repo, worktree, path })
        } else if cs.len() == 0 {
            let target = match target_input {
                Some(t) => t.to_owned(),
                None => "<default>".to_owned(),
            };
            Err(AppError::TargetNotFound { repo: repo.alias, target })
        } else {
            let candidates = format_worktree_candidates(&cs);
            Err(AppError::AmbiguousTarget { repo: repo.alias, candidates })
        }
    }

    /// The worktrees an interactive chooser offers for a repo given with no
    /// target: every worktree of the repo, in cache order.
    pub fn target_candidates(&self, repo_input: &str) -> (r: AppResult<Vec<WorktreeRecord>>)
        ensures
            match spec_resolve_repo(self.repos(), repo_input@) {
                Ok(repo) => r matches Ok(v) && worktree_views(v@) == target_matches(
                    self.worktrees(),
                    repo.alias,
                    None,
                ),
                Err((code, text)) => r matches Err(e) && repo_error_is(e, code, text, repo_input@),
            },
    {
        let repo = match self.resolve_repo(repo_input) {
            Ok(repo) => repo,
            Err(e) => return Err(e),
        };
        Ok(worktrees_matching(&self.cache.worktrees, repo.alias.as_str(), None))
    }
}

/// A worktree the user picked, with its repo: refused when stale.
pub fn resolved_pick(repo: RepoRecord, worktree: WorktreeRecord) -> (r: AppResult<ResolvedWorktree>)
    ensures
        worktree.stale ==> (r matches Err(AppError::StaleWorktree(p)) && p@ == worktree.path@),
        !worktree.stale ==> (r matches Ok(x) && x.repo@ == repo@ && x.worktree@ == worktree@
            && x.path@ == worktree.path@),
{
    if worktree.stale {
        return Err(AppError::StaleWorktree(worktree.path.clone()));
    }
    let path = worktree.path.clone();
    Ok(ResolvedWorktree { repo, worktree, path })
}

// ---------------------------------------------------------------------
// Completion
// ---------------------------------------------------------------------

/// The first of two names that begins with the prefix.
pub open spec fn first_matching(a: Seq<char>, b: Seq<char>, prefix: Seq<char>) -> Option<Seq<char>> {
    if starts_with(a, prefix) {
        Some(a)
    } else if starts_with(b, prefix) {
        Some(b)
    } else {
        None
    }
}

/// The first of two names that begins with the prefix.
pub fn first_matching_name(a: &str, b: &str, prefix: &str) -> (r: Option<String>)
    ensures
        match first_matching(a@, b@, prefix@) {
            Some(n) => r matches Some(s) && s@ == n,
            None => r is None,
        },
{
    if str_starts_with(a, prefix) {
        Some(a.to_owned())
    } else if str_starts_with(b, prefix) {
        Some(b.to_owned())
    } else {
        None
    }
}

/// Completion candidates for repos: for each live repo, its alias or else
/// its display name, whichever first begins with the prefix.
pub open spec fn repo_completions(rs: Seq<RepoRecordV>, prefix: Seq<char>) -> Seq<Seq<char>>
    decreases rs.len(),
{
    if rs.len() == 0 {
        seq![]
    } else {
        let r = rs.last();
        let rest = repo_completions(rs.drop_last(), prefix);
        if r.stale {
            rest
        } else {
            match first_matching(r.alias, r.display_name, prefix) {
                Some(n) => rest.push(n),
                None => rest,
            }
        }
    }
}

/// Completion candidates for targets of repo `a`: for each live worktree of
/// the repo, its target or else its display name, whichever first begins
/// with the prefix.
pub open spec fn target_completions(ws: Seq<WorktreeRecordV>, a: Seq<char>, prefix: Seq<char>) -> Seq<
    Seq<char>,
>
    decreases ws.len(),
{
    if ws.len() == 0 {
        seq![]
    } else {
        let w = ws.last();
        let rest = target_completions(ws.drop_last(), a, prefix);
        if w.repo_alias != a || w.stale {
            rest
        } else {
            match first_matching(w.target, w.display_name, prefix) {
                Some(n) => rest.push(n),
                None => rest,
            }
        }
    }
}

impl Resolver {
    /// Repo names that complete `prefix` (every live repo when none).
    pub fn complete_repos(&self, prefix: Option<&str>) -> (r: Vec<String>)
        ensures
            crate::text::views(r@) == repo_completions(
                self.repos(),
                match prefix {
                    Some(p) => p@,
                    None => seq![],
                },
            ),
    {
        let p: &str = match prefix {
            Some(p) => p,
            None => "",
        };
        proof {
            reveal_strlit("");
            assert(""@ =~= Seq::<char>::empty());
        }
        assert(p@ == match prefix {
            Some(q) => q@,
            None => Seq::<char>::empty(),
        });
        let rs = &self.cache.repos;
        let mut out: Vec<String> = Vec::new();
        let mut i: usize = 0;
        assert(repo_views(rs@.take(0)) =~= Seq::<RepoRecordV>::empty());
        assert(crate::text::views(out@) =~= Seq::<Seq<char>>::empty());
        while i < rs.len()
            invariant
                i <= rs@.len(),
                crate::text::views(out@) == repo_completions(repo_views(rs@.take(i as int)), p@),
            decreases rs@.len() - i,
        {
            let ghost pre = repo_views(rs@.take(i + 1));
            assert(pre.drop_last() =~= repo_views(rs@.take(i as int)));
            assert(pre.last() == rs@[i as int]@);
            if !rs[i].stale {
                match first_matching_name(rs[i].alias.as_str(), rs[i].display_name.as_str(), p) {
                    Some(n) => {
                        let ghost before = out@;
                        let ghost nv = n@;
                        out.push(n);
                        assert(crate::text::views(out@) =~= crate::text::views(before).push(nv));
                    },
                    None => {},
                }
            }
            i = i + 1;
        }
        assert(rs@.take(rs@.len() as int) =~= rs@);
        out
    }

    /// Target names of a repo that complete `prefix` (every live one when none).
    pub fn complete_targets(&self, repo_input: &str, prefix: Option<&str>) -> (r: AppResult<
        Vec<String>,
    >)
        ensures
            match spec_resolve_repo(self.repos(), repo_input@) {
                Ok(repo) => r matches Ok(v) && crate::text::views(v@) == target_completions(
                    self.worktrees(),
                    repo.alias,
                    match prefix {
                        Some(p) => p@,
                        None => seq![],
                    },
                ),
                Err((code, text)) => r matches Err(e) && repo_error_is(e, code, text, repo_input@),
            },
    {
        let repo = match self.resolve_repo(repo_input) {
            Ok(repo) => repo,
            Err(e) => return Err(e),
        };
        let p: &str = match prefix {
            Some(p) => p,
            None => "",
        };
        proof {
            reveal_strlit("");
            assert(""@ =~= Seq::<char>::empty());
        }
        assert(p@ == match prefix {
            Some(q) => q@,
            None => Seq::<char>::empty(),
        });
        let ws = &self.cache.worktrees;
        let a = repo.alias.as_str();
        let mut out: Vec<String> = Vec::new();
        let mut i: usize = 0;
        assert(worktree_views(ws@.take(0)) =~= Seq::<WorktreeRecordV>::empty());
        assert(crate::text::views(out@) =~= Seq::<Seq<char>>::empty());
        while i < ws.len()
            invariant
                i <= ws@.len(),
                crate::text::views(out@) == target_completions(
                    worktree_views(ws@.take(i as int)),
                    a@,
                    p@,
                ),
            decreases ws@.len() - i,
        {
            let ghost pre = worktree_views(ws@.take(i + 1));
            assert(pre.drop_last() =~= worktree_views(ws@.take(i as int)));
            assert(pre.last() == ws@[i as int]@);
            if str_eq(ws[i].repo_alias.as_str(), a) && !ws[i].stale {
                match first_matching_name(ws[i].target.as_str(), ws[i].display_name.as_str(), p) {
                    Some(n) => {
                        let ghost before = out@;
                        let ghost nv = n@;
                        out.push(n);
                        assert(crate::text::views(out@) =~= crate::text::views(before).push(nv));
                    },
                    None => {},
                }
            }
            i = i + 1;
        }
        assert(ws@.take(ws@.len() as int) =~= ws@);
        Ok(out)
    }
}

// ---------------------------------------------------------------------
// Choosing a target by number
// ---------------------------------------------------------------------

pub open spec fn is_digit(c: char) -> bool {
    '0' <= c && c <= '9'
}

/// The value of a string of decimal digits.
pub open spec fn digits_value(s: Seq<char>) -> nat
    decreases s.len(),
{
    if s.len() == 0 {
        0
    } else {
        digits_value(s.drop_last()) * 10 + (s.last() as nat - '0' as nat) as nat
    }
}

/// The number a string denotes as an unsigned machine word: decimal
/// digits after an optional `+`, and small enough to fit.
pub open spec fn unsigned(s: Seq<char>) -> Seq<char> {
    if s.len() > 0 && s[0] == '+' { s.drop_first() } else { s }
}

pub open spec fn all_digits(t: Seq<char>) -> bool {
    forall|i: int| 0 <= i < t.len() ==> is_digit(#[trigger] t[i])
}

pub open spec fn spec_parse_count(s: Seq<char>) -> Option<nat> {
    let t = unsigned(s);
    if t.len() > 0 && all_digits(t) && digits_value(t) <= usize::MAX {
        Some(digits_value(t))
    } else {
        None
    }
}

/// Which of `count` listed targets an answer picks: the answer, trimmed,
/// is the target's number counted from one (zero picks the first).
pub open spec fn spec_pick(answer: Seq<char>, count: nat) -> Result<nat, Seq<char>> {
    match spec_parse_count(trim(answer)) {
        None => Err("expected a target number"@),
        Some(n) => {
            let k: nat = if n == 0 { 0 } else { (n - 1) as nat };
            if k < count {
                Ok(k)
            } else {
                Err("target number "@ + dec(n) + " is out of range"@)
            }
        },
    }
}

/// The index of the target an answer picks among `count` listed ones.
pub fn pick_index(answer: &str, count: usize) -> (r: AppResult<usize>)
    ensures
        match spec_pick(answer@, count as nat) {
            Ok(k) => r == Ok::<usize, AppError>(k as usize),
            Err(m) => r matches Err(AppError::Picker(x)) && x@ == m,
        },
{
    let v = chars_of(answer);
    let (a, b) = trim_range(&v, 0, v.len());
    proof {
        assert(v@.subrange(0, v@.len() as int) =~= v@);
    }
    let ghost s = v@.subrange(a as int, b as int);
    assert(s == trim(answer@));
    let start = if a < b && v[a] == '+' { a + 1 } else { a };
    let ghost t = v@.subrange(start as int, b as int);
    proof {
        if a < b && v@[a as int] == '+' {
            assert(s[0] == '+');
            assert(t =~= s.drop_first());
        } else {
            if s.len() > 0 {
                assert(s[0] == v@[a as int]);
            }
            assert(t =~= s);
        }
    }
    if start >= b {
        return Err(AppError::Picker("expected a target number".to_owned()));
    }
    let mut acc: u128 = 0;
    let mut over = false;
    let mut i: usize = start;
    while i < b
        invariant
            a <= start <= i <= b <= v@.len(),
            t == v@.subrange(start as int, b as int),
            s == trim(answer@),
            t == unsigned(s),
            forall|j: int| 0 <= j < i - start ==> is_digit(#[trigger] t[j]),
            over ==> digits_value(t.take(i - start)) > usize::MAX,
            !over ==> acc == digits_value(t.take(i - start)) && acc <= usize::MAX,
        decreases b - i,
    {
        let c = v[i];
        if !('0' <= c && c <= '9') {
            assert(t[i - start] == c);
            assert(!is_digit(t[(i - start) as int]));
            assert(!all_digits(t));
            return Err(AppError::Picker("expected a target number".to_owned()));
        }
        let ghost pre = t.take(i - start);
        let ghost next = t.take(i - start + 1);
        proof {
            assert(next.drop_last() =~= pre);
            assert(next.last() == c);
            assert(digits_value(next) == digits_value(pre) * 10 + (c as nat - '0' as nat) as nat);
        }
        if !over {
            let d: u128 = (c as u32 - '0' as u32) as u128;
            let n = acc * 10 + d;
            if n > usize::MAX as u128 {
                over = true;
            } else {
                acc = n;
            }
        }
        assert(t[i - start] == c);
        i = i + 1;
    }
    assert(t.take(t.len() as int) =~= t);
    if over {
        return Err(AppError::Picker("expected a target number".to_owned()));
    }
    let n = acc as usize;
    let k = if n == 0 { 0 } else { n - 1 };
    if k < count {
        Ok(k)
    } else {
        let mut m = "target number ".to_owned();
        push_decimal(&mut m, n as u64);
        m.append(" is out of range");
        Err(AppError::Picker(m))
    }
}

/// Whether worktree `w` of repo `a` is named by the target input.
pub open spec fn names_target(w: WorktreeRecordV, a: Seq<char>, t: Option<Seq<char>>) -> bool {
    w.repo_alias == a && match t {
        Some(t) => w.target == t || w.display_name == t,
        None => true,
    }
}

proof fn lemma_target_matches(ws: Seq<WorktreeRecordV>, a: Seq<char>, t: Option<Seq<char>>)
    ensures
        forall|i: int| 0 <= i < target_matches(ws, a, t).len() ==> ws.contains(#[trigger] target_matches(ws, a, t)[i])
            && names_target(target_matches(ws, a, t)[i], a, t),
        forall|i: int| 0 <= i < ws.len() && names_target(#[trigger] ws[i], a, t) ==> target_matches(ws, a, t).contains(ws[i]),
    decreases ws.len(),
{
    if ws.len() > 0 {
        let w0 = ws.drop_last();
        lemma_target_matches(w0, a, t);
        let rest = target_matches(w0, a, t);
        let cur = target_matches(ws, a, t);
        assert forall|i: int| 0 <= i < cur.len() implies ws.contains(#[trigger] cur[i]) && names_target(cur[i], a, t) by {
            if i < rest.len() {
                assert(cur[i] == rest[i]);
                let m = choose|m: int| 0 <= m < w0.len() && w0[m] == rest[i];
                assert(ws[m] == w0[m]);
            } else {
                assert(cur[i] == ws.last());
                assert(ws[ws.len() - 1] == ws.last());
            }
        }
        assert forall|i: int| 0 <= i < ws.len() && names_target(#[trigger] ws[i], a, t) implies cur.contains(ws[i]) by {
            if i < ws.len() - 1 {
                assert(w0[i] == ws[i]);
                let m = choose|m: int| 0 <= m < rest.len() && rest[m] == ws[i];
                assert(cur[m] == rest[m]);
            } else {
                assert(cur[cur.len() - 1] == ws.last());
            }
        }
    }
}

/// Resolving a worktree succeeds with a worktree of the resolved repo that
/// the target names and that is not stale; it fails with the repo's error
/// when the repo does not resolve, with `TargetNotFound` when no worktree
/// of the repo is named, with `StaleWorktree` when the one named is stale,
/// and with `AmbiguousTarget` when several are named.
pub proof fn lemma_resolve_worktree(rs: Seq<RepoRecordV>, ws: Seq<WorktreeRecordV>, repo_input: Seq<char>, t: Option<Seq<char>>)
    ensures
        spec_resolve_worktree(rs, ws, repo_input, t) matches Ok((repo, w)) ==> spec_resolve_repo(rs, repo_input) == Ok::<
            RepoRecordV,
            (int, Seq<char>),
        >(repo) && ws.contains(w) && names_target(w, repo.alias, t) && !w.stale,
        spec_resolve_repo(rs, repo_input) matches Ok(repo) ==> {
            &&& (forall|i: int| 0 <= i < ws.len() ==> !names_target(#[trigger] ws[i], repo.alias, t))
                ==> spec_resolve_worktree(rs, ws, repo_input, t) is Err && spec_resolve_worktree(
                rs,
                ws,
                repo_input,
                t,
            )->Err_0 is NotFound
            &&& (target_matches(ws, repo.alias, t).len() == 1 && target_matches(ws, repo.alias, t)[0].stale)
                ==> spec_resolve_worktree(rs, ws, repo_input, t) == Err::<(RepoRecordV, WorktreeRecordV), ResolveFailure>(
                ResolveFailure::Stale(target_matches(ws, repo.alias, t)[0].path),
            )
            &&& target_matches(ws, repo.alias, t).len() > 1 ==> spec_resolve_worktree(rs, ws, repo_input, t) is Err
                && spec_resolve_worktree(rs, ws, repo_input, t)->Err_0 is Ambiguous
        },
{
    if let Ok(repo) = spec_resolve_repo(rs, repo_input) {
        lemma_target_matches(ws, repo.alias, t);
        let cs = target_matches(ws, repo.alias, t);
        if forall|i: int| 0 <= i < ws.len() ==> !names_target(#[trigger] ws[i], repo.alias, t) {
            if cs.len() > 0 {
                let m = choose|m: int| 0 <= m < ws.len() && ws[m] == cs[0];
                assert(names_target(ws[m], repo.alias, t));
            }
        }
    }
}

} // verus!
