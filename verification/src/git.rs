//! Git facts and the parsers for git's machine-readable output.

use vstd::prelude::*;

use crate::error::{AppError, AppResult};
use crate::paths::{is_abs, join_path, path_join};
use crate::text::{
    after_first_word, chars_of, first_word, line_ranges, lines, range_starts_with, range_views, starts_with, string_of,
    trim, trim_end, trim_end_range, trim_range, trim_start_range, trimmed, word_end, word_len,
};

verus! {

/// One entry of `git worktree list --porcelain`.
#[derive(Debug, PartialEq, Eq)]
pub struct GitWorktreeEntry {
    pub path: String,
    pub head: Option<String>,
    pub branch: Option<String>,
    pub detached: bool,
    pub bare: bool,
}

/// The top level and the common git directory of a repository.
#[derive(Debug, PartialEq, Eq)]
pub struct GitRepository {
    pub top_level: String,
    pub common_dir: String,
}

/// One line of `git cherry`: a commit and whether an equivalent change is
/// already upstream.
#[derive(Debug, PartialEq, Eq)]
pub struct CherryMark {
    pub applied: bool,
    pub commit: String,
}

/// The mathematical value of a worktree entry.
pub struct EntryView {
    pub path: Seq<char>,
    pub head: Option<Seq<char>>,
    pub branch: Option<Seq<char>>,
    pub detached: bool,
    pub bare: bool,
}

pub open spec fn opt_view(o: Option<String>) -> Option<Seq<char>> {
    match o {
        Some(s) => Some(s@),
        None => None,
    }
}

impl View for GitWorktreeEntry {
    type V = EntryView;

    open spec fn view(&self) -> EntryView {
        EntryView {
            path: self.path@,
            head: opt_view(self.head),
            branch: opt_view(self.branch),
            detached: self.detached,
            bare: self.bare,
        }
    }
}

pub open spec fn entry_views(v: Seq<GitWorktreeEntry>) -> Seq<EntryView> {
    v.map_values(|e: GitWorktreeEntry| e@)
}

/// `s` without the prefix `p`, when `s` begins with `p`.
pub open spec fn strip_prefix(s: Seq<char>, p: Seq<char>) -> Option<Seq<char>> {
    if starts_with(s, p) {
        Some(s.skip(p.len() as int))
    } else {
        None
    }
}

/// The state of the porcelain reader after some lines.
pub struct PorcelainState {
    pub entries: Seq<EntryView>,
    pub current: Option<EntryView>,
    /// The offending line, once a line came before any worktree header.
    pub error: Option<Seq<char>>,
}

/// The branch name a `branch ` line names: `refs/heads/` is dropped.
pub open spec fn branch_name(b: Seq<char>) -> Seq<char> {
    match strip_prefix(b, "refs/heads/"@) {
        Some(x) => x,
        None => b,
    }
}

/// Reads one raw line of porcelain output.
pub open spec fn porcelain_step(st: PorcelainState, raw: Seq<char>) -> PorcelainState {
    let line = trim_end(raw);
    if st.error is Some {
        st
    } else if line.len() == 0 {
        match st.current {
            Some(e) => PorcelainState { entries: st.entries.push(e), current: None, error: None },
            None => st,
        }
    } else if starts_with(line, "worktree "@) {
        let entries = match st.current {
            Some(e) => st.entries.push(e),
            None => st.entries,
        };
        PorcelainState {
            entries,
            current: Some(
                EntryView {
                    path: line.skip("worktree "@.len() as int),
                    head: None,
                    branch: None,
                    detached: false,
                    bare: false,
                },
            ),
            error: None,
        }
    } else {
        match st.current {
            None => PorcelainState { entries: st.entries, current: None, error: Some(line) },
            Some(e) => {
                let e2 = if starts_with(line, "HEAD "@) {
                    EntryView { head: Some(line.skip("HEAD "@.len() as int)), ..e }
                } else if starts_with(line, "branch "@) {
                    EntryView {
                        branch: Some(branch_name(line.skip("branch "@.len() as int))),
                        ..e
                    }
                } else if line == "detached"@ {
                    EntryView { detached: true, ..e }
                } else if line == "bare"@ {
                    EntryView { bare: true, ..e }
                } else {
                    e
                };
                PorcelainState { entries: st.entries, current: Some(e2), error: None }
            },
        }
    }
}

/// The reader's state after all of `ls`.
pub open spec fn porcelain_fold(ls: Seq<Seq<char>>) -> PorcelainState
    decreases ls.len(),
{
    if ls.len() == 0 {
        PorcelainState { entries: seq![], current: None, error: None }
    } else {
        porcelain_step(porcelain_fold(ls.drop_last()), ls.last())
    }
}

/// The entries `git worktree list --porcelain` describes, or the first line
/// that came before any worktree header.
pub open spec fn porcelain_entries(input: Seq<char>) -> Result<Seq<EntryView>, Seq<char>> {
    let st = porcelain_fold(lines(input));
    match st.error {
        Some(line) => Err(line),
        None => match st.current {
            Some(e) => Ok(st.entries.push(e)),
            None => Ok(st.entries),
        },
    }
}

pub open spec fn porcelain_error_message(line: Seq<char>) -> Seq<char> {
    "unexpected porcelain line before worktree header: "@ + line
}

fn copy_entry(e: &GitWorktreeEntry) -> (r: GitWorktreeEntry)
    ensures
        r@ == e@,
{
    GitWorktreeEntry {
        path: e.path.clone(),
        head: match &e.head {
            Some(h) => Some(h.clone()),
            None => None,
        },
        branch: match &e.branch {
            Some(b) => Some(b.clone()),
            None => None,
        },
        detached: e.detached,
        bare: e.bare,
    }
}

proof fn lemma_entry_views_push(v: Seq<GitWorktreeEntry>, e: GitWorktreeEntry)
    ensures
        entry_views(v.push(e)) == entry_views(v).push(e@),
{
    assert(entry_views(v.push(e)) =~= entry_views(v).push(e@));
}

/// Parses `git worktree list --porcelain` output.
///
/// Fails with a git error naming the first non-empty line that comes
/// before any `worktree` header.
pub fn parse_worktree_porcelain(input: &str) -> (r: AppResult<Vec<GitWorktreeEntry>>)
    ensures
        match porcelain_entries(input@) {
            Ok(es) => r matches Ok(v) && entry_views(v@) == es,
            Err(line) => r matches Err(AppError::Git(m)) && m@ == porcelain_error_message(line),
        },
{
    let v = chars_of(input);
    let ranges = line_ranges(&v);
    let p_worktree = chars_of("worktree ");
    let p_head = chars_of("HEAD ");
    let p_branch = chars_of("branch ");
    let p_heads = chars_of("refs/heads/");
    let w_detached = chars_of("detached");
    let w_bare = chars_of("bare");
    let ghost ls = lines(v@);
    let mut entries: Vec<GitWorktreeEntry> = Vec::new();
    let mut current: Option<GitWorktreeEntry> = None;
    let mut i: usize = 0;
    assert(ls.take(0) =~= Seq::<Seq<char>>::empty());
    assert(entry_views(entries@) =~= Seq::<EntryView>::empty());
    while i < ranges.len()
        invariant
            v@ == input@,
            ls == lines(v@),
            range_views(v@, ranges@) == ls,
            forall|j: int| 0 <= j < ranges@.len() ==> (#[trigger] ranges@[j]).0 <= ranges@[j].1 <= v@.len(),
            p_worktree@ == "worktree "@,
            p_head@ == "HEAD "@,
            p_branch@ == "branch "@,
            p_heads@ == "refs/heads/"@,
            w_detached@ == "detached"@,
            w_bare@ == "bare"@,
            i <= ranges@.len(),
            porcelain_fold(ls.take(i as int)) == (PorcelainState {
                entries: entry_views(entries@),
                current: match current { Some(e) => Some(e@), None => None },
                error: None,
            }),
        decreases ranges@.len() - i,
    {
        let (lo, hi0) = ranges[i];
        let hi = trim_end_range(&v, lo, hi0);
        let ghost raw = v@.subrange(lo as int, hi0 as int);
        let ghost line = v@.subrange(lo as int, hi as int);
        let ghost pre = porcelain_fold(ls.take(i as int));
        proof {
            assert(ls[i as int] == raw);
            assert(ls.take(i + 1).drop_last() =~= ls.take(i as int));
            assert(ls.take(i + 1).last() == raw);
            assert(line == trim_end(raw));
        }
        if hi == lo {
            match current {
                Some(e) => {
                    let ghost ev = e@;
                    proof { lemma_entry_views_push(entries@, e); }
                    entries.push(e);
                    current = None;
                    assert(porcelain_fold(ls.take(i + 1)) == porcelain_step(pre, raw));
                },
                None => {},
            }
        } else if range_starts_with(&v, lo, hi, &p_worktree) {
            match current {
                Some(e) => {
                    proof { lemma_entry_views_push(entries@, e); }
                    entries.push(e);
                },
                None => {},
            }
            let path = string_of(&v, lo + p_worktree.len(), hi);
            proof {
                assert(line.skip("worktree "@.len() as int) =~= v@.subrange(
                    lo + p_worktree@.len(),
                    hi as int,
                ));
            }
            current = Some(GitWorktreeEntry { path, head: None, branch: None, detached: false, bare: false });
        } else {
            match current {
                None => {
                    let mut m = String::new();
                    m.append("unexpected porcelain line before worktree header: ");
                    let l = string_of(&v, lo, hi);
                    m.append(l.as_str());
                    proof {
                        // once an error is recorded, later lines change nothing
                        lemma_fold_error_sticks(ls, i as int + 1);
                        assert(ls.take(ls.len() as int) == ls);
                    }
                    return Err(AppError::Git(m));
                },
                Some(e) => {
                    let mut e2 = copy_entry(&e);
                    if range_starts_with(&v, lo, hi, &p_head) {
                        let h = string_of(&v, lo + p_head.len(), hi);
                        assert(line.skip("HEAD "@.len() as int) =~= h@);
                        e2.head = Some(h);
                    } else if range_starts_with(&v, lo, hi, &p_branch) {
                        let b0 = lo + p_branch.len();
                        assert(line.skip("branch "@.len() as int) =~= v@.subrange(b0 as int, hi as int));
                        let b = if range_starts_with(&v, b0, hi, &p_heads) {
                            let s = string_of(&v, b0 + p_heads.len(), hi);
                            assert(v@.subrange(b0 as int, hi as int).skip("refs/heads/"@.len() as int)
                                =~= s@);
                            s
                        } else {
                            string_of(&v, b0, hi)
                        };
                        e2.branch = Some(b);
                    } else if range_eq(&v, lo, hi, &w_detached) {
                        e2.detached = true;
                    } else if range_eq(&v, lo, hi, &w_bare) {
                        e2.bare = true;
                    }
                    current = Some(e2);
                },
            }
        }
        proof {
            assert(porcelain_fold(ls.take(i + 1)) == porcelain_step(pre, raw));
        }
        i = i + 1;
    }
    proof {
        assert(ls.take(ranges@.len() as int) =~= ls);
    }
    match current {
        Some(e) => {
            proof { lemma_entry_views_push(entries@, e); }
            entries.push(e);
        },
        None => {},
    }
    Ok(entries)
}

proof fn lemma_fold_error_sticks(ls: Seq<Seq<char>>, k: int)
    requires
        0 <= k <= ls.len(),
        porcelain_fold(ls.take(k)).error is Some,
    ensures
        porcelain_fold(ls).error == porcelain_fold(ls.take(k)).error,
    decreases ls.len() - k,
{
    if k < ls.len() {
        assert(ls.take(k + 1).drop_last() =~= ls.take(k));
        lemma_fold_error_sticks(ls, k + 1);
    } else {
        assert(ls.take(k) =~= ls);
    }
}

/// Whether `v[lo..hi]` equals `w`.
pub fn range_eq(v: &Vec<char>, lo: usize, hi: usize, w: &Vec<char>) -> (r: bool)
    requires
        lo <= hi <= v@.len(),
    ensures
        r == (v@.subrange(lo as int, hi as int) == w@),
{
    if hi - lo != w.len() {
        return false;
    }
    let r = range_starts_with(v, lo, hi, w);
    assert(v@.subrange(lo as int, hi as int).subrange(0, w@.len() as int) =~= v@.subrange(
        lo as int,
        hi as int,
    ));
    r
}


// ---------------------------------------------------------------------
// git cherry
// ---------------------------------------------------------------------

/// One line of `git cherry`: its first two words are a mark and a commit;
/// `-` marks a commit already applied upstream and `+` one that is not.
/// Lines of another shape are skipped.
pub open spec fn cherry_line(line: Seq<char>) -> Option<(bool, Seq<char>)> {
    match (first_word(line), first_word(after_first_word(line))) {
        (Some(m), Some(c)) => if m == seq!['-'] {
            Some((true, c))
        } else if m == seq!['+'] {
            Some((false, c))
        } else {
            None
        },
        _ => None,
    }
}

/// The marks of the lines of `git cherry` output.
pub open spec fn cherry_marks(ls: Seq<Seq<char>>) -> Seq<(bool, Seq<char>)>
    decreases ls.len(),
{
    if ls.len() == 0 {
        seq![]
    } else {
        let rest = cherry_marks(ls.drop_last());
        match cherry_line(ls.last()) {
            Some(m) => rest.push(m),
            None => rest,
        }
    }
}

pub open spec fn mark_views(v: Seq<CherryMark>) -> Seq<(bool, Seq<char>)> {
    v.map_values(|m: CherryMark| (m.applied, m.commit@))
}

/// The first word of `v[lo..hi]` as bounds, and where it ends.
fn word_at(v: &Vec<char>, lo: usize, hi: usize) -> (r: Option<(usize, usize)>)
    requires
        lo <= hi <= v@.len(),
    ensures
        match first_word(v@.subrange(lo as int, hi as int)) {
            Some(w) => r matches Some((a, b)) && lo <= a <= b <= hi && v@.subrange(a as int, b as int) == w
                && v@.subrange(b as int, hi as int) == after_first_word(v@.subrange(lo as int, hi as int)),
            None => r is None,
        },
{
    let a = trim_start_range(v, lo, hi);
    if a == hi {
        return None;
    }
    let b = word_end(v, a, hi);
    proof {
        let t = v@.subrange(a as int, hi as int);
        assert(t.take(word_len(t) as int) =~= v@.subrange(a as int, b as int));
        assert(t.skip(word_len(t) as int) =~= v@.subrange(b as int, hi as int));
    }
    Some((a, b))
}

/// Parses `git cherry <upstream> <head>` output.
#[verifier::spinoff_prover]
pub fn parse_cherry_output(output: &str) -> (r: Vec<CherryMark>)
    ensures
        mark_views(r@) == cherry_marks(lines(output@)),
{
    let v = chars_of(output);
    let rs = line_ranges(&v);
    let ghost ls = lines(v@);
    let mut marks: Vec<CherryMark> = Vec::new();
    let mut i: usize = 0;
    while i < rs.len()
        invariant
            ls == lines(v@),
            v@ == output@,
            range_views(v@, rs@) == ls,
            forall|k: int| 0 <= k < rs@.len() ==> (#[trigger] rs@[k]).0 <= rs@[k].1 <= v@.len(),
            i <= rs@.len(),
            mark_views(marks@) == cherry_marks(ls.take(i as int)),
        decreases rs@.len() - i,
    {
        let (lo, hi) = rs[i];
        assert(rs@[i as int].0 <= rs@[i as int].1 <= v@.len());
        let ghost line = v@.subrange(lo as int, hi as int);
        assert(ls[i as int] == line);
        proof {
            let pre = ls.take(i + 1);
            assert(pre.drop_last() =~= ls.take(i as int));
            assert(pre.last() == line);
        }
        let ghost before = mark_views(marks@);
        match word_at(&v, lo, hi) {
            Some((a, b)) => {
                match word_at(&v, b, hi) {
                    Some((c, d)) => {
                        let one = b - a == 1;
                        if one && v[a] == '-' {
                            assert(v@.subrange(a as int, b as int) =~= seq!['-']);
                            assert(cherry_line(line) == Some((true, v@.subrange(c as int, d as int))));
                            marks.push(CherryMark { applied: true, commit: string_of(&v, c, d) });
                            assert(mark_views(marks@) =~= before.push((true, v@.subrange(c as int, d as int))));
                        } else if one && v[a] == '+' {
                            assert(v@.subrange(a as int, b as int) =~= seq!['+']);
                            assert(seq!['+'][0] != seq!['-'][0]);
                            assert(v@.subrange(a as int, b as int) != seq!['-']);
                            assert(cherry_line(line) == Some((false, v@.subrange(c as int, d as int))));
                            marks.push(CherryMark { applied: false, commit: string_of(&v, c, d) });
                            assert(mark_views(marks@) =~= before.push((false, v@.subrange(c as int, d as int))));
                        } else {
                            proof {
                                assert(a <= b <= hi <= v@.len());
                                if v@.subrange(a as int, b as int) == seq!['-'] {
                                    assert(v@.subrange(a as int, b as int).len() == 1);
                                    assert(v@.subrange(a as int, b as int)[0] == v@[a as int]);
                                }
                                if v@.subrange(a as int, b as int) == seq!['+'] {
                                    assert(v@.subrange(a as int, b as int).len() == 1);
                                    assert(v@.subrange(a as int, b as int)[0] == v@[a as int]);
                                }
                                assert(cherry_line(line) is None);
                            }
                        }
                    },
                    None => {
                        assert(cherry_line(line) is None);
                    },
                }
            },
            None => {
                assert(cherry_line(line) is None);
            },
        }
        proof {
            let pre = ls.take(i + 1);
            assert(cherry_marks(pre) == match cherry_line(line) {
                Some(m) => cherry_marks(ls.take(i as int)).push(m),
                None => cherry_marks(ls.take(i as int)),
            });
        }
        i = i + 1;
    }
    assert(ls.take(ls.len() as int) =~= ls);
    marks
}

// ---------------------------------------------------------------------
// Small readings of git output
// ---------------------------------------------------------------------

/// A path git printed, made absolute against the directory it ran in.
pub open spec fn spec_absolutize(cwd: Seq<char>, value: Seq<char>) -> Seq<char> {
    if is_abs(value) { value } else { path_join(cwd, value) }
}

pub fn absolutize_git_path(cwd: &str, value: &str) -> (r: String)
    ensures
        r@ == spec_absolutize(cwd@, value@),
{
    join_path(cwd, value)
}

/// The trimmed output of a git query that succeeded, when there is any;
/// nothing otherwise.
pub open spec fn spec_query_value(success: bool, stdout: Seq<char>) -> Option<Seq<char>> {
    if success && trim(stdout).len() > 0 {
        Some(trim(stdout))
    } else {
        None
    }
}

/// The value a git query answered: its trimmed output when it succeeded
/// with any, as `rev-parse`, `remote get-url`, `log -1` and
/// `rev-parse --abbrev-ref` are read.
pub fn query_value(success: bool, stdout: &str) -> (r: Option<String>)
    ensures
        opt_view(r) == spec_query_value(success, stdout@),
{
    if !success {
        return None;
    }
    let t = trimmed(stdout);
    if t.as_str().is_empty() {
        None
    } else {
        Some(t)
    }
}

/// The current branch from `git branch --show-current`: none when the
/// trimmed output is empty.
pub open spec fn spec_current_branch(stdout: Seq<char>) -> Option<Seq<char>> {
    if trim(stdout).len() == 0 {
        None
    } else {
        Some(trim(stdout))
    }
}

pub fn current_branch_from(stdout: &str) -> (r: Option<String>)
    ensures
        opt_view(r) == spec_current_branch(stdout@),
{
    let t = trimmed(stdout);
    if t.as_str().is_empty() {
        None
    } else {
        Some(t)
    }
}

/// The remote's default branch from `git symbolic-ref --short
/// refs/remotes/origin/HEAD`: the trimmed output without `origin/`, when
/// it has that prefix and something after it.
pub open spec fn spec_remote_default_branch(stdout: Seq<char>) -> Option<Seq<char>> {
    match strip_prefix(trim(stdout), "origin/"@) {
        Some(b) => if b.len() > 0 { Some(b) } else { None },
        None => None,
    }
}

pub fn remote_default_branch_from(stdout: &str) -> (r: Option<String>)
    ensures
        opt_view(r) == spec_remote_default_branch(stdout@),
{
    let t = chars_of(stdout);
    let (a, b) = trim_range(&t, 0, t.len());
    assert(t@.subrange(0, t@.len() as int) == t@);
    let p = chars_of("origin/");
    if range_starts_with(&t, a, b, &p) {
        let start = a + p.len();
        proof {
            let tt = t@.subrange(a as int, b as int);
            assert(tt.skip(p@.len() as int) =~= t@.subrange(start as int, b as int));
        }
        if start < b {
            Some(string_of(&t, start, b))
        } else {
            None
        }
    } else {
        None
    }
}

/// Whether `git merge-base --is-ancestor` (or `show-ref --verify`)
/// answered yes (exit code 0), no (exit code 1), or failed.
pub open spec fn spec_yes_no(code: Option<i32>) -> Option<bool> {
    match code {
        Some(0) => Some(true),
        Some(1) => Some(false),
        _ => None,
    }
}

pub fn yes_no_from_exit(code: Option<i32>) -> (r: Option<bool>)
    ensures
        r == spec_yes_no(code),
{
    match code {
        Some(0) => Some(true),
        Some(1) => Some(false),
        _ => None,
    }
}

/// The repository `git rev-parse --git-common-dir --show-toplevel`
/// described when run in `cwd`: its top level, and its common directory
/// made absolute against `cwd`.
pub open spec fn spec_repository(cwd: Seq<char>, stdout: Seq<char>) -> Result<(Seq<char>, Seq<char>), Seq<char>> {
    let ls = lines(stdout);
    if ls.len() == 0 {
        Err("rev-parse did not return git common dir"@)
    } else if ls.len() == 1 {
        Err("rev-parse did not return top level"@)
    } else {
        Ok((ls[1], spec_absolutize(cwd, ls[0])))
    }
}

/// Reads the output of `git rev-parse --git-common-dir --show-toplevel`
/// run in `cwd` as (top level, common directory).
pub fn repository_from_rev_parse(cwd: &str, stdout: &str) -> (r: AppResult<(String, String)>)
    ensures
        match spec_repository(cwd@, stdout@) {
            Ok((top, common)) => r matches Ok((t, c)) && t@ == top && c@ == common,
            Err(m) => r matches Err(AppError::Git(x)) && x@ == m,
        },
{
    let v = chars_of(stdout);
    let rs = line_ranges(&v);
    proof {
        assert(range_views(v@, rs@).len() == rs@.len());
    }
    if rs.len() == 0 {
        return Err(AppError::Git("rev-parse did not return git common dir".to_owned()));
    }
    if rs.len() == 1 {
        return Err(AppError::Git("rev-parse did not return top level".to_owned()));
    }
    let (c0, c1) = rs[0];
    let (t0, t1) = rs[1];
    let common = string_of(&v, c0, c1);
    let top = string_of(&v, t0, t1);
    proof {
        assert(range_views(v@, rs@)[0] == v@.subrange(c0 as int, c1 as int));
        assert(range_views(v@, rs@)[1] == v@.subrange(t0 as int, t1 as int));
    }
    Ok((top, absolutize_git_path(cwd, common.as_str())))
}

/// What a failed git command is reported as: its trimmed error output,
/// or that git failed in `path` when it printed none.
pub open spec fn spec_git_failure(stderr: Seq<char>, path: Seq<char>) -> Seq<char> {
    if trim(stderr).len() == 0 {
        "git failed in "@ + path
    } else {
        trim(stderr)
    }
}

pub fn git_failure(stderr: &str, path: &str) -> (r: AppError)
    ensures
        r matches AppError::Git(m) && m@ == spec_git_failure(stderr@, path@),
{
    let t = trimmed(stderr);
    if t.as_str().is_empty() {
        let mut m = "git failed in ".to_owned();
        m.append(path);
        AppError::Git(m)
    } else {
        AppError::Git(t)
    }
}

/// Whether `git status --porcelain` in `path` found changes: any output
/// but blanks means yes; a failure is reported with git's error output,
/// or as a failed inspection of `path` when it printed none.
pub fn dirty_answer(success: bool, stdout: &str, stderr: &str, path: &str) -> (r: AppResult<bool>)
    ensures
        success ==> r == Ok::<bool, AppError>(trim(stdout@).len() > 0),
        !success ==> (r matches Err(AppError::Git(m)) && m@ == (if trim(stderr@).len() == 0 {
            "failed to inspect dirty state in "@ + path@
        } else {
            trim(stderr@)
        })),
{
    if success {
        let t = trimmed(stdout);
        return Ok(!t.as_str().is_empty());
    }
    let e = trimmed(stderr);
    if e.as_str().is_empty() {
        let mut m = "failed to inspect dirty state in ".to_owned();
        m.append(path);
        Err(AppError::Git(m))
    } else {
        Err(AppError::Git(e))
    }
}

} // verus!
