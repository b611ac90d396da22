//! The command line: the commands and their arguments, and the decisions
//! taken on them before any work is done.

use vstd::prelude::*;

use crate::domain::{repo_views, worktree_views, Cache};
use crate::error::AppError;
use crate::resolver::{repo_completions, repo_error_is, spec_resolve_repo, target_completions, Resolver};
use crate::shell::Shell;
use crate::text::{join, join_strings, views};

verus! {

/// A parsed command line.
#[derive(Debug, PartialEq, Eq)]
pub struct Cli {
    pub command: Commands,
}

/// The top-level commands.
#[derive(Debug, PartialEq, Eq)]
pub enum Commands {
    Worktree { command: WorktreeCommand },
    Workdir { command: WorktreeCommand },
    Tmux { command: TmuxCommand },
    ShellInit { shell: ShellName },
    List { refresh: bool, project: Option<String>, repo: Option<String> },
    Status { refresh: bool, json: bool, output: Option<OutputFormat>, repo: Option<String>, target: Option<String> },
    Audit,
    Sessions,
    Push { output: Option<OutputFormat>, repo: String, target: String },
    Prune { repo: Option<String>, target: Option<String> },
    Path { output: Option<OutputFormat>, repo: String, target: Option<String> },
    Cd { repo: String, target: Option<String> },
    New { output: Option<OutputFormat>, repo: String, target: String },
    Discover { path: Option<String> },
    Ignore { repo: String },
    Unignore { repo: String },
    Adopt { path: String },
    Run { repo: String, target: String, command: Vec<String> },
    Pair { repo: String, target: String, command: Vec<String> },
    Attach { repo: String, target: String },
    Complete { kind: CompleteKind, repo: Option<String>, prefix: Option<String> },
}

/// The commands under `worktree` (and `workdir`).
#[derive(Debug, PartialEq, Eq)]
pub enum WorktreeCommand {
    Scan,
    List { refresh: bool, project: Option<String>, repo: Option<String> },
    Audit,
    Prune { repo: Option<String>, target: Option<String> },
    Path { repo: String, target: Option<String> },
    Cd { repo: String, target: Option<String> },
    New { repo: String, target: String },
    Push { repo: String, target: String },
    Adopt { path: String },
    Run { repo: String, target: String, command: Vec<String> },
}

/// The commands under `tmux`.
#[derive(Debug, PartialEq, Eq)]
pub enum TmuxCommand {
    List,
    Pair { repo: String, target: String, command: Vec<String> },
    Attach { repo: String, target: String },
}

/// A shell named on the command line.
#[derive(Debug, Clone, Copy, PartialEq, Eq, Structural)]
pub enum ShellName {
    Zsh,
    Bash,
    Fish,
}

/// What `complete` lists.
#[derive(Debug, Clone, Copy, PartialEq, Eq, Structural)]
pub enum CompleteKind {
    Repos,
    Targets,
}

/// How a command prints its result.
#[derive(Debug, Clone, Copy, PartialEq, Eq, Structural)]
pub enum OutputFormat {
    Text,
    Json,
}

impl ShellName {
    /// The shell this name stands for.
    pub fn shell(self) -> (r: Shell)
        ensures
            r == match self {
                ShellName::Zsh => Shell::Zsh,
                ShellName::Bash => Shell::Bash,
                ShellName::Fish => Shell::Fish,
            },
    {
        match self {
            ShellName::Zsh => Shell::Zsh,
            ShellName::Bash => Shell::Bash,
            ShellName::Fish => Shell::Fish,
        }
    }
}

/// Text output unless another format is asked for.
pub fn output_or_text(output: Option<OutputFormat>) -> (r: OutputFormat)
    ensures
        r == match output {
            Some(o) => o,
            None => OutputFormat::Text,
        },
{
    match output {
        Some(o) => o,
        None => OutputFormat::Text,
    }
}

/// The format of `status`: `--json` means JSON, and contradicts
/// `--output text`.
pub fn status_output_format(json: bool, output: Option<OutputFormat>) -> (r: Result<OutputFormat, AppError>)
    ensures
        json && output == Some(OutputFormat::Text) ==> (r matches Err(AppError::InvalidCommand(m)) && m@
            == "pass either `--json` or `--output json`; `--json --output text` is contradictory"@),
        json && output != Some(OutputFormat::Text) ==> r == Ok::<OutputFormat, AppError>(OutputFormat::Json),
        !json ==> r == Ok::<OutputFormat, AppError>(
            match output {
                Some(o) => o,
                None => OutputFormat::Text,
            },
        ),
{
    match (json, output) {
        (true, Some(OutputFormat::Text)) => Err(
            AppError::InvalidCommand(
                "pass either `--json` or `--output json`; `--json --output text` is contradictory".to_owned(),
            ),
        ),
        (true, _) => Ok(OutputFormat::Json),
        (false, Some(o)) => Ok(o),
        (false, None) => Ok(OutputFormat::Text),
    }
}

/// The repo `list` is limited to: given positionally or with `--project`,
/// not both.
pub fn list_repo_filter<'a>(project: Option<&'a str>, repo: Option<&'a str>) -> (r: Result<Option<&'a str>, AppError>)
    ensures
        match (project, repo) {
            (Some(_), Some(_)) => r matches Err(AppError::InvalidCommand(m)) && m@
                == "pass either `workroot list <repo>` or `workroot list --project <repo>`, not both"@,
            (Some(p), None) => r == Ok::<Option<&'a str>, AppError>(Some(p)),
            (None, Some(x)) => r == Ok::<Option<&'a str>, AppError>(Some(x)),
            (None, None) => r == Ok::<Option<&'a str>, AppError>(None),
        },
{
    match (project, repo) {
        (Some(_), Some(_)) => Err(
            AppError::InvalidCommand(
                "pass either `workroot list <repo>` or `workroot list --project <repo>`, not both".to_owned(),
            ),
        ),
        (Some(p), None) => Ok(Some(p)),
        (None, Some(x)) => Ok(Some(x)),
        (None, None) => Ok(None),
    }
}

/// Completion candidates as printed: one per line, nothing when none.
pub open spec fn spec_completion_text(cs: Seq<Seq<char>>) -> Seq<char> {
    if cs.len() == 0 {
        seq![]
    } else {
        join(cs, "\n"@) + "\n"@
    }
}

pub fn completion_text(candidates: &Vec<String>) -> (r: String)
    ensures
        r@ == spec_completion_text(views(candidates@)),
{
    if candidates.len() == 0 {
        return String::new();
    }
    let mut s = join_strings(candidates, "\n");
    s.append("\n");
    s
}

/// The candidates `complete` prints: repo names that complete the first
/// argument, or the targets of the repo the first argument names that
/// complete the second.
pub fn complete_candidates(
    cache: &Cache,
    kind: CompleteKind,
    repo_or_prefix: Option<&str>,
    prefix: Option<&str>,
) -> (r: Result<Vec<String>, AppError>)
    ensures
        match kind {
            CompleteKind::Repos => r matches Ok(v) && views(v@) == repo_completions(
                repo_views(cache.repos@),
                match repo_or_prefix {
                    Some(p) => p@,
                    None => seq![],
                },
            ),
            CompleteKind::Targets => match repo_or_prefix {
                None => r matches Err(AppError::InvalidCommand(m)) && m@ == "expected repo for target completion"@,
                Some(repo) => match spec_resolve_repo(repo_views(cache.repos@), repo@) {
                    Ok(rec) => r matches Ok(v) && views(v@) == target_completions(
                        worktree_views(cache.worktrees@),
                        rec.alias,
                        match prefix {
                            Some(p) => p@,
                            None => seq![],
                        },
                    ),
                    Err((code, text)) => r matches Err(e) && repo_error_is(e, code, text, repo@),
                },
            },
        },
{
    let resolver = Resolver::new(cache.duplicate());
    match kind {
        CompleteKind::Repos => Ok(resolver.complete_repos(repo_or_prefix)),
        CompleteKind::Targets => match repo_or_prefix {
            None => Err(AppError::InvalidCommand("expected repo for target completion".to_owned())),
            Some(repo) => resolver.complete_targets(repo, prefix),
        },
    }
}

/// A path as printed on its own line.
pub fn path_line(path: &str) -> (r: String)
    ensures
        r@ == path@ + "\n"@,
{
    let mut s = path.to_owned();
    s.append("\n");
    s
}

/// A path printed by `new` with its line ending removed, for JSON.
pub open spec fn strip_newlines(s: Seq<char>) -> Seq<char>
    decreases s.len(),
{
    if s.len() > 0 && s.last() == '\n' {
        strip_newlines(s.drop_last())
    } else {
        s
    }
}

pub fn trim_newlines(s: &str) -> (r: String)
    ensures
        r@ == strip_newlines(s@),
{
    let v = crate::text::chars_of(s);
    let mut n = v.len();
    assert(v@.subrange(0, v@.len() as int) =~= v@);
    while n > 0 && v[n - 1] == '\n'
        invariant
            n <= v@.len(),
            strip_newlines(v@.subrange(0, n as int)) == strip_newlines(s@),
            v@ == s@,
        decreases n,
    {
        assert(v@.subrange(0, n as int).drop_last() =~= v@.subrange(0, n - 1));
        n = n - 1;
    }
    proof {
        let t = v@.subrange(0, n as int);
        if n > 0 {
            assert(t.last() == v@[n - 1]);
        }
        assert(strip_newlines(t) == t);
    }
    crate::text::string_of(&v, 0, n)
}

} // verus!
