//! The error type of the library and the process exit code of each error.

use vstd::prelude::*;

use crate::text::{dec, push_decimal};

verus! {

/// Every way a Workroot command can fail.
///
/// Errors that wrap an I/O or parse failure carry that failure's message
/// as text.
#[derive(Debug, PartialEq, Eq)]
pub enum AppError {
    MissingDependency { name: String },
    AmbiguousRepo { input: String, candidates: String },
    AmbiguousTarget { repo: String, candidates: String },
    Picker(String),
    RepoNotFound(String),
    TargetNotFound { repo: String, target: String },
    StaleWorktree(String),
    FutureSchema { found: u32, supported: u32 },
    ReadFile { kind: String, path: String, source: String },
    WriteFile { kind: String, path: String, source: String },
    ParseJson { kind: String, path: String, source: String },
    ParseToml { kind: String, path: String, source: String },
    SerializeToml { kind: String, source: String },
    SerializeJson { kind: String, source: String },
    Git(String),
    CommandFailed(String),
    Io(String),
    Tmux(String),
    ManagedSessionNotFound { repo: String, target: String },
    UnsupportedShell(String),
    NotImplemented(String),
    InvalidCommand(String),
    MissingHome,
}

/// The result type of fallible Workroot operations.
pub type AppResult<T> = Result<T, AppError>;

/// The process exit code for an error.
pub open spec fn spec_exit_code(e: AppError) -> i32 {
    match e {
        AppError::InvalidCommand(_) => 2,
        AppError::AmbiguousRepo { .. } | AppError::AmbiguousTarget { .. } => 3,
        AppError::RepoNotFound(_) | AppError::TargetNotFound { .. } => 4,
        AppError::StaleWorktree(_) => 5,
        AppError::FutureSchema { .. } => 6,
        AppError::ReadFile { .. } | AppError::WriteFile { .. } | AppError::ParseJson { .. }
        | AppError::ParseToml { .. } | AppError::SerializeJson { .. }
        | AppError::SerializeToml { .. } | AppError::MissingHome => 7,
        AppError::MissingDependency { .. } => 8,
        AppError::Git(_) | AppError::CommandFailed(_) | AppError::Tmux(_) | AppError::Io(_) => 9,
        AppError::UnsupportedShell(_) => 10,
        AppError::ManagedSessionNotFound { .. } | AppError::Picker(_) => 11,
        AppError::NotImplemented(_) => 64,
    }
}

impl AppError {
    /// The process exit code for this error.
    pub fn exit_code(&self) -> (r: i32)
        ensures
            r == spec_exit_code(*self),
    {
        match self {
            AppError::InvalidCommand(_) => 2,
            AppError::AmbiguousRepo { .. } | AppError::AmbiguousTarget { .. } => 3,
            AppError::RepoNotFound(_) | AppError::TargetNotFound { .. } => 4,
            AppError::StaleWorktree(_) => 5,
            AppError::FutureSchema { .. } => 6,
            AppError::ReadFile { .. } | AppError::WriteFile { .. } | AppError::ParseJson { .. }
            | AppError::ParseToml { .. } | AppError::SerializeJson { .. }
            | AppError::SerializeToml { .. } | AppError::MissingHome => 7,
            AppError::MissingDependency { .. } => 8,
            AppError::Git(_) | AppError::CommandFailed(_) | AppError::Tmux(_)
            | AppError::Io(_) => 9,
            AppError::UnsupportedShell(_) => 10,
            AppError::ManagedSessionNotFound { .. } | AppError::Picker(_) => 11,
            AppError::NotImplemented(_) => 64,
        }
    }
}


/// The message of an error, as the user reads it.
pub open spec fn spec_message(e: AppError) -> Seq<char> {
    match e {
        AppError::MissingDependency { name } => "missing required dependency `"@ + name@ + "`\nfix: install `"@ + name@ + "` and retry\nnext: run `workroot status` to confirm Workroot can see your worktrees"@,
        AppError::AmbiguousRepo { input, candidates } => "repo `"@ + input@ + "` is ambiguous; candidates: "@ + candidates@ + "\nfix: pass the exact repo alias shown in `workroot status`"@,
        AppError::AmbiguousTarget { repo, candidates } => "target for repo `"@ + repo@ + "` is ambiguous; candidates: "@ + candidates@ + "\nfix: pass the exact target name shown in `workroot status "@ + repo@ + "`"@,
        AppError::Picker(m) => "interactive target selection failed: "@ + m@,
        AppError::RepoNotFound(r) => "repo `"@ + r@ + "` was not found\nfix: run `workroot discover` or `workroot discover <path-to-repo>`\nthen: run `workroot status`"@,
        AppError::TargetNotFound { repo, target } => "target `"@ + target@ + "` was not found for repo `"@ + repo@ + "`\nfix: run `workroot status "@ + repo@ + "` to see known targets"@,
        AppError::StaleWorktree(p) => "worktree path is stale: "@ + p@ + "\nfix: run `workroot discover` to refresh the index"@,
        AppError::FutureSchema { found, supported } => "state schema version "@ + dec(found as nat) + " is newer than supported version "@ + dec(supported as nat) + "; upgrade Workroot"@,
        AppError::ReadFile { kind, path, source } => "could not read "@ + kind@ + " file at "@ + path@ + ": "@ + source@,
        AppError::WriteFile { kind, path, source } => "could not write "@ + kind@ + " file at "@ + path@ + ": "@ + source@,
        AppError::ParseJson { kind, path, source } => "could not parse JSON "@ + kind@ + " file at "@ + path@ + ": "@ + source@,
        AppError::ParseToml { kind, path, source } => "could not parse TOML "@ + kind@ + " file at "@ + path@ + ": "@ + source@,
        AppError::SerializeToml { kind, source } => "could not serialize "@ + kind@ + ": "@ + source@,
        AppError::SerializeJson { kind, source } => "could not serialize "@ + kind@ + ": "@ + source@,
        AppError::Git(m) => "git command failed: "@ + m@,
        AppError::CommandFailed(c) => "command `"@ + c@ + "` failed"@,
        AppError::Io(m) => "I/O failed: "@ + m@,
        AppError::Tmux(m) => "tmux command failed: "@ + m@,
        AppError::ManagedSessionNotFound { repo, target } => "no Workroot-managed tmux session for `"@ + repo@ + "` `"@ + target@ + "`\nfix: run `workroot run "@ + repo@ + " "@ + target@ + " -- <command...>` first"@,
        AppError::UnsupportedShell(sh) => "unsupported shell `"@ + sh@ + "`; supported shells: zsh, bash, fish"@,
        AppError::NotImplemented(f) => "`"@ + f@ + "` is not implemented in the core foundation yet"@,
        AppError::InvalidCommand(m) => "invalid command: "@ + m@,
        AppError::MissingHome => "HOME is not set and no XDG directory override was provided"@,
    }
}

impl AppError {
    /// The message of this error, as the user reads it.
    pub fn message(&self) -> (r: String)
        ensures
            r@ == spec_message(*self),
    {
        let mut s = String::new();
        match self {
            AppError::MissingDependency { name } => {
                s.append("missing required dependency `");
                s.append(name.as_str());
                s.append("`\nfix: install `");
                s.append(name.as_str());
                s.append("` and retry\nnext: run `workroot status` to confirm Workroot can see your worktrees");
            },
            AppError::AmbiguousRepo { input, candidates } => {
                s.append("repo `");
                s.append(input.as_str());
                s.append("` is ambiguous; candidates: ");
                s.append(candidates.as_str());
                s.append("\nfix: pass the exact repo alias shown in `workroot status`");
            },
            AppError::AmbiguousTarget { repo, candidates } => {
                s.append("target for repo `");
                s.append(repo.as_str());
                s.append("` is ambiguous; candidates: ");
                s.append(candidates.as_str());
                s.append("\nfix: pass the exact target name shown in `workroot status ");
                s.append(repo.as_str());
                s.append("`");
            },
            AppError::Picker(m) => {
                s.append("interactive target selection failed: ");
                s.append(m.as_str());
            },
            AppError::RepoNotFound(r) => {
                s.append("repo `");
                s.append(r.as_str());
                s.append("` was not found\nfix: run `workroot discover` or `workroot discover <path-to-repo>`\nthen: run `workroot status`");
            },
            AppError::TargetNotFound { repo, target } => {
                s.append("target `");
                s.append(target.as_str());
                s.append("` was not found for repo `");
                s.append(repo.as_str());
                s.append("`\nfix: run `workroot status ");
                s.append(repo.as_str());
                s.append("` to see known targets");
            },
            AppError::StaleWorktree(p) => {
                s.append("worktree path is stale: ");
                s.append(p.as_str());
                s.append("\nfix: run `workroot discover` to refresh the index");
            },
            AppError::FutureSchema { found, supported } => {
                s.append("state schema version ");
                push_decimal(&mut s, *found as u64);
                s.append(" is newer than supported version ");
                push_decimal(&mut s, *supported as u64);
                s.append("; upgrade Workroot");
            },
            AppError::ReadFile { kind, path, source } => {
                s.append("could not read ");
                s.append(kind.as_str());
                s.append(" file at ");
                s.append(path.as_str());
                s.append(": ");
                s.append(source.as_str());
            },
            AppError::WriteFile { kind, path, source } => {
                s.append("could not write ");
                s.append(kind.as_str());
                s.append(" file at ");
                s.append(path.as_str());
                s.append(": ");
                s.append(source.as_str());
            },
            AppError::ParseJson { kind, path, source } => {
                s.append("could not parse JSON ");
                s.append(kind.as_str());
                s.append(" file at ");
                s.append(path.as_str());
                s.append(": ");
                s.append(source.as_str());
            },
            AppError::ParseToml { kind, path, source } => {
                s.append("could not parse TOML ");
                s.append(kind.as_str());
                s.append(" file at ");
                s.append(path.as_str());
                s.append(": ");
                s.append(source.as_str());
            },
            AppError::SerializeToml { kind, source } => {
                s.append("could not serialize ");
                s.append(kind.as_str());
                s.append(": ");
                s.append(source.as_str());
            },
            AppError::SerializeJson { kind, source } => {
                s.append("could not serialize ");
                s.append(kind.as_str());
                s.append(": ");
                s.append(source.as_str());
            },
            AppError::Git(m) => {
                s.append("git command failed: ");
                s.append(m.as_str());
            },
            AppError::CommandFailed(c) => {
                s.append("command `");
                s.append(c.as_str());
                s.append("` failed");
            },
            AppError::Io(m) => {
                s.append("I/O failed: ");
                s.append(m.as_str());
            },
            AppError::Tmux(m) => {
                s.append("tmux command failed: ");
                s.append(m.as_str());
            },
            AppError::ManagedSessionNotFound { repo, target } => {
                s.append("no Workroot-managed tmux session for `");
                s.append(repo.as_str());
                s.append("` `");
                s.append(target.as_str());
                s.append("`\nfix: run `workroot run ");
                s.append(repo.as_str());
                s.append(" ");
                s.append(target.as_str());
                s.append(" -- <command...>` first");
            },
            AppError::UnsupportedShell(sh) => {
                s.append("unsupported shell `");
                s.append(sh.as_str());
                s.append("`; supported shells: zsh, bash, fish");
            },
            AppError::NotImplemented(f) => {
                s.append("`");
                s.append(f.as_str());
                s.append("` is not implemented in the core foundation yet");
            },
            AppError::InvalidCommand(m) => {
                s.append("invalid command: ");
                s.append(m.as_str());
            },
            AppError::MissingHome => {
                s.append("HOME is not set and no XDG directory override was provided");
            },
        }
        assert(s@ =~= spec_message(*self));
        s
    }
}

} // verus!
