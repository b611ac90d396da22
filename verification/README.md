# workroot

A machine-wide switchboard for git worktrees: it indexes repositories and
their worktrees, resolves `repo target` names to paths, creates, pushes and
prunes worktrees, and shows a status radar that includes tmux sessions.

## Layout

- `src/` is the library, written in Verus. Every decision the tool takes is
  a verified function with a contract: parsing git and tmux output, name
  resolution, the index merge, the status tables and radar, session
  bookkeeping, storage paths, and the multi-step operations (push, pull
  request, merge, branch, detach, new worktree, prune, merge-proof lineage).
  The multi-step operations are written as step functions: given what is
  known so far, they name the next question for git (or gh) or the next
  action, and finally the outcome.
- `app/` is the `workroot` binary: argument parsing, the stored files
  (JSON and TOML, with file locks and atomic writes), and running git, gh
  and tmux to answer the library's steps.
- `tests/` exercises the library on concrete values.

## Trust

The library reads the machine only through three unverified probes in
`src/facts.rs` (path existence, canonical paths, the clock). They promise
nothing about what they return, so they carry no `ensures`: the functions
that use their answers are verified for every possible answer. The one
trusted item with a contract is the wrapper of `String::push` in
`src/text.rs`, which states that the character is appended. Everything
else in `src/` is proved.
