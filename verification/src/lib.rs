//! Workroot: the machine-wide switchboard for git worktrees.
//!
//! This crate holds the verified core: the persisted data model, the
//! parsers for git and tmux output, repo and target resolution, discovery
//! merging, lineage proof for safe pruning, and every rendering of status.

pub mod text;
pub mod branch;
pub mod cli;
pub mod creation;
pub mod discovery;
pub mod domain;
pub mod error;
pub mod facts;
pub mod git;
pub mod ignore;
pub mod lineage;
pub mod merge;
pub mod paths;
pub mod pr;
pub mod prune;
pub mod push;
pub mod resolver;
pub mod scanning;
pub mod session;
pub mod shell;
pub mod status;
pub mod storage;
pub mod table;
