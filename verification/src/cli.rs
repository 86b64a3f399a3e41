//! The command-line surface as plain data — the option and argument records
//! commands receive — and the command-level decisions that guard them. The
//! argument parser, prompts and printing live outside this crate and hand
//! these records in.

use vstd::prelude::*;
use crate::errors::SproutError;
use crate::strutil::str_eq;

verus! {

/// Top-level options: the project path, whether to print JSON, and the
/// chosen command.
pub struct Options {
    pub path: String,
    pub json: bool,
    pub subcommand: SubCommand,
}

/// The commands the tool offers.
pub enum SubCommand {
    Init,
    Repo(RepoArgs),
    Snap(SnapArgs),
    Seed(SeedArgs),
    UnStash(UnStashArgs),
    Stash(StashArgs),
    Ls,
    Update,
}

pub struct SnapArgs {
    pub branch: Option<String>,
    pub label: Option<String>,
    pub desc: Option<String>,
}

pub struct SeedArgs {
    pub no_stash: bool,
    pub snapshot_id: Option<String>,
}

pub struct RepoArgs {
    pub subcommand: RepoCommand,
}

pub struct StashArgs {
    pub subcommand: Option<StashCommand>,
}

pub enum RepoCommand {
    New(RepoNewArgs),
    Init(RepoInitArgs),
    List,
    Use(RepoUseArgs),
}

pub enum StashCommand {
    List,
    Drop(StashDropArgs),
}

pub struct RepoInitArgs {
    pub label: String,
    pub repo_key: Option<String>,
}

pub struct RepoNewArgs {
    pub label: String,
}

pub struct RepoUseArgs {
    pub label: String,
}

pub struct UnStashArgs {
    pub snapshot_id: Option<String>,
}

pub struct StashDropArgs {
    pub snapshot_id: String,
}

/// What a finished command reports: a message, and optional structured data.
pub struct CliResponse {
    pub msg: String,
    pub data: Option<String>,
}

/// Whether taking a snapshot must first switch the project's content branch:
/// only when a branch was requested and differs from the current one. The
/// caller asks the operator before switching.
pub fn branch_switch_target(requested: &Option<String>, current: &str) -> (r: Option<String>)
    ensures
        match requested {
            Some(b) => if b@ == current@ {
                r is None
            } else {
                r matches Some(t) && t@ == b@
            },
            None => r is None,
        },
{
    match requested {
        Some(b) => {
            if str_eq(b.as_str(), current) {
                None
            } else {
                Some(b.clone())
            }
        },
        None => None,
    }
}

/// The seeding decision for an explicitly named snapshot: restoring one that
/// carries another project's identity is refused outright when stashing is
/// disabled, and merely flagged when a safety stash will be taken first.
/// `Ok(true)` means the snapshot verifiably belongs to this project.
pub open spec fn spec_seed_decision(
    snapshot_identity: Seq<char>,
    local_identity: Option<Seq<char>>,
    no_stash: bool,
) -> Result<bool, SproutError> {
    match local_identity {
        Some(l) => if snapshot_identity == l {
            Ok(true)
        } else if no_stash {
            Err(SproutError::IdentityConflict)
        } else {
            Ok(false)
        },
        None => Ok(false),
    }
}

/// Decide whether an explicitly named snapshot may be seeded; mirrors
/// `spec_seed_decision`.
pub fn seed_guard(snapshot_identity: &str, local_identity: &Option<String>, no_stash: bool) -> (r:
    Result<bool, SproutError>)
    ensures
        r == spec_seed_decision(
            snapshot_identity@,
            match local_identity {
                Some(l) => Some(l@),
                None => None,
            },
            no_stash,
        ),
{
    match local_identity {
        Some(l) => {
            if str_eq(snapshot_identity, l.as_str()) {
                Ok(true)
            } else if no_stash {
                Err(SproutError::IdentityConflict)
            } else {
                Ok(false)
            }
        },
        None => Ok(false),
    }
}

} // verus!
