//! Named sparse-checkout profiles for git worktrees: the configuration model,
//! the git invocations each operation makes, and the parsers for git's output.
use vstd::prelude::*;

pub mod config;
pub mod doctor;
pub mod git;
pub mod porcelain;
pub mod setup;
pub mod submodules;
pub mod text;

verus! {

/// The value a boolean setting takes when the configuration leaves it out.
pub fn default_true() -> (b: bool)
    ensures
        b,
{
    true
}

} // verus!
