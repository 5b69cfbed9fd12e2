//! What the command line decides about how the game runs.

use vstd::prelude::*;

verus! {

/// Controls dynamic user input required to run the game in the desired way.
#[derive(Clone, Copy, Debug, PartialEq, Eq, Structural)]
pub struct UserInput {
    /// Runs the game in local mode, without matchmaking.
    pub local_only: bool,
}

/// The game runs without network dependencies (a local sync-test session).
pub open spec fn is_local_mode(args: UserInput) -> bool {
    args.local_only
}

/// The game runs with live networking (a peer-to-peer session found by matchmaking).
pub open spec fn is_p2p_mode(args: UserInput) -> bool {
    !args.local_only
}

/// Mode for no network dependencies.
pub fn local_mode(args: &UserInput) -> (r: bool)
    ensures
        r == is_local_mode(*args),
{
    args.local_only
}

/// Mode for live networking.
pub fn p2p_mode(args: &UserInput) -> (r: bool)
    ensures
        r == is_p2p_mode(*args),
{
    !args.local_only
}

/// Whatever the command line said, the game runs in exactly one of the two
/// modes: the local session and the matchmaking socket are never both started,
/// and never both left out.
pub proof fn lemma_exactly_one_mode(args: UserInput)
    ensures
        is_local_mode(args) != is_p2p_mode(args),
{
}

} // verus!
