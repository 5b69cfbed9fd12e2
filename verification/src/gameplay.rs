//! Moving the players around their paths: which point of the path each player
//! last crossed, and which two points they move between.

use vstd::prelude::*;
use crate::inputs::{has_flag, INPUT_UP};

verus! {

/// Where a player is on its path: the player's handle, which picks both its path
/// and its input, and the index of the last path point it crossed.
#[derive(Clone, Copy, Debug, PartialEq, Eq, Structural)]
pub struct PlayerProgress {
    pub handle: usize,
    pub pos_index: usize,
}

/// The two path points a player is between: the last one it crossed and the one
/// it is heading for.
#[derive(Clone, Copy, Debug, PartialEq, Eq, Structural)]
pub struct PathSegment {
    pub last: usize,
    pub next: usize,
}

/// The point after `index` on a closed path of `path_len` points: the path wraps
/// from its last point back to its first.
pub open spec fn following(index: int, path_len: int) -> int {
    (index + 1) % path_len
}

/// The players at the start of a race: one per handle, each at the first point of
/// its own path.
pub fn spawn_players(num_players: usize) -> (players: Vec<PlayerProgress>)
    ensures
        players.len() == num_players,
        forall|i: int|
            0 <= i < num_players ==> #[trigger] players@[i] == (PlayerProgress {
                handle: i as usize,
                pos_index: 0,
            }),
{
    let mut players: Vec<PlayerProgress> = Vec::new();
    let mut player_id: usize = 0;
    while player_id < num_players
        invariant
            player_id <= num_players,
            players.len() == player_id,
            forall|i: int|
                0 <= i < player_id ==> #[trigger] players@[i] == (PlayerProgress {
                    handle: i as usize,
                    pos_index: 0,
                }),
        decreases num_players - player_id,
    {
        players.push(PlayerProgress { handle: player_id, pos_index: 0 });
        player_id = player_id + 1;
    }
    players
}

/// Whether a player's input asks it to move along its track this frame: the
/// forward key (up, or W) is held.
pub fn moves_forward(input: u8) -> (forward: bool)
    ensures
        forward == has_flag(input, INPUT_UP),
{
    input & INPUT_UP != 0
}

/// The two points a player is between: the last one it crossed and the one after
/// it on the path.
pub fn current_segment(player: &PlayerProgress, path_len: usize) -> (segment: PathSegment)
    requires
        player.pos_index < path_len,
    ensures
        segment.last == player.pos_index,
        segment.next == following(player.pos_index as int, path_len as int),
        segment.next < path_len,
{
    PathSegment { last: player.pos_index, next: (player.pos_index + 1) % path_len }
}

/// Moves a player on to the next point once it has traveled past it: the next
/// point becomes the last one crossed. Returns the two points the player is now
/// between.
pub fn advance_along_path(player: &mut PlayerProgress, path_len: usize, passed_next_point: bool) -> (segment:
    PathSegment)
    requires
        old(player).pos_index < path_len,
    ensures
        final(player).handle == old(player).handle,
        final(player).pos_index == (if passed_next_point {
            following(old(player).pos_index as int, path_len as int)
        } else {
            old(player).pos_index as int
        }),
        final(player).pos_index < path_len,
        segment.last == final(player).pos_index,
        segment.next == following(final(player).pos_index as int, path_len as int),
{
    let next_index: usize = (player.pos_index + 1) % path_len;
    if passed_next_point {
        player.pos_index = next_index;
        PathSegment { last: next_index, next: (next_index + 1) % path_len }
    } else {
        PathSegment { last: player.pos_index, next: next_index }
    }
}

/// Where a player starting at `start` is after passing `passes` points.
pub open spec fn position_after(start: int, path_len: int, passes: nat) -> int
    decreases passes,
{
    if passes == 0 {
        start
    } else {
        following(position_after(start, path_len, (passes - 1) as nat), path_len)
    }
}

/// Passing points moves a player that many places along its closed path: after
/// `passes` points it is `passes` places on, counted around the loop, and after
/// as many points as the path has it is back where it started.
pub proof fn lemma_laps(start: int, path_len: int, passes: nat)
    requires
        0 <= start < path_len,
    ensures
        position_after(start, path_len, passes) == (start + passes) % path_len,
        passes == path_len ==> position_after(start, path_len, passes) == start,
    decreases passes,
{
    if passes == 0 {
        vstd::arithmetic::div_mod::lemma_small_mod(start as nat, path_len as nat);
    } else {
        lemma_laps(start, path_len, (passes - 1) as nat);
        let before: int = (start + passes - 1) % path_len;
        assert((before + 1) % path_len == (start + passes) % path_len) by {
            vstd::arithmetic::div_mod::lemma_add_mod_noop_right(1, start + passes - 1, path_len);
        }
    }
    if passes == path_len {
        vstd::arithmetic::div_mod::lemma_mod_add_multiples_vanish(start, path_len);
        vstd::arithmetic::div_mod::lemma_small_mod(start as nat, path_len as nat);
    }
}

} // verus!
