//! Player input: the movement keys packed into one byte of bit flags.

use vstd::prelude::*;
use bevy_platform::collections::HashMap;
use bevy_platform::hash::FixedHasher;

verus! {

/// Bit flag set when the up key (arrow up or W) is held.
pub const INPUT_UP: u8 = 1 << 0;

/// Bit flag set when the down key (arrow down or S) is held.
pub const INPUT_DOWN: u8 = 1 << 1;

/// Bit flag set when the left key (arrow left or A) is held.
pub const INPUT_LEFT: u8 = 1 << 2;

/// Bit flag set when the right key (arrow right or D) is held.
pub const INPUT_RIGHT: u8 = 1 << 3;

/// Which movement keys are held down during the current frame.
#[derive(Clone, Copy, Debug, PartialEq, Eq, Structural)]
pub struct PressedKeys {
    pub up: bool,
    pub down: bool,
    pub left: bool,
    pub right: bool,
}

/// `bevy_platform::hash::FixedHasher`, the hasher that `bevy_platform`'s maps use
/// by default, declared so that the map type below can name it. Opaque.
#[verifier::external_type_specification]
#[verifier::external_body]
pub struct ExFixedHasher(FixedHasher);

/// `bevy_platform::collections::HashMap`, the map from player handle to that
/// player's input byte that the network session is handed each frame. Opaque: what
/// it holds is named by `input_map_contents`.
#[verifier::external_type_specification]
#[verifier::external_body]
#[verifier::reject_recursive_types(K)]
#[verifier::reject_recursive_types(V)]
#[verifier::reject_recursive_types(S)]
pub struct ExHashMap<K, V, S>(HashMap<K, V, S>);

/// The map of local inputs that one frame hands to the network session.
pub type LocalInputMap = HashMap<usize, u8, FixedHasher>;

/// What a map of local inputs holds: each player handle it has a key for, and the
/// input byte stored under it.
pub uninterp spec fn input_map_contents(m: LocalInputMap) -> Map<usize, u8>;

/// `bevy_platform::collections::HashMap::new`: an empty map (the source builds an
/// empty `hashbrown` map with the fixed hasher).
#[verifier::external_body]
fn new_input_map() -> (map: LocalInputMap)
    ensures
        input_map_contents(map).dom() == Set::<usize>::empty(),
{
    HashMap::new()
}

/// `bevy_platform::collections::HashMap::insert`: afterwards the map holds `input`
/// under `handle`, every other entry as before (the source forwards to
/// `hashbrown`'s `insert`, which replaces the value of an equal key).
#[verifier::external_body]
fn insert_input(m: &mut LocalInputMap, handle: usize, input: u8)
    ensures
        input_map_contents(*final(m)) == input_map_contents(*old(m)).insert(handle, input),
{
    m.insert(handle, input);
}

/// Whether the flag `mask` is set in the input byte.
pub open spec fn has_flag(input: u8, mask: u8) -> bool {
    input & mask != 0
}

/// The byte that records the keys: the flag of each held key, and nothing else.
pub open spec fn spec_encode(keys: PressedKeys) -> u8 {
    (if keys.up { INPUT_UP } else { 0u8 }) | (if keys.down { INPUT_DOWN } else { 0u8 }) | (
    if keys.left { INPUT_LEFT } else { 0u8 }) | (if keys.right { INPUT_RIGHT } else { 0u8 })
}

/// The keys that an input byte records.
pub open spec fn spec_decode(input: u8) -> PressedKeys {
    PressedKeys {
        up: has_flag(input, INPUT_UP),
        down: has_flag(input, INPUT_DOWN),
        left: has_flag(input, INPUT_LEFT),
        right: has_flag(input, INPUT_RIGHT),
    }
}

/// Whether the flag `mask` is set in `input`.
pub fn is_pressed(input: u8, mask: u8) -> (r: bool)
    ensures
        r == has_flag(input, mask),
{
    input & mask != 0
}

/// Packs the held keys into one byte by OR-ing in the flag of each held key.
pub fn encode_keys(keys: &PressedKeys) -> (input: u8)
    ensures
        input == spec_encode(*keys),
{
    let up: u8 = if keys.up { INPUT_UP } else { 0 };
    let down: u8 = if keys.down { INPUT_DOWN } else { 0 };
    let left: u8 = if keys.left { INPUT_LEFT } else { 0 };
    let right: u8 = if keys.right { INPUT_RIGHT } else { 0 };
    up | down | left | right
}

/// The inputs of the local players for this frame: every local player's handle
/// mapped to the byte that encodes the held keys (all local players read the
/// same keyboard).
pub fn read_local_inputs(local_players: &Vec<usize>, keys: &PressedKeys) -> (local_inputs: LocalInputMap)
    ensures
        input_map_contents(local_inputs).dom() == local_players@.to_set(),
        forall|h: usize| #[trigger]
            local_players@.contains(h) ==> input_map_contents(local_inputs)[h] == spec_encode(*keys),
{
    let mut local_inputs = new_input_map();
    let mut i: usize = 0;
    while i < local_players.len()
        invariant
            i <= local_players.len(),
            input_map_contents(local_inputs).dom() == local_players@.subrange(0, i as int).to_set(),
            forall|h: usize| #[trigger]
                input_map_contents(local_inputs).dom().contains(h) ==> input_map_contents(
                    local_inputs,
                )[h] == spec_encode(*keys),
        decreases local_players.len() - i,
    {
        let input: u8 = encode_keys(keys);
        insert_input(&mut local_inputs, local_players[i], input);
        proof {
            assert(local_players@.subrange(0, i + 1) == local_players@.subrange(0, i as int).push(
                local_players@[i as int],
            ));
            local_players@.subrange(0, i as int).lemma_push_to_set_commute(local_players@[i as int]);
        }
        i = i + 1;
    }
    assert(local_players@.subrange(0, i as int) == local_players@);
    assert forall|h: usize| #[trigger] local_players@.contains(h) implies input_map_contents(
        local_inputs,
    )[h] == spec_encode(*keys) by {
        assert(local_players@.to_set().contains(h));
    }
    local_inputs
}

/// Each flag is a single bit, and no two flags share a bit, so every key has a
/// place of its own in the byte.
pub proof fn lemma_flags_are_distinct_bits()
    ensures
        INPUT_UP == 1 && INPUT_DOWN == 2 && INPUT_LEFT == 4 && INPUT_RIGHT == 8,
        INPUT_UP & INPUT_DOWN == 0 && INPUT_UP & INPUT_LEFT == 0 && INPUT_UP & INPUT_RIGHT == 0,
        INPUT_DOWN & INPUT_LEFT == 0 && INPUT_DOWN & INPUT_RIGHT == 0,
        INPUT_LEFT & INPUT_RIGHT == 0,
{
    assert(1u8 << 0u8 == 1u8 && 1u8 << 1u8 == 2u8 && 1u8 << 2u8 == 4u8 && 1u8 << 3u8 == 8u8)
        by (bit_vector);
    assert(1u8 & 2u8 == 0 && 1u8 & 4u8 == 0 && 1u8 & 8u8 == 0 && 2u8 & 4u8 == 0 && 2u8 & 8u8 == 0
        && 4u8 & 8u8 == 0) by (bit_vector);
}

/// Reading the flags back out of an encoded byte gives exactly the keys that
/// were held: the masks with AND recover what OR put in.
pub proof fn lemma_decode_encode(keys: PressedKeys)
    ensures
        spec_decode(spec_encode(keys)) == keys,
{
    lemma_flags_are_distinct_bits();
    let (a, b, c, d) = (keys.up, keys.down, keys.left, keys.right);
    let x: u8 = spec_encode(keys);
    assert(x == (if a { 1u8 } else { 0u8 }) | (if b { 2u8 } else { 0u8 }) | (if c { 4u8 } else { 0u8 })
        | (if d { 8u8 } else { 0u8 }));
    assert((x & 1u8 != 0) == a && (x & 2u8 != 0) == b && (x & 4u8 != 0) == c && (x & 8u8 != 0) == d)
        by (bit_vector)
        requires
            x == (if a { 1u8 } else { 0u8 }) | (if b { 2u8 } else { 0u8 }) | (if c { 4u8 } else { 0u8 })
                | (if d { 8u8 } else { 0u8 }),
    ;
}

/// Encoding the keys that a byte records gives back that byte's four low bits:
/// every byte whose high bits are clear is the encoding of exactly one key state.
pub proof fn lemma_encode_decode(input: u8)
    ensures
        spec_encode(spec_decode(input)) == input & 0x0f,
{
    lemma_flags_are_distinct_bits();
    let x: u8 = spec_encode(spec_decode(input));
    assert(x == (if input & 1u8 != 0 { 1u8 } else { 0u8 }) | (if input & 2u8 != 0 { 2u8 } else { 0u8 })
        | (if input & 4u8 != 0 { 4u8 } else { 0u8 }) | (if input & 8u8 != 0 { 8u8 } else { 0u8 }));
    assert((if input & 1u8 != 0 { 1u8 } else { 0u8 }) | (if input & 2u8 != 0 { 2u8 } else { 0u8 }) | (
    if input & 4u8 != 0 { 4u8 } else { 0u8 }) | (if input & 8u8 != 0 { 8u8 } else { 0u8 }) == input
        & 0x0fu8) by (bit_vector);
}

} // verus!
