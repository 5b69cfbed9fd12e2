use rusting_raceway::inputs::{
    encode_keys, is_pressed, read_local_inputs, PressedKeys, INPUT_DOWN, INPUT_LEFT, INPUT_RIGHT,
    INPUT_UP,
};

fn keys(up: bool, down: bool, left: bool, right: bool) -> PressedKeys {
    PressedKeys { up, down, left, right }
}

#[test]
fn flags_are_the_four_low_bits() {
    assert_eq!(INPUT_UP, 1);
    assert_eq!(INPUT_DOWN, 2);
    assert_eq!(INPUT_LEFT, 4);
    assert_eq!(INPUT_RIGHT, 8);
}

#[test]
fn no_keys_encode_to_zero() {
    assert_eq!(encode_keys(&keys(false, false, false, false)), 0);
}

#[test]
fn each_key_sets_its_own_flag() {
    assert_eq!(encode_keys(&keys(true, false, false, false)), INPUT_UP);
    assert_eq!(encode_keys(&keys(false, true, false, false)), INPUT_DOWN);
    assert_eq!(encode_keys(&keys(false, false, true, false)), INPUT_LEFT);
    assert_eq!(encode_keys(&keys(false, false, false, true)), INPUT_RIGHT);
    assert_eq!(encode_keys(&keys(true, false, true, false)), 5);
    assert_eq!(encode_keys(&keys(true, true, true, true)), 15);
}

#[test]
fn decoding_gives_back_the_keys() {
    for bits in 0u8..16 {
        let k = keys(bits & 1 != 0, bits & 2 != 0, bits & 4 != 0, bits & 8 != 0);
        let input = encode_keys(&k);
        assert_eq!(input, bits);
        assert_eq!(is_pressed(input, INPUT_UP), k.up);
        assert_eq!(is_pressed(input, INPUT_DOWN), k.down);
        assert_eq!(is_pressed(input, INPUT_LEFT), k.left);
        assert_eq!(is_pressed(input, INPUT_RIGHT), k.right);
    }
}

#[test]
fn is_pressed_reads_one_flag() {
    assert!(is_pressed(0b0110, INPUT_DOWN));
    assert!(!is_pressed(0b0110, INPUT_UP));
    assert!(!is_pressed(0, INPUT_RIGHT));
}

#[test]
fn every_local_player_gets_the_same_input() {
    let handles = vec![0usize, 1];
    let map = read_local_inputs(&handles, &keys(true, false, false, true));
    assert_eq!(map.len(), 2);
    assert_eq!(map.get(&0), Some(&9u8));
    assert_eq!(map.get(&1), Some(&9u8));
    assert_eq!(map.get(&2), None);
}

#[test]
fn no_local_players_give_an_empty_map() {
    let map = read_local_inputs(&Vec::new(), &keys(true, true, true, true));
    assert!(map.is_empty());
}

#[test]
fn a_repeated_handle_is_stored_once() {
    let map = read_local_inputs(&vec![3usize, 3], &keys(false, true, false, false));
    assert_eq!(map.len(), 1);
    assert_eq!(map.get(&3), Some(&INPUT_DOWN));
}
