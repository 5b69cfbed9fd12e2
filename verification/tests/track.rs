use rusting_raceway::gameplay::{
    advance_along_path, current_segment, moves_forward, spawn_players, PathSegment, PlayerProgress,
};
use rusting_raceway::physics::{
    bend_step_count, determine_player_path, determine_track_points, valid_bend_sections,
};

#[test]
fn track_points_mirror_the_path() {
    let path = vec![(1, 5), (2, 6), (3, 7)];
    let points = determine_track_points(path, |(x, y): (i32, i32)| (-x, y));
    assert_eq!(points, vec![(1, 5), (2, 6), (3, 7), (-3, 7), (-2, 6), (-1, 5)]);
}

#[test]
fn empty_path_gives_empty_track() {
    let points = determine_track_points(Vec::<(i32, i32)>::new(), |(x, y): (i32, i32)| (-x, y));
    assert!(points.is_empty());
}

#[test]
fn player_path_runs_start_bend_mirror_end() {
    let points = determine_player_path((9, 3), (-5, 3), vec![(-6, 2), (-7, 1)], (9, -3), |(x, y): (i32, i32)| (x, -y));
    assert_eq!(points, vec![(9, 3), (-5, 3), (-6, 2), (-7, 1), (-7, -1), (-6, -2), (9, -3)]);
}

#[test]
fn bend_steps_count_the_even_sections_from_two() {
    assert_eq!(bend_step_count(0), 0);
    assert_eq!(bend_step_count(2), 0);
    assert_eq!(bend_step_count(3), 1);
    assert_eq!(bend_step_count(4), 1);
    assert_eq!(bend_step_count(5), 2);
    assert_eq!(bend_step_count(20), 9);
    assert_eq!(bend_step_count(u32::MAX), (u32::MAX - 1) / 2);
}

#[test]
fn valid_bends_are_even_and_above_two() {
    assert!(valid_bend_sections(20));
    assert!(valid_bend_sections(4));
    assert!(!valid_bend_sections(2));
    assert!(!valid_bend_sections(21));
    assert!(!valid_bend_sections(0));
}

#[test]
fn path_of_a_valid_bend_has_one_point_per_section_and_one_more() {
    let n = 20u32;
    let bend: Vec<i32> = (0..bend_step_count(n) as i32).collect();
    let points = determine_player_path(100, 50, bend, -100, |p: i32| -p);
    assert_eq!(points.len(), n as usize + 1);
}

#[test]
fn players_spawn_at_the_start_of_their_paths() {
    assert_eq!(
        spawn_players(2),
        vec![PlayerProgress { handle: 0, pos_index: 0 }, PlayerProgress { handle: 1, pos_index: 0 }]
    );
    assert!(spawn_players(0).is_empty());
}

#[test]
fn only_the_forward_key_moves_a_player() {
    assert!(moves_forward(1));
    assert!(moves_forward(0b1011));
    assert!(!moves_forward(0b1110));
}

#[test]
fn segment_wraps_at_the_end_of_the_path() {
    let p = PlayerProgress { handle: 1, pos_index: 4 };
    assert_eq!(current_segment(&p, 5), PathSegment { last: 4, next: 0 });
    assert_eq!(current_segment(&PlayerProgress { handle: 0, pos_index: 0 }, 1), PathSegment { last: 0, next: 0 });
}

#[test]
fn passing_a_point_moves_on_and_a_lap_returns_to_start() {
    let mut p = PlayerProgress { handle: 1, pos_index: 3 };
    let seg = advance_along_path(&mut p, 5, false);
    assert_eq!(p.pos_index, 3);
    assert_eq!(seg, PathSegment { last: 3, next: 4 });
    let seg = advance_along_path(&mut p, 5, true);
    assert_eq!(p, PlayerProgress { handle: 1, pos_index: 4 });
    assert_eq!(seg, PathSegment { last: 4, next: 0 });
    for _ in 0..4 {
        advance_along_path(&mut p, 5, true);
    }
    assert_eq!(p.pos_index, 3);
}
