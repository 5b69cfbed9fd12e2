use rusting_raceway::args::{local_mode, p2p_mode, UserInput};
use rusting_raceway::states::{countdown, menu_setup, GameState, MenuState};
use rusting_raceway::components::{initial_display_quality, initial_volume, DisplayQuality, Volume};

#[test]
fn local_flag_selects_the_local_session() {
    let args = UserInput { local_only: true };
    assert!(local_mode(&args));
    assert!(!p2p_mode(&args));
}

#[test]
fn without_the_flag_the_game_matchmakes() {
    let args = UserInput { local_only: false };
    assert!(!local_mode(&args));
    assert!(p2p_mode(&args));
}

#[test]
fn game_starts_on_the_splash_screen_with_no_menu() {
    assert_eq!(GameState::default(), GameState::Splash);
    assert_eq!(MenuState::default(), MenuState::Disabled);
}

#[test]
fn splash_moves_to_the_menu_only_when_its_timer_finished() {
    assert_eq!(countdown(true), Some(GameState::Menu));
    assert_eq!(countdown(false), None);
}

#[test]
fn entering_the_menu_shows_the_main_screen() {
    assert_eq!(menu_setup(), MenuState::Main);
}

#[test]
fn initial_settings() {
    assert_eq!(initial_display_quality(), DisplayQuality::Medium);
    assert_eq!(initial_volume(), Volume(7));
}
