use rusting_raceway::components::{DisplayQuality, MenuButtonAction, Volume};
use rusting_raceway::menu::{
    button_color, button_label, display_quality_options, make_stroked_char, menu_action,
    screen_buttons, setting_button, text_with_party_font, volume_options, ButtonColor,
    Interaction, MenuCommands, TextLayer, action_icon, MenuIcon,
};
use rusting_raceway::states::{GameState, MenuState};

#[test]
fn button_colors_follow_interaction_and_selection() {
    assert_eq!(button_color(Interaction::Pressed, false), ButtonColor::Pressed);
    assert_eq!(button_color(Interaction::Pressed, true), ButtonColor::Pressed);
    assert_eq!(button_color(Interaction::Idle, true), ButtonColor::Pressed);
    assert_eq!(button_color(Interaction::Hovered, true), ButtonColor::HoveredPressed);
    assert_eq!(button_color(Interaction::Hovered, false), ButtonColor::Hovered);
    assert_eq!(button_color(Interaction::Idle, false), ButtonColor::Normal);
}

#[test]
fn play_starts_matchmaking_and_hides_the_menu() {
    let c = menu_action(&vec![(Interaction::Pressed, MenuButtonAction::Play)]);
    assert_eq!(
        c,
        MenuCommands {
            next_game_state: Some(GameState::Matchmaking),
            next_menu_state: Some(MenuState::Disabled),
            exit_requests: 0,
        }
    );
}

#[test]
fn navigation_buttons_only_change_the_menu_screen() {
    let cases = [
        (MenuButtonAction::Settings, MenuState::Settings),
        (MenuButtonAction::SettingsDisplay, MenuState::SettingsDisplay),
        (MenuButtonAction::SettingsSound, MenuState::SettingsSound),
        (MenuButtonAction::BackToMainMenu, MenuState::Main),
        (MenuButtonAction::BackToSettings, MenuState::Settings),
    ];
    for (action, screen) in cases {
        let c = menu_action(&vec![(Interaction::Pressed, action)]);
        assert_eq!(c.next_game_state, None);
        assert_eq!(c.next_menu_state, Some(screen));
        assert_eq!(c.exit_requests, 0);
    }
}

#[test]
fn quit_requests_exit_once_per_press() {
    let c = menu_action(&vec![
        (Interaction::Pressed, MenuButtonAction::Quit),
        (Interaction::Hovered, MenuButtonAction::Quit),
        (Interaction::Pressed, MenuButtonAction::Quit),
    ]);
    assert_eq!(c.exit_requests, 2);
    assert_eq!(c.next_game_state, None);
    assert_eq!(c.next_menu_state, None);
}

#[test]
fn unpressed_buttons_do_nothing_and_the_last_press_wins() {
    let c = menu_action(&vec![(Interaction::Hovered, MenuButtonAction::Play)]);
    assert_eq!(c.next_game_state, None);
    assert_eq!(c.next_menu_state, None);
    let c = menu_action(&vec![
        (Interaction::Pressed, MenuButtonAction::SettingsSound),
        (Interaction::Pressed, MenuButtonAction::BackToMainMenu),
        (Interaction::Idle, MenuButtonAction::Settings),
    ]);
    assert_eq!(c.next_menu_state, Some(MenuState::Main));
}

#[test]
fn screens_show_their_buttons() {
    assert_eq!(
        screen_buttons(MenuState::Main),
        vec![MenuButtonAction::Play, MenuButtonAction::Settings, MenuButtonAction::Quit]
    );
    assert_eq!(
        screen_buttons(MenuState::Settings),
        vec![
            MenuButtonAction::SettingsDisplay,
            MenuButtonAction::SettingsSound,
            MenuButtonAction::BackToMainMenu
        ]
    );
    assert_eq!(screen_buttons(MenuState::SettingsDisplay), vec![MenuButtonAction::BackToSettings]);
    assert_eq!(screen_buttons(MenuState::SettingsSound), vec![MenuButtonAction::BackToSettings]);
    assert!(screen_buttons(MenuState::Disabled).is_empty());
}

#[test]
fn every_opened_screen_has_a_way_back() {
    for screen in [MenuState::Main, MenuState::Settings, MenuState::SettingsDisplay, MenuState::SettingsSound] {
        for action in screen_buttons(screen) {
            let target = menu_action(&vec![(Interaction::Pressed, action)]).next_menu_state;
            if let Some(target) = target {
                if target != MenuState::Disabled {
                    let back = screen_buttons(target).into_iter().any(|b| {
                        menu_action(&vec![(Interaction::Pressed, b)]).next_menu_state == Some(screen)
                    });
                    assert!(back);
                }
            }
        }
    }
}

#[test]
fn button_labels() {
    assert_eq!(button_label(MenuButtonAction::Play), "New Game");
    assert_eq!(button_label(MenuButtonAction::Settings), "Settings");
    assert_eq!(button_label(MenuButtonAction::SettingsDisplay), "Display");
    assert_eq!(button_label(MenuButtonAction::SettingsSound), "Sound");
    assert_eq!(button_label(MenuButtonAction::BackToMainMenu), "Back");
    assert_eq!(button_label(MenuButtonAction::BackToSettings), "Back");
    assert_eq!(button_label(MenuButtonAction::Quit), "Quit");
}

#[test]
fn pressing_a_different_quality_selects_it() {
    let mut setting = DisplayQuality::Medium;
    let selected = setting_button(
        &mut setting,
        &vec![(Interaction::Hovered, DisplayQuality::Low), (Interaction::Pressed, DisplayQuality::High)],
    );
    assert_eq!(setting, DisplayQuality::High);
    assert_eq!(selected, vec![1]);
}

#[test]
fn pressing_the_current_value_changes_nothing() {
    let mut setting = Volume(7);
    let selected = setting_button(&mut setting, &vec![(Interaction::Pressed, Volume(7))]);
    assert_eq!(setting, Volume(7));
    assert!(selected.is_empty());
}

#[test]
fn the_last_pressed_volume_wins() {
    let mut setting = Volume(7);
    let selected = setting_button(
        &mut setting,
        &vec![
            (Interaction::Pressed, Volume(2)),
            (Interaction::Pressed, Volume(2)),
            (Interaction::Pressed, Volume(9)),
            (Interaction::Idle, Volume(0)),
        ],
    );
    assert_eq!(setting, Volume(9));
    assert_eq!(selected, vec![0, 2]);
}

#[test]
fn display_options_mark_the_current_quality() {
    assert_eq!(
        display_quality_options(DisplayQuality::Medium),
        vec![
            (DisplayQuality::Low, false),
            (DisplayQuality::Medium, true),
            (DisplayQuality::High, false)
        ]
    );
}

#[test]
fn volume_options_mark_the_current_volume() {
    let options = volume_options(Volume(7));
    assert_eq!(options.len(), 10);
    for (i, (v, sel)) in options.iter().enumerate() {
        assert_eq!(v.0, i as u32);
        assert_eq!(*sel, i == 7);
    }
    assert!(volume_options(Volume(12)).iter().all(|(_, sel)| !sel));
}

#[test]
fn stroke_draws_eight_outlines_then_the_glyph() {
    let layers = make_stroked_char();
    assert_eq!(layers.len(), 9);
    assert_eq!(layers[0], TextLayer { top: -2, left: -2, outline: true });
    assert_eq!(layers[5], TextLayer { top: 3, left: 0, outline: true });
    assert_eq!(layers[7], TextLayer { top: 0, left: 3, outline: true });
    assert_eq!(layers[8], TextLayer { top: 0, left: 0, outline: false });
    for l in &layers[..8] {
        assert!(layers[..8].iter().any(|m| m.top == -l.top && m.left == -l.left));
    }
}

#[test]
fn party_font_cycles_through_the_colors() {
    let chars = text_with_party_font("RUSTING", &['r', 'g', 'b']);
    let expected: Vec<(char, char)> = vec![
        ('R', 'r'), ('U', 'g'), ('S', 'b'), ('T', 'r'), ('I', 'g'), ('N', 'b'), ('G', 'r'),
    ];
    assert_eq!(chars, expected);
}

#[test]
fn party_font_with_one_color_and_no_text() {
    assert_eq!(text_with_party_font("ab", &[1u8]), vec![('a', 1u8), ('b', 1u8)]);
    let empty: &[u8] = &[];
    assert!(text_with_party_font("", empty).is_empty());
}

#[test]
fn main_menu_buttons_carry_their_icons() {
    assert_eq!(action_icon(MenuButtonAction::Play), Some(MenuIcon::Right));
    assert_eq!(action_icon(MenuButtonAction::Settings), Some(MenuIcon::Wrench));
    assert_eq!(action_icon(MenuButtonAction::Quit), Some(MenuIcon::Exit));
    assert_eq!(action_icon(MenuButtonAction::SettingsDisplay), None);
    assert_eq!(action_icon(MenuButtonAction::SettingsSound), None);
    assert_eq!(action_icon(MenuButtonAction::BackToMainMenu), None);
    assert_eq!(action_icon(MenuButtonAction::BackToSettings), None);
}
