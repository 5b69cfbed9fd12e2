//! The game's screens and the menu's screens, and the moves between them that no
//! button makes.

use vstd::prelude::*;

verus! {

/// The screen the game shows.
#[derive(Clone, Copy, Debug, PartialEq, Eq, Structural, Hash)]
pub enum GameState {
    /// The start-up screen with the engine's logo.
    Splash,
    /// The main menu and its settings screens.
    Menu,
    /// Waiting for the other players; the stadium is spawned on entry.
    Matchmaking,
    /// The race itself.
    InGame,
}

/// Which menu screen is shown while the game is in the menu.
#[derive(Clone, Copy, Debug, PartialEq, Eq, Structural, Hash)]
pub enum MenuState {
    Main,
    Settings,
    SettingsDisplay,
    SettingsSound,
    /// No menu screen is shown.
    Disabled,
}

impl Default for GameState {
    /// The game starts on the splash screen.
    fn default() -> (s: Self)
        ensures
            s == GameState::Splash,
    {
        GameState::Splash
    }
}

impl Default for MenuState {
    /// No menu screen is shown until the game enters the menu.
    fn default() -> (s: Self)
        ensures
            s == MenuState::Disabled,
    {
        MenuState::Disabled
    }
}

/// The move the splash screen makes once its timer has been ticked: to the menu
/// when the timer has finished, none before.
pub fn countdown(timer_finished: bool) -> (next: Option<GameState>)
    ensures
        next == (if timer_finished { Some(GameState::Menu) } else { None::<GameState> }),
{
    if timer_finished {
        Some(GameState::Menu)
    } else {
        None
    }
}

/// The menu screen shown on entering the menu: the main menu.
pub fn menu_setup() -> (next: MenuState)
    ensures
        next == MenuState::Main,
{
    MenuState::Main
}

} // verus!
