//! Components and settings that the game's screens carry.

use vstd::prelude::*;

verus! {

/// Camera component for easy querying.
#[derive(Clone, Copy, Debug, PartialEq, Eq, Structural)]
pub struct GameCamera;

/// A section of the track.
#[derive(Clone, Copy, Debug, PartialEq, Eq, Structural)]
pub enum Section {
    /// Top horizontal line.
    Top,
    /// Left half circle.
    Left,
    /// Bottom horizontal line.
    Bottom,
    /// Right half circle.
    Right,
}

/// Display quality setting.
#[derive(Clone, Copy, Debug, PartialEq, Eq, Structural, Hash)]
pub enum DisplayQuality {
    Low,
    Medium,
    High,
}

/// Volume setting.
#[derive(Clone, Copy, Debug, PartialEq, Eq, Structural, Hash)]
pub struct Volume(pub u32);

/// The action a menu button performs when pressed.
#[derive(Clone, Copy, Debug, PartialEq, Eq, Structural, Hash)]
pub enum MenuButtonAction {
    Play,
    Settings,
    SettingsDisplay,
    SettingsSound,
    BackToMainMenu,
    BackToSettings,
    Quit,
}

/// The display quality the game starts with.
pub fn initial_display_quality() -> (q: DisplayQuality)
    ensures
        q == DisplayQuality::Medium,
{
    DisplayQuality::Medium
}

/// The volume the game starts with.
pub fn initial_volume() -> (v: Volume)
    ensures
        v == Volume(7),
{
    Volume(7)
}

} // verus!
