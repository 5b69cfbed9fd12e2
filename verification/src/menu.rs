//! The menu: which buttons each screen shows, how a button looks, what pressing it
//! does, and how the settings screens mark and change the current setting.

use vstd::prelude::*;
use crate::components::{DisplayQuality, MenuButtonAction, Volume};
use crate::states::{GameState, MenuState};

verus! {

/// How the pointer is interacting with a button this frame.
#[derive(Clone, Copy, Debug, PartialEq, Eq, Structural)]
pub enum Interaction {
    Pressed,
    Hovered,
    /// Neither hovered nor pressed.
    Idle,
}

/// The background a button is drawn with.
#[derive(Clone, Copy, Debug, PartialEq, Eq, Structural)]
pub enum ButtonColor {
    Normal,
    Hovered,
    HoveredPressed,
    Pressed,
}

/// A pressed button, and a selected one the pointer is not on, look pressed; a
/// hovered button looks hovered, and hovered-and-pressed when it is the selected
/// option; any other looks normal.
pub open spec fn spec_button_color(interaction: Interaction, selected: bool) -> ButtonColor {
    match interaction {
        Interaction::Pressed => ButtonColor::Pressed,
        Interaction::Hovered => if selected {
            ButtonColor::HoveredPressed
        } else {
            ButtonColor::Hovered
        },
        Interaction::Idle => if selected {
            ButtonColor::Pressed
        } else {
            ButtonColor::Normal
        },
    }
}

/// The color a button takes when its interaction changes.
pub fn button_color(interaction: Interaction, selected: bool) -> (color: ButtonColor)
    ensures
        color == spec_button_color(interaction, selected),
{
    match (interaction, selected) {
        (Interaction::Pressed, _) | (Interaction::Idle, true) => ButtonColor::Pressed,
        (Interaction::Hovered, true) => ButtonColor::HoveredPressed,
        (Interaction::Hovered, false) => ButtonColor::Hovered,
        (Interaction::Idle, false) => ButtonColor::Normal,
    }
}

/// A pressed button always looks pressed; a button the pointer is on but not
/// pressing looks hovered, with the pressed tint when it is the selected option;
/// a button the pointer is off looks normal, or pressed when it is the selected
/// option. So the selected option never looks like an ordinary idle button.
pub proof fn lemma_button_colors(interaction: Interaction, selected: bool)
    ensures
        interaction == Interaction::Pressed ==> spec_button_color(interaction, selected)
            == ButtonColor::Pressed,
        interaction == Interaction::Hovered && selected ==> spec_button_color(interaction, selected)
            == ButtonColor::HoveredPressed,
        interaction == Interaction::Hovered && !selected ==> spec_button_color(interaction, selected)
            == ButtonColor::Hovered,
        interaction == Interaction::Idle && selected ==> spec_button_color(interaction, selected)
            == ButtonColor::Pressed,
        interaction == Interaction::Idle && !selected ==> spec_button_color(interaction, selected)
            == ButtonColor::Normal,
        spec_button_color(interaction, selected) == ButtonColor::Normal <==> (interaction
            == Interaction::Idle && !selected),
{
}

/// The game screen a button moves to: pressing Play starts matchmaking; no other
/// button changes the game screen.
pub open spec fn action_game_state(action: MenuButtonAction) -> Option<GameState> {
    match action {
        MenuButtonAction::Play => Some(GameState::Matchmaking),
        _ => None,
    }
}

/// The menu screen a button moves to.
pub open spec fn action_menu_state(action: MenuButtonAction) -> Option<MenuState> {
    match action {
        MenuButtonAction::Play => Some(MenuState::Disabled),
        MenuButtonAction::Settings => Some(MenuState::Settings),
        MenuButtonAction::SettingsDisplay => Some(MenuState::SettingsDisplay),
        MenuButtonAction::SettingsSound => Some(MenuState::SettingsSound),
        MenuButtonAction::BackToMainMenu => Some(MenuState::Main),
        MenuButtonAction::BackToSettings => Some(MenuState::Settings),
        MenuButtonAction::Quit => None,
    }
}

/// What the menu asks for after a frame's button interactions: the next game
/// screen and the next menu screen (the last request of each wins, as a later
/// request replaces an earlier one), and how many requests to exit the app were
/// written (one per pressed Quit button).
#[derive(Clone, Copy, Debug, PartialEq, Eq, Structural)]
pub struct MenuCommands {
    pub next_game_state: Option<GameState>,
    pub next_menu_state: Option<MenuState>,
    pub exit_requests: usize,
}

/// A request, if there is one, replaces the one before it.
pub open spec fn later_request<S>(earlier: Option<S>, later: Option<S>) -> Option<S> {
    match later {
        Some(s) => Some(s),
        None => earlier,
    }
}

/// The commands that the buttons whose interaction changed ask for, taken in order.
pub open spec fn menu_commands(buttons: Seq<(Interaction, MenuButtonAction)>) -> MenuCommands
    decreases buttons.len(),
{
    if buttons.len() == 0 {
        MenuCommands { next_game_state: None, next_menu_state: None, exit_requests: 0 }
    } else {
        let before = menu_commands(buttons.drop_last());
        let (interaction, action) = buttons.last();
        if interaction == Interaction::Pressed {
            MenuCommands {
                next_game_state: later_request(before.next_game_state, action_game_state(action)),
                next_menu_state: later_request(before.next_menu_state, action_menu_state(action)),
                exit_requests: if action == MenuButtonAction::Quit {
                    (before.exit_requests + 1) as usize
                } else {
                    before.exit_requests
                },
            }
        } else {
            before
        }
    }
}

/// No more exit requests are written than there are buttons.
pub proof fn lemma_exit_requests_bounded(buttons: Seq<(Interaction, MenuButtonAction)>)
    requires
        buttons.len() <= usize::MAX,
    ensures
        menu_commands(buttons).exit_requests <= buttons.len(),
    decreases buttons.len(),
{
    if buttons.len() > 0 {
        lemma_exit_requests_bounded(buttons.drop_last());
    }
}

/// Whether a button entry is a press of Quit.
pub open spec fn is_pressed_quit(button: (Interaction, MenuButtonAction)) -> bool {
    button.0 == Interaction::Pressed && button.1 == MenuButtonAction::Quit
}

/// How many of the entries are presses of Quit.
pub open spec fn pressed_quits(buttons: Seq<(Interaction, MenuButtonAction)>) -> nat {
    buttons.filter(|b: (Interaction, MenuButtonAction)| is_pressed_quit(b)).len()
}

/// With no button interaction nothing is asked for.
pub proof fn lemma_no_buttons_ask_nothing()
    ensures
        menu_commands(Seq::empty()) == (MenuCommands {
            next_game_state: None,
            next_menu_state: None,
            exit_requests: 0,
        }),
{
}

/// Only a pressed button acts: a button that is merely hovered, or that the
/// pointer has left, asks for nothing, whatever its action and whatever came
/// before it.
pub proof fn lemma_unpressed_buttons_ask_nothing(
    buttons: Seq<(Interaction, MenuButtonAction)>,
    interaction: Interaction,
    action: MenuButtonAction,
)
    requires
        interaction != Interaction::Pressed,
    ensures
        menu_commands(buttons.push((interaction, action))) == menu_commands(buttons),
{
    assert(buttons.push((interaction, action)).drop_last() == buttons);
}

/// What pressing each button asks for, on top of whatever the earlier buttons
/// asked: Play starts matchmaking and hides the menu; Settings, Display, Sound and
/// the two Back buttons open the settings screen, the display screen, the sound
/// screen, the main menu and the settings screen; Quit adds one request to exit
/// and changes no screen. No button but Quit adds an exit request, and no button
/// but Play changes the game screen.
pub proof fn lemma_pressed_button_requests(
    buttons: Seq<(Interaction, MenuButtonAction)>,
    action: MenuButtonAction,
)
    requires
        buttons.len() < usize::MAX,
    ensures
        ({
            let before = menu_commands(buttons);
            let after = menu_commands(buttons.push((Interaction::Pressed, action)));
            &&& after.exit_requests == before.exit_requests + (if action == MenuButtonAction::Quit {
                1int
            } else {
                0int
            })
            &&& action == MenuButtonAction::Play ==> after.next_game_state == Some(GameState::Matchmaking)
                && after.next_menu_state == Some(MenuState::Disabled)
            &&& action != MenuButtonAction::Play ==> after.next_game_state == before.next_game_state
            &&& action == MenuButtonAction::Settings ==> after.next_menu_state == Some(MenuState::Settings)
            &&& action == MenuButtonAction::SettingsDisplay ==> after.next_menu_state == Some(
                MenuState::SettingsDisplay,
            )
            &&& action == MenuButtonAction::SettingsSound ==> after.next_menu_state == Some(
                MenuState::SettingsSound,
            )
            &&& action == MenuButtonAction::BackToMainMenu ==> after.next_menu_state == Some(MenuState::Main)
            &&& action == MenuButtonAction::BackToSettings ==> after.next_menu_state == Some(
                MenuState::Settings,
            )
            &&& action == MenuButtonAction::Quit ==> after.next_menu_state == before.next_menu_state
        }),
{
    assert(buttons.push((Interaction::Pressed, action)).drop_last() == buttons);
    lemma_exit_requests_bounded(buttons);
}

/// The number of exit requests is the number of presses of Quit: hovering Quit,
/// or moving off it, never exits the game.
pub proof fn lemma_exit_requests_count_pressed_quits(buttons: Seq<(Interaction, MenuButtonAction)>)
    requires
        buttons.len() <= usize::MAX,
    ensures
        menu_commands(buttons).exit_requests == pressed_quits(buttons),
    decreases buttons.len(),
{
    reveal_with_fuel(Seq::filter, 1);
    if buttons.len() > 0 {
        let rest = buttons.drop_last();
        lemma_exit_requests_count_pressed_quits(rest);
        lemma_exit_requests_bounded(rest);
    }
}

/// Handles the menu buttons whose interaction changed this frame, in order.
pub fn menu_action(buttons: &Vec<(Interaction, MenuButtonAction)>) -> (commands: MenuCommands)
    ensures
        commands == menu_commands(buttons@),
        commands.exit_requests == pressed_quits(buttons@),
{
    let mut commands = MenuCommands {
        next_game_state: None,
        next_menu_state: None,
        exit_requests: 0,
    };
    let mut i: usize = 0;
    while i < buttons.len()
        invariant
            i <= buttons.len(),
            commands == menu_commands(buttons@.subrange(0, i as int)),
        decreases buttons.len() - i,
    {
        let ghost before = buttons@.subrange(0, i as int);
        proof {
            assert(buttons@.subrange(0, i + 1).drop_last() == before);
            lemma_exit_requests_bounded(before);
        }
        let (interaction, action) = buttons[i];
        if let Interaction::Pressed = interaction {
            match action {
                MenuButtonAction::Quit => {
                    commands.exit_requests = commands.exit_requests + 1;
                },
                MenuButtonAction::Play => {
                    commands.next_game_state = Some(GameState::Matchmaking);
                    commands.next_menu_state = Some(MenuState::Disabled);
                },
                MenuButtonAction::Settings => {
                    commands.next_menu_state = Some(MenuState::Settings);
                },
                MenuButtonAction::SettingsDisplay => {
                    commands.next_menu_state = Some(MenuState::SettingsDisplay);
                },
                MenuButtonAction::SettingsSound => {
                    commands.next_menu_state = Some(MenuState::SettingsSound);
                },
                MenuButtonAction::BackToMainMenu => {
                    commands.next_menu_state = Some(MenuState::Main);
                },
                MenuButtonAction::BackToSettings => {
                    commands.next_menu_state = Some(MenuState::Settings);
                },
            }
        }
        i = i + 1;
    }
    assert(buttons@.subrange(0, i as int) == buttons@);
    proof {
        lemma_exit_requests_count_pressed_quits(buttons@);
    }
    commands
}

/// The action buttons each menu screen shows, top to bottom. The display and sound
/// screens show their setting options above their one action button.
pub open spec fn screen_actions(screen: MenuState) -> Seq<MenuButtonAction> {
    match screen {
        MenuState::Main => seq![
            MenuButtonAction::Play,
            MenuButtonAction::Settings,
            MenuButtonAction::Quit,
        ],
        MenuState::Settings => seq![
            MenuButtonAction::SettingsDisplay,
            MenuButtonAction::SettingsSound,
            MenuButtonAction::BackToMainMenu,
        ],
        MenuState::SettingsDisplay => seq![MenuButtonAction::BackToSettings],
        MenuState::SettingsSound => seq![MenuButtonAction::BackToSettings],
        MenuState::Disabled => Seq::empty(),
    }
}

/// The action buttons that a menu screen shows.
pub fn screen_buttons(screen: MenuState) -> (actions: Vec<MenuButtonAction>)
    ensures
        actions@ == screen_actions(screen),
{
    match screen {
        MenuState::Main => vec![
            MenuButtonAction::Play,
            MenuButtonAction::Settings,
            MenuButtonAction::Quit,
        ],
        MenuState::Settings => vec![
            MenuButtonAction::SettingsDisplay,
            MenuButtonAction::SettingsSound,
            MenuButtonAction::BackToMainMenu,
        ],
        MenuState::SettingsDisplay => vec![MenuButtonAction::BackToSettings],
        MenuState::SettingsSound => vec![MenuButtonAction::BackToSettings],
        MenuState::Disabled => Vec::new(),
    }
}

/// The text on an action button.
pub open spec fn action_label(action: MenuButtonAction) -> Seq<char> {
    match action {
        MenuButtonAction::Play => "New Game"@,
        MenuButtonAction::Settings => "Settings"@,
        MenuButtonAction::SettingsDisplay => "Display"@,
        MenuButtonAction::SettingsSound => "Sound"@,
        MenuButtonAction::BackToMainMenu => "Back"@,
        MenuButtonAction::BackToSettings => "Back"@,
        MenuButtonAction::Quit => "Quit"@,
    }
}

/// The text shown on an action button.
pub fn button_label(action: MenuButtonAction) -> (label: &'static str)
    ensures
        label@ == action_label(action),
{
    match action {
        MenuButtonAction::Play => "New Game",
        MenuButtonAction::Settings => "Settings",
        MenuButtonAction::SettingsDisplay => "Display",
        MenuButtonAction::SettingsSound => "Sound",
        MenuButtonAction::BackToMainMenu => "Back",
        MenuButtonAction::BackToSettings => "Back",
        MenuButtonAction::Quit => "Quit",
    }
}

/// The icon drawn at the left of a main menu button.
#[derive(Clone, Copy, Debug, PartialEq, Eq, Structural)]
pub enum MenuIcon {
    /// An arrow pointing right.
    Right,
    /// A wrench.
    Wrench,
    /// An arrow leaving through a door.
    Exit,
}

/// The icon a button carries: New Game an arrow, Settings a wrench, Quit an exit
/// sign; the other buttons carry none.
pub open spec fn spec_action_icon(action: MenuButtonAction) -> Option<MenuIcon> {
    match action {
        MenuButtonAction::Play => Some(MenuIcon::Right),
        MenuButtonAction::Settings => Some(MenuIcon::Wrench),
        MenuButtonAction::Quit => Some(MenuIcon::Exit),
        _ => None,
    }
}

/// The icon drawn on an action button, if it has one.
pub fn action_icon(action: MenuButtonAction) -> (icon: Option<MenuIcon>)
    ensures
        icon == spec_action_icon(action),
{
    match action {
        MenuButtonAction::Play => Some(MenuIcon::Right),
        MenuButtonAction::Settings => Some(MenuIcon::Wrench),
        MenuButtonAction::Quit => Some(MenuIcon::Exit),
        _ => None,
    }
}

/// The main menu's buttons carry icons, New Game an arrow, Settings a wrench and
/// Quit an exit sign, each a different one; no other button carries an icon.
pub proof fn lemma_icons_on_main_menu_only(action: MenuButtonAction)
    ensures
        spec_action_icon(action) is Some <==> screen_actions(MenuState::Main).contains(action),
        action == MenuButtonAction::Play ==> spec_action_icon(action) == Some(MenuIcon::Right),
        action == MenuButtonAction::Settings ==> spec_action_icon(action) == Some(MenuIcon::Wrench),
        action == MenuButtonAction::Quit ==> spec_action_icon(action) == Some(MenuIcon::Exit),
{
    let main = screen_actions(MenuState::Main);
    if main.contains(action) {
        let k = choose|k: int| 0 <= k < main.len() && main[k] == action;
        assert(main[k] == action);
    }
    if action == MenuButtonAction::Play {
        assert(main[0] == action);
    } else if action == MenuButtonAction::Settings {
        assert(main[1] == action);
    } else if action == MenuButtonAction::Quit {
        assert(main[2] == action);
    }
}

/// Every menu screen that a button opens offers a button back to the screen it
/// was opened from: no settings screen is a dead end.
pub proof fn lemma_every_screen_leads_back(screen: MenuState, i: int)
    requires
        0 <= i < screen_actions(screen).len(),
        action_menu_state(screen_actions(screen)[i]) is Some,
        action_menu_state(screen_actions(screen)[i])->0 != MenuState::Disabled,
    ensures
        ({
            let target = action_menu_state(screen_actions(screen)[i])->0;
            exists|j: int|
                0 <= j < screen_actions(target).len() && #[trigger] action_menu_state(
                    screen_actions(target)[j],
                ) == Some(screen)
        }),
{
    let target = action_menu_state(screen_actions(screen)[i])->0;
    match screen {
        MenuState::Main => {
            assert(action_menu_state(screen_actions(target)[2]) == Some(screen));
        },
        MenuState::Settings => {
            if i == 2 {
                assert(action_menu_state(screen_actions(target)[1]) == Some(screen));
            } else {
                assert(action_menu_state(screen_actions(target)[0]) == Some(screen));
            }
        },
        MenuState::SettingsDisplay => {
            assert(action_menu_state(screen_actions(target)[0]) == Some(screen));
        },
        MenuState::SettingsSound => {
            assert(action_menu_state(screen_actions(target)[1]) == Some(screen));
        },
        MenuState::Disabled => {},
    }
}

/// Pressing Play leaves the menu for matchmaking; every other button stays in the
/// game's menu screen.
pub proof fn lemma_only_play_leaves_menu(action: MenuButtonAction)
    ensures
        action_game_state(action) is Some <==> action == MenuButtonAction::Play,
        action == MenuButtonAction::Play ==> action_game_state(action) == Some(GameState::Matchmaking)
            && action_menu_state(action) == Some(MenuState::Disabled),
{
}

/// A setting that a settings screen offers as a row of buttons.
pub trait SettingValue: Copy + Sized {
    /// Whether two values are the same setting.
    fn same_setting(&self, other: &Self) -> (r: bool)
        ensures
            r == (*self == *other),
    ;
}

impl SettingValue for DisplayQuality {
    fn same_setting(&self, other: &Self) -> (r: bool) {
        *self == *other
    }
}

impl SettingValue for Volume {
    fn same_setting(&self, other: &Self) -> (r: bool) {
        self.0 == other.0
    }
}

/// The setting after the setting buttons whose interaction changed this frame have
/// been handled in order: a pressed button whose value differs from the current
/// setting makes its value the setting.
pub open spec fn setting_after<T>(setting: T, buttons: Seq<(Interaction, T)>) -> T
    decreases buttons.len(),
{
    if buttons.len() == 0 {
        setting
    } else {
        let before = setting_after(setting, buttons.drop_last());
        let (interaction, value) = buttons.last();
        if interaction == Interaction::Pressed && before != value {
            value
        } else {
            before
        }
    }
}

/// The positions of the buttons that were marked as the selected option, in order:
/// each pressed button whose value differed from the setting at that point.
pub open spec fn newly_selected<T>(setting: T, buttons: Seq<(Interaction, T)>) -> Seq<usize>
    decreases buttons.len(),
{
    if buttons.len() == 0 {
        Seq::empty()
    } else {
        let before = setting_after(setting, buttons.drop_last());
        let (interaction, value) = buttons.last();
        if interaction == Interaction::Pressed && before != value {
            newly_selected(setting, buttons.drop_last()).push((buttons.len() - 1) as usize)
        } else {
            newly_selected(setting, buttons.drop_last())
        }
    }
}

/// Updates the setting when a new value for it is pressed, and returns the
/// positions of the buttons to mark as the one currently selected (the button
/// that was selected before loses its mark each time one is returned).
pub fn setting_button<T: SettingValue>(setting: &mut T, buttons: &Vec<(Interaction, T)>) -> (selected:
    Vec<usize>)
    ensures
        *final(setting) == setting_after(*old(setting), buttons@),
        selected@ == newly_selected(*old(setting), buttons@),
{
    let ghost start = *setting;
    let mut selected: Vec<usize> = Vec::new();
    let mut i: usize = 0;
    while i < buttons.len()
        invariant
            i <= buttons.len(),
            *setting == setting_after(start, buttons@.subrange(0, i as int)),
            selected@ == newly_selected(start, buttons@.subrange(0, i as int)),
        decreases buttons.len() - i,
    {
        proof {
            assert(buttons@.subrange(0, i + 1).drop_last() == buttons@.subrange(0, i as int));
        }
        let interaction = buttons[i].0;
        let value = buttons[i].1;
        if let Interaction::Pressed = interaction {
            if !setting.same_setting(&value) {
                *setting = value;
                selected.push(i);
            }
        }
        i = i + 1;
    }
    assert(buttons@.subrange(0, i as int) == buttons@);
    selected
}

/// Whatever buttons are pressed, the setting ends up as the value of the last
/// pressed button, or as it was when none is pressed.
pub proof fn lemma_setting_follows_last_press<T>(setting: T, buttons: Seq<(Interaction, T)>)
    ensures
        (forall|k: int| 0 <= k < buttons.len() ==> #[trigger] buttons[k].0 != Interaction::Pressed)
            ==> setting_after(setting, buttons) == setting,
        forall|k: int|
            0 <= k < buttons.len() && #[trigger] buttons[k].0 == Interaction::Pressed && (forall|j: int|
                k < j < buttons.len() ==> buttons[j].0 != Interaction::Pressed) ==> setting_after(
                setting,
                buttons,
            ) == buttons[k].1,
    decreases buttons.len(),
{
    if buttons.len() > 0 {
        let rest = buttons.drop_last();
        let n: int = buttons.len() - 1;
        lemma_setting_follows_last_press(setting, rest);
        assert forall|k: int|
            0 <= k < buttons.len() && #[trigger] buttons[k].0 == Interaction::Pressed && (forall|j: int|
                k < j < buttons.len() ==> buttons[j].0 != Interaction::Pressed) implies setting_after(
            setting,
            buttons,
        ) == buttons[k].1 by {
            if k < n {
                assert(buttons[n].0 != Interaction::Pressed);
                assert(rest[k] == buttons[k]);
                assert forall|j: int| k < j < rest.len() implies rest[j].0 != Interaction::Pressed by {
                    assert(rest[j] == buttons[j]);
                }
            }
        }
        if forall|k: int| 0 <= k < buttons.len() ==> #[trigger] buttons[k].0 != Interaction::Pressed {
            assert(buttons[n].0 != Interaction::Pressed);
            assert forall|k: int| 0 <= k < rest.len() implies #[trigger] rest[k].0
                != Interaction::Pressed by {
                assert(rest[k] == buttons[k]);
            }
        }
    }
}

/// The buttons marked selected are pressed buttons, in increasing order of
/// position, and they tell the outcome: when none is marked the setting is
/// unchanged, and otherwise the setting is the value of the last one marked.
pub proof fn lemma_selected_buttons_tell_the_setting<T>(setting: T, buttons: Seq<(Interaction, T)>)
    requires
        buttons.len() <= usize::MAX,
    ensures
        forall|j: int|
            0 <= j < newly_selected(setting, buttons).len() ==> #[trigger] newly_selected(
                setting,
                buttons,
            )[j] < buttons.len() && buttons[newly_selected(setting, buttons)[j] as int].0
                == Interaction::Pressed,
        forall|i: int, j: int|
            0 <= i < j < newly_selected(setting, buttons).len() ==> #[trigger] newly_selected(
                setting,
                buttons,
            )[i] < #[trigger] newly_selected(setting, buttons)[j],
        newly_selected(setting, buttons).len() == 0 ==> setting_after(setting, buttons) == setting,
        newly_selected(setting, buttons).len() > 0 ==> setting_after(setting, buttons) == buttons[newly_selected(
            setting,
            buttons,
        ).last() as int].1,
    decreases buttons.len(),
{
    if buttons.len() > 0 {
        let rest = buttons.drop_last();
        lemma_selected_buttons_tell_the_setting(setting, rest);
        let sel = newly_selected(setting, rest);
        let all = newly_selected(setting, buttons);
        let n = buttons.len() - 1;
        assert forall|j: int| 0 <= j < sel.len() implies buttons[sel[j] as int] == rest[sel[j] as int] by {
            assert(sel[j] < rest.len());
        }
        if all.len() == sel.len() + 1 {
            assert(all == sel.push(n as usize));
            assert(buttons[n].0 == Interaction::Pressed);
            assert forall|j: int| 0 <= j < all.len() implies #[trigger] all[j] < buttons.len()
                && buttons[all[j] as int].0 == Interaction::Pressed by {
                if j < sel.len() {
                    assert(all[j] == sel[j]);
                }
            }
            assert forall|i: int, j: int| 0 <= i < j < all.len() implies #[trigger] all[i]
                < #[trigger] all[j] by {
                assert(all[i] == sel[i]);
                assert(sel[i] < rest.len());
            }
        } else {
            assert(all == sel);
            assert forall|j: int| 0 <= j < all.len() implies #[trigger] all[j] < buttons.len()
                && buttons[all[j] as int].0 == Interaction::Pressed by {
                assert(all[j] == sel[j]);
            }
            if sel.len() > 0 {
                assert(buttons[sel.last() as int] == rest[sel.last() as int]);
            }
        }
    }
}

/// The display quality buttons, low to high, each with whether it is the current
/// setting.
pub open spec fn spec_display_quality_options(current: DisplayQuality) -> Seq<(DisplayQuality, bool)> {
    seq![
        (DisplayQuality::Low, current == DisplayQuality::Low),
        (DisplayQuality::Medium, current == DisplayQuality::Medium),
        (DisplayQuality::High, current == DisplayQuality::High),
    ]
}

/// The buttons of the display settings screen: one per display quality, the
/// current one marked as selected.
pub fn display_quality_options(current: DisplayQuality) -> (options: Vec<(DisplayQuality, bool)>)
    ensures
        options@ == spec_display_quality_options(current),
        options.len() == 3,
        options@[0].0 == DisplayQuality::Low,
        options@[1].0 == DisplayQuality::Medium,
        options@[2].0 == DisplayQuality::High,
        forall|k: int| 0 <= k < 3 ==> (#[trigger] options@[k]).1 == (options@[k].0 == current),
{
    let mut options: Vec<(DisplayQuality, bool)> = Vec::new();
    options.push((DisplayQuality::Low, current == DisplayQuality::Low));
    options.push((DisplayQuality::Medium, current == DisplayQuality::Medium));
    options.push((DisplayQuality::High, current == DisplayQuality::High));
    options
}

/// The number of volume buttons: volumes 0 to 9.
pub const VOLUME_LEVELS: u32 = 10;

/// The buttons of the sound settings screen: volumes 0 to 9 in order, the current
/// one marked as selected.
pub fn volume_options(current: Volume) -> (options: Vec<(Volume, bool)>)
    ensures
        options.len() == VOLUME_LEVELS,
        forall|i: int|
            0 <= i < VOLUME_LEVELS ==> #[trigger] options@[i] == (Volume(i as u32), current == Volume(
                i as u32,
            )),
{
    let mut options: Vec<(Volume, bool)> = Vec::new();
    let mut volume: u32 = 0;
    while volume < VOLUME_LEVELS
        invariant
            volume <= VOLUME_LEVELS,
            options.len() == volume,
            forall|i: int|
                0 <= i < volume ==> #[trigger] options@[i] == (Volume(i as u32), current == Volume(
                    i as u32,
                )),
        decreases VOLUME_LEVELS - volume,
    {
        options.push((Volume(volume), current.0 == volume));
        volume = volume + 1;
    }
    options
}

/// Exactly one display quality button is marked selected, so the settings screen
/// always has the one selected option that it restyles when another is pressed.
pub proof fn lemma_one_display_quality_selected(current: DisplayQuality)
    ensures
        ({
            let options = spec_display_quality_options(current);
            exists|i: int|
                0 <= i < options.len() && #[trigger] options[i].1 && options[i].0 == current && (
                forall|j: int| 0 <= j < options.len() && j != i ==> !(#[trigger] options[j].1))
        }),
{
    let options = spec_display_quality_options(current);
    match current {
        DisplayQuality::Low => assert(options[0].1),
        DisplayQuality::Medium => assert(options[1].1),
        DisplayQuality::High => assert(options[2].1),
    }
}

/// The display screen always offers Low, Medium and High, in that order, whatever
/// the current quality, and marks exactly the button of the current quality.
pub proof fn lemma_display_quality_options_offer_every_quality(current: DisplayQuality)
    ensures
        ({
            let options = spec_display_quality_options(current);
            &&& options.len() == 3
            &&& options[0].0 == DisplayQuality::Low
            &&& options[1].0 == DisplayQuality::Medium
            &&& options[2].0 == DisplayQuality::High
            &&& forall|k: int| 0 <= k < 3 ==> (#[trigger] options[k]).1 == (options[k].0 == current)
        }),
{
}

/// Starting from the initial volume, however the volume buttons are pressed the
/// volume stays one of the offered levels, so the sound screen always marks
/// exactly one button as selected.
pub proof fn lemma_volume_stays_offered(start: Volume, buttons: Seq<(Interaction, Volume)>)
    requires
        start.0 < VOLUME_LEVELS,
        forall|k: int| 0 <= k < buttons.len() ==> (#[trigger] buttons[k]).1.0 < VOLUME_LEVELS,
    ensures
        setting_after(start, buttons).0 < VOLUME_LEVELS,
    decreases buttons.len(),
{
    if buttons.len() > 0 {
        let rest = buttons.drop_last();
        assert forall|k: int| 0 <= k < rest.len() implies (#[trigger] rest[k]).1.0 < VOLUME_LEVELS by {
            assert(rest[k] == buttons[k]);
        }
        lemma_volume_stays_offered(start, rest);
        assert(buttons[buttons.len() - 1].1.0 < VOLUME_LEVELS);
    }
}

/// For a volume that is one of the offered levels, exactly one volume button is
/// marked selected: the one of that volume.
pub proof fn lemma_one_volume_selected(current: Volume, options: Seq<(Volume, bool)>)
    requires
        current.0 < VOLUME_LEVELS,
        options.len() == VOLUME_LEVELS,
        forall|i: int|
            0 <= i < VOLUME_LEVELS ==> #[trigger] options[i] == (Volume(i as u32), current == Volume(
                i as u32,
            )),
    ensures
        options[current.0 as int].1,
        forall|j: int| 0 <= j < options.len() && j != current.0 ==> !(#[trigger] options[j].1),
{
    assert(options[current.0 as int] == (Volume(current.0), current == Volume(current.0)));
}

/// One copy of a glyph in a stroked character, placed `top` and `left` pixels from
/// where the glyph sits. Outline copies are drawn in black; the last copy is the
/// glyph in its own color, drawn over them.
#[derive(Clone, Copy, Debug, PartialEq, Eq, Structural)]
pub struct TextLayer {
    pub top: i8,
    pub left: i8,
    pub outline: bool,
}

/// Where the black copies that draw the outline sit: the four diagonals two pixels
/// out, then three pixels straight down, up, right and left.
pub open spec fn stroke_offsets() -> Seq<(i8, i8)> {
    seq![(-2i8, -2i8), (-2i8, 2i8), (2i8, -2i8), (2i8, 2i8), (-3i8, 0i8), (3i8, 0i8), (0i8, -3i8), (0i8, 3i8)]
}

/// The copies of a glyph that give it a stroke, in drawing order: a black copy at
/// each outline offset, then the glyph itself on top. The outline surrounds the
/// glyph evenly: for each copy there is one at the opposite offset.
pub fn make_stroked_char() -> (layers: Vec<TextLayer>)
    ensures
        layers.len() == stroke_offsets().len() + 1,
        forall|i: int|
            0 <= i < stroke_offsets().len() ==> #[trigger] layers@[i] == (TextLayer {
                top: stroke_offsets()[i].0,
                left: stroke_offsets()[i].1,
                outline: true,
            }),
        layers@[stroke_offsets().len() as int] == (TextLayer { top: 0, left: 0, outline: false }),
{
    let mut layers: Vec<TextLayer> = Vec::new();
    layers.push(TextLayer { top: -2, left: -2, outline: true });
    layers.push(TextLayer { top: -2, left: 2, outline: true });
    layers.push(TextLayer { top: 2, left: -2, outline: true });
    layers.push(TextLayer { top: 2, left: 2, outline: true });
    layers.push(TextLayer { top: -3, left: 0, outline: true });
    layers.push(TextLayer { top: 3, left: 0, outline: true });
    layers.push(TextLayer { top: 0, left: -3, outline: true });
    layers.push(TextLayer { top: 0, left: 3, outline: true });
    layers.push(TextLayer { top: 0, left: 0, outline: false });
    layers
}

/// The outline is eight different copies, each moved off the glyph and by at
/// most three pixels in each direction, so the stroke hugs the glyph.
pub proof fn lemma_stroke_is_tight()
    ensures
        stroke_offsets().len() == 8,
        forall|i: int|
            #![trigger stroke_offsets()[i]]
            0 <= i < 8 ==> stroke_offsets()[i] != (0i8, 0i8) && -3 <= stroke_offsets()[i].0 <= 3 && -3
                <= stroke_offsets()[i].1 <= 3,
        forall|i: int, j: int|
            #![trigger stroke_offsets()[i], stroke_offsets()[j]]
            0 <= i < j < 8 ==> stroke_offsets()[i] != stroke_offsets()[j],
{
}

/// The outline surrounds the glyph evenly: for every outline copy there is one at
/// the opposite offset.
pub proof fn lemma_stroke_is_symmetric()
    ensures
        forall|i: int|
            #![trigger stroke_offsets()[i]]
            0 <= i < stroke_offsets().len() ==> exists|j: int|
                #![trigger stroke_offsets()[j]]
                0 <= j < stroke_offsets().len() && stroke_offsets()[j].0 == -stroke_offsets()[i].0
                    && stroke_offsets()[j].1 == -stroke_offsets()[i].1,
{
    assert forall|i: int| #![trigger stroke_offsets()[i]] 0 <= i < stroke_offsets().len() implies exists|j: int|
        #![trigger stroke_offsets()[j]]
        0 <= j < stroke_offsets().len() && stroke_offsets()[j].0 == -stroke_offsets()[i].0
            && stroke_offsets()[j].1 == -stroke_offsets()[i].1 by {
        let j: int = if i % 2 == 0 { i + 1 } else { i - 1 };
        let j: int = if i < 4 { 3 - i } else { j };
        assert(stroke_offsets()[j].0 == -stroke_offsets()[i].0 && stroke_offsets()[j].1
            == -stroke_offsets()[i].1);
    }
}

/// Splits text into its characters, giving each the color at its position in the
/// palette, the palette repeating as often as the text needs.
pub fn text_with_party_font<C: Copy>(text: &str, colors: &[C]) -> (chars: Vec<(char, C)>)
    requires
        text@.len() == 0 || colors@.len() > 0,
    ensures
        chars@.len() == text@.len(),
        forall|i: int|
            0 <= i < text@.len() ==> #[trigger] chars@[i] == (text@[i], colors@[i % colors@.len() as int]),
{
    let n: usize = text.unicode_len();
    let mut chars: Vec<(char, C)> = Vec::new();
    let mut i: usize = 0;
    while i < n
        invariant
            n == text@.len(),
            i <= n,
            n == 0 || colors@.len() > 0,
            chars@.len() == i,
            forall|k: int|
                0 <= k < i ==> #[trigger] chars@[k] == (text@[k], colors@[k % colors@.len() as int]),
        decreases n - i,
    {
        let c = text.get_char(i);
        let color = colors[i % colors.len()];
        chars.push((c, color));
        i = i + 1;
    }
    chars
}

} // verus!
