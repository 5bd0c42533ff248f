//! The tray menu: its entries, the pause entry's label, and which icon fits
//! the system theme.
use vstd::prelude::*;

use crate::text::str_eq;

verus! {

pub const TRAY_ID: &'static str = "main";
pub const MENU_SETTINGS_ID: &'static str = "settings";
pub const MENU_PAUSE_ID: &'static str = "pause_caps";
pub const MENU_EXIT_ID: &'static str = "exit";
pub const TOOLTIP: &'static str = "KeyTweak";

/// A chosen menu entry.
#[derive(Debug, Clone, Copy, PartialEq, Eq)]
pub enum MenuCommand {
    ShowSettings,
    TogglePause,
    Exit,
}

/// The entry a menu identifier names.
pub open spec fn menu_command_spec(id: Seq<char>) -> Option<MenuCommand> {
    if id == MENU_SETTINGS_ID@ {
        Some(MenuCommand::ShowSettings)
    } else if id == MENU_PAUSE_ID@ {
        Some(MenuCommand::TogglePause)
    } else if id == MENU_EXIT_ID@ {
        Some(MenuCommand::Exit)
    } else {
        None
    }
}

pub fn menu_command(id: &str) -> (res: Option<MenuCommand>)
    ensures
        res == menu_command_spec(id@),
{
    if str_eq(id, MENU_SETTINGS_ID) {
        Some(MenuCommand::ShowSettings)
    } else if str_eq(id, MENU_PAUSE_ID) {
        Some(MenuCommand::TogglePause)
    } else if str_eq(id, MENU_EXIT_ID) {
        Some(MenuCommand::Exit)
    } else {
        None
    }
}

pub open spec fn pause_text_spec(paused: bool) -> Seq<char> {
    if paused {
        "Возобновить переключение Caps Lock"@
    } else {
        "Приостановить переключение Caps Lock"@
    }
}

/// The label of the pause entry: resume while paused, pause otherwise.
pub fn pause_menu_text(paused: bool) -> (res: &'static str)
    ensures
        res@ == pause_text_spec(paused),
{
    if paused {
        "Возобновить переключение Caps Lock"
    } else {
        "Приостановить переключение Caps Lock"
    }
}

/// The system uses a dark theme when its `SystemUsesLightTheme` value was
/// read and is 0.
pub fn is_dark_theme(value: Option<u32>) -> (res: bool)
    ensures
        res == (value == Some(0u32)),
{
    match value {
        Some(v) => v == 0,
        None => false,
    }
}

} // verus!
