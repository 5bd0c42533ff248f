//! Modifier tracking and the errors of the low-level keyboard hook.
use vstd::prelude::*;

use crate::keys::{VK_CONTROL, VK_LCONTROL, VK_LMENU, VK_LSHIFT, VK_LWIN, VK_MENU, VK_RCONTROL,
    VK_RMENU, VK_RSHIFT, VK_RWIN, VK_SHIFT};

verus! {

/// Which modifier keys are held.
#[derive(Debug, Clone, Copy, Default, PartialEq, Eq)]
pub struct ModifierState {
    pub shift: bool,
    pub ctrl: bool,
    pub alt: bool,
    pub win: bool,
}

impl ModifierState {
    /// Whether any modifier is held.
    pub fn any(self) -> (res: bool)
        ensures
            res == (self.shift || self.ctrl || self.alt || self.win),
    {
        self.shift || self.ctrl || self.alt || self.win
    }

    /// The modifiers as tracked by the hook.
    pub fn current(tracked_state: &ModifierState) -> (res: Self)
        ensures
            res == *tracked_state,
    {
        *tracked_state
    }
}

/// Why the hook could not be installed.
#[derive(Debug, Clone, Copy, PartialEq, Eq)]
pub enum KeyboardHookError {
    AlreadyInstalled,
    ModuleHandle,
    Install,
}

impl KeyboardHookError {
    pub open spec fn message_spec(self) -> Seq<char> {
        match self {
            KeyboardHookError::AlreadyInstalled => "low-level keyboard hook is already installed"@,
            KeyboardHookError::ModuleHandle => "failed to get current module handle"@,
            KeyboardHookError::Install => "failed to install low-level keyboard hook"@,
        }
    }

    /// The error's description.
    pub fn message(&self) -> (res: &'static str)
        ensures
            res@ == self.message_spec(),
    {
        match self {
            KeyboardHookError::AlreadyInstalled => "low-level keyboard hook is already installed",
            KeyboardHookError::ModuleHandle => "failed to get current module handle",
            KeyboardHookError::Install => "failed to install low-level keyboard hook",
        }
    }
}

pub open spec fn is_shift_vk(vk: u32) -> bool {
    vk == VK_SHIFT as u32 || vk == VK_LSHIFT as u32 || vk == VK_RSHIFT as u32
}

pub open spec fn is_ctrl_vk(vk: u32) -> bool {
    vk == VK_CONTROL as u32 || vk == VK_LCONTROL as u32 || vk == VK_RCONTROL as u32
}

pub open spec fn is_alt_vk(vk: u32) -> bool {
    vk == VK_MENU as u32 || vk == VK_LMENU as u32 || vk == VK_RMENU as u32
}

pub open spec fn is_win_vk(vk: u32) -> bool {
    vk == VK_LWIN as u32 || vk == VK_RWIN as u32
}

/// The modifiers after key `vk` goes down (`pressed`) or up: either side of
/// a modifier sets or clears it, and other keys change nothing.
pub open spec fn updated_modifiers(m: ModifierState, vk: u32, pressed: bool) -> ModifierState {
    if is_shift_vk(vk) {
        ModifierState { shift: pressed, ..m }
    } else if is_ctrl_vk(vk) {
        ModifierState { ctrl: pressed, ..m }
    } else if is_alt_vk(vk) {
        ModifierState { alt: pressed, ..m }
    } else if is_win_vk(vk) {
        ModifierState { win: pressed, ..m }
    } else {
        m
    }
}

/// Records that key `vk_code` went down (`pressed`) or up.
pub fn update_modifier_state(state: &mut ModifierState, vk_code: u32, pressed: bool)
    ensures
        *final(state) == updated_modifiers(*old(state), vk_code, pressed),
{
    if vk_code == VK_SHIFT as u32 || vk_code == VK_LSHIFT as u32 || vk_code == VK_RSHIFT as u32 {
        state.shift = pressed;
    } else if vk_code == VK_CONTROL as u32 || vk_code == VK_LCONTROL as u32 || vk_code
        == VK_RCONTROL as u32 {
        state.ctrl = pressed;
    } else if vk_code == VK_MENU as u32 || vk_code == VK_LMENU as u32 || vk_code == VK_RMENU as u32 {
        state.alt = pressed;
    } else if vk_code == VK_LWIN as u32 || vk_code == VK_RWIN as u32 {
        state.win = pressed;
    }
}

/// Law: a modifier key's release undoes its press: pressing and then
/// releasing any key leaves a modifier that was up, up, and touches no
/// other modifier.
pub proof fn press_then_release_restores(m: ModifierState, vk: u32)
    requires
        !(is_shift_vk(vk) && m.shift),
        !(is_ctrl_vk(vk) && m.ctrl),
        !(is_alt_vk(vk) && m.alt),
        !(is_win_vk(vk) && m.win),
    ensures
        updated_modifiers(updated_modifiers(m, vk, true), vk, false) == m,
{
}

/// The modifiers after the key events `events` (key code, pressed), in
/// order, starting from `m`.
pub open spec fn modifiers_after(m: ModifierState, events: Seq<(u32, bool)>) -> ModifierState
    decreases events.len(),
{
    if events.len() == 0 {
        m
    } else {
        updated_modifiers(modifiers_after(m, events.drop_last()), events.last().0, events.last().1)
    }
}

/// Whether the last of `events` whose key is in `group` was a press (false
/// when there is none).
pub open spec fn last_in_group_pressed(events: Seq<(u32, bool)>, group: spec_fn(u32) -> bool) -> bool
    decreases events.len(),
{
    if events.len() == 0 {
        false
    } else if group(events.last().0) {
        events.last().1
    } else {
        last_in_group_pressed(events.drop_last(), group)
    }
}

/// Law: starting with no modifier held, after any sequence of key events
/// each modifier flag says whether the last event of its keys (left, right
/// or either) was a press.
pub proof fn modifiers_follow_last_event(events: Seq<(u32, bool)>)
    ensures
        modifiers_after(ModifierState { shift: false, ctrl: false, alt: false, win: false }, events)
            == (ModifierState {
            shift: last_in_group_pressed(events, |v: u32| is_shift_vk(v)),
            ctrl: last_in_group_pressed(events, |v: u32| is_ctrl_vk(v)),
            alt: last_in_group_pressed(events, |v: u32| is_alt_vk(v)),
            win: last_in_group_pressed(events, |v: u32| is_win_vk(v)),
        }),
    decreases events.len(),
{
    if events.len() > 0 {
        modifiers_follow_last_event(events.drop_last());
    }
}

/// Law: a key-down of either key of a modifier pair, or of its generic
/// code, sets that modifier and a key-up clears it, leaving the others as
/// they were: Shift 0x10, 0xA0, 0xA1; Control 0x11, 0xA2, 0xA3; Alt 0x12,
/// 0xA4, 0xA5; Windows 0x5B, 0x5C. Any other key changes nothing.
pub proof fn both_sides_track_their_modifier(m: ModifierState, vk: u32, pressed: bool)
    ensures
        (vk == 0x10 || vk == 0xA0 || vk == 0xA1) ==> updated_modifiers(m, vk, pressed) == (ModifierState {
            shift: pressed,
            ..m
        }),
        (vk == 0x11 || vk == 0xA2 || vk == 0xA3) ==> updated_modifiers(m, vk, pressed) == (ModifierState {
            ctrl: pressed,
            ..m
        }),
        (vk == 0x12 || vk == 0xA4 || vk == 0xA5) ==> updated_modifiers(m, vk, pressed) == (ModifierState {
            alt: pressed,
            ..m
        }),
        (vk == 0x5B || vk == 0x5C) ==> updated_modifiers(m, vk, pressed) == (ModifierState { win: pressed, ..m }),
        !(vk == 0x10 || vk == 0xA0 || vk == 0xA1 || vk == 0x11 || vk == 0xA2 || vk == 0xA3 || vk == 0x12
            || vk == 0xA4 || vk == 0xA5 || vk == 0x5B || vk == 0x5C) ==> updated_modifiers(m, vk, pressed) == m,
{
}

} // verus!
