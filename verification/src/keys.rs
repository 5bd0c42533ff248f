//! Virtual-key codes, key names and the keyboard input sequences that the
//! modules send.
use vstd::prelude::*;

use crate::keyboard_hook::ModifierState;
use crate::text::{
    all_digits, ascii_upper, ascii_upper_char, chars_eq_str, chars_of, digits_value, has_prefix, is_ascii_alpha, is_ascii_digit,
    parse_u16, parse_u16_spec, slice_skip, starts_with_str,
};

verus! {

/// Virtual-key code of Backspace.
pub const VK_BACK: u16 = 0x08;

/// Virtual-key code of Tab.
pub const VK_TAB: u16 = 0x09;

/// Virtual-key code of Enter.
pub const VK_RETURN: u16 = 0x0D;

/// Virtual-key code of Shift (either side).
pub const VK_SHIFT: u16 = 0x10;

/// Virtual-key code of Ctrl (either side).
pub const VK_CONTROL: u16 = 0x11;

/// Virtual-key code of Alt (either side).
pub const VK_MENU: u16 = 0x12;

/// Virtual-key code of Caps Lock.
pub const VK_CAPITAL: u16 = 0x14;

/// Virtual-key code of Escape.
pub const VK_ESCAPE: u16 = 0x1B;

/// Virtual-key code of Space.
pub const VK_SPACE: u16 = 0x20;

/// Virtual-key code of Page Up.
pub const VK_PRIOR: u16 = 0x21;

/// Virtual-key code of Page Down.
pub const VK_NEXT: u16 = 0x22;

/// Virtual-key code of End.
pub const VK_END: u16 = 0x23;

/// Virtual-key code of Home.
pub const VK_HOME: u16 = 0x24;

/// Virtual-key code of Left arrow.
pub const VK_LEFT: u16 = 0x25;

/// Virtual-key code of Up arrow.
pub const VK_UP: u16 = 0x26;

/// Virtual-key code of Right arrow.
pub const VK_RIGHT: u16 = 0x27;

/// Virtual-key code of Down arrow.
pub const VK_DOWN: u16 = 0x28;

/// Virtual-key code of Insert.
pub const VK_INSERT: u16 = 0x2D;

/// Virtual-key code of Delete.
pub const VK_DELETE: u16 = 0x2E;

/// Virtual-key code of Left Windows key.
pub const VK_LWIN: u16 = 0x5B;

/// Virtual-key code of Right Windows key.
pub const VK_RWIN: u16 = 0x5C;

/// Virtual-key code of Left Shift.
pub const VK_LSHIFT: u16 = 0xA0;

/// Virtual-key code of Right Shift.
pub const VK_RSHIFT: u16 = 0xA1;

/// Virtual-key code of Left Ctrl.
pub const VK_LCONTROL: u16 = 0xA2;

/// Virtual-key code of Right Ctrl.
pub const VK_RCONTROL: u16 = 0xA3;

/// Virtual-key code of Left Alt.
pub const VK_LMENU: u16 = 0xA4;

/// Virtual-key code of Right Alt.
pub const VK_RMENU: u16 = 0xA5;
/// Virtual-key code of the `C` key.
pub const VK_C: u16 = 0x43;
/// Virtual-key code of the `V` key.
pub const VK_V: u16 = 0x56;

/// One keyboard event to inject: a virtual key, or a UTF-16 code unit typed
/// as a Unicode character; pressed or released.
#[derive(Debug, Clone, Copy, PartialEq, Eq)]
pub enum KeyInput {
    Key { vk: u16, key_up: bool },
    Unicode { unit: u16, key_up: bool },
}

/// A virtual-key event.
pub fn press(vk: u16, key_up: bool) -> (res: KeyInput)
    ensures
        res == (KeyInput::Key { vk, key_up }),
{
    KeyInput::Key { vk, key_up }
}

/// A Unicode (UTF-16 code unit) event.
pub fn unicode(unit: u16, key_up: bool) -> (res: KeyInput)
    ensures
        res == (KeyInput::Unicode { unit, key_up }),
{
    KeyInput::Unicode { unit, key_up }
}

/// The key code of a single-character key name: ASCII letters give their
/// upper-case code, ASCII digits their own code.
pub open spec fn single_char_vk(c: char) -> Option<u16> {
    if is_ascii_alpha(c) {
        Some(ascii_upper(c) as u16)
    } else if is_ascii_digit(c) {
        Some(c as u16)
    } else {
        None
    }
}

/// `F1` to `F24`.
pub open spec fn function_key_vk(n: Option<u16>) -> Option<u16> {
    match n {
        Some(n) => if 1 <= n && n <= 24 {
            Some((0x6F + n) as u16)
        } else {
            None
        },
        None => None,
    }
}

/// `Numpad0` to `Numpad9`.
pub open spec fn numpad_vk(n: Option<u16>) -> Option<u16> {
    match n {
        Some(n) => if n <= 9 {
            Some((0x60 + n) as u16)
        } else {
            None
        },
        None => None,
    }
}

/// The virtual-key code that a key name of the settings UI denotes.
pub open spec fn key_name_vk(name: Seq<char>) -> Option<u16> {
    if name == "backspace"@ {
        Some(VK_BACK)
    } else if name == "tab"@ {
        Some(VK_TAB)
    } else if name == "enter"@ {
        Some(VK_RETURN)
    } else if name == "escape"@ {
        Some(VK_ESCAPE)
    } else if name == "space"@ {
        Some(VK_SPACE)
    } else if name == "pageup"@ {
        Some(VK_PRIOR)
    } else if name == "pagedown"@ {
        Some(VK_NEXT)
    } else if name == "end"@ {
        Some(VK_END)
    } else if name == "home"@ {
        Some(VK_HOME)
    } else if name == "arrowleft"@ {
        Some(VK_LEFT)
    } else if name == "arrowup"@ {
        Some(VK_UP)
    } else if name == "arrowright"@ {
        Some(VK_RIGHT)
    } else if name == "arrowdown"@ {
        Some(VK_DOWN)
    } else if name == "insert"@ {
        Some(VK_INSERT)
    } else if name == "delete"@ {
        Some(VK_DELETE)
    } else if name == "capslock"@ {
        Some(VK_CAPITAL)
    } else if name == "left_alt"@ {
        Some(VK_LMENU)
    } else if name == "left_control"@ {
        Some(VK_LCONTROL)
    } else if name == "left_shift"@ {
        Some(VK_LSHIFT)
    } else if name == "left_win"@ {
        Some(VK_LWIN)
    } else if name == "right_alt"@ {
        Some(VK_RMENU)
    } else if name == "right_control"@ {
        Some(VK_RCONTROL)
    } else if name == "right_shift"@ {
        Some(VK_RSHIFT)
    } else if name == "right_win"@ {
        Some(VK_RWIN)
    } else if name.len() == 1 {
        single_char_vk(name[0])
    } else if name.len() > 0 && name[0] == 'f' {
        function_key_vk(parse_u16_spec(name.drop_first()))
    } else if has_prefix(name, "numpad"@) {
        numpad_vk(parse_u16_spec(name.skip(6)))
    } else {
        None
    }
}

/// `capslock` names the Caps Lock key.
pub proof fn lemma_capslock_name()
    ensures
        key_name_vk("capslock"@) == Some(VK_CAPITAL),
{
    lemma_key_name_texts();
}

pub fn single_char_to_vk(c: char) -> (res: Option<u16>)
    ensures
        res == single_char_vk(c),
{
    if ('a' <= c && c <= 'z') || ('A' <= c && c <= 'Z') {
        let u = ascii_upper_char(c);
        Some(u as u16)
    } else if '0' <= c && c <= '9' {
        Some(c as u16)
    } else {
        None
    }
}

pub fn function_key_to_vk(n: Option<u16>) -> (res: Option<u16>)
    ensures
        res == function_key_vk(n),
{
    match n {
        Some(n) => if 1 <= n && n <= 24 {
            Some(0x6F + n)
        } else {
            None
        },
        None => None,
    }
}

pub fn numpad_to_vk(n: Option<u16>) -> (res: Option<u16>)
    ensures
        res == numpad_vk(n),
{
    match n {
        Some(n) => if n <= 9 {
            Some(0x60 + n)
        } else {
            None
        },
        None => None,
    }
}

/// Maps a key name of the settings UI (lower case, as the browser names
/// keys) to its virtual-key code.
pub fn key_name_to_vk(name: &str) -> (res: Option<u16>)
    ensures
        res == key_name_vk(name@),
{
    let v = chars_of(name);
    let s = v.as_slice();
    if chars_eq_str(s, "backspace") {
        Some(VK_BACK)
    } else if chars_eq_str(s, "tab") {
        Some(VK_TAB)
    } else if chars_eq_str(s, "enter") {
        Some(VK_RETURN)
    } else if chars_eq_str(s, "escape") {
        Some(VK_ESCAPE)
    } else if chars_eq_str(s, "space") {
        Some(VK_SPACE)
    } else if chars_eq_str(s, "pageup") {
        Some(VK_PRIOR)
    } else if chars_eq_str(s, "pagedown") {
        Some(VK_NEXT)
    } else if chars_eq_str(s, "end") {
        Some(VK_END)
    } else if chars_eq_str(s, "home") {
        Some(VK_HOME)
    } else if chars_eq_str(s, "arrowleft") {
        Some(VK_LEFT)
    } else if chars_eq_str(s, "arrowup") {
        Some(VK_UP)
    } else if chars_eq_str(s, "arrowright") {
        Some(VK_RIGHT)
    } else if chars_eq_str(s, "arrowdown") {
        Some(VK_DOWN)
    } else if chars_eq_str(s, "insert") {
        Some(VK_INSERT)
    } else if chars_eq_str(s, "delete") {
        Some(VK_DELETE)
    } else if chars_eq_str(s, "capslock") {
        Some(VK_CAPITAL)
    } else if chars_eq_str(s, "left_alt") {
        Some(VK_LMENU)
    } else if chars_eq_str(s, "left_control") {
        Some(VK_LCONTROL)
    } else if chars_eq_str(s, "left_shift") {
        Some(VK_LSHIFT)
    } else if chars_eq_str(s, "left_win") {
        Some(VK_LWIN)
    } else if chars_eq_str(s, "right_alt") {
        Some(VK_RMENU)
    } else if chars_eq_str(s, "right_control") {
        Some(VK_RCONTROL)
    } else if chars_eq_str(s, "right_shift") {
        Some(VK_RSHIFT)
    } else if chars_eq_str(s, "right_win") {
        Some(VK_RWIN)
    } else if s.len() == 1 {
        single_char_to_vk(s[0])
    } else if s.len() > 0 && s[0] == 'f' {
        let rest = slice_skip(s, 1);
        function_key_to_vk(parse_u16(rest.as_slice()))
    } else if starts_with_str(s, "numpad") {
        proof {
            reveal_strlit("numpad");
        }
        let rest = slice_skip(s, 6);
        numpad_to_vk(parse_u16(rest.as_slice()))
    } else {
        None
    }
}

/// The system layout-switch hotkey: Left Win down, Space down, Space up,
/// Left Win up.
pub fn layout_switch_inputs() -> (res: Vec<KeyInput>)
    ensures
        res@ == seq![
            KeyInput::Key { vk: VK_LWIN, key_up: false },
            KeyInput::Key { vk: VK_SPACE, key_up: false },
            KeyInput::Key { vk: VK_SPACE, key_up: true },
            KeyInput::Key { vk: VK_LWIN, key_up: true },
        ],
{
    let mut v: Vec<KeyInput> = Vec::new();
    v.push(press(VK_LWIN, false));
    v.push(press(VK_SPACE, false));
    v.push(press(VK_SPACE, true));
    v.push(press(VK_LWIN, true));
    v
}

/// Ctrl+V: Ctrl down, V down, V up, Ctrl up.
pub fn ctrl_v_inputs() -> (res: Vec<KeyInput>)
    ensures
        res@ == seq![
            KeyInput::Key { vk: VK_CONTROL, key_up: false },
            KeyInput::Key { vk: VK_V, key_up: false },
            KeyInput::Key { vk: VK_V, key_up: true },
            KeyInput::Key { vk: VK_CONTROL, key_up: true },
        ],
{
    let mut v: Vec<KeyInput> = Vec::new();
    v.push(press(VK_CONTROL, false));
    v.push(press(VK_V, false));
    v.push(press(VK_V, true));
    v.push(press(VK_CONTROL, true));
    v
}

/// The held modifiers other than Ctrl (Shift, Alt, Win), as key events of
/// the given direction.
pub open spec fn held_modifier_events(m: ModifierState, key_up: bool) -> Seq<KeyInput> {
    (if m.shift { seq![KeyInput::Key { vk: VK_SHIFT, key_up }] } else { Seq::empty() })
        + (if m.alt { seq![KeyInput::Key { vk: VK_MENU, key_up }] } else { Seq::empty() })
        + (if m.win { seq![KeyInput::Key { vk: VK_LWIN, key_up }] } else { Seq::empty() })
}

/// The copy keystroke as sent while the user may hold modifiers: the held
/// Shift, Alt and Win are released, Ctrl is pressed unless held, C is
/// pressed and released, Ctrl is released unless it was held, and the other
/// modifiers are pressed again.
pub open spec fn ctrl_c_events(m: ModifierState) -> Seq<KeyInput> {
    held_modifier_events(m, true)
        + (if m.ctrl { Seq::empty() } else { seq![KeyInput::Key { vk: VK_CONTROL, key_up: false }] })
        + seq![KeyInput::Key { vk: VK_C, key_up: false }, KeyInput::Key { vk: VK_C, key_up: true }]
        + (if m.ctrl { Seq::empty() } else { seq![KeyInput::Key { vk: VK_CONTROL, key_up: true }] })
        + held_modifier_events(m, false)
}

fn push_held_modifiers(v: &mut Vec<KeyInput>, m: ModifierState, key_up: bool)
    ensures
        final(v)@ == old(v)@ + held_modifier_events(m, key_up),
{
    let ghost start = v@;
    if m.shift {
        v.push(press(VK_SHIFT, key_up));
    }
    let ghost a = v@;
    if m.alt {
        v.push(press(VK_MENU, key_up));
    }
    let ghost b = v@;
    if m.win {
        v.push(press(VK_LWIN, key_up));
    }
    assert(v@ =~= start + held_modifier_events(m, key_up));
}

/// The events that copy the current selection (see `ctrl_c_events`).
pub fn ctrl_c_inputs(m: ModifierState) -> (res: Vec<KeyInput>)
    ensures
        res@ == ctrl_c_events(m),
{
    let mut v: Vec<KeyInput> = Vec::new();
    push_held_modifiers(&mut v, m, true);
    let ghost a = v@;
    if !m.ctrl {
        v.push(press(VK_CONTROL, false));
    }
    let ghost b = v@;
    v.push(press(VK_C, false));
    v.push(press(VK_C, true));
    let ghost c = v@;
    if !m.ctrl {
        v.push(press(VK_CONTROL, true));
    }
    let ghost d = v@;
    push_held_modifiers(&mut v, m, false);
    assert(v@ =~= ctrl_c_events(m));
    v
}

/// The named keys' texts: their lengths, and for two of a length, a
/// character where they differ.
proof fn lemma_key_name_texts()
    ensures
        "end"@.len() == 3,
        "tab"@.len() == 3,
        "home"@.len() == 4,
        "enter"@.len() == 5,
        "space"@.len() == 5,
        "delete"@.len() == 6,
        "escape"@.len() == 6,
        "insert"@.len() == 6,
        "pageup"@.len() == 6,
        "arrowup"@.len() == 7,
        "capslock"@.len() == 8,
        "left_alt"@.len() == 8,
        "left_win"@.len() == 8,
        "pagedown"@.len() == 8,
        "arrowdown"@.len() == 9,
        "arrowleft"@.len() == 9,
        "backspace"@.len() == 9,
        "right_alt"@.len() == 9,
        "right_win"@.len() == 9,
        "arrowright"@.len() == 10,
        "left_shift"@.len() == 10,
        "right_shift"@.len() == 11,
        "left_control"@.len() == 12,
        "right_control"@.len() == 13,
        "end"@[0] != "tab"@[0],
        "enter"@[0] != "space"@[0],
        "delete"@[0] != "escape"@[0],
        "delete"@[0] != "insert"@[0],
        "delete"@[0] != "pageup"@[0],
        "escape"@[0] != "insert"@[0],
        "escape"@[0] != "pageup"@[0],
        "insert"@[0] != "pageup"@[0],
        "capslock"@[0] != "left_alt"@[0],
        "capslock"@[0] != "left_win"@[0],
        "capslock"@[0] != "pagedown"@[0],
        "left_alt"@[5] != "left_win"@[5],
        "left_alt"@[0] != "pagedown"@[0],
        "left_win"@[0] != "pagedown"@[0],
        "arrowdown"@[5] != "arrowleft"@[5],
        "arrowdown"@[0] != "backspace"@[0],
        "arrowdown"@[0] != "right_alt"@[0],
        "arrowdown"@[0] != "right_win"@[0],
        "arrowleft"@[0] != "backspace"@[0],
        "arrowleft"@[0] != "right_alt"@[0],
        "arrowleft"@[0] != "right_win"@[0],
        "backspace"@[0] != "right_alt"@[0],
        "backspace"@[0] != "right_win"@[0],
        "right_alt"@[6] != "right_win"@[6],
        "arrowright"@[0] != "left_shift"@[0],
{
    reveal_strlit("end");
    reveal_strlit("tab");
    reveal_strlit("home");
    reveal_strlit("enter");
    reveal_strlit("space");
    reveal_strlit("delete");
    reveal_strlit("escape");
    reveal_strlit("insert");
    reveal_strlit("pageup");
    reveal_strlit("arrowup");
    reveal_strlit("capslock");
    reveal_strlit("left_alt");
    reveal_strlit("left_win");
    reveal_strlit("pagedown");
    reveal_strlit("arrowdown");
    reveal_strlit("arrowleft");
    reveal_strlit("backspace");
    reveal_strlit("right_alt");
    reveal_strlit("right_win");
    reveal_strlit("arrowright");
    reveal_strlit("left_shift");
    reveal_strlit("right_shift");
    reveal_strlit("left_control");
    reveal_strlit("right_control");
}

/// Law: the editing keys denote their Windows codes: Backspace 0x08, Tab
/// 0x09, Enter 0x0D, Escape 0x1B, Space 0x20, Insert 0x2D, Delete 0x2E and
/// Caps Lock 0x14.
pub proof fn editing_keys_denote_their_codes()
    ensures
        key_name_vk("capslock"@) == Some(0x14u16),
        key_name_vk("space"@) == Some(0x20u16),
        key_name_vk("tab"@) == Some(0x09u16),
        key_name_vk("enter"@) == Some(0x0Du16),
        key_name_vk("delete"@) == Some(0x2Eu16),
        key_name_vk("escape"@) == Some(0x1Bu16),
        key_name_vk("insert"@) == Some(0x2Du16),
        key_name_vk("backspace"@) == Some(0x08u16),
{
    lemma_key_name_texts();
}

/// Law: the navigation keys denote their Windows codes: Page Up 0x21,
/// Page Down 0x22, End 0x23, Home 0x24 and the arrows left 0x25, up 0x26,
/// right 0x27, down 0x28.
pub proof fn navigation_keys_denote_their_codes()
    ensures
        key_name_vk("arrowdown"@) == Some(0x28u16),
        key_name_vk("arrowright"@) == Some(0x27u16),
        key_name_vk("arrowup"@) == Some(0x26u16),
        key_name_vk("arrowleft"@) == Some(0x25u16),
        key_name_vk("home"@) == Some(0x24u16),
        key_name_vk("end"@) == Some(0x23u16),
        key_name_vk("pagedown"@) == Some(0x22u16),
        key_name_vk("pageup"@) == Some(0x21u16),
{
    lemma_key_name_texts();
}

/// Law: the sided modifier keys denote their Windows codes: left and right
/// Shift 0xA0/0xA1, Control 0xA2/0xA3, Alt 0xA4/0xA5 and Windows 0x5B/0x5C.
pub proof fn sided_modifier_keys_denote_their_codes()
    ensures
        key_name_vk("right_win"@) == Some(0x5Cu16),
        key_name_vk("left_win"@) == Some(0x5Bu16),
        key_name_vk("right_alt"@) == Some(0xA5u16),
        key_name_vk("left_alt"@) == Some(0xA4u16),
        key_name_vk("right_control"@) == Some(0xA3u16),
        key_name_vk("left_control"@) == Some(0xA2u16),
        key_name_vk("right_shift"@) == Some(0xA1u16),
        key_name_vk("left_shift"@) == Some(0xA0u16),
{
    lemma_key_name_texts();
}

/// Law: named keys (names that are not read as a letter, a digit, an `F`
/// key or a numpad key) are told apart by their codes: two names that give
/// the same code are the same name.
pub proof fn named_keys_have_distinct_codes(a: Seq<char>, b: Seq<char>)
    requires
        a.len() > 1,
        b.len() > 1,
        a[0] != 'f',
        b[0] != 'f',
        !has_prefix(a, "numpad"@),
        !has_prefix(b, "numpad"@),
        key_name_vk(a) is Some,
        key_name_vk(a) == key_name_vk(b),
    ensures
        a == b,
{
}

/// Law: a one-character name that is an ASCII letter denotes the letter's
/// key, A = 0x41 to Z = 0x5A, in either case; an ASCII digit denotes its
/// key, 0 = 0x30 to 9 = 0x39; `f` and a digit from 1 to 9 denote the
/// function key, F1 = 0x70 to F9 = 0x78.
pub proof fn letter_digit_and_function_keys(c: char)
    ensures
        'a' <= c <= 'z' ==> key_name_vk(seq![c]) == Some(((c as u32) - 0x20) as u16),
        'A' <= c <= 'Z' ==> key_name_vk(seq![c]) == Some(c as u16),
        '0' <= c <= '9' ==> key_name_vk(seq![c]) == Some(c as u16),
        '1' <= c <= '9' ==> key_name_vk(seq!['f', c]) == Some((0x6F + ((c as u32) - 0x30)) as u16),
{
    lemma_key_name_texts();
    let one = seq![c];
    let two = seq!['f', c];
    assert(one.len() == 1);
    assert(two.len() == 2);
    assert(two[0] == 'f');
    if '1' <= c <= '9' {
        let d = two.drop_first();
        assert(d =~= seq![c]);
        assert(d.drop_last() =~= Seq::<char>::empty());
        assert(d.last() == c);
        assert(digits_value(d.drop_last()) == 0);
        assert(digits_value(d) == (c as int) - ('0' as int));
        assert(all_digits(d));
    }
}

} // verus!
