//! Key remapping: a press or release of a configured key is swallowed and
//! replaced by one of another key.
use vstd::prelude::*;

use crate::config::{KeyRemap, KeyRemapConfig};
use crate::keys::{
    function_key_to_vk, function_key_vk, single_char_to_vk, single_char_vk, VK_BACK, VK_CAPITAL,
    VK_CONTROL, VK_DELETE, VK_DOWN, VK_END, VK_ESCAPE, VK_HOME, VK_INSERT, VK_LCONTROL, VK_LEFT,
    VK_LMENU, VK_LSHIFT, VK_LWIN, VK_MENU, VK_NEXT, VK_PRIOR, VK_RCONTROL, VK_RETURN, VK_RIGHT,
    VK_RMENU, VK_RSHIFT, VK_RWIN, VK_SHIFT, VK_SPACE, VK_TAB, VK_UP,
};
use crate::text::{
    ascii_lower_chars, ascii_lower_seq, chars_eq_str, chars_of, parse_u16, parse_u16_spec,
    slice_skip, trim, trim_chars,
};

verus! {

/// A key named in a mapping: any Alt, any Ctrl, any Shift, any Win, or one
/// particular key.
#[derive(Debug, Clone, Copy, PartialEq, Eq, Structural)]
pub enum RemapKey {
    AnyAlt,
    AnyCtrl,
    AnyShift,
    AnyWin,
    Vk(u16),
}

/// An active mapping.
#[derive(Debug, Clone, Copy, PartialEq, Eq)]
pub struct KeyMapping {
    pub from: RemapKey,
    pub to: RemapKey,
}

/// The remapping settings in force.
pub struct RuntimeConfig {
    pub enabled: bool,
    pub mappings: Vec<KeyMapping>,
}

/// The key that an identifier names, after trimming and ASCII lower-casing.
pub open spec fn remap_key_of(v: Seq<char>) -> Option<RemapKey> {
    if v == "alt"@ {
        Some(RemapKey::AnyAlt)
    } else if v == "ctrl"@ {
        Some(RemapKey::AnyCtrl)
    } else if v == "control"@ {
        Some(RemapKey::AnyCtrl)
    } else if v == "shift"@ {
        Some(RemapKey::AnyShift)
    } else if v == "win"@ {
        Some(RemapKey::AnyWin)
    } else if v == "backspace"@ {
        Some(RemapKey::Vk(VK_BACK))
    } else if v == "caps_lock"@ {
        Some(RemapKey::Vk(VK_CAPITAL))
    } else if v == "capslock"@ {
        Some(RemapKey::Vk(VK_CAPITAL))
    } else if v == "delete"@ {
        Some(RemapKey::Vk(VK_DELETE))
    } else if v == "del"@ {
        Some(RemapKey::Vk(VK_DELETE))
    } else if v == "down"@ {
        Some(RemapKey::Vk(VK_DOWN))
    } else if v == "arrowdown"@ {
        Some(RemapKey::Vk(VK_DOWN))
    } else if v == "end"@ {
        Some(RemapKey::Vk(VK_END))
    } else if v == "enter"@ {
        Some(RemapKey::Vk(VK_RETURN))
    } else if v == "return"@ {
        Some(RemapKey::Vk(VK_RETURN))
    } else if v == "esc"@ {
        Some(RemapKey::Vk(VK_ESCAPE))
    } else if v == "escape"@ {
        Some(RemapKey::Vk(VK_ESCAPE))
    } else if v == "home"@ {
        Some(RemapKey::Vk(VK_HOME))
    } else if v == "insert"@ {
        Some(RemapKey::Vk(VK_INSERT))
    } else if v == "ins"@ {
        Some(RemapKey::Vk(VK_INSERT))
    } else if v == "left"@ {
        Some(RemapKey::Vk(VK_LEFT))
    } else if v == "arrowleft"@ {
        Some(RemapKey::Vk(VK_LEFT))
    } else if v == "left_alt"@ {
        Some(RemapKey::Vk(VK_LMENU))
    } else if v == "left_ctrl"@ {
        Some(RemapKey::Vk(VK_LCONTROL))
    } else if v == "left_control"@ {
        Some(RemapKey::Vk(VK_LCONTROL))
    } else if v == "left_shift"@ {
        Some(RemapKey::Vk(VK_LSHIFT))
    } else if v == "left_win"@ {
        Some(RemapKey::Vk(VK_LWIN))
    } else if v == "page_down"@ {
        Some(RemapKey::Vk(VK_NEXT))
    } else if v == "pagedown"@ {
        Some(RemapKey::Vk(VK_NEXT))
    } else if v == "page_up"@ {
        Some(RemapKey::Vk(VK_PRIOR))
    } else if v == "pageup"@ {
        Some(RemapKey::Vk(VK_PRIOR))
    } else if v == "right"@ {
        Some(RemapKey::Vk(VK_RIGHT))
    } else if v == "arrowright"@ {
        Some(RemapKey::Vk(VK_RIGHT))
    } else if v == "right_alt"@ {
        Some(RemapKey::Vk(VK_RMENU))
    } else if v == "right_ctrl"@ {
        Some(RemapKey::Vk(VK_RCONTROL))
    } else if v == "right_control"@ {
        Some(RemapKey::Vk(VK_RCONTROL))
    } else if v == "right_shift"@ {
        Some(RemapKey::Vk(VK_RSHIFT))
    } else if v == "right_win"@ {
        Some(RemapKey::Vk(VK_RWIN))
    } else if v == "space"@ {
        Some(RemapKey::Vk(VK_SPACE))
    } else if v == "tab"@ {
        Some(RemapKey::Vk(VK_TAB))
    } else if v == "up"@ {
        Some(RemapKey::Vk(VK_UP))
    } else if v == "arrowup"@ {
        Some(RemapKey::Vk(VK_UP))
    } else if v.len() == 1 {
        match single_char_vk(v[0]) {
            Some(vk) => Some(RemapKey::Vk(vk)),
            None => None,
        }
    } else if v.len() > 0 && v[0] == 'f' {
        match function_key_vk(parse_u16_spec(v.drop_first())) {
            Some(vk) => Some(RemapKey::Vk(vk)),
            None => None,
        }
    } else {
        None
    }
}

fn remap_key_from_chars(s: &[char]) -> (res: Option<RemapKey>)
    ensures
        res == remap_key_of(s@),
{
    if chars_eq_str(s, "alt") {
        Some(RemapKey::AnyAlt)
    } else if chars_eq_str(s, "ctrl") {
        Some(RemapKey::AnyCtrl)
    } else if chars_eq_str(s, "control") {
        Some(RemapKey::AnyCtrl)
    } else if chars_eq_str(s, "shift") {
        Some(RemapKey::AnyShift)
    } else if chars_eq_str(s, "win") {
        Some(RemapKey::AnyWin)
    } else if chars_eq_str(s, "backspace") {
        Some(RemapKey::Vk(VK_BACK))
    } else if chars_eq_str(s, "caps_lock") {
        Some(RemapKey::Vk(VK_CAPITAL))
    } else if chars_eq_str(s, "capslock") {
        Some(RemapKey::Vk(VK_CAPITAL))
    } else if chars_eq_str(s, "delete") {
        Some(RemapKey::Vk(VK_DELETE))
    } else if chars_eq_str(s, "del") {
        Some(RemapKey::Vk(VK_DELETE))
    } else if chars_eq_str(s, "down") {
        Some(RemapKey::Vk(VK_DOWN))
    } else if chars_eq_str(s, "arrowdown") {
        Some(RemapKey::Vk(VK_DOWN))
    } else if chars_eq_str(s, "end") {
        Some(RemapKey::Vk(VK_END))
    } else if chars_eq_str(s, "enter") {
        Some(RemapKey::Vk(VK_RETURN))
    } else if chars_eq_str(s, "return") {
        Some(RemapKey::Vk(VK_RETURN))
    } else if chars_eq_str(s, "esc") {
        Some(RemapKey::Vk(VK_ESCAPE))
    } else if chars_eq_str(s, "escape") {
        Some(RemapKey::Vk(VK_ESCAPE))
    } else if chars_eq_str(s, "home") {
        Some(RemapKey::Vk(VK_HOME))
    } else if chars_eq_str(s, "insert") {
        Some(RemapKey::Vk(VK_INSERT))
    } else if chars_eq_str(s, "ins") {
        Some(RemapKey::Vk(VK_INSERT))
    } else if chars_eq_str(s, "left") {
        Some(RemapKey::Vk(VK_LEFT))
    } else if chars_eq_str(s, "arrowleft") {
        Some(RemapKey::Vk(VK_LEFT))
    } else if chars_eq_str(s, "left_alt") {
        Some(RemapKey::Vk(VK_LMENU))
    } else if chars_eq_str(s, "left_ctrl") {
        Some(RemapKey::Vk(VK_LCONTROL))
    } else if chars_eq_str(s, "left_control") {
        Some(RemapKey::Vk(VK_LCONTROL))
    } else if chars_eq_str(s, "left_shift") {
        Some(RemapKey::Vk(VK_LSHIFT))
    } else if chars_eq_str(s, "left_win") {
        Some(RemapKey::Vk(VK_LWIN))
    } else if chars_eq_str(s, "page_down") {
        Some(RemapKey::Vk(VK_NEXT))
    } else if chars_eq_str(s, "pagedown") {
        Some(RemapKey::Vk(VK_NEXT))
    } else if chars_eq_str(s, "page_up") {
        Some(RemapKey::Vk(VK_PRIOR))
    } else if chars_eq_str(s, "pageup") {
        Some(RemapKey::Vk(VK_PRIOR))
    } else if chars_eq_str(s, "right") {
        Some(RemapKey::Vk(VK_RIGHT))
    } else if chars_eq_str(s, "arrowright") {
        Some(RemapKey::Vk(VK_RIGHT))
    } else if chars_eq_str(s, "right_alt") {
        Some(RemapKey::Vk(VK_RMENU))
    } else if chars_eq_str(s, "right_ctrl") {
        Some(RemapKey::Vk(VK_RCONTROL))
    } else if chars_eq_str(s, "right_control") {
        Some(RemapKey::Vk(VK_RCONTROL))
    } else if chars_eq_str(s, "right_shift") {
        Some(RemapKey::Vk(VK_RSHIFT))
    } else if chars_eq_str(s, "right_win") {
        Some(RemapKey::Vk(VK_RWIN))
    } else if chars_eq_str(s, "space") {
        Some(RemapKey::Vk(VK_SPACE))
    } else if chars_eq_str(s, "tab") {
        Some(RemapKey::Vk(VK_TAB))
    } else if chars_eq_str(s, "up") {
        Some(RemapKey::Vk(VK_UP))
    } else if chars_eq_str(s, "arrowup") {
        Some(RemapKey::Vk(VK_UP))
    } else if s.len() == 1 {
        match single_char_to_vk(s[0]) {
            Some(vk) => Some(RemapKey::Vk(vk)),
            None => None,
        }
    } else if s.len() > 0 && s[0] == 'f' {
        let rest = slice_skip(s, 1);
        match function_key_to_vk(parse_u16(rest.as_slice())) {
            Some(vk) => Some(RemapKey::Vk(vk)),
            None => None,
        }
    } else {
        None
    }
}

/// The event to inject in place of a remapped one.
#[derive(Debug, Clone, Copy, PartialEq, Eq)]
pub struct RemapOutput {
    pub vk: u16,
    pub key_up: bool,
    /// Whether the key is an extended key (flag `KEYEVENTF_EXTENDEDKEY`).
    pub extended: bool,
}

impl RemapKey {
    /// The key an identifier names.
    pub fn from_id(value: &str) -> (res: Option<Self>)
        ensures
            res == remap_key_of(ascii_lower_seq(trim(value@))),
    {
        let v = chars_of(value);
        let t = trim_chars(v.as_slice());
        let l = ascii_lower_chars(t.as_slice());
        remap_key_from_chars(l.as_slice())
    }

    /// Whether the key `vk_code` is this key.
    pub open spec fn matches_spec(self, vk_code: u32) -> bool {
        match self {
            RemapKey::AnyAlt => vk_code == VK_MENU as u32 || vk_code == VK_LMENU as u32 || vk_code
                == VK_RMENU as u32,
            RemapKey::AnyCtrl => vk_code == VK_CONTROL as u32 || vk_code == VK_LCONTROL as u32
                || vk_code == VK_RCONTROL as u32,
            RemapKey::AnyShift => vk_code == VK_SHIFT as u32 || vk_code == VK_LSHIFT as u32
                || vk_code == VK_RSHIFT as u32,
            RemapKey::AnyWin => vk_code == VK_LWIN as u32 || vk_code == VK_RWIN as u32,
            RemapKey::Vk(vk) => vk_code == vk as u32,
        }
    }

    pub fn matches_vk(self, vk_code: u32) -> (res: bool)
        ensures
            res == self.matches_spec(vk_code),
    {
        match self {
            RemapKey::AnyAlt => matches_vk(vk_code, VK_MENU, VK_LMENU, VK_RMENU),
            RemapKey::AnyCtrl => matches_vk(vk_code, VK_CONTROL, VK_LCONTROL, VK_RCONTROL),
            RemapKey::AnyShift => matches_vk(vk_code, VK_SHIFT, VK_LSHIFT, VK_RSHIFT),
            RemapKey::AnyWin => vk_code == VK_LWIN as u32 || vk_code == VK_RWIN as u32,
            RemapKey::Vk(vk) => vk_code == vk as u32,
        }
    }

    /// The key to produce when this key is the target and `source_vk_code`
    /// was pressed: for a side-less target, the side of the source (right
    /// when the source is the right key of that pair, else left).
    pub open spec fn output_spec(self, source_vk_code: u32) -> u16 {
        match self {
            RemapKey::AnyAlt => side_spec(source_vk_code, VK_LMENU, VK_RMENU),
            RemapKey::AnyCtrl => side_spec(source_vk_code, VK_LCONTROL, VK_RCONTROL),
            RemapKey::AnyShift => side_spec(source_vk_code, VK_LSHIFT, VK_RSHIFT),
            RemapKey::AnyWin => side_spec(source_vk_code, VK_LWIN, VK_RWIN),
            RemapKey::Vk(vk) => vk,
        }
    }

    pub fn output_vk(self, source_vk_code: u32) -> (res: u16)
        ensures
            res == self.output_spec(source_vk_code),
    {
        match self {
            RemapKey::AnyAlt => side_matching_vk(source_vk_code, VK_LMENU, VK_RMENU),
            RemapKey::AnyCtrl => side_matching_vk(source_vk_code, VK_LCONTROL, VK_RCONTROL),
            RemapKey::AnyShift => side_matching_vk(source_vk_code, VK_LSHIFT, VK_RSHIFT),
            RemapKey::AnyWin => side_matching_vk(source_vk_code, VK_LWIN, VK_RWIN),
            RemapKey::Vk(vk) => vk,
        }
    }
}

pub open spec fn side_spec(source_vk_code: u32, left: u16, right: u16) -> u16 {
    if source_vk_code == right as u32 {
        right
    } else {
        left
    }
}

pub fn side_matching_vk(source_vk_code: u32, left: u16, right: u16) -> (res: u16)
    ensures
        res == side_spec(source_vk_code, left, right),
{
    if source_vk_code == right as u32 {
        right
    } else {
        left
    }
}

fn matches_vk(vk_code: u32, a: u16, b: u16, c: u16) -> (res: bool)
    ensures
        res == (vk_code == a as u32 || vk_code == b as u32 || vk_code == c as u32),
{
    vk_code == a as u32 || vk_code == b as u32 || vk_code == c as u32
}

/// Keys injected with the extended-key flag.
pub open spec fn extended_spec(vk: u16) -> bool {
    vk == VK_LWIN || vk == VK_RWIN || vk == VK_LMENU || vk == VK_RMENU || vk == VK_LCONTROL || vk
        == VK_RCONTROL || vk == VK_INSERT || vk == VK_DELETE || vk == VK_HOME || vk == VK_END || vk
        == VK_PRIOR || vk == VK_NEXT || vk == VK_LEFT || vk == VK_RIGHT || vk == VK_UP || vk
        == VK_DOWN
}

pub fn is_extended_key(vk: u16) -> (res: bool)
    ensures
        res == extended_spec(vk),
{
    vk == VK_LWIN || vk == VK_RWIN || vk == VK_LMENU || vk == VK_RMENU || vk == VK_LCONTROL || vk
        == VK_RCONTROL || vk == VK_INSERT || vk == VK_DELETE || vk == VK_HOME || vk == VK_END || vk
        == VK_PRIOR || vk == VK_NEXT || vk == VK_LEFT || vk == VK_RIGHT || vk == VK_UP || vk
        == VK_DOWN
}

/// The active mapping that configuration entry `m` gives, if any: enabled,
/// both keys known, and different.
pub open spec fn active_mapping(m: KeyRemap) -> Option<KeyMapping> {
    let from = remap_key_of(ascii_lower_seq(trim(m.from@)));
    let to = remap_key_of(ascii_lower_seq(trim(m.to@)));
    if m.enabled && from is Some && to is Some && from->0 != to->0 {
        Some(KeyMapping { from: from->0, to: to->0 })
    } else {
        None
    }
}

/// The active mappings of a list of entries, in order.
pub open spec fn active_mappings(ms: Seq<KeyRemap>) -> Seq<KeyMapping>
    decreases ms.len(),
{
    if ms.len() == 0 {
        Seq::empty()
    } else {
        match active_mapping(ms.last()) {
            Some(k) => active_mappings(ms.drop_last()).push(k),
            None => active_mappings(ms.drop_last()),
        }
    }
}

/// The settings in force after `configure(config)`: enabled as configured,
/// with the active mappings in configuration order.
pub fn configure(config: &KeyRemapConfig) -> (res: RuntimeConfig)
    ensures
        res.enabled == config.enabled,
        res.mappings@ == active_mappings(config.mappings@),
{
    let mut mappings: Vec<KeyMapping> = Vec::new();
    let mut i: usize = 0;
    while i < config.mappings.len()
        invariant
            i <= config.mappings@.len(),
            mappings@ == active_mappings(config.mappings@.take(i as int)),
        decreases config.mappings@.len() - i,
    {
        let m = &config.mappings[i];
        assert(config.mappings@.take(i + 1).drop_last() =~= config.mappings@.take(i as int));
        if m.enabled {
            let from = RemapKey::from_id(m.from.as_str());
            let to = RemapKey::from_id(m.to.as_str());
            match (from, to) {
                (Some(f), Some(t)) => {
                    if f != t {
                        mappings.push(KeyMapping { from: f, to: t });
                    }
                },
                _ => {},
            }
        }
        i += 1;
    }
    assert(config.mappings@.take(config.mappings@.len() as int) =~= config.mappings@);
    RuntimeConfig { enabled: config.enabled, mappings }
}

/// Whether an active mapping takes Right Alt as its source.
pub open spec fn right_alt_mapped(config: RuntimeConfig) -> bool {
    config.enabled && exists|i: int|
        0 <= i < config.mappings@.len() && (#[trigger] config.mappings@[i]).from.matches_spec(
            VK_RMENU as u32,
        )
}

/// Whether some active mapping takes Right Alt as its source (its own key
/// or any Alt).
pub fn has_right_alt_mapping(config: &RuntimeConfig) -> (res: bool)
    ensures
        res == right_alt_mapped(*config),
{
    if !config.enabled {
        return false;
    }
    let mut i: usize = 0;
    while i < config.mappings.len()
        invariant
            i <= config.mappings@.len(),
            config.enabled,
            forall|j: int|
                0 <= j < i ==> !(#[trigger] config.mappings@[j]).from.matches_spec(VK_RMENU as u32),
        decreases config.mappings@.len() - i,
    {
        if config.mappings[i].from.matches_vk(VK_RMENU as u32) {
            assert(config.mappings@[i as int].from.matches_spec(VK_RMENU as u32));
            return true;
        }
        i += 1;
    }
    false
}

/// The first mapping whose source is `vk_code`.
pub open spec fn first_match(mappings: Seq<KeyMapping>, vk_code: u32, i: int) -> Option<KeyMapping>
    decreases mappings.len() - i,
{
    if i < 0 || i >= mappings.len() {
        None
    } else if mappings[i].from.matches_spec(vk_code) {
        Some(mappings[i])
    } else {
        first_match(mappings, vk_code, i + 1)
    }
}

/// What a key event becomes: when remapping is on and a mapping's source is
/// the key, the first such mapping's target (sided like the source), in the
/// same direction.
pub open spec fn remapped(config: RuntimeConfig, vk_code: u32, is_keyup: bool) -> Option<RemapOutput> {
    if !config.enabled {
        None
    } else {
        match first_match(config.mappings@, vk_code, 0) {
            Some(m) => {
                let vk = m.to.output_spec(vk_code);
                Some(RemapOutput { vk, key_up: is_keyup, extended: extended_spec(vk) })
            },
            None => None,
        }
    }
}

/// Handles a key event: `Some` when the event is swallowed and the given
/// one is to be injected instead.
pub fn handle_key_event(config: &RuntimeConfig, vk_code: u32, is_keyup: bool) -> (res: Option<
    RemapOutput,
>)
    ensures
        res == remapped(*config, vk_code, is_keyup),
{
    if !config.enabled {
        return None;
    }
    let mut i: usize = 0;
    while i < config.mappings.len()
        invariant
            i <= config.mappings@.len(),
            config.enabled,
            first_match(config.mappings@, vk_code, 0) == first_match(
                config.mappings@,
                vk_code,
                i as int,
            ),
        decreases config.mappings@.len() - i,
    {
        let m = config.mappings[i];
        if m.from.matches_vk(vk_code) {
            let vk = m.to.output_vk(vk_code);
            let extended = is_extended_key(vk);
            return Some(RemapOutput { vk, key_up: is_keyup, extended });
        }
        i += 1;
    }
    None
}

/// The `KEYBDINPUT` flags of an injected event: key-up (0x2) and
/// extended-key (0x1).
pub fn key_event_flags(out: RemapOutput) -> (res: u32)
    ensures
        res == (if out.key_up { 2u32 } else { 0u32 }) + (if out.extended { 1u32 } else { 0u32 }),
{
    let up: u32 = if out.key_up {
        2
    } else {
        0
    };
    let ext: u32 = if out.extended {
        1
    } else {
        0
    };
    up + ext
}

/// Law: with remapping off, no event is remapped.
pub proof fn disabled_remaps_nothing(config: RuntimeConfig, vk_code: u32, is_keyup: bool)
    requires
        !config.enabled,
    ensures
        remapped(config, vk_code, is_keyup) is None,
{
}

/// The first entry of a configuration's mapping list, from position `j`
/// on, that is active and whose source is `vk_code`, as its mapping.
pub open spec fn first_active_match(ms: Seq<KeyRemap>, vk_code: u32, j: int) -> Option<KeyMapping>
    decreases ms.len() - j,
{
    if j < 0 || j >= ms.len() {
        None
    } else {
        match active_mapping(ms[j]) {
            Some(k) => if k.from.matches_spec(vk_code) {
                Some(k)
            } else {
                first_active_match(ms, vk_code, j + 1)
            },
            None => first_active_match(ms, vk_code, j + 1),
        }
    }
}

/// Entry `j` of a mapping list is active and takes `vk_code` as its source.
pub open spec fn entry_takes(ms: Seq<KeyRemap>, j: int, vk_code: u32) -> bool {
    &&& active_mapping(ms[j]) is Some
    &&& active_mapping(ms[j])->0.from.matches_spec(vk_code)
}

proof fn lemma_first_match_push(a: Seq<KeyMapping>, k: KeyMapping, vk: u32, i: int)
    requires
        0 <= i <= a.len(),
    ensures
        first_match(a.push(k), vk, i) == (if first_match(a, vk, i) is Some {
            first_match(a, vk, i)
        } else if k.from.matches_spec(vk) {
            Some(k)
        } else {
            None
        }),
    decreases a.len() - i,
{
    if i < a.len() {
        assert(a.push(k)[i] == a[i]);
        lemma_first_match_push(a, k, vk, i + 1);
    } else {
        assert(a.push(k)[i] == k);
        assert(first_match(a, vk, i) == None::<KeyMapping>);
        assert(first_match(a.push(k), vk, i + 1) == None::<KeyMapping>);
    }
}

proof fn lemma_first_active_push(ms: Seq<KeyRemap>, m: KeyRemap, vk: u32, j: int)
    requires
        0 <= j <= ms.len(),
    ensures
        first_active_match(ms.push(m), vk, j) == (if first_active_match(ms, vk, j) is Some {
            first_active_match(ms, vk, j)
        } else if active_mapping(m) is Some && active_mapping(m)->0.from.matches_spec(vk) {
            active_mapping(m)
        } else {
            None
        }),
    decreases ms.len() - j,
{
    if j < ms.len() {
        assert(ms.push(m)[j] == ms[j]);
        lemma_first_active_push(ms, m, vk, j + 1);
    } else {
        assert(ms.push(m)[j] == m);
        assert(first_active_match(ms, vk, j) == None::<KeyMapping>);
        assert(first_active_match(ms.push(m), vk, j + 1) == None::<KeyMapping>);
    }
}

proof fn lemma_first_match_of_active(ms: Seq<KeyRemap>, vk: u32)
    ensures
        first_match(active_mappings(ms), vk, 0) == first_active_match(ms, vk, 0),
    decreases ms.len(),
{
    if ms.len() > 0 {
        let init = ms.drop_last();
        let m = ms.last();
        assert(ms =~= init.push(m));
        lemma_first_match_of_active(init, vk);
        lemma_first_active_push(init, m, vk, 0);
        match active_mapping(m) {
            Some(k) => {
                lemma_first_match_push(active_mappings(init), k, vk, 0);
            },
            None => {},
        }
    }
}

proof fn lemma_first_active_exists(ms: Seq<KeyRemap>, vk: u32, j: int)
    requires
        0 <= j <= ms.len(),
    ensures
        first_active_match(ms, vk, j) is Some <==> exists|i: int| j <= i < ms.len() && #[trigger] entry_takes(ms, i, vk),
    decreases ms.len() - j,
{
    if j < ms.len() {
        lemma_first_active_exists(ms, vk, j + 1);
        if entry_takes(ms, j, vk) {
        } else {
            assert forall|i: int| j <= i < ms.len() && #[trigger] entry_takes(ms, i, vk) implies j + 1 <= i by {
            }
        }
    }
}

proof fn lemma_first_match_exists(a: Seq<KeyMapping>, vk: u32, i: int)
    requires
        0 <= i <= a.len(),
    ensures
        first_match(a, vk, i) is Some <==> exists|k: int| i <= k < a.len() && (#[trigger] a[k]).from.matches_spec(vk),
    decreases a.len() - i,
{
    if i < a.len() {
        lemma_first_match_exists(a, vk, i + 1);
    }
}

/// Law: remapping follows the configuration. With the settings that
/// `configure(config)` gives, a key event is remapped exactly when
/// remapping is on and some entry of the list is active (enabled, both keys
/// known and different) with the key as its source; the replacement is the
/// target of the first such entry in configuration order, sided like the
/// key, in the same direction.
pub proof fn remapping_follows_configuration(
    config: KeyRemapConfig,
    settings: RuntimeConfig,
    vk_code: u32,
    is_keyup: bool,
)
    requires
        settings.enabled == config.enabled,
        settings.mappings@ == active_mappings(config.mappings@),
    ensures
        remapped(settings, vk_code, is_keyup) == (if config.enabled {
            match first_active_match(config.mappings@, vk_code, 0) {
                Some(m) => Some(
                    RemapOutput {
                        vk: m.to.output_spec(vk_code),
                        key_up: is_keyup,
                        extended: extended_spec(m.to.output_spec(vk_code)),
                    },
                ),
                None => None,
            }
        } else {
            None
        }),
        remapped(settings, vk_code, is_keyup) is Some <==> (config.enabled && exists|j: int|
            0 <= j < config.mappings@.len() && #[trigger] entry_takes(config.mappings@, j, vk_code)),
{
    lemma_first_match_of_active(config.mappings@, vk_code);
    lemma_first_active_exists(config.mappings@, vk_code, 0);
}

/// Law: a right-Alt mapping is in force exactly when remapping is on and
/// some active entry of the configuration takes Right Alt (its own key or
/// any Alt) as its source.
pub proof fn right_alt_mapping_follows_configuration(config: KeyRemapConfig, settings: RuntimeConfig)
    requires
        settings.enabled == config.enabled,
        settings.mappings@ == active_mappings(config.mappings@),
    ensures
        right_alt_mapped(settings) <==> (config.enabled && exists|j: int|
            0 <= j < config.mappings@.len() && #[trigger] entry_takes(config.mappings@, j, VK_RMENU as u32)),
{
    lemma_first_match_of_active(config.mappings@, VK_RMENU as u32);
    lemma_first_active_exists(config.mappings@, VK_RMENU as u32, 0);
    lemma_first_match_exists(settings.mappings@, VK_RMENU as u32, 0);
}

/// Law: a side-less key matches both keys of its pair and its generic code,
/// and nothing else: Alt is 0x12, 0xA4 (left) and 0xA5 (right); Control is
/// 0x11, 0xA2 and 0xA3; Shift is 0x10, 0xA0 and 0xA1; Windows is 0x5B
/// (left) and 0x5C (right). A key given by its code matches that code only.
pub proof fn side_less_keys_match_both_sides(vk_code: u32, code: u16)
    ensures
        RemapKey::AnyAlt.matches_spec(vk_code) <==> (vk_code == 0x12 || vk_code == 0xA4 || vk_code == 0xA5),
        RemapKey::AnyCtrl.matches_spec(vk_code) <==> (vk_code == 0x11 || vk_code == 0xA2 || vk_code == 0xA3),
        RemapKey::AnyShift.matches_spec(vk_code) <==> (vk_code == 0x10 || vk_code == 0xA0 || vk_code == 0xA1),
        RemapKey::AnyWin.matches_spec(vk_code) <==> (vk_code == 0x5B || vk_code == 0x5C),
        RemapKey::Vk(code).matches_spec(vk_code) <==> vk_code == code,
{
}

/// Law: a side-less target produces the right key of its pair exactly
/// when the pressed source key is that right key, and the left key
/// otherwise: Alt 0xA4/0xA5, Control 0xA2/0xA3, Shift 0xA0/0xA1, Windows
/// 0x5B/0x5C; a target given by its code produces that code.
pub proof fn side_less_targets_keep_the_side(source_vk_code: u32, code: u16)
    ensures
        RemapKey::AnyAlt.output_spec(source_vk_code) == if source_vk_code == 0xA5 { 0xA5u16 } else { 0xA4u16 },
        RemapKey::AnyCtrl.output_spec(source_vk_code) == if source_vk_code == 0xA3 { 0xA3u16 } else { 0xA2u16 },
        RemapKey::AnyShift.output_spec(source_vk_code) == if source_vk_code == 0xA1 { 0xA1u16 } else { 0xA0u16 },
        RemapKey::AnyWin.output_spec(source_vk_code) == if source_vk_code == 0x5C { 0x5Cu16 } else { 0x5Bu16 },
        RemapKey::Vk(code).output_spec(source_vk_code) == code,
{
}

} // verus!
