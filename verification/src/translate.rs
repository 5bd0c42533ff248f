//! Selection translation: hotkey parsing, the multi-press state machine,
//! language choice, and the LibreTranslate request and error texts.
use vstd::prelude::*;

use crate::autoreplace::opt_view;
use crate::config::{ModuleId, TranslateConfig};
use crate::exclusions::{is_module_excluded, module_excluded, ExclusionsConfig};
use crate::keyboard_hook::ModifierState;
use crate::keys::{key_name_to_vk, key_name_vk};
use crate::text::{
    ascii_lower_chars, ascii_lower_seq, chars_eq_str, chars_of, eq_ignore_ascii_case,
    eq_ignore_ascii_case_spec, lemma_split_on_nonempty, split_chars, split_on, str_eq, to_string,
    trim, trim_chars, trim_str, unicode_lowercase, to_lowercase, is_modifier_vk_spec, string_from_chars,
    concat, decimal, decimal_string, push_str, all_white, is_all_white,
};
use crate::toast::TranslationToastPayload;

verus! {

/// A parsed hotkey definition such as `ctrl+alt+r` or `ctrl+c+c`.
#[derive(Debug, Clone, Copy, PartialEq, Eq)]
pub struct ParsedHotkey {
    pub ctrl: bool,
    pub shift: bool,
    pub alt: bool,
    pub win: bool,
    /// The primary (non-modifier) virtual key code.
    pub vk_code: u32,
    /// How many times the key must be pressed in sequence.
    pub repeat_count: u32,
}

/// The tokens of a hotkey text: the pieces between `+`, trimmed and
/// ASCII lower-cased.
pub open spec fn hotkey_tokens(s: Seq<char>) -> Seq<Seq<char>> {
    split_on(s, '+').map_values(|p: Seq<char>| ascii_lower_seq(trim(p)))
}

pub open spec fn is_ctrl_token(t: Seq<char>) -> bool {
    t == "ctrl"@ || t == "control"@
}

pub open spec fn is_shift_token(t: Seq<char>) -> bool {
    t == "shift"@
}

pub open spec fn is_alt_token(t: Seq<char>) -> bool {
    t == "alt"@
}

pub open spec fn is_win_token(t: Seq<char>) -> bool {
    t == "win"@ || t == "super"@ || t == "meta"@
}

pub open spec fn is_modifier_token(t: Seq<char>) -> bool {
    is_ctrl_token(t) || is_shift_token(t) || is_alt_token(t) || is_win_token(t)
}

/// How many tokens name a key rather than a modifier.
pub open spec fn count_key_tokens(t: Seq<Seq<char>>) -> nat
    decreases t.len(),
{
    if t.len() == 0 {
        0
    } else {
        count_key_tokens(t.drop_last()) + if is_modifier_token(t.last()) {
            0nat
        } else {
            1nat
        }
    }
}

/// Counting the repeats of the key overflows 32 bits: some prefix of the
/// tokens names one known key, as every key token of it, 2^32 times.
pub open spec fn repeat_overflows(t: Seq<Seq<char>>) -> bool {
    exists|i: int|
        0 <= i < t.len() && count_key_tokens(#[trigger] t.take(i + 1)) == 0x1_0000_0000 && exists|vk: u16|
            #[trigger] key_tokens_agree(t.take(i + 1), vk)
}

/// Every key token names the key `vk`.
pub open spec fn key_tokens_agree(t: Seq<Seq<char>>, vk: u16) -> bool {
    forall|i: int|
        0 <= i < t.len() && !is_modifier_token(#[trigger] t[i]) ==> key_name_vk(t[i]) == Some(vk)
}

/// A hotkey text is well formed when at least one token names a key and
/// all key tokens name the same key.
pub open spec fn hotkey_valid(t: Seq<Seq<char>>) -> bool {
    count_key_tokens(t) > 0 && exists|vk: u16| key_tokens_agree(t, vk)
}

pub open spec fn has_token(t: Seq<Seq<char>>, p: spec_fn(Seq<char>) -> bool) -> bool {
    exists|i: int| 0 <= i < t.len() && #[trigger] p(t[i])
}

/// How a hotkey text parses: a result as `ParsedHotkey::parse` gives it,
/// or an overflow of the repeat count.
enum HotkeyParse {
    Parsed(Option<ParsedHotkey>),
    Overflow,
}

/// Parses the hotkey text `hotkey_str` as `ParsedHotkey::parse` does, and
/// reports when the count of the key's repeats would not fit in 32 bits.
fn parse_tokens(hotkey_str: &str) -> (res: HotkeyParse)
    ensures
        res is Overflow <==> repeat_overflows(hotkey_tokens(hotkey_str@)),
        res matches HotkeyParse::Parsed(o) ==> {
            &&& (o is Some <==> hotkey_valid(hotkey_tokens(hotkey_str@)))
            &&& (o matches Some(h) ==> hotkey_denotes(hotkey_str@, h))
        },
{
    let chars = chars_of(hotkey_str);
    let parts = split_chars(chars.as_slice(), '+');
    let ghost pieces = split_on(hotkey_str@, '+');
    let ghost t = hotkey_tokens(hotkey_str@);
    proof {
        lemma_split_on_nonempty(hotkey_str@, '+');
        lemma_split_on_pieces_short(hotkey_str@, '+');
    }
    let mut ctrl = false;
    let mut shift = false;
    let mut alt = false;
    let mut win = false;
    let mut main_key: Option<u16> = None;
    let mut repeat_count: u32 = 0;
    let ghost mut first_key: int = 0;
    let mut i: usize = 0;
    while i < parts.len()
        invariant
            i <= parts.len(),
            parts@.len() == pieces.len(),
            t.len() == pieces.len(),
            forall|j: int| 0 <= j < i ==> count_key_tokens(#[trigger] t.take(j + 1)) <= repeat_count,
            forall|k: int| 0 <= k < parts@.len() ==> (#[trigger] parts@[k])@ == pieces[k],
            t == hotkey_tokens(hotkey_str@),
            pieces == split_on(hotkey_str@, '+'),
            ctrl == has_token(t.take(i as int), |x: Seq<char>| is_ctrl_token(x)),
            shift == has_token(t.take(i as int), |x: Seq<char>| is_shift_token(x)),
            alt == has_token(t.take(i as int), |x: Seq<char>| is_alt_token(x)),
            win == has_token(t.take(i as int), |x: Seq<char>| is_win_token(x)),
            repeat_count == count_key_tokens(t.take(i as int)),
            main_key is None <==> repeat_count == 0,
            main_key matches Some(vk) ==> {
                &&& key_tokens_agree(t.take(i as int), vk)
                &&& 0 <= first_key < i
                &&& !is_modifier_token(t[first_key])
                &&& key_name_vk(t[first_key]) == Some(vk)
            },
        decreases parts.len() - i,
    {
        let ghost pre = t.take(i as int);
        let ghost nxt = t.take(i + 1);
        assert(nxt.drop_last() =~= pre);
        assert(nxt.last() == t[i as int]);
        let trimmed = trim_chars(parts[i].as_slice());
        let lower = ascii_lower_chars(trimmed.as_slice());
        assert(lower@ == t[i as int]);
        let s = lower.as_slice();
        let is_ctrl = chars_eq_str(s, "ctrl") || chars_eq_str(s, "control");
        let is_shift = chars_eq_str(s, "shift");
        let is_alt = chars_eq_str(s, "alt");
        let is_win = chars_eq_str(s, "win") || chars_eq_str(s, "super") || chars_eq_str(
            s,
            "meta",
        );
        proof {
            reveal_strlit("ctrl");
            reveal_strlit("control");
            reveal_strlit("shift");
            reveal_strlit("alt");
            reveal_strlit("win");
            reveal_strlit("super");
            reveal_strlit("meta");
            lemma_has_token_push(pre, t[i as int], |x: Seq<char>| is_ctrl_token(x));
            lemma_has_token_push(pre, t[i as int], |x: Seq<char>| is_shift_token(x));
            lemma_has_token_push(pre, t[i as int], |x: Seq<char>| is_alt_token(x));
            lemma_has_token_push(pre, t[i as int], |x: Seq<char>| is_win_token(x));
            assert(pre.push(t[i as int]) =~= nxt);
        }
        if is_ctrl {
            ctrl = true;
        } else if is_shift {
            shift = true;
        } else if is_alt {
            alt = true;
        } else if is_win {
            win = true;
        } else {
            let name = crate::text::string_from_chars(s);
            let vk_opt = key_name_to_vk(name.as_str());
            match vk_opt {
                None => {
                    proof {
                        assert forall|vk: u16| !key_tokens_agree(t, vk) by {
                            assert(!is_modifier_token(t[i as int]));
                        }
                        assert forall|j: int| 0 <= j < t.len() && #[trigger] count_key_tokens(t.take(j + 1))
                            == 0x1_0000_0000 implies !exists|vk: u16| #[trigger] key_tokens_agree(t.take(j + 1), vk) by {
                            if j >= i {
                                assert forall|vk: u16| !#[trigger] key_tokens_agree(t.take(j + 1), vk) by {
                                    assert(t.take(j + 1)[i as int] == t[i as int]);
                                }
                            }
                        }
                    }
                    return HotkeyParse::Parsed(None);
                },
                Some(vk) => {
                    assert(key_name_vk(t[i as int]) == Some(vk));
                    match main_key {
                        Some(existing) => {
                            if existing == vk {
                                proof {
                                    assert forall|k: int|
                                        0 <= k < nxt.len() && !is_modifier_token(#[trigger] nxt[k])
                                        implies key_name_vk(nxt[k]) == Some(vk) by {
                                        if k < i {
                                            assert(nxt[k] == pre[k]);
                                        }
                                    }
                                    assert(key_tokens_agree(nxt, vk));
                                }
                                if repeat_count == 0xFFFF_FFFF {
                                    proof {
                                        assert(count_key_tokens(t.take(i + 1)) == 0x1_0000_0000);
                                        assert(key_tokens_agree(t.take(i + 1), vk));
                                    }
                                    return HotkeyParse::Overflow;
                                }
                                repeat_count += 1;
                            } else {
                                proof {
                                    assert forall|x: u16| !key_tokens_agree(t, x) by {
                                        if key_tokens_agree(t, x) {
                                            assert(!is_modifier_token(t[i as int]));
                                            assert(pre[first_key] == t[first_key]);
                                            assert(!is_modifier_token(t[first_key]));
                                        }
                                    }
                                    assert forall|j: int| 0 <= j < t.len() && #[trigger] count_key_tokens(
                                        t.take(j + 1),
                                    ) == 0x1_0000_0000 implies !exists|x: u16| #[trigger] key_tokens_agree(t.take(j + 1), x) by {
                                        if j >= i {
                                            assert forall|x: u16| !#[trigger] key_tokens_agree(t.take(j + 1), x) by {
                                                if key_tokens_agree(t.take(j + 1), x) {
                                                    assert(t.take(j + 1)[i as int] == t[i as int]);
                                                    assert(t.take(j + 1)[first_key] == t[first_key]);
                                                    assert(pre[first_key] == t[first_key]);
                                                    assert(!is_modifier_token(t[first_key]));
                                                }
                                            }
                                        }
                                    }
                                }
                                return HotkeyParse::Parsed(None);
                            }
                        },
                        None => {
                            main_key = Some(vk);
                            repeat_count = 1;
                            proof {
                                first_key = i as int;
                                lemma_no_key_tokens(pre);
                            }
                        },
                    }
                },
            }
        }
        proof {
            if main_key is Some {
                assert forall|k: int|
                    0 <= k < nxt.len() && !is_modifier_token(#[trigger] nxt[k]) implies key_name_vk(
                    nxt[k],
                ) == Some(main_key->0) by {
                    if k < i {
                        assert(nxt[k] == pre[k]);
                    } else {
                        assert(k == i);
                        assert(nxt[k] == t[i as int]);
                    }
                }
            }
        }
        i += 1;
    }
    assert(t.take(parts.len() as int) =~= t);
    match main_key {
        None => HotkeyParse::Parsed(None),
        Some(vk) => HotkeyParse::Parsed(
            Some(ParsedHotkey { ctrl, shift, alt, win, vk_code: vk as u32, repeat_count }),
        ),
    }
}


impl ParsedHotkey {
    /// Parses a hotkey such as `ctrl+alt+r` (modifiers ctrl and alt, key R)
    /// or `ctrl+c+c` (modifier ctrl, key C pressed twice). Tokens are
    /// trimmed and compared without ASCII case; `ctrl`/`control`, `shift`,
    /// `alt` and `win`/`super`/`meta` are modifiers, every other token is a
    /// key name. `None` when no token names a key, when a key name is
    /// unknown, or when two different keys are named.
    pub fn parse(hotkey_str: &str) -> (res: Option<Self>)
        requires
            !repeat_overflows(hotkey_tokens(hotkey_str@)),
        ensures
            res is Some <==> hotkey_valid(hotkey_tokens(hotkey_str@)),
            res matches Some(h) ==> {
                let t = hotkey_tokens(hotkey_str@);
                &&& h.ctrl == has_token(t, |x: Seq<char>| is_ctrl_token(x))
                &&& h.shift == has_token(t, |x: Seq<char>| is_shift_token(x))
                &&& h.alt == has_token(t, |x: Seq<char>| is_alt_token(x))
                &&& h.win == has_token(t, |x: Seq<char>| is_win_token(x))
                &&& h.vk_code < 0x10000
                &&& key_tokens_agree(t, h.vk_code as u16)
                &&& h.repeat_count == count_key_tokens(t)
            },
    {
        match parse_tokens(hotkey_str) {
            HotkeyParse::Parsed(h) => h,
            HotkeyParse::Overflow => None,
        }
    }

    /// Whether the held modifiers are exactly the hotkey's.
    pub fn modifiers_match(&self, modifiers: ModifierState) -> (res: bool)
        ensures
            res == (self.ctrl == modifiers.ctrl && self.shift == modifiers.shift && self.alt
                == modifiers.alt && self.win == modifiers.win),
    {
        self.ctrl == modifiers.ctrl && self.shift == modifiers.shift && self.alt == modifiers.alt
            && self.win == modifiers.win
    }

    /// Whether `vk_code` is the hotkey's primary key.
    pub fn key_matches(&self, vk_code: u32) -> (res: bool)
        ensures
            res == (self.vk_code == vk_code),
    {
        self.vk_code == vk_code
    }

    /// Whether the hotkey needs the key pressed more than once.
    pub fn is_multi_press(&self) -> (res: bool)
        ensures
            res == (self.repeat_count > 1),
    {
        self.repeat_count > 1
    }
}

proof fn lemma_no_key_tokens(t: Seq<Seq<char>>)
    requires
        count_key_tokens(t) == 0,
    ensures
        forall|k: int| 0 <= k < t.len() ==> is_modifier_token(#[trigger] t[k]),
    decreases t.len(),
{
    if t.len() > 0 {
        lemma_no_key_tokens(t.drop_last());
        assert forall|k: int| 0 <= k < t.len() implies is_modifier_token(#[trigger] t[k]) by {
            if k < t.len() - 1 {
                assert(t[k] == t.drop_last()[k]);
            }
        }
    }
}

proof fn lemma_has_token_push(t: Seq<Seq<char>>, x: Seq<char>, p: spec_fn(Seq<char>) -> bool)
    ensures
        has_token(t.push(x), p) == (has_token(t, p) || p(x)),
{
    let u = t.push(x);
    if has_token(t, p) {
        let i = choose|i: int| 0 <= i < t.len() && #[trigger] p(t[i]);
        assert(u[i] == t[i]);
    }
    if p(x) {
        assert(u[t.len() as int] == x);
    }
    if has_token(u, p) {
        let i = choose|i: int| 0 <= i < u.len() && #[trigger] p(u[i]);
        if i < t.len() {
            assert(u[i] == t[i]);
        }
    }
}

proof fn lemma_split_on_pieces_short(s: Seq<char>, sep: char)
    ensures
        split_on(s, sep).len() <= s.len() + 1,
    decreases s.len(),
{
    if s.len() > 0 {
        lemma_split_on_pieces_short(s.drop_last(), sep);
        lemma_split_on_nonempty(s.drop_last(), sep);
    }
}

// ---------------------------------------------------------------------------
// Settings in force
// ---------------------------------------------------------------------------

/// `h` is what `ParsedHotkey::parse` gives for the text `s`.
pub open spec fn hotkey_denotes(s: Seq<char>, h: ParsedHotkey) -> bool {
    let t = hotkey_tokens(s);
    &&& hotkey_valid(t)
    &&& h.ctrl == has_token(t, |x: Seq<char>| is_ctrl_token(x))
    &&& h.shift == has_token(t, |x: Seq<char>| is_shift_token(x))
    &&& h.alt == has_token(t, |x: Seq<char>| is_alt_token(x))
    &&& h.win == has_token(t, |x: Seq<char>| is_win_token(x))
    &&& h.vk_code < 0x10000
    &&& key_tokens_agree(t, h.vk_code as u16)
    &&& h.repeat_count == count_key_tokens(t)
}

/// The translate hotkey used when the configured one does not parse:
/// `ctrl+c+c`.
pub open spec fn fallback_translate_hotkey() -> ParsedHotkey {
    ParsedHotkey { ctrl: true, shift: false, alt: false, win: false, vk_code: 0x43, repeat_count: 2 }
}

/// The reverse hotkey used when the configured one does not parse:
/// `ctrl+shift+c`.
pub open spec fn fallback_reverse_hotkey() -> ParsedHotkey {
    ParsedHotkey { ctrl: true, shift: true, alt: false, win: false, vk_code: 0x43, repeat_count: 1 }
}

/// The hotkey in force for the text `s`: its parse when it is valid and
/// its key's repeats fit in 32 bits, else `fallback`.
pub open spec fn hotkey_in_force(s: Seq<char>, h: ParsedHotkey, fallback: ParsedHotkey) -> bool {
    if !repeat_overflows(hotkey_tokens(s)) && hotkey_valid(hotkey_tokens(s)) {
        hotkey_denotes(s, h)
    } else {
        h == fallback
    }
}

fn parse_or(s: &str, fallback: ParsedHotkey) -> (res: ParsedHotkey)
    ensures
        hotkey_in_force(s@, res, fallback),
{
    match parse_tokens(s) {
        HotkeyParse::Parsed(Some(h)) => h,
        _ => fallback,
    }
}

/// The translation settings in force.
pub struct RuntimeConfig {
    pub server_url: String,
    pub api_key: String,
    pub auto_detect_language: bool,
    pub target_language: String,
    pub hotkey_translate: ParsedHotkey,
    pub hotkey_reverse: ParsedHotkey,
}

impl RuntimeConfig {
    /// `self` holds the settings of `config`, with the hotkeys parsed.
    pub open spec fn mirrors(self, config: TranslateConfig) -> bool {
        &&& self.server_url == config.server_url
        &&& self.api_key == config.api_key
        &&& self.auto_detect_language == config.auto_detect_language
        &&& self.target_language == config.target_language
        &&& hotkey_in_force(config.hotkey_translate@, self.hotkey_translate, fallback_translate_hotkey())
        &&& hotkey_in_force(config.hotkey_reverse@, self.hotkey_reverse, fallback_reverse_hotkey())
    }

    pub fn from_config(config: &TranslateConfig) -> (res: Self)
        ensures
            res.mirrors(*config),
    {
        let t = parse_or(
            config.hotkey_translate.as_str(),
            ParsedHotkey { ctrl: true, shift: false, alt: false, win: false, vk_code: 0x43, repeat_count: 2 },
        );
        let r = parse_or(
            config.hotkey_reverse.as_str(),
            ParsedHotkey { ctrl: true, shift: true, alt: false, win: false, vk_code: 0x43, repeat_count: 1 },
        );
        RuntimeConfig {
            server_url: config.server_url.clone(),
            api_key: config.api_key.clone(),
            auto_detect_language: config.auto_detect_language,
            target_language: config.target_language.clone(),
            hotkey_translate: t,
            hotkey_reverse: r,
        }
    }
}

/// The settings in force after `configure(config)`.
pub fn configure(config: &TranslateConfig) -> (res: RuntimeConfig)
    ensures
        res.mirrors(*config),
{
    RuntimeConfig::from_config(config)
}

// ---------------------------------------------------------------------------
// Multi-press hotkeys
// ---------------------------------------------------------------------------

/// How long (milliseconds) a press may follow the previous one and still
/// count towards a multi-press hotkey.
pub const DOUBLE_C_WINDOW_MS: u64 = 500;

/// Progress of a multi-press hotkey.
pub struct MultiPressState {
    last_press: Option<u64>,
    press_count: u32,
    clipboard_backup: Option<String>,
}

/// The contents of a `MultiPressState`.
pub struct PressView {
    /// Time (milliseconds) of the last counted press.
    pub last_press: Option<u64>,
    /// Presses counted so far.
    pub press_count: u32,
    /// The clipboard text as it was before the first press.
    pub clipboard_backup: Option<String>,
}

impl MultiPressState {
    #[verifier::type_invariant]
    spec fn counted(self) -> bool {
        self.press_count < 0xFFFF_FFFF
    }

    pub closed spec fn view(self) -> PressView {
        PressView {
            last_press: self.last_press,
            press_count: self.press_count,
            clipboard_backup: self.clipboard_backup,
        }
    }

    /// No press counted, no backup.
    pub fn new() -> (res: Self)
        ensures
            res.view() == (PressView { last_press: None, press_count: 0, clipboard_backup: None }),
    {
        MultiPressState { last_press: None, press_count: 0, clipboard_backup: None }
    }

    pub fn press_count(&self) -> (res: u32)
        ensures
            res == self.view().press_count,
    {
        self.press_count
    }

    pub fn last_press(&self) -> (res: Option<u64>)
        ensures
            res == self.view().last_press,
    {
        self.last_press
    }

    /// Records the clipboard text read at the first press of a sequence.
    pub fn record_clipboard_backup(&mut self, text: Option<String>)
        ensures
            final(self).view() == (PressView { clipboard_backup: text, ..old(self).view() }),
    {
        proof {
            use_type_invariant(&*self);
        }
        self.clipboard_backup = text;
    }
}

/// Result of matching a key press against a hotkey.
#[derive(Debug, Clone, Copy, PartialEq, Eq, Structural)]
pub enum HotkeyMatchResult {
    /// The hotkey is complete: its action fires.
    Triggered,
    /// A multi-press hotkey counted a press but is not complete yet.
    Accumulating,
    /// The press is not this hotkey.
    NoMatch,
}

/// What the caller does besides the match result.
#[derive(Debug, Clone, PartialEq, Eq)]
pub enum PressEffect {
    Nothing,
    /// A new sequence began: read the clipboard and record it with
    /// `record_clipboard_backup`.
    BackupClipboard,
    /// A multi-press hotkey completed: translate the text just copied, then
    /// restore this clipboard text.
    TranslateFromCopy(Option<String>),
}

pub struct HotkeyCheck {
    pub result: HotkeyMatchResult,
    pub effect: PressEffect,
}

/// Whether a press at `now` follows the last counted press closely enough
/// (a clock going backwards counts as no time elapsed).
pub open spec fn within_window(last: Option<u64>, now: u64) -> bool {
    match last {
        Some(t) => now <= t || now - t <= DOUBLE_C_WINDOW_MS,
        None => false,
    }
}

/// The match result, the new progress and the effect of a key press.
pub open spec fn check_step(
    hotkey: ParsedHotkey,
    vk_code: u32,
    modifiers: ModifierState,
    s: PressView,
    now: u64,
) -> (HotkeyMatchResult, PressView, PressEffect) {
    if !(hotkey.ctrl == modifiers.ctrl && hotkey.shift == modifiers.shift && hotkey.alt
        == modifiers.alt && hotkey.win == modifiers.win) || hotkey.vk_code != vk_code {
        (HotkeyMatchResult::NoMatch, s, PressEffect::Nothing)
    } else if hotkey.repeat_count <= 1 {
        (HotkeyMatchResult::Triggered, s, PressEffect::Nothing)
    } else {
        let within = within_window(s.last_press, now);
        let count = if within { (s.press_count + 1) as u32 } else { 1u32 };
        let backup = if within { s.clipboard_backup } else { None };
        if count >= hotkey.repeat_count {
            (
                HotkeyMatchResult::Triggered,
                PressView { last_press: None, press_count: 0, clipboard_backup: None },
                PressEffect::TranslateFromCopy(backup),
            )
        } else {
            (
                HotkeyMatchResult::Accumulating,
                PressView { last_press: Some(now), press_count: count, clipboard_backup: backup },
                if within { PressEffect::Nothing } else { PressEffect::BackupClipboard },
            )
        }
    }
}

/// Matches a key press at time `now` (milliseconds) against `hotkey`,
/// counting presses of a multi-press hotkey.
pub fn check_hotkey(
    vk_code: u32,
    modifiers: ModifierState,
    hotkey: &ParsedHotkey,
    state: &mut MultiPressState,
    now: u64,
) -> (res: HotkeyCheck)
    ensures
        ({
            let (r, s, e) = check_step(*hotkey, vk_code, modifiers, old(state).view(), now);
            res.result == r && final(state).view() == s && res.effect == e
        }),
{
    proof {
        use_type_invariant(&*state);
    }
    if !hotkey.modifiers_match(modifiers) || !hotkey.key_matches(vk_code) {
        return HotkeyCheck { result: HotkeyMatchResult::NoMatch, effect: PressEffect::Nothing };
    }
    if !hotkey.is_multi_press() {
        return HotkeyCheck { result: HotkeyMatchResult::Triggered, effect: PressEffect::Nothing };
    }
    let within = match state.last_press {
        Some(last) => now <= last || now - last <= DOUBLE_C_WINDOW_MS,
        None => false,
    };
    let mut backup: Option<String> = None;
    std::mem::swap(&mut backup, &mut state.clipboard_backup);
    let count: u32 = if within {
        state.press_count + 1
    } else {
        backup = None;
        1
    };
    if count >= hotkey.repeat_count {
        state.press_count = 0;
        state.last_press = None;
        return HotkeyCheck {
            result: HotkeyMatchResult::Triggered,
            effect: PressEffect::TranslateFromCopy(backup),
        };
    }
    state.press_count = count;
    state.last_press = Some(now);
    state.clipboard_backup = backup;
    HotkeyCheck {
        result: HotkeyMatchResult::Accumulating,
        effect: if within {
            PressEffect::Nothing
        } else {
            PressEffect::BackupClipboard
        },
    }
}

/// Progress after a press that matched no hotkey: a multi-press sequence is
/// abandoned when the modifiers differ or another non-modifier key is
/// pressed.
pub open spec fn reset_step(hotkey: ParsedHotkey, vk_code: u32, modifiers: ModifierState, s: PressView) -> PressView {
    let should_reset = !(hotkey.ctrl == modifiers.ctrl && hotkey.shift == modifiers.shift
        && hotkey.alt == modifiers.alt && hotkey.win == modifiers.win) || (hotkey.vk_code != vk_code
        && !is_modifier_vk_spec(vk_code));
    if hotkey.repeat_count > 1 && should_reset {
        PressView { last_press: None, press_count: 0, ..s }
    } else {
        s
    }
}

/// Whether a virtual-key code is a modifier key (Shift, Ctrl, Alt in their
/// generic, left and right forms, or a Windows key).
pub fn is_modifier_vk(vk_code: u32) -> (res: bool)
    ensures
        res == is_modifier_vk_spec(vk_code),
{
    vk_code == 0x10 || vk_code == 0x11 || vk_code == 0x12 || vk_code == 0xA0 || vk_code == 0xA1
        || vk_code == 0xA2 || vk_code == 0xA3 || vk_code == 0xA4 || vk_code == 0xA5 || vk_code
        == 0x5B || vk_code == 0x5C
}

fn reset_if_needed(hotkey: &ParsedHotkey, vk_code: u32, modifiers: ModifierState, state: &mut MultiPressState)
    ensures
        final(state).view() == reset_step(*hotkey, vk_code, modifiers, old(state).view()),
{
    if hotkey.is_multi_press() {
        let should_reset = !hotkey.modifiers_match(modifiers) || (!hotkey.key_matches(vk_code)
            && !is_modifier_vk(vk_code));
        if should_reset {
            state.press_count = 0;
            state.last_press = None;
        }
    }
}

/// The progress of both hotkeys.
pub struct PressStates {
    pub translate: MultiPressState,
    pub reverse: MultiPressState,
}

impl PressStates {
    pub fn new() -> (res: Self)
        ensures
            res.translate.view() == (PressView { last_press: None, press_count: 0, clipboard_backup: None }),
            res.reverse.view() == (PressView { last_press: None, press_count: 0, clipboard_backup: None }),
    {
        PressStates { translate: MultiPressState::new(), reverse: MultiPressState::new() }
    }
}

/// An action the hook asks for.
#[derive(Debug, Clone, PartialEq, Eq)]
pub enum TranslateAction {
    /// Read the clipboard and record it on the translate (or reverse)
    /// hotkey's progress.
    BackupClipboard { reverse: bool },
    /// Translate the text just copied, then restore this clipboard text.
    TranslateFromCopy(Option<String>),
    /// Copy the selection, translate it, and restore the clipboard.
    CopySelectionAndTranslate,
    /// Copy the selection, translate it in the reverse direction, and
    /// restore the clipboard.
    CopySelectionAndReverseTranslate,
}

pub open spec fn effect_action(e: PressEffect, reverse: bool) -> Seq<TranslateAction> {
    match e {
        PressEffect::Nothing => Seq::empty(),
        PressEffect::BackupClipboard => seq![TranslateAction::BackupClipboard { reverse }],
        PressEffect::TranslateFromCopy(b) => seq![TranslateAction::TranslateFromCopy(b)],
    }
}

/// What the hook does after a key press.
pub struct TranslateOutcome {
    /// Whether the key is swallowed.
    pub consumed: bool,
    pub actions: Vec<TranslateAction>,
}

/// The decision for a key press: whether it is swallowed, the actions, and
/// the progress of both hotkeys afterwards.
pub open spec fn keydown_decision(
    config: RuntimeConfig,
    exclusions: ExclusionsConfig,
    vk_code: u32,
    modifiers: ModifierState,
    process_name: Option<Seq<char>>,
    t: PressView,
    r: PressView,
    now: u64,
) -> (bool, Seq<TranslateAction>, PressView, PressView) {
    if module_excluded(exclusions, ModuleId::Translate, process_name) {
        (false, Seq::empty(), t, r)
    } else {
        let (tr, t1, te) = check_step(config.hotkey_translate, vk_code, modifiers, t, now);
        let ta = effect_action(te, false);
        match tr {
            HotkeyMatchResult::Triggered => (
                true,
                if config.hotkey_translate.repeat_count > 1 {
                    ta
                } else {
                    ta.push(TranslateAction::CopySelectionAndTranslate)
                },
                t1,
                r,
            ),
            HotkeyMatchResult::Accumulating => (false, ta, t1, r),
            HotkeyMatchResult::NoMatch => {
                let (rr, r1, re) = if !config.auto_detect_language {
                    check_step(config.hotkey_reverse, vk_code, modifiers, r, now)
                } else {
                    (HotkeyMatchResult::NoMatch, r, PressEffect::Nothing)
                };
                let ra = ta + effect_action(re, true);
                match rr {
                    HotkeyMatchResult::Triggered => (
                        true,
                        ra.push(TranslateAction::CopySelectionAndReverseTranslate),
                        t1,
                        r1,
                    ),
                    HotkeyMatchResult::Accumulating => (false, ra, t1, r1),
                    HotkeyMatchResult::NoMatch => (
                        false,
                        ra,
                        reset_step(config.hotkey_translate, vk_code, modifiers, t1),
                        reset_step(config.hotkey_reverse, vk_code, modifiers, r1),
                    ),
                }
            },
        }
    }
}

fn push_effect(actions: &mut Vec<TranslateAction>, e: PressEffect, reverse: bool)
    ensures
        final(actions)@ == old(actions)@ + effect_action(e, reverse),
{
    match e {
        PressEffect::Nothing => {
            assert(old(actions)@ + Seq::<TranslateAction>::empty() =~= old(actions)@);
        },
        PressEffect::BackupClipboard => {
            actions.push(TranslateAction::BackupClipboard { reverse });
            assert(final(actions)@ =~= old(actions)@ + effect_action(PressEffect::BackupClipboard, reverse));
        },
        PressEffect::TranslateFromCopy(b) => {
            let ghost gb = b;
            actions.push(TranslateAction::TranslateFromCopy(b));
            assert(final(actions)@ =~= old(actions)@ + effect_action(PressEffect::TranslateFromCopy(gb), reverse));
        },
    }
}

/// Handles a key press at time `now` (milliseconds) for the translation
/// hotkeys.
pub fn handle_keydown(
    config: &RuntimeConfig,
    states: &mut PressStates,
    exclusions: &ExclusionsConfig,
    vk_code: u32,
    modifiers: ModifierState,
    process_name: Option<&str>,
    now: u64,
) -> (res: TranslateOutcome)
    ensures
        ({
            let (consumed, actions, t, r) = keydown_decision(
                *config,
                *exclusions,
                vk_code,
                modifiers,
                opt_view(process_name),
                old(states).translate.view(),
                old(states).reverse.view(),
                now,
            );
            &&& res.consumed == consumed
            &&& res.actions@ == actions
            &&& final(states).translate.view() == t
            &&& final(states).reverse.view() == r
        }),
{
    let mut actions: Vec<TranslateAction> = Vec::new();
    if is_module_excluded(exclusions, ModuleId::Translate, process_name) {
        return TranslateOutcome { consumed: false, actions };
    }
    let t = check_hotkey(vk_code, modifiers, &config.hotkey_translate, &mut states.translate, now);
    push_effect(&mut actions, t.effect, false);
    assert(Seq::<TranslateAction>::empty() + actions@ =~= actions@);
    match t.result {
        HotkeyMatchResult::Triggered => {
            if !config.hotkey_translate.is_multi_press() {
                actions.push(TranslateAction::CopySelectionAndTranslate);
            }
            return TranslateOutcome { consumed: true, actions };
        },
        HotkeyMatchResult::Accumulating => {
            return TranslateOutcome { consumed: false, actions };
        },
        HotkeyMatchResult::NoMatch => {},
    }
    if !config.auto_detect_language {
        let r = check_hotkey(vk_code, modifiers, &config.hotkey_reverse, &mut states.reverse, now);
        push_effect(&mut actions, r.effect, true);
        match r.result {
            HotkeyMatchResult::Triggered => {
                actions.push(TranslateAction::CopySelectionAndReverseTranslate);
                return TranslateOutcome { consumed: true, actions };
            },
            HotkeyMatchResult::Accumulating => {
                return TranslateOutcome { consumed: false, actions };
            },
            HotkeyMatchResult::NoMatch => {},
        }
    } else {
        assert(actions@ + effect_action(PressEffect::Nothing, true) =~= actions@);
    }
    reset_if_needed(&config.hotkey_translate, vk_code, modifiers, &mut states.translate);
    reset_if_needed(&config.hotkey_reverse, vk_code, modifiers, &mut states.reverse);
    TranslateOutcome { consumed: false, actions }
}

/// Law: a multi-press hotkey fires on its `repeat_count`-th press when
/// each press follows the previous one within the window: a press that
/// brings the count to `repeat_count` triggers and resets the progress,
/// and an earlier one accumulates.
pub proof fn multi_press_fires_on_last_press(
    hotkey: ParsedHotkey,
    modifiers: ModifierState,
    s: PressView,
    now: u64,
)
    requires
        hotkey.repeat_count > 1,
        hotkey.modifiers_match_spec(modifiers),
        within_window(s.last_press, now),
        s.press_count < 0xFFFF_FFFF,
    ensures
        ({
            let (r, s2, _) = check_step(hotkey, hotkey.vk_code, modifiers, s, now);
            &&& (s.press_count + 1 >= hotkey.repeat_count) ==> (r == HotkeyMatchResult::Triggered
                && s2.press_count == 0 && s2.last_press is None)
            &&& (s.press_count + 1 < hotkey.repeat_count) ==> (r == HotkeyMatchResult::Accumulating
                && s2.press_count == s.press_count + 1 && s2.last_press == Some(now))
        }),
{
}

impl ParsedHotkey {
    pub open spec fn modifiers_match_spec(self, modifiers: ModifierState) -> bool {
        self.ctrl == modifiers.ctrl && self.shift == modifiers.shift && self.alt == modifiers.alt
            && self.win == modifiers.win
    }
}

// ---------------------------------------------------------------------------
// Languages
// ---------------------------------------------------------------------------

/// Cyrillic and Cyrillic Supplement letters.
pub open spec fn is_cyrillic(c: char) -> bool {
    ('\u{0400}' <= c && c <= '\u{04FF}') || ('\u{0500}' <= c && c <= '\u{052F}')
}

pub open spec fn has_cyrillic(s: Seq<char>) -> bool {
    exists|i: int| 0 <= i < s.len() && is_cyrillic(#[trigger] s[i])
}

/// The detected language: `ru` when the text holds a Cyrillic letter, else
/// `en`.
pub open spec fn detected_language(s: Seq<char>) -> Seq<char> {
    if has_cyrillic(s) {
        "ru"@
    } else {
        "en"@
    }
}

/// Lightweight language detection for the RU/EN choice.
pub fn detect_language(text: &str) -> (res: &'static str)
    ensures
        res@ == detected_language(text@),
{
    let v = chars_of(text);
    let mut i: usize = 0;
    while i < v.len()
        invariant
            i <= v.len(),
            v@ == text@,
            forall|j: int| 0 <= j < i ==> !is_cyrillic(#[trigger] text@[j]),
        decreases v.len() - i,
    {
        let c = v[i];
        if ('\u{0400}' <= c && c <= '\u{04FF}') || ('\u{0500}' <= c && c <= '\u{052F}') {
            assert(is_cyrillic(text@[i as int]));
            return "ru";
        }
        i += 1;
    }
    "en"
}

/// The target of a reverse translation: English when the configured target
/// is Russian (any ASCII case), else Russian.
pub open spec fn reverse_target_spec(target: Seq<char>) -> Seq<char> {
    if eq_ignore_ascii_case_spec(target, "ru"@) {
        "en"@
    } else {
        "ru"@
    }
}

/// The target for automatic detection: the other language.
pub open spec fn auto_target_spec(detected: Seq<char>) -> Seq<char> {
    if detected == "ru"@ {
        "en"@
    } else {
        "ru"@
    }
}

/// The configured target: English when it says so (any ASCII case), else
/// Russian.
pub open spec fn normalized_target_spec(target: Seq<char>) -> Seq<char> {
    if eq_ignore_ascii_case_spec(target, "en"@) {
        "en"@
    } else {
        "ru"@
    }
}

pub fn reverse_target_language(target_language: &str) -> (res: String)
    ensures
        res@ == reverse_target_spec(target_language@),
{
    if eq_ignore_ascii_case(target_language, "ru") {
        to_string("en")
    } else {
        to_string("ru")
    }
}

pub fn auto_target_language(detected: &str) -> (res: String)
    ensures
        res@ == auto_target_spec(detected@),
{
    if str_eq(detected, "ru") {
        to_string("en")
    } else {
        to_string("ru")
    }
}

pub fn normalize_target_language(target_language: &str) -> (res: String)
    ensures
        res@ == normalized_target_spec(target_language@),
{
    if eq_ignore_ascii_case(target_language, "en") {
        to_string("en")
    } else {
        to_string("ru")
    }
}

/// Law: the reverse of the reverse target is the target itself, for a
/// target of `ru` or `en` in any ASCII case (lower-cased).
pub proof fn reverse_target_is_an_involution(target: Seq<char>)
    requires
        eq_ignore_ascii_case_spec(target, "ru"@) || eq_ignore_ascii_case_spec(target, "en"@),
    ensures
        reverse_target_spec(reverse_target_spec(target)) == ascii_lower_seq(target),
{
    reveal_strlit("ru");
    reveal_strlit("en");
    assert(ascii_lower_seq("ru"@) =~= "ru"@);
    assert(ascii_lower_seq("en"@) =~= "en"@);
}

/// Law: every target chosen is `ru` or `en`, and automatic detection
/// translates into the language other than the detected one.
pub proof fn targets_are_ru_or_en(target: Seq<char>, text: Seq<char>)
    ensures
        reverse_target_spec(target) == "ru"@ || reverse_target_spec(target) == "en"@,
        normalized_target_spec(target) == "ru"@ || normalized_target_spec(target) == "en"@,
        auto_target_spec(detected_language(text)) != detected_language(text),
{
    reveal_strlit("ru");
    reveal_strlit("en");
    assert("ru"@ != "en"@) by {
        assert("ru"@[0] != "en"@[0]);
    }
}

// ---------------------------------------------------------------------------
// Translation requests
// ---------------------------------------------------------------------------

/// What a translation needs: where to send it, and between which languages.
#[derive(Debug, Clone, PartialEq, Eq)]
pub struct TranslationJob {
    pub server_url: String,
    pub api_key: String,
    pub source_lang: String,
    pub target_lang: String,
    pub reverse: bool,
}

/// The target of a translation of `text`: the reverse target for a reverse
/// translation; the language other than the detected one with automatic
/// detection; else the configured target.
pub open spec fn job_target(config: RuntimeConfig, text: Seq<char>, reverse: bool) -> Seq<char> {
    if reverse {
        reverse_target_spec(config.target_language@)
    } else if config.auto_detect_language {
        auto_target_spec(detected_language(text))
    } else {
        normalized_target_spec(config.target_language@)
    }
}

/// Plans the translation of the selected `text`: an error when no server is
/// configured, else the trimmed server address, the detected source and
/// the target.
pub fn plan_translation(text: &str, config: &RuntimeConfig, reverse: bool) -> (res: Result<
    TranslationJob,
    String,
>)
    ensures
        trim(config.server_url@).len() == 0 <==> res is Err,
        res matches Err(e) ==> e@ == "Ошибка перевода: адрес сервера LibreTranslate не настроен."@,
        res matches Ok(job) ==> {
            &&& job.server_url@ == trim(config.server_url@)
            &&& job.api_key == config.api_key
            &&& job.source_lang@ == detected_language(text@)
            &&& job.target_lang@ == job_target(*config, text@, reverse)
            &&& job.reverse == reverse
        },
{
    let server_url = trim_str(config.server_url.as_str());
    if server_url.as_str().is_empty() {
        return Err(to_string("Ошибка перевода: адрес сервера LibreTranslate не настроен."));
    }
    let detected = detect_language(text);
    let target = if reverse {
        reverse_target_language(config.target_language.as_str())
    } else if config.auto_detect_language {
        auto_target_language(detected)
    } else {
        normalize_target_language(config.target_language.as_str())
    };
    Ok(TranslationJob {
        server_url,
        api_key: config.api_key.clone(),
        source_lang: to_string(detected),
        target_lang: target,
        reverse,
    })
}

/// `s` without trailing `/` (`str::trim_end_matches('/')`).
pub open spec fn without_trailing_slashes(s: Seq<char>) -> Seq<char>
    decreases s.len(),
{
    if s.len() > 0 && s.last() == '/' {
        without_trailing_slashes(s.drop_last())
    } else {
        s
    }
}

proof fn lemma_without_trailing_slashes(s: Seq<char>, k: int)
    requires
        0 <= k <= s.len(),
        forall|j: int| k <= j < s.len() ==> #[trigger] s[j] == '/',
        k == 0 || s[k - 1] != '/',
    ensures
        without_trailing_slashes(s) == s.take(k),
    decreases s.len() - k,
{
    if k == s.len() {
        assert(s.take(k) =~= s);
    } else {
        let t = s.drop_last();
        assert forall|j: int| k <= j < t.len() implies #[trigger] t[j] == '/' by {
            assert(t[j] == s[j]);
        }
        lemma_without_trailing_slashes(t, k);
        assert(t.take(k) =~= s.take(k));
    }
}

/// The translate endpoint of a server: its address without trailing `/`,
/// then `/translate`.
pub fn translate_endpoint(server_url: &str) -> (res: String)
    ensures
        res@ == without_trailing_slashes(server_url@) + "/translate"@,
{
    let v = chars_of(server_url);
    let mut k: usize = v.len();
    while k > 0 && v[k - 1] == '/'
        invariant
            k <= v.len(),
            v@ == server_url@,
            forall|j: int| k <= j < v.len() ==> #[trigger] v@[j] == '/',
        decreases k,
    {
        k -= 1;
    }
    proof {
        lemma_without_trailing_slashes(server_url@, k as int);
    }
    let mut base: Vec<char> = Vec::new();
    let mut i: usize = 0;
    while i < k
        invariant
            i <= k <= v.len(),
            base@ == v@.take(i as int),
        decreases k - i,
    {
        base.push(v[i]);
        assert(v@.take(i + 1) =~= v@.take(i as int).push(v@[i as int]));
        i += 1;
    }
    let mut res = string_from_chars(base.as_slice());
    push_str(&mut res, "/translate");
    res
}

/// A LibreTranslate `/translate` request.
#[derive(Debug, Clone, PartialEq, Eq)]
pub struct LibreTranslateRequest {
    pub q: String,
    pub source: String,
    pub target: String,
    pub format: String,
    /// Sent only when a key is configured.
    pub api_key: Option<String>,
}

/// The request that translates `text` into `target`: source `auto`, format
/// `text`, and the trimmed API key unless it is empty.
pub fn libretranslate_request(text: &str, target: &str, api_key: &str) -> (res: LibreTranslateRequest)
    ensures
        res.q@ == text@,
        res.source@ == "auto"@,
        res.target@ == target@,
        res.format@ == "text"@,
        trim(api_key@).len() == 0 ==> res.api_key is None,
        trim(api_key@).len() != 0 ==> (res.api_key matches Some(k) && k@ == trim(api_key@)),
{
    let key = trim_str(api_key);
    LibreTranslateRequest {
        q: to_string(text),
        source: to_string("auto"),
        target: to_string(target),
        format: to_string("text"),
        api_key: if key.as_str().is_empty() {
            None
        } else {
            Some(key)
        },
    }
}

/// The message for a failed HTTP status.
pub open spec fn http_error_spec(status: u16, detail: Seq<char>) -> Seq<char> {
    if status == 400 {
        "ошибочный запрос: "@ + detail
    } else if status == 401 || status == 403 {
        "неверный или отсутствующий API-ключ"@
    } else if status == 429 {
        "превышен лимит запросов"@
    } else if status == 500 {
        "ошибка сервера LibreTranslate: "@ + detail
    } else {
        "LibreTranslate вернул HTTP "@ + decimal(status as nat) + ": "@ + detail
    }
}

/// The message for a response with a failure status; `detail` is the
/// server's error text (or the raw body when it is not a JSON error).
pub fn http_error_message(status: u16, detail: &str) -> (res: String)
    ensures
        res@ == http_error_spec(status, detail@),
{
    if status == 400 {
        concat("ошибочный запрос: ", detail)
    } else if status == 401 || status == 403 {
        to_string("неверный или отсутствующий API-ключ")
    } else if status == 429 {
        to_string("превышен лимит запросов")
    } else if status == 500 {
        concat("ошибка сервера LibreTranslate: ", detail)
    } else {
        let mut s = to_string("LibreTranslate вернул HTTP ");
        let code = decimal_string(status as usize);
        push_str(&mut s, code.as_str());
        push_str(&mut s, ": ");
        push_str(&mut s, detail);
        s
    }
}

/// The error detail of a failed response: the server's `error` field when
/// the body parsed as one, else the body itself.
pub fn error_detail(body: String, parsed_error: Option<String>) -> (res: String)
    ensures
        res == (match parsed_error {
            Some(e) => e,
            None => body,
        }),
{
    match parsed_error {
        Some(e) => e,
        None => body,
    }
}

/// The result of a translation request from the server's reply with HTTP
/// status `status`: on a success status (200 to 299) the `translatedText`
/// of the body, `parsed_text`, or the reason it did not parse as an
/// invalid-response message; on any other status the message for that
/// status with the server's error detail, taken from `body` and the
/// `error` field it parsed to, `parsed_error`.
pub fn translation_reply(
    status: u16,
    body: String,
    parsed_error: Option<String>,
    parsed_text: Result<String, String>,
) -> (res: Result<String, String>)
    ensures
        200 <= status < 300 ==> match parsed_text {
            Ok(t) => res == Ok::<String, String>(t),
            Err(e) => res is Err && res->Err_0@ == "неверный ответ API ("@ + e@ + ")"@,
        },
        !(200 <= status < 300) ==> res is Err && res->Err_0@ == http_error_spec(
            status,
            match parsed_error {
                Some(e) => e@,
                None => body@,
            },
        ),
{
    if 200 <= status && status < 300 {
        match parsed_text {
            Ok(t) => Ok(t),
            Err(e) => Err(invalid_response_message(e.as_str())),
        }
    } else {
        let detail = error_detail(body, parsed_error);
        Err(http_error_message(status, detail.as_str()))
    }
}

/// The message for a request that could not be sent.
pub fn network_error_message(error: &str) -> (res: String)
    ensures
        res@ == "сетевая ошибка ("@ + error@ + ")"@,
{
    let mut s = concat("сетевая ошибка (", error);
    push_str(&mut s, ")");
    s
}

/// The message for a response body that is not a translation.
pub fn invalid_response_message(error: &str) -> (res: String)
    ensures
        res@ == "неверный ответ API ("@ + error@ + ")"@,
{
    let mut s = concat("неверный ответ API (", error);
    push_str(&mut s, ")");
    s
}

/// The message shown when a translation failed.
pub fn translation_failure_message(error: &str) -> (res: String)
    ensures
        res@ == "Ошибка перевода: "@ + error@,
{
    concat("Ошибка перевода: ", error)
}

/// What a connection test sends: the trimmed server, the key, and the
/// target lower-cased.
#[derive(Debug, Clone, PartialEq, Eq)]
pub struct TranslateProbe {
    pub server_url: String,
    pub api_key: String,
    pub target: String,
}

/// Checks the inputs of a connection test before anything is sent: an
/// error when no server is given or the target is neither `ru` nor `en`;
/// else the request to send (translating `hello`).
pub fn test_translate_api(server_url: &str, api_key: &str, target: &str) -> (res: Result<
    TranslateProbe,
    String,
>)
    ensures
        trim(server_url@).len() == 0 ==> (res matches Err(e) && e@
            == "Адрес сервера LibreTranslate не настроен"@),
        trim(server_url@).len() != 0 && unicode_lowercase(trim(target@)) != "ru"@
            && unicode_lowercase(trim(target@)) != "en"@ ==> (res matches Err(e) && e@
            == "целевой язык должен быть 'ru' или 'en'"@),
        trim(server_url@).len() != 0 && (unicode_lowercase(trim(target@)) == "ru"@
            || unicode_lowercase(trim(target@)) == "en"@) ==> (res matches Ok(p) && p.server_url@
            == trim(server_url@) && p.api_key@ == api_key@ && p.target@ == unicode_lowercase(
            trim(target@),
        )),
{
    let url = trim_str(server_url);
    if url.as_str().is_empty() {
        return Err(to_string("Адрес сервера LibreTranslate не настроен"));
    }
    let trimmed = trim_str(target);
    let t = to_lowercase(trimmed.as_str());
    if !str_eq(t.as_str(), "ru") && !str_eq(t.as_str(), "en") {
        return Err(to_string("целевой язык должен быть 'ru' или 'en'"));
    }
    Ok(TranslateProbe { server_url: url, api_key: to_string(api_key), target: t })
}

/// The toast that shows a finished translation.
pub fn translation_payload(job: &TranslationJob, original: String, translated: String) -> (res:
    TranslationToastPayload)
    ensures
        res.original == original,
        res.translated == translated,
        res.source_lang == job.source_lang,
        res.target_lang == job.target_lang,
        res.reverse == job.reverse,
{
    TranslationToastPayload {
        original,
        translated,
        source_lang: job.source_lang.clone(),
        target_lang: job.target_lang.clone(),
        reverse: job.reverse,
    }
}

/// Checks the text of a paste: an error when there is nothing to paste.
pub fn replace_with_translation(text: String) -> (res: Result<String, String>)
    ensures
        text@.len() == 0 ==> (res matches Err(e) && e@ == "нечего вставлять"@),
        text@.len() != 0 ==> res == Ok::<String, String>(text),
{
    if text.as_str().is_empty() {
        return Err(to_string("нечего вставлять"));
    }
    Ok(text)
}

/// Checks the text of a copy: an error when there is nothing to copy.
pub fn copy_to_clipboard(text: String) -> (res: Result<String, String>)
    ensures
        text@.len() == 0 ==> (res matches Err(e) && e@ == "нечего копировать"@),
        text@.len() != 0 ==> res == Ok::<String, String>(text),
{
    if text.as_str().is_empty() {
        return Err(to_string("нечего копировать"));
    }
    Ok(text)
}

/// The copied text to translate: none when the clipboard holds no text or
/// only white space.
pub fn usable_copied_text(clipboard: Option<String>) -> (res: Option<String>)
    ensures
        match clipboard {
            Some(t) => if all_white(t@) {
                res is None
            } else {
                res == Some(t)
            },
            None => res is None,
        },
{
    match clipboard {
        Some(t) => {
            let v = chars_of(t.as_str());
            if is_all_white(v.as_slice()) {
                None
            } else {
                Some(t)
            }
        },
        None => None,
    }
}

impl Default for RuntimeConfig {
    /// The settings of the default configuration.
    fn default() -> (res: Self)
        ensures
            exists|c: TranslateConfig| #[trigger] c.is_default() && res.mirrors(c),
    {
        let config = TranslateConfig::default();
        let res = RuntimeConfig::from_config(&config);
        assert(config.is_default() && res.mirrors(config));
        res
    }
}

} // verus!
