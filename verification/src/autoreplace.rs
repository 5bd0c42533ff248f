//! Text auto-replacement: the typed word is collected in a buffer, and when
//! a separator key follows a configured shortcut, the shortcut is erased and
//! the replacement typed in its place.
use vstd::prelude::*;

use crate::config::{AutoReplaceConfig, ExceptionProgram, ModuleId, Replacement};
use crate::exclusions::{is_module_excluded, module_excluded, program_matches, program_matches_spec, ExclusionsConfig};
use crate::keyboard_hook::ModifierState;
use crate::keys::{
    press, unicode, KeyInput, VK_BACK, VK_DELETE, VK_DOWN, VK_END, VK_ESCAPE, VK_HOME, VK_LEFT,
    VK_RETURN, VK_RIGHT, VK_SPACE, VK_TAB, VK_UP,
};
use crate::text::{chars_eq, chars_of, ends_with_chars, has_suffix, to_lowercase, unicode_lowercase};

verus! {

/// The most characters the word buffer holds; a longer word is dropped.
pub const MAX_BUFFER_CHARS: usize = 128;

/// Punctuation that ends a word (when punctuation triggers are on) and may
/// begin a shortcut.
pub open spec fn is_punctuation_trigger(c: char) -> bool {
    c == '.' || c == ',' || c == '?' || c == '!' || c == ';' || c == ':'
}

pub fn punctuation_trigger(c: char) -> (res: bool)
    ensures
        res == is_punctuation_trigger(c),
{
    c == '.' || c == ',' || c == '?' || c == '!' || c == ';' || c == ':'
}

/// The auto-replacement settings in force.
pub struct RuntimeConfig {
    pub trigger_space: bool,
    pub trigger_tab: bool,
    pub trigger_enter: bool,
    pub trigger_punctuation: bool,
    pub whole_words_only: bool,
    pub case_sensitive: bool,
    pub replacements: Vec<Replacement>,
}

impl ExceptionProgram {
    pub fn duplicate(&self) -> (res: ExceptionProgram)
        ensures
            res == *self,
    {
        let display_name = match &self.display_name {
            Some(d) => Some(d.clone()),
            None => None,
        };
        ExceptionProgram { program: self.program.clone(), display_name }
    }
}

impl Replacement {
    /// `other` holds the same shortcut, replacement and exclusions.
    pub open spec fn same_as(self, other: Replacement) -> bool {
        &&& self.short == other.short
        &&& self.replacement == other.replacement
        &&& self.exclusions@ == other.exclusions@
    }

    /// A copy of this replacement.
    pub fn duplicate(&self) -> (res: Replacement)
        ensures
            res.same_as(*self),
    {
        let mut exclusions: Vec<ExceptionProgram> = Vec::new();
        let mut i: usize = 0;
        while i < self.exclusions.len()
            invariant
                i <= self.exclusions@.len(),
                exclusions@ == self.exclusions@.take(i as int),
            decreases self.exclusions@.len() - i,
        {
            exclusions.push(self.exclusions[i].duplicate());
            assert(self.exclusions@.take(i + 1) =~= self.exclusions@.take(i as int).push(
                self.exclusions@[i as int],
            ));
            i += 1;
        }
        assert(self.exclusions@.take(self.exclusions@.len() as int) =~= self.exclusions@);
        Replacement {
            short: self.short.clone(),
            replacement: self.replacement.clone(),
            exclusions,
        }
    }
}

impl RuntimeConfig {
    /// `self` holds the settings of `config`.
    pub open spec fn mirrors(self, config: AutoReplaceConfig) -> bool {
        &&& self.trigger_space == config.trigger_space
        &&& self.trigger_tab == config.trigger_tab
        &&& self.trigger_enter == config.trigger_enter
        &&& self.trigger_punctuation == config.trigger_punctuation
        &&& self.whole_words_only == config.whole_words_only
        &&& self.case_sensitive == config.case_sensitive
        &&& self.replacements@.len() == config.replacements@.len()
        &&& forall|i: int|
            0 <= i < config.replacements@.len() ==> (#[trigger] self.replacements@[i]).same_as(
                config.replacements@[i],
            )
    }

    pub fn from_config(config: &AutoReplaceConfig) -> (res: Self)
        ensures
            res.mirrors(*config),
    {
        let mut replacements: Vec<Replacement> = Vec::new();
        let mut i: usize = 0;
        while i < config.replacements.len()
            invariant
                i <= config.replacements@.len(),
                replacements@.len() == i,
                forall|k: int|
                    0 <= k < i ==> (#[trigger] replacements@[k]).same_as(config.replacements@[k]),
            decreases config.replacements@.len() - i,
        {
            replacements.push(config.replacements[i].duplicate());
            i += 1;
        }
        RuntimeConfig {
            trigger_space: config.trigger_space,
            trigger_tab: config.trigger_tab,
            trigger_enter: config.trigger_enter,
            trigger_punctuation: config.trigger_punctuation,
            whole_words_only: config.whole_words_only,
            case_sensitive: config.case_sensitive,
            replacements,
        }
    }
}

/// The settings in force after `configure(config)`.
pub fn configure(config: &AutoReplaceConfig) -> (res: RuntimeConfig)
    ensures
        res.mirrors(*config),
{
    RuntimeConfig::from_config(config)
}

// ---------------------------------------------------------------------------
// Finding a replacement
// ---------------------------------------------------------------------------

/// Whether the replacement is excluded for the foreground process.
pub open spec fn replacement_excluded(entry: Replacement, process_name: Option<Seq<char>>) -> bool {
    match process_name {
        None => false,
        Some(p) => exists|k: int|
            0 <= k < entry.exclusions@.len() && program_matches_spec(
                (#[trigger] entry.exclusions@[k]).program@,
                p,
            ),
    }
}

/// The text compared: as typed when matching is case-sensitive, else
/// lower-cased.
pub open spec fn fold_case(config: RuntimeConfig, s: Seq<char>) -> Seq<char> {
    if config.case_sensitive {
        s
    } else {
        unicode_lowercase(s)
    }
}

/// Whether `entry`'s shortcut matches `word`: equal to it, or (when not
/// whole words only) a suffix of it.
pub open spec fn shortcut_matches(config: RuntimeConfig, word: Seq<char>, entry: Replacement) -> bool {
    let needle = fold_case(config, word);
    let short = fold_case(config, entry.short@);
    if config.whole_words_only {
        needle == short
    } else {
        has_suffix(needle, short)
    }
}

/// Whether entry `i` of the list applies to `word` in the foreground process.
pub open spec fn entry_applies(
    config: RuntimeConfig,
    word: Seq<char>,
    process_name: Option<Seq<char>>,
    i: int,
) -> bool {
    shortcut_matches(config, word, config.replacements@[i]) && !replacement_excluded(
        config.replacements@[i],
        process_name,
    )
}

/// The replacement text of the first applicable entry from position `i` on.
pub open spec fn find_from(
    config: RuntimeConfig,
    word: Seq<char>,
    process_name: Option<Seq<char>>,
    i: int,
) -> Option<Seq<char>>
    decreases config.replacements@.len() - i,
{
    if i < 0 || i >= config.replacements@.len() {
        None
    } else if entry_applies(config, word, process_name, i) {
        Some(config.replacements@[i].replacement@)
    } else {
        find_from(config, word, process_name, i + 1)
    }
}

/// The replacement for `word` in the foreground process (see
/// `find_replacement`).
pub open spec fn replacement_for(
    config: RuntimeConfig,
    word: Seq<char>,
    process_name: Option<Seq<char>>,
) -> Option<Seq<char>> {
    if !config.whole_words_only && word.len() == 0 {
        None
    } else {
        find_from(config, word, process_name, 0)
    }
}

pub open spec fn opt_string_view(s: Option<String>) -> Option<Seq<char>> {
    match s {
        Some(p) => Some(p@),
        None => None,
    }
}

pub open spec fn opt_view(s: Option<&str>) -> Option<Seq<char>> {
    match s {
        Some(p) => Some(p@),
        None => None,
    }
}

/// Whether the replacement is blacklisted for the foreground program.
#[verifier::loop_isolation(false)]
pub fn is_replacement_excluded(entry: &Replacement, process_name: Option<&str>) -> (res: bool)
    ensures
        res == replacement_excluded(*entry, opt_view(process_name)),
{
    if entry.exclusions.len() == 0 {
        return false;
    }
    let process_name = match process_name {
        Some(p) => p,
        None => {
            return false;
        },
    };
    let mut i: usize = 0;
    while i < entry.exclusions.len()
        invariant
            i <= entry.exclusions@.len(),
            forall|k: int|
                0 <= k < i ==> !program_matches_spec(
                    (#[trigger] entry.exclusions@[k]).program@,
                    process_name@,
                ),
        decreases entry.exclusions@.len() - i,
    {
        if program_matches(entry.exclusions[i].program.as_str(), process_name) {
            assert(program_matches_spec(entry.exclusions@[i as int].program@, process_name@));
            return true;
        }
        i += 1;
    }
    false
}

/// The replacement for `word`: that of the first entry whose shortcut
/// matches and that is not excluded for the process; none for an empty word
/// when suffixes may match.
#[verifier::loop_isolation(false)]
pub fn find_replacement(config: &RuntimeConfig, word: &str, process_name: Option<&str>) -> (res:
    Option<String>)
    ensures
        (!config.whole_words_only && word@.len() == 0) ==> res is None,
        !(!config.whole_words_only && word@.len() == 0) ==> {
            &&& res is None <==> forall|i: int|
                0 <= i < config.replacements@.len() ==> !entry_applies(
                    *config,
                    word@,
                    opt_view(process_name),
                    i,
                )
            &&& res matches Some(r) ==> exists|i: int|
                0 <= i < config.replacements@.len() && entry_applies(
                    *config,
                    word@,
                    opt_view(process_name),
                    i,
                ) && (forall|j: int|
                    0 <= j < i ==> !entry_applies(*config, word@, opt_view(process_name), j))
                    && r@ == config.replacements@[i].replacement@
        },
        opt_string_view(res) == replacement_for(*config, word@, opt_view(process_name)),
{
    let word_chars = chars_of(word);
    if !config.whole_words_only && word_chars.len() == 0 {
        return None;
    }
    let needle = if config.case_sensitive {
        chars_of(word)
    } else {
        chars_of(to_lowercase(word).as_str())
    };
    let mut i: usize = 0;
    while i < config.replacements.len()
        invariant
            i <= config.replacements@.len(),
            needle@ == fold_case(*config, word@),
            !(!config.whole_words_only && word@.len() == 0),
            forall|j: int| 0 <= j < i ==> !entry_applies(*config, word@, opt_view(process_name), j),
            find_from(*config, word@, opt_view(process_name), 0) == find_from(
                *config,
                word@,
                opt_view(process_name),
                i as int,
            ),
        decreases config.replacements@.len() - i,
    {
        let entry = &config.replacements[i];
        let short = if config.case_sensitive {
            chars_of(entry.short.as_str())
        } else {
            chars_of(to_lowercase(entry.short.as_str()).as_str())
        };
        let matched = if config.whole_words_only {
            chars_eq(needle.as_slice(), short.as_slice())
        } else {
            ends_with_chars(needle.as_slice(), short.as_slice())
        };
        if matched && !is_replacement_excluded(entry, process_name) {
            assert(entry_applies(*config, word@, opt_view(process_name), i as int));
            return Some(entry.replacement.clone());
        }
        assert(!entry_applies(*config, word@, opt_view(process_name), i as int));
        i += 1;
    }
    None
}

// ---------------------------------------------------------------------------
// Keys
// ---------------------------------------------------------------------------

/// The separator that key `vk_code` produces: space, tab and Enter when
/// their triggers are on; otherwise the character the key types (`typed`)
/// when it is trigger punctuation and punctuation triggers are on.
pub open spec fn separator_spec(vk_code: u32, config: RuntimeConfig, typed: Option<char>) -> Option<char> {
    if vk_code == VK_SPACE as u32 && config.trigger_space {
        Some(' ')
    } else if vk_code == VK_TAB as u32 && config.trigger_tab {
        Some('\t')
    } else if vk_code == VK_RETURN as u32 && config.trigger_enter {
        Some('\n')
    } else {
        match typed {
            Some(c) => if config.trigger_punctuation && is_punctuation_trigger(c) {
                Some(c)
            } else {
                None
            },
            None => None,
        }
    }
}

/// The separator that key `vk_code` produces, given the character `typed`
/// that the key types in the current layout.
pub fn separator_for_vk(vk_code: u32, config: &RuntimeConfig, typed: Option<char>) -> (res: Option<char>)
    ensures
        res == separator_spec(vk_code, *config, typed),
{
    if vk_code == VK_SPACE as u32 && config.trigger_space {
        Some(' ')
    } else if vk_code == VK_TAB as u32 && config.trigger_tab {
        Some('\t')
    } else if vk_code == VK_RETURN as u32 && config.trigger_enter {
        Some('\n')
    } else {
        match typed {
            Some(c) => if config.trigger_punctuation && punctuation_trigger(c) {
                Some(c)
            } else {
                None
            },
            None => None,
        }
    }
}

/// Keys that move the caret or cancel: the word typed so far is dropped.
pub open spec fn clears_buffer(vk_code: u32) -> bool {
    vk_code == VK_ESCAPE as u32 || vk_code == VK_DELETE as u32 || vk_code == VK_LEFT as u32
        || vk_code == VK_RIGHT as u32 || vk_code == VK_UP as u32 || vk_code == VK_DOWN as u32
        || vk_code == VK_HOME as u32 || vk_code == VK_END as u32
}

pub fn should_clear_buffer(vk_code: u32) -> (res: bool)
    ensures
        res == clears_buffer(vk_code),
{
    vk_code == VK_ESCAPE as u32 || vk_code == VK_DELETE as u32 || vk_code == VK_LEFT as u32
        || vk_code == VK_RIGHT as u32 || vk_code == VK_UP as u32 || vk_code == VK_DOWN as u32
        || vk_code == VK_HOME as u32 || vk_code == VK_END as u32
}

/// Control characters (general category Cc), which `char::is_control`
/// tests.
pub open spec fn is_control(c: char) -> bool {
    (c as u32) <= 0x1F || (0x7F <= (c as u32) && (c as u32) <= 0x9F)
}

/// The first character that a UTF-16 buffer decodes to, if it is not a
/// control character: a unit outside the surrogate range is a character; a
/// high surrogate followed by a low one is a supplementary character; an
/// unpaired surrogate decodes to nothing.
pub open spec fn first_utf16_char(units: Seq<u16>) -> Option<char> {
    if units.len() == 0 {
        None
    } else if units[0] < 0xD800 || units[0] > 0xDFFF {
        Some(units[0] as char)
    } else if units[0] <= 0xDBFF && units.len() >= 2 && 0xDC00 <= units[1] && units[1] <= 0xDFFF {
        Some((0x10000 + (units[0] - 0xD800) * 0x400 + (units[1] - 0xDC00)) as char)
    } else {
        None
    }
}

pub open spec fn printable_char(units: Seq<u16>) -> Option<char> {
    match first_utf16_char(units) {
        Some(c) => if is_control(c) {
            None
        } else {
            Some(c)
        },
        None => None,
    }
}

/// The character typed by a key, from the UTF-16 units that the keyboard
/// layout produced for it: the first decoded character, unless it is a
/// control character.
pub fn key_char_from_utf16(units: &[u16]) -> (res: Option<char>)
    ensures
        res == printable_char(units@),
{
    if units.len() == 0 {
        return None;
    }
    let u0 = units[0];
    let c: char = if u0 < 0xD800 || u0 > 0xDFFF {
        let ch = char_from_scalar(u0 as u32);
        ch
    } else if u0 <= 0xDBFF && units.len() >= 2 && 0xDC00 <= units[1] && units[1] <= 0xDFFF {
        let v: u32 = 0x10000 + ((u0 - 0xD800) as u32) * 0x400 + ((units[1] - 0xDC00) as u32);
        char_from_scalar(v)
    } else {
        return None;
    };
    let code = c as u32;
    if code <= 0x1F || (0x7F <= code && code <= 0x9F) {
        None
    } else {
        Some(c)
    }
}

/// `char::from_u32` on a Unicode scalar value.
#[verifier::external_body]
fn char_from_scalar(v: u32) -> (res: char)
    requires
        v <= 0x10FFFF,
        v < 0xD800 || v > 0xDFFF,
    ensures
        res as u32 == v,
{
    char::from_u32(v).unwrap()
}

// ---------------------------------------------------------------------------
// Typing the replacement
// ---------------------------------------------------------------------------

/// The UTF-16 encoding of one character.
pub open spec fn utf16_units(c: char) -> Seq<u16> {
    let v = c as u32;
    if v < 0x10000 {
        seq![v as u16]
    } else {
        seq![(0xD800 + (v - 0x10000) / 0x400) as u16, (0xDC00 + (v - 0x10000) % 0x400) as u16]
    }
}

/// The UTF-16 encoding of a text (`str::encode_utf16`).
pub open spec fn utf16_of(s: Seq<char>) -> Seq<u16>
    decreases s.len(),
{
    if s.len() == 0 {
        Seq::empty()
    } else {
        utf16_of(s.drop_last()) + utf16_units(s.last())
    }
}

/// A press and a release of each unit.
pub open spec fn typing_events(units: Seq<u16>) -> Seq<KeyInput>
    decreases units.len(),
{
    if units.len() == 0 {
        Seq::empty()
    } else {
        typing_events(units.drop_last()) + seq![
            KeyInput::Unicode { unit: units.last(), key_up: false },
            KeyInput::Unicode { unit: units.last(), key_up: true },
        ]
    }
}

/// `n` presses and releases of Backspace.
pub open spec fn erase_events(n: nat) -> Seq<KeyInput>
    decreases n,
{
    if n == 0 {
        Seq::empty()
    } else {
        erase_events((n - 1) as nat) + seq![
            KeyInput::Key { vk: VK_BACK, key_up: false },
            KeyInput::Key { vk: VK_BACK, key_up: true },
        ]
    }
}

/// The input that replaces `word` with `replacement`: one Backspace per
/// character of the word, then the replacement typed unit by unit.
pub open spec fn replace_events(word: Seq<char>, replacement: Seq<char>) -> Seq<KeyInput> {
    erase_events(word.len()) + typing_events(utf16_of(replacement))
}

proof fn lemma_utf16_step(s: Seq<char>, i: int)
    requires
        0 <= i < s.len(),
    ensures
        utf16_of(s.take(i + 1)) == utf16_of(s.take(i)) + utf16_units(s[i]),
{
    assert(s.take(i + 1).drop_last() =~= s.take(i));
}

proof fn lemma_typing_append(a: Seq<u16>, b: Seq<u16>)
    ensures
        typing_events(a + b) == typing_events(a) + typing_events(b),
    decreases b.len(),
{
    if b.len() == 0 {
        assert(a + b =~= a);
        assert(typing_events(a) + typing_events(b) =~= typing_events(a));
    } else {
        lemma_typing_append(a, b.drop_last());
        assert((a + b).drop_last() =~= a + b.drop_last());
        assert((a + b).last() == b.last());
        assert(typing_events(a + b) =~= typing_events(a) + typing_events(b));
    }
}

/// The keyboard input that erases `word` and types `replacement`.
pub fn replace_inputs(word: &str, replacement: &str) -> (res: Vec<KeyInput>)
    ensures
        res@ == replace_events(word@, replacement@),
{
    let w = chars_of(word);
    let r = chars_of(replacement);
    let mut inputs: Vec<KeyInput> = Vec::new();
    let mut i: usize = 0;
    while i < w.len()
        invariant
            i <= w.len(),
            inputs@ == erase_events(i as nat),
        decreases w.len() - i,
    {
        inputs.push(press(VK_BACK, false));
        inputs.push(press(VK_BACK, true));
        i += 1;
        assert(inputs@ =~= erase_events(i as nat));
    }
    assert(w@.len() == word@.len());
    let ghost erased = inputs@;
    let mut j: usize = 0;
    while j < r.len()
        invariant
            j <= r.len(),
            r@ == replacement@,
            erased == erase_events(word@.len()),
            inputs@ == erased + typing_events(utf16_of(r@.take(j as int))),
        decreases r.len() - j,
    {
        let ghost before = inputs@;
        let c = r[j];
        let v = c as u32;
        proof {
            lemma_utf16_step(r@, j as int);
            lemma_typing_append(utf16_of(r@.take(j as int)), utf16_units(c));
        }
        if v < 0x10000 {
            let unit = v as u16;
            inputs.push(unicode(unit, false));
            inputs.push(unicode(unit, true));
            proof {
                let u = seq![unit];
                assert(utf16_units(c) =~= u);
                assert(typing_events(Seq::<u16>::empty()) =~= Seq::<KeyInput>::empty());
                assert(u.drop_last() =~= Seq::<u16>::empty());
                assert(typing_events(u) =~= seq![
                    KeyInput::Unicode { unit, key_up: false },
                    KeyInput::Unicode { unit, key_up: true },
                ]);
            }
        } else {
            let hi = (0xD800 + (v - 0x10000) / 0x400) as u16;
            let lo = (0xDC00 + (v - 0x10000) % 0x400) as u16;
            inputs.push(unicode(hi, false));
            inputs.push(unicode(hi, true));
            inputs.push(unicode(lo, false));
            inputs.push(unicode(lo, true));
            proof {
                let u = seq![hi, lo];
                assert(utf16_units(c) =~= u);
                assert(u.drop_last() =~= seq![hi]);
                assert(seq![hi].drop_last() =~= Seq::<u16>::empty());
                assert(typing_events(Seq::<u16>::empty()) =~= Seq::<KeyInput>::empty());
                assert(typing_events(seq![hi]) =~= seq![
                    KeyInput::Unicode { unit: hi, key_up: false },
                    KeyInput::Unicode { unit: hi, key_up: true },
                ]);
                assert(typing_events(u) =~= seq![
                    KeyInput::Unicode { unit: hi, key_up: false },
                    KeyInput::Unicode { unit: hi, key_up: true },
                    KeyInput::Unicode { unit: lo, key_up: false },
                    KeyInput::Unicode { unit: lo, key_up: true },
                ]);
            }
        }
        j += 1;
        assert(inputs@ =~= erased + typing_events(utf16_of(r@.take(j as int))));
    }
    assert(r@.take(r@.len() as int) =~= r@);
    inputs
}

// ---------------------------------------------------------------------------
// The word buffer
// ---------------------------------------------------------------------------

/// The word typed so far in the foreground window.
pub struct InputBuffer {
    foreground: isize,
    word: Vec<char>,
}

impl InputBuffer {
    #[verifier::type_invariant]
    spec fn bounded(self) -> bool {
        self.word@.len() <= MAX_BUFFER_CHARS
    }

    /// The window the word was typed in.
    pub closed spec fn window(self) -> isize {
        self.foreground
    }

    /// The word typed so far.
    pub closed spec fn typed(self) -> Seq<char> {
        self.word@
    }

    /// An empty buffer for no window in particular.
    pub fn new() -> (res: Self)
        ensures
            res.window() == 0,
            res.typed() == Seq::<char>::empty(),
    {
        InputBuffer { foreground: 0, word: Vec::new() }
    }

    /// The word typed so far.
    pub fn word(&self) -> (res: String)
        ensures
            res@ == self.typed(),
    {
        crate::text::string_from_chars(self.word.as_slice())
    }

    fn clear(&mut self)
        ensures
            final(self).typed() == Seq::<char>::empty(),
            final(self).window() == old(self).window(),
    {
        self.word = Vec::new();
    }

    /// Appends a character; a word grown past the limit is dropped.
    fn push(&mut self, ch: char)
        ensures
            final(self).typed() == push_limited(old(self).typed(), ch),
            final(self).window() == old(self).window(),
    {
        proof {
            use_type_invariant(&*self);
        }
        let mut w: Vec<char> = Vec::new();
        std::mem::swap(&mut w, &mut self.word);
        w.push(ch);
        if w.len() > MAX_BUFFER_CHARS {
            w = Vec::new();
        }
        self.word = w;
    }
}

/// The word after typing `ch`: dropped when it grows past the limit.
pub open spec fn push_limited(word: Seq<char>, ch: char) -> Seq<char> {
    if word.len() + 1 > MAX_BUFFER_CHARS {
        Seq::empty()
    } else {
        word.push(ch)
    }
}

/// A key press as the hook sees it.
pub struct KeyEvent {
    pub vk_code: u32,
    pub modifiers: ModifierState,
    /// The foreground window.
    pub foreground: isize,
    /// The character the key types in the current layout, without its scan
    /// code (used to recognise punctuation separators).
    pub separator_char: Option<char>,
    /// The character the key types in the current layout, with its scan code.
    pub typed_char: Option<char>,
}

/// What the hook does after a key press.
pub struct KeydownOutcome {
    /// Whether the key is swallowed (never: the separator always reaches the
    /// application).
    pub consumed: bool,
    /// The input that erases the shortcut and types its replacement.
    pub inputs: Option<Vec<KeyInput>>,
}

/// The buffer and the replacement (word, replacement text) after the
/// separator `sep` ends the word `word`.
pub open spec fn separator_step(
    config: RuntimeConfig,
    word: Seq<char>,
    sep: char,
    process_name: Option<Seq<char>>,
) -> (Seq<char>, Option<(Seq<char>, Seq<char>)>) {
    if word.len() == 0 {
        (if is_punctuation_trigger(sep) { push_limited(word, sep) } else { word }, None)
    } else {
        match replacement_for(config, word, process_name) {
            Some(r) => (Seq::empty(), Some((word, r))),
            None => (if is_punctuation_trigger(sep) { seq![sep] } else { Seq::empty() }, None),
        }
    }
}

/// The state after a key press: the window, the word, and the replacement
/// to perform, if any.
pub open spec fn keydown_step(
    config: RuntimeConfig,
    exclusions: ExclusionsConfig,
    window: isize,
    word: Seq<char>,
    process_name: Option<Seq<char>>,
    e: KeyEvent,
) -> (isize, Seq<char>, Option<(Seq<char>, Seq<char>)>) {
    if e.modifiers.ctrl || e.modifiers.alt || e.modifiers.win {
        (window, Seq::empty(), None)
    } else if module_excluded(exclusions, ModuleId::AutoReplace, process_name) {
        (window, Seq::empty(), None)
    } else {
        let w = if window != e.foreground { Seq::<char>::empty() } else { word };
        let fg = e.foreground;
        match separator_spec(e.vk_code, config, e.separator_char) {
            Some(sep) => {
                let (w2, rep) = separator_step(config, w, sep, process_name);
                (fg, w2, rep)
            },
            None => if e.vk_code == VK_BACK as u32 {
                (fg, if w.len() > 0 { w.drop_last() } else { w }, None)
            } else if clears_buffer(e.vk_code) {
                (fg, Seq::empty(), None)
            } else {
                match e.typed_char {
                    Some(ch) => (fg, push_limited(w, ch), None),
                    None => (fg, w, None),
                }
            },
        }
    }
}

/// Handles a key press: keeps the word buffer up to date and, when a
/// separator ends a shortcut, yields the input that replaces it.
pub fn handle_keydown(
    buffer: &mut InputBuffer,
    config: &RuntimeConfig,
    exclusions: &ExclusionsConfig,
    event: &KeyEvent,
    process_name: Option<&str>,
) -> (res: KeydownOutcome)
    ensures
        ({
            let (window, word, rep) = keydown_step(
                *config,
                *exclusions,
                old(buffer).window(),
                old(buffer).typed(),
                opt_view(process_name),
                *event,
            );
            &&& final(buffer).window() == window
            &&& final(buffer).typed() == word
            &&& final(buffer).typed().len() <= MAX_BUFFER_CHARS
            &&& !res.consumed
            &&& match rep {
                Some((w, r)) => res.inputs matches Some(v) && v@ == replace_events(w, r),
                None => res.inputs is None,
            }
        }),
{
    proof {
        use_type_invariant(&*buffer);
    }
    let m = event.modifiers;
    if m.ctrl || m.alt || m.win {
        buffer.clear();
        return KeydownOutcome { consumed: false, inputs: None };
    }
    if is_module_excluded(exclusions, ModuleId::AutoReplace, process_name) {
        buffer.clear();
        return KeydownOutcome { consumed: false, inputs: None };
    }
    if buffer.foreground != event.foreground {
        buffer.foreground = event.foreground;
        buffer.clear();
    }
    if let Some(sep) = separator_for_vk(event.vk_code, config, event.separator_char) {
        return handle_separator(buffer, sep, config, process_name);
    }
    if event.vk_code == VK_BACK as u32 {
        let mut w: Vec<char> = Vec::new();
        std::mem::swap(&mut w, &mut buffer.word);
        if w.len() > 0 {
            w.pop();
        }
        buffer.word = w;
        return KeydownOutcome { consumed: false, inputs: None };
    }
    if should_clear_buffer(event.vk_code) {
        buffer.clear();
        return KeydownOutcome { consumed: false, inputs: None };
    }
    if let Some(ch) = event.typed_char {
        buffer.push(ch);
    }
    KeydownOutcome { consumed: false, inputs: None }
}

fn handle_separator(
    buffer: &mut InputBuffer,
    sep: char,
    config: &RuntimeConfig,
    process_name: Option<&str>,
) -> (res: KeydownOutcome)
    ensures
        ({
            let (word, rep) = separator_step(*config, old(buffer).typed(), sep, opt_view(process_name));
            &&& final(buffer).window() == old(buffer).window()
            &&& final(buffer).typed() == word
            &&& !res.consumed
            &&& match rep {
                Some((w, r)) => res.inputs matches Some(v) && v@ == replace_events(w, r),
                None => res.inputs is None,
            }
        }),
{
    let word = crate::text::string_from_chars(buffer.word.as_slice());
    if buffer.word.len() == 0 {
        if punctuation_trigger(sep) {
            buffer.push(sep);
        }
        return KeydownOutcome { consumed: false, inputs: None };
    }
    match find_replacement(config, word.as_str(), process_name) {
        Some(replacement) => {
            let inputs = replace_inputs(word.as_str(), replacement.as_str());
            buffer.clear();
            KeydownOutcome { consumed: false, inputs: Some(inputs) }
        },
        None => {
            buffer.clear();
            if punctuation_trigger(sep) {
                buffer.push(sep);
            }
            KeydownOutcome { consumed: false, inputs: None }
        },
    }
}

impl Default for RuntimeConfig {
    /// The settings of the default configuration.
    fn default() -> (res: Self)
        ensures
            res.trigger_space,
            res.trigger_tab,
            !res.trigger_enter,
            res.trigger_punctuation,
            res.whole_words_only,
            !res.case_sensitive,
            res.replacements@.len() == 0,
    {
        let config = AutoReplaceConfig::default();
        RuntimeConfig::from_config(&config)
    }
}

/// Law: Backspace undoes a typed character. In the same window, with no
/// Ctrl, Alt or Win held and the module on for the program, a key that
/// types a character and is no separator, pressed while the word is below
/// the limit, followed by Backspace, leaves the word as it was.
pub proof fn backspace_undoes_typing(
    config: RuntimeConfig,
    exclusions: ExclusionsConfig,
    window: isize,
    word: Seq<char>,
    process_name: Option<Seq<char>>,
    typed: KeyEvent,
    back: KeyEvent,
)
    requires
        !module_excluded(exclusions, ModuleId::AutoReplace, process_name),
        typed.foreground == window,
        back.foreground == window,
        !typed.modifiers.ctrl && !typed.modifiers.alt && !typed.modifiers.win,
        !back.modifiers.ctrl && !back.modifiers.alt && !back.modifiers.win,
        separator_spec(typed.vk_code, config, typed.separator_char) is None,
        typed.vk_code != VK_BACK as u32,
        !clears_buffer(typed.vk_code),
        typed.typed_char is Some,
        word.len() < MAX_BUFFER_CHARS,
        back.vk_code == VK_BACK as u32,
        separator_spec(back.vk_code, config, back.separator_char) is None,
    ensures
        ({
            let (w1, word1, rep1) = keydown_step(config, exclusions, window, word, process_name, typed);
            let (w2, word2, rep2) = keydown_step(config, exclusions, w1, word1, process_name, back);
            &&& rep1 is None
            &&& rep2 is None
            &&& w2 == window
            &&& word2 == word
        }),
{
    let (w1, word1, rep1) = keydown_step(config, exclusions, window, word, process_name, typed);
    assert(word1 == word.push(typed.typed_char->0));
    assert(word1.drop_last() =~= word);
}

/// Law: entry `i` applies to the typed `word` exactly when it is not
/// excluded for the program and, with case folded unless matching is
/// case-sensitive, the word is the entry's shortcut (whole words only) or
/// ends with it (otherwise). So in whole-words-only mode a word that only
/// ends with a shortcut gets no replacement from it.
pub proof fn shortcut_applies_to_word(
    config: RuntimeConfig,
    word: Seq<char>,
    process_name: Option<Seq<char>>,
    i: int,
)
    requires
        0 <= i < config.replacements@.len(),
    ensures
        entry_applies(config, word, process_name, i) <==> ({
            let entry = config.replacements@[i];
            let w = if config.case_sensitive { word } else { unicode_lowercase(word) };
            let short = if config.case_sensitive { entry.short@ } else { unicode_lowercase(entry.short@) };
            &&& !replacement_excluded(entry, process_name)
            &&& if config.whole_words_only {
                w == short
            } else {
                short.len() <= w.len() && w.subrange(w.len() - short.len(), w.len() as int) == short
            }
        }),
{
}

proof fn lemma_find_from_found(config: RuntimeConfig, word: Seq<char>, process_name: Option<Seq<char>>, i: int)
    requires
        0 <= i,
    ensures
        find_from(config, word, process_name, i) matches Some(r) ==> exists|j: int|
            i <= j < config.replacements@.len() && entry_applies(config, word, process_name, j)
                && r == config.replacements@[j].replacement@,
        find_from(config, word, process_name, i) is None ==> forall|j: int|
            i <= j < config.replacements@.len() ==> !entry_applies(config, word, process_name, j),
    decreases config.replacements@.len() - i,
{
    if i < config.replacements@.len() && !entry_applies(config, word, process_name, i) {
        lemma_find_from_found(config, word, process_name, i + 1);
    }
}

/// Law: the replacement given for a typed `word` is the replacement text of
/// an entry whose shortcut is the word (whole words only) or ends it
/// (otherwise), case folded unless matching is case-sensitive, and that is
/// not excluded for the program; there is none when no entry is such.
pub proof fn replacement_comes_from_a_matching_entry(
    config: RuntimeConfig,
    word: Seq<char>,
    process_name: Option<Seq<char>>,
)
    ensures
        replacement_for(config, word, process_name) matches Some(r) ==> exists|i: int|
            0 <= i < config.replacements@.len() && r == config.replacements@[i].replacement@
                && #[trigger] entry_applies(config, word, process_name, i) && ({
                let w = if config.case_sensitive { word } else { unicode_lowercase(word) };
                let short = if config.case_sensitive {
                    config.replacements@[i].short@
                } else {
                    unicode_lowercase(config.replacements@[i].short@)
                };
                if config.whole_words_only {
                    w == short
                } else {
                    short.len() <= w.len() && w.subrange(w.len() - short.len(), w.len() as int) == short
                }
            }),
        config.whole_words_only ==> (replacement_for(config, word, process_name) is None <==> forall|i: int|
            0 <= i < config.replacements@.len() ==> !entry_applies(config, word, process_name, i)),
{
    lemma_find_from_found(config, word, process_name, 0);
    if let Some(r) = replacement_for(config, word, process_name) {
        let i = choose|i: int|
            0 <= i < config.replacements@.len() && entry_applies(config, word, process_name, i)
                && r == config.replacements@[i].replacement@;
        shortcut_applies_to_word(config, word, process_name, i);
    }
}

} // verus!
