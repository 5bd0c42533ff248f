//! The application settings, their defaults and the migration applied to
//! settings written by older versions.
use vstd::prelude::*;

use crate::text::{ascii_lower_seq, eq_ignore_ascii_case, eq_ignore_ascii_case_spec, to_string};

verus! {

/// All settings.
#[derive(Debug, Clone, PartialEq, Eq)]
pub struct Config {
    pub caps_lock: CapsLockConfig,
    pub auto_replace: AutoReplaceConfig,
    pub key_remap: KeyRemapConfig,
    pub translate: TranslateConfig,
    pub general: GeneralConfig,
    pub exception_mode: ExceptionMode,
    pub exceptions: Vec<ProgramException>,
}

/// Settings of the Caps Lock language switch.
#[derive(Debug, Clone, PartialEq, Eq)]
pub struct CapsLockConfig {
    pub switch_mode: SwitchMode,
    pub real_caps_combo: RealCapsCombo,
    /// Key name of the key that switches the layout.
    pub switch_key: String,
    pub auto_start: bool,
    pub paused: bool,
}

#[derive(Debug, Clone, Copy, PartialEq, Eq, Structural)]
pub enum SwitchMode {
    Previous,
    Default,
}

/// The modifier that, held with Caps Lock, lets Caps Lock act as itself.
#[derive(Debug, Clone, Copy, PartialEq, Eq, Structural)]
pub enum RealCapsCombo {
    ShiftCaps,
    AltCaps,
    CtrlCaps,
}

/// Settings of the text auto-replacement.
#[derive(Debug, Clone, PartialEq, Eq)]
pub struct AutoReplaceConfig {
    pub trigger_space: bool,
    pub trigger_tab: bool,
    pub trigger_enter: bool,
    pub trigger_punctuation: bool,
    pub whole_words_only: bool,
    pub case_sensitive: bool,
    pub replacements: Vec<Replacement>,
}

/// One shortcut and the text that replaces it.
#[derive(Debug, Clone, PartialEq, Eq)]
pub struct Replacement {
    pub short: String,
    pub replacement: String,
    /// Programs in which this replacement does not apply.
    pub exclusions: Vec<ExceptionProgram>,
}

/// A program named in a per-replacement exclusion list.
#[derive(Debug, Clone, PartialEq, Eq)]
pub struct ExceptionProgram {
    pub program: String,
    pub display_name: Option<String>,
}

/// A program in the global exception list, optionally limited to some
/// modules.
#[derive(Debug, Clone, PartialEq, Eq)]
pub struct ProgramException {
    pub program: String,
    pub display_name: Option<String>,
    pub modules: Option<Vec<ModuleId>>,
}

#[derive(Debug, Clone, Copy, PartialEq, Eq, Structural)]
pub enum ModuleId {
    CapsLock,
    AutoReplace,
    KeyRemap,
    Translate,
}

/// Settings of the key remapping.
#[derive(Debug, Clone, PartialEq, Eq)]
pub struct KeyRemapConfig {
    pub enabled: bool,
    pub mappings: Vec<KeyRemap>,
}

/// One remapping: key `from` produces key `to`.
#[derive(Debug, Clone, PartialEq, Eq)]
pub struct KeyRemap {
    pub from: String,
    pub to: String,
    pub enabled: bool,
}

/// Whether the exception list names the programs where the modules are off
/// (`Blacklist`) or the only programs where they are on (`Whitelist`).
#[derive(Debug, Clone, Copy, PartialEq, Eq, Structural)]
pub enum ExceptionMode {
    Blacklist,
    Whitelist,
}

/// Settings of the selection translation.
#[derive(Debug, Clone, PartialEq, Eq)]
pub struct TranslateConfig {
    pub server_url: String,
    pub api_key: String,
    pub auto_detect_language: bool,
    pub target_language: String,
    pub hotkey_translate: String,
    pub hotkey_reverse: String,
}

/// Settings of the application itself.
#[derive(Debug, Clone, PartialEq, Eq)]
pub struct GeneralConfig {
    pub app_language: String,
    pub theme: String,
}

// ---------------------------------------------------------------------------
// Defaults
// ---------------------------------------------------------------------------

pub fn default_true() -> (res: bool)
    ensures
        res,
{
    true
}

pub fn default_target_language() -> (res: String)
    ensures
        res@ == "ru"@,
{
    to_string("ru")
}

pub fn default_server_url() -> (res: String)
    ensures
        res@ == "http://127.0.0.1:5000"@,
{
    to_string("http://127.0.0.1:5000")
}

pub fn default_translate_hotkey() -> (res: String)
    ensures
        res@ == "ctrl+c+c"@,
{
    to_string("ctrl+c+c")
}

pub fn default_reverse_hotkey() -> (res: String)
    ensures
        res@ == "ctrl+shift+c"@,
{
    to_string("ctrl+shift+c")
}

pub fn default_app_language() -> (res: String)
    ensures
        res@ == "en"@,
{
    to_string("en")
}

pub fn default_theme() -> (res: String)
    ensures
        res@ == "system"@,
{
    to_string("system")
}

/// The default key that switches the layout.
pub fn default_switch_key() -> (res: String)
    ensures
        res@ == "capslock"@,
{
    to_string("capslock")
}

impl Default for SwitchMode {
    fn default() -> (res: Self)
        ensures
            res == SwitchMode::Previous,
    {
        SwitchMode::Previous
    }
}

impl Default for RealCapsCombo {
    fn default() -> (res: Self)
        ensures
            res == RealCapsCombo::ShiftCaps,
    {
        RealCapsCombo::ShiftCaps
    }
}

impl Default for ExceptionMode {
    fn default() -> (res: Self)
        ensures
            res == ExceptionMode::Blacklist,
    {
        ExceptionMode::Blacklist
    }
}

impl CapsLockConfig {
    /// The defaults: switch to the previous layout, Shift+Caps Lock for the
    /// real Caps Lock, Caps Lock as the switch key, start with Windows, not
    /// paused.
    pub open spec fn is_default(self) -> bool {
        &&& self.switch_mode == SwitchMode::Previous
        &&& self.real_caps_combo == RealCapsCombo::ShiftCaps
        &&& self.switch_key@ == "capslock"@
        &&& self.auto_start
        &&& !self.paused
    }
}

impl Default for CapsLockConfig {
    fn default() -> (res: Self)
        ensures
            res.is_default(),
    {
        CapsLockConfig {
            switch_mode: SwitchMode::Previous,
            real_caps_combo: RealCapsCombo::ShiftCaps,
            switch_key: default_switch_key(),
            auto_start: true,
            paused: false,
        }
    }
}

impl AutoReplaceConfig {
    /// The defaults: space, tab and punctuation trigger a replacement, Enter
    /// does not; whole words only; case-insensitive; no replacements.
    pub open spec fn is_default(self) -> bool {
        &&& self.trigger_space
        &&& self.trigger_tab
        &&& !self.trigger_enter
        &&& self.trigger_punctuation
        &&& self.whole_words_only
        &&& !self.case_sensitive
        &&& self.replacements@.len() == 0
    }
}

impl Default for AutoReplaceConfig {
    fn default() -> (res: Self)
        ensures
            res.is_default(),
    {
        AutoReplaceConfig {
            trigger_space: true,
            trigger_tab: true,
            trigger_enter: false,
            trigger_punctuation: true,
            whole_words_only: true,
            case_sensitive: false,
            replacements: Vec::new(),
        }
    }
}

impl KeyRemapConfig {
    /// The defaults: remapping on, with one disabled mapping from Left Alt
    /// to Win.
    pub open spec fn is_default(self) -> bool {
        &&& self.enabled
        &&& self.mappings@.len() == 1
        &&& self.mappings@[0].from@ == "left_alt"@
        &&& self.mappings@[0].to@ == "win"@
        &&& !self.mappings@[0].enabled
    }
}

impl Default for KeyRemapConfig {
    fn default() -> (res: Self)
        ensures
            res.is_default(),
    {
        let mut mappings: Vec<KeyRemap> = Vec::new();
        mappings.push(KeyRemap { from: to_string("left_alt"), to: to_string("win"), enabled: false });
        KeyRemapConfig { enabled: true, mappings }
    }
}

impl TranslateConfig {
    /// The defaults: local LibreTranslate server, no API key, automatic
    /// language detection, Russian target, `ctrl+c+c` and `ctrl+shift+c`.
    pub open spec fn is_default(self) -> bool {
        &&& self.server_url@ == "http://127.0.0.1:5000"@
        &&& self.api_key@ == Seq::<char>::empty()
        &&& self.auto_detect_language
        &&& self.target_language@ == "ru"@
        &&& self.hotkey_translate@ == "ctrl+c+c"@
        &&& self.hotkey_reverse@ == "ctrl+shift+c"@
    }
}

impl Default for TranslateConfig {
    fn default() -> (res: Self)
        ensures
            res.is_default(),
    {
        TranslateConfig {
            server_url: default_server_url(),
            api_key: String::new(),
            auto_detect_language: true,
            target_language: default_target_language(),
            hotkey_translate: default_translate_hotkey(),
            hotkey_reverse: default_reverse_hotkey(),
        }
    }
}

impl GeneralConfig {
    /// The defaults: English interface, system theme.
    pub open spec fn is_default(self) -> bool {
        &&& self.app_language@ == "en"@
        &&& self.theme@ == "system"@
    }
}

impl Default for GeneralConfig {
    fn default() -> (res: Self)
        ensures
            res.is_default(),
    {
        GeneralConfig { app_language: default_app_language(), theme: default_theme() }
    }
}

impl Config {
    pub open spec fn is_default(self) -> bool {
        &&& self.caps_lock.is_default()
        &&& self.auto_replace.is_default()
        &&& self.key_remap.is_default()
        &&& self.translate.is_default()
        &&& self.general.is_default()
        &&& self.exception_mode == ExceptionMode::Blacklist
        &&& self.exceptions@.len() == 0
    }
}

impl Default for Config {
    fn default() -> (res: Self)
        ensures
            res.is_default(),
    {
        Config {
            caps_lock: CapsLockConfig::default(),
            auto_replace: AutoReplaceConfig::default(),
            key_remap: KeyRemapConfig::default(),
            translate: TranslateConfig::default(),
            general: GeneralConfig::default(),
            exception_mode: ExceptionMode::Blacklist,
            exceptions: Vec::new(),
        }
    }
}

// ---------------------------------------------------------------------------
// Migration
// ---------------------------------------------------------------------------

/// A mapping written by older versions: `alt+v` to `win+v` (any ASCII case).
pub open spec fn is_legacy_mapping(m: KeyRemap) -> bool {
    eq_ignore_ascii_case_spec(m.from@, "alt+v"@) && eq_ignore_ascii_case_spec(m.to@, "win+v"@)
}

/// What the migration makes of one mapping: a legacy mapping becomes the
/// disabled Left Alt to Win mapping; any other is kept.
pub open spec fn migrated_mapping(old: KeyRemap, new: KeyRemap) -> bool {
    if is_legacy_mapping(old) {
        new.from@ == "left_alt"@ && new.to@ == "win"@ && !new.enabled
    } else {
        new == old
    }
}

/// The migration of key-remap mappings: every legacy mapping becomes the
/// disabled Left Alt to Win mapping; nothing else changes.
pub open spec fn migrated(old: Config, new: Config) -> bool {
    &&& new.caps_lock == old.caps_lock
    &&& new.auto_replace == old.auto_replace
    &&& new.translate == old.translate
    &&& new.general == old.general
    &&& new.exception_mode == old.exception_mode
    &&& new.exceptions == old.exceptions
    &&& new.key_remap.enabled == old.key_remap.enabled
    &&& new.key_remap.mappings@.len() == old.key_remap.mappings@.len()
    &&& forall|i: int|
        0 <= i < old.key_remap.mappings@.len() ==> migrated_mapping(
            old.key_remap.mappings@[i],
            #[trigger] new.key_remap.mappings@[i],
        )
}

/// Rewrites settings written by older versions.
pub fn migrate_config(config: &mut Config)
    ensures
        migrated(*old(config), *final(config)),
{
    let ghost start = *config;
    let mut mappings: Vec<KeyRemap> = Vec::new();
    std::mem::swap(&mut mappings, &mut config.key_remap.mappings);
    let ghost olds = mappings@;
    let n = mappings.len();
    let mut i: usize = 0;
    while i < n
        invariant
            i <= n,
            n == mappings@.len(),
            olds.len() == n,
            forall|k: int| 0 <= k < i ==> migrated_mapping(olds[k], #[trigger] mappings@[k]),
            forall|k: int| i <= k < n ==> mappings@[k] == olds[k],
        decreases n - i,
    {
        let is_legacy = eq_ignore_ascii_case(mappings[i].from.as_str(), "alt+v")
            && eq_ignore_ascii_case(mappings[i].to.as_str(), "win+v");
        if is_legacy {
            let m = KeyRemap { from: to_string("left_alt"), to: to_string("win"), enabled: false };
            mappings.set(i, m);
        }
        i += 1;
    }
    config.key_remap.mappings = mappings;
    assert(config.caps_lock == start.caps_lock);
}

/// Law: migrating twice is migrating once: a migrated configuration has
/// no legacy mapping left, so a second migration changes nothing.
pub proof fn migration_is_idempotent(first: Config, once: Config, twice: Config)
    requires
        migrated(first, once),
        migrated(once, twice),
    ensures
        twice.key_remap.mappings@ == once.key_remap.mappings@,
        twice.key_remap.enabled == once.key_remap.enabled,
        twice.caps_lock == once.caps_lock,
        twice.auto_replace == once.auto_replace,
        twice.translate == once.translate,
        twice.general == once.general,
        twice.exception_mode == once.exception_mode,
        twice.exceptions == once.exceptions,
{
    reveal_strlit("left_alt");
    reveal_strlit("alt+v");
    assert forall|i: int| 0 <= i < once.key_remap.mappings@.len() implies #[trigger] twice.key_remap.mappings@[i]
        == once.key_remap.mappings@[i] by {
        let m0 = first.key_remap.mappings@[i];
        let m1 = once.key_remap.mappings@[i];
        assert(migrated_mapping(m0, m1));
        assert(migrated_mapping(m1, twice.key_remap.mappings@[i]));
        if is_legacy_mapping(m1) {
            if is_legacy_mapping(m0) {
                assert(ascii_lower_seq(m1.from@).len() == 8);
                assert(ascii_lower_seq("alt+v"@).len() == 5);
            }
        }
    }
    assert(twice.key_remap.mappings@ =~= once.key_remap.mappings@);
}

} // verus!
