//! The application state: the configuration, the settings that each module
//! derives from it, and the keyboard hook's decision for each key event.
use vstd::prelude::*;

use crate::autoreplace::{self, keydown_step, replace_events, InputBuffer, KeyEvent};
use crate::capslock::{self, resolved_key, switches_layout};
use crate::config::Config;
use crate::exclusions::{self, ExclusionsConfig};
use crate::key_remap::{self, active_mappings, remapped, right_alt_mapped, RemapOutput};
use crate::keyboard_hook::{modifiers_after, update_modifier_state, updated_modifiers, ModifierState};
use crate::keys::{KeyInput, VK_LCONTROL};
use crate::translate::{self, keydown_decision, PressStates, PressView, TranslateAction};

verus! {

/// The scan code that Windows gives the left Ctrl it injects before a right
/// Alt on AltGr keyboard layouts (a real left Ctrl has 0x1D).
pub const FAKE_CTRL_SCAN_CODE: u32 = 0x21D;

/// A key event as the low-level hook receives it, with what the application
/// knows of the moment: the foreground window and process, the characters
/// the key types in the current layout, and the time.
pub struct HookEvent {
    pub vk_code: u32,
    pub scan_code: u32,
    pub key_down: bool,
    pub key_up: bool,
    /// Whether the event was injected by a program (such as this one).
    pub injected: bool,
    pub foreground: isize,
    pub process_name: Option<String>,
    pub separator_char: Option<char>,
    pub typed_char: Option<char>,
    /// Milliseconds, for multi-press hotkeys.
    pub now: u64,
}

/// What the hook does with a key event.
pub struct HookDecision {
    /// Whether the key is swallowed (else it goes on to the next hook).
    pub consumed: bool,
    /// The key to send in its place.
    pub remapped: Option<RemapOutput>,
    /// Whether the layout-switch hotkey is to be sent.
    pub switch_layout: bool,
    /// What the translation hotkeys ask for.
    pub translate_actions: Vec<TranslateAction>,
    /// The input that replaces a shortcut.
    pub replacement: Option<Vec<KeyInput>>,
}

/// The hook's decision and state after an event, as a specification.
pub struct HookStep {
    pub consumed: bool,
    pub remapped: Option<RemapOutput>,
    pub switch_layout: bool,
    pub actions: Seq<TranslateAction>,
    pub replacement: Option<(Seq<char>, Seq<char>)>,
    pub modifiers: ModifierState,
    pub translate: PressView,
    pub reverse: PressView,
    pub window: isize,
    pub word: Seq<char>,
}

/// The application state.
pub struct AppState {
    config: Config,
    caps_paused: bool,
    caps: capslock::RuntimeSettings,
    auto_replace: autoreplace::RuntimeConfig,
    remap: key_remap::RuntimeConfig,
    translate: translate::RuntimeConfig,
    exclusions: ExclusionsConfig,
    modifiers: ModifierState,
    presses: PressStates,
    buffer: InputBuffer,
}

/// The exclusion settings hold `config`'s mode and exceptions.
pub open spec fn exclusions_mirror(e: ExclusionsConfig, config: Config) -> bool {
    &&& e.exception_mode == config.exception_mode
    &&& e.exceptions@.len() == config.exceptions@.len()
    &&& forall|i: int|
        0 <= i < config.exceptions@.len() ==> (#[trigger] e.exceptions@[i]).same_as(config.exceptions@[i])
}

/// The Caps Lock settings hold `config`'s.
pub open spec fn caps_mirror(c: capslock::RuntimeSettings, config: Config) -> bool {
    &&& c.real_caps_combo == config.caps_lock.real_caps_combo
    &&& c.switch_key_vk == resolved_key(config.caps_lock.switch_key@)
    &&& c.paused == config.caps_lock.paused
}

/// The remapping settings hold `config`'s enabled mappings.
pub open spec fn remap_mirror(r: key_remap::RuntimeConfig, config: Config) -> bool {
    &&& r.enabled == config.key_remap.enabled
    &&& r.mappings@ == active_mappings(config.key_remap.mappings@)
}

impl AppState {
    /// The configuration in force.
    pub closed spec fn config_spec(&self) -> Config {
        self.config
    }

    /// Whether the layout switch is paused.
    pub closed spec fn paused_spec(&self) -> bool {
        self.caps_paused
    }

    /// The modifiers the hook tracks.
    pub closed spec fn modifiers_spec(&self) -> ModifierState {
        self.modifiers
    }

    /// The progress of the translate hotkey.
    pub closed spec fn translate_presses(&self) -> PressView {
        self.presses.translate.view()
    }

    /// The progress of the reverse-translate hotkey.
    pub closed spec fn reverse_presses(&self) -> PressView {
        self.presses.reverse.view()
    }

    /// The window the typed word belongs to.
    pub closed spec fn window_spec(&self) -> isize {
        self.buffer.window()
    }

    /// The word typed so far.
    pub closed spec fn word_spec(&self) -> Seq<char> {
        self.buffer.typed()
    }

    /// Every module's settings are those of the configuration in force, and
    /// the pause flag is the configuration's.
    pub closed spec fn wf(&self) -> bool {
        &&& self.caps_paused == self.config.caps_lock.paused
        &&& caps_mirror(self.caps, self.config)
        &&& self.auto_replace.mirrors(self.config.auto_replace)
        &&& remap_mirror(self.remap, self.config)
        &&& self.translate.mirrors(self.config.translate)
        &&& exclusions_mirror(self.exclusions, self.config)
    }

    /// Law: in a well-formed state, each module's settings are derived from
    /// the configuration in force.
    pub proof fn settings_follow_config(&self)
        requires
            self.wf(),
        ensures
            caps_mirror(self.caps_settings(), self.config_spec()),
            self.replace_settings().mirrors(self.config_spec().auto_replace),
            remap_mirror(self.remap_settings(), self.config_spec()),
            self.translate_settings_spec().mirrors(self.config_spec().translate),
            exclusions_mirror(self.exclusion_settings(), self.config_spec()),
            self.paused_spec() == self.config_spec().caps_lock.paused,
    {
    }

    fn configure_all(config: &Config) -> (res: (
        capslock::RuntimeSettings,
        autoreplace::RuntimeConfig,
        key_remap::RuntimeConfig,
        translate::RuntimeConfig,
        ExclusionsConfig,
    ))
        ensures
            caps_mirror(res.0, *config),
            res.1.mirrors(config.auto_replace),
            remap_mirror(res.2, *config),
            res.3.mirrors(config.translate),
            exclusions_mirror(res.4, *config),
    {
        let caps = capslock::configure(&config.caps_lock);
        let auto_replace = autoreplace::configure(&config.auto_replace);
        let remap = key_remap::configure(&config.key_remap);
        let translate = translate::configure(&config.translate);
        let exclusions = exclusions::configure(config.exception_mode, config.exceptions.as_slice());
        (caps, auto_replace, remap, translate, exclusions)
    }

    /// The state for `config`: every module configured from it, no key
    /// held, no hotkey in progress and no word typed.
    pub fn new(config: Config) -> (res: Self)
        ensures
            res.wf(),
            res.config_spec() == config,
            res.paused_spec() == config.caps_lock.paused,
            res.modifiers_spec() == (ModifierState { shift: false, ctrl: false, alt: false, win: false }),
            res.translate_presses() == (PressView { last_press: None, press_count: 0, clipboard_backup: None }),
            res.reverse_presses() == (PressView { last_press: None, press_count: 0, clipboard_backup: None }),
            res.word_spec() == Seq::<char>::empty(),
    {
        let caps_paused = config.caps_lock.paused;
        let (caps, auto_replace, remap, translate, exclusions) = Self::configure_all(&config);
        AppState {
            config,
            caps_paused,
            caps,
            auto_replace,
            remap,
            translate,
            exclusions,
            modifiers: ModifierState { shift: false, ctrl: false, alt: false, win: false },
            presses: PressStates::new(),
            buffer: InputBuffer::new(),
        }
    }

    pub fn caps_paused(&self) -> (res: bool)
        ensures
            res == self.paused_spec(),
    {
        self.caps_paused
    }

    /// The configuration in force.
    pub fn config(&self) -> (res: &Config)
        ensures
            *res == self.config_spec(),
    {
        &self.config
    }

    /// The modifiers the hook tracks.
    pub fn modifiers(&self) -> (res: ModifierState)
        ensures
            res == self.modifiers_spec(),
    {
        self.modifiers
    }

    /// The translation settings in force.
    pub fn translate_settings(&self) -> (res: &translate::RuntimeConfig)
        requires
            self.wf(),
        ensures
            res.mirrors(self.config_spec().translate),
    {
        &self.translate
    }

    /// Puts `config` in force: every module is configured from it and the
    /// pause flag follows it; what the hook tracks of the keyboard stays.
    pub fn set_config(&mut self, config: Config)
        requires
            old(self).wf(),
        ensures
            final(self).wf(),
            final(self).config_spec() == config,
            final(self).paused_spec() == config.caps_lock.paused,
            final(self).modifiers_spec() == old(self).modifiers_spec(),
            final(self).translate_presses() == old(self).translate_presses(),
            final(self).reverse_presses() == old(self).reverse_presses(),
            final(self).window_spec() == old(self).window_spec(),
            final(self).word_spec() == old(self).word_spec(),
    {
        let (caps, auto_replace, remap, translate, exclusions) = Self::configure_all(&config);
        self.caps = caps;
        self.auto_replace = auto_replace;
        self.remap = remap;
        self.translate = translate;
        self.exclusions = exclusions;
        self.caps_paused = config.caps_lock.paused;
        self.config = config;
    }

    /// Pauses or resumes the layout switch, in the settings and in the
    /// configuration.
    pub fn set_caps_paused(&mut self, paused: bool)
        requires
            old(self).wf(),
        ensures
            final(self).wf(),
            final(self).paused_spec() == paused,
            final(self).config_spec().caps_lock.paused == paused,
            final(self).config_spec() == (Config {
                caps_lock: crate::config::CapsLockConfig { paused, ..old(self).config_spec().caps_lock },
                ..old(self).config_spec()
            }),
            final(self).modifiers_spec() == old(self).modifiers_spec(),
            final(self).translate_presses() == old(self).translate_presses(),
            final(self).reverse_presses() == old(self).reverse_presses(),
            final(self).word_spec() == old(self).word_spec(),
    {
        self.caps_paused = paused;
        capslock::set_paused(&mut self.caps, paused);
        self.config.caps_lock.paused = paused;
    }

    /// Records the clipboard text read when a hotkey sequence began (the
    /// reverse hotkey's when `reverse`).
    pub fn record_clipboard_backup(&mut self, reverse: bool, text: Option<String>)
        requires
            old(self).wf(),
        ensures
            final(self).wf(),
            final(self).config_spec() == old(self).config_spec(),
            final(self).paused_spec() == old(self).paused_spec(),
            final(self).modifiers_spec() == old(self).modifiers_spec(),
            final(self).window_spec() == old(self).window_spec(),
            final(self).word_spec() == old(self).word_spec(),
            reverse ==> final(self).reverse_presses() == (PressView { clipboard_backup: text, ..old(self).reverse_presses() })
                && final(self).translate_presses() == old(self).translate_presses(),
            !reverse ==> final(self).translate_presses() == (PressView { clipboard_backup: text, ..old(self).translate_presses() })
                && final(self).reverse_presses() == old(self).reverse_presses(),
    {
        if reverse {
            self.presses.reverse.record_clipboard_backup(text);
        } else {
            self.presses.translate.record_clipboard_backup(text);
        }
    }

    /// The hook's step for event `e`, in order: the left Ctrl that Windows
    /// fakes before a remapped right Alt is swallowed; a remapped key is
    /// swallowed and its replacement sent; otherwise the modifiers are
    /// tracked, and a key press goes to the layout switch (for the switch
    /// key), then to the translation hotkeys, then to auto-replacement.
    /// Injected events and events that are neither press nor release change
    /// nothing.
    /// The Caps Lock settings in force.
    pub closed spec fn caps_settings(&self) -> capslock::RuntimeSettings {
        self.caps
    }

    /// The auto-replacement settings in force.
    pub closed spec fn replace_settings(&self) -> autoreplace::RuntimeConfig {
        self.auto_replace
    }

    /// The remapping settings in force.
    pub closed spec fn remap_settings(&self) -> key_remap::RuntimeConfig {
        self.remap
    }

    /// The translation settings in force.
    pub closed spec fn translate_settings_spec(&self) -> translate::RuntimeConfig {
        self.translate
    }

    /// The exception settings in force.
    pub closed spec fn exclusion_settings(&self) -> ExclusionsConfig {
        self.exclusions
    }

    pub open spec fn hook_step(&self, e: HookEvent) -> HookStep {
        let live = (e.key_down || e.key_up) && !e.injected;
        let pn = opt_string(e.process_name);
        let unchanged = HookStep {
            consumed: false,
            remapped: None,
            switch_layout: false,
            actions: Seq::empty(),
            replacement: None,
            modifiers: self.modifiers_spec(),
            translate: self.translate_presses(),
            reverse: self.reverse_presses(),
            window: self.window_spec(),
            word: self.word_spec(),
        };
        if live && e.vk_code == VK_LCONTROL as u32 && e.scan_code == FAKE_CTRL_SCAN_CODE
            && right_alt_mapped(self.remap_settings()) {
            HookStep { consumed: true, ..unchanged }
        } else if live && remapped(self.remap_settings(), e.vk_code, e.key_up) is Some {
            HookStep { consumed: true, remapped: remapped(self.remap_settings(), e.vk_code, e.key_up), ..unchanged }
        } else if !live {
            unchanged
        } else {
            let m = updated_modifiers(self.modifiers_spec(), e.vk_code, e.key_down);
            if !e.key_down {
                HookStep { modifiers: m, ..unchanged }
            } else if self.caps_settings().switch_key_vk == Some(e.vk_code) && switches_layout(
                self.caps_settings(),
                self.exclusion_settings(),
                m,
                pn,
            ) {
                HookStep { consumed: true, switch_layout: true, modifiers: m, ..unchanged }
            } else {
                let (tc, ta, t, r) = keydown_decision(
                    self.translate_settings_spec(),
                    self.exclusion_settings(),
                    e.vk_code,
                    m,
                    pn,
                    self.translate_presses(),
                    self.reverse_presses(),
                    e.now,
                );
                if tc {
                    HookStep {
                        consumed: true,
                        actions: ta,
                        modifiers: m,
                        translate: t,
                        reverse: r,
                        ..unchanged
                    }
                } else {
                    let (window, word, rep) = keydown_step(
                        self.replace_settings(),
                        self.exclusion_settings(),
                        self.window_spec(),
                        self.word_spec(),
                        pn,
                        key_event_of(e, m),
                    );
                    HookStep {
                        consumed: false,
                        remapped: None,
                        switch_layout: false,
                        actions: ta,
                        replacement: rep,
                        modifiers: m,
                        translate: t,
                        reverse: r,
                        window,
                        word,
                    }
                }
            }
        }
    }

    /// Decides what the hook does with event `e`, and tracks it.
    pub fn on_key_event(&mut self, e: &HookEvent) -> (res: HookDecision)
        requires
            old(self).wf(),
        ensures
            final(self).wf(),
            final(self).config_spec() == old(self).config_spec(),
            final(self).paused_spec() == old(self).paused_spec(),
            ({
                let step = old(self).hook_step(*e);
                &&& res.consumed == step.consumed
                &&& res.remapped == step.remapped
                &&& res.switch_layout == step.switch_layout
                &&& res.translate_actions@ == step.actions
                &&& match step.replacement {
                    Some((w, r)) => res.replacement is Some && res.replacement->0@ == replace_events(w, r),
                    None => res.replacement is None,
                }
                &&& final(self).modifiers_spec() == step.modifiers
                &&& final(self).translate_presses() == step.translate
                &&& final(self).reverse_presses() == step.reverse
                &&& final(self).window_spec() == step.window
                &&& final(self).word_spec() == step.word
            }),
    {
        let live = (e.key_down || e.key_up) && !e.injected;
        let pass = HookDecision {
            consumed: false,
            remapped: None,
            switch_layout: false,
            translate_actions: Vec::new(),
            replacement: None,
        };
        if live && e.vk_code == VK_LCONTROL as u32 && e.scan_code == FAKE_CTRL_SCAN_CODE
            && key_remap::has_right_alt_mapping(&self.remap) {
            return HookDecision { consumed: true, ..pass };
        }
        if live {
            let out = key_remap::handle_key_event(&self.remap, e.vk_code, e.key_up);
            if out.is_some() {
                return HookDecision { consumed: true, remapped: out, ..pass };
            }
        }
        if !live {
            return pass;
        }
        update_modifier_state(&mut self.modifiers, e.vk_code, e.key_down);
        if !e.key_down {
            return pass;
        }
        let m = self.modifiers;
        let pn: Option<&str> = match &e.process_name {
            Some(s) => Some(s.as_str()),
            None => None,
        };
        if self.caps.switch_key_vk == Some(e.vk_code) && capslock::handle_caps_lock_keydown(
            &self.caps,
            &self.exclusions,
            m,
            pn,
        ) {
            return HookDecision { consumed: true, switch_layout: true, ..pass };
        }
        let t = translate::handle_keydown(
            &self.translate,
            &mut self.presses,
            &self.exclusions,
            e.vk_code,
            m,
            pn,
            e.now,
        );
        if t.consumed {
            return HookDecision { consumed: true, translate_actions: t.actions, ..pass };
        }
        let event = KeyEvent {
            vk_code: e.vk_code,
            modifiers: m,
            foreground: e.foreground,
            separator_char: e.separator_char,
            typed_char: e.typed_char,
        };
        let a = autoreplace::handle_keydown(&mut self.buffer, &self.auto_replace, &self.exclusions, &event, pn);
        HookDecision {
            consumed: false,
            remapped: None,
            switch_layout: false,
            translate_actions: t.actions,
            replacement: a.inputs,
        }
    }
}

/// The auto-replacement view of a key press, with modifiers `m`.
pub open spec fn key_event_of(e: HookEvent, m: ModifierState) -> KeyEvent {
    KeyEvent {
        vk_code: e.vk_code,
        modifiers: m,
        foreground: e.foreground,
        separator_char: e.separator_char,
        typed_char: e.typed_char,
    }
}

pub open spec fn opt_string(s: Option<String>) -> Option<Seq<char>> {
    match s {
        Some(x) => Some(x@),
        None => None,
    }
}

/// Law: while the layout switch is paused, no key event switches the
/// layout.
pub proof fn paused_state_never_switches(state: AppState, e: HookEvent)
    requires
        state.wf(),
        state.paused_spec(),
    ensures
        !state.hook_step(e).switch_layout,
{
}

/// Law: injected events (such as the ones this application sends) and
/// events that are neither a press nor a release go on untouched: nothing
/// is swallowed, sent or changed.
pub proof fn injected_events_pass_through(state: AppState, e: HookEvent)
    requires
        e.injected || (!e.key_down && !e.key_up),
    ensures
        ({
            let step = state.hook_step(e);
            &&& !step.consumed
            &&& step.remapped is None
            &&& !step.switch_layout
            &&& step.actions.len() == 0
            &&& step.replacement is None
            &&& step.modifiers == state.modifiers_spec()
            &&& step.translate == state.translate_presses()
            &&& step.reverse == state.reverse_presses()
            &&& step.window == state.window_spec()
            &&& step.word == state.word_spec()
        }),
{
}

/// Law: a key release only updates the tracked modifiers (or is swallowed
/// and replaced by a remapping): it never switches the layout, fires a
/// hotkey or replaces a word.
pub proof fn releases_only_track_modifiers(state: AppState, e: HookEvent)
    requires
        e.key_up,
        !e.key_down,
    ensures
        ({
            let step = state.hook_step(e);
            &&& !step.switch_layout
            &&& step.actions.len() == 0
            &&& step.replacement is None
            &&& step.translate == state.translate_presses()
            &&& step.reverse == state.reverse_presses()
            &&& step.word == state.word_spec()
        }),
{
}

/// The event reaches a handler: it is a press or a release and was not
/// injected.
pub open spec fn live_event(e: HookEvent) -> bool {
    (e.key_down || e.key_up) && !e.injected
}

/// The left Ctrl that Windows fakes before Right Alt, while a right-Alt
/// mapping is in force.
pub open spec fn fake_ctrl_taken(state: AppState, e: HookEvent) -> bool {
    live_event(e) && e.vk_code == VK_LCONTROL as u32 && e.scan_code == FAKE_CTRL_SCAN_CODE
        && right_alt_mapped(state.remap_settings())
}

/// The remapping takes the event.
pub open spec fn remap_taken(state: AppState, e: HookEvent) -> bool {
    live_event(e) && remapped(state.remap_settings(), e.vk_code, e.key_up) is Some
}

/// Law: the hook swallows an event exactly when a handler takes it: the
/// fake left Ctrl, a remapping, or, for a key press, the layout switch on
/// the switch key or a translation hotkey; auto-replacement never
/// swallows a key.
pub proof fn swallowed_only_when_a_handler_takes_it(state: AppState, e: HookEvent)
    ensures
        state.hook_step(e).consumed <==> ({
            let m = updated_modifiers(state.modifiers_spec(), e.vk_code, e.key_down);
            let pn = opt_string(e.process_name);
            ||| fake_ctrl_taken(state, e)
            ||| remap_taken(state, e)
            ||| live_event(e) && e.key_down && state.caps_settings().switch_key_vk == Some(e.vk_code)
                && switches_layout(state.caps_settings(), state.exclusion_settings(), m, pn)
            ||| live_event(e) && e.key_down && keydown_decision(
                state.translate_settings_spec(),
                state.exclusion_settings(),
                e.vk_code,
                m,
                pn,
                state.translate_presses(),
                state.reverse_presses(),
                e.now,
            ).0
        }),
{
}

/// Law: the tracked modifiers change only with an event that reaches
/// modifier tracking (live, and taken neither as the fake left Ctrl nor by
/// a remapping), and then as that key's press or release sets them.
pub proof fn modifiers_track_unswallowed_events(state: AppState, e: HookEvent)
    ensures
        state.hook_step(e).modifiers == if live_event(e) && !fake_ctrl_taken(state, e) && !remap_taken(
            state,
            e,
        ) {
            updated_modifiers(state.modifiers_spec(), e.vk_code, e.key_down)
        } else {
            state.modifiers_spec()
        },
{
}

/// The key movement (code, pressed) that modifier tracking sees of event
/// `e` in state `state`, if the event reaches it.
pub open spec fn tracked_key(state: AppState, e: HookEvent) -> Option<(u32, bool)> {
    if live_event(e) && !fake_ctrl_taken(state, e) && !remap_taken(state, e) {
        Some((e.vk_code, e.key_down))
    } else {
        None
    }
}

/// The key movements that modifier tracking sees along a run: event
/// `events[k]` handled in state `states[k]`.
pub open spec fn tracked_keys(states: Seq<AppState>, events: Seq<HookEvent>) -> Seq<(u32, bool)>
    decreases events.len(),
{
    if events.len() == 0 {
        Seq::empty()
    } else {
        let rest = tracked_keys(states, events.drop_last());
        match tracked_key(states[events.len() - 1], events.last()) {
            Some(k) => rest.push(k),
            None => rest,
        }
    }
}

/// Law: along a run of the hook (each state's modifiers being what the
/// previous state's step gave), the tracked modifiers are those that the
/// key movements reaching modifier tracking set, in order, from the first
/// state's; with `modifiers_follow_last_event`, starting with none held,
/// each flag says whether the last such movement of its keys was a press.
pub proof fn modifiers_along_a_run(states: Seq<AppState>, events: Seq<HookEvent>)
    requires
        states.len() == events.len() + 1,
        forall|k: int|
            0 <= k < events.len() ==> (#[trigger] states[k + 1]).modifiers_spec() == states[k].hook_step(
                events[k],
            ).modifiers,
    ensures
        states.last().modifiers_spec() == modifiers_after(states[0].modifiers_spec(), tracked_keys(states, events)),
    decreases events.len(),
{
    if events.len() > 0 {
        let n = events.len();
        let st = states.drop_last();
        let ev = events.drop_last();
        assert forall|k: int| 0 <= k < ev.len() implies (#[trigger] st[k + 1]).modifiers_spec() == st[k].hook_step(
            ev[k],
        ).modifiers by {
            assert(st[k + 1] == states[k + 1]);
            assert(st[k] == states[k]);
            assert(ev[k] == events[k]);
        }
        modifiers_along_a_run(st, ev);
        lemma_tracked_keys_prefix(states, events);
        modifiers_track_unswallowed_events(states[n - 1], events[n - 1]);
        assert(states[n as int] == states.last());
        assert(st.last() == states[n - 1]);
        assert(states[n - 1 + 1].modifiers_spec() == states[n - 1].hook_step(events[n - 1]).modifiers);
        assert(st[0] == states[0]);
        assert(events.last() == events[n - 1]);
        let rest = tracked_keys(states, ev);
        match tracked_key(states[n - 1], events[n - 1]) {
            Some(k) => {
                assert(tracked_keys(states, events) == rest.push(k));
                assert(rest.push(k).drop_last() =~= rest);
                assert(rest.push(k).last() == k);
            },
            None => {
                assert(tracked_keys(states, events) == rest);
            },
        }
    }
}

proof fn lemma_tracked_keys_prefix(states: Seq<AppState>, events: Seq<HookEvent>)
    requires
        states.len() == events.len() + 1,
        events.len() > 0,
    ensures
        tracked_keys(states.drop_last(), events.drop_last()) == tracked_keys(states, events.drop_last()),
{
    lemma_tracked_keys_same_prefix(states.drop_last(), states, events.drop_last());
}

proof fn lemma_tracked_keys_same_prefix(a: Seq<AppState>, b: Seq<AppState>, events: Seq<HookEvent>)
    requires
        a.len() >= events.len(),
        b.len() >= events.len(),
        forall|k: int| 0 <= k < events.len() ==> a[k] == b[k],
    ensures
        tracked_keys(a, events) == tracked_keys(b, events),
    decreases events.len(),
{
    if events.len() > 0 {
        lemma_tracked_keys_same_prefix(a, b, events.drop_last());
        assert(a[events.len() - 1] == b[events.len() - 1]);
    }
}

} // verus!
