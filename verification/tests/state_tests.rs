use keytweak::config::{Config, KeyRemap, Replacement};
use keytweak::keyboard_hook::{update_modifier_state, KeyboardHookError, ModifierState};
use keytweak::keys::KeyInput;
use keytweak::state::{AppState, HookEvent};
use keytweak::translate::TranslateAction;

fn key(vk: u32, down: bool, typed: Option<char>, now: u64) -> HookEvent {
    HookEvent {
        vk_code: vk,
        scan_code: 0,
        key_down: down,
        key_up: !down,
        injected: false,
        foreground: 1,
        process_name: Some("notepad.exe".to_string()),
        separator_char: typed,
        typed_char: typed,
        now,
    }
}

#[test]
fn caps_lock_switches_layout() {
    let mut state = AppState::new(Config::default());
    let d = state.on_key_event(&key(0x14, true, None, 0));
    assert!(d.consumed);
    assert!(d.switch_layout);
}

#[test]
fn paused_caps_lock_passes_through() {
    let mut state = AppState::new(Config::default());
    state.set_caps_paused(true);
    assert!(state.caps_paused());
    assert!(state.config().caps_lock.paused);
    let d = state.on_key_event(&key(0x14, true, None, 0));
    assert!(!d.consumed);
    assert!(!d.switch_layout);
    state.set_caps_paused(false);
    let d = state.on_key_event(&key(0x14, true, None, 0));
    assert!(d.switch_layout);
}

#[test]
fn shift_caps_lock_is_real_caps_lock() {
    let mut state = AppState::new(Config::default());
    state.on_key_event(&key(0xA0, true, None, 0));
    let d = state.on_key_event(&key(0x14, true, None, 0));
    assert!(!d.consumed);
    state.on_key_event(&key(0xA0, false, None, 0));
    let d = state.on_key_event(&key(0x14, true, None, 0));
    assert!(d.consumed);
}

#[test]
fn injected_events_are_ignored() {
    let mut state = AppState::new(Config::default());
    let mut e = key(0x14, true, None, 0);
    e.injected = true;
    let d = state.on_key_event(&e);
    assert!(!d.consumed);
    assert!(!d.switch_layout);
}

#[test]
fn shortcut_is_replaced_after_space() {
    let mut config = Config::default();
    config.auto_replace.replacements = vec![Replacement {
        short: "brb".to_string(),
        replacement: "ok".to_string(),
        exclusions: Vec::new(),
    }];
    let mut state = AppState::new(config);
    for c in ['b', 'r', 'b'] {
        let d = state.on_key_event(&key(c.to_ascii_uppercase() as u32, true, Some(c), 0));
        assert!(d.replacement.is_none());
    }
    let d = state.on_key_event(&key(0x20, true, Some(' '), 0));
    assert!(!d.consumed);
    let inputs = d.replacement.expect("the shortcut is replaced");
    let mut expected = Vec::new();
    for _ in 0..3 {
        expected.push(KeyInput::Key { vk: 0x08, key_up: false });
        expected.push(KeyInput::Key { vk: 0x08, key_up: true });
    }
    for u in "ok".encode_utf16() {
        expected.push(KeyInput::Unicode { unit: u, key_up: false });
        expected.push(KeyInput::Unicode { unit: u, key_up: true });
    }
    assert_eq!(inputs, expected);
}

#[test]
fn remapped_key_is_swallowed_and_sent_as_another() {
    let mut config = Config::default();
    config.key_remap.mappings = vec![KeyRemap {
        from: "right_alt".to_string(),
        to: "win".to_string(),
        enabled: true,
    }];
    let mut state = AppState::new(config);
    let d = state.on_key_event(&key(0xA5, true, None, 0));
    assert!(d.consumed);
    let out = d.remapped.expect("right Alt is remapped");
    assert!(!out.key_up);
    let mut fake = key(0xA2, true, None, 0);
    fake.scan_code = 0x21D;
    let d = state.on_key_event(&fake);
    assert!(d.consumed);
    assert!(d.remapped.is_none());
}

#[test]
fn double_ctrl_c_translates_the_copy() {
    let mut state = AppState::new(Config::default());
    state.on_key_event(&key(0xA2, true, None, 0));
    let d = state.on_key_event(&key(0x43, true, None, 1000));
    assert!(!d.consumed);
    assert_eq!(d.translate_actions, vec![TranslateAction::BackupClipboard { reverse: false }]);
    state.record_clipboard_backup(false, Some("before".to_string()));
    let d = state.on_key_event(&key(0x43, true, None, 1200));
    assert!(d.consumed);
    assert_eq!(
        d.translate_actions,
        vec![TranslateAction::TranslateFromCopy(Some("before".to_string()))]
    );
}

#[test]
fn set_config_reads_back() {
    let mut state = AppState::new(Config::default());
    let mut config = Config::default();
    config.caps_lock.paused = true;
    config.translate.target_language = "en".to_string();
    state.set_config(config.clone());
    assert_eq!(state.config(), &config);
    assert!(state.caps_paused());
}

#[test]
fn modifiers_follow_presses_and_releases() {
    let mut m = ModifierState::default();
    update_modifier_state(&mut m, 0xA3, true);
    assert!(m.ctrl && !m.shift && !m.alt && !m.win);
    update_modifier_state(&mut m, 0x5C, true);
    assert!(m.win);
    update_modifier_state(&mut m, 0x11, false);
    assert!(!m.ctrl && m.win);
    update_modifier_state(&mut m, 0x41, true);
    assert!(!m.ctrl && m.win && m.any());
    assert_eq!(ModifierState::current(&m), m);
}

#[test]
fn hook_errors_describe_themselves() {
    assert_eq!(
        KeyboardHookError::AlreadyInstalled.message(),
        "low-level keyboard hook is already installed"
    );
    assert_eq!(KeyboardHookError::ModuleHandle.message(), "failed to get current module handle");
    assert_eq!(KeyboardHookError::Install.message(), "failed to install low-level keyboard hook");
}

#[test]
fn backspace_undoes_a_typed_character() {
    let mut config = Config::default();
    config.auto_replace.replacements = vec![Replacement {
        short: "brb".to_string(),
        replacement: "ok".to_string(),
        exclusions: Vec::new(),
    }];
    let mut state = AppState::new(config);
    for c in ['b', 'r', 'x'] {
        state.on_key_event(&key(c.to_ascii_uppercase() as u32, true, Some(c), 0));
    }
    state.on_key_event(&key(0x08, true, Some('\u{8}'), 0));
    state.on_key_event(&key('B' as u32, true, Some('b'), 0));
    let d = state.on_key_event(&key(0x20, true, Some(' '), 0));
    assert!(d.replacement.is_some());
}

#[test]
fn releases_fire_nothing() {
    let mut state = AppState::new(Config::default());
    let d = state.on_key_event(&key(0x14, false, None, 0));
    assert!(!d.consumed);
    assert!(!d.switch_layout);
    assert!(d.translate_actions.is_empty());
    assert!(d.replacement.is_none());
}
