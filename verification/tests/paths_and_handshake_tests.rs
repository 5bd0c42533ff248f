use keytweak::capslock::{configure as configure_caps, handle_caps_lock_keydown, set_paused};
use keytweak::commands::{translation_query_block, version_query_blocks};
use keytweak::config::{CapsLockConfig, ExceptionMode, ModuleId, ProgramException, TranslateConfig};
use keytweak::exclusions::{configure as configure_exclusions, file_name, is_module_excluded, program_matches};
use keytweak::keyboard_hook::ModifierState;
use keytweak::protocol::{Request, Response};
use keytweak::sidecar::{SidecarErrorType, SidecarState, WaitOutcome};
use keytweak::translate::{translation_reply, ParsedHotkey, RuntimeConfig};
use keytweak::translator::Sidecar;

fn empty_response() -> Response {
    Response {
        id: None,
        response_type: None,
        translated: None,
        ready: None,
        capabilities: None,
        languages: None,
        protocol_version: None,
        error: None,
        reason: None,
    }
}

#[test]
fn unc_and_verbatim_prefixes_are_not_file_names() {
    assert_eq!(file_name(r"\\a\b"), None);
    assert_eq!(file_name(r"\\a\b\c.exe"), Some("c.exe".to_string()));
    assert_eq!(file_name("//server/share/app.exe"), Some("app.exe".to_string()));
    assert_eq!(file_name(r"\\?\C:\x\y.exe"), Some("y.exe".to_string()));
    assert_eq!(file_name(r"\\?\C:\x\."), None);
    assert_eq!(file_name(r"C:\x\."), Some("x".to_string()));
    assert_eq!(file_name(r"\\?\UNC\srv\share"), None);
    assert_eq!(file_name(r"\\?\UNC\srv\share\tool.exe"), Some("tool.exe".to_string()));
    assert_eq!(file_name(r"\\.\COM1"), None);
    assert_eq!(file_name(r"\\?\a/b.exe"), None);
    assert_eq!(file_name(r"\\?\C:\dir\a/b.exe"), Some("a/b.exe".to_string()));
    assert_eq!(file_name(r"\\only"), Some("only".to_string()));
    assert!(!program_matches(r"\\a\b", "b"));
    assert!(program_matches(r"\\a\b", r"\\a\b"));
    assert!(program_matches(r"\\a\b\Code.EXE", "code.exe"));
}

#[test]
fn configured_exclusions_follow_the_mode() {
    let exceptions = vec![ProgramException {
        program: "code.exe".to_string(),
        display_name: None,
        modules: Some(vec![ModuleId::CapsLock]),
    }];
    let black = configure_exclusions(ExceptionMode::Blacklist, &exceptions);
    assert!(is_module_excluded(&black, ModuleId::CapsLock, Some("code.exe")));
    assert!(!is_module_excluded(&black, ModuleId::CapsLock, Some("notepad.exe")));
    assert!(!is_module_excluded(&black, ModuleId::CapsLock, None));
    let white = configure_exclusions(ExceptionMode::Whitelist, &exceptions);
    assert!(!is_module_excluded(&white, ModuleId::CapsLock, Some("code.exe")));
    assert!(is_module_excluded(&white, ModuleId::CapsLock, Some("notepad.exe")));
    assert!(!is_module_excluded(&white, ModuleId::CapsLock, None));
}

#[test]
fn unpaused_switch_needs_no_modifiers() {
    let mut settings = configure_caps(&CapsLockConfig::default());
    let exclusions = configure_exclusions(ExceptionMode::Blacklist, &[]);
    let none = ModifierState { shift: false, ctrl: false, alt: false, win: false };
    let ctrl = ModifierState { shift: false, ctrl: true, alt: false, win: false };
    assert!(handle_caps_lock_keydown(&settings, &exclusions, none, Some("code.exe")));
    assert!(!handle_caps_lock_keydown(&settings, &exclusions, ctrl, Some("code.exe")));
    set_paused(&mut settings, true);
    assert_eq!(settings.switch_key_vk, Some(0x14));
    assert!(!handle_caps_lock_keydown(&settings, &exclusions, none, Some("code.exe")));
    set_paused(&mut settings, false);
    assert!(handle_caps_lock_keydown(&settings, &exclusions, none, None));
}

#[test]
fn handshake_outcomes() {
    let mut s: SidecarState<()> = SidecarState::new(0);
    assert_eq!(
        s.init_result(WaitOutcome::Closed, 1),
        (Err(SidecarErrorType::Crashed { retryable: true }), false)
    );
    assert_eq!(
        s.init_result(WaitOutcome::TimedOut, 1),
        (Err(SidecarErrorType::Timeout("init handshake".to_string())), false)
    );
    assert_eq!(
        s.init_result(WaitOutcome::Answered(Err(SidecarErrorType::NotInstalled)), 1),
        (Err(SidecarErrorType::NotInstalled), false)
    );
    let mut other = empty_response();
    other.protocol_version = Some("2.0".to_string());
    assert_eq!(
        s.init_result(WaitOutcome::Answered(Ok(other)), 1),
        (Err(SidecarErrorType::ProtocolVersionMismatch("Expected 1.0, got 2.0".to_string())), true)
    );
    assert!(!s.ready);
    let mut good = empty_response();
    good.protocol_version = Some("1.0".to_string());
    good.ready = Some(true);
    good.languages = Some(vec!["en".to_string(), "ru".to_string()]);
    assert_eq!(s.init_result(WaitOutcome::Answered(Ok(good)), 7), (Ok(()), false));
    assert!(s.ready);
    assert!(s.models_ready);
    assert!(s.watchdog_enabled);
    assert_eq!(s.last_heartbeat, 7);
    assert_eq!(s.languages, vec!["en".to_string(), "ru".to_string()]);
}

#[test]
fn request_loop_answers_after_the_handshake() {
    let mut sidecar = Sidecar::new(None);
    let out = sidecar.handle_request(Request::Init { protocol_version: "1.0".to_string() });
    assert!(sidecar.init_received);
    assert!(!out.stop);
    assert_eq!(out.responses.len(), 1);
    assert_eq!(out.responses[0].response_type.as_deref(), Some("init"));
    assert_eq!(out.responses[0].ready, Some(false));
    let out = sidecar.handle_request(Request::Translate {
        id: 3,
        q: "hello".to_string(),
        source: "en".to_string(),
        target: "ru".to_string(),
    });
    assert!(out.job.is_none());
    assert_eq!(out.responses.len(), 1);
    assert_eq!(out.responses[0].id, Some(3));
    assert_eq!(out.responses[0].error.as_ref().map(|e| e.message.as_str()), Some("Engine not loaded"));
    let out = sidecar.handle_request(Request::Status { id: 4 });
    assert_eq!(out.responses.len(), 1);
    assert_eq!(out.responses[0].id, Some(4));
    assert_eq!(out.responses[0].ready, Some(false));
    assert_eq!(out.responses[0].languages, Some(Vec::new()));
    assert!(out.responses[0].error.is_none());
}

#[test]
fn server_replies_become_results() {
    assert_eq!(translation_reply(200, String::new(), None, Ok("Привет".to_string())), Ok("Привет".to_string()));
    assert_eq!(
        translation_reply(200, String::new(), None, Err("bad json".to_string())),
        Err("неверный ответ API (bad json)".to_string())
    );
    assert_eq!(
        translation_reply(403, "{}".to_string(), None, Err(String::new())),
        Err("неверный или отсутствующий API-ключ".to_string())
    );
    assert_eq!(
        translation_reply(429, String::new(), None, Err(String::new())),
        Err("превышен лимит запросов".to_string())
    );
    assert_eq!(
        translation_reply(400, "raw".to_string(), Some("no q".to_string()), Err(String::new())),
        Err("ошибочный запрос: no q".to_string())
    );
    assert_eq!(
        translation_reply(502, "gateway".to_string(), None, Err(String::new())),
        Err("LibreTranslate вернул HTTP 502: gateway".to_string())
    );
}

#[test]
fn version_blocks_in_order() {
    let blocks = version_query_blocks("FileDescription");
    assert_eq!(blocks.len(), 4);
    assert_eq!(blocks[0], "\\StringFileInfo\\040904B0\\FileDescription\0");
    assert_eq!(blocks[1], "\\StringFileInfo\\040904E4\\FileDescription\0");
    assert_eq!(blocks[2], "\\StringFileInfo\\041904B0\\FileDescription\0");
    assert_eq!(blocks[3], "\\StringFileInfo\\000004B0\\FileDescription\0");
    assert_eq!(translation_query_block(&[0x0409], "ProductName"), None);
    assert_eq!(
        translation_query_block(&[0x0419, 0x04B0, 0x0409], "ProductName"),
        Some("\\StringFileInfo\\041904B0\\ProductName\0".to_string())
    );
}

#[test]
fn configured_hotkeys_parse_or_fall_back() {
    let mut config = TranslateConfig::default();
    config.hotkey_translate = "ctrl+alt+t".to_string();
    config.hotkey_reverse = "ctrl+q+w".to_string();
    let runtime = RuntimeConfig::from_config(&config);
    assert_eq!(
        runtime.hotkey_translate,
        ParsedHotkey { ctrl: true, shift: false, alt: true, win: false, vk_code: 0x54, repeat_count: 1 }
    );
    assert_eq!(
        runtime.hotkey_reverse,
        ParsedHotkey { ctrl: true, shift: true, alt: false, win: false, vk_code: 0x43, repeat_count: 1 }
    );
}
