use keytweak::autostart::{
    delete_result, is_auto_start, is_not_found, open_key_result, query_result, run_entry_command,
    set_auto_start, set_run_as_admin, write_result, AutoStartError, RegistryChange,
};
use keytweak::commands::{
    exe_name_of, hex4, sort_programs, string_file_info_block, translation_string_block,
    version_text, window_is_listed, ProgramSet, RunningProgram,
};
use keytweak::config::{migrate_config, Config, KeyRemap};
use keytweak::exclusions::{file_name, filename_lower};
use keytweak::keys::{key_name_to_vk, layout_switch_inputs, KeyInput};
use keytweak::toast::{startup_toast_payload, toast_position, MonitorBounds, Position};
use keytweak::translate::{http_error_message, translate_endpoint, usable_copied_text};
use keytweak::tray::{is_dark_theme, menu_command, pause_menu_text, MenuCommand};

#[test]
fn registry_statuses() {
    assert!(is_not_found(2));
    assert!(is_not_found(3));
    assert!(!is_not_found(5));
    assert_eq!(open_key_result(0), Ok(true));
    assert_eq!(open_key_result(2), Ok(false));
    assert_eq!(open_key_result(5), Err(AutoStartError::Registry(5)));
    assert_eq!(write_result(0), Ok(()));
    assert_eq!(write_result(3), Err(AutoStartError::Registry(3)));
    assert_eq!(delete_result(2), Ok(()));
    assert_eq!(delete_result(5), Err(AutoStartError::Registry(5)));
    assert_eq!(query_result(0), Ok(true));
    assert_eq!(query_result(3), Ok(false));
    assert_eq!(query_result(87), Err(AutoStartError::Registry(87)));
    assert_eq!(is_auto_start(2, 0), Ok(false));
    assert_eq!(is_auto_start(0, 2), Ok(false));
    assert_eq!(is_auto_start(0, 0), Ok(true));
    assert_eq!(is_auto_start(5, 0), Err(AutoStartError::Registry(5)));
}

#[test]
fn auto_start_writes_the_quoted_executable() {
    assert_eq!(run_entry_command(r"C:\Apps\KeyTweak.exe"), "\"C:\\Apps\\KeyTweak.exe\"");
    assert_eq!(
        set_auto_start(true, Ok(r"C:\k.exe".to_string())),
        Ok(RegistryChange::SetRunEntry { command: "\"C:\\k.exe\"".to_string() })
    );
    assert_eq!(
        set_auto_start(false, Err(AutoStartError::ExecutablePath("gone".to_string()))),
        Ok(RegistryChange::DeleteRunEntry)
    );
    assert_eq!(
        set_auto_start(true, Err(AutoStartError::ExecutablePath("gone".to_string()))),
        Err(AutoStartError::ExecutablePath("gone".to_string()))
    );
    assert_eq!(
        set_run_as_admin(true, Ok(r"C:\k.exe".to_string())),
        Ok(RegistryChange::SetLayer {
            exe_path: r"C:\k.exe".to_string(),
            layer: "~ RUNASADMIN".to_string()
        })
    );
    assert_eq!(
        set_run_as_admin(false, Ok(r"C:\k.exe".to_string())),
        Ok(RegistryChange::DeleteLayer { exe_path: r"C:\k.exe".to_string() })
    );
}

#[test]
fn running_programs_are_named_deduplicated_and_sorted() {
    assert!(window_is_listed(true, 5, 10, 20));
    assert!(!window_is_listed(false, 5, 10, 20));
    assert!(!window_is_listed(true, 0, 10, 20));
    assert!(!window_is_listed(true, 5, 0, 20));
    assert!(!window_is_listed(true, 5, 20, 20));
    assert_eq!(exe_name_of(r"C:\Program Files\App\Code.EXE"), "code.exe");
    assert_eq!(exe_name_of("plain.exe"), "plain.exe");

    let mut set = ProgramSet::new();
    assert!(set.add(r"C:\A\Zed.exe".to_string()));
    assert!(set.add(r"C:\B\alpha.exe".to_string()));
    assert!(!set.add(r"D:\Other\ZED.EXE".to_string()));
    assert_eq!(
        set.entries(),
        &vec![
            ("zed.exe".to_string(), r"C:\A\Zed.exe".to_string()),
            ("alpha.exe".to_string(), r"C:\B\alpha.exe".to_string()),
        ]
    );

    let programs = vec![
        RunningProgram { exe_name: "zed.exe".to_string(), display_name: "Zed".to_string() },
        RunningProgram { exe_name: "alpha.exe".to_string(), display_name: String::new() },
        RunningProgram { exe_name: "mid.exe".to_string(), display_name: "Mid".to_string() },
    ];
    let sorted = sort_programs(programs);
    let names: Vec<&str> = sorted.iter().map(|p| p.exe_name.as_str()).collect();
    assert_eq!(names, vec!["alpha.exe", "mid.exe", "zed.exe"]);
}

#[test]
fn version_information_paths() {
    assert_eq!(
        string_file_info_block("040904B0", "FileDescription"),
        "\\StringFileInfo\\040904B0\\FileDescription\0"
    );
    assert_eq!(hex4(0x0419), "0419");
    assert_eq!(hex4(0xBEEF), "BEEF");
    assert_eq!(
        translation_string_block(0x0409, 0x04E4, "ProductName"),
        "\\StringFileInfo\\040904E4\\ProductName\0"
    );
    let units: Vec<u16> = "Editor\0\0".encode_utf16().collect();
    assert_eq!(version_text(&units), Some("Editor".to_string()));
    let nuls: Vec<u16> = vec![0, 0];
    assert_eq!(version_text(&nuls), None);
    let broken: Vec<u16> = vec![0xD800, 0x41, 0xD83D, 0xDE00, 0];
    assert_eq!(version_text(&broken), Some("\u{FFFD}A\u{1F600}".to_string()));
}

#[test]
fn legacy_mapping_is_migrated_once() {
    let mut config = Config::default();
    config.key_remap.mappings = vec![
        KeyRemap { from: "Alt+V".to_string(), to: "WIN+v".to_string(), enabled: true },
        KeyRemap { from: "caps_lock".to_string(), to: "esc".to_string(), enabled: true },
    ];
    migrate_config(&mut config);
    assert_eq!(
        config.key_remap.mappings[0],
        KeyRemap { from: "left_alt".to_string(), to: "win".to_string(), enabled: false }
    );
    assert_eq!(
        config.key_remap.mappings[1],
        KeyRemap { from: "caps_lock".to_string(), to: "esc".to_string(), enabled: true }
    );
    let once = config.clone();
    migrate_config(&mut config);
    assert_eq!(config, once);
}

#[test]
fn file_names_follow_windows_paths() {
    assert_eq!(file_name(r"C:\Program Files\App\code.exe"), Some("code.exe".to_string()));
    assert_eq!(file_name("code.exe"), Some("code.exe".to_string()));
    assert_eq!(file_name(r"C:\dir\.."), None);
    assert_eq!(filename_lower(r"C:\X\NotePad.EXE"), Some("notepad.exe".to_string()));
}

#[test]
fn key_names_and_layout_switch() {
    assert_eq!(key_name_to_vk("capslock"), Some(0x14));
    assert_eq!(key_name_to_vk("right_alt"), Some(0xA5));
    assert_eq!(key_name_to_vk("f5"), Some(0x74));
    assert_eq!(key_name_to_vk("nosuchkey"), None);
    let inputs = layout_switch_inputs();
    assert!(!inputs.is_empty());
    assert!(inputs.iter().all(|i| matches!(i, KeyInput::Key { .. })));
}

#[test]
fn toast_goes_next_to_the_cursor_inside_the_monitor() {
    let mb = MonitorBounds { left: 0, top: 0, right: 1920, bottom: 1080 };
    assert_eq!(toast_position(&mb, Some((100, 100)), 400, 200), Position { x: 116, y: 116 });
    assert_eq!(toast_position(&mb, Some((1900, 1000)), 400, 200), Position { x: 1484, y: 784 });
    assert_eq!(toast_position(&mb, None, 400, 200), Position { x: 976, y: 556 });
    assert_eq!(mb.corner_pos(400, 120, 18), Position { x: 1502, y: 942 });
    let payload = startup_toast_payload();
    assert_eq!(payload.title, "KeyTweak запущен");
}

#[test]
fn translation_helpers() {
    assert_eq!(translate_endpoint("http://host:5000//"), "http://host:5000/translate");
    assert_eq!(http_error_message(400, "bad"), "ошибочный запрос: bad");
    assert_eq!(http_error_message(403, "x"), "неверный или отсутствующий API-ключ");
    assert_eq!(http_error_message(429, "x"), "превышен лимит запросов");
    assert_eq!(http_error_message(502, "down"), "LibreTranslate вернул HTTP 502: down");
    assert_eq!(usable_copied_text(Some("  \n".to_string())), None);
    assert_eq!(usable_copied_text(Some(" hi ".to_string())), Some(" hi ".to_string()));
    assert_eq!(usable_copied_text(None), None);
}

#[test]
fn tray_menu() {
    assert_eq!(menu_command("settings"), Some(MenuCommand::ShowSettings));
    assert_eq!(menu_command("pause_caps"), Some(MenuCommand::TogglePause));
    assert_eq!(menu_command("exit"), Some(MenuCommand::Exit));
    assert_eq!(menu_command("other"), None);
    assert_eq!(pause_menu_text(true), "Возобновить переключение Caps Lock");
    assert_eq!(pause_menu_text(false), "Приостановить переключение Caps Lock");
    assert!(is_dark_theme(Some(0)));
    assert!(!is_dark_theme(Some(1)));
    assert!(!is_dark_theme(None));
}
