use keytweak::keyboard_hook::ModifierState;
use keytweak::config::TranslateConfig;
use keytweak::translate::{
    configure, detect_language, libretranslate_request, plan_translation, reverse_target_language,
    test_translate_api, ParsedHotkey,
};

#[test]
fn reverse_target_switches_between_ru_and_en() {
    assert_eq!(reverse_target_language("ru"), "en");
    assert_eq!(reverse_target_language("RU"), "en");
    assert_eq!(reverse_target_language("en"), "ru");
}

#[test]
fn detect_language_recognizes_cyrillic() {
    assert_eq!(detect_language("Привет"), "ru");
    assert_eq!(detect_language("Hello"), "en");
    assert_eq!(detect_language("Hello, мир!"), "ru");
    assert_eq!(detect_language(""), "en");
    assert_eq!(detect_language("123 !@#"), "en");
}

#[test]
fn test_translate_api_validates_local_inputs_before_network() {
    assert_eq!(
        test_translate_api("", "", "ru"),
        Err("Адрес сервера LibreTranslate не настроен".to_string())
    );
    assert_eq!(
        test_translate_api("http://127.0.0.1:5000", "", "de"),
        Err("целевой язык должен быть 'ru' или 'en'".to_string())
    );
}

#[test]
fn parsed_hotkey_simple_combo() {
    let hk = ParsedHotkey::parse("ctrl+alt+r").unwrap();
    assert!(hk.ctrl);
    assert!(!hk.shift);
    assert!(hk.alt);
    assert!(!hk.win);
    assert_eq!(hk.vk_code, 0x52);
    assert_eq!(hk.repeat_count, 1);
    assert!(!hk.is_multi_press());
}

#[test]
fn parsed_hotkey_shift_alt() {
    let hk = ParsedHotkey::parse("shift+alt+r").unwrap();
    assert!(!hk.ctrl);
    assert!(hk.shift);
    assert!(hk.alt);
    assert!(!hk.win);
    assert_eq!(hk.vk_code, 0x52);
    assert_eq!(hk.repeat_count, 1);
}

#[test]
fn parsed_hotkey_multi_press() {
    let hk = ParsedHotkey::parse("ctrl+c+c").unwrap();
    assert!(hk.ctrl);
    assert!(!hk.shift);
    assert!(!hk.alt);
    assert!(!hk.win);
    assert_eq!(hk.vk_code, 0x43);
    assert_eq!(hk.repeat_count, 2);
    assert!(hk.is_multi_press());
}

#[test]
fn parsed_hotkey_ctrl_shift_c() {
    let hk = ParsedHotkey::parse("ctrl+shift+c").unwrap();
    assert!(hk.ctrl);
    assert!(hk.shift);
    assert!(!hk.alt);
    assert!(!hk.win);
    assert_eq!(hk.vk_code, 0x43);
    assert_eq!(hk.repeat_count, 1);
}

#[test]
fn parsed_hotkey_function_key() {
    let hk = ParsedHotkey::parse("ctrl+f5").unwrap();
    assert!(hk.ctrl);
    assert_eq!(hk.vk_code, 0x74);
    assert_eq!(hk.repeat_count, 1);
}

#[test]
fn parsed_hotkey_modifiers_match() {
    let hk = ParsedHotkey::parse("ctrl+alt+r").unwrap();
    let modifiers = ModifierState {
        ctrl: true,
        shift: false,
        alt: true,
        win: false,
    };
    assert!(hk.modifiers_match(modifiers));
    assert!(hk.key_matches(0x52));

    let wrong_modifiers = ModifierState {
        ctrl: true,
        shift: true,
        alt: true,
        win: false,
    };
    assert!(!hk.modifiers_match(wrong_modifiers));
}

#[test]
fn parsed_hotkey_invalid_input() {
    assert!(ParsedHotkey::parse("").is_none());
    assert!(ParsedHotkey::parse("ctrl+a+b").is_none());
}

#[test]
fn translation_request_leaves_out_an_empty_api_key() {
    let request = libretranslate_request("hello", "ru", "  ");
    assert_eq!(request.q, "hello");
    assert_eq!(request.source, "auto");
    assert_eq!(request.target, "ru");
    assert_eq!(request.format, "text");
    assert!(request.api_key.is_none());
    let keyed = libretranslate_request("hello", "ru", " key ");
    assert_eq!(keyed.api_key.as_deref(), Some("key"));
}

#[test]
fn translation_plan_picks_the_target() {
    let mut config = TranslateConfig::default();
    let settings = configure(&config);
    let job = plan_translation("Привет", &settings, false).unwrap();
    assert_eq!(job.source_lang, "ru");
    assert_eq!(job.target_lang, "en");
    assert_eq!(job.server_url, "http://127.0.0.1:5000");
    let job = plan_translation("Hello", &settings, true).unwrap();
    assert_eq!(job.target_lang, "en");
    config.server_url = "   ".to_string();
    let settings = configure(&config);
    assert_eq!(
        plan_translation("Hello", &settings, false),
        Err("Ошибка перевода: адрес сервера LibreTranslate не настроен.".to_string())
    );
}
