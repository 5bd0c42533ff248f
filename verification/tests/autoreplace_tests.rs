use keytweak::autoreplace::{find_replacement, key_char_from_utf16, separator_for_vk, RuntimeConfig};
use keytweak::config::{ExceptionProgram, Replacement};
use keytweak::exclusions::same_process_name;
use keytweak::keys::{VK_RETURN, VK_SPACE, VK_TAB};

fn config_with_replacements() -> RuntimeConfig {
    let mut config = RuntimeConfig::default();
    config.replacements = vec![Replacement {
        short: "почта".to_string(),
        replacement: "myemail@gmail.com".to_string(),
        exclusions: Vec::new(),
    }];
    config
}

#[test]
fn matches_case_insensitive_whole_word() {
    let config = config_with_replacements();

    assert_eq!(
        find_replacement(&config, "ПОЧТА", None),
        Some("myemail@gmail.com".to_string())
    );
}

#[test]
fn respects_case_sensitive_option() {
    let mut config = config_with_replacements();
    config.case_sensitive = true;

    assert_eq!(find_replacement(&config, "ПОЧТА", None), None);
    assert_eq!(
        find_replacement(&config, "почта", None),
        Some("myemail@gmail.com".to_string())
    );
}

#[test]
fn supports_suffix_match_when_whole_words_disabled() {
    let mut config = config_with_replacements();
    config.whole_words_only = false;

    assert_eq!(
        find_replacement(&config, "мояпочта", None),
        Some("myemail@gmail.com".to_string())
    );
}

#[test]
fn skips_replacement_excluded_for_current_program() {
    let mut config = config_with_replacements();
    config.replacements[0].exclusions = vec![ExceptionProgram {
        program: "code.exe".to_string(),
        display_name: None,
    }];

    assert_eq!(find_replacement(&config, "почта", Some("code.exe")), None);
    assert_eq!(
        find_replacement(&config, "почта", Some("code.exe")),
        find_replacement(&config, "почта", Some("code.exe"))
    );
    assert_eq!(
        find_replacement(&config, "почта", Some("notepad.exe")),
        Some("myemail@gmail.com".to_string())
    );
    assert_eq!(
        find_replacement(&config, "почта", None),
        Some("myemail@gmail.com".to_string())
    );
}

#[test]
fn separator_toggles_work() {
    let mut config = RuntimeConfig::default();
    config.trigger_space = true;
    config.trigger_tab = false;
    config.trigger_enter = false;

    assert_eq!(separator_for_vk(VK_SPACE as u32, &config, None), Some(' '));
    assert_eq!(separator_for_vk(VK_TAB as u32, &config, None), None);
    assert_eq!(separator_for_vk(VK_RETURN as u32, &config, None), None);
}

#[test]
fn process_name_matching_uses_file_name() {
    assert!(same_process_name("code.exe", "code.exe"));
    assert!(same_process_name(r"C:\Program Files\App\code.exe", "code.exe"));
    assert!(!same_process_name("notepad.exe", "code.exe"));
}

#[test]
fn typed_characters_are_decoded_from_utf16() {
    assert_eq!(key_char_from_utf16(&[0x41]), Some('A'));
    assert_eq!(key_char_from_utf16(&[0x0439]), Some('й'));
    assert_eq!(key_char_from_utf16(&[0xD83D, 0xDE00]), Some('\u{1F600}'));
    assert_eq!(key_char_from_utf16(&[0x08]), None);
    assert_eq!(key_char_from_utf16(&[]), None);
}
