use keytweak::libretranslate_server::{LIBRETRANSLATE_ARGS, LIBRETRANSLATE_COMMAND};

#[test]
fn libretranslate_command_is_scoped_to_english_and_russian() {
    assert_eq!(LIBRETRANSLATE_COMMAND, "libretranslate");
    assert_eq!(LIBRETRANSLATE_ARGS, ["--load-only", "en,ru"]);
}
