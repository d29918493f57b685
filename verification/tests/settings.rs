use clipvault::history::MAX_UNPINNED_ENTRIES;
use clipvault::settings::{
    hotkey_setting, language_setting, limit_setting, max_history_setting, parse_i64,
};

#[test]
fn numbers_read_as_str_parse_does() {
    for text in ["0", "42", "-7", "+15", "9223372036854775807", "-9223372036854775808", "", "-", "+", "1x", " 1", "9223372036854775808", "-9223372036854775809", "99999999999999999999999"] {
        assert_eq!(parse_i64(text), text.parse::<i64>().ok(), "{text}");
    }
}

#[test]
fn settings_fall_back_to_defaults() {
    assert_eq!(max_history_setting(None), MAX_UNPINNED_ENTRIES);
    assert_eq!(max_history_setting(Some("abc")), MAX_UNPINNED_ENTRIES);
    assert_eq!(max_history_setting(Some("50")), 50);
    assert_eq!(limit_setting(None), 0);
    assert_eq!(limit_setting(Some("2048")), 2048);
    assert_eq!(hotkey_setting(None), "Ctrl+Shift+V");
    assert_eq!(hotkey_setting(Some("Ctrl+Alt+V".to_string())), "Ctrl+Alt+V");
    assert_eq!(language_setting(None), "it");
    assert_eq!(language_setting(Some("en".to_string())), "en");
}
