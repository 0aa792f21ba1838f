use mouse_shaker::{
    App, PersistedSettings, DEFAULT_KEY_INTERVAL_SECS, DEFAULT_MOUSE_INTERVAL_SECS,
    MAX_INTERVAL_SECS,
};

#[test]
fn tray_window_label_reflects_inverse_action() {
    assert_eq!(App::tray_window_label(true), "Open");
    assert_eq!(App::tray_window_label(false), "Minimize");
}

#[test]
fn tray_run_label_reflects_inverse_action() {
    assert_eq!(App::tray_run_label(true), "Stop");
    assert_eq!(App::tray_run_label(false), "Start");
}

#[test]
fn interval_is_sanitized_to_one_second_minimum() {
    assert_eq!(App::sanitize_interval_secs(0), 1);
    assert_eq!(App::sanitize_interval_secs(5), 5);
}

#[test]
fn interval_is_capped_to_configured_maximum() {
    assert_eq!(App::sanitize_interval_secs(u64::MAX), MAX_INTERVAL_SECS);
}

#[test]
fn parse_settings_applies_bounds_and_known_keys() {
    let parsed = App::parse_settings(
        "mouse_interval_secs=0\nkey_interval_secs=999999\ntray_menu_on_left_click=true\nignored=x\n",
    );
    assert_eq!(parsed.mouse_interval_secs, 1);
    assert_eq!(parsed.key_interval_secs, MAX_INTERVAL_SECS);
    assert!(parsed.tray_menu_on_left_click);
}

#[test]
fn serialize_settings_includes_all_fields() {
    let text = App::serialize_settings(PersistedSettings {
        mouse_interval_secs: 7,
        key_interval_secs: 13,
        tray_menu_on_left_click: false,
    });
    assert!(text.contains("mouse_interval_secs=7"));
    assert!(text.contains("key_interval_secs=13"));
    assert!(text.contains("tray_menu_on_left_click=false"));
}

/// `parse_settings` must silently skip blank lines and `#`-prefixed comment lines,
/// leaving unset fields at their defaults.
#[test]
fn parse_settings_ignores_comments_and_blank_lines() {
    let parsed = App::parse_settings(
        "\n# comment at top\nmouse_interval_secs=15\n\n# another comment\n",
    );
    assert_eq!(parsed.mouse_interval_secs, 15);
    assert_eq!(parsed.key_interval_secs, DEFAULT_KEY_INTERVAL_SECS);
    assert!(!parsed.tray_menu_on_left_click);
}

#[test]
fn serialize_then_parse_is_identity() {
    let original = PersistedSettings {
        mouse_interval_secs: 30,
        key_interval_secs: 60,
        tray_menu_on_left_click: true,
    };
    let serialized = App::serialize_settings(original);
    let parsed = App::parse_settings(&serialized);
    assert_eq!(parsed, original);
}

#[test]
fn sanitize_interval_secs_preserves_exact_bounds() {
    assert_eq!(App::sanitize_interval_secs(1), 1);
    assert_eq!(App::sanitize_interval_secs(MAX_INTERVAL_SECS), MAX_INTERVAL_SECS);
}

#[test]
fn parse_settings_whitespace_padded_keys_and_values() {
    let parsed = App::parse_settings(
        " mouse_interval_secs = 20 \n key_interval_secs = 40 \n tray_menu_on_left_click = true \n",
    );
    assert_eq!(parsed.mouse_interval_secs, 20);
    assert_eq!(parsed.key_interval_secs, 40);
    assert!(parsed.tray_menu_on_left_click);
}

#[test]
fn parse_settings_empty_input_returns_defaults() {
    let parsed = App::parse_settings("");
    assert_eq!(parsed.mouse_interval_secs, DEFAULT_MOUSE_INTERVAL_SECS);
    assert_eq!(parsed.key_interval_secs, DEFAULT_KEY_INTERVAL_SECS);
    assert!(!parsed.tray_menu_on_left_click);
}

#[test]
fn parse_settings_invalid_value_uses_default() {
    let parsed = App::parse_settings(
        "mouse_interval_secs=abc
key_interval_secs=true
tray_menu_on_left_click=7
",
    );
    assert_eq!(parsed.mouse_interval_secs, DEFAULT_MOUSE_INTERVAL_SECS);
    assert_eq!(parsed.key_interval_secs, DEFAULT_KEY_INTERVAL_SECS);
    assert!(!parsed.tray_menu_on_left_click);
}

#[test]
fn parse_settings_malformed_line_is_skipped() {
    let parsed = App::parse_settings("notakeyvalue
mouse_interval_secs=25
");
    assert_eq!(parsed.mouse_interval_secs, 25);
    assert_eq!(parsed.key_interval_secs, DEFAULT_KEY_INTERVAL_SECS);
    assert!(!parsed.tray_menu_on_left_click);
}
