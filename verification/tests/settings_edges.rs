use mouse_shaker::{App, PersistedSettings, DEFAULT_KEY_INTERVAL_SECS, MAX_INTERVAL_SECS};

fn defaults() -> PersistedSettings {
    PersistedSettings::default()
}

#[test]
fn default_settings_values() {
    let d = defaults();
    assert_eq!(d.mouse_interval_secs, 5);
    assert_eq!(d.key_interval_secs, 10);
    assert!(!d.tray_menu_on_left_click);
}

#[test]
fn serialize_settings_exact_text() {
    let text = App::serialize_settings(PersistedSettings {
        mouse_interval_secs: 7,
        key_interval_secs: 3600,
        tray_menu_on_left_click: true,
    });
    assert_eq!(
        text,
        "mouse_interval_secs=7\nkey_interval_secs=3600\ntray_menu_on_left_click=true\n"
    );
    let zero = App::serialize_settings(PersistedSettings {
        mouse_interval_secs: 0,
        key_interval_secs: u64::MAX,
        tray_menu_on_left_click: false,
    });
    assert_eq!(
        zero,
        "mouse_interval_secs=0\nkey_interval_secs=18446744073709551615\ntray_menu_on_left_click=false\n"
    );
}

#[test]
fn serialize_then_parse_clamps_out_of_range_intervals() {
    let original = PersistedSettings {
        mouse_interval_secs: 0,
        key_interval_secs: u64::MAX,
        tray_menu_on_left_click: false,
    };
    let parsed = App::parse_settings(&App::serialize_settings(original));
    assert_eq!(
        parsed,
        PersistedSettings {
            mouse_interval_secs: 1,
            key_interval_secs: MAX_INTERVAL_SECS,
            tray_menu_on_left_click: false,
        }
    );
}

#[test]
fn parse_accepts_plus_sign_and_leading_zeros() {
    let parsed = App::parse_settings("mouse_interval_secs=+7\nkey_interval_secs=0042\n");
    assert_eq!(parsed.mouse_interval_secs, 7);
    assert_eq!(parsed.key_interval_secs, 42);
}

#[test]
fn parse_clamps_negative_numbers_and_skips_lone_signs() {
    let parsed = App::parse_settings("mouse_interval_secs=+\nkey_interval_secs=-5\n");
    assert_eq!(parsed.mouse_interval_secs, 5);
    assert_eq!(parsed.key_interval_secs, 1);
    let parsed = App::parse_settings("mouse_interval_secs=\nkey_interval_secs=++5\n");
    assert_eq!(parsed, defaults());
    let parsed = App::parse_settings("mouse_interval_secs=-\nkey_interval_secs=-0\n");
    assert_eq!(parsed.mouse_interval_secs, 5);
    assert_eq!(parsed.key_interval_secs, 1);
}

#[test]
fn parse_clamps_numbers_beyond_any_integer() {
    let parsed = App::parse_settings(
        "mouse_interval_secs=-1\nkey_interval_secs=18446744073709551616\n",
    );
    assert_eq!(parsed.mouse_interval_secs, 1);
    assert_eq!(parsed.key_interval_secs, MAX_INTERVAL_SECS);
    let parsed = App::parse_settings(
        "mouse_interval_secs=+99999999999999999999999999999\nkey_interval_secs=-99999999999999999999999\n",
    );
    assert_eq!(parsed.mouse_interval_secs, MAX_INTERVAL_SECS);
    assert_eq!(parsed.key_interval_secs, 1);
    let parsed = App::parse_settings("mouse_interval_secs=1e3\nkey_interval_secs=12 5\n");
    assert_eq!(parsed, defaults());
}

#[test]
fn parse_handles_crlf_and_missing_final_newline() {
    let parsed = App::parse_settings("mouse_interval_secs=8\r\nkey_interval_secs=9\r\ntray_menu_on_left_click=true");
    assert_eq!(parsed.mouse_interval_secs, 8);
    assert_eq!(parsed.key_interval_secs, 9);
    assert!(parsed.tray_menu_on_left_click);
}

#[test]
fn parse_trims_unicode_whitespace() {
    let parsed = App::parse_settings("\u{3000}mouse_interval_secs\u{a0}=\t12\u{2003}\n");
    assert_eq!(parsed.mouse_interval_secs, 12);
}

#[test]
fn parse_later_line_overrides_earlier() {
    let parsed = App::parse_settings("mouse_interval_secs=3\nmouse_interval_secs=4\n");
    assert_eq!(parsed.mouse_interval_secs, 4);
}

#[test]
fn parse_splits_at_first_equals_sign() {
    let parsed = App::parse_settings("mouse_interval_secs==5\nkey_interval_secs=6=7\n");
    assert_eq!(parsed, defaults());
}

#[test]
fn parse_bool_is_case_sensitive() {
    let parsed = App::parse_settings("tray_menu_on_left_click=True\n");
    assert!(!parsed.tray_menu_on_left_click);
    let parsed = App::parse_settings("tray_menu_on_left_click=true\ntray_menu_on_left_click=false\n");
    assert!(!parsed.tray_menu_on_left_click);
}

#[test]
fn parse_comment_after_trim_and_key_case() {
    let parsed = App::parse_settings("   # mouse_interval_secs=9\nMOUSE_INTERVAL_SECS=9\n");
    assert_eq!(parsed, defaults());
}

#[test]
fn skipped_line_before_settings_changes_nothing() {
    let rest = "mouse_interval_secs=33\nkey_interval_secs=44\n";
    let with_comment = format!("# note\n{}", rest);
    let with_unknown = format!("colour=blue\n{}", rest);
    assert_eq!(App::parse_settings(&with_comment), App::parse_settings(rest));
    assert_eq!(App::parse_settings(&with_unknown), App::parse_settings(rest));
}

#[test]
fn parsed_intervals_always_in_range() {
    for text in ["mouse_interval_secs=0", "key_interval_secs=100000", "mouse_interval_secs=3601"] {
        let s = App::parse_settings(text);
        assert!(s.mouse_interval_secs >= 1 && s.mouse_interval_secs <= MAX_INTERVAL_SECS);
        assert!(s.key_interval_secs >= 1 && s.key_interval_secs <= MAX_INTERVAL_SECS);
    }
}

#[test]
fn settings_from_read_uses_defaults_when_unreadable() {
    assert_eq!(App::settings_from_read(None), defaults());
    let s = App::settings_from_read(Some("key_interval_secs=77\n"));
    assert_eq!(s.key_interval_secs, 77);
    assert_ne!(s.key_interval_secs, DEFAULT_KEY_INTERVAL_SECS);
}

#[test]
fn ignored_line_appended_changes_nothing() {
    let text = "mouse_interval_secs=33\nkey_interval_secs=44\r";
    let base = App::parse_settings(text);
    for line in [
        "",
        "   ",
        "# comment",
        "no equals sign",
        "colour=blue",
        "mouse_interval_secs=abc",
        "key_interval_secs=",
        "tray_menu_on_left_click=yes",
    ] {
        let appended = format!("{}\n{}", text, line);
        assert_eq!(App::parse_settings(&appended), base);
    }
    assert_eq!(base.mouse_interval_secs, 33);
    assert_eq!(base.key_interval_secs, 44);
}
