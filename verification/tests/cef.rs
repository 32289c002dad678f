use zap::cef_input::{
    cef_modifiers, cursor_semantic, deferred_key_plan, first_utf16, ime_replacement_range,
    is_key_pad_event, key_characters, marked_selection, plain_key_events, ImeRange, KeyCharacters,
    PlainKeyEvents,
    is_modifier_pressed, key_event_kind, key_event_modifiers, mouse_button, mouse_button_flag,
    mouse_event_modifiers, parse_render_mode, resolve_render_mode, utf16_count, windows_key_code,
    CursorKind, KeyEventKind, MouseButtonKind, RenderMode, EVENTFLAG_IS_KEY_PAD,
    EVENTFLAG_IS_REPEAT, EVENTFLAG_LEFT_MOUSE_BUTTON, EVENTFLAG_RIGHT_MOUSE_BUTTON,
    EVENTFLAG_SHIFT_DOWN, NS_MOD_CAPS_LOCK, NS_MOD_COMMAND, NS_MOD_CONTROL, NS_MOD_NUMERIC_PAD,
    NS_MOD_OPTION, NS_MOD_SHIFT, OSR_EVENT_MOUSE_CLICK, OSR_EVENT_MOUSE_MOVE,
};
use zap::cef_lifecycle::{
    cdp_message, freeze_after, freeze_due, parse_u64_exec, PageLifecycle, ACTIVE_PARAMS,
    FROZEN_PARAMS, SET_LIFECYCLE_METHOD,
};
use zap::cef_update::{cef_update_outcome, compare, latest_from_index, parse_version, CefUpdateCheck};

#[test]
fn compare_cef_versions_ignores_build_suffix() {
    assert_eq!(compare("152.0.8+g1ce985c+chromium-152.0.7977.134", "152.0.8"), Some(false));
    assert_eq!(compare("153.0.0+gabc+chromium-153.0.1", "152.0.8"), Some(true));
    assert_eq!(compare("152.1.0", "152.0.8"), Some(true));
    assert_eq!(compare("152.0.7", "152.0.8"), Some(false));
    assert_eq!(compare("152.0", "152.0.8"), Some(false));
    assert_eq!(compare("152.0", "152.0.0"), Some(false));
    assert_eq!(compare("not-a-version", "152.0.8"), None);
    assert_eq!(compare("152.0.8", "unknown"), None);
}

#[test]
fn parse_version_reads_three_fields_before_the_build_suffix() {
    assert_eq!(parse_version("152.0.8+g1ce985c"), Some((152, 0, 8)));
    assert_eq!(parse_version("152.0"), Some((152, 0, 0)));
    assert_eq!(parse_version("unknown"), None);
}

#[test]
fn latest_from_index_picks_highest_version() {
    let body = r#"{
        "macosarm64": {
            "versions": [
                { "cef_version": "152.0.8+g1ce985c+chromium-152.0.7977.134" },
                { "cef_version": "153.0.1+gabc+chromium-153.0.8000.0" },
                { "note": "no version here" }
            ]
        },
        "macosx64": { "versions": [] }
    }"#;
    assert_eq!(
        latest_from_index(body, "macosarm64").unwrap(),
        "153.0.1+gabc+chromium-153.0.8000.0"
    );
    assert!(latest_from_index(body, "linux64").is_err());
    assert!(latest_from_index(body, "macosx64").is_err());
}

#[test]
fn cef_update_outcome_reports_newer_release_only() {
    assert_eq!(
        cef_update_outcome(Ok("153.0.1".to_string()), "152.0.8"),
        CefUpdateCheck::UpdateAvailable { latest: "153.0.1".to_string() }
    );
    assert_eq!(
        cef_update_outcome(Ok("152.0.8".to_string()), "152.0.8"),
        CefUpdateCheck::UpToDate { latest: Some("152.0.8".to_string()) }
    );
    assert_eq!(
        cef_update_outcome(Err("offline".to_string()), "152.0.8"),
        CefUpdateCheck::Failed { error: "offline".to_string() }
    );
}

#[test]
fn parse_render_mode_defaults_to_windowed() {
    assert_eq!(parse_render_mode(None), RenderMode::Windowed);
    assert_eq!(parse_render_mode(Some("")), RenderMode::Windowed);
    assert_eq!(parse_render_mode(Some("0")), RenderMode::Windowed);
    assert_eq!(parse_render_mode(Some("yes")), RenderMode::Windowed);
    assert_eq!(parse_render_mode(Some("1")), RenderMode::Osr);
    assert_eq!(parse_render_mode(Some(" true ")), RenderMode::Osr);
}

#[test]
fn cef_modifiers_maps_appkit_flags() {
    assert_eq!(cef_modifiers(0), 0);
    assert_eq!(cef_modifiers(NS_MOD_CAPS_LOCK), 1 << 0);
    assert_eq!(cef_modifiers(NS_MOD_SHIFT), 1 << 1);
    assert_eq!(cef_modifiers(NS_MOD_CONTROL), 1 << 2);
    assert_eq!(cef_modifiers(NS_MOD_OPTION), 1 << 3);
    assert_eq!(cef_modifiers(NS_MOD_COMMAND), 1 << 7);
    assert_eq!(
        cef_modifiers(NS_MOD_SHIFT | NS_MOD_COMMAND),
        (1 << 1) | (1 << 7)
    );
    assert_eq!(cef_modifiers(NS_MOD_NUMERIC_PAD), 0);
}

#[test]
fn windows_key_code_matches_cef_convention() {
    assert_eq!(windows_key_code(0, Some("a")), i32::from(b'A'));
    assert_eq!(windows_key_code(0, Some("A")), i32::from(b'A'));
    assert_eq!(windows_key_code(29, Some("0")), i32::from(b'0'));
    assert_eq!(windows_key_code(0x24, Some("\r")), 0x0D);
    assert_eq!(windows_key_code(0x30, Some("\t")), 0x09);
    assert_eq!(windows_key_code(0x33, Some("\u{8}")), 0x08);
    assert_eq!(windows_key_code(0x7B, None), 0x25);
    assert_eq!(windows_key_code(0x7E, None), 0x26);
    assert_eq!(windows_key_code(0x35, Some("\u{1b}")), 0x1B);
    assert_eq!(windows_key_code(0x37, None), 0x5B);
    assert_eq!(windows_key_code(0x7A, None), 0x70);
    assert_eq!(windows_key_code(0x6F, None), 0x7B);
    assert_eq!(windows_key_code(0, Some("中")), 0);
    assert_eq!(windows_key_code(0, None), 0);
}

#[test]
fn is_modifier_pressed_reads_flag_state() {
    assert!(is_modifier_pressed(56, NS_MOD_SHIFT));
    assert!(!is_modifier_pressed(56, 0));
    assert!(is_modifier_pressed(60, NS_MOD_SHIFT));
    assert!(is_modifier_pressed(55, NS_MOD_COMMAND));
    assert!(!is_modifier_pressed(55, NS_MOD_SHIFT));
    assert!(is_modifier_pressed(62, NS_MOD_CONTROL));
    assert!(is_modifier_pressed(61, NS_MOD_OPTION));
    assert!(is_modifier_pressed(57, NS_MOD_CAPS_LOCK));
}

#[test]
fn is_key_pad_event_covers_flag_and_keycodes() {
    assert!(is_key_pad_event(0, NS_MOD_NUMERIC_PAD));
    assert!(is_key_pad_event(65, 0));
    assert!(is_key_pad_event(76, 0));
    assert!(!is_key_pad_event(0, 0));
    assert!(!is_key_pad_event(0x24, 0));
}

#[test]
fn deferred_key_plan_covers_plain_composition_and_commit() {
    let plain = deferred_key_plan(Some("a"), None, false, false, false);
    assert!(plain.send_plain_key);
    assert_eq!(plain.commit_text, None);
    assert_eq!(plain.set_composition, None);
    assert!(!plain.finish_composition && !plain.cancel_composition);

    let function_key = deferred_key_plan(None, None, false, false, false);
    assert!(function_key.send_plain_key);
    assert_eq!(function_key.commit_text, None);

    let composing = deferred_key_plan(None, Some("ni'hao"), false, true, false);
    assert!(!composing.send_plain_key);
    assert_eq!(composing.set_composition.as_deref(), Some("ni'hao"));
    assert_eq!(composing.commit_text, None);

    let commit = deferred_key_plan(Some("你好"), None, true, false, false);
    assert!(!commit.send_plain_key);
    assert_eq!(commit.commit_text.as_deref(), Some("你好"));
    assert!(commit.cancel_composition);
    assert!(!commit.finish_composition);

    let finished = deferred_key_plan(Some("你"), None, true, false, true);
    assert!(finished.finish_composition && !finished.cancel_composition);
    assert_eq!(finished.commit_text.as_deref(), Some("你"));
}

#[test]
fn deferred_key_plan_commits_pasted_text_without_composition() {
    let paste = deferred_key_plan(Some("hello"), None, false, false, false);
    assert!(!paste.send_plain_key);
    assert_eq!(paste.commit_text.as_deref(), Some("hello"));
    assert!(!paste.finish_composition && !paste.cancel_composition);
}

#[test]
fn ime_replacement_range_never_null() {
    let invalid = ime_replacement_range(-1, -1);
    assert_eq!((invalid.from, invalid.to), (u32::MAX, u32::MAX));

    let normal = ime_replacement_range(3, 5);
    assert_eq!((normal.from, normal.to), (3, 5));

    let reversed = ime_replacement_range(5, 2);
    assert_eq!((reversed.from, reversed.to), (5, 5));
}

#[test]
fn resolve_render_mode_env_wins_then_setting() {
    assert_eq!(resolve_render_mode(None, false), RenderMode::Windowed);
    assert_eq!(resolve_render_mode(None, true), RenderMode::Osr);
    assert_eq!(resolve_render_mode(Some("1"), false), RenderMode::Osr);
    assert_eq!(resolve_render_mode(Some("0"), true), RenderMode::Windowed);
    assert_eq!(resolve_render_mode(Some(""), true), RenderMode::Osr);
    assert_eq!(resolve_render_mode(Some("  "), true), RenderMode::Osr);
}

#[test]
fn cursor_semantic_maps_common_types() {
    assert_eq!(cursor_semantic(CursorKind::Hand), 1);
    assert_eq!(cursor_semantic(CursorKind::IBeam), 2);
    assert_eq!(cursor_semantic(CursorKind::Cross), 3);
    assert_eq!(cursor_semantic(CursorKind::EastWestResize), 4);
    assert_eq!(cursor_semantic(CursorKind::NorthSouthResize), 5);
    assert_eq!(cursor_semantic(CursorKind::Grab), 6);
    assert_eq!(cursor_semantic(CursorKind::Grabbing), 7);
    assert_eq!(cursor_semantic(CursorKind::NotAllowed), 8);
    assert_eq!(cursor_semantic(CursorKind::ZoomIn), 9);
    assert_eq!(cursor_semantic(CursorKind::ZoomOut), 10);
    assert_eq!(cursor_semantic(CursorKind::Move), 11);
    assert_eq!(cursor_semantic(CursorKind::Pointer), 0);
    assert_eq!(cursor_semantic(CursorKind::NoCursor), 0);
    assert_eq!(cursor_semantic(CursorKind::Custom), 0);
}

#[test]
fn mouse_buttons_and_their_flags() {
    assert_eq!(mouse_button(0), MouseButtonKind::Left);
    assert_eq!(mouse_button(1), MouseButtonKind::Right);
    assert_eq!(mouse_button(2), MouseButtonKind::Middle);
    assert_eq!(mouse_button_flag(0), EVENTFLAG_LEFT_MOUSE_BUTTON);
    assert_eq!(mouse_button_flag(1), EVENTFLAG_RIGHT_MOUSE_BUTTON);
    assert_eq!(
        mouse_event_modifiers(OSR_EVENT_MOUSE_CLICK, 0, NS_MOD_SHIFT),
        EVENTFLAG_SHIFT_DOWN | EVENTFLAG_LEFT_MOUSE_BUTTON
    );
    assert_eq!(mouse_event_modifiers(OSR_EVENT_MOUSE_MOVE, -1, 0), 0);
}

#[test]
fn key_events_carry_keypad_and_repeat_flags() {
    assert_eq!(key_event_modifiers(65, 0, false), EVENTFLAG_IS_KEY_PAD);
    assert_eq!(key_event_modifiers(0, 0, true), EVENTFLAG_IS_REPEAT);
    assert_eq!(key_event_kind(1, 0, 0), Some(KeyEventKind::KeyUp));
    assert_eq!(key_event_kind(2, 56, NS_MOD_SHIFT), Some(KeyEventKind::KeyDown));
    assert_eq!(key_event_kind(2, 56, 0), Some(KeyEventKind::KeyUp));
    assert_eq!(key_event_kind(0, 0, 0), None);
}

#[test]
fn utf16_count_counts_surrogate_pairs() {
    assert_eq!(utf16_count(""), 0);
    assert_eq!(utf16_count("ab"), 2);
    assert_eq!(utf16_count("你好"), 2);
    assert_eq!(utf16_count("😀a"), 3);
}

#[test]
fn freeze_delay_override_wins_and_zero_disables() {
    assert_eq!(freeze_after(None, 300), Some(300));
    assert_eq!(freeze_after(Some("12"), 300), Some(12));
    assert_eq!(freeze_after(Some("abc"), 300), Some(300));
    assert_eq!(freeze_after(Some("0"), 300), None);
    assert_eq!(freeze_after(None, 0), None);
    assert_eq!(parse_u64_exec("+7"), Some(7));
    assert_eq!(parse_u64_exec("18446744073709551615"), Some(u64::MAX));
    assert_eq!(parse_u64_exec("18446744073709551616"), None);
    assert_eq!(parse_u64_exec(""), None);
}

#[test]
fn only_hidden_unfrozen_overdue_pages_freeze() {
    assert!(freeze_due(false, false, true, Some(300_000), 300));
    assert!(!freeze_due(false, false, true, Some(299_999), 300));
    assert!(!freeze_due(true, false, true, Some(300_000), 300));
    assert!(!freeze_due(false, true, true, Some(300_000), 300));
    assert!(!freeze_due(false, false, false, Some(300_000), 300));
    assert!(!freeze_due(false, false, true, None, 300));
    assert!(!freeze_due(false, false, true, Some(u64::MAX), u64::MAX));
}

#[test]
fn cdp_messages_freeze_and_thaw() {
    assert_eq!(
        cdp_message(SET_LIFECYCLE_METHOD, FROZEN_PARAMS),
        r#"{"id":1,"method":"Page.setWebLifecycleState","params":{"state":"frozen"}}"#
    );
    assert_eq!(
        cdp_message(SET_LIFECYCLE_METHOD, ACTIVE_PARAMS),
        r#"{"id":1,"method":"Page.setWebLifecycleState","params":{"state":"active"}}"#
    );
}

#[test]
fn page_lifecycle_freezes_hidden_pages_and_thaws_on_show() {
    let mut page = PageLifecycle::new();
    assert!(!page.freeze_due_at(true, 1_000_000, 300));
    assert!(!page.set_visible(false, 1_000));
    assert!(!page.set_visible(false, 5_000));
    assert_eq!(page.hidden_since, Some(1_000));
    assert!(!page.freeze_due_at(true, 300_999, 300));
    assert!(page.freeze_due_at(true, 301_000, 300));
    assert!(!page.freeze_due_at(false, 301_000, 300));
    page.froze();
    assert!(!page.freeze_due_at(true, 400_000, 300));
    assert!(page.set_visible(true, 500_000));
    assert!(page.frozen);
    assert_eq!(page.hidden_since, None);
    page.thawed();
    assert!(!page.frozen);
    assert!(!page.set_visible(true, 500_001));
}

#[test]
fn first_utf16_unit_of_text() {
    assert_eq!(first_utf16("a"), Some(97));
    assert_eq!(first_utf16("é!"), Some(0xE9));
    assert_eq!(first_utf16("😀"), Some(0xD83D));
    assert_eq!(first_utf16(""), None);
}

#[test]
fn key_characters_prefer_inserted_text_for_char() {
    assert_eq!(
        key_characters(Some("a"), Some("A"), None),
        KeyCharacters { character: 97, unmodified_character: 65, char_character: 97 }
    );
    // A dead key: the event says "´", the input method inserts "é".
    assert_eq!(
        key_characters(Some("´"), Some("e"), Some("é")),
        KeyCharacters { character: 0xB4, unmodified_character: 101, char_character: 0xE9 }
    );
    assert_eq!(
        key_characters(None, Some(""), Some("")),
        KeyCharacters { character: 0, unmodified_character: 0, char_character: 0 }
    );
    assert_eq!(
        key_characters(Some("x"), None, Some("😀")),
        KeyCharacters { character: 120, unmodified_character: 0, char_character: 0xD83D }
    );
}

#[test]
fn keypad_clear_sends_keydown_only() {
    assert_eq!(plain_key_events(true, 71, 0), PlainKeyEvents::KeyDownOnly);
    assert_eq!(plain_key_events(true, 71, NS_MOD_NUMERIC_PAD), PlainKeyEvents::KeyDownOnly);
    assert_eq!(plain_key_events(true, 0, 0), PlainKeyEvents::KeyDownAndChar);
    assert_eq!(plain_key_events(true, 83, NS_MOD_NUMERIC_PAD), PlainKeyEvents::KeyDownAndChar);
    assert_eq!(plain_key_events(false, 71, 0), PlainKeyEvents::Nothing);
    assert_eq!(plain_key_events(false, 0, 0), PlainKeyEvents::Nothing);
}

#[test]
fn marked_selection_is_clamped_at_zero() {
    assert_eq!(marked_selection(-3, 5), ImeRange { from: 0, to: 5 });
    assert_eq!(marked_selection(2, 4), ImeRange { from: 2, to: 4 });
    assert_eq!(marked_selection(-1, -1), ImeRange { from: 0, to: 0 });
}

#[test]
fn latest_from_index_error_messages() {
    let body = r#"{"macosarm64": {"versions": [{"cef_version": "junk"}]}, "macosx64": {"x": 1}}"#;
    assert_eq!(
        latest_from_index(body, "linux64"),
        Err("索引里没有平台 linux64".to_string())
    );
    assert_eq!(
        latest_from_index(body, "macosx64"),
        Err("索引里没有平台 macosx64".to_string())
    );
    assert_eq!(
        latest_from_index(body, "macosarm64"),
        Err("索引里没有可解析的版本号".to_string())
    );
    assert!(latest_from_index("not json", "macosarm64").is_err());
}
