use zap::editor_state::CodeReviewEditorState;
use zap::bridge::BridgeEvent;
use zap::browser_pane::{BrowserPaneState, DetachType, PaneEventResponse, WebviewCommand};
use zap::diff_layout::DiffLayout;
use zap::dsh_pane::{
    apply_detach_effect, attach_plan, ellipsis_dots, url_origin, AttachPlan, DshPaneState,
    PaneDetachEffect, PaneDisplay, RuntimeUrlSync,
    WEBVIEW_LOAD_TIMEOUT_MS,
};
use zap::pane_view::{should_dim, DragEventKind, HeaderDragEvent, PaneFrameState};
use zap::runtime::{DshRuntime, DshRuntimeStatus};
use zap::select::{MiddleClickSource, RightClickBehavior, SelectionSettings};
use zap::webview::{
    background_argb, classify_webview_ipc, is_externally_openable, is_http_url,
    order_webview_events, webviews_to_hide, BrowserWebViewEvent, DshWebviewIds, WebviewIds,
    WebviewIpcAction, DEFAULT_BACKGROUND,
};

#[test]
fn only_web_and_contact_links_open_outside() {
    assert!(is_externally_openable("https://example.com"));
    assert!(is_externally_openable("http://example.com/a?b"));
    assert!(is_externally_openable("mailto:someone@example.com"));
    assert!(is_externally_openable("tel:+123"));
    assert!(!is_externally_openable("javascript:alert(1)"));
    assert!(!is_externally_openable("file:///etc/passwd"));
    assert!(!is_externally_openable("not a url"));
    assert!(is_http_url("https://example.com"));
    assert!(!is_http_url("mailto:someone@example.com"));
    assert!(!is_http_url("example.com"));
}

#[test]
fn page_messages_are_classified() {
    match classify_webview_ipc("warp:webview-js-error:boom", false) {
        WebviewIpcAction::LogJsError { message } => assert_eq!(message, "boom"),
        other => panic!("unexpected {other:?}"),
    }
    match classify_webview_ipc("warp:open-external:https://example.com", false) {
        WebviewIpcAction::OpenExternal { url } => assert_eq!(url, "https://example.com"),
        other => panic!("unexpected {other:?}"),
    }
    match classify_webview_ipc("warp:open-external:javascript:alert(1)", false) {
        WebviewIpcAction::SkipExternal { url } => assert_eq!(url, "javascript:alert(1)"),
        other => panic!("unexpected {other:?}"),
    }
    match classify_webview_ipc("zap:zap.notify\n1\n{}", true) {
        WebviewIpcAction::Bridge { payload } => assert_eq!(payload, "zap.notify\n1\n{}"),
        other => panic!("unexpected {other:?}"),
    }
    assert!(matches!(classify_webview_ipc("zap:zap.notify", false), WebviewIpcAction::RejectZap));
    assert!(matches!(classify_webview_ipc("warp:webview-focusin", false), WebviewIpcAction::Focus));
    assert!(matches!(classify_webview_ipc("warp:webview-mousedown", true), WebviewIpcAction::Focus));
    assert!(matches!(classify_webview_ipc("hello", true), WebviewIpcAction::Ignore));
}

#[test]
fn webview_ids_count_up_from_one() {
    let mut ids = WebviewIds::new();
    assert_eq!(ids.allocate_id(), 1);
    assert_eq!(ids.allocate_id(), 2);
    assert_eq!(ids.allocate_id(), 3);
}

#[test]
fn dsh_webviews_register_and_unregister() {
    let mut dsh = DshWebviewIds::new();
    assert!(!dsh.contains(4));
    assert_eq!(dsh.any(), None);
    dsh.register_dsh_webview(4);
    dsh.register_dsh_webview(4);
    dsh.register_dsh_webview(7);
    assert!(dsh.contains(4) && dsh.contains(7));
    dsh.unregister_dsh_webview(4);
    assert!(!dsh.contains(4));
    assert_eq!(dsh.any(), Some(7));
    dsh.unregister_dsh_webview(7);
    assert_eq!(dsh.any(), None);
}

#[test]
fn background_is_opaque_theme_color_or_default() {
    assert_eq!(background_argb(None), DEFAULT_BACKGROUND);
    assert_eq!(background_argb(Some((0x12, 0x34, 0x56))), 0xFF123456);
}

#[test]
fn frame_events_go_focus_then_loads_then_crashes() {
    let events = order_webview_events(&vec![3], &vec![1, 2], &vec![9]);
    assert_eq!(
        events,
        vec![
            BrowserWebViewEvent::PageFocused(3),
            BrowserWebViewEvent::UrlChanged(1),
            BrowserWebViewEvent::UrlChanged(2),
            BrowserWebViewEvent::WebContentCrashed(9),
        ]
    );
    assert_eq!(
        webviews_to_hide(&vec![(1, 10), (2, 10), (3, 11), (4, 10)], 10, &vec![2]),
        vec![1, 4]
    );
}

#[test]
fn browser_pane_detach_and_attach() {
    let mut pane = BrowserPaneState::new("https://example.com".to_string(), 5);
    assert_eq!(pane.handle_detach(DetachType::HiddenForClose), WebviewCommand::Hide);
    assert_eq!(pane.handle_attach(true), WebviewCommand::Show);
    assert_eq!(pane.handle_detach(DetachType::Moved), WebviewCommand::Destroy);
    assert!(pane.needs_recreate);
    assert_eq!(pane.handle_attach(true), WebviewCommand::Recreate);
    assert!(!pane.needs_recreate);
    assert_eq!(pane.handle_attach(false), WebviewCommand::Recreate);
    assert_eq!(pane.handle_detach(DetachType::Closed), WebviewCommand::Destroy);
}

#[test]
fn browser_pane_follows_the_page_url() {
    let mut pane = BrowserPaneState::new("https://example.com".to_string(), 5);
    assert_eq!(pane.sync_url_from_webview(Some("https://example.com/".to_string())), None);
    assert_eq!(
        pane.sync_url_from_webview(Some("https://example.com/docs//".to_string())),
        Some("https://example.com/docs".to_string())
    );
    assert_eq!(pane.model.url, "https://example.com/docs");
    assert_eq!(pane.sync_url_from_webview(None), None);
    pane.navigate("https://rust-lang.org".to_string());
    assert_eq!(pane.model.url, "https://rust-lang.org");
    assert_eq!(
        pane.handle_webview_event(BrowserWebViewEvent::PageFocused(5)),
        PaneEventResponse::FocusSelf
    );
    assert_eq!(
        pane.handle_webview_event(BrowserWebViewEvent::UrlChanged(5)),
        PaneEventResponse::SyncUrl
    );
    assert_eq!(
        pane.handle_webview_event(BrowserWebViewEvent::UrlChanged(6)),
        PaneEventResponse::Nothing
    );
}

#[test]
fn dsh_pane_shows_webview_after_load_or_timeout() {
    let mut pane = DshPaneState::new();
    assert!(pane.is_loading());
    assert_eq!(pane.display(0), PaneDisplay::Loading);
    assert!(pane.set_ready("http://127.0.0.1:4000/?token=a", 8, 1_000));
    assert!(!pane.set_ready("http://127.0.0.1:5000/", 9, 1_000));
    assert_eq!(pane.webview_id, Some(8));
    assert_eq!(pane.display(1_000 + WEBVIEW_LOAD_TIMEOUT_MS), PaneDisplay::Loading);
    assert_eq!(pane.display(1_001 + WEBVIEW_LOAD_TIMEOUT_MS), PaneDisplay::Webview);
    assert!(pane.on_webview_event(BrowserWebViewEvent::UrlChanged(8)));
    assert_eq!(pane.display(1_000), PaneDisplay::Webview);
    assert!(!pane.on_webview_event(BrowserWebViewEvent::WebContentCrashed(8)));
    assert_eq!(pane.display(1_000), PaneDisplay::WebviewCrashed);
    assert_eq!(pane.recreate_webview(2_000), Some(8));
    assert_eq!(pane.display(2_000), PaneDisplay::Loading);
    pane.on_runtime_event(&BridgeEvent::Failed { error: "x".to_string() });
    assert_eq!(pane.display(2_000), PaneDisplay::RuntimeFailed);
    pane.on_runtime_event(&BridgeEvent::Restarted { url: "u".to_string() });
    assert!(!pane.runtime_failed);
}

#[test]
fn dsh_pane_compares_runtime_origins() {
    assert_eq!(url_origin("http://127.0.0.1:4000/?token=a"), "http://127.0.0.1:4000");
    assert_eq!(url_origin("http://127.0.0.1:4000"), "http://127.0.0.1:4000");
    assert_eq!(url_origin("no-scheme/path"), "no-scheme/path");
    let mut pane = DshPaneState::new();
    assert_eq!(pane.sync_runtime_url(None, "http://127.0.0.1:4000/?token=a"), RuntimeUrlSync::SetReady);
    assert_eq!(
        pane.sync_runtime_url(Some("http://127.0.0.1:4000/"), "http://127.0.0.1:4000/?token=a"),
        RuntimeUrlSync::Keep
    );
    assert_eq!(
        pane.sync_runtime_url(Some("http://127.0.0.1:4000/"), "http://127.0.0.1:5000/?token=b"),
        RuntimeUrlSync::Navigate
    );
    assert_eq!(pane.current_url, "http://127.0.0.1:5000/?token=b");
}

#[test]
fn dsh_pane_detach_and_attach_plans() {
    let mut pane = DshPaneState::new();
    assert_eq!(pane.detach(DetachType::Closed, 0), PaneDetachEffect::ArmPendingStop);
    assert_eq!(pane.detach(DetachType::HiddenForClose, 0), PaneDetachEffect::Nothing);
    assert_eq!(pane.load_started_at, None);
    assert_eq!(pane.detach(DetachType::Moved, 50), PaneDetachEffect::RestartLoadClock);
    assert_eq!(pane.load_started_at, Some(50));
    assert!(!pane.attach_with_focus(false));
    assert_eq!(
        attach_plan(DshRuntimeStatus::Ready, false),
        AttachPlan { sync_url: true, force_without_focus: false, enter_failed: false }
    );
    assert_eq!(
        attach_plan(DshRuntimeStatus::Failed, false),
        AttachPlan { sync_url: false, force_without_focus: true, enter_failed: true }
    );
    assert_eq!(
        attach_plan(DshRuntimeStatus::Stopped, true),
        AttachPlan { sync_url: false, force_without_focus: true, enter_failed: false }
    );
    assert_eq!(ellipsis_dots(0), ".");
    assert_eq!(ellipsis_dots(300), "..");
    assert_eq!(ellipsis_dots(650), "...");
    assert_eq!(ellipsis_dots(900), ".");
}

#[test]
fn pane_header_drag_events() {
    let mut frame = PaneFrameState::new();
    assert_eq!(
        frame.handle_drag_event(HeaderDragEvent::MovePaneWithinPaneGroup),
        DragEventKind::MovePaneWithinPaneGroup
    );
    assert!(frame.is_being_dragged);
    assert!(frame.renders_header(false));
    assert_eq!(
        frame.handle_drag_event(HeaderDragEvent::DroppedOnTabBar { from_pane: false }),
        DragEventKind::DroppedOnTabBar
    );
    assert!(frame.is_being_dragged);
    assert_eq!(
        frame.handle_drag_event(HeaderDragEvent::PaneDroppedOutsideOfTabBarOrPaneGroup),
        DragEventKind::PaneDragEnded
    );
    assert!(!frame.is_being_dragged);
    assert!(!frame.renders_header(false));
    assert!(frame.closes_children_on_close());
    frame.set_detached_from_pane_group();
    assert!(!frame.closes_children_on_close());
    assert!(should_dim(true, false, true, false));
    assert!(!should_dim(true, false, true, true));
    assert!(should_dim(true, true, false, true));
    assert!(!should_dim(false, true, true, false));
}

#[test]
fn selection_settings_decide_clipboard_use() {
    let settings = SelectionSettings::defaults(true, false);
    assert!(settings.copy_on_select_enabled());
    assert!(settings.linux_selection_clipboard_enabled());
    assert!(!settings.right_click_pastes());
    let plan = settings.copy_on_select_plan(false);
    assert!(plan.write_primary_selection && plan.write_clipboard);
    let plan = settings.copy_on_select_plan(true);
    assert!(!plan.write_primary_selection && !plan.write_clipboard);
    assert_eq!(settings.middle_click_source(true), MiddleClickSource::PrimarySelection);
    assert_eq!(settings.middle_click_source(false), MiddleClickSource::Nothing);
    let mac = SelectionSettings::defaults(false, true);
    assert!(!mac.linux_selection_clipboard_enabled());
    assert_eq!(mac.middle_click_source(false), MiddleClickSource::Clipboard);
    let pasting = SelectionSettings { right_click_behavior: RightClickBehavior::Paste, ..mac };
    assert!(pasting.right_click_pastes());
    assert_eq!(RightClickBehavior::default(), RightClickBehavior::ContextMenu);
    assert_eq!(
        RightClickBehavior::Paste.as_dropdown_label(),
        "settings-features-right-click-behavior-paste"
    );
}

#[test]
fn diff_layout_labels() {
    assert_eq!(DiffLayout::default(), DiffLayout::Inline);
    assert_eq!(DiffLayout::Inline.label(), "Inline");
    assert_eq!(DiffLayout::SideBySide.label(), "Side by side");
    assert!(DiffLayout::SideBySide.is_side_by_side());
    assert!(!DiffLayout::Inline.is_side_by_side());
}

#[test]
fn code_review_editor_load_state() {
    let mut state: CodeReviewEditorState<&str, String> = CodeReviewEditorState::new("editor-1");
    assert!(!state.is_loaded());
    assert!(state.load_error().is_none());
    state.set_load_result(Some("file too large".to_string()));
    assert!(state.is_loaded());
    assert_eq!(state.load_error().map(String::as_str), Some("file too large"));
    assert_eq!(*state.editor(), "editor-1");
    let mut loaded: CodeReviewEditorState<u32, String> = CodeReviewEditorState::new_loaded(7);
    assert!(loaded.is_loaded());
    loaded.set_loaded();
    assert!(loaded.load_error().is_none());
}

fn ready_runtime() -> DshRuntime {
    let mut runtime = DshRuntime::new();
    let generation = runtime.begin_start();
    assert!(runtime.adopt_child("http://127.0.0.1:4000/?token=t".to_string(), generation, 10));
    assert_eq!(runtime.status(), DshRuntimeStatus::Ready);
    assert!(runtime.has_child);
    assert!(!runtime.stop_pending);
    runtime
}

#[test]
fn closing_the_pane_only_arms_the_pending_stop() {
    let mut pane = DshPaneState::new();
    let mut runtime = ready_runtime();
    let effect = pane.detach(DetachType::Closed, 20);
    apply_detach_effect(&mut runtime, effect);
    assert!(runtime.stop_pending);
    assert!(runtime.has_child);
    assert_eq!(runtime.status(), DshRuntimeStatus::Ready);
    // The stop waits while a dsh pane is still reachable, then happens.
    runtime.poll_pending_stop(true);
    assert!(runtime.has_child);
    assert!(runtime.stop_pending);
    runtime.poll_pending_stop(false);
    assert!(!runtime.has_child);
    assert!(!runtime.stop_pending);
    assert_eq!(runtime.status(), DshRuntimeStatus::Stopped);
}

#[test]
fn hiding_or_moving_the_pane_leaves_the_runtime_alone() {
    for detach_type in [DetachType::HiddenForClose, DetachType::Moved] {
        let mut pane = DshPaneState::new();
        let mut runtime = ready_runtime();
        let effect = pane.detach(detach_type, 20);
        apply_detach_effect(&mut runtime, effect);
        assert!(!runtime.stop_pending);
        assert!(runtime.has_child);
        assert_eq!(runtime.status(), DshRuntimeStatus::Ready);
        runtime.poll_pending_stop(false);
        assert!(runtime.has_child);
        assert_eq!(runtime.status(), DshRuntimeStatus::Ready);
    }
}
