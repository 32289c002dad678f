use std::path::PathBuf;

use zap::bridge::{
    handle_zap_ipc, has_pending_events, plan_from_fields, plan_zap_ipc, resolve_path_event,
    BridgeEvent,
    NotificationCategory, PathTarget, PendingEvents, ZapIpcPlan,
};
use zap::dsh_context::WorkspaceDir;
use zap::json::JsonField;

fn switch_project_payload(path: &str, id: u64) -> String {
    format!(
        "zap.switch_project\n{id}\n{{\"path\":{}}}",
        serde_json::to_string(path).unwrap()
    )
}

fn notify_payload(title: &str, body: &str, category: Option<&str>, id: u64) -> String {
    notify_payload_with_session(title, body, category, None, id)
}

fn notify_payload_with_session(
    title: &str,
    body: &str,
    category: Option<&str>,
    session_id: Option<&str>,
    id: u64,
) -> String {
    let mut params = serde_json::Map::new();
    params.insert("title".into(), serde_json::Value::String(title.to_string()));
    params.insert("body".into(), serde_json::Value::String(body.to_string()));
    if let Some(c) = category {
        params.insert("category".into(), serde_json::Value::String(c.to_string()));
    }
    if let Some(s) = session_id {
        params.insert("session_id".into(), serde_json::Value::String(s.to_string()));
    }
    format!(
        "zap.notify\n{id}\n{}",
        serde_json::to_string(&serde_json::Value::Object(params)).unwrap()
    )
}

fn open_file_payload(path: &str, id: u64) -> String {
    format!(
        "zap.open_file\n{id}\n{{\"path\":{}}}",
        serde_json::to_string(path).unwrap()
    )
}

fn open_code_review_payload(path: &str, id: u64) -> String {
    format!(
        "zap.open_code_review\n{id}\n{{\"path\":{}}}",
        serde_json::to_string(path).unwrap()
    )
}

/// Handles one payload against a fresh queue and workspace.
fn handle(payload: &str) -> (Option<BridgeEvent>, PendingEvents, WorkspaceDir) {
    let mut queue = PendingEvents::new();
    let mut workspace = WorkspaceDir::new();
    let event = handle_zap_ipc(&mut queue, &mut workspace, payload);
    (event, queue, workspace)
}

fn handle_event(payload: &str) -> Option<BridgeEvent> {
    handle(payload).0
}

#[test]
fn missing_method_returns_none() {
    assert!(handle_event("").is_none());
    assert!(handle_event("\n1\n{}").is_none());
}

#[test]
fn missing_params_defaults_empty() {
    assert!(handle_event("zap.switch_project\n1\n").is_none());
    assert!(handle_event("zap.notify\n1\n").is_none());
}

#[test]
fn unknown_method_returns_none() {
    assert!(handle_event("zap.nope\n1\n{}").is_none());
}

#[test]
fn switch_project_ok() {
    let (event, queue, workspace) = handle(&switch_project_payload("/", 1));
    let expected = PathBuf::from("/").canonicalize().unwrap();
    match event.unwrap() {
        BridgeEvent::SwitchProject { path } => assert_eq!(PathBuf::from(path), expected),
        other => panic!("expected SwitchProject, got {other:?}"),
    }
    assert_eq!(queue.len(), 1);
    assert!(matches!(queue.get(0), BridgeEvent::SwitchProject { .. }));
    assert_eq!(workspace.workspace_dir().map(PathBuf::from), Some(expected));
}

#[test]
fn switch_project_nonexistent_path_rejected() {
    let (event, queue, workspace) = handle(&switch_project_payload("/zap-switch-missing-7f3a9c", 1));
    assert!(event.is_none());
    assert!(!has_pending_events(&queue));
    assert_eq!(workspace.workspace_dir(), None);
}

#[test]
fn switch_project_file_path_rejected() {
    let (event, queue, _) = handle(&switch_project_payload("/bin/sh", 1));
    assert!(event.is_none());
    assert_eq!(queue.len(), 0);
}

#[test]
fn notify_ok() {
    let (event, queue, _) = handle(&notify_payload("Task done", "Completed", None, 1));
    match event.unwrap() {
        BridgeEvent::Notify {
            title,
            body,
            category,
            session_id,
        } => {
            assert_eq!(title, "Task done");
            assert_eq!(body, "Completed");
            assert_eq!(category, NotificationCategory::Complete);
            assert_eq!(session_id, None);
        }
        other => panic!("expected Notify, got {other:?}"),
    }
    assert_eq!(queue.len(), 1);
    assert!(matches!(queue.get(0), BridgeEvent::Notify { .. }));
}

#[test]
fn notify_empty_title_rejected() {
    let (event, queue, _) = handle(&notify_payload("", "body", None, 1));
    assert!(event.is_none());
    assert_eq!(queue.len(), 0);
}

#[test]
fn notify_category_mapping() {
    match handle_event(&notify_payload("E", "b", Some("error"), 1)).unwrap() {
        BridgeEvent::Notify { category, .. } => {
            assert_eq!(category, NotificationCategory::Error);
        }
        other => panic!("expected Notify, got {other:?}"),
    }
    match handle_event(&notify_payload("C", "b", Some("confirm"), 1)).unwrap() {
        BridgeEvent::Notify { category, .. } => {
            assert_eq!(category, NotificationCategory::Request);
        }
        other => panic!("expected Notify, got {other:?}"),
    }
    match handle_event(&notify_payload("O", "b", Some("other"), 1)).unwrap() {
        BridgeEvent::Notify { category, .. } => {
            assert_eq!(category, NotificationCategory::Complete);
        }
        other => panic!("expected Notify, got {other:?}"),
    }
}

#[test]
fn notify_session_id_passthrough() {
    match handle_event(&notify_payload_with_session("T", "b", None, Some("sess-1"), 1)).unwrap() {
        BridgeEvent::Notify { session_id, .. } => {
            assert_eq!(session_id.as_deref(), Some("sess-1"));
        }
        other => panic!("expected Notify, got {other:?}"),
    }
    match handle_event(&notify_payload_with_session("T", "b", None, Some(""), 1)).unwrap() {
        BridgeEvent::Notify { session_id, .. } => {
            assert_eq!(session_id, None);
        }
        other => panic!("expected Notify, got {other:?}"),
    }
}

#[test]
fn malformed_params_returns_none() {
    let (event, queue, _) = handle("zap.switch_project\n1\n{not json");
    assert!(event.is_none());
    assert_eq!(queue.len(), 0);
    assert!(handle_event("zap.notify\n1\n{not json").is_none());
}

#[test]
fn switch_project_non_string_path_rejected() {
    let (event, queue, _) = handle("zap.switch_project\n1\n{\"path\":123}");
    assert!(event.is_none());
    assert_eq!(queue.len(), 0);
}

#[test]
fn open_file_ok() {
    let (event, queue, workspace) = handle(&open_file_payload("/bin/sh", 1));
    match event.unwrap() {
        BridgeEvent::OpenFile { path } => {
            assert_eq!(
                PathBuf::from(path),
                PathBuf::from("/bin/sh").canonicalize().unwrap()
            );
        }
        other => panic!("expected OpenFile, got {other:?}"),
    }
    assert_eq!(queue.len(), 1);
    assert!(matches!(queue.get(0), BridgeEvent::OpenFile { .. }));
    assert_eq!(workspace.workspace_dir(), None);
}

#[test]
fn open_file_directory_ok() {
    match handle_event(&open_file_payload("/", 1)).unwrap() {
        BridgeEvent::OpenFile { path } => {
            assert_eq!(PathBuf::from(path), PathBuf::from("/").canonicalize().unwrap());
        }
        other => panic!("expected OpenFile, got {other:?}"),
    }
}

#[test]
fn open_file_nonexistent_path_rejected() {
    let (event, queue, _) = handle(&open_file_payload("/zap-openfile-missing-7f3a9c", 1));
    assert!(event.is_none());
    assert_eq!(queue.len(), 0);
}

#[test]
fn open_file_malformed_params_rejected() {
    assert!(handle_event("zap.open_file\n1\n").is_none());
    assert!(handle_event("zap.open_file\n1\n{}").is_none());
    assert!(handle_event("zap.open_file\n1\n{\"path\":123}").is_none());
}

#[test]
fn open_code_review_absolute_path_ok() {
    let path = "/tmp/zap-open-code-review-missing.rs";
    match handle_event(&open_code_review_payload(path, 1)).unwrap() {
        BridgeEvent::OpenCodeReview { path: got } => {
            assert_eq!(got.map(PathBuf::from), Some(PathBuf::from(path)));
        }
        other => panic!("expected OpenCodeReview, got {other:?}"),
    }
}

#[test]
fn open_code_review_without_path_ok() {
    for payload in ["zap.open_code_review\n1\n{}", "zap.open_code_review\n1\n"] {
        match handle_event(payload).unwrap() {
            BridgeEvent::OpenCodeReview { path } => assert_eq!(path, None),
            other => panic!("expected OpenCodeReview, got {other:?}"),
        }
    }
}

#[test]
fn open_code_review_relative_path_rejected() {
    let (event, queue, _) = handle(&open_code_review_payload("src/main.rs", 1));
    assert!(event.is_none());
    assert_eq!(queue.len(), 0);
}

#[test]
fn open_code_review_malformed_params_rejected() {
    let (event, queue, _) = handle("zap.open_code_review\n1\n{\"path\":123}");
    assert!(event.is_none());
    assert_eq!(queue.len(), 0);
}

#[test]
fn plan_names_the_path_to_resolve() {
    match plan_zap_ipc(&switch_project_payload("/some/where", 3)) {
        ZapIpcPlan::Resolve { target, raw } => {
            assert_eq!(target, PathTarget::SwitchProject);
            assert_eq!(raw, "/some/where");
        }
        _ => panic!("expected Resolve"),
    }
    assert!(matches!(plan_zap_ipc("zap.nope\n1\n{}"), ZapIpcPlan::Ignore));
}

#[test]
fn resolved_paths_become_events_of_their_kind() {
    assert!(resolve_path_event(PathTarget::SwitchProject, None, true).is_none());
    assert!(resolve_path_event(PathTarget::SwitchProject, Some("/f".into()), false).is_none());
    assert!(matches!(
        resolve_path_event(PathTarget::OpenFileExplorer, Some("/d".into()), true),
        Some(BridgeEvent::OpenFileExplorer { .. })
    ));
    match resolve_path_event(PathTarget::OpenFile, Some(PathBuf::from("/f")), false) {
        Some(BridgeEvent::OpenFile { path }) => assert_eq!(path, PathBuf::from("/f")),
        other => panic!("expected OpenFile, got {other:?}"),
    }
    match resolve_path_event(PathTarget::SwitchProject, Some(PathBuf::from("/d")), true) {
        Some(BridgeEvent::SwitchProject { path }) => assert_eq!(path, PathBuf::from("/d")),
        other => panic!("expected SwitchProject, got {other:?}"),
    }
}

#[test]
fn draining_empties_the_queue_in_order() {
    let mut queue = PendingEvents::new();
    let mut workspace = WorkspaceDir::new();
    handle_zap_ipc(&mut queue, &mut workspace, &notify_payload("a", "b", None, 1));
    handle_zap_ipc(&mut queue, &mut workspace, "zap.open_code_review\n2\n{}");
    assert!(has_pending_events(&queue));
    let events = queue.drain();
    assert_eq!(events.len(), 2);
    assert!(matches!(events[0], BridgeEvent::Notify { .. }));
    assert!(matches!(events[1], BridgeEvent::OpenCodeReview { .. }));
    assert!(!has_pending_events(&queue));
}

fn chars(s: &str) -> Vec<char> {
    s.chars().collect()
}

#[test]
fn plan_from_fields_builds_notifications() {
    let plan = plan_from_fields(
        &chars("zap.notify"),
        JsonField::Missing,
        JsonField::Str("Done".to_string()),
        JsonField::Str("all green".to_string()),
        JsonField::Str("error".to_string()),
        JsonField::Str("s-1".to_string()),
    );
    match plan {
        ZapIpcPlan::Emit(BridgeEvent::Notify { title, body, category, session_id }) => {
            assert_eq!(title, "Done");
            assert_eq!(body, "all green");
            assert_eq!(category, NotificationCategory::Error);
            assert_eq!(session_id, Some("s-1".to_string()));
        }
        other => panic!("unexpected plan {other:?}"),
    }
    let plan = plan_from_fields(
        &chars("zap.notify"),
        JsonField::Missing,
        JsonField::Str("Ask".to_string()),
        JsonField::Bool(true),
        JsonField::Str("confirm".to_string()),
        JsonField::Str(String::new()),
    );
    match plan {
        ZapIpcPlan::Emit(BridgeEvent::Notify { title, body, category, session_id }) => {
            assert_eq!(title, "Ask");
            assert_eq!(body, "");
            assert_eq!(category, NotificationCategory::Request);
            assert_eq!(session_id, None);
        }
        other => panic!("unexpected plan {other:?}"),
    }
    let untitled = plan_from_fields(
        &chars("zap.notify"),
        JsonField::Missing,
        JsonField::Null,
        JsonField::Str("b".to_string()),
        JsonField::Missing,
        JsonField::Missing,
    );
    assert!(matches!(untitled, ZapIpcPlan::Ignore));
}

#[test]
fn plan_from_fields_paths_and_reviews() {
    match plan_from_fields(
        &chars("zap.open_file"),
        JsonField::Str("rel/file.rs".to_string()),
        JsonField::Missing,
        JsonField::Missing,
        JsonField::Missing,
        JsonField::Missing,
    ) {
        ZapIpcPlan::Resolve { target, raw } => {
            assert_eq!(target, PathTarget::OpenFile);
            assert_eq!(raw, "rel/file.rs");
        }
        other => panic!("unexpected plan {other:?}"),
    }
    assert!(matches!(
        plan_from_fields(
            &chars("zap.switch_project"),
            JsonField::Bool(false),
            JsonField::Missing,
            JsonField::Missing,
            JsonField::Missing,
            JsonField::Missing,
        ),
        ZapIpcPlan::Ignore
    ));
    assert!(matches!(
        plan_from_fields(
            &chars("zap.open_code_review"),
            JsonField::Null,
            JsonField::Missing,
            JsonField::Missing,
            JsonField::Missing,
            JsonField::Missing,
        ),
        ZapIpcPlan::Emit(BridgeEvent::OpenCodeReview { path: None })
    ));
    match plan_from_fields(
        &chars("zap.open_code_review"),
        JsonField::Str("/repo/a.rs".to_string()),
        JsonField::Missing,
        JsonField::Missing,
        JsonField::Missing,
        JsonField::Missing,
    ) {
        ZapIpcPlan::Emit(BridgeEvent::OpenCodeReview { path: Some(p) }) => assert_eq!(p, "/repo/a.rs"),
        other => panic!("unexpected plan {other:?}"),
    }
    assert!(matches!(
        plan_from_fields(
            &chars("zap.open_code_review"),
            JsonField::Str("a.rs".to_string()),
            JsonField::Missing,
            JsonField::Missing,
            JsonField::Missing,
            JsonField::Missing,
        ),
        ZapIpcPlan::Ignore
    ));
    assert!(matches!(
        plan_from_fields(
            &chars("zap.other"),
            JsonField::Str("/x".to_string()),
            JsonField::Str("t".to_string()),
            JsonField::Missing,
            JsonField::Missing,
            JsonField::Missing,
        ),
        ZapIpcPlan::Ignore
    ));
}
