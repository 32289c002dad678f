use zap::bridge::{BridgeEvent, PendingEvents};
use zap::dsh_context::WorkspaceDir;
use zap::loopback::{
    extract_token_and_message, handle_webview_ipc, normalize_zap_payload, shim_script,
    token_matches, SessionToken, WebviewIpcResponse, MAX_BODY_BYTES, SESSION_TOKEN_LEN,
};

#[test]
fn token_matches_only_accepts_exact_session_token() {
    let session = SessionToken::generate();
    let token = session.as_str();
    assert!(token_matches(token, token));
    assert!(session.matches(token));

    let mut tampered = token.to_string();
    tampered.push('x');
    assert!(!token_matches(token, &tampered));

    let mut flipped = token.to_string();
    let first = flipped.remove(0);
    flipped.insert(0, if first == 'a' { 'b' } else { 'a' });
    assert!(!token_matches(token, &flipped));

    assert!(!token_matches(token, ""));
}

#[test]
fn session_token_is_random_alphanumeric() {
    let session = SessionToken::generate();
    let token = session.as_str();
    assert_eq!(token.len(), 32);
    assert_eq!(SESSION_TOKEN_LEN, 32);
    assert!(token.chars().all(|c| c.is_ascii_alphanumeric()));
    assert_eq!(token, session.as_str());
    let other = SessionToken::generate();
    assert_ne!(token, other.as_str());
}

#[test]
fn shim_script_installs_ipc_bridge_with_token() {
    let session = SessionToken::generate();
    let script = shim_script(session.as_str());
    assert!(script.contains("window.webkit.messageHandlers.ipc"));
    assert!(script.contains("postMessage: post"));
    assert!(script.contains(&format!("const TOKEN = '{}'", session.as_str())));
    assert!(script.contains("JSON.stringify({ token: TOKEN, message: text })"));
    assert!(!script.contains("x-zap-webview-token"));
    assert!(!script.contains("?token="));
    assert!(script.contains("mode: 'no-cors'"));
    assert!(script.contains("http://127.0.0.1:9277/webview-ipc"));
    assert!(script.contains("__ZAP_LOOPBACK_IPC__"));
    assert!(!script.contains('\'') || !script.contains("token='"));
}

#[test]
fn envelope_carries_token_and_preserves_message() {
    let session = SessionToken::generate();
    let payload = "zap.switch_project\n7\n{\"path\":\"/tmp\"}";
    let envelope = Some((session.as_str().to_string(), payload.to_string()));
    let (token, message) = extract_token_and_message(envelope, "ignored body", None, None);
    assert_eq!(token.as_deref(), Some(session.as_str()));
    assert_eq!(message, payload);
}

#[test]
fn envelope_is_the_authoritative_token_source() {
    let session = SessionToken::generate();
    let payload = "zap.notify\n1\n{}";
    let envelope = Some((session.as_str().to_string(), payload.to_string()));

    let (token, message) =
        extract_token_and_message(envelope, "ignored body", Some("query-token"), None);
    assert_eq!(token.as_deref(), Some(session.as_str()));
    assert_eq!(message, payload);
    assert!(token.as_deref().map(|t| session.matches(t)).unwrap_or(false));

    let (token, message) = extract_token_and_message(None, payload, None, None);
    assert_eq!(token, None);
    assert_eq!(message, payload);
    assert!(!token.as_deref().map(|t| session.matches(t)).unwrap_or(false));

    let (token, _) = extract_token_and_message(None, payload, Some(session.as_str()), None);
    assert!(token.as_deref().map(|t| session.matches(t)).unwrap_or(false));

    let (token, _) = extract_token_and_message(None, payload, None, Some("header-token"));
    assert_eq!(token.as_deref(), Some("header-token"));
    let (token, _) = extract_token_and_message(None, payload, Some("q"), Some("h"));
    assert_eq!(token.as_deref(), Some("q"));
}

#[test]
fn client_prefix_is_stripped_before_bridge() {
    let wire = "zap:zap.switch_project\n7\n{\"path\":\"/tmp\"}";
    let payload = normalize_zap_payload(wire);
    assert_eq!(payload, "zap.switch_project\n7\n{\"path\":\"/tmp\"}");
    assert_eq!(payload.splitn(3, '\n').next(), Some("zap.switch_project"));
    assert_eq!(normalize_zap_payload("zap.notify\n1\n{}"), "zap.notify\n1\n{}");
}

#[test]
fn payload_format_matches_bridge_parser() {
    let payload = "zap.switch_project\n7\n{\"path\":\"/tmp\"}";
    let mut parts = payload.splitn(3, '\n');
    assert_eq!(parts.next(), Some("zap.switch_project"));
    assert_eq!(parts.next(), Some("7"));
    assert_eq!(parts.next(), Some("{\"path\":\"/tmp\"}"));
}

#[test]
fn body_limit_is_bounded() {
    assert_eq!(MAX_BODY_BYTES, 64 * 1024);
}

#[test]
fn requests_without_the_token_are_forbidden() {
    let session = SessionToken::generate();
    let mut queue = PendingEvents::new();
    let mut workspace = WorkspaceDir::new();
    let r = handle_webview_ipc(&session, &mut queue, &mut workspace, None, "zap.notify\n1\n{\"title\":\"t\"}");
    assert!(matches!(r, WebviewIpcResponse::Forbidden));
    let r = handle_webview_ipc(
        &session,
        &mut queue,
        &mut workspace,
        Some("wrong".to_string()),
        "zap.notify\n1\n{\"title\":\"t\"}",
    );
    assert!(matches!(r, WebviewIpcResponse::Forbidden));
    assert_eq!(queue.len(), 0);
}

#[test]
fn authorized_requests_open_links_or_reach_the_bridge() {
    let session = SessionToken::generate();
    let token = session.as_str().to_string();
    let mut queue = PendingEvents::new();
    let mut workspace = WorkspaceDir::new();
    match handle_webview_ipc(
        &session,
        &mut queue,
        &mut workspace,
        Some(token.clone()),
        "warp:open-external: https://example.com/a ",
    ) {
        WebviewIpcResponse::OpenExternal { url } => assert_eq!(url, "https://example.com/a"),
        other => panic!("expected OpenExternal, got {other:?}"),
    }
    assert_eq!(queue.len(), 0);
    match handle_webview_ipc(
        &session,
        &mut queue,
        &mut workspace,
        Some(token),
        "zap:zap.notify\n1\n{\"title\":\"t\",\"body\":\"b\"}",
    ) {
        WebviewIpcResponse::Bridged { event: Some(BridgeEvent::Notify { title, .. }) } => {
            assert_eq!(title, "t")
        }
        other => panic!("expected a bridged notification, got {other:?}"),
    }
    assert_eq!(queue.len(), 1);
}
