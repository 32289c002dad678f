use zap::agent_providers::{preset_extra_headers, substitute_session_id, SESSION_ID_PLACEHOLDER};
use zap::harness::{
    pty_line, resumed_prompt, validate_cli_installed, AgentDriverError, OhMyPiHarnessRunner,
    OMP_CANCEL_MESSAGE,
};

#[test]
fn substitute_session_id_replaces_all_occurrences() {
    let headers = vec![
        (
            "x-opencode-session".to_owned(),
            SESSION_ID_PLACEHOLDER.to_owned(),
        ),
        ("x-prefixed".to_owned(), "zap-{{session_id}}-a".to_owned()),
        ("x-static".to_owned(), "static-value".to_owned()),
    ];
    assert_eq!(
        substitute_session_id(headers, "conv-1"),
        vec![
            ("x-opencode-session".to_owned(), "conv-1".to_owned()),
            ("x-prefixed".to_owned(), "zap-conv-1-a".to_owned()),
            ("x-static".to_owned(), "static-value".to_owned()),
        ]
    );
}

#[test]
fn substitute_session_id_keeps_header_name_untouched() {
    let headers = vec![("{{session_id}}".to_owned(), "{{session_id}}".to_owned())];
    assert_eq!(
        substitute_session_id(headers, "conv-1"),
        vec![("{{session_id}}".to_owned(), "conv-1".to_owned())]
    );
}

#[test]
fn substitute_session_id_handles_repeated_and_adjacent_placeholders() {
    let headers = vec![(
        "x-twice".to_owned(),
        "{{session_id}}{{session_id}}/{{session_id".to_owned(),
    )];
    assert_eq!(
        substitute_session_id(headers, "s"),
        vec![("x-twice".to_owned(), "ss/{{session_id".to_owned())]
    );
    assert!(substitute_session_id(Vec::new(), "s").is_empty());
}

#[test]
fn preset_extra_headers_seeds_opencode_gateways_only() {
    let expected = vec![(
        "x-opencode-session".to_owned(),
        SESSION_ID_PLACEHOLDER.to_owned(),
    )];
    assert_eq!(preset_extra_headers("opencode"), expected);
    assert_eq!(preset_extra_headers("opencode-go"), expected);
    assert!(preset_extra_headers("deepseek").is_empty());
    assert!(preset_extra_headers("").is_empty());
}

#[test]
fn test_validate_cli_installed_accepts_known_binary() {
    assert!(validate_cli_installed("env", None, true).is_ok());
}

#[test]
fn test_validate_cli_installed_reports_missing_binary() {
    let probe = "zap-cli-probe-1f2e";
    let err = validate_cli_installed(probe, Some("https://example.com/install"), false)
        .expect_err("a missing CLI is a setup failure");
    match err {
        AgentDriverError::HarnessSetupFailed { harness, reason } => {
            assert_eq!(harness, probe);
            assert!(reason.contains(probe));
            assert!(reason.contains("https://example.com/install"));
            assert_eq!(
                reason,
                "'zap-cli-probe-1f2e' CLI not found on your machine. Install it first: https://example.com/install"
            );
        }
    }
}

#[test]
fn missing_cli_without_install_link_names_only_the_cli() {
    let err = validate_cli_installed("omp", None, false).unwrap_err();
    assert_eq!(
        err,
        AgentDriverError::HarnessSetupFailed {
            harness: "omp".to_string(),
            reason: "'omp' CLI not found on your machine.".to_string(),
        }
    );
}

#[test]
fn omp_runner_sends_rpc_command_and_user_message() {
    let runner = OhMyPiHarnessRunner::new("omp", "fix \"it\"\nnow");
    assert_eq!(runner.command, "omp --mode=rpc");
    assert_eq!(
        runner.prompt_ndjson,
        r#"{"content":"fix \"it\"\nnow","type":"user_message"}"#
    );
    let value: serde_json::Value = serde_json::from_str(&runner.prompt_ndjson).unwrap();
    assert_eq!(value["type"], "user_message");
    assert_eq!(value["content"], "fix \"it\"\nnow");
    assert_eq!(pty_line(OMP_CANCEL_MESSAGE), "{\"type\":\"cancel\",\"reason\":\"user_exit\"}\n");
}

#[test]
fn resumption_preamble_goes_first() {
    assert_eq!(resumed_prompt("do it", Some("earlier")), "earlier\n\ndo it");
    assert_eq!(resumed_prompt("do it", Some("")), "do it");
    assert_eq!(resumed_prompt("do it", None), "do it");
}

#[test]
fn omp_runner_escapes_control_characters() {
    let runner = OhMyPiHarnessRunner::new("omp", "a\u{1}\u{1f}\t/\\b");
    assert_eq!(
        runner.prompt_ndjson,
        r#"{"content":"a\u0001\u001f\t/\\b","type":"user_message"}"#
    );
    let value: serde_json::Value = serde_json::from_str(&runner.prompt_ndjson).unwrap();
    assert_eq!(value["content"], "a\u{1}\u{1f}\t/\\b");
}
