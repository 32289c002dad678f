use std::path::PathBuf;

use zap::dsh_env::{patched_cordis, BRIDGE_CLIENT_PATCH_ENTRY};
use zap::dsh_logs::{
    probe_means_ready, startup_exit_error, startup_wait_step, web_log_name, StartupWaitAction,
    STARTUP_TIMEOUT_MS,
};
use zap::dsh_context::terminal_context_enabled_from_settings;
use zap::dsh_context::{TerminalContext, WorkspaceDir, TERMINAL_CONTEXT_MAX};
use zap::dsh_env::{is_configured_from, path_candidates};
use zap::dsh_logs::{
    crash_failure_reason_from, extract_fatal_error, is_web_log_name, latest_web_log,
    parse_ready_url, stale_web_logs, WebLogEntry, DSH_WEB_LOG_KEEP, DSH_WEB_LOG_PREFIX,
};
use zap::dsh_update::{
    channel_updates, channels_snapshot, dsh_channel_enabled, installed_version_from_output,
    is_update_available, parse_dist_tags, update_channels, update_check, upgrade_command,
    DshChannelsSnapshot, DshUpdateCheck,
};
use zap::pid_record::{orphan_group_from_record, pid_record_field, pid_record_text};
use zap::runtime::{
    DshRuntime, DshRuntimeStatus, PollResult, CRASH_COUNT_RESET_AFTER_MS, MAX_RESTARTS,
};

#[test]
fn parses_ready_url_from_log_text() {
    let sample = "noise before\n\
                  [some-plugin] page http://127.0.0.1:3080/qr\n\
                  dsh web: http://127.0.0.1:64536/?token=hkVHyTzitwrF-wWC7NpO00F7u\n\
                  trailing line\n";
    assert_eq!(
        parse_ready_url(sample).as_deref(),
        Some("http://127.0.0.1:64536/?token=hkVHyTzitwrF-wWC7NpO00F7u")
    );
    assert_eq!(parse_ready_url("some-plugin page http://127.0.0.1:3080/qr"), None);
    assert_eq!(parse_ready_url("no url here"), None);
}

#[test]
fn update_available_comparison() {
    assert!(is_update_available("0.1.3", "0.1.2-rc.1"));
    assert!(is_update_available("0.1.2", "0.1.2-rc.1"));
    assert!(!is_update_available("0.1.2-rc.1", "0.1.2-rc.1"));
    assert!(!is_update_available("0.1.2-rc.1", "0.1.2"));
    assert!(!is_update_available("0.1.1", "0.1.2-rc.1"));
    assert!(!is_update_available("not-semver", "0.1.2"));
    assert!(!is_update_available("0.1.2", "not-semver"));
}

#[test]
fn channel_updates_filtering() {
    let tags = vec![
        ("latest", "0.1.5-rc.1".to_string()),
        ("next", "0.1.5-rc.2".to_string()),
        ("alpha", "0.1.6-alpha.1".to_string()),
    ];
    let got = channel_updates("0.1.4", &tags);
    assert_eq!(
        got,
        vec![
            ("latest", "0.1.5-rc.1".to_string()),
            ("next", "0.1.5-rc.2".to_string()),
            ("alpha", "0.1.6-alpha.1".to_string()),
        ]
    );
    let got = channel_updates("0.1.5-rc.1", &tags);
    assert_eq!(
        got,
        vec![
            ("next", "0.1.5-rc.2".to_string()),
            ("alpha", "0.1.6-alpha.1".to_string()),
        ]
    );
    assert!(channel_updates("0.1.6-alpha.1", &tags).is_empty());
}

#[test]
fn channel_updates_ignore_unknown_channels() {
    let tags = vec![("beta", "9.9.9".to_string()), ("latest", "1.0.0".to_string())];
    assert_eq!(
        channel_updates("0.1.0", &tags),
        vec![("latest", "1.0.0".to_string())]
    );
    assert_eq!(update_channels(), vec!["latest", "next", "alpha"]);
}

#[test]
fn update_check_reports_channels_ahead_of_the_installed_version() {
    let snapshot = DshChannelsSnapshot {
        installed: Some("0.1.4".to_string()),
        channels: vec![("latest", "0.1.5".to_string()), ("next", "0.1.4".to_string())],
    };
    match update_check(snapshot) {
        DshUpdateCheck::UpdateAvailable { installed, available } => {
            assert_eq!(installed, "0.1.4");
            assert_eq!(available, vec![("latest", "0.1.5".to_string())]);
        }
        other => panic!("expected an update, got {other:?}"),
    }
    assert!(matches!(
        update_check(DshChannelsSnapshot::default()),
        DshUpdateCheck::UpToDate
    ));
    let current = DshChannelsSnapshot {
        installed: Some("0.1.5".to_string()),
        channels: vec![("latest", "0.1.5".to_string())],
    };
    assert!(matches!(update_check(current), DshUpdateCheck::UpToDate));
}

#[test]
fn dist_tags_and_channel_switches_are_read_from_json() {
    let body = r#"{"latest":"0.2.0","next":"0.3.0-rc.1","beta":"9.0.0","alpha":7}"#;
    assert_eq!(
        parse_dist_tags(body),
        vec![("latest", "0.2.0".to_string()), ("next", "0.3.0-rc.1".to_string())]
    );
    assert!(parse_dist_tags("not json").is_empty());

    let settings = r#"{"dsh_update_channels":{"next":false,"alpha":true}}"#;
    assert!(dsh_channel_enabled(Some(settings), "latest"));
    assert!(!dsh_channel_enabled(Some(settings), "next"));
    assert!(dsh_channel_enabled(Some(settings), "alpha"));
    assert!(dsh_channel_enabled(None, "next"));
    assert!(dsh_channel_enabled(Some("{broken"), "next"));

    let snapshot = channels_snapshot(
        Some("0.1.0".to_string()),
        parse_dist_tags(body),
        Some(settings),
    );
    assert_eq!(snapshot.installed.as_deref(), Some("0.1.0"));
    assert_eq!(snapshot.channels, vec![("latest", "0.2.0".to_string())]);
}

#[test]
fn installed_version_is_the_trimmed_output() {
    assert_eq!(installed_version_from_output(b"  0.1.4\n"), "0.1.4");
    assert_eq!(installed_version_from_output(b""), "");
}

#[test]
fn upgrade_commands_name_the_preview_tag() {
    assert_eq!(upgrade_command("latest"), "npm install -g @deepseek-ai/dsh");
    assert_eq!(upgrade_command("next"), "npm install -g @deepseek-ai/dsh@next");
}

#[test]
fn workspace_dir_set_and_get() {
    let mut workspace = WorkspaceDir::new();
    assert!(workspace.workspace_dir().is_none(), "default should be None");
    workspace.set_workspace_dir(PathBuf::from("/tmp/zap-foo"));
    assert_eq!(workspace.workspace_dir(), Some(PathBuf::from("/tmp/zap-foo")));
}

#[test]
fn poll_pending_stop_respects_live_pane() {
    let mut runtime = DshRuntime::new();

    runtime.set_status(DshRuntimeStatus::Ready);
    runtime.poll_pending_stop(false);
    assert_eq!(runtime.status(), DshRuntimeStatus::Ready);
    assert!(!runtime.stop_pending);

    runtime.mark_stop_pending();
    assert!(runtime.stop_pending);
    runtime.poll_pending_stop(true);
    assert!(runtime.stop_pending);
    assert_eq!(runtime.status(), DshRuntimeStatus::Ready);

    runtime.poll_pending_stop(false);
    assert!(!runtime.stop_pending);
    assert_eq!(runtime.status(), DshRuntimeStatus::Stopped);
}

#[test]
fn stop_if_no_dsh_pane_waits_for_restorable_windows() {
    let mut runtime = DshRuntime::new();
    runtime.set_status(DshRuntimeStatus::Ready);
    runtime.stop_if_no_dsh_pane(false, true);
    assert!(runtime.stop_pending);
    assert_eq!(runtime.status(), DshRuntimeStatus::Ready);
    runtime.stop_if_no_dsh_pane(false, false);
    assert!(!runtime.stop_pending);
    assert_eq!(runtime.status(), DshRuntimeStatus::Stopped);
}

#[test]
fn begin_start_clears_pending_stop() {
    let mut runtime = DshRuntime::new();
    runtime.mark_stop_pending();
    runtime.begin_start();
    assert!(!runtime.stop_pending);
    assert_eq!(runtime.status(), DshRuntimeStatus::Starting);
}

#[test]
fn request_stop_clears_pending_stop() {
    let mut runtime = DshRuntime::new();
    runtime.mark_stop_pending();
    runtime.request_stop();
    assert!(!runtime.stop_pending);
    assert_eq!(runtime.status(), DshRuntimeStatus::Stopped);
}

#[test]
fn terminal_context_privacy_gate() {
    let mut ctx = TerminalContext::new();
    ctx.set_enabled(false);
    ctx.stage_history(Some(&vec!["cd src".to_string(), "ls".to_string()]));
    assert!(ctx.terminal_context().is_empty(), "privacy off => empty");

    ctx.set_enabled(true);
    assert_eq!(
        ctx.terminal_context(),
        vec!["ls".to_string(), "cd src".to_string()],
        "privacy on => returns staged commands"
    );
}

#[test]
fn terminal_context_keeps_newest_commands_and_throttles() {
    let mut ctx = TerminalContext::new();
    assert!(!ctx.begin_refresh(false, 0));
    assert!(ctx.begin_refresh(true, 5_000));
    assert!(!ctx.begin_refresh(true, 5_500));
    assert!(ctx.begin_refresh(true, 6_000));
    let history: Vec<String> = (0..30).map(|i| format!("cmd{i}")).collect();
    ctx.stage_history(Some(&history));
    let staged = ctx.terminal_context();
    assert_eq!(staged.len(), TERMINAL_CONTEXT_MAX);
    assert_eq!(staged[0], "cmd29");
    assert_eq!(staged[TERMINAL_CONTEXT_MAX - 1], "cmd10");
    ctx.stage_history(None);
    assert!(ctx.terminal_context().is_empty());
}

#[test]
fn poll_child_detects_exit() {
    let mut runtime = DshRuntime::new();
    let gen = runtime.begin_start();
    assert!(runtime.adopt_child("http://127.0.0.1:1".to_string(), gen, 1_000));
    assert_eq!(runtime.status(), DshRuntimeStatus::Ready);
    assert_eq!(runtime.poll_child(false, 1_500), PollResult::Running);
    assert_eq!(runtime.poll_child(true, 2_000), PollResult::Crashed);
    assert_eq!(runtime.consecutive_crashes, 1);
    assert_eq!(runtime.status(), DshRuntimeStatus::Stopped);
}

#[test]
fn poll_child_stopped_by_request() {
    let mut runtime = DshRuntime::new();
    let gen = runtime.begin_start();
    assert!(runtime.adopt_child("http://127.0.0.1:1".to_string(), gen, 0));
    runtime.stopping = true;
    assert_eq!(runtime.poll_child(true, 10), PollResult::StoppedByRequest);
    assert_eq!(runtime.status(), DshRuntimeStatus::Ready);
    assert_eq!(runtime.consecutive_crashes, 0);
}

#[test]
fn adopt_child_after_stop_kills_child() {
    let mut runtime = DshRuntime::new();
    let gen = runtime.begin_start();
    runtime.request_stop();
    assert!(!runtime.adopt_child("http://127.0.0.1:1".to_string(), gen, 0));
    assert!(!runtime.has_child);
    assert_eq!(runtime.status(), DshRuntimeStatus::Stopped);
}

#[test]
fn stale_generation_is_not_adopted() {
    let mut runtime = DshRuntime::new();
    let first = runtime.begin_start();
    let second = runtime.begin_restart();
    assert!(second > first);
    assert!(!runtime.adopt_child("http://127.0.0.1:1".to_string(), first, 0));
    assert!(runtime.adopt_child("http://127.0.0.1:2".to_string(), second, 0));
    assert_eq!(runtime.url(), Some("http://127.0.0.1:2"));
}

#[test]
fn failed_error_is_stored_and_cleared() {
    let mut runtime = DshRuntime::new();
    assert!(runtime.error().is_none());

    runtime.set_failed("dsh command not found in PATH".to_string());
    assert_eq!(runtime.status(), DshRuntimeStatus::Failed);
    assert_eq!(runtime.error(), Some("dsh command not found in PATH"));

    runtime.begin_start();
    assert!(runtime.error().is_none(), "begin_start clears stale error");

    runtime.set_failed("dsh web did not become ready".to_string());
    runtime.request_stop();
    assert!(runtime.error().is_none(), "request_stop clears error");
}

#[test]
fn extract_fatal_error_takes_first_error_line() {
    let sample = "[dsh-wechat] session/event listener attached\n\
                  [opencode-session-id] mounted: providers=[opencode]\n\
                  throw new Error(`${binName}: ${stage}: ${detail}`)\n\
                  \n\
                  Error: dsh: plugin tree failed to load: failed to import dsh-rewind-plugin\n\
                  \x20   at #asyncInstantiate (node:internal/modules/esm/module_job:455:21)\n\
                  SyntaxError: The requested module '@deepseek-ai/dsh-session' does not provide ...\n";
    assert_eq!(
        extract_fatal_error(sample).as_deref(),
        Some("Error: dsh: plugin tree failed to load: failed to import dsh-rewind-plugin")
    );
    assert_eq!(
        extract_fatal_error("dsh web: http://127.0.0.1:8080/?token=abc\n"),
        None
    );
}

#[test]
fn crash_failure_reason_prefers_log_error_line() {
    let log_path = "/tmp/zap-dsh-web.log";
    assert_eq!(
        crash_failure_reason_from(log_path, "[plugin] ok\nError: boom\n"),
        "dsh web crashed repeatedly: Error: boom"
    );
    assert_eq!(
        crash_failure_reason_from(log_path, "[plugin] ok\n"),
        "dsh web crashed repeatedly; no error line in /tmp/zap-dsh-web.log"
    );
}

#[test]
fn orphan_group_decision_from_pid_record() {
    let own = 4242;
    let dead = i32::MAX - 1;
    assert_eq!(
        orphan_group_from_record(&format!("zap_pid={dead}\npgid=4321\nstarted_at=1\n"), own),
        Some((dead, 4321))
    );
    assert_eq!(
        orphan_group_from_record("zap_pid=4242\npgid=4321\nstarted_at=1\n", own),
        None
    );
    assert_eq!(orphan_group_from_record("69209", own), None);
    assert_eq!(orphan_group_from_record("zap_pid=1\n", own), None);
    assert_eq!(orphan_group_from_record("zap_pid=1\npgid=0\n", own), None);
    assert_eq!(orphan_group_from_record("zap_pid=1\npgid=not-a-pid\n", own), None);
}

#[test]
fn pid_record_round_trips() {
    let text = pid_record_text(1234, 5678, 1_700_000_000);
    assert_eq!(text, "zap_pid=1234\npgid=5678\nstarted_at=1700000000\n");
    assert_eq!(pid_record_field(&text, "zap_pid"), Some(1234));
    assert_eq!(pid_record_field(&text, "pgid"), Some(5678));
    assert_eq!(pid_record_field(&text, "missing"), None);
    assert_eq!(orphan_group_from_record(&text, 1), Some((1234, 5678)));
}

#[test]
fn prune_web_logs_keeps_newest() {
    let total = DSH_WEB_LOG_KEEP + 3;
    let mut entries: Vec<WebLogEntry> = (0..total)
        .map(|index| WebLogEntry {
            name: format!("{DSH_WEB_LOG_PREFIX}{index}.log"),
            modified_ns: index as i128,
        })
        .collect();
    let current = format!("{DSH_WEB_LOG_PREFIX}{}-2.log", total - 1);
    entries.push(WebLogEntry { name: current.clone(), modified_ns: (total - 1) as i128 });
    entries.push(WebLogEntry { name: "dsh.pid".to_string(), modified_ns: 0 });

    let mut stale = stale_web_logs(&entries, &current);
    stale.sort();
    let removed = total - DSH_WEB_LOG_KEEP + 1;
    let mut expected: Vec<String> = (0..removed)
        .map(|index| format!("{DSH_WEB_LOG_PREFIX}{index}.log"))
        .collect();
    expected.sort();
    assert_eq!(stale, expected);
    assert!(!stale.contains(&current));
    assert!(!stale.contains(&"dsh.pid".to_string()));
}

#[test]
fn latest_web_log_picks_newest_then_greatest_name() {
    let entries = vec![
        WebLogEntry { name: format!("{DSH_WEB_LOG_PREFIX}1.log"), modified_ns: 5 },
        WebLogEntry { name: format!("{DSH_WEB_LOG_PREFIX}2.log"), modified_ns: 9 },
        WebLogEntry { name: format!("{DSH_WEB_LOG_PREFIX}2-1.log"), modified_ns: 9 },
        WebLogEntry { name: "dsh.pid".to_string(), modified_ns: 99 },
    ];
    assert_eq!(latest_web_log(&entries), Some(format!("{DSH_WEB_LOG_PREFIX}2.log")));
    assert_eq!(latest_web_log(&Vec::new()), None);
    assert!(is_web_log_name("zap-dsh-web-1.log"));
    assert!(!is_web_log_name("dsh.pid"));
}

#[test]
fn begin_start_resets_state() {
    let mut runtime = DshRuntime::new();
    runtime.request_stop();
    runtime.consecutive_crashes = 2;
    let gen = runtime.begin_start();
    assert_eq!(runtime.status(), DshRuntimeStatus::Starting);
    assert_eq!(runtime.consecutive_crashes, 0);
    assert!(!runtime.stopping);
    assert!(gen > 0);
}

#[test]
fn poll_child_gives_up_after_max_restarts() {
    let mut runtime = DshRuntime::new();
    for expected_crash in 1..=MAX_RESTARTS + 1 {
        let gen = runtime.begin_restart();
        assert!(runtime.adopt_child("http://127.0.0.1:1".to_string(), gen, 0));
        let result = runtime.poll_child(true, 10);
        if expected_crash <= MAX_RESTARTS {
            assert_eq!(result, PollResult::Crashed, "crash #{expected_crash}");
            assert_eq!(runtime.consecutive_crashes, expected_crash);
        } else {
            assert_eq!(result, PollResult::GiveUp, "should give up");
            assert_eq!(runtime.status(), DshRuntimeStatus::Failed);
        }
    }
}

#[test]
fn crash_after_healthy_run_resets_count() {
    let mut runtime = DshRuntime::new();
    let gen = runtime.begin_restart();
    assert!(runtime.adopt_child("http://127.0.0.1:1".to_string(), gen, 0));
    assert_eq!(runtime.poll_child(true, 10), PollResult::Crashed);
    assert_eq!(runtime.consecutive_crashes, 1);

    let gen = runtime.begin_restart();
    assert!(runtime.adopt_child("http://127.0.0.1:1".to_string(), gen, 1_000));
    let later = 1_000 + CRASH_COUNT_RESET_AFTER_MS + 1_000;
    assert_eq!(runtime.poll_child(true, later), PollResult::Crashed);
    assert_eq!(runtime.consecutive_crashes, 1, "count should reset after healthy run");
}

#[test]
fn find_executable_in_path_by_name() {
    assert_eq!(
        path_candidates("/opt/a:/opt/b/", "node"),
        vec!["/opt/a/node".to_string(), "/opt/b/node".to_string()]
    );
    assert_eq!(path_candidates("", "dsh"), vec!["dsh".to_string()]);
    assert_eq!(
        path_candidates("/usr/bin::/bin", "dsh"),
        vec!["/usr/bin/dsh".to_string(), "dsh".to_string(), "/bin/dsh".to_string()]
    );
}

#[test]
fn dsh_is_configured_by_settings_or_storage_contents() {
    assert!(is_configured_from(true, &[]));
    assert!(!is_configured_from(false, &[]));
    assert!(!is_configured_from(false, &["workspace.json".to_string()]));
    assert!(is_configured_from(
        false,
        &["workspace.json".to_string(), "session-1".to_string()]
    ));
}

#[test]
fn privacy_switch_is_read_from_settings_and_off_by_default() {
    assert!(terminal_context_enabled_from_settings(Some(r#"{"terminal_context_enabled":true}"#)));
    assert!(!terminal_context_enabled_from_settings(Some(r#"{"terminal_context_enabled":false}"#)));
    assert!(!terminal_context_enabled_from_settings(Some(r#"{"terminal_context_enabled":"yes"}"#)));
    assert!(!terminal_context_enabled_from_settings(Some("not json")));
    assert!(!terminal_context_enabled_from_settings(None));
}

#[test]
fn web_log_names_and_startup_errors() {
    assert_eq!(web_log_name(1700000000, None), "zap-dsh-web-1700000000.log");
    assert_eq!(web_log_name(1700000000, Some(2)), "zap-dsh-web-1700000000-2.log");
    assert!(is_web_log_name(&web_log_name(0, Some(3))));
    assert_eq!(
        startup_exit_error("exit status: 1", "[x] ok\nError: plugin failed\n"),
        "dsh web exited during startup (exit status: 1): Error: plugin failed"
    );
    assert_eq!(
        startup_exit_error("exit status: 1", "no errors here\n"),
        "dsh web exited during startup (exit status: 1)"
    );
}

#[test]
fn bridge_client_is_registered_once() {
    assert_eq!(patched_cordis("").as_deref(), Some(BRIDGE_CLIENT_PATCH_ENTRY));
    assert_eq!(patched_cordis(" [] \n").as_deref(), Some(BRIDGE_CLIENT_PATCH_ENTRY));
    assert_eq!(
        patched_cordis("- other: x").unwrap(),
        format!("- other: x\n{BRIDGE_CLIENT_PATCH_ENTRY}")
    );
    assert_eq!(
        patched_cordis("- other: x\n").unwrap(),
        format!("- other: x\n{BRIDGE_CLIENT_PATCH_ENTRY}")
    );
    let once = patched_cordis("").unwrap();
    assert_eq!(patched_cordis(&once), None);
}

#[test]
fn startup_wait_step_decides_each_look() {
    let log = "noise\ndsh web: http://127.0.0.1:64536/?token=abc\n";
    match startup_wait_step(Some("exit status: 1"), 10, "Error: boom\n") {
        StartupWaitAction::Fail { error } => {
            assert_eq!(error, "dsh web exited during startup (exit status: 1): Error: boom")
        }
        other => panic!("unexpected {other:?}"),
    }
    // An exit wins over the deadline and a ready URL.
    match startup_wait_step(Some("signal: 9"), STARTUP_TIMEOUT_MS + 1, log) {
        StartupWaitAction::Fail { error } => {
            assert_eq!(error, "dsh web exited during startup (signal: 9)")
        }
        other => panic!("unexpected {other:?}"),
    }
    match startup_wait_step(None, STARTUP_TIMEOUT_MS + 1, log) {
        StartupWaitAction::Fail { error } => {
            assert_eq!(error, "dsh web did not become ready within 120s")
        }
        other => panic!("unexpected {other:?}"),
    }
    match startup_wait_step(None, STARTUP_TIMEOUT_MS, log) {
        StartupWaitAction::Probe { url } => {
            assert_eq!(url, "http://127.0.0.1:64536/?token=abc")
        }
        other => panic!("unexpected {other:?}"),
    }
    assert!(matches!(startup_wait_step(None, 0, "starting\n"), StartupWaitAction::Wait));
}

#[test]
fn probe_ready_on_success_or_redirect() {
    assert!(probe_means_ready(Some(200)));
    assert!(probe_means_ready(Some(204)));
    assert!(probe_means_ready(Some(303)));
    assert!(!probe_means_ready(Some(199)));
    assert!(!probe_means_ready(Some(401)));
    assert!(!probe_means_ready(Some(500)));
    assert!(!probe_means_ready(None));
}

#[test]
fn quick_crashes_count_up_then_give_up() {
    let mut runtime = DshRuntime::new();
    let mut now = 1_000;
    for k in 1..=5u8 {
        let generation = runtime.begin_restart();
        assert!(runtime.adopt_child("http://127.0.0.1:1".to_string(), generation, now));
        now += CRASH_COUNT_RESET_AFTER_MS;
        let result = runtime.poll_child(true, now);
        assert_eq!(runtime.consecutive_crashes, k);
        if k <= MAX_RESTARTS {
            assert_eq!(result, PollResult::Crashed);
            assert_eq!(runtime.status(), DshRuntimeStatus::Stopped);
        } else {
            assert_eq!(result, PollResult::GiveUp);
            assert_eq!(runtime.status(), DshRuntimeStatus::Failed);
        }
    }
}
