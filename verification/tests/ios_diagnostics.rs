use mobius_device_lab::error::{ApiError, ErrorDetails};
use mobius_device_lab::ios_diagnostics::{
    action_command, clamp_syslog_lines, consume_confirmation, new_confirmation_id, parse_log_source,
    parse_tool_statuses, register_confirmation, require_expected_target, sanitize_and_limit,
    sanitize_diagnostic_error, syslog_command, tools_command, validate_confirmation_id, ActionTicket,
};
use mobius_device_lab::models::{IosDeviceAction, IosDeviceActionTarget};

fn ticket(id: &str, action: IosDeviceAction, expires_at_ms: u64) -> ActionTicket {
    ActionTicket {
        confirmation_id: id.into(),
        session_id: "ios-ssh-test-session".into(),
        action,
        ssh_host: "192.0.2.10".into(),
        ssh_port: 22,
        username: "root".into(),
        server_system: Some("Darwin test".into()),
        host_key_identity: "[192.0.2.10]:22".into(),
        expires_at_ms,
    }
}

#[test]
fn syslog_line_count_is_strictly_bounded() {
    assert_eq!(clamp_syslog_lines(None), 120);
    assert_eq!(clamp_syslog_lines(Some(1)), 20);
    assert_eq!(clamp_syslog_lines(Some(999)), 400);
    assert!(syslog_command(400).contains("\"$mobius_tail\" -n 400"));
}

#[test]
fn parses_only_known_tool_markers() {
    let parsed = parse_tool_statuses(
        "noise\nMOBIUS_TOOL|frida-server|/usr/sbin/frida-server|true|16.1.4\nMOBIUS_TOOL|unknown|/tmp/x||1\nMOBIUS_TOOL|lldb|||",
    );
    assert_eq!(parsed.len(), 2);
    assert!(parsed[0].available);
    assert_eq!(parsed[0].version, None);
    assert_eq!(parsed[0].running, None);
    assert!(!parsed[1].available);
    assert_eq!(parsed[1].path, None);
}

#[test]
fn tool_probe_uses_only_compiled_absolute_paths_without_starting_tools() {
    let command = tools_command();
    assert!(!command.contains("command -v"));
    assert!(!command.contains("--version"));
    assert!(!command.contains("pgrep"));
    assert!(command.contains("/usr/sbin/frida-server"));
    assert!(command.contains("[ -x \"$mobius_candidate\" ]"));
}

#[test]
fn ignores_non_absolute_tool_paths_from_remote_output() {
    let parsed = parse_tool_statuses("MOBIUS_TOOL|frida-server|frida-server|true|16.1.4");
    assert_eq!(parsed.len(), 1);
    assert!(!parsed[0].available);
    assert_eq!(parsed[0].path, None);
    assert_eq!(parsed[0].running, None);
}

#[test]
fn ignores_paths_outside_each_tools_compiled_catalog() {
    let parsed = parse_tool_statuses("MOBIUS_TOOL|frida-server|/tmp/frida-server||");
    assert_eq!(parsed.len(), 1);
    assert!(!parsed[0].available);
    assert_eq!(parsed[0].path, None);
}

#[test]
fn tool_status_result_is_deduplicated_and_catalog_bounded() {
    let repeated = "MOBIUS_TOOL|frida-server|/usr/sbin/frida-server||\n".repeat(500);
    let parsed = parse_tool_statuses(&repeated);
    assert_eq!(parsed.len(), 1);
    assert_eq!(parsed[0].id, "frida-server");
}

#[test]
fn output_sanitizer_removes_controls_and_keeps_utf8_valid() {
    let (value, truncated) = sanitize_and_limit("A\u{1b}[31m中文内容", 12);
    assert!(truncated);
    assert!(!value.contains('\u{1b}'));
    assert!(value.is_char_boundary(value.len()));
}

#[test]
fn device_actions_are_fixed_and_acknowledged() {
    let respring = action_command(IosDeviceAction::Respring);
    let reboot = action_command(IosDeviceAction::Reboot);
    assert!(respring.contains("MOBIUS_IOS_ACTION_ACCEPTED"));
    assert!(respring.contains("SpringBoard"));
    assert!(!respring.contains("command -v"));
    assert!(reboot.contains("MOBIUS_IOS_ACTION_ACCEPTED"));
    assert!(reboot.contains("reboot"));
    assert!(!reboot.contains("command -v"));
}

#[test]
fn confirmation_ids_are_random_url_safe_tokens() {
    let first = new_confirmation_id().expect("first confirmation");
    let second = new_confirmation_id().expect("second confirmation");
    assert_ne!(first, second);
    assert!(validate_confirmation_id(&first).is_ok());
    assert!(validate_confirmation_id("short").is_err());
}

#[test]
fn confirmation_ticket_is_consumed_exactly_once() {
    let mut tickets = Vec::new();
    let id = "0123456789abcdef0123456789abcdef";
    register_confirmation(&mut tickets, ticket(id, IosDeviceAction::Respring, 30_000), 0).expect("register");
    assert!(consume_confirmation(&mut tickets, id, 1_000).is_ok());
    let replay = consume_confirmation(&mut tickets, id, 1_000).expect_err("replay");
    assert_eq!(replay.code, "ios_action_confirmation_invalid");
}

#[test]
fn expired_confirmation_ticket_is_consumed_and_rejected() {
    let mut tickets = Vec::new();
    let id = "fedcba9876543210fedcba9876543210";
    register_confirmation(&mut tickets, ticket(id, IosDeviceAction::Reboot, 5_000), 0).expect("register");
    let expired = consume_confirmation(&mut tickets, id, 6_000).expect_err("expired ticket");
    assert_eq!(expired.code, "ios_action_confirmation_expired");
    assert!(consume_confirmation(&mut tickets, id, 6_000).is_err());
}

#[test]
fn target_snapshot_must_match_every_endpoint_field() {
    let target = IosDeviceActionTarget {
        ssh_host: "192.0.2.10".into(),
        ssh_port: 22,
        username: "root".into(),
        server_system: Some("Darwin test".into()),
        host_key_identity: "[192.0.2.10]:22".into(),
    };
    assert!(require_expected_target(&target, "192.0.2.10", 22, "root", Some("Darwin test"), Some("[192.0.2.10]:22")).is_ok());
    assert!(require_expected_target(&target, "192.0.2.11", 22, "root", Some("Darwin test"), Some("[192.0.2.10]:22")).is_err());
}

#[test]
fn diagnostic_errors_are_sanitized_bounded_and_drop_details() {
    let error = ApiError::new("remote_error", &format!("bad\u{1b}[31m{}", "x".repeat(10_000)))
        .with_details(ErrorDetails::Cause("remote data".into()));
    let sanitized = sanitize_diagnostic_error(error);
    assert!(sanitized.message.len() <= 8 * 1024);
    assert!(!sanitized.message.contains('\u{1b}'));
    assert!(sanitized.details.is_none());
}

#[test]
fn log_source_marker_is_not_exposed_as_output() {
    let (source, output) =
        parse_log_source("MOBIUS_IOS_DIAGNOSTIC\nMOBIUS_LOG_SOURCE|/var/log/syslog\nline one\nline two");
    assert_eq!(source, "/var/log/syslog");
    assert_eq!(output, "line one\nline two");
}
