use mobius_device_lab::error::ProcessOutput;
use mobius_device_lab::ios_host_tools::{
    diagnostic_invocation, diagnostic_metadata, diagnostic_result, diagnostic_timeout, sanitize_and_limit,
};
use mobius_device_lab::models::{IosHostDiagnosticKind, IosHostDiagnosticRequest};

#[test]
fn fixed_invocations_bind_the_selected_udid_and_transport() {
    assert_eq!(
        diagnostic_invocation(IosHostDiagnosticKind::DeviceInfo, "device-1", true),
        ("ideviceinfo", vec!["-u".to_string(), "device-1".to_string(), "-n".to_string()])
    );
    assert_eq!(
        diagnostic_invocation(IosHostDiagnosticKind::Pairing, "device-1", false),
        ("idevicepair", vec!["-u".to_string(), "device-1".to_string(), "validate".to_string()])
    );
    assert_eq!(
        diagnostic_invocation(IosHostDiagnosticKind::Apps, "device-1", true),
        (
            "ideviceinstaller",
            vec!["-u", "device-1", "-n", "list", "--all"].into_iter().map(str::to_string).collect()
        )
    );
    assert_eq!(
        diagnostic_invocation(IosHostDiagnosticKind::Syslog, "device-1", false),
        ("idevicesyslog", vec!["-u".to_string(), "device-1".to_string(), "--no-colors".to_string()])
    );
}

#[test]
fn timeout_is_strictly_bounded() {
    assert!(diagnostic_timeout(IosHostDiagnosticKind::Syslog, Some(249)).is_err());
    assert!(diagnostic_timeout(IosHostDiagnosticKind::Syslog, Some(30_001)).is_err());
    assert_eq!(diagnostic_timeout(IosHostDiagnosticKind::Syslog, None).expect("default"), 5_000);
    assert_eq!(diagnostic_timeout(IosHostDiagnosticKind::Apps, None).expect("default"), 10_000);
}

#[test]
fn output_sanitizer_preserves_utf8_and_enforces_its_limit() {
    let (output, truncated) = sanitize_and_limit("A\u{1b}\u{0}手机日志手机日志", 18);
    assert!(truncated);
    assert!(!output.contains('\u{1b}'));
    assert!(output.is_char_boundary(output.len()));
    assert!(output.len() <= 18);
}

fn process(exit_code: Option<i32>, stdout: &str, stderr: &str, timed_out: bool) -> ProcessOutput {
    ProcessOutput {
        program: "idevicesyslog".into(),
        exit_code,
        stdout: stdout.into(),
        stderr: stderr.into(),
        timed_out,
        truncated: false,
        duration_ms: 7,
    }
}

fn request(kind: IosHostDiagnosticKind) -> IosHostDiagnosticRequest {
    IosHostDiagnosticRequest { udid: "device-1".into(), kind, network: false, timeout_ms: None }
}

#[test]
fn syslog_ends_with_its_window_and_others_must_finish() {
    let sample = diagnostic_result(
        &request(IosHostDiagnosticKind::Syslog),
        "idevicesyslog",
        5_000,
        &process(None, "line\r\n", "", true),
    )
    .expect("a syslog sample ends by timing out");
    assert_eq!(sample.output, "line");
    assert_eq!(sample.source, "idevicesyslog · 5000 ms 采样");
    assert!(sample.stderr.is_none());

    let late = diagnostic_result(&request(IosHostDiagnosticKind::Apps), "ideviceinstaller", 10_000, &process(None, "", "", true))
        .unwrap_err();
    assert_eq!(late.code, "ios_host_diagnostic_timeout");
    assert_eq!(late.message, "ideviceinstaller did not finish within 10000 ms");

    let failed = diagnostic_result(&request(IosHostDiagnosticKind::Pairing), "idevicepair", 10_000, &process(Some(1), "", " not paired \n", false))
        .unwrap_err();
    assert_eq!(failed.message, "idevicepair: not paired");

    let silent = diagnostic_result(&request(IosHostDiagnosticKind::Pairing), "idevicepair", 10_000, &process(Some(3), "", "", false))
        .unwrap_err();
    assert_eq!(silent.message, "idevicepair exited with status Some(3)");
    assert_eq!(diagnostic_metadata(IosHostDiagnosticKind::Pairing, 10_000).1, "idevicepair validate");
}
