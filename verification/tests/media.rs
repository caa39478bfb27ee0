use mobius_device_lab::error::{ApiError, ErrorDetails, ProcessOutput};
use mobius_device_lab::media::{
    capture_token, check_ios_screen_target, check_recording_bit_rate, check_recording_slot, inspect_mp4_bytes, check_screenshot_header, mp4_finish, mp4_scan_start,
    mp4_step, output_has_exact_identifier, parse_process_start_time, parse_recording_identity,
    parse_recording_pid, permission_denied, recording_launch_command, recording_pull_timeout_secs,
    recording_signal_command, recording_start_allows_root_retry, remote_capture_path,
};
use mobius_device_lab::validation;

fn png_header(width: u32, height: u32) -> Vec<u8> {
    let mut bytes = vec![0_u8; 24];
    bytes[..8].copy_from_slice(&[137, 80, 78, 71, 13, 10, 26, 10]);
    bytes[12..16].copy_from_slice(b"IHDR");
    bytes[16..20].copy_from_slice(&width.to_be_bytes());
    bytes[20..24].copy_from_slice(&height.to_be_bytes());
    bytes
}

#[test]
fn png_inspection_accepts_bounded_ihdr() {
    let bytes = png_header(1080, 2400);
    assert_eq!(check_screenshot_header(bytes.len() as u64, &bytes).expect("valid header").0, 1080);
}

#[test]
fn png_inspection_rejects_excessive_dimensions() {
    let bytes = png_header(20_000, 20_000);
    assert!(check_screenshot_header(bytes.len() as u64, &bytes).is_err());
}

#[test]
fn generated_remote_paths_stay_within_the_fixed_temp_root() {
    let token = capture_token(4242, 1_700_000_000_000, 7);
    let path = remote_capture_path("shot", "png", &token);
    assert!(path.starts_with("/data/local/tmp/mobius-shot-"));
    assert!(path.ends_with(".png"));
    assert!(validation::remote_path(&path).is_ok());
}

#[test]
fn ios_screen_target_matching_is_exact() {
    let listed = "00008020-001C2D1234567890\n00008030-ABCDEF\n";
    assert!(output_has_exact_identifier(listed, "00008020-001C2D1234567890"));
    assert!(!output_has_exact_identifier(listed, "00008020"));
}

#[test]
fn ssh_only_ios_endpoint_is_rejected_before_tool_invocation() {
    let error = check_ios_screen_target("ios-ssh:192.168.1.42:22")
        .expect_err("manual SSH endpoint must not reach screenshot tools");
    assert_eq!(error.code, "ios_screen_target_unavailable");
}

#[test]
fn recording_launch_command_is_unlimited_and_uses_quoted_fixed_paths() {
    let command = recording_launch_command(
        "/data/local/tmp/mobius-recording-123.mp4",
        "/data/local/tmp/mobius-recording-log-123.txt",
        Some(8_000_000),
    );
    assert!(command.contains("screenrecord --time-limit 0 --bit-rate 8000000"));
    assert!(command.contains("'/data/local/tmp/mobius-recording-123.mp4'"));
    assert!(command.contains("'/data/local/tmp/mobius-recording-log-123.txt'"));
    assert!(command.contains("__MOBIUS_RECORDING_PID__="));
    assert!(command.contains("__MOBIUS_RECORDING_EXE__="));
    assert!(command.contains("__MOBIUS_RECORDING_STAT__="));
    assert!(command.contains("mobius_abort"));
    assert!(!command.contains("--time-limit 20"));
}

#[test]
fn recording_pid_parser_requires_the_private_marker() {
    assert_eq!(parse_recording_pid("noise\n__MOBIUS_RECORDING_PID__=4242\n").expect("marked pid"), 4242);
    assert!(parse_recording_pid("4242\n").is_err());
    assert!(parse_recording_pid("__MOBIUS_RECORDING_PID__=1\n").is_err());
}

#[test]
fn recording_identity_is_parsed_from_the_launch_response() {
    let stdout = "__MOBIUS_RECORDING_PID__=4242\n__MOBIUS_RECORDING_EXE__=/system/bin/screenrecord\n__MOBIUS_RECORDING_STAT__=42 (screen record worker) S 1 2 3 4 5 6 7 8 9 10 11 12 13 14 15 16 17 18 424242 20\n";
    let identity = parse_recording_identity(stdout).expect("launch identity");
    assert_eq!(identity.executable, "/system/bin/screenrecord");
    assert_eq!(identity.start_time, "424242");
    assert!(parse_recording_identity("__MOBIUS_RECORDING_PID__=4242\n").is_err());
}

#[test]
fn recording_signal_rechecks_identity_in_the_same_remote_command() {
    let command = recording_signal_command(4242, "/system/bin/screenrecord", "987654", "15");
    assert!(command.contains("readlink -f /proc/4242/exe"));
    assert!(command.contains("cat /proc/4242/stat"));
    assert!(command.contains("'/system/bin/screenrecord'"));
    assert!(command.contains("'987654'"));
    assert!(command.contains("kill -15 4242"));
    assert!(command.contains("__MOBIUS_RECORDING_SIGNALLED__"));
    assert!(command.contains("__MOBIUS_RECORDING_SIGNAL_SKIPPED__"));
}

#[test]
fn recording_pull_timeout_scales_beyond_the_screenshot_limit() {
    assert_eq!(recording_pull_timeout_secs(Some(1), 1), 300);
    assert!(recording_pull_timeout_secs(Some(2 * 1024 * 1024 * 1024), 60) > 300);
    assert!(recording_pull_timeout_secs(None, 3_600) >= 7_320);
}

fn append_mp4_box(target: &mut Vec<u8>, kind: &[u8; 4], payload: &[u8]) {
    let size = u32::try_from(8 + payload.len()).expect("small test atom");
    target.extend_from_slice(&size.to_be_bytes());
    target.extend_from_slice(kind);
    target.extend_from_slice(payload);
}

fn inspect(bytes: &[u8]) -> Result<u64, ApiError> {
    inspect_mp4_bytes(bytes)
}

#[test]
fn mp4_inspection_requires_complete_metadata_and_media_boxes() {
    let mut complete = Vec::new();
    append_mp4_box(&mut complete, b"ftyp", b"isom");
    append_mp4_box(&mut complete, b"mdat", b"frame");
    append_mp4_box(&mut complete, b"moov", b"index");
    assert_eq!(inspect(&complete).expect("complete mp4"), complete.len() as u64);

    let mut missing_moov = Vec::new();
    append_mp4_box(&mut missing_moov, b"ftyp", b"isom");
    append_mp4_box(&mut missing_moov, b"mdat", b"frame");
    assert!(inspect(&missing_moov).is_err());

    let mut truncated = Vec::new();
    append_mp4_box(&mut truncated, b"ftyp", b"isom");
    truncated.extend_from_slice(&100_u32.to_be_bytes());
    truncated.extend_from_slice(b"mdat");
    truncated.extend_from_slice(b"short");
    assert!(inspect(&truncated).is_err());
}

#[test]
fn process_start_time_parser_handles_spaces_in_process_name() {
    let stat = "42 (screen record worker) S 1 2 3 4 5 6 7 8 9 10 11 12 13 14 15 16 17 18 424242 20";
    assert_eq!(parse_process_start_time(stat).expect("valid proc stat"), "424242");
    assert!(parse_process_start_time("42 malformed").is_err());
}

fn failed(stderr: &str, exit_code: Option<i32>) -> ApiError {
    ApiError::new("process_failed", "adb failed").with_details(ErrorDetails::Process(ProcessOutput {
        program: "adb".into(),
        exit_code,
        stdout: String::new(),
        stderr: stderr.into(),
        timed_out: false,
        truncated: false,
        duration_ms: 1,
    }))
}

#[test]
fn permission_error_detection_checks_process_details() {
    let error = failed("Permission denied", Some(1));
    assert!(permission_denied(&error));
    assert!(recording_start_allows_root_retry(&error));
    let detached_failure = failed("", Some(75));
    assert!(recording_start_allows_root_retry(&detached_failure));
    assert!(!recording_start_allows_root_retry(&ApiError::new("process_failed", "unrelated failure")));
}

#[test]
fn mp4_boxes_must_tile_the_whole_file() {
    let mut complete = Vec::new();
    append_mp4_box(&mut complete, b"ftyp", b"isom");
    append_mp4_box(&mut complete, b"mdat", b"frame");
    append_mp4_box(&mut complete, b"moov", b"index");
    let mut trailing = complete.clone();
    trailing.extend_from_slice(&[0, 0, 0]);
    assert_eq!(inspect(&trailing).unwrap_err().message, "Device screen recording contains an incomplete MP4 box table");
    assert_eq!(inspect(&complete[..20]).unwrap_err().message, "Device screen recording is empty or incomplete");
    let mut open_ended = complete.clone();
    open_ended.extend_from_slice(&0_u32.to_be_bytes());
    open_ended.extend_from_slice(b"free");
    assert_eq!(inspect(&open_ended).expect("size 0 box runs to the end"), open_ended.len() as u64);
}

#[test]
fn recording_requests_are_checked_before_starting() {
    assert!(check_recording_bit_rate(None).is_ok());
    assert!(check_recording_bit_rate(Some(100_000)).is_ok());
    assert!(check_recording_bit_rate(Some(100_000_000)).is_ok());
    assert_eq!(check_recording_bit_rate(Some(99_999)).unwrap_err().code, "invalid_recording_bit_rate");
    assert_eq!(check_recording_bit_rate(Some(100_000_001)).unwrap_err().code, "invalid_recording_bit_rate");
    assert_eq!(check_recording_slot(false, true).unwrap_err().code, "recording_already_active");
    assert_eq!(check_recording_slot(true, true).unwrap_err().code, "app_shutting_down");
    assert!(check_recording_slot(false, false).is_ok());
}
