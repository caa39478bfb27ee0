use mobius_device_lab::error::{ErrorDetails, ProcessOutput};
use mobius_device_lab::runner::{
    apply_event, check_output, close_captures, drain_events, finished_output, new_capture, reader_events, redact, spawn_error,
    CaptureEvent, MAX_CAPTURE_BYTES,
};

#[test]
fn capture_is_bounded_and_reports_truncation() {
    let mut capture = new_capture();
    apply_event(&mut capture, CaptureEvent::Chunk(vec![b'x'; MAX_CAPTURE_BYTES - 10]));
    assert!(!capture.truncated);
    apply_event(&mut capture, CaptureEvent::Chunk(vec![b'x'; 100]));
    assert!(capture.truncated);
    apply_event(&mut capture, CaptureEvent::Done);
    assert!(capture.done);
    assert_eq!(capture.bytes.len(), MAX_CAPTURE_BYTES);
}

#[test]
fn read_errors_finish_the_capture() {
    let mut capture = new_capture();
    apply_event(&mut capture, CaptureEvent::Error("broken pipe".into()));
    assert!(capture.done);
    assert_eq!(capture.error.as_deref(), Some("Unable to read process output: broken pipe"));
    let mut other = new_capture();
    close_captures(&mut capture, &mut other);
    assert!(!capture.truncated);
    assert!(other.truncated);
}

fn output(exit_code: Option<i32>, stdout: &str, stderr: &str, timed_out: bool) -> ProcessOutput {
    ProcessOutput {
        program: "adb".into(),
        exit_code,
        stdout: stdout.into(),
        stderr: stderr.into(),
        timed_out,
        truncated: false,
        duration_ms: 3,
    }
}

#[test]
fn checked_runs_report_timeouts_and_failures() {
    let late = check_output("adb", 1500, output(None, "", "", true)).unwrap_err();
    assert_eq!(late.code, "process_timeout");
    assert_eq!(late.message, "adb did not finish within 1500 ms");
    assert!(matches!(late.details, Some(ErrorDetails::Process(_))));

    let failed = check_output("adb", 1500, output(Some(1), "out", "  error: closed \n", false)).unwrap_err();
    assert_eq!(failed.code, "process_failed");
    assert_eq!(failed.message, "adb: error: closed");

    let silent = check_output("adb", 1500, output(Some(2), "  ", "", false)).unwrap_err();
    assert_eq!(silent.message, "adb exited with status Some(2)");

    assert!(check_output("adb", 1500, output(Some(0), "ok", "", false)).is_ok());
}

#[test]
fn secrets_are_redacted_from_output() {
    assert_eq!(redact("user=root pass=alpine alpine", &["alpine".to_string()]), "user=root pass=****** ******");
    assert_eq!(redact("nothing", &[String::new()]), "nothing");
    let finished = finished_output("ssh", Some(0), "token abc  \n", "", &["abc".to_string()], false, false, 9);
    assert_eq!(finished.stdout, "token ******");
    assert_eq!(spawn_error("adb", true, "not found").code, "tool_not_found");
    assert_eq!(spawn_error("adb", false, "denied").message, "Unable to start adb: denied");
}

#[test]
fn capture_stays_bounded_over_many_events() {
    let mut capture = new_capture();
    for _ in 0..3 {
        let events = vec![
            CaptureEvent::Chunk(vec![b'x'; MAX_CAPTURE_BYTES / 2 + 7]),
            CaptureEvent::Chunk(vec![b'x'; 10]),
        ];
        drain_events(&mut capture, events);
        assert!(capture.bytes.len() <= MAX_CAPTURE_BYTES);
    }
    assert_eq!(capture.bytes.len(), MAX_CAPTURE_BYTES);
    assert!(capture.truncated);
    assert!(capture.bytes.iter().all(|b| *b == b'x'));
    drain_events(&mut capture, vec![CaptureEvent::Done]);
    assert!(capture.done && capture.truncated);
}

#[test]
fn a_stream_twice_the_limit_keeps_its_first_mebibyte() {
    let stream = vec![b'x'; MAX_CAPTURE_BYTES * 2];
    let mut capture = new_capture();
    let (mut retained, mut reported) = (0usize, false);
    let mut truncation_notes = 0;
    for read in stream.chunks(8192) {
        let (events, now_retained, now_reported) = reader_events(retained, reported, read);
        truncation_notes += events.iter().filter(|e| matches!(e, CaptureEvent::Truncated)).count();
        drain_events(&mut capture, events);
        retained = now_retained;
        reported = now_reported;
        assert!(capture.bytes.len() <= MAX_CAPTURE_BYTES);
    }
    drain_events(&mut capture, vec![CaptureEvent::Done]);
    assert!(capture.done);
    assert!(capture.truncated);
    assert_eq!(capture.bytes.len(), MAX_CAPTURE_BYTES);
    assert_eq!(retained, MAX_CAPTURE_BYTES);
    assert!(capture.bytes.iter().all(|b| *b == b'x'));
    assert_eq!(truncation_notes, 1);
}

#[test]
fn a_stream_within_the_limit_is_kept_whole() {
    let mut capture = new_capture();
    let (events, retained, reported) = reader_events(0, false, b"hello ");
    drain_events(&mut capture, events);
    let (events, retained, reported) = reader_events(retained, reported, b"world");
    drain_events(&mut capture, events);
    assert_eq!(retained, 11);
    assert!(!reported);
    assert_eq!(capture.bytes, b"hello world".to_vec());
    assert!(!capture.truncated);
}
