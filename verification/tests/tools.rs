use mobius_device_lab::error::{ApiError, ProcessOutput};
use mobius_device_lab::tools::{first_meaningful_line, missing_health, resolved_health, tool_specs};
use mobius_device_lab::toolchain::ToolSource;

#[test]
fn the_catalog_lists_every_checked_tool_once() {
    let specs = tool_specs();
    assert_eq!(specs.len(), 15);
    assert_eq!(specs[0].id, "adb");
    assert_eq!(specs[14].id, "scp");
    assert!(specs[14].version_arg.is_none());
    assert_eq!(specs[13].version_arg, Some("-V"));
}

#[test]
fn version_reports_use_the_first_meaningful_line() {
    assert_eq!(first_meaningful_line("\n  \n Android Debug Bridge version 1.0.41 \nmore").as_deref(), Some("Android Debug Bridge version 1.0.41"));
    assert_eq!(first_meaningful_line("   "), None);
    let long = "x".repeat(300);
    assert_eq!(first_meaningful_line(&long).unwrap().chars().count(), 240);
}

#[test]
fn health_reflects_the_version_check() {
    let spec = tool_specs()[0];
    let missing = missing_health(&spec, ApiError::new("tool_not_found", "Unable to find adb"));
    assert_eq!(missing.state, "missing");
    assert_eq!(missing.hint.as_deref(), Some("Unable to find adb"));

    let ok = ProcessOutput {
        program: "adb".into(),
        exit_code: Some(0),
        stdout: String::new(),
        stderr: "Version 35\n".into(),
        timed_out: false,
        truncated: false,
        duration_ms: 1,
    };
    let ready = resolved_health(&spec, "/usr/bin/adb".into(), ToolSource::Path, Some(Ok(ok.clone())));
    assert_eq!(ready.state, "ready");
    assert_eq!(ready.version.as_deref(), Some("Version 35"));
    assert_eq!(ready.source.as_deref(), Some("path"));

    let mut late = ok.clone();
    late.timed_out = true;
    let warning = resolved_health(&spec, "/usr/bin/adb".into(), ToolSource::Path, Some(Ok(late)));
    assert_eq!(warning.state, "warning");
    assert_eq!(warning.hint.as_deref(), Some("Version check timed out"));

    let mut failed = ok;
    failed.exit_code = Some(1);
    failed.stderr = String::new();
    let status = resolved_health(&spec, "/usr/bin/adb".into(), ToolSource::Path, Some(Ok(failed)));
    assert_eq!(status.hint.as_deref(), Some("Version check exited with status Some(1)"));

    let unchecked = resolved_health(&tool_specs()[14], "/usr/bin/scp".into(), ToolSource::Path, None);
    assert_eq!(unchecked.state, "ready");
}
