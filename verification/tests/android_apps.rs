use mobius_device_lab::android_apps::{action_arguments, is_system_partition_path, verify_action_output};
use mobius_device_lab::error::ProcessOutput;
use mobius_device_lab::models::AndroidAppAction;

fn output(stdout: &str, stderr: &str) -> ProcessOutput {
    ProcessOutput {
        program: "adb".into(),
        exit_code: Some(0),
        stdout: stdout.into(),
        stderr: stderr.into(),
        timed_out: false,
        truncated: false,
        duration_ms: 1,
    }
}

#[test]
fn action_arguments_are_fixed_and_keep_target_separate() {
    assert_eq!(
        action_arguments(AndroidAppAction::ForceStop, "device-1", "dev.mobius.demo"),
        vec!["-s", "device-1", "shell", "am", "force-stop", "dev.mobius.demo"]
    );
    assert_eq!(
        action_arguments(AndroidAppAction::Uninstall, "device-1", "dev.mobius.demo"),
        vec!["-s", "device-1", "uninstall", "dev.mobius.demo"]
    );
}

#[test]
fn mutation_results_require_android_success_marker() {
    assert!(verify_action_output(AndroidAppAction::ClearData, &output("Success\n", "")).is_ok());
    assert!(verify_action_output(
        AndroidAppAction::Uninstall,
        &output("Failure [DELETE_FAILED_INTERNAL_ERROR]\n", "")
    )
    .is_err());
}

#[test]
fn launch_requires_one_injected_launcher_event() {
    assert!(verify_action_output(AndroidAppAction::Launch, &output("Events injected: 1\n", "")).is_ok());
    assert!(verify_action_output(
        AndroidAppAction::Launch,
        &output("** No activities found to run, monkey aborted.\n", "")
    )
    .is_err());
}

#[test]
fn recognizes_only_fixed_android_system_partitions() {
    assert!(is_system_partition_path("/system/app/Settings/Settings.apk"));
    assert!(is_system_partition_path("/product/priv-app/Demo/Demo.apk"));
    assert!(!is_system_partition_path("/data/app/dev.mobius.demo/base.apk"));
    assert!(!is_system_partition_path("/sdcard/system/app.apk"));
}
