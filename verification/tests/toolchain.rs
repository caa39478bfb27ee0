use mobius_device_lab::models::ToolchainConfiguration;
use mobius_device_lab::toolchain::{
    android_sdk_directories, bundled_search_directories, check_absolute_directory,
    check_absolute_tool_path, check_tool_file, configured_directories, configured_file,
    configured_tool_unavailable, deduplicate_paths, is_ios_tool, non_empty, order_versioned,
    search_plan, tool_candidates, tool_not_found, validate_tool_name, version_path_key, SdkRoot,
    ToolSource,
};

#[test]
fn unsafe_tool_name_is_rejected() {
    assert_eq!(validate_tool_name("../adb").unwrap_err().code, "invalid_tool_name");
    assert!(validate_tool_name("").is_err());
    assert!(validate_tool_name("idevice_id").is_ok());
    assert!(validate_tool_name("frida-server").is_ok());
}

#[test]
fn relative_configuration_is_rejected() {
    assert_eq!(check_absolute_tool_path("adbPath", false).unwrap_err().code, "unsafe_tool_path");
    assert_eq!(
        check_absolute_directory("managedToolsPath", false).unwrap_err().code,
        "invalid_tool_directory"
    );
    assert!(check_absolute_tool_path("adbPath", true).is_ok());
}

#[test]
fn exact_configured_file_is_only_for_adb_scrcpy_and_frida() {
    let configuration = ToolchainConfiguration {
        adb_path: Some("/opt/adb".into()),
        ..Default::default()
    };
    assert_eq!(configured_file(&configuration, "adb").as_deref(), Some("/opt/adb"));
    assert_eq!(configured_file(&configuration, "aapt2"), None);
}

#[test]
fn stale_exact_configuration_does_not_silently_fall_back() {
    let error = configured_tool_unavailable("adb", "No such file or directory");
    assert_eq!(error.code, "configured_tool_unavailable");
    assert_eq!(error.message, "The configured adb executable is unavailable: No such file or directory");
}

#[test]
fn configured_directory_precedes_bundled_sdk_and_path() {
    let configuration = ToolchainConfiguration {
        managed_tools_path: Some("/managed".into()),
        ios_tools_path: Some("/ios".into()),
        ..Default::default()
    };
    assert_eq!(configured_directories(&configuration, "adb"), vec!["/managed"]);
    assert_eq!(configured_directories(&configuration, "iproxy"), vec!["/managed", "/ios"]);
    assert!(is_ios_tool("ssh"));
    assert!(!is_ios_tool("adb"));

    let plan = search_plan(
        &["/managed".to_string()],
        &["/bundled/linux-x86_64".to_string()],
        &["/sdk/platform-tools".to_string()],
        &["/usr/bin".to_string()],
    );
    let sources: Vec<ToolSource> = plan.iter().map(|d| d.source).collect();
    assert_eq!(
        sources,
        vec![ToolSource::Configured, ToolSource::Bundled, ToolSource::Sdk, ToolSource::Path]
    );
    assert_eq!(plan[3].path, "/usr/bin");
}

#[test]
fn bundled_precedes_android_sdk_and_path() {
    assert_eq!(
        bundled_search_directories(&["/res/tools".to_string()], "linux", "x86_64"),
        vec!["/res/tools/linux-x86_64", "/res/tools/linux/x86_64", "/res/tools/common", "/res/tools"]
    );
}

#[test]
fn android_sdk_precedes_path() {
    let roots = vec![SdkRoot {
        root: "/sdk".into(),
        build_tools: vec!["34.0.0".into(), "30.0.3".into()],
        cmdline_tools: vec!["12.0".into()],
    }];
    assert_eq!(android_sdk_directories("adb", &roots), vec!["/sdk/platform-tools"]);
    assert_eq!(
        android_sdk_directories("aapt2", &roots),
        vec!["/sdk/build-tools/34.0.0", "/sdk/build-tools/30.0.3"]
    );
    assert_eq!(
        android_sdk_directories("apkanalyzer", &roots),
        vec!["/sdk/cmdline-tools/latest/bin", "/sdk/cmdline-tools/12.0/bin", "/sdk/tools/bin"]
    );
    assert!(android_sdk_directories("scrcpy", &roots).is_empty());
}

#[test]
fn path_is_the_final_fallback() {
    let error = tool_not_found("scrcpy");
    assert_eq!(error.code, "tool_not_found");
    assert_eq!(
        error.message,
        "Unable to find scrcpy in configured, bundled, Android SDK, or system PATH locations"
    );
}

#[test]
fn versioned_directories_are_searched_newest_first() {
    assert_eq!(version_path_key("30.0.3"), vec![30, 0, 3]);
    assert_eq!(version_path_key("android-35-rc1"), vec![35, 1]);
    let ordered = order_versioned(&[
        "29.0.2".to_string(),
        "latest".to_string(),
        "34.0.0".to_string(),
        "30.0.3".to_string(),
    ]);
    assert_eq!(ordered, vec!["34.0.0", "30.0.3", "29.0.2"]);
}

#[test]
fn candidates_dedup_and_trimmed_values() {
    assert_eq!(tool_candidates("/usr/bin", "adb", false), vec!["/usr/bin/adb"]);
    assert_eq!(tool_candidates("C:/tools", "adb", true), vec!["C:/tools/adb.exe", "C:/tools/adb.com"]);
    assert_eq!(
        deduplicate_paths(&["/a".to_string(), "/b".to_string(), "/a".to_string()]),
        vec!["/a", "/b"]
    );
    assert_eq!(non_empty(Some("  /opt/adb \n".into())).as_deref(), Some("/opt/adb"));
    assert_eq!(non_empty(Some("   ".into())), None);
    assert_eq!(check_tool_file("adb", true, Some(0o644)).unwrap_err().code, "tool_not_executable");
    assert_eq!(check_tool_file("adb", false, Some(0o755)).unwrap_err().code, "tool_path_error");
    assert!(check_tool_file("adb", true, Some(0o755)).is_ok());
    assert_eq!(ToolSource::Sdk.as_str(), "sdk");
}
