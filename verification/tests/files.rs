use mobius_device_lab::files::{
    restore_plan,
    check_pull_destination, directory_listing_operand, ensure_proxy_restore_supported,
    AndroidProxySettings,
};
use mobius_device_lab::listing::parse_ls_line;

#[test]
fn parses_toybox_listing_with_spaces() {
    let entry = parse_ls_line("/sdcard", "-rw-r--r-- 1 1023 1023 42 2026-09-04 12:30 hello world.txt")
        .expect("entry");
    assert_eq!(entry.name, "hello world.txt");
    assert_eq!(entry.path, "/sdcard/hello world.txt");
    assert_eq!(entry.size, Some(42));
}

#[test]
fn follows_android_directory_links_for_listing() {
    assert_eq!(directory_listing_operand("/sdcard"), "/sdcard/");
    assert_eq!(directory_listing_operand("/sdcard/"), "/sdcard/");
    assert_eq!(directory_listing_operand("/"), "/");
}

#[test]
fn parses_inaccessible_and_symbolic_link_rows() {
    let inaccessible =
        parse_ls_line("/", "d????????? ? ? ? ? ? data_mirror").expect("inaccessible directory row");
    assert_eq!(inaccessible.name, "data_mirror");
    assert_eq!(inaccessible.path, "/data_mirror");
    assert_eq!(inaccessible.kind, "directory");

    let link = parse_ls_line("/", "lrw-r--r-- 1 0 0 21 2026-05-18 11:15 sdcard -> /storage/self/primary")
        .expect("symbolic link row");
    assert_eq!(link.name, "sdcard");
    assert_eq!(link.kind, "link");
    assert_eq!(link.link_target.as_deref(), Some("/storage/self/primary"));
}

#[test]
fn local_pull_requires_explicit_overwrite_for_existing_file() {
    let rejected = check_pull_destination(false, true, false, false)
        .expect_err("existing file should require overwrite");
    assert_eq!(rejected.code, "local_file_exists");
    assert!(check_pull_destination(false, true, false, true).is_ok());
}

#[test]
fn local_pull_refuses_links_and_directories() {
    assert_eq!(check_pull_destination(true, true, false, true).unwrap_err().code, "unsafe_local_link");
    assert_eq!(
        check_pull_destination(false, true, true, true).unwrap_err().code,
        "invalid_local_destination"
    );
    assert!(check_pull_destination(false, false, false, false).is_ok());
}

#[test]
fn recognizes_complete_android_proxy_states() {
    let empty = AndroidProxySettings::default();
    assert!(!empty.has_effective_proxy());
    assert!(empty.static_endpoint().is_none());
    assert!(ensure_proxy_restore_supported(&empty).is_ok());

    let static_proxy = AndroidProxySettings {
        http_proxy: None,
        host: Some("192.168.1.20".into()),
        port: Some("8080".into()),
        exclusion_list: Some(String::new()),
        pac_url: Some(String::new()),
    };
    assert!(static_proxy.has_effective_proxy());
    assert_eq!(static_proxy.static_endpoint(), Some(("192.168.1.20".into(), 8080)));
    assert!(ensure_proxy_restore_supported(&static_proxy).is_ok());
}

#[test]
fn refuses_to_replace_proxy_forms_that_adb_cannot_restore_live() {
    let pac = AndroidProxySettings {
        pac_url: Some("https://proxy.example/proxy.pac".into()),
        ..AndroidProxySettings::default()
    };
    assert_eq!(
        ensure_proxy_restore_supported(&pac).expect_err("PAC must be preserved").code,
        "proxy_restore_unsupported"
    );

    let exclusions = AndroidProxySettings {
        host: Some("192.168.1.20".into()),
        port: Some("8080".into()),
        exclusion_list: Some("localhost,*.example".into()),
        ..AndroidProxySettings::default()
    };
    assert_eq!(
        ensure_proxy_restore_supported(&exclusions)
            .expect_err("exclusion list must be preserved")
            .code,
        "proxy_restore_unsupported"
    );
}

#[test]
fn restoring_writes_back_every_first_read_field() {
    let first = AndroidProxySettings {
        http_proxy: Some("10.0.0.2:8080".to_string()),
        host: Some("10.0.0.2".to_string()),
        port: Some("8080".to_string()),
        exclusion_list: None,
        pac_url: None,
    };
    let (endpoint, writes) = restore_plan(&first).expect("restorable");
    assert_eq!(endpoint, Some(("10.0.0.2".to_string(), 8080)));
    let keys: Vec<&str> = writes.iter().map(|(k, _)| k.as_str()).collect();
    assert_eq!(
        keys,
        vec!["http_proxy", "global_http_proxy_host", "global_http_proxy_port", "global_http_proxy_exclusion_list", "global_proxy_pac_url"]
    );
    assert_eq!(writes[0].1.as_deref(), Some("10.0.0.2:8080"));
    assert_eq!(writes[2].1.as_deref(), Some("8080"));
    assert_eq!(writes[3].1, None);
    let pac = AndroidProxySettings { pac_url: Some("http://pac".to_string()), ..AndroidProxySettings::default() };
    assert_eq!(restore_plan(&pac).unwrap_err().code, "proxy_restore_unsupported");
}
