use mobius_device_lab::ios_ssh::{
    askpass_environment, is_path_within, join_remote_path, normalize_remote_path,
    remote_parent_and_name, require_allowed_path, scp_remote_spec, ssh_base_args,
    validate_allowed_roots, validate_lan_host, validate_password, zeroize_askpass_environment,
    IosSshAuthentication, IosSshConnection, SessionRegistry,
};
use mobius_device_lab::ip::IpAddress;
use mobius_device_lab::listing::parse_ls_line;
use mobius_device_lab::models::SecretString;

fn connection(authentication: IosSshAuthentication) -> IosSshConnection {
    IosSshConnection {
        ssh_host: "127.0.0.1".into(),
        ssh_port: 22,
        device_port: Some(22),
        username: "root".into(),
        authentication,
        known_hosts_path: "/tmp/mobius-known-hosts".into(),
        host_key_alias: None,
        configured_roots: vec!["/var/mobile".into()],
        allowed_roots: vec!["/var/mobile".into()],
        server_system: Some("Darwin".into()),
        remote_uid: Some(0),
    }
}

fn key_connection() -> IosSshConnection {
    connection(IosSshAuthentication::PrivateKey("/tmp/test-key".into()))
}

fn v4(text: &str) -> Option<IpAddress> {
    mobius_device_lab::ip::parse_ipv4(text).map(|(a, b, c, d)| IpAddress::V4(a, b, c, d))
}

#[test]
fn password_auth_uses_askpass_without_putting_secret_in_arguments() {
    let secret = SecretString::new("sample-password".to_string());
    let connection = connection(IosSshAuthentication::Password(secret));
    let args = ssh_base_args(&connection);
    assert!(!args.iter().any(|argument| argument.contains("sample-password")));
    assert!(args.iter().any(|argument| argument == "PubkeyAuthentication=no"));
    assert!(args.iter().any(|argument| argument == "PreferredAuthentications=password"));
    assert!(args.iter().any(|argument| argument == "NumberOfPasswordPrompts=1"));
    assert!(args.iter().any(|argument| argument == "KbdInteractiveAuthentication=no"));
    assert!(!args.iter().any(|argument| argument == "-i"));

    let mut environment = askpass_environment(&connection, "/opt/mobius/mobius");
    assert_eq!(
        environment
            .iter()
            .find(|(key, _)| key == "MOBIUS_SSH_PASSWORD")
            .map(|(_, value)| value.as_str()),
        Some("sample-password")
    );
    zeroize_askpass_environment(&mut environment);
    assert_eq!(
        environment
            .iter()
            .find(|(key, _)| key == "MOBIUS_SSH_PASSWORD")
            .map(|(_, value)| value.as_str()),
        Some("")
    );
}

#[test]
fn private_key_auth_remains_batch_only() {
    let connection = key_connection();
    let args = ssh_base_args(&connection);
    assert!(args.iter().any(|argument| argument == "BatchMode=yes"));
    assert!(args.iter().any(|argument| argument == "PasswordAuthentication=no"));
    assert!(askpass_environment(&connection, "/opt/mobius/mobius").is_empty());
}

#[test]
fn password_validation_never_includes_secret_in_errors() {
    let invalid = "line-one\nline-two";
    let error = validate_password(invalid).expect_err("invalid password");
    assert!(!error.message.contains(invalid));
    assert!(validate_password("alpine").is_ok());
}

#[test]
fn lan_ssh_is_limited_to_local_addresses() {
    assert!(validate_lan_host(v4("192.168.1.9")).is_ok());
    assert!(validate_lan_host(v4("10.0.0.4")).is_ok());
    assert!(validate_lan_host(Some(IpAddress::V6(0xfe80, 0, 0, 0, 0, 0, 0, 0x1234))).is_ok());
    assert!(validate_lan_host(Some(IpAddress::V6(0xfd00, 0, 0, 0, 0, 0, 0, 5))).is_ok());
    assert!(validate_lan_host(v4("8.8.8.8")).is_err());
    assert!(validate_lan_host(v4("example.com")).is_err());
}

#[test]
fn allowed_roots_use_path_component_boundaries() {
    assert!(is_path_within("/var/mobile", "/var/mobile"));
    assert!(is_path_within("/var/mobile/Documents/a", "/var/mobile"));
    assert!(!is_path_within("/var/mobile2/a", "/var/mobile"));
}

#[test]
fn accepts_rootless_alias_and_physical_root_without_prefix_confusion() {
    let mut connection = key_connection();
    connection.allowed_roots = vec!["/rootfs/private/var/mobile/.jbroot-ABC/var/mobile".into()];
    assert!(require_allowed_path(&connection, "/var/mobile/Documents", false).is_ok());
    assert!(require_allowed_path(
        &connection,
        "/rootfs/private/var/mobile/.jbroot-ABC/var/mobile/Documents",
        false,
    )
    .is_ok());
    assert!(require_allowed_path(&connection, "/var/mobile2/Documents", false).is_err());
    assert!(require_allowed_path(
        &connection,
        "/rootfs/private/var/mobile/.jbroot-ABC/var/mobile2/Documents",
        false,
    )
    .is_err());
    assert!(require_allowed_path(&connection, "/var/mobile", true).is_err());
}

#[test]
fn scp_transfer_keeps_rootless_alias_instead_of_physical_jbroot_path() {
    let connection = key_connection();
    let lexical_parent =
        "/var/mobile/Containers/Shared/AppGroup/.jbroot-ABC/var/mobile/Library/Preferences";
    let lexical_file = join_remote_path(lexical_parent, "example.plist").expect("path");
    let spec = scp_remote_spec(&connection, &lexical_file).expect("SCP spec");
    assert_eq!(
        lexical_file,
        "/var/mobile/Containers/Shared/AppGroup/.jbroot-ABC/var/mobile/Library/Preferences/example.plist"
    );
    assert!(spec.ends_with(
        ":/var/mobile/Containers/Shared/AppGroup/.jbroot-ABC/var/mobile/Library/Preferences/example.plist"
    ));
    assert!(!spec.contains("/rootfs/"));
}

#[test]
fn scp_remote_spec_passes_spaces_and_apostrophes_as_raw_sftp_path() {
    let connection = key_connection();
    let remote_path = "/var/mobile/Library/Preferences/O'Brien Settings.plist";
    assert_eq!(
        scp_remote_spec(&connection, remote_path).expect("SCP spec"),
        "root@127.0.0.1:/var/mobile/Library/Preferences/O'Brien Settings.plist"
    );
}

#[test]
fn scp_remote_spec_rejects_globs_and_escape_characters() {
    let connection = key_connection();
    for remote_path in [
        "/var/mobile/*.plist",
        "/var/mobile/file?.plist",
        "/var/mobile/file[0].plist",
        "/var/mobile/file].plist",
        "/var/mobile/file\\name.plist",
    ] {
        let error = scp_remote_spec(&connection, remote_path).expect_err("unsafe SCP path");
        assert_eq!(error.code, "unsupported_scp_path");
    }
}

#[test]
fn parses_bsd_ios_listing_with_spaces() {
    let entry = parse_ls_line("/var/mobile", "-rw-r--r-- 1 501 501 42 Sep  4 12:30 hello world.txt")
        .expect("entry");
    assert_eq!(entry.name, "hello world.txt");
    assert_eq!(entry.path, "/var/mobile/hello world.txt");
    assert_eq!(entry.size, Some(42));
}

#[test]
fn parses_ios_links_and_inaccessible_rows() {
    let link = parse_ls_line("/var/mobile", "lrwxr-xr-x 1 0 0 15 Sep  5 09:00 Media -> /var/mobile/Media")
        .expect("symbolic link");
    assert_eq!(link.name, "Media");
    assert_eq!(link.path, "/var/mobile/Media");
    assert_eq!(link.kind, "link");
    assert_eq!(link.link_target.as_deref(), Some("/var/mobile/Media"));

    let inaccessible =
        parse_ls_line("/var/mobile", "d????????? ? ? ? ? ? Protected").expect("inaccessible directory");
    assert_eq!(inaccessible.name, "Protected");
    assert_eq!(inaccessible.kind, "directory");
}

#[test]
fn rejects_root_and_parent_segments() {
    assert!(validate_allowed_roots(&["/".to_string()]).is_err());
    assert!(normalize_remote_path("/var/mobile/../root").is_err());
    assert_eq!(
        remote_parent_and_name("/var/mobile/a.txt").expect("path"),
        ("/var/mobile".to_string(), "a.txt".to_string())
    );
}

#[test]
fn ssh_arguments_do_not_depend_on_the_password() {
    let a = ssh_base_args(&connection(IosSshAuthentication::Password(SecretString::new("one".into()))));
    let b = ssh_base_args(&connection(IosSshAuthentication::Password(SecretString::new("two".into()))));
    assert_eq!(a, b);
}

#[test]
fn session_registry_never_exceeds_sixteen() {
    let mut registry: SessionRegistry<u32> = SessionRegistry::new();
    for i in 0..16 {
        registry.insert(false, format!("ios-ssh-{i}"), i).expect("room left");
    }
    let (error, refused) = registry.insert(false, "ios-ssh-16".to_string(), 16).unwrap_err();
    assert_eq!(error.code, "ios_ssh_session_limit");
    assert_eq!(refused, 16);
    assert_eq!(registry.len(), 16);
    assert_eq!(registry.remove("ios-ssh-3"), Some(3));
    assert!(!registry.contains("ios-ssh-3"));
    assert_eq!(registry.get("ios-ssh-4"), Some(&4));
    registry.insert(false, "ios-ssh-16".to_string(), 16).expect("room after removal");
    let (error, _) = registry.insert(true, "ios-ssh-17".to_string(), 17).unwrap_err();
    assert_eq!(error.code, "app_shutting_down");
    assert_eq!(registry.drain().len(), 16);
    assert_eq!(registry.len(), 0);
}

#[test]
fn a_session_under_a_kept_id_takes_its_place() {
    let mut registry: SessionRegistry<u32> = SessionRegistry::new();
    for i in 0..16 {
        registry.insert(false, format!("ios-ssh-{i}"), i).expect("room left");
    }
    let (error, refused) = registry.insert(false, "ios-ssh-4".to_string(), 40).unwrap_err();
    assert_eq!(error.code, "ios_ssh_session_limit");
    assert_eq!(refused, 40);
    assert_eq!(registry.get("ios-ssh-4"), Some(&4));
    assert_eq!(registry.remove("ios-ssh-0"), Some(0));
    registry.insert(false, "ios-ssh-4".to_string(), 40).expect("room after removal");
    assert_eq!(registry.len(), 15);
    assert_eq!(registry.get("ios-ssh-4"), Some(&40));
    assert_eq!(registry.restore("ios-ssh-5".to_string(), 50), None);
    assert_eq!(registry.len(), 15);
    assert_eq!(registry.get("ios-ssh-5"), Some(&50));
    assert_eq!(registry.restore("ios-ssh-0".to_string(), 0), None);
    assert_eq!(registry.restore("ios-ssh-99".to_string(), 99), Some(99));
    assert_eq!(registry.len(), 16);
    let drained = registry.drain();
    assert_eq!(drained[0], ("ios-ssh-1".to_string(), 1));
    assert_eq!(drained[15], ("ios-ssh-0".to_string(), 0));
}
