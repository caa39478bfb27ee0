use mobius_device_lab::ios_frida::{
    check_requested_host_port, create_remote_paths, is_macho_magic, launch_command, parse_started_pid,
    validate_managed_remote_path,
};
use mobius_device_lab::ios_ssh::{IosSshAuthentication, IosSshConnection};

fn connection(root: &str) -> IosSshConnection {
    IosSshConnection {
        ssh_host: "127.0.0.1".into(),
        ssh_port: 22,
        device_port: Some(22),
        username: "root".into(),
        authentication: IosSshAuthentication::PrivateKey("/tmp/key".into()),
        known_hosts_path: "/tmp/known_hosts".into(),
        host_key_alias: None,
        configured_roots: vec![root.into()],
        allowed_roots: vec![root.into()],
        server_system: Some("Darwin".into()),
        remote_uid: Some(0),
    }
}

#[test]
fn accepts_thin_and_universal_macho_magics() {
    assert!(is_macho_magic([0xcf, 0xfa, 0xed, 0xfe]));
    assert!(is_macho_magic([0xca, 0xfe, 0xba, 0xbe]));
    assert!(is_macho_magic([0xbf, 0xba, 0xfe, 0xca]));
    assert!(!is_macho_magic([0x7f, b'E', b'L', b'F']));
    assert!(!is_macho_magic([0xfd, b'7', b'z', b'X']));
}

#[test]
fn generated_paths_are_neutral_and_confined() {
    let connection = connection("/var/mobile");
    let paths = create_remote_paths(&connection, "0123456789abcdef").expect("paths");
    assert!(paths.installed_path.starts_with("/var/mobile/.mobius-runtime/.service-"));
    assert!(!paths.installed_path.to_ascii_lowercase().contains("frida"));
    assert!(validate_managed_remote_path(&connection, &paths.installed_path).is_ok());
    assert!(validate_managed_remote_path(&connection, "/var/mobile/elsewhere/tool").is_err());
}

#[test]
fn rejects_an_allowed_root_that_would_leak_the_upstream_name() {
    let connection = connection("/var/mobile/frida-files");
    assert!(create_remote_paths(&connection, "0123456789abcdef").is_err());
}

#[test]
fn parses_only_a_safe_pid_marker() {
    assert_eq!(parse_started_pid("MOBIUS_IOS_SERVICE_PID:42\n").unwrap(), 42);
    assert!(parse_started_pid("MOBIUS_IOS_SERVICE_PID:1\n").is_err());
    assert!(parse_started_pid("42\n").is_err());
}

#[test]
fn launch_is_fixed_to_device_loopback() {
    let command = launch_command(
        "/var/mobile/.mobius-runtime/.service-a",
        "/var/mobile/.mobius-runtime/.service-a.log",
        31337,
    );
    assert!(command.contains("-l 127.0.0.1:31337"));
    assert!(!command.contains("0.0.0.0"));
}

#[test]
fn explicit_zero_host_port_is_rejected() {
    assert!(check_requested_host_port(Some(0)).is_err());
    assert!(check_requested_host_port(None).is_ok());
    assert!(check_requested_host_port(Some(27_042)).is_ok());
}
