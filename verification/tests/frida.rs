use mobius_device_lab::frida::{
    check_start_slot, check_started_identity, check_upload_slot, resolve_ports, validate_frida_remote_path,
};
use mobius_device_lab::models::StartFridaRequest;

fn request(port: Option<u16>, device_port: Option<u16>, host_port: Option<u16>) -> StartFridaRequest {
    StartFridaRequest {
        serial: "device".into(),
        platform: None,
        remote_path: None,
        listen_address: None,
        port,
        device_port,
        host_port,
    }
}

#[test]
fn neutral_remote_alias_is_enforced() {
    assert!(validate_frida_remote_path("/data/local/tmp/mobius-agentd").is_ok());
    assert!(validate_frida_remote_path("/data/local/tmp/frida-server").is_err());
    assert!(validate_frida_remote_path("/sdcard/mobius-agentd").is_err());
}

#[test]
fn compatibility_port_maps_both_sides() {
    assert_eq!(resolve_ports(&request(Some(27_043), None, None)).unwrap(), (27_043, 27_043));
}

#[test]
fn explicit_ports_take_precedence_over_the_alias() {
    assert_eq!(resolve_ports(&request(Some(27_043), Some(27_050), Some(28_000))).unwrap(), (27_050, 28_000));
}

#[test]
fn one_managed_server_per_device() {
    assert!(check_start_slot(false, false).is_ok());
    assert_eq!(check_start_slot(false, true).unwrap_err().code, "frida_already_managed");
    assert_eq!(check_start_slot(true, true).unwrap_err().code, "app_shutting_down");
    assert!(check_upload_slot(false, false).is_ok());
    assert_eq!(check_upload_slot(false, true).unwrap_err().code, "frida_server_active");
    assert_eq!(check_upload_slot(true, false).unwrap_err().code, "app_shutting_down");
}

#[test]
fn the_launched_binary_must_be_the_requested_one() {
    assert!(check_started_identity("/data/local/tmp/frida-server", "/data/local/tmp/frida-server").is_ok());
    let error = check_started_identity("/system/bin/sh", "/data/local/tmp/frida-server").unwrap_err();
    assert_eq!(error.code, "frida_identity_mismatch");
}
