use mobius_device_lab::error::ProcessOutput;
use mobius_device_lab::ios_ports::{
    check_tunnel_slot, go_ios_forward_args, iproxy_args, new_tunnel_id, order_tunnels,
    select_usb_tunnel_provider, ssh_tunnel_args, tunnel_result, usb_providers_failed,
    validate_request, validate_tunnel_id, verified_go_ios_version, ManagedTunnel, UsbTunnelProvider,
};
use mobius_device_lab::error::ApiError;
use mobius_device_lab::models::{
    CreateIosPortTunnelRequest, IosPortTunnel, IosPortTunnelDirection, IosPortTunnelTransport,
};
use mobius_device_lab::toolchain::ToolSource;

fn request(transport: IosPortTunnelTransport, direction: IosPortTunnelDirection) -> CreateIosPortTunnelRequest {
    CreateIosPortTunnelRequest {
        transport,
        direction,
        udid: "00008020-ABCDEF".into(),
        session_id: Some("ios-ssh-test-session".into()),
        host_port: Some(27_042),
        device_port: 27_042,
    }
}

fn version_output(stdout: &str) -> ProcessOutput {
    ProcessOutput {
        program: "ios".into(),
        exit_code: Some(0),
        stdout: stdout.into(),
        stderr: String::new(),
        timed_out: false,
        truncated: false,
        duration_ms: 1,
    }
}

#[test]
fn ssh_forward_and_reverse_are_fixed_to_loopback() {
    let forward = ssh_tunnel_args(IosPortTunnelDirection::HostToDevice, 8_080, 9_090);
    assert!(forward.iter().any(|value| value == "ExitOnForwardFailure=yes"));
    assert!(forward.iter().any(|value| value == "GatewayPorts=no"));
    assert!(forward.iter().any(|value| value == "-L"));
    assert!(forward.iter().any(|value| value == "127.0.0.1:8080:127.0.0.1:9090"));

    let reverse = ssh_tunnel_args(IosPortTunnelDirection::DeviceToHost, 8_080, 9_090);
    assert!(reverse.iter().any(|value| value == "-R"));
    assert!(reverse.iter().any(|value| value == "127.0.0.1:9090:127.0.0.1:8080"));
}

#[test]
fn iproxy_arguments_bind_udid_and_host_loopback() {
    assert_eq!(
        iproxy_args("device-1", 8_080, 9_090),
        vec!["-u", "device-1", "-l", "-s", "127.0.0.1", "8080:9090"]
    );
}

#[test]
fn go_ios_forward_arguments_keep_host_and_device_port_order() {
    assert_eq!(
        go_ios_forward_args("device-1", 8_080, 9_090),
        vec!["forward", "8080", "9090", "--udid=device-1"]
    );
}

#[test]
fn go_ios_forward_requires_exact_patched_bundled_version() {
    let output = version_output("{\"version\":\"1.3.2-mobius.1\"}\n");
    assert_eq!(select_usb_tunnel_provider(ToolSource::Bundled, &output), UsbTunnelProvider::BundledGoIos);
    assert_eq!(select_usb_tunnel_provider(ToolSource::Configured, &output), UsbTunnelProvider::Iproxy);
    assert_eq!(select_usb_tunnel_provider(ToolSource::Path, &output), UsbTunnelProvider::Iproxy);

    let upstream = version_output("{\"version\":\"1.3.2\"}\n");
    assert!(!verified_go_ios_version(ToolSource::Bundled, &upstream));

    let mut timed_out = output.clone();
    timed_out.timed_out = true;
    assert!(!verified_go_ios_version(ToolSource::Bundled, &timed_out));

    let wrapped = version_output("unexpected\n{\"version\":\"1.3.2-mobius.1\"}\n");
    assert!(!verified_go_ios_version(ToolSource::Bundled, &wrapped));
}

#[test]
fn rejects_iproxy_reverse_and_incomplete_ssh_requests() {
    let reverse = request(IosPortTunnelTransport::Iproxy, IosPortTunnelDirection::DeviceToHost);
    assert_eq!(
        validate_request(&reverse).expect_err("iproxy reverse must fail").code,
        "unsupported_iproxy_direction"
    );

    let mut ssh = request(IosPortTunnelTransport::Ssh, IosPortTunnelDirection::HostToDevice);
    ssh.session_id = None;
    assert_eq!(validate_request(&ssh).expect_err("session is required").code, "ios_tunnel_session_required");
}

#[test]
fn reverse_requires_a_real_host_service_port() {
    let mut reverse = request(IosPortTunnelTransport::Ssh, IosPortTunnelDirection::DeviceToHost);
    reverse.host_port = None;
    assert_eq!(
        validate_request(&reverse).expect_err("host port is required").code,
        "ios_tunnel_host_port_required"
    );
    reverse.host_port = Some(0);
    assert_eq!(validate_request(&reverse).expect_err("zero must fail").code, "invalid_ios_tunnel_port");
}

#[test]
fn a_complete_request_is_accepted() {
    assert!(validate_request(&request(IosPortTunnelTransport::Ssh, IosPortTunnelDirection::DeviceToHost)).is_ok());
    assert!(validate_request(&request(IosPortTunnelTransport::Iproxy, IosPortTunnelDirection::HostToDevice)).is_ok());
    let mut zero_device = request(IosPortTunnelTransport::Iproxy, IosPortTunnelDirection::HostToDevice);
    zero_device.device_port = 0;
    assert_eq!(validate_request(&zero_device).unwrap_err().message, "The device port must be between 1 and 65535");
}

#[test]
fn new_tunnel_ids_pass_validation() {
    let first = new_tunnel_id().expect("tunnel id");
    let second = new_tunnel_id().expect("tunnel id");
    assert_ne!(first, second);
    assert!(first.starts_with("ios-tunnel-"));
    assert_eq!(first.len(), 11 + 32);
    assert!(validate_tunnel_id(&first).is_ok());
    assert!(validate_tunnel_id("ios-tunnel-xyz").is_err());
    assert!(validate_tunnel_id("tunnel-00112233445566778899aabbccddeeff").is_err());
    assert!(validate_tunnel_id("ios-tunnel-00112233445566778899AABBCCDDEEFF").is_ok());
}

#[test]
fn tunnel_capacity_and_collisions_are_refused() {
    assert!(check_tunnel_slot(63, false).is_ok());
    assert_eq!(check_tunnel_slot(64, false).unwrap_err().code, "ios_tunnel_limit");
    assert_eq!(check_tunnel_slot(3, true).unwrap_err().code, "ios_tunnel_id_collision");
}

#[test]
fn both_failed_usb_providers_are_reported_together() {
    let primary = ApiError::new("go_ios_tunnel_spawn_failed", "go-ios failed");
    let fallback = ApiError::new("iproxy_spawn_failed", "iproxy failed");
    let combined = usb_providers_failed(Some(primary), fallback.clone());
    assert_eq!(combined.code, "ios_usb_tunnel_providers_failed");
    assert_eq!(
        combined.message,
        "The bundled go-ios tunnel and iproxy fallback both failed: go-ios failed; iproxy failed"
    );
    let alone = usb_providers_failed(None, fallback);
    assert_eq!(alone.code, "iproxy_spawn_failed");
}

fn record(id: &str) -> IosPortTunnel {
    tunnel_result(
        &ManagedTunnel {
            tunnel_id: id.into(),
            transport: IosPortTunnelTransport::Iproxy,
            direction: IosPortTunnelDirection::HostToDevice,
            udid: "device-1".into(),
            session_id: None,
            host_port: 8_080,
            device_port: 9_090,
            pid: 42,
        },
        true,
    )
}

#[test]
fn tunnels_are_listed_by_identifier_and_bound_to_loopback() {
    let ordered = order_tunnels(vec![record("ios-tunnel-c"), record("ios-tunnel-a"), record("ios-tunnel-b")]);
    let ids: Vec<&str> = ordered.iter().map(|t| t.tunnel_id.as_str()).collect();
    assert_eq!(ids, vec!["ios-tunnel-a", "ios-tunnel-b", "ios-tunnel-c"]);
    assert!(ordered.iter().all(|t| t.bind_address == "127.0.0.1"));
}
