use mobius_device_lab::ios_native::{
    device_from_info, device_list, json_candidates, raw_identifiers, target_args, DeviceEntry,
};
use mobius_device_lab::models::IosDeviceInfo;

fn entry(udid: &str, name: Option<&str>, connection: Option<&str>) -> DeviceEntry {
    DeviceEntry {
        udid: udid.into(),
        product_name: name.map(str::to_string),
        product_type: None,
        product_version: None,
        connection_type: connection.map(str::to_string),
    }
}

#[test]
fn parses_detailed_device_list() {
    let devices = device_list(&[
        DeviceEntry {
            udid: "00008101-ABC".into(),
            product_name: Some("iPhone".into()),
            product_type: Some("iPhone15,2".into()),
            product_version: Some("17.6".into()),
            connection_type: Some("USB".into()),
        },
        DeviceEntry {
            udid: "wifi-device".into(),
            product_name: Some("iPad".into()),
            product_type: Some("iPad14,5".into()),
            product_version: Some("18.0".into()),
            connection_type: Some("Network".into()),
        },
    ]);
    assert_eq!(devices.len(), 2);
    assert_eq!(devices[0].connection, "usb");
    assert_eq!(devices[1].connection, "network");
}

#[test]
fn raw_device_list_keeps_untrusted_devices_visible() {
    let devices = raw_identifiers(&[" 00008101-ABC ".to_string(), String::new(), "wifi-device".to_string()]);
    assert_eq!(devices, ["00008101-ABC", "wifi-device"]);
}

#[test]
fn partial_detailed_entries_do_not_render_blank_identity() {
    let devices = device_list(&[DeviceEntry {
        udid: "new-device".into(),
        product_name: Some(String::new()),
        product_type: Some(" ".into()),
        product_version: Some(String::new()),
        connection_type: Some("USB".into()),
    }]);
    assert_eq!(devices.len(), 1);
    assert!(devices[0].name.is_none());
    assert!(devices[0].product_type.is_none());
    assert!(devices[0].product_version.is_none());
}

#[test]
fn usb_wins_when_go_ios_reports_both_transports() {
    let devices = device_list(&[entry("same-device", None, Some("Network")), entry("same-device", None, Some("USB"))]);
    assert_eq!(devices.len(), 1);
    assert_eq!(devices[0].connection, "usb");
}

#[test]
fn accepts_a_log_line_before_compact_json() {
    let candidates = json_candidates("warning written by a wrapped build\n{\"deviceList\":[]}");
    assert_eq!(candidates[0], "warning written by a wrapped build\n{\"deviceList\":[]}");
    assert_eq!(candidates[1], "{\"deviceList\":[]}");
    assert_eq!(candidates[2], "warning written by a wrapped build");
}

#[test]
fn converts_scalar_and_nested_device_properties() {
    let info = IosDeviceInfo {
        udid: "device-1".into(),
        properties: vec![
            ("DeviceName".into(), "Lab iPhone".into()),
            ("ProductVersion".into(), "17.5".into()),
            ("ConnectionType".into(), "Network".into()),
        ],
    };
    let device = device_from_info("device-1", &info);
    assert_eq!(device.name.as_deref(), Some("Lab iPhone"));
    assert_eq!(device.product_version.as_deref(), Some("17.5"));
    assert_eq!(device.build_version, None);
    assert_eq!(device.connection, "network");
}

#[test]
fn devices_are_ordered_and_blank_identifiers_dropped() {
    let devices = device_list(&[entry("b", Some("B"), None), entry("  ", None, None), entry("a", Some("A"), Some("usb"))]);
    let ids: Vec<&str> = devices.iter().map(|d| d.udid.as_str()).collect();
    assert_eq!(ids, vec!["a", "b"]);
    assert_eq!(
        target_args("screenshot", "device-1", &["--output=/tmp/x.png".to_string()]),
        vec!["screenshot", "--udid=device-1", "--output=/tmp/x.png"]
    );
}
