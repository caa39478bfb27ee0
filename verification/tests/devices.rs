use mobius_device_lab::devices::{ios_identifiers, parse_adb_devices};

#[test]
fn parses_usb_network_and_emulator_devices() {
    let output = "List of devices attached\nemulator-5554 device product:sdk model:Pixel_8 device:emu transport_id:1\n192.168.1.42:5555 unauthorized transport_id:2\nABCDEF offline usb:1-2\n";
    let devices = parse_adb_devices(output);
    assert_eq!(devices.len(), 3);
    assert_eq!(devices[0].connection, "emulator");
    assert_eq!(devices[0].model.as_deref(), Some("Pixel_8"));
    assert_eq!(devices[1].connection, "network");
    assert_eq!(devices[1].state, "unauthorized");
    assert_eq!(devices[2].connection, "usb");
}

#[test]
fn parses_nonempty_ios_identifiers_without_guessing() {
    assert_eq!(
        ios_identifiers("\n00008020-ABCDEF\n  00008030-123456  \n"),
        vec!["00008020-ABCDEF", "00008030-123456"]
    );
}
