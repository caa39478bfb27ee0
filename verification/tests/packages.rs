use mobius_device_lab::packages::{
    apk_architecture_from_entry, check_ios_usb_serial, parse_aapt_badging, parse_installed_app,
    parse_macho_architectures, parse_package_only_row, PackageMetadata, package_icon, zip64_locator_position, zip_tail_length, locate_eocd,
};

#[test]
fn parses_aapt_metadata() {
    let mut metadata = PackageMetadata::default();
    parse_aapt_badging(
        "package: name='dev.mobius.demo' versionCode='42' versionName='1.2'\nuses-permission:'android.permission.CAMERA'\napplication: label='Demo' icon='res/mipmap-xxxhdpi/ic_launcher.png'",
        &mut metadata,
    );
    assert_eq!(metadata.package_name.as_deref(), Some("dev.mobius.demo"));
    assert_eq!(metadata.display_name.as_deref(), Some("Demo"));
    assert!(metadata.permissions.iter().any(|p| p == "android.permission.CAMERA"));
    assert_eq!(metadata.icon_hints.len(), 1);
}

#[test]
fn parses_installed_package_rows() {
    let app = parse_installed_app(
        "package:/data/app/~~token/dev.mobius.demo/base.apk=dev.mobius.demo uid:10234 versionCode:42",
    )
    .expect("package row");
    assert_eq!(app.package_name, "dev.mobius.demo");
    assert_eq!(app.uid, Some(10234));
    assert_eq!(app.version_code.as_deref(), Some("42"));
    assert!(!app.system);
}

#[test]
fn parses_only_exact_valid_system_package_rows() {
    assert_eq!(parse_package_only_row("package:dev.mobius.demo\n").as_deref(), Some("dev.mobius.demo"));
    assert!(parse_package_only_row("package:dev.mobius.demo extra").is_none());
    assert!(parse_package_only_row("package:dev.mobius;demo").is_none());
}

#[test]
fn parses_thin_and_fat_macho_architectures() {
    let thin_arm64 = [0xcf, 0xfa, 0xed, 0xfe, 0x0c, 0x00, 0x00, 0x01];
    assert_eq!(parse_macho_architectures(&thin_arm64), vec!["arm64"]);

    let mut fat = vec![0xca, 0xfe, 0xba, 0xbe, 0, 0, 0, 2];
    fat.extend_from_slice(&[0x01, 0x00, 0x00, 0x0c]);
    fat.extend_from_slice(&[0; 16]);
    fat.extend_from_slice(&[0x01, 0x00, 0x00, 0x07]);
    fat.extend_from_slice(&[0; 16]);
    assert_eq!(parse_macho_architectures(&fat), vec!["arm64", "x86_64"]);
}

#[test]
fn extracts_only_native_apk_library_abis() {
    assert_eq!(apk_architecture_from_entry("lib/arm64-v8a/libdemo.so").as_deref(), Some("arm64-v8a"));
    assert_eq!(apk_architecture_from_entry("lib/arm64-v8a/"), None);
    assert_eq!(apk_architecture_from_entry("assets/arm64-v8a/libdemo.so"), None);
}

#[test]
fn lan_ssh_endpoint_cannot_reach_usbmux_installer() {
    let error = check_ios_usb_serial("ios-ssh:192.168.1.42:22")
        .expect_err("LAN endpoint must be rejected before invoking idevice tools");
    assert_eq!(error.code, "ios_usb_device_required");
    assert!(check_ios_usb_serial("00008101-000A1234").is_ok());
}

#[test]
fn zip_end_records_are_located_within_bounds() {
    assert_eq!(zip_tail_length(21).unwrap_err().message, "ZIP end-of-central-directory record is missing");
    assert_eq!(zip_tail_length(100).unwrap(), 100);
    assert_eq!(zip_tail_length(1_000_000).unwrap(), 65_557);
    assert_eq!(zip64_locator_position(100, 100, 19).unwrap_err().message, "ZIP64 locator is missing");
    assert_eq!(zip64_locator_position(1_000, 100, 30).unwrap(), 910);
    let mut tail = vec![0_u8; 30];
    tail.extend_from_slice(&[0x50, 0x4b, 0x05, 0x06]);
    tail.extend_from_slice(&[0_u8; 18]);
    assert_eq!(locate_eocd(&tail).unwrap(), 30);
    assert_eq!(locate_eocd(&tail[..40]).unwrap_err().code, "invalid_package_archive");
}

#[test]
fn icons_are_bounded_encoded_and_flagged() {
    let mut warnings = Vec::new();
    let icon = package_icon("Payload/Demo.app/Icon.PNG", 8, b"abCgBIxy", &mut warnings).expect("icon");
    assert_eq!(icon.mime_type, "image/png");
    assert_eq!(icon.data_base64, "YWJDZ0JJeHk=");
    assert_eq!(icon.size_bytes, 8);
    assert_eq!(warnings.len(), 1);
    assert_eq!(
        package_icon("a.png", 9 * 1024 * 1024, b"", &mut warnings).unwrap_err().message,
        "Selected icon exceeds the 8 MiB safety limit"
    );
    let big = vec![0_u8; 8 * 1024 * 1024 + 1];
    assert_eq!(
        package_icon("a.png", 10, &big, &mut warnings).unwrap_err().message,
        "Selected icon exceeds the 8 MiB decompression safety limit"
    );
}
