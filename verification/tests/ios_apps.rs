use base64::Engine;
use mobius_device_lab::ios_apps::{
    build_installer_command, parse_app_metadata, select_installer, validate_ios_app_path,
};
use mobius_device_lab::models::{IosPackageInstaller, IosPackageInstallerId};

fn installer(id: IosPackageInstallerId, name: &str, path: &str) -> IosPackageInstaller {
    IosPackageInstaller { id, name: name.into(), path: path.into() }
}

#[test]
fn only_accepts_top_level_fixed_ios_app_paths() {
    assert!(validate_ios_app_path("/Applications/MobileSafari.app").is_ok());
    assert!(validate_ios_app_path("/var/containers/Bundle/Application/ABC-123/Demo.app").is_ok());
    assert!(validate_ios_app_path("/private/var/mobile/Containers/Bundle/Application/ABC/Demo.app").is_ok());
    assert!(validate_ios_app_path("/var/mobile/Documents/Demo.app").is_err());
    assert!(validate_ios_app_path("/var/containers/Bundle/Application/ABC/Demo.app/PlugIns/Nested.app").is_err());
}

#[test]
fn installer_selection_is_allowlist_only_and_prefers_appinst() {
    let installers = vec![
        installer(IosPackageInstallerId::Appinst, "appinst", "/usr/bin/appinst"),
        installer(IosPackageInstallerId::Ipainstaller, "IPA Installer Console", "/usr/bin/ipainstaller"),
    ];
    assert_eq!(select_installer(&installers, None).unwrap().id, IosPackageInstallerId::Appinst);
    assert_eq!(
        select_installer(&installers, Some(IosPackageInstallerId::Ipainstaller)).unwrap().path,
        "/usr/bin/ipainstaller"
    );
}

#[test]
fn parses_base64_metadata_without_delimiter_injection() {
    let encoded = |value: &str| base64::engine::general_purpose::STANDARD.encode(value);
    let output = format!(
        "MOBIUS_IOS_APP\t{}\t{}\t{}\t{}\t{}",
        encoded("/Applications/Demo.app/Info.plist"),
        encoded("dev.mobius.demo"),
        encoded("Demo App"),
        encoded("1.2.3"),
        encoded("42")
    );
    let apps = parse_app_metadata(&output);
    assert_eq!(apps.len(), 1);
    assert_eq!(apps[0].bundle_id, "dev.mobius.demo");
    assert_eq!(apps[0].display_name, "Demo App");
    assert!(apps[0].system);
}

#[test]
fn generated_commands_do_not_forward_installer_options() {
    let installer = installer(IosPackageInstallerId::Appinst, "appinst", "/usr/bin/appinst");
    assert_eq!(
        build_installer_command(&installer, "/var/mobile/.mobius-runtime/.pkg-a.ipa"),
        "'/usr/bin/appinst' '/var/mobile/.mobius-runtime/.pkg-a.ipa'"
    );
}

#[test]
fn a_missing_requested_installer_is_refused() {
    let installers = vec![installer(IosPackageInstallerId::Appinst, "appinst", "/usr/bin/appinst")];
    assert!(select_installer(&installers, Some(IosPackageInstallerId::Ipainstaller)).is_err());
    assert!(select_installer(&[], None).is_err());
}
