use mobius_device_lab::models::MobilePlatform;
use mobius_device_lab::package_analysis::{
    apk_architecture_set, apkanalyzer_args, apkanalyzer_label, apply_apkanalyzer, finish_apk_warnings,
    check_plist_entry_size, ipa_architecture_set, ipa_binary_candidates, ipa_info_plist, ipa_metadata, is_root_ipa_info_plist, md5_hex, needs_apkanalyzer,
    no_architecture_warning, single_root_plist, ApkSource, ApkanalyzerField, Md5Stream, PlistNode,
};
use mobius_device_lab::packages::{choose_icon, parse_macho_architectures, ArchiveEntry, PackageMetadata};

fn s(text: &str) -> PlistNode {
    PlistNode::String(text.to_string())
}

fn demo_plist() -> PlistNode {
    PlistNode::Dictionary(vec![
        ("CFBundleIdentifier".to_string(), s("dev.mobius.demo")),
        ("CFBundleDisplayName".to_string(), s("Demo")),
        ("CFBundleShortVersionString".to_string(), s("1.2")),
        ("CFBundleVersion".to_string(), s("42")),
        ("CFBundleExecutable".to_string(), s("Demo")),
        ("CFBundleIconFiles".to_string(), PlistNode::Array(vec![s("AppIcon60x60")])),
        ("NSCameraUsageDescription".to_string(), s("Scan a code")),
    ])
}

#[test]
fn computes_md5_as_a_stream() {
    assert_eq!(md5_hex(b"abc"), "900150983cd24fb0d6963f7d28e17f72");
}

#[test]
fn md5_of_empty_input() {
    assert_eq!(md5_hex(b""), "d41d8cd98f00b204e9800998ecf8427e");
}

#[test]
fn analyzes_ipa_plist_icon_and_architecture() {
    let entries = vec![
        ArchiveEntry { name: "Payload/Demo.app/PlugIns/Decoy.app/Info.plist".to_string(), size: 24, is_dir: false },
        ArchiveEntry {
            name: "Payload/Demo.app/PlugIns/Decoy.app/AppIcon60x60@3x.png".to_string(),
            size: 256,
            is_dir: false,
        },
        ArchiveEntry { name: "Payload/Demo.app/Info.plist".to_string(), size: 600, is_dir: false },
        ArchiveEntry { name: "Payload/Demo.app/Demo".to_string(), size: 8, is_dir: false },
        ArchiveEntry { name: "Payload/Demo.app/AppIcon60x60@3x.png".to_string(), size: 16, is_dir: false },
    ];
    let matches: Vec<usize> = entries
        .iter()
        .enumerate()
        .filter(|(_, e)| is_root_ipa_info_plist(&e.name, e.is_dir))
        .map(|(i, _)| i)
        .collect();
    let index = single_root_plist(&matches).expect("one root plist");
    assert_eq!(entries[index].name, "Payload/Demo.app/Info.plist");

    let plist = br#"<?xml version="1.0" encoding="UTF-8"?>
<!DOCTYPE plist PUBLIC "-//Apple//DTD PLIST 1.0//EN" "http://www.apple.com/DTDs/PropertyList-1.0.dtd">
<plist version="1.0"><dict>
<key>CFBundleIdentifier</key><string>dev.mobius.demo</string>
<key>CFBundleDisplayName</key><string>Demo</string>
<key>CFBundleShortVersionString</key><string>1.2</string>
<key>CFBundleVersion</key><string>42</string>
<key>CFBundleExecutable</key><string>Demo</string>
<key>CFBundleIconFiles</key><array><string>AppIcon60x60</string></array>
<key>NSCameraUsageDescription</key><string>Scan a code</string>
</dict></plist>"#;
    check_plist_entry_size(plist.len() as u64).expect("plist size");
    let metadata = ipa_info_plist(&entries[index].name, plist).expect("plist metadata");
    assert_eq!(metadata.icon_hints, vec!["Payload/Demo.app/AppIcon60x60".to_string()]);
    assert_eq!(metadata.package_name.as_deref(), Some("dev.mobius.demo"));
    assert_eq!(metadata.app_prefix, "Payload/Demo.app/");
    assert_eq!(
        metadata.usage_descriptions,
        vec![("NSCameraUsageDescription".to_string(), "Scan a code".to_string())]
    );

    let names: Vec<String> = entries.iter().map(|e| e.name.clone()).collect();
    let (binaries, warning) = ipa_binary_candidates(&metadata.app_prefix, metadata.executable.as_deref(), &names);
    assert_eq!(binaries, vec!["Payload/Demo.app/Demo".to_string()]);
    assert!(warning.is_none());
    let architectures = parse_macho_architectures(&[0xcf, 0xfa, 0xed, 0xfe, 0x0c, 0x00, 0x00, 0x01]);
    assert_eq!(architectures, vec!["arm64"]);
    assert!(no_architecture_warning(&architectures).is_none());

    let icon = choose_icon(&entries, &metadata.icon_hints, MobilePlatform::Ios, Some(&metadata.app_prefix))
        .expect("icon entry");
    assert_eq!(entries[icon].name, "Payload/Demo.app/AppIcon60x60@3x.png");
}

#[test]
fn ipa_plist_root_must_be_a_dictionary() {
    let err = ipa_metadata(&s("not a dictionary"), "Payload/Demo.app/Info.plist").unwrap_err();
    assert_eq!(err.code, "invalid_ipa_plist");
}

#[test]
fn root_plist_is_exactly_payload_app_info_plist() {
    assert!(is_root_ipa_info_plist("Payload/Demo.app/Info.plist", false));
    assert!(is_root_ipa_info_plist("Payload//Demo.app/./Info.plist", false));
    assert!(!is_root_ipa_info_plist("Payload/Demo.app/Info.plist", true));
    assert!(!is_root_ipa_info_plist("Payload/Demo.app/PlugIns/Decoy.app/Info.plist", false));
    assert!(!is_root_ipa_info_plist("Payload/Demo/Info.plist", false));
}

#[test]
fn root_plist_must_be_unique() {
    assert_eq!(single_root_plist(&[]).unwrap_err().code, "ipa_info_plist_missing");
    assert_eq!(single_root_plist(&[1, 4]).unwrap_err().code, "ipa_info_plist_ambiguous");
    assert_eq!(single_root_plist(&[3]).unwrap(), 3);
}

#[test]
fn apk_architectures_are_sorted_and_unique() {
    let entries = vec![
        ("lib/x86_64/liba.so".to_string(), false),
        ("lib/arm64-v8a/liba.so".to_string(), false),
        ("lib/arm64-v8a/libb.so".to_string(), false),
        ("lib/armeabi-v7a/".to_string(), true),
        ("assets/x86/liba.so".to_string(), false),
    ];
    assert_eq!(apk_architecture_set(&entries), vec!["arm64-v8a", "x86_64"]);
}

#[test]
fn missing_ipa_architecture_is_reported() {
    assert!(no_architecture_warning(&[]).expect("warning").contains("architecture was left unknown"));
}

#[test]
fn apkanalyzer_queries_each_manifest_field() {
    assert_eq!(
        apkanalyzer_args(Some(ApkanalyzerField::VersionCode), "/tmp/a.apk"),
        vec!["manifest", "version-code", "/tmp/a.apk"]
    );
    assert_eq!(apkanalyzer_args(None, "/tmp/a.apk"), vec!["manifest", "print", "/tmp/a.apk"]);
}

#[test]
fn apkanalyzer_label_skips_resource_references() {
    let manifest = "<manifest>\n<application android:label=\"@string/app\" />\n<activity android:label=\"Demo\" />";
    assert_eq!(apkanalyzer_label(manifest).as_deref(), Some("Demo"));
    assert!(apkanalyzer_label("<application android:label=\"@string/app\" />").is_none());
}

#[test]
fn apk_source_follows_the_analyzers_that_helped() {
    let mut warnings = Vec::new();
    assert_eq!(apply_apkanalyzer(true, Some(Ok(true)), &mut warnings), (ApkSource::Aapt2Apkanalyzer, true));
    assert_eq!(apply_apkanalyzer(false, Some(Ok(false)), &mut warnings), (ApkSource::ZipFallback, false));
    assert_eq!(warnings, vec!["apkanalyzer returned no usable manifest metadata"]);
    assert_eq!(ApkSource::Aapt2Apkanalyzer.as_str(), "aapt2+apkanalyzer");
}

#[test]
fn unresolved_apk_metadata_is_warned_about() {
    let metadata = PackageMetadata::default();
    assert!(needs_apkanalyzer(&metadata));
    let mut warnings = Vec::new();
    finish_apk_warnings(false, &metadata, &mut warnings);
    assert_eq!(warnings.len(), 3);
    assert_eq!(warnings[1], "Android package identifier could not be resolved");
}

#[test]
fn ipa_plist_bytes_are_parsed_and_bounded() {
    let parsed = ipa_metadata(&demo_plist(), "Payload/Demo.app/Info.plist").expect("node metadata");
    assert_eq!(parsed.version_code.as_deref(), Some("42"));
    let err = ipa_info_plist("Payload/Demo.app/Info.plist", b"{ \"unterminated\" = ").unwrap_err();
    assert_eq!(err.code, "invalid_ipa_plist");
    assert!(err.message.starts_with("Unable to decode Info.plist: "));
    let big = vec![b' '; 4 * 1024 * 1024 + 1];
    assert_eq!(ipa_info_plist("Payload/Demo.app/Info.plist", &big).unwrap_err().code, "ipa_info_plist_too_large");
    assert_eq!(check_plist_entry_size(4 * 1024 * 1024 + 1).unwrap_err().code, "ipa_info_plist_too_large");
    let not_dict = br#"<?xml version="1.0"?><plist version="1.0"><string>x</string></plist>"#;
    assert_eq!(ipa_info_plist("Payload/Demo.app/Info.plist", not_dict).unwrap_err().code, "invalid_ipa_plist");
}

#[test]
fn md5_in_pieces_matches_md5_at_once() {
    let mut stream = Md5Stream::new();
    stream.update(b"a");
    stream.update(b"");
    stream.update(b"bc");
    assert_eq!(stream.finish_hex(), "900150983cd24fb0d6963f7d28e17f72");
    let data: Vec<u8> = (0..200_000u32).map(|i| (i % 251) as u8).collect();
    let mut stream = Md5Stream::new();
    for piece in data.chunks(65_536) {
        stream.update(piece);
    }
    assert_eq!(stream.finish_hex(), md5_hex(&data));
    assert_eq!(Md5Stream::new().finish_hex(), "d41d8cd98f00b204e9800998ecf8427e");
}

#[test]
fn ipa_architectures_are_the_union_of_every_header() {
    let thin_arm64 = vec![0xcf, 0xfa, 0xed, 0xfe, 0x0c, 0x00, 0x00, 0x01];
    let mut fat = vec![0xca, 0xfe, 0xba, 0xbe, 0, 0, 0, 2];
    fat.extend_from_slice(&[0x01, 0x00, 0x00, 0x0c]);
    fat.extend_from_slice(&[0; 16]);
    fat.extend_from_slice(&[0x01, 0x00, 0x00, 0x07]);
    fat.extend_from_slice(&[0; 16]);
    let not_macho = b"#!/bin/sh".to_vec();
    assert_eq!(ipa_architecture_set(&[thin_arm64.clone(), not_macho.clone(), fat]), vec!["arm64", "x86_64"]);
    assert_eq!(ipa_architecture_set(&[thin_arm64.clone(), thin_arm64]), vec!["arm64"]);
    assert!(ipa_architecture_set(&[not_macho]).is_empty());
    assert!(ipa_architecture_set(&[]).is_empty());
}
