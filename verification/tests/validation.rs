use mobius_device_lab::validation::{
    deletable_remote_path, endpoint, package_name, parse_private_cidr_24, quote_remote,
};

#[test]
fn only_accepts_private_24_networks() {
    assert_eq!(
        parse_private_cidr_24("192.168.8.42/24").expect("private network"),
        (192, 168, 8, 0)
    );
    assert!(parse_private_cidr_24("8.8.8.0/24").is_err());
    assert!(parse_private_cidr_24("10.0.0.0/16").is_err());
}

#[test]
fn remote_quote_handles_single_quotes() {
    assert_eq!(quote_remote("/sdcard/it's.txt"), "'/sdcard/it'\\''s.txt'");
}

#[test]
fn deletion_is_confined_to_file_manager_roots() {
    assert!(deletable_remote_path("/sdcard/Download/report.txt").is_ok());
    assert!(deletable_remote_path("/storage/emulated/0/DCIM/photo.jpg").is_ok());
    assert!(deletable_remote_path("/data/local/tmp/frida-server").is_ok());
    assert!(deletable_remote_path("/system/build.prop").is_err());
    assert!(deletable_remote_path("/sdcard/../system/build.prop").is_err());
    assert!(deletable_remote_path("/sdcard").is_err());
}

#[test]
fn endpoint_parser_rejects_non_socket_services() {
    assert!(endpoint("tcp:8080").is_ok());
    assert!(endpoint("localabstract:mobius").is_ok());
    assert!(endpoint("jdwp:1234").is_err());
    assert!(endpoint("tcp:0").is_err());
}

#[test]
fn validates_package_identifiers() {
    assert!(package_name("dev.mobius.device_lab").is_ok());
    assert!(package_name("dev.mobius;id").is_err());
    assert!(package_name("single").is_err());
    assert!(package_name("dev.42bad").is_err());
}

#[test]
fn quoting_an_empty_value_gives_an_empty_quoted_word() {
    assert_eq!(quote_remote(""), "''");
}

/// Reads one word made of single-quoted parts and backslash escapes, as a
/// POSIX shell does.
fn read_shell_word(word: &str) -> Option<String> {
    let mut out = String::new();
    let mut chars = word.chars();
    while let Some(c) = chars.next() {
        match c {
            '\'' => loop {
                match chars.next()? {
                    '\'' => break,
                    inner => out.push(inner),
                }
            },
            '\\' => out.push(chars.next()?),
            other => out.push(other),
        }
    }
    Some(out)
}

#[test]
fn quoted_values_read_back_unchanged() {
    for value in ["", "plain", "it's", "''", "a b\tc", "$HOME `x` \\ \"q\"", "/sdcard/Ω'✓"] {
        assert_eq!(read_shell_word(&quote_remote(value)).as_deref(), Some(value));
    }
}
