use mobius_device_lab::models::PortDirection;
use mobius_device_lab::ports::{forget_mapping, parse_mapping_lines, remember_mapping, ManagedPortMapping};

#[test]
fn preserves_reverse_remove_endpoint() {
    let mappings = parse_mapping_lines("device-1 tcp:9000 tcp:8000", PortDirection::Reverse, "device-1");
    assert_eq!(mappings[0].local, "tcp:8000");
    assert_eq!(mappings[0].remote, "tcp:9000");
    assert_eq!(mappings[0].remove_endpoint, "tcp:9000");
}

#[test]
fn ignores_other_device_mappings() {
    let mappings =
        parse_mapping_lines("other-device tcp:7000 tcp:7001", PortDirection::Forward, "device-1");
    assert!(mappings.is_empty());
}

#[test]
fn forward_rows_keep_local_then_remote() {
    let mappings = parse_mapping_lines("device-1 tcp:7000 tcp:7001", PortDirection::Forward, "device-1");
    assert_eq!(mappings.len(), 1);
    assert_eq!(mappings[0].local, "tcp:7000");
    assert_eq!(mappings[0].remote, "tcp:7001");
    assert_eq!(mappings[0].remove_endpoint, "tcp:7000");
}

fn managed(serial: &str, endpoint: &str, owner: &str) -> ManagedPortMapping {
    ManagedPortMapping {
        serial: serial.to_string(),
        direction: PortDirection::Forward,
        remove_endpoint: endpoint.to_string(),
        expected_remote: "tcp:9000".to_string(),
        owner: owner.to_string(),
    }
}

#[test]
fn forgetting_a_mapping_keeps_every_other_entry() {
    let mut registry = vec![
        managed("device-1", "tcp:7000", "a"),
        managed("device-2", "tcp:7000", "b"),
        managed("device-1", "tcp:7000", "c"),
        managed("device-1", "tcp:7001", "d"),
    ];
    forget_mapping(&mut registry, "device-1", PortDirection::Forward, "tcp:7000");
    let owners: Vec<&str> = registry.iter().map(|m| m.owner.as_str()).collect();
    assert_eq!(owners, vec!["b", "d"]);
}

#[test]
fn remembering_replaces_the_earlier_entry_of_the_key() {
    let mut registry = vec![managed("device-1", "tcp:7000", "a"), managed("device-2", "tcp:7000", "b")];
    remember_mapping(&mut registry, false, "device-1", PortDirection::Forward, "tcp:7000", "tcp:9001", "c")
        .expect("remembered");
    assert_eq!(registry.len(), 2);
    assert_eq!(registry[0].owner, "b");
    assert_eq!(registry[1].owner, "c");
    assert_eq!(registry[1].expected_remote, "tcp:9001");
    let err = remember_mapping(&mut registry, true, "device-3", PortDirection::Forward, "tcp:1", "tcp:2", "d")
        .unwrap_err();
    assert_eq!(err.code, "app_shutting_down");
    assert_eq!(registry.len(), 2);
}
