use mobius_device_lab::network::{
    adb_connect_packet, adb_detected, choose_subnets, continue_scan, endpoint_record, is_rfc1918,
    is_virtual_interface, normalize_scan_ports, order_endpoints, physical_interface_priority,
    scan_targets, select_private_ipv4_subnets, FoundEndpoint, InterfaceIpv4,
};

fn ip(a: u8, b: u8, c: u8, d: u8) -> u32 {
    u32::from_be_bytes([a, b, c, d])
}

fn interface(name: &str, octets: [u8; 4], prefix_len: u8) -> InterfaceIpv4 {
    InterfaceIpv4 { name: name.into(), ip: u32::from_be_bytes(octets), prefix_len }
}

#[test]
fn accepts_only_rfc1918_addresses() {
    assert!(is_rfc1918(ip(10, 20, 30, 40)));
    assert!(is_rfc1918(ip(172, 16, 0, 1)));
    assert!(is_rfc1918(ip(172, 31, 255, 254)));
    assert!(is_rfc1918(ip(192, 168, 100, 2)));
    assert!(!is_rfc1918(ip(172, 32, 0, 1)));
    assert!(!is_rfc1918(ip(198, 18, 0, 1)));
    assert!(!is_rfc1918(ip(198, 19, 255, 254)));
}

#[test]
fn ignores_benchmark_tunnel_and_virtual_interfaces() {
    let interfaces = vec![
        interface("utun4", [198, 18, 0, 1], 15),
        interface("Tailscale0", [100, 100, 2, 3], 32),
        interface("Docker Desktop", [192, 168, 65, 1], 24),
        interface("vEthernet (WSL)", [172, 25, 16, 1], 20),
        interface("bridge100", [10, 211, 55, 2], 24),
        interface("bridge101", [10, 37, 129, 2], 24),
        interface("en0", [192, 168, 100, 23], 24),
    ];
    let subnets = select_private_ipv4_subnets(&interfaces, Some(ip(198, 18, 0, 1)));
    assert_eq!(subnets.len(), 1);
    assert_eq!(subnets[0].network, ip(192, 168, 100, 0));
    assert_eq!(subnets[0].interface_name, "en0");
}

#[test]
fn returns_multiple_physical_subnets_in_stable_priority_order() {
    let interfaces = vec![
        interface("Ethernet", [10, 20, 30, 8], 24),
        interface("en7", [192, 168, 50, 9], 24),
        interface("Wi-Fi", [192, 168, 100, 23], 24),
        interface("Wi-Fi", [192, 168, 100, 24], 24),
    ];
    let subnets = select_private_ipv4_subnets(&interfaces, Some(ip(192, 168, 100, 23)));
    assert_eq!(subnets.len(), 3);
    assert_eq!(subnets[0].network, ip(192, 168, 100, 0));
    assert_eq!(subnets[0].local_ips, vec![ip(192, 168, 100, 23), ip(192, 168, 100, 24)]);
    assert_eq!(subnets[1].network, ip(10, 20, 30, 0));
    assert_eq!(subnets[2].network, ip(192, 168, 50, 0));
}

#[test]
fn trusted_active_ethernet_route_beats_an_inactive_wifi_address() {
    let interfaces = vec![
        interface("Wi-Fi", [192, 168, 20, 8], 24),
        interface("Ethernet", [192, 168, 100, 56], 24),
    ];
    let subnets = select_private_ipv4_subnets(&interfaces, Some(ip(192, 168, 100, 56)));
    assert_eq!(subnets[0].network, ip(192, 168, 100, 0));
}

#[test]
fn drops_point_to_point_prefixes_used_by_tunnels() {
    let interfaces = vec![interface("mystery0", [10, 0, 0, 2], 32), interface("en0", [192, 168, 1, 20], 24)];
    let subnets = select_private_ipv4_subnets(&interfaces, None);
    assert_eq!(subnets.len(), 1);
    assert_eq!(subnets[0].network, ip(192, 168, 1, 0));
}

#[test]
fn interface_names_are_ranked_and_virtual_ones_recognised() {
    assert_eq!(physical_interface_priority("en0"), 0);
    assert_eq!(physical_interface_priority("WLAN"), 0);
    assert_eq!(physical_interface_priority("Ethernet 2"), 1);
    assert_eq!(physical_interface_priority("mystery0"), 2);
    assert!(is_virtual_interface("lo0"));
    assert!(is_virtual_interface("VMware Network Adapter"));
    assert!(!is_virtual_interface("en0"));
}

#[test]
fn scan_ports_are_normalized_and_bounded() {
    assert_eq!(normalize_scan_ports(None).unwrap(), vec![5555]);
    assert_eq!(normalize_scan_ports(Some(vec![5556, 5555, 5556])).unwrap(), vec![5555, 5556]);
    assert_eq!(normalize_scan_ports(Some(vec![])).unwrap_err().code, "invalid_scan_ports");
    assert!(normalize_scan_ports(Some(vec![0, 5555])).is_err());
    assert!(normalize_scan_ports(Some((1..=17).collect())).is_err());
    assert!(normalize_scan_ports(Some((1..=16).chain(1..=16).collect())).is_ok());
}

#[test]
fn requested_subnet_must_be_local() {
    let detected = select_private_ipv4_subnets(&[interface("en0", [192, 168, 1, 20], 24)], None);
    assert_eq!(choose_subnets(&detected, Some(ip(192, 168, 1, 0))).unwrap().len(), 1);
    let error = choose_subnets(&detected, Some(ip(10, 0, 0, 0))).unwrap_err();
    assert_eq!(error.code, "cidr_not_local");
    assert_eq!(error.message, "Requested subnet 10.0.0.0/24 is not an active local subnet (192.168.1.0/24)");
    assert_eq!(choose_subnets(&detected, None).unwrap().len(), 1);
}

#[test]
fn scan_targets_skip_local_addresses() {
    let detected = select_private_ipv4_subnets(&[interface("en0", [192, 168, 1, 20], 24)], None);
    let targets = scan_targets(&detected[0], &[5555, 5556]);
    assert_eq!(targets.len(), 253 * 2);
    assert_eq!(targets[0], (ip(192, 168, 1, 1), 5555));
    assert!(!targets.iter().any(|(address, _)| *address == ip(192, 168, 1, 20)));
    assert!(continue_scan(false, false));
    assert!(!continue_scan(true, false));
}

#[test]
fn adb_handshake_bytes_and_reply_check() {
    let packet = adb_connect_packet();
    assert_eq!(&packet[..4], b"CNXN");
    assert_eq!(packet.len(), 24 + 13);
    assert_eq!(&packet[24..], b"host::mobius\0");
    let mut reply = [0u8; 24];
    reply[..4].copy_from_slice(b"AUTH");
    let magic = u32::from_le_bytes(*b"AUTH") ^ u32::MAX;
    reply[20..].copy_from_slice(&magic.to_le_bytes());
    assert!(adb_detected(&reply));
    reply[20] ^= 1;
    assert!(!adb_detected(&reply));
}

#[test]
fn endpoints_are_ordered_by_address_then_port() {
    let found = vec![
        FoundEndpoint { ip: ip(192, 168, 1, 9), port: 5555, latency_ms: 3, adb: true },
        FoundEndpoint { ip: ip(192, 168, 1, 2), port: 5556, latency_ms: 4, adb: false },
        FoundEndpoint { ip: ip(192, 168, 1, 2), port: 5555, latency_ms: 5, adb: false },
    ];
    let ordered: Vec<_> = order_endpoints(found).into_iter().map(endpoint_record).collect();
    assert_eq!(ordered[0].address, "192.168.1.2");
    assert_eq!(ordered[0].port, 5555);
    assert_eq!(ordered[1].port, 5556);
    assert_eq!(ordered[2].address, "192.168.1.9");
    assert_eq!(ordered[2].state, "adb");
    assert_eq!(ordered[0].state, "open");
}
