use e_libscanner::addr::{IpAddress, MacAddr};
use e_libscanner::error::ScanError;
use e_libscanner::frame::{parse_scan_type, ScanOrderType, ScanType};
use e_libscanner::target::{parse_ip_range, parse_str_ports};

fn strings(v: &[&str]) -> Vec<String> {
    v.iter().map(|s| s.to_string()).collect()
}

#[test]
fn dotted_range_is_cartesian_product() {
    let r = parse_ip_range(&strings(&["10.0.1-2.1-2"]), &vec![]).unwrap();
    assert_eq!(
        r,
        vec![
            IpAddress::v4(10, 0, 1, 1),
            IpAddress::v4(10, 0, 1, 2),
            IpAddress::v4(10, 0, 2, 1),
            IpAddress::v4(10, 0, 2, 2),
        ]
    );
}

#[test]
fn five_octet_range_is_rejected() {
    match parse_ip_range(&strings(&["10.0.0.1-2.1-2"]), &vec![]) {
        Err(ScanError::InvalidTarget(t)) => assert_eq!(t, "10.0.0.1-2.1-2"),
        other => panic!("unexpected {:?}", other),
    }
}

#[test]
fn ipv4_literal_expands_to_itself() {
    let r = parse_ip_range(&strings(&["192.168.1.1"]), &vec![]).unwrap();
    assert_eq!(r, vec![IpAddress::v4(192, 168, 1, 1)]);
}

#[test]
fn ipv6_literal_expands_to_itself() {
    let r = parse_ip_range(&strings(&["fe80::1"]), &vec![]).unwrap();
    assert_eq!(r, vec![IpAddress::V6(0xfe80_0000_0000_0000_0000_0000_0000_0001)]);
}

#[test]
fn cidr_30_has_two_hosts() {
    let r = parse_ip_range(&strings(&["192.168.1.0/30"]), &vec![]).unwrap();
    assert_eq!(r, vec![IpAddress::v4(192, 168, 1, 1), IpAddress::v4(192, 168, 1, 2)]);
}

#[test]
fn cidr_24_has_254_hosts() {
    let r = parse_ip_range(&strings(&["10.1.2.77/24"]), &vec![]).unwrap();
    assert_eq!(r.len(), 254);
    assert_eq!(r[0], IpAddress::v4(10, 1, 2, 1));
    assert_eq!(r[253], IpAddress::v4(10, 1, 2, 254));
}

#[test]
fn cidr_31_and_32_keep_every_address() {
    let r = parse_ip_range(&strings(&["10.0.0.0/31", "10.0.0.9/32"]), &vec![]).unwrap();
    assert_eq!(r, vec![IpAddress::v4(10, 0, 0, 0), IpAddress::v4(10, 0, 0, 1), IpAddress::v4(10, 0, 0, 9)]);
}

#[test]
fn ipv6_cidr_lists_every_address() {
    let r = parse_ip_range(&strings(&["fd00::/126"]), &vec![]).unwrap();
    let base: u128 = 0xfd00_u128 << 112;
    assert_eq!(r, vec![IpAddress::V6(base), IpAddress::V6(base + 1), IpAddress::V6(base + 2), IpAddress::V6(base + 3)]);
}

#[test]
fn large_ipv6_cidr_is_refused() {
    assert!(matches!(parse_ip_range(&strings(&["fd00::/64"]), &vec![]), Err(ScanError::InvalidTarget(_))));
}

#[test]
fn bad_cidr_is_refused() {
    match parse_ip_range(&strings(&["1.2.3.4", "10.0.0.0/33"]), &vec![]) {
        Err(ScanError::InvalidTarget(t)) => assert_eq!(t, "10.0.0.0/33"),
        other => panic!("unexpected {:?}", other),
    }
}

#[test]
fn host_name_takes_its_lookup() {
    let looked_up = vec![IpAddress::v4(1, 1, 1, 1), IpAddress::v4(1, 0, 0, 1)];
    let r = parse_ip_range(&strings(&["10.0.0.1", "one.example"]), &vec![vec![], looked_up.clone()]).unwrap();
    assert_eq!(r, vec![IpAddress::v4(10, 0, 0, 1), IpAddress::v4(1, 1, 1, 1), IpAddress::v4(1, 0, 0, 1)]);
}

#[test]
fn unresolved_host_name_is_refused() {
    match parse_ip_range(&strings(&["nowhere.invalid"]), &vec![]) {
        Err(ScanError::InvalidTarget(t)) => assert_eq!(t, "nowhere.invalid"),
        other => panic!("unexpected {:?}", other),
    }
}

#[test]
fn octet_over_255_is_refused() {
    assert!(parse_ip_range(&strings(&["10.0.0.256"]), &vec![]).is_err());
}

#[test]
fn empty_target_list_expands_to_nothing() {
    assert_eq!(parse_ip_range(&vec![], &vec![]).unwrap(), vec![]);
}

#[test]
fn port_range_is_half_open() {
    assert_eq!(parse_str_ports(&strings(&["1-3"])), vec![1, 2]);
}

#[test]
fn port_list_mixes_singles_and_ranges() {
    assert_eq!(parse_str_ports(&strings(&["80", "8000-8003", "x", "5-5", "70000", "443"])), vec![80, 8000, 8001, 8002, 443]);
}

#[test]
fn duplicate_ports_are_kept() {
    assert_eq!(parse_str_ports(&strings(&["80", "80"])), vec![80, 80]);
}

#[test]
fn scan_order_maps_to_scan_type() {
    assert_eq!(parse_scan_type(&ScanOrderType::Unset), None);
    assert_eq!(parse_scan_type(&ScanOrderType::Icmp), Some(ScanType::IcmpPingScan));
    assert_eq!(parse_scan_type(&ScanOrderType::TcpConnect), Some(ScanType::TcpConnectScan));
    assert_eq!(parse_scan_type(&ScanOrderType::Udp), Some(ScanType::UdpPingScan));
    assert_eq!(parse_scan_type(&ScanOrderType::Tcp), Some(ScanType::TcpPingScan));
    assert_eq!(parse_scan_type(&ScanOrderType::TcpSyn), Some(ScanType::TcpSynScan));
}

#[test]
fn mac_address_text_round_trip() {
    let m = MacAddr(0x00, 0x1b, 0x2c, 0xaa, 0xf0, 0x09);
    assert_eq!(m.address(), "00:1b:2c:aa:f0:09");
    assert_eq!(MacAddr::from_hex_format("00:1B:2c:aa:F0:09"), m);
    assert_eq!(MacAddr::from_hex_format("00:1b:2c"), MacAddr::zero());
    assert_eq!(MacAddr::from_hex_format("00-1b-2c-aa-f0-09"), MacAddr::zero());
    assert_eq!(MacAddr::new([1, 2, 3, 4, 5, 6]).octets(), [1, 2, 3, 4, 5, 6]);
}
