use e_libscanner::addr::{IpAddress, MacAddr};
use e_libscanner::bytes::checksum;
use e_libscanner::frame::{Destination, PortStatus, ScanType};
use e_libscanner::os::{
    parse_option_kinds, ProbeResult, ProbeTarget, ProbeType, TcpOptionKind, build_os_probe,
};
use e_libscanner::packet::{
    build_ethernet_packet, build_icmp_packet, build_ipv4_header, build_tcp_packet,
    build_udp_packet, decode_icmp_packet, decode_ipv4_header, decode_tcp_packet,
    decode_udp_packet, EtherKind, IcmpFields, Ipv4Fields, TcpFields,
};
use e_libscanner::probe::{build_icmpv4_echo_packet, build_probe, build_tcp_syn_packet};
use e_libscanner::receiver::{classify_frame, Observation};
use e_libscanner::scanner::ScanSetting;

const LOCAL: u32 = 0x7f00_0001;
const ME: u32 = 0xc0a8_0002;

fn tcp_reply(src: u32, dst: u32, src_port: u16, dst_port: u16, flags: u8, options: &[u8]) -> Vec<u8> {
    let f = TcpFields { src_port, dst_port, sequence: 7, acknowledgement: 9, reserved: 0, flags, window: 29200, urgent_ptr: 0 };
    let tcp = build_tcp_packet(&f, options, src, dst);
    frame(src, dst, 6, 64, &tcp)
}

fn frame(src: u32, dst: u32, protocol: u8, ttl: u8, payload: &[u8]) -> Vec<u8> {
    let ip = build_ipv4_header(&Ipv4Fields {
        total_length: (20 + payload.len()) as u16,
        identification: 0x1234,
        ttl,
        protocol,
        src,
        dst,
    });
    let mut out = build_ethernet_packet(MacAddr(1, 2, 3, 4, 5, 6), MacAddr(6, 5, 4, 3, 2, 1), EtherKind::Ipv4);
    out.extend_from_slice(&ip);
    out.extend_from_slice(payload);
    out
}

#[test]
fn ethernet_header_layout() {
    let e = build_ethernet_packet(MacAddr(1, 2, 3, 4, 5, 6), MacAddr(0xa, 0xb, 0xc, 0xd, 0xe, 0xf), EtherKind::Ipv6);
    assert_eq!(e, vec![0xa, 0xb, 0xc, 0xd, 0xe, 0xf, 1, 2, 3, 4, 5, 6, 0x86, 0xdd]);
}

#[test]
fn ipv4_header_checksum_known_value() {
    let h = build_ipv4_header(&Ipv4Fields {
        total_length: 0x73,
        identification: 0,
        ttl: 0x40,
        protocol: 0x11,
        src: 0xc0a8_0001,
        dst: 0xc0a8_00c7,
    });
    assert_eq!(
        h,
        vec![0x45, 0x00, 0x00, 0x73, 0x00, 0x00, 0x40, 0x00, 0x40, 0x11, 0xb8, 0x61, 0xc0, 0xa8, 0x00, 0x01, 0xc0, 0xa8, 0x00, 0xc7]
    );
    assert_eq!(checksum(&h), 0);
}

#[test]
fn ipv4_round_trip() {
    let f = Ipv4Fields { total_length: 44, identification: 0xbeef, ttl: 3, protocol: 6, src: LOCAL, dst: ME };
    let b = build_ipv4_header(&f);
    assert_eq!(decode_ipv4_header(&b), Some(f));
    let mut bad = b.clone();
    bad[10] ^= 1;
    assert_eq!(decode_ipv4_header(&bad), None);
}

#[test]
fn icmp_round_trip_and_checksum() {
    let f = IcmpFields { icmp_type: 13, code: 0, identifier: 0x4242, sequence: 9 };
    let b = build_icmp_packet(&f, &[1, 2, 3]);
    assert_eq!(checksum(&b), 0);
    let (g, p) = decode_icmp_packet(&b).unwrap();
    assert_eq!(g, f);
    assert_eq!(p, vec![1, 2, 3]);
    assert_eq!(build_icmp_packet(&g, &p), b);
}

#[test]
fn echo_probe_layout() {
    let b = build_icmpv4_echo_packet(0x0102);
    assert_eq!(b.len(), 16);
    assert_eq!(&b[0..2], &[8, 0]);
    assert_eq!(&b[4..8], &[0x01, 0x02, 0, 0]);
    assert_eq!(checksum(&b), 0);
}

#[test]
fn syn_probe_layout() {
    let b = build_tcp_syn_packet(ME, 53443, LOCAL, 80, 0x01020304);
    assert_eq!(b.len(), 24);
    assert_eq!(&b[0..4], &[0xd0, 0xc3, 0, 80]);
    assert_eq!(&b[4..8], &[1, 2, 3, 4]);
    assert_eq!(b[12], 0x60);
    assert_eq!(b[13], 0x02);
    assert_eq!(&b[14..16], &[0xff, 0xff]);
    assert_eq!(&b[20..24], &[2, 4, 0x05, 0xb4]);
    let mut pseudo = vec![0xc0, 0xa8, 0, 2, 0x7f, 0, 0, 1, 0, 6, 0, 24];
    pseudo.extend_from_slice(&b);
    assert_eq!(checksum(&pseudo), 0);
    let (f, o) = decode_tcp_packet(&b, ME, LOCAL).unwrap();
    assert_eq!(f.dst_port, 80);
    assert_eq!(build_tcp_packet(&f, &o, ME, LOCAL), b);
    assert_eq!(decode_tcp_packet(&b, ME, LOCAL + 1), None);
}

#[test]
fn udp_round_trip() {
    let b = build_udp_packet(53443, 53, &[9, 8, 7], ME, LOCAL);
    assert_eq!(&b[4..6], &[0, 11]);
    let mut pseudo = vec![0xc0, 0xa8, 0, 2, 0x7f, 0, 0, 1, 0, 17, 0, 11];
    pseudo.extend_from_slice(&b);
    assert_eq!(checksum(&pseudo), 0);
    assert_eq!(decode_udp_packet(&b, ME, LOCAL), Some((53443, 53, vec![9, 8, 7])));
}

fn setting(scan_type: ScanType) -> ScanSetting {
    ScanSetting {
        if_index: 1,
        src_mac: MacAddr(1, 2, 3, 4, 5, 6),
        dst_mac: MacAddr::zero(),
        src_ip: IpAddress::V4(ME),
        src_port: 53443,
        destinations: vec![Destination::new(IpAddress::V4(LOCAL), vec![80])],
        ip_set: vec![IpAddress::V4(LOCAL)],
        scan_type,
        icmp_identifier: 7,
        timeout: 5000,
        wait_time: 200,
        send_rate: 0,
        hosts_concurrency: 50,
        ports_concurrency: 100,
    }
}

#[test]
fn probe_depends_on_scan_type() {
    let icmp = build_probe(&setting(ScanType::IcmpPingScan), IpAddress::V4(LOCAL), 0, 0x0005_0007).unwrap();
    assert_eq!(icmp, build_icmpv4_echo_packet(7));
    let syn = build_probe(&setting(ScanType::TcpSynScan), IpAddress::V4(LOCAL), 80, 11).unwrap();
    assert_eq!(syn, build_tcp_syn_packet(ME, 53443, LOCAL, 80, 11));
    let udp = build_probe(&setting(ScanType::UdpPingScan), IpAddress::V4(LOCAL), 53, 0).unwrap();
    assert_eq!(&udp[8..], &[0x65, 0x73, 0x63, 0x6e]);
    assert!(build_probe(&setting(ScanType::TcpConnectScan), IpAddress::V4(LOCAL), 80, 0).is_none());
    assert!(build_probe(&setting(ScanType::TcpSynScan), IpAddress::V6(1), 80, 0).is_none());
}

#[test]
fn syn_ack_reply_means_open() {
    let f = tcp_reply(LOCAL, ME, 80, 53443, 0x12, &[]);
    assert_eq!(
        classify_frame(&f, 53443),
        Observation::Port { ip: IpAddress::V4(LOCAL), port: 80, status: PortStatus::Open, ttl: 64 }
    );
}

#[test]
fn rst_ack_reply_means_closed() {
    let f = tcp_reply(LOCAL, ME, 81, 53443, 0x14, &[]);
    assert_eq!(
        classify_frame(&f, 53443),
        Observation::Port { ip: IpAddress::V4(LOCAL), port: 81, status: PortStatus::Closed, ttl: 64 }
    );
}

#[test]
fn rst_without_ack_is_ignored() {
    let f = tcp_reply(LOCAL, ME, 81, 53443, 0x04, &[]);
    assert_eq!(classify_frame(&f, 53443), Observation::Nothing);
}

#[test]
fn reply_to_another_port_is_ignored() {
    let f = tcp_reply(LOCAL, ME, 80, 40000, 0x12, &[]);
    assert_eq!(classify_frame(&f, 53443), Observation::Nothing);
    assert_eq!(classify_frame(&f[..30], 53443), Observation::Nothing);
}

#[test]
fn echo_reply_means_live_host() {
    let icmp = build_icmp_packet(&IcmpFields { icmp_type: 0, code: 0, identifier: 1, sequence: 0 }, &[0; 8]);
    let f = frame(LOCAL, ME, 1, 57, &icmp);
    assert_eq!(classify_frame(&f, 53443), Observation::Host { ip: IpAddress::V4(LOCAL), ttl: 57 });
}

#[test]
fn port_unreachable_names_the_probe() {
    let probe_ip = build_ipv4_header(&Ipv4Fields { total_length: 28, identification: 5, ttl: 64, protocol: 17, src: ME, dst: LOCAL });
    let mut quoted = probe_ip.clone();
    quoted.extend_from_slice(&[0xd0, 0xc3, 0, 53, 0, 8, 0, 0]);
    let icmp = build_icmp_packet(&IcmpFields { icmp_type: 3, code: 3, identifier: 0, sequence: 0 }, &quoted);
    let f = frame(LOCAL, ME, 1, 64, &icmp);
    assert_eq!(
        classify_frame(&f, 53443),
        Observation::Port { ip: IpAddress::V4(LOCAL), port: 53, status: PortStatus::Closed, ttl: 64 }
    );
    let icmp2 = build_icmp_packet(&IcmpFields { icmp_type: 3, code: 13, identifier: 0, sequence: 0 }, &quoted);
    let f2 = frame(LOCAL, ME, 1, 64, &icmp2);
    assert_eq!(
        classify_frame(&f2, 53443),
        Observation::Port { ip: IpAddress::V4(LOCAL), port: 53, status: PortStatus::Filtered, ttl: 64 }
    );
}

fn target() -> ProbeTarget {
    ProbeTarget { ip_addr: IpAddress::V4(LOCAL), open_tcp_ports: vec![80], closed_tcp_port: 443, open_udp_port: 123, closed_udp_port: 33455 }
}

#[test]
fn closed_port_rst_ack_is_recorded() {
    let mut r = ProbeResult::new_with_types(IpAddress::V4(LOCAL), vec![ProbeType::TcpRstAckProbe]);
    let reply = tcp_reply(LOCAL, ME, 443, 53443, 0x14, &[]);
    r.record_reply(ProbeType::TcpRstAckProbe, &reply, LOCAL, 53443);
    let rec = r.tcp_rst_ack_result.unwrap();
    assert!(rec.rst_ack_response);
    assert_eq!(rec.ip_ttl, 64);
    assert_eq!(rec.ip_id, 0x1234);
    assert_eq!(rec.tcp_payload_size, 0);
}

#[test]
fn open_port_syn_ack_does_not_set_rst_ack() {
    let mut r = ProbeResult::new_with_types(IpAddress::V4(LOCAL), vec![ProbeType::TcpRstAckProbe]);
    let reply = tcp_reply(LOCAL, ME, 80, 53443, 0x12, &[]);
    r.record_reply(ProbeType::TcpRstAckProbe, &reply, LOCAL, 53443);
    assert!(!r.tcp_rst_ack_result.unwrap().rst_ack_response);
}

#[test]
fn header_probe_reads_option_order() {
    let mut r = ProbeResult::new(IpAddress::V4(LOCAL));
    let opts = [2, 4, 5, 0xb4, 1, 1, 4, 2, 1, 3, 3, 7];
    let reply = tcp_reply(LOCAL, ME, 80, 53443, 0x12, &opts);
    r.record_reply(ProbeType::TcpHeaderProbe, &reply, LOCAL, 53443);
    let h = r.tcp_header_result.unwrap();
    assert_eq!(h.tcp_window_size, 29200);
    assert_eq!(
        h.tcp_option_order,
        vec![TcpOptionKind::Mss, TcpOptionKind::Nop, TcpOptionKind::Nop, TcpOptionKind::SackPermitted, TcpOptionKind::Nop, TcpOptionKind::WindowScale]
    );
}

#[test]
fn option_kinds_stop_at_end_of_list() {
    assert_eq!(parse_option_kinds(&[1, 0, 2, 4, 5, 0xb4]), vec![TcpOptionKind::Nop, TcpOptionKind::Eol]);
    assert_eq!(parse_option_kinds(&[8, 10, 0, 0, 0, 0, 0, 0, 0, 0, 9]), vec![TcpOptionKind::Timestamp, TcpOptionKind::Other(9)]);
}

#[test]
fn ecn_probe_sets_ecn_bits() {
    let b = build_os_probe(ProbeType::TcpEcnProbe, &target(), ME, 53443, 1).unwrap();
    assert_eq!(b[12], 0x68);
    assert_eq!(b[13], 0xc2);
    assert_eq!(&b[2..4], &[0, 80]);
    let h = build_os_probe(ProbeType::TcpHeaderProbe, &target(), ME, 53443, 1).unwrap();
    assert_eq!(h.len(), 40);
    let none = ProbeTarget { open_tcp_ports: vec![], ..target() };
    assert!(build_os_probe(ProbeType::TcpSynAckProbe, &none, ME, 53443, 1).is_none());
    let rst = build_os_probe(ProbeType::TcpRstAckProbe, &target(), ME, 53443, 1).unwrap();
    assert_eq!(&rst[2..4], &[0x01, 0xbb]);
}
