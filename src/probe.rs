use vstd::prelude::*;
use crate::addr::IpAddress;
use crate::frame::ScanType;
use crate::packet::{
    build_ethernet_packet, build_ipv4_header, ethernet_bytes, ipv4_bytes, EtherKind, Ipv4Fields,
    build_icmp_packet, build_tcp_packet, build_udp_packet, icmp_bytes, tcp_bytes, udp_bytes,
    IcmpFields, TcpFields, ICMP_ECHO_REQUEST, TCP_SYN,
};
use crate::scanner::ScanSetting;

verus! {

/// Relies on rand's `random`: a value drawn from the thread-local generator; nothing
/// is promised of it.
pub assume_specification<T>[ rand::random::<T> ]() -> (r: T)
    where
        rand::distributions::Standard: rand::distributions::Distribution<T>,
;

/// The window a probe advertises.
pub const DEFAULT_WINDOW: u16 = 65535;

/// The maximum segment size option of a SYN probe: MSS 1460.
pub open spec fn mss_option() -> Seq<u8> {
    seq![2u8, 4u8, 0x05u8, 0xb4u8]
}

/// The bytes a UDP probe carries, by which its replies are recognised.
pub open spec fn udp_marker() -> Seq<u8> {
    seq![0x65u8, 0x73u8, 0x63u8, 0x6eu8]
}

/// The payload of an echo probe.
pub open spec fn echo_payload() -> Seq<u8> {
    Seq::new(8, |i: int| 0u8)
}

pub open spec fn syn_fields(src_port: u16, dst_port: u16, sequence: u32) -> TcpFields {
    TcpFields {
        src_port,
        dst_port,
        sequence,
        acknowledgement: 0,
        reserved: 0,
        flags: 0x02,
        window: 65535,
        urgent_ptr: 0,
    }
}

pub open spec fn echo_fields(identifier: u16) -> IcmpFields {
    IcmpFields { icmp_type: 8, code: 0, identifier, sequence: 0 }
}

/// The probe a scan of type `scan_type` sends to `dst_port` of `dst_ip`: an echo
/// request for an ICMP scan (with the scan's identifier `icmp_id`), a SYN for TCP ping and SYN
/// scans (`nonce` gives its sequence number), a marked datagram for a UDP scan.
/// A connect scan sends no crafted packet, and IPv6 is not crafted.
pub open spec fn probe_bytes(
    scan_type: ScanType,
    src_ip: IpAddress,
    src_port: u16,
    dst_ip: IpAddress,
    dst_port: u16,
    icmp_id: u16,
    nonce: u32,
) -> Option<Seq<u8>> {
    match (src_ip, dst_ip) {
        (IpAddress::V4(s), IpAddress::V4(d)) => match scan_type {
            ScanType::IcmpPingScan => Some(icmp_bytes(echo_fields(icmp_id), echo_payload())),
            ScanType::TcpPingScan | ScanType::TcpSynScan => Some(
                tcp_bytes(syn_fields(src_port, dst_port, nonce), mss_option(), s, d),
            ),
            ScanType::UdpPingScan => Some(udp_bytes(src_port, dst_port, udp_marker(), s, d)),
            ScanType::TcpConnectScan => None,
        },
        _ => None,
    }
}

/// An ICMP echo request with the given identifier, sequence 0 and eight zero bytes.
pub fn build_icmpv4_echo_packet(identifier: u16) -> (r: Vec<u8>)
    ensures
        r@ == icmp_bytes(echo_fields(identifier), echo_payload()),
{
    let payload: Vec<u8> = vec![0u8; 8];
    assert(payload@ =~= echo_payload());
    let f = IcmpFields { icmp_type: ICMP_ECHO_REQUEST, code: 0, identifier, sequence: 0 };
    build_icmp_packet(&f, payload.as_slice())
}

/// A TCP SYN probe between IPv4 addresses, carrying the MSS option.
pub fn build_tcp_syn_packet(src_ip: u32, src_port: u16, dst_ip: u32, dst_port: u16, sequence: u32) -> (r: Vec<u8>)
    ensures
        r@ == tcp_bytes(syn_fields(src_port, dst_port, sequence), mss_option(), src_ip, dst_ip),
{
    let options: Vec<u8> = vec![2u8, 4u8, 0x05u8, 0xb4u8];
    assert(options@ =~= mss_option());
    let f = TcpFields {
        src_port,
        dst_port,
        sequence,
        acknowledgement: 0,
        reserved: 0,
        flags: TCP_SYN,
        window: DEFAULT_WINDOW,
        urgent_ptr: 0,
    };
    build_tcp_packet(&f, options.as_slice(), src_ip, dst_ip)
}

/// A UDP probe between IPv4 addresses, carrying the marker.
pub fn build_udp_probe(src_ip: u32, src_port: u16, dst_ip: u32, dst_port: u16) -> (r: Vec<u8>)
    ensures
        r@ == udp_bytes(src_port, dst_port, udp_marker(), src_ip, dst_ip),
{
    let payload: Vec<u8> = vec![0x65u8, 0x73u8, 0x63u8, 0x6eu8];
    assert(payload@ =~= udp_marker());
    build_udp_packet(src_port, dst_port, payload.as_slice(), src_ip, dst_ip)
}

/// The probe for `dst_port` of `dst_ip` under `setting`; see `probe_bytes`.
pub fn build_probe(setting: &ScanSetting, dst_ip: IpAddress, dst_port: u16, nonce: u32) -> (r: Option<Vec<u8>>)
    ensures
        match probe_bytes(setting.scan_type, setting.src_ip, setting.src_port, dst_ip, dst_port, setting.icmp_identifier, nonce) {
            Some(b) => r matches Some(v) && v@ == b,
            None => r is None,
        },
{
    match (setting.src_ip, dst_ip) {
        (IpAddress::V4(s), IpAddress::V4(d)) => match setting.scan_type {
            ScanType::IcmpPingScan => Some(build_icmpv4_echo_packet(setting.icmp_identifier)),
            ScanType::TcpPingScan | ScanType::TcpSynScan => Some(
                build_tcp_syn_packet(s, setting.src_port, d, dst_port, nonce),
            ),
            ScanType::UdpPingScan => Some(build_udp_probe(s, setting.src_port, d, dst_port)),
            ScanType::TcpConnectScan => None,
        },
        _ => None,
    }
}

/// The IP protocol number of the probes of a scan type.
pub open spec fn probe_protocol(scan_type: ScanType) -> u8 {
    match scan_type {
        ScanType::IcmpPingScan => 1,
        ScanType::UdpPingScan => 17,
        _ => 6,
    }
}

/// The whole frame of a probe, for sending at the link layer: an Ethernet header from
/// the setting's source MAC to its gateway MAC, an IPv4 header (time-to-live 64,
/// identification from the high half of `nonce`), and the probe of `probe_bytes`.
pub open spec fn probe_frame(setting: ScanSetting, dst_ip: IpAddress, dst_port: u16, nonce: u32) -> Option<Seq<u8>> {
    match (probe_bytes(setting.scan_type, setting.src_ip, setting.src_port, dst_ip, dst_port, setting.icmp_identifier, nonce), setting.src_ip, dst_ip) {
        (Some(t), IpAddress::V4(s), IpAddress::V4(d)) => Some(
            ethernet_bytes(setting.src_mac, setting.dst_mac, EtherKind::Ipv4) + ipv4_bytes(
                Ipv4Fields {
                    total_length: (20 + t.len()) as u16,
                    identification: (nonce / 0x10000) as u16,
                    ttl: 64,
                    protocol: probe_protocol(setting.scan_type),
                    src: s,
                    dst: d,
                },
            ) + t,
        ),
        _ => None,
    }
}

/// Builds the link-layer frame of a probe; see `probe_frame`.
pub fn build_probe_frame(setting: &ScanSetting, dst_ip: IpAddress, dst_port: u16, nonce: u32) -> (r: Option<Vec<u8>>)
    ensures
        match probe_frame(*setting, dst_ip, dst_port, nonce) {
            Some(b) => r matches Some(v) && v@ == b,
            None => r is None,
        },
{
    let (s, d) = match (setting.src_ip, dst_ip) {
        (IpAddress::V4(s), IpAddress::V4(d)) => (s, d),
        _ => {
            return None;
        },
    };
    let t = match build_probe(setting, dst_ip, dst_port, nonce) {
        Some(t) => t,
        None => {
            return None;
        },
    };
    proof {
        assert(t@.len() <= 40);
    }
    let protocol: u8 = match setting.scan_type {
        ScanType::IcmpPingScan => 1,
        ScanType::UdpPingScan => 17,
        _ => 6,
    };
    let ip = build_ipv4_header(
        &Ipv4Fields {
            total_length: (20 + t.len()) as u16,
            identification: (nonce / 0x10000) as u16,
            ttl: 64,
            protocol,
            src: s,
            dst: d,
        },
    );
    let mut out = build_ethernet_packet(setting.src_mac, setting.dst_mac, EtherKind::Ipv4);
    let mut ip = ip;
    let mut t = t;
    out.append(&mut ip);
    out.append(&mut t);
    Some(out)
}

/// A freshly drawn value for a probe's identifier or sequence number.
pub fn random_nonce() -> u32 {
    rand::random::<u32>()
}

/// The probe for `dst_port` of `dst_ip` with a freshly drawn nonce: whatever was
/// drawn, it is the probe `probe_bytes` describes for that nonce.
pub fn next_probe(setting: &ScanSetting, dst_ip: IpAddress, dst_port: u16) -> (r: Option<Vec<u8>>)
    ensures
        exists|nonce: u32| match #[trigger] probe_bytes(setting.scan_type, setting.src_ip, setting.src_port, dst_ip, dst_port, setting.icmp_identifier, nonce) {
            Some(b) => r matches Some(v) && v@ == b,
            None => r is None,
        },
{
    let nonce: u32 = random_nonce();
    build_probe(setting, dst_ip, dst_port, nonce)
}

} // verus!
