use vstd::prelude::*;
use crate::addr::IpAddress;
use crate::probe::{build_icmpv4_echo_packet, echo_fields, build_udp_probe, echo_payload, mss_option, udp_marker};
use crate::packet::udp_bytes;
use crate::bytes::{get_be16, get_be32, read16, read32};
use crate::packet::{
    build_icmp_packet, build_tcp_packet, icmp_bytes, tcp_bytes, IcmpFields, TcpFields,
    ICMP_ADDRESS_MASK_REQUEST, ICMP_INFORMATION_REQUEST,
    ICMP_TIMESTAMP_REQUEST, TCP_CWR, TCP_ECE, TCP_SYN,
};
use crate::receiver::ipv4_payload_offset;

verus! {

/// The probes of the fingerprint battery.
#[derive(Clone, Copy, Debug, PartialEq, Eq, Structural)]
pub enum ProbeType {
    IcmpEchoProbe,
    IcmpTimestampProbe,
    IcmpAddressMaskProbe,
    IcmpInformationProbe,
    IcmpUnreachableProbe,
    TcpSynAckProbe,
    TcpRstAckProbe,
    TcpEcnProbe,
    TcpHeaderProbe,
}

/// The state of a fingerprint run.
#[derive(Clone, Copy, Debug, PartialEq, Eq, Structural)]
pub enum ProbeStatus {
    Ready,
    Done,
    Timeout,
    Error,
}

/// A host to fingerprint, with ports known to be open and closed.
#[derive(Clone, Debug)]
pub struct ProbeTarget {
    pub ip_addr: IpAddress,
    pub open_tcp_ports: Vec<u16>,
    pub closed_tcp_port: u16,
    pub open_udp_port: u16,
    pub closed_udp_port: u16,
}

/// The kind of a TCP option.
#[derive(Clone, Copy, Debug, PartialEq, Eq, Structural)]
pub enum TcpOptionKind {
    Eol,
    Nop,
    Mss,
    WindowScale,
    SackPermitted,
    Sack,
    Timestamp,
    Other(u8),
}

pub open spec fn option_kind_of(k: u8) -> TcpOptionKind {
    if k == 0 { TcpOptionKind::Eol }
    else if k == 1 { TcpOptionKind::Nop }
    else if k == 2 { TcpOptionKind::Mss }
    else if k == 3 { TcpOptionKind::WindowScale }
    else if k == 4 { TcpOptionKind::SackPermitted }
    else if k == 5 { TcpOptionKind::Sack }
    else if k == 8 { TcpOptionKind::Timestamp }
    else { TcpOptionKind::Other(k) }
}

/// The kinds of the options in `o` from byte `i` on, in order. End-of-list closes the
/// list; no-operation takes one byte; any other option gives its length in its second
/// byte, and a length under two or past the end stops the reading.
pub open spec fn option_kinds_from(o: Seq<u8>, i: int) -> Seq<TcpOptionKind>
    decreases o.len() - i,
{
    if i < 0 || i >= o.len() {
        Seq::empty()
    } else if o[i] == 0 {
        seq![TcpOptionKind::Eol]
    } else if o[i] == 1 {
        seq![TcpOptionKind::Nop] + option_kinds_from(o, i + 1)
    } else if i + 1 < o.len() && o[i + 1] >= 2 && i + o[i + 1] <= o.len() {
        seq![option_kind_of(o[i])] + option_kinds_from(o, i + o[i + 1])
    } else {
        seq![option_kind_of(o[i])]
    }
}

fn kind_of(k: u8) -> (r: TcpOptionKind)
    ensures
        r == option_kind_of(k),
{
    if k == 0 { TcpOptionKind::Eol }
    else if k == 1 { TcpOptionKind::Nop }
    else if k == 2 { TcpOptionKind::Mss }
    else if k == 3 { TcpOptionKind::WindowScale }
    else if k == 4 { TcpOptionKind::SackPermitted }
    else if k == 5 { TcpOptionKind::Sack }
    else if k == 8 { TcpOptionKind::Timestamp }
    else { TcpOptionKind::Other(k) }
}

/// The kinds of the TCP options in `o`, in order of appearance.
pub fn parse_option_kinds(o: &[u8]) -> (r: Vec<TcpOptionKind>)
    ensures
        r@ == option_kinds_from(o@, 0),
{
    let mut out: Vec<TcpOptionKind> = Vec::new();
    let mut i: usize = 0;
    while i < o.len()
        invariant
            0 <= i <= o@.len(),
            out@ + option_kinds_from(o@, i as int) == option_kinds_from(o@, 0),
        decreases o@.len() - i,
    {
        let k = o[i];
        if k == 0 {
            out.push(TcpOptionKind::Eol);
            assert(out@ =~= option_kinds_from(o@, 0));
            return out;
        } else if k == 1 {
            out.push(TcpOptionKind::Nop);
            assert(out@ + option_kinds_from(o@, i + 1) =~= option_kinds_from(o@, 0));
            i = i + 1;
        } else if i + 1 < o.len() && o[i + 1] >= 2 && o[i + 1] as usize <= o.len() - i {
            out.push(kind_of(k));
            assert(out@ + option_kinds_from(o@, i + o@[i + 1]) =~= option_kinds_from(o@, 0));
            i = i + o[i + 1] as usize;
        } else {
            out.push(kind_of(k));
            assert(out@ =~= option_kinds_from(o@, 0));
            return out;
        }
    }
    assert(out@ =~= out@ + option_kinds_from(o@, i as int));
    out
}

#[derive(Clone, Copy, Debug, PartialEq, Eq, Structural)]
pub struct IcmpEchoResult {
    pub icmp_echo_reply: bool,
    pub icmp_echo_code: u8,
    pub ip_id: u16,
    pub ip_df: bool,
    pub ip_ttl: u8,
}

impl IcmpEchoResult {
    pub fn new() -> (r: IcmpEchoResult)
        ensures
            r == (IcmpEchoResult { icmp_echo_reply: false, icmp_echo_code: 0, ip_id: 0, ip_df: false, ip_ttl: 0 }),
    {
        IcmpEchoResult { icmp_echo_reply: false, icmp_echo_code: 0, ip_id: 0, ip_df: false, ip_ttl: 0 }
    }
}

#[derive(Clone, Copy, Debug, PartialEq, Eq, Structural)]
pub struct IcmpTimestampResult {
    pub icmp_timestamp_reply: bool,
    pub ip_id: u16,
    pub ip_ttl: u8,
}

impl IcmpTimestampResult {
    pub fn new() -> (r: IcmpTimestampResult)
        ensures
            r == (IcmpTimestampResult { icmp_timestamp_reply: false, ip_id: 0, ip_ttl: 0 }),
    {
        IcmpTimestampResult { icmp_timestamp_reply: false, ip_id: 0, ip_ttl: 0 }
    }
}

#[derive(Clone, Copy, Debug, PartialEq, Eq, Structural)]
pub struct IcmpAddressMaskResult {
    pub icmp_address_mask_reply: bool,
    pub ip_id: u16,
    pub ip_ttl: u8,
}

impl IcmpAddressMaskResult {
    pub fn new() -> (r: IcmpAddressMaskResult)
        ensures
            r == (IcmpAddressMaskResult { icmp_address_mask_reply: false, ip_id: 0, ip_ttl: 0 }),
    {
        IcmpAddressMaskResult { icmp_address_mask_reply: false, ip_id: 0, ip_ttl: 0 }
    }
}

#[derive(Clone, Copy, Debug, PartialEq, Eq, Structural)]
pub struct IcmpInformationResult {
    pub icmp_information_reply: bool,
    pub ip_id: u16,
    pub ip_ttl: u8,
}

impl IcmpInformationResult {
    pub fn new() -> (r: IcmpInformationResult)
        ensures
            r == (IcmpInformationResult { icmp_information_reply: false, ip_id: 0, ip_ttl: 0 }),
    {
        IcmpInformationResult { icmp_information_reply: false, ip_id: 0, ip_ttl: 0 }
    }
}

#[derive(Clone, Copy, Debug, PartialEq, Eq, Structural)]
pub struct IcmpUnreachableIpResult {
    pub icmp_unreachable_reply: bool,
    pub icmp_unreachable_size: u16,
    pub ip_total_length: u16,
    pub ip_id: u16,
    pub ip_df: bool,
    pub ip_ttl: u8,
}

impl IcmpUnreachableIpResult {
    pub fn new() -> (r: IcmpUnreachableIpResult)
        ensures
            r == (IcmpUnreachableIpResult {
                icmp_unreachable_reply: false,
                icmp_unreachable_size: 0,
                ip_total_length: 0,
                ip_id: 0,
                ip_df: false,
                ip_ttl: 0,
            }),
    {
        IcmpUnreachableIpResult {
            icmp_unreachable_reply: false,
            icmp_unreachable_size: 0,
            ip_total_length: 0,
            ip_id: 0,
            ip_df: false,
            ip_ttl: 0,
        }
    }
}

/// The headers of our probe as quoted back in a destination-unreachable message.
#[derive(Clone, Copy, Debug, PartialEq, Eq, Structural)]
pub struct IcmpUnreachableOriginalDataResult {
    pub udp_checksum: u16,
    pub udp_header_length: u16,
    pub udp_payload_length: u16,
    pub ip_checksum: u16,
    pub ip_id: u16,
    pub ip_total_length: u16,
    pub ip_df: bool,
    pub ip_ttl: u8,
}

#[derive(Clone, Debug)]
pub struct TcpHeaderResult {
    pub tcp_window_size: u16,
    pub tcp_option_order: Vec<TcpOptionKind>,
}

impl TcpHeaderResult {
    pub fn new() -> (r: TcpHeaderResult)
        ensures
            r.tcp_window_size == 0,
            r.tcp_option_order@.len() == 0,
    {
        TcpHeaderResult { tcp_window_size: 0, tcp_option_order: Vec::new() }
    }
}

#[derive(Clone, Copy, Debug, PartialEq, Eq, Structural)]
pub struct TcpSynAckResult {
    pub syn_ack_response: bool,
    pub ip_id: u16,
    pub ip_df: bool,
    pub ip_ttl: u8,
}

impl TcpSynAckResult {
    pub fn new() -> (r: TcpSynAckResult)
        ensures
            r == (TcpSynAckResult { syn_ack_response: false, ip_id: 0, ip_df: false, ip_ttl: 0 }),
    {
        TcpSynAckResult { syn_ack_response: false, ip_id: 0, ip_df: false, ip_ttl: 0 }
    }
}

#[derive(Clone, Copy, Debug, PartialEq, Eq, Structural)]
pub struct TcpRstAckResult {
    pub rst_ack_response: bool,
    pub tcp_payload_size: u16,
    pub ip_id: u16,
    pub ip_df: bool,
    pub ip_ttl: u8,
}

impl TcpRstAckResult {
    pub fn new() -> (r: TcpRstAckResult)
        ensures
            r == (TcpRstAckResult { rst_ack_response: false, tcp_payload_size: 0, ip_id: 0, ip_df: false, ip_ttl: 0 }),
    {
        TcpRstAckResult { rst_ack_response: false, tcp_payload_size: 0, ip_id: 0, ip_df: false, ip_ttl: 0 }
    }
}

#[derive(Clone, Copy, Debug, PartialEq, Eq, Structural)]
pub struct TcpEcnResult {
    pub syn_ack_ece_response: bool,
    pub tcp_payload_size: u16,
    pub ip_id: u16,
    pub ip_df: bool,
    pub ip_ttl: u8,
}

impl TcpEcnResult {
    pub fn new() -> (r: TcpEcnResult)
        ensures
            r == (TcpEcnResult { syn_ack_ece_response: false, tcp_payload_size: 0, ip_id: 0, ip_df: false, ip_ttl: 0 }),
    {
        TcpEcnResult { syn_ack_ece_response: false, tcp_payload_size: 0, ip_id: 0, ip_df: false, ip_ttl: 0 }
    }
}

/// Everything the battery learned of one host; a probe not run leaves its record unset.
#[derive(Clone, Debug)]
pub struct ProbeResult {
    pub ip_addr: IpAddress,
    pub icmp_echo_result: Option<IcmpEchoResult>,
    pub icmp_timestamp_result: Option<IcmpTimestampResult>,
    pub icmp_address_mask_result: Option<IcmpAddressMaskResult>,
    pub icmp_information_result: Option<IcmpInformationResult>,
    pub icmp_unreachable_ip_result: Option<IcmpUnreachableIpResult>,
    pub icmp_unreachable_data_result: Option<IcmpUnreachableOriginalDataResult>,
    pub tcp_syn_ack_result: Option<TcpSynAckResult>,
    pub tcp_rst_ack_result: Option<TcpRstAckResult>,
    pub tcp_ecn_result: Option<TcpEcnResult>,
    pub tcp_header_result: Option<TcpHeaderResult>,
}

impl ProbeResult {
    /// A result for `ip_addr` with no record set.
    pub fn new(ip_addr: IpAddress) -> (r: ProbeResult)
        ensures
            r.ip_addr == ip_addr,
            r.icmp_echo_result is None,
            r.icmp_timestamp_result is None,
            r.icmp_address_mask_result is None,
            r.icmp_information_result is None,
            r.icmp_unreachable_ip_result is None,
            r.icmp_unreachable_data_result is None,
            r.tcp_syn_ack_result is None,
            r.tcp_rst_ack_result is None,
            r.tcp_ecn_result is None,
            r.tcp_header_result is None,
    {
        ProbeResult {
            ip_addr,
            icmp_echo_result: None,
            icmp_timestamp_result: None,
            icmp_address_mask_result: None,
            icmp_information_result: None,
            icmp_unreachable_ip_result: None,
            icmp_unreachable_data_result: None,
            tcp_syn_ack_result: None,
            tcp_rst_ack_result: None,
            tcp_ecn_result: None,
            tcp_header_result: None,
        }
    }

    /// A result for `ip_addr` with an empty record for each probe type in `types`
    /// that records flags (the header and quoted-data records start unset).
    pub fn new_with_types(ip_addr: IpAddress, types: Vec<ProbeType>) -> (r: ProbeResult)
        ensures
            r.ip_addr == ip_addr,
            r.icmp_echo_result == (if types@.contains(ProbeType::IcmpEchoProbe) { Some(IcmpEchoResult { icmp_echo_reply: false, icmp_echo_code: 0, ip_id: 0, ip_df: false, ip_ttl: 0 }) } else { None }),
            r.icmp_timestamp_result == (if types@.contains(ProbeType::IcmpTimestampProbe) { Some(IcmpTimestampResult { icmp_timestamp_reply: false, ip_id: 0, ip_ttl: 0 }) } else { None }),
            r.icmp_address_mask_result == (if types@.contains(ProbeType::IcmpAddressMaskProbe) { Some(IcmpAddressMaskResult { icmp_address_mask_reply: false, ip_id: 0, ip_ttl: 0 }) } else { None }),
            r.icmp_information_result == (if types@.contains(ProbeType::IcmpInformationProbe) { Some(IcmpInformationResult { icmp_information_reply: false, ip_id: 0, ip_ttl: 0 }) } else { None }),
            r.icmp_unreachable_ip_result == (if types@.contains(ProbeType::IcmpUnreachableProbe) { Some(IcmpUnreachableIpResult { icmp_unreachable_reply: false, icmp_unreachable_size: 0, ip_total_length: 0, ip_id: 0, ip_df: false, ip_ttl: 0 }) } else { None }),
            r.icmp_unreachable_data_result is None,
            r.tcp_syn_ack_result == (if types@.contains(ProbeType::TcpSynAckProbe) { Some(TcpSynAckResult { syn_ack_response: false, ip_id: 0, ip_df: false, ip_ttl: 0 }) } else { None }),
            r.tcp_rst_ack_result == (if types@.contains(ProbeType::TcpRstAckProbe) { Some(TcpRstAckResult { rst_ack_response: false, tcp_payload_size: 0, ip_id: 0, ip_df: false, ip_ttl: 0 }) } else { None }),
            r.tcp_ecn_result == (if types@.contains(ProbeType::TcpEcnProbe) { Some(TcpEcnResult { syn_ack_ece_response: false, tcp_payload_size: 0, ip_id: 0, ip_df: false, ip_ttl: 0 }) } else { None }),
            r.tcp_header_result is None,
    {
        ProbeResult {
            ip_addr,
            icmp_echo_result: if has_type(&types, ProbeType::IcmpEchoProbe) { Some(IcmpEchoResult::new()) } else { None },
            icmp_timestamp_result: if has_type(&types, ProbeType::IcmpTimestampProbe) { Some(IcmpTimestampResult::new()) } else { None },
            icmp_address_mask_result: if has_type(&types, ProbeType::IcmpAddressMaskProbe) { Some(IcmpAddressMaskResult::new()) } else { None },
            icmp_information_result: if has_type(&types, ProbeType::IcmpInformationProbe) { Some(IcmpInformationResult::new()) } else { None },
            icmp_unreachable_ip_result: if has_type(&types, ProbeType::IcmpUnreachableProbe) { Some(IcmpUnreachableIpResult::new()) } else { None },
            icmp_unreachable_data_result: None,
            tcp_syn_ack_result: if has_type(&types, ProbeType::TcpSynAckProbe) { Some(TcpSynAckResult::new()) } else { None },
            tcp_rst_ack_result: if has_type(&types, ProbeType::TcpRstAckProbe) { Some(TcpRstAckResult::new()) } else { None },
            tcp_ecn_result: if has_type(&types, ProbeType::TcpEcnProbe) { Some(TcpEcnResult::new()) } else { None },
            tcp_header_result: None,
        }
    }
}

fn has_type(types: &Vec<ProbeType>, t: ProbeType) -> (r: bool)
    ensures
        r == types@.contains(t),
{
    let mut i: usize = 0;
    while i < types.len()
        invariant
            0 <= i <= types@.len(),
            forall|j: int| 0 <= j < i ==> types@[j] != t,
        decreases types@.len() - i,
    {
        if types[i] == t {
            return true;
        }
        i = i + 1;
    }
    false
}

/// The IPv4 facts of a captured reply that the battery records.
#[derive(Clone, Copy, Debug, PartialEq, Eq, Structural)]
pub struct ReplyIp {
    pub src: u32,
    pub ttl: u8,
    pub id: u16,
    pub df: bool,
    pub total_length: u16,
    pub protocol: u8,
    /// Offset of the transport header in the frame.
    pub transport: usize,
}

pub open spec fn reply_ip(f: Seq<u8>) -> Option<ReplyIp> {
    match ipv4_payload_offset(f) {
        Some(t) => Some(ReplyIp {
            src: read32(f, 26),
            ttl: f[22],
            id: read16(f, 18),
            df: f[20] / 64 % 2 == 1,
            total_length: read16(f, 16),
            protocol: f[23],
            transport: t as usize,
        }),
        None => None,
    }
}

/// Reads the IPv4 facts of a captured Ethernet frame.
pub fn read_reply_ip(f: &[u8]) -> (r: Option<ReplyIp>)
    ensures
        r == reply_ip(f@),
        r matches Some(h) ==> h.transport <= f@.len(),
{
    if f.len() < 34 || get_be16(f, 12) != 0x0800 || f[14] / 16 != 4 || f[14] % 16 < 5 {
        return None;
    }
    let t: usize = 14 + ((f[14] % 16) as usize) * 4;
    if t > f.len() {
        return None;
    }
    Some(ReplyIp {
        src: get_be32(f, 26),
        ttl: f[22],
        id: get_be16(f, 18),
        df: f[20] / 64 % 2 == 1,
        total_length: get_be16(f, 16),
        protocol: f[23],
        transport: t,
    })
}

/// The TCP flags of a reply from `target` to our `port`, if the frame is one.
pub open spec fn tcp_reply_flags(f: Seq<u8>, target: u32, port: u16) -> Option<u8> {
    match reply_ip(f) {
        Some(h) => if h.protocol == 6 && h.src == target && h.transport + 20 <= f.len()
            && read16(f, h.transport + 2) == port {
            Some(f[h.transport + 13])
        } else {
            None
        },
        None => None,
    }
}

pub open spec fn has_flag(flags: u8, bit: u8) -> bool {
    (flags / bit) % 2 == 1
}

/// The TCP payload length of a reply: what the IPv4 total length leaves after the
/// IPv4 and TCP headers, zero if nothing.
pub open spec fn tcp_payload_size(f: Seq<u8>, h: ReplyIp) -> u16 {
    let size = h.total_length - (h.transport - 14) - (f[h.transport + 12] / 16) * 4;
    if size > 0 { size as u16 } else { 0 }
}

/// What the RST+ACK probe records from a frame: a reply from `target` to `port` with
/// both RST and ACK set.
pub open spec fn rst_ack_record(f: Seq<u8>, target: u32, port: u16) -> Option<TcpRstAckResult> {
    match tcp_reply_flags(f, target, port) {
        Some(flags) => if has_flag(flags, 4) && has_flag(flags, 16) {
            let h = reply_ip(f)->Some_0;
            Some(TcpRstAckResult {
                rst_ack_response: true,
                tcp_payload_size: tcp_payload_size(f, h),
                ip_id: h.id,
                ip_df: h.df,
                ip_ttl: h.ttl,
            })
        } else {
            None
        },
        None => None,
    }
}

/// What the SYN+ACK probe records from a frame: a reply with SYN and ACK set.
pub open spec fn syn_ack_record(f: Seq<u8>, target: u32, port: u16) -> Option<TcpSynAckResult> {
    match tcp_reply_flags(f, target, port) {
        Some(flags) => if has_flag(flags, 2) && has_flag(flags, 16) {
            let h = reply_ip(f)->Some_0;
            Some(TcpSynAckResult { syn_ack_response: true, ip_id: h.id, ip_df: h.df, ip_ttl: h.ttl })
        } else {
            None
        },
        None => None,
    }
}

/// What the ECN probe records from a frame: a reply with SYN, ACK and ECE set.
pub open spec fn ecn_record(f: Seq<u8>, target: u32, port: u16) -> Option<TcpEcnResult> {
    match tcp_reply_flags(f, target, port) {
        Some(flags) => if has_flag(flags, 2) && has_flag(flags, 16) && has_flag(flags, 64) {
            let h = reply_ip(f)->Some_0;
            Some(TcpEcnResult {
                syn_ack_ece_response: true,
                tcp_payload_size: tcp_payload_size(f, h),
                ip_id: h.id,
                ip_df: h.df,
                ip_ttl: h.ttl,
            })
        } else {
            None
        },
        None => None,
    }
}

fn tcp_flags_of(f: &[u8], target: u32, port: u16) -> (r: Option<(u8, ReplyIp)>)
    ensures
        match tcp_reply_flags(f@, target, port) {
            Some(flags) => r matches Some((g, h)) && g == flags && reply_ip(f@) == Some(h) && h.transport + 20 <= f@.len(),
            None => r is None,
        },
{
    match read_reply_ip(f) {
        Some(h) => {
            if h.protocol == 6 && h.src == target && h.transport + 20 <= f.len() && get_be16(f, h.transport + 2) == port {
                Some((f[h.transport + 13], h))
            } else {
                None
            }
        },
        None => None,
    }
}

fn payload_size_of(f: &[u8], h: ReplyIp) -> (r: u16)
    requires
        reply_ip(f@) == Some(h),
        h.transport + 20 <= f@.len(),
    ensures
        r == tcp_payload_size(f@, h),
{
    let hdr: u32 = (h.transport - 14) as u32 + ((f[h.transport + 12] / 16) as u32) * 4;
    if (h.total_length as u32) > hdr {
        (h.total_length as u32 - hdr) as u16
    } else {
        0
    }
}

/// The RST+ACK probe's record of a frame; see `rst_ack_record`.
pub fn capture_rst_ack(f: &[u8], target: u32, port: u16) -> (r: Option<TcpRstAckResult>)
    ensures
        r == rst_ack_record(f@, target, port),
{
    match tcp_flags_of(f, target, port) {
        Some((flags, h)) => {
            if (flags / 4) % 2 == 1 && (flags / 16) % 2 == 1 {
                Some(TcpRstAckResult {
                    rst_ack_response: true,
                    tcp_payload_size: payload_size_of(f, h),
                    ip_id: h.id,
                    ip_df: h.df,
                    ip_ttl: h.ttl,
                })
            } else {
                None
            }
        },
        None => None,
    }
}

/// The SYN+ACK probe's record of a frame; see `syn_ack_record`.
pub fn capture_syn_ack(f: &[u8], target: u32, port: u16) -> (r: Option<TcpSynAckResult>)
    ensures
        r == syn_ack_record(f@, target, port),
{
    match tcp_flags_of(f, target, port) {
        Some((flags, h)) => {
            if (flags / 2) % 2 == 1 && (flags / 16) % 2 == 1 {
                Some(TcpSynAckResult { syn_ack_response: true, ip_id: h.id, ip_df: h.df, ip_ttl: h.ttl })
            } else {
                None
            }
        },
        None => None,
    }
}

/// The ECN probe's record of a frame; see `ecn_record`.
pub fn capture_ecn(f: &[u8], target: u32, port: u16) -> (r: Option<TcpEcnResult>)
    ensures
        r == ecn_record(f@, target, port),
{
    match tcp_flags_of(f, target, port) {
        Some((flags, h)) => {
            if (flags / 2) % 2 == 1 && (flags / 16) % 2 == 1 && (flags / 64) % 2 == 1 {
                Some(TcpEcnResult {
                    syn_ack_ece_response: true,
                    tcp_payload_size: payload_size_of(f, h),
                    ip_id: h.id,
                    ip_df: h.df,
                    ip_ttl: h.ttl,
                })
            } else {
                None
            }
        },
        None => None,
    }
}

/// Where the options of the TCP header at `t` end.
pub open spec fn options_end(f: Seq<u8>, t: int) -> int {
    t + f[t + 12] / 16 * 4
}

/// The header probe's record of a frame: the window and the order of the option
/// kinds of a SYN+ACK reply whose options lie within the frame.
pub fn capture_tcp_header(f: &[u8], target: u32, port: u16) -> (r: Option<TcpHeaderResult>)
    ensures
        match syn_ack_record(f@, target, port) {
            Some(_) => {
                let t = reply_ip(f@)->Some_0.transport as int;
                if t + 20 <= options_end(f@, t) <= f@.len() {
                    r matches Some(h) && h.tcp_window_size == read16(f@, t + 14) && h.tcp_option_order@
                        == option_kinds_from(f@.subrange(t + 20, options_end(f@, t)), 0)
                } else {
                    r is None
                }
            },
            None => r is None,
        },
{
    match tcp_flags_of(f, target, port) {
        Some((flags, h)) => {
            if (flags / 2) % 2 == 1 && (flags / 16) % 2 == 1 {
                let t = h.transport;
                let end: usize = t + ((f[t + 12] / 16) as usize) * 4;
                let mut opts: Vec<u8> = Vec::new();
                let mut i: usize = t + 20;
                if end <= f.len() && end >= t + 20 {
                    while i < end
                        invariant
                            t + 20 <= i <= end <= f@.len(),
                            opts@ == f@.subrange(t + 20, i as int),
                        decreases end - i,
                    {
                        opts.push(f[i]);
                        i = i + 1;
                        assert(opts@ =~= f@.subrange(t + 20, i as int));
                    }
                    Some(TcpHeaderResult { tcp_window_size: get_be16(f, t + 14), tcp_option_order: parse_option_kinds(opts.as_slice()) })
                } else {
                    None
                }
            } else {
                None
            }
        },
        None => None,
    }
}

/// The type and code of an ICMP message from `target`, if the frame is one.
pub open spec fn icmp_reply(f: Seq<u8>, target: u32) -> Option<(u8, u8)> {
    match reply_ip(f) {
        Some(h) => if h.protocol == 1 && h.src == target && h.transport + 8 <= f.len() {
            Some((f[h.transport as int], f[h.transport + 1]))
        } else {
            None
        },
        None => None,
    }
}

fn icmp_reply_of(f: &[u8], target: u32) -> (r: Option<(u8, u8, ReplyIp)>)
    ensures
        match icmp_reply(f@, target) {
            Some((ty, code)) => r matches Some((a, b, h)) && a == ty && b == code && reply_ip(f@) == Some(h),
            None => r is None,
        },
{
    match read_reply_ip(f) {
        Some(h) => {
            if h.protocol == 1 && h.src == target && h.transport + 8 <= f.len() {
                Some((f[h.transport], f[h.transport + 1], h))
            } else {
                None
            }
        },
        None => None,
    }
}

/// What the echo probe records: an echo reply, its code and IPv4 facts.
pub open spec fn echo_record(f: Seq<u8>, target: u32) -> Option<IcmpEchoResult> {
    match icmp_reply(f, target) {
        Some((ty, code)) => if ty == 0 {
            let h = reply_ip(f)->Some_0;
            Some(IcmpEchoResult { icmp_echo_reply: true, icmp_echo_code: code, ip_id: h.id, ip_df: h.df, ip_ttl: h.ttl })
        } else {
            None
        },
        None => None,
    }
}

/// What the unreachable probe records: a destination-unreachable message, the size of
/// the ICMP message and the IPv4 facts of the reply.
pub open spec fn unreachable_record(f: Seq<u8>, target: u32) -> Option<IcmpUnreachableIpResult> {
    match icmp_reply(f, target) {
        Some((ty, code)) => if ty == 3 {
            let h = reply_ip(f)->Some_0;
            let size = h.total_length - (h.transport - 14);
            Some(IcmpUnreachableIpResult {
                icmp_unreachable_reply: true,
                icmp_unreachable_size: if size > 0 { size as u16 } else { 0 },
                ip_total_length: h.total_length,
                ip_id: h.id,
                ip_df: h.df,
                ip_ttl: h.ttl,
            })
        } else {
            None
        },
        None => None,
    }
}

pub fn capture_echo(f: &[u8], target: u32) -> (r: Option<IcmpEchoResult>)
    ensures
        r == echo_record(f@, target),
{
    match icmp_reply_of(f, target) {
        Some((ty, code, h)) => if ty == 0 {
            Some(IcmpEchoResult { icmp_echo_reply: true, icmp_echo_code: code, ip_id: h.id, ip_df: h.df, ip_ttl: h.ttl })
        } else {
            None
        },
        None => None,
    }
}

/// What the timestamp, address-mask and information probes record: a reply of type
/// `reply_type` and its IPv4 id and time-to-live.
pub open spec fn query_record(f: Seq<u8>, target: u32, reply_type: u8) -> Option<(u16, u8)> {
    match icmp_reply(f, target) {
        Some((ty, _)) => if ty == reply_type {
            let h = reply_ip(f)->Some_0;
            Some((h.id, h.ttl))
        } else {
            None
        },
        None => None,
    }
}

pub fn capture_query(f: &[u8], target: u32, reply_type: u8) -> (r: Option<(u16, u8)>)
    ensures
        r == query_record(f@, target, reply_type),
{
    match icmp_reply_of(f, target) {
        Some((ty, _code, h)) => if ty == reply_type {
            Some((h.id, h.ttl))
        } else {
            None
        },
        None => None,
    }
}

pub fn capture_unreachable(f: &[u8], target: u32) -> (r: Option<IcmpUnreachableIpResult>)
    ensures
        r == unreachable_record(f@, target),
{
    match icmp_reply_of(f, target) {
        Some((ty, _code, h)) => if ty == 3 {
            let hdr: u32 = (h.transport - 14) as u32;
            let size: u16 = if (h.total_length as u32) > hdr { (h.total_length as u32 - hdr) as u16 } else { 0 };
            Some(IcmpUnreachableIpResult {
                icmp_unreachable_reply: true,
                icmp_unreachable_size: size,
                ip_total_length: h.total_length,
                ip_id: h.id,
                ip_df: h.df,
                ip_ttl: h.ttl,
            })
        } else {
            None
        },
        None => None,
    }
}

impl ProbeResult {
    /// Records what a captured reply to probe `probe` tells, for a target at the IPv4
    /// address `target` and probes sent from `src_port`. A frame that is no such reply
    /// leaves the result as it was.
    pub fn record_reply(&mut self, probe: ProbeType, f: &[u8], target: u32, src_port: u16)
        ensures
            final(self).ip_addr == old(self).ip_addr,
            probe == ProbeType::TcpRstAckProbe ==> final(self).tcp_rst_ack_result == match rst_ack_record(f@, target, src_port) {
                Some(rec) => Some(rec),
                None => old(self).tcp_rst_ack_result,
            },
            probe == ProbeType::TcpSynAckProbe ==> final(self).tcp_syn_ack_result == match syn_ack_record(f@, target, src_port) {
                Some(rec) => Some(rec),
                None => old(self).tcp_syn_ack_result,
            },
            probe == ProbeType::TcpEcnProbe ==> final(self).tcp_ecn_result == match ecn_record(f@, target, src_port) {
                Some(rec) => Some(rec),
                None => old(self).tcp_ecn_result,
            },
            probe == ProbeType::IcmpEchoProbe ==> final(self).icmp_echo_result == match echo_record(f@, target) {
                Some(rec) => Some(rec),
                None => old(self).icmp_echo_result,
            },
            probe == ProbeType::IcmpTimestampProbe ==> final(self).icmp_timestamp_result == match query_record(f@, target, 14) {
                Some((id, ttl)) => Some(IcmpTimestampResult { icmp_timestamp_reply: true, ip_id: id, ip_ttl: ttl }),
                None => old(self).icmp_timestamp_result,
            },
            probe == ProbeType::IcmpAddressMaskProbe ==> final(self).icmp_address_mask_result == match query_record(f@, target, 18) {
                Some((id, ttl)) => Some(IcmpAddressMaskResult { icmp_address_mask_reply: true, ip_id: id, ip_ttl: ttl }),
                None => old(self).icmp_address_mask_result,
            },
            probe == ProbeType::IcmpInformationProbe ==> final(self).icmp_information_result == match query_record(f@, target, 16) {
                Some((id, ttl)) => Some(IcmpInformationResult { icmp_information_reply: true, ip_id: id, ip_ttl: ttl }),
                None => old(self).icmp_information_result,
            },
            probe == ProbeType::IcmpUnreachableProbe ==> final(self).icmp_unreachable_ip_result == match unreachable_record(f@, target) {
                Some(rec) => Some(rec),
                None => old(self).icmp_unreachable_ip_result,
            },
            probe == ProbeType::TcpHeaderProbe ==> match syn_ack_record(f@, target, src_port) {
                Some(_) => {
                    let t = reply_ip(f@)->Some_0.transport as int;
                    if t + 20 <= options_end(f@, t) <= f@.len() {
                        final(self).tcp_header_result matches Some(h) && h.tcp_window_size == read16(f@, t + 14)
                            && h.tcp_option_order@ == option_kinds_from(f@.subrange(t + 20, options_end(f@, t)), 0)
                    } else {
                        final(self).tcp_header_result == old(self).tcp_header_result
                    }
                },
                None => final(self).tcp_header_result == old(self).tcp_header_result,
            },
            probe != ProbeType::TcpRstAckProbe ==> final(self).tcp_rst_ack_result == old(self).tcp_rst_ack_result,
            probe != ProbeType::TcpSynAckProbe ==> final(self).tcp_syn_ack_result == old(self).tcp_syn_ack_result,
    {
        match probe {
            ProbeType::TcpRstAckProbe => {
                if let Some(rec) = capture_rst_ack(f, target, src_port) {
                    self.tcp_rst_ack_result = Some(rec);
                }
            },
            ProbeType::TcpSynAckProbe => {
                if let Some(rec) = capture_syn_ack(f, target, src_port) {
                    self.tcp_syn_ack_result = Some(rec);
                }
            },
            ProbeType::TcpEcnProbe => {
                if let Some(rec) = capture_ecn(f, target, src_port) {
                    self.tcp_ecn_result = Some(rec);
                }
            },
            ProbeType::TcpHeaderProbe => {
                if let Some(rec) = capture_tcp_header(f, target, src_port) {
                    self.tcp_header_result = Some(rec);
                }
            },
            ProbeType::IcmpEchoProbe => {
                if let Some(rec) = capture_echo(f, target) {
                    self.icmp_echo_result = Some(rec);
                }
            },
            ProbeType::IcmpTimestampProbe => {
                if let Some((id, ttl)) = capture_query(f, target, 14) {
                    self.icmp_timestamp_result = Some(IcmpTimestampResult { icmp_timestamp_reply: true, ip_id: id, ip_ttl: ttl });
                }
            },
            ProbeType::IcmpAddressMaskProbe => {
                if let Some((id, ttl)) = capture_query(f, target, 18) {
                    self.icmp_address_mask_result = Some(IcmpAddressMaskResult { icmp_address_mask_reply: true, ip_id: id, ip_ttl: ttl });
                }
            },
            ProbeType::IcmpInformationProbe => {
                if let Some((id, ttl)) = capture_query(f, target, 16) {
                    self.icmp_information_result = Some(IcmpInformationResult { icmp_information_reply: true, ip_id: id, ip_ttl: ttl });
                }
            },
            ProbeType::IcmpUnreachableProbe => {
                if let Some(rec) = capture_unreachable(f, target) {
                    self.icmp_unreachable_ip_result = Some(rec);
                }
            },
        }
    }
}

/// A reply with SYN and ACK set, as an open port sends, never counts as a RST+ACK
/// answer.
pub proof fn lemma_syn_ack_is_no_rst_ack(f: Seq<u8>, target: u32, port: u16)
    requires
        tcp_reply_flags(f, target, port) matches Some(flags) && !has_flag(flags, 4),
    ensures
        rst_ack_record(f, target, port) is None,
{
}

/// The options of the header probe: MSS, SACK permitted, timestamp, NOP and window
/// scale, in that order.
pub open spec fn header_probe_options() -> Seq<u8> {
    seq![2u8, 4u8, 0x05u8, 0xb4u8, 4u8, 2u8, 8u8, 10u8, 0u8, 0u8, 0u8, 0u8, 0u8, 0u8, 0u8, 0u8, 1u8, 3u8, 3u8, 10u8]
}

pub open spec fn os_syn_fields(src_port: u16, dst_port: u16, sequence: u32, flags: u8, reserved: u8, window: u16) -> TcpFields {
    TcpFields { src_port, dst_port, sequence, acknowledgement: 0, reserved, flags, window, urgent_ptr: 0 }
}

pub open spec fn query_fields(icmp_type: u8, nonce: u32) -> IcmpFields {
    IcmpFields { icmp_type, code: 0, identifier: (nonce % 0x10000) as u16, sequence: 0 }
}

/// The transport packet that probe `probe` sends to `target` from `src_ip:src_port`;
/// `nonce` gives the ICMP identifier or the TCP sequence number. None for an IPv6
/// target, or for the probes of open ports when no open port is known.
pub open spec fn os_probe_bytes(probe: ProbeType, target: ProbeTarget, src_ip: u32, src_port: u16, nonce: u32) -> Option<Seq<u8>> {
    match target.ip_addr {
        IpAddress::V4(d) => match probe {
            ProbeType::IcmpEchoProbe => Some(icmp_bytes(query_fields(8, nonce), echo_payload())),
            ProbeType::IcmpTimestampProbe => Some(icmp_bytes(query_fields(13, nonce), Seq::new(12, |i: int| 0u8))),
            ProbeType::IcmpAddressMaskProbe => Some(icmp_bytes(query_fields(17, nonce), Seq::new(4, |i: int| 0u8))),
            ProbeType::IcmpInformationProbe => Some(icmp_bytes(query_fields(15, nonce), Seq::empty())),
            ProbeType::IcmpUnreachableProbe => Some(udp_bytes(src_port, target.closed_udp_port, udp_marker(), src_ip, d)),
            ProbeType::TcpSynAckProbe => if target.open_tcp_ports@.len() > 0 {
                Some(tcp_bytes(os_syn_fields(src_port, target.open_tcp_ports@[0], nonce, 0x02, 0, 65535), mss_option(), src_ip, d))
            } else {
                None
            },
            ProbeType::TcpRstAckProbe => Some(
                tcp_bytes(os_syn_fields(src_port, target.closed_tcp_port, nonce, 0x02, 0, 65535), mss_option(), src_ip, d),
            ),
            ProbeType::TcpEcnProbe => if target.open_tcp_ports@.len() > 0 {
                Some(tcp_bytes(os_syn_fields(src_port, target.open_tcp_ports@[0], nonce, 0xc2, 8, 3), mss_option(), src_ip, d))
            } else {
                None
            },
            ProbeType::TcpHeaderProbe => if target.open_tcp_ports@.len() > 0 {
                Some(tcp_bytes(os_syn_fields(src_port, target.open_tcp_ports@[0], nonce, 0x02, 0, 1024), header_probe_options(), src_ip, d))
            } else {
                None
            },
        },
        IpAddress::V6(_) => None,
    }
}

fn zeros(n: usize) -> (r: Vec<u8>)
    ensures
        r@ == Seq::new(n as nat, |i: int| 0u8),
{
    let r: Vec<u8> = vec![0u8; n];
    assert(r@ =~= Seq::new(n as nat, |i: int| 0u8));
    r
}

fn os_syn(src_ip: u32, d: u32, src_port: u16, dst_port: u16, nonce: u32, flags: u8, reserved: u8, window: u16, options: &[u8]) -> (r: Vec<u8>)
    requires
        reserved < 16,
        crate::packet::valid_tcp_options(options@),
    ensures
        r@ == tcp_bytes(os_syn_fields(src_port, dst_port, nonce, flags, reserved, window), options@, src_ip, d),
{
    let f = TcpFields { src_port, dst_port, sequence: nonce, acknowledgement: 0, reserved, flags, window, urgent_ptr: 0 };
    build_tcp_packet(&f, options, src_ip, d)
}

/// The packet of probe `probe`; see `os_probe_bytes`.
pub fn build_os_probe(probe: ProbeType, target: &ProbeTarget, src_ip: u32, src_port: u16, nonce: u32) -> (r: Option<Vec<u8>>)
    ensures
        match os_probe_bytes(probe, *target, src_ip, src_port, nonce) {
            Some(b) => r matches Some(v) && v@ == b,
            None => r is None,
        },
{
    let d = match target.ip_addr {
        IpAddress::V4(d) => d,
        IpAddress::V6(_) => {
            return None;
        },
    };
    let mss: Vec<u8> = vec![2u8, 4u8, 0x05u8, 0xb4u8];
    assert(mss@ =~= mss_option());
    let id = (nonce % 0x10000) as u16;
    match probe {
        ProbeType::IcmpEchoProbe => {
            let r = build_icmpv4_echo_packet(id);
            assert(crate::probe::echo_fields(id) == query_fields(8, nonce));
            Some(r)
        },
        ProbeType::IcmpTimestampProbe => {
            let p = zeros(12);
            assert(p@ =~= Seq::new(12, |i: int| 0u8));
            let r = build_icmp_packet(&IcmpFields { icmp_type: ICMP_TIMESTAMP_REQUEST, code: 0, identifier: id, sequence: 0 }, p.as_slice());
            assert(os_probe_bytes(probe, *target, src_ip, src_port, nonce) == Some(r@));
            Some(r)
        },
        ProbeType::IcmpAddressMaskProbe => {
            let p = zeros(4);
            assert(p@ =~= Seq::new(4, |i: int| 0u8));
            let r = build_icmp_packet(&IcmpFields { icmp_type: ICMP_ADDRESS_MASK_REQUEST, code: 0, identifier: id, sequence: 0 }, p.as_slice());
            assert(os_probe_bytes(probe, *target, src_ip, src_port, nonce) == Some(r@));
            Some(r)
        },
        ProbeType::IcmpInformationProbe => {
            let p = zeros(0);
            assert(p@ =~= Seq::<u8>::empty());
            let r = build_icmp_packet(&IcmpFields { icmp_type: ICMP_INFORMATION_REQUEST, code: 0, identifier: id, sequence: 0 }, p.as_slice());
            assert(os_probe_bytes(probe, *target, src_ip, src_port, nonce) == Some(r@));
            Some(r)
        },
        ProbeType::IcmpUnreachableProbe => {
            let r = build_udp_probe(src_ip, src_port, d, target.closed_udp_port);
            assert(os_probe_bytes(probe, *target, src_ip, src_port, nonce) == Some(r@));
            Some(r)
        },
        ProbeType::TcpSynAckProbe => {
            if target.open_tcp_ports.len() == 0 {
                return None;
            }
            let r = os_syn(src_ip, d, src_port, target.open_tcp_ports[0], nonce, TCP_SYN, 0, 65535, mss.as_slice());
            assert(os_probe_bytes(probe, *target, src_ip, src_port, nonce) == Some(r@));
            Some(r)
        },
        ProbeType::TcpRstAckProbe => {
            let r = os_syn(src_ip, d, src_port, target.closed_tcp_port, nonce, TCP_SYN, 0, 65535, mss.as_slice());
            assert(os_probe_bytes(probe, *target, src_ip, src_port, nonce) == Some(r@));
            Some(r)
        },
        ProbeType::TcpEcnProbe => {
            if target.open_tcp_ports.len() == 0 {
                return None;
            }
            let r = os_syn(src_ip, d, src_port, target.open_tcp_ports[0], nonce, TCP_SYN + TCP_ECE + TCP_CWR, 8, 3, mss.as_slice());
            assert(os_probe_bytes(probe, *target, src_ip, src_port, nonce) == Some(r@));
            Some(r)
        },
        ProbeType::TcpHeaderProbe => {
            if target.open_tcp_ports.len() == 0 {
                return None;
            }
            let opts: Vec<u8> = vec![2u8, 4u8, 0x05u8, 0xb4u8, 4u8, 2u8, 8u8, 10u8, 0u8, 0u8, 0u8, 0u8, 0u8, 0u8, 0u8, 0u8, 1u8, 3u8, 3u8, 10u8];
            assert(opts@ =~= header_probe_options());
            let r = os_syn(src_ip, d, src_port, target.open_tcp_ports[0], nonce, TCP_SYN, 0, 1024, opts.as_slice());
            assert(os_probe_bytes(probe, *target, src_ip, src_port, nonce) == Some(r@));
            Some(r)
        },
    }
}

} // verus!
