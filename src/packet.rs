use vstd::prelude::*;
use crate::addr::MacAddr;
use crate::bytes::{
    be16, be32, bytes_equal, checksum, get_be16, get_be32, internet_checksum, lemma_be16_read,
    lemma_be32_read, push_be16, push_be32, read16, read32,
};

verus! {

pub const ETHERNET_HEADER_LEN: usize = 14;

pub const IPV4_HEADER_LEN: usize = 20;

pub const ETHERTYPE_IPV4: u16 = 0x0800;

pub const ETHERTYPE_ARP: u16 = 0x0806;

pub const ETHERTYPE_IPV6: u16 = 0x86dd;

pub const IP_PROTO_ICMP: u8 = 1;

pub const IP_PROTO_TCP: u8 = 6;

pub const IP_PROTO_UDP: u8 = 17;

/// The protocols an Ethernet frame of the engine carries.
#[derive(Clone, Copy, Debug, PartialEq, Eq, Structural)]
pub enum EtherKind {
    Arp,
    Ipv4,
    Ipv6,
}

pub open spec fn ether_type_of(k: EtherKind) -> u16 {
    match k {
        EtherKind::Arp => 0x0806,
        EtherKind::Ipv4 => 0x0800,
        EtherKind::Ipv6 => 0x86dd,
    }
}

pub open spec fn mac_bytes(m: MacAddr) -> Seq<u8> {
    seq![m.0, m.1, m.2, m.3, m.4, m.5]
}

/// An Ethernet header: destination, source, ether type.
pub open spec fn ethernet_bytes(src: MacAddr, dst: MacAddr, kind: EtherKind) -> Seq<u8> {
    mac_bytes(dst) + mac_bytes(src) + be16(ether_type_of(kind))
}

fn push_mac(out: &mut Vec<u8>, m: MacAddr)
    ensures
        final(out)@ == old(out)@ + mac_bytes(m),
{
    out.push(m.0);
    out.push(m.1);
    out.push(m.2);
    out.push(m.3);
    out.push(m.4);
    out.push(m.5);
    assert(final(out)@ =~= old(out)@ + mac_bytes(m));
}

/// The 14-byte Ethernet header of a frame from `src_mac` to `dst_mac`.
pub fn build_ethernet_packet(src_mac: MacAddr, dst_mac: MacAddr, ether_type: EtherKind) -> (r: Vec<u8>)
    ensures
        r@ == ethernet_bytes(src_mac, dst_mac, ether_type),
        r@.len() == ETHERNET_HEADER_LEN,
{
    let mut out: Vec<u8> = Vec::new();
    push_mac(&mut out, dst_mac);
    push_mac(&mut out, src_mac);
    let t: u16 = match ether_type {
        EtherKind::Arp => ETHERTYPE_ARP,
        EtherKind::Ipv4 => ETHERTYPE_IPV4,
        EtherKind::Ipv6 => ETHERTYPE_IPV6,
    };
    push_be16(&mut out, t);
    assert(out@ =~= ethernet_bytes(src_mac, dst_mac, ether_type));
    out
}

/// The ether kind that an ether type value names, if any.
pub open spec fn ether_kind_of(t: u16) -> Option<EtherKind> {
    if t == 0x0806 {
        Some(EtherKind::Arp)
    } else if t == 0x0800 {
        Some(EtherKind::Ipv4)
    } else if t == 0x86dd {
        Some(EtherKind::Ipv6)
    } else {
        None
    }
}

/// The source MAC, destination MAC and kind of an Ethernet header, if `b` is one the
/// builder makes.
pub open spec fn ethernet_decode(b: Seq<u8>) -> Option<(MacAddr, MacAddr, EtherKind)> {
    if b.len() == 14 {
        match ether_kind_of(read16(b, 12)) {
            Some(k) => Some((MacAddr(b[6], b[7], b[8], b[9], b[10], b[11]), MacAddr(b[0], b[1], b[2], b[3], b[4], b[5]), k)),
            None => None,
        }
    } else {
        None
    }
}

/// Recovers source MAC, destination MAC and kind from a 14-byte Ethernet header.
pub fn decode_ethernet_header(b: &[u8]) -> (r: Option<(MacAddr, MacAddr, EtherKind)>)
    ensures
        r == ethernet_decode(b@),
{
    if b.len() != 14 {
        return None;
    }
    let t = get_be16(b, 12);
    let kind = if t == ETHERTYPE_ARP {
        EtherKind::Arp
    } else if t == ETHERTYPE_IPV4 {
        EtherKind::Ipv4
    } else if t == ETHERTYPE_IPV6 {
        EtherKind::Ipv6
    } else {
        return None;
    };
    Some((MacAddr(b[6], b[7], b[8], b[9], b[10], b[11]), MacAddr(b[0], b[1], b[2], b[3], b[4], b[5]), kind))
}

/// Decoding a built Ethernet header recovers its fields, and building from decoded
/// fields gives back the same bytes.
pub proof fn lemma_ethernet_round_trip(src: MacAddr, dst: MacAddr, kind: EtherKind, b: Seq<u8>)
    ensures
        ethernet_decode(ethernet_bytes(src, dst, kind)) == Some((src, dst, kind)),
        ethernet_decode(b) matches Some((s, d, k)) ==> ethernet_bytes(s, d, k) == b,
{
    let e = ethernet_bytes(src, dst, kind);
    lemma_be16_read(ether_type_of(kind));
    assert(e.subrange(12, 14) =~= be16(ether_type_of(kind)));
    assert(read16(e, 12) == read16(e.subrange(12, 14), 0));
    if let Some((s, d, k)) = ethernet_decode(b) {
        let t = read16(b, 12);
        assert(be16(t)[0] == b[12] && be16(t)[1] == b[13]) by (nonlinear_arith)
            requires
                t == (b[12] * 256 + b[13]) as u16,
                0 <= b[12] < 256,
                0 <= b[13] < 256,
                be16(t)[0] == t / 256,
                be16(t)[1] == t % 256,
        ;
        assert(ether_type_of(k) == t);
        assert(ethernet_bytes(s, d, k) =~= b);
    }
}

/// The variable fields of an IPv4 header; the rest is fixed: version 4, a 20-byte
/// header, DSCP 0, don't-fragment set, no fragment offset.
#[derive(Clone, Copy, Debug, PartialEq, Eq, Structural)]
pub struct Ipv4Fields {
    pub total_length: u16,
    pub identification: u16,
    pub ttl: u8,
    pub protocol: u8,
    pub src: u32,
    pub dst: u32,
}

/// An IPv4 header whose checksum field holds `csum`.
pub open spec fn ipv4_with_checksum(f: Ipv4Fields, csum: u16) -> Seq<u8> {
    seq![0x45u8, 0u8] + be16(f.total_length) + be16(f.identification) + seq![0x40u8, 0u8, f.ttl, f.protocol]
        + be16(csum) + be32(f.src) + be32(f.dst)
}

/// The IPv4 header of `f`, with the checksum computed over the header.
pub open spec fn ipv4_bytes(f: Ipv4Fields) -> Seq<u8> {
    ipv4_with_checksum(f, internet_checksum(ipv4_with_checksum(f, 0)))
}

/// The fields found at their offsets in a 20-byte header.
pub open spec fn ipv4_read(b: Seq<u8>) -> Ipv4Fields {
    Ipv4Fields {
        total_length: read16(b, 2),
        identification: read16(b, 4),
        ttl: b[8],
        protocol: b[9],
        src: read32(b, 12),
        dst: read32(b, 16),
    }
}

/// The fields of `b` when it is exactly the header the builder makes of them.
pub open spec fn ipv4_decode(b: Seq<u8>) -> Option<Ipv4Fields> {
    if b.len() == 20 && ipv4_bytes(ipv4_read(b)) == b {
        Some(ipv4_read(b))
    } else {
        None
    }
}

fn ipv4_header_with(f: &Ipv4Fields, csum: u16) -> (r: Vec<u8>)
    ensures
        r@ == ipv4_with_checksum(*f, csum),
{
    let mut out: Vec<u8> = Vec::new();
    out.push(0x45);
    out.push(0);
    push_be16(&mut out, f.total_length);
    push_be16(&mut out, f.identification);
    out.push(0x40);
    out.push(0);
    out.push(f.ttl);
    out.push(f.protocol);
    push_be16(&mut out, csum);
    push_be32(&mut out, f.src);
    push_be32(&mut out, f.dst);
    assert(out@ =~= ipv4_with_checksum(*f, csum));
    out
}

/// The 20-byte IPv4 header of `f`.
pub fn build_ipv4_header(f: &Ipv4Fields) -> (r: Vec<u8>)
    ensures
        r@ == ipv4_bytes(*f),
        r@.len() == IPV4_HEADER_LEN,
{
    let zero = ipv4_header_with(f, 0);
    let c = checksum(zero.as_slice());
    ipv4_header_with(f, c)
}

/// Recovers the fields of a header that `build_ipv4_header` made.
pub fn decode_ipv4_header(b: &[u8]) -> (r: Option<Ipv4Fields>)
    ensures
        r == ipv4_decode(b@),
{
    if b.len() != 20 {
        return None;
    }
    let f = Ipv4Fields {
        total_length: get_be16(b, 2),
        identification: get_be16(b, 4),
        ttl: b[8],
        protocol: b[9],
        src: get_be32(b, 12),
        dst: get_be32(b, 16),
    };
    let again = build_ipv4_header(&f);
    if bytes_equal(again.as_slice(), b) {
        Some(f)
    } else {
        None
    }
}

/// Reading a built IPv4 header gives back its fields.
pub proof fn lemma_ipv4_read_bytes(f: Ipv4Fields, csum: u16)
    ensures
        ipv4_read(ipv4_with_checksum(f, csum)) == f,
        ipv4_with_checksum(f, csum).len() == 20,
{
    let b = ipv4_with_checksum(f, csum);
    lemma_be16_read(f.total_length);
    lemma_be16_read(f.identification);
    lemma_be32_read(f.src);
    lemma_be32_read(f.dst);
    assert(b.subrange(2, 4) =~= be16(f.total_length));
    assert(b.subrange(4, 6) =~= be16(f.identification));
    assert(b.subrange(12, 16) =~= be32(f.src));
    assert(b.subrange(16, 20) =~= be32(f.dst));
    assert(read16(b, 2) == read16(b.subrange(2, 4), 0));
    assert(read16(b, 4) == read16(b.subrange(4, 6), 0));
    assert(read32(b, 12) == read32(b.subrange(12, 16), 0));
    assert(read32(b, 16) == read32(b.subrange(16, 20), 0));
    assert(b[8] == f.ttl);
    assert(b[9] == f.protocol);
}

/// Decoding a built IPv4 header recovers its fields, and building from decoded
/// fields gives back the same bytes.
pub proof fn lemma_ipv4_round_trip(f: Ipv4Fields, b: Seq<u8>)
    ensures
        ipv4_decode(ipv4_bytes(f)) == Some(f),
        ipv4_decode(b) matches Some(g) ==> ipv4_bytes(g) == b,
{
    lemma_ipv4_read_bytes(f, internet_checksum(ipv4_with_checksum(f, 0)));
}

pub const ICMP_ECHO_REQUEST: u8 = 8;

pub const ICMP_ECHO_REPLY: u8 = 0;

pub const ICMP_DEST_UNREACHABLE: u8 = 3;

pub const ICMP_TIME_EXCEEDED: u8 = 11;

pub const ICMP_TIMESTAMP_REQUEST: u8 = 13;

pub const ICMP_TIMESTAMP_REPLY: u8 = 14;

pub const ICMP_INFORMATION_REQUEST: u8 = 15;

pub const ICMP_INFORMATION_REPLY: u8 = 16;

pub const ICMP_ADDRESS_MASK_REQUEST: u8 = 17;

pub const ICMP_ADDRESS_MASK_REPLY: u8 = 18;

/// The header of an ICMP query message (echo, timestamp, information, address mask).
#[derive(Clone, Copy, Debug, PartialEq, Eq, Structural)]
pub struct IcmpFields {
    pub icmp_type: u8,
    pub code: u8,
    pub identifier: u16,
    pub sequence: u16,
}

pub open spec fn icmp_with_checksum(f: IcmpFields, payload: Seq<u8>, csum: u16) -> Seq<u8> {
    seq![f.icmp_type, f.code] + be16(csum) + be16(f.identifier) + be16(f.sequence) + payload
}

/// An ICMP query message, with the checksum computed over the whole message.
pub open spec fn icmp_bytes(f: IcmpFields, payload: Seq<u8>) -> Seq<u8> {
    icmp_with_checksum(f, payload, internet_checksum(icmp_with_checksum(f, payload, 0)))
}

pub open spec fn icmp_read(b: Seq<u8>) -> (IcmpFields, Seq<u8>) {
    (
        IcmpFields { icmp_type: b[0], code: b[1], identifier: read16(b, 4), sequence: read16(b, 6) },
        b.subrange(8, b.len() as int),
    )
}

pub open spec fn icmp_decode(b: Seq<u8>) -> Option<(IcmpFields, Seq<u8>)> {
    if b.len() >= 8 && icmp_bytes(icmp_read(b).0, icmp_read(b).1) == b {
        Some(icmp_read(b))
    } else {
        None
    }
}

fn icmp_message_with(f: &IcmpFields, payload: &[u8], csum: u16) -> (r: Vec<u8>)
    ensures
        r@ == icmp_with_checksum(*f, payload@, csum),
{
    let mut out: Vec<u8> = Vec::new();
    out.push(f.icmp_type);
    out.push(f.code);
    push_be16(&mut out, csum);
    push_be16(&mut out, f.identifier);
    push_be16(&mut out, f.sequence);
    let ghost before = out@;
    let mut i: usize = 0;
    while i < payload.len()
        invariant
            0 <= i <= payload@.len(),
            out@ == before + payload@.subrange(0, i as int),
        decreases payload@.len() - i,
    {
        out.push(payload[i]);
        i = i + 1;
        assert(out@ =~= before + payload@.subrange(0, i as int));
    }
    assert(out@ =~= icmp_with_checksum(*f, payload@, csum));
    out
}

/// An ICMP query message carrying `payload`.
pub fn build_icmp_packet(f: &IcmpFields, payload: &[u8]) -> (r: Vec<u8>)
    ensures
        r@ == icmp_bytes(*f, payload@),
{
    let zero = icmp_message_with(f, payload, 0);
    let c = checksum(zero.as_slice());
    icmp_message_with(f, payload, c)
}

fn copy_from(b: &[u8], lo: usize) -> (r: Vec<u8>)
    requires
        lo <= b@.len(),
    ensures
        r@ == b@.subrange(lo as int, b@.len() as int),
{
    let mut out: Vec<u8> = Vec::new();
    let mut i: usize = lo;
    while i < b.len()
        invariant
            lo <= i <= b@.len(),
            out@ == b@.subrange(lo as int, i as int),
        decreases b@.len() - i,
    {
        out.push(b[i]);
        i = i + 1;
        assert(out@ =~= b@.subrange(lo as int, i as int));
    }
    out
}

/// Recovers the header and payload of a message that `build_icmp_packet` made.
pub fn decode_icmp_packet(b: &[u8]) -> (r: Option<(IcmpFields, Vec<u8>)>)
    ensures
        match icmp_decode(b@) {
            Some((f, p)) => r matches Some((g, q)) && g == f && q@ == p,
            None => r is None,
        },
{
    if b.len() < 8 {
        return None;
    }
    let f = IcmpFields { icmp_type: b[0], code: b[1], identifier: get_be16(b, 4), sequence: get_be16(b, 6) };
    let payload = copy_from(b, 8);
    let again = build_icmp_packet(&f, payload.as_slice());
    if bytes_equal(again.as_slice(), b) {
        Some((f, payload))
    } else {
        None
    }
}

pub proof fn lemma_icmp_read_bytes(f: IcmpFields, payload: Seq<u8>, csum: u16)
    ensures
        icmp_read(icmp_with_checksum(f, payload, csum)) == (f, payload),
        icmp_with_checksum(f, payload, csum).len() == 8 + payload.len(),
{
    let b = icmp_with_checksum(f, payload, csum);
    lemma_be16_read(f.identifier);
    lemma_be16_read(f.sequence);
    assert(b.subrange(4, 6) =~= be16(f.identifier));
    assert(b.subrange(6, 8) =~= be16(f.sequence));
    assert(read16(b, 4) == read16(b.subrange(4, 6), 0));
    assert(read16(b, 6) == read16(b.subrange(6, 8), 0));
    assert(b.subrange(8, b.len() as int) =~= payload);
}

/// Decoding a built ICMP message recovers its header and payload, and building from
/// decoded fields gives back the same bytes.
pub proof fn lemma_icmp_round_trip(f: IcmpFields, payload: Seq<u8>, b: Seq<u8>)
    ensures
        icmp_decode(icmp_bytes(f, payload)) == Some((f, payload)),
        icmp_decode(b) matches Some((g, q)) ==> icmp_bytes(g, q) == b,
{
    lemma_icmp_read_bytes(f, payload, internet_checksum(icmp_with_checksum(f, payload, 0)));
}

/// The IPv4 pseudo-header that TCP and UDP checksums cover.
pub open spec fn pseudo_header(src: u32, dst: u32, protocol: u8, len: u16) -> Seq<u8> {
    be32(src) + be32(dst) + seq![0u8, protocol] + be16(len)
}

fn pseudo_header_bytes(src: u32, dst: u32, protocol: u8, len: u16) -> (r: Vec<u8>)
    ensures
        r@ == pseudo_header(src, dst, protocol, len),
{
    let mut out: Vec<u8> = Vec::new();
    push_be32(&mut out, src);
    push_be32(&mut out, dst);
    out.push(0);
    out.push(protocol);
    push_be16(&mut out, len);
    assert(out@ =~= pseudo_header(src, dst, protocol, len));
    out
}

fn concat(a: &[u8], b: &[u8]) -> (r: Vec<u8>)
    ensures
        r@ == a@ + b@,
{
    let mut out: Vec<u8> = Vec::new();
    let mut i: usize = 0;
    while i < a.len()
        invariant
            0 <= i <= a@.len(),
            out@ == a@.subrange(0, i as int),
        decreases a@.len() - i,
    {
        out.push(a[i]);
        i = i + 1;
        assert(out@ =~= a@.subrange(0, i as int));
    }
    let mut j: usize = 0;
    while j < b.len()
        invariant
            0 <= j <= b@.len(),
            out@ == a@ + b@.subrange(0, j as int),
        decreases b@.len() - j,
    {
        out.push(b[j]);
        j = j + 1;
        assert(out@ =~= a@ + b@.subrange(0, j as int));
    }
    assert(out@ =~= a@ + b@);
    out
}

pub const TCP_FIN: u8 = 0x01;

pub const TCP_SYN: u8 = 0x02;

pub const TCP_RST: u8 = 0x04;

pub const TCP_PSH: u8 = 0x08;

pub const TCP_ACK: u8 = 0x10;

pub const TCP_URG: u8 = 0x20;

pub const TCP_ECE: u8 = 0x40;

pub const TCP_CWR: u8 = 0x80;

/// The header fields of a TCP segment without payload. `reserved` is the low nibble
/// of the data-offset byte.
#[derive(Clone, Copy, Debug, PartialEq, Eq, Structural)]
pub struct TcpFields {
    pub src_port: u16,
    pub dst_port: u16,
    pub sequence: u32,
    pub acknowledgement: u32,
    pub reserved: u8,
    pub flags: u8,
    pub window: u16,
    pub urgent_ptr: u16,
}

/// Options a TCP header can carry: whole 32-bit words, at most 40 bytes.
pub open spec fn valid_tcp_options(options: Seq<u8>) -> bool {
    options.len() % 4 == 0 && options.len() <= 40
}

pub open spec fn tcp_with_checksum(f: TcpFields, options: Seq<u8>, csum: u16) -> Seq<u8> {
    be16(f.src_port) + be16(f.dst_port) + be32(f.sequence) + be32(f.acknowledgement) + seq![
        (((20 + options.len()) / 4) * 16 + f.reserved) as u8,
        f.flags,
    ] + be16(f.window) + be16(csum) + be16(f.urgent_ptr) + options
}

/// A TCP header with options, its checksum covering the pseudo-header of `src` and `dst`.
pub open spec fn tcp_bytes(f: TcpFields, options: Seq<u8>, src: u32, dst: u32) -> Seq<u8> {
    tcp_with_checksum(
        f,
        options,
        internet_checksum(
            pseudo_header(src, dst, 6, (20 + options.len()) as u16) + tcp_with_checksum(f, options, 0),
        ),
    )
}

pub open spec fn tcp_read(b: Seq<u8>) -> (TcpFields, Seq<u8>) {
    (
        TcpFields {
            src_port: read16(b, 0),
            dst_port: read16(b, 2),
            sequence: read32(b, 4),
            acknowledgement: read32(b, 8),
            reserved: (b[12] % 16) as u8,
            flags: b[13],
            window: read16(b, 14),
            urgent_ptr: read16(b, 18),
        },
        b.subrange(20, b.len() as int),
    )
}

pub open spec fn tcp_decode(b: Seq<u8>, src: u32, dst: u32) -> Option<(TcpFields, Seq<u8>)> {
    if 20 <= b.len() <= 60 && (b.len() - 20) % 4 == 0 && tcp_read(b).0.reserved < 16 && tcp_bytes(
        tcp_read(b).0,
        tcp_read(b).1,
        src,
        dst,
    ) == b {
        Some(tcp_read(b))
    } else {
        None
    }
}

fn tcp_header_with(f: &TcpFields, options: &[u8], csum: u16) -> (r: Vec<u8>)
    requires
        valid_tcp_options(options@),
        f.reserved < 16,
    ensures
        r@ == tcp_with_checksum(*f, options@, csum),
{
    let mut out: Vec<u8> = Vec::new();
    push_be16(&mut out, f.src_port);
    push_be16(&mut out, f.dst_port);
    push_be32(&mut out, f.sequence);
    push_be32(&mut out, f.acknowledgement);
    let doff: u8 = ((20 + options.len()) / 4) as u8;
    out.push(doff * 16 + f.reserved);
    out.push(f.flags);
    push_be16(&mut out, f.window);
    push_be16(&mut out, csum);
    push_be16(&mut out, f.urgent_ptr);
    let ghost before = out@;
    let mut i: usize = 0;
    while i < options.len()
        invariant
            0 <= i <= options@.len(),
            out@ == before + options@.subrange(0, i as int),
        decreases options@.len() - i,
    {
        out.push(options[i]);
        i = i + 1;
        assert(out@ =~= before + options@.subrange(0, i as int));
    }
    assert(out@ =~= tcp_with_checksum(*f, options@, csum));
    out
}

/// A TCP header with `options` from `src` to `dst` (IPv4 addresses), checksum filled in.
pub fn build_tcp_packet(f: &TcpFields, options: &[u8], src: u32, dst: u32) -> (r: Vec<u8>)
    requires
        valid_tcp_options(options@),
        f.reserved < 16,
    ensures
        r@ == tcp_bytes(*f, options@, src, dst),
        r@.len() == 20 + options@.len(),
{
    let zero = tcp_header_with(f, options, 0);
    let ph = pseudo_header_bytes(src, dst, IP_PROTO_TCP, (20 + options.len()) as u16);
    let all = concat(ph.as_slice(), zero.as_slice());
    let c = checksum(all.as_slice());
    tcp_header_with(f, options, c)
}

/// Recovers the fields and options of a header that `build_tcp_packet` made for
/// `src` and `dst`.
pub fn decode_tcp_packet(b: &[u8], src: u32, dst: u32) -> (r: Option<(TcpFields, Vec<u8>)>)
    ensures
        match tcp_decode(b@, src, dst) {
            Some((f, o)) => r matches Some((g, q)) && g == f && q@ == o,
            None => r is None,
        },
{
    if b.len() < 20 || b.len() > 60 {
        return None;
    }
    let f = TcpFields {
        src_port: get_be16(b, 0),
        dst_port: get_be16(b, 2),
        sequence: get_be32(b, 4),
        acknowledgement: get_be32(b, 8),
        reserved: b[12] % 16,
        flags: b[13],
        window: get_be16(b, 14),
        urgent_ptr: get_be16(b, 18),
    };
    let options = copy_from(b, 20);
    if options.len() % 4 != 0 {
        return None;
    }
    let again = build_tcp_packet(&f, options.as_slice(), src, dst);
    if bytes_equal(again.as_slice(), b) {
        Some((f, options))
    } else {
        None
    }
}

pub proof fn lemma_tcp_read_bytes(f: TcpFields, options: Seq<u8>, csum: u16)
    requires
        valid_tcp_options(options),
        f.reserved < 16,
    ensures
        tcp_read(tcp_with_checksum(f, options, csum)) == (f, options),
{
    let b = tcp_with_checksum(f, options, csum);
    lemma_be16_read(f.src_port);
    lemma_be16_read(f.dst_port);
    lemma_be32_read(f.sequence);
    lemma_be32_read(f.acknowledgement);
    lemma_be16_read(f.window);
    lemma_be16_read(f.urgent_ptr);
    assert(b.subrange(0, 2) =~= be16(f.src_port));
    assert(b.subrange(2, 4) =~= be16(f.dst_port));
    assert(b.subrange(4, 8) =~= be32(f.sequence));
    assert(b.subrange(8, 12) =~= be32(f.acknowledgement));
    assert(b.subrange(14, 16) =~= be16(f.window));
    assert(b.subrange(18, 20) =~= be16(f.urgent_ptr));
    assert(read16(b, 0) == read16(b.subrange(0, 2), 0));
    assert(read16(b, 2) == read16(b.subrange(2, 4), 0));
    assert(read32(b, 4) == read32(b.subrange(4, 8), 0));
    assert(read32(b, 8) == read32(b.subrange(8, 12), 0));
    assert(read16(b, 14) == read16(b.subrange(14, 16), 0));
    assert(read16(b, 18) == read16(b.subrange(18, 20), 0));
    let doff = (20 + options.len()) / 4;
    assert(b[12] == (doff * 16 + f.reserved) as u8);
    assert((doff * 16 + f.reserved) % 16 == f.reserved) by (nonlinear_arith)
        requires
            f.reserved < 16,
            doff >= 0,
    ;
    assert(b.subrange(20, b.len() as int) =~= options);
}

/// Decoding a built TCP header recovers its fields and options, and building from
/// decoded fields gives back the same bytes.
pub proof fn lemma_tcp_round_trip(f: TcpFields, options: Seq<u8>, src: u32, dst: u32, b: Seq<u8>)
    requires
        valid_tcp_options(options),
        f.reserved < 16,
    ensures
        tcp_decode(tcp_bytes(f, options, src, dst), src, dst) == Some((f, options)),
        tcp_decode(b, src, dst) matches Some((g, q)) ==> tcp_bytes(g, q, src, dst) == b,
{
    lemma_tcp_read_bytes(
        f,
        options,
        internet_checksum(
            pseudo_header(src, dst, 6, (20 + options.len()) as u16) + tcp_with_checksum(f, options, 0),
        ),
    );
}

/// The UDP checksum: zero is sent as all ones.
pub open spec fn udp_checksum_value(c: u16) -> u16 {
    if c == 0 {
        0xffff
    } else {
        c
    }
}

pub open spec fn udp_with_checksum(src_port: u16, dst_port: u16, payload: Seq<u8>, csum: u16) -> Seq<u8> {
    be16(src_port) + be16(dst_port) + be16((8 + payload.len()) as u16) + be16(csum) + payload
}

/// A UDP datagram, its checksum covering the pseudo-header of `src` and `dst`.
pub open spec fn udp_bytes(src_port: u16, dst_port: u16, payload: Seq<u8>, src: u32, dst: u32) -> Seq<u8> {
    udp_with_checksum(
        src_port,
        dst_port,
        payload,
        udp_checksum_value(
            internet_checksum(
                pseudo_header(src, dst, 17, (8 + payload.len()) as u16) + udp_with_checksum(
                    src_port,
                    dst_port,
                    payload,
                    0,
                ),
            ),
        ),
    )
}

pub open spec fn udp_decode(b: Seq<u8>, src: u32, dst: u32) -> Option<(u16, u16, Seq<u8>)> {
    if 8 <= b.len() <= 65535 && udp_bytes(read16(b, 0), read16(b, 2), b.subrange(8, b.len() as int), src, dst) == b {
        Some((read16(b, 0), read16(b, 2), b.subrange(8, b.len() as int)))
    } else {
        None
    }
}

fn udp_datagram_with(src_port: u16, dst_port: u16, payload: &[u8], csum: u16) -> (r: Vec<u8>)
    requires
        payload@.len() <= 65527,
    ensures
        r@ == udp_with_checksum(src_port, dst_port, payload@, csum),
{
    let mut out: Vec<u8> = Vec::new();
    push_be16(&mut out, src_port);
    push_be16(&mut out, dst_port);
    push_be16(&mut out, (8 + payload.len()) as u16);
    push_be16(&mut out, csum);
    let all = concat(out.as_slice(), payload);
    all
}

/// A UDP datagram carrying `payload` from `src` to `dst` (IPv4 addresses).
pub fn build_udp_packet(src_port: u16, dst_port: u16, payload: &[u8], src: u32, dst: u32) -> (r: Vec<u8>)
    requires
        payload@.len() <= 65527,
    ensures
        r@ == udp_bytes(src_port, dst_port, payload@, src, dst),
{
    let zero = udp_datagram_with(src_port, dst_port, payload, 0);
    let ph = pseudo_header_bytes(src, dst, IP_PROTO_UDP, (8 + payload.len()) as u16);
    let all = concat(ph.as_slice(), zero.as_slice());
    let c = checksum(all.as_slice());
    let c2 = if c == 0 { 0xffff } else { c };
    udp_datagram_with(src_port, dst_port, payload, c2)
}

/// Recovers the ports and payload of a datagram that `build_udp_packet` made for
/// `src` and `dst`.
pub fn decode_udp_packet(b: &[u8], src: u32, dst: u32) -> (r: Option<(u16, u16, Vec<u8>)>)
    ensures
        match udp_decode(b@, src, dst) {
            Some((sp, dp, p)) => r matches Some((a, c, q)) && a == sp && c == dp && q@ == p,
            None => r is None,
        },
{
    if b.len() < 8 || b.len() > 65535 {
        return None;
    }
    let sp = get_be16(b, 0);
    let dp = get_be16(b, 2);
    let payload = copy_from(b, 8);
    let again = build_udp_packet(sp, dp, payload.as_slice(), src, dst);
    if bytes_equal(again.as_slice(), b) {
        Some((sp, dp, payload))
    } else {
        None
    }
}

/// Decoding a built UDP datagram recovers its ports and payload, and building from
/// decoded fields gives back the same bytes.
pub proof fn lemma_udp_round_trip(src_port: u16, dst_port: u16, payload: Seq<u8>, src: u32, dst: u32, b: Seq<u8>)
    requires
        payload.len() <= 65527,
    ensures
        udp_decode(udp_bytes(src_port, dst_port, payload, src, dst), src, dst) == Some((src_port, dst_port, payload)),
        udp_decode(b, src, dst) matches Some((sp, dp, q)) ==> udp_bytes(sp, dp, q, src, dst) == b,
{
    let c = udp_checksum_value(
        internet_checksum(
            pseudo_header(src, dst, 17, (8 + payload.len()) as u16) + udp_with_checksum(src_port, dst_port, payload, 0),
        ),
    );
    let b2 = udp_with_checksum(src_port, dst_port, payload, c);
    lemma_be16_read(src_port);
    lemma_be16_read(dst_port);
    assert(b2.subrange(0, 2) =~= be16(src_port));
    assert(b2.subrange(2, 4) =~= be16(dst_port));
    assert(read16(b2, 0) == read16(b2.subrange(0, 2), 0));
    assert(read16(b2, 2) == read16(b2.subrange(2, 4), 0));
    assert(b2.subrange(8, b2.len() as int) =~= payload);
}

} // verus!
