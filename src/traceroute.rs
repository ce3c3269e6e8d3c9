use vstd::prelude::*;
use crate::addr::MacAddr;
use crate::bytes::read32;
use crate::packet::{
    build_ethernet_packet, build_ipv4_header, ethernet_bytes, icmp_bytes, ipv4_bytes, tcp_bytes,
    udp_bytes, EtherKind, Ipv4Fields,
};
use crate::probe::{
    build_icmpv4_echo_packet, build_tcp_syn_packet, build_udp_probe, echo_fields, echo_payload,
    mss_option, syn_fields, udp_marker,
};
use crate::receiver::ipv4_payload_offset;

verus! {

/// The probe protocol of a traceroute.
#[derive(Clone, Copy, Debug, PartialEq, Eq, Structural)]
pub enum Protocol {
    UDP,
    TCP,
    ICMP,
}

/// One query of a hop: its round-trip time in microseconds and the names and address
/// of the router that answered (empty when none did).
#[derive(Clone, Debug)]
pub struct TracerouteQueryResult {
    pub rtt: u64,
    pub addr: Vec<String>,
}

/// One hop of the route: its time-to-live and its distinct query results.
#[derive(Clone, Debug)]
pub struct TracerouteHop {
    pub ttl: u8,
    pub query_result: Vec<TracerouteQueryResult>,
}

/// A hop as reported to the caller: the largest round-trip time observed and the
/// addresses of every query.
#[derive(Clone, Debug)]
pub struct TracertQueryResult {
    pub id: u8,
    pub rtt: u64,
    pub addr: Vec<Vec<String>>,
}

/// A batch of traceroutes: the targets as written and the source address to use.
#[derive(Clone, Debug)]
pub struct Tracert {
    pub iface_ip: Option<crate::addr::IpAddress>,
    pub target: Vec<String>,
}

impl Tracert {
    pub fn new(target: Vec<String>, iface_ip: Option<crate::addr::IpAddress>) -> (r: Tracert)
        ensures
            r.target@ == target@,
            r.iface_ip == iface_ip,
    {
        Tracert { iface_ip, target }
    }

    /// The number of targets.
    pub fn len(&self) -> (r: usize)
        ensures
            r == self.target@.len(),
    {
        self.target.len()
    }
}

/// Traceroute configuration.
#[derive(Clone, Copy, Debug, PartialEq, Eq, Structural)]
pub struct Config {
    pub port: u16,
    pub max_hops: u32,
    pub number_of_queries: u32,
    pub ttl: u8,
    /// Milliseconds to wait for each query.
    pub timeout: u64,
    pub protocol: Protocol,
}

impl Config {
    /// Base port 33434, 30 hops, 3 queries a hop, first TTL 1, one second per query, UDP.
    pub fn new() -> (r: Config)
        ensures
            r == (Config { port: 33434, max_hops: 30, number_of_queries: 3, ttl: 1, timeout: 1000, protocol: Protocol::UDP }),
    {
        Config { port: 33434, max_hops: 30, number_of_queries: 3, ttl: 1, timeout: 1000, protocol: Protocol::UDP }
    }

    pub fn with_port(self, port: u16) -> (r: Config)
        ensures
            r == (Config { port, ..self }),
    {
        Config { port, ..self }
    }

    pub fn with_max_hops(self, max_hops: u32) -> (r: Config)
        ensures
            r == (Config { max_hops, ..self }),
    {
        Config { max_hops, ..self }
    }

    pub fn with_number_of_queries(self, number_of_queries: u32) -> (r: Config)
        ensures
            r == (Config { number_of_queries, ..self }),
    {
        Config { number_of_queries, ..self }
    }

    pub fn with_protocol(self, protocol: Protocol) -> (r: Config)
        ensures
            r == (Config { protocol, ..self }),
    {
        Config { protocol, ..self }
    }

    pub fn with_first_ttl(self, ttl: u8) -> (r: Config)
        ensures
            r == (Config { ttl, ..self }),
    {
        Config { ttl, ..self }
    }

    /// Sets the wait for each query, in milliseconds.
    pub fn with_timeout(self, timeout: u64) -> (r: Config)
        ensures
            r == (Config { timeout, ..self }),
    {
        Config { timeout, ..self }
    }
}

/// The views of a list of strings.
pub open spec fn texts(v: Seq<String>) -> Seq<Seq<char>> {
    v.map_values(|s: String| s@)
}

/// Whether two lists of strings hold the same texts.
pub fn same_texts(a: &Vec<String>, b: &Vec<String>) -> (r: bool)
    ensures
        r == (texts(a@) == texts(b@)),
{
    if a.len() != b.len() {
        assert(texts(a@).len() != texts(b@).len());
        return false;
    }
    let mut i: usize = 0;
    while i < a.len()
        invariant
            a@.len() == b@.len(),
            0 <= i <= a@.len(),
            forall|j: int| 0 <= j < i ==> a@[j]@ == b@[j]@,
        decreases a@.len() - i,
    {
        if a[i] != b[i] {
            assert(texts(a@)[i as int] != texts(b@)[i as int]);
            return false;
        }
        i = i + 1;
    }
    assert(texts(a@) =~= texts(b@));
    true
}

/// Whether one of the texts of `v` is `t`.
pub fn contains_text(v: &Vec<String>, t: &String) -> (r: bool)
    ensures
        r == texts(v@).contains(t@),
{
    let mut i: usize = 0;
    while i < v.len()
        invariant
            0 <= i <= v@.len(),
            forall|j: int| 0 <= j < i ==> v@[j]@ != t@,
        decreases v@.len() - i,
    {
        if v[i] == *t {
            assert(texts(v@)[i as int] == t@);
            return true;
        }
        i = i + 1;
    }
    proof {
        if texts(v@).contains(t@) {
            let k = choose|k: int| 0 <= k < texts(v@).len() && texts(v@)[k] == t@;
            assert(v@[k]@ == t@);
        }
    }
    false
}

/// Whether a query result with the addresses `addr` joins a hop that already holds
/// `results`: an unanswered query always does, an answered one only when no result
/// of the hop names the same addresses.
pub open spec fn joins_hop(results: Seq<TracerouteQueryResult>, addr: Seq<String>) -> bool {
    addr.len() == 0 || forall|i: int| 0 <= i < results.len() ==> texts((#[trigger] results[i]).addr@) != texts(addr)
}

/// Adds a query result to a hop unless an earlier result names the same addresses.
pub fn add_query_result(results: &mut Vec<TracerouteQueryResult>, q: TracerouteQueryResult)
    ensures
        if joins_hop(old(results)@, q.addr@) {
            final(results)@ == old(results)@.push(q)
        } else {
            final(results)@ == old(results)@
        },
{
    if q.addr.len() == 0 {
        results.push(q);
        return;
    }
    let mut i: usize = 0;
    while i < results.len()
        invariant
            0 <= i <= results@.len(),
            results@ == old(results)@,
            q.addr@.len() > 0,
            forall|j: int| 0 <= j < i ==> texts((#[trigger] results@[j]).addr@) != texts(q.addr@),
        decreases results@.len() - i,
    {
        if same_texts(&results[i].addr, &q.addr) {
            assert(texts(results@[i as int].addr@) == texts(q.addr@));
            return;
        }
        i = i + 1;
    }
    results.push(q);
}

/// Where a traceroute stands: the next time-to-live, the last one allowed, and
/// whether the destination has answered.
#[derive(Clone, Debug)]
pub struct TraceProgress {
    pub ttl: u8,
    pub max_hops: u8,
    pub done: bool,
    /// The destination address as the hops report addresses.
    pub target: String,
}

/// Whether some query of the hop reports the destination among its addresses.
pub open spec fn reaches(results: Seq<TracerouteQueryResult>, target: Seq<char>) -> bool {
    exists|i: int| 0 <= i < results.len() && texts((#[trigger] results[i]).addr@).contains(target)
}

/// Whether a route at time-to-live `p.0`, done when `p.1`, probes another hop.
pub open spec fn continues(p: (int, bool), max_hops: int) -> bool {
    !p.1 && p.0 <= max_hops
}

/// The time-to-live and done flag after closing one hop with the results `qs`.
pub open spec fn after_hop(p: (int, bool), target: Seq<char>, qs: Seq<TracerouteQueryResult>) -> (int, bool) {
    (p.0 + 1, reaches(qs, target))
}

/// The time-to-live and done flag after closing the first `n` of `hops`, starting at
/// time-to-live `ttl`.
pub open spec fn run_hops(ttl: int, target: Seq<char>, hops: Seq<Seq<TracerouteQueryResult>>, n: nat) -> (int, bool)
    decreases n,
{
    if n == 0 {
        (ttl, false)
    } else {
        after_hop(run_hops(ttl, target, hops, (n - 1) as nat), target, hops[n - 1])
    }
}

proof fn lemma_run_hops(target: Seq<char>, hops: Seq<Seq<TracerouteQueryResult>>, n: nat)
    requires
        n <= hops.len(),
    ensures
        run_hops(1, target, hops, n).0 == 1 + n,
        run_hops(1, target, hops, n).1 == (n > 0 && reaches(hops[n - 1], target)),
    decreases n,
{
    if n > 0 {
        lemma_run_hops(target, hops, (n - 1) as nat);
    }
}

/// A traceroute from time-to-live 1 to a target first reported by hop `k`, with
/// `k` within the hop limit, probes exactly `k` hops: hop `n` carries time-to-live
/// `n`, the route goes on after each of the first `k - 1` hops, and stops after hop
/// `k`, whose results report the target.
pub proof fn lemma_route_stops_at_target(
    target: Seq<char>,
    hops: Seq<Seq<TracerouteQueryResult>>,
    k: nat,
    max_hops: int,
)
    requires
        1 <= k <= hops.len(),
        k <= max_hops,
        forall|i: int| 0 <= i < k - 1 ==> !reaches(#[trigger] hops[i], target),
        reaches(hops[k - 1], target),
    ensures
        forall|n: nat| n < k ==> continues(#[trigger] run_hops(1, target, hops, n), max_hops),
        forall|n: nat| n < k ==> (#[trigger] run_hops(1, target, hops, n)).0 == n + 1,
        !continues(run_hops(1, target, hops, k), max_hops),
{
    assert forall|n: nat| n < k implies continues(#[trigger] run_hops(1, target, hops, n), max_hops) && run_hops(1, target, hops, n).0 == n + 1 by {
        lemma_run_hops(target, hops, n);
        if n > 0 {
            assert(!reaches(hops[n - 1], target));
        }
    }
    lemma_run_hops(target, hops, k);
}

impl TraceProgress {
    pub fn new(config: &Config, target: String) -> (r: TraceProgress)
        ensures
            r.ttl == config.ttl,
            r.max_hops == (if config.max_hops > 255 { 255 } else { config.max_hops }),
            !r.done,
            r.target@ == target@,
    {
        let max_hops: u8 = if config.max_hops > 255 { 255 } else { config.max_hops as u8 };
        TraceProgress { ttl: config.ttl, max_hops, done: false, target }
    }

    /// Whether another hop is to be probed: the destination has not answered and the
    /// time-to-live has not passed the hop limit.
    pub fn has_next(&self) -> (r: bool)
        ensures
            r == (!self.done && self.ttl <= self.max_hops),
            r == continues((self.ttl as int, self.done), self.max_hops as int),
    {
        !self.done && self.ttl <= self.max_hops
    }

    /// Closes the current hop with its query results: the hop carries the current
    /// time-to-live, which then moves on, and the route is done once the destination
    /// answered.
    pub fn finish_hop(&mut self, query_result: Vec<TracerouteQueryResult>) -> (r: TracerouteHop)
        requires
            old(self).ttl < 255,
        ensures
            r.ttl == old(self).ttl,
            r.query_result@ == query_result@,
            final(self).ttl == old(self).ttl + 1,
            final(self).max_hops == old(self).max_hops,
            final(self).target@ == old(self).target@,
            final(self).done == reaches(query_result@, old(self).target@),
            (final(self).ttl as int, final(self).done) == after_hop(
                (old(self).ttl as int, old(self).done),
                old(self).target@,
                query_result@,
            ),
    {
        let mut reached = false;
        let mut i: usize = 0;
        while i < query_result.len()
            invariant
                0 <= i <= query_result@.len(),
                reached == exists|j: int| 0 <= j < i && texts((#[trigger] query_result@[j]).addr@).contains(self.target@),
            decreases query_result@.len() - i,
        {
            if contains_text(&query_result[i].addr, &self.target) {
                reached = true;
            }
            i = i + 1;
        }
        let ttl = self.ttl;
        self.ttl = self.ttl + 1;
        self.done = reached;
        TracerouteHop { ttl, query_result }
    }
}

/// The largest round-trip time among the first `n` query results.
pub open spec fn max_rtt(results: Seq<TracerouteQueryResult>, n: nat) -> u64
    decreases n,
{
    if n == 0 || n > results.len() {
        0
    } else {
        let m = max_rtt(results, (n - 1) as nat);
        if results[n - 1].rtt > m { results[n - 1].rtt } else { m }
    }
}

/// A hop as reported to the caller: its time-to-live, the largest round-trip time of
/// its queries and the addresses of each query, in order.
pub fn summarize_hop(hop: &TracerouteHop) -> (r: TracertQueryResult)
    ensures
        r.id == hop.ttl,
        r.rtt == max_rtt(hop.query_result@, hop.query_result@.len()),
        r.addr@.len() == hop.query_result@.len(),
        forall|i: int| 0 <= i < r.addr@.len() ==> texts((#[trigger] r.addr@[i])@) == texts(hop.query_result@[i].addr@),
{
    let mut rtt: u64 = 0;
    let mut addr: Vec<Vec<String>> = Vec::new();
    let mut i: usize = 0;
    while i < hop.query_result.len()
        invariant
            0 <= i <= hop.query_result@.len(),
            rtt == max_rtt(hop.query_result@, i as nat),
            addr@.len() == i,
            forall|j: int| 0 <= j < i ==> texts((#[trigger] addr@[j])@) == texts(hop.query_result@[j].addr@),
        decreases hop.query_result@.len() - i,
    {
        let q = &hop.query_result[i];
        if q.rtt > rtt {
            rtt = q.rtt;
        }
        let mut names: Vec<String> = Vec::new();
        let mut k: usize = 0;
        while k < q.addr.len()
            invariant
                0 <= k <= q.addr@.len(),
                names@.len() == k,
                forall|j: int| 0 <= j < k ==> (#[trigger] names@[j])@ == q.addr@[j]@,
            decreases q.addr@.len() - k,
        {
            names.push(q.addr[k].clone());
            k = k + 1;
        }
        assert(texts(names@) =~= texts(q.addr@));
        addr.push(names);
        i = i + 1;
    }
    TracertQueryResult { id: hop.ttl, rtt, addr }
}

/// The destination port of query `seq`: the base port moves on with each UDP or
/// ICMP query and stays fixed for TCP.
pub open spec fn query_port(protocol: Protocol, base: u16, seq: u16) -> u16 {
    if protocol == Protocol::TCP { base } else { ((base + seq) % 0x10000) as u16 }
}

pub fn next_query_port(protocol: Protocol, base: u16, seq: u16) -> (r: u16)
    ensures
        r == query_port(protocol, base, seq),
{
    if protocol == Protocol::TCP {
        base
    } else {
        ((base as u32 + seq as u32) % 0x10000) as u16
    }
}

/// The transport part of a traceroute probe.
pub open spec fn trace_transport(protocol: Protocol, src_ip: u32, dst_ip: u32, port: u16, nonce: u32) -> Seq<u8> {
    match protocol {
        Protocol::UDP => udp_bytes(port, port, udp_marker(), src_ip, dst_ip),
        Protocol::TCP => tcp_bytes(syn_fields(port, port, nonce), mss_option(), src_ip, dst_ip),
        Protocol::ICMP => icmp_bytes(echo_fields((nonce % 0x10000) as u16), echo_payload()),
    }
}

pub open spec fn protocol_number(protocol: Protocol) -> u8 {
    match protocol {
        Protocol::UDP => 17,
        Protocol::TCP => 6,
        Protocol::ICMP => 1,
    }
}

/// A whole traceroute probe frame: Ethernet, IPv4 with the hop's time-to-live, and
/// the transport part.
pub open spec fn trace_frame(
    protocol: Protocol,
    src_mac: MacAddr,
    dst_mac: MacAddr,
    src_ip: u32,
    dst_ip: u32,
    ttl: u8,
    port: u16,
    nonce: u32,
) -> Seq<u8> {
    let t = trace_transport(protocol, src_ip, dst_ip, port, nonce);
    ethernet_bytes(src_mac, dst_mac, EtherKind::Ipv4) + ipv4_bytes(
        Ipv4Fields {
            total_length: (20 + t.len()) as u16,
            identification: (nonce / 0x10000) as u16,
            ttl,
            protocol: protocol_number(protocol),
            src: src_ip,
            dst: dst_ip,
        },
    ) + t
}

fn append_bytes(out: &mut Vec<u8>, b: Vec<u8>)
    ensures
        final(out)@ == old(out)@ + b@,
{
    let mut b = b;
    out.append(&mut b);
}

/// Builds the probe frame of a traceroute query; see `trace_frame`.
pub fn build_trace_probe(
    protocol: Protocol,
    src_mac: MacAddr,
    dst_mac: MacAddr,
    src_ip: u32,
    dst_ip: u32,
    ttl: u8,
    port: u16,
    nonce: u32,
) -> (r: Vec<u8>)
    ensures
        r@ == trace_frame(protocol, src_mac, dst_mac, src_ip, dst_ip, ttl, port, nonce),
{
    let t = match protocol {
        Protocol::UDP => build_udp_probe(src_ip, port, dst_ip, port),
        Protocol::TCP => build_tcp_syn_packet(src_ip, port, dst_ip, port, nonce),
        Protocol::ICMP => build_icmpv4_echo_packet((nonce % 0x10000) as u16),
    };
    proof {
        assert(t@.len() <= 40);
    }
    let proto: u8 = match protocol {
        Protocol::UDP => 17,
        Protocol::TCP => 6,
        Protocol::ICMP => 1,
    };
    let ip = build_ipv4_header(
        &Ipv4Fields {
            total_length: (20 + t.len()) as u16,
            identification: (nonce / 0x10000) as u16,
            ttl,
            protocol: proto,
            src: src_ip,
            dst: dst_ip,
        },
    );
    let mut out = build_ethernet_packet(src_mac, dst_mac, EtherKind::Ipv4);
    append_bytes(&mut out, ip);
    append_bytes(&mut out, t);
    out
}

/// The router that answered a traceroute probe, if the frame is an ICMP time
/// exceeded, echo reply or destination unreachable message.
pub open spec fn hop_reply(f: Seq<u8>) -> Option<u32> {
    match ipv4_payload_offset(f) {
        Some(t) => if f[23] == 1 && t + 8 <= f.len() && (f[t] == 11 || f[t] == 0 || f[t] == 3) {
            Some(read32(f, 26))
        } else {
            None
        },
        None => None,
    }
}

/// The router that answered, if `f` is a reply to a traceroute probe; see `hop_reply`.
pub fn parse_hop_reply(f: &[u8]) -> (r: Option<u32>)
    ensures
        r == hop_reply(f@),
{
    match crate::os::read_reply_ip(f) {
        Some(h) => {
            let t = h.transport;
            if h.protocol == 1 && t + 8 <= f.len() && (f[t] == 11 || f[t] == 0 || f[t] == 3) {
                Some(h.src)
            } else {
                None
            }
        },
        None => None,
    }
}

} // verus!
