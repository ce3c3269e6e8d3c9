use vstd::prelude::*;
use crate::addr::IpAddress;
use crate::bytes::{get_be16, get_be32, read16, read32};
use crate::frame::{Destination, PortStatus, ScanType};
use crate::results::{has_host, has_port, records_port, ScanResults};
use crate::frame::{plan_has_ip, plan_has_socket, HostInfo};

verus! {

/// What one captured frame tells about the scanned hosts.
#[derive(Clone, Copy, Debug, PartialEq, Eq, Structural)]
pub enum Observation {
    /// `ip` answered an echo request; `ttl` is the time-to-live of the reply.
    Host { ip: IpAddress, ttl: u8 },
    /// A reply about `port` of `ip`.
    Port { ip: IpAddress, port: u16, status: PortStatus, ttl: u8 },
    /// Nothing of interest.
    Nothing,
}

/// The offset of the transport header in an Ethernet frame carrying IPv4, if the
/// frame holds a whole IPv4 header.
pub open spec fn ipv4_payload_offset(f: Seq<u8>) -> Option<int> {
    if f.len() >= 34 && read16(f, 12) == 0x0800 && f[14] / 16 == 4 && f[14] % 16 >= 5
        && 14 + (f[14] % 16) * 4 <= f.len() {
        Some(14 + (f[14] % 16) * 4)
    } else {
        None
    }
}

/// The status an ICMP destination-unreachable code gives a port: port unreachable
/// means closed, anything else filtered.
pub open spec fn unreachable_status(code: u8) -> PortStatus {
    if code == 3 {
        PortStatus::Closed
    } else {
        PortStatus::Filtered
    }
}

/// The classification of a captured Ethernet frame, for probes sent from `src_port`.
/// Echo replies reveal a live host. A destination-unreachable message names the probe
/// it answers in the IPv4 and transport headers it quotes. A TCP segment to our port
/// with SYN and ACK set means open, with RST and ACK set closed; a UDP datagram to our port
/// means open.
pub open spec fn classify(f: Seq<u8>, src_port: u16) -> Observation {
    match ipv4_payload_offset(f) {
        None => Observation::Nothing,
        Some(t) => {
            let ttl = f[22];
            let proto = f[23];
            let ip = IpAddress::V4(read32(f, 26));
            if proto == 1 && t + 8 <= f.len() {
                let icmp_type = f[t];
                if icmp_type == 0 {
                    Observation::Host { ip, ttl }
                } else if icmp_type == 3 && t + 8 + 20 + 4 <= f.len() && f[t + 8] / 16 == 4
                    && f[t + 8] % 16 >= 5 && t + 8 + (f[t + 8] % 16) * 4 + 4 <= f.len() {
                    let q = t + 8;
                    let qt = q + (f[q] % 16) * 4;
                    let qproto = f[q + 9];
                    if (qproto == 6 || qproto == 17) && read16(f, qt) == src_port {
                        Observation::Port {
                            ip: IpAddress::V4(read32(f, q + 16)),
                            port: read16(f, qt + 2),
                            status: unreachable_status(f[t + 1]),
                            ttl,
                        }
                    } else {
                        Observation::Nothing
                    }
                } else {
                    Observation::Nothing
                }
            } else if proto == 6 && t + 20 <= f.len() && read16(f, t + 2) == src_port {
                let flags = f[t + 13];
                let port = read16(f, t);
                if flags % 4 / 2 == 1 && flags % 32 / 16 == 1 {
                    Observation::Port { ip, port, status: PortStatus::Open, ttl }
                } else if flags % 8 / 4 == 1 && flags % 32 / 16 == 1 {
                    Observation::Port { ip, port, status: PortStatus::Closed, ttl }
                } else {
                    Observation::Nothing
                }
            } else if proto == 17 && t + 8 <= f.len() && read16(f, t + 2) == src_port {
                Observation::Port { ip, port: read16(f, t), status: PortStatus::Open, ttl }
            } else {
                Observation::Nothing
            }
        },
    }
}

/// Classifies a captured Ethernet frame; see `classify`.
pub fn classify_frame(f: &[u8], src_port: u16) -> (r: Observation)
    ensures
        r == classify(f@, src_port),
{
    if f.len() < 34 || get_be16(f, 12) != 0x0800 || f[14] / 16 != 4 || f[14] % 16 < 5 {
        return Observation::Nothing;
    }
    let t: usize = 14 + ((f[14] % 16) as usize) * 4;
    if t > f.len() {
        return Observation::Nothing;
    }
    let ttl = f[22];
    let proto = f[23];
    let ip = IpAddress::V4(get_be32(f, 26));
    if proto == 1 && t + 8 <= f.len() {
        let icmp_type = f[t];
        if icmp_type == 0 {
            Observation::Host { ip, ttl }
        } else if icmp_type == 3 && t + 8 + 20 + 4 <= f.len() && f[t + 8] / 16 == 4 && f[t + 8] % 16 >= 5
            && t + 8 + ((f[t + 8] % 16) as usize) * 4 + 4 <= f.len() {
            let q = t + 8;
            let qt = q + ((f[q] % 16) as usize) * 4;
            let qproto = f[q + 9];
            if (qproto == 6 || qproto == 17) && get_be16(f, qt) == src_port {
                let status = if f[t + 1] == 3 { PortStatus::Closed } else { PortStatus::Filtered };
                Observation::Port { ip: IpAddress::V4(get_be32(f, q + 16)), port: get_be16(f, qt + 2), status, ttl }
            } else {
                Observation::Nothing
            }
        } else {
            Observation::Nothing
        }
    } else if proto == 6 && t + 20 <= f.len() && get_be16(f, t + 2) == src_port {
        let flags = f[t + 13];
        let port = get_be16(f, t);
        if flags % 4 / 2 == 1 && flags % 32 / 16 == 1 {
            Observation::Port { ip, port, status: PortStatus::Open, ttl }
        } else if flags % 8 / 4 == 1 && flags % 32 / 16 == 1 {
            Observation::Port { ip, port, status: PortStatus::Closed, ttl }
        } else {
            Observation::Nothing
        }
    } else if proto == 17 && t + 8 <= f.len() && get_be16(f, t + 2) == src_port {
        Observation::Port { ip, port: get_be16(f, t), status: PortStatus::Open, ttl }
    } else {
        Observation::Nothing
    }
}

/// Folds one observation into the store. Host discovery scans (ICMP, TCP and UDP
/// ping) record the answering host; a SYN scan records the port; a connect scan
/// records nothing from captured frames.
pub fn apply_observation(store: &mut ScanResults, plan: &Vec<Destination>, scan_type: ScanType, obs: Observation)
    requires
        old(store).wf(plan@),
    ensures
        final(store).wf(plan@),
        match obs {
            Observation::Host { ip, ttl } => if scan_type == ScanType::IcmpPingScan {
                &&& final(store).result.ip_with_port == old(store).result.ip_with_port
                &&& if plan_has_ip(plan@, ip) && !has_host(old(store).result, ip) {
                    final(store).result.ips@ == old(store).result.ips@.push(HostInfo { ip_addr: ip, ttl })
                } else {
                    final(store).result.ips@ == old(store).result.ips@
                }
            } else {
                *final(store) == *old(store)
            },
            Observation::Port { ip, port, status, ttl } => if scan_type == ScanType::TcpPingScan || scan_type
                == ScanType::UdpPingScan {
                &&& final(store).result.ip_with_port == old(store).result.ip_with_port
                &&& if plan_has_ip(plan@, ip) && !has_host(old(store).result, ip) {
                    final(store).result.ips@ == old(store).result.ips@.push(HostInfo { ip_addr: ip, ttl })
                } else {
                    final(store).result.ips@ == old(store).result.ips@
                }
            } else if scan_type == ScanType::TcpSynScan {
                &&& final(store).result.ips == old(store).result.ips
                &&& plan_has_socket(plan@, ip, port) && !has_port(old(store).result, ip, port) ==> records_port(
                    final(store).result,
                    ip,
                    port,
                    status,
                )
                &&& forall|q: IpAddress, p: u16, s: PortStatus| #[trigger] records_port(final(store).result, q, p, s)
                    ==> records_port(old(store).result, q, p, s) || (q == ip && p == port && s == status)
                &&& forall|q: IpAddress, p: u16, s: PortStatus| #[trigger] records_port(old(store).result, q, p, s)
                    ==> records_port(final(store).result, q, p, s)
            } else {
                *final(store) == *old(store)
            },
            Observation::Nothing => *final(store) == *old(store),
        },
{
    match obs {
        Observation::Host { ip, ttl } => {
            if scan_type == ScanType::IcmpPingScan {
                store.record_host(plan, ip, ttl);
            }
        },
        Observation::Port { ip, port, status, ttl } => {
            if scan_type == ScanType::TcpPingScan || scan_type == ScanType::UdpPingScan {
                store.record_host(plan, ip, ttl);
            } else if scan_type == ScanType::TcpSynScan {
                store.record_port(plan, ip, port, status);
            }
        },
        Observation::Nothing => {},
    }
}

} // verus!
