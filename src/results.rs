use vstd::prelude::*;
use vstd::pervasive::VecAdditionalExecFns;
use crate::addr::IpAddress;
use crate::frame::{
    plan_contains_ip, plan_contains_socket, plan_has_ip, plan_has_socket, service_label, service_name, Destination,
    HostInfo, PortInfo, PortStatus, ScanResult, ScanStatus,
};

verus! {

/// No two hosts share an address.
pub open spec fn hosts_unique(ips: Seq<HostInfo>) -> bool {
    forall|i: int, j: int| 0 <= i < j < ips.len() ==> (#[trigger] ips[i]).ip_addr != (#[trigger] ips[j]).ip_addr
}

/// No two entries share an address, and no entry lists a port twice.
pub open spec fn entries_unique(entries: Seq<(IpAddress, Vec<PortInfo>)>) -> bool {
    &&& forall|i: int, j: int| 0 <= i < j < entries.len() ==> (#[trigger] entries[i]).0 != (#[trigger] entries[j]).0
    &&& forall|i: int, a: int, b: int|
        0 <= i < entries.len() && 0 <= a < b < entries[i].1@.len() ==> (#[trigger] entries[i].1@[a]).port
            != (#[trigger] entries[i].1@[b]).port
}

/// Every recorded host, every address with a port list, and every recorded port is
/// one that the plan asked for.
pub open spec fn within_plan(r: ScanResult, plan: Seq<Destination>) -> bool {
    &&& forall|i: int| 0 <= i < r.ips@.len() ==> plan_has_ip(plan, (#[trigger] r.ips@[i]).ip_addr)
    &&& forall|i: int| 0 <= i < r.ip_with_port@.len() ==> plan_has_ip(plan, (#[trigger] r.ip_with_port@[i]).0)
    &&& forall|i: int, a: int|
        0 <= i < r.ip_with_port@.len() && 0 <= a < r.ip_with_port@[i].1@.len() ==> plan_has_socket(
            plan,
            r.ip_with_port@[i].0,
            (#[trigger] r.ip_with_port@[i].1@[a]).port,
        )
}

/// Every recorded port carries the usual service name of its number.
pub open spec fn labelled(r: ScanResult) -> bool {
    forall|i: int, a: int|
        0 <= i < r.ip_with_port@.len() && 0 <= a < r.ip_with_port@[i].1@.len() ==> (#[trigger] r.ip_with_port@[i].1@[a]).describe@
            == service_label(r.ip_with_port@[i].1@[a].port)
}

/// Whether the result records `port` of `ip`, and with which status.
pub open spec fn records_port(r: ScanResult, ip: IpAddress, port: u16, status: PortStatus) -> bool {
    exists|i: int, a: int|
        0 <= i < r.ip_with_port@.len() && 0 <= a < r.ip_with_port@[i].1@.len()
            && r.ip_with_port@[i].0 == ip && (#[trigger] r.ip_with_port@[i].1@[a]).port == port
            && r.ip_with_port@[i].1@[a].status == status
}

/// Whether the result records `port` of `ip` with any status.
pub open spec fn has_port(r: ScanResult, ip: IpAddress, port: u16) -> bool {
    exists|i: int, a: int|
        0 <= i < r.ip_with_port@.len() && 0 <= a < r.ip_with_port@[i].1@.len()
            && r.ip_with_port@[i].0 == ip && (#[trigger] r.ip_with_port@[i].1@[a]).port == port
}

/// Whether the result records `ip` as a live host.
pub open spec fn has_host(r: ScanResult, ip: IpAddress) -> bool {
    exists|i: int| 0 <= i < r.ips@.len() && (#[trigger] r.ips@[i]).ip_addr == ip
}

/// The observations of one scan, gathered reply by reply: the first reply for a
/// host or a port is kept and later ones are dropped.
pub struct ScanResults {
    pub result: ScanResult,
}

impl ScanResults {
    /// The store is consistent with `plan`: no duplicates, nothing outside the plan.
    pub open spec fn wf(&self, plan: Seq<Destination>) -> bool {
        &&& hosts_unique(self.result.ips@)
        &&& entries_unique(self.result.ip_with_port@)
        &&& within_plan(self.result, plan)
        &&& labelled(self.result)
    }

    pub fn new() -> (r: ScanResults)
        ensures
            forall|plan: Seq<Destination>| r.wf(plan),
            r.result.ips@.len() == 0,
            r.result.ip_with_port@.len() == 0,
            r.result.scan_status == ScanStatus::Ready,
    {
        ScanResults { result: ScanResult::new() }
    }

    /// Records a live host, unless the plan does not name it or it was already seen.
    pub fn record_host(&mut self, plan: &Vec<Destination>, ip: IpAddress, ttl: u8)
        requires
            old(self).wf(plan@),
        ensures
            final(self).wf(plan@),
            final(self).result.ip_with_port == old(self).result.ip_with_port,
            if plan_has_ip(plan@, ip) && !has_host(old(self).result, ip) {
                final(self).result.ips@ == old(self).result.ips@.push(HostInfo { ip_addr: ip, ttl })
            } else {
                final(self).result.ips@ == old(self).result.ips@
            },
    {
        if !plan_contains_ip(plan, ip) {
            return;
        }
        let mut i: usize = 0;
        while i < self.result.ips.len()
            invariant
                0 <= i <= self.result.ips@.len(),
                self.result == old(self).result,
                self.wf(plan@),
                forall|j: int| 0 <= j < i ==> (#[trigger] self.result.ips@[j]).ip_addr != ip,
            decreases self.result.ips@.len() - i,
        {
            if self.result.ips[i].ip_addr == ip {
                return;
            }
            i = i + 1;
        }
        self.result.ips.push(HostInfo { ip_addr: ip, ttl });
        proof {
            let ips = self.result.ips@;
            assert forall|a: int, b: int| 0 <= a < b < ips.len() implies (#[trigger] ips[a]).ip_addr
                != (#[trigger] ips[b]).ip_addr by {
                if b == ips.len() - 1 {
                    assert(old(self).result.ips@[a] == ips[a]);
                } else {
                    assert(old(self).result.ips@[a] == ips[a]);
                    assert(old(self).result.ips@[b] == ips[b]);
                }
            }
            assert forall|a: int| 0 <= a < ips.len() implies plan_has_ip(plan@, (#[trigger] ips[a]).ip_addr) by {
                if a < ips.len() - 1 {
                    assert(old(self).result.ips@[a] == ips[a]);
                }
            }
        }
    }

    /// Records the status of a port, unless the plan does not ask for it or the port
    /// was already recorded.
    pub fn record_port(&mut self, plan: &Vec<Destination>, ip: IpAddress, port: u16, status: PortStatus)
        requires
            old(self).wf(plan@),
        ensures
            final(self).wf(plan@),
            final(self).result.ips == old(self).result.ips,
            forall|q: IpAddress, p: u16, s: PortStatus| #[trigger] records_port(old(self).result, q, p, s)
                ==> records_port(final(self).result, q, p, s),
            plan_has_socket(plan@, ip, port) && !has_port(old(self).result, ip, port) ==> records_port(
                final(self).result,
                ip,
                port,
                status,
            ),
            forall|q: IpAddress, p: u16, s: PortStatus| #[trigger] records_port(final(self).result, q, p, s)
                ==> records_port(old(self).result, q, p, s) || (q == ip && p == port && s == status),
    {
        if !plan_contains_socket(plan, ip, port) {
            return;
        }
        let ghost old_entries = self.result.ip_with_port@;
        let mut i: usize = 0;
        while i < self.result.ip_with_port.len()
            invariant
                0 <= i <= self.result.ip_with_port@.len(),
                self.result == old(self).result,
                self.wf(plan@),
                plan_has_socket(plan@, ip, port),
                old_entries == self.result.ip_with_port@,
                forall|j: int| 0 <= j < i ==> (#[trigger] self.result.ip_with_port@[j]).0 != ip,
            decreases self.result.ip_with_port@.len() - i,
        {
            if self.result.ip_with_port[i].0 == ip {
                let ports = &self.result.ip_with_port[i].1;
                let mut k: usize = 0;
                while k < ports.len()
                    invariant
                        0 <= k <= ports@.len(),
                        i < self.result.ip_with_port@.len(),
                        self.result.ip_with_port@[i as int].0 == ip,
                        ports == self.result.ip_with_port@[i as int].1,
                        self.result == old(self).result,
                        self.wf(plan@),
                        plan_has_socket(plan@, ip, port),
                        old_entries == self.result.ip_with_port@,
                        forall|j: int| 0 <= j < k ==> (#[trigger] ports@[j]).port != port,
                    decreases ports@.len() - k,
                {
                    if ports[k].port == port {
                        proof {
                            assert(has_port(old(self).result, ip, port)) by {
                                assert(old_entries[i as int].1@[k as int].port == port);
                            }
                        }
                        return;
                    }
                    k = k + 1;
                }
                let info = PortInfo { port, status, describe: service_name(port).to_owned() };
                let mut entry: (IpAddress, Vec<PortInfo>) = (ip, Vec::new());
                self.result.ip_with_port.set_and_swap(i, &mut entry);
                entry.1.push(info);
                let ghost new_entry = entry;
                self.result.ip_with_port.set(i, entry);
                proof {
                    let es = self.result.ip_with_port@;
                    assert(es =~= old_entries.update(i as int, new_entry));
                    assert forall|a: int, b: int| 0 <= a < b < es.len() implies (#[trigger] es[a]).0
                        != (#[trigger] es[b]).0 by {
                        assert(old_entries[a].0 == es[a].0);
                        assert(old_entries[b].0 == es[b].0);
                    }
                    assert forall|e: int, a: int, b: int|
                        0 <= e < es.len() && 0 <= a < b < es[e].1@.len() implies (#[trigger] es[e].1@[a]).port
                        != (#[trigger] es[e].1@[b]).port by {
                        if e == i {
                            if b < es[e].1@.len() - 1 {
                                assert(es[e].1@[a] == old_entries[e].1@[a]);
                                assert(es[e].1@[b] == old_entries[e].1@[b]);
                            } else {
                                assert(es[e].1@[a] == old_entries[e].1@[a]);
                            }
                        }
                    }
                    assert forall|e: int| 0 <= e < es.len() implies plan_has_ip(plan@, (#[trigger] es[e]).0) by {
                        assert(old_entries[e].0 == es[e].0);
                    }
                    assert forall|e: int, a: int| 0 <= e < es.len() && 0 <= a < es[e].1@.len() implies (#[trigger] es[e].1@[a]).describe@
                        == service_label(es[e].1@[a].port) by {
                        if !(e == i && a == es[e].1@.len() - 1) {
                            assert(es[e].1@[a] == old_entries[e].1@[a]);
                        }
                    }
                    assert forall|e: int, a: int| 0 <= e < es.len() && 0 <= a < es[e].1@.len() implies plan_has_socket(
                        plan@,
                        es[e].0,
                        (#[trigger] es[e].1@[a]).port,
                    ) by {
                        if e == i && a < es[e].1@.len() - 1 {
                            assert(es[e].1@[a] == old_entries[e].1@[a]);
                        }
                    }
                    assert forall|q: IpAddress, p: u16, s: PortStatus| #[trigger] records_port(
                        old(self).result,
                        q,
                        p,
                        s,
                    ) implies records_port(self.result, q, p, s) by {
                        let (e, a) = choose|e: int, a: int|
                            0 <= e < old_entries.len() && 0 <= a < old_entries[e].1@.len()
                                && old_entries[e].0 == q && (#[trigger] old_entries[e].1@[a]).port == p
                                && old_entries[e].1@[a].status == s;
                        assert(es[e].1@[a] == old_entries[e].1@[a]);
                    }
                    let last = (es[i as int].1@.len() - 1) as int;
                    assert(es[i as int].1@[last] == info);
                    assert forall|q: IpAddress, p: u16, s: PortStatus| #[trigger] records_port(
                        self.result,
                        q,
                        p,
                        s,
                    ) implies records_port(old(self).result, q, p, s) || (q == ip && p == port && s
                        == status) by {
                        let (e, a) = choose|e: int, a: int|
                            0 <= e < es.len() && 0 <= a < es[e].1@.len() && es[e].0 == q && (
                            #[trigger] es[e].1@[a]).port == p && es[e].1@[a].status == s;
                        if !(e == i && a == last) {
                            assert(es[e].1@[a] == old_entries[e].1@[a]);
                        }
                    }
                    if plan_has_socket(plan@, ip, port) && !has_port(old(self).result, ip, port) {
                        assert(es[i as int].0 == ip);
                    }
                }
                return;
            }
            i = i + 1;
        }
        let info = PortInfo { port, status, describe: service_name(port).to_owned() };
        self.result.ip_with_port.push((ip, vec![info]));
        proof {
            let es = self.result.ip_with_port@;
            let n = old_entries.len() as int;
            assert(es[n].1@[0] == info);
            assert forall|a: int, b: int| 0 <= a < b < es.len() implies (#[trigger] es[a]).0 != (
            #[trigger] es[b]).0 by {
                assert(es[a] == old_entries[a]);
                if b < n {
                    assert(es[b] == old_entries[b]);
                }
            }
            assert forall|e: int, a: int, b: int|
                0 <= e < es.len() && 0 <= a < b < es[e].1@.len() implies (#[trigger] es[e].1@[a]).port
                != (#[trigger] es[e].1@[b]).port by {
                assert(e < n);
                assert(es[e] == old_entries[e]);
            }
            assert forall|e: int| 0 <= e < es.len() implies plan_has_ip(plan@, (#[trigger] es[e]).0) by {
                if e < n {
                    assert(es[e] == old_entries[e]);
                } else {
                    let d = choose|d: int| 0 <= d < plan@.len() && (#[trigger] plan@[d]).dst_ip == ip && plan@[d].dst_ports@.contains(port);
                    assert(plan@[d].dst_ip == ip);
                }
            }
            assert forall|e: int, a: int| 0 <= e < es.len() && 0 <= a < es[e].1@.len() implies (#[trigger] es[e].1@[a]).describe@
                == service_label(es[e].1@[a].port) by {
                if e < n {
                    assert(es[e] == old_entries[e]);
                }
            }
            assert forall|e: int, a: int| 0 <= e < es.len() && 0 <= a < es[e].1@.len() implies plan_has_socket(
                plan@,
                es[e].0,
                (#[trigger] es[e].1@[a]).port,
            ) by {
                if e < n {
                    assert(es[e] == old_entries[e]);
                }
            }
            assert forall|q: IpAddress, p: u16, s: PortStatus| #[trigger] records_port(
                old(self).result,
                q,
                p,
                s,
            ) implies records_port(self.result, q, p, s) by {
                let (e, a) = choose|e: int, a: int|
                    0 <= e < old_entries.len() && 0 <= a < old_entries[e].1@.len() && old_entries[e].0
                        == q && (#[trigger] old_entries[e].1@[a]).port == p && old_entries[e].1@[a].status
                        == s;
                assert(es[e] == old_entries[e]);
            }
            assert forall|q: IpAddress, p: u16, s: PortStatus| #[trigger] records_port(
                self.result,
                q,
                p,
                s,
            ) implies records_port(old(self).result, q, p, s) || (q == ip && p == port && s == status) by {
                let (e, a) = choose|e: int, a: int|
                    0 <= e < es.len() && 0 <= a < es[e].1@.len() && es[e].0 == q && (
                    #[trigger] es[e].1@[a]).port == p && es[e].1@[a].status == s;
                if e < n {
                    assert(es[e] == old_entries[e]);
                }
            }
        }
    }
}

/// The status a finished scan reports: an error when it was cancelled, a timeout
/// when it ran longer than allowed, and done otherwise.
pub fn final_status(cancelled: bool, elapsed_ms: u64, timeout_ms: u64) -> (r: ScanStatus)
    ensures
        r == if cancelled {
            ScanStatus::Error
        } else if elapsed_ms > timeout_ms {
            ScanStatus::Timeout
        } else {
            ScanStatus::Done
        },
{
    if cancelled {
        ScanStatus::Error
    } else if elapsed_ms > timeout_ms {
        ScanStatus::Timeout
    } else {
        ScanStatus::Done
    }
}

/// Closes a scan: stamps the elapsed time and the final status on its observations.
pub fn finish_scan(results: ScanResults, cancelled: bool, elapsed_ms: u64, timeout_ms: u64) -> (r: ScanResult)
    ensures
        r.ips == results.result.ips,
        r.ip_with_port == results.result.ip_with_port,
        r.scan_time == elapsed_ms,
        r.scan_status == (if cancelled {
            ScanStatus::Error
        } else if elapsed_ms > timeout_ms {
            ScanStatus::Timeout
        } else {
            ScanStatus::Done
        }),
{
    let mut r = results.result;
    r.scan_time = elapsed_ms;
    r.scan_status = final_status(cancelled, elapsed_ms, timeout_ms);
    r
}

} // verus!
