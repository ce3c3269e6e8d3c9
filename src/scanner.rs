use vstd::prelude::*;
use crate::addr::{IpAddress, MacAddr};
use crate::error::ScanError;
use crate::frame::{plan_has_socket, Destination, PortStatus, ScanResult, ScanStatus, ScanType};
use crate::results::{entries_unique, has_port, hosts_unique, labelled, records_port, within_plan, ScanResults};

verus! {

/// The ephemeral source port of the probes.
pub const DEFAULT_SRC_PORT: u16 = 53443;

/// How many destinations the cooperative sender keeps in flight.
pub const DEFAULT_HOSTS_CONCURRENCY: usize = 50;

/// How many ports of one destination the cooperative sender keeps in flight.
pub const DEFAULT_PORTS_CONCURRENCY: usize = 100;

/// The probes for one destination: a host-level probe (port 0) for an ICMP scan or
/// when no ports are given, else one probe per port, in the given order.
pub open spec fn dest_probes(d: Destination, scan_type: ScanType) -> Seq<(IpAddress, u16)> {
    if scan_type == ScanType::IcmpPingScan || d.dst_ports@.len() == 0 {
        seq![(d.dst_ip, 0u16)]
    } else {
        d.dst_ports@.map_values(|p: u16| (d.dst_ip, p))
    }
}

/// The probes of the first `n` destinations, in emission order.
pub open spec fn schedule_upto(plan: Seq<Destination>, scan_type: ScanType, n: nat) -> Seq<(IpAddress, u16)>
    decreases n,
{
    if n == 0 {
        Seq::empty()
    } else {
        schedule_upto(plan, scan_type, (n - 1) as nat) + dest_probes(plan[n - 1], scan_type)
    }
}

/// Every probe of a plan, in emission order; one progress event is published per probe.
pub open spec fn schedule(plan: Seq<Destination>, scan_type: ScanType) -> Seq<(IpAddress, u16)> {
    schedule_upto(plan, scan_type, plan.len())
}

/// `Σ max(1, |ports|)` over the first `n` destinations.
pub open spec fn probe_total_upto(plan: Seq<Destination>, n: nat) -> nat
    decreases n,
{
    if n == 0 {
        0
    } else {
        probe_total_upto(plan, (n - 1) as nat) + if plan[n - 1].dst_ports@.len() > 0 {
            plan[n - 1].dst_ports@.len()
        } else {
            1
        }
    }
}

/// `Σ max(1, |ports|)` over a plan.
pub open spec fn probe_total(plan: Seq<Destination>) -> nat {
    probe_total_upto(plan, plan.len())
}

proof fn lemma_schedule_len_upto(plan: Seq<Destination>, scan_type: ScanType, n: nat)
    requires
        n <= plan.len(),
        scan_type == ScanType::IcmpPingScan ==> forall|i: int| 0 <= i < plan.len() ==> (#[trigger] plan[i]).dst_ports@.len() <= 1,
    ensures
        schedule_upto(plan, scan_type, n).len() == probe_total_upto(plan, n),
    decreases n,
{
    if n > 0 {
        lemma_schedule_len_upto(plan, scan_type, (n - 1) as nat);
        let d = plan[n - 1];
        assert(d.dst_ports@.len() <= 1 || scan_type != ScanType::IcmpPingScan);
    }
}

/// The sender publishes `Σ max(1, |ports|)` progress events for a plan: one per port
/// of each destination, and one for a destination without ports. An ICMP scan probes
/// each host once whatever its ports, so there the count holds when no destination
/// lists more than one port.
pub proof fn lemma_progress_count(plan: Seq<Destination>, scan_type: ScanType)
    requires
        scan_type == ScanType::IcmpPingScan ==> forall|i: int| 0 <= i < plan.len() ==> (#[trigger] plan[i]).dst_ports@.len() <= 1,
    ensures
        schedule(plan, scan_type).len() == probe_total(plan),
{
    lemma_schedule_len_upto(plan, scan_type, plan.len());
}

/// Everything a scan needs, fixed when the scan starts.
#[derive(Clone, Debug)]
pub struct ScanSetting {
    pub if_index: u32,
    pub src_mac: MacAddr,
    pub dst_mac: MacAddr,
    pub src_ip: IpAddress,
    pub src_port: u16,
    pub destinations: Vec<Destination>,
    /// The distinct destination addresses.
    pub ip_set: Vec<IpAddress>,
    pub scan_type: ScanType,
    /// The identifier of every ICMP echo request of the scan.
    pub icmp_identifier: u16,
    /// Milliseconds the whole scan may take.
    pub timeout: u64,
    /// Milliseconds to wait for late replies after the last probe.
    pub wait_time: u64,
    /// Milliseconds between two probes.
    pub send_rate: u64,
    pub hosts_concurrency: usize,
    pub ports_concurrency: usize,
}

/// Every probe of the plan, in emission order.
pub fn emission_schedule(plan: &Vec<Destination>, scan_type: ScanType) -> (r: Vec<(IpAddress, u16)>)
    requires
        probe_total(plan@) <= usize::MAX,
    ensures
        r@ == schedule(plan@, scan_type),
{
    let mut out: Vec<(IpAddress, u16)> = Vec::new();
    let mut i: usize = 0;
    while i < plan.len()
        invariant
            0 <= i <= plan@.len(),
            out@ == schedule_upto(plan@, scan_type, i as nat),
        decreases plan@.len() - i,
    {
        let d = &plan[i];
        if scan_type == ScanType::IcmpPingScan || d.dst_ports.len() == 0 {
            out.push((d.dst_ip, 0));
            assert(out@ =~= schedule_upto(plan@, scan_type, (i + 1) as nat));
        } else {
            let ghost before = out@;
            let mut k: usize = 0;
            while k < d.dst_ports.len()
                invariant
                    0 <= k <= d.dst_ports@.len(),
                    d == plan@[i as int],
                    out@ == before + d.dst_ports@.subrange(0, k as int).map_values(|p: u16| (d.dst_ip, p)),
                decreases d.dst_ports@.len() - k,
            {
                out.push((d.dst_ip, d.dst_ports[k]));
                k = k + 1;
                assert(out@ =~= before + d.dst_ports@.subrange(0, k as int).map_values(|p: u16| (d.dst_ip, p)));
            }
            assert(d.dst_ports@.subrange(0, k as int) =~= d.dst_ports@);
        }
        i = i + 1;
    }
    out
}

/// Hands out the probes of a schedule one by one, and stops handing them out once the
/// scan is cancelled or, when a time limit applies, once it has run out.
#[derive(Clone, Debug)]
pub struct SendCursor {
    pub schedule: Vec<(IpAddress, u16)>,
    pub next: usize,
}

impl SendCursor {
    pub fn new(schedule: Vec<(IpAddress, u16)>) -> (r: SendCursor)
        ensures
            r.schedule@ == schedule@,
            r.next == 0,
    {
        SendCursor { schedule, next: 0 }
    }

    /// The next probe to send, or `None` when the schedule is exhausted, the scan was
    /// cancelled, or a time limit applies and `elapsed_ms` exceeds `timeout_ms`.
    pub fn step(&mut self, cancelled: bool, limited: bool, elapsed_ms: u64, timeout_ms: u64) -> (r: Option<(IpAddress, u16)>)
        requires
            old(self).next <= old(self).schedule@.len(),
        ensures
            final(self).schedule == old(self).schedule,
            final(self).next <= final(self).schedule@.len(),
            if !cancelled && !(limited && elapsed_ms > timeout_ms) && old(self).next < old(self).schedule@.len() {
                r == Some(old(self).schedule@[old(self).next as int]) && final(self).next == old(self).next + 1
            } else {
                r is None && final(self).next == old(self).next
            },
    {
        if cancelled || (limited && elapsed_ms > timeout_ms) || self.next >= self.schedule.len() {
            return None;
        }
        let p = self.schedule[self.next];
        self.next = self.next + 1;
        Some(p)
    }
}

/// A network interface as the operating system lists it.
#[derive(Clone, Debug)]
pub struct InterfaceInfo {
    pub index: u32,
    pub name: String,
    pub mac: MacAddr,
    pub ips: Vec<IpAddress>,
}

/// Whether the interface carries `ip` and can carry a scan: a real index, a name
/// and a MAC address.
pub open spec fn usable_carrier(i: InterfaceInfo, ip: IpAddress) -> bool {
    i.ips@.contains(ip) && i.index != 0 && i.name@.len() > 0 && i.mac != MacAddr(0, 0, 0, 0, 0, 0)
}

/// The first interface that carries `ip` and can carry a scan, if any.
pub open spec fn interface_for(ifaces: Seq<InterfaceInfo>, ip: IpAddress) -> Option<int>
    decreases ifaces.len(),
{
    if ifaces.len() == 0 {
        None
    } else if usable_carrier(ifaces[0], ip) {
        Some(0)
    } else {
        match interface_for(ifaces.drop_first(), ip) {
            Some(i) => Some(i + 1),
            None => None,
        }
    }
}

/// The scanner's configuration, before and between scans.
#[derive(Clone, Debug)]
pub struct Scanner {
    pub if_index: u32,
    pub if_name: String,
    pub src_mac: MacAddr,
    pub dst_mac: MacAddr,
    pub src_ip: IpAddress,
    pub src_port: u16,
    pub destinations: Vec<Destination>,
    pub scan_type: ScanType,
    pub timeout: u64,
    pub wait_time: u64,
    pub send_rate: u64,
    pub scan_result: ScanResult,
}

impl Scanner {
    /// A scanner bound to the first interface among `interfaces` that carries `src_ip`
    /// and can carry a scan; `gateway_mac` is the link-layer destination of the probes.
    /// It starts with no destinations, an ICMP scan, a 300 s timeout, a 200 ms wait,
    /// no pause between probes and an empty result in the `Ready` state. It fails
    /// exactly when no listed interface carrying `src_ip` is usable.
    pub fn new(src_ip: IpAddress, interfaces: &Vec<InterfaceInfo>, gateway_mac: MacAddr) -> (r: Result<Scanner, ScanError>)
        ensures
            (r is Err) <==> !exists|i: int| 0 <= i < interfaces@.len() && usable_carrier(#[trigger] interfaces@[i], src_ip),
            r is Err ==> r matches Err(ScanError::InterfaceNotFound),
            match interface_for(interfaces@, src_ip) {
                Some(i) => r matches Ok(s) && s.if_index == interfaces@[i].index && s.if_name@ == interfaces@[i].name@
                    && s.src_mac == interfaces@[i].mac && s.dst_mac == gateway_mac && s.src_ip == src_ip
                    && s.src_port == DEFAULT_SRC_PORT && s.destinations@.len() == 0
                    && s.scan_type == ScanType::IcmpPingScan && s.timeout == 300_000 && s.wait_time == 200
                    && s.send_rate == 0 && s.scan_result.ips@.len() == 0 && s.scan_result.ip_with_port@.len() == 0
                    && s.scan_result.scan_time == 0 && s.scan_result.scan_status == ScanStatus::Ready,
                None => r matches Err(ScanError::InterfaceNotFound),
            },
    {
        let mut i: usize = 0;
        while i < interfaces.len()
            invariant
                0 <= i <= interfaces@.len(),
                forall|j: int| 0 <= j < i ==> !usable_carrier(#[trigger] interfaces@[j], src_ip),
            decreases interfaces@.len() - i,
        {
            let iface = &interfaces[i];
            let mut k: usize = 0;
            let mut found = false;
            while k < iface.ips.len()
                invariant
                    0 <= k <= iface.ips@.len(),
                    iface == interfaces@[i as int],
                    found == exists|m: int| 0 <= m < k && iface.ips@[m] == src_ip,
                decreases iface.ips@.len() - k,
            {
                if iface.ips[k] == src_ip {
                    found = true;
                }
                k = k + 1;
            }
            if found && iface.index != 0 && !iface.name.as_str().is_empty() && iface.mac != MacAddr(0, 0, 0, 0, 0, 0) {
                proof {
                    lemma_interface_for(interfaces@, src_ip, i as int);
                }
                let s = Scanner {
                    if_index: iface.index,
                    if_name: iface.name.clone(),
                    src_mac: iface.mac,
                    dst_mac: gateway_mac,
                    src_ip,
                    src_port: DEFAULT_SRC_PORT,
                    destinations: Vec::new(),
                    scan_type: ScanType::IcmpPingScan,
                    timeout: 300_000,
                    wait_time: 200,
                    send_rate: 0,
                    scan_result: ScanResult::new(),
                };
                return Ok(s);
            }
            i = i + 1;
        }
        proof {
            lemma_no_interface(interfaces@, src_ip);
        }
        Err(ScanError::InterfaceNotFound)
    }

    /// The number of probes a scan of the current destinations sends.
    pub fn len(&self) -> (r: usize)
        requires
            probe_total(self.destinations@) <= usize::MAX,
        ensures
            r == probe_total(self.destinations@),
    {
        let mut n: usize = 0;
        let mut i: usize = 0;
        while i < self.destinations.len()
            invariant
                0 <= i <= self.destinations@.len(),
                n == probe_total_upto(self.destinations@, i as nat),
                probe_total(self.destinations@) <= usize::MAX,
            decreases self.destinations@.len() - i,
        {
            proof {
                lemma_total_monotone(self.destinations@, (i + 1) as nat, self.destinations@.len());
            }
            if self.destinations[i].dst_ports.len() > 0 {
                n = n + self.destinations[i].dst_ports.len();
            } else {
                n = n + 1;
            }
            i = i + 1;
        }
        n
    }

    pub fn set_src_ip(&mut self, src_ip: IpAddress)
        ensures
            *final(self) == (Scanner { src_ip, ..*old(self) }),
    {
        self.src_ip = src_ip;
    }

    pub fn get_src_ip(&self) -> (r: IpAddress)
        ensures
            r == self.src_ip,
    {
        self.src_ip
    }

    pub fn add_destination(&mut self, dst: Destination)
        ensures
            final(self).destinations@ == old(self).destinations@.push(dst),
            *final(self) == (Scanner { destinations: final(self).destinations, ..*old(self) }),
    {
        self.destinations.push(dst);
    }

    pub fn set_destinations(&mut self, dst: Vec<Destination>)
        ensures
            *final(self) == (Scanner { destinations: dst, ..*old(self) }),
    {
        self.destinations = dst;
    }

    pub fn get_destinations(&self) -> (r: &Vec<Destination>)
        ensures
            r == &self.destinations,
    {
        &self.destinations
    }

    pub fn set_scan_type(&mut self, scan_type: ScanType)
        ensures
            *final(self) == (Scanner { scan_type, ..*old(self) }),
    {
        self.scan_type = scan_type;
    }

    pub fn get_scan_type(&self) -> (r: ScanType)
        ensures
            r == self.scan_type,
    {
        self.scan_type
    }

    /// Sets the timeout of the whole scan, in milliseconds.
    pub fn set_timeout(&mut self, timeout: u64)
        ensures
            *final(self) == (Scanner { timeout, ..*old(self) }),
    {
        self.timeout = timeout;
    }

    pub fn get_timeout(&self) -> (r: u64)
        ensures
            r == self.timeout,
    {
        self.timeout
    }

    /// Sets the wait for late replies, in milliseconds.
    pub fn set_wait_time(&mut self, wait_time: u64)
        ensures
            *final(self) == (Scanner { wait_time, ..*old(self) }),
    {
        self.wait_time = wait_time;
    }

    pub fn get_wait_time(&self) -> (r: u64)
        ensures
            r == self.wait_time,
    {
        self.wait_time
    }

    /// Sets the pause between two probes, in milliseconds.
    pub fn set_send_rate(&mut self, send_rate: u64)
        ensures
            *final(self) == (Scanner { send_rate, ..*old(self) }),
    {
        self.send_rate = send_rate;
    }

    pub fn get_send_rate(&self) -> (r: u64)
        ensures
            r == self.send_rate,
    {
        self.send_rate
    }

    /// The result of the last scan.
    pub fn get_scan_result(&self) -> (r: &ScanResult)
        ensures
            r == &self.scan_result,
    {
        &self.scan_result
    }

    /// Keeps the result of a scan.
    pub fn set_scan_result(&mut self, result: ScanResult)
        ensures
            *final(self) == (Scanner { scan_result: result, ..*old(self) }),
    {
        self.scan_result = result;
    }

    /// The settings of a scan of the current configuration, whose echo requests carry
    /// `icmp_identifier`.
    pub fn scan_setting(&self, icmp_identifier: u16) -> (r: ScanSetting)
        ensures
            r.icmp_identifier == icmp_identifier,
            r.if_index == self.if_index,
            r.src_mac == self.src_mac,
            r.dst_mac == self.dst_mac,
            r.src_ip == self.src_ip,
            r.src_port == self.src_port,
            crate::frame::same_plan(r.destinations@, self.destinations@),
            r.scan_type == self.scan_type,
            r.timeout == self.timeout,
            r.wait_time == self.wait_time,
            r.send_rate == self.send_rate,
            r.hosts_concurrency == DEFAULT_HOSTS_CONCURRENCY,
            r.ports_concurrency == DEFAULT_PORTS_CONCURRENCY,
            forall|i: int, j: int| 0 <= i < j < r.ip_set@.len() ==> r.ip_set@[i] != r.ip_set@[j],
            forall|a: IpAddress| r.ip_set@.contains(a) <==> crate::frame::plan_has_ip(self.destinations@, a),
    {
        let mut ip_set: Vec<IpAddress> = Vec::new();
        let mut i: usize = 0;
        while i < self.destinations.len()
            invariant
                0 <= i <= self.destinations@.len(),
                forall|a: int, b: int| 0 <= a < b < ip_set@.len() ==> ip_set@[a] != ip_set@[b],
                forall|a: IpAddress| ip_set@.contains(a) <==> exists|j: int| 0 <= j < i && (#[trigger] self.destinations@[j]).dst_ip == a,
            decreases self.destinations@.len() - i,
        {
            let ip = self.destinations[i].dst_ip;
            let mut k: usize = 0;
            let mut seen = false;
            while k < ip_set.len()
                invariant
                    0 <= k <= ip_set@.len(),
                    seen == exists|m: int| 0 <= m < k && ip_set@[m] == ip,
                decreases ip_set@.len() - k,
            {
                if ip_set[k] == ip {
                    seen = true;
                }
                k = k + 1;
            }
            let ghost before = ip_set@;
            if !seen {
                ip_set.push(ip);
            }
            proof {
                assert forall|a: IpAddress| ip_set@.contains(a) <==> exists|j: int| 0 <= j < i + 1 && (#[trigger] self.destinations@[j]).dst_ip == a by {
                    if ip_set@.contains(a) {
                        let m = choose|m: int| 0 <= m < ip_set@.len() && ip_set@[m] == a;
                        if m < before.len() {
                            assert(before[m] == a);
                            assert(before.contains(a));
                        } else {
                            assert(self.destinations@[i as int].dst_ip == a);
                        }
                    }
                    if exists|j: int| 0 <= j < i + 1 && (#[trigger] self.destinations@[j]).dst_ip == a {
                        let j = choose|j: int| 0 <= j < i + 1 && (#[trigger] self.destinations@[j]).dst_ip == a;
                        if j < i {
                            assert(before.contains(a));
                            let m = choose|m: int| 0 <= m < before.len() && before[m] == a;
                            assert(ip_set@[m] == a);
                        } else if seen {
                            let m = choose|m: int| 0 <= m < before.len() && before[m] == ip;
                            assert(ip_set@[m] == a);
                        } else {
                            assert(ip_set@[before.len() as int] == a);
                        }
                    }
                }
            }
            i = i + 1;
        }
        ScanSetting {
            if_index: self.if_index,
            src_mac: self.src_mac,
            dst_mac: self.dst_mac,
            src_ip: self.src_ip,
            src_port: self.src_port,
            destinations: crate::frame::copy_destinations(&self.destinations),
            ip_set,
            scan_type: self.scan_type,
            icmp_identifier,
            timeout: self.timeout,
            wait_time: self.wait_time,
            send_rate: self.send_rate,
            hosts_concurrency: DEFAULT_HOSTS_CONCURRENCY,
            ports_concurrency: DEFAULT_PORTS_CONCURRENCY,
        }
    }
}

proof fn lemma_total_monotone(plan: Seq<Destination>, m: nat, n: nat)
    requires
        m <= n,
    ensures
        probe_total_upto(plan, m) <= probe_total_upto(plan, n),
    decreases n - m,
{
    if m < n {
        lemma_total_monotone(plan, m, (n - 1) as nat);
    }
}

proof fn lemma_interface_for(ifaces: Seq<InterfaceInfo>, ip: IpAddress, i: int)
    requires
        0 <= i < ifaces.len(),
        usable_carrier(ifaces[i], ip),
        forall|j: int| 0 <= j < i ==> !usable_carrier(#[trigger] ifaces[j], ip),
    ensures
        interface_for(ifaces, ip) == Some(i),
    decreases i,
{
    if i > 0 {
        assert forall|j: int| 0 <= j < i - 1 implies !usable_carrier(#[trigger] ifaces.drop_first()[j], ip) by {
            assert(ifaces.drop_first()[j] == ifaces[j + 1]);
        }
        lemma_interface_for(ifaces.drop_first(), ip, i - 1);
    }
}

proof fn lemma_no_interface(ifaces: Seq<InterfaceInfo>, ip: IpAddress)
    requires
        forall|j: int| 0 <= j < ifaces.len() ==> !usable_carrier(#[trigger] ifaces[j], ip),
    ensures
        interface_for(ifaces, ip) is None,
    decreases ifaces.len(),
{
    if ifaces.len() > 0 {
        assert forall|j: int| 0 <= j < ifaces.len() - 1 implies !usable_carrier(#[trigger] ifaces.drop_first()[j], ip) by {
            assert(ifaces.drop_first()[j] == ifaces[j + 1]);
        }
        lemma_no_interface(ifaces.drop_first(), ip);
    }
}

/// Every scan's observations are free of duplicates and stay within its plan: no
/// address is listed twice as a host, no port twice for one address, every recorded
/// host, every address with a port list and every recorded (address, port) pair is
/// one the plan asked for, and each port carries its usual service name. The store
/// keeps this from its creation through every recorded reply.
pub proof fn lemma_observations_sound(store: ScanResults, plan: Seq<Destination>)
    requires
        store.wf(plan),
    ensures
        hosts_unique(store.result.ips@),
        entries_unique(store.result.ip_with_port@),
        within_plan(store.result, plan),
        labelled(store.result),
{
}

/// The result of a connect scan: each successful connection, taken in order, is
/// recorded as an open port; nothing else is recorded.
pub fn connect_scan_result(plan: &Vec<Destination>, connected: &Vec<(IpAddress, u16)>) -> (r: ScanResults)
    ensures
        r.wf(plan@),
        r.result.ips@.len() == 0,
        forall|q: IpAddress, p: u16, s: PortStatus| #[trigger] records_port(r.result, q, p, s) ==> s == PortStatus::Open,
        forall|q: IpAddress, p: u16, s: PortStatus| #[trigger] records_port(r.result, q, p, s) ==> connected@.contains((q, p)),
        forall|i: int| 0 <= i < connected@.len() && plan_has_socket(plan@, connected@[i].0, connected@[i].1)
            ==> records_port(r.result, connected@[i].0, connected@[i].1, PortStatus::Open),
{
    let mut store = ScanResults::new();
    let mut i: usize = 0;
    while i < connected.len()
        invariant
            0 <= i <= connected@.len(),
            store.wf(plan@),
            store.result.ips@.len() == 0,
            forall|q: IpAddress, p: u16, s: PortStatus| #[trigger] records_port(store.result, q, p, s) ==> s == PortStatus::Open,
            forall|q: IpAddress, p: u16, s: PortStatus| #[trigger] records_port(store.result, q, p, s) ==> exists|j: int| 0 <= j < i && connected@[j] == (q, p),
            forall|j: int| 0 <= j < i && plan_has_socket(plan@, connected@[j].0, connected@[j].1)
                ==> records_port(store.result, connected@[j].0, connected@[j].1, PortStatus::Open),
        decreases connected@.len() - i,
    {
        let (ip, port) = connected[i];
        let ghost before = store.result;
        store.record_port(plan, ip, port, PortStatus::Open);
        proof {
            if plan_has_socket(plan@, ip, port) && has_port(before, ip, port) {
                let (e, a) = choose|e: int, a: int|
                    0 <= e < before.ip_with_port@.len() && 0 <= a < before.ip_with_port@[e].1@.len()
                        && before.ip_with_port@[e].0 == ip && (#[trigger] before.ip_with_port@[e].1@[a]).port == port;
                let s = before.ip_with_port@[e].1@[a].status;
                assert(records_port(before, ip, port, s));
            }
            assert forall|q: IpAddress, p: u16, s: PortStatus| #[trigger] records_port(store.result, q, p, s) implies exists|j: int| 0 <= j < i + 1 && connected@[j] == (q, p) by {
                if !records_port(before, q, p, s) {
                    assert(connected@[i as int] == (q, p));
                }
            }
        }
        i = i + 1;
    }
    proof {
        assert forall|q: IpAddress, p: u16, s: PortStatus| #[trigger] records_port(store.result, q, p, s) implies connected@.contains((q, p)) by {
            let j = choose|j: int| 0 <= j < i && connected@[j] == (q, p);
            assert(connected@[j] == (q, p));
        }
    }
    store
}

} // verus!
