use vstd::prelude::*;
use crate::addr::IpAddress;

verus! {

/// The probing strategy of a scan.
#[derive(Clone, Copy, Debug, PartialEq, Eq, Structural)]
pub enum ScanType {
    IcmpPingScan,
    TcpPingScan,
    UdpPingScan,
    TcpConnectScan,
    TcpSynScan,
}

/// The scan kinds a user may ask for; `Unset` leaves the choice to the defaults.
#[derive(Clone, Copy, Debug, PartialEq, Eq, Structural)]
pub enum ScanOrderType {
    Unset,
    Icmp,
    TcpConnect,
    Udp,
    Tcp,
    TcpSyn,
}

/// The scan type that a requested kind selects.
pub fn parse_scan_type(scan_type: &ScanOrderType) -> (r: Option<ScanType>)
    ensures
        r == match *scan_type {
            ScanOrderType::Unset => None,
            ScanOrderType::Icmp => Some(ScanType::IcmpPingScan),
            ScanOrderType::TcpConnect => Some(ScanType::TcpConnectScan),
            ScanOrderType::Udp => Some(ScanType::UdpPingScan),
            ScanOrderType::Tcp => Some(ScanType::TcpPingScan),
            ScanOrderType::TcpSyn => Some(ScanType::TcpSynScan),
        },
{
    match scan_type {
        ScanOrderType::Unset => None,
        ScanOrderType::Icmp => Some(ScanType::IcmpPingScan),
        ScanOrderType::TcpConnect => Some(ScanType::TcpConnectScan),
        ScanOrderType::Udp => Some(ScanType::UdpPingScan),
        ScanOrderType::Tcp => Some(ScanType::TcpPingScan),
        ScanOrderType::TcpSyn => Some(ScanType::TcpSynScan),
    }
}

/// One target of a plan: an address and the ports to probe on it, in order. No
/// ports means a host-level probe only.
#[derive(Clone, Debug)]
pub struct Destination {
    pub dst_ip: IpAddress,
    pub dst_ports: Vec<u16>,
}

impl Destination {
    pub fn new(dst_ip: IpAddress, dst_ports: Vec<u16>) -> (r: Destination)
        ensures
            r.dst_ip == dst_ip,
            r.dst_ports@ == dst_ports@,
    {
        Destination { dst_ip, dst_ports }
    }
}

/// The state of a scan task.
#[derive(Clone, Copy, Debug, PartialEq, Eq, Structural)]
pub enum ScanStatus {
    Ready,
    Done,
    Timeout,
    Error,
}

/// The classification of a probed port.
#[derive(Clone, Copy, Debug, PartialEq, Eq, Structural)]
pub enum PortStatus {
    Open,
    Closed,
    Filtered,
}

impl PortStatus {
    /// The name of the status.
    pub fn name(&self) -> (r: &'static str)
        ensures
            r@ == match *self {
                PortStatus::Open => "Open"@,
                PortStatus::Closed => "Closed"@,
                PortStatus::Filtered => "Filtered"@,
            },
    {
        match self {
            PortStatus::Open => "Open",
            PortStatus::Closed => "Closed",
            PortStatus::Filtered => "Filtered",
        }
    }
}

/// What is known of a probed port.
#[derive(Clone, Debug)]
pub struct PortInfo {
    pub port: u16,
    pub status: PortStatus,
    /// The usual service on the port.
    pub describe: String,
}

/// A host that answered, with the IP time-to-live of its first accepted reply.
#[derive(Clone, Copy, Debug, PartialEq, Eq, Structural)]
pub struct HostInfo {
    pub ip_addr: IpAddress,
    pub ttl: u8,
}

/// The usual service name on a well-known port.
pub open spec fn service_label(port: u16) -> Seq<char> {
    if port == 20 { "ftp-data"@ }
    else if port == 21 { "ftp"@ }
    else if port == 22 { "ssh"@ }
    else if port == 23 { "telnet"@ }
    else if port == 25 { "smtp"@ }
    else if port == 53 { "domain"@ }
    else if port == 80 { "http"@ }
    else if port == 110 { "pop3"@ }
    else if port == 123 { "ntp"@ }
    else if port == 135 { "msrpc"@ }
    else if port == 139 { "netbios-ssn"@ }
    else if port == 143 { "imap"@ }
    else if port == 443 { "https"@ }
    else if port == 445 { "microsoft-ds"@ }
    else if port == 554 { "rtsp"@ }
    else if port == 993 { "imaps"@ }
    else if port == 995 { "pop3s"@ }
    else if port == 1433 { "ms-sql-s"@ }
    else if port == 3306 { "mysql"@ }
    else if port == 3389 { "ms-wbt-server"@ }
    else if port == 5432 { "postgresql"@ }
    else if port == 8000 { "http-alt"@ }
    else if port == 8080 { "http-proxy"@ }
    else { "unknown"@ }
}

/// The usual service name on `port`.
pub fn service_name(port: u16) -> (r: &'static str)
    ensures
        r@ == service_label(port),
{
    if port == 20 { "ftp-data" }
    else if port == 21 { "ftp" }
    else if port == 22 { "ssh" }
    else if port == 23 { "telnet" }
    else if port == 25 { "smtp" }
    else if port == 53 { "domain" }
    else if port == 80 { "http" }
    else if port == 110 { "pop3" }
    else if port == 123 { "ntp" }
    else if port == 135 { "msrpc" }
    else if port == 139 { "netbios-ssn" }
    else if port == 143 { "imap" }
    else if port == 443 { "https" }
    else if port == 445 { "microsoft-ds" }
    else if port == 554 { "rtsp" }
    else if port == 993 { "imaps" }
    else if port == 995 { "pop3s" }
    else if port == 1433 { "ms-sql-s" }
    else if port == 3306 { "mysql" }
    else if port == 3389 { "ms-wbt-server" }
    else if port == 5432 { "postgresql" }
    else if port == 8000 { "http-alt" }
    else if port == 8080 { "http-proxy" }
    else { "unknown" }
}

/// `a` and `b` list the same destinations with the same ports.
pub open spec fn same_plan(a: Seq<Destination>, b: Seq<Destination>) -> bool {
    a.len() == b.len() && forall|i: int| 0 <= i < a.len() ==> (#[trigger] a[i]).dst_ip == b[i].dst_ip && a[i].dst_ports@ == b[i].dst_ports@
}

/// A copy of a plan.
pub fn copy_destinations(plan: &Vec<Destination>) -> (r: Vec<Destination>)
    ensures
        same_plan(r@, plan@),
{
    let mut r: Vec<Destination> = Vec::new();
    let mut i: usize = 0;
    while i < plan.len()
        invariant
            0 <= i <= plan@.len(),
            r@.len() == i,
            forall|j: int| 0 <= j < i ==> (#[trigger] r@[j]).dst_ip == plan@[j].dst_ip && r@[j].dst_ports@ == plan@[j].dst_ports@,
        decreases plan@.len() - i,
    {
        let d = &plan[i];
        let mut ports: Vec<u16> = Vec::new();
        let mut k: usize = 0;
        while k < d.dst_ports.len()
            invariant
                0 <= k <= d.dst_ports@.len(),
                ports@ == d.dst_ports@.subrange(0, k as int),
            decreases d.dst_ports@.len() - k,
        {
            ports.push(d.dst_ports[k]);
            k = k + 1;
            assert(ports@ =~= d.dst_ports@.subrange(0, k as int));
        }
        assert(ports@ =~= d.dst_ports@);
        r.push(Destination { dst_ip: d.dst_ip, dst_ports: ports });
        i = i + 1;
    }
    r
}

/// Whether the plan names `ip` as a destination.
pub open spec fn plan_has_ip(plan: Seq<Destination>, ip: IpAddress) -> bool {
    exists|i: int| 0 <= i < plan.len() && (#[trigger] plan[i]).dst_ip == ip
}

/// Whether the plan asks for `port` on `ip`.
pub open spec fn plan_has_socket(plan: Seq<Destination>, ip: IpAddress, port: u16) -> bool {
    exists|i: int| 0 <= i < plan.len() && (#[trigger] plan[i]).dst_ip == ip && plan[i].dst_ports@.contains(port)
}

/// Whether the plan names `ip`.
pub fn plan_contains_ip(plan: &Vec<Destination>, ip: IpAddress) -> (r: bool)
    ensures
        r == plan_has_ip(plan@, ip),
{
    let mut i: usize = 0;
    while i < plan.len()
        invariant
            0 <= i <= plan@.len(),
            forall|j: int| 0 <= j < i ==> (#[trigger] plan@[j]).dst_ip != ip,
        decreases plan@.len() - i,
    {
        if plan[i].dst_ip == ip {
            return true;
        }
        i = i + 1;
    }
    false
}

/// Whether `port` occurs in `ports`.
pub fn ports_contain(ports: &Vec<u16>, port: u16) -> (r: bool)
    ensures
        r == ports@.contains(port),
{
    let mut i: usize = 0;
    while i < ports.len()
        invariant
            0 <= i <= ports@.len(),
            forall|j: int| 0 <= j < i ==> ports@[j] != port,
        decreases ports@.len() - i,
    {
        if ports[i] == port {
            return true;
        }
        i = i + 1;
    }
    false
}

/// Whether the plan asks for `port` on `ip`.
pub fn plan_contains_socket(plan: &Vec<Destination>, ip: IpAddress, port: u16) -> (r: bool)
    ensures
        r == plan_has_socket(plan@, ip, port),
{
    let mut i: usize = 0;
    while i < plan.len()
        invariant
            0 <= i <= plan@.len(),
            forall|j: int| 0 <= j < i ==> !((#[trigger] plan@[j]).dst_ip == ip && plan@[j].dst_ports@.contains(port)),
        decreases plan@.len() - i,
    {
        if plan[i].dst_ip == ip && ports_contain(&plan[i].dst_ports, port) {
            return true;
        }
        i = i + 1;
    }
    false
}

/// The outcome of a scan.
#[derive(Clone, Debug)]
pub struct ScanResult {
    /// The hosts that answered.
    pub ips: Vec<HostInfo>,
    /// For each address with observed ports, what was seen of them.
    pub ip_with_port: Vec<(IpAddress, Vec<PortInfo>)>,
    /// Time taken by the scan, in milliseconds.
    pub scan_time: u64,
    pub scan_status: ScanStatus,
}

impl ScanResult {
    /// An empty result, ready for a scan.
    pub fn new() -> (r: ScanResult)
        ensures
            r.ips@.len() == 0,
            r.ip_with_port@.len() == 0,
            r.scan_time == 0,
            r.scan_status == ScanStatus::Ready,
    {
        ScanResult { ips: Vec::new(), ip_with_port: Vec::new(), scan_time: 0, scan_status: ScanStatus::Ready }
    }

    /// The addresses of the hosts that answered, in the order they were recorded.
    pub fn get_hosts(&self) -> (r: Vec<IpAddress>)
        ensures
            r@ == self.ips@.map_values(|h: HostInfo| h.ip_addr),
    {
        let mut r: Vec<IpAddress> = Vec::new();
        let mut i: usize = 0;
        while i < self.ips.len()
            invariant
                0 <= i <= self.ips@.len(),
                r@ == self.ips@.subrange(0, i as int).map_values(|h: HostInfo| h.ip_addr),
            decreases self.ips@.len() - i,
        {
            r.push(self.ips[i].ip_addr);
            i = i + 1;
            assert(r@ =~= self.ips@.subrange(0, i as int).map_values(|h: HostInfo| h.ip_addr));
        }
        assert(self.ips@.subrange(0, i as int) =~= self.ips@);
        r
    }

    /// The open ports recorded for `ip_addr`, in the order they were recorded.
    pub fn get_open_ports(&self, ip_addr: IpAddress) -> (r: Vec<u16>)
        ensures
            r@ == open_ports_of(self.ip_with_port@, ip_addr),
    {
        let mut r: Vec<u16> = Vec::new();
        let mut i: usize = 0;
        while i < self.ip_with_port.len()
            invariant
                0 <= i <= self.ip_with_port@.len(),
                forall|j: int| 0 <= j < i ==> (#[trigger] self.ip_with_port@[j]).0 != ip_addr,
                r@.len() == 0,
            decreases self.ip_with_port@.len() - i,
        {
            if self.ip_with_port[i].0 == ip_addr {
                let ports = &self.ip_with_port[i].1;
                let mut k: usize = 0;
                while k < ports.len()
                    invariant
                        0 <= k <= ports@.len(),
                        ports == self.ip_with_port@[i as int].1,
                        r@ == open_in(ports@.subrange(0, k as int)),
                    decreases ports@.len() - k,
                {
                    proof {
                        assert(ports@.subrange(0, k + 1).drop_last() =~= ports@.subrange(0, k as int));
                    }
                    if ports[k].status == PortStatus::Open {
                        r.push(ports[k].port);
                    }
                    k = k + 1;
                }
                proof {
                    assert(ports@.subrange(0, k as int) =~= ports@);
                    lemma_first_entry(self.ip_with_port@, ip_addr, i as int);
                }
                return r;
            }
            i = i + 1;
        }
        proof {
            lemma_no_entry(self.ip_with_port@, ip_addr);
        }
        r
    }
}

/// The ports of `ps` whose status is open, in order.
pub open spec fn open_in(ps: Seq<PortInfo>) -> Seq<u16>
    decreases ps.len(),
{
    if ps.len() == 0 {
        Seq::empty()
    } else if ps.last().status == PortStatus::Open {
        open_in(ps.drop_last()).push(ps.last().port)
    } else {
        open_in(ps.drop_last())
    }
}

/// The index of the first entry for `ip`, if any.
pub open spec fn entry_index(entries: Seq<(IpAddress, Vec<PortInfo>)>, ip: IpAddress) -> Option<int>
    decreases entries.len(),
{
    if entries.len() == 0 {
        None
    } else if entries[0].0 == ip {
        Some(0)
    } else {
        match entry_index(entries.drop_first(), ip) {
            Some(i) => Some(i + 1),
            None => None,
        }
    }
}

/// The open ports recorded for `ip`.
pub open spec fn open_ports_of(entries: Seq<(IpAddress, Vec<PortInfo>)>, ip: IpAddress) -> Seq<u16> {
    match entry_index(entries, ip) {
        Some(i) => open_in(entries[i].1@),
        None => Seq::empty(),
    }
}

proof fn lemma_first_entry(entries: Seq<(IpAddress, Vec<PortInfo>)>, ip: IpAddress, i: int)
    requires
        0 <= i < entries.len(),
        entries[i].0 == ip,
        forall|j: int| 0 <= j < i ==> (#[trigger] entries[j]).0 != ip,
    ensures
        entry_index(entries, ip) == Some(i),
    decreases i,
{
    if i > 0 {
        assert forall|j: int| 0 <= j < i - 1 implies (#[trigger] entries.drop_first()[j]).0 != ip by {
            assert(entries.drop_first()[j] == entries[j + 1]);
        }
        lemma_first_entry(entries.drop_first(), ip, i - 1);
    }
}

proof fn lemma_no_entry(entries: Seq<(IpAddress, Vec<PortInfo>)>, ip: IpAddress)
    requires
        forall|j: int| 0 <= j < entries.len() ==> (#[trigger] entries[j]).0 != ip,
    ensures
        entry_index(entries, ip) is None,
    decreases entries.len(),
{
    if entries.len() > 0 {
        assert forall|j: int| 0 <= j < entries.len() - 1 implies (#[trigger] entries.drop_first()[j]).0 != ip by {
            assert(entries.drop_first()[j] == entries[j + 1]);
        }
        lemma_no_entry(entries.drop_first(), ip);
    }
}

} // verus!
