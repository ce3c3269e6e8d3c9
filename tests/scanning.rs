use e_libscanner::addr::{IpAddress, MacAddr};
use e_libscanner::dns::{dns_result, DnsResultType};
use e_libscanner::error::ScanError;
use e_libscanner::frame::{service_name, Destination, PortStatus, ScanStatus, ScanType};
use e_libscanner::interface::{
    get_default_gateway_macaddr, ipv4_netmask_to_prefix, prefix_to_ipv4_netmask, Gateway, InterfaceType,
};
use e_libscanner::os::{IcmpEchoResult, TcpEcnResult, TcpRstAckResult, TcpSynAckResult};
use e_libscanner::receiver::{apply_observation, Observation};
use e_libscanner::results::{finish_scan, final_status, ScanResults};
use e_libscanner::scanner::{connect_scan_result, emission_schedule, InterfaceInfo, Scanner, SendCursor};
use e_libscanner::target::{parse_ip_range, parse_str_ports};
use e_libscanner::traceroute::{
    add_query_result, next_query_port, summarize_hop, Config, Protocol, TraceProgress, TracerouteQueryResult,
};

const LOCAL: IpAddress = IpAddress::V4(0x7f00_0001);

#[test]
fn icmp_plan_over_a_30_network() {
    let hosts = parse_ip_range(&vec!["192.168.1.0/30".to_string()], &vec![]).unwrap();
    let plan: Vec<Destination> = hosts.iter().map(|h| Destination::new(*h, vec![])).collect();
    let events = emission_schedule(&plan, ScanType::IcmpPingScan);
    assert_eq!(events, vec![(IpAddress::v4(192, 168, 1, 1), 0), (IpAddress::v4(192, 168, 1, 2), 0)]);
    let mut store = ScanResults::new();
    apply_observation(&mut store, &plan, ScanType::IcmpPingScan, Observation::Host { ip: IpAddress::v4(192, 168, 1, 2), ttl: 64 });
    apply_observation(&mut store, &plan, ScanType::IcmpPingScan, Observation::Host { ip: IpAddress::v4(192, 168, 1, 9), ttl: 64 });
    let r = finish_scan(store, false, 450, 5000);
    assert_eq!(r.get_hosts(), vec![IpAddress::v4(192, 168, 1, 2)]);
    assert_eq!(r.scan_status, ScanStatus::Done);
    assert_eq!(r.scan_time, 450);
}

#[test]
fn connect_plan_with_half_open_ports() {
    let ports = parse_str_ports(&vec!["1-3".to_string()]);
    let plan = vec![Destination::new(LOCAL, ports)];
    assert_eq!(emission_schedule(&plan, ScanType::TcpConnectScan), vec![(LOCAL, 1), (LOCAL, 2)]);
    let store = connect_scan_result(&plan, &vec![(LOCAL, 2), (LOCAL, 3)]);
    assert_eq!(store.result.get_open_ports(LOCAL), vec![2]);
    assert!(store.result.ip_with_port.iter().all(|(_, ps)| ps.iter().all(|p| p.status == PortStatus::Open)));
}

#[test]
fn duplicate_syn_ports_probe_twice_record_once() {
    let plan = vec![Destination::new(LOCAL, vec![80, 80])];
    assert_eq!(emission_schedule(&plan, ScanType::TcpSynScan).len(), 2);
    let mut store = ScanResults::new();
    let obs = Observation::Port { ip: LOCAL, port: 80, status: PortStatus::Open, ttl: 64 };
    apply_observation(&mut store, &plan, ScanType::TcpSynScan, obs);
    apply_observation(&mut store, &plan, ScanType::TcpSynScan, obs);
    apply_observation(&mut store, &plan, ScanType::TcpSynScan, Observation::Port { ip: LOCAL, port: 80, status: PortStatus::Closed, ttl: 64 });
    assert_eq!(store.result.ip_with_port.len(), 1);
    assert_eq!(store.result.ip_with_port[0].1.len(), 1);
    assert_eq!(store.result.ip_with_port[0].1[0].describe, "http");
    assert_eq!(store.result.get_open_ports(LOCAL), vec![80]);
}

#[test]
fn replies_outside_the_plan_are_dropped() {
    let plan = vec![Destination::new(LOCAL, vec![22])];
    let mut store = ScanResults::new();
    apply_observation(&mut store, &plan, ScanType::TcpSynScan, Observation::Port { ip: LOCAL, port: 23, status: PortStatus::Open, ttl: 64 });
    apply_observation(&mut store, &plan, ScanType::TcpSynScan, Observation::Port { ip: IpAddress::V4(9), port: 22, status: PortStatus::Open, ttl: 64 });
    assert!(store.result.ip_with_port.is_empty());
    apply_observation(&mut store, &plan, ScanType::TcpSynScan, Observation::Port { ip: LOCAL, port: 22, status: PortStatus::Closed, ttl: 64 });
    assert_eq!(store.result.ip_with_port[0].1[0].status, PortStatus::Closed);
    assert_eq!(store.result.get_open_ports(LOCAL), Vec::<u16>::new());
}

#[test]
fn tcp_ping_records_the_host_once() {
    let plan = vec![Destination::new(LOCAL, vec![80])];
    let mut store = ScanResults::new();
    apply_observation(&mut store, &plan, ScanType::TcpPingScan, Observation::Port { ip: LOCAL, port: 80, status: PortStatus::Closed, ttl: 50 });
    apply_observation(&mut store, &plan, ScanType::TcpPingScan, Observation::Port { ip: LOCAL, port: 80, status: PortStatus::Open, ttl: 60 });
    assert_eq!(store.result.ips.len(), 1);
    assert_eq!(store.result.ips[0].ttl, 50);
}

#[test]
fn progress_count_is_sum_of_max_one_ports() {
    let plan = vec![
        Destination::new(IpAddress::V4(1), vec![]),
        Destination::new(IpAddress::V4(2), vec![1, 2, 3]),
        Destination::new(IpAddress::V4(3), vec![7]),
    ];
    let mut s = Scanner::new(LOCAL, &vec![InterfaceInfo { index: 2, name: "eth0".to_string(), mac: MacAddr(1, 2, 3, 4, 5, 6), ips: vec![LOCAL] }], MacAddr::zero()).unwrap();
    s.set_destinations(plan.clone());
    assert_eq!(s.len(), 5);
    assert_eq!(emission_schedule(&plan, ScanType::UdpPingScan).len(), 5);
    assert_eq!(emission_schedule(&plan, ScanType::TcpSynScan)[0], (IpAddress::V4(1), 0));
}

#[test]
fn scanner_needs_a_usable_interface() {
    let ifaces = vec![
        InterfaceInfo { index: 1, name: "lo".to_string(), mac: MacAddr::zero(), ips: vec![LOCAL] },
        InterfaceInfo { index: 2, name: "eth0".to_string(), mac: MacAddr(1, 2, 3, 4, 5, 6), ips: vec![IpAddress::V4(5)] },
    ];
    assert!(matches!(Scanner::new(LOCAL, &ifaces, MacAddr::zero()), Err(ScanError::InterfaceNotFound)));
    assert!(matches!(Scanner::new(IpAddress::V4(6), &ifaces, MacAddr::zero()), Err(ScanError::InterfaceNotFound)));
    let s = Scanner::new(IpAddress::V4(5), &ifaces, MacAddr(9, 9, 9, 9, 9, 9)).unwrap();
    assert_eq!(s.if_index, 2);
    assert_eq!(s.if_name, "eth0");
    assert_eq!(s.src_port, 53443);
    assert_eq!(s.dst_mac, MacAddr(9, 9, 9, 9, 9, 9));
    let mut s = s;
    s.set_timeout(5000);
    s.set_wait_time(200);
    s.set_send_rate(3);
    s.set_scan_type(ScanType::TcpSynScan);
    s.add_destination(Destination::new(LOCAL, vec![80]));
    s.add_destination(Destination::new(LOCAL, vec![81]));
    let setting = s.scan_setting(0x4242);
    assert_eq!(setting.icmp_identifier, 0x4242);
    assert_eq!(setting.ip_set, vec![LOCAL]);
    assert_eq!(setting.timeout, 5000);
    assert_eq!(setting.hosts_concurrency, 50);
    assert_eq!(setting.ports_concurrency, 100);
    assert_eq!(s.get_scan_type(), ScanType::TcpSynScan);
}

#[test]
fn scanner_skips_unusable_interfaces_and_starts_ready() {
    let ifaces = vec![
        InterfaceInfo { index: 0, name: "any".to_string(), mac: MacAddr(1, 1, 1, 1, 1, 1), ips: vec![LOCAL] },
        InterfaceInfo { index: 3, name: String::new(), mac: MacAddr(1, 1, 1, 1, 1, 1), ips: vec![LOCAL] },
        InterfaceInfo { index: 4, name: "lo1".to_string(), mac: MacAddr(2, 2, 2, 2, 2, 2), ips: vec![LOCAL] },
    ];
    let s = Scanner::new(LOCAL, &ifaces, MacAddr::zero()).unwrap();
    assert_eq!(s.if_index, 4);
    assert_eq!(s.get_scan_result().scan_status, ScanStatus::Ready);
    assert!(s.get_scan_result().ips.is_empty());
    assert_eq!(s.get_scan_result().scan_time, 0);
    assert!(s.get_destinations().is_empty());
    assert_eq!(s.get_timeout(), 300_000);
}

#[test]
fn status_rules() {
    assert_eq!(final_status(true, 10, 100), ScanStatus::Error);
    assert_eq!(final_status(false, 101, 100), ScanStatus::Timeout);
    assert_eq!(final_status(false, 100, 100), ScanStatus::Done);
}

#[test]
fn route_of_three_hops_stops_at_target() {
    let cfg = Config::new().with_max_hops(30).with_first_ttl(1).with_protocol(Protocol::ICMP);
    let mut route = TraceProgress::new(&cfg, "10.9.9.9".to_string());
    let routers = ["192.168.0.1", "10.0.0.1", "10.9.9.9"];
    let mut hops = vec![];
    while route.has_next() {
        let mut qs = vec![];
        for rtt in [900u64, 1500, 1200] {
            let addr = vec![routers[hops.len()].to_string()];
            add_query_result(&mut qs, TracerouteQueryResult { rtt, addr });
        }
        assert_eq!(qs.len(), 1);
        hops.push(route.finish_hop(qs));
        assert!(hops.len() <= 3);
    }
    assert_eq!(hops.len(), 3);
    assert_eq!(hops[2].ttl, 3);
    assert!(hops[2].query_result[0].addr.contains(&"10.9.9.9".to_string()));
}

#[test]
fn route_stops_at_max_hops() {
    let cfg = Config::new().with_max_hops(2);
    let mut route = TraceProgress::new(&cfg, "10.9.9.9".to_string());
    let mut n = 0;
    while route.has_next() {
        route.finish_hop(vec![TracerouteQueryResult { rtt: 0, addr: vec![] }]);
        n += 1;
    }
    assert_eq!(n, 2);
}

#[test]
fn unanswered_queries_are_all_kept_and_rtt_is_max() {
    let mut qs = vec![];
    add_query_result(&mut qs, TracerouteQueryResult { rtt: 5, addr: vec![] });
    add_query_result(&mut qs, TracerouteQueryResult { rtt: 9, addr: vec![] });
    add_query_result(&mut qs, TracerouteQueryResult { rtt: 7, addr: vec!["a".to_string()] });
    add_query_result(&mut qs, TracerouteQueryResult { rtt: 8, addr: vec!["a".to_string()] });
    assert_eq!(qs.len(), 3);
    let mut route = TraceProgress::new(&Config::new(), "z".to_string());
    let hop = route.finish_hop(qs);
    let s = summarize_hop(&hop);
    assert_eq!(s.id, 1);
    assert_eq!(s.rtt, 9);
    assert_eq!(s.addr.len(), 3);
}

#[test]
fn query_ports_move_except_for_tcp() {
    assert_eq!(next_query_port(Protocol::UDP, 33434, 2), 33436);
    assert_eq!(next_query_port(Protocol::ICMP, 65535, 1), 0);
    assert_eq!(next_query_port(Protocol::TCP, 80, 5), 80);
}

#[test]
fn interface_types_and_masks() {
    assert_eq!(InterfaceType::Ethernet.value(), 1);
    assert_eq!(InterfaceType::Loopback.value(), 772);
    assert_eq!(InterfaceType::Wman.value(), u32::MAX);
    assert_eq!(InterfaceType::Wireless80211.name(), "Wireless IEEE 802.11");
    assert_eq!(InterfaceType::from_value(801), Some(InterfaceType::Wireless80211));
    assert_eq!(InterfaceType::from_value(3), None);
    assert_eq!(prefix_to_ipv4_netmask(24), 0xffff_ff00);
    assert_eq!(prefix_to_ipv4_netmask(0), 0);
    assert_eq!(prefix_to_ipv4_netmask(32), 0xffff_ffff);
    assert_eq!(ipv4_netmask_to_prefix(0xffff_f000), 20);
    assert_eq!(ipv4_netmask_to_prefix(0xff00_ff00), 0);
    assert_eq!(get_default_gateway_macaddr(None), [0; 6]);
    let g = Gateway { mac_addr: MacAddr(1, 2, 3, 4, 5, 6), ..Gateway::new() };
    assert_eq!(get_default_gateway_macaddr(Some(g)), [1, 2, 3, 4, 5, 6]);
}

#[test]
fn fresh_records_are_empty() {
    assert!(!IcmpEchoResult::new().icmp_echo_reply);
    assert!(!TcpSynAckResult::new().syn_ack_response);
    assert!(!TcpRstAckResult::new().rst_ack_response);
    assert!(!TcpEcnResult::new().syn_ack_ece_response);
    assert_eq!(service_name(22), "ssh");
    assert_eq!(service_name(9), "unknown");
}

#[test]
fn cursor_hands_out_schedule_until_stopped() {
    let mut c = SendCursor::new(vec![(LOCAL, 1), (LOCAL, 2), (LOCAL, 3)]);
    assert_eq!(c.step(false, true, 10, 100), Some((LOCAL, 1)));
    assert_eq!(c.step(false, true, 101, 100), None);
    assert_eq!(c.step(false, false, 101, 100), Some((LOCAL, 2)));
    assert_eq!(c.step(true, false, 0, 100), None);
    assert_eq!(c.step(false, false, 0, 100), Some((LOCAL, 3)));
    assert_eq!(c.step(false, false, 0, 100), None);
}

#[test]
fn dns_outcomes() {
    let r = dns_result("1.1.1.1".to_string(), Some(IpAddress::v4(1, 1, 1, 1)), Ok("one.one.one.one".to_string()), Err(String::new()));
    assert!(matches!(r.result, DnsResultType::Host(ref h) if h == "one.one.one.one"));
    let r = dns_result("a.example".to_string(), None, Err(String::new()), Ok(vec![LOCAL]));
    assert!(matches!(r.result, DnsResultType::Addr(ref a) if a == &vec![LOCAL]));
    let r = dns_result("b.example".to_string(), None, Err(String::new()), Err("no such host".to_string()));
    assert!(matches!(r.result, DnsResultType::Error(ref e) if e == "no such host"));
    assert_eq!(r.src, "b.example");
}

#[test]
fn tracert_counts_targets() {
    let t = e_libscanner::traceroute::Tracert::new(vec!["a".to_string(), "b".to_string()], None);
    assert_eq!(t.len(), 2);
}
