use vstd::prelude::*;
use crate::addr::{pow2, IpAddress, MacAddr};

verus! {

/// The link type of a network interface.
#[derive(Clone, Copy, Debug, PartialEq, Eq, Structural)]
pub enum InterfaceType {
    Unknown,
    Ethernet,
    TokenRing,
    Fddi,
    BasicIsdn,
    PrimaryIsdn,
    Ppp,
    Loopback,
    Ethernet3Megabit,
    Slip,
    Atm,
    GenericModem,
    FastEthernetT,
    Isdn,
    FastEthernetFx,
    Wireless80211,
    AsymmetricDsl,
    RateAdaptDsl,
    SymmetricDsl,
    VeryHighSpeedDsl,
    IPOverAtm,
    GigabitEthernet,
    Tunnel,
    MultiRateSymmetricDsl,
    HighPerformanceSerialBus,
    Wman,
    Wwanpp,
    Wwanpp2,
}

/// The Linux ARP hardware type of an interface type; `u32::MAX` for types Linux
/// does not name.
pub open spec fn type_value(t: InterfaceType) -> u32 {
    match t {
        InterfaceType::Unknown => u32::MAX,
        InterfaceType::Ethernet => 1,
        InterfaceType::TokenRing => 4,
        InterfaceType::Fddi => 774,
        InterfaceType::BasicIsdn => u32::MAX,
        InterfaceType::PrimaryIsdn => u32::MAX,
        InterfaceType::Ppp => 512,
        InterfaceType::Loopback => 772,
        InterfaceType::Ethernet3Megabit => 2,
        InterfaceType::Slip => 256,
        InterfaceType::Atm => 19,
        InterfaceType::GenericModem => u32::MAX,
        InterfaceType::FastEthernetT => u32::MAX,
        InterfaceType::Isdn => u32::MAX,
        InterfaceType::FastEthernetFx => u32::MAX,
        InterfaceType::Wireless80211 => 801,
        InterfaceType::AsymmetricDsl => u32::MAX,
        InterfaceType::RateAdaptDsl => u32::MAX,
        InterfaceType::SymmetricDsl => u32::MAX,
        InterfaceType::VeryHighSpeedDsl => u32::MAX,
        InterfaceType::IPOverAtm => u32::MAX,
        InterfaceType::GigabitEthernet => u32::MAX,
        InterfaceType::Tunnel => 768,
        InterfaceType::MultiRateSymmetricDsl => u32::MAX,
        InterfaceType::HighPerformanceSerialBus => u32::MAX,
        InterfaceType::Wman => u32::MAX,
        InterfaceType::Wwanpp => u32::MAX,
        InterfaceType::Wwanpp2 => u32::MAX,
    }
}

/// The display name of an interface type.
pub open spec fn interface_type_label(t: InterfaceType) -> Seq<char> {
    match t {
        InterfaceType::Unknown => "Unknown"@,
        InterfaceType::Ethernet => "Ethernet"@,
        InterfaceType::TokenRing => "Token Ring"@,
        InterfaceType::Fddi => "FDDI"@,
        InterfaceType::BasicIsdn => "Basic ISDN"@,
        InterfaceType::PrimaryIsdn => "Primary ISDN"@,
        InterfaceType::Ppp => "PPP"@,
        InterfaceType::Loopback => "Loopback"@,
        InterfaceType::Ethernet3Megabit => "Ethernet 3 megabit"@,
        InterfaceType::Slip => "SLIP"@,
        InterfaceType::Atm => "ATM"@,
        InterfaceType::GenericModem => "Generic Modem"@,
        InterfaceType::FastEthernetT => "Fast Ethernet T"@,
        InterfaceType::Isdn => "ISDN"@,
        InterfaceType::FastEthernetFx => "Fast Ethernet FX"@,
        InterfaceType::Wireless80211 => "Wireless IEEE 802.11"@,
        InterfaceType::AsymmetricDsl => "Asymmetric DSL"@,
        InterfaceType::RateAdaptDsl => "Rate Adaptive DSL"@,
        InterfaceType::SymmetricDsl => "Symmetric DSL"@,
        InterfaceType::VeryHighSpeedDsl => "Very High Data Rate DSL"@,
        InterfaceType::IPOverAtm => "IP over ATM"@,
        InterfaceType::GigabitEthernet => "Gigabit Ethernet"@,
        InterfaceType::Tunnel => "Tunnel"@,
        InterfaceType::MultiRateSymmetricDsl => "Multi-Rate Symmetric DSL"@,
        InterfaceType::HighPerformanceSerialBus => "High Performance Serial Bus"@,
        InterfaceType::Wman => "WMAN"@,
        InterfaceType::Wwanpp => "WWANPP"@,
        InterfaceType::Wwanpp2 => "WWANPP2"@,
    }
}

impl InterfaceType {
    /// The Linux ARP hardware type of this interface type.
    pub fn value(&self) -> (r: u32)
        ensures
            r == type_value(*self),
    {
        match self {
            InterfaceType::Unknown => u32::MAX,
            InterfaceType::Ethernet => 1,
            InterfaceType::TokenRing => 4,
            InterfaceType::Fddi => 774,
            InterfaceType::BasicIsdn => u32::MAX,
            InterfaceType::PrimaryIsdn => u32::MAX,
            InterfaceType::Ppp => 512,
            InterfaceType::Loopback => 772,
            InterfaceType::Ethernet3Megabit => 2,
            InterfaceType::Slip => 256,
            InterfaceType::Atm => 19,
            InterfaceType::GenericModem => u32::MAX,
            InterfaceType::FastEthernetT => u32::MAX,
            InterfaceType::Isdn => u32::MAX,
            InterfaceType::FastEthernetFx => u32::MAX,
            InterfaceType::Wireless80211 => 801,
            InterfaceType::AsymmetricDsl => u32::MAX,
            InterfaceType::RateAdaptDsl => u32::MAX,
            InterfaceType::SymmetricDsl => u32::MAX,
            InterfaceType::VeryHighSpeedDsl => u32::MAX,
            InterfaceType::IPOverAtm => u32::MAX,
            InterfaceType::GigabitEthernet => u32::MAX,
            InterfaceType::Tunnel => 768,
            InterfaceType::MultiRateSymmetricDsl => u32::MAX,
            InterfaceType::HighPerformanceSerialBus => u32::MAX,
            InterfaceType::Wman => u32::MAX,
            InterfaceType::Wwanpp => u32::MAX,
            InterfaceType::Wwanpp2 => u32::MAX,
        }
    }

    /// The display name of this interface type.
    pub fn name(&self) -> (r: String)
        ensures
            r@ == interface_type_label(*self),
    {
        let s: &str = match self {
            InterfaceType::Unknown => "Unknown",
            InterfaceType::Ethernet => "Ethernet",
            InterfaceType::TokenRing => "Token Ring",
            InterfaceType::Fddi => "FDDI",
            InterfaceType::BasicIsdn => "Basic ISDN",
            InterfaceType::PrimaryIsdn => "Primary ISDN",
            InterfaceType::Ppp => "PPP",
            InterfaceType::Loopback => "Loopback",
            InterfaceType::Ethernet3Megabit => "Ethernet 3 megabit",
            InterfaceType::Slip => "SLIP",
            InterfaceType::Atm => "ATM",
            InterfaceType::GenericModem => "Generic Modem",
            InterfaceType::FastEthernetT => "Fast Ethernet T",
            InterfaceType::Isdn => "ISDN",
            InterfaceType::FastEthernetFx => "Fast Ethernet FX",
            InterfaceType::Wireless80211 => "Wireless IEEE 802.11",
            InterfaceType::AsymmetricDsl => "Asymmetric DSL",
            InterfaceType::RateAdaptDsl => "Rate Adaptive DSL",
            InterfaceType::SymmetricDsl => "Symmetric DSL",
            InterfaceType::VeryHighSpeedDsl => "Very High Data Rate DSL",
            InterfaceType::IPOverAtm => "IP over ATM",
            InterfaceType::GigabitEthernet => "Gigabit Ethernet",
            InterfaceType::Tunnel => "Tunnel",
            InterfaceType::MultiRateSymmetricDsl => "Multi-Rate Symmetric DSL",
            InterfaceType::HighPerformanceSerialBus => "High Performance Serial Bus",
            InterfaceType::Wman => "WMAN",
            InterfaceType::Wwanpp => "WWANPP",
            InterfaceType::Wwanpp2 => "WWANPP2",
        };
        s.to_owned()
    }

    /// The interface type with Linux ARP hardware type `v`, if any.
    pub fn from_value(v: u32) -> (r: Option<InterfaceType>)
        ensures
            match r {
                Some(t) => type_value(t) == v && v != u32::MAX,
                None => v == u32::MAX || forall|t: InterfaceType| type_value(t) != v,
            },
    {
        if v == 1 {
            Some(InterfaceType::Ethernet)
        } else if v == 4 {
            Some(InterfaceType::TokenRing)
        } else if v == 774 {
            Some(InterfaceType::Fddi)
        } else if v == 512 {
            Some(InterfaceType::Ppp)
        } else if v == 772 {
            Some(InterfaceType::Loopback)
        } else if v == 2 {
            Some(InterfaceType::Ethernet3Megabit)
        } else if v == 256 {
            Some(InterfaceType::Slip)
        } else if v == 19 {
            Some(InterfaceType::Atm)
        } else if v == 801 {
            Some(InterfaceType::Wireless80211)
        } else if v == 768 {
            Some(InterfaceType::Tunnel)
        } else {
            None
        }
    }
}

/// The default gateway: its MAC and IP address.
#[derive(Clone, Copy, Debug, PartialEq, Eq, Structural)]
pub struct Gateway {
    pub mac_addr: MacAddr,
    pub ip_addr: IpAddress,
}

impl Gateway {
    /// The unknown gateway: zero MAC, unspecified address.
    pub fn new() -> (r: Gateway)
        ensures
            r == (Gateway { mac_addr: MacAddr(0, 0, 0, 0, 0, 0), ip_addr: IpAddress::V4(0) }),
    {
        Gateway { mac_addr: MacAddr(0, 0, 0, 0, 0, 0), ip_addr: IpAddress::V4(0) }
    }
}

/// The MAC address probes are sent to: the gateway's when it is known, else the zero
/// address, with which the operating system supplies the link layer.
pub fn get_default_gateway_macaddr(gateway: Option<Gateway>) -> (r: [u8; 6])
    ensures
        r@ == match gateway {
            Some(g) => seq![g.mac_addr.0, g.mac_addr.1, g.mac_addr.2, g.mac_addr.3, g.mac_addr.4, g.mac_addr.5],
            None => seq![0u8, 0u8, 0u8, 0u8, 0u8, 0u8],
        },
{
    match gateway {
        Some(g) => g.mac_addr.octets(),
        None => MacAddr::zero().octets(),
    }
}

/// The IPv4 netmask of a prefix length: its first `prefix` bits set.
pub open spec fn ipv4_mask_of(prefix: nat) -> int {
    if prefix == 0 {
        0
    } else if prefix >= 32 {
        0xffffffff
    } else {
        0x100000000 - pow2((32 - prefix) as nat)
    }
}

pub proof fn lemma_pow2_step(n: nat)
    ensures
        pow2(n + 1) == 2 * pow2(n),
        pow2(n) >= 1,
    decreases n,
{
    assert(((n + 1) as nat - 1) as nat == n);
    if n > 0 {
        lemma_pow2_step((n - 1) as nat);
    }
}

pub proof fn lemma_pow2_less(a: nat, b: nat)
    requires
        a < b,
    ensures
        pow2(a) < pow2(b),
    decreases b - a,
{
    lemma_pow2_step(a);
    if a + 1 < b {
        lemma_pow2_less(a + 1, b);
    }
}

pub proof fn lemma_pow2_bounds(n: nat)
    requires
        n <= 32,
    ensures
        1 <= pow2(n) <= 0x100000000,
        n < 32 ==> pow2(n) <= 0x80000000,
        pow2(n + 1) == 2 * pow2(n),
{
    lemma_pow2_step(n);
    reveal_with_fuel(pow2, 33);
    assert(pow2(31) == 0x80000000);
    assert(pow2(32) == 0x100000000);
    if n < 31 {
        lemma_pow2_less(n, 31);
    } else if n == 32 {
    }
}

/// The netmask of a prefix length.
pub fn prefix_to_ipv4_netmask(prefix_len: u8) -> (r: u32)
    ensures
        r == ipv4_mask_of(prefix_len as nat),
{
    if prefix_len == 0 {
        return 0;
    }
    if prefix_len >= 32 {
        return 0xffffffff;
    }
    let mut size: u64 = 1;
    let mut i: u8 = 0;
    let n: u8 = 32 - prefix_len;
    while i < n
        invariant
            i <= n < 32,
            size == pow2(i as nat),
        decreases n - i,
    {
        proof {
            lemma_pow2_bounds(i as nat);
        }
        size = size * 2;
        i = i + 1;
    }
    proof {
        lemma_pow2_bounds(n as nat);
    }
    (0x100000000u64 - size) as u32
}

/// The prefix length of a netmask: the `p` whose mask it is, zero if none.
pub open spec fn ipv4_prefix_of(mask: u32) -> nat {
    if exists|p: nat| p <= 32 && ipv4_mask_of(p) == mask {
        choose|p: nat| p <= 32 && ipv4_mask_of(p) == mask
    } else {
        0
    }
}

proof fn lemma_mask_injective(p: nat, q: nat)
    requires
        p <= 32,
        q <= 32,
        ipv4_mask_of(p) == ipv4_mask_of(q),
    ensures
        p == q,
{
    if p != q {
        lemma_pow2_bounds((32 - p) as nat);
        lemma_pow2_bounds((32 - q) as nat);
        if p < q {
            lemma_pow2_less((32 - q) as nat, (32 - p) as nat);
        } else {
            lemma_pow2_less((32 - p) as nat, (32 - q) as nat);
        }
    }
}

/// The prefix length of a netmask; zero when the mask is not a run of leading ones.
pub fn ipv4_netmask_to_prefix(netmask: u32) -> (r: u8)
    ensures
        r == ipv4_prefix_of(netmask),
{
    let mut p: u8 = 0;
    while p <= 32
        invariant
            p <= 33,
            forall|q: nat| q < p ==> ipv4_mask_of(q) != netmask,
        decreases 33 - p,
    {
        if prefix_to_ipv4_netmask(p) == netmask {
            proof {
                assert(exists|q: nat| q <= 32 && ipv4_mask_of(q) == netmask) by {
                    assert(ipv4_mask_of(p as nat) == netmask);
                }
                let c = choose|q: nat| q <= 32 && ipv4_mask_of(q) == netmask;
                lemma_mask_injective(c, p as nat);
            }
            return p;
        }
        p = p + 1;
    }
    0
}

/// An IPv4 network of an interface.
#[derive(Clone, Copy, Debug, PartialEq, Eq, Structural)]
pub struct Ipv4Net {
    pub addr: u32,
    pub prefix_len: u8,
    pub netmask: u32,
}

impl Ipv4Net {
    pub fn new(ipv4_addr: u32, prefix_len: u8) -> (r: Ipv4Net)
        ensures
            r.addr == ipv4_addr,
            r.prefix_len == prefix_len,
            r.netmask == ipv4_mask_of(prefix_len as nat),
    {
        Ipv4Net { addr: ipv4_addr, prefix_len, netmask: prefix_to_ipv4_netmask(prefix_len) }
    }

    pub fn new_with_netmask(ipv4_addr: u32, netmask: u32) -> (r: Ipv4Net)
        ensures
            r.addr == ipv4_addr,
            r.prefix_len == ipv4_prefix_of(netmask),
            r.netmask == netmask,
    {
        Ipv4Net { addr: ipv4_addr, prefix_len: ipv4_netmask_to_prefix(netmask), netmask }
    }
}

} // verus!
