use vstd::prelude::*;
use vstd::string::StringExecFns;
use crate::text::{split_bounds, split_on};

verus! {

/// An IP address: IPv4 as its 32-bit value, IPv6 as its 128-bit value.
#[derive(Clone, Copy, Debug, PartialEq, Eq, Structural, Hash)]
pub enum IpAddress {
    V4(u32),
    V6(u128),
}

impl IpAddress {
    /// The IPv4 address `a.b.c.d`.
    pub fn v4(a: u8, b: u8, c: u8, d: u8) -> (r: IpAddress)
        ensures
            r == IpAddress::V4((a * 0x1000000 + b * 0x10000 + c * 0x100 + d) as u32),
    {
        IpAddress::V4((a as u32) * 0x1000000 + (b as u32) * 0x10000 + (c as u32) * 0x100 + d as u32)
    }

    /// The unspecified address `0.0.0.0`.
    pub fn unspecified() -> (r: IpAddress)
        ensures
            r == IpAddress::V4(0),
    {
        IpAddress::V4(0)
    }
}

/// A MAC address, octet by octet.
#[derive(Clone, Copy, Debug, PartialEq, Eq, Structural)]
pub struct MacAddr(pub u8, pub u8, pub u8, pub u8, pub u8, pub u8);

/// The lowercase hexadecimal digit for `n < 16`.
pub open spec fn hex_char(n: int) -> char {
    if n < 10 {
        (('0' as int) + n) as char
    } else {
        (('a' as int) + n - 10) as char
    }
}

/// The value of a hexadecimal digit character, either case.
pub open spec fn hex_digit_value(c: char) -> Option<int> {
    if '0' <= c <= '9' {
        Some(c as int - '0' as int)
    } else if 'a' <= c <= 'f' {
        Some(c as int - 'a' as int + 10)
    } else if 'A' <= c <= 'F' {
        Some(c as int - 'A' as int + 10)
    } else {
        None
    }
}

/// The value of one or two hexadecimal digits.
pub open spec fn hex_octet(s: Seq<char>) -> Option<u8> {
    if s.len() == 1 {
        match hex_digit_value(s[0]) {
            Some(v) => Some(v as u8),
            None => None,
        }
    } else if s.len() == 2 {
        match (hex_digit_value(s[0]), hex_digit_value(s[1])) {
            (Some(a), Some(b)) => Some((a * 16 + b) as u8),
            _ => None,
        }
    } else {
        None
    }
}

/// Two lowercase hexadecimal digits for `b`.
pub open spec fn hex2(b: u8) -> Seq<char> {
    seq![hex_char(b as int / 16), hex_char(b as int % 16)]
}

/// `aa:bb:cc:dd:ee:ff`, in lowercase hexadecimal.
pub open spec fn mac_text(m: MacAddr) -> Seq<char> {
    hex2(m.0) + ":"@ + hex2(m.1) + ":"@ + hex2(m.2) + ":"@ + hex2(m.3) + ":"@ + hex2(m.4) + ":"@ + hex2(m.5)
}

/// The octet that the `i`-th field of `fields` spells, zero if it spells none.
pub open spec fn field_octet(fields: Seq<Seq<char>>, i: int) -> u8 {
    match hex_octet(fields[i]) {
        Some(v) => v,
        None => 0,
    }
}

/// The MAC address written as `aa:bb:cc:dd:ee:ff` in `s`; the zero address when `s`
/// is not 17 characters long or holds fewer than six fields. A field that is not one
/// or two hexadecimal digits reads as zero.
pub open spec fn mac_from_text(s: Seq<char>) -> MacAddr {
    let fields = split_on(s, ':');
    if s.len() != 17 || fields.len() < 6 {
        MacAddr(0, 0, 0, 0, 0, 0)
    } else {
        MacAddr(
            field_octet(fields, 0),
            field_octet(fields, 1),
            field_octet(fields, 2),
            field_octet(fields, 3),
            field_octet(fields, 4),
            field_octet(fields, 5),
        )
    }
}

fn hex_digit_str(n: u8) -> (r: &'static str)
    requires
        n < 16,
    ensures
        r@ == seq![hex_char(n as int)],
{
    proof {
        reveal_strlit("0"); reveal_strlit("1"); reveal_strlit("2"); reveal_strlit("3");
        reveal_strlit("4"); reveal_strlit("5"); reveal_strlit("6"); reveal_strlit("7");
        reveal_strlit("8"); reveal_strlit("9"); reveal_strlit("a"); reveal_strlit("b");
        reveal_strlit("c"); reveal_strlit("d"); reveal_strlit("e"); reveal_strlit("f");
    }
    let r = if n == 0 { "0" } else if n == 1 { "1" } else if n == 2 { "2" } else if n == 3 { "3" }
        else if n == 4 { "4" } else if n == 5 { "5" } else if n == 6 { "6" } else if n == 7 { "7" }
        else if n == 8 { "8" } else if n == 9 { "9" } else if n == 10 { "a" } else if n == 11 { "b" }
        else if n == 12 { "c" } else if n == 13 { "d" } else if n == 14 { "e" } else { "f" };
    assert(r@ =~= seq![hex_char(n as int)]);
    r
}

fn push_hex2(out: &mut String, b: u8)
    ensures
        final(out)@ == old(out)@ + hex2(b),
{
    out.append(hex_digit_str(b / 16));
    out.append(hex_digit_str(b % 16));
    assert(final(out)@ =~= old(out)@ + hex2(b));
}

fn hex_digit_of(c: char) -> (r: Option<u8>)
    ensures
        match hex_digit_value(c) {
            Some(v) => r == Some(v as u8),
            None => r is None,
        },
{
    if '0' <= c && c <= '9' {
        Some(((c as u32) - ('0' as u32)) as u8)
    } else if 'a' <= c && c <= 'f' {
        Some(((c as u32) - ('a' as u32) + 10) as u8)
    } else if 'A' <= c && c <= 'F' {
        Some(((c as u32) - ('A' as u32) + 10) as u8)
    } else {
        None
    }
}

fn parse_hex_octet(s: &Vec<char>, lo: usize, hi: usize) -> (r: u8)
    requires
        lo <= hi <= s@.len(),
    ensures
        r == match hex_octet(s@.subrange(lo as int, hi as int)) {
            Some(v) => v,
            None => 0u8,
        },
{
    let ghost t = s@.subrange(lo as int, hi as int);
    if hi - lo == 1 {
        assert(t[0] == s@[lo as int]);
        match hex_digit_of(s[lo]) {
            Some(v) => v,
            None => 0,
        }
    } else if hi - lo == 2 {
        assert(t[0] == s@[lo as int]);
        assert(t[1] == s@[lo + 1]);
        match (hex_digit_of(s[lo]), hex_digit_of(s[lo + 1])) {
            (Some(a), Some(b)) => a * 16 + b,
            _ => 0,
        }
    } else {
        0
    }
}

impl MacAddr {
    pub fn new(octets: [u8; 6]) -> (r: MacAddr)
        ensures
            r == MacAddr(octets@[0], octets@[1], octets@[2], octets@[3], octets@[4], octets@[5]),
    {
        MacAddr(octets[0], octets[1], octets[2], octets[3], octets[4], octets[5])
    }

    pub fn octets(&self) -> (r: [u8; 6])
        ensures
            r@ == seq![self.0, self.1, self.2, self.3, self.4, self.5],
    {
        let r = [self.0, self.1, self.2, self.3, self.4, self.5];
        assert(r@ =~= seq![self.0, self.1, self.2, self.3, self.4, self.5]);
        r
    }

    pub fn zero() -> (r: MacAddr)
        ensures
            r == MacAddr(0, 0, 0, 0, 0, 0),
    {
        MacAddr(0, 0, 0, 0, 0, 0)
    }

    /// The address as `aa:bb:cc:dd:ee:ff`.
    pub fn address(&self) -> (r: String)
        ensures
            r@ == mac_text(*self),
    {
        proof {
            reveal_strlit(":");
        }
        let mut out = String::new();
        push_hex2(&mut out, self.0);
        out.append(":");
        push_hex2(&mut out, self.1);
        out.append(":");
        push_hex2(&mut out, self.2);
        out.append(":");
        push_hex2(&mut out, self.3);
        out.append(":");
        push_hex2(&mut out, self.4);
        out.append(":");
        push_hex2(&mut out, self.5);
        assert(out@ =~= mac_text(*self));
        out
    }

    /// Reads `aa:bb:cc:dd:ee:ff`; see `mac_from_text`.
    pub fn from_hex_format(hex_mac_addr: &str) -> (r: MacAddr)
        ensures
            r == mac_from_text(hex_mac_addr@),
    {
        let cs = crate::text::chars_of(hex_mac_addr);
        let b = split_bounds(&cs, ':');
        if cs.len() != 17 || b.len() < 6 {
            return MacAddr(0, 0, 0, 0, 0, 0);
        }
        assert(crate::text::bounds_in(b@[0], cs@.len()));
        assert(crate::text::bounds_in(b@[1], cs@.len()));
        assert(crate::text::bounds_in(b@[2], cs@.len()));
        assert(crate::text::bounds_in(b@[3], cs@.len()));
        assert(crate::text::bounds_in(b@[4], cs@.len()));
        assert(crate::text::bounds_in(b@[5], cs@.len()));
        MacAddr(
            parse_hex_octet(&cs, b[0].0, b[0].1),
            parse_hex_octet(&cs, b[1].0, b[1].1),
            parse_hex_octet(&cs, b[2].0, b[2].1),
            parse_hex_octet(&cs, b[3].0, b[3].1),
            parse_hex_octet(&cs, b[4].0, b[4].1),
            parse_hex_octet(&cs, b[5].0, b[5].1),
        )
    }
}

/// A network in CIDR notation: an address and a prefix length.
#[derive(Clone, Copy, Debug, PartialEq, Eq, Structural)]
pub enum CidrBlock {
    V4 { addr: u32, prefix: u8 },
    V6 { addr: u128, prefix: u8 },
}

pub open spec fn pow2(n: nat) -> nat
    decreases n,
{
    if n == 0 {
        1
    } else {
        2 * pow2((n - 1) as nat)
    }
}

/// The first address of the network `addr/prefix`.
pub open spec fn network_start(addr: int, bits: nat, prefix: nat) -> int {
    addr - addr % (pow2((bits - prefix) as nat) as int)
}

/// The IPv4 host addresses of `addr/prefix`, in increasing order: every address of
/// the network, without the network and broadcast addresses when the prefix is
/// shorter than 31.
pub open spec fn ipv4_host_seq(addr: u32, prefix: u8) -> Seq<u32> {
    let size = pow2((32 - prefix) as nat) as int;
    let first = network_start(addr as int, 32, prefix as nat);
    if prefix < 31 {
        Seq::new((size - 2) as nat, |i: int| (first + 1 + i) as u32)
    } else {
        Seq::new(size as nat, |i: int| (first + i) as u32)
    }
}

/// Every IPv6 address of the network `addr/prefix`, in increasing order.
pub open spec fn ipv6_host_seq(addr: u128, prefix: u8) -> Seq<u128> {
    let size = pow2((128 - prefix) as nat) as int;
    let first = network_start(addr as int, 128, prefix as nat);
    Seq::new(size as nat, |i: int| (first + i) as u128)
}

/// What ipnet reads from a string in CIDR notation.
pub uninterp spec fn cidr_of(s: Seq<char>) -> Option<CidrBlock>;

/// What ipnet reads as the address of an IPv6 network written with prefix length 128.
pub uninterp spec fn ipv6_literal_of(s: Seq<char>) -> Option<u128>;

/// Relies on ipnet's `FromStr for IpNet`: reads `address/prefix`, and refuses a
/// prefix longer than the address.
#[verifier::external_body]
pub(crate) fn parse_cidr(s: &str) -> (r: Option<CidrBlock>)
    ensures
        r == cidr_of(s@),
        r matches Some(CidrBlock::V4 { prefix, .. }) ==> prefix <= 32,
        r matches Some(CidrBlock::V6 { prefix, .. }) ==> prefix <= 128,
{
    match s.parse::<ipnet::IpNet>() {
        Ok(ipnet::IpNet::V4(n)) => Some(CidrBlock::V4 { addr: u32::from(n.addr()), prefix: n.prefix_len() }),
        Ok(ipnet::IpNet::V6(n)) => Some(CidrBlock::V6 { addr: u128::from(n.addr()), prefix: n.prefix_len() }),
        Err(_) => None,
    }
}

/// Relies on ipnet's `FromStr for Ipv6Net`: an IPv6 address written alone is the
/// address of the single-address network it names.
#[verifier::external_body]
pub(crate) fn parse_ipv6_literal(s: &str) -> (r: Option<u128>)
    ensures
        r == ipv6_literal_of(s@),
{
    match format!("{}/128", s).parse::<ipnet::Ipv6Net>() {
        Ok(n) => Some(u128::from(n.addr())),
        Err(_) => None,
    }
}

/// Relies on ipnet's `Ipv4Net::hosts`: the range from the network address to the
/// broadcast address, both excluded when the prefix is shorter than 31.
#[verifier::external_body]
pub(crate) fn ipv4_hosts(addr: u32, prefix: u8) -> (r: Vec<u32>)
    requires
        prefix <= 32,
    ensures
        r@ == ipv4_host_seq(addr, prefix),
{
    ipnet::Ipv4Net::new_assert(addr.into(), prefix).hosts().map(u32::from).collect()
}

/// Relies on ipnet's `Ipv6Net::hosts`: the range from the network address to the
/// last address of the network.
#[verifier::external_body]
pub(crate) fn ipv6_hosts(addr: u128, prefix: u8) -> (r: Vec<u128>)
    requires
        96 <= prefix <= 128,
    ensures
        r@ == ipv6_host_seq(addr, prefix),
{
    ipnet::Ipv6Net::new_assert(addr.into(), prefix).hosts().map(u128::from).collect()
}

} // verus!
