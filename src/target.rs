use vstd::prelude::*;
use crate::addr::{
    cidr_of, ipv4_host_seq, pow2, ipv4_hosts, ipv6_host_seq, ipv6_hosts, ipv6_literal_of, parse_cidr,
    parse_ipv6_literal, CidrBlock, IpAddress,
};
use crate::error::ScanError;
use crate::text::{
    chars_of, contains_char, dec_value, is_digit, find_char, index_of, lemma_split_nonempty, parse_dec,
    split_bounds, split_on,
};

verus! {

/// One octet of a dotted range: `N` stands for `N-N`, `lo-hi` for the inclusive range.
pub open spec fn octet_range(p: Seq<char>) -> Option<(u8, u8)> {
    match find_char(p, '-') {
        Some(k) => match (dec_value(p.subrange(0, k)), dec_value(p.subrange(k + 1, p.len() as int))) {
            (Some(lo), Some(hi)) => if lo <= 255 && hi <= 255 {
                Some((lo as u8, hi as u8))
            } else {
                None
            },
            _ => None,
        },
        None => match dec_value(p) {
            Some(v) => if v <= 255 {
                Some((v as u8, v as u8))
            } else {
                None
            },
            None => None,
        },
    }
}

/// The four octet ranges of `a1-a2.b1-b2.c1-c2.d1-d2`, if `t` is written so.
pub open spec fn dotted_ranges(t: Seq<char>) -> Option<Seq<(u8, u8)>> {
    let parts = split_on(t, '.');
    if parts.len() == 4 && forall|i: int| 0 <= i < 4 ==> (#[trigger] octet_range(parts[i])) is Some {
        Some(Seq::new(4, |i: int| octet_range(parts[i])->Some_0))
    } else {
        None
    }
}

/// The addresses whose octets run through `rs`, after the octets already fixed in
/// `acc`, in lexicographic order: the Cartesian product of the ranges.
pub open spec fn product(rs: Seq<(u8, u8)>, acc: int) -> Seq<IpAddress>
    decreases rs.len(), 300int,
{
    if rs.len() == 0 {
        seq![IpAddress::V4(acc as u32)]
    } else {
        product_from(rs, acc, rs[0].0 as int)
    }
}

/// The part of `product(rs, acc)` whose first octet is at least `v`.
pub open spec fn product_from(rs: Seq<(u8, u8)>, acc: int, v: int) -> Seq<IpAddress>
    decreases rs.len(), 256 - v,
{
    if rs.len() == 0 || v < 0 || v > rs[0].1 {
        Seq::empty()
    } else {
        product(rs.drop_first(), acc * 256 + v) + product_from(rs, acc, v + 1)
    }
}

/// The number of addresses that `product(rs, _)` lists.
pub open spec fn product_len(rs: Seq<(u8, u8)>) -> nat
    decreases rs.len(),
{
    if rs.len() == 0 {
        1
    } else {
        let n = if rs[0].1 >= rs[0].0 { (rs[0].1 - rs[0].0 + 1) as nat } else { 0 };
        n * product_len(rs.drop_first())
    }
}

pub open spec fn pow256(k: nat) -> nat {
    if k == 0 { 1 } else if k == 1 { 256 } else if k == 2 { 0x10000 } else if k == 3 { 0x1000000 } else { 0x100000000 }
}

/// Reads one octet range from `s[lo..hi]`.
pub fn parse_octet_range(s: &Vec<char>, lo: usize, hi: usize) -> (r: Option<(u8, u8)>)
    requires
        lo <= hi <= s@.len(),
    ensures
        r == octet_range(s@.subrange(lo as int, hi as int)),
{
    let ghost p = s@.subrange(lo as int, hi as int);
    match index_of(s, '-', lo, hi) {
        Some(k) => {
            proof {
                crate::text::lemma_find_char_contains(p, '-');
                assert(s@.subrange(lo as int, lo + k) =~= p.subrange(0, k as int));
                assert(s@.subrange(lo + k + 1, hi as int) =~= p.subrange(k + 1, p.len() as int));
            }
            let a = parse_dec(s, lo, lo + k, 255);
            let b = parse_dec(s, lo + k + 1, hi, 255);
            match (a, b) {
                (Some(x), Some(y)) => Some((x as u8, y as u8)),
                _ => None,
            }
        },
        None => match parse_dec(s, lo, hi, 255) {
            Some(v) => Some((v as u8, v as u8)),
            None => None,
        },
    }
}

/// Appends `product(rs[k..], acc)` to `out`.
fn push_product(rs: &Vec<(u8, u8)>, k: usize, acc: u32, out: &mut Vec<IpAddress>)
    requires
        k <= rs@.len() <= 4,
        acc < pow256(k as nat),
    ensures
        final(out)@ == old(out)@ + product(rs@.subrange(k as int, rs@.len() as int), acc as int),
    decreases rs@.len() - k,
{
    let ghost sub = rs@.subrange(k as int, rs@.len() as int);
    if k == rs.len() {
        out.push(IpAddress::V4(acc));
        assert(final(out)@ =~= old(out)@ + product(sub, acc as int));
        return;
    }
    let (lo, hi) = rs[k];
    let ghost rest = rs@.subrange(k + 1, rs@.len() as int);
    assert(sub.drop_first() =~= rest);
    let mut v: u32 = lo as u32;
    while v <= hi as u32
        invariant
            k < rs@.len() <= 4,
            acc < pow256(k as nat),
            sub == rs@.subrange(k as int, rs@.len() as int),
            sub.drop_first() == rest,
            rest == rs@.subrange(k + 1, rs@.len() as int),
            sub[0] == (lo, hi),
            lo <= v <= 256,
            old(out)@ + product(sub, acc as int) == out@ + product_from(sub, acc as int, v as int),
        decreases 257 - v,
    {
        proof {
            assert(acc * 256 + v < pow256((k + 1) as nat)) by (nonlinear_arith)
                requires
                    acc < pow256(k as nat),
                    v <= 255,
                    k < 4,
                    pow256((k + 1) as nat) == pow256(k as nat) * 256,
            ;
        }
        let ghost before = out@;
        push_product(rs, k + 1, acc * 256 + v, out);
        proof {
            assert(product_from(sub, acc as int, v as int) == product(rest, acc * 256 + v)
                + product_from(sub, acc as int, v + 1));
            assert(out@ + product_from(sub, acc as int, v + 1) =~= before + product_from(
                sub,
                acc as int,
                v as int,
            ));
        }
        v = v + 1;
    }
    assert(product_from(sub, acc as int, v as int) =~= Seq::empty());
    assert(out@ =~= out@ + product_from(sub, acc as int, v as int));
}

/// The addresses of a dotted range, in lexicographic order of their octets.
pub fn expand_ranges(rs: &Vec<(u8, u8)>) -> (r: Vec<IpAddress>)
    requires
        rs@.len() == 4,
    ensures
        r@ == product(rs@, 0),
{
    let mut out: Vec<IpAddress> = Vec::new();
    push_product(rs, 0, 0, &mut out);
    assert(rs@.subrange(0, 4) =~= rs@);
    assert(out@ =~= product(rs@, 0));
    out
}

/// Reads a dotted range `a1-a2.b1-b2.c1-c2.d1-d2`.
pub fn parse_dotted_ranges(s: &Vec<char>) -> (r: Option<Vec<(u8, u8)>>)
    ensures
        match dotted_ranges(s@) {
            Some(rs) => r matches Some(v) && v@ == rs,
            None => r is None,
        },
{
    let b = split_bounds(s, '.');
    let ghost parts = split_on(s@, '.');
    if b.len() != 4 {
        return None;
    }
    let mut out: Vec<(u8, u8)> = Vec::new();
    let mut j: usize = 0;
    while j < 4
        invariant
            b@.len() == 4,
            parts == split_on(s@, '.'),
            parts.len() == 4,
            forall|m: int| 0 <= m < 4 ==> crate::text::bounds_in(#[trigger] b@[m], s@.len()),
            forall|m: int|
                0 <= m < 4 ==> parts[m] == s@.subrange(b@[m].0 as int, b@[m].1 as int),
            0 <= j <= 4,
            out@.len() == j,
            forall|m: int| 0 <= m < j ==> octet_range(parts[m]) == Some(#[trigger] out@[m]),
        decreases 4 - j,
    {
        let (lo, hi) = b[j];
        assert(crate::text::bounds_in(b@[j as int], s@.len()));
        match parse_octet_range(s, lo, hi) {
            Some(o) => {
                out.push(o);
            },
            None => {
                assert(octet_range(parts[j as int]) is None);
                return None;
            },
        }
        j = j + 1;
    }
    assert forall|i: int| 0 <= i < 4 implies (#[trigger] octet_range(parts[i])) is Some by {
        assert(octet_range(parts[i]) == Some(out@[i]));
    }
    assert(out@ =~= Seq::new(4, |i: int| octet_range(parts[i])->Some_0));
    Some(out)
}

pub open spec fn is_range_char(c: char) -> bool {
    is_digit(c) || c == '.' || c == '-'
}

/// The addresses that the target expression `t` stands for, given the addresses
/// `resolved` that a name lookup of `t` gave: a CIDR network (its host addresses),
/// an IPv6 literal, a dotted range of IPv4 octets (a plain IPv4 literal among them),
/// or a host name. `None` when `t` is none of these; an IPv6 network of more than
/// 2^32 addresses is refused.
pub open spec fn token_hosts(t: Seq<char>, resolved: Seq<IpAddress>) -> Option<Seq<IpAddress>> {
    if t.contains('/') {
        match cidr_of(t) {
            Some(CidrBlock::V4 { addr, prefix }) => Some(
                ipv4_host_seq(addr, prefix).map_values(|a: u32| IpAddress::V4(a)),
            ),
            Some(CidrBlock::V6 { addr, prefix }) => if prefix >= 96 {
                Some(ipv6_host_seq(addr, prefix).map_values(|a: u128| IpAddress::V6(a)))
            } else {
                None
            },
            None => None,
        }
    } else if t.contains(':') {
        match ipv6_literal_of(t) {
            Some(a) => Some(seq![IpAddress::V6(a)]),
            None => None,
        }
    } else if forall|i: int| 0 <= i < t.len() ==> is_range_char(#[trigger] t[i]) {
        match dotted_ranges(t) {
            Some(rs) => Some(product(rs, 0)),
            None => None,
        }
    } else if resolved.len() > 0 {
        Some(resolved)
    } else {
        None
    }
}

/// The lookup result given for token `i`, empty when none was given.
pub open spec fn resolved_at(resolved: Seq<Seq<IpAddress>>, i: int) -> Seq<IpAddress> {
    if 0 <= i < resolved.len() {
        resolved[i]
    } else {
        Seq::empty()
    }
}

/// The expansion of the first `n` tokens: their addresses in order, or the index of
/// the first token that could not be read.
pub open spec fn expand_upto(
    inputs: Seq<Seq<char>>,
    resolved: Seq<Seq<IpAddress>>,
    n: nat,
) -> Result<Seq<IpAddress>, int>
    decreases n,
{
    if n == 0 {
        Ok(Seq::empty())
    } else {
        match expand_upto(inputs, resolved, (n - 1) as nat) {
            Err(i) => Err(i),
            Ok(s) => match token_hosts(inputs[n - 1], resolved_at(resolved, n - 1)) {
                Some(h) => Ok(s + h),
                None => Err(n - 1),
            },
        }
    }
}

/// The expansion of a list of target expressions.
pub open spec fn expand_targets(inputs: Seq<Seq<char>>, resolved: Seq<Seq<IpAddress>>) -> Result<
    Seq<IpAddress>,
    int,
> {
    expand_upto(inputs, resolved, inputs.len())
}

pub open spec fn strings_view(v: Seq<String>) -> Seq<Seq<char>> {
    v.map_values(|s: String| s@)
}

pub open spec fn lists_view(v: Seq<Vec<IpAddress>>) -> Seq<Seq<IpAddress>> {
    v.map_values(|l: Vec<IpAddress>| l@)
}

fn copy_addrs(v: &Vec<IpAddress>) -> (r: Vec<IpAddress>)
    ensures
        r@ == v@,
{
    let mut r: Vec<IpAddress> = Vec::new();
    let mut i: usize = 0;
    while i < v.len()
        invariant
            0 <= i <= v@.len(),
            r@ == v@.subrange(0, i as int),
        decreases v@.len() - i,
    {
        r.push(v[i]);
        i = i + 1;
        assert(r@ =~= v@.subrange(0, i as int));
    }
    assert(r@ =~= v@);
    r
}

/// The addresses of one target expression, or `None` when it cannot be read.
pub fn expand_token(s: &String, resolved: &Vec<IpAddress>) -> (r: Option<Vec<IpAddress>>)
    ensures
        match token_hosts(s@, resolved@) {
            Some(h) => r matches Some(v) && v@ == h,
            None => r is None,
        },
{
    let t = s.as_str();
    let cs = chars_of(t);
    if contains_char(&cs, '/') {
        match parse_cidr(t) {
            Some(CidrBlock::V4 { addr, prefix }) => {
                let hosts = ipv4_hosts(addr, prefix);
                let mut out: Vec<IpAddress> = Vec::new();
                let mut i: usize = 0;
                while i < hosts.len()
                    invariant
                        0 <= i <= hosts@.len(),
                        out@ == hosts@.subrange(0, i as int).map_values(|a: u32| IpAddress::V4(a)),
                    decreases hosts@.len() - i,
                {
                    out.push(IpAddress::V4(hosts[i]));
                    i = i + 1;
                    assert(out@ =~= hosts@.subrange(0, i as int).map_values(|a: u32| IpAddress::V4(a)));
                }
                assert(hosts@.subrange(0, i as int) =~= hosts@);
                Some(out)
            },
            Some(CidrBlock::V6 { addr, prefix }) => {
                if prefix < 96 {
                    return None;
                }
                let hosts = ipv6_hosts(addr, prefix);
                let mut out: Vec<IpAddress> = Vec::new();
                let mut i: usize = 0;
                while i < hosts.len()
                    invariant
                        0 <= i <= hosts@.len(),
                        out@ == hosts@.subrange(0, i as int).map_values(|a: u128| IpAddress::V6(a)),
                    decreases hosts@.len() - i,
                {
                    out.push(IpAddress::V6(hosts[i]));
                    i = i + 1;
                    assert(out@ =~= hosts@.subrange(0, i as int).map_values(|a: u128| IpAddress::V6(a)));
                }
                assert(hosts@.subrange(0, i as int) =~= hosts@);
                Some(out)
            },
            None => None,
        }
    } else if contains_char(&cs, ':') {
        match parse_ipv6_literal(t) {
            Some(a) => Some(vec![IpAddress::V6(a)]),
            None => None,
        }
    } else {
        let mut all_range = true;
        let mut i: usize = 0;
        while i < cs.len()
            invariant
                0 <= i <= cs@.len(),
                all_range == forall|j: int| 0 <= j < i ==> is_range_char(#[trigger] cs@[j]),
            decreases cs@.len() - i,
        {
            let c = cs[i];
            if !(('0' <= c && c <= '9') || c == '.' || c == '-') {
                all_range = false;
            }
            i = i + 1;
        }
        if all_range {
            match parse_dotted_ranges(&cs) {
                Some(rs) => Some(expand_ranges(&rs)),
                None => None,
            }
        } else if resolved.len() > 0 {
            Some(copy_addrs(resolved))
        } else {
            None
        }
    }
}

/// The address whose octets, after those already in `acc`, are the lower ends of `rs`.
pub open spec fn octets_value(rs: Seq<(u8, u8)>, acc: int) -> int
    decreases rs.len(),
{
    if rs.len() == 0 {
        acc
    } else {
        octets_value(rs.drop_first(), acc * 256 + rs[0].0)
    }
}

/// The IPv4 address that `t` spells in dotted-decimal notation, if it does.
pub open spec fn ipv4_literal(t: Seq<char>) -> Option<u32> {
    if forall|i: int| 0 <= i < t.len() ==> is_digit(#[trigger] t[i]) || t[i] == '.' {
        match dotted_ranges(t) {
            Some(rs) => Some(octets_value(rs, 0) as u32),
            None => None,
        }
    } else {
        None
    }
}

proof fn lemma_product_single(rs: Seq<(u8, u8)>, acc: int)
    requires
        forall|i: int| 0 <= i < rs.len() ==> (#[trigger] rs[i]).0 == rs[i].1,
    ensures
        product(rs, acc) == seq![IpAddress::V4(octets_value(rs, acc) as u32)],
    decreases rs.len(),
{
    if rs.len() > 0 {
        let v = rs[0].0 as int;
        assert forall|i: int| 0 <= i < rs.drop_first().len() implies (#[trigger] rs.drop_first()[i]).0
            == rs.drop_first()[i].1 by {
            assert(rs.drop_first()[i] == rs[i + 1]);
        }
        lemma_product_single(rs.drop_first(), acc * 256 + v);
        assert(product_from(rs, acc, v + 1) == Seq::<IpAddress>::empty());
        assert(product_from(rs, acc, v) == product(rs.drop_first(), acc * 256 + v) + product_from(
            rs,
            acc,
            v + 1,
        ));
        assert(product(rs, acc) =~= seq![IpAddress::V4(octets_value(rs, acc) as u32)]);
    }
}

/// An IPv4 address written as a literal expands to itself alone.
pub proof fn lemma_expand_ipv4_literal(t: Seq<char>, resolved: Seq<Seq<IpAddress>>)
    requires
        ipv4_literal(t) is Some,
    ensures
        expand_targets(seq![t], resolved) == Ok::<Seq<IpAddress>, int>(
            seq![IpAddress::V4(ipv4_literal(t)->Some_0)],
        ),
{
    let rs = dotted_ranges(t)->Some_0;
    let parts = split_on(t, '.');
    assert(!t.contains('/')) by {
        if t.contains('/') {
            let k = choose|k: int| 0 <= k < t.len() && t[k] == '/';
            assert(is_digit(t[k]) || t[k] == '.');
        }
    }
    assert(!t.contains(':')) by {
        if t.contains(':') {
            let k = choose|k: int| 0 <= k < t.len() && t[k] == ':';
            assert(is_digit(t[k]) || t[k] == '.');
        }
    }
    assert forall|i: int| 0 <= i < t.len() implies is_range_char(#[trigger] t[i]) by {
        assert(is_digit(t[i]) || t[i] == '.');
    }
    assert forall|i: int| 0 <= i < rs.len() implies (#[trigger] rs[i]).0 == rs[i].1 by {
        lemma_parts_have_no_dash(t, i);
        crate::text::lemma_find_char_contains(parts[i], '-');
    }
    lemma_product_single(rs, 0);
    assert(seq![t][0] == t);
    assert(expand_upto(seq![t], resolved, 0) == Ok::<Seq<IpAddress>, int>(Seq::empty()));
    assert(Seq::<IpAddress>::empty() + product(rs, 0) =~= product(rs, 0));
}

/// The pieces of a text without `-` contain no `-`.
proof fn lemma_parts_have_no_dash(t: Seq<char>, i: int)
    requires
        forall|k: int| 0 <= k < t.len() ==> is_digit(#[trigger] t[k]) || t[k] == '.',
        0 <= i < split_on(t, '.').len(),
    ensures
        !split_on(t, '.')[i].contains('-'),
    decreases t.len(),
{
    if t.len() > 0 {
        let head = split_on(t.drop_last(), '.');
        crate::text::lemma_split_nonempty(t.drop_last(), '.');
        assert forall|k: int| 0 <= k < t.drop_last().len() implies is_digit(
            #[trigger] t.drop_last()[k],
        ) || t.drop_last()[k] == '.' by {
            assert(t.drop_last()[k] == t[k]);
        }
        assert(is_digit(t[t.len() - 1]) || t[t.len() - 1] == '.');
        if t.last() == '.' {
            if i < head.len() {
                lemma_parts_have_no_dash(t.drop_last(), i);
            }
        } else {
            if i < head.len() - 1 {
                lemma_parts_have_no_dash(t.drop_last(), i);
            } else {
                lemma_parts_have_no_dash(t.drop_last(), head.len() - 1);
                let p = head.last().push(t.last());
                assert(split_on(t, '.')[i] == p);
                if p.contains('-') {
                    let k = choose|k: int| 0 <= k < p.len() && p[k] == '-';
                    if k < p.len() - 1 {
                        assert(head.last()[k] == '-');
                    }
                }
            }
        }
    }
}

/// An IPv6 address written as a literal expands to itself alone.
pub proof fn lemma_expand_ipv6_literal(t: Seq<char>, resolved: Seq<Seq<IpAddress>>)
    requires
        !t.contains('/'),
        t.contains(':'),
        ipv6_literal_of(t) is Some,
    ensures
        expand_targets(seq![t], resolved) == Ok::<Seq<IpAddress>, int>(
            seq![IpAddress::V6(ipv6_literal_of(t)->Some_0)],
        ),
{
    assert(seq![t][0] == t);
    assert(seq![t].len() == 1);
    assert(expand_upto(seq![t], resolved, 0) == Ok::<Seq<IpAddress>, int>(Seq::empty()));
    assert(Seq::<IpAddress>::empty() + seq![IpAddress::V6(ipv6_literal_of(t)->Some_0)] =~= seq![
        IpAddress::V6(ipv6_literal_of(t)->Some_0),
    ]);
}

/// An IPv4 network with a prefix of at most 30 bits expands to `2^(32 - N) - 2`
/// addresses: all of its addresses but the network and broadcast addresses.
pub proof fn lemma_expand_cidr_count(t: Seq<char>, resolved: Seq<Seq<IpAddress>>)
    requires
        t.contains('/'),
        cidr_of(t) matches Some(CidrBlock::V4 { prefix, .. }) && prefix <= 30,
    ensures
        expand_targets(seq![t], resolved) matches Ok(h) && h.len() == pow2(
            (32 - cidr_of(t)->Some_0->V4_prefix) as nat,
        ) - 2,
{
    let prefix = cidr_of(t)->Some_0->V4_prefix;
    lemma_pow2_at_least_4((32 - prefix) as nat);
    assert(seq![t][0] == t);
    assert(seq![t].len() == 1);
    assert(expand_upto(seq![t], resolved, 0) == Ok::<Seq<IpAddress>, int>(Seq::empty()));
    let h = token_hosts(t, resolved_at(resolved, 0))->Some_0;
    let addr = cidr_of(t)->Some_0->V4_addr;
    assert(ipv4_host_seq(addr, prefix).len() == pow2((32 - prefix) as nat) - 2);
    assert(h.len() == ipv4_host_seq(addr, prefix).len());
    assert((Seq::<IpAddress>::empty() + h).len() == h.len());
}

proof fn lemma_pow2_at_least_4(n: nat)
    requires
        n >= 2,
    ensures
        pow2(n) >= 4,
    decreases n,
{
    if n > 2 {
        lemma_pow2_at_least_4((n - 1) as nat);
    } else {
        assert(pow2(0) == 1);
        assert(pow2(1) == 2);
        assert(pow2(2) == 4);
    }
}

/// The ports that one port token stands for: `N` alone, or `lo-hi` for the
/// half-open range `[lo, hi)`. A token that cannot be read stands for none.
pub open spec fn port_token(t: Seq<char>) -> Seq<u16> {
    match find_char(t, '-') {
        Some(k) => match (dec_value(t.subrange(0, k)), dec_value(t.subrange(k + 1, t.len() as int))) {
            (Some(lo), Some(hi)) => if lo <= 65535 && hi <= 65535 && lo < hi {
                Seq::new((hi - lo) as nat, |i: int| (lo + i) as u16)
            } else {
                Seq::empty()
            },
            _ => Seq::empty(),
        },
        None => match dec_value(t) {
            Some(v) => if v <= 65535 {
                seq![v as u16]
            } else {
                Seq::empty()
            },
            None => Seq::empty(),
        },
    }
}

/// The ports of the first `n` tokens, in order.
pub open spec fn ports_upto(inputs: Seq<Seq<char>>, n: nat) -> Seq<u16>
    decreases n,
{
    if n == 0 {
        Seq::empty()
    } else {
        ports_upto(inputs, (n - 1) as nat) + port_token(inputs[n - 1])
    }
}

/// Reads one port token.
pub fn parse_port_token(s: &String) -> (r: Vec<u16>)
    ensures
        r@ == port_token(s@),
{
    let cs = chars_of(s.as_str());
    let ghost t = cs@;
    let mut out: Vec<u16> = Vec::new();
    match index_of(&cs, '-', 0, cs.len()) {
        Some(k) => {
            proof {
                assert(cs@.subrange(0, cs@.len() as int) =~= t);
                crate::text::lemma_find_char_contains(t, '-');
            }
            let a = parse_dec(&cs, 0, k, 65535);
            let b = parse_dec(&cs, k + 1, cs.len(), 65535);
            match (a, b) {
                (Some(lo), Some(hi)) => {
                    if lo < hi {
                        let mut p: u32 = lo;
                        while p < hi
                            invariant
                                lo <= p <= hi <= 65535,
                                out@ == Seq::new((p - lo) as nat, |i: int| (lo + i) as u16),
                            decreases hi - p,
                        {
                            out.push(p as u16);
                            p = p + 1;
                            assert(out@ =~= Seq::new((p - lo) as nat, |i: int| (lo + i) as u16));
                        }
                    }
                },
                _ => {},
            }
        },
        None => {
            proof {
                assert(cs@.subrange(0, cs@.len() as int) =~= t);
            }
            match parse_dec(&cs, 0, cs.len(), 65535) {
                Some(v) => {
                    out.push(v as u16);
                },
                None => {},
            }
        },
    }
    assert(out@ =~= port_token(s@));
    out
}

/// Reads a port list: each token is `N` or a half-open range `lo-hi`; tokens that
/// cannot be read are skipped.
pub fn parse_str_ports(input: &Vec<String>) -> (r: Vec<u16>)
    ensures
        r@ == ports_upto(strings_view(input@), input@.len()),
{
    let ghost ins = strings_view(input@);
    let mut out: Vec<u16> = Vec::new();
    let mut i: usize = 0;
    while i < input.len()
        invariant
            0 <= i <= input@.len(),
            ins == strings_view(input@),
            out@ == ports_upto(ins, i as nat),
        decreases input@.len() - i,
    {
        let mut ps = parse_port_token(&input[i]);
        assert(ins[i as int] == input@[i as int]@);
        out.append(&mut ps);
        i = i + 1;
    }
    out
}

/// Once a token fails, the expansion of any longer list fails on it.
pub proof fn lemma_expand_err_persists(
    inputs: Seq<Seq<char>>,
    resolved: Seq<Seq<IpAddress>>,
    m: nat,
    n: nat,
)
    requires
        m <= n,
        expand_upto(inputs, resolved, m) is Err,
    ensures
        expand_upto(inputs, resolved, n) == expand_upto(inputs, resolved, m),
    decreases n - m,
{
    if m < n {
        lemma_expand_err_persists(inputs, resolved, m, (n - 1) as nat);
    }
}

/// Expands target expressions into the addresses to probe, in order. `resolved[i]`
/// holds what a name lookup of `input[i]` gave (read only when `input[i]` is a host
/// name). The first token that cannot be read aborts the expansion and is named in
/// the error.
pub fn parse_ip_range(input: &Vec<String>, resolved: &Vec<Vec<IpAddress>>) -> (r: Result<
    Vec<IpAddress>,
    ScanError,
>)
    ensures
        match expand_targets(strings_view(input@), lists_view(resolved@)) {
            Ok(h) => r matches Ok(v) && v@ == h,
            Err(i) => 0 <= i < input@.len() && (r matches Err(ScanError::InvalidTarget(t)) && t@
                == input@[i]@),
        },
{
    let ghost ins = strings_view(input@);
    let ghost res = lists_view(resolved@);
    let mut out: Vec<IpAddress> = Vec::new();
    let mut i: usize = 0;
    let empty: Vec<IpAddress> = Vec::new();
    while i < input.len()
        invariant
            0 <= i <= input@.len(),
            ins == strings_view(input@),
            res == lists_view(resolved@),
            empty@ == Seq::<IpAddress>::empty(),
            expand_upto(ins, res, i as nat) == Ok::<Seq<IpAddress>, int>(out@),
        decreases input@.len() - i,
    {
        let lookup = if i < resolved.len() { &resolved[i] } else { &empty };
        proof {
            assert(ins[i as int] == input@[i as int]@);
            assert(lookup@ == resolved_at(res, i as int));
        }
        match expand_token(&input[i], lookup) {
            Some(mut h) => {
                out.append(&mut h);
            },
            None => {
                proof {
                    assert(expand_upto(ins, res, (i + 1) as nat) == Err::<Seq<IpAddress>, int>(i as int));
                    lemma_expand_err_persists(ins, res, (i + 1) as nat, ins.len());
                }
                return Err(ScanError::InvalidTarget(input[i].clone()));
            },
        }
        i = i + 1;
    }
    Ok(out)
}

} // verus!
