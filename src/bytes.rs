use vstd::prelude::*;

verus! {

/// The two bytes of `v` in network byte order.
pub open spec fn be16(v: u16) -> Seq<u8> {
    seq![(v / 256) as u8, (v % 256) as u8]
}

/// The four bytes of `v` in network byte order.
pub open spec fn be32(v: u32) -> Seq<u8> {
    seq![(v / 0x1000000) as u8, ((v / 0x10000) % 256) as u8, ((v / 256) % 256) as u8, (v % 256) as u8]
}

/// The 16-bit big-endian value stored at `s[i]`, `s[i + 1]`.
pub open spec fn read16(s: Seq<u8>, i: int) -> u16 {
    (s[i] * 256 + s[i + 1]) as u16
}

/// The 32-bit big-endian value stored at `s[i..i + 4]`.
pub open spec fn read32(s: Seq<u8>, i: int) -> u32 {
    (s[i] * 0x1000000 + s[i + 1] * 0x10000 + s[i + 2] * 256 + s[i + 3]) as u32
}

/// Ones'-complement addition of two 16-bit quantities (end-around carry).
pub open spec fn ones_add(a: int, b: int) -> int {
    if a + b >= 0x10000 {
        a + b - 0xffff
    } else {
        a + b
    }
}

/// Ones'-complement sum of the big-endian 16-bit words of `data` from byte `i` on,
/// starting from `acc`; an odd trailing byte is padded with a zero byte.
pub open spec fn ones_sum_from(data: Seq<u8>, i: int, acc: int) -> int
    decreases data.len() - i,
{
    if i < 0 || i >= data.len() {
        acc
    } else if i + 1 == data.len() {
        ones_add(acc, data[i] * 256)
    } else {
        ones_sum_from(data, i + 2, ones_add(acc, data[i] * 256 + data[i + 1]))
    }
}

/// The Internet checksum (RFC 1071) of `data`: the complement of its ones'-complement sum.
pub open spec fn internet_checksum(data: Seq<u8>) -> u16 {
    (0xffff - ones_sum_from(data, 0, 0)) as u16
}

pub proof fn lemma_ones_sum_bounded(data: Seq<u8>, i: int, acc: int)
    requires
        0 <= acc <= 0xffff,
    ensures
        0 <= ones_sum_from(data, i, acc) <= 0xffff,
    decreases data.len() - i,
{
    if i < 0 || i >= data.len() {
    } else if i + 1 == data.len() {
    } else {
        lemma_ones_sum_bounded(data, i + 2, ones_add(acc, data[i] * 256 + data[i + 1]));
    }
}

pub proof fn lemma_be16_read(v: u16)
    ensures
        read16(be16(v), 0) == v,
{
    assert(be16(v)[0] * 256 + be16(v)[1] == v) by (nonlinear_arith)
        requires
            be16(v)[0] == v / 256,
            be16(v)[1] == v % 256,
    ;
}

pub proof fn lemma_be32_read(v: u32)
    ensures
        read32(be32(v), 0) == v,
{
    let b = be32(v);
    assert(b[0] * 0x1000000 + b[1] * 0x10000 + b[2] * 256 + b[3] == v) by (nonlinear_arith)
        requires
            b[0] == v / 0x1000000,
            b[1] == (v / 0x10000) % 256,
            b[2] == (v / 256) % 256,
            b[3] == v % 256,
            0 <= v < 0x100000000,
    ;
}

/// Appends `v` to `out` in network byte order.
pub fn push_be16(out: &mut Vec<u8>, v: u16)
    ensures
        final(out)@ == old(out)@ + be16(v),
{
    out.push((v / 256) as u8);
    out.push((v % 256) as u8);
    assert(final(out)@ =~= old(out)@ + be16(v));
}

/// Appends `v` to `out` in network byte order.
pub fn push_be32(out: &mut Vec<u8>, v: u32)
    ensures
        final(out)@ == old(out)@ + be32(v),
{
    out.push((v / 0x1000000) as u8);
    out.push(((v / 0x10000) % 256) as u8);
    out.push(((v / 256) % 256) as u8);
    out.push((v % 256) as u8);
    assert(final(out)@ =~= old(out)@ + be32(v));
}

/// Reads the big-endian 16-bit value at `i`.
pub fn get_be16(s: &[u8], i: usize) -> (r: u16)
    requires
        i + 2 <= s@.len(),
    ensures
        r == read16(s@, i as int),
{
    (s[i] as u16) * 256 + s[i + 1] as u16
}

/// Reads the big-endian 32-bit value at `i`.
pub fn get_be32(s: &[u8], i: usize) -> (r: u32)
    requires
        i + 4 <= s@.len(),
    ensures
        r == read32(s@, i as int),
{
    (s[i] as u32) * 0x1000000 + (s[i + 1] as u32) * 0x10000 + (s[i + 2] as u32) * 256
        + s[i + 3] as u32
}

/// Ones'-complement sum of `data` continued from `acc`.
pub fn ones_sum(data: &[u8], acc: u16) -> (r: u16)
    ensures
        r == ones_sum_from(data@, 0, acc as int),
{
    let mut i: usize = 0;
    let mut a: u32 = acc as u32;
    while i < data.len()
        invariant
            0 <= i <= data@.len(),
            a <= 0xffff,
            ones_sum_from(data@, 0, acc as int) == ones_sum_from(data@, i as int, a as int),
        decreases data@.len() - i,
    {
        if i + 1 == data.len() {
            let w: u32 = (data[i] as u32) * 256;
            a = if a + w >= 0x10000 { a + w - 0xffff } else { a + w };
            i = data.len();
        } else {
            let w: u32 = (data[i] as u32) * 256 + data[i + 1] as u32;
            a = if a + w >= 0x10000 { a + w - 0xffff } else { a + w };
            i = i + 2;
        }
    }
    a as u16
}

/// The Internet checksum of `data`.
pub fn checksum(data: &[u8]) -> (r: u16)
    ensures
        r == internet_checksum(data@),
{
    proof {
        lemma_ones_sum_bounded(data@, 0, 0);
    }
    let s = ones_sum(data, 0);
    0xffff - s
}

/// Whether `a` and `b` hold the same bytes.
pub fn bytes_equal(a: &[u8], b: &[u8]) -> (r: bool)
    ensures
        r == (a@ == b@),
{
    if a.len() != b.len() {
        return false;
    }
    let mut i: usize = 0;
    while i < a.len()
        invariant
            a@.len() == b@.len(),
            0 <= i <= a@.len(),
            forall|j: int| 0 <= j < i ==> a@[j] == b@[j],
        decreases a@.len() - i,
    {
        if a[i] != b[i] {
            return false;
        }
        i = i + 1;
    }
    assert(a@ =~= b@);
    true
}

} // verus!
