use vstd::prelude::*;
use vstd::string::StrSliceExecFns;

verus! {

/// The value of a decimal digit character.
pub open spec fn digit_value(c: char) -> int {
    (c as int) - ('0' as int)
}

pub open spec fn is_digit(c: char) -> bool {
    '0' <= c <= '9'
}

/// The value of `s` read as an unsigned decimal numeral: `None` unless `s` is a
/// non-empty run of ASCII digits.
pub open spec fn dec_value(s: Seq<char>) -> Option<nat>
    decreases s.len(),
{
    if s.len() == 0 || !is_digit(s.last()) {
        None
    } else if s.len() == 1 {
        Some(digit_value(s.last()) as nat)
    } else {
        match dec_value(s.drop_last()) {
            Some(v) => Some((v * 10 + digit_value(s.last())) as nat),
            None => None,
        }
    }
}

/// `s` cut at every occurrence of `sep`; always at least one piece.
pub open spec fn split_on(s: Seq<char>, sep: char) -> Seq<Seq<char>>
    decreases s.len(),
{
    if s.len() == 0 {
        seq![Seq::<char>::empty()]
    } else {
        let head = split_on(s.drop_last(), sep);
        if s.last() == sep {
            head.push(Seq::<char>::empty())
        } else {
            head.update(head.len() - 1, head.last().push(s.last()))
        }
    }
}

/// The index of the first occurrence of `c` in `s`, if any.
pub open spec fn find_char(s: Seq<char>, c: char) -> Option<int>
    decreases s.len(),
{
    if s.len() == 0 {
        None
    } else if s[0] == c {
        Some(0)
    } else {
        match find_char(s.drop_first(), c) {
            Some(i) => Some(i + 1),
            None => None,
        }
    }
}

pub proof fn lemma_split_nonempty(s: Seq<char>, sep: char)
    ensures
        split_on(s, sep).len() >= 1,
    decreases s.len(),
{
    if s.len() > 0 {
        lemma_split_nonempty(s.drop_last(), sep);
    }
}

/// The characters of `s`.
pub fn chars_of(s: &str) -> (r: Vec<char>)
    ensures
        r@ == s@,
{
    let n = s.unicode_len();
    let mut r: Vec<char> = Vec::new();
    let mut i: usize = 0;
    while i < n
        invariant
            n == s@.len(),
            0 <= i <= n,
            r@ == s@.subrange(0, i as int),
        decreases n - i,
    {
        let c = s.get_char(i);
        r.push(c);
        i = i + 1;
        assert(r@ =~= s@.subrange(0, i as int));
    }
    assert(r@ =~= s@);
    r
}

/// Whether `c` occurs in `s`.
pub fn contains_char(s: &Vec<char>, c: char) -> (r: bool)
    ensures
        r == s@.contains(c),
        r == (find_char(s@, c) is Some),
{
    let i = index_of(s, c, 0, s.len());
    proof {
        lemma_find_char_contains(s@, c);
        assert(s@.subrange(0, s@.len() as int) =~= s@);
    }
    i.is_some()
}

pub proof fn lemma_find_char_contains(s: Seq<char>, c: char)
    ensures
        (find_char(s, c) is Some) == s.contains(c),
        match find_char(s, c) {
            Some(i) => 0 <= i < s.len() && s[i] == c && forall|j: int| 0 <= j < i ==> s[j] != c,
            None => forall|j: int| 0 <= j < s.len() ==> s[j] != c,
        },
    decreases s.len(),
{
    if s.len() > 0 {
        lemma_find_char_contains(s.drop_first(), c);
        if s[0] != c {
            assert forall|j: int| 1 <= j < s.len() implies s[j] == s.drop_first()[j - 1] by {}
            if s.drop_first().contains(c) {
                let k = choose|k: int| 0 <= k < s.drop_first().len() && s.drop_first()[k] == c;
                assert(s[k + 1] == c);
            }
            if s.contains(c) {
                let k = choose|k: int| 0 <= k < s.len() && s[k] == c;
                assert(s.drop_first()[k - 1] == c);
            }
        } else {
            assert(s[0] == c);
        }
    }
}

/// The first index in `[lo, hi)` where `s` holds `c`, as an offset from `lo`.
pub fn index_of(s: &Vec<char>, c: char, lo: usize, hi: usize) -> (r: Option<usize>)
    requires
        lo <= hi <= s@.len(),
    ensures
        match find_char(s@.subrange(lo as int, hi as int), c) {
            Some(i) => r == Some(i as usize),
            None => r is None,
        },
{
    let ghost t = s@.subrange(lo as int, hi as int);
    proof {
        lemma_find_char_contains(t, c);
    }
    let mut i: usize = lo;
    while i < hi
        invariant
            lo <= i <= hi <= s@.len(),
            t == s@.subrange(lo as int, hi as int),
            forall|j: int| lo <= j < i ==> s@[j] != c,
        decreases hi - i,
    {
        if s[i] == c {
            proof {
                lemma_find_char_contains(t, c);
                assert(t[i - lo] == c);
                match find_char(t, c) {
                    Some(k) => {
                        assert(t[k] == s@[lo + k]);
                        assert(t[i - lo] == s@[i as int]);
                    },
                    None => {},
                }
            }
            return Some(i - lo);
        }
        i = i + 1;
    }
    proof {
        lemma_find_char_contains(t, c);
        match find_char(t, c) {
            Some(k) => {
                assert(t[k] == s@[lo + k]);
            },
            None => {},
        }
    }
    None
}

/// The decimal value of `s[lo..hi]`, if it is a numeral no greater than `max`.
pub fn parse_dec(s: &Vec<char>, lo: usize, hi: usize, max: u32) -> (r: Option<u32>)
    requires
        lo <= hi <= s@.len(),
    ensures
        match dec_value(s@.subrange(lo as int, hi as int)) {
            Some(v) => if v <= max { r == Some(v as u32) } else { r is None },
            None => r is None,
        },
{
    if lo == hi {
        return None;
    }
    let mut i: usize = lo;
    let mut v: u32 = 0;
    while i < hi
        invariant
            lo <= i <= hi <= s@.len(),
            lo < hi,
            v <= max,
            i == lo ==> v == 0,
            i > lo ==> dec_value(s@.subrange(lo as int, i as int)) == Some(v as nat),
        decreases hi - i,
    {
        let c = s[i];
        proof {
            assert(s@.subrange(lo as int, i + 1).drop_last() =~= s@.subrange(lo as int, i as int));
            assert(s@.subrange(lo as int, i + 1).last() == c);
        }
        proof {
            assert(s@.subrange(lo as int, hi as int).subrange(0, i + 1 - lo) =~= s@.subrange(lo as int, i + 1));
        }
        if !('0' <= c && c <= '9') {
            proof {
                lemma_dec_extend_none(s@.subrange(lo as int, i + 1), s@.subrange(lo as int, hi as int));
            }
            return None;
        }
        let d: u32 = (c as u32) - ('0' as u32);
        proof {
            let p = s@.subrange(lo as int, i + 1);
            assert(d == digit_value(c));
            assert(p.last() == c);
            assert(p.drop_last() =~= s@.subrange(lo as int, i as int));
            if i > lo {
                assert(dec_value(p.drop_last()) == Some(v as nat));
            }
            assert(dec_value(p) == Some((v * 10 + d) as nat));
        }
        if d > max || v > (max - d) / 10 {
            proof {
                lemma_dec_grows(s@.subrange(lo as int, i + 1), s@.subrange(lo as int, hi as int));
                if d <= max {
                    assert(v * 10 + d > max) by (nonlinear_arith)
                        requires v > (max - d) / 10, d <= max;
                }
            }
            return None;
        }
        proof {
            assert(v * 10 + d <= max) by (nonlinear_arith)
                requires v <= (max - d) / 10, d <= max;
        }
        v = v * 10 + d;
        i = i + 1;
    }
    proof {
        assert(s@.subrange(lo as int, i as int) =~= s@.subrange(lo as int, hi as int));
    }
    Some(v)
}

/// A numeral that fails on a prefix fails on the whole.
pub proof fn lemma_dec_extend_none(p: Seq<char>, s: Seq<char>)
    requires
        0 < p.len() <= s.len(),
        p == s.subrange(0, p.len() as int),
        dec_value(p) is None,
    ensures
        dec_value(s) is None,
    decreases s.len(),
{
    if s.len() > p.len() {
        assert(s.drop_last().subrange(0, p.len() as int) =~= p);
        lemma_dec_extend_none(p, s.drop_last());
    } else {
        assert(s =~= p);
    }
}

/// A numeral's value is at least that of any of its prefixes.
pub proof fn lemma_dec_grows(p: Seq<char>, s: Seq<char>)
    requires
        0 < p.len() <= s.len(),
        p == s.subrange(0, p.len() as int),
        dec_value(p) is Some,
    ensures
        dec_value(s) is Some ==> dec_value(s)->Some_0 >= dec_value(p)->Some_0,
    decreases s.len(),
{
    if s.len() > p.len() {
        assert(s.drop_last().subrange(0, p.len() as int) =~= p);
        lemma_dec_grows(p, s.drop_last());
    } else {
        assert(s =~= p);
    }
}

/// The bounds of the pieces of `split_on(s, sep)`.
pub fn split_bounds(s: &Vec<char>, sep: char) -> (r: Vec<(usize, usize)>)
    ensures
        r@.len() == split_on(s@, sep).len(),
        forall|j: int| 0 <= j < r@.len() ==> bounds_in(#[trigger] r@[j], s@.len()),
        forall|j: int|
            0 <= j < r@.len() ==> split_on(s@, sep)[j] == s@.subrange(
                r@[j].0 as int,
                r@[j].1 as int,
            ),
{
    let mut r: Vec<(usize, usize)> = Vec::new();
    let mut start: usize = 0;
    let mut i: usize = 0;
    while i < s.len()
        invariant
            0 <= start <= i <= s@.len(),
            split_on(s@.subrange(0, i as int), sep).len() == r@.len() + 1,
            forall|j: int| 0 <= j < r@.len() ==> bounds_in(#[trigger] r@[j], s@.len()),
            forall|j: int|
                0 <= j < r@.len() ==> split_on(s@.subrange(0, i as int), sep)[j] == s@.subrange(
                    r@[j].0 as int,
                    r@[j].1 as int,
                ),
            split_on(s@.subrange(0, i as int), sep).last() == s@.subrange(start as int, i as int),
        decreases s@.len() - i,
    {
        let ghost pre = s@.subrange(0, i as int);
        let ghost next = s@.subrange(0, i + 1);
        let ghost head = split_on(pre, sep);
        proof {
            assert(next.drop_last() =~= pre);
            assert(next.last() == s@[i as int]);
        }
        let ghost old_r = r@;
        let ghost old_start = start;
        if s[i] == sep {
            r.push((start, i));
            start = i + 1;
            proof {
                assert(split_on(next, sep) == head.push(Seq::<char>::empty()));
                assert(s@.subrange(start as int, i + 1) =~= Seq::<char>::empty());
                assert forall|j: int| 0 <= j < r@.len() implies bounds_in(#[trigger] r@[j], s@.len()) by {
                    if j < old_r.len() {
                        assert(r@[j] == old_r[j]);
                    }
                }
                assert forall|j: int| 0 <= j < r@.len() implies split_on(next, sep)[j]
                    == s@.subrange(r@[j].0 as int, r@[j].1 as int) by {
                    assert(split_on(next, sep)[j] == head[j]);
                    if j < old_r.len() {
                        assert(r@[j] == old_r[j]);
                    } else {
                        assert(r@[j] == (old_start, i));
                        assert(head[j] == head.last());
                    }
                }
            }
        } else {
            proof {
                assert(split_on(next, sep) == head.update(head.len() - 1, head.last().push(s@[i as int])));
                assert(head.last().push(s@[i as int]) =~= s@.subrange(start as int, i + 1));
                assert forall|j: int| 0 <= j < r@.len() implies split_on(next, sep)[j]
                    == s@.subrange(r@[j].0 as int, r@[j].1 as int) by {
                    assert(split_on(next, sep)[j] == head[j]);
                }
            }
        }
        i = i + 1;
    }
    let ghost old_r = r@;
    let ghost parts = split_on(s@, sep);
    proof {
        assert(s@.subrange(0, i as int) =~= s@);
        assert(parts == split_on(s@.subrange(0, i as int), sep));
    }
    r.push((start, i));
    proof {
        assert forall|j: int| 0 <= j < r@.len() implies bounds_in(#[trigger] r@[j], s@.len()) by {
            if j < old_r.len() {
                assert(r@[j] == old_r[j]);
            }
        }
        assert forall|j: int| 0 <= j < r@.len() implies parts[j] == s@.subrange(
            r@[j].0 as int,
            r@[j].1 as int,
        ) by {
            if j < old_r.len() {
                assert(r@[j] == old_r[j]);
            } else {
                assert(r@[j] == (start, i));
                assert(parts[j] == parts.last());
            }
        }
    }
    r
}

/// `b` delimits a piece of a sequence of length `n`.
pub open spec fn bounds_in(b: (usize, usize), n: nat) -> bool {
    b.0 <= b.1 && b.1 <= n
}

} // verus!
