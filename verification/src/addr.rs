//! IP address literals, read the way the standard library reads them: dotted
//! IPv4 with four decimal octets (no leading zeros), and colon-separated IPv6
//! with at most one `::` and an optional dotted IPv4 tail.

use vstd::prelude::*;

use crate::rules::{first_index, lemma_first_index, lemma_first_index_unique};
use crate::text::{all_digits, digit_value, digits_value, find_char, is_digit};

verus! {

/// `s` cut at every `c` (what `str::split` yields).
pub open spec fn split_on(s: Seq<char>, c: char) -> Seq<Seq<char>>
    decreases s.len(),
{
    let k = first_index(s, c);
    if k >= s.len() || k < 0 {
        seq![s]
    } else {
        seq![s.take(k)] + split_on(s.skip(k + 1), c)
    }
}

/// Whether `t` is a decimal octet: one to three digits, no leading zero,
/// value at most 255.
pub open spec fn dec_octet(t: Seq<char>) -> bool {
    &&& 1 <= t.len() <= 3
    &&& all_digits(t)
    &&& (t.len() > 1 ==> t[0] != '0')
    &&& digits_value(t) <= 255
}

/// The four octets of a dotted IPv4 literal.
pub open spec fn ipv4_octets(s: Seq<char>) -> Option<Seq<u8>> {
    let parts = split_on(s, '.');
    if parts.len() == 4 && dec_octet(parts[0]) && dec_octet(parts[1]) && dec_octet(parts[2])
        && dec_octet(parts[3]) {
        Some(
            seq![
                digits_value(parts[0]) as u8,
                digits_value(parts[1]) as u8,
                digits_value(parts[2]) as u8,
                digits_value(parts[3]) as u8,
            ],
        )
    } else {
        None
    }
}

/// Whether `c` is a hexadecimal digit.
pub open spec fn is_hex(c: char) -> bool {
    ('0' <= c && c <= '9') || ('a' <= c && c <= 'f') || ('A' <= c && c <= 'F')
}

/// The value of a hexadecimal digit.
pub open spec fn hex_digit(c: char) -> int {
    if '0' <= c && c <= '9' {
        (c as int) - 48
    } else if 'a' <= c && c <= 'f' {
        (c as int) - 87
    } else {
        (c as int) - 55
    }
}

/// The value of a hexadecimal digit string.
pub open spec fn hex_value(t: Seq<char>) -> nat
    decreases t.len(),
{
    if t.len() == 0 {
        0
    } else {
        (hex_value(t.drop_last()) * 16 + hex_digit(t.last())) as nat
    }
}

/// Whether `t` is an IPv6 group: one to four hexadecimal digits.
pub open spec fn hex_group(t: Seq<char>) -> bool {
    1 <= t.len() <= 4 && forall|i: int| 0 <= i < t.len() ==> is_hex(#[trigger] t[i])
}

/// The 16-bit words of one side of an IPv6 literal; the last part may be a
/// dotted IPv4 address when `allow_v4`.
pub open spec fn side_words(s: Seq<char>, allow_v4: bool) -> Option<Seq<u16>> {
    if s.len() == 0 {
        Some(Seq::empty())
    } else {
        let parts = split_on(s, ':');
        let n = parts.len();
        if (forall|i: int| 0 <= i < n - 1 ==> hex_group(#[trigger] parts[i])) {
            if hex_group(parts[n - 1]) {
                Some(parts.map_values(|t: Seq<char>| hex_value(t) as u16))
            } else if allow_v4 && ipv4_octets(parts[n - 1]) is Some {
                let o = ipv4_octets(parts[n - 1])->Some_0;
                Some(
                    parts.drop_last().map_values(|t: Seq<char>| hex_value(t) as u16).push(
                        (o[0] * 256 + o[1]) as u16,
                    ).push((o[2] * 256 + o[3]) as u16),
                )
            } else {
                None
            }
        } else {
            None
        }
    }
}

/// Position of the first `::` in `s`, or `s.len()` when there is none.
pub open spec fn double_colon(s: Seq<char>) -> int
    decreases s.len(),
{
    if s.len() < 2 {
        s.len() as int
    } else if s[0] == ':' && s[1] == ':' {
        0
    } else {
        1 + double_colon(s.drop_first())
    }
}

/// The eight 16-bit words of an IPv6 literal.
pub open spec fn ipv6_words(s: Seq<char>) -> Option<Seq<u16>> {
    let p = double_colon(s);
    if p < s.len() {
        match (side_words(s.take(p), false), side_words(s.skip(p + 2), true)) {
            (Some(h), Some(t)) => if h.len() + t.len() <= 7 {
                Some(h + Seq::new((8 - h.len() - t.len()) as nat, |i: int| 0u16) + t)
            } else {
                None
            },
            _ => None,
        }
    } else {
        match side_words(s, true) {
            Some(w) => if w.len() == 8 {
                Some(w)
            } else {
                None
            },
            None => None,
        }
    }
}

/// The big-endian bytes of 16-bit words.
pub open spec fn word_bytes(w: Seq<u16>) -> Seq<u8>
    decreases w.len(),
{
    if w.len() == 0 {
        Seq::empty()
    } else {
        word_bytes(w.drop_last()) + seq![(w.last() / 256) as u8, (w.last() % 256) as u8]
    }
}

/// The sixteen bytes of an IPv6 literal.
pub open spec fn ipv6_octets(s: Seq<char>) -> Option<Seq<u8>> {
    match ipv6_words(s) {
        Some(w) => Some(word_bytes(w)),
        None => None,
    }
}

/// `split_on` is what cutting at the first `c` and recursing gives.
proof fn lemma_split_step(s: Seq<char>, c: char)
    ensures
        first_index(s, c) == s.len() ==> split_on(s, c) == seq![s],
        first_index(s, c) < s.len() ==> split_on(s, c) == seq![s.take(first_index(s, c))]
            + split_on(s.skip(first_index(s, c) + 1), c),
{
    lemma_first_index(s, c);
}

/// The parts of `v` between occurrences of `c`.
pub fn split_chars(v: &Vec<char>, c: char) -> (r: Vec<Vec<char>>)
    ensures
        r@.len() == split_on(v@, c).len(),
        forall|i: int| 0 <= i < r@.len() ==> #[trigger] r@[i]@ == split_on(v@, c)[i],
{
    let mut out: Vec<Vec<char>> = Vec::new();
    let mut start: usize = 0;
    let ghost done: Seq<Seq<char>> = Seq::empty();
    proof {
        assert(v@.skip(0) =~= v@);
        assert(done + split_on(v@, c) =~= split_on(v@, c));
    }
    loop
        invariant
            start <= v.len(),
            out@.len() == done.len(),
            forall|i: int| 0 <= i < out@.len() ==> #[trigger] out@[i]@ == done[i],
            split_on(v@, c) == done + split_on(v@.skip(start as int), c),
        decreases v.len() - start,
    {
        let ghost rest = v@.skip(start as int);
        proof {
            lemma_split_step(rest, c);
        }
        match find_char(v, c, start) {
            Some(k) => {
                proof {
                    assert forall|q: int| 0 <= q < k - start implies #[trigger] rest[q] != c by {
                        assert(rest[q] == v@[q + start]);
                    }
                    lemma_first_index_unique(rest, c, k - start);
                    assert(rest.take(k - start) =~= v@.subrange(start as int, k as int));
                    assert(rest.skip(k - start + 1) =~= v@.skip(k + 1));
                }
                let mut part: Vec<char> = Vec::new();
                let mut i: usize = start;
                while i < k
                    invariant
                        start <= i <= k,
                        k < v.len(),
                        part@ == v@.subrange(start as int, i as int),
                    decreases k - i,
                {
                    part.push(v[i]);
                    proof {
                        assert(v@.subrange(start as int, i + 1) =~= v@.subrange(
                            start as int,
                            i as int,
                        ).push(v@[i as int]));
                    }
                    i = i + 1;
                }
                out.push(part);
                proof {
                    done = done.push(v@.subrange(start as int, k as int));
                    assert(split_on(v@, c) =~= done + split_on(v@.skip(k + 1), c));
                }
                start = k + 1;
            },
            None => {
                proof {
                    assert forall|q: int| 0 <= q < v.len() - start implies #[trigger] rest[q]
                        != c by {
                        assert(rest[q] == v@[q + start]);
                    }
                    lemma_first_index_unique(rest, c, v.len() - start);
                }
                let mut part: Vec<char> = Vec::new();
                let mut i: usize = start;
                while i < v.len()
                    invariant
                        start <= i <= v.len(),
                        part@ == v@.subrange(start as int, i as int),
                    decreases v.len() - i,
                {
                    part.push(v[i]);
                    proof {
                        assert(v@.subrange(start as int, i + 1) =~= v@.subrange(
                            start as int,
                            i as int,
                        ).push(v@[i as int]));
                    }
                    i = i + 1;
                }
                out.push(part);
                proof {
                    assert(part@ =~= rest);
                    done = done.push(rest);
                    assert(split_on(v@, c) =~= done);
                }
                return out;
            },
        }
    }
}

/// Reads a decimal octet.
fn read_octet(t: &Vec<char>) -> (r: Option<u8>)
    ensures
        match r {
            Some(b) => dec_octet(t@) && b == digits_value(t@),
            None => !dec_octet(t@),
        },
{
    if t.len() < 1 || t.len() > 3 {
        return None;
    }
    if t.len() > 1 && t[0] == '0' {
        return None;
    }
    let mut value: u16 = 0;
    let mut i: usize = 0;
    while i < t.len()
        invariant
            1 <= t.len() <= 3,
            i <= t.len(),
            all_digits(t@.take(i as int)),
            value == digits_value(t@.take(i as int)),
            value < 1000,
            i == 0 ==> value == 0,
            i == 1 ==> value < 10,
            i == 2 ==> value < 100,
        decreases t.len() - i,
    {
        let c = t[i];
        if !('0' <= c && c <= '9') {
            proof {
                assert(!is_digit(t@[i as int]));
            }
            return None;
        }
        proof {
            assert(t@.take(i + 1).drop_last() =~= t@.take(i as int));
            assert((c as u16) as int == c as int);
        }
        value = value * 10 + (c as u16 - 48);
        i = i + 1;
    }
    proof {
        assert(t@.take(i as int) =~= t@);
    }
    if value > 255 {
        None
    } else {
        Some(value as u8)
    }
}

/// Reads a dotted IPv4 literal.
pub fn parse_ipv4(v: &Vec<char>) -> (r: Option<Vec<u8>>)
    ensures
        match ipv4_octets(v@) {
            Some(o) => (r matches Some(b) && b@ == o),
            None => r is None,
        },
{
    let parts = split_chars(v, '.');
    if parts.len() != 4 {
        return None;
    }
    let a = match read_octet(&parts[0]) {
        Some(x) => x,
        None => return None,
    };
    let b = match read_octet(&parts[1]) {
        Some(x) => x,
        None => return None,
    };
    let c = match read_octet(&parts[2]) {
        Some(x) => x,
        None => return None,
    };
    let d = match read_octet(&parts[3]) {
        Some(x) => x,
        None => return None,
    };
    let out = vec![a, b, c, d];
    proof {
        assert(out@ =~= ipv4_octets(v@)->Some_0);
    }
    Some(out)
}

/// Reads an IPv6 group of one to four hexadecimal digits.
fn read_hex_group(t: &Vec<char>) -> (r: Option<u16>)
    ensures
        match r {
            Some(w) => hex_group(t@) && w == hex_value(t@),
            None => !hex_group(t@),
        },
{
    if t.len() < 1 || t.len() > 4 {
        return None;
    }
    let mut value: u32 = 0;
    let mut i: usize = 0;
    while i < t.len()
        invariant
            1 <= t.len() <= 4,
            i <= t.len(),
            forall|k: int| 0 <= k < i ==> is_hex(#[trigger] t@[k]),
            value == hex_value(t@.take(i as int)),
            i == 0 ==> value == 0,
            i == 1 ==> value < 16,
            i == 2 ==> value < 256,
            i == 3 ==> value < 4096,
            i == 4 ==> value < 65536,
        decreases t.len() - i,
    {
        let c = t[i];
        let d: u32 = if '0' <= c && c <= '9' {
            c as u32 - 48
        } else if 'a' <= c && c <= 'f' {
            c as u32 - 87
        } else if 'A' <= c && c <= 'F' {
            c as u32 - 55
        } else {
            return None;
        };
        proof {
            assert(t@.take(i + 1).drop_last() =~= t@.take(i as int));
            assert((c as u32) as int == c as int);
        }
        value = value * 16 + d;
        i = i + 1;
    }
    proof {
        assert(t@.take(i as int) =~= t@);
    }
    Some(value as u16)
}

/// Reads one side of an IPv6 literal into words.
fn read_side(v: &Vec<char>, allow_v4: bool) -> (r: Option<Vec<u16>>)
    ensures
        match side_words(v@, allow_v4) {
            Some(w) => (r matches Some(x) && x@ == w),
            None => r is None,
        },
{
    if v.len() == 0 {
        return Some(Vec::new());
    }
    let parts = split_chars(v, ':');
    let ghost sp = split_on(v@, ':');
    let n = parts.len();
    proof {
        lemma_split_nonempty(v@, ':');
    }
    let mut words: Vec<u16> = Vec::new();
    let mut i: usize = 0;
    while i + 1 < n
        invariant
            n == parts@.len(),
            n == sp.len(),
            n >= 1,
            sp == split_on(v@, ':'),
            forall|k: int| 0 <= k < n ==> #[trigger] parts@[k]@ == sp[k],
            i < n,
            forall|k: int| 0 <= k < i ==> hex_group(#[trigger] sp[k]),
            words@ == sp.take(i as int).map_values(|t: Seq<char>| hex_value(t) as u16),
        decreases n - i,
    {
        match read_hex_group(&parts[i]) {
            Some(w) => {
                words.push(w);
                proof {
                    assert(sp.take(i + 1).map_values(|t: Seq<char>| hex_value(t) as u16)
                        =~= sp.take(i as int).map_values(|t: Seq<char>| hex_value(t) as u16).push(
                        w,
                    ));
                }
            },
            None => {
                return None;
            },
        }
        i = i + 1;
    }
    match read_hex_group(&parts[n - 1]) {
        Some(w) => {
            words.push(w);
            proof {
                assert(words@ =~= sp.map_values(|t: Seq<char>| hex_value(t) as u16));
            }
            Some(words)
        },
        None => {
            if !allow_v4 {
                return None;
            }
            match parse_ipv4(&parts[n - 1]) {
                Some(o) => {
                    words.push((o[0] as u16) * 256 + (o[1] as u16));
                    words.push((o[2] as u16) * 256 + (o[3] as u16));
                    proof {
                        assert(sp.drop_last() =~= sp.take(n - 1));
                    }
                    Some(words)
                },
                None => None,
            }
        },
    }
}

/// `split_on` always yields at least one part.
proof fn lemma_split_nonempty(s: Seq<char>, c: char)
    ensures
        split_on(s, c).len() >= 1,
{
    lemma_split_step(s, c);
}

/// Finds the first `::`.
fn find_double_colon(v: &Vec<char>) -> (r: usize)
    ensures
        r == double_colon(v@),
{
    let mut i: usize = 0;
    proof {
        assert(v@.skip(0) =~= v@);
    }
    while v.len() >= 2 && i < v.len() - 1
        invariant
            i <= v.len(),
            double_colon(v@) == i + double_colon(v@.skip(i as int)),
        decreases v.len() - i,
    {
        if v[i] == ':' && v[i + 1] == ':' {
            proof {
                assert(v@.skip(i as int)[0] == v@[i as int]);
                assert(v@.skip(i as int)[1] == v@[i + 1]);
            }
            return i;
        }
        proof {
            assert(v@.skip(i as int).drop_first() =~= v@.skip(i + 1));
        }
        i = i + 1;
    }
    proof {
        assert(v@.skip(i as int).len() < 2);
    }
    v.len()
}

/// The big-endian bytes of words.
fn words_to_bytes(w: &Vec<u16>) -> (r: Vec<u8>)
    ensures
        r@ == word_bytes(w@),
{
    let mut out: Vec<u8> = Vec::new();
    let mut i: usize = 0;
    while i < w.len()
        invariant
            i <= w.len(),
            out@ == word_bytes(w@.take(i as int)),
        decreases w.len() - i,
    {
        out.push((w[i] / 256) as u8);
        out.push((w[i] % 256) as u8);
        proof {
            assert(w@.take(i + 1).drop_last() =~= w@.take(i as int));
        }
        i = i + 1;
    }
    proof {
        assert(w@.take(i as int) =~= w@);
    }
    out
}

/// The characters of `v` in `[from, to)`.
fn slice_chars(v: &Vec<char>, from: usize, to: usize) -> (r: Vec<char>)
    requires
        from <= to <= v.len(),
    ensures
        r@ == v@.subrange(from as int, to as int),
{
    let mut out: Vec<char> = Vec::new();
    let mut i: usize = from;
    while i < to
        invariant
            from <= i <= to,
            to <= v.len(),
            out@ == v@.subrange(from as int, i as int),
        decreases to - i,
    {
        out.push(v[i]);
        proof {
            assert(v@.subrange(from as int, i + 1) =~= v@.subrange(from as int, i as int).push(
                v@[i as int],
            ));
        }
        i = i + 1;
    }
    out
}

/// Reads an IPv6 literal.
pub fn parse_ipv6(v: &Vec<char>) -> (r: Option<Vec<u8>>)
    ensures
        match ipv6_octets(v@) {
            Some(o) => (r matches Some(b) && b@ == o),
            None => r is None,
        },
{
    let p = find_double_colon(v);
    if p < v.len() {
        let head = slice_chars(v, 0, p);
        proof {
            lemma_double_colon(v@);
        }
        let tail = slice_chars(v, p + 2, v.len());
        proof {
            assert(head@ =~= v@.take(p as int));
            assert(tail@ =~= v@.skip(p + 2));
        }
        let h = match read_side(&head, false) {
            Some(h) => h,
            None => return None,
        };
        let t = match read_side(&tail, true) {
            Some(t) => t,
            None => return None,
        };
        if h.len() > 7 || t.len() > 7 - h.len() {
            return None;
        }
        let mut words: Vec<u16> = Vec::new();
        let mut i: usize = 0;
        while i < h.len()
            invariant
                i <= h.len(),
                words@ == h@.take(i as int),
            decreases h.len() - i,
        {
            words.push(h[i]);
            proof {
                assert(h@.take(i + 1) =~= h@.take(i as int).push(h@[i as int]));
            }
            i = i + 1;
        }
        let zeros = 8 - h.len() - t.len();
        let mut z: usize = 0;
        while z < zeros
            invariant
                z <= zeros,
                h.len() + t.len() + zeros == 8,
                words@ == h@ + Seq::new(z as nat, |k: int| 0u16),
            decreases zeros - z,
        {
            words.push(0);
            proof {
                assert(h@ + Seq::new((z + 1) as nat, |k: int| 0u16) =~= (h@ + Seq::new(
                    z as nat,
                    |k: int| 0u16,
                )).push(0));
            }
            z = z + 1;
        }
        let mut j: usize = 0;
        while j < t.len()
            invariant
                j <= t.len(),
                words@ == h@ + Seq::new(zeros as nat, |k: int| 0u16) + t@.take(j as int),
            decreases t.len() - j,
        {
            words.push(t[j]);
            proof {
                assert(t@.take(j + 1) =~= t@.take(j as int).push(t@[j as int]));
            }
            j = j + 1;
        }
        proof {
            assert(t@.take(j as int) =~= t@);
        }
        Some(words_to_bytes(&words))
    } else {
        let w = match read_side(v, true) {
            Some(w) => w,
            None => return None,
        };
        if w.len() != 8 {
            return None;
        }
        Some(words_to_bytes(&w))
    }
}

/// A found `::` lies inside the text.
proof fn lemma_double_colon(s: Seq<char>)
    ensures
        double_colon(s) <= s.len(),
        double_colon(s) < s.len() ==> double_colon(s) + 2 <= s.len(),
    decreases s.len(),
{
    if s.len() >= 2 && !(s[0] == ':' && s[1] == ':') {
        lemma_double_colon(s.drop_first());
    }
}

} // verus!
