use vstd::prelude::*;

use crate::text::{dot_pos, find_dot};

verus! {

/// A library version: major, minor and patch numbers.
#[derive(Clone, Copy, Debug, PartialEq, Eq, Structural)]
pub struct Version(pub u16, pub u16, pub u16);

/// Versions are ordered by major, then minor, then patch number.
pub open spec fn version_lt(a: Version, b: Version) -> bool {
    ||| a.0 < b.0
    ||| (a.0 == b.0 && a.1 < b.1)
    ||| (a.0 == b.0 && a.1 == b.1 && a.2 < b.2)
}

/// The order of optional versions: no version comes before every version.
pub open spec fn opt_version_lt(a: Option<Version>, b: Option<Version>) -> bool {
    match (a, b) {
        (None, Some(_)) => true,
        (Some(x), Some(y)) => version_lt(x, y),
        _ => false,
    }
}

/// The lower of two optional versions (`b` when neither is lower).
pub open spec fn min_version(a: Option<Version>, b: Option<Version>) -> Option<Version> {
    if opt_version_lt(a, b) {
        a
    } else {
        b
    }
}

/// The order of optional versions is a strict total order.
pub proof fn lemma_opt_version_order(a: Option<Version>, b: Option<Version>, c: Option<Version>)
    ensures
        !opt_version_lt(a, a),
        a != b ==> opt_version_lt(a, b) || opt_version_lt(b, a),
        !(opt_version_lt(a, b) && opt_version_lt(b, a)),
        opt_version_lt(a, b) && opt_version_lt(b, c) ==> opt_version_lt(a, c),
{
}

/// Taking the lower of optional versions is commutative, associative and idempotent.
pub proof fn lemma_min_version(a: Option<Version>, b: Option<Version>, c: Option<Version>)
    ensures
        min_version(a, b) == min_version(b, a),
        min_version(min_version(a, b), c) == min_version(a, min_version(b, c)),
        min_version(a, a) == a,
{
    lemma_opt_version_order(a, b, c);
    lemma_opt_version_order(a, c, b);
    lemma_opt_version_order(b, c, a);
    lemma_opt_version_order(b, a, c);
    lemma_opt_version_order(c, a, b);
    lemma_opt_version_order(c, b, a);
}

/// Versions are ordered as the numbers major * 2^32 + minor * 2^16 + patch;
/// no version is lower than none, and none is lower than every version.
pub proof fn law_version_order(a: Version, b: Version)
    ensures
        version_lt(a, b) <==> (a.0 as int) * 0x1_0000_0000 + (a.1 as int) * 0x1_0000 + (a.2 as int)
            < (b.0 as int) * 0x1_0000_0000 + (b.1 as int) * 0x1_0000 + (b.2 as int),
        opt_version_lt(Some(a), Some(b)) <==> version_lt(a, b),
        opt_version_lt(None, Some(a)),
        !opt_version_lt(Some(a), None),
        !opt_version_lt(None::<Version>, None),
{
}

impl Version {
    /// Whether `self` comes strictly before `other`.
    pub fn lt(&self, other: &Version) -> (r: bool)
        ensures
            r == version_lt(*self, *other),
    {
        self.0 < other.0 || (self.0 == other.0 && (self.1 < other.1 || (self.1 == other.1
            && self.2 < other.2)))
    }
}

/// Whether the optional version `a` comes strictly before `b`, as `a < b` orders them.
pub fn opt_version_less(a: Option<Version>, b: Option<Version>) -> (r: bool)
    ensures
        r == opt_version_lt(a, b),
{
    match (a, b) {
        (None, Some(_)) => true,
        (Some(x), Some(y)) => x.lt(&y),
        _ => false,
    }
}


/// Whether `c` is an ASCII decimal digit.
pub open spec fn is_digit(c: char) -> bool {
    48 <= (c as int) <= 57
}

/// Whether every character of `s` is an ASCII decimal digit.
pub open spec fn all_digits(s: Seq<char>) -> bool {
    forall|i: int| 0 <= i < s.len() ==> is_digit(#[trigger] s[i])
}

/// The number that the decimal digits `s` write.
pub open spec fn decimal_value(s: Seq<char>) -> int
    decreases s.len(),
{
    if s.len() == 0 {
        0
    } else {
        decimal_value(s.drop_last()) * 10 + ((s.last() as int) - 48)
    }
}

/// A prefix of a run of digits writes no larger a number than the run.
proof fn lemma_decimal_prefix(s: Seq<char>, k: int)
    requires
        all_digits(s),
        0 <= k <= s.len(),
    ensures
        0 <= decimal_value(s.take(k)) <= decimal_value(s),
    decreases s.len(),
{
    if k == s.len() {
        assert(s.take(k) =~= s);
        lemma_decimal_nonneg(s);
    } else {
        assert(is_digit(s[s.len() - 1]));
        lemma_decimal_prefix(s.drop_last(), k);
        assert(s.drop_last().take(k) =~= s.take(k));
    }
}

/// The number that digits write is not negative.
proof fn lemma_decimal_nonneg(s: Seq<char>)
    requires
        all_digits(s),
    ensures
        0 <= decimal_value(s),
    decreases s.len(),
{
    if s.len() > 0 {
        assert(is_digit(s[s.len() - 1]));
        lemma_decimal_nonneg(s.drop_last());
    }
}

/// A `u16` written in decimal, with an optional leading `+`, as `str::parse::<u16>` reads it.
pub open spec fn spec_parse_u16(s: Seq<char>) -> Option<u16> {
    let d = if s.len() > 0 && s[0] == '+' {
        s.drop_first()
    } else {
        s
    };
    if d.len() > 0 && all_digits(d) && decimal_value(d) <= 0xffff {
        Some(decimal_value(d) as u16)
    } else {
        None
    }
}

/// Reads a `u16` written in decimal, with an optional leading `+`.
pub fn parse_u16(s: &str) -> (r: Option<u16>)
    ensures
        r == spec_parse_u16(s@),
{
    let n = s.unicode_len();
    let mut start: usize = 0;
    if n > 0 && s.get_char(0) == '+' {
        start = 1;
    }
    let ghost d = if s@.len() > 0 && s@[0] == '+' {
        s@.drop_first()
    } else {
        s@
    };
    assert(d =~= s@.skip(start as int));
    if start == n {
        return None;
    }
    let mut acc: u32 = 0;
    let mut i: usize = start;
    assert(d.take(0) =~= Seq::<char>::empty());
    while i < n
        invariant
            n == s@.len(),
            start <= i <= n,
            start < n,
            d == s@.skip(start as int),
            d == (if s@.len() > 0 && s@[0] == '+' {
                s@.drop_first()
            } else {
                s@
            }),
            all_digits(d.take(i - start)),
            acc == decimal_value(d.take(i - start)),
            acc <= 0xffff,
        decreases n - i,
    {
        let code = s.get_char(i) as u32;
        assert(d[i - start] == s@[i as int]);
        if code < 48 || code > 57 {
            assert(!is_digit(d[i - start]));
            return None;
        }
        let v = acc * 10 + (code - 48);
        assert(d.take(i - start + 1).drop_last() =~= d.take(i - start));
        assert(all_digits(d.take(i - start + 1)));
        if v > 0xffff {
            proof {
                if all_digits(d) {
                    lemma_decimal_prefix(d, i - start + 1);
                }
            }
            return None;
        }
        acc = v;
        i += 1;
    }
    assert(d.take(n - start) =~= d);
    Some(acc as u16)
}

/// The part of `s` before its first `.` (all of `s` if it has none).
pub open spec fn first_piece(s: Seq<char>) -> Seq<char> {
    match dot_pos(s) {
        Some(d) => s.take(d),
        None => s,
    }
}

/// The part of `s` after its first `.`, if it has one.
pub open spec fn after_dot(s: Seq<char>) -> Option<Seq<char>> {
    match dot_pos(s) {
        Some(d) => Some(s.skip(d + 1)),
        None => None,
    }
}

/// The version that `s` writes: up to three dot-separated numbers, read from
/// the left as long as they read as numbers; missing numbers are zero.
pub open spec fn spec_parse_version(s: Seq<char>) -> Version {
    match spec_parse_u16(first_piece(s)) {
        None => Version(0, 0, 0),
        Some(a) => match after_dot(s) {
            None => Version(a, 0, 0),
            Some(s1) => match spec_parse_u16(first_piece(s1)) {
                None => Version(a, 0, 0),
                Some(b) => match after_dot(s1) {
                    None => Version(a, b, 0),
                    Some(s2) => match spec_parse_u16(first_piece(s2)) {
                        None => Version(a, b, 0),
                        Some(c) => Version(a, b, c),
                    },
                },
            },
        },
    }
}

/// Splits `s` at its first `.`.
fn split_piece(s: &str) -> (r: (&str, Option<&str>))
    ensures
        r.0@ == first_piece(s@),
        match r.1 {
            Some(rest) => after_dot(s@) == Some(rest@),
            None => after_dot(s@) is None,
        },
{
    match find_dot(s) {
        Some(d) => {
            let n = s.unicode_len();
            let head = s.substring_char(0, d);
            let rest = s.substring_char(d + 1, n);
            assert(head@ =~= s@.take(d as int));
            assert(rest@ =~= s@.skip(d + 1));
            (head, Some(rest))
        },
        None => (s, None),
    }
}

/// Reads a version such as `3.22` or `2.58.1`.
pub fn parse_version(s: &str) -> (r: Version)
    ensures
        r == spec_parse_version(s@),
{
    let (p0, rest0) = split_piece(s);
    let a = match parse_u16(p0) {
        Some(a) => a,
        None => return Version(0, 0, 0),
    };
    let s1 = match rest0 {
        Some(s1) => s1,
        None => return Version(a, 0, 0),
    };
    let (p1, rest1) = split_piece(s1);
    let b = match parse_u16(p1) {
        Some(b) => b,
        None => return Version(a, 0, 0),
    };
    let s2 = match rest1 {
        Some(s2) => s2,
        None => return Version(a, b, 0),
    };
    let (p2, _) = split_piece(s2);
    match parse_u16(p2) {
        Some(c) => Version(a, b, c),
        None => Version(a, b, 0),
    }
}

} // verus!
