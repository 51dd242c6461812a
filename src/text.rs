//! Character-level helpers on strings: equality, prefixes, decimal numbers
//! and dot-separated version parts.
use vstd::prelude::*;
use vstd::string::StrSliceExecFns;

verus! {

/// The characters of `s`, in order.
pub fn chars_of(s: &str) -> (r: Vec<char>)
    ensures
        r@ == s@,
{
    let n = s.unicode_len();
    let mut out: Vec<char> = Vec::new();
    let mut i: usize = 0;
    while i < n
        invariant
            n == s@.len(),
            i <= n,
            out@ == s@.take(i as int),
        decreases n - i,
    {
        let c = s.get_char(i);
        out.push(c);
        i = i + 1;
        assert(out@ =~= s@.take(i as int));
    }
    assert(out@ =~= s@);
    out
}

/// Whether two strings hold the same characters.
pub fn str_eq(a: &str, b: &str) -> (r: bool)
    ensures
        r == (a@ == b@),
{
    let n = a.unicode_len();
    let m = b.unicode_len();
    if n != m {
        return false;
    }
    let mut i: usize = 0;
    while i < n
        invariant
            n == a@.len(),
            n == b@.len(),
            i <= n,
            a@.take(i as int) == b@.take(i as int),
        decreases n - i,
    {
        if a.get_char(i) != b.get_char(i) {
            return false;
        }
        i = i + 1;
        assert(a@.take(i as int) =~= a@.take(i - 1).push(a@[i - 1]));
        assert(b@.take(i as int) =~= b@.take(i - 1).push(b@[i - 1]));
    }
    assert(a@ =~= a@.take(n as int));
    assert(b@ =~= b@.take(n as int));
    true
}

/// Whether `s` begins with the characters of `p`.
pub fn starts_with(s: &Vec<char>, p: &str) -> (r: bool)
    ensures
        r == (p@.len() <= s@.len() && s@.take(p@.len() as int) == p@),
{
    let m = p.unicode_len();
    if m > s.len() {
        return false;
    }
    let mut i: usize = 0;
    while i < m
        invariant
            m == p@.len(),
            m <= s@.len(),
            i <= m,
            s@.take(i as int) == p@.take(i as int),
        decreases m - i,
    {
        if s[i] != p.get_char(i) {
            assert(s@.take(m as int)[i as int] != p@[i as int]);
            return false;
        }
        i = i + 1;
        assert(s@.take(i as int) =~= s@.take(i - 1).push(s@[i - 1]));
        assert(p@.take(i as int) =~= p@.take(i - 1).push(p@[i - 1]));
    }
    assert(p@ =~= p@.take(m as int));
    true
}

/// Whether `s` holds the character `c`.
pub fn contains_char(s: &str, c: char) -> (r: bool)
    ensures
        r == s@.contains(c),
{
    let n = s.unicode_len();
    let mut i: usize = 0;
    while i < n
        invariant
            n == s@.len(),
            i <= n,
            forall|j: int| 0 <= j < i ==> s@[j] != c,
        decreases n - i,
    {
        if s.get_char(i) == c {
            return true;
        }
        i = i + 1;
    }
    false
}

pub open spec fn is_digit(c: char) -> bool {
    '0' <= c && c <= '9'
}

pub open spec fn digit_value(c: char) -> int {
    (c as u32) as int - ('0' as u32) as int
}

/// The number that a run of decimal digits spells, most significant first.
pub open spec fn decimal_value(s: Seq<char>) -> int
    decreases s.len(),
{
    if s.len() == 0 {
        0
    } else {
        10 * decimal_value(s.drop_last()) + digit_value(s.last())
    }
}

pub open spec fn all_digits(s: Seq<char>) -> bool {
    forall|i: int| 0 <= i < s.len() ==> is_digit(#[trigger] s[i])
}

/// The value of a non-empty run of decimal digits, or `None` when the run
/// is empty or holds anything else.
pub open spec fn digits_value(s: Seq<char>) -> Option<int> {
    if s.len() > 0 && all_digits(s) {
        Some(decimal_value(s))
    } else {
        None
    }
}

/// What std's integer `from_str` reads: an optional `+` (or, for a signed
/// type, `-`) and then at least one decimal digit, with nothing else.
pub open spec fn signed_value(s: Seq<char>, signed: bool) -> Option<int> {
    if s.len() > 0 && s[0] == '+' {
        digits_value(s.skip(1))
    } else if signed && s.len() > 0 && s[0] == '-' {
        match digits_value(s.skip(1)) {
            Some(v) => Some(-v),
            None => None,
        }
    } else {
        digits_value(s)
    }
}

/// `s` read as an `i32`, as `str::parse::<i32>` reads it.
pub open spec fn parse_i32_spec(s: Seq<char>) -> Option<i32> {
    match signed_value(s, true) {
        Some(v) => if i32::MIN <= v <= i32::MAX {
            Some(v as i32)
        } else {
            None
        },
        None => None,
    }
}

/// `s` read as a `u32`, as `str::parse::<u32>` reads it.
pub open spec fn parse_u32_spec(s: Seq<char>) -> Option<u32> {
    match signed_value(s, false) {
        Some(v) => if 0 <= v <= u32::MAX {
            Some(v as u32)
        } else {
            None
        },
        None => None,
    }
}

/// A run of digits spells a number that is not negative.
pub proof fn lemma_decimal_nonneg(s: Seq<char>)
    requires
        all_digits(s),
    ensures
        decimal_value(s) >= 0,
    decreases s.len(),
{
    if s.len() > 0 {
        assert(all_digits(s.drop_last())) by {
            assert forall|i: int| 0 <= i < s.drop_last().len() implies is_digit(
                #[trigger] s.drop_last()[i],
            ) by {
                assert(s.drop_last()[i] == s[i]);
            }
        }
        lemma_decimal_nonneg(s.drop_last());
        assert(is_digit(s[s.len() - 1]));
    }
}

/// The value of the digits `s[start..end]` when it is at most `limit`.
fn bounded_decimal(s: &Vec<char>, start: usize, end: usize, limit: u64) -> (r: Option<u64>)
    requires
        start <= end <= s@.len(),
        limit <= 0x1_0000_0000,
    ensures
        match digits_value(s@.subrange(start as int, end as int)) {
            Some(v) => if v <= limit {
                r == Some(v as u64)
            } else {
                r is None
            },
            None => r is None,
        },
{
    if start == end {
        return None;
    }
    let mut acc: u64 = 0;
    let mut big = false;
    let mut i: usize = start;
    while i < end
        invariant
            start <= i <= end <= s@.len(),
            limit <= 0x1_0000_0000,
            all_digits(s@.subrange(start as int, i as int)),
            !big ==> acc == decimal_value(s@.subrange(start as int, i as int)) && acc <= limit,
            big ==> decimal_value(s@.subrange(start as int, i as int)) > limit,
        decreases end - i,
    {
        let c = s[i];
        if !('0' <= c && c <= '9') {
            assert(s@.subrange(start as int, end as int)[i - start] == c);
            return None;
        }
        let ghost prev = s@.subrange(start as int, i as int);
        let ghost next = s@.subrange(start as int, i + 1);
        assert(next.drop_last() =~= prev);
        assert(next.last() == c);
        assert(all_digits(next)) by {
            assert forall|j: int| 0 <= j < next.len() implies is_digit(#[trigger] next[j]) by {
                if j < prev.len() {
                    assert(next[j] == prev[j]);
                }
            }
        }
        let d: u64 = (c as u32 - '0' as u32) as u64;
        assert(d as int == digit_value(c));
        if !big {
            let nv: u64 = acc * 10 + d;
            if nv > limit {
                big = true;
            } else {
                acc = nv;
            }
        } else {
            proof {
                let x = decimal_value(prev);
                assert(10 * x + d > limit) by (nonlinear_arith)
                    requires
                        x > limit,
                        limit >= 0,
                        d >= 0,
                ;
            }
        }
        i = i + 1;
    }
    if big {
        None
    } else {
        Some(acc)
    }
}

/// Reads `s[start..end]` as std reads an integer: optional sign, then digits.
/// `signed` admits a leading `-`; the result is the magnitude and whether it
/// was negated, when the magnitude is at most `limit`.
fn signed_magnitude(s: &Vec<char>, start: usize, end: usize, signed: bool, limit: u64) -> (r:
    Option<(bool, u64)>)
    requires
        start <= end <= s@.len(),
        limit <= 0x1_0000_0000,
    ensures
        ({
            let t = s@.subrange(start as int, end as int);
            match signed_value(t, signed) {
                Some(v) => if -limit <= v <= limit {
                    match r {
                        Some((neg, m)) => if neg {
                            v == -(m as int)
                        } else {
                            v == m as int
                        },
                        None => false,
                    }
                } else {
                    r is None
                },
                None => r is None,
            }
        }),
        !signed ==> match signed_value(s@.subrange(start as int, end as int), signed) {
            Some(v) => v >= 0,
            None => true,
        },
{
    let ghost t = s@.subrange(start as int, end as int);
    if start < end && s[start] == '+' {
        assert(t.skip(1) =~= s@.subrange(start + 1, end as int));
        let m = bounded_decimal(s, start + 1, end, limit);
        proof {
            if let Some(v) = digits_value(t.skip(1)) {
                lemma_decimal_nonneg(t.skip(1));
            }
        }
        match m {
            Some(x) => Some((false, x)),
            None => None,
        }
    } else if signed && start < end && s[start] == '-' {
        assert(t.skip(1) =~= s@.subrange(start + 1, end as int));
        let m = bounded_decimal(s, start + 1, end, limit);
        proof {
            if let Some(v) = digits_value(t.skip(1)) {
                lemma_decimal_nonneg(t.skip(1));
            }
        }
        match m {
            Some(x) => Some((true, x)),
            None => None,
        }
    } else {
        let m = bounded_decimal(s, start, end, limit);
        proof {
            if let Some(v) = digits_value(t) {
                lemma_decimal_nonneg(t);
            }
        }
        match m {
            Some(x) => Some((false, x)),
            None => None,
        }
    }
}

/// `s` read as an `i32`, exactly as `str::parse::<i32>` accepts it.
pub fn parse_i32(s: &Vec<char>) -> (r: Option<i32>)
    ensures
        r == parse_i32_spec(s@),
{
    assert(s@.subrange(0, s@.len() as int) =~= s@);
    match signed_magnitude(s, 0, s.len(), true, 0x8000_0000) {
        Some((neg, m)) => {
            if neg {
                let v: i64 = -(m as i64);
                Some(v as i32)
            } else if m <= 0x7fff_ffff {
                Some(m as i32)
            } else {
                None
            }
        },
        None => None,
    }
}

/// `s[start..end]` read as a `u32`, exactly as `str::parse::<u32>` accepts it.
pub fn parse_u32_range(s: &Vec<char>, start: usize, end: usize) -> (r: Option<u32>)
    requires
        start <= end <= s@.len(),
    ensures
        r == parse_u32_spec(s@.subrange(start as int, end as int)),
{
    match signed_magnitude(s, start, end, false, 0xffff_ffff) {
        Some((_, m)) => Some(m as u32),
        None => None,
    }
}

/// `s` cut at every `.`, as `str::split('.')` cuts it: `n` dots give
/// `n + 1` pieces, some of which may be empty.
pub open spec fn split_dots(s: Seq<char>) -> Seq<Seq<char>>
    decreases s.len(),
{
    if s.len() == 0 {
        seq![Seq::empty()]
    } else {
        let rest = split_dots(s.drop_last());
        if s.last() == '.' {
            rest.push(Seq::empty())
        } else {
            rest.update(rest.len() - 1, rest.last().push(s.last()))
        }
    }
}

/// A piece of a version string read as a number; a piece that is not one
/// counts as zero.
pub open spec fn part_number(p: Seq<char>) -> u32 {
    match parse_u32_spec(p) {
        Some(v) => v,
        None => 0,
    }
}

/// The numbers of the dot-separated pieces of a version string.
pub open spec fn version_parts(s: Seq<char>) -> Seq<u32> {
    split_dots(s).map_values(|p: Seq<char>| part_number(p))
}

/// The numbers of the dot-separated pieces of `s` (a piece that is not a
/// `u32` counts as zero).
pub fn version_parts_of(s: &str) -> (r: Vec<u32>)
    ensures
        r@ == version_parts(s@),
{
    let cs = chars_of(s);
    let n = cs.len();
    let mut out: Vec<u32> = Vec::new();
    let mut cur: usize = 0;
    let mut i: usize = 0;
    let ghost mut done: Seq<Seq<char>> = Seq::empty();
    assert(cs@.take(0) =~= Seq::<char>::empty());
    assert(split_dots(cs@.take(0)) =~= done.push(cs@.subrange(0, 0)));
    while i < n
        invariant
            n == cs@.len(),
            cs@ == s@,
            cur <= i <= n,
            split_dots(cs@.take(i as int)) == done.push(cs@.subrange(cur as int, i as int)),
            out@ == done.map_values(|p: Seq<char>| part_number(p)),
        decreases n - i,
    {
        let ghost pre = cs@.take(i as int);
        let ghost nxt = cs@.take(i + 1);
        assert(nxt.drop_last() =~= pre);
        assert(nxt.last() == cs@[i as int]);
        if cs[i] == '.' {
            let v = match parse_u32_range(&cs, cur, i) {
                Some(x) => x,
                None => 0,
            };
            proof {
                let piece = cs@.subrange(cur as int, i as int);
                assert(split_dots(nxt) == split_dots(pre).push(Seq::empty()));
                done = done.push(piece);
                assert(cs@.subrange((i + 1) as int, (i + 1) as int) =~= Seq::<char>::empty());
            }
            out.push(v);
            cur = i + 1;
            proof {
                assert(out@ =~= done.map_values(|p: Seq<char>| part_number(p)));
            }
        } else {
            proof {
                let rest = split_dots(pre);
                assert(rest.len() == done.len() + 1);
                assert(rest.last() == cs@.subrange(cur as int, i as int));
                assert(cs@.subrange(cur as int, i + 1) =~= cs@.subrange(cur as int, i as int).push(
                    cs@[i as int],
                ));
                assert(split_dots(nxt) =~= done.push(cs@.subrange(cur as int, i + 1)));
            }
        }
        i = i + 1;
    }
    let v = match parse_u32_range(&cs, cur, n) {
        Some(x) => x,
        None => 0,
    };
    out.push(v);
    proof {
        assert(cs@.take(n as int) =~= cs@);
        let full = done.push(cs@.subrange(cur as int, n as int));
        assert(out@ =~= full.map_values(|p: Seq<char>| part_number(p)));
    }
    out
}

} // verus!
