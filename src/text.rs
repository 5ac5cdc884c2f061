//! Byte-level text helpers: UTF-8 checking, whitespace-separated fields and
//! decimal numbers.
use vstd::prelude::*;
use vstd::string::StringSliceAdditionalSpecFns;
use vstd::utf8::valid_utf8;

verus! {

/// Relies on `core::str::from_utf8`: it succeeds exactly on valid UTF-8, and
/// the string it gives holds the same bytes.
#[verifier::external_body]
pub(crate) fn str_from_utf8(bytes: &[u8]) -> (r: Option<&str>)
    ensures
        r is Some <==> valid_utf8(bytes@),
        r matches Some(s) ==> s.spec_bytes() == bytes@,
{
    core::str::from_utf8(bytes).ok()
}

/// ASCII whitespace: space, tab, line feed, vertical tab, form feed,
/// carriage return.
pub open spec fn is_space(b: u8) -> bool {
    b == 0x20 || (0x09 <= b && b <= 0x0D)
}

/// The first position at or after `i` that holds no whitespace.
pub open spec fn skip_space(l: Seq<u8>, i: int) -> int
    decreases l.len() - i,
{
    if 0 <= i < l.len() && is_space(l[i]) {
        skip_space(l, i + 1)
    } else {
        i
    }
}

/// The first position at or after `i` that holds whitespace, or the end.
pub open spec fn token_end(l: Seq<u8>, i: int) -> int
    decreases l.len() - i,
{
    if 0 <= i < l.len() && !is_space(l[i]) {
        token_end(l, i + 1)
    } else {
        i
    }
}

/// Where whitespace-separated field `k` (from 0) of `l` starts.
pub open spec fn field_start(l: Seq<u8>, k: nat) -> int
    decreases k,
{
    if k == 0 {
        skip_space(l, 0)
    } else {
        skip_space(l, token_end(l, field_start(l, (k - 1) as nat)))
    }
}

/// Whitespace-separated field `k` of `l`, if there is one.
pub open spec fn field(l: Seq<u8>, k: nat) -> Option<Seq<u8>> {
    let s = field_start(l, k);
    if s >= l.len() {
        None
    } else {
        Some(l.subrange(s, token_end(l, s)))
    }
}

proof fn lemma_token_end_bounds(l: Seq<u8>, i: int)
    requires
        0 <= i,
    ensures
        i <= token_end(l, i),
        i <= l.len() ==> token_end(l, i) <= l.len(),
    decreases l.len() - i,
{
    if 0 <= i < l.len() && !is_space(l[i]) {
        lemma_token_end_bounds(l, i + 1);
    }
}

fn skip_space_from(l: &[u8], i: usize) -> (r: usize)
    requires
        i <= l@.len(),
    ensures
        r == skip_space(l@, i as int),
        r <= l@.len(),
{
    let mut j = i;
    while j < l.len() && (l[j] == 0x20 || (0x09 <= l[j] && l[j] <= 0x0D))
        invariant
            i <= j <= l@.len(),
            skip_space(l@, i as int) == skip_space(l@, j as int),
        decreases l@.len() - j,
    {
        j = j + 1;
    }
    j
}

fn token_end_from(l: &[u8], i: usize) -> (r: usize)
    requires
        i <= l@.len(),
    ensures
        r == token_end(l@, i as int),
        r <= l@.len(),
{
    let mut j = i;
    while j < l.len() && !(l[j] == 0x20 || (0x09 <= l[j] && l[j] <= 0x0D))
        invariant
            i <= j <= l@.len(),
            token_end(l@, i as int) == token_end(l@, j as int),
        decreases l@.len() - j,
    {
        j = j + 1;
    }
    j
}

/// The bounds of whitespace-separated field `k` of `l`, as `field` states.
pub fn field_bounds(l: &[u8], k: usize) -> (r: Option<(usize, usize)>)
    ensures
        field(l@, k as nat) is None ==> r is None,
        field(l@, k as nat) matches Some(t) ==> r matches Some((s, e)) && s <= e <= l@.len()
            && l@.subrange(s as int, e as int) == t,
{
    let mut s = skip_space_from(l, 0);
    let mut n: usize = 0;
    while n < k
        invariant
            n <= k,
            s <= l@.len(),
            s == field_start(l@, n as nat),
        decreases k - n,
    {
        let e = token_end_from(l, s);
        s = skip_space_from(l, e);
        n = n + 1;
    }
    if s >= l.len() {
        return None;
    }
    let e = token_end_from(l, s);
    proof {
        lemma_token_end_bounds(l@, s as int);
    }
    Some((s, e))
}

/// Whether `l` starts with `p`.
pub open spec fn has_prefix(l: Seq<u8>, p: Seq<u8>) -> bool {
    p.len() <= l.len() && l.subrange(0, p.len() as int) == p
}

/// Whether `l` starts with `p`.
pub fn starts_with(l: &[u8], p: &[u8]) -> (r: bool)
    ensures
        r == has_prefix(l@, p@),
{
    if p.len() > l.len() {
        return false;
    }
    let mut i: usize = 0;
    while i < p.len()
        invariant
            p@.len() <= l@.len(),
            i <= p@.len(),
            forall|k: int| 0 <= k < i ==> l@[k] == p@[k],
        decreases p@.len() - i,
    {
        if l[i] != p[i] {
            assert(l@.subrange(0, p@.len() as int)[i as int] != p@[i as int]);
            return false;
        }
        i = i + 1;
    }
    assert(l@.subrange(0, p@.len() as int) =~= p@);
    true
}

/// Whether every byte of `s` is a decimal digit.
pub open spec fn all_digits(s: Seq<u8>) -> bool {
    forall|i: int| 0 <= i < s.len() ==> 0x30 <= #[trigger] s[i] <= 0x39
}

/// The number that the decimal digits `s` spell.
pub open spec fn digits_value(s: Seq<u8>) -> int
    decreases s.len(),
{
    if s.len() == 0 {
        0
    } else {
        digits_value(s.drop_last()) * 10 + (s.last() - 0x30)
    }
}

/// The digits of a number with an optional leading `sign` byte.
pub open spec fn unsigned_part(t: Seq<u8>, sign: u8) -> Seq<u8> {
    if t.len() > 0 && t[0] == sign { t.drop_first() } else { t }
}

/// A non-negative decimal number, with an optional `+`, that fits `usize`.
pub open spec fn spec_parse_usize(t: Seq<u8>) -> Option<usize> {
    let d = unsigned_part(t, 0x2B);
    if d.len() == 0 || !all_digits(d) || digits_value(d) > usize::MAX {
        None
    } else {
        Some(digits_value(d) as usize)
    }
}

/// A decimal number, with an optional `+` or `-`, that fits `i32`.
pub open spec fn spec_parse_i32(t: Seq<u8>) -> Option<i32> {
    if t.len() > 0 && t[0] == 0x2D {
        let d = t.drop_first();
        if d.len() == 0 || !all_digits(d) || digits_value(d) > 0x8000_0000 {
            None
        } else {
            Some((-digits_value(d)) as i32)
        }
    } else {
        let d = unsigned_part(t, 0x2B);
        if d.len() == 0 || !all_digits(d) || digits_value(d) > 0x7FFF_FFFF {
            None
        } else {
            Some(digits_value(d) as i32)
        }
    }
}

proof fn lemma_digits_value_nonneg(s: Seq<u8>)
    requires
        all_digits(s),
    ensures
        digits_value(s) >= 0,
    decreases s.len(),
{
    if s.len() > 0 {
        assert(all_digits(s.drop_last())) by {
            assert forall|i: int| 0 <= i < s.drop_last().len() implies 0x30 <= #[trigger] s.drop_last()[i] <= 0x39 by {
                assert(s.drop_last()[i] == s[i]);
            }
        }
        lemma_digits_value_nonneg(s.drop_last());
    }
}

/// The value of the digits `l[s..e]` if all are digits and the value is at
/// most `limit`.
fn digits_up_to(l: &[u8], s: usize, e: usize, limit: u64) -> (r: Option<u64>)
    requires
        s <= e <= l@.len(),
        limit >= 9,
    ensures
        r matches Some(v) ==> v as int == digits_value(l@.subrange(s as int, e as int)),
        ({
            let d = l@.subrange(s as int, e as int);
            if !all_digits(d) || digits_value(d) > limit {
                r is None
            } else {
                r == Some(digits_value(d) as u64)
            }
        }),
{
    let mut v: u64 = 0;
    let mut i = s;
    while i < e
        invariant
            s <= i <= e <= l@.len(),
            limit >= 9,
            all_digits(l@.subrange(s as int, i as int)),
            v == digits_value(l@.subrange(s as int, i as int)),
            v <= limit,
        decreases e - i,
    {
        let b = l[i];
        let ghost prefix = l@.subrange(s as int, i as int);
        let ghost next = l@.subrange(s as int, i + 1);
        assert(next.drop_last() =~= prefix);
        if b < 0x30 || b > 0x39 {
            proof {
                assert(!all_digits(l@.subrange(s as int, e as int))) by {
                    assert(l@.subrange(s as int, e as int)[i - s] == b);
                }
            }
            return None;
        }
        let digit = (b - 0x30) as u64;
        if v > (limit - digit) / 10 {
            proof {
                assert(v * 10 + digit > limit) by (nonlinear_arith)
                    requires
                        v > (limit - digit) / 10,
                        digit <= limit || digit > limit,
                ;
                lemma_digits_prefix_grows(l@, s as int, i + 1, e as int);
            }
            return None;
        }
        proof {
            assert(v * 10 + digit <= limit) by (nonlinear_arith)
                requires
                    v <= (limit - digit) / 10,
                    digit <= limit,
            ;
        }
        v = v * 10 + digit;
        proof {
            assert forall|k: int| 0 <= k < next.len() implies 0x30 <= #[trigger] next[k] <= 0x39 by {
                if k < prefix.len() {
                    assert(next[k] == prefix[k]);
                }
            }
        }
        i = i + 1;
    }
    Some(v)
}

/// Appending digits never makes the value smaller.
proof fn lemma_digits_prefix_grows(l: Seq<u8>, s: int, m: int, e: int)
    requires
        0 <= s <= m <= e <= l.len(),
        all_digits(l.subrange(s, m)),
    ensures
        all_digits(l.subrange(s, e)) ==> digits_value(l.subrange(s, e)) >= digits_value(l.subrange(s, m)),
    decreases e - m,
{
    if m < e && all_digits(l.subrange(s, e)) {
        assert(l.subrange(s, e).drop_last() =~= l.subrange(s, e - 1));
        assert(all_digits(l.subrange(s, e - 1))) by {
            assert forall|i: int| 0 <= i < l.subrange(s, e - 1).len() implies 0x30 <= #[trigger] l.subrange(s, e - 1)[i] <= 0x39 by {
                assert(l.subrange(s, e - 1)[i] == l.subrange(s, e)[i]);
            }
        }
        lemma_digits_prefix_grows(l, s, m, e - 1);
        lemma_digits_value_nonneg(l.subrange(s, e - 1));
    }
}

/// Parses `l[s..e]` as `spec_parse_usize` states.
pub fn parse_usize(l: &[u8], s: usize, e: usize) -> (r: Option<usize>)
    requires
        s <= e <= l@.len(),
    ensures
        r == spec_parse_usize(l@.subrange(s as int, e as int)),
{
    let ghost t = l@.subrange(s as int, e as int);
    let start = if s < e && l[s] == 0x2B { s + 1 } else { s };
    assert(unsigned_part(t, 0x2B) =~= l@.subrange(start as int, e as int));
    if start == e {
        return None;
    }
    match digits_up_to(l, start, e, usize::MAX as u64) {
        Some(v) => Some(v as usize),
        None => None,
    }
}

/// Parses `l[s..e]` as `spec_parse_i32` states.
pub fn parse_i32(l: &[u8], s: usize, e: usize) -> (r: Option<i32>)
    requires
        s <= e <= l@.len(),
    ensures
        r == spec_parse_i32(l@.subrange(s as int, e as int)),
{
    let ghost t = l@.subrange(s as int, e as int);
    if s < e && l[s] == 0x2D {
        assert(t.drop_first() =~= l@.subrange(s + 1, e as int));
        if s + 1 == e {
            return None;
        }
        match digits_up_to(l, s + 1, e, 0x8000_0000) {
            Some(v) => {
                proof {
                    lemma_digits_value_nonneg(l@.subrange(s + 1, e as int));
                }
                Some((0 - v as i64) as i32)
            },
            None => None,
        }
    } else {
        let start = if s < e && l[s] == 0x2B { s + 1 } else { s };
        assert(unsigned_part(t, 0x2B) =~= l@.subrange(start as int, e as int));
        if start == e {
            return None;
        }
        match digits_up_to(l, start, e, 0x7FFF_FFFF) {
            Some(v) => Some(v as i32),
            None => None,
        }
    }
}

} // verus!
