use vstd::prelude::*;
use vstd::string::StrSliceExecFns;
use vstd::string::StringExecFns;
use vstd::utf8::is_scalar;

use crate::line_decoder::{char_from_scalar, push_char};

verus! {

/// `c` is one of the ASCII digits `0` to `9`.
pub open spec fn is_digit(c: char) -> bool {
    '0' <= c <= '9'
}

/// Every character of `s` is a digit.
pub open spec fn all_digits(s: Seq<char>) -> bool {
    forall|i: int| 0 <= i < s.len() ==> is_digit(#[trigger] s[i])
}

/// The value of one digit.
pub open spec fn digit_value(c: char) -> nat {
    (c as u32 - '0' as u32) as nat
}

/// The number that the digits `s` write in base ten.
pub open spec fn decimal_value(s: Seq<char>) -> nat
    decreases s.len(),
{
    if s.len() == 0 {
        0
    } else {
        decimal_value(s.drop_last()) * 10 + digit_value(s.last())
    }
}

/// The value of an unsigned integer written as an optional `+` and one or
/// more digits; `None` for any other text.
pub open spec fn unsigned_value(s: Seq<char>) -> Option<nat> {
    let d = if s.len() > 0 && s[0] == '+' {
        s.drop_first()
    } else {
        s
    };
    if d.len() > 0 && all_digits(d) {
        Some(decimal_value(d))
    } else {
        None
    }
}

/// The offset of the first `.` in `s`, or its length when there is none.
pub open spec fn dot_index(s: Seq<char>) -> int
    decreases s.len(),
{
    if s.len() == 0 {
        0
    } else if s[0] == '.' {
        0
    } else {
        1 + dot_index(s.drop_first())
    }
}

/// Thousandths of a second written by the first three digits of a fraction.
pub open spec fn fraction_millis(f: Seq<char>) -> nat {
    (if f.len() > 0 {
        digit_value(f[0]) * 100
    } else {
        0
    }) + (if f.len() > 1 {
        digit_value(f[1]) * 10
    } else {
        0
    }) + (if f.len() > 2 {
        digit_value(f[2])
    } else {
        0
    })
}

/// A number of seconds written in decimal (digits, then optionally `.` and
/// more digits, with at least one digit in all), as whole milliseconds;
/// digits past the third after the point are dropped. `None` for any other
/// text.
pub open spec fn seconds_as_millis(s: Seq<char>) -> Option<nat> {
    let p = dot_index(s);
    let whole = s.subrange(0, p);
    let frac = if p < s.len() {
        s.subrange(p + 1, s.len() as int)
    } else {
        Seq::<char>::empty()
    };
    if all_digits(whole) && all_digits(frac) && whole.len() + frac.len() > 0 {
        Some(decimal_value(whole) * 1000 + fraction_millis(frac))
    } else {
        None
    }
}

/// The digits of `n` in base ten, without leading zeros.
pub open spec fn decimal_text(n: nat) -> Seq<char>
    decreases n,
{
    if n < 10 {
        seq![(48 + n) as char]
    } else {
        decimal_text(n / 10).push((48 + n % 10) as char)
    }
}

/// `s` starts with `prefix`.
pub open spec fn has_prefix(s: Seq<char>, prefix: Seq<char>) -> bool {
    prefix.len() <= s.len() && s.subrange(0, prefix.len() as int) == prefix
}

/// What follows `prefix` in `s`.
pub open spec fn after_prefix(s: Seq<char>, prefix: Seq<char>) -> Seq<char> {
    s.subrange(prefix.len() as int, s.len() as int)
}

/// A longer run of digits is worth at least as much as its beginning.
proof fn lemma_decimal_prefix(s: Seq<char>, k: int)
    requires
        0 <= k <= s.len(),
    ensures
        decimal_value(s.subrange(0, k)) <= decimal_value(s),
    decreases s.len() - k,
{
    if k < s.len() {
        lemma_decimal_prefix(s, k + 1);
        let t = s.subrange(0, k + 1);
        assert(t.drop_last() =~= s.subrange(0, k));
    } else {
        assert(s.subrange(0, k) =~= s);
    }
}

/// Whether `s` starts with `prefix`.
pub fn starts_with(s: &str, prefix: &str) -> (r: bool)
    ensures
        r == has_prefix(s@, prefix@),
{
    let n = prefix.unicode_len();
    let len = s.unicode_len();
    if n > len {
        return false;
    }
    let mut i: usize = 0;
    while i < n
        invariant
            n == prefix@.len(),
            n <= len == s@.len(),
            i <= n,
            forall|j: int| 0 <= j < i ==> s@[j] == prefix@[j],
        decreases n - i,
    {
        if s.get_char(i) != prefix.get_char(i) {
            assert(s@.subrange(0, n as int)[i as int] != prefix@[i as int]);
            return false;
        }
        i = i + 1;
    }
    assert(s@.subrange(0, n as int) =~= prefix@);
    true
}

/// The text of `s` after its first `n` characters.
pub fn text_after(s: &str, n: usize) -> (r: String)
    requires
        n <= s@.len(),
    ensures
        r@ == s@.subrange(n as int, s@.len() as int),
{
    let len = s.unicode_len();
    String::from_str(s.substring_char(n, len))
}

/// The value of the digits `s@[from..to]`, where every one of them is a
/// digit and the value fits in a `u64`.
fn digits_value(s: &str, from: usize, to: usize) -> (r: Option<u64>)
    requires
        from <= to <= s@.len(),
    ensures
        ({
            let d = s@.subrange(from as int, to as int);
            &&& r is Some <==> all_digits(d) && decimal_value(d) <= u64::MAX
            &&& r is Some ==> r->0 == decimal_value(d)
        }),
{
    let ghost d = s@.subrange(from as int, to as int);
    let mut acc: u64 = 0;
    let mut i: usize = from;
    while i < to
        invariant
            from <= i <= to <= s@.len(),
            d == s@.subrange(from as int, to as int),
            all_digits(s@.subrange(from as int, i as int)),
            acc == decimal_value(s@.subrange(from as int, i as int)),
        decreases to - i,
    {
        let c = s.get_char(i);
        let ghost prev = s@.subrange(from as int, i as int);
        let ghost next = s@.subrange(from as int, i + 1);
        assert(next.drop_last() =~= prev);
        assert(next.last() == c);
        if !('0' <= c && c <= '9') {
            assert(!all_digits(d)) by {
                assert(d[i - from] == c);
            }
            return None;
        }
        let v = (c as u32 - '0' as u32) as u64;
        if acc > (u64::MAX - v) / 10 {
            proof {
                assert(next =~= d.subrange(0, i + 1 - from));
                lemma_decimal_prefix(d, i + 1 - from);
                assert(decimal_value(next) == acc * 10 + v);
                assert(acc * 10 + v > u64::MAX) by (nonlinear_arith)
                    requires
                        acc > (u64::MAX - v) / 10,
                        v <= 9,
                ;
            }
            return None;
        }
        proof {
            assert(acc * 10 + v <= u64::MAX) by (nonlinear_arith)
                requires
                    acc <= (u64::MAX - v) / 10,
                    v <= 9,
            ;
        }
        acc = acc * 10 + v;
        i = i + 1;
        assert forall|j: int| 0 <= j < next.len() implies is_digit(#[trigger] next[j]) by {
            if j < prev.len() {
                assert(next[j] == prev[j]);
            }
        }
    }
    Some(acc)
}

/// Parses an unsigned integer as `usize::from_str` does: an optional `+`,
/// then digits, with a value that fits.
pub fn parse_usize(s: &str) -> (r: Option<usize>)
    ensures
        r is Some <==> unsigned_value(s@) is Some && unsigned_value(s@)->0 <= usize::MAX,
        r is Some ==> r->0 == unsigned_value(s@)->0,
{
    let len = s.unicode_len();
    let from: usize = if len > 0 && s.get_char(0) == '+' {
        1
    } else {
        0
    };
    assert(s@.subrange(from as int, len as int) =~= if s@.len() > 0 && s@[0] == '+' {
        s@.drop_first()
    } else {
        s@
    });
    if from == len {
        return None;
    }
    match digits_value(s, from, len) {
        Some(v) => {
            if v > usize::MAX as u64 {
                None
            } else {
                Some(v as usize)
            }
        },
        None => None,
    }
}

/// Parses a number of seconds written in decimal into whole milliseconds,
/// as `seconds_as_millis` states, where the value fits in a `u64`.
pub fn parse_millis(s: &str) -> (r: Option<u64>)
    ensures
        r is Some <==> seconds_as_millis(s@) is Some && seconds_as_millis(s@)->0 <= u64::MAX,
        r is Some ==> r->0 == seconds_as_millis(s@)->0,
{
    let len = s.unicode_len();
    let mut p: usize = 0;
    while p < len && s.get_char(p) != '.'
        invariant
            len == s@.len(),
            p <= len,
            forall|j: int| 0 <= j < p ==> s@[j] != '.',
        decreases len - p,
    {
        p = p + 1;
    }
    proof {
        lemma_dot_index(s@, p as int);
    }
    let frac_from: usize = if p < len {
        p + 1
    } else {
        len
    };
    let ghost whole = s@.subrange(0, p as int);
    let ghost frac = s@.subrange(frac_from as int, len as int);
    assert(frac =~= if p < s@.len() {
        s@.subrange(p + 1, s@.len() as int)
    } else {
        Seq::<char>::empty()
    });
    if p == 0 && frac_from == len {
        return None;
    }
    let w = match digits_value(s, 0, p) {
        Some(w) => w,
        None => {
            return None;
        },
    };
    if !all_digits_in(s, frac_from, len) {
        return None;
    }
    let mut ms: u64 = 0;
    let n_frac = len - frac_from;
    if n_frac > 0 {
        ms = ms + (s.get_char(frac_from) as u32 - '0' as u32) as u64 * 100;
    }
    if n_frac > 1 {
        ms = ms + (s.get_char(frac_from + 1) as u32 - '0' as u32) as u64 * 10;
    }
    if n_frac > 2 {
        ms = ms + (s.get_char(frac_from + 2) as u32 - '0' as u32) as u64;
    }
    assert(ms == fraction_millis(frac)) by {
        if n_frac > 0 {
            assert(frac[0] == s@[frac_from as int]);
        }
        if n_frac > 1 {
            assert(frac[1] == s@[frac_from + 1]);
        }
        if n_frac > 2 {
            assert(frac[2] == s@[frac_from + 2]);
        }
    }
    if w > (u64::MAX - ms) / 1000 {
        assert(w * 1000 + ms > u64::MAX) by (nonlinear_arith)
            requires
                w > (u64::MAX - ms) / 1000,
                ms <= 999,
        ;
        return None;
    }
    assert(w * 1000 + ms <= u64::MAX) by (nonlinear_arith)
        requires
            w <= (u64::MAX - ms) / 1000,
            ms <= 999,
    ;
    Some(w * 1000 + ms)
}

/// Whether every character of `s@[from..to]` is a digit.
fn all_digits_in(s: &str, from: usize, to: usize) -> (r: bool)
    requires
        from <= to <= s@.len(),
    ensures
        r == all_digits(s@.subrange(from as int, to as int)),
{
    let mut i: usize = from;
    while i < to
        invariant
            from <= i <= to <= s@.len(),
            forall|j: int| from <= j < i ==> is_digit(#[trigger] s@[j]),
        decreases to - i,
    {
        let c = s.get_char(i);
        if !('0' <= c && c <= '9') {
            assert(s@.subrange(from as int, to as int)[i - from] == c);
            return false;
        }
        i = i + 1;
    }
    assert forall|j: int| 0 <= j < to - from implies is_digit(
        #[trigger] s@.subrange(from as int, to as int)[j],
    ) by {
        assert(s@.subrange(from as int, to as int)[j] == s@[from + j]);
    }
    true
}

/// The first `.` of `s` is at `p` when none stands before `p` and `p` is
/// the end or holds one.
proof fn lemma_dot_index(s: Seq<char>, p: int)
    requires
        0 <= p <= s.len(),
        forall|j: int| 0 <= j < p ==> s[j] != '.',
        p == s.len() || s[p] == '.',
    ensures
        dot_index(s) == p,
    decreases s.len(),
{
    if s.len() > 0 && p > 0 {
        lemma_dot_index(s.drop_first(), p - 1);
    }
}

/// The decimal digits of `n`, appended to `s`.
pub fn push_decimal(s: &mut String, n: u64)
    ensures
        final(s)@ == old(s)@ + decimal_text(n as nat),
    decreases n,
{
    if n >= 10 {
        push_decimal(s, n / 10);
    }
    let d = (n % 10) as u32;
    assert(is_scalar((48 + d) as u32));
    match char_from_scalar(48 + d) {
        Some(c) => push_char(s, c),
        None => {},
    }
    assert(s@ =~= old(s)@ + decimal_text(n as nat));
}

/// `s` holds `pat` somewhere.
pub open spec fn contains_text(s: Seq<char>, pat: Seq<char>) -> bool {
    exists|i: int|
        0 <= i <= s.len() - pat.len() && #[trigger] s.subrange(i, i + pat.len()) == pat
}

/// Whether `pat` occurs in `s`.
pub fn contains(s: &str, pat: &str) -> (r: bool)
    ensures
        r == contains_text(s@, pat@),
{
    let len = s.unicode_len();
    let n = pat.unicode_len();
    if n > len {
        return false;
    }
    if n == 0 {
        assert(s@.subrange(0, 0 + pat@.len() as int) =~= pat@);
        return true;
    }
    let mut i: usize = 0;
    while i <= len - n
        invariant
            len == s@.len(),
            n == pat@.len(),
            1 <= n <= len,
            i <= len - n + 1,
            forall|j: int| 0 <= j < i ==> #[trigger] s@.subrange(j, j + n) != pat@,
        decreases len - n + 1 - i,
    {
        let tail = s.substring_char(i, len);
        if starts_with(tail, pat) {
            assert(tail@.subrange(0, n as int) =~= s@.subrange(i as int, i + n));
            return true;
        }
        assert(tail@.subrange(0, n as int) =~= s@.subrange(i as int, i + n));
        i = i + 1;
    }
    assert forall|j: int| 0 <= j <= s@.len() - pat@.len() implies #[trigger] s@.subrange(
        j,
        j + pat@.len(),
    ) != pat@ by {}
    false
}

/// The text of `s` after its prefix `prefix`.
pub fn strip_prefix(s: &str, prefix: &str) -> (r: String)
    requires
        has_prefix(s@, prefix@),
    ensures
        r@ == after_prefix(s@, prefix@),
{
    text_after(s, prefix.unicode_len())
}

} // verus!
