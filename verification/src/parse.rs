//! Best-effort numeric parsing with silent defaults.
//!
//! Per-item style fields arrive as strings ("50px", "scale(1.25)",
//! "90deg") or as optional numbers. Each helper here parses its field
//! exactly when it matches a simple decimal grammar, and falls back to the
//! documented default otherwise; a malformed field is never an error.
//! Fractional values are fixed-point: the grammar is parsed at a given
//! scale (thousandths or millionths), truncating finer digits.

use vstd::prelude::*;
use vstd::string::StrSliceExecFns;
use crate::strutil::{find_sub, ends_with_str, spec_find, spec_trim, trim_spaces};

verus! {

/// An ASCII decimal digit.
pub open spec fn is_digit(c: char) -> bool {
    '0' <= c && c <= '9'
}

/// The numeric value of a digit character.
pub open spec fn digit_val(c: char) -> nat {
    (c as int - '0' as int) as nat
}

/// Every character of `s` is a digit.
pub open spec fn all_digits(s: Seq<char>) -> bool {
    forall|i: int| 0 <= i < s.len() ==> is_digit(#[trigger] s[i])
}

/// The value of a digit string read in base ten.
pub open spec fn digits_val(s: Seq<char>) -> nat
    decreases s.len(),
{
    if s.len() == 0 {
        0
    } else {
        digits_val(s.drop_last()) * 10 + digit_val(s.last())
    }
}

/// Ten to the power `k`.
pub open spec fn p10(k: nat) -> nat
    decreases k,
{
    if k == 0 {
        1
    } else {
        10 * p10((k - 1) as nat)
    }
}

/// The largest whole part this parser accepts; larger values are treated
/// as unparseable and the caller's default applies.
pub const MAX_WHOLE: u64 = 1_000_000_000_000;

/// The value of the fraction digits `fp` scaled to `k` decimals: the
/// first `k` digits, zero-extended on the right if fewer are given.
pub open spec fn frac_val(fp: Seq<char>, k: nat) -> nat {
    if fp.len() >= k {
        digits_val(fp.take(k as int))
    } else {
        digits_val(fp) * p10((k - fp.len()) as nat)
    }
}

/// The value of an unsigned decimal body (`digits`, `digits.digits`,
/// `.digits` or `digits.`) at scale `k`, or `None` if the body does not
/// match that grammar or its whole part is too large.
pub open spec fn spec_body_val(s: Seq<char>, k: nat) -> Option<nat> {
    match spec_find(s, seq!['.'], 0) {
        Some(i) => {
            let ip = s.subrange(0, i);
            let fp = s.subrange(i + 1, s.len() as int);
            if ip.len() + fp.len() > 0 && all_digits(ip) && all_digits(fp) && digits_val(ip)
                <= MAX_WHOLE {
                Some(digits_val(ip) * p10(k) + frac_val(fp, k))
            } else {
                None
            }
        },
        None => {
            if s.len() > 0 && all_digits(s) && digits_val(s) <= MAX_WHOLE {
                Some(digits_val(s) * p10(k))
            } else {
                None
            }
        },
    }
}

/// The value of a signed decimal string at scale `k`.
pub open spec fn spec_dec_val(s: Seq<char>, k: nat) -> Option<int> {
    if s.len() > 0 && (s[0] == '-' || s[0] == '+') {
        match spec_body_val(s.subrange(1, s.len() as int), k) {
            Some(v) => Some(
                if s[0] == '-' {
                    -(v as int)
                } else {
                    v as int
                },
            ),
            None => None,
        }
    } else {
        match spec_body_val(s, k) {
            Some(v) => Some(v as int),
            None => None,
        }
    }
}

/// Ten to the power `k`, executable for small `k`.
pub fn pow10(k: u64) -> (r: u64)
    requires
        k <= 6,
    ensures
        r == p10(k as nat),
{
    proof {
        assert(p10(0) == 1);
        assert(p10(1) == 10);
        assert(p10(2) == 100);
        assert(p10(3) == 1000);
        assert(p10(4) == 10000);
        assert(p10(5) == 100000);
        assert(p10(6) == 1000000);
    }
    match k {
        0 => 1,
        1 => 10,
        2 => 100,
        3 => 1000,
        4 => 10000,
        5 => 100000,
        _ => 1000000,
    }
}

/// The value of a pure digit string, or `None` on a non-digit or a value
/// beyond `MAX_WHOLE`. The empty string has value zero.
fn digits_value(d: &str) -> (r: Option<u64>)
    ensures
        match r {
            Some(v) => all_digits(d@) && digits_val(d@) <= MAX_WHOLE && v == digits_val(d@),
            None => !(all_digits(d@) && digits_val(d@) <= MAX_WHOLE),
        },
{
    let n = d.unicode_len();
    let mut acc: u64 = 0;
    let mut too_big = false;
    let mut i: usize = 0;
    while i < n
        invariant
            n == d@.len(),
            i <= n,
            forall|j: int| 0 <= j < i ==> is_digit(#[trigger] d@[j]),
            !too_big ==> acc == digits_val(d@.take(i as int)) && acc <= MAX_WHOLE,
            too_big ==> digits_val(d@.take(i as int)) > MAX_WHOLE,
        decreases n - i,
    {
        let c = d.get_char(i);
        if !(c >= '0' && c <= '9') {
            return None;
        }
        proof {
            assert(d@.take(i + 1 as int).drop_last() =~= d@.take(i as int));
            assert(d@.take(i + 1 as int).last() == d@[i as int]);
        }
        if !too_big {
            let dv: u64 = (c as u32 - '0' as u32) as u64;
            acc = acc * 10 + dv;
            if acc > MAX_WHOLE {
                too_big = true;
            }
        } else {
            proof {
                let prev = digits_val(d@.take(i as int));
                assert(digits_val(d@.take(i + 1 as int)) == prev * 10 + digit_val(d@[i as int]));
                assert(prev * 10 >= prev) by (nonlinear_arith)
                    requires
                        prev >= 0,
                ;
            }
        }
        i += 1;
    }
    proof {
        assert(d@.take(n as int) =~= d@);
    }
    if too_big {
        None
    } else {
        Some(acc)
    }
}

/// The scaled value of a fraction-digit string at scale `k`, or `None`
/// if some character is not a digit.
fn frac_value(d: &str, k: u64) -> (r: Option<u64>)
    requires
        k <= 6,
    ensures
        match r {
            Some(v) => all_digits(d@) && v == frac_val(d@, k as nat) && v < p10(k as nat),
            None => !all_digits(d@),
        },
{
    let n = d.unicode_len();
    let mut acc: u64 = 0;
    let mut i: usize = 0;
    proof {
        lemma_p10_pos(k as nat);
        lemma_p10_le(k as nat, 6);
        assert(p10(0) == 1);
        assert(p10(1) == 10);
        assert(p10(2) == 100);
        assert(p10(3) == 1000);
        assert(p10(4) == 10000);
        assert(p10(5) == 100000);
        assert(p10(6) == 1000000);
    }
    while i < n
        invariant
            k <= 6,
            n == d@.len(),
            i <= n,
            p10(k as nat) <= 1000000,
            forall|j: int| 0 <= j < i ==> is_digit(#[trigger] d@[j]),
            acc == digits_val(d@.take(if i as u64 <= k { i as int } else { k as int })),
            acc < p10(k as nat),
        decreases n - i,
    {
        let c = d.get_char(i);
        if !(c >= '0' && c <= '9') {
            return None;
        }
        if (i as u64) < k {
            let dv: u64 = (c as u32 - '0' as u32) as u64;
            proof {
                assert(d@.take(i + 1 as int).drop_last() =~= d@.take(i as int));
                assert(d@.take(i + 1 as int).last() == d@[i as int]);
            }
            acc = acc * 10 + dv;
            proof {
                assert(acc == digits_val(d@.take(i + 1 as int)));
                assert(all_digits(d@.take(i + 1 as int))) by {
                    assert(forall|j: int|
                        0 <= j < i + 1 ==> #[trigger] d@.take(i + 1 as int)[j] == d@[j]);
                }
                lemma_digits_val_bound(d@.take(i + 1 as int));
                lemma_p10_le((i + 1) as nat, k as nat);
            }
        }
        i += 1;
    }
    proof {
        assert(d@.take(n as int) =~= d@);
    }
    if (n as u64) >= k {
        Some(acc)
    } else {
        let scale = pow10(k - (n as u64));
        proof {
            assert(acc == digits_val(d@));
            assert(all_digits(d@));
            lemma_digits_val_bound(d@);
            assert(digits_val(d@) < p10(n as nat));
            assert(p10(n as nat) * p10((k - n) as nat) == p10(k as nat)) by {
                lemma_p10_add(n as nat, (k - n as u64) as nat);
            }
            assert(digits_val(d@) * p10((k - n) as nat) < p10(n as nat) * p10((k - n) as nat))
                by (nonlinear_arith)
                requires
                    digits_val(d@) < p10(n as nat),
                    p10((k - n as u64) as nat) > 0,
            ;
            assert(p10(k as nat) <= p10(6)) by {
                lemma_p10_le(k as nat, 6);
            }
            assert(p10(6) == 1000000) by {
                assert(p10(0) == 1);
                assert(p10(1) == 10);
                assert(p10(2) == 100);
                assert(p10(3) == 1000);
                assert(p10(4) == 10000);
                assert(p10(5) == 100000);
            }
        }
        Some(acc * scale)
    }
}

/// `p10` is positive.
proof fn lemma_p10_pos(k: nat)
    ensures
        p10(k) >= 1,
    decreases k,
{
    if k > 0 {
        lemma_p10_pos((k - 1) as nat);
    }
}

/// `p10` is monotone.
proof fn lemma_p10_le(a: nat, b: nat)
    requires
        a <= b,
    ensures
        p10(a) <= p10(b),
    decreases b,
{
    if a < b {
        lemma_p10_le(a, (b - 1) as nat);
        lemma_p10_pos((b - 1) as nat);
    }
}

/// `p10` turns addition into multiplication.
proof fn lemma_p10_add(a: nat, b: nat)
    ensures
        p10(a) * p10(b) == p10(a + b),
    decreases a,
{
    if a == 0 {
        assert(p10(0) == 1);
        assert(1 * p10(b) == p10(b));
    } else {
        lemma_p10_add((a - 1) as nat, b);
        assert(p10(a) == 10 * p10((a - 1) as nat));
        assert((10 * p10((a - 1) as nat)) * p10(b) == 10 * (p10((a - 1) as nat) * p10(b)))
            by (nonlinear_arith);
        assert(p10(a + b) == 10 * p10((a + b - 1) as nat));
    }
}

/// A digit string's value is below ten to its length.
proof fn lemma_digits_val_bound(s: Seq<char>)
    requires
        all_digits(s),
    ensures
        digits_val(s) < p10(s.len()),
    decreases s.len(),
{
    if s.len() == 0 {
        assert(p10(0) == 1);
    } else {
        assert(all_digits(s.drop_last())) by {
            assert(forall|i: int|
                0 <= i < s.len() - 1 ==> #[trigger] s.drop_last()[i] == s[i]);
        }
        lemma_digits_val_bound(s.drop_last());
        assert(is_digit(s.last()));
        assert(digit_val(s.last()) < 10);
        assert(p10(s.len()) == 10 * p10((s.len() - 1) as nat));
        assert(digits_val(s.drop_last()) * 10 + 10 <= p10((s.len() - 1) as nat) * 10)
            by (nonlinear_arith)
            requires
                digits_val(s.drop_last()) < p10((s.len() - 1) as nat),
        ;
    }
}

/// Parse a signed decimal string at scale `k` (the result counts
/// `10^-k` units), exactly per `spec_dec_val`.
pub fn parse_decimal(s: &str, k: u64) -> (r: Option<i64>)
    requires
        k <= 6,
    ensures
        spec_dec_val(s@, k as nat) == match r {
            Some(v) => Some(v as int),
            None => None::<int>,
        },
        r matches Some(v) ==> -1_000_000_000_001_000_000 <= v <= 1_000_000_000_001_000_000,
{
    let n = s.unicode_len();
    let mut neg = false;
    let mut i0: usize = 0;
    if n > 0 {
        let c = s.get_char(0);
        if c == '-' {
            neg = true;
            i0 = 1;
        } else if c == '+' {
            i0 = 1;
        }
    }
    let body = s.substring_char(i0, n);
    proof {
        if i0 == 0 {
            assert(body@ =~= s@);
        } else {
            assert(body@ == s@.subrange(1, s@.len() as int));
        }
    }
    let mag = match body_value(body, k) {
        Some(v) => v,
        None => {
            return None;
        },
    };
    proof {
        assert(mag <= MAX_WHOLE * 1000000 + 1000000);
    }
    if neg {
        Some(-(mag as i64))
    } else {
        Some(mag as i64)
    }
}

/// The unsigned decimal body at scale `k`, per `spec_body_val`; the
/// result is at most `MAX_WHOLE * 10^6 + 10^6`.
fn body_value(s: &str, k: u64) -> (r: Option<u64>)
    requires
        k <= 6,
    ensures
        spec_body_val(s@, k as nat) == match r {
            Some(v) => Some(v as nat),
            None => None::<nat>,
        },
        r matches Some(v) ==> v <= MAX_WHOLE * 1000000 + 1000000,
{
    proof {
        reveal_strlit(".");
        assert("."@ =~= seq!['.']);
    }
    let n = s.unicode_len();
    let dot = find_sub(s, ".");
    match dot {
        Some(dp) => {
            let ip = s.substring_char(0, dp);
            let fp = s.substring_char(dp + 1, n);
            proof {
                assert(s@.subrange(0, dp as int) == ip@);
                assert(s@.subrange(dp + 1 as int, s@.len() as int) == fp@);
            }
            if dp == 0 && dp + 1 == n {
                // the body is a lone dot
                return None;
            }
            let iv = match digits_value(ip) {
                Some(v) => v,
                None => {
                    return None;
                },
            };
            let fv = match frac_value(fp, k) {
                Some(v) => v,
                None => {
                    return None;
                },
            };
            let scale = pow10(k);
            proof {
                assert(p10(k as nat) <= p10(6)) by {
                    lemma_p10_le(k as nat, 6);
                }
                assert(p10(6) == 1000000) by {
                    assert(p10(0) == 1);
                    assert(p10(1) == 10);
                    assert(p10(2) == 100);
                    assert(p10(3) == 1000);
                    assert(p10(4) == 10000);
                    assert(p10(5) == 100000);
                }
                assert(iv * scale <= MAX_WHOLE * 1000000) by (nonlinear_arith)
                    requires
                        iv <= MAX_WHOLE,
                        scale <= 1000000,
                        MAX_WHOLE == 1_000_000_000_000u64,
                ;
                assert(fv < 1000000);
            }
            Some(iv * scale + fv)
        },
        None => {
            if n == 0 {
                return None;
            }
            let iv = match digits_value(s) {
                Some(v) => v,
                None => {
                    return None;
                },
            };
            let scale = pow10(k);
            proof {
                assert(p10(k as nat) <= p10(6)) by {
                    lemma_p10_le(k as nat, 6);
                }
                assert(p10(6) == 1000000) by {
                    assert(p10(0) == 1);
                    assert(p10(1) == 10);
                    assert(p10(2) == 100);
                    assert(p10(3) == 1000);
                    assert(p10(4) == 10000);
                    assert(p10(5) == 100000);
                }
                assert(iv * scale <= MAX_WHOLE * 1000000) by (nonlinear_arith)
                    requires
                        iv <= MAX_WHOLE,
                        scale <= 1000000,
                        MAX_WHOLE == 1_000_000_000_000u64,
                ;
            }
            Some(iv * scale)
        },
    }
}

/// Parse an unsigned integer: every character a digit, at least one,
/// and the value within `u64` range.
pub fn parse_u64(s: &str) -> (r: Option<u64>)
    ensures
        match r {
            Some(v) => s@.len() > 0 && all_digits(s@) && digits_val(s@) == v as nat,
            None => !(s@.len() > 0 && all_digits(s@) && digits_val(s@) <= u64::MAX as nat),
        },
{
    let n = s.unicode_len();
    if n == 0 {
        return None;
    }
    let mut acc: u64 = 0;
    let mut too_big = false;
    let mut i: usize = 0;
    while i < n
        invariant
            n == s@.len(),
            i <= n,
            forall|j: int| 0 <= j < i ==> is_digit(#[trigger] s@[j]),
            !too_big ==> acc == digits_val(s@.take(i as int)),
            too_big ==> digits_val(s@.take(i as int)) > u64::MAX as nat,
        decreases n - i,
    {
        let c = s.get_char(i);
        if !(c >= '0' && c <= '9') {
            return None;
        }
        proof {
            assert(s@.take(i + 1 as int).drop_last() =~= s@.take(i as int));
            assert(s@.take(i + 1 as int).last() == s@[i as int]);
        }
        if !too_big {
            let dv: u64 = (c as u32 - '0' as u32) as u64;
            if acc > (u64::MAX - dv) / 10 {
                proof {
                    let prev = digits_val(s@.take(i as int)) as int;
                    assert(prev * 10 + dv > u64::MAX) by (nonlinear_arith)
                        requires
                            prev > ((u64::MAX - dv) as int) / 10,
                            0 <= dv < 10,
                            prev >= 0,
                    ;
                }
                too_big = true;
            } else {
                proof {
                    let prev = digits_val(s@.take(i as int)) as int;
                    assert(prev * 10 + dv <= u64::MAX) by (nonlinear_arith)
                        requires
                            prev <= ((u64::MAX - dv) as int) / 10,
                            0 <= dv < 10,
                            prev >= 0,
                    ;
                }
                acc = acc * 10 + dv;
            }
        } else {
            proof {
                let prev = digits_val(s@.take(i as int));
                assert(digits_val(s@.take(i + 1 as int)) == prev * 10 + digit_val(s@[i as int]));
                assert(prev * 10 >= prev) by (nonlinear_arith)
                    requires
                        prev >= 0,
                ;
            }
        }
        i += 1;
    }
    proof {
        assert(s@.take(n as int) =~= s@);
    }
    if too_big {
        None
    } else {
        Some(acc)
    }
}

/// The view of an optional string.
pub open spec fn opt_str_view(s: &Option<String>) -> Option<Seq<char>> {
    match s {
        Some(t) => Some(t@),
        None => None,
    }
}

/// Round a count of thousandths to a whole unit, half away from zero.
pub open spec fn spec_round_milli(v: int) -> int {
    if v >= 0 {
        (v + 500) / 1000
    } else {
        -(((-v) + 500) / 1000)
    }
}

/// Clamp an integer into the `i32` range.
pub open spec fn spec_clamp_i32(v: int) -> int {
    if v > i32::MAX as int {
        i32::MAX as int
    } else if v < i32::MIN as int {
        i32::MIN as int
    } else {
        v
    }
}

/// The pixel offset a `left`/`top` field denotes: its decimal value when
/// it carries a `px` suffix, rounded to whole pixels, and 0 when the
/// field is absent or malformed.
pub open spec fn spec_px_val(so: Option<Seq<char>>) -> int {
    match so {
        None => 0,
        Some(t) => {
            if t.len() >= 2 && t.subrange(t.len() - 2, t.len() as int) == "px"@ {
                match spec_dec_val(t.subrange(0, t.len() - 2), 3) {
                    Some(v) => spec_clamp_i32(spec_round_milli(v)),
                    None => 0,
                }
            } else {
                0
            }
        },
    }
}

/// Parse a pixel offset such as `50px`; absent or malformed fields give 0.
pub fn parse_px(s: &Option<String>) -> (r: i32)
    ensures
        r as int == spec_px_val(opt_str_view(s)),
{
    proof {
        reveal_strlit("px");
    }
    match s {
        None => 0,
        Some(t) => {
            let n = t.as_str().unicode_len();
            if !ends_with_str(t.as_str(), "px") {
                return 0;
            }
            let prefix = t.as_str().substring_char(0, n - 2);
            match parse_decimal(prefix, 3) {
                None => 0,
                Some(v) => {
                    let rounded: i64 = if v >= 0 {
                        (v + 500) / 1000
                    } else {
                        -(((-v) + 500) / 1000)
                    };
                    if rounded > i32::MAX as i64 {
                        i32::MAX
                    } else if rounded < i32::MIN as i64 {
                        i32::MIN
                    } else {
                        rounded as i32
                    }
                },
            }
        },
    }
}

/// The scale factor, in millionths, that a `transform` field denotes:
/// the decimal inside the first `scale(...)` group, and 1.0 (a million
/// millionths) when the field is absent or malformed.
pub open spec fn spec_scale_micro(so: Option<Seq<char>>) -> int {
    match so {
        None => 1000000,
        Some(t) => match spec_find(t, "scale("@, 0) {
            None => 1000000,
            Some(i) => {
                let rest = t.subrange(i + 6, t.len() as int);
                match spec_find(rest, ")"@, 0) {
                    None => 1000000,
                    Some(j) => match spec_dec_val(rest.subrange(0, j), 6) {
                        Some(v) => v,
                        None => 1000000,
                    },
                }
            },
        },
    }
}

/// Parse the scale factor out of a transform string such as
/// `scale(1.25)`, in millionths; absent or malformed fields give 1.0.
pub fn parse_scale(s: &Option<String>) -> (r: i64)
    ensures
        r as int == spec_scale_micro(opt_str_view(s)),
        -1_000_000_000_001_000_000 <= r <= 1_000_000_000_001_000_000,
{
    proof {
        reveal_strlit("scale(");
    }
    match s {
        None => 1000000,
        Some(t) => {
            let n = t.as_str().unicode_len();
            match find_sub(t.as_str(), "scale(") {
                None => 1000000,
                Some(i) => {
                    let rest = t.as_str().substring_char(i + 6, n);
                    match find_sub(rest, ")") {
                        None => 1000000,
                        Some(j) => {
                            let inner = rest.substring_char(0, j);
                            proof {
                                assert(inner@ == rest@.subrange(0, j as int));
                            }
                            match parse_decimal(inner, 6) {
                                Some(v) => v,
                                None => 1000000,
                            }
                        },
                    }
                },
            }
        },
    }
}

/// `s` with every trailing `deg` suffix removed.
pub open spec fn strip_deg(s: Seq<char>) -> Seq<char>
    decreases s.len(),
{
    if s.len() >= 3 && s.subrange(s.len() - 3, s.len() as int) == "deg"@ {
        strip_deg(s.subrange(0, s.len() - 3))
    } else {
        s
    }
}

/// The rotation, in micro-degrees, that a `rotate` field denotes: its
/// decimal value after trimming whitespace and `deg` suffixes, and 0
/// when the field is absent or malformed.
pub open spec fn spec_rotate_micro(so: Option<Seq<char>>) -> int {
    match so {
        None => 0,
        Some(t) => match spec_dec_val(strip_deg(spec_trim(t)), 6) {
            Some(v) => v,
            None => 0,
        },
    }
}

/// Parse a rotation such as `90deg` or `-45deg`, in micro-degrees;
/// absent or malformed fields give 0.
pub fn parse_rotate(s: &Option<String>) -> (r: i64)
    ensures
        r as int == spec_rotate_micro(opt_str_view(s)),
{
    proof {
        reveal_strlit("deg");
    }
    match s {
        None => 0,
        Some(t) => {
            let mut cur: &str = trim_spaces(t.as_str());
            let ghost orig = cur@;
            let mut done = false;
            while !done
                invariant
                    strip_deg(orig) == strip_deg(cur@),
                    "deg"@.len() == 3,
                    done ==> strip_deg(cur@) == cur@,
                decreases cur@.len(), (if done { 0int } else { 1int }),
            {
                if ends_with_str(cur, "deg") {
                    let n = cur.unicode_len();
                    if n >= 3 {
                        cur = cur.substring_char(0, n - 3);
                    } else {
                        done = true;
                    }
                } else {
                    done = true;
                }
            }
            match parse_decimal(cur, 6) {
                Some(v) => v,
                None => 0,
            }
        },
    }
}

/// The alpha factor, in thousandths, that an opacity field (tenths of a
/// percent) denotes: the value itself, clamped to full opacity, with
/// full opacity the default.
pub open spec fn spec_alpha_milli(o: Option<u32>) -> int {
    match o {
        None => 1000,
        Some(v) => if v > 1000 {
            1000
        } else {
            v as int
        },
    }
}

/// The alpha multiplier for an opacity field, in thousandths of one.
pub fn opacity_alpha(o: Option<u32>) -> (r: u32)
    ensures
        r as int == spec_alpha_milli(o),
        r <= 1000,
{
    match o {
        None => 1000,
        Some(v) => if v > 1000 {
            1000
        } else {
            v
        },
    }
}

/// The brightness offset, in thousandths of one, that a brightness field
/// (tenths of a percent, 1000 = no change) denotes.
pub open spec fn spec_brightness_milli(b: Option<u32>) -> int {
    match b {
        None => 0,
        Some(v) => v as int - 1000,
    }
}

/// The brightness offset for a brightness field, in thousandths of one.
pub fn brightness_offset(b: Option<u32>) -> (r: i64)
    ensures
        r as int == spec_brightness_milli(b),
{
    match b {
        None => 0,
        Some(v) => (v as i64) - 1000,
    }
}

/// The volume factor, in thousandths of one, that a volume field
/// (tenths of a percent) denotes; full volume is the default and the
/// authored value is not clamped.
pub open spec fn spec_volume_milli(v: Option<u32>) -> int {
    match v {
        None => 1000,
        Some(x) => x as int,
    }
}

/// The volume multiplier for a volume field, in thousandths of one.
pub fn volume_milli(v: Option<u32>) -> (r: u32)
    ensures
        r as int == spec_volume_milli(v),
{
    match v {
        None => 1000,
        Some(x) => x,
    }
}

} // verus!
