//! Exact decimal rendering of integers and fixed-point values, used to
//! print numeric filter parameters: plain integers, values with a fixed
//! number of decimals, and thousandths with trailing zeros trimmed.

use vstd::prelude::*;
use vstd::string::StringExecFns;

verus! {

/// Relies on String::push: appends the given character to the string.
#[verifier::external_body]
pub fn push_char(s: &mut String, c: char)
    ensures
        final(s)@ == old(s)@.push(c),
{
    s.push(c)
}

/// The decimal digit character for a value below ten.
pub open spec fn spec_digit(d: nat) -> char {
    if d == 0 {
        '0'
    } else if d == 1 {
        '1'
    } else if d == 2 {
        '2'
    } else if d == 3 {
        '3'
    } else if d == 4 {
        '4'
    } else if d == 5 {
        '5'
    } else if d == 6 {
        '6'
    } else if d == 7 {
        '7'
    } else if d == 8 {
        '8'
    } else {
        '9'
    }
}

/// The usual decimal rendering of a natural number, without leading zeros.
pub open spec fn spec_udec(n: nat) -> Seq<char>
    decreases n,
{
    if n < 10 {
        seq![spec_digit(n)]
    } else {
        spec_udec(n / 10).push(spec_digit(n % 10))
    }
}

/// The decimal rendering of an integer: a minus sign for negatives.
pub open spec fn spec_idec(n: int) -> Seq<char> {
    if n < 0 {
        seq!['-'] + spec_udec((-n) as nat)
    } else {
        spec_udec(n as nat)
    }
}

/// `k` digits of `n`, zero-padded on the left. Meaningful for `n < 10^k`.
pub open spec fn spec_padded(n: nat, k: nat) -> Seq<char>
    decreases k,
{
    if k == 0 {
        Seq::empty()
    } else {
        spec_padded(n / 10, (k - 1) as nat).push(spec_digit(n % 10))
    }
}

fn digit_char(d: u64) -> (c: char)
    requires
        d < 10,
    ensures
        c == spec_digit(d as nat),
{
    match d {
        0 => '0',
        1 => '1',
        2 => '2',
        3 => '3',
        4 => '4',
        5 => '5',
        6 => '6',
        7 => '7',
        8 => '8',
        _ => '9',
    }
}

/// Render an unsigned integer in decimal.
pub fn fmt_u64(n: u64) -> (r: String)
    ensures
        r@ == spec_udec(n as nat),
    decreases n,
{
    if n < 10 {
        let mut s = String::new();
        push_char(&mut s, digit_char(n));
        proof {
            assert(s@ =~= spec_udec(n as nat));
        }
        s
    } else {
        let mut s = fmt_u64(n / 10);
        push_char(&mut s, digit_char(n % 10));
        s
    }
}

/// Render a signed integer in decimal.
pub fn fmt_i64(n: i64) -> (r: String)
    ensures
        r@ == spec_idec(n as int),
{
    if n < 0 {
        let mag: u64 = ((-(n as i128)) as u64);
        let mut s = String::new();
        push_char(&mut s, '-');
        let tail = fmt_u64(mag);
        s.append(tail.as_str());
        proof {
            assert(s@ =~= seq!['-'] + spec_udec(mag as nat));
        }
        s
    } else {
        fmt_u64(n as u64)
    }
}

/// Append the last `k` decimal digits of `n`, zero-padded on the left.
fn append_padded(s: &mut String, n: u64, k: u64)
    ensures
        final(s)@ == old(s)@ + spec_padded(n as nat, k as nat),
    decreases k,
{
    if k == 0 {
        proof {
            assert(old(s)@ + spec_padded(n as nat, 0) =~= old(s)@);
        }
    } else {
        append_padded(s, n / 10, k - 1);
        push_char(s, digit_char(n % 10));
    }
}

/// `ms` milliseconds as seconds with exactly three decimals: 10000 is
/// `10.000`.
pub open spec fn spec_fixed3(ms: nat) -> Seq<char> {
    spec_udec(ms / 1000) + seq!['.'] + spec_padded(ms % 1000, 3)
}

/// A count of micro-units with exactly six decimals and a sign:
/// 90000000 is `90.000000`.
pub open spec fn spec_micro6(v: int) -> Seq<char> {
    let sign: Seq<char> = if v < 0 {
        seq!['-']
    } else {
        Seq::empty()
    };
    let m = if v < 0 {
        (-v) as nat
    } else {
        v as nat
    };
    sign + spec_udec(m / 1000000) + seq!['.'] + spec_padded(m % 1000000, 6)
}

/// Render `ms` milliseconds as seconds with exactly three decimals, e.g.
/// 10000 becomes `10.000`.
pub fn fmt_ms_as_secs_3(ms: u64) -> (r: String)
    ensures
        r@ == spec_fixed3(ms as nat),
{
    let mut s = fmt_u64(ms / 1000);
    push_char(&mut s, '.');
    let ghost mid = s@;
    append_padded(&mut s, ms % 1000, 3);
    proof {
        assert(s@ =~= spec_udec((ms / 1000) as nat) + seq!['.'] + spec_padded(
            (ms % 1000) as nat,
            3,
        ));
    }
    s
}

/// The rendering of `v` thousandths as a plain decimal with trailing
/// zeros (and a trailing dot) trimmed: 1000 is `1`, 500 is `0.5`,
/// -250 is `-0.25`, 725 is `0.725`.
pub open spec fn spec_milli_trimmed(v: int) -> Seq<char> {
    let sign: Seq<char> = if v < 0 { seq!['-'] } else { Seq::empty() };
    let m = if v < 0 { (-v) as nat } else { v as nat };
    let whole = spec_udec(m / 1000);
    let frac = m % 1000;
    if frac == 0 {
        sign + whole
    } else if frac % 100 == 0 {
        sign + whole + seq!['.'] + seq![spec_digit(frac / 100)]
    } else if frac % 10 == 0 {
        sign + whole + seq!['.'] + spec_padded(frac / 10, 2)
    } else {
        sign + whole + seq!['.'] + spec_padded(frac, 3)
    }
}

/// Render a count of thousandths, trimming trailing fraction zeros.
pub fn fmt_milli_trimmed(v: i64) -> (r: String)
    ensures
        r@ == spec_milli_trimmed(v as int),
{
    let mut s = String::new();
    if v < 0 {
        push_char(&mut s, '-');
    }
    let m: u64 = if v < 0 {
        (-(v as i128)) as u64
    } else {
        v as u64
    };
    let whole = fmt_u64(m / 1000);
    s.append(whole.as_str());
    let frac: u64 = m % 1000;
    if frac == 0 {
        proof {
            assert(s@ =~= spec_milli_trimmed(v as int));
        }
    } else if frac % 100 == 0 {
        push_char(&mut s, '.');
        push_char(&mut s, digit_char(frac / 100));
        proof {
            assert(s@ =~= spec_milli_trimmed(v as int));
        }
    } else if frac % 10 == 0 {
        push_char(&mut s, '.');
        append_padded(&mut s, frac / 10, 2);
        proof {
            assert(s@ =~= spec_milli_trimmed(v as int));
        }
    } else {
        push_char(&mut s, '.');
        append_padded(&mut s, frac, 3);
        proof {
            assert(s@ =~= spec_milli_trimmed(v as int));
        }
    }
    s
}

/// The lowercase hexadecimal digit for a value below sixteen.
pub open spec fn spec_hex_digit(d: nat) -> char {
    if d < 10 {
        spec_digit(d)
    } else if d == 10 {
        'a'
    } else if d == 11 {
        'b'
    } else if d == 12 {
        'c'
    } else if d == 13 {
        'd'
    } else if d == 14 {
        'e'
    } else {
        'f'
    }
}

/// The lowercase hexadecimal rendering of a byte string: two digits per
/// byte, high nibble first.
pub open spec fn spec_hex_str(b: Seq<u8>) -> Seq<char>
    decreases b.len(),
{
    if b.len() == 0 {
        Seq::empty()
    } else {
        spec_hex_str(b.drop_last()) + seq![
            spec_hex_digit((b.last() / 16) as nat),
            spec_hex_digit((b.last() % 16) as nat),
        ]
    }
}

/// The hexadecimal rendering is two characters per byte.
pub proof fn lemma_hex_str_len(b: Seq<u8>)
    ensures
        spec_hex_str(b).len() == 2 * b.len(),
    decreases b.len(),
{
    if b.len() > 0 {
        lemma_hex_str_len(b.drop_last());
    }
}

/// Render an unsigned count of thousandths, trimming trailing fraction
/// zeros.
pub fn fmt_milli_trimmed_u64(v: u64) -> (r: String)
    ensures
        r@ == spec_milli_trimmed(v as int),
{
    let mut s = fmt_u64(v / 1000);
    let frac: u64 = v % 1000;
    if frac == 0 {
        proof {
            assert(s@ =~= spec_milli_trimmed(v as int));
        }
    } else if frac % 100 == 0 {
        push_char(&mut s, '.');
        push_char(&mut s, digit_char(frac / 100));
        proof {
            assert(s@ =~= spec_milli_trimmed(v as int));
        }
    } else if frac % 10 == 0 {
        push_char(&mut s, '.');
        append_padded(&mut s, frac / 10, 2);
        proof {
            assert(s@ =~= spec_milli_trimmed(v as int));
        }
    } else {
        push_char(&mut s, '.');
        append_padded(&mut s, frac, 3);
        proof {
            assert(s@ =~= spec_milli_trimmed(v as int));
        }
    }
    s
}

/// Render a count of micro-units with exactly six decimals, e.g.
/// 90000000 micro-degrees becomes `90.000000`.
pub fn fmt_micro_6(v: i64) -> (r: String)
    ensures
        r@ == spec_micro6(v as int),
{
    let mut s = String::new();
    if v < 0 {
        push_char(&mut s, '-');
    }
    let m: u64 = if v < 0 {
        (-(v as i128)) as u64
    } else {
        v as u64
    };
    let whole = fmt_u64(m / 1000000);
    s.append(whole.as_str());
    push_char(&mut s, '.');
    let ghost mid = s@;
    append_padded(&mut s, m % 1000000, 6);
    proof {
        let sign: Seq<char> = if v < 0 { seq!['-'] } else { Seq::empty() };
        let mm = if v < 0 { (-(v as int)) as nat } else { v as nat };
        assert(s@ =~= sign + spec_udec(mm / 1000000) + seq!['.'] + spec_padded(mm % 1000000, 6));
    }
    s
}

} // verus!
