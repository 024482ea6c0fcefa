//! Progress parsing: the external engine emits line-oriented `key=value`
//! diagnostics; the elapsed-render-time line is turned into a bounded
//! percentage of the expected total duration.

use vstd::prelude::*;
use vstd::string::StrSliceExecFns;
use crate::parse::{all_digits, digits_val, parse_u64};
use crate::strutil::{spec_trim, starts_with_str, trim_spaces};

verus! {

/// The percentage a raw elapsed value denotes against a total duration
/// in milliseconds. A value implausibly large for the total is taken to
/// be in microseconds and divided down; the ratio is clamped to 100.
pub open spec fn spec_progress_pct(raw: nat, total_ms: nat) -> nat
    recommends
        total_ms > 0,
{
    let n = if raw > total_ms * 1000 {
        raw / 1000
    } else {
        raw
    };
    let pct = (n * 100) / total_ms;
    if pct > 100 {
        100
    } else {
        pct
    }
}

/// What a diagnostic line contributes: the bounded percentage when the
/// line carries the elapsed-render-time key with an unsigned value, and
/// nothing otherwise.
pub open spec fn spec_parse_progress(line: Seq<char>, total_ms: nat) -> Option<nat> {
    if line.len() >= 12 && line.subrange(0, 12) == "out_time_ms="@ {
        let rest = spec_trim(line.subrange(12, line.len() as int));
        if rest.len() > 0 && all_digits(rest) && digits_val(rest) <= u64::MAX as nat {
            Some(spec_progress_pct(digits_val(rest), total_ms))
        } else {
            None
        }
    } else {
        None
    }
}

/// Parse one diagnostic line of the engine into a progress percentage.
pub fn parse_progress_line(line: &str, total_ms: u64) -> (r: Option<u32>)
    requires
        total_ms > 0,
    ensures
        spec_parse_progress(line@, total_ms as nat) == match r {
            Some(v) => Some(v as nat),
            None => None::<nat>,
        },
        r matches Some(v) ==> v <= 100,
{
    proof {
        reveal_strlit("out_time_ms=");
    }
    if !starts_with_str(line, "out_time_ms=") {
        return None;
    }
    let n = line.unicode_len();
    let rest = trim_spaces(line.substring_char(12, n));
    let raw = match parse_u64(rest) {
        Some(v) => v,
        None => {
            return None;
        },
    };
    let adjusted: u64 = if (raw as u128) > (total_ms as u128) * 1000 {
        raw / 1000
    } else {
        raw
    };
    let scaled: u128 = (adjusted as u128) * 100 / (total_ms as u128);
    let pct: u32 = if scaled > 100 {
        100
    } else {
        scaled as u32
    };
    Some(pct)
}

} // verus!
