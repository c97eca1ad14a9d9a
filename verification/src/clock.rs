//! Time: the current instant from the system clock, and chrono's renderings of instants and spans.

use vstd::prelude::*;
use crate::cassette::Timestamp;

verus! {

/// A span of time, in nanoseconds.
pub type Nanos = i128;

/// One second, in nanoseconds.
pub const NANOS_PER_SEC: i128 = 1_000_000_000;

/// Reads the system clock through std's `SystemTime::now().duration_since(UNIX_EPOCH)`:
/// `(true, secs, nanos)` for an instant `secs` seconds and `nanos` nanoseconds at or
/// after the Unix epoch, and `(false, secs, nanos)` for one that far before it (the
/// error's `duration()`). std documents `subsec_nanos` as below one billion; otherwise
/// the values are whatever the clock says.
#[verifier::external_body]
fn clock_parts() -> (r: (bool, u64, u32))
    ensures
        r.2 < 1_000_000_000,
{
    match std::time::SystemTime::now().duration_since(std::time::UNIX_EPOCH) {
        Ok(d) => (true, d.as_secs(), d.subsec_nanos()),
        Err(e) => (false, e.duration().as_secs(), e.duration().subsec_nanos()),
    }
}

/// The instant `secs` seconds and `nanos` nanoseconds after the Unix epoch (before it
/// when `after` is false), in nanoseconds.
pub open spec fn clock_instant(after: bool, secs: u64, nanos: u32) -> int {
    if after {
        secs * NANOS_PER_SEC + nanos
    } else {
        -(secs * NANOS_PER_SEC + nanos)
    }
}

/// Whether `t` is an instant the clock can give: a distance from the Unix epoch in
/// whole seconds and the nanoseconds (below one billion) past them.
pub open spec fn is_clock_reading(t: Timestamp) -> bool {
    exists|after: bool, secs: u64, nanos: u32| nanos < 1_000_000_000 && t == #[trigger] clock_instant(after, secs, nanos)
}

/// The current time, in nanoseconds since the Unix epoch (negative before it): the
/// clock's distance from the epoch in whole seconds and the nanoseconds past them,
/// whatever the clock says.
pub fn now() -> (t: Timestamp)
    ensures
        is_clock_reading(t),
{
    let (after, secs, nanos) = clock_parts();
    assert(0 <= secs * NANOS_PER_SEC <= 0xffff_ffff_ffff_ffff * NANOS_PER_SEC) by (nonlinear_arith)
        requires
            0 <= secs <= 0xffff_ffff_ffff_ffff,
            NANOS_PER_SEC == 1_000_000_000,
    ;
    let d = (secs as i128) * NANOS_PER_SEC + (nanos as i128);
    let t = if after { d } else { -d };
    assert(t == clock_instant(after, secs, nanos));
    t
}

/// Splits an instant (or a span) into whole seconds, rounded down, and the
/// nanoseconds past them, when the seconds fit in an `i64`.
pub open spec fn split_nanos_spec(t: int) -> Option<(i64, u32)> {
    let s = t / (NANOS_PER_SEC as int);
    let n = t % (NANOS_PER_SEC as int);
    if i64::MIN <= s <= i64::MAX {
        Some((s as i64, n as u32))
    } else {
        None
    }
}

/// Splits nanoseconds into seconds (rounded down) and the remaining nanoseconds.
pub fn split_nanos(t: i128) -> (r: Option<(i64, u32)>)
    ensures
        r == split_nanos_spec(t as int),
{
    let b: i128 = NANOS_PER_SEC;
    let s: i128;
    let n: i128;
    if t >= 0 {
        s = t / b;
        n = t % b;
    } else {
        if t < -(b * 0x7fff_ffff_ffff_ffff_i128) - b {
            return None;
        }
        let a: i128 = -t;
        let q = a / b;
        let r = a % b;
        if r == 0 {
            s = -q;
            n = 0;
        } else {
            s = -q - 1;
            n = b - r;
        }
        assert(t == s * b + n) by (nonlinear_arith)
            requires
                a == -t,
                a == q * b + r,
                r == 0 ==> (s == -q && n == 0),
                r != 0 ==> (s == -q - 1 && n == b - r),
        ;
        assert(0 <= n < b);
        assert(s == (t as int) / (b as int) && n == (t as int) % (b as int)) by (nonlinear_arith)
            requires
                t == s * b + n,
                0 <= n < b,
                b > 0,
        ;
    }
    if s < i64::MIN as i128 || s > i64::MAX as i128 {
        None
    } else {
        Some((s as i64, n as u32))
    }
}

/// How chrono displays the `DateTime<Utc>` at the given seconds and nanoseconds since the
/// Unix epoch (for example `2024-01-02 03:04:05 UTC`); `None` when chrono cannot represent it.
pub uninterp spec fn datetime_display(secs: i64, nanos: u32) -> Option<Seq<char>>;

/// How chrono displays the `TimeDelta` of the given seconds and nanoseconds (ISO 8601,
/// for example `PT86400S`); `None` when chrono cannot represent it.
pub uninterp spec fn delta_display(secs: i64, nanos: u32) -> Option<Seq<char>>;

/// Builds chrono's `DateTime::from_timestamp(secs, nanos)` and displays it.
#[verifier::external_body]
pub(crate) fn datetime_text(secs: i64, nanos: u32) -> (r: Option<String>)
    ensures
        match r {
            Some(s) => datetime_display(secs, nanos) == Some(s@),
            None => datetime_display(secs, nanos) is None,
        },
{
    match chrono::DateTime::from_timestamp(secs, nanos) {
        Some(d) => Some(format!("{}", d)),
        None => None,
    }
}

/// Builds chrono's `TimeDelta::new(secs, nanos)` and displays it.
#[verifier::external_body]
pub(crate) fn delta_text(secs: i64, nanos: u32) -> (r: Option<String>)
    ensures
        match r {
            Some(s) => delta_display(secs, nanos) == Some(s@),
            None => delta_display(secs, nanos) is None,
        },
{
    match chrono::TimeDelta::new(secs, nanos) {
        Some(d) => Some(format!("{}", d)),
        None => None,
    }
}

} // verus!

verus! {

/// The longest span chrono's `TimeDelta` holds, in nanoseconds (`i64::MAX` milliseconds).
pub const MAX_SPAN_NANOS: i128 = 9_223_372_036_854_775_807_000_000;

/// The whole seconds std's `Duration::as_secs` gives for a `Duration`.
pub uninterp spec fn whole_secs_of(d: std::time::Duration) -> u64;

/// The nanoseconds past the whole seconds std's `Duration::subsec_nanos` gives for a
/// `Duration`.
pub uninterp spec fn subsec_nanos_of(d: std::time::Duration) -> u32;

/// Whole seconds of a std `Duration` (`Duration::as_secs`); the result is named
/// `whole_secs_of` of the `Duration`.
#[verifier::external_body]
fn duration_secs(d: &std::time::Duration) -> (s: u64)
    ensures
        s == whole_secs_of(*d),
{
    d.as_secs()
}

/// Nanoseconds past the whole seconds of a std `Duration` (`Duration::subsec_nanos`),
/// which std documents as less than one billion; the result is named `subsec_nanos_of`
/// of the `Duration`.
#[verifier::external_body]
fn duration_subsec_nanos(d: &std::time::Duration) -> (n: u32)
    ensures
        n == subsec_nanos_of(*d),
        n < 1_000_000_000,
{
    d.subsec_nanos()
}

/// A std `Duration` as a span: its seconds and nanoseconds, saturated at the longest
/// `TimeDelta` (see `span_from_parts`).
pub open spec fn span_of(d: std::time::Duration) -> Nanos {
    span_from_parts(whole_secs_of(d), subsec_nanos_of(d))
}

/// A span of `secs` seconds and `nanos` nanoseconds as chrono's `TimeDelta::from_std`
/// converts it, saturated at the longest `TimeDelta`.
pub open spec fn span_from_parts(secs: u64, nanos: u32) -> Nanos {
    let total = secs * NANOS_PER_SEC + nanos;
    if total > MAX_SPAN_NANOS {
        MAX_SPAN_NANOS
    } else {
        total as i128
    }
}

/// Converts seconds and nanoseconds into a span, saturating at the longest `TimeDelta`.
pub fn span_of_parts(secs: u64, nanos: u32) -> (d: Nanos)
    requires
        nanos < 1_000_000_000,
    ensures
        d == span_from_parts(secs, nanos),
        0 <= d <= MAX_SPAN_NANOS,
{
    let total: i128 = (secs as i128) * NANOS_PER_SEC + (nanos as i128);
    if total > MAX_SPAN_NANOS {
        MAX_SPAN_NANOS
    } else {
        total
    }
}

/// Converts a std `Duration` into a span, saturating at the longest `TimeDelta` (as
/// `TimeDelta::from_std(d).unwrap_or(TimeDelta::MAX)` does).
pub fn span_of_duration(d: std::time::Duration) -> (r: Nanos)
    ensures
        r == span_of(d),
        0 <= r <= MAX_SPAN_NANOS,
{
    span_of_parts(duration_secs(&d), duration_subsec_nanos(&d))
}

} // verus!
