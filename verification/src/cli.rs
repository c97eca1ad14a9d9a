//! The command-line tool's decisions: durations, which interactions are pruned or
//! deleted, and what the serve command needs.

use vstd::prelude::*;
use crate::cassette::types::{Interaction, InteractionView, RecordedResponse, interactions_view};
use crate::cassette::Timestamp;
use crate::clock::{NANOS_PER_SEC, Nanos};
use crate::error::Error;
use crate::mode::Mode;
use crate::text::{all_ascii, ascii_lower, chars_of, lowercase, owned, str_eq, string_from_chars, to_lowercase};
use vstd::string::StringExecFns;

verus! {

/// Whether a character has the Unicode `White_Space` property (what `char::is_whitespace`
/// and `str::trim` use).
pub open spec fn is_white_space(c: char) -> bool {
    let u = c as u32;
    (9 <= u <= 13) || u == 32 || u == 0x85 || u == 0xA0 || u == 0x1680 || (0x2000 <= u <= 0x200A) || u
        == 0x2028 || u == 0x2029 || u == 0x202F || u == 0x205F || u == 0x3000
}

/// Whether a character is white space, executable.
fn white_space(c: char) -> (b: bool)
    ensures
        b == is_white_space(c),
{
    let u = c as u32;
    (9 <= u && u <= 13) || u == 32 || u == 0x85 || u == 0xA0 || u == 0x1680 || (0x2000 <= u && u <= 0x200A) || u
        == 0x2028 || u == 0x2029 || u == 0x202F || u == 0x205F || u == 0x3000
}

/// `s` without its leading white space.
pub open spec fn trim_start_ws(s: Seq<char>) -> Seq<char>
    decreases s.len(),
{
    if s.len() > 0 && is_white_space(s[0]) {
        trim_start_ws(s.drop_first())
    } else {
        s
    }
}

/// `s` without its trailing white space.
pub open spec fn trim_end_ws(s: Seq<char>) -> Seq<char>
    decreases s.len(),
{
    if s.len() > 0 && is_white_space(s.last()) {
        trim_end_ws(s.drop_last())
    } else {
        s
    }
}

/// `s` without leading and trailing white space (what `str::trim` returns).
pub open spec fn trim_ws(s: Seq<char>) -> Seq<char> {
    trim_end_ws(trim_start_ws(s))
}

/// Removes leading and trailing white space.
pub fn trim(s: &Vec<char>) -> (r: Vec<char>)
    ensures
        r@ == trim_ws(s@),
{
    let mut start: usize = 0;
    assert(s@.skip(0) =~= s@);
    while start < s.len() && white_space(s[start])
        invariant
            start <= s@.len(),
            trim_start_ws(s@) == trim_start_ws(s@.skip(start as int)),
        decreases s.len() - start,
    {
        assert(s@.skip(start as int).drop_first() =~= s@.skip(start + 1));
        start = start + 1;
    }
    let mut end: usize = s.len();
    assert(s@.subrange(start as int, end as int) =~= s@.skip(start as int));
    while end > start && white_space(s[end - 1])
        invariant
            start <= end <= s@.len(),
            trim_ws(s@) == trim_end_ws(s@.subrange(start as int, end as int)),
        decreases end,
    {
        assert(s@.subrange(start as int, end as int).drop_last() =~= s@.subrange(start as int, end - 1));
        end = end - 1;
    }
    let mut r: Vec<char> = Vec::new();
    let mut i: usize = start;
    while i < end
        invariant
            start <= i <= end <= s@.len(),
            r@ == s@.subrange(start as int, i as int),
        decreases end - i,
    {
        r.push(s[i]);
        i = i + 1;
        assert(r@ =~= s@.subrange(start as int, i as int));
    }
    r
}

/// Whether a character is an ASCII digit.
pub open spec fn is_digit(c: char) -> bool {
    '0' <= c && c <= '9'
}

/// The number of leading ASCII digits.
pub open spec fn digit_prefix(s: Seq<char>) -> nat
    decreases s.len(),
{
    if s.len() > 0 && is_digit(s[0]) {
        1 + digit_prefix(s.drop_first())
    } else {
        0
    }
}

/// The decimal value of a string of ASCII digits.
pub open spec fn decimal_value(d: Seq<char>) -> int
    decreases d.len(),
{
    if d.len() == 0 {
        0
    } else {
        decimal_value(d.drop_last()) * 10 + (d.last() as int - '0' as int)
    }
}

/// The seconds in one unit of a duration, for a lowercased unit word (no word means days).
pub open spec fn unit_seconds(u: Seq<char>) -> Option<int> {
    if u == "d"@ || u == "day"@ || u == "days"@ || u.len() == 0 {
        Some(86400)
    } else if u == "w"@ || u == "week"@ || u == "weeks"@ {
        Some(604800)
    } else if u == "h"@ || u == "hour"@ || u == "hours"@ {
        Some(3600)
    } else if u == "m"@ || u == "month"@ || u == "months"@ {
        Some(2592000)
    } else {
        None
    }
}

/// The message for an unknown unit.
pub open spec fn unknown_unit_message(u: Seq<char>) -> Seq<char> {
    "Unknown duration unit '"@ + u + "'. Use d (days), w (weeks), h (hours), or m (months)"@
}

/// A number of units as a span: `Ok` with the span for a known unit (a month counts as
/// 30 days), otherwise the unknown-unit error.
pub fn duration_in_unit(amount: i64, unit: &str) -> (r: Result<Nanos, Error>)
    requires
        amount >= 0,
    ensures
        match unit_seconds(unit@) {
            Some(secs) => r == Ok::<Nanos, Error>((amount * secs * NANOS_PER_SEC) as Nanos),
            None => r matches Err(Error::Config(m)) && m@ == unknown_unit_message(unit@),
        },
{
    proof {
        reveal_strlit("d");
        reveal_strlit("day");
        reveal_strlit("days");
        reveal_strlit("w");
        reveal_strlit("week");
        reveal_strlit("weeks");
        reveal_strlit("h");
        reveal_strlit("hour");
        reveal_strlit("hours");
        reveal_strlit("m");
        reveal_strlit("month");
        reveal_strlit("months");
    }
    let secs: i128 = if str_eq(unit, "d") || str_eq(unit, "day") || str_eq(unit, "days") || unit.is_empty() {
        86400
    } else if str_eq(unit, "w") || str_eq(unit, "week") || str_eq(unit, "weeks") {
        604800
    } else if str_eq(unit, "h") || str_eq(unit, "hour") || str_eq(unit, "hours") {
        3600
    } else if str_eq(unit, "m") || str_eq(unit, "month") || str_eq(unit, "months") {
        2592000
    } else {
        let mut m = owned("Unknown duration unit '");
        m.append(unit);
        m.append("'. Use d (days), w (weeks), h (hours), or m (months)");
        return Err(Error::Config(m));
    };
    assert(0 <= amount * secs <= 0x7fff_ffff_ffff_ffff * 2592000) by (nonlinear_arith)
        requires
            0 <= amount <= 0x7fff_ffff_ffff_ffff,
            0 < secs <= 2592000,
    ;
    assert(0 <= amount * secs * NANOS_PER_SEC <= 0x7fff_ffff_ffff_ffff * 2592000 * 1_000_000_000)
        by (nonlinear_arith)
        requires
            0 <= amount * secs <= 0x7fff_ffff_ffff_ffff * 2592000,
            NANOS_PER_SEC == 1_000_000_000,
    ;
    Ok((amount as i128) * secs * NANOS_PER_SEC)
}

/// Digits beyond a prefix only make the value larger.
proof fn lemma_decimal_grows(d: Seq<char>, k: int)
    requires
        0 <= k <= d.len(),
        forall|i: int| 0 <= i < d.len() ==> is_digit(#[trigger] d[i]),
    ensures
        decimal_value(d) >= decimal_value(d.take(k)),
        decimal_value(d.take(k)) >= 0,
    decreases d.len() - k,
{
    if k < d.len() {
        lemma_decimal_grows(d, k + 1);
        assert(d.take(k + 1).drop_last() =~= d.take(k));
        assert(is_digit(d[k]));
    } else {
        assert(d.take(k) =~= d);
    }
    lemma_decimal_nonneg(d.take(k));
}

/// The value of digits is not negative.
proof fn lemma_decimal_nonneg(d: Seq<char>)
    requires
        forall|i: int| 0 <= i < d.len() ==> is_digit(#[trigger] d[i]),
    ensures
        decimal_value(d) >= 0,
    decreases d.len(),
{
    if d.len() > 0 {
        lemma_decimal_nonneg(d.drop_last());
        assert(is_digit(d[d.len() - 1]));
    }
}

/// Parses a non-empty string of digits as an `i64` (as `str::parse::<i64>` does for
/// such a string): `None` when it is empty or too large.
pub fn parse_digits(d: &Vec<char>) -> (r: Option<i64>)
    requires
        forall|i: int| 0 <= i < d@.len() ==> is_digit(#[trigger] d@[i]),
    ensures
        match r {
            Some(v) => d@.len() > 0 && v == decimal_value(d@) && v >= 0,
            None => d@.len() == 0 || decimal_value(d@) > i64::MAX,
        },
{
    if d.len() == 0 {
        return None;
    }
    let mut v: i64 = 0;
    let mut i: usize = 0;
    assert(d@.take(0) =~= Seq::<char>::empty());
    while i < d.len()
        invariant
            i <= d@.len(),
            forall|j: int| 0 <= j < d@.len() ==> is_digit(#[trigger] d@[j]),
            v == decimal_value(d@.take(i as int)),
            0 <= v,
        decreases d.len() - i,
    {
        assert(d@.take(i + 1).drop_last() =~= d@.take(i as int));
        assert(is_digit(d@[i as int]));
        let digit: i64 = (d[i] as u32 - '0' as u32) as i64;
        if v > (i64::MAX - digit) / 10 {
            proof {
                lemma_decimal_grows(d@, i + 1);
                assert(decimal_value(d@.take(i + 1)) == v * 10 + digit);
            }
            return None;
        }
        v = v * 10 + digit;
        i = i + 1;
    }
    assert(d@.take(i as int) =~= d@);
    Some(v)
}

/// The unit part of a duration as written: what follows the leading digits, trimmed.
pub open spec fn raw_unit(s: Seq<char>) -> Seq<char> {
    let t = trim_ws(s);
    trim_ws(t.skip(digit_prefix(t) as int))
}

/// The outcome of parsing a duration whose unit, lowercased, is `unit`: surrounding
/// white space is ignored and the leading digits are the amount.
pub open spec fn duration_outcome_in(s: Seq<char>, unit: Seq<char>, r: Result<Nanos, Error>) -> bool {
    let t = trim_ws(s);
    let k = digit_prefix(t);
    let digits = t.take(k as int);
    if t.len() == 0 {
        r matches Err(Error::Config(m)) && m@ == "Empty duration string"@
    } else if digits.len() == 0 || decimal_value(digits) > i64::MAX {
        r matches Err(Error::Config(m)) && m@ == "Invalid duration number: "@ + digits
    } else {
        match unit_seconds(unit) {
            Some(secs) => r == Ok::<Nanos, Error>((decimal_value(digits) * secs * NANOS_PER_SEC) as Nanos),
            None => r matches Err(Error::Config(m)) && m@ == unknown_unit_message(unit),
        }
    }
}

/// The outcome of parsing a duration such as `30d`, `1w`, `24h` or `2m`: surrounding
/// white space is ignored; the leading digits are the amount; the rest, trimmed and
/// lowercased, is the unit.
pub open spec fn duration_outcome(s: Seq<char>, r: Result<Nanos, Error>) -> bool {
    duration_outcome_in(s, lowercase(raw_unit(s)), r)
}

/// The leading digits of `t` are digits, and the one after them (if any) is not.
proof fn lemma_digit_prefix(t: Seq<char>)
    ensures
        digit_prefix(t) <= t.len(),
        forall|i: int| 0 <= i < digit_prefix(t) ==> is_digit(#[trigger] t[i]),
        digit_prefix(t) < t.len() ==> !is_digit(t[digit_prefix(t) as int]),
    decreases t.len(),
{
    if t.len() > 0 && is_digit(t[0]) {
        lemma_digit_prefix(t.drop_first());
        assert forall|i: int| 0 <= i < digit_prefix(t) implies is_digit(#[trigger] t[i]) by {
            if i > 0 {
                assert(t[i] == t.drop_first()[i - 1]);
            }
        }
    }
}

/// Parses a duration (see `duration_outcome`).
pub fn parse_duration(s: &str) -> (r: Result<Nanos, Error>)
    ensures
        duration_outcome(s@, r),
        all_ascii(raw_unit(s@)) ==> duration_outcome_in(s@, ascii_lower(raw_unit(s@)), r),
{
    let sv = chars_of(s);
    let t = trim(&sv);
    if t.len() == 0 {
        return Err(Error::Config(owned("Empty duration string")));
    }
    let mut k: usize = 0;
    assert(t@.skip(0) =~= t@);
    while k < t.len() && '0' <= t[k] && t[k] <= '9'
        invariant
            k <= t@.len(),
            digit_prefix(t@) == k + digit_prefix(t@.skip(k as int)),
            forall|i: int| 0 <= i < k ==> is_digit(#[trigger] t@[i]),
        decreases t.len() - k,
    {
        assert(t@.skip(k as int).drop_first() =~= t@.skip(k + 1));
        k = k + 1;
    }
    assert(digit_prefix(t@.skip(k as int)) == 0);
    let mut digits: Vec<char> = Vec::new();
    let mut rest: Vec<char> = Vec::new();
    let mut i: usize = 0;
    while i < t.len()
        invariant
            i <= t@.len(),
            k <= t@.len(),
            digits@ == t@.take(if i < k { i as int } else { k as int }),
            rest@ == if i <= k { Seq::<char>::empty() } else { t@.subrange(k as int, i as int) },
        decreases t.len() - i,
    {
        if i < k {
            digits.push(t[i]);
        } else {
            rest.push(t[i]);
        }
        i = i + 1;
        assert(digits@ =~= t@.take(if i < k { i as int } else { k as int }));
        assert(rest@ =~= if i <= k { Seq::<char>::empty() } else { t@.subrange(k as int, i as int) });
    }
    assert(rest@ =~= t@.skip(k as int));
    let digits_text = string_from_chars(digits.as_slice());
    match parse_digits(&digits) {
        None => {
            let mut m = owned("Invalid duration number: ");
            m.append(digits_text.as_str());
            Err(Error::Config(m))
        },
        Some(amount) => {
            let unit_chars = trim(&rest);
            let unit_text = string_from_chars(unit_chars.as_slice());
            let unit = to_lowercase(unit_text.as_str());
            duration_in_unit(amount, unit.as_str())
        },
    }
}

/// The positions of the interactions recorded before `cutoff`, in order.
pub open spec fn old_positions(s: Seq<InteractionView>, cutoff: Timestamp) -> Seq<int>
    decreases s.len(),
{
    if s.len() == 0 {
        Seq::empty()
    } else if s.last().recorded_at < cutoff {
        old_positions(s.drop_last(), cutoff).push(s.len() - 1)
    } else {
        old_positions(s.drop_last(), cutoff)
    }
}

/// The interactions recorded at or after `cutoff`, in order.
pub open spec fn recent(s: Seq<InteractionView>, cutoff: Timestamp) -> Seq<InteractionView>
    decreases s.len(),
{
    if s.len() == 0 {
        Seq::empty()
    } else if s.last().recorded_at < cutoff {
        recent(s.drop_last(), cutoff)
    } else {
        recent(s.drop_last(), cutoff).push(s.last())
    }
}

/// The positions of the interactions to prune: those recorded before `cutoff`.
pub fn prune_candidates(items: &Vec<Interaction>, cutoff: Timestamp) -> (r: Vec<usize>)
    ensures
        r@.map_values(|p: usize| p as int) == old_positions(interactions_view(items@), cutoff),
{
    let ghost s = interactions_view(items@);
    let mut r: Vec<usize> = Vec::new();
    let mut i: usize = 0;
    assert(s.take(0) =~= Seq::<InteractionView>::empty());
    assert(r@.map_values(|p: usize| p as int) =~= Seq::<int>::empty());
    while i < items.len()
        invariant
            i <= items@.len(),
            s == interactions_view(items@),
            r@.map_values(|p: usize| p as int) == old_positions(s.take(i as int), cutoff),
        decreases items.len() - i,
    {
        let ghost before = r@;
        assert(s.take(i + 1).drop_last() =~= s.take(i as int));
        assert(s.take(i + 1).last() == items@[i as int]@);
        if items[i].recorded_at < cutoff {
            r.push(i);
            assert(r@.map_values(|p: usize| p as int) =~= before.map_values(|p: usize| p as int).push(i as int));
        }
        i = i + 1;
    }
    assert(s.take(i as int) =~= s);
    r
}

/// Keeps the interactions recorded at or after `cutoff`, in order.
pub fn retain_recent(items: Vec<Interaction>, cutoff: Timestamp) -> (r: Vec<Interaction>)
    ensures
        interactions_view(r@) == recent(interactions_view(items@), cutoff),
{
    let ghost s = interactions_view(items@);
    let mut r: Vec<Interaction> = Vec::new();
    let mut i: usize = 0;
    assert(s.take(0) =~= Seq::<InteractionView>::empty());
    assert(interactions_view(r@) =~= Seq::<InteractionView>::empty());
    while i < items.len()
        invariant
            i <= items@.len(),
            s == interactions_view(items@),
            interactions_view(r@) == recent(s.take(i as int), cutoff),
        decreases items.len() - i,
    {
        let ghost before = r@;
        assert(s.take(i + 1).drop_last() =~= s.take(i as int));
        assert(s.take(i + 1).last() == items@[i as int]@);
        if !(items[i].recorded_at < cutoff) {
            r.push(items[i].clone());
            assert(interactions_view(r@) =~= interactions_view(before).push(items@[i as int]@));
        }
        i = i + 1;
    }
    assert(s.take(i as int) =~= s);
    r
}

/// Pruning splits the interactions: every kept one is recent, every listed position
/// is old, and together they account for all of them.
pub proof fn lemma_prune_partition(s: Seq<InteractionView>, cutoff: Timestamp)
    ensures
        recent(s, cutoff).len() + old_positions(s, cutoff).len() == s.len(),
        forall|i: int| 0 <= i < recent(s, cutoff).len() ==> (#[trigger] recent(s, cutoff)[i]).recorded_at >= cutoff,
        forall|i: int|
            0 <= i < old_positions(s, cutoff).len() ==> 0 <= #[trigger] old_positions(s, cutoff)[i] < s.len()
                && s[old_positions(s, cutoff)[i]].recorded_at < cutoff,
    decreases s.len(),
{
    if s.len() > 0 {
        let init = s.drop_last();
        lemma_prune_partition(init, cutoff);
        let r = recent(s, cutoff);
        let o = old_positions(s, cutoff);
        assert forall|i: int| 0 <= i < r.len() implies (#[trigger] r[i]).recorded_at >= cutoff by {
            if i < recent(init, cutoff).len() {
                assert(r[i] == recent(init, cutoff)[i]);
            }
        }
        assert forall|i: int| 0 <= i < o.len() implies 0 <= #[trigger] o[i] < s.len() && s[o[i]].recorded_at
            < cutoff by {
            if i < old_positions(init, cutoff).len() {
                assert(o[i] == old_positions(init, cutoff)[i]);
                assert(s[o[i]] == init[o[i]]);
            }
        }
    }
}

/// Whether each entry of `p` is larger than every later one.
pub open spec fn strictly_decreasing(p: Seq<usize>) -> bool {
    forall|i: int, j: int| 0 <= i < j < p.len() ==> p[i] > p[j]
}

/// The first listed index that is not a 1-based position among `len` items.
pub open spec fn first_invalid(indices: Seq<usize>, len: usize) -> Option<int> {
    if exists|i: int| 0 <= i < indices.len() && (indices[i] == 0 || indices[i] > len) {
        Some(
            choose|i: int|
                0 <= i < indices.len() && (indices[i] == 0 || indices[i] > len) && forall|j: int|
                    0 <= j < i ==> !(indices[j] == 0 || indices[j] > len),
        )
    } else {
        None
    }
}

/// Inserts `x` into a strictly decreasing list, unless it is there already.
fn insert_descending(p: &mut Vec<usize>, x: usize)
    requires
        strictly_decreasing(old(p)@),
    ensures
        strictly_decreasing(final(p)@),
        final(p)@.to_set() == old(p)@.to_set().insert(x),
{
    let mut i: usize = 0;
    while i < p.len() && p[i] > x
        invariant
            i <= p@.len(),
            forall|j: int| 0 <= j < i ==> p@[j] > x,
        decreases p.len() - i,
    {
        i = i + 1;
    }
    let ghost before = p@;
    if i < p.len() && p[i] == x {
        assert(before.to_set().insert(x) =~= before.to_set()) by {
            assert(before.contains(x));
        }
        return;
    }
    p.insert(i, x);
    assert(p@ =~= before.take(i as int).push(x) + before.skip(i as int));
    assert(strictly_decreasing(p@)) by {
        assert forall|a: int, b: int| 0 <= a < b < p@.len() implies p@[a] > p@[b] by {
            if a < i && b < i {
                assert(p@[a] == before[a] && p@[b] == before[b]);
            } else if a < i && b == i {
                assert(p@[a] == before[a]);
            } else if a < i {
                assert(p@[a] == before[a] && p@[b] == before[b - 1]);
            } else if a == i {
                assert(p@[b] == before[b - 1]);
                assert(before[b - 1] <= before[i as int] || b - 1 == i);
                assert(before[i as int] < x);
            } else {
                assert(p@[a] == before[a - 1] && p@[b] == before[b - 1]);
            }
        }
    }
    assert(p@.to_set() =~= before.to_set().insert(x)) by {
        assert forall|y: usize| p@.to_set().contains(y) implies before.to_set().insert(x).contains(y) by {
            let k = choose|k: int| 0 <= k < p@.len() && p@[k] == y;
            if k < i {
                assert(before[k] == y);
            } else if k > i {
                assert(before[k - 1] == y);
            }
        }
        assert forall|y: usize| before.to_set().insert(x).contains(y) implies p@.to_set().contains(y) by {
            if y == x {
                assert(p@[i as int] == x);
            } else {
                let k = choose|k: int| 0 <= k < before.len() && before[k] == y;
                if k < i {
                    assert(p@[k] == y);
                } else {
                    assert(p@[k + 1] == y);
                }
            }
        }
    }
}

/// Checks the 1-based indices of interactions to delete: `Err` with the first that is
/// out of range, otherwise the distinct indices from largest to smallest.
pub fn delete_plan(indices: &Vec<usize>, len: usize) -> (r: Result<Vec<usize>, usize>)
    ensures
        match first_invalid(indices@, len) {
            Some(i) => r == Err::<Vec<usize>, usize>(indices@[i]),
            None => r matches Ok(p) && strictly_decreasing(p@) && p@.to_set() == indices@.to_set(),
        },
{
    let mut i: usize = 0;
    while i < indices.len()
        invariant
            i <= indices@.len(),
            forall|j: int| 0 <= j < i ==> !(indices@[j] == 0 || indices@[j] > len),
        decreases indices.len() - i,
    {
        if indices[i] == 0 || indices[i] > len {
            proof {
                let w = choose|w: int|
                    0 <= w < indices@.len() && (indices@[w] == 0 || indices@[w] > len) && forall|j: int|
                        0 <= j < w ==> !(indices@[j] == 0 || indices@[j] > len);
                assert(w == i) by {
                    if w < i {
                    } else if w > i {
                    }
                }
            }
            return Err(indices[i]);
        }
        i = i + 1;
    }
    let mut p: Vec<usize> = Vec::new();
    let mut k: usize = 0;
    assert(indices@.take(0).to_set() =~= Set::<usize>::empty());
    assert(p@.to_set() =~= Set::<usize>::empty());
    while k < indices.len()
        invariant
            k <= indices@.len(),
            strictly_decreasing(p@),
            p@.to_set() == indices@.take(k as int).to_set(),
        decreases indices.len() - k,
    {
        insert_descending(&mut p, indices[k]);
        assert(indices@.take(k + 1) =~= indices@.take(k as int).push(indices@[k as int]));
        proof {
            let a = indices@.take(k as int);
            let b = indices@.take(k + 1);
            let x = indices@[k as int];
            assert forall|y: usize| b.to_set().contains(y) implies a.to_set().insert(x).contains(y) by {
                let q = choose|q: int| 0 <= q < b.len() && b[q] == y;
                if q < k {
                    assert(a[q] == y);
                }
            }
            assert forall|y: usize| a.to_set().insert(x).contains(y) implies b.to_set().contains(y) by {
                if y == x {
                    assert(b[k as int] == x);
                } else {
                    let q = choose|q: int| 0 <= q < a.len() && a[q] == y;
                    assert(b[q] == y);
                }
            }
            assert(b.to_set() =~= a.to_set().insert(x));
        }
        k = k + 1;
    }
    assert(indices@.take(k as int) =~= indices@);
    Ok(p)
}

/// The items whose 1-based position is not in `drop`, in order.
pub open spec fn without_positions(s: Seq<InteractionView>, drop: Set<usize>) -> Seq<InteractionView>
    decreases s.len(),
{
    if s.len() == 0 {
        s
    } else if drop.contains(s.len() as usize) {
        without_positions(s.drop_last(), drop)
    } else {
        without_positions(s.drop_last(), drop).push(s.last())
    }
}

/// Splits interactions for deletion: the ones kept, in order, and the ones at the
/// planned 1-based positions, in plan order.
pub fn split_deleted(items: &Vec<Interaction>, plan: &Vec<usize>) -> (r: (Vec<Interaction>, Vec<Interaction>))
    requires
        forall|i: int| 0 <= i < plan@.len() ==> 1 <= #[trigger] plan@[i] <= items@.len(),
    ensures
        interactions_view(r.0@) == without_positions(interactions_view(items@), plan@.to_set()),
        r.1@.len() == plan@.len(),
        forall|i: int| 0 <= i < plan@.len() ==> (#[trigger] r.1@[i])@ == items@[plan@[i] - 1]@,
{
    let ghost s = interactions_view(items@);
    let mut kept: Vec<Interaction> = Vec::new();
    let mut i: usize = 0;
    assert(s.take(0) =~= Seq::<InteractionView>::empty());
    assert(interactions_view(kept@) =~= Seq::<InteractionView>::empty());
    while i < items.len()
        invariant
            i <= items@.len(),
            s == interactions_view(items@),
            interactions_view(kept@) == without_positions(s.take(i as int), plan@.to_set()),
        decreases items.len() - i,
    {
        let ghost before = kept@;
        assert(s.take(i + 1).drop_last() =~= s.take(i as int));
        assert(s.take(i + 1).last() == items@[i as int]@);
        let mut listed = false;
        let mut j: usize = 0;
        let position: usize = i + 1;
        while j < plan.len()
            invariant
                j <= plan@.len(),
                position == i + 1,
                listed == exists|q: int| 0 <= q < j && plan@[q] == i + 1,
            decreases plan.len() - j,
        {
            if plan[j] == position {
                listed = true;
            }
            j = j + 1;
        }
        assert(listed == plan@.to_set().contains((i + 1) as usize));
        if !listed {
            kept.push(items[i].clone());
            assert(interactions_view(kept@) =~= interactions_view(before).push(items@[i as int]@));
        }
        i = i + 1;
    }
    assert(s.take(i as int) =~= s);
    let mut removed: Vec<Interaction> = Vec::new();
    let mut k: usize = 0;
    while k < plan.len()
        invariant
            k <= plan@.len(),
            forall|i: int| 0 <= i < plan@.len() ==> 1 <= #[trigger] plan@[i] <= items@.len(),
            removed@.len() == k,
            forall|i: int| 0 <= i < k ==> (#[trigger] removed@[i])@ == items@[plan@[i] - 1]@,
        decreases plan.len() - k,
    {
        assert(1 <= plan@[k as int] <= items@.len());
        removed.push(items[plan[k] - 1].clone());
        k = k + 1;
    }
    (kept, removed)
}

/// The serve command needs a target in the modes that make real requests.
pub fn check_serve_target(mode: Mode, target: &Option<String>) -> (r: Result<(), Error>)
    ensures
        match r {
            Ok(()) => mode == Mode::Replay || target is Some,
            Err(e) => mode != Mode::Replay && target is None && (e matches Error::Config(m) && m@
                == "Target URL required for record/auto modes. Use --target <URL>"@),
        },
{
    if mode.allows_real_requests() && target.is_none() {
        return Err(Error::Config(owned("Target URL required for record/auto modes. Use --target <URL>")));
    }
    Ok(())
}

/// The position of the interaction a 1-based index names, when the cassette holds it.
pub fn show_position(index: usize, len: usize) -> (r: Option<usize>)
    ensures
        r == if 1 <= index <= len {
            Some((index - 1) as usize)
        } else {
            None::<usize>
        },
{
    if index == 0 || index > len {
        None
    } else {
        Some(index - 1)
    }
}

/// The interaction kept when refreshing one: the same request with the fresh response
/// (stamped now) when the server answered, otherwise the old interaction unchanged.
pub fn refreshed(old: &Interaction, fresh: Option<RecordedResponse>) -> (r: Interaction)
    ensures
        match fresh {
            Some(resp) => r@.request == old@.request && r@.response == Some(resp@) && r@.error is None
                && crate::clock::is_clock_reading(r@.recorded_at),
            None => r@ == old@,
        },
{
    match fresh {
        Some(resp) => Interaction::new(old.request.clone(), resp),
        None => old.clone(),
    }
}

/// Whether a character is an ASCII letter.
pub open spec fn is_ascii_letter(c: char) -> bool {
    ('a' <= c && c <= 'z') || ('A' <= c && c <= 'Z')
}

/// Leading white space is skipped.
proof fn lemma_trim_start_gap(gap: Seq<char>, x: Seq<char>)
    requires
        forall|i: int| 0 <= i < gap.len() ==> is_white_space(#[trigger] gap[i]),
    ensures
        trim_start_ws(gap + x) == trim_start_ws(x),
    decreases gap.len(),
{
    if gap.len() > 0 {
        assert(is_white_space(gap[0]));
        assert((gap + x)[0] == gap[0]);
        assert((gap + x).drop_first() =~= gap.drop_first() + x);
        assert forall|i: int| 0 <= i < gap.drop_first().len() implies is_white_space(#[trigger] gap.drop_first()[i]) by {
            assert(gap.drop_first()[i] == gap[i + 1]);
        }
        lemma_trim_start_gap(gap.drop_first(), x);
    } else {
        assert(gap + x =~= x);
    }
}

/// Digits followed by something that does not start with a digit: the digit prefix
/// is exactly the digits.
proof fn lemma_digit_prefix_of(digits: Seq<char>, rest: Seq<char>)
    requires
        forall|i: int| 0 <= i < digits.len() ==> is_digit(#[trigger] digits[i]),
        rest.len() == 0 || !is_digit(rest[0]),
    ensures
        digit_prefix(digits + rest) == digits.len(),
    decreases digits.len(),
{
    if digits.len() > 0 {
        assert((digits + rest)[0] == digits[0]);
        assert((digits + rest).drop_first() =~= digits.drop_first() + rest);
        assert forall|i: int| 0 <= i < digits.drop_first().len() implies is_digit(#[trigger] digits.drop_first()[i]) by {
            assert(digits.drop_first()[i] == digits[i + 1]);
        }
        lemma_digit_prefix_of(digits.drop_first(), rest);
    } else {
        assert(digits + rest =~= rest);
    }
}

/// The seconds in a day.
pub open spec fn day_secs() -> int {
    86400int
}

/// Each unit word of a duration, and each of its aliases, counts the time it names:
/// for digits `n`, optional white space, then a unit word in any ASCII case, parsing
/// gives `n` days for `d`, `day`, `days` or no word; `n` weeks (7 days) for `w`,
/// `week`, `weeks`; `n` hours (an hour being 3600 seconds, a 24th of a day) for `h`,
/// `hour`, `hours`; and `n` months of 30 days for `m`, `month`, `months`; in
/// nanoseconds. `r` is what `parse_duration` gives for that text.
pub proof fn lemma_duration_units(digits: Seq<char>, gap: Seq<char>, unit: Seq<char>, r: Result<Nanos, Error>)
    requires
        digits.len() > 0,
        forall|i: int| 0 <= i < digits.len() ==> is_digit(#[trigger] digits[i]),
        decimal_value(digits) <= i64::MAX,
        forall|i: int| 0 <= i < gap.len() ==> is_white_space(#[trigger] gap[i]),
        forall|i: int| 0 <= i < unit.len() ==> is_ascii_letter(#[trigger] unit[i]),
        unit.len() == 0 ==> gap.len() == 0,
        duration_outcome_in(digits + gap + unit, ascii_lower(raw_unit(digits + gap + unit)), r),
    ensures
        raw_unit(digits + gap + unit) == unit,
        all_ascii(raw_unit(digits + gap + unit)),
        ascii_lower(unit) == "d"@ || ascii_lower(unit) == "day"@ || ascii_lower(unit) == "days"@ || unit.len() == 0
            ==> r == Ok::<Nanos, Error>((decimal_value(digits) * day_secs() * 1_000_000_000) as Nanos),
        ascii_lower(unit) == "w"@ || ascii_lower(unit) == "week"@ || ascii_lower(unit) == "weeks"@ ==> r == Ok::<
            Nanos,
            Error,
        >((decimal_value(digits) * 7 * day_secs() * 1_000_000_000) as Nanos),
        ascii_lower(unit) == "h"@ || ascii_lower(unit) == "hour"@ || ascii_lower(unit) == "hours"@ ==> r == Ok::<
            Nanos,
            Error,
        >((decimal_value(digits) * (day_secs() / 24) * 1_000_000_000) as Nanos),
        ascii_lower(unit) == "m"@ || ascii_lower(unit) == "month"@ || ascii_lower(unit) == "months"@ ==> r == Ok::<
            Nanos,
            Error,
        >((decimal_value(digits) * 30 * day_secs() * 1_000_000_000) as Nanos),
{
    reveal_strlit("d");
    reveal_strlit("day");
    reveal_strlit("days");
    reveal_strlit("w");
    reveal_strlit("week");
    reveal_strlit("weeks");
    reveal_strlit("h");
    reveal_strlit("hour");
    reveal_strlit("hours");
    reveal_strlit("m");
    reveal_strlit("month");
    reveal_strlit("months");
    let s = digits + gap + unit;
    let rest = gap + unit;
    assert(s =~= digits + rest);
    // No white space at either end of the whole text.
    assert(s[0] == digits[0]);
    assert(is_digit(digits[0]));
    assert(trim_start_ws(s) == s);
    if unit.len() > 0 {
        assert(s.last() == unit[unit.len() - 1]);
        assert(is_ascii_letter(unit[unit.len() - 1]));
    } else {
        assert(s.last() == digits[digits.len() - 1]);
        assert(is_digit(digits[digits.len() - 1]));
    }
    assert(trim_end_ws(s) == s);
    assert(trim_ws(s) == s);
    // The amount is the digits.
    if rest.len() > 0 {
        if gap.len() > 0 {
            assert(rest[0] == gap[0]);
            assert(is_white_space(gap[0]));
        } else {
            assert(rest[0] == unit[0]);
            assert(is_ascii_letter(unit[0]));
        }
    }
    lemma_digit_prefix_of(digits, rest);
    assert(s.take(digits.len() as int) =~= digits);
    assert(s.skip(digits.len() as int) =~= rest);
    // The unit is the word, trimmed.
    lemma_trim_start_gap(gap, unit);
    if unit.len() > 0 {
        assert(is_ascii_letter(unit[0]));
        assert(trim_start_ws(unit) == unit);
        assert(is_ascii_letter(unit[unit.len() - 1]));
        assert(trim_end_ws(unit) == unit);
    } else {
        assert(rest =~= unit);
    }
    assert(raw_unit(s) == unit);
    let v = decimal_value(digits);
    assert(v * 7 * day_secs() * 1_000_000_000 == v * 604800 * NANOS_PER_SEC) by (nonlinear_arith)
        requires
            day_secs() == 86400,
            NANOS_PER_SEC == 1_000_000_000,
    ;
    assert(v * (day_secs() / 24) * 1_000_000_000 == v * 3600 * NANOS_PER_SEC) by (nonlinear_arith)
        requires
            day_secs() == 86400,
            NANOS_PER_SEC == 1_000_000_000,
    ;
    assert(v * 30 * day_secs() * 1_000_000_000 == v * 2592000 * NANOS_PER_SEC) by (nonlinear_arith)
        requires
            day_secs() == 86400,
            NANOS_PER_SEC == 1_000_000_000,
    ;
    assert(v * day_secs() * 1_000_000_000 == v * 86400 * NANOS_PER_SEC);
    assert("d"@[0] == 'd' && "day"@[0] == 'd' && "days"@[0] == 'd');
    assert("w"@[0] == 'w' && "week"@[0] == 'w' && "weeks"@[0] == 'w');
    assert("h"@[0] == 'h' && "hour"@[0] == 'h' && "hours"@[0] == 'h');
    assert("m"@[0] == 'm' && "month"@[0] == 'm' && "months"@[0] == 'm');
}

} // verus!
