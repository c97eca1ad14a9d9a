//! Finding the recorded interaction that answers a request, and turning what was
//! recorded into what is replayed.

use vstd::prelude::*;
use crate::cassette::types::{ErrorKind, ErrorView, Interaction, InteractionView, RecordedError, RequestView};
use crate::cassette::Timestamp;
use crate::clock::Nanos;
use crate::error::Error;
use crate::matcher::Matcher;

verus! {

/// Whether `err` is the error replayed for the recorded error `e`: the variant of
/// its kind, with its message.
pub open spec fn replays_error(e: ErrorView, err: Error) -> bool {
    match e.kind {
        ErrorKind::Timeout => err matches Error::RecordedTimeout { message } && message@ == e.message,
        ErrorKind::Connection => err matches Error::RecordedConnection { message } && message@ == e.message,
        ErrorKind::Dns => err matches Error::RecordedDns { message } && message@ == e.message,
        ErrorKind::Tls => err matches Error::RecordedTls { message } && message@ == e.message,
        ErrorKind::Cancelled => err matches Error::RecordedCancelled { message } && message@ == e.message,
        ErrorKind::Unknown => err matches Error::RecordedUnknown { message } && message@ == e.message,
    }
}

/// The error replayed for a recorded error.
pub fn recorded_error_to_error(error: &RecordedError) -> (e: Error)
    ensures
        replays_error(error@, e),
{
    let message = error.message.clone();
    match error.kind {
        ErrorKind::Timeout => Error::RecordedTimeout { message },
        ErrorKind::Connection => Error::RecordedConnection { message },
        ErrorKind::Dns => Error::RecordedDns { message },
        ErrorKind::Tls => Error::RecordedTls { message },
        ErrorKind::Cancelled => Error::RecordedCancelled { message },
        ErrorKind::Unknown => Error::RecordedUnknown { message },
    }
}

/// Whether an interaction recorded at `recorded_at` is too old at `now`: its age is
/// strictly greater than the allowed age.
pub open spec fn is_expired(recorded_at: Timestamp, max_age: Option<Nanos>, now: Timestamp) -> bool {
    match max_age {
        Some(m) => now - recorded_at > m,
        None => false,
    }
}

/// Once expired, an interaction stays expired: expiry at one time implies expiry at
/// every later time.
pub proof fn lemma_expiry_monotone(recorded_at: Timestamp, max_age: Option<Nanos>, t1: Timestamp, t2: Timestamp)
    requires
        t1 <= t2,
        is_expired(recorded_at, max_age, t1),
    ensures
        is_expired(recorded_at, max_age, t2),
{
}

/// Checks an interaction's age.
pub fn expired(recorded_at: Timestamp, max_age: Option<Nanos>, now: Timestamp) -> (b: bool)
    ensures
        b == is_expired(recorded_at, max_age, now),
{
    match max_age {
        Some(m) => {
            if recorded_at < 0 && now > i128::MAX + recorded_at {
                true
            } else if recorded_at > 0 && now < i128::MIN + recorded_at {
                false
            } else {
                now - recorded_at > m
            }
        },
        None => false,
    }
}

/// The position of the first interaction (from `start` on) that the matcher's rule
/// accepts for the request.
pub open spec fn first_match_from<M: Matcher + ?Sized>(
    m: &M,
    s: Seq<InteractionView>,
    req: RequestView,
    start: int,
) -> Option<int>
    decreases s.len() - start,
{
    if start < 0 || start >= s.len() {
        None
    } else if m.spec_matches(s[start].request, req) {
        Some(start)
    } else {
        first_match_from(m, s, req, start + 1)
    }
}

/// The position of the first interaction that the matcher's rule accepts.
pub open spec fn first_match<M: Matcher + ?Sized>(m: &M, s: Seq<InteractionView>, req: RequestView) -> Option<int> {
    first_match_from(m, s, req, 0)
}

/// `first_match_from` finds the first accepted position at or after `start`.
pub proof fn lemma_first_match_from<M: Matcher + ?Sized>(m: &M, s: Seq<InteractionView>, req: RequestView, start: int)
    requires
        0 <= start,
    ensures
        match first_match_from(m, s, req, start) {
            Some(i) => start <= i < s.len() && m.spec_matches(s[i].request, req) && forall|j: int|
                start <= j < i ==> !m.spec_matches(#[trigger] s[j].request, req),
            None => forall|j: int| start <= j < s.len() ==> !m.spec_matches(#[trigger] s[j].request, req),
        },
    decreases s.len() - start,
{
    if start < s.len() && !m.spec_matches(s[start].request, req) {
        lemma_first_match_from(m, s, req, start + 1);
    }
}

} // verus!
