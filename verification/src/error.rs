//! The library's errors.

use vstd::prelude::*;
use crate::cassette::Timestamp;
use crate::clock::{Nanos, datetime_display, datetime_text, delta_display, delta_text, split_nanos, split_nanos_spec};
use crate::text::owned;
use vstd::string::StringExecFns;

verus! {

/// Errors of recording and replaying.
#[derive(Debug)]
pub enum Error {
    /// The cassette file does not exist.
    CassetteNotFound(String),
    /// No recorded interaction matches the request.
    NoMatch,
    /// The matching interaction is older than the allowed age.
    CassetteExpired {
        /// When the interaction was recorded.
        recorded_at: Timestamp,
        /// The allowed age.
        max_age: Nanos,
    },
    /// The cassette could not be read or written in its format.
    InvalidFormat(String),
    /// A JSON path in a filter is malformed.
    InvalidJsonPath(String),
    /// A file-system error, by its message.
    Io(String),
    /// A JSON (de)serialization error, by its message.
    Json(String),
    /// A failed HTTP request.
    Http {
        /// The client's message.
        message: String,
        /// Whether the request timed out.
        timeout: bool,
        /// Whether the connection could not be made.
        connect: bool,
    },
    /// A malformed URL, by its message.
    Url(String),
    /// A proxy server error.
    Proxy(String),
    /// A configuration error.
    Config(String),
    /// A recorded timeout, replayed.
    RecordedTimeout { message: String },
    /// A recorded connection error, replayed.
    RecordedConnection { message: String },
    /// A recorded DNS error, replayed.
    RecordedDns { message: String },
    /// A recorded TLS error, replayed.
    RecordedTls { message: String },
    /// A recorded cancellation, replayed.
    RecordedCancelled { message: String },
    /// A recorded error of unknown kind, replayed.
    RecordedUnknown { message: String },
}

/// Whether an error is a recorded one being replayed.
pub open spec fn is_recorded(e: &Error) -> bool {
    match e {
        Error::RecordedTimeout { .. } | Error::RecordedConnection { .. } | Error::RecordedDns { .. }
        | Error::RecordedTls { .. } | Error::RecordedCancelled { .. } | Error::RecordedUnknown { .. } => true,
        _ => false,
    }
}

/// How an instant is written in messages: chrono's display of it, or nothing when
/// chrono cannot represent it.
pub open spec fn instant_text(t: int) -> Seq<char> {
    match split_nanos_spec(t) {
        Some((s, n)) => match datetime_display(s, n) {
            Some(x) => x,
            None => Seq::empty(),
        },
        None => Seq::empty(),
    }
}

/// How a span is written in messages: chrono's display of it, or nothing when
/// chrono cannot represent it.
pub open spec fn span_text(d: int) -> Seq<char> {
    match split_nanos_spec(d) {
        Some((s, n)) => match delta_display(s, n) {
            Some(x) => x,
            None => Seq::empty(),
        },
        None => Seq::empty(),
    }
}

/// The message of an error.
pub open spec fn error_message(e: &Error) -> Seq<char> {
    match e {
        Error::CassetteNotFound(p) => "Cassette not found: "@ + p@,
        Error::NoMatch => "No matching interaction found for request"@,
        Error::CassetteExpired { recorded_at, max_age } => "Cassette expired: recorded at "@ + instant_text(
            *recorded_at as int,
        ) + ", max age "@ + span_text(*max_age as int),
        Error::InvalidFormat(m) => "Invalid cassette format: "@ + m@,
        Error::InvalidJsonPath(m) => "Invalid JSON path: "@ + m@,
        Error::Io(m) => "IO error: "@ + m@,
        Error::Json(m) => "JSON error: "@ + m@,
        Error::Http { message, .. } => "HTTP error: "@ + message@,
        Error::Url(m) => "URL error: "@ + m@,
        Error::Proxy(m) => "Proxy error: "@ + m@,
        Error::Config(m) => "Configuration error: "@ + m@,
        Error::RecordedTimeout { message } => "Recorded timeout: "@ + message@,
        Error::RecordedConnection { message } => "Recorded connection error: "@ + message@,
        Error::RecordedDns { message } => "Recorded DNS error: "@ + message@,
        Error::RecordedTls { message } => "Recorded TLS error: "@ + message@,
        Error::RecordedCancelled { message } => "Recorded cancelled: "@ + message@,
        Error::RecordedUnknown { message } => "Recorded error: "@ + message@,
    }
}

/// `prefix` followed by `rest`.
fn prefixed(prefix: &str, rest: &str) -> (s: String)
    ensures
        s@ == prefix@ + rest@,
{
    let mut s = owned(prefix);
    s.append(rest);
    s
}

/// An instant as written in messages.
fn instant_string(t: i128) -> (s: String)
    ensures
        s@ == instant_text(t as int),
{
    match split_nanos(t) {
        Some((secs, nanos)) => match datetime_text(secs, nanos) {
            Some(x) => x,
            None => String::new(),
        },
        None => String::new(),
    }
}

/// A span as written in messages.
fn span_string(d: i128) -> (s: String)
    ensures
        s@ == span_text(d as int),
{
    match split_nanos(d) {
        Some((secs, nanos)) => match delta_text(secs, nanos) {
            Some(x) => x,
            None => String::new(),
        },
        None => String::new(),
    }
}

impl Error {
    /// Whether this is a recorded error being replayed.
    pub fn is_recorded_error(&self) -> (b: bool)
        ensures
            b == is_recorded(self),
    {
        match self {
            Error::RecordedTimeout { .. } | Error::RecordedConnection { .. } | Error::RecordedDns { .. }
            | Error::RecordedTls { .. } | Error::RecordedCancelled { .. } | Error::RecordedUnknown { .. } => true,
            _ => false,
        }
    }

    /// The error's message.
    pub fn to_string(&self) -> (s: String)
        ensures
            s@ == error_message(self),
    {
        match self {
            Error::CassetteNotFound(p) => prefixed("Cassette not found: ", p.as_str()),
            Error::NoMatch => owned("No matching interaction found for request"),
            Error::CassetteExpired { recorded_at, max_age } => {
                let mut s = owned("Cassette expired: recorded at ");
                let at = instant_string(*recorded_at);
                s.append(at.as_str());
                s.append(", max age ");
                let age = span_string(*max_age);
                s.append(age.as_str());
                s
            },
            Error::InvalidFormat(m) => prefixed("Invalid cassette format: ", m.as_str()),
            Error::InvalidJsonPath(m) => prefixed("Invalid JSON path: ", m.as_str()),
            Error::Io(m) => prefixed("IO error: ", m.as_str()),
            Error::Json(m) => prefixed("JSON error: ", m.as_str()),
            Error::Http { message, .. } => prefixed("HTTP error: ", message.as_str()),
            Error::Url(m) => prefixed("URL error: ", m.as_str()),
            Error::Proxy(m) => prefixed("Proxy error: ", m.as_str()),
            Error::Config(m) => prefixed("Configuration error: ", m.as_str()),
            Error::RecordedTimeout { message } => prefixed("Recorded timeout: ", message.as_str()),
            Error::RecordedConnection { message } => prefixed("Recorded connection error: ", message.as_str()),
            Error::RecordedDns { message } => prefixed("Recorded DNS error: ", message.as_str()),
            Error::RecordedTls { message } => prefixed("Recorded TLS error: ", message.as_str()),
            Error::RecordedCancelled { message } => prefixed("Recorded cancelled: ", message.as_str()),
            Error::RecordedUnknown { message } => prefixed("Recorded error: ", message.as_str()),
        }
    }
}

} // verus!
