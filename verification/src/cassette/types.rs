//! Cassette data types: recorded requests, responses, errors and interactions.

use vstd::prelude::*;
use crate::text::{owned, opt_view};
use crate::clock::now;
use vstd::string::StringExecFns;

verus! {

/// A point in time, in nanoseconds since the Unix epoch (UTC).
pub type Timestamp = i128;

/// An HTTP header (name and value, as recorded).
#[derive(Debug, PartialEq, Eq)]
pub struct Header {
    /// Header name.
    pub name: String,
    /// Header value.
    pub value: String,
}

impl View for Header {
    type V = (Seq<char>, Seq<char>);

    /// A header as its name and value.
    open spec fn view(&self) -> (Seq<char>, Seq<char>) {
        (self.name@, self.value@)
    }
}

/// The headers of a list, as (name, value) pairs.
pub open spec fn headers_view(v: Seq<Header>) -> Seq<(Seq<char>, Seq<char>)> {
    v.map_values(|h: Header| h@)
}

impl Header {
    /// Creates a header.
    pub fn new(name: &str, value: &str) -> (h: Header)
        ensures
            h.name@ == name@,
            h.value@ == value@,
    {
        Header { name: owned(name), value: owned(value) }
    }
}

impl Clone for Header {
    fn clone(&self) -> (r: Self)
        ensures
            r == *self,
    {
        Header { name: self.name.clone(), value: self.value.clone() }
    }
}

/// A copy of a header list.
pub fn clone_headers(v: &Vec<Header>) -> (r: Vec<Header>)
    ensures
        r@ == v@,
{
    let r = v.clone();
    assert(r@ =~= v@);
    r
}

/// How a recorded body is stored.
#[derive(Debug, Clone, Copy, PartialEq, Eq, Structural)]
pub enum BodyEncoding {
    /// Plain UTF-8 text.
    Text,
    /// Base64 of the raw bytes.
    Base64,
}

impl Default for BodyEncoding {
    fn default() -> (r: Self)
        ensures
            r == BodyEncoding::Text,
    {
        BodyEncoding::Text
    }
}

/// The kind of a transport error.
#[derive(Debug, Clone, Copy, PartialEq, Eq, Structural)]
pub enum ErrorKind {
    /// The request timed out.
    Timeout,
    /// The connection failed.
    Connection,
    /// Name resolution failed.
    Dns,
    /// TLS failed.
    Tls,
    /// The request was cancelled.
    Cancelled,
    /// Anything else.
    Unknown,
}

/// A recorded transport error.
#[derive(Debug)]
pub struct RecordedError {
    /// What kind of error occurred.
    pub kind: ErrorKind,
    /// Human-readable message.
    pub message: String,
}

impl Clone for RecordedError {
    fn clone(&self) -> (r: Self)
        ensures
            r == *self,
    {
        RecordedError { kind: self.kind, message: self.message.clone() }
    }
}

impl RecordedError {
    /// Creates a recorded error.
    pub fn new(kind: ErrorKind, message: &str) -> (e: RecordedError)
        ensures
            e.kind == kind,
            e.message@ == message@,
    {
        RecordedError { kind, message: owned(message) }
    }

    /// Creates a timeout error.
    pub fn timeout(message: &str) -> (e: RecordedError)
        ensures
            e.kind == ErrorKind::Timeout,
            e.message@ == message@,
    {
        Self::new(ErrorKind::Timeout, message)
    }

    /// Creates a connection error.
    pub fn connection(message: &str) -> (e: RecordedError)
        ensures
            e.kind == ErrorKind::Connection,
            e.message@ == message@,
    {
        Self::new(ErrorKind::Connection, message)
    }

    /// Creates a DNS error.
    pub fn dns(message: &str) -> (e: RecordedError)
        ensures
            e.kind == ErrorKind::Dns,
            e.message@ == message@,
    {
        Self::new(ErrorKind::Dns, message)
    }
}

/// The abstract content of a recorded request.
pub struct RequestView {
    pub method: Seq<char>,
    pub url: Seq<char>,
    pub headers: Seq<(Seq<char>, Seq<char>)>,
    pub body: Option<Seq<char>>,
    pub body_encoding: BodyEncoding,
}

/// The abstract content of a recorded response.
pub struct ResponseView {
    pub status: u16,
    pub headers: Seq<(Seq<char>, Seq<char>)>,
    pub body: Option<Seq<char>>,
    pub body_encoding: BodyEncoding,
}

/// The abstract content of a recorded error.
pub struct ErrorView {
    pub kind: ErrorKind,
    pub message: Seq<char>,
}

impl View for RecordedError {
    type V = ErrorView;

    open spec fn view(&self) -> ErrorView {
        ErrorView { kind: self.kind, message: self.message@ }
    }
}

/// A recorded HTTP request.
#[derive(Debug)]
pub struct RecordedRequest {
    /// HTTP method.
    pub method: String,
    /// Request URL.
    pub url: String,
    /// Headers, in order.
    pub headers: Vec<Header>,
    /// Body (base64 when `body_encoding` says so).
    pub body: Option<String>,
    /// Encoding of `body`.
    pub body_encoding: BodyEncoding,
}

impl View for RecordedRequest {
    type V = RequestView;

    open spec fn view(&self) -> RequestView {
        RequestView {
            method: self.method@,
            url: self.url@,
            headers: headers_view(self.headers@),
            body: opt_view(self.body),
            body_encoding: self.body_encoding,
        }
    }
}

impl Clone for RecordedRequest {
    fn clone(&self) -> (r: Self)
        ensures
            r@ == self@,
    {
        RecordedRequest {
            method: self.method.clone(),
            url: self.url.clone(),
            headers: clone_headers(&self.headers),
            body: self.body.clone(),
            body_encoding: self.body_encoding,
        }
    }
}

impl RecordedRequest {
    /// Creates a request with no headers and no body.
    pub fn new(method: &str, url: &str) -> (r: RecordedRequest)
        ensures
            r@ == (RequestView {
                method: method@,
                url: url@,
                headers: Seq::empty(),
                body: None,
                body_encoding: BodyEncoding::Text,
            }),
    {
        let r = RecordedRequest {
            method: owned(method),
            url: owned(url),
            headers: Vec::new(),
            body: None,
            body_encoding: BodyEncoding::Text,
        };
        assert(headers_view(r.headers@) =~= Seq::empty());
        r
    }

    /// Appends a header.
    pub fn header(self, name: &str, value: &str) -> (r: RecordedRequest)
        ensures
            r@ == (RequestView { headers: self@.headers.push((name@, value@)), ..self@ }),
    {
        let mut r = self;
        r.headers.push(Header::new(name, value));
        proof {
            assert(headers_view(r.headers@) =~= headers_view(self.headers@).push((name@, value@)));
        }
        r
    }

    /// Sets the body.
    pub fn body(self, body: &str) -> (r: RecordedRequest)
        ensures
            r@ == (RequestView { body: Some(body@), ..self@ }),
    {
        let mut r = self;
        r.body = Some(owned(body));
        r
    }
}

/// A recorded HTTP response.
#[derive(Debug)]
pub struct RecordedResponse {
    /// Status code.
    pub status: u16,
    /// Headers, in order.
    pub headers: Vec<Header>,
    /// Body (base64 when `body_encoding` says so).
    pub body: Option<String>,
    /// Encoding of `body`.
    pub body_encoding: BodyEncoding,
}

impl View for RecordedResponse {
    type V = ResponseView;

    open spec fn view(&self) -> ResponseView {
        ResponseView {
            status: self.status,
            headers: headers_view(self.headers@),
            body: opt_view(self.body),
            body_encoding: self.body_encoding,
        }
    }
}

impl Clone for RecordedResponse {
    fn clone(&self) -> (r: Self)
        ensures
            r@ == self@,
    {
        RecordedResponse {
            status: self.status,
            headers: clone_headers(&self.headers),
            body: self.body.clone(),
            body_encoding: self.body_encoding,
        }
    }
}

impl RecordedResponse {
    /// Creates a response with no headers and no body.
    pub fn new(status: u16) -> (r: RecordedResponse)
        ensures
            r@ == (ResponseView {
                status,
                headers: Seq::empty(),
                body: None,
                body_encoding: BodyEncoding::Text,
            }),
    {
        let r = RecordedResponse {
            status,
            headers: Vec::new(),
            body: None,
            body_encoding: BodyEncoding::Text,
        };
        assert(headers_view(r.headers@) =~= Seq::empty());
        r
    }

    /// Appends a header.
    pub fn header(self, name: &str, value: &str) -> (r: RecordedResponse)
        ensures
            r@ == (ResponseView { headers: self@.headers.push((name@, value@)), ..self@ }),
    {
        let mut r = self;
        r.headers.push(Header::new(name, value));
        proof {
            assert(headers_view(r.headers@) =~= headers_view(self.headers@).push((name@, value@)));
        }
        r
    }

    /// Sets the body.
    pub fn body(self, body: &str) -> (r: RecordedResponse)
        ensures
            r@ == (ResponseView { body: Some(body@), ..self@ }),
    {
        let mut r = self;
        r.body = Some(owned(body));
        r
    }
}

} // verus!

verus! {

/// The abstract content of an interaction.
pub struct InteractionView {
    pub request: RequestView,
    pub response: Option<ResponseView>,
    pub error: Option<ErrorView>,
    pub recorded_at: Timestamp,
}

/// One HTTP exchange: the request and either its response or its error.
#[derive(Debug)]
pub struct Interaction {
    /// The recorded request.
    pub request: RecordedRequest,
    /// The response, for a successful exchange.
    pub response: Option<RecordedResponse>,
    /// The error, for a failed exchange.
    pub error: Option<RecordedError>,
    /// When the exchange was recorded.
    pub recorded_at: Timestamp,
}

/// The view of an optional response.
pub open spec fn opt_response_view(o: Option<RecordedResponse>) -> Option<ResponseView> {
    match o {
        Some(r) => Some(r@),
        None => None,
    }
}

/// The view of an optional error.
pub open spec fn opt_error_view(o: Option<RecordedError>) -> Option<ErrorView> {
    match o {
        Some(e) => Some(e@),
        None => None,
    }
}

impl View for Interaction {
    type V = InteractionView;

    open spec fn view(&self) -> InteractionView {
        InteractionView {
            request: self.request@,
            response: opt_response_view(self.response),
            error: opt_error_view(self.error),
            recorded_at: self.recorded_at,
        }
    }
}

impl Clone for Interaction {
    fn clone(&self) -> (r: Self)
        ensures
            r@ == self@,
    {
        let response = match &self.response {
            Some(x) => Some(x.clone()),
            None => None,
        };
        let error = match &self.error {
            Some(x) => Some(x.clone()),
            None => None,
        };
        Interaction { request: self.request.clone(), response, error, recorded_at: self.recorded_at }
    }
}

impl Interaction {
    /// A successful interaction recorded at the given time.
    pub fn new_at(request: RecordedRequest, response: RecordedResponse, at: Timestamp) -> (i: Interaction)
        ensures
            i@ == (InteractionView {
                request: request@,
                response: Some(response@),
                error: None,
                recorded_at: at,
            }),
    {
        Interaction { request, response: Some(response), error: None, recorded_at: at }
    }

    /// A successful interaction, stamped with the current time.
    pub fn new(request: RecordedRequest, response: RecordedResponse) -> (i: Interaction)
        ensures
            i@.request == request@,
            i@.response == Some(response@),
            i@.error is None,
            crate::clock::is_clock_reading(i@.recorded_at),
    {
        Self::new_at(request, response, now())
    }

    /// A failed interaction recorded at the given time.
    pub fn error_at(request: RecordedRequest, error: RecordedError, at: Timestamp) -> (i: Interaction)
        ensures
            i@ == (InteractionView {
                request: request@,
                response: None,
                error: Some(error@),
                recorded_at: at,
            }),
    {
        Interaction { request, response: None, error: Some(error), recorded_at: at }
    }

    /// A failed interaction, stamped with the current time.
    pub fn error(request: RecordedRequest, error: RecordedError) -> (i: Interaction)
        ensures
            i@.request == request@,
            i@.response is None,
            i@.error == Some(error@),
            crate::clock::is_clock_reading(i@.recorded_at),
    {
        Self::error_at(request, error, now())
    }

    /// Whether this interaction records an error.
    pub fn is_error(&self) -> (b: bool)
        ensures
            b == self.error is Some,
    {
        self.error.is_some()
    }

    /// The response, if any.
    pub fn get_response(&self) -> (r: Option<&RecordedResponse>)
        ensures
            r == match self.response {
                Some(ref x) => Some(x),
                None => None::<&RecordedResponse>,
            },
    {
        match &self.response {
            Some(x) => Some(x),
            None => None,
        }
    }

    /// The error, if any.
    pub fn get_error(&self) -> (r: Option<&RecordedError>)
        ensures
            r == match self.error {
                Some(ref x) => Some(x),
                None => None::<&RecordedError>,
            },
    {
        match &self.error {
            Some(x) => Some(x),
            None => None,
        }
    }
}

/// The version of this library, as written into cassettes.
pub const MOCKINGBIRD_VERSION: &'static str = "0.1.0";

/// The `recorded_with` text of new cassettes: `mockingbird/` and the library version.
pub fn default_recorded_with() -> (s: String)
    ensures
        s@ == "mockingbird/"@ + MOCKINGBIRD_VERSION@,
{
    let mut s = owned("mockingbird/");
    s.append(MOCKINGBIRD_VERSION);
    s
}

/// A cassette: a list of recorded interactions with some bookkeeping.
#[derive(Debug)]
pub struct Cassette {
    /// Tool that recorded the cassette.
    pub recorded_with: String,
    /// Format version.
    pub version: u32,
    /// Creation time.
    pub created_at: Timestamp,
    /// Last modification time.
    pub modified_at: Timestamp,
    /// Recorded interactions, in recording order.
    pub interactions: Vec<Interaction>,
    /// Free-form metadata.
    pub metadata: std::collections::HashMap<String, String>,
}

/// The views of a list of interactions.
pub open spec fn interactions_view(v: Seq<Interaction>) -> Seq<InteractionView> {
    v.map_values(|i: Interaction| i@)
}

impl Cassette {
    /// An empty cassette created at the given time.
    pub fn new_at(at: Timestamp) -> (c: Cassette)
        ensures
            c.version == 1,
            c.interactions@.len() == 0,
            c.created_at == at,
            c.modified_at == at,
            c.recorded_with@ == "mockingbird/"@ + MOCKINGBIRD_VERSION@,
            c.metadata@.len() == 0,
    {
        Cassette {
            recorded_with: default_recorded_with(),
            version: 1,
            created_at: at,
            modified_at: at,
            interactions: Vec::new(),
            metadata: std::collections::HashMap::new(),
        }
    }

    /// An empty cassette created now.
    pub fn new() -> (c: Cassette)
        ensures
            c.version == 1,
            c.interactions@.len() == 0,
            c.created_at == c.modified_at,
            crate::clock::is_clock_reading(c.created_at),
            c.recorded_with@ == "mockingbird/"@ + MOCKINGBIRD_VERSION@,
            c.metadata@.len() == 0,
    {
        Self::new_at(now())
    }

    /// Appends an interaction, stamping the modification time.
    pub fn add(&mut self, interaction: Interaction)
        ensures
            final(self).interactions@ == old(self).interactions@.push(interaction),
            final(self).version == old(self).version,
            final(self).created_at == old(self).created_at,
            final(self).recorded_with == old(self).recorded_with,
            final(self).metadata == old(self).metadata,
            crate::clock::is_clock_reading(final(self).modified_at),
    {
        self.interactions.push(interaction);
        self.modified_at = now();
    }

    /// The number of interactions.
    pub fn len(&self) -> (n: usize)
        ensures
            n == self.interactions@.len(),
    {
        self.interactions.len()
    }

    /// Whether there are no interactions.
    pub fn is_empty(&self) -> (b: bool)
        ensures
            b == (self.interactions@.len() == 0),
    {
        self.interactions.len() == 0
    }
}

} // verus!
