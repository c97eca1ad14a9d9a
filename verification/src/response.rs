//! Responses, built from recorded responses or from what a server sent.

use vstd::prelude::*;
use vstd::utf8::{decode_utf8, valid_utf8};
use std::io::Write;
use crate::body::{
    base64_bytes, body_bytes, load_body, store_body, stored_body, utf8_decode, utf8_error_display, utf8_error_of,
    utf8_error_text,
};
use crate::cassette::types::{BodyEncoding, Header, RecordedResponse, ResponseView, headers_view};
use crate::error::Error;
use crate::headers::{Pairs, assoc_insert, clone_pairs, distinct_keys, lookup, pairs_get, pairs_insert, pairs_view};
use crate::request::headers_after;
use crate::text::{chars_of, find_sub, find_sub_in, lowercase, owned, to_lowercase};
use vstd::string::StringExecFns;

verus! {

/// http's status code type (re-exported by reqwest), carried through opaquely.
#[verifier::external_type_specification]
#[verifier::external_body]
pub struct ExStatusCode(reqwest::StatusCode);

/// The status code http's `StatusCode::from_u16` makes of a number in `100..=999`.
pub uninterp spec fn status_code_for(code: u16) -> reqwest::StatusCode;

/// Calls `StatusCode::from_u16`, which accepts exactly the numbers `100..=999`.
#[verifier::external_body]
fn status_code_of(code: u16) -> (c: reqwest::StatusCode)
    requires
        100 <= code <= 999,
    ensures
        c == status_code_for(code),
{
    reqwest::StatusCode::from_u16(code).expect("a status code in 100..=999")
}

/// A status as http's `StatusCode`; a number outside `100..=999` gives 200 OK.
pub fn status_code(status: u16) -> (c: reqwest::StatusCode)
    ensures
        c == status_code_for(if 100 <= status <= 999 { status } else { 200 }),
{
    if 100 <= status && status <= 999 {
        status_code_of(status)
    } else {
        status_code_of(200)
    }
}

/// The gzip stream flate2's `GzEncoder` (default level, default header) writes for
/// some bytes; `None` when the encoder reports an error.
pub uninterp spec fn gzip_compressed(bytes: Seq<u8>) -> Option<Seq<u8>>;

/// The deflate stream flate2's `DeflateEncoder` (default level) writes for some bytes;
/// `None` when the encoder reports an error.
pub uninterp spec fn deflate_compressed(bytes: Seq<u8>) -> Option<Seq<u8>>;

/// Compresses with flate2's `GzEncoder` into a vector.
#[verifier::external_body]
fn gzip(bytes: &[u8]) -> (r: Option<Vec<u8>>)
    ensures
        match r {
            Some(c) => gzip_compressed(bytes@) == Some(c@),
            None => gzip_compressed(bytes@) is None,
        },
{
    let mut encoder = flate2::write::GzEncoder::new(Vec::new(), flate2::Compression::default());
    encoder.write_all(bytes).ok()?;
    encoder.finish().ok()
}

/// Compresses with flate2's `DeflateEncoder` into a vector.
#[verifier::external_body]
fn deflate(bytes: &[u8]) -> (r: Option<Vec<u8>>)
    ensures
        match r {
            Some(c) => deflate_compressed(bytes@) == Some(c@),
            None => deflate_compressed(bytes@) is None,
        },
{
    let mut encoder = flate2::write::DeflateEncoder::new(Vec::new(), flate2::Compression::default());
    encoder.write_all(bytes).ok()?;
    encoder.finish().ok()
}

/// The contents of a response.
pub struct ResponseModel {
    /// Status code.
    pub status: u16,
    /// Headers by lowercased name.
    pub headers: Pairs,
    /// Body bytes.
    pub body: Seq<u8>,
}

/// An HTTP response.
#[derive(Debug)]
pub struct Response {
    status: u16,
    headers: Vec<(String, String)>,
    body: Vec<u8>,
}

impl View for Response {
    type V = ResponseModel;

    closed spec fn view(&self) -> ResponseModel {
        ResponseModel { status: self.status, headers: pairs_view(self.headers@), body: self.body@ }
    }
}

/// The body bytes of a recorded response: none when absent, and none when its
/// base64 is invalid.
pub open spec fn response_body_of(r: ResponseView) -> Seq<u8> {
    match r.body {
        Some(t) => match body_bytes(t, r.body_encoding) {
            Some(b) => b,
            None => Seq::empty(),
        },
        None => Seq::empty(),
    }
}

/// A response's contents after replay of its recorded form.
pub open spec fn replayed(r: ResponseView) -> ResponseModel {
    ResponseModel { status: r.status, headers: headers_after(Seq::empty(), r.headers), body: response_body_of(r) }
}

/// Whether `sub` occurs in `s`.
pub open spec fn has_sub(s: Seq<char>, sub: Seq<char>) -> bool {
    find_sub(s, sub) is Some
}

/// A response after compression for an `Accept-Encoding` value: unchanged when there is
/// none, the body is empty or already encoded; otherwise gzip when the lowercased
/// value mentions `gzip`, else deflate when it mentions `deflate`, with the matching
/// `content-encoding` header; unchanged when the chosen encoder fails.
pub open spec fn compressed(r: ResponseModel, accept: Option<Seq<char>>) -> ResponseModel {
    match accept {
        None => r,
        Some(a) => if r.body.len() == 0 || lookup(r.headers, "content-encoding"@) is Some {
            r
        } else if has_sub(lowercase(a), "gzip"@) {
            match gzip_compressed(r.body) {
                Some(c) => ResponseModel {
                    body: c,
                    headers: assoc_insert(r.headers, "content-encoding"@, "gzip"@),
                    ..r
                },
                None => r,
            }
        } else if has_sub(lowercase(a), "deflate"@) {
            match deflate_compressed(r.body) {
                Some(c) => ResponseModel {
                    body: c,
                    headers: assoc_insert(r.headers, "content-encoding"@, "deflate"@),
                    ..r
                },
                None => r,
            }
        } else {
            r
        },
    }
}

/// Whether `sub` occurs in `s`.
fn contains_text(s: &str, sub: &str) -> (b: bool)
    ensures
        b == has_sub(s@, sub@),
{
    let sv = chars_of(s);
    let pv = chars_of(sub);
    find_sub_in(sv.as_slice(), pv.as_slice()).is_some()
}

/// What `to_recorded` gives, `from_recorded` turns back into the same response: the
/// status, the headers (when their names are lowercase and distinct, as every response
/// built here has them) and the body (any bytes; those that are not UTF-8 travel as
/// base64). `rec` is the recorded form, with what `to_recorded` states of it.
pub proof fn lemma_response_round_trip(resp: ResponseModel, rec: ResponseView)
    requires
        rec.status == resp.status,
        rec.headers == resp.headers,
        response_body_of(rec) == resp.body,
        distinct_keys(resp.headers),
        forall|k: int| 0 <= k < resp.headers.len() ==> lowercase(#[trigger] resp.headers[k].0) == resp.headers[k].0,
    ensures
        replayed(rec) == resp,
{
    crate::request::lemma_headers_after_identity(resp.headers);
}

impl Response {
    /// No header name occurs twice.
    #[verifier::type_invariant]
    spec fn names_distinct(&self) -> bool {
        distinct_keys(pairs_view(self.headers@))
    }

    /// A response replayed from its recorded form: the body decoded (empty when absent
    /// or when its base64 is invalid) and the headers set by lowercased name, in order.
    pub fn from_recorded(recorded: RecordedResponse) -> (r: Response)
        ensures
            r@ == replayed(recorded@),
    {
        let body = match &recorded.body {
            Some(t) => match load_body(t.as_str(), recorded.body_encoding) {
                Ok(b) => b,
                Err(_) => Vec::new(),
            },
            None => Vec::new(),
        };
        let mut headers: Vec<(String, String)> = Vec::new();
        let ghost items = headers_view(recorded.headers@);
        let mut i: usize = 0;
        assert(items.take(0) =~= Seq::<(Seq<char>, Seq<char>)>::empty());
        assert(pairs_view(headers@) =~= Seq::empty());
        while i < recorded.headers.len()
            invariant
                i <= recorded.headers@.len(),
                items == headers_view(recorded.headers@),
                pairs_view(headers@) == headers_after(Seq::empty(), items.take(i as int)),
                distinct_keys(pairs_view(headers@)),
            decreases recorded.headers.len() - i,
        {
            let k = to_lowercase(recorded.headers[i].name.as_str());
            let v = recorded.headers[i].value.clone();
            assert(items.take(i + 1).drop_last() =~= items.take(i as int));
            proof {
                crate::headers::lemma_insert_distinct(pairs_view(headers@), k@, v@);
            }
            pairs_insert(&mut headers, k, v);
            i = i + 1;
        }
        assert(items.take(i as int) =~= items);
        Response { status: recorded.status, headers, body }
    }

    /// A response with a status and a body, and no headers.
    pub fn new(status: u16, body: &[u8]) -> (r: Response)
        ensures
            r@ == (ResponseModel { status, headers: Seq::empty(), body: body@ }),
    {
        let r = Response { status, headers: Vec::new(), body: vstd::slice::slice_to_vec(body) };
        assert(pairs_view(r.headers@) =~= Seq::empty());
        r
    }

    /// The status code.
    pub fn status(&self) -> (s: u16)
        ensures
            s == self@.status,
    {
        self.status
    }

    /// The status as http's `StatusCode`; a number outside `100..=999` gives 200 OK.
    pub fn status_code(&self) -> (c: reqwest::StatusCode)
        ensures
            c == status_code_for(if 100 <= self@.status <= 999 { self@.status } else { 200 }),
    {
        status_code(self.status)
    }

    /// Whether the status is 2xx.
    pub fn is_success(&self) -> (b: bool)
        ensures
            b == (200 <= self@.status < 300),
    {
        200 <= self.status && self.status < 300
    }

    /// The value of a header (name compared after lowercasing).
    pub fn header(&self, name: &str) -> (r: Option<&str>)
        ensures
            match r {
                Some(v) => lookup(self@.headers, lowercase(name@)) == Some(v@),
                None => lookup(self@.headers, lowercase(name@)) is None,
            },
    {
        let k = to_lowercase(name);
        match pairs_get(&self.headers, k.as_str()) {
            Some(v) => Some(v.as_str()),
            None => None,
        }
    }

    /// All headers, by lowercased name.
    pub fn headers(&self) -> (r: &Vec<(String, String)>)
        ensures
            pairs_view(r@) == self@.headers,
    {
        &self.headers
    }

    /// The body as text: `Ok` exactly when it is valid UTF-8.
    pub fn text(&self) -> (r: Result<String, Error>)
        ensures
            match r {
                Ok(s) => valid_utf8(self@.body) && s@ == decode_utf8(self@.body),
                Err(e) => !valid_utf8(self@.body) && (e matches Error::InvalidFormat(m) && m@ == "Invalid UTF-8: "@
                    + utf8_error_display(utf8_error_of(self@.body))),
            },
    {
        match utf8_decode(self.body.as_slice()) {
            Ok(s) => Ok(s),
            Err(e) => {
                let mut m = owned("Invalid UTF-8: ");
                let detail = utf8_error_text(&e);
                m.append(detail.as_str());
                Err(Error::InvalidFormat(m))
            },
        }
    }

    /// The body bytes.
    pub fn bytes(&self) -> (b: Vec<u8>)
        ensures
            b@ == self@.body,
    {
        self.body.clone()
    }

    /// Compresses the body for an `Accept-Encoding` value (see `compressed`).
    pub fn with_compression(self, accept_encoding: Option<&str>) -> (r: Response)
        ensures
            r@ == compressed(self@, match accept_encoding {
                Some(a) => Some(a@),
                None => None,
            }),
    {
        proof {
            reveal_strlit("content-encoding");
            reveal_strlit("gzip");
            reveal_strlit("deflate");
        }
        let accept = match accept_encoding {
            Some(a) => a,
            None => {
                return self;
            },
        };
        if self.body.len() == 0 || pairs_get(&self.headers, "content-encoding").is_some() {
            return self;
        }
        let lower = to_lowercase(accept);
        proof {
            use_type_invariant(&self);
        }
        let Response { status, headers, body } = self;
        let mut headers = headers;
        let ghost hs = pairs_view(headers@);
        if contains_text(lower.as_str(), "gzip") {
            match gzip(body.as_slice()) {
                Some(c) => {
                    proof {
                        crate::headers::lemma_insert_distinct(hs, "content-encoding"@, "gzip"@);
                    }
                    pairs_insert(&mut headers, owned("content-encoding"), owned("gzip"));
                    return Response { status, headers, body: c };
                },
                None => {},
            }
        } else if contains_text(lower.as_str(), "deflate") {
            match deflate(body.as_slice()) {
                Some(c) => {
                    proof {
                        crate::headers::lemma_insert_distinct(hs, "content-encoding"@, "deflate"@);
                    }
                    pairs_insert(&mut headers, owned("content-encoding"), owned("deflate"));
                    return Response { status, headers, body: c };
                },
                None => {},
            }
        }
        Response { status, headers, body }
    }

    /// The recorded form: headers in order; an empty body is stored as none, any other
    /// as text when it is UTF-8, otherwise in base64. Replaying it gives back the
    /// status and the body.
    pub fn to_recorded(&self) -> (r: RecordedResponse)
        ensures
            r@.status == self@.status,
            r@.headers == self@.headers,
            self@.body.len() == 0 ==> r@.body is None && r@.body_encoding == BodyEncoding::Text,
            self@.body.len() > 0 ==> r@.body == Some(stored_body(self@.body).0) && r@.body_encoding == stored_body(
                self@.body,
            ).1,
            replayed(r@).status == self@.status,
            replayed(r@).body == self@.body,
            distinct_keys(r@.headers),
    {
        proof {
            use_type_invariant(self);
        }
        let (body, encoding) = if self.body.len() == 0 {
            (None, BodyEncoding::Text)
        } else {
            let (t, e) = store_body(self.body.as_slice());
            (Some(t), e)
        };
        let mut headers: Vec<Header> = Vec::new();
        let mut i: usize = 0;
        while i < self.headers.len()
            invariant
                i <= self.headers@.len(),
                headers_view(headers@) == pairs_view(self.headers@).take(i as int),
            decreases self.headers.len() - i,
        {
            let ghost before = headers@;
            headers.push(Header::new(self.headers[i].0.as_str(), self.headers[i].1.as_str()));
            assert(headers_view(headers@) =~= headers_view(before).push(pairs_view(self.headers@)[i as int]));
            assert(headers_view(headers@) =~= pairs_view(self.headers@).take(i + 1));
            i = i + 1;
        }
        assert(pairs_view(self.headers@).take(i as int) =~= pairs_view(self.headers@));
        RecordedResponse { status: self.status, headers, body, body_encoding: encoding }
    }
}

impl Clone for Response {
    fn clone(&self) -> (r: Self)
        ensures
            r@ == self@,
    {
        proof {
            use_type_invariant(self);
        }
        Response { status: self.status, headers: clone_pairs(&self.headers), body: self.body.clone() }
    }
}

} // verus!
