//! Outgoing requests, built fluently and converted to and from their recorded form.

use vstd::prelude::*;
use vstd::utf8::encode_utf8;
use crate::body::{base64_bytes, body_bytes, load_body, store_body, stored_body, text_bytes};
use crate::cassette::types::{BodyEncoding, Header, RecordedRequest, RequestView, headers_view};
use crate::headers::{Pairs, assoc_insert, clone_pairs, distinct_keys, lookup, pairs_get, pairs_insert, pairs_view};
use crate::text::{all_ascii, ascii_upper, chars_of, find_char, find_char_in, lowercase, owned, to_lowercase, to_uppercase, uppercase};
use vstd::string::StringExecFns;

verus! {

/// The contents of a request.
pub struct RequestModel {
    /// The method, uppercased.
    pub method: Seq<char>,
    /// The URL.
    pub url: Seq<char>,
    /// Headers by lowercased name, in first-insertion order.
    pub headers: Pairs,
    /// The body.
    pub body: Option<Seq<u8>>,
}

/// An HTTP request under construction.
#[derive(Debug)]
pub struct Request {
    method: String,
    url: String,
    headers: Vec<(String, String)>,
    body: Option<Vec<u8>>,
    timeout: Option<std::time::Duration>,
}

/// The view of an optional byte vector.
pub open spec fn opt_bytes(b: Option<Vec<u8>>) -> Option<Seq<u8>> {
    match b {
        Some(v) => Some(v@),
        None => None,
    }
}

impl View for Request {
    type V = RequestModel;

    closed spec fn view(&self) -> RequestModel {
        RequestModel {
            method: self.method@,
            url: self.url@,
            headers: pairs_view(self.headers@),
            body: opt_bytes(self.body),
        }
    }
}

/// Headers after setting each (name, value) of `items` in order, names lowercased.
pub open spec fn headers_after(hs: Pairs, items: Pairs) -> Pairs
    decreases items.len(),
{
    if items.len() == 0 {
        hs
    } else {
        assoc_insert(headers_after(hs, items.drop_last()), lowercase(items.last().0), items.last().1)
    }
}

/// The URL with an encoded query string appended (after `&` when the URL already has
/// a `?`, otherwise after `?`); an empty query string leaves the URL as it is.
pub open spec fn url_with_query(url: Seq<char>, query: Seq<char>) -> Seq<char> {
    if query.len() == 0 {
        url
    } else if url.contains('?') {
        url + seq!['&'] + query
    } else {
        url + seq!['?'] + query
    }
}

/// The recorded body and encoding of an optional body.
pub open spec fn recorded_body_of(b: Option<Seq<u8>>) -> (Option<Seq<char>>, BodyEncoding) {
    match b {
        None => (None, BodyEncoding::Text),
        Some(bytes) => (Some(stored_body(bytes).0), stored_body(bytes).1),
    }
}

/// The recorded form of a request's contents.
pub open spec fn recorded_view(m: RequestModel) -> RequestView {
    RequestView {
        method: m.method,
        url: m.url,
        headers: m.headers,
        body: recorded_body_of(m.body).0,
        body_encoding: recorded_body_of(m.body).1,
    }
}

/// The body a recorded request stands for: `None` when absent or not decodable.
pub open spec fn request_body_of(r: RequestView) -> Option<Seq<u8>> {
    match r.body {
        Some(t) => body_bytes(t, r.body_encoding),
        None => None,
    }
}

/// The contents of the request `from_recorded` builds from a recorded request: the same
/// method and URL, the headers set in order by lowercased name, and the body decoded.
pub open spec fn replayed_request(rv: RequestView) -> RequestModel {
    RequestModel {
        method: rv.method,
        url: rv.url,
        headers: headers_after(Seq::empty(), rv.headers),
        body: request_body_of(rv),
    }
}

/// Setting headers whose names are lowercase and distinct, in order, into no headers
/// gives them back unchanged.
pub proof fn lemma_headers_after_identity(hs: Pairs)
    requires
        distinct_keys(hs),
        forall|k: int| 0 <= k < hs.len() ==> lowercase(#[trigger] hs[k].0) == hs[k].0,
    ensures
        headers_after(Seq::empty(), hs) == hs,
    decreases hs.len(),
{
    if hs.len() > 0 {
        let init = hs.drop_last();
        let last = hs[hs.len() - 1];
        assert forall|k: int| 0 <= k < init.len() implies lowercase(#[trigger] init[k].0) == init[k].0 by {
            assert(init[k] == hs[k]);
        }
        lemma_headers_after_identity(init);
        assert(lowercase(last.0) == last.0);
        assert forall|j: int| 0 <= j < init.len() implies init[j].0 != last.0 by {
            assert(init[j] == hs[j]);
        }
        crate::headers::lemma_insert_absent(init, last.0, last.1);
        assert(init.push(last) =~= hs);
    }
}

/// What `to_recorded` gives, `from_recorded` turns back into the same request: the
/// method, the URL, the headers (when their names are lowercase and distinct, as
/// `header` and `with_headers` set them) and the body (any bytes; those that are not
/// UTF-8 travel as base64). `rec` is the recorded form, and the body fact is what
/// `to_recorded` states of it.
pub proof fn lemma_request_round_trip(q: RequestModel, rec: RequestView)
    requires
        rec == recorded_view(q),
        request_body_of(rec) == q.body,
        distinct_keys(q.headers),
        forall|k: int| 0 <= k < q.headers.len() ==> lowercase(#[trigger] q.headers[k].0) == q.headers[k].0,
    ensures
        replayed_request(rec) == q,
{
    lemma_headers_after_identity(q.headers);
}

impl Request {
    /// No header name occurs twice.
    #[verifier::type_invariant]
    spec fn names_distinct(&self) -> bool {
        distinct_keys(pairs_view(self.headers@))
    }

    /// Sets `k` to `v` among the headers.
    fn set_header(self, k: String, v: String) -> (r: Request)
        ensures
            r@ == (RequestModel { headers: assoc_insert(self@.headers, k@, v@), ..self@ }),
            r.timeout_spec() == self.timeout_spec(),
    {
        proof {
            use_type_invariant(&self);
            crate::headers::lemma_insert_distinct(pairs_view(self.headers@), k@, v@);
        }
        let Request { method, url, headers, body, timeout } = self;
        let mut headers = headers;
        pairs_insert(&mut headers, k, v);
        Request { method, url, headers, body, timeout }
    }

    /// The timeout, if one was set.
    pub closed spec fn timeout_spec(&self) -> Option<std::time::Duration> {
        self.timeout
    }

    /// A request with the given method (uppercased) and URL.
    pub fn new(method: &str, url: &str) -> (r: Request)
        ensures
            r@ == (RequestModel { method: uppercase(method@), url: url@, headers: Seq::empty(), body: None }),
            all_ascii(method@) ==> r@.method == ascii_upper(method@),
            r.timeout_spec() is None,
    {
        let r = Request {
            method: to_uppercase(method),
            url: owned(url),
            headers: Vec::new(),
            body: None,
            timeout: None,
        };
        assert(pairs_view(r.headers@) =~= Seq::empty());
        r
    }

    /// A GET request.
    pub fn get(url: &str) -> (r: Request)
        ensures
            r@ == (RequestModel { method: "GET"@, url: url@, headers: Seq::empty(), body: None }),
    {
        proof {
            reveal_strlit("GET");
            assert(ascii_upper("GET"@) =~= "GET"@);
        }
        Self::new("GET", url)
    }

    /// A POST request.
    pub fn post(url: &str) -> (r: Request)
        ensures
            r@ == (RequestModel { method: "POST"@, url: url@, headers: Seq::empty(), body: None }),
    {
        proof {
            reveal_strlit("POST");
            assert(ascii_upper("POST"@) =~= "POST"@);
        }
        Self::new("POST", url)
    }

    /// A PUT request.
    pub fn put(url: &str) -> (r: Request)
        ensures
            r@ == (RequestModel { method: "PUT"@, url: url@, headers: Seq::empty(), body: None }),
    {
        proof {
            reveal_strlit("PUT");
            assert(ascii_upper("PUT"@) =~= "PUT"@);
        }
        Self::new("PUT", url)
    }

    /// A DELETE request.
    pub fn delete(url: &str) -> (r: Request)
        ensures
            r@ == (RequestModel { method: "DELETE"@, url: url@, headers: Seq::empty(), body: None }),
    {
        proof {
            reveal_strlit("DELETE");
            assert(ascii_upper("DELETE"@) =~= "DELETE"@);
        }
        Self::new("DELETE", url)
    }

    /// A PATCH request.
    pub fn patch(url: &str) -> (r: Request)
        ensures
            r@ == (RequestModel { method: "PATCH"@, url: url@, headers: Seq::empty(), body: None }),
    {
        proof {
            reveal_strlit("PATCH");
            assert(ascii_upper("PATCH"@) =~= "PATCH"@);
        }
        Self::new("PATCH", url)
    }

    /// A HEAD request.
    pub fn head(url: &str) -> (r: Request)
        ensures
            r@ == (RequestModel { method: "HEAD"@, url: url@, headers: Seq::empty(), body: None }),
    {
        proof {
            reveal_strlit("HEAD");
            assert(ascii_upper("HEAD"@) =~= "HEAD"@);
        }
        Self::new("HEAD", url)
    }

    /// Sets a header (its name lowercased).
    pub fn header(self, name: &str, value: &str) -> (r: Request)
        ensures
            r@ == (RequestModel { headers: assoc_insert(self@.headers, lowercase(name@), value@), ..self@ }),
            r.timeout_spec() == self.timeout_spec(),
            all_ascii(name@) ==> lowercase(lowercase(name@)) == lowercase(name@),
    {
        self.set_header(to_lowercase(name), owned(value))
    }

    /// Sets several headers, in order (names lowercased).
    pub fn with_headers(self, headers: Vec<(String, String)>) -> (r: Request)
        ensures
            r@ == (RequestModel { headers: headers_after(self@.headers, pairs_view(headers@)), ..self@ }),
            r.timeout_spec() == self.timeout_spec(),
    {
        let mut r = self;
        let ghost start = self@.headers;
        let ghost items = pairs_view(headers@);
        let mut i: usize = 0;
        assert(items.take(0) =~= Seq::<(Seq<char>, Seq<char>)>::empty());
        while i < headers.len()
            invariant
                i <= headers@.len(),
                items == pairs_view(headers@),
                r@ == (RequestModel { headers: headers_after(start, items.take(i as int)), ..self@ }),
                r.timeout_spec() == self.timeout_spec(),
            decreases headers.len() - i,
        {
            let k = to_lowercase(headers[i].0.as_str());
            let v = headers[i].1.clone();
            assert(items.take(i + 1).drop_last() =~= items.take(i as int));
            assert(items[i as int] == (headers@[i as int].0@, headers@[i as int].1@));
            r = r.set_header(k, v);
            i = i + 1;
        }
        assert(items.take(i as int) =~= items);
        r
    }

    /// Sets the body.
    pub fn body(self, body: &[u8]) -> (r: Request)
        ensures
            r@ == (RequestModel { body: Some(body@), ..self@ }),
            r.timeout_spec() == self.timeout_spec(),
    {
        proof {
            use_type_invariant(&self);
        }
        let mut r = self;
        r.body = Some(vstd::slice::slice_to_vec(body));
        r
    }

    /// Sets a JSON body already serialized, with its content type; a failed
    /// serialization (`None`) leaves the request unchanged.
    pub fn json(self, serialized: Option<Vec<u8>>) -> (r: Request)
        ensures
            match serialized {
                Some(b) => r@ == (RequestModel {
                    body: Some(b@),
                    headers: assoc_insert(self@.headers, "content-type"@, "application/json"@),
                    ..self@
                }),
                None => r@ == self@,
            },
            r.timeout_spec() == self.timeout_spec(),
    {
        proof {
            use_type_invariant(&self);
        }
        let mut r = self;
        match serialized {
            Some(b) => {
                r.body = Some(b);
                r = r.set_header(owned("content-type"), owned("application/json"));
            },
            None => {},
        }
        r
    }

    /// Sets a form body already URL-encoded, with its content type; a failed
    /// encoding (`None`) leaves the request unchanged.
    pub fn form(self, encoded: Option<String>) -> (r: Request)
        ensures
            match encoded {
                Some(f) => r@ == (RequestModel {
                    body: Some(encode_utf8(f@)),
                    headers: assoc_insert(self@.headers, "content-type"@, "application/x-www-form-urlencoded"@),
                    ..self@
                }),
                None => r@ == self@,
            },
            r.timeout_spec() == self.timeout_spec(),
    {
        proof {
            use_type_invariant(&self);
        }
        let mut r = self;
        match encoded {
            Some(f) => {
                r.body = Some(text_bytes(f.as_str()));
                r = r.set_header(owned("content-type"), owned("application/x-www-form-urlencoded"));
            },
            None => {},
        }
        r
    }

    /// Appends an already URL-encoded query string to the URL; a failed encoding
    /// (`None`) leaves the request unchanged.
    pub fn query(self, encoded: Option<String>) -> (r: Request)
        ensures
            match encoded {
                Some(q) => r@ == (RequestModel { url: url_with_query(self@.url, q@), ..self@ }),
                None => r@ == self@,
            },
            r.timeout_spec() == self.timeout_spec(),
    {
        proof {
            use_type_invariant(&self);
        }
        let mut r = self;
        match encoded {
            Some(q) => {
                if q.as_str().is_empty() {
                    assert(q@.len() == 0);
                } else {
                    let uv = chars_of(r.url.as_str());
                    let found = find_char_in(uv.as_slice(), '?');
                    let has_q = found.is_some();
                    let mut u = r.url.clone();
                    proof {
                        reveal_strlit("&");
                        reveal_strlit("?");
                        assert("&"@ =~= seq!['&']);
                        assert("?"@ =~= seq!['?']);
                        match found {
                            Some(k) => {
                                assert(r.url@[k as int] == '?');
                                assert(r.url@.contains('?'));
                            },
                            None => {
                                assert(!uv@.contains('?'));
                            },
                        }
                    }
                    if has_q {
                        u.append("&");
                    } else {
                        u.append("?");
                    }
                    u.append(q.as_str());
                    r.url = u;
                }
            },
            None => {},
        }
        r
    }

    /// Sets the timeout.
    pub fn timeout(self, timeout: std::time::Duration) -> (r: Request)
        ensures
            r@ == self@,
            r.timeout_spec() == Some(timeout),
    {
        proof {
            use_type_invariant(&self);
        }
        let mut r = self;
        r.timeout = Some(timeout);
        r
    }

    /// The method.
    pub fn method(&self) -> (s: &str)
        ensures
            s@ == self@.method,
    {
        self.method.as_str()
    }

    /// The URL.
    pub fn url(&self) -> (s: &str)
        ensures
            s@ == self@.url,
    {
        self.url.as_str()
    }

    /// The value of a header (name compared after lowercasing).
    pub fn get_header(&self, name: &str) -> (r: Option<&str>)
        ensures
            match r {
                Some(v) => lookup(self@.headers, lowercase(name@)) == Some(v@),
                None => lookup(self@.headers, lowercase(name@)) is None,
            },
    {
        let k = to_lowercase(name);
        match pairs_get(&self.headers, k.as_str()) {
            Some(v) => Some(v.as_str()),
            None => None,
        }
    }

    /// All headers, by lowercased name.
    pub fn headers(&self) -> (r: &Vec<(String, String)>)
        ensures
            pairs_view(r@) == self@.headers,
    {
        &self.headers
    }

    /// The body.
    pub fn get_body(&self) -> (r: Option<&Vec<u8>>)
        ensures
            match r {
                Some(b) => self@.body == Some(b@),
                None => self@.body is None,
            },
    {
        match &self.body {
            Some(b) => Some(b),
            None => None,
        }
    }

    /// The timeout.
    pub fn get_timeout(&self) -> (r: Option<std::time::Duration>)
        ensures
            r == self.timeout_spec(),
    {
        self.timeout
    }

    /// The recorded form of this request: its headers in order, and its body as text
    /// when it is UTF-8, otherwise in base64. The recorded body decodes back to the body.
    pub fn to_recorded(&self) -> (r: RecordedRequest)
        ensures
            r@ == recorded_view(self@),
            request_body_of(r@) == self@.body,
            distinct_keys(r@.headers),
    {
        proof {
            use_type_invariant(self);
        }
        let (body, encoding) = match &self.body {
            None => (None, BodyEncoding::Text),
            Some(bytes) => {
                let (t, e) = store_body(bytes.as_slice());
                (Some(t), e)
            },
        };
        let mut headers: Vec<Header> = Vec::new();
        let mut i: usize = 0;
        while i < self.headers.len()
            invariant
                i <= self.headers@.len(),
                headers_view(headers@) == pairs_view(self.headers@).take(i as int),
            decreases self.headers.len() - i,
        {
            let ghost before = headers@;
            headers.push(Header::new(self.headers[i].0.as_str(), self.headers[i].1.as_str()));
            assert(headers_view(headers@) =~= headers_view(before).push(pairs_view(self.headers@)[i as int]));
            assert(headers_view(headers@) =~= pairs_view(self.headers@).take(i + 1));
            i = i + 1;
        }
        assert(pairs_view(self.headers@).take(i as int) =~= pairs_view(self.headers@));
        RecordedRequest {
            method: self.method.clone(),
            url: self.url.clone(),
            headers,
            body,
            body_encoding: encoding,
        }
    }

    /// A request from its recorded form: the same method and URL, headers set in order
    /// by lowercased name, and the body decoded (dropped when its base64 is invalid).
    pub fn from_recorded(recorded: &RecordedRequest) -> (r: Request)
        ensures
            r@ == replayed_request(recorded@),
            r.timeout_spec() is None,
    {
        let body = match &recorded.body {
            Some(t) => match load_body(t.as_str(), recorded.body_encoding) {
                Ok(b) => Some(b),
                Err(_) => None,
            },
            None => None,
        };
        let mut pairs: Vec<(String, String)> = Vec::new();
        let mut i: usize = 0;
        while i < recorded.headers.len()
            invariant
                i <= recorded.headers@.len(),
                pairs_view(pairs@) == headers_view(recorded.headers@).take(i as int),
            decreases recorded.headers.len() - i,
        {
            let ghost before = pairs@;
            pairs.push((recorded.headers[i].name.clone(), recorded.headers[i].value.clone()));
            assert(pairs_view(pairs@) =~= pairs_view(before).push(headers_view(recorded.headers@)[i as int]));
            assert(pairs_view(pairs@) =~= headers_view(recorded.headers@).take(i + 1));
            i = i + 1;
        }
        assert(headers_view(recorded.headers@).take(i as int) =~= headers_view(recorded.headers@));
        let empty = Request {
            method: recorded.method.clone(),
            url: recorded.url.clone(),
            headers: Vec::new(),
            body,
            timeout: None,
        };
        assert(pairs_view(empty.headers@) =~= Seq::empty());
        empty.with_headers(pairs)
    }
}

impl Clone for Request {
    fn clone(&self) -> (r: Self)
        ensures
            r@ == self@,
            r.timeout_spec() == self.timeout_spec(),
    {
        proof {
            use_type_invariant(self);
        }
        Request {
            method: self.method.clone(),
            url: self.url.clone(),
            headers: clone_pairs(&self.headers),
            body: match &self.body {
                Some(b) => Some(b.clone()),
                None => None,
            },
            timeout: self.timeout,
        }
    }
}

} // verus!
