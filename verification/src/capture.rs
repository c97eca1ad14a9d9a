//! Turning what a server sent into a recorded response.

use vstd::prelude::*;
use crate::body::{store_body, stored_body};
use crate::cassette::types::{BodyEncoding, Header, RecordedRequest, RecordedResponse, RequestView, ResponseView, headers_view};
use crate::text::owned;
use crate::headers::{Pairs, pairs_view};
use crate::text::{lowercase, str_eq, to_lowercase};

verus! {

/// Headers that the transport changes (the client decompresses bodies), so they are
/// not recorded.
pub const HEADERS_TO_STRIP: [&'static str; 3] = ["content-encoding", "transfer-encoding", "content-length"];

/// Whether a lowercased header name is one the transport changes.
pub open spec fn is_transport_header(name: Seq<char>) -> bool {
    name == "content-encoding"@ || name == "transfer-encoding"@ || name == "content-length"@
}

/// The headers whose lowercased name is not a transport header, in order.
pub open spec fn without_transport(hs: Pairs) -> Pairs
    decreases hs.len(),
{
    if hs.len() == 0 {
        hs
    } else {
        let init = without_transport(hs.drop_last());
        if is_transport_header(lowercase(hs.last().0)) {
            init
        } else {
            init.push(hs.last())
        }
    }
}

/// Whether a header name, lowercased, is a transport header.
pub fn is_transport(name: &str) -> (b: bool)
    ensures
        b == is_transport_header(lowercase(name@)),
{
    let l = to_lowercase(name);
    proof {
        reveal_strlit("content-encoding");
        reveal_strlit("transfer-encoding");
        reveal_strlit("content-length");
    }
    let a = str_eq(l.as_str(), "content-encoding");
    let b = str_eq(l.as_str(), "transfer-encoding");
    let c = str_eq(l.as_str(), "content-length");
    a || b || c
}

/// The recorded headers: all of them, or those that are not transport headers.
pub open spec fn captured_headers(hs: Pairs, strip: bool) -> Pairs {
    if strip {
        without_transport(hs)
    } else {
        hs
    }
}

/// A response as recorded from what a server sent: its status, its headers (without
/// transport headers when `strip`), and its body, none when empty, else stored as text
/// when UTF-8 and otherwise in base64.
pub open spec fn captured(status: u16, hs: Pairs, body: Seq<u8>, strip: bool) -> ResponseView {
    ResponseView {
        status,
        headers: captured_headers(hs, strip),
        body: if body.len() == 0 { None } else { Some(stored_body(body).0) },
        body_encoding: if body.len() == 0 { BodyEncoding::Text } else { stored_body(body).1 },
    }
}

/// Records a response from its status, headers and body bytes.
pub fn capture_response(status: u16, headers: &Vec<(String, String)>, body: &[u8], strip: bool) -> (r: RecordedResponse)
    ensures
        r@ == captured(status, pairs_view(headers@), body@, strip),
{
    let mut kept: Vec<Header> = Vec::new();
    let ghost all = pairs_view(headers@);
    let mut i: usize = 0;
    assert(all.take(0) =~= Seq::<(Seq<char>, Seq<char>)>::empty());
    while i < headers.len()
        invariant
            i <= headers@.len(),
            all == pairs_view(headers@),
            headers_view(kept@) == captured_headers(all.take(i as int), strip),
        decreases headers.len() - i,
    {
        let ghost before = kept@;
        assert(all.take(i + 1).drop_last() =~= all.take(i as int));
        assert(all.take(i + 1).last() == all[i as int]);
        assert(all[i as int] == (headers@[i as int].0@, headers@[i as int].1@));
        if !strip || !is_transport(headers[i].0.as_str()) {
            kept.push(Header::new(headers[i].0.as_str(), headers[i].1.as_str()));
            assert(headers_view(kept@) =~= headers_view(before).push(all[i as int]));
        }
        if !strip {
            assert(all.take(i + 1) =~= all.take(i as int).push(all[i as int]));
        }
        i = i + 1;
    }
    assert(all.take(i as int) =~= all);
    let mut r = RecordedResponse { status, headers: kept, body: None, body_encoding: BodyEncoding::Text };
    if body.len() > 0 {
        let (t, e) = store_body(body);
        r.body = Some(t);
        r.body_encoding = e;
    }
    r
}

/// A request as recorded from what a client sent: its method, URL and headers as
/// they came, and its body, none when empty, else stored as text when UTF-8 and
/// otherwise in base64.
pub open spec fn captured_request(method: Seq<char>, url: Seq<char>, hs: Pairs, body: Seq<u8>) -> RequestView {
    RequestView {
        method,
        url,
        headers: hs,
        body: if body.len() == 0 { None } else { Some(stored_body(body).0) },
        body_encoding: if body.len() == 0 { BodyEncoding::Text } else { stored_body(body).1 },
    }
}

/// Records a request from its method, URL, headers and body bytes.
pub fn capture_request(method: &str, url: &str, headers: &Vec<(String, String)>, body: &[u8]) -> (r: RecordedRequest)
    ensures
        r@ == captured_request(method@, url@, pairs_view(headers@), body@),
{
    let mut kept: Vec<Header> = Vec::new();
    let ghost all = pairs_view(headers@);
    let mut i: usize = 0;
    while i < headers.len()
        invariant
            i <= headers@.len(),
            all == pairs_view(headers@),
            headers_view(kept@) == all.take(i as int),
        decreases headers.len() - i,
    {
        let ghost before = kept@;
        kept.push(Header::new(headers[i].0.as_str(), headers[i].1.as_str()));
        assert(headers_view(kept@) =~= headers_view(before).push(all[i as int]));
        assert(all.take(i + 1) =~= all.take(i as int).push(all[i as int]));
        i = i + 1;
    }
    assert(all.take(i as int) =~= all);
    let mut r = RecordedRequest {
        method: owned(method),
        url: owned(url),
        headers: kept,
        body: None,
        body_encoding: BodyEncoding::Text,
    };
    if body.len() > 0 {
        let (t, e) = store_body(body);
        r.body = Some(t);
        r.body_encoding = e;
    }
    r
}

/// The names of the headers stripped from recorded responses, as text.
pub open spec fn stripped_names() -> Seq<Seq<char>> {
    HEADERS_TO_STRIP@.map_values(|n: &'static str| n@)
}

/// Stripping removes exactly the headers named in `HEADERS_TO_STRIP`: no kept header's
/// lowercased name is one of them, and every header whose lowercased name is none of
/// them is kept.
pub proof fn lemma_strip_removes_listed(hs: Pairs)
    ensures
        forall|k: int|
            0 <= k < without_transport(hs).len() ==> !stripped_names().contains(
                lowercase(#[trigger] without_transport(hs)[k].0),
            ),
        forall|k: int|
            0 <= k < hs.len() && !stripped_names().contains(lowercase(#[trigger] hs[k].0)) ==> without_transport(
                hs,
            ).contains(hs[k]),
    decreases hs.len(),
{
    reveal_strlit("content-encoding");
    reveal_strlit("transfer-encoding");
    reveal_strlit("content-length");
    let names = stripped_names();
    assert(names.len() == 3);
    assert(names[0] == "content-encoding"@);
    assert(names[1] == "transfer-encoding"@);
    assert(names[2] == "content-length"@);
    assert forall|n: Seq<char>| names.contains(n) <==> is_transport_header(n) by {
        if names.contains(n) {
            let t = choose|t: int| 0 <= t < names.len() && names[t] == n;
            assert(t == 0 || t == 1 || t == 2);
        }
        if is_transport_header(n) {
            if n == "content-encoding"@ {
                assert(names[0] == n);
            } else if n == "transfer-encoding"@ {
                assert(names[1] == n);
            } else {
                assert(names[2] == n);
            }
        }
    }
    if hs.len() > 0 {
        let init = hs.drop_last();
        lemma_strip_removes_listed(init);
        let w = without_transport(hs);
        let wi = without_transport(init);
        let last = hs[hs.len() - 1];
        if is_transport_header(lowercase(last.0)) {
            assert(w == wi);
        } else {
            assert(w == wi.push(last));
            assert forall|k: int| 0 <= k < w.len() implies !names.contains(lowercase(#[trigger] w[k].0)) by {
                if k < wi.len() {
                    assert(w[k] == wi[k]);
                }
            }
        }
        assert forall|k: int| 0 <= k < hs.len() && !names.contains(lowercase(#[trigger] hs[k].0)) implies w.contains(
            hs[k],
        ) by {
            if k < init.len() {
                assert(init[k] == hs[k]);
                assert(wi.contains(hs[k]));
                let j = choose|j: int| 0 <= j < wi.len() && wi[j] == hs[k];
                if !is_transport_header(lowercase(last.0)) {
                    assert(w[j] == wi[j]);
                }
            } else {
                assert(w[w.len() - 1] == last);
            }
        }
    }
}

} // verus!
