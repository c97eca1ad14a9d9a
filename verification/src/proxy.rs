//! The proxy server's decisions: where a request is forwarded, what is sent, and
//! which recorded interaction answers it.

use vstd::prelude::*;
use vstd::utf8::encode_utf8;
use crate::body::{base64_error_text, body_bytes, decode_error_text, load_body};
use crate::cassette::types::{BodyEncoding, Header, Interaction, InteractionView, RecordedRequest, RecordedResponse, RequestView, interactions_view};
use crate::error::Error;
use crate::filter::{remove_headers, without_header};
use crate::matcher::Matcher;
use crate::mode::Mode;
use crate::text::{chars_of, owned, string_from_chars};
use vstd::string::StringExecFns;

verus! {

/// Proxy server settings.
#[derive(Debug)]
pub struct ProxyConfig {
    /// Port to listen on.
    pub port: u16,
    /// Operating mode.
    pub mode: Mode,
    /// Path to the cassette file.
    pub cassette_path: String,
    /// Server that requests are forwarded to.
    pub target_url: Option<String>,
}

impl ProxyConfig {
    /// Settings without a target.
    pub fn new(port: u16, mode: Mode, cassette_path: &str) -> (c: Self)
        ensures
            c.port == port,
            c.mode == mode,
            c.cassette_path@ == cassette_path@,
            c.target_url is None,
    {
        ProxyConfig { port, mode, cassette_path: owned(cassette_path), target_url: None }
    }

    /// Sets the target server.
    pub fn target(self, url: &str) -> (c: Self)
        ensures
            c.port == self.port,
            c.mode == self.mode,
            c.cassette_path == self.cassette_path,
            c.target_url matches Some(t) && t@ == url@,
    {
        ProxyConfig { target_url: Some(owned(url)), ..self }
    }
}

/// `s` without its trailing `/` characters (std's `trim_end_matches('/')`).
pub open spec fn trim_trailing_slashes(s: Seq<char>) -> Seq<char>
    decreases s.len(),
{
    if s.len() > 0 && s.last() == '/' {
        trim_trailing_slashes(s.drop_last())
    } else {
        s
    }
}

/// The URL a request is forwarded to: its own URL when that starts with `http`,
/// otherwise the target (without trailing `/`) followed by the request's path.
pub open spec fn forward_url(target: Seq<char>, url: Seq<char>) -> Seq<char> {
    if url.len() >= 4 && url.take(4) == "http"@ {
        url
    } else {
        trim_trailing_slashes(target) + url
    }
}

/// Builds the URL a request is forwarded to.
pub fn full_url(target: &str, url: &str) -> (r: String)
    ensures
        r@ == forward_url(target@, url@),
{
    let uv = chars_of(url);
    proof {
        reveal_strlit("http");
    }
    if uv.len() >= 4 && uv[0] == 'h' && uv[1] == 't' && uv[2] == 't' && uv[3] == 'p' {
        assert(url@.take(4) =~= "http"@);
        return owned(url);
    }
    assert(!(url@.len() >= 4 && url@.take(4) == "http"@)) by {
        if url@.len() >= 4 && url@.take(4) == "http"@ {
            assert(url@.take(4)[0] == 'h' && url@.take(4)[1] == 't' && url@.take(4)[2] == 't' && url@.take(4)[3]
                == 'p');
        }
    }
    let tv = chars_of(target);
    let mut end: usize = tv.len();
    assert(tv@.take(end as int) =~= tv@);
    while end > 0 && tv[end - 1] == '/'
        invariant
            end <= tv@.len(),
            trim_trailing_slashes(tv@) == trim_trailing_slashes(tv@.take(end as int)),
        decreases end,
    {
        assert(tv@.take(end as int).drop_last() =~= tv@.take(end - 1));
        end = end - 1;
    }
    let mut out: Vec<char> = Vec::new();
    let mut i: usize = 0;
    while i < end
        invariant
            i <= end <= tv@.len(),
            out@ == tv@.take(i as int),
        decreases end - i,
    {
        out.push(tv[i]);
        i = i + 1;
        assert(out@ =~= tv@.take(i as int));
    }
    let mut r = string_from_chars(out.as_slice());
    r.append(url);
    r
}

/// The headers forwarded with a request: all but `host` (the client sets its own).
pub fn forwarded_headers(headers: &Vec<Header>) -> (r: Vec<Header>)
    ensures
        crate::cassette::types::headers_view(r@) == without_header(
            crate::cassette::types::headers_view(headers@),
            "host"@,
        ),
{
    remove_headers(headers, "host")
}

/// The bytes forwarded as a request's body: none without a body, the text's UTF-8
/// bytes, or the decoded base64; invalid base64 is an error.
pub fn forward_body(request: &RecordedRequest) -> (r: Result<Option<Vec<u8>>, Error>)
    ensures
        match request@.body {
            None => r matches Ok(None),
            Some(t) => match body_bytes(t, request@.body_encoding) {
                Some(b) => r matches Ok(Some(x)) && x@ == b,
                None => r matches Err(Error::Proxy(m)) && m@ == "Failed to decode request body: "@
                    + base64_error_text(t),
            },
        },
{
    match &request.body {
        None => Ok(None),
        Some(t) => match load_body(t.as_str(), request.body_encoding) {
            Ok(b) => Ok(Some(b)),
            Err(e) => {
                let mut m = owned("Failed to decode request body: ");
                let detail = decode_error_text(&e);
                m.append(detail.as_str());
                Err(Error::Proxy(m))
            },
        },
    }
}

/// The body bytes sent back to the proxy's client for a recorded response: empty
/// without a body, the text's UTF-8 bytes, or the decoded base64; invalid base64 is
/// an error.
pub fn client_body(response: &RecordedResponse) -> (r: Result<Vec<u8>, Error>)
    ensures
        match response@.body {
            None => r matches Ok(x) && x@.len() == 0,
            Some(t) => match body_bytes(t, response@.body_encoding) {
                Some(b) => r matches Ok(x) && x@ == b,
                None => r matches Err(Error::Proxy(m)) && m@ == "Failed to decode base64: "@ + base64_error_text(t),
            },
        },
{
    match &response.body {
        None => Ok(Vec::new()),
        Some(t) => match load_body(t.as_str(), response.body_encoding) {
            Ok(b) => Ok(b),
            Err(e) => {
                let mut m = owned("Failed to decode base64: ");
                let detail = decode_error_text(&e);
                m.append(detail.as_str());
                Err(Error::Proxy(m))
            },
        },
    }
}

/// The target, or the error for a mode that needs one.
pub fn require_target(target: &Option<String>, mode_name: &str) -> (r: Result<String, Error>)
    ensures
        match target {
            Some(t) => r matches Ok(x) && x@ == t@,
            None => r matches Err(Error::Config(m)) && m@ == "Target URL required for "@ + mode_name@ + " mode"@,
        },
{
    match target {
        Some(t) => Ok(t.clone()),
        None => {
            let mut m = owned("Target URL required for ");
            m.append(mode_name);
            m.append(" mode");
            Err(Error::Config(m))
        },
    }
}

/// The first accepted interaction (from `start` on) that holds an error or a response.
pub open spec fn proxy_lookup<M: Matcher + ?Sized>(
    m: &M,
    s: Seq<InteractionView>,
    req: RequestView,
    start: int,
) -> Option<int>
    decreases s.len() - start,
{
    if start < 0 || start >= s.len() {
        None
    } else if m.spec_matches(s[start].request, req) && (s[start].error is Some || s[start].response is Some) {
        Some(start)
    } else {
        proxy_lookup(m, s, req, start + 1)
    }
}

/// What the proxy answers from the cassette: for the interaction found, its recorded
/// error as a proxy error (`Recorded error: ` and its message), else its response;
/// `None` when nothing is found.
pub fn proxy_answer<M: Matcher + ?Sized>(interactions: &Vec<Interaction>, matcher: &M, request: &RecordedRequest) -> (r:
    Option<Result<RecordedResponse, Error>>)
    ensures
        matcher.is_specified() ==> match proxy_lookup(matcher, interactions_view(interactions@), request@, 0) {
            None => r is None,
            Some(i) => match interactions@[i]@.error {
                Some(e) => r matches Some(Err(Error::Proxy(m))) && m@ == "Recorded error: "@ + e.message,
                None => r matches Some(Ok(x)) && Some(x@) == interactions@[i]@.response,
            },
        },
{
    let ghost s = interactions_view(interactions@);
    let mut i: usize = 0;
    while i < interactions.len()
        invariant
            i <= interactions@.len(),
            s == interactions_view(interactions@),
            matcher.is_specified() ==> proxy_lookup(matcher, s, request@, 0) == proxy_lookup(
                matcher,
                s,
                request@,
                i as int,
            ),
        decreases interactions.len() - i,
    {
        let interaction = &interactions[i];
        assert(s[i as int] == interaction@);
        if matcher.matches(&interaction.request, request) {
            match &interaction.error {
                Some(err) => {
                    let mut m = owned("Recorded error: ");
                    m.append(err.message.as_str());
                    return Some(Err(Error::Proxy(m)));
                },
                None => {},
            }
            match &interaction.response {
                Some(response) => {
                    return Some(Ok(response.clone()));
                },
                None => {},
            }
        }
        i = i + 1;
    }
    None
}

/// What the proxy answers in replay mode: the answer found, or `NoMatch`.
pub fn proxy_playback<M: Matcher + ?Sized>(interactions: &Vec<Interaction>, matcher: &M, request: &RecordedRequest) -> (r:
    Result<RecordedResponse, Error>)
    ensures
        matcher.is_specified() ==> match proxy_lookup(matcher, interactions_view(interactions@), request@, 0) {
            None => r matches Err(Error::NoMatch),
            Some(i) => match interactions@[i]@.error {
                Some(e) => r matches Err(Error::Proxy(m)) && m@ == "Recorded error: "@ + e.message,
                None => r matches Ok(x) && Some(x@) == interactions@[i]@.response,
            },
        },
{
    match proxy_answer(interactions, matcher, request) {
        Some(r) => r,
        None => Err(Error::NoMatch),
    }
}

/// The proxy answers with the earliest interaction that can answer: when the lookup
/// from `start` finds position `i`, the matcher accepts it and it holds an error or a
/// response, and no position between `start` and `i` does both; when it finds none,
/// no position from `start` on does.
pub proof fn lemma_proxy_lookup_earliest<M: Matcher + ?Sized>(
    m: &M,
    s: Seq<InteractionView>,
    req: RequestView,
    start: int,
)
    requires
        0 <= start,
    ensures
        match proxy_lookup(m, s, req, start) {
            Some(i) => start <= i < s.len() && m.spec_matches(s[i].request, req) && (s[i].error is Some
                || s[i].response is Some) && forall|j: int|
                start <= j < i ==> !(m.spec_matches(#[trigger] s[j].request, req) && (s[j].error is Some
                    || s[j].response is Some)),
            None => forall|j: int|
                start <= j < s.len() ==> !(m.spec_matches(#[trigger] s[j].request, req) && (s[j].error is Some
                    || s[j].response is Some)),
        },
    decreases s.len() - start,
{
    if start < s.len() && !(m.spec_matches(s[start].request, req) && (s[start].error is Some
        || s[start].response is Some)) {
        lemma_proxy_lookup_earliest(m, s, req, start + 1);
    }
}

} // verus!
