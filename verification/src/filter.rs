//! Filters: rewrite requests and responses before they are recorded or matched,
//! typically to scrub secrets.

use vstd::prelude::*;
use crate::cassette::types::{
    Header, RecordedRequest, RecordedResponse, RequestView, ResponseView, headers_view,
};
use crate::json::{json_path_replaced, replace_json_path};
use crate::text::{chars_of, lowercase, occurs_at, occurs_at_exec, owned, str_eq, string_from_chars, to_lowercase};

verus! {

/// Rewrites a request.
pub trait RequestFilter: Send + Sync {
    /// What the filter does to a request's contents.
    spec fn spec_filter(&self, request: RequestView) -> RequestView;

    /// Whether `filter` follows `spec_filter`.
    spec fn is_specified(&self) -> bool;

    /// Applies the filter.
    fn filter(&self, request: &mut RecordedRequest)
        ensures
            self.is_specified() ==> final(request)@ == self.spec_filter(old(request)@),
    ;

    /// The filter's name.
    fn name(&self) -> &'static str;
}

/// Rewrites a response.
pub trait ResponseFilter: Send + Sync {
    /// What the filter does to a response's contents.
    spec fn spec_filter(&self, response: ResponseView) -> ResponseView;

    /// Whether `filter` follows `spec_filter`.
    spec fn is_specified(&self) -> bool;

    /// Applies the filter.
    fn filter(&self, response: &mut RecordedResponse)
        ensures
            self.is_specified() ==> final(response)@ == self.spec_filter(old(response)@),
    ;

    /// The filter's name.
    fn name(&self) -> &'static str;
}

/// The headers whose lowercased name is not `name`, in order.
pub open spec fn without_header(hs: Seq<(Seq<char>, Seq<char>)>, name: Seq<char>) -> Seq<(Seq<char>, Seq<char>)>
    decreases hs.len(),
{
    if hs.len() == 0 {
        hs
    } else {
        let init = without_header(hs.drop_last(), name);
        if lowercase(hs.last().0) == name {
            init
        } else {
            init.push(hs.last())
        }
    }
}

/// The headers, with the value of each whose lowercased name is `name` replaced by `value`.
pub open spec fn with_header_value(hs: Seq<(Seq<char>, Seq<char>)>, name: Seq<char>, value: Seq<char>) -> Seq<
    (Seq<char>, Seq<char>),
> {
    hs.map_values(|h: (Seq<char>, Seq<char>)| if lowercase(h.0) == name { (h.0, value) } else { h })
}

/// Whether the lowercased form of a header name is `name`.
fn name_is(h: &Header, name: &str) -> (b: bool)
    ensures
        b == (lowercase(h.name@) == name@),
{
    let l = to_lowercase(h.name.as_str());
    str_eq(l.as_str(), name)
}

/// The headers whose lowercased name is not `name`.
pub fn remove_headers(hs: &Vec<Header>, name: &str) -> (r: Vec<Header>)
    ensures
        headers_view(r@) == without_header(headers_view(hs@), name@),
{
    let mut out: Vec<Header> = Vec::new();
    let ghost all = headers_view(hs@);
    let mut i: usize = 0;
    assert(all.take(0) =~= Seq::<(Seq<char>, Seq<char>)>::empty());
    while i < hs.len()
        invariant
            i <= hs@.len(),
            all == headers_view(hs@),
            headers_view(out@) == without_header(all.take(i as int), name@),
        decreases hs.len() - i,
    {
        let ghost before = out@;
        assert(all.take(i + 1).drop_last() =~= all.take(i as int));
        assert(all.take(i + 1).last() == hs@[i as int]@);
        if !name_is(&hs[i], name) {
            out.push(hs[i].clone());
            assert(headers_view(out@) =~= headers_view(before).push(hs@[i as int]@));
        }
        i = i + 1;
    }
    assert(all.take(i as int) =~= all);
    out
}

/// The headers with the value of each whose lowercased name is `name` set to `value`.
fn replace_header_values(hs: &Vec<Header>, name: &str, value: &String) -> (r: Vec<Header>)
    ensures
        headers_view(r@) == with_header_value(headers_view(hs@), name@, value@),
{
    let mut out: Vec<Header> = Vec::new();
    let ghost target = with_header_value(headers_view(hs@), name@, value@);
    let mut i: usize = 0;
    while i < hs.len()
        invariant
            i <= hs@.len(),
            target == with_header_value(headers_view(hs@), name@, value@),
            headers_view(out@) == target.take(i as int),
        decreases hs.len() - i,
    {
        let ghost before = out@;
        assert(headers_view(hs@)[i as int] == hs@[i as int]@);
        if name_is(&hs[i], name) {
            out.push(Header { name: hs[i].name.clone(), value: value.clone() });
            assert(target[i as int] == (hs@[i as int].name@, value@));
        } else {
            out.push(hs[i].clone());
            assert(target[i as int] == hs@[i as int]@);
        }
        assert(headers_view(out@) =~= headers_view(before).push(out@[i as int]@));
        assert(headers_view(out@) =~= target.take(i + 1));
        i = i + 1;
    }
    assert(target.take(i as int) =~= target);
    out
}

/// `s` with every character followed by `r`.
pub open spec fn each_followed_by(s: Seq<char>, r: Seq<char>) -> Seq<char>
    decreases s.len(),
{
    if s.len() == 0 {
        Seq::empty()
    } else {
        seq![s[0]] + r + each_followed_by(s.drop_first(), r)
    }
}

/// What std's `str::replace` gives: the non-overlapping occurrences of `p`, found left
/// to right, replaced by `r`; an empty `p` occurs before every character and at the end.
pub open spec fn replace_all(s: Seq<char>, p: Seq<char>, r: Seq<char>) -> Seq<char>
    decreases s.len(),
{
    if p.len() == 0 {
        r + each_followed_by(s, r)
    } else if s.len() == 0 {
        s
    } else if occurs_at(s, p, 0) {
        r + replace_all(s.subrange(p.len() as int, s.len() as int), p, r)
    } else {
        seq![s[0]] + replace_all(s.drop_first(), p, r)
    }
}

/// Appends the characters of `src` to `out`.
fn push_all(out: &mut Vec<char>, src: &Vec<char>)
    ensures
        final(out)@ == old(out)@ + src@,
{
    let mut i: usize = 0;
    let ghost start = out@;
    while i < src.len()
        invariant
            i <= src@.len(),
            out@ == start + src@.take(i as int),
        decreases src.len() - i,
    {
        out.push(src[i]);
        i = i + 1;
        assert(out@ =~= start + src@.take(i as int));
    }
    assert(src@.take(i as int) =~= src@);
}

/// Replaces every occurrence of `pattern` in `s` with `replacement` (as std's `str::replace`).
pub fn replace_str(s: &str, pattern: &str, replacement: &str) -> (out: String)
    ensures
        out@ == replace_all(s@, pattern@, replacement@),
{
    let sv = chars_of(s);
    let pv = chars_of(pattern);
    let rv = chars_of(replacement);
    let mut out: Vec<char> = Vec::new();
    let mut i: usize = 0;
    let ghost full = replace_all(sv@, pv@, rv@);
    if pv.len() == 0 {
        push_all(&mut out, &rv);
        assert(sv@.subrange(0, sv@.len() as int) =~= sv@);
        while i < sv.len()
            invariant
                pv@.len() == 0,
                i <= sv@.len(),
                full == replace_all(sv@, pv@, rv@),
                out@ + each_followed_by(sv@.subrange(i as int, sv@.len() as int), rv@) == full,
            decreases sv.len() - i,
        {
            let ghost rest = sv@.subrange(i as int, sv@.len() as int);
            assert(rest.drop_first() =~= sv@.subrange(i + 1, sv@.len() as int));
            out.push(sv[i]);
            push_all(&mut out, &rv);
            assert(out@ + each_followed_by(rest.drop_first(), rv@) =~= full);
            i = i + 1;
        }
        assert(each_followed_by(sv@.subrange(i as int, sv@.len() as int), rv@) =~= Seq::empty());
        assert(out@ =~= full);
        return string_from_chars(out.as_slice());
    }
    assert(sv@.subrange(0, sv@.len() as int) =~= sv@);
    while i < sv.len()
        invariant
            pv@.len() > 0,
            i <= sv@.len(),
            full == replace_all(sv@, pv@, rv@),
            out@ + replace_all(sv@.subrange(i as int, sv@.len() as int), pv@, rv@) == full,
        decreases sv.len() - i,
    {
        let ghost rest = sv@.subrange(i as int, sv@.len() as int);
        let hit = occurs_at_exec(sv.as_slice(), pv.as_slice(), i);
        assert(hit == occurs_at(rest, pv@, 0)) by {
            if hit {
                assert(rest.subrange(0, pv@.len() as int) =~= sv@.subrange(i as int, i + pv@.len()));
            } else if occurs_at(rest, pv@, 0) {
                assert(rest.subrange(0, pv@.len() as int) =~= sv@.subrange(i as int, i + pv@.len()));
            }
        }
        if hit {
            push_all(&mut out, &rv);
            assert(rest.subrange(pv@.len() as int, rest.len() as int) =~= sv@.subrange(
                i + pv@.len(),
                sv@.len() as int,
            ));
            i = i + pv.len();
        } else {
            out.push(sv[i]);
            assert(rest.drop_first() =~= sv@.subrange(i + 1, sv@.len() as int));
            i = i + 1;
        }
        assert(out@ + replace_all(sv@.subrange(i as int, sv@.len() as int), pv@, rv@) =~= full);
    }
    assert(replace_all(sv@.subrange(i as int, sv@.len() as int), pv@, rv@) =~= Seq::empty());
    assert(out@ =~= full);
    string_from_chars(out.as_slice())
}

/// Removing a header leaves no header of that (lowercased) name, and keeps every
/// other header, in order.
pub proof fn lemma_without_header(hs: Seq<(Seq<char>, Seq<char>)>, name: Seq<char>)
    ensures
        forall|i: int| 0 <= i < without_header(hs, name).len() ==> lowercase(
            (#[trigger] without_header(hs, name)[i]).0,
        ) != name,
        forall|i: int| 0 <= i < hs.len() && lowercase((#[trigger] hs[i]).0) != name ==> without_header(
            hs,
            name,
        ).contains(hs[i]),
        forall|i: int| 0 <= i < without_header(hs, name).len() ==> hs.contains(
            #[trigger] without_header(hs, name)[i],
        ),
    decreases hs.len(),
{
    if hs.len() > 0 {
        let init = hs.drop_last();
        lemma_without_header(init, name);
        let w = without_header(init, name);
        let r = without_header(hs, name);
        assert forall|i: int| 0 <= i < w.len() implies r[i] == w[i] by {}
        assert forall|i: int| 0 <= i < r.len() implies lowercase((#[trigger] r[i]).0) != name && hs.contains(r[i]) by {
            if i < w.len() {
                assert(r[i] == w[i]);
                let k = choose|k: int| 0 <= k < init.len() && init[k] == w[i];
                assert(hs[k] == init[k]);
            } else {
                assert(r[i] == hs.last());
                assert(hs[hs.len() - 1] == hs.last());
            }
        }
        assert forall|i: int| 0 <= i < hs.len() && lowercase((#[trigger] hs[i]).0) != name implies r.contains(hs[i]) by {
            if i < hs.len() - 1 {
                assert(init[i] == hs[i]);
                let k = choose|k: int| 0 <= k < w.len() && w[k] == init[i];
                assert(r[k] == w[k]);
            } else {
                assert(r[r.len() - 1] == hs.last());
            }
        }
    }
}

/// Replacing a header's value sets every header of that (lowercased) name to the
/// replacement, and changes nothing else: names, order and count stay.
pub proof fn lemma_with_header_value(hs: Seq<(Seq<char>, Seq<char>)>, name: Seq<char>, value: Seq<char>)
    ensures
        with_header_value(hs, name, value).len() == hs.len(),
        forall|i: int| 0 <= i < hs.len() ==> (#[trigger] with_header_value(hs, name, value)[i]).0 == hs[i].0,
        forall|i: int|
            0 <= i < hs.len() ==> (#[trigger] with_header_value(hs, name, value)[i]).1 == if lowercase(hs[i].0)
                == name {
                value
            } else {
                hs[i].1
            },
{
}

/// A body in which the (non-empty) pattern does not occur is left as it is.
pub proof fn lemma_replace_absent(s: Seq<char>, p: Seq<char>, r: Seq<char>)
    requires
        p.len() > 0,
        forall|i: int| !occurs_at(s, p, i),
    ensures
        replace_all(s, p, r) == s,
    decreases s.len(),
{
    if s.len() > 0 {
        let t = s.drop_first();
        assert forall|i: int| !occurs_at(t, p, i) by {
            if occurs_at(t, p, i) {
                assert(s.subrange(i + 1, i + 1 + p.len()) =~= t.subrange(i, i + p.len()));
                assert(occurs_at(s, p, i + 1));
            }
        }
        lemma_replace_absent(t, p, r);
        assert(seq![s[0]] + t =~= s);
    }
}

/// The body after replacing, when there is one.
pub open spec fn replaced_body(b: Option<Seq<char>>, p: Seq<char>, r: Seq<char>) -> Option<Seq<char>> {
    match b {
        Some(t) => Some(replace_all(t, p, r)),
        None => None,
    }
}

/// Removes a header (matched case-insensitively) from requests.
#[derive(Debug)]
pub struct RemoveRequestHeader {
    header_name: String,
}

impl RemoveRequestHeader {
    /// The lowercased header name.
    pub closed spec fn name_view(&self) -> Seq<char> {
        self.header_name@
    }

    /// A filter removing `header_name`.
    pub fn new(header_name: &str) -> (f: Self)
        ensures
            f.name_view() == lowercase(header_name@),
    {
        RemoveRequestHeader { header_name: to_lowercase(header_name) }
    }
}

impl RequestFilter for RemoveRequestHeader {
    open spec fn spec_filter(&self, request: RequestView) -> RequestView {
        RequestView { headers: without_header(request.headers, self.name_view()), ..request }
    }

    open spec fn is_specified(&self) -> bool {
        true
    }

    fn filter(&self, request: &mut RecordedRequest) {
        let hs = remove_headers(&request.headers, self.header_name.as_str());
        request.headers = hs;
    }

    fn name(&self) -> (s: &'static str)
        ensures
            s@ == "remove_request_header"@,
    {
        "remove_request_header"
    }
}

/// Replaces the value of a header (matched case-insensitively) in requests.
#[derive(Debug)]
pub struct ReplaceRequestHeader {
    header_name: String,
    replacement: String,
}

impl ReplaceRequestHeader {
    /// The lowercased header name.
    pub closed spec fn name_view(&self) -> Seq<char> {
        self.header_name@
    }

    /// The replacement value.
    pub closed spec fn replacement_view(&self) -> Seq<char> {
        self.replacement@
    }

    /// A filter setting `header_name` to `replacement`.
    pub fn new(header_name: &str, replacement: &str) -> (f: Self)
        ensures
            f.name_view() == lowercase(header_name@),
            f.replacement_view() == replacement@,
    {
        ReplaceRequestHeader { header_name: to_lowercase(header_name), replacement: owned(replacement) }
    }
}

impl RequestFilter for ReplaceRequestHeader {
    open spec fn spec_filter(&self, request: RequestView) -> RequestView {
        RequestView {
            headers: with_header_value(request.headers, self.name_view(), self.replacement_view()),
            ..request
        }
    }

    open spec fn is_specified(&self) -> bool {
        true
    }

    fn filter(&self, request: &mut RecordedRequest) {
        let hs = replace_header_values(&request.headers, self.header_name.as_str(), &self.replacement);
        request.headers = hs;
    }

    fn name(&self) -> (s: &'static str)
        ensures
            s@ == "replace_request_header"@,
    {
        "replace_request_header"
    }
}

/// Removes a header (matched case-insensitively) from responses.
#[derive(Debug)]
pub struct RemoveResponseHeader {
    header_name: String,
}

impl RemoveResponseHeader {
    /// The lowercased header name.
    pub closed spec fn name_view(&self) -> Seq<char> {
        self.header_name@
    }

    /// A filter removing `header_name`.
    pub fn new(header_name: &str) -> (f: Self)
        ensures
            f.name_view() == lowercase(header_name@),
    {
        RemoveResponseHeader { header_name: to_lowercase(header_name) }
    }
}

impl ResponseFilter for RemoveResponseHeader {
    open spec fn spec_filter(&self, response: ResponseView) -> ResponseView {
        ResponseView { headers: without_header(response.headers, self.name_view()), ..response }
    }

    open spec fn is_specified(&self) -> bool {
        true
    }

    fn filter(&self, response: &mut RecordedResponse) {
        let hs = remove_headers(&response.headers, self.header_name.as_str());
        response.headers = hs;
    }

    fn name(&self) -> (s: &'static str)
        ensures
            s@ == "remove_response_header"@,
    {
        "remove_response_header"
    }
}

/// Replaces the value of a header (matched case-insensitively) in responses.
#[derive(Debug)]
pub struct ReplaceResponseHeader {
    header_name: String,
    replacement: String,
}

impl ReplaceResponseHeader {
    /// The lowercased header name.
    pub closed spec fn name_view(&self) -> Seq<char> {
        self.header_name@
    }

    /// The replacement value.
    pub closed spec fn replacement_view(&self) -> Seq<char> {
        self.replacement@
    }

    /// A filter setting `header_name` to `replacement`.
    pub fn new(header_name: &str, replacement: &str) -> (f: Self)
        ensures
            f.name_view() == lowercase(header_name@),
            f.replacement_view() == replacement@,
    {
        ReplaceResponseHeader { header_name: to_lowercase(header_name), replacement: owned(replacement) }
    }
}

impl ResponseFilter for ReplaceResponseHeader {
    open spec fn spec_filter(&self, response: ResponseView) -> ResponseView {
        ResponseView {
            headers: with_header_value(response.headers, self.name_view(), self.replacement_view()),
            ..response
        }
    }

    open spec fn is_specified(&self) -> bool {
        true
    }

    fn filter(&self, response: &mut RecordedResponse) {
        let hs = replace_header_values(&response.headers, self.header_name.as_str(), &self.replacement);
        response.headers = hs;
    }

    fn name(&self) -> (s: &'static str)
        ensures
            s@ == "replace_response_header"@,
    {
        "replace_response_header"
    }
}

/// Replaces text in request bodies.
#[derive(Debug)]
pub struct ReplaceRequestBody {
    pattern: String,
    replacement: String,
}

impl ReplaceRequestBody {
    /// The text replaced.
    pub closed spec fn pattern_view(&self) -> Seq<char> {
        self.pattern@
    }

    /// The text put in its place.
    pub closed spec fn replacement_view(&self) -> Seq<char> {
        self.replacement@
    }

    /// A filter replacing `pattern` with `replacement`.
    pub fn new(pattern: &str, replacement: &str) -> (f: Self)
        ensures
            f.pattern_view() == pattern@,
            f.replacement_view() == replacement@,
    {
        ReplaceRequestBody { pattern: owned(pattern), replacement: owned(replacement) }
    }
}

impl RequestFilter for ReplaceRequestBody {
    open spec fn spec_filter(&self, request: RequestView) -> RequestView {
        RequestView { body: replaced_body(request.body, self.pattern_view(), self.replacement_view()), ..request }
    }

    open spec fn is_specified(&self) -> bool {
        true
    }

    fn filter(&self, request: &mut RecordedRequest) {
        let nb = match &request.body {
            Some(b) => Some(replace_str(b.as_str(), self.pattern.as_str(), self.replacement.as_str())),
            None => None,
        };
        request.body = nb;
    }

    fn name(&self) -> (s: &'static str)
        ensures
            s@ == "replace_request_body"@,
    {
        "replace_request_body"
    }
}

/// Replaces text in response bodies.
#[derive(Debug)]
pub struct ReplaceResponseBody {
    pattern: String,
    replacement: String,
}

impl ReplaceResponseBody {
    /// The text replaced.
    pub closed spec fn pattern_view(&self) -> Seq<char> {
        self.pattern@
    }

    /// The text put in its place.
    pub closed spec fn replacement_view(&self) -> Seq<char> {
        self.replacement@
    }

    /// A filter replacing `pattern` with `replacement`.
    pub fn new(pattern: &str, replacement: &str) -> (f: Self)
        ensures
            f.pattern_view() == pattern@,
            f.replacement_view() == replacement@,
    {
        ReplaceResponseBody { pattern: owned(pattern), replacement: owned(replacement) }
    }
}

impl ResponseFilter for ReplaceResponseBody {
    open spec fn spec_filter(&self, response: ResponseView) -> ResponseView {
        ResponseView { body: replaced_body(response.body, self.pattern_view(), self.replacement_view()), ..response }
    }

    open spec fn is_specified(&self) -> bool {
        true
    }

    fn filter(&self, response: &mut RecordedResponse) {
        let nb = match &response.body {
            Some(b) => Some(replace_str(b.as_str(), self.pattern.as_str(), self.replacement.as_str())),
            None => None,
        };
        response.body = nb;
    }

    fn name(&self) -> (s: &'static str)
        ensures
            s@ == "replace_response_body"@,
    {
        "replace_response_body"
    }
}

/// Replaces the value at a JSON path (such as `$.user.password`) in request bodies
/// with a string; bodies that are absent or not JSON, and paths that find nothing,
/// leave the request unchanged.
#[derive(Debug)]
pub struct JsonPathRequestFilter {
    path: String,
    replacement: String,
}

impl JsonPathRequestFilter {
    /// The JSON path.
    pub closed spec fn path_view(&self) -> Seq<char> {
        self.path@
    }

    /// The replacement string.
    pub closed spec fn replacement_view(&self) -> Seq<char> {
        self.replacement@
    }

    /// A filter replacing the value at `json_path` with `replacement`.
    pub fn new(json_path: &str, replacement: &str) -> (f: Self)
        ensures
            f.path_view() == json_path@,
            f.replacement_view() == replacement@,
    {
        JsonPathRequestFilter { path: owned(json_path), replacement: owned(replacement) }
    }
}

impl RequestFilter for JsonPathRequestFilter {
    open spec fn spec_filter(&self, request: RequestView) -> RequestView {
        RequestView {
            body: json_path_replaced(request.body, self.path_view(), self.replacement_view()),
            ..request
        }
    }

    open spec fn is_specified(&self) -> bool {
        true
    }

    fn filter(&self, request: &mut RecordedRequest) {
        let nb = replace_json_path(&request.body, self.path.as_str(), self.replacement.as_str());
        request.body = nb;
    }

    fn name(&self) -> (s: &'static str)
        ensures
            s@ == "json_path_request_filter"@,
    {
        "json_path_request_filter"
    }
}

/// Replaces the value at a JSON path in response bodies with a string (see
/// `JsonPathRequestFilter`).
#[derive(Debug)]
pub struct JsonPathResponseFilter {
    path: String,
    replacement: String,
}

impl JsonPathResponseFilter {
    /// The JSON path.
    pub closed spec fn path_view(&self) -> Seq<char> {
        self.path@
    }

    /// The replacement string.
    pub closed spec fn replacement_view(&self) -> Seq<char> {
        self.replacement@
    }

    /// A filter replacing the value at `json_path` with `replacement`.
    pub fn new(json_path: &str, replacement: &str) -> (f: Self)
        ensures
            f.path_view() == json_path@,
            f.replacement_view() == replacement@,
    {
        JsonPathResponseFilter { path: owned(json_path), replacement: owned(replacement) }
    }
}

impl ResponseFilter for JsonPathResponseFilter {
    open spec fn spec_filter(&self, response: ResponseView) -> ResponseView {
        ResponseView {
            body: json_path_replaced(response.body, self.path_view(), self.replacement_view()),
            ..response
        }
    }

    open spec fn is_specified(&self) -> bool {
        true
    }

    fn filter(&self, response: &mut RecordedResponse) {
        let nb = replace_json_path(&response.body, self.path.as_str(), self.replacement.as_str());
        response.body = nb;
    }

    fn name(&self) -> (s: &'static str)
        ensures
            s@ == "json_path_response_filter"@,
    {
        "json_path_response_filter"
    }
}

} // verus!

verus! {

/// A request filter in a chain: one of the built-in filters, or any other.
pub enum RequestFilterRule {
    /// A `RemoveRequestHeader`.
    RemoveHeader(RemoveRequestHeader),
    /// A `ReplaceRequestHeader`.
    ReplaceHeader(ReplaceRequestHeader),
    /// A `ReplaceRequestBody`.
    ReplaceBody(ReplaceRequestBody),
    /// A `JsonPathRequestFilter`.
    JsonPath(JsonPathRequestFilter),
    /// Any other request filter.
    Other(Box<dyn RequestFilter>),
}

impl RequestFilterRule {
    /// What the filter does.
    pub open spec fn rule_spec(&self, r: RequestView) -> RequestView {
        match self {
            RequestFilterRule::RemoveHeader(f) => f.spec_filter(r),
            RequestFilterRule::ReplaceHeader(f) => f.spec_filter(r),
            RequestFilterRule::ReplaceBody(f) => f.spec_filter(r),
            RequestFilterRule::JsonPath(f) => f.spec_filter(r),
            RequestFilterRule::Other(f) => f.spec_filter(r),
        }
    }

    /// Whether the filter follows `rule_spec`.
    pub open spec fn rule_specified(&self) -> bool {
        match self {
            RequestFilterRule::Other(f) => f.is_specified(),
            _ => true,
        }
    }

    /// Applies the filter.
    pub fn apply(&self, request: &mut RecordedRequest)
        ensures
            self.rule_specified() ==> final(request)@ == self.rule_spec(old(request)@),
    {
        match self {
            RequestFilterRule::RemoveHeader(f) => f.filter(request),
            RequestFilterRule::ReplaceHeader(f) => f.filter(request),
            RequestFilterRule::ReplaceBody(f) => f.filter(request),
            RequestFilterRule::JsonPath(f) => f.filter(request),
            RequestFilterRule::Other(f) => f.filter(request),
        }
    }
}

/// A response filter in a chain: one of the built-in filters, or any other.
pub enum ResponseFilterRule {
    /// A `RemoveResponseHeader`.
    RemoveHeader(RemoveResponseHeader),
    /// A `ReplaceResponseHeader`.
    ReplaceHeader(ReplaceResponseHeader),
    /// A `ReplaceResponseBody`.
    ReplaceBody(ReplaceResponseBody),
    /// A `JsonPathResponseFilter`.
    JsonPath(JsonPathResponseFilter),
    /// Any other response filter.
    Other(Box<dyn ResponseFilter>),
}

impl ResponseFilterRule {
    /// What the filter does.
    pub open spec fn rule_spec(&self, r: ResponseView) -> ResponseView {
        match self {
            ResponseFilterRule::RemoveHeader(f) => f.spec_filter(r),
            ResponseFilterRule::ReplaceHeader(f) => f.spec_filter(r),
            ResponseFilterRule::ReplaceBody(f) => f.spec_filter(r),
            ResponseFilterRule::JsonPath(f) => f.spec_filter(r),
            ResponseFilterRule::Other(f) => f.spec_filter(r),
        }
    }

    /// Whether the filter follows `rule_spec`.
    pub open spec fn rule_specified(&self) -> bool {
        match self {
            ResponseFilterRule::Other(f) => f.is_specified(),
            _ => true,
        }
    }

    /// Applies the filter.
    pub fn apply(&self, response: &mut RecordedResponse)
        ensures
            self.rule_specified() ==> final(response)@ == self.rule_spec(old(response)@),
    {
        match self {
            ResponseFilterRule::RemoveHeader(f) => f.filter(response),
            ResponseFilterRule::ReplaceHeader(f) => f.filter(response),
            ResponseFilterRule::ReplaceBody(f) => f.filter(response),
            ResponseFilterRule::JsonPath(f) => f.filter(response),
            ResponseFilterRule::Other(f) => f.filter(response),
        }
    }
}

/// A request after a chain of filters, applied first to last.
pub open spec fn request_chain(rules: Seq<RequestFilterRule>, r: RequestView) -> RequestView
    decreases rules.len(),
{
    if rules.len() == 0 {
        r
    } else {
        rules.last().rule_spec(request_chain(rules.drop_last(), r))
    }
}

/// A response after a chain of filters, applied first to last.
pub open spec fn response_chain(rules: Seq<ResponseFilterRule>, r: ResponseView) -> ResponseView
    decreases rules.len(),
{
    if rules.len() == 0 {
        r
    } else {
        rules.last().rule_spec(response_chain(rules.drop_last(), r))
    }
}

/// Every filter of a request chain follows its spec.
pub open spec fn request_chain_specified(rules: Seq<RequestFilterRule>) -> bool {
    forall|k: int| 0 <= k < rules.len() ==> (#[trigger] rules[k]).rule_specified()
}

/// Every filter of a response chain follows its spec.
pub open spec fn response_chain_specified(rules: Seq<ResponseFilterRule>) -> bool {
    forall|k: int| 0 <= k < rules.len() ==> (#[trigger] rules[k]).rule_specified()
}

/// Applies request filters in order.
pub fn apply_request_filters(rules: &Vec<RequestFilterRule>, request: &mut RecordedRequest)
    ensures
        request_chain_specified(rules@) ==> final(request)@ == request_chain(rules@, old(request)@),
{
    let ghost start = request@;
    let mut i: usize = 0;
    assert(rules@.take(0) =~= Seq::<RequestFilterRule>::empty());
    while i < rules.len()
        invariant
            i <= rules@.len(),
            request_chain_specified(rules@) ==> request@ == request_chain(rules@.take(i as int), start),
        decreases rules.len() - i,
    {
        rules[i].apply(request);
        assert(rules@.take(i + 1).drop_last() =~= rules@.take(i as int));
        proof {
            if request_chain_specified(rules@) {
                assert(rules@[i as int].rule_specified());
            }
        }
        i = i + 1;
    }
    assert(rules@.take(i as int) =~= rules@);
}

/// Applies response filters in order.
pub fn apply_response_filters(rules: &Vec<ResponseFilterRule>, response: &mut RecordedResponse)
    ensures
        response_chain_specified(rules@) ==> final(response)@ == response_chain(rules@, old(response)@),
{
    let ghost start = response@;
    let mut i: usize = 0;
    assert(rules@.take(0) =~= Seq::<ResponseFilterRule>::empty());
    while i < rules.len()
        invariant
            i <= rules@.len(),
            response_chain_specified(rules@) ==> response@ == response_chain(rules@.take(i as int), start),
        decreases rules.len() - i,
    {
        rules[i].apply(response);
        assert(rules@.take(i + 1).drop_last() =~= rules@.take(i as int));
        proof {
            if response_chain_specified(rules@) {
                assert(rules@[i as int].rule_specified());
            }
        }
        i = i + 1;
    }
    assert(rules@.take(i as int) =~= rules@);
}

impl From<RemoveRequestHeader> for RequestFilterRule {
    fn from(f: RemoveRequestHeader) -> (r: RequestFilterRule) {
        RequestFilterRule::RemoveHeader(f)
    }
}

impl vstd::std_specs::convert::FromSpecImpl<RemoveRequestHeader> for RequestFilterRule {
    open spec fn obeys_from_spec() -> bool {
        true
    }

    open spec fn from_spec(f: RemoveRequestHeader) -> RequestFilterRule {
        RequestFilterRule::RemoveHeader(f)
    }
}

impl From<ReplaceRequestHeader> for RequestFilterRule {
    fn from(f: ReplaceRequestHeader) -> (r: RequestFilterRule) {
        RequestFilterRule::ReplaceHeader(f)
    }
}

impl vstd::std_specs::convert::FromSpecImpl<ReplaceRequestHeader> for RequestFilterRule {
    open spec fn obeys_from_spec() -> bool {
        true
    }

    open spec fn from_spec(f: ReplaceRequestHeader) -> RequestFilterRule {
        RequestFilterRule::ReplaceHeader(f)
    }
}

impl From<ReplaceRequestBody> for RequestFilterRule {
    fn from(f: ReplaceRequestBody) -> (r: RequestFilterRule) {
        RequestFilterRule::ReplaceBody(f)
    }
}

impl vstd::std_specs::convert::FromSpecImpl<ReplaceRequestBody> for RequestFilterRule {
    open spec fn obeys_from_spec() -> bool {
        true
    }

    open spec fn from_spec(f: ReplaceRequestBody) -> RequestFilterRule {
        RequestFilterRule::ReplaceBody(f)
    }
}

impl From<JsonPathRequestFilter> for RequestFilterRule {
    fn from(f: JsonPathRequestFilter) -> (r: RequestFilterRule) {
        RequestFilterRule::JsonPath(f)
    }
}

impl vstd::std_specs::convert::FromSpecImpl<JsonPathRequestFilter> for RequestFilterRule {
    open spec fn obeys_from_spec() -> bool {
        true
    }

    open spec fn from_spec(f: JsonPathRequestFilter) -> RequestFilterRule {
        RequestFilterRule::JsonPath(f)
    }
}

impl From<Box<dyn RequestFilter>> for RequestFilterRule {
    fn from(f: Box<dyn RequestFilter>) -> (r: RequestFilterRule) {
        RequestFilterRule::Other(f)
    }
}

impl vstd::std_specs::convert::FromSpecImpl<Box<dyn RequestFilter>> for RequestFilterRule {
    open spec fn obeys_from_spec() -> bool {
        true
    }

    open spec fn from_spec(f: Box<dyn RequestFilter>) -> RequestFilterRule {
        RequestFilterRule::Other(f)
    }
}

impl From<RemoveResponseHeader> for ResponseFilterRule {
    fn from(f: RemoveResponseHeader) -> (r: ResponseFilterRule) {
        ResponseFilterRule::RemoveHeader(f)
    }
}

impl vstd::std_specs::convert::FromSpecImpl<RemoveResponseHeader> for ResponseFilterRule {
    open spec fn obeys_from_spec() -> bool {
        true
    }

    open spec fn from_spec(f: RemoveResponseHeader) -> ResponseFilterRule {
        ResponseFilterRule::RemoveHeader(f)
    }
}

impl From<ReplaceResponseHeader> for ResponseFilterRule {
    fn from(f: ReplaceResponseHeader) -> (r: ResponseFilterRule) {
        ResponseFilterRule::ReplaceHeader(f)
    }
}

impl vstd::std_specs::convert::FromSpecImpl<ReplaceResponseHeader> for ResponseFilterRule {
    open spec fn obeys_from_spec() -> bool {
        true
    }

    open spec fn from_spec(f: ReplaceResponseHeader) -> ResponseFilterRule {
        ResponseFilterRule::ReplaceHeader(f)
    }
}

impl From<ReplaceResponseBody> for ResponseFilterRule {
    fn from(f: ReplaceResponseBody) -> (r: ResponseFilterRule) {
        ResponseFilterRule::ReplaceBody(f)
    }
}

impl vstd::std_specs::convert::FromSpecImpl<ReplaceResponseBody> for ResponseFilterRule {
    open spec fn obeys_from_spec() -> bool {
        true
    }

    open spec fn from_spec(f: ReplaceResponseBody) -> ResponseFilterRule {
        ResponseFilterRule::ReplaceBody(f)
    }
}

impl From<JsonPathResponseFilter> for ResponseFilterRule {
    fn from(f: JsonPathResponseFilter) -> (r: ResponseFilterRule) {
        ResponseFilterRule::JsonPath(f)
    }
}

impl vstd::std_specs::convert::FromSpecImpl<JsonPathResponseFilter> for ResponseFilterRule {
    open spec fn obeys_from_spec() -> bool {
        true
    }

    open spec fn from_spec(f: JsonPathResponseFilter) -> ResponseFilterRule {
        ResponseFilterRule::JsonPath(f)
    }
}

impl From<Box<dyn ResponseFilter>> for ResponseFilterRule {
    fn from(f: Box<dyn ResponseFilter>) -> (r: ResponseFilterRule) {
        ResponseFilterRule::Other(f)
    }
}

impl vstd::std_specs::convert::FromSpecImpl<Box<dyn ResponseFilter>> for ResponseFilterRule {
    open spec fn obeys_from_spec() -> bool {
        true
    }

    open spec fn from_spec(f: Box<dyn ResponseFilter>) -> ResponseFilterRule {
        ResponseFilterRule::Other(f)
    }
}

} // verus!
