//! Request matching: deciding whether a recorded request answers an incoming one.

use vstd::prelude::*;
use crate::cassette::types::{Header, RecordedRequest, RequestView, headers_view};
use crate::order::{CharPair, StrPair, lemma_sorted_pairs_permutation, pair_order, pairs_view, sort_pairs};
use crate::json::{compare_json, json_compare};
use crate::text::{
    ascii_lower, chars_eq, chars_of, eq_ascii_ci, eq_ignore_ascii_case, lower_char, lowercase, opt_str_eq, str_eq,
    to_lowercase,
};
use crate::url_parts::{extract_path, normalize_url, normalized_url, url_path};

verus! {

/// Decides whether a recorded request matches an incoming request.
pub trait Matcher: Send + Sync {
    /// The rule this matcher applies, over the two requests' contents.
    spec fn spec_matches(&self, recorded: RequestView, incoming: RequestView) -> bool;

    /// Whether `matches` follows `spec_matches`; false for matchers built from a
    /// caller's function, whose rule is that function.
    spec fn is_specified(&self) -> bool;

    /// Checks whether `recorded` matches `incoming`.
    fn matches(&self, recorded: &RecordedRequest, incoming: &RecordedRequest) -> (b: bool)
        ensures
            self.is_specified() ==> b == self.spec_matches(recorded@, incoming@),
    ;

    /// The matcher's name.
    fn name(&self) -> &'static str;
}

/// Same method, ignoring ASCII case.
pub open spec fn same_method(r: RequestView, i: RequestView) -> bool {
    eq_ascii_ci(r.method, i.method)
}

/// Matches by HTTP method (ASCII case-insensitive).
#[derive(Debug, Default)]
pub struct MethodMatcher;

impl Matcher for MethodMatcher {
    open spec fn spec_matches(&self, recorded: RequestView, incoming: RequestView) -> bool {
        same_method(recorded, incoming)
    }

    open spec fn is_specified(&self) -> bool {
        true
    }

    fn matches(&self, recorded: &RecordedRequest, incoming: &RecordedRequest) -> (b: bool) {
        eq_ignore_ascii_case(recorded.method.as_str(), incoming.method.as_str())
    }

    fn name(&self) -> (s: &'static str)
        ensures
            s@ == "method"@,
    {
        "method"
    }
}

/// Matches by exact URL.
#[derive(Debug, Default)]
pub struct UrlMatcher;

impl Matcher for UrlMatcher {
    open spec fn spec_matches(&self, recorded: RequestView, incoming: RequestView) -> bool {
        recorded.url == incoming.url
    }

    open spec fn is_specified(&self) -> bool {
        true
    }

    fn matches(&self, recorded: &RecordedRequest, incoming: &RecordedRequest) -> (b: bool) {
        str_eq(recorded.url.as_str(), incoming.url.as_str())
    }

    fn name(&self) -> (s: &'static str)
        ensures
            s@ == "url"@,
    {
        "url"
    }
}

/// Matches by URL path only (host and query string are ignored).
#[derive(Debug, Default)]
pub struct PathMatcher;

impl Matcher for PathMatcher {
    open spec fn spec_matches(&self, recorded: RequestView, incoming: RequestView) -> bool {
        url_path(recorded.url) == url_path(incoming.url)
    }

    open spec fn is_specified(&self) -> bool {
        true
    }

    fn matches(&self, recorded: &RecordedRequest, incoming: &RecordedRequest) -> (b: bool) {
        let a = extract_path(recorded.url.as_str());
        let c = extract_path(incoming.url.as_str());
        str_eq(a.as_str(), c.as_str())
    }

    fn name(&self) -> (s: &'static str)
        ensures
            s@ == "path"@,
    {
        "path"
    }
}

/// Matches by body (both absent, or both present and equal).
#[derive(Debug, Default)]
pub struct BodyMatcher;

impl Matcher for BodyMatcher {
    open spec fn spec_matches(&self, recorded: RequestView, incoming: RequestView) -> bool {
        recorded.body == incoming.body
    }

    open spec fn is_specified(&self) -> bool {
        true
    }

    fn matches(&self, recorded: &RecordedRequest, incoming: &RecordedRequest) -> (b: bool) {
        opt_str_eq(&recorded.body, &incoming.body)
    }

    fn name(&self) -> (s: &'static str)
        ensures
            s@ == "body"@,
    {
        "body"
    }
}

/// The value of the first header whose lowercased name is `name`.
pub open spec fn first_header_value(headers: Seq<(Seq<char>, Seq<char>)>, name: Seq<char>) -> Option<Seq<char>>
    decreases headers.len(),
{
    if headers.len() == 0 {
        None
    } else if lowercase(headers[0].0) == name {
        Some(headers[0].1)
    } else {
        first_header_value(headers.drop_first(), name)
    }
}

/// Finds the value of the first header whose lowercased name is `name`.
pub fn find_header_value<'a>(headers: &'a Vec<crate::cassette::types::Header>, name: &str) -> (r: Option<&'a String>)
    ensures
        match r {
            Some(v) => first_header_value(headers_view(headers@), name@) == Some(v@),
            None => first_header_value(headers_view(headers@), name@) is None,
        },
{
    let mut i: usize = 0;
    assert(headers_view(headers@).skip(0) =~= headers_view(headers@));
    while i < headers.len()
        invariant
            i <= headers.len(),
            first_header_value(headers_view(headers@), name@) == first_header_value(
                headers_view(headers@).skip(i as int),
                name@,
            ),
        decreases headers.len() - i,
    {
        let lower = to_lowercase(headers[i].name.as_str());
        let ghost tail = headers_view(headers@).skip(i as int);
        assert(tail[0] == headers@[i as int]@);
        if str_eq(lower.as_str(), name) {
            return Some(&headers[i].value);
        }
        assert(tail.drop_first() =~= headers_view(headers@).skip(i + 1));
        i = i + 1;
    }
    None
}

/// Matches by the value of one header (name compared after lowercasing).
#[derive(Debug)]
pub struct HeaderMatcher {
    header_name: String,
}

impl HeaderMatcher {
    /// The lowercased header name this matcher compares.
    pub closed spec fn header_name_view(&self) -> Seq<char> {
        self.header_name@
    }

    /// Creates a header matcher for `header_name`.
    pub fn new(header_name: &str) -> (m: HeaderMatcher)
        ensures
            m.header_name_view() == lowercase(header_name@),
    {
        HeaderMatcher { header_name: to_lowercase(header_name) }
    }
}

impl Matcher for HeaderMatcher {
    open spec fn spec_matches(&self, recorded: RequestView, incoming: RequestView) -> bool {
        first_header_value(recorded.headers, self.header_name_view()) == first_header_value(
            incoming.headers,
            self.header_name_view(),
        )
    }

    open spec fn is_specified(&self) -> bool {
        true
    }

    fn matches(&self, recorded: &RecordedRequest, incoming: &RecordedRequest) -> (b: bool) {
        let a = find_header_value(&recorded.headers, self.header_name.as_str());
        let c = find_header_value(&incoming.headers, self.header_name.as_str());
        match (a, c) {
            (None, None) => true,
            (Some(x), Some(y)) => str_eq(x.as_str(), y.as_str()),
            _ => false,
        }
    }

    fn name(&self) -> (s: &'static str)
        ensures
            s@ == "header"@,
    {
        "header"
    }
}

/// Matches by URL and method (the default rule).
#[derive(Debug, Default)]
pub struct UrlMethodMatcher;

impl Matcher for UrlMethodMatcher {
    open spec fn spec_matches(&self, recorded: RequestView, incoming: RequestView) -> bool {
        same_method(recorded, incoming) && recorded.url == incoming.url
    }

    open spec fn is_specified(&self) -> bool {
        true
    }

    fn matches(&self, recorded: &RecordedRequest, incoming: &RecordedRequest) -> (b: bool) {
        eq_ignore_ascii_case(recorded.method.as_str(), incoming.method.as_str()) && str_eq(
            recorded.url.as_str(),
            incoming.url.as_str(),
        )
    }

    fn name(&self) -> (s: &'static str)
        ensures
            s@ == "url_method"@,
    {
        "url_method"
    }
}

/// Matches by method and by URL with its query parameters sorted, so parameter
/// order does not matter.
#[derive(Debug, Default)]
pub struct NormalizedUrlMethodMatcher;

impl Matcher for NormalizedUrlMethodMatcher {
    open spec fn spec_matches(&self, recorded: RequestView, incoming: RequestView) -> bool {
        same_method(recorded, incoming) && normalized_url(recorded.url) == normalized_url(incoming.url)
    }

    open spec fn is_specified(&self) -> bool {
        true
    }

    fn matches(&self, recorded: &RecordedRequest, incoming: &RecordedRequest) -> (b: bool) {
        if !eq_ignore_ascii_case(recorded.method.as_str(), incoming.method.as_str()) {
            return false;
        }
        let a = normalize_url(recorded.url.as_str());
        let c = normalize_url(incoming.url.as_str());
        str_eq(a.as_str(), c.as_str())
    }

    fn name(&self) -> (s: &'static str)
        ensures
            s@ == "normalized_url_method"@,
    {
        "normalized_url_method"
    }
}

/// Whether two bodies match as JSON: both absent; or both present and equal as
/// parsed JSON values, falling back to text equality when either is not JSON.
pub open spec fn json_bodies_match(a: Option<Seq<char>>, b: Option<Seq<char>>) -> bool {
    match (a, b) {
        (None, None) => true,
        (Some(x), Some(y)) => match json_compare(x, y) {
            Some(same) => same,
            None => x == y,
        },
        _ => false,
    }
}

/// Matches bodies structurally as JSON (key order and whitespace ignored);
/// non-JSON bodies are compared as text.
#[derive(Debug, Default)]
pub struct NormalizedJsonBodyMatcher;

impl Matcher for NormalizedJsonBodyMatcher {
    open spec fn spec_matches(&self, recorded: RequestView, incoming: RequestView) -> bool {
        json_bodies_match(recorded.body, incoming.body)
    }

    open spec fn is_specified(&self) -> bool {
        true
    }

    fn matches(&self, recorded: &RecordedRequest, incoming: &RecordedRequest) -> (b: bool) {
        match (&recorded.body, &incoming.body) {
            (None, None) => true,
            (Some(a), Some(c)) => match compare_json(a.as_str(), c.as_str()) {
                Some(same) => same,
                None => str_eq(a.as_str(), c.as_str()),
            },
            _ => false,
        }
    }

    fn name(&self) -> (s: &'static str)
        ensures
            s@ == "normalized_json_body"@,
    {
        "normalized_json_body"
    }
}

/// A header as the exact rule compares it: the name ASCII-lowercased, the value as is.
pub open spec fn header_key(h: (Seq<char>, Seq<char>)) -> StrPair {
    (ascii_lower(h.0), h.1)
}

/// The headers as the exact rule compares them.
pub open spec fn header_keys(hs: Seq<(Seq<char>, Seq<char>)>) -> Seq<StrPair> {
    hs.map_values(|h: (Seq<char>, Seq<char>)| header_key(h))
}

/// Two header lists hold the same headers, in any order and as often each: names
/// compared ignoring ASCII case, values exactly.
pub open spec fn same_headers(a: Seq<(Seq<char>, Seq<char>)>, b: Seq<(Seq<char>, Seq<char>)>) -> bool {
    header_keys(a).to_multiset() == header_keys(b).to_multiset()
}

/// Everything matches: method (ASCII case-insensitive), URL, body, and the headers as
/// multisets (see `same_headers`).
pub open spec fn exact_match(r: RequestView, i: RequestView) -> bool {
    &&& same_method(r, i)
    &&& r.url == i.url
    &&& r.body == i.body
    &&& same_headers(r.headers, i.headers)
}

/// The characters of a string, ASCII-lowercased.
fn lower_chars(s: &str) -> (r: Vec<char>)
    ensures
        r@ == ascii_lower(s@),
{
    let v = chars_of(s);
    let mut r: Vec<char> = Vec::new();
    let mut i: usize = 0;
    while i < v.len()
        invariant
            i <= v@.len(),
            v@ == s@,
            r@ == ascii_lower(v@.take(i as int)),
        decreases v.len() - i,
    {
        r.push(lower_char(v[i]));
        i = i + 1;
        assert(r@ =~= ascii_lower(v@.take(i as int)));
    }
    assert(v@.take(i as int) =~= v@);
    r
}

/// The headers as the exact rule compares them, as executable pairs.
fn exact_keys(hs: &Vec<Header>) -> (r: Vec<CharPair>)
    ensures
        pairs_view(r@) == header_keys(headers_view(hs@)),
{
    let mut r: Vec<CharPair> = Vec::new();
    let mut i: usize = 0;
    while i < hs.len()
        invariant
            i <= hs@.len(),
            pairs_view(r@) == header_keys(headers_view(hs@).take(i as int)),
        decreases hs.len() - i,
    {
        let ghost before = pairs_view(r@);
        let ghost h = headers_view(hs@)[i as int];
        assert(h == hs@[i as int]@);
        let name = lower_chars(hs[i].name.as_str());
        let value = chars_of(hs[i].value.as_str());
        r.push((name, value));
        assert(pairs_view(r@) =~= before.push(header_key(h)));
        assert(headers_view(hs@).take(i + 1) =~= headers_view(hs@).take(i as int).push(h));
        i = i + 1;
        assert(pairs_view(r@) =~= header_keys(headers_view(hs@).take(i as int)));
    }
    assert(headers_view(hs@).take(i as int) =~= headers_view(hs@));
    r
}

/// Whether two lists of executable pairs hold the same strings in the same order.
fn pairs_equal(a: &Vec<CharPair>, b: &Vec<CharPair>) -> (r: bool)
    ensures
        r == (pairs_view(a@) == pairs_view(b@)),
{
    if a.len() != b.len() {
        assert(pairs_view(a@).len() != pairs_view(b@).len());
        return false;
    }
    let mut i: usize = 0;
    while i < a.len()
        invariant
            i <= a@.len(),
            a@.len() == b@.len(),
            forall|j: int| 0 <= j < i ==> pairs_view(a@)[j] == pairs_view(b@)[j],
        decreases a.len() - i,
    {
        let k = chars_eq(a[i].0.as_slice(), b[i].0.as_slice());
        let v = chars_eq(a[i].1.as_slice(), b[i].1.as_slice());
        if !k || !v {
            assert(pairs_view(a@)[i as int] != pairs_view(b@)[i as int]);
            return false;
        }
        i = i + 1;
    }
    assert(pairs_view(a@) =~= pairs_view(b@));
    true
}

/// Matches method, URL, body and headers (header order does not matter).
#[derive(Debug, Default)]
pub struct ExactMatcher;

impl Matcher for ExactMatcher {
    open spec fn spec_matches(&self, recorded: RequestView, incoming: RequestView) -> bool {
        exact_match(recorded, incoming)
    }

    open spec fn is_specified(&self) -> bool {
        true
    }

    fn matches(&self, recorded: &RecordedRequest, incoming: &RecordedRequest) -> (b: bool) {
        if !eq_ignore_ascii_case(recorded.method.as_str(), incoming.method.as_str()) {
            return false;
        }
        if !str_eq(recorded.url.as_str(), incoming.url.as_str()) {
            return false;
        }
        if !opt_str_eq(&recorded.body, &incoming.body) {
            return false;
        }
        let ka = exact_keys(&recorded.headers);
        let kb = exact_keys(&incoming.headers);
        let ghost va = pairs_view(ka@);
        let ghost vb = pairs_view(kb@);
        let sa = sort_pairs(ka);
        let sb = sort_pairs(kb);
        let same = pairs_equal(&sa, &sb);
        proof {
            crate::order::lemma_pair_order_total();
            va.lemma_sort_by_ensures(pair_order());
            vb.lemma_sort_by_ensures(pair_order());
            if va.to_multiset() == vb.to_multiset() {
                lemma_sorted_pairs_permutation(va, vb);
            }
        }
        same
    }

    fn name(&self) -> (s: &'static str)
        ensures
            s@ == "exact"@,
    {
        "exact"
    }
}

/// A matcher held by a composite: one of the built-in rules, or any other matcher.
pub enum Rule {
    /// `MethodMatcher`.
    Method,
    /// `UrlMatcher`.
    Url,
    /// `PathMatcher`.
    Path,
    /// `BodyMatcher`.
    Body,
    /// A `HeaderMatcher`.
    Header(HeaderMatcher),
    /// `UrlMethodMatcher`.
    UrlMethod,
    /// `NormalizedUrlMethodMatcher`.
    NormalizedUrlMethod,
    /// `NormalizedJsonBodyMatcher`.
    NormalizedJsonBody,
    /// `ExactMatcher`.
    Exact,
    /// A nested composite: all of these rules.
    All(Vec<Rule>),
    /// Any other matcher (custom functions, matchers defined elsewhere).
    Other(Box<dyn Matcher>),
}

/// Whether every rule's decision is stated.
pub open spec fn rules_specified(rules: Seq<Rule>) -> bool
    decreases rules,
{
    if rules.len() == 0 {
        true
    } else {
        rules_specified(rules.drop_last()) && rules[rules.len() - 1].rule_specified()
    }
}

/// Whether every rule accepts the pair of requests.
pub open spec fn rules_match(rules: Seq<Rule>, recorded: RequestView, incoming: RequestView) -> bool
    decreases rules,
{
    if rules.len() == 0 {
        true
    } else {
        rules_match(rules.drop_last(), recorded, incoming) && rules[rules.len() - 1].rule_matches(recorded, incoming)
    }
}

/// `rules_specified` holds exactly when each rule's decision is stated.
pub proof fn lemma_rules_specified(rules: Seq<Rule>)
    ensures
        rules_specified(rules) == forall|k: int| 0 <= k < rules.len() ==> #[trigger] rules[k].rule_specified(),
    decreases rules.len(),
{
    if rules.len() > 0 {
        let init = rules.drop_last();
        let n = rules.len() - 1;
        lemma_rules_specified(init);
        if rules_specified(rules) {
            assert forall|k: int| 0 <= k < rules.len() implies #[trigger] rules[k].rule_specified() by {
                if k < n {
                    assert(init[k] == rules[k]);
                    assert(init[k].rule_specified());
                }
            }
        }
        if forall|k: int| 0 <= k < rules.len() ==> #[trigger] rules[k].rule_specified() {
            assert forall|k: int| 0 <= k < init.len() implies #[trigger] init[k].rule_specified() by {
                assert(init[k] == rules[k]);
                assert(rules[k].rule_specified());
            }
            assert(rules[n].rule_specified());
        }
    }
}

/// `rules_match` holds exactly when each rule accepts the pair of requests.
pub proof fn lemma_rules_match(rules: Seq<Rule>, recorded: RequestView, incoming: RequestView)
    ensures
        rules_match(rules, recorded, incoming) == forall|k: int|
            0 <= k < rules.len() ==> #[trigger] rules[k].rule_matches(recorded, incoming),
    decreases rules.len(),
{
    if rules.len() > 0 {
        let init = rules.drop_last();
        let n = rules.len() - 1;
        lemma_rules_match(init, recorded, incoming);
        if rules_match(rules, recorded, incoming) {
            assert forall|k: int| 0 <= k < rules.len() implies #[trigger] rules[k].rule_matches(recorded, incoming) by {
                if k < n {
                    assert(init[k] == rules[k]);
                    assert(init[k].rule_matches(recorded, incoming));
                }
            }
        }
        if forall|k: int| 0 <= k < rules.len() ==> #[trigger] rules[k].rule_matches(recorded, incoming) {
            assert forall|k: int| 0 <= k < init.len() implies #[trigger] init[k].rule_matches(recorded, incoming) by {
                assert(init[k] == rules[k]);
                assert(rules[k].rule_matches(recorded, incoming));
            }
            assert(rules[n].rule_matches(recorded, incoming));
        }
    }
}

impl Rule {
    /// Whether this rule's decision is stated by `rule_matches`.
    pub open spec fn rule_specified(&self) -> bool
        decreases self,
    {
        match self {
            Rule::Header(h) => h.is_specified(),
            Rule::All(rs) => rules_specified(rs@),
            Rule::Other(_) => false,
            _ => true,
        }
    }

    /// The decision of a built-in rule.
    pub open spec fn rule_matches(&self, recorded: RequestView, incoming: RequestView) -> bool
        decreases self,
    {
        match self {
            Rule::Method => same_method(recorded, incoming),
            Rule::Url => recorded.url == incoming.url,
            Rule::Path => url_path(recorded.url) == url_path(incoming.url),
            Rule::Body => recorded.body == incoming.body,
            Rule::Header(h) => h.spec_matches(recorded, incoming),
            Rule::UrlMethod => same_method(recorded, incoming) && recorded.url == incoming.url,
            Rule::NormalizedUrlMethod => same_method(recorded, incoming) && normalized_url(recorded.url)
                == normalized_url(incoming.url),
            Rule::NormalizedJsonBody => json_bodies_match(recorded.body, incoming.body),
            Rule::Exact => exact_match(recorded, incoming),
            Rule::All(rs) => rules_match(rs@, recorded, incoming),
            Rule::Other(_) => false,
        }
    }

    /// Applies the rule.
    pub fn check(&self, recorded: &RecordedRequest, incoming: &RecordedRequest) -> (b: bool)
        ensures
            self.rule_specified() ==> b == self.rule_matches(recorded@, incoming@),
        decreases self,
    {
        match self {
            Rule::Method => MethodMatcher.matches(recorded, incoming),
            Rule::Url => UrlMatcher.matches(recorded, incoming),
            Rule::Path => PathMatcher.matches(recorded, incoming),
            Rule::Body => BodyMatcher.matches(recorded, incoming),
            Rule::Header(h) => h.matches(recorded, incoming),
            Rule::UrlMethod => UrlMethodMatcher.matches(recorded, incoming),
            Rule::NormalizedUrlMethod => NormalizedUrlMethodMatcher.matches(recorded, incoming),
            Rule::NormalizedJsonBody => NormalizedJsonBodyMatcher.matches(recorded, incoming),
            Rule::Exact => ExactMatcher.matches(recorded, incoming),
            Rule::All(rs) => check_all(rs, recorded, incoming),
            Rule::Other(m) => m.matches(recorded, incoming),
        }
    }
}

/// Consults the rules in order and stops at the first that rejects: on `true` every
/// rule whose decision is stated accepted; on `false` some rule rejected (when its
/// decision is stated) after all before it accepted.
pub fn check_all(rules: &Vec<Rule>, recorded: &RecordedRequest, incoming: &RecordedRequest) -> (b: bool)
    ensures
        rules_specified(rules@) ==> b == rules_match(rules@, recorded@, incoming@),
        b ==> forall|k: int|
            0 <= k < rules@.len() && (#[trigger] rules@[k]).rule_specified() ==> rules@[k].rule_matches(
                recorded@,
                incoming@,
            ),
        !b ==> exists|k: int|
            0 <= k < rules@.len() && ((#[trigger] rules@[k]).rule_specified() ==> !rules@[k].rule_matches(
                recorded@,
                incoming@,
            )) && forall|j: int|
                0 <= j < k && (#[trigger] rules@[j]).rule_specified() ==> rules@[j].rule_matches(
                    recorded@,
                    incoming@,
                ),
    decreases rules,
{
    let mut k: usize = 0;
    while k < rules.len()
        invariant
            k <= rules@.len(),
            forall|j: int|
                0 <= j < k && (#[trigger] rules@[j]).rule_specified() ==> rules@[j].rule_matches(
                    recorded@,
                    incoming@,
                ),
        decreases rules.len() - k,
    {
        if !rules[k].check(recorded, incoming) {
            proof {
                lemma_rules_specified(rules@);
                lemma_rules_match(rules@, recorded@, incoming@);
                if rules_specified(rules@) {
                    assert(rules@[k as int].rule_specified());
                    assert(!rules@[k as int].rule_matches(recorded@, incoming@));
                }
            }
            return false;
        }
        k = k + 1;
    }
    proof {
        lemma_rules_specified(rules@);
        lemma_rules_match(rules@, recorded@, incoming@);
        if rules_specified(rules@) {
            assert forall|j: int| 0 <= j < rules@.len() implies #[trigger] rules@[j].rule_matches(
                recorded@,
                incoming@,
            ) by {
                assert(rules@[j].rule_specified());
            }
        }
    }
    true
}

impl From<MethodMatcher> for Rule {
    fn from(m: MethodMatcher) -> (r: Rule) {
        Rule::Method
    }
}

impl vstd::std_specs::convert::FromSpecImpl<MethodMatcher> for Rule {
    open spec fn obeys_from_spec() -> bool {
        true
    }

    open spec fn from_spec(m: MethodMatcher) -> Rule {
        Rule::Method
    }
}

impl From<UrlMatcher> for Rule {
    fn from(m: UrlMatcher) -> (r: Rule) {
        Rule::Url
    }
}

impl vstd::std_specs::convert::FromSpecImpl<UrlMatcher> for Rule {
    open spec fn obeys_from_spec() -> bool {
        true
    }

    open spec fn from_spec(m: UrlMatcher) -> Rule {
        Rule::Url
    }
}

impl From<PathMatcher> for Rule {
    fn from(m: PathMatcher) -> (r: Rule) {
        Rule::Path
    }
}

impl vstd::std_specs::convert::FromSpecImpl<PathMatcher> for Rule {
    open spec fn obeys_from_spec() -> bool {
        true
    }

    open spec fn from_spec(m: PathMatcher) -> Rule {
        Rule::Path
    }
}

impl From<BodyMatcher> for Rule {
    fn from(m: BodyMatcher) -> (r: Rule) {
        Rule::Body
    }
}

impl vstd::std_specs::convert::FromSpecImpl<BodyMatcher> for Rule {
    open spec fn obeys_from_spec() -> bool {
        true
    }

    open spec fn from_spec(m: BodyMatcher) -> Rule {
        Rule::Body
    }
}

impl From<HeaderMatcher> for Rule {
    fn from(m: HeaderMatcher) -> (r: Rule) {
        Rule::Header(m)
    }
}

impl vstd::std_specs::convert::FromSpecImpl<HeaderMatcher> for Rule {
    open spec fn obeys_from_spec() -> bool {
        true
    }

    open spec fn from_spec(m: HeaderMatcher) -> Rule {
        Rule::Header(m)
    }
}

impl From<UrlMethodMatcher> for Rule {
    fn from(m: UrlMethodMatcher) -> (r: Rule) {
        Rule::UrlMethod
    }
}

impl vstd::std_specs::convert::FromSpecImpl<UrlMethodMatcher> for Rule {
    open spec fn obeys_from_spec() -> bool {
        true
    }

    open spec fn from_spec(m: UrlMethodMatcher) -> Rule {
        Rule::UrlMethod
    }
}

impl From<NormalizedUrlMethodMatcher> for Rule {
    fn from(m: NormalizedUrlMethodMatcher) -> (r: Rule) {
        Rule::NormalizedUrlMethod
    }
}

impl vstd::std_specs::convert::FromSpecImpl<NormalizedUrlMethodMatcher> for Rule {
    open spec fn obeys_from_spec() -> bool {
        true
    }

    open spec fn from_spec(m: NormalizedUrlMethodMatcher) -> Rule {
        Rule::NormalizedUrlMethod
    }
}

impl From<NormalizedJsonBodyMatcher> for Rule {
    fn from(m: NormalizedJsonBodyMatcher) -> (r: Rule) {
        Rule::NormalizedJsonBody
    }
}

impl vstd::std_specs::convert::FromSpecImpl<NormalizedJsonBodyMatcher> for Rule {
    open spec fn obeys_from_spec() -> bool {
        true
    }

    open spec fn from_spec(m: NormalizedJsonBodyMatcher) -> Rule {
        Rule::NormalizedJsonBody
    }
}

impl From<ExactMatcher> for Rule {
    fn from(m: ExactMatcher) -> (r: Rule) {
        Rule::Exact
    }
}

impl vstd::std_specs::convert::FromSpecImpl<ExactMatcher> for Rule {
    open spec fn obeys_from_spec() -> bool {
        true
    }

    open spec fn from_spec(m: ExactMatcher) -> Rule {
        Rule::Exact
    }
}

impl<F> From<CustomMatcher<F>> for Rule where F: Fn(&RecordedRequest, &RecordedRequest) -> bool + Send + Sync + 'static {
    fn from(m: CustomMatcher<F>) -> (r: Rule) {
        Rule::Other(Box::new(m))
    }
}

impl<F> vstd::std_specs::convert::FromSpecImpl<CustomMatcher<F>> for Rule where F: Fn(&RecordedRequest, &RecordedRequest) -> bool + Send + Sync + 'static {
    /// A custom matcher's rule is its function, which no spec states.
    open spec fn obeys_from_spec() -> bool {
        false
    }

    open spec fn from_spec(m: CustomMatcher<F>) -> Rule {
        arbitrary()
    }
}

impl From<AllMatcher> for Rule {
    fn from(m: AllMatcher) -> (r: Rule) {
        Rule::All(m.rules)
    }
}

impl vstd::std_specs::convert::FromSpecImpl<AllMatcher> for Rule {
    /// A nested composite is held as its rules.
    open spec fn obeys_from_spec() -> bool {
        true
    }

    closed spec fn from_spec(m: AllMatcher) -> Rule {
        Rule::All(m.rules)
    }
}

/// Matches with a caller-supplied function.
pub struct CustomMatcher<F> where F: Fn(&RecordedRequest, &RecordedRequest) -> bool + Send + Sync {
    matcher_fn: F,
}

impl<F> CustomMatcher<F> where F: Fn(&RecordedRequest, &RecordedRequest) -> bool + Send + Sync {
    /// The function is callable on any pair of requests.
    #[verifier::type_invariant]
    closed spec fn callable(self) -> bool {
        forall|a: &RecordedRequest, b: &RecordedRequest| call_requires(self.matcher_fn, (a, b))
    }

    /// The function this matcher applies.
    pub closed spec fn function(self) -> F {
        self.matcher_fn
    }

    /// Creates a matcher from a function.
    pub fn new(matcher_fn: F) -> (m: Self)
        requires
            forall|a: &RecordedRequest, b: &RecordedRequest| call_requires(matcher_fn, (a, b)),
        ensures
            m.function() == matcher_fn,
    {
        CustomMatcher { matcher_fn }
    }
}

impl<F> Matcher for CustomMatcher<F> where F: Fn(&RecordedRequest, &RecordedRequest) -> bool + Send + Sync {
    open spec fn spec_matches(&self, recorded: RequestView, incoming: RequestView) -> bool {
        false
    }

    open spec fn is_specified(&self) -> bool {
        false
    }

    fn matches(&self, recorded: &RecordedRequest, incoming: &RecordedRequest) -> (b: bool)
        ensures
            call_ensures(self.function(), (recorded, incoming), b),
    {
        proof {
            use_type_invariant(self);
        }
        (self.matcher_fn)(recorded, incoming)
    }

    fn name(&self) -> (s: &'static str)
        ensures
            s@ == "custom"@,
    {
        "custom"
    }
}

/// Requires every one of its matchers to match.
#[derive(Default)]
pub struct AllMatcher {
    rules: Vec<Rule>,
}

impl AllMatcher {
    /// The rules, in the order they were added.
    pub closed spec fn parts(&self) -> Seq<Rule> {
        self.rules@
    }

    /// A composite with no matchers (which matches everything).
    pub fn new() -> (m: Self)
        ensures
            m.parts().len() == 0,
    {
        AllMatcher { rules: Vec::new() }
    }

    /// Adds a matcher.
    pub fn add<M>(self, matcher: M) -> (m: Self) where Rule: From<M>
        ensures
            m.parts().len() == self.parts().len() + 1,
            m.parts().drop_last() == self.parts(),
            <Rule as vstd::std_specs::convert::FromSpec<M>>::obeys_from_spec() ==> m.parts().last()
                == <Rule as vstd::std_specs::convert::FromSpec<M>>::from_spec(matcher),
    {
        let rule = Rule::from(matcher);
        let mut rules = self.rules;
        rules.push(rule);
        assert(rules@.drop_last() =~= self.rules@);
        AllMatcher { rules }
    }

    /// Method and URL matchers: the default rule.
    pub fn default_matchers() -> (m: Self)
        ensures
            m.is_specified(),
            forall|r: RequestView, i: RequestView|
                m.spec_matches(r, i) == (same_method(r, i) && r.url == i.url),
    {
        let m = Self::new().add(MethodMatcher).add(UrlMatcher);
        proof {
            let p = m.parts();
            reveal_with_fuel(rules_specified, 3);
            reveal_with_fuel(rules_match, 3);
            assert(p.len() == 2);
            assert(p.drop_last().drop_last() =~= Seq::<Rule>::empty());
            assert(p.drop_last()[0] == p[0]);
            assert forall|r: RequestView, i: RequestView|
                m.spec_matches(r, i) == (same_method(r, i) && r.url == i.url) by {
                assert(p[0].rule_matches(r, i) == same_method(r, i));
                assert(p[1].rule_matches(r, i) == (r.url == i.url));
            }
        }
        m
    }
}

impl Matcher for AllMatcher {
    open spec fn spec_matches(&self, recorded: RequestView, incoming: RequestView) -> bool {
        rules_match(self.parts(), recorded, incoming)
    }

    open spec fn is_specified(&self) -> bool {
        rules_specified(self.parts())
    }

    /// Consults the rules in the order they were added and stops at the first that
    /// rejects (see `check_all`).
    fn matches(&self, recorded: &RecordedRequest, incoming: &RecordedRequest) -> (b: bool)
        ensures
            b ==> forall|k: int|
                0 <= k < self.parts().len() && (#[trigger] self.parts()[k]).rule_specified() ==> self.parts()[k].rule_matches(
                    recorded@,
                    incoming@,
                ),
            !b ==> exists|k: int|
                0 <= k < self.parts().len() && ((#[trigger] self.parts()[k]).rule_specified() ==> !self.parts()[k].rule_matches(
                    recorded@,
                    incoming@,
                )) && forall|j: int|
                    0 <= j < k && (#[trigger] self.parts()[j]).rule_specified() ==> self.parts()[j].rule_matches(
                        recorded@,
                        incoming@,
                    ),
    {
        let b = check_all(&self.rules, recorded, incoming);
        assert(self.parts() == self.rules@);
        b
    }

    fn name(&self) -> (s: &'static str)
        ensures
            s@ == "all"@,
    {
        "all"
    }
}

/// Whether a rule decides alone and by the library's own logic: not `Other`, not
/// `NormalizedJsonBody` (which rests on serde_json's equality), and, for a nested
/// composite, the same of each of its rules.
pub open spec fn builtin_rule(rule: Rule) -> bool
    decreases rule,
{
    match rule {
        Rule::Other(_) => false,
        Rule::NormalizedJsonBody => false,
        Rule::All(rs) => builtin_rules(rs@),
        _ => true,
    }
}

/// Whether every rule is `builtin_rule`.
pub open spec fn builtin_rules(rules: Seq<Rule>) -> bool
    decreases rules,
{
    if rules.len() == 0 {
        true
    } else {
        builtin_rules(rules.drop_last()) && builtin_rule(rules[rules.len() - 1])
    }
}

/// A request matches itself under every such rule, so a recorded request is found
/// again for the same request.
pub proof fn lemma_rule_reflexive(rule: Rule, r: RequestView)
    requires
        builtin_rule(rule),
    ensures
        rule.rule_matches(r, r),
    decreases rule,
{
    assert(eq_ascii_ci(r.method, r.method));
    match rule {
        Rule::All(rs) => {
            lemma_rules_reflexive(rs@, r);
        },
        _ => {},
    }
}

/// A request matches itself under a list of such rules.
pub proof fn lemma_rules_reflexive(rules: Seq<Rule>, r: RequestView)
    requires
        builtin_rules(rules),
    ensures
        rules_match(rules, r, r),
    decreases rules,
{
    if rules.len() > 0 {
        lemma_rules_reflexive(rules.drop_last(), r);
        lemma_rule_reflexive(rules[rules.len() - 1], r);
    }
}

/// A composite of such rules matches a request against itself.
pub proof fn lemma_all_matcher_reflexive(m: &AllMatcher, r: RequestView)
    requires
        builtin_rules(m.parts()),
    ensures
        m.spec_matches(r, r),
{
    lemma_rules_reflexive(m.parts(), r);
}

/// Adding a rule to a composite narrows it by exactly that rule: the new composite
/// accepts a pair of requests when the old one does and the rule does, and its
/// decision is stated when the old one's and the rule's are. The rule may be any
/// built-in one or a nested composite (held as its rules).
pub proof fn lemma_all_matcher_add(
    before: &AllMatcher,
    after: &AllMatcher,
    rule: Rule,
    recorded: RequestView,
    incoming: RequestView,
)
    requires
        after.parts() == before.parts().push(rule),
    ensures
        after.spec_matches(recorded, incoming) == (before.spec_matches(recorded, incoming) && rule.rule_matches(
            recorded,
            incoming,
        )),
        after.is_specified() == (before.is_specified() && rule.rule_specified()),
{
    assert(after.parts().drop_last() =~= before.parts());
    assert(after.parts()[after.parts().len() - 1] == rule);
}

/// The path matcher compares URLs of the form `scheme://host/path` by their paths
/// exactly, character for character (no case folding): it accepts two such requests
/// exactly when their paths are the same text.
pub proof fn lemma_path_matcher_exact(
    recorded: RequestView,
    incoming: RequestView,
    scheme1: Seq<char>,
    host1: Seq<char>,
    path1: Seq<char>,
    scheme2: Seq<char>,
    host2: Seq<char>,
    path2: Seq<char>,
)
    requires
        !scheme1.contains(':'),
        !host1.contains('/'),
        path1.len() > 0,
        path1[0] == '/',
        !path1.contains('?'),
        !scheme2.contains(':'),
        !host2.contains('/'),
        path2.len() > 0,
        path2[0] == '/',
        !path2.contains('?'),
        recorded.url == scheme1 + seq![':', '/', '/'] + host1 + path1,
        incoming.url == scheme2 + seq![':', '/', '/'] + host2 + path2,
    ensures
        PathMatcher.spec_matches(recorded, incoming) == (path1 == path2),
{
    crate::url_parts::lemma_path_match_exact(scheme1, host1, path1, scheme2, host2, path2);
}

} // verus!
