use mockingbird::cassette::RecordedRequest;
use mockingbird::matcher::{
    AllMatcher, BodyMatcher, CustomMatcher, ExactMatcher, HeaderMatcher, Matcher, MethodMatcher,
    NormalizedJsonBodyMatcher, NormalizedUrlMethodMatcher, PathMatcher, UrlMatcher, UrlMethodMatcher,
};
use mockingbird::url_parts::{extract_path, normalize_url};

fn req(method: &str, url: &str) -> RecordedRequest {
    RecordedRequest::new(method, url)
}

fn with_body(method: &str, url: &str, body: &str) -> RecordedRequest {
    let mut r = req(method, url);
    r.body = Some(body.to_string());
    r
}

#[test]
fn mod_test_method_matcher() {
    let matcher = MethodMatcher;
    assert!(matcher.matches(&req("GET", "http://a.com"), &req("GET", "http://b.com")));
    assert!(matcher.matches(&req("GET", "http://a.com"), &req("get", "http://b.com")));
    assert!(!matcher.matches(&req("GET", "http://a.com"), &req("POST", "http://a.com")));
}

#[test]
fn matcher_test_test_method_matcher() {
    let matcher = MethodMatcher;
    assert!(matcher.matches(&req("GET", "http://a.com"), &req("GET", "http://b.com")));
    assert!(matcher.matches(&req("GET", "http://a.com"), &req("get", "http://b.com")));
    assert!(!matcher.matches(&req("GET", "http://a.com"), &req("POST", "http://a.com")));
    assert_eq!(matcher.name(), "method");
}

#[test]
fn mod_test_url_matcher() {
    let matcher = UrlMatcher;
    assert!(matcher.matches(&req("GET", "http://a.com"), &req("GET", "http://a.com")));
    assert!(!matcher.matches(&req("GET", "http://a.com"), &req("GET", "http://b.com")));
}

#[test]
fn matcher_test_test_url_matcher() {
    let matcher = UrlMatcher;
    assert!(matcher.matches(&req("GET", "http://a.com"), &req("GET", "http://a.com")));
    assert!(!matcher.matches(&req("GET", "http://a.com"), &req("GET", "http://b.com")));
    assert!(matcher.matches(&req("GET", "http://a.com"), &req("POST", "http://a.com")));
    assert_eq!(matcher.name(), "url");
}

#[test]
fn mod_test_path_matcher() {
    let matcher = PathMatcher;
    assert!(matcher.matches(&req("GET", "http://a.com/path"), &req("GET", "http://b.com/path")));
    assert!(matcher.matches(&req("GET", "http://a.com/path?a=1"), &req("GET", "http://a.com/path?b=2")));
    assert!(!matcher.matches(&req("GET", "http://a.com/path1"), &req("GET", "http://a.com/path2")));
}

#[test]
fn matcher_test_test_path_matcher() {
    let matcher = PathMatcher;
    assert!(matcher.matches(&req("GET", "http://a.com/path"), &req("GET", "http://b.com/path")));
    assert!(matcher.matches(&req("GET", "http://a.com/path?a=1"), &req("GET", "http://a.com/path?b=2")));
    assert!(!matcher.matches(&req("GET", "http://a.com/path1"), &req("GET", "http://a.com/path2")));
    assert_eq!(matcher.name(), "path");
}

#[test]
fn mod_test_body_matcher() {
    let matcher = BodyMatcher;
    let r1 = with_body("POST", "http://a.com", "hello");
    let r2 = with_body("POST", "http://a.com", "hello");
    let r3 = with_body("POST", "http://a.com", "world");
    assert!(matcher.matches(&r1, &r2));
    assert!(!matcher.matches(&r1, &r3));
}

#[test]
fn matcher_test_test_body_matcher() {
    let matcher = BodyMatcher;
    let r1 = with_body("POST", "http://a.com", "hello");
    let r2 = with_body("POST", "http://a.com", "hello");
    let r3 = with_body("POST", "http://a.com", "world");
    let r4 = req("POST", "http://a.com");
    assert!(matcher.matches(&r1, &r2));
    assert!(!matcher.matches(&r1, &r3));
    assert!(matcher.matches(&r4, &req("POST", "http://a.com")));
    assert!(!matcher.matches(&r1, &r4));
    assert_eq!(matcher.name(), "body");
}

#[test]
fn mod_test_header_matcher() {
    let matcher = HeaderMatcher::new("content-type");
    let r1 = req("POST", "http://a.com").header("Content-Type", "application/json");
    let r2 = req("POST", "http://a.com").header("content-type", "application/json");
    let r3 = req("POST", "http://a.com").header("Content-Type", "text/plain");
    assert!(matcher.matches(&r1, &r2));
    assert!(!matcher.matches(&r1, &r3));
}

#[test]
fn matcher_test_test_header_matcher() {
    let matcher = HeaderMatcher::new("content-type");
    let r1 = req("POST", "http://a.com").header("Content-Type", "application/json");
    let r2 = req("POST", "http://a.com").header("content-type", "application/json");
    let r3 = req("POST", "http://a.com").header("Content-Type", "text/plain");
    let r4 = req("POST", "http://a.com");
    assert!(matcher.matches(&r1, &r2));
    assert!(!matcher.matches(&r1, &r3));
    assert!(matcher.matches(&r4, &req("POST", "http://a.com")));
    assert_eq!(matcher.name(), "header");
}

#[test]
fn test_all_matcher() {
    let matcher = AllMatcher::default_matchers();
    assert!(matcher.matches(&req("GET", "http://a.com"), &req("GET", "http://a.com")));
    assert!(!matcher.matches(&req("GET", "http://a.com"), &req("POST", "http://a.com")));
    assert!(!matcher.matches(&req("GET", "http://a.com"), &req("GET", "http://b.com")));
}

#[test]
fn test_all_matcher_default() {
    let matcher = AllMatcher::default_matchers();
    assert!(matcher.matches(&req("GET", "http://a.com"), &req("GET", "http://a.com")));
    assert!(!matcher.matches(&req("GET", "http://a.com"), &req("POST", "http://a.com")));
    assert!(!matcher.matches(&req("GET", "http://a.com"), &req("GET", "http://b.com")));
    assert_eq!(matcher.name(), "all");
}

#[test]
fn test_all_matcher_custom() {
    let matcher = AllMatcher::new().add(MethodMatcher).add(PathMatcher);
    assert!(matcher.matches(&req("GET", "http://a.com/api"), &req("GET", "http://b.com/api")));
    assert!(!matcher.matches(&req("GET", "http://a.com/api"), &req("POST", "http://a.com/api")));
}

#[test]
fn test_extract_path() {
    assert_eq!(extract_path("http://example.com/path"), "/path");
    assert_eq!(extract_path("http://example.com/path?query=1"), "/path");
    assert_eq!(extract_path("https://example.com/a/b/c"), "/a/b/c");
    assert_eq!(extract_path("http://example.com"), "/");
}

#[test]
fn mod_test_url_method_matcher() {
    let matcher = UrlMethodMatcher;
    assert!(matcher.matches(&req("GET", "http://a.com"), &req("GET", "http://a.com")));
    assert!(!matcher.matches(&req("GET", "http://a.com"), &req("POST", "http://a.com")));
    assert!(!matcher.matches(&req("GET", "http://a.com"), &req("GET", "http://b.com")));
    assert!(matcher.matches(&req("GET", "http://a.com"), &req("get", "http://a.com")));
}

#[test]
fn matcher_test_test_url_method_matcher() {
    let matcher = UrlMethodMatcher;
    assert!(matcher.matches(&req("GET", "http://a.com"), &req("GET", "http://a.com")));
    assert!(matcher.matches(&req("GET", "http://a.com"), &req("get", "http://a.com")));
    assert!(!matcher.matches(&req("GET", "http://a.com"), &req("POST", "http://a.com")));
    assert!(!matcher.matches(&req("GET", "http://a.com"), &req("GET", "http://b.com")));
    assert_eq!(matcher.name(), "url_method");
}

#[test]
fn mod_test_exact_matcher_basic() {
    let matcher = ExactMatcher;
    assert!(matcher.matches(&req("GET", "http://a.com"), &req("GET", "http://a.com")));
}

#[test]
fn matcher_test_test_exact_matcher_basic() {
    let matcher = ExactMatcher;
    assert!(matcher.matches(&req("GET", "http://a.com"), &req("GET", "http://a.com")));
    assert_eq!(matcher.name(), "exact");
}

fn exact_header_requests() -> (RecordedRequest, RecordedRequest, RecordedRequest) {
    let r1 = req("GET", "http://a.com").header("Content-Type", "application/json").header("Accept", "application/json");
    let r2 = req("GET", "http://a.com").header("Accept", "application/json").header("Content-Type", "application/json");
    let r3 = req("GET", "http://a.com").header("Content-Type", "application/json");
    (r1, r2, r3)
}

#[test]
fn mod_test_exact_matcher_headers() {
    let matcher = ExactMatcher;
    let (r1, r2, r3) = exact_header_requests();
    assert!(matcher.matches(&r1, &r2));
    assert!(!matcher.matches(&r1, &r3));
}

#[test]
fn matcher_test_test_exact_matcher_headers() {
    let matcher = ExactMatcher;
    let (r1, r2, r3) = exact_header_requests();
    assert!(matcher.matches(&r1, &r2));
    assert!(!matcher.matches(&r1, &r3));
}

#[test]
fn mod_test_exact_matcher_body() {
    let matcher = ExactMatcher;
    let r1 = with_body("POST", "http://a.com", "hello");
    let r2 = with_body("POST", "http://a.com", "hello");
    let r3 = with_body("POST", "http://a.com", "world");
    assert!(matcher.matches(&r1, &r2));
    assert!(!matcher.matches(&r1, &r3));
}

#[test]
fn matcher_test_test_exact_matcher_body() {
    let matcher = ExactMatcher;
    let r1 = with_body("POST", "http://a.com", "hello");
    let r2 = with_body("POST", "http://a.com", "hello");
    let r3 = with_body("POST", "http://a.com", "world");
    assert!(matcher.matches(&r1, &r2));
    assert!(!matcher.matches(&r1, &r3));
}

#[test]
fn mod_test_custom_matcher() {
    let matcher = CustomMatcher::new(|recorded, incoming| extract_path(&recorded.url) == extract_path(&incoming.url));
    assert!(matcher.matches(&req("GET", "http://a.com/path"), &req("POST", "http://b.com/path")));
    assert!(!matcher.matches(&req("GET", "http://a.com/path1"), &req("GET", "http://a.com/path2")));
}

#[test]
fn matcher_test_test_custom_matcher() {
    let matcher = CustomMatcher::new(|recorded, incoming| {
        recorded.url.split('?').next() == incoming.url.split('?').next()
    });
    assert!(matcher.matches(&req("GET", "http://a.com/path?a=1"), &req("POST", "http://a.com/path?b=2")));
    assert!(!matcher.matches(&req("GET", "http://a.com/path1"), &req("GET", "http://a.com/path2")));
    assert_eq!(matcher.name(), "custom");
}

#[test]
fn test_custom_matcher_closure() {
    let matcher = CustomMatcher::new(|recorded, incoming| match (&recorded.body, &incoming.body) {
        (Some(r), Some(i)) => r.contains("test") == i.contains("test"),
        (None, None) => true,
        _ => false,
    });
    let r1 = with_body("POST", "http://a.com", "this is a test");
    let r2 = with_body("POST", "http://a.com", "another test here");
    assert!(matcher.matches(&r1, &r2));
}

#[test]
fn test_normalize_url() {
    assert_eq!(normalize_url("http://example.com?b=2&a=1"), "http://example.com?a=1&b=2");
    assert_eq!(normalize_url("http://example.com?a=1&b=2"), "http://example.com?a=1&b=2");
    assert_eq!(normalize_url("http://example.com/path"), "http://example.com/path");
    assert_eq!(normalize_url("http://example.com?"), "http://example.com");
    assert_eq!(normalize_url("http://example.com?z=1&a=2&a=1"), "http://example.com?a=1&a=2&z=1");
    assert_eq!(normalize_url("http://example.com?c&b=1&a"), "http://example.com?a&b=1&c");
}

fn check_normalized_url_method(matcher: &NormalizedUrlMethodMatcher) {
    assert!(matcher.matches(&req("GET", "http://example.com?b=2&a=1"), &req("GET", "http://example.com?a=1&b=2")));
    assert!(matcher.matches(&req("GET", "http://example.com?a=1"), &req("GET", "http://example.com?a=1")));
    assert!(!matcher.matches(&req("GET", "http://example.com?a=1"), &req("POST", "http://example.com?a=1")));
    assert!(!matcher.matches(&req("GET", "http://example.com?a=1"), &req("GET", "http://example.com?a=2")));
}

#[test]
fn mod_test_normalized_url_method_matcher() {
    check_normalized_url_method(&NormalizedUrlMethodMatcher);
}

#[test]
fn matcher_test_test_normalized_url_method_matcher() {
    let matcher = NormalizedUrlMethodMatcher;
    check_normalized_url_method(&matcher);
    assert_eq!(matcher.name(), "normalized_url_method");
}

fn check_normalized_json(matcher: &NormalizedJsonBodyMatcher) {
    let r1 = with_body("POST", "http://a.com", r#"{"b":2,"a":1}"#);
    let r2 = with_body("POST", "http://a.com", r#"{"a":1,"b":2}"#);
    assert!(matcher.matches(&r1, &r2));
    let r3 = with_body("POST", "http://a.com", r#"{"a": 1, "b": 2}"#);
    let r4 = with_body("POST", "http://a.com", r#"{"a":1,"b":2}"#);
    assert!(matcher.matches(&r3, &r4));
    let r5 = with_body("POST", "http://a.com", r#"{"a":1}"#);
    let r6 = with_body("POST", "http://a.com", r#"{"a":2}"#);
    assert!(!matcher.matches(&r5, &r6));
    let r7 = with_body("POST", "http://a.com", "hello world");
    let r8 = with_body("POST", "http://a.com", "hello world");
    assert!(matcher.matches(&r7, &r8));
    assert!(matcher.matches(&req("POST", "http://a.com"), &req("POST", "http://a.com")));
    let r11 = req("POST", "http://a.com");
    let r12 = with_body("POST", "http://a.com", "{}");
    assert!(!matcher.matches(&r11, &r12));
}

#[test]
fn mod_test_normalized_json_body_matcher() {
    check_normalized_json(&NormalizedJsonBodyMatcher);
}

#[test]
fn matcher_test_test_normalized_json_body_matcher() {
    let matcher = NormalizedJsonBodyMatcher;
    check_normalized_json(&matcher);
    assert_eq!(matcher.name(), "normalized_json_body");
}

#[test]
fn normalized_url_ignores_parameter_order() {
    // Any permutation of the same parameters normalizes to the same URL.
    let a = normalize_url("http://x.com/p?c=3&a=1&b=2");
    let b = normalize_url("http://x.com/p?b=2&c=3&a=1");
    assert_eq!(a, b);
    assert_eq!(a, "http://x.com/p?a=1&b=2&c=3");
}

#[test]
fn matcher_names() {
    assert_eq!(MethodMatcher.name(), "method");
    assert_eq!(HeaderMatcher::new("X").name(), "header");
    assert_eq!(AllMatcher::new().name(), "all");
    assert!(AllMatcher::new().matches(&req("GET", "a"), &req("PUT", "b")));
}

#[test]
fn all_matcher_nested() {
    let inner = AllMatcher::new().add(MethodMatcher);
    let outer = AllMatcher::new().add(inner).add(UrlMatcher);
    assert!(outer.matches(&req("GET", "u"), &req("get", "u")));
    assert!(!outer.matches(&req("GET", "u"), &req("PUT", "u")));
}

#[test]
fn builtin_matchers_accept_request_itself() {
    let req = RecordedRequest::new("post", "https://api.example.com/items?b=2&a=1")
        .header("X-Key", "v")
        .header("Accept", "application/json")
        .body(r#"{"b":1,"a":[1,2]}"#);
    let all = AllMatcher::new()
        .add(MethodMatcher)
        .add(UrlMatcher)
        .add(PathMatcher)
        .add(BodyMatcher)
        .add(HeaderMatcher::new("x-key"))
        .add(UrlMethodMatcher)
        .add(NormalizedUrlMethodMatcher)
        .add(ExactMatcher);
    assert!(all.matches(&req, &req));
    assert!(ExactMatcher.matches(&req, &req));
    assert!(NormalizedJsonBodyMatcher.matches(&req, &req));
}

#[test]
fn exact_matcher_compares_headers_as_multisets() {
    let a = RecordedRequest::new("GET", "http://a.com").header("X-A", "1").header("X-A", "1");
    let b = RecordedRequest::new("GET", "http://a.com").header("X-A", "1").header("X-B", "2");
    assert!(!ExactMatcher.matches(&a, &b));
    assert!(!ExactMatcher.matches(&b, &a));
    let c = RecordedRequest::new("GET", "http://a.com").header("x-b", "2").header("x-a", "1");
    assert!(ExactMatcher.matches(&b, &c));
    let d = RecordedRequest::new("GET", "http://a.com").header("X-B", "2").header("X-A", "one");
    assert!(!ExactMatcher.matches(&b, &d));
}

#[test]
fn normalized_url_ignores_segment_order() {
    let segs = ["b=2", "a=1", "c", "a=0"];
    let perm = ["a=0", "c", "b=2", "a=1"];
    let u1 = format!("http://example.com/p?{}", segs.join("&"));
    let u2 = format!("http://example.com/p?{}", perm.join("&"));
    assert_eq!(normalize_url(&u1), normalize_url(&u2));
}

#[test]
fn all_matcher_add_is_conjunction() {
    let base = AllMatcher::new().add(MethodMatcher);
    let both = AllMatcher::new().add(MethodMatcher).add(UrlMatcher);
    let r = RecordedRequest::new("GET", "http://a.com/x");
    let same = RecordedRequest::new("get", "http://a.com/x");
    let other_url = RecordedRequest::new("GET", "http://a.com/y");
    assert!(base.matches(&r, &other_url) && !UrlMatcher.matches(&r, &other_url));
    assert!(!both.matches(&r, &other_url));
    assert!(both.matches(&r, &same));
}

#[test]
fn nested_all_matcher_is_conjunction() {
    let inner = AllMatcher::new().add(MethodMatcher).add(UrlMatcher);
    let outer = AllMatcher::new().add(inner).add(BodyMatcher);
    let a = RecordedRequest::new("GET", "http://a.com").body("x");
    let b = RecordedRequest::new("get", "http://a.com").body("x");
    let c = RecordedRequest::new("GET", "http://b.com").body("x");
    let d = RecordedRequest::new("GET", "http://a.com").body("y");
    assert!(outer.matches(&a, &b));
    assert!(!outer.matches(&a, &c));
    assert!(!outer.matches(&a, &d));
}
