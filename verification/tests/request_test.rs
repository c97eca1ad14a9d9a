use mockingbird::cassette::{BodyEncoding, RecordedRequest};
use mockingbird::request::Request;
use std::collections::BTreeMap;
use std::time::Duration;

#[test]
fn test_get() {
    let req = Request::get("https://api.example.com/users");
    assert_eq!(req.method(), "GET");
    assert_eq!(req.url(), "https://api.example.com/users");
}

#[test]
fn test_post() {
    let req = Request::post("https://api.example.com/users");
    assert_eq!(req.method(), "POST");
}

#[test]
fn request_test_header() {
    let req = Request::get("https://example.com")
        .header("Authorization", "Bearer token")
        .header("Accept", "application/json");
    assert_eq!(req.get_header("authorization"), Some("Bearer token"));
    assert_eq!(req.get_header("accept"), Some("application/json"));
}

#[test]
fn test_body() {
    let req = Request::post("https://example.com").body(b"Hello, World!");
    assert_eq!(req.get_body().map(|b| b.as_slice()), Some(b"Hello, World!".as_slice()));
}

#[test]
fn request_test_json() {
    let user = BTreeMap::from([("name", "Alice")]);
    let req = Request::post("https://example.com").json(serde_json::to_vec(&user).ok());
    assert_eq!(req.get_header("content-type"), Some("application/json"));
    let body = req.get_body().unwrap();
    assert!(String::from_utf8_lossy(body).contains("Alice"));
}

#[test]
fn request_test_to_recorded() {
    let req = Request::post("https://example.com").header("Content-Type", "text/plain").body(b"test body");
    let recorded = req.to_recorded();
    assert_eq!(recorded.method, "POST");
    assert_eq!(recorded.url, "https://example.com");
    assert_eq!(recorded.body, Some("test body".to_string()));
}

#[test]
fn request_test_from_recorded() {
    let recorded = RecordedRequest::new("PUT", "https://api.example.com").header("X-Custom", "value").body("content");
    let req = Request::from_recorded(&recorded);
    assert_eq!(req.method(), "PUT");
    assert_eq!(req.url(), "https://api.example.com");
    assert_eq!(req.get_header("x-custom"), Some("value"));
}

#[test]
fn test_method_case() {
    let req = Request::new("get", "https://example.com");
    assert_eq!(req.method(), "GET");
}

#[test]
fn test_all_methods() {
    assert_eq!(Request::get("u").method(), "GET");
    assert_eq!(Request::post("u").method(), "POST");
    assert_eq!(Request::put("u").method(), "PUT");
    assert_eq!(Request::delete("u").method(), "DELETE");
    assert_eq!(Request::patch("u").method(), "PATCH");
    assert_eq!(Request::head("u").method(), "HEAD");
}

#[test]
fn test_form() {
    let login = [("username", "alice"), ("password", "secret")];
    let req = Request::post("https://example.com/login").form(serde_urlencoded::to_string(&login).ok());
    assert_eq!(req.get_header("content-type"), Some("application/x-www-form-urlencoded"));
    let body = req.get_body().unwrap();
    let body_str = String::from_utf8_lossy(body);
    assert!(body_str.contains("username=alice"));
    assert!(body_str.contains("password=secret"));
}

#[test]
fn test_query() {
    let params = [("q", "rust"), ("page", "1")];
    let req = Request::get("https://example.com/search").query(serde_urlencoded::to_string(&params).ok());
    assert!(req.url().contains("q=rust"));
    assert!(req.url().contains("page=1"));
}

#[test]
fn test_query_appends_to_existing() {
    let params = [("added", "true")];
    let req = Request::get("https://example.com/search?existing=yes").query(serde_urlencoded::to_string(&params).ok());
    assert!(req.url().contains("existing=yes"));
    assert!(req.url().contains("added=true"));
    assert!(req.url().contains("&"));
}

#[test]
fn test_timeout() {
    let req = Request::get("https://example.com").timeout(Duration::from_secs(30));
    assert_eq!(req.get_timeout(), Some(Duration::from_secs(30)));
}

#[test]
fn test_with_headers() {
    let headers = vec![
        ("X-Custom".to_string(), "value1".to_string()),
        ("X-Another".to_string(), "value2".to_string()),
    ];
    let req = Request::get("https://example.com").with_headers(headers);
    assert_eq!(req.get_header("x-custom"), Some("value1"));
    assert_eq!(req.get_header("x-another"), Some("value2"));
}

#[test]
fn request_query_exact() {
    let req = Request::get("https://e.com/s").query(Some("a=1".to_string()));
    assert_eq!(req.url(), "https://e.com/s?a=1");
    let req = req.query(Some("b=2".to_string()));
    assert_eq!(req.url(), "https://e.com/s?a=1&b=2");
    let req = req.query(Some(String::new()));
    assert_eq!(req.url(), "https://e.com/s?a=1&b=2");
    let req = req.query(None);
    assert_eq!(req.url(), "https://e.com/s?a=1&b=2");
}

#[test]
fn request_header_overwrites() {
    let req = Request::get("u").header("X-A", "1").header("x-a", "2");
    assert_eq!(req.headers().len(), 1);
    assert_eq!(req.get_header("X-A"), Some("2"));
}

#[test]
fn request_binary_body_round_trip() {
    let bytes = vec![0u8, 159, 146, 150];
    let req = Request::post("https://e.com").body(&bytes);
    let recorded = req.to_recorded();
    assert_eq!(recorded.body_encoding, BodyEncoding::Base64);
    assert_eq!(recorded.body, Some("AJ+Slg==".to_string()));
    let back = Request::from_recorded(&recorded);
    assert_eq!(back.get_body(), Some(&bytes));
}

#[test]
fn request_invalid_base64_body_dropped() {
    let mut recorded = RecordedRequest::new("POST", "u").body("%%%");
    recorded.body_encoding = BodyEncoding::Base64;
    assert!(Request::from_recorded(&recorded).get_body().is_none());
}

#[test]
fn request_round_trip_through_recorded_form() {
    let q = Request::post("https://example.com/upload")
        .header("X-One", "1")
        .header("Accept", "*/*")
        .body(&[0x00, 0x01, 0x02, 0xFF]);
    let p = Request::from_recorded(&q.to_recorded());
    assert_eq!(p.method(), q.method());
    assert_eq!(p.url(), q.url());
    assert_eq!(p.headers(), q.headers());
    assert_eq!(p.get_body(), q.get_body());
}
