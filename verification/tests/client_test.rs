use mockingbird::capture::{capture_response, HEADERS_TO_STRIP};
use mockingbird::cassette::{BodyEncoding, Cassette, ErrorKind, Interaction, RecordedError, RecordedRequest, RecordedResponse};
use mockingbird::client::{resolve_cassette_path, ClientBuilder, Recorder, Route};
use mockingbird::error::Error;
use mockingbird::matcher::{AllMatcher, UrlMethodMatcher};
use mockingbird::mode::Mode;
use mockingbird::request::Request;
use std::time::Duration;

const DAY: i128 = 86_400 * 1_000_000_000;

fn recorder(mode: Mode, cassette: Cassette) -> Recorder<AllMatcher> {
    ClientBuilder::new("test.json", None, None).mode(mode).build(cassette)
}

fn one_interaction(method: &str, url: &str, body: &str) -> Cassette {
    let mut c = Cassette::new();
    c.add(Interaction::new(RecordedRequest::new(method, url), RecordedResponse::new(200).body(body)));
    c
}

#[test]
fn test_headers_to_strip() {
    assert!(HEADERS_TO_STRIP.contains(&"content-encoding"));
    assert!(HEADERS_TO_STRIP.contains(&"transfer-encoding"));
    assert!(HEADERS_TO_STRIP.contains(&"content-length"));
}

#[test]
fn test_client_builder() {
    let b = ClientBuilder::new("test.json", None, None).mode(Mode::Auto);
    let r = b.build(Cassette::new());
    assert!(matches!(r.mode(), Mode::Auto));
}

#[test]
fn test_playback_mode() {
    let r = recorder(Mode::Replay, Cassette::new());
    assert!(matches!(r.mode(), Mode::Replay));
}

#[test]
fn test_record_mode() {
    let r = recorder(Mode::Record, Cassette::new());
    assert!(matches!(r.mode(), Mode::Record));
}

#[test]
fn client_test_playback_no_match() {
    let r = recorder(Mode::Replay, Cassette::new());
    let result = r.playback_request(&Request::get("https://example.com/missing"));
    assert!(matches!(result, Err(Error::NoMatch)));
}

#[test]
fn client_test_playback_returns_recorded() {
    let r = recorder(Mode::Replay, one_interaction("GET", "https://example.com/api", "recorded response"));
    let resp = r.playback_request(&Request::get("https://example.com/api")).unwrap();
    assert_eq!(resp.status(), 200);
    assert_eq!(resp.text().unwrap(), "recorded response");
}

#[test]
fn test_patch_method() {
    let r = recorder(Mode::Replay, one_interaction("PATCH", "https://example.com/api", "patched"));
    let resp = r.playback_request(&Request::patch("https://example.com/api")).unwrap();
    assert_eq!(resp.status(), 200);
    assert_eq!(resp.text().unwrap(), "patched");
}

#[test]
fn test_request_with_custom_method() {
    let mut c = Cassette::new();
    c.add(Interaction::new(RecordedRequest::new("OPTIONS", "https://example.com/api"), RecordedResponse::new(200)));
    let r = recorder(Mode::Replay, c);
    let resp = r.playback_request(&Request::new("OPTIONS", "https://example.com/api")).unwrap();
    assert_eq!(resp.status(), 200);
}

#[test]
fn test_request_with_query() {
    let r = recorder(Mode::Replay, one_interaction("GET", "https://example.com/api?page=1&limit=10", "results"));
    let params = [("page", "1"), ("limit", "10")];
    let req = Request::get("https://example.com/api").query(serde_urlencoded::to_string(&params).ok());
    let resp = r.playback_request(&req).unwrap();
    assert_eq!(resp.status(), 200);
}

#[test]
fn client_test_expire_after() {
    let b = ClientBuilder::new("test.json", None, None).expire_after(Duration::from_secs(3600));
    let r = b.build(Cassette::new());
    assert_eq!(r.expiration(), Some(3600 * 1_000_000_000));
}

#[test]
fn client_test_cassette_expired() {
    let mut c = Cassette::new();
    let now: i128 = 10 * DAY;
    c.interactions.push(Interaction::new_at(
        RecordedRequest::new("GET", "https://example.com/api"),
        RecordedResponse::new(200),
        now - 2 * DAY,
    ));
    let r = ClientBuilder::new("test.json", None, None)
        .mode(Mode::Replay)
        .expire_after(Duration::from_secs(24 * 60 * 60))
        .build(c);
    let result = r.playback_at(&Request::get("https://example.com/api"), now);
    assert!(matches!(result, Err(Error::CassetteExpired { .. })));
    let fresh = r.playback_at(&Request::get("https://example.com/api"), now - DAY);
    assert!(fresh.is_ok());
}

#[test]
fn test_expire_after_saturates() {
    let r = ClientBuilder::new("t.json", None, None).expire_after(Duration::MAX).build(Cassette::new());
    assert_eq!(r.expiration(), Some(9_223_372_036_854_775_807_000_000));
}

#[test]
fn test_resolve_cassette_path_absolute() {
    assert_eq!(resolve_cassette_path("/absolute/path/cassette.json", Some("/dir")), "/absolute/path/cassette.json");
}

#[test]
fn test_resolve_cassette_path_relative() {
    assert_eq!(resolve_cassette_path("cassette.json", None), "cassette.json");
    assert_eq!(resolve_cassette_path("cassette.json", Some("fixtures")), "fixtures/cassette.json");
    assert_eq!(resolve_cassette_path("cassette.json", Some("fixtures/")), "fixtures/cassette.json");
    assert_eq!(resolve_cassette_path("cassette.json", Some("")), "cassette.json");
}

#[test]
fn test_match_by_alias() {
    let r = ClientBuilder::new("test.json", None, None).mode(Mode::Replay).match_by(UrlMethodMatcher).build(
        one_interaction("GET", "https://a.com/x", "hi"),
    );
    assert!(r.playback_request(&Request::get("https://a.com/x")).is_ok());
}

#[test]
fn test_record_errors_config() {
    let b = ClientBuilder::new("test.json", None, None).record_errors(true).follow_redirects(false);
    let r = b.build(Cassette::new());
    assert!(r.records_errors());
    assert!(!r.follows_redirects());
}

#[test]
fn client_env_settings() {
    let b = ClientBuilder::new("c.json", Some("/cassettes"), Some(Mode::Record));
    assert_eq!(b.cassette_path(), "/cassettes/c.json");
    let r = b.build(Cassette::new());
    assert!(matches!(r.mode(), Mode::Record));
}

#[test]
fn client_routes_by_mode() {
    let req = Request::get("https://example.com/api");
    assert!(matches!(recorder(Mode::Record, Cassette::new()).route(&req), Route::Forward { record: true }));
    assert!(matches!(recorder(Mode::Passthrough, Cassette::new()).route(&req), Route::Forward { record: false }));
    assert!(matches!(recorder(Mode::Auto, Cassette::new()).route(&req), Route::Forward { record: true }));
    let hit = recorder(Mode::Auto, one_interaction("GET", "https://example.com/api", "x"));
    assert!(matches!(hit.route(&req), Route::Respond(Ok(_))));
    assert!(matches!(recorder(Mode::Replay, Cassette::new()).route(&req), Route::Respond(Err(Error::NoMatch))));
}

#[test]
fn client_record_then_replay() {
    let mut r = ClientBuilder::new("t.json", None, None)
        .mode(Mode::Auto)
        .filter_request_header("Authorization", "[REDACTED]")
        .filter_response_body_json("$.token", "[FILTERED]")
        .build(Cassette::new());
    let req = Request::post("https://api.example.com/login").header("Authorization", "Bearer s3cret");
    let received = RecordedResponse::new(200).body(r#"{"token":"abc"}"#);
    let resp = r.record_response(&req, received);
    assert_eq!(resp.text().unwrap(), r#"{"token":"abc"}"#);
    let stored = &r.cassette().interactions()[0];
    assert_eq!(stored.request.headers[0].value, "[REDACTED]");
    assert_eq!(stored.response.as_ref().unwrap().body, Some(r#"{"token":"[FILTERED]"}"#.to_string()));
    let replayed = r.playback_request(&req).unwrap();
    assert_eq!(replayed.text().unwrap(), r#"{"token":"[FILTERED]"}"#);
}

#[test]
fn client_recorded_errors_replay() {
    let mut r = ClientBuilder::new("t.json", None, None).mode(Mode::Record).record_errors(true).build(Cassette::new());
    let req = Request::get("https://slow.example.com");
    let err = Error::Http { message: "operation timed out".to_string(), timeout: true, connect: false };
    assert!(r.record_error(&req, &err));
    let kind = r.cassette().interactions()[0].error.as_ref().unwrap().kind;
    assert_eq!(kind, ErrorKind::Timeout);
    match r.playback_request(&req) {
        Err(Error::RecordedTimeout { message }) => assert_eq!(message, "operation timed out"),
        other => panic!("unexpected: {:?}", other),
    }
    let mut off = recorder(Mode::Record, Cassette::new());
    assert!(!off.record_error(&req, &err));
    assert!(off.cassette().is_empty());
}

#[test]
fn client_error_to_recorded() {
    let e = Recorder::<AllMatcher>::error_to_recorded(&Error::Http {
        message: "refused".to_string(),
        timeout: false,
        connect: true,
    });
    assert_eq!(e.kind, ErrorKind::Connection);
    let e = Recorder::<AllMatcher>::error_to_recorded(&Error::Proxy("boom".to_string()));
    assert_eq!(e.kind, ErrorKind::Unknown);
    assert_eq!(e.message, "Proxy error: boom");
}

#[test]
fn client_interaction_without_outcome() {
    let mut c = Cassette::new();
    let mut i = Interaction::new(RecordedRequest::new("GET", "u"), RecordedResponse::new(200));
    i.response = None;
    c.add(i);
    match recorder(Mode::Replay, c).playback_request(&Request::get("u")) {
        Err(Error::InvalidFormat(m)) => assert_eq!(m, "Interaction has no response or error"),
        other => panic!("unexpected: {:?}", other),
    }
}

#[test]
fn client_recorded_dns_error() {
    let mut c = Cassette::new();
    c.add(Interaction::error(RecordedRequest::new("GET", "u"), RecordedError::dns("no such host")));
    let err = recorder(Mode::Replay, c).playback_request(&Request::get("u")).unwrap_err();
    assert!(err.is_recorded_error());
    assert_eq!(err.to_string(), "Recorded DNS error: no such host");
}

#[test]
fn capture_strips_transport_headers() {
    let headers = vec![
        ("Content-Length".to_string(), "5".to_string()),
        ("content-type".to_string(), "text/plain".to_string()),
        ("transfer-encoding".to_string(), "chunked".to_string()),
    ];
    let r = capture_response(200, &headers, b"hello", true);
    assert_eq!(r.headers.len(), 1);
    assert_eq!(r.headers[0].name, "content-type");
    assert_eq!(r.body, Some("hello".to_string()));
    let all = capture_response(200, &headers, &[0xff], false);
    assert_eq!(all.headers.len(), 3);
    assert_eq!(all.body_encoding, BodyEncoding::Base64);
    assert_eq!(all.body, Some("/w==".to_string()));
    let empty = capture_response(204, &headers, b"", true);
    assert!(empty.body.is_none());
}

#[test]
fn client_index_preferred_over_earlier_custom_match() {
    // Candidates under the request's method and URL are tried before a scan of all.
    let mut c = Cassette::new();
    c.add(Interaction::new(RecordedRequest::new("GET", "https://a.com/x?v=1"), RecordedResponse::new(201)));
    c.add(Interaction::new(RecordedRequest::new("GET", "https://a.com/x"), RecordedResponse::new(202)));
    let r = ClientBuilder::new("t.json", None, None)
        .mode(Mode::Replay)
        .matcher(mockingbird::matcher::PathMatcher)
        .build(c);
    assert_eq!(r.playback_request(&Request::get("https://a.com/x")).unwrap().status(), 202);
    assert_eq!(r.playback_request(&Request::get("https://b.com/x")).unwrap().status(), 201);
}

#[test]
fn client_auto_rerecords_expired() {
    let mut c = Cassette::new();
    let now: i128 = 10 * DAY;
    c.interactions.push(Interaction::new_at(
        RecordedRequest::new("GET", "https://example.com/api"),
        RecordedResponse::new(200),
        now - 2 * DAY,
    ));
    let r = ClientBuilder::new("test.json", None, None)
        .mode(Mode::Auto)
        .expire_after(Duration::from_secs(24 * 60 * 60))
        .build(c);
    let req = Request::get("https://example.com/api");
    assert!(matches!(r.route_at(&req, now), Route::Forward { record: true }));
    assert!(matches!(r.route_at(&req, now - DAY), Route::Respond(Ok(_))));
}

#[test]
fn client_filters_response_header_and_request_json() {
    let mut r = ClientBuilder::new("t.json", None, None)
        .mode(Mode::Record)
        .filter_response_header("Set-Cookie", "[REDACTED]")
        .filter_request_body_json("$.password", "[FILTERED]")
        .build(Cassette::new());
    let req = Request::post("https://api.example.com/login").body(br#"{"user":"a","password":"p"}"#);
    let received = RecordedResponse::new(200).header("Set-Cookie", "sid=1").body("ok");
    let resp = r.record_response(&req, received);
    assert_eq!(resp.header("set-cookie"), Some("sid=1"));
    let stored = &r.cassette().interactions()[0];
    assert_eq!(stored.response.as_ref().unwrap().headers[0].value, "[REDACTED]");
    assert_eq!(stored.request.body, Some(r#"{"password":"[FILTERED]","user":"a"}"#.to_string()));
}

fn auto_builder() -> ClientBuilder<AllMatcher> {
    ClientBuilder::new("test.json", None, None).mode(Mode::Auto)
}

#[test]
fn test_client_builders() {
    let auto = auto_builder().build(Cassette::new());
    assert!(matches!(auto.mode(), Mode::Auto));
    let playback = ClientBuilder::new("test.json", None, None).mode(Mode::Replay).build(Cassette::new());
    assert!(matches!(playback.mode(), Mode::Replay));
    let record = ClientBuilder::new("test.json", None, None).mode(Mode::Record).build(Cassette::new());
    assert!(matches!(record.mode(), Mode::Record));
}

#[test]
fn client_test_test_expire_after() {
    let r = auto_builder().expire_after(Duration::from_secs(3600)).build(Cassette::new());
    assert_eq!(r.expiration(), Some(3600 * 1_000_000_000));
}

#[test]
fn test_filter_request_header_convenience() {
    let r = auto_builder().filter_request_header("Authorization", "[REDACTED]").build(Cassette::new());
    let filtered = r.filter_request(&Request::get("https://example.com").header("Authorization", "Bearer x"));
    assert_eq!(filtered.headers[0].value, "[REDACTED]");
}

#[test]
fn test_filter_response_header_convenience() {
    let mut r = auto_builder().filter_response_header("Set-Cookie", "[REDACTED]").build(Cassette::new());
    r.record_response(&Request::get("https://example.com"), RecordedResponse::new(200).header("Set-Cookie", "a=b"));
    assert_eq!(r.cassette().interactions()[0].response.as_ref().unwrap().headers[0].value, "[REDACTED]");
}

#[test]
fn test_filter_request_body_json_convenience() {
    let r = auto_builder().filter_request_body_json("$.password", "[FILTERED]").build(Cassette::new());
    let filtered = r.filter_request(&Request::post("https://example.com").body(br#"{"password":"p"}"#));
    assert_eq!(filtered.body, Some(r#"{"password":"[FILTERED]"}"#.to_string()));
}

#[test]
fn test_filter_response_body_json_convenience() {
    let mut r = auto_builder().filter_response_body_json("$.api_key", "[FILTERED]").build(Cassette::new());
    r.record_response(&Request::get("https://example.com"), RecordedResponse::new(200).body(r#"{"api_key":"k"}"#));
    assert_eq!(
        r.cassette().interactions()[0].response.as_ref().unwrap().body,
        Some(r#"{"api_key":"[FILTERED]"}"#.to_string())
    );
}

#[test]
fn test_filter_convenience_methods() {
    let mut r = auto_builder()
        .filter_request_header("Authorization", "[REDACTED]")
        .filter_response_header("Set-Cookie", "[REDACTED]")
        .filter_request_body_json("$.password", "[FILTERED]")
        .filter_response_body_json("$.api_key", "[FILTERED]")
        .build(Cassette::new());
    let req = Request::post("https://example.com").header("Authorization", "t").body(br#"{"password":"p"}"#);
    r.record_response(&req, RecordedResponse::new(200).header("Set-Cookie", "c").body(r#"{"api_key":"k"}"#));
    let stored = &r.cassette().interactions()[0];
    assert_eq!(stored.request.headers[0].value, "[REDACTED]");
    assert_eq!(stored.request.body, Some(r#"{"password":"[FILTERED]"}"#.to_string()));
    let resp = stored.response.as_ref().unwrap();
    assert_eq!(resp.headers[0].value, "[REDACTED]");
    assert_eq!(resp.body, Some(r#"{"api_key":"[FILTERED]"}"#.to_string()));
}

#[test]
fn test_headers_method() {
    let req = Request::get("https://example.com").with_headers(vec![("X-Test".to_string(), "value".to_string())]);
    assert_eq!(req.get_header("x-test"), Some("value"));
}

#[test]
fn test_follow_redirects_default() {
    assert!(auto_builder().build(Cassette::new()).follows_redirects());
}

#[test]
fn test_follow_redirects_disabled() {
    assert!(!auto_builder().follow_redirects(false).build(Cassette::new()).follows_redirects());
}

#[test]
fn test_record_errors_option() {
    assert!(auto_builder().record_errors(true).build(Cassette::new()).records_errors());
}

#[test]
fn client_test_test_follow_redirects_option() {
    assert!(!auto_builder().follow_redirects(false).build(Cassette::new()).follows_redirects());
    assert!(auto_builder().follow_redirects(true).build(Cassette::new()).follows_redirects());
}

#[test]
fn integration_test_follow_redirects_option() {
    let off = auto_builder().follow_redirects(false).build(Cassette::new());
    assert!(!off.follows_redirects());
    let on = auto_builder().follow_redirects(true).build(Cassette::new());
    assert!(on.follows_redirects());
}

#[test]
fn test_combined_options() {
    let r = ClientBuilder::new("test.json", None, None)
        .mode(Mode::Auto)
        .match_by(mockingbird::matcher::NormalizedUrlMethodMatcher)
        .filter_request_header("Authorization", "[REDACTED]")
        .filter_response_body_json("$.secret", "[FILTERED]")
        .expire_after(Duration::from_secs(86400))
        .record_errors(true)
        .follow_redirects(false)
        .build(Cassette::new());
    assert_eq!(r.expiration(), Some(86400 * 1_000_000_000));
    assert!(r.records_errors());
    assert!(!r.follows_redirects());
}

#[test]
fn client_auto_replays_fresh_rerecording() {
    let now: i128 = 10 * DAY;
    let mut c = Cassette::new();
    c.interactions.push(Interaction::new_at(
        RecordedRequest::new("GET", "https://example.com/api"),
        RecordedResponse::new(200).body("old"),
        now - 2 * DAY,
    ));
    c.interactions.push(Interaction::new_at(
        RecordedRequest::new("GET", "https://example.com/api"),
        RecordedResponse::new(200).body("fresh"),
        now - 1000,
    ));
    let r = ClientBuilder::new("test.json", None, None)
        .mode(Mode::Auto)
        .expire_after(Duration::from_secs(24 * 60 * 60))
        .build(c);
    let req = Request::get("https://example.com/api");
    match r.route_at(&req, now) {
        Route::Respond(Ok(resp)) => assert_eq!(resp.text().unwrap(), "fresh"),
        other => panic!("unexpected: {:?}", matches!(other, Route::Forward { .. })),
    }
    assert_eq!(r.playback_at(&req, now).unwrap().text().unwrap(), "fresh");
}

#[test]
fn client_auto_replays_recorded_timeout() {
    let mut c = Cassette::new();
    c.add(Interaction::error(RecordedRequest::new("GET", "https://slow.example.com"), RecordedError::timeout("timed out")));
    let r = recorder(Mode::Auto, c);
    match r.route(&Request::get("https://slow.example.com")) {
        Route::Respond(Err(Error::RecordedTimeout { message })) => assert_eq!(message, "timed out"),
        _ => panic!("expected the recorded timeout"),
    }
}

#[test]
fn client_records_error_kind_and_message() {
    let mut r = ClientBuilder::new("t.json", None, None).mode(Mode::Auto).record_errors(true).build(Cassette::new());
    let err = Error::Http { message: "connection refused".to_string(), timeout: false, connect: true };
    assert!(r.record_error(&Request::get("https://down.example.com"), &err));
    let e = r.cassette().interactions()[0].error.as_ref().unwrap();
    assert_eq!(e.kind, ErrorKind::Connection);
    assert_eq!(e.message, "connection refused");
}
