use mockingbird::capture::capture_request;
use mockingbird::cassette::{BodyEncoding, Cassette, Header, Interaction, RecordedError, RecordedRequest, RecordedResponse};
use mockingbird::error::Error;
use mockingbird::matcher::AllMatcher;
use mockingbird::mode::Mode;
use mockingbird::proxy::{client_body, forward_body, forwarded_headers, full_url, proxy_answer, proxy_playback, require_target, ProxyConfig};

#[test]
fn proxy_config_builder() {
    let config = ProxyConfig::new(8080, Mode::Record, "cassettes/test.json").target("https://api.example.com");
    assert_eq!(config.port, 8080);
    assert!(matches!(config.mode, Mode::Record));
    assert_eq!(config.target_url, Some("https://api.example.com".to_string()));
}

#[test]
fn test_proxy_config_builder() {
    let config = ProxyConfig::new(8080, Mode::Record, "cassettes/test.json");
    assert_eq!(config.port, 8080);
    assert!(matches!(config.mode, Mode::Record));
    assert!(config.target_url.is_none());
}

#[test]
fn test_proxy_config_with_target() {
    let config = ProxyConfig::new(8080, Mode::Record, "cassettes/test.json").target("https://api.example.com");
    assert_eq!(config.port, 8080);
    assert!(matches!(config.mode, Mode::Record));
    assert_eq!(config.target_url, Some("https://api.example.com".to_string()));
}

#[test]
fn test_proxy_config_modes() {
    let config = ProxyConfig::new(8080, Mode::Record, "test.json");
    assert!(config.mode.records());
    assert!(!config.mode.replays());
    let config = ProxyConfig::new(8080, Mode::Replay, "test.json");
    assert!(!config.mode.records());
    assert!(config.mode.replays());
    let config = ProxyConfig::new(8080, Mode::Auto, "test.json");
    assert!(config.mode.records());
    assert!(config.mode.replays());
    let config = ProxyConfig::new(8080, Mode::Passthrough, "test.json");
    assert!(!config.mode.records());
    assert!(!config.mode.replays());
    assert!(config.mode.allows_real_requests());
}

#[test]
fn test_proxy_config_cassette_path() {
    let config = ProxyConfig::new(8080, Mode::Replay, "fixtures/api.json");
    assert_eq!(config.cassette_path, "fixtures/api.json");
}

#[test]
fn proxy_full_url() {
    assert_eq!(full_url("https://api.example.com/", "/users"), "https://api.example.com/users");
    assert_eq!(full_url("https://api.example.com///", "/users"), "https://api.example.com/users");
    assert_eq!(full_url("https://api.example.com", "http://other.com/x"), "http://other.com/x");
    assert_eq!(full_url("https://api.example.com", "/a?b=1"), "https://api.example.com/a?b=1");
}

#[test]
fn proxy_skips_host_header() {
    let headers = vec![
        Header::new("Host", "localhost:8080"),
        Header::new("Accept", "*/*"),
        Header::new("host", "again"),
    ];
    let kept = forwarded_headers(&headers);
    assert_eq!(kept.len(), 1);
    assert_eq!(kept[0].name, "Accept");
}

#[test]
fn proxy_forward_body() {
    let plain = RecordedRequest::new("POST", "/x").body("hello");
    assert_eq!(forward_body(&plain).unwrap(), Some(b"hello".to_vec()));
    let none = RecordedRequest::new("GET", "/x");
    assert_eq!(forward_body(&none).unwrap(), None);
    let mut b64 = RecordedRequest::new("POST", "/x").body("AAEC/w==");
    b64.body_encoding = BodyEncoding::Base64;
    assert_eq!(forward_body(&b64).unwrap(), Some(vec![0u8, 1, 2, 255]));
    let mut bad = RecordedRequest::new("POST", "/x").body("***");
    bad.body_encoding = BodyEncoding::Base64;
    match forward_body(&bad) {
        Err(Error::Proxy(m)) => assert!(m.starts_with("Failed to decode request body: ")),
        other => panic!("unexpected: {:?}", other),
    }
}

#[test]
fn proxy_client_body() {
    assert_eq!(client_body(&RecordedResponse::new(200).body("Hello")).unwrap(), b"Hello".to_vec());
    assert!(client_body(&RecordedResponse::new(204)).unwrap().is_empty());
    let mut bad = RecordedResponse::new(200).body("not base64!");
    bad.body_encoding = BodyEncoding::Base64;
    match client_body(&bad) {
        Err(Error::Proxy(m)) => assert!(m.starts_with("Failed to decode base64: ")),
        other => panic!("unexpected: {:?}", other),
    }
}

#[test]
fn proxy_require_target() {
    assert_eq!(require_target(&Some("http://t".to_string()), "record").unwrap(), "http://t");
    match require_target(&None, "auto") {
        Err(Error::Config(m)) => assert_eq!(m, "Target URL required for auto mode"),
        other => panic!("unexpected: {:?}", other),
    }
}

#[test]
fn proxy_answers_from_cassette() {
    let mut cassette = Cassette::new();
    cassette.add(Interaction::error(
        RecordedRequest::new("GET", "/down"),
        RecordedError::connection("refused"),
    ));
    cassette.add(Interaction::new(RecordedRequest::new("GET", "/users"), RecordedResponse::new(200).body("[]")));
    let matcher = AllMatcher::default_matchers();

    let ok = proxy_answer(&cassette.interactions, &matcher, &RecordedRequest::new("GET", "/users"));
    match ok {
        Some(Ok(r)) => assert_eq!(r.body, Some("[]".to_string())),
        other => panic!("unexpected: {:?}", other),
    }
    let err = proxy_answer(&cassette.interactions, &matcher, &RecordedRequest::new("GET", "/down"));
    match err {
        Some(Err(Error::Proxy(m))) => assert_eq!(m, "Recorded error: refused"),
        other => panic!("unexpected: {:?}", other),
    }
    assert!(proxy_answer(&cassette.interactions, &matcher, &RecordedRequest::new("POST", "/users")).is_none());
    assert!(matches!(
        proxy_playback(&cassette.interactions, &matcher, &RecordedRequest::new("GET", "/missing")),
        Err(Error::NoMatch)
    ));
}

#[test]
fn proxy_playback_replays_found_interaction() {
    let mut cassette = Cassette::new();
    cassette.add(Interaction::new(RecordedRequest::new("GET", "/users"), RecordedResponse::new(201).body("ok")));
    let matcher = AllMatcher::default_matchers();
    match proxy_playback(&cassette.interactions, &matcher, &RecordedRequest::new("GET", "/users")) {
        Ok(r) => {
            assert_eq!(r.status, 201);
            assert_eq!(r.body, Some("ok".to_string()));
        }
        other => panic!("unexpected: {:?}", other),
    }
}

#[test]
fn proxy_captures_incoming_request() {
    let headers = vec![("host".to_string(), "example.com".to_string()), ("x-a".to_string(), "1".to_string())];
    let r = capture_request("POST", "/items?x=1", &headers, b"{\"a\":1}");
    assert_eq!(r.method, "POST");
    assert_eq!(r.url, "/items?x=1");
    assert_eq!(r.headers, vec![Header::new("host", "example.com"), Header::new("x-a", "1")]);
    assert_eq!(r.body, Some("{\"a\":1}".to_string()));
    assert_eq!(r.body_encoding, BodyEncoding::Text);

    let empty = capture_request("GET", "/", &Vec::new(), b"");
    assert_eq!(empty.body, None);
    assert_eq!(empty.body_encoding, BodyEncoding::Text);

    let binary = capture_request("PUT", "/bin", &Vec::new(), &[0xff, 0x00]);
    assert_eq!(binary.body, Some("/wA=".to_string()));
    assert_eq!(binary.body_encoding, BodyEncoding::Base64);
}

#[test]
fn proxy_forward_body_error_message() {
    let mut req = RecordedRequest::new("POST", "/x");
    req.body = Some("!!".to_string());
    req.body_encoding = BodyEncoding::Base64;
    match forward_body(&req) {
        Err(Error::Proxy(m)) => {
            assert!(m.starts_with("Failed to decode request body: "));
            assert!(m.len() > "Failed to decode request body: ".len());
        }
        other => panic!("unexpected: {:?}", other),
    }
}
