use mockingbird::error::Error;

#[test]
fn test_cassette_not_found() {
    let err = Error::CassetteNotFound("test.json".to_string());
    assert!(err.to_string().contains("test.json"));
}

#[test]
fn test_no_match() {
    let err = Error::NoMatch;
    assert!(err.to_string().contains("No matching"));
}

#[test]
fn test_invalid_format() {
    let err = Error::InvalidFormat("bad json".to_string());
    assert!(err.to_string().contains("bad json"));
}

#[test]
fn test_proxy_error() {
    let err = Error::Proxy("connection failed".to_string());
    assert!(err.to_string().contains("connection failed"));
}

#[test]
fn test_config_error() {
    let err = Error::Config("missing field".to_string());
    assert!(err.to_string().contains("missing field"));
}

#[test]
fn error_expired_message() {
    let err = Error::CassetteExpired { recorded_at: 86_400_000_000_000, max_age: 3_600_000_000_000 };
    assert_eq!(err.to_string(), "Cassette expired: recorded at 1970-01-02 00:00:00 UTC, max age PT3600S");
    assert!(!err.is_recorded_error());
}

#[test]
fn error_recorded_variants() {
    let err = Error::RecordedCancelled { message: "stop".to_string() };
    assert!(err.is_recorded_error());
    assert_eq!(err.to_string(), "Recorded cancelled: stop");
    let http = Error::Http { message: "boom".to_string(), timeout: false, connect: false };
    assert_eq!(http.to_string(), "HTTP error: boom");
}
