use mockingbird::cassette::{Cassette, ErrorKind, Interaction, RecordedError, RecordedRequest, RecordedResponse};
use mockingbird::error::Error;
use mockingbird::filter::ReplaceRequestBody;
use mockingbird::middleware::{MockingbirdLayer, PlaybackResult};
use mockingbird::mode::Mode;

#[test]
fn test_layer_builder() {
    let layer = MockingbirdLayer::auto("test.json").build(Cassette::new());
    assert!(matches!(layer.mode(), Mode::Auto));
}

#[test]
fn test_playback_layer() {
    let layer = MockingbirdLayer::playback("test.json").build(Cassette::new());
    assert!(matches!(layer.mode(), Mode::Replay));
    assert!(layer.should_playback());
    assert!(!layer.should_record());
}

#[test]
fn test_record_layer() {
    let layer = MockingbirdLayer::record("test.json").build(Cassette::new());
    assert!(matches!(layer.mode(), Mode::Record));
    assert!(!layer.should_playback());
    assert!(layer.should_record());
}

#[test]
fn test_try_playback_empty() {
    let layer = MockingbirdLayer::playback("test.json").build(Cassette::new());
    let result = layer.try_playback(&RecordedRequest::new("GET", "https://example.com")).unwrap();
    assert!(result.is_none());
}

#[test]
fn test_record_and_playback() {
    let mut recorder = MockingbirdLayer::record("test.json").build(Cassette::new());
    recorder.record_interaction(
        RecordedRequest::new("GET", "https://example.com/api"),
        RecordedResponse::new(200).body("recorded"),
    );
    let saved = recorder.cassette().interactions.iter().map(|i| i.clone()).collect::<Vec<_>>();
    let mut cassette = Cassette::new();
    for i in saved {
        cassette.add(i);
    }
    let layer = MockingbirdLayer::playback("test.json").build(cassette);
    let result = layer.try_playback(&RecordedRequest::new("GET", "https://example.com/api")).unwrap();
    match result.unwrap() {
        PlaybackResult::Response(resp) => {
            assert_eq!(resp.status, 200);
            assert_eq!(resp.body, Some("recorded".to_string()));
        }
        PlaybackResult::Error(_) => panic!("expected response, got error"),
    }
}

#[test]
fn test_process_request_replay_mode() {
    let mut cassette = Cassette::new();
    cassette.add(Interaction::new(
        RecordedRequest::new("GET", "https://example.com"),
        RecordedResponse::new(200).body("cached"),
    ));
    let layer = MockingbirdLayer::playback("test.json").build(cassette);
    let result = layer.process_request(&RecordedRequest::new("GET", "https://example.com")).unwrap();
    assert!(result.is_some());
}

#[test]
fn test_process_request_record_mode() {
    let layer = MockingbirdLayer::record("test.json").build(Cassette::new());
    let result = layer.process_request(&RecordedRequest::new("GET", "https://example.com")).unwrap();
    assert!(result.is_none());
}

#[test]
fn test_auto_mode_fallback() {
    let layer = MockingbirdLayer::auto("test.json").build(Cassette::new());
    let result = layer.process_request(&RecordedRequest::new("GET", "https://example.com/new")).unwrap();
    assert!(result.is_none());
}

#[test]
fn test_error_interaction_playback() {
    let mut cassette = Cassette::new();
    cassette.add(Interaction::error(
        RecordedRequest::new("GET", "https://timeout.example.com"),
        RecordedError::timeout("connection timed out"),
    ));
    let layer = MockingbirdLayer::playback("test.json").build(cassette);
    let req = RecordedRequest::new("GET", "https://timeout.example.com");
    let result = layer.try_playback(&req).unwrap();
    match result.unwrap() {
        PlaybackResult::Error(err) => {
            assert_eq!(err.kind, ErrorKind::Timeout);
            assert!(err.message.contains("timed out"));
        }
        PlaybackResult::Response(_) => panic!("expected error, got response"),
    }
    let result = layer.process_request(&req);
    assert!(result.is_err());
    assert!(result.unwrap_err().to_string().contains("timed out"));
}

#[test]
fn layer_replay_mode_no_match() {
    let layer = MockingbirdLayer::playback("test.json").build(Cassette::new());
    assert!(matches!(layer.process_request(&RecordedRequest::new("GET", "u")), Err(Error::NoMatch)));
}

#[test]
fn layer_skips_interactions_without_outcome() {
    let mut cassette = Cassette::new();
    let mut empty = Interaction::new(RecordedRequest::new("GET", "u"), RecordedResponse::new(500));
    empty.response = None;
    cassette.add(empty);
    cassette.add(Interaction::new(RecordedRequest::new("GET", "u"), RecordedResponse::new(200)));
    let layer = MockingbirdLayer::playback("t.json").build(cassette);
    match layer.try_playback(&RecordedRequest::new("GET", "u")).unwrap() {
        Some(PlaybackResult::Response(r)) => assert_eq!(r.status, 200),
        _ => panic!("expected the second interaction"),
    }
}

#[test]
fn layer_expiry_and_filters() {
    let mut cassette = Cassette::new();
    cassette.interactions.push(Interaction::new_at(
        RecordedRequest::new("POST", "u").body("token=[T]"),
        RecordedResponse::new(200),
        0,
    ));
    let layer = MockingbirdLayer::playback("t.json")
        .request_filter(ReplaceRequestBody::new("abc", "[T]"))
        .expire_after(std::time::Duration::from_secs(10))
        .build(cassette);
    let req = RecordedRequest::new("POST", "u").body("token=abc");
    assert!(matches!(layer.try_playback_at(&req, 5_000_000_000), Ok(Some(PlaybackResult::Response(_)))));
    assert!(matches!(layer.try_playback_at(&req, 11_000_000_000), Err(Error::CassetteExpired { .. })));
}

#[test]
fn layer_process_response_records_in_auto() {
    let mut layer = MockingbirdLayer::auto("t.json").build(Cassette::new());
    let (resp, changed) = layer.process_response(RecordedRequest::new("GET", "u"), RecordedResponse::new(201));
    assert!(changed);
    assert_eq!(resp.status, 201);
    assert_eq!(layer.cassette().len(), 1);
    let mut passthrough = MockingbirdLayer::playback("t.json").mode(Mode::Passthrough).build(Cassette::new());
    let (_, changed) = passthrough.process_response(RecordedRequest::new("GET", "u"), RecordedResponse::new(201));
    assert!(!changed);
    assert!(passthrough.cassette().is_empty());
}

#[test]
fn layer_playback_result_to_response() {
    let layer = MockingbirdLayer::playback("t.json").build(Cassette::new());
    let ok = layer.playback_result_to_response(PlaybackResult::Response(RecordedResponse::new(200)));
    assert_eq!(ok.unwrap().status, 200);
    let err = layer.playback_result_to_response(PlaybackResult::Error(RecordedError::new(ErrorKind::Tls, "bad cert")));
    assert_eq!(err.unwrap_err().to_string(), "Recorded TLS error: bad cert");
}
