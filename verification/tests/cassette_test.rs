use mockingbird::cassette::{
    BodyEncoding, Cassette, ErrorKind, Header, IndexedCassette, Interaction, RecordedError, RecordedRequest,
    RecordedResponse,
};

#[test]
fn types_test_header() {
    let header = Header::new("Authorization", "Bearer token");
    assert_eq!(header.name, "Authorization");
    assert_eq!(header.value, "Bearer token");
}

#[test]
fn cassette_test_test_header() {
    let header = Header::new("Authorization", "Bearer token");
    assert_eq!(header.name, "Authorization");
    assert_eq!(header.value, "Bearer token");
}

#[test]
fn types_test_cassette_new() {
    let cassette = Cassette::new();
    assert_eq!(cassette.version, 1);
    assert!(cassette.is_empty());
    assert!(cassette.recorded_with.starts_with("mockingbird/"));
}

#[test]
fn cassette_test_test_cassette_new() {
    let cassette = Cassette::new();
    assert_eq!(cassette.version, 1);
    assert!(cassette.is_empty());
    assert!(cassette.recorded_with.starts_with("mockingbird/"));
}

#[test]
fn test_cassette_add() {
    let mut cassette = Cassette::new();
    let req = RecordedRequest::new("GET", "https://example.com");
    let res = RecordedResponse::new(200);
    cassette.add(Interaction::new(req, res));
    assert_eq!(cassette.len(), 1);
}

#[test]
fn test_cassette_add_interaction() {
    let mut cassette = Cassette::new();
    let req = RecordedRequest::new("GET", "https://example.com");
    let res = RecordedResponse::new(200);
    cassette.add(Interaction::new(req, res));
    assert_eq!(cassette.len(), 1);
    assert!(!cassette.is_empty());
}

#[test]
fn types_test_recorded_request_builder() {
    let req = RecordedRequest::new("POST", "https://api.example.com/users")
        .header("Content-Type", "application/json")
        .body(r#"{"name": "test"}"#);
    assert_eq!(req.method, "POST");
    assert_eq!(req.headers.len(), 1);
    assert!(req.body.is_some());
}

#[test]
fn cassette_test_test_recorded_request_builder() {
    let req = RecordedRequest::new("POST", "https://api.example.com/users")
        .header("Content-Type", "application/json")
        .header("Accept", "application/json")
        .body(r#"{"name": "test"}"#);
    assert_eq!(req.method, "POST");
    assert_eq!(req.url, "https://api.example.com/users");
    assert_eq!(req.headers.len(), 2);
    assert!(req.body.is_some());
}

#[test]
fn types_test_recorded_response_builder() {
    let res = RecordedResponse::new(201).header("Content-Type", "application/json").body(r#"{"id": 1}"#);
    assert_eq!(res.status, 201);
    assert_eq!(res.headers.len(), 1);
}

#[test]
fn cassette_test_test_recorded_response_builder() {
    let res = RecordedResponse::new(201)
        .header("Content-Type", "application/json")
        .header("Location", "/users/1")
        .body(r#"{"id": 1}"#);
    assert_eq!(res.status, 201);
    assert_eq!(res.headers.len(), 2);
    assert_eq!(res.body, Some(r#"{"id": 1}"#.to_string()));
}

#[test]
fn types_test_body_encoding_default() {
    assert_eq!(BodyEncoding::default(), BodyEncoding::Text);
}

#[test]
fn cassette_test_test_body_encoding_default() {
    assert_eq!(BodyEncoding::default(), BodyEncoding::Text);
}

#[test]
fn cassette_test_test_error_interaction() {
    let req = RecordedRequest::new("GET", "https://example.com/timeout");
    let error = RecordedError::timeout("Connection timed out after 30s");
    let interaction = Interaction::error(req, error);
    assert!(interaction.is_error());
    assert!(interaction.response.is_none());
    assert!(interaction.error.is_some());
    let err = interaction.get_error().unwrap();
    assert_eq!(err.kind, ErrorKind::Timeout);
    assert!(err.message.contains("timed out"));
}

#[test]
fn test_recorded_error_constructors() {
    let timeout = RecordedError::timeout("timed out");
    assert_eq!(timeout.kind, ErrorKind::Timeout);
    let conn = RecordedError::connection("refused");
    assert_eq!(conn.kind, ErrorKind::Connection);
    let dns = RecordedError::dns("lookup failed");
    assert_eq!(dns.kind, ErrorKind::Dns);
}

fn three_interactions() -> Cassette {
    let mut cassette = Cassette::new();
    cassette.add(Interaction::new(RecordedRequest::new("GET", "https://example.com/a"), RecordedResponse::new(200)));
    cassette.add(Interaction::new(RecordedRequest::new("POST", "https://example.com/a"), RecordedResponse::new(201)));
    cassette.add(Interaction::new(RecordedRequest::new("GET", "https://example.com/b"), RecordedResponse::new(200)));
    cassette
}

#[test]
fn types_test_indexed_cassette_new() {
    let indexed = IndexedCassette::new(Cassette::new());
    assert!(indexed.is_empty());
}

#[test]
fn cassette_test_test_indexed_cassette_new() {
    let indexed = IndexedCassette::new(Cassette::new());
    assert!(indexed.is_empty());
    assert_eq!(indexed.len(), 0);
}

#[test]
fn types_test_indexed_cassette_find() {
    let indexed = IndexedCassette::new(three_interactions());
    let matches = indexed.find_by_method_url("GET", "https://example.com/a");
    assert_eq!(matches.len(), 1);
    assert_eq!(matches[0], 0);
    let matches = indexed.find_by_method_url("POST", "https://example.com/a");
    assert_eq!(matches.len(), 1);
    assert_eq!(matches[0], 1);
    let matches = indexed.find_by_method_url("GET", "https://example.com/b");
    assert_eq!(matches.len(), 1);
    assert_eq!(matches[0], 2);
    let matches = indexed.find_by_method_url("DELETE", "https://example.com/a");
    assert!(matches.is_empty());
}

#[test]
fn cassette_test_test_indexed_cassette_find() {
    let indexed = IndexedCassette::new(three_interactions());
    let matches = indexed.find_by_method_url("GET", "https://example.com/a");
    assert_eq!(matches.len(), 1);
    assert_eq!(matches[0], 0);
    let matches = indexed.find_by_method_url("POST", "https://example.com/a");
    assert_eq!(matches.len(), 1);
    assert_eq!(matches[0], 1);
    let matches = indexed.find_by_method_url("DELETE", "https://example.com/a");
    assert!(matches.is_empty());
}

#[test]
fn types_test_indexed_cassette_add() {
    let mut indexed = IndexedCassette::new(Cassette::new());
    indexed.add(Interaction::new(RecordedRequest::new("GET", "https://example.com/new"), RecordedResponse::new(200)));
    assert_eq!(indexed.len(), 1);
    let matches = indexed.find_by_method_url("GET", "https://example.com/new");
    assert_eq!(matches.len(), 1);
}

#[test]
fn cassette_test_test_indexed_cassette_add() {
    let mut indexed = IndexedCassette::new(Cassette::new());
    indexed.add(Interaction::new(RecordedRequest::new("GET", "https://example.com/new"), RecordedResponse::new(200)));
    assert_eq!(indexed.len(), 1);
    let matches = indexed.find_by_method_url("GET", "https://example.com/new");
    assert_eq!(matches.len(), 1);
}

fn same_url_twice() -> Cassette {
    let mut cassette = Cassette::new();
    cassette.add(Interaction::new(RecordedRequest::new("GET", "https://example.com/api"), RecordedResponse::new(200)));
    cassette.add(Interaction::new(RecordedRequest::new("GET", "https://example.com/api"), RecordedResponse::new(201)));
    cassette
}

#[test]
fn types_test_indexed_cassette_multiple_same_url() {
    let indexed = IndexedCassette::new(same_url_twice());
    let matches = indexed.find_by_method_url("GET", "https://example.com/api");
    assert_eq!(matches.len(), 2);
    assert_eq!(matches[0], 0);
    assert_eq!(matches[1], 1);
}

#[test]
fn cassette_test_test_indexed_cassette_multiple_same_url() {
    let indexed = IndexedCassette::new(same_url_twice());
    let matches = indexed.find_by_method_url("GET", "https://example.com/api");
    assert_eq!(matches.len(), 2);
    assert_eq!(matches[0], 0);
    assert_eq!(matches[1], 1);
}

fn lowercase_get() -> Cassette {
    let mut cassette = Cassette::new();
    cassette.add(Interaction::new(RecordedRequest::new("get", "https://example.com/api"), RecordedResponse::new(200)));
    cassette
}

#[test]
fn types_test_indexed_cassette_case_insensitive_method() {
    let indexed = IndexedCassette::new(lowercase_get());
    assert_eq!(indexed.find_by_method_url("GET", "https://example.com/api").len(), 1);
    assert_eq!(indexed.find_by_method_url("get", "https://example.com/api").len(), 1);
}

#[test]
fn cassette_test_test_indexed_cassette_case_insensitive_method() {
    let indexed = IndexedCassette::new(lowercase_get());
    assert_eq!(indexed.find_by_method_url("GET", "https://example.com/api").len(), 1);
    assert_eq!(indexed.find_by_method_url("get", "https://example.com/api").len(), 1);
}

#[test]
fn index_rebuilt_after_changes() {
    let mut indexed = IndexedCassette::new(three_interactions());
    indexed.cassette_mut().interactions.remove(0);
    indexed.rebuild_index();
    assert!(indexed.find_by_method_url("GET", "https://example.com/a").is_empty());
    assert_eq!(indexed.find_by_method_url("GET", "https://example.com/b"), &[1usize][..]);
    assert_eq!(indexed.get(1).unwrap().request.url, "https://example.com/b");
    assert!(indexed.get(2).is_none());
    assert_eq!(indexed.interactions().len(), 2);
    let c = indexed.into_cassette();
    assert_eq!(c.len(), 2);
}

#[test]
fn index_add_appends_position() {
    let mut indexed = IndexedCassette::new(same_url_twice());
    indexed.add(Interaction::new(RecordedRequest::new("get", "https://example.com/api"), RecordedResponse::new(202)));
    assert_eq!(indexed.find_by_method_url("Get", "https://example.com/api"), &[0usize, 1, 2][..]);
}

#[test]
fn interaction_accessors() {
    let ok = Interaction::new(RecordedRequest::new("GET", "/"), RecordedResponse::new(204));
    assert!(!ok.is_error());
    assert_eq!(ok.get_response().unwrap().status, 204);
    assert!(ok.get_error().is_none());
    let at = Interaction::new_at(RecordedRequest::new("GET", "/"), RecordedResponse::new(200), 42);
    assert_eq!(at.recorded_at, 42);
}
