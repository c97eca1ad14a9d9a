use mockingbird::cassette::{BodyEncoding, RecordedResponse};
use mockingbird::error::Error;
use mockingbird::response::Response;
use flate2::read::{DeflateDecoder, GzDecoder};
use std::io::Read;

fn json_response() -> RecordedResponse {
    RecordedResponse::new(200).header("Content-Type", "application/json").body(r#"{"value":42}"#)
}

#[test]
fn response_test_from_recorded() {
    let resp = Response::from_recorded(json_response());
    assert_eq!(resp.status(), 200);
    assert!(resp.is_success());
}

#[test]
fn test_status() {
    let resp = Response::new(404, b"Not Found");
    assert_eq!(resp.status(), 404);
    assert!(!resp.is_success());
}

#[test]
fn test_status_code() {
    let resp = Response::new(201, b"Created");
    assert_eq!(resp.status_code(), reqwest::StatusCode::CREATED);
    let resp2 = Response::new(404, b"Not Found");
    assert_eq!(resp2.status_code(), reqwest::StatusCode::NOT_FOUND);
}

#[test]
fn response_test_header() {
    let resp = Response::from_recorded(json_response());
    assert_eq!(resp.header("content-type"), Some("application/json"));
    assert_eq!(resp.header("Content-Type"), Some("application/json"));
    assert!(resp.header("X-Missing").is_none());
}

#[test]
fn test_text() {
    let resp = Response::from_recorded(RecordedResponse::new(200).body("Hello, World!"));
    assert_eq!(resp.text().unwrap(), "Hello, World!");
}

#[test]
fn test_bytes() {
    let resp = Response::from_recorded(RecordedResponse::new(200).body("Hello"));
    assert_eq!(resp.bytes(), b"Hello".to_vec());
}

#[test]
fn response_test_json() {
    let resp = Response::from_recorded(json_response());
    let data: serde_json::Value = serde_json::from_slice(&resp.bytes()).unwrap();
    assert_eq!(data["value"], 42);
}

#[test]
fn response_test_to_recorded() {
    let resp = Response::new(201, br#"{"created":true}"#);
    let recorded = resp.to_recorded();
    assert_eq!(recorded.status, 201);
    assert_eq!(recorded.body, Some(r#"{"created":true}"#.to_string()));
}

#[test]
fn test_binary_body() {
    let binary = vec![0x00, 0x01, 0x02, 0xFF];
    let resp = Response::new(200, &binary);
    let recorded = resp.to_recorded();
    assert_eq!(recorded.body_encoding, BodyEncoding::Base64);
    let resp2 = Response::from_recorded(recorded);
    assert_eq!(resp2.bytes(), binary);
}

#[test]
fn test_empty_body() {
    let resp = Response::from_recorded(RecordedResponse::new(204));
    assert!(resp.bytes().is_empty());
    assert_eq!(resp.text().unwrap(), "");
}

#[test]
fn test_with_compression_gzip() {
    let resp = Response::new(200, b"Hello, World!");
    let compressed = resp.with_compression(Some("gzip, deflate"));
    assert_eq!(compressed.header("content-encoding"), Some("gzip"));
    let compressed_bytes = compressed.bytes();
    assert_ne!(compressed_bytes, b"Hello, World!".to_vec());
    let mut decoder = GzDecoder::new(compressed_bytes.as_slice());
    let mut decompressed = String::new();
    decoder.read_to_string(&mut decompressed).unwrap();
    assert_eq!(decompressed, "Hello, World!");
}

#[test]
fn test_with_compression_deflate() {
    let resp = Response::new(200, b"Hello, Deflate!");
    let compressed = resp.with_compression(Some("deflate"));
    assert_eq!(compressed.header("content-encoding"), Some("deflate"));
    let compressed_bytes = compressed.bytes();
    let mut decoder = DeflateDecoder::new(compressed_bytes.as_slice());
    let mut decompressed = String::new();
    decoder.read_to_string(&mut decompressed).unwrap();
    assert_eq!(decompressed, "Hello, Deflate!");
}

#[test]
fn test_with_compression_none() {
    let resp = Response::new(200, b"No compression");
    let same = resp.clone().with_compression(None);
    assert!(same.header("content-encoding").is_none());
    assert_eq!(same.bytes(), b"No compression".to_vec());
}

#[test]
fn test_with_compression_unsupported() {
    let resp = Response::new(200, b"Brotli not supported");
    let same = resp.clone().with_compression(Some("br"));
    assert!(same.header("content-encoding").is_none());
    assert_eq!(same.bytes(), b"Brotli not supported".to_vec());
}

#[test]
fn test_with_compression_empty_body() {
    let resp = Response::new(204, b"");
    let same = resp.with_compression(Some("gzip"));
    assert!(same.header("content-encoding").is_none());
    assert!(same.bytes().is_empty());
}

#[test]
fn response_text_invalid_utf8() {
    let resp = Response::new(200, &[0xC3, 0x28]);
    match resp.text() {
        Err(Error::InvalidFormat(m)) => assert!(m.starts_with("Invalid UTF-8: ")),
        other => panic!("unexpected: {:?}", other),
    }
}

#[test]
fn response_compression_case_insensitive_and_already_encoded() {
    let resp = Response::new(200, b"abc").with_compression(Some("GZIP"));
    assert_eq!(resp.header("content-encoding"), Some("gzip"));
    let again = resp.clone().with_compression(Some("deflate"));
    assert_eq!(again.bytes(), resp.bytes());
}

#[test]
fn response_status_code_fallback() {
    assert_eq!(Response::new(42, b"").status_code(), reqwest::StatusCode::OK);
    assert_eq!(Response::new(999, b"").status_code().as_u16(), 999);
}

#[test]
fn response_headers_lowercased_last_wins() {
    let rec = RecordedResponse::new(200).header("X-A", "1").header("x-a", "2");
    let resp = Response::from_recorded(rec);
    assert_eq!(resp.headers().len(), 1);
    assert_eq!(resp.header("X-A"), Some("2"));
}

#[test]
fn response_round_trip_through_recorded_form() {
    let resp = Response::from_recorded(RecordedResponse::new(201).header("Content-Type", "application/octet-stream"));
    let resp = Response::new(resp.status(), &[0x00, 0x01, 0x02, 0xFF]);
    let back = Response::from_recorded(resp.to_recorded());
    assert_eq!(back.status(), resp.status());
    assert_eq!(back.headers(), resp.headers());
    assert_eq!(back.bytes(), resp.bytes());
    let with_headers = Response::from_recorded(RecordedResponse::new(200).header("X-A", "1").header("x-b", "2").body("hi"));
    let again = Response::from_recorded(with_headers.to_recorded());
    assert_eq!(again.headers(), with_headers.headers());
    assert_eq!(again.bytes(), with_headers.bytes());
}
