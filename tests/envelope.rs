use hookhub::codec::DecodeError;
use hookhub::envelope::{filter_headers, is_stripped_header};
use hookhub::{capture, decode_message, encode_message, CaptureError, HttpVersion, Version};

fn pairs(items: &[(&str, &str)]) -> Vec<(String, String)> {
    items.iter().map(|(k, v)| (k.to_string(), v.to_string())).collect()
}

#[test]
fn capture_codes_follow_the_table() {
    assert_eq!(Version::from(HttpVersion::Http09), Version(0));
    assert_eq!(Version::from(HttpVersion::Http10), Version(1));
    assert_eq!(Version::from(HttpVersion::Http11), Version(2));
    assert_eq!(Version::from(HttpVersion::Http2), Version(2));
    assert_eq!(Version::from(HttpVersion::Http3), Version(3));
}

#[test]
fn rebuild_follows_the_table() {
    assert_eq!(Version(0).to_http(), Some(HttpVersion::Http09));
    assert_eq!(Version(1).to_http(), Some(HttpVersion::Http10));
    assert_eq!(Version(2).to_http(), Some(HttpVersion::Http11));
    assert_eq!(Version(3).to_http(), Some(HttpVersion::Http2));
    assert_eq!(Version(4).to_http(), Some(HttpVersion::Http3));
    assert_eq!(Version(5).to_http(), None);
}

#[test]
fn http2_capture_is_forwarded_as_http11() {
    let code = Version::from(HttpVersion::Http2);
    assert_eq!(code.to_http(), Some(HttpVersion::Http11));
}

#[test]
fn stripped_names_in_any_case() {
    assert!(is_stripped_header("host"));
    assert!(is_stripped_header("Host"));
    assert!(is_stripped_header("ORIGIN"));
    assert!(is_stripped_header("Connection"));
    assert!(!is_stripped_header("hostname"));
    assert!(!is_stripped_header("x-host"));
    assert!(!is_stripped_header(""));
}

#[test]
fn header_fidelity_keeps_order_and_duplicates() {
    let given = pairs(&[
        ("host", "example.com"),
        ("x-a", "1"),
        ("Origin", "https://o"),
        ("x-b", "2"),
        ("x-a", "3"),
        ("connection", "keep-alive"),
        ("content-type", "text/plain"),
    ]);
    let kept = filter_headers(&given);
    assert_eq!(kept, pairs(&[("x-a", "1"), ("x-b", "2"), ("x-a", "3"), ("content-type", "text/plain")]));
}

#[test]
fn header_fidelity_with_no_headers() {
    assert!(filter_headers(&Vec::new()).is_empty());
}

#[test]
fn duplicate_header_order_survives_capture() {
    let m = capture(
        "POST".to_string(),
        "/".to_string(),
        HttpVersion::Http11,
        &pairs(&[("X-H", "a"), ("X-H", "b")]),
        Vec::new(),
    )
    .unwrap();
    assert_eq!(m.headers, pairs(&[("X-H", "a"), ("X-H", "b")]));
}

#[test]
fn capture_fills_every_field() {
    let m = capture(
        "POST".to_string(),
        "/hook?x=1".to_string(),
        HttpVersion::Http2,
        &pairs(&[("host", "relay"), ("x-event", "push")]),
        b"{\"a\":1}".to_vec(),
    )
    .unwrap();
    assert_eq!(m.method, "POST");
    assert_eq!(m.fullpath, "/hook?x=1");
    assert_eq!(m.version, Version(2));
    assert_eq!(m.headers, pairs(&[("x-event", "push")]));
    assert_eq!(m.body, b"{\"a\":1}".to_vec());
}

#[test]
fn capture_refuses_a_bad_method() {
    let r = capture("".to_string(), "/".to_string(), HttpVersion::Http11, &Vec::new(), Vec::new());
    assert!(matches!(r, Err(CaptureError::InvalidMethod)));
    let r = capture("GE T".to_string(), "/".to_string(), HttpVersion::Http11, &Vec::new(), Vec::new());
    assert!(matches!(r, Err(CaptureError::InvalidMethod)));
}

#[test]
fn capture_refuses_a_target_without_slash() {
    let r = capture("OPTIONS".to_string(), "*".to_string(), HttpVersion::Http11, &Vec::new(), Vec::new());
    assert!(matches!(r, Err(CaptureError::InvalidTarget)));
}

#[test]
fn encoding_is_a_messagepack_array() {
    let m = capture("GET".to_string(), "/".to_string(), HttpVersion::Http11, &Vec::new(), Vec::new()).unwrap();
    let bytes = encode_message(&m);
    assert_eq!(bytes, vec![0x95, 0xa3, b'G', b'E', b'T', 0xa1, b'/', 0x02, 0x90, 0x90]);
}

#[test]
fn envelope_round_trip() {
    let m = capture(
        "PUT".to_string(),
        "/a/b?c=d&e=%20".to_string(),
        HttpVersion::Http10,
        &pairs(&[("x-h", "a"), ("x-h", "b"), ("content-type", "application/json")]),
        (0u8..=255).collect(),
    )
    .unwrap();
    let bytes = encode_message(&m);
    let back = decode_message(&bytes).unwrap();
    assert_eq!(back.method, m.method);
    assert_eq!(back.fullpath, m.fullpath);
    assert_eq!(back.version, m.version);
    assert_eq!(back.headers, m.headers);
    assert_eq!(back.body, m.body);
}

#[test]
fn envelope_round_trip_empty_body() {
    let m = capture("DELETE".to_string(), "/x".to_string(), HttpVersion::Http3, &Vec::new(), Vec::new()).unwrap();
    let back = decode_message(&encode_message(&m)).unwrap();
    assert_eq!(back.method, "DELETE");
    assert_eq!(back.fullpath, "/x");
    assert_eq!(back.version, Version(3));
    assert!(back.headers.is_empty());
    assert!(back.body.is_empty());
}

#[test]
fn decode_refuses_garbage() {
    assert!(matches!(decode_message(&[0xc1, 0x00]), Err(DecodeError::Malformed)));
    assert!(matches!(decode_message(&[]), Err(DecodeError::Malformed)));
}

fn raw(method: &str, fullpath: &str, version: u32, headers: Vec<(String, String)>) -> Vec<u8> {
    rmp_serde::to_vec(&(method, fullpath, version, headers, Vec::<u8>::new())).unwrap()
}

#[test]
fn decode_refuses_fields_that_break_invariants() {
    assert!(matches!(decode_message(&raw("", "/", 2, Vec::new())), Err(DecodeError::InvalidMethod)));
    assert!(matches!(decode_message(&raw("GET", "x", 2, Vec::new())), Err(DecodeError::InvalidTarget)));
    assert!(matches!(decode_message(&raw("GET", "/", 5, Vec::new())), Err(DecodeError::UnknownVersion)));
    assert!(matches!(
        decode_message(&raw("GET", "/", 2, pairs(&[("a", "b"), ("Host", "h")]))),
        Err(DecodeError::StrippedHeader)
    ));
}

#[test]
fn decode_accepts_version_four() {
    let m = decode_message(&raw("GET", "/", 4, Vec::new())).unwrap();
    assert_eq!(m.version.to_http(), Some(HttpVersion::Http3));
}

#[test]
fn decode_refuses_extra_fields() {
    let six = rmp_serde::to_vec(&("GET", "/", 2u32, Vec::<(String, String)>::new(), Vec::<u8>::new(), 1u8)).unwrap();
    assert!(matches!(decode_message(&six), Err(DecodeError::Malformed)));
    let four = rmp_serde::to_vec(&("GET", "/", 2u32, Vec::<(String, String)>::new())).unwrap();
    assert!(matches!(decode_message(&four), Err(DecodeError::Malformed)));
}
