use garden::decoder::{decode_headers, round_trip, DecodeFailure};
use garden::encoder::{capture, CanonicalEncoding, EncodedHeader};
use garden::request::{CapturedRequest, Header};
use garden::version::{parse_label, UnknownLabel, Version};

fn encoding(method: &str, version: &str, uri: &str, headers: &[(&str, &str)], body: &str) -> CanonicalEncoding {
    CanonicalEncoding {
        method: method.to_string(),
        version: version.to_string(),
        uri: uri.to_string(),
        headers: headers
            .iter()
            .map(|(name, value)| EncodedHeader { name: name.to_string(), value: value.to_string() })
            .collect(),
        body: body.to_string(),
    }
}

fn same(a: &CapturedRequest, b: &CapturedRequest) -> bool {
    a.method == b.method
        && a.version == b.version
        && a.uri == b.uri
        && a.body == b.body
        && a.headers.len() == b.headers.len()
        && a.headers.iter().zip(b.headers.iter()).all(|(x, y)| x.name == y.name && x.value == y.value)
}

#[test]
fn parse_label_reads_each_label() {
    assert_eq!(parse_label(b"0.9"), Ok(Some(Version::Http09)));
    assert_eq!(parse_label(b"1.0"), Ok(Some(Version::Http10)));
    assert_eq!(parse_label(b"1.1"), Ok(Some(Version::Http11)));
    assert_eq!(parse_label(b"2"), Ok(Some(Version::Http2)));
    assert_eq!(parse_label(b"3"), Ok(Some(Version::Http3)));
    assert_eq!(parse_label(b""), Ok(None));
}

#[test]
fn parse_label_refuses_what_is_no_label() {
    assert_eq!(parse_label(b"1"), Err(UnknownLabel));
    assert_eq!(parse_label(b"2.0"), Err(UnknownLabel));
    assert_eq!(parse_label(b"1.2"), Err(UnknownLabel));
    assert_eq!(parse_label(b"0.8"), Err(UnknownLabel));
    assert_eq!(parse_label(b"1.10"), Err(UnknownLabel));
    assert_eq!(parse_label(b"HTTP/1.1"), Err(UnknownLabel));
    assert_eq!(parse_label(b"1 1"), Err(UnknownLabel));
    assert_eq!(parse_label(b" "), Err(UnknownLabel));
}

#[test]
fn parse_label_inverts_label() {
    let all = [Version::Http09, Version::Http10, Version::Http11, Version::Http2, Version::Http3];
    for version in all {
        assert_eq!(parse_label(version.label().as_bytes()), Ok(Some(version)));
    }
}

#[test]
fn decode_reads_the_fields_back() {
    let decoded = encoding("R0VU", "MS4x", "Lw==", &[("SG9zdA==", "ZXhhbXBsZS5jb20=")], "").decode();
    let request = decoded.ok().expect("a readable encoding");
    assert_eq!(request.method, b"GET");
    assert_eq!(request.version, Some(Version::Http11));
    assert_eq!(request.uri, b"/");
    assert_eq!(request.headers.len(), 1);
    assert_eq!(request.headers[0].name, b"Host");
    assert_eq!(request.headers[0].value, b"example.com");
    assert_eq!(request.body, b"");
}

#[test]
fn decode_reads_the_empty_version_as_unrecognized() {
    let request = encoding("R0VU", "", "Lw==", &[], "").decode().ok().expect("a readable encoding");
    assert_eq!(request.version, None);
    assert!(request.headers.is_empty());
}

#[test]
fn decode_refuses_text_that_is_not_base64() {
    assert_eq!(encoding("R0V", "MS4x", "Lw==", &[], "").decode().err(), Some(DecodeFailure::NotBase64));
    assert_eq!(encoding("R0VU", "MS4", "Lw==", &[], "").decode().err(), Some(DecodeFailure::NotBase64));
    assert_eq!(encoding("R0VU", "MS4x", "\"", &[], "").decode().err(), Some(DecodeFailure::NotBase64));
    assert_eq!(encoding("R0VU", "MS4x", "Lw==", &[], "*").decode().err(), Some(DecodeFailure::NotBase64));
    assert_eq!(
        encoding("R0VU", "MS4x", "Lw==", &[("eA==", "eQ=="), ("e", "eQ==")], "").decode().err(),
        Some(DecodeFailure::NotBase64)
    );
    assert_eq!(
        encoding("R0VU", "MS4x", "Lw==", &[("eA==", "e")], "").decode().err(),
        Some(DecodeFailure::NotBase64)
    );
}

#[test]
fn decode_refuses_a_version_without_label() {
    assert_eq!(
        encoding("R0VU", "NC4w", "Lw==", &[], "").decode().err(),
        Some(DecodeFailure::UnknownVersion)
    );
}

#[test]
fn decode_reports_bad_text_before_a_bad_version() {
    assert_eq!(
        encoding("R0VU", "NC4w", "Lw==", &[("eA==", "?")], "").decode().err(),
        Some(DecodeFailure::NotBase64)
    );
}

#[test]
fn decode_headers_keeps_order_and_duplicates() {
    let encoded = vec![
        EncodedHeader { name: "aDE=".to_string(), value: "djE=".to_string() },
        EncodedHeader { name: "aDE=".to_string(), value: "djI=".to_string() },
        EncodedHeader { name: "aDI=".to_string(), value: "djM=".to_string() },
    ];
    let headers = decode_headers(&encoded).expect("readable headers");
    assert_eq!(headers.len(), 3);
    assert_eq!((headers[0].name.as_slice(), headers[0].value.as_slice()), (&b"h1"[..], &b"v1"[..]));
    assert_eq!((headers[1].name.as_slice(), headers[1].value.as_slice()), (&b"h1"[..], &b"v2"[..]));
    assert_eq!((headers[2].name.as_slice(), headers[2].value.as_slice()), (&b"h2"[..], &b"v3"[..]));
    let broken = vec![EncodedHeader { name: "aDE".to_string(), value: "".to_string() }];
    assert!(decode_headers(&broken).is_none());
}

#[test]
fn round_trip_gives_the_request_back() {
    let requests = vec![
        CapturedRequest {
            method: b"GET".to_vec(),
            version: Some(Version::Http11),
            uri: b"/".to_vec(),
            headers: vec![Header { name: b"Host".to_vec(), value: b"example.com".to_vec() }],
            body: Vec::new(),
        },
        CapturedRequest {
            method: vec![0xff, b'"', b'\\', 0x00],
            version: None,
            uri: b"/\xc3\x28?\"q\"=\\".to_vec(),
            headers: vec![
                Header { name: b"h1".to_vec(), value: b"v1".to_vec() },
                Header { name: b"h1".to_vec(), value: b"v2".to_vec() },
                Header { name: b"h2".to_vec(), value: b"v3".to_vec() },
                Header { name: Vec::new(), value: Vec::new() },
                Header { name: b"H1".to_vec(), value: vec![0x80, 0x0a, 0x0d] },
            ],
            body: (0..=255u8).collect(),
        },
        CapturedRequest {
            method: Vec::new(),
            version: Some(Version::Http3),
            uri: Vec::new(),
            headers: Vec::new(),
            body: vec![b'{'; 70_000],
        },
    ];
    for request in &requests {
        let back = round_trip(request).ok().expect("the encoding of a request is readable");
        assert!(same(&back, request));
        let again = capture(request).decode().ok().expect("the encoding of a request is readable");
        assert!(same(&again, request));
    }
    assert!(!same(&requests[0], &requests[1]));
}

#[test]
fn round_trip_keeps_each_version() {
    let all = [
        Some(Version::Http09),
        Some(Version::Http10),
        Some(Version::Http11),
        Some(Version::Http2),
        Some(Version::Http3),
        None,
    ];
    for version in all {
        let request = CapturedRequest {
            method: b"GET".to_vec(),
            version,
            uri: b"/".to_vec(),
            headers: Vec::new(),
            body: Vec::new(),
        };
        let back = round_trip(&request).ok().expect("the encoding of a request is readable");
        assert_eq!(back.version, version);
    }
}
