use garden::encoder::encode_request;
use garden::handler::{answer, is_request_encodable, Unanswered};
use garden::request::{CapturedRequest, Header};
use garden::version::Version;

fn header(name: &[u8], value: &[u8]) -> Header {
    Header { name: name.to_vec(), value: value.to_vec() }
}

fn request(method: &[u8], version: Option<Version>, uri: &[u8], headers: Vec<Header>, body: &[u8]) -> CapturedRequest {
    CapturedRequest {
        method: method.to_vec(),
        version,
        uri: uri.to_vec(),
        headers,
        body: body.to_vec(),
    }
}

#[test]
fn answer_is_200_with_the_document() {
    let outcome = answer(
        b"GET".to_vec(),
        Some(Version::Http11),
        b"/".to_vec(),
        vec![header(b"Host", b"example.com")],
        Some(Vec::new()),
    );
    let response = outcome.ok().expect("a request with its body is answered");
    assert_eq!(response.status, 200);
    assert_eq!(
        response.body,
        "{\"method\":\"R0VU\",\"version\":\"MS4x\",\"uri\":\"Lw==\",\"headers\":[[\"SG9zdA==\",\"ZXhhbXBsZS5jb20=\"]],\"body\":\"\"}"
    );
}

#[test]
fn answer_encodes_the_body_that_was_collected() {
    let outcome = answer(b"POST".to_vec(), Some(Version::Http2), b"/p".to_vec(), Vec::new(), Some(b"hi".to_vec()));
    let response = outcome.ok().expect("a request with its body is answered");
    assert_eq!(
        response.body,
        "{\"method\":\"UE9TVA==\",\"version\":\"Mg==\",\"uri\":\"L3A=\",\"headers\":[],\"body\":\"aGk=\"}"
    );
}

#[test]
fn no_answer_without_the_whole_body() {
    let outcome = answer(b"POST".to_vec(), Some(Version::Http11), b"/".to_vec(), Vec::new(), None);
    assert_eq!(outcome.err(), Some(Unanswered::BodyUnread));
}

#[test]
fn requests_that_fit_in_memory_are_encodable() {
    assert!(is_request_encodable(&request(b"", None, b"", Vec::new(), b"")));
    assert!(is_request_encodable(&request(
        b"GET",
        Some(Version::Http11),
        b"/",
        vec![header(b"a", b"b"), header(b"", b"")],
        &vec![7u8; 1 << 16],
    )));
}

#[test]
fn different_requests_have_different_documents() {
    let base = request(
        b"GET",
        Some(Version::Http11),
        b"/",
        vec![header(b"h1", b"v1"), header(b"h1", b"v2"), header(b"h2", b"v3")],
        b"",
    );
    let others = vec![
        request(b"GET", Some(Version::Http11), b"/", vec![header(b"h1", b"v2"), header(b"h1", b"v1"), header(b"h2", b"v3")], b""),
        request(b"GET", Some(Version::Http11), b"/", vec![header(b"h1", b"v1"), header(b"h2", b"v3")], b""),
        request(b"GET", Some(Version::Http11), b"/", vec![header(b"h1", b"v1,v2"), header(b"h2", b"v3")], b""),
        request(b"GET", Some(Version::Http11), b"/", vec![header(b"H1", b"v1"), header(b"h1", b"v2"), header(b"h2", b"v3")], b""),
        request(b"get", Some(Version::Http11), b"/", vec![header(b"h1", b"v1"), header(b"h1", b"v2"), header(b"h2", b"v3")], b""),
        request(b"GET", Some(Version::Http10), b"/", vec![header(b"h1", b"v1"), header(b"h1", b"v2"), header(b"h2", b"v3")], b""),
        request(b"GET", None, b"/", vec![header(b"h1", b"v1"), header(b"h1", b"v2"), header(b"h2", b"v3")], b""),
        request(b"GET", Some(Version::Http11), b"/.", vec![header(b"h1", b"v1"), header(b"h1", b"v2"), header(b"h2", b"v3")], b""),
        request(b"GET", Some(Version::Http11), b"/", vec![header(b"h1", b"v1"), header(b"h1", b"v2"), header(b"h2", b"v3")], b"\0"),
        request(b"GET", Some(Version::Http11), b"/", vec![header(b"h1", b"v1"), header(b"h1", b"v2"), header(b"h2", b"")], b"v3"),
    ];
    let document = encode_request(&base);
    assert_eq!(document, encode_request(&base));
    for other in &others {
        assert_ne!(document, encode_request(other));
    }
}
