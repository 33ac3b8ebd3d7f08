//! One request from receipt to answer: map the version, take the collected
//! body, encode the headers, assemble the document, emit the response.

use crate::codec::{encodable, is_encodable};
use crate::encoder::{canonical_json, echo, request_encodable, reversible};
use crate::request::{header_pairs, CapturedRequest, CapturedRequestView, Header};
use crate::response::Response;
use crate::version::Version;
use vstd::prelude::*;

verus! {

/// Why a request gets no answer.
#[derive(Clone, Copy, Debug, PartialEq, Eq, Structural)]
pub enum Unanswered {
    /// The body stream failed, or did not reach its end.
    BodyUnread,
    /// A field is too long for its base64 text to be held in memory.
    TooLong,
}

/// Tells whether every field of the request is short enough to be encoded.
pub fn is_request_encodable(request: &CapturedRequest) -> (fits: bool)
    ensures
        fits == request_encodable(request@),
{
    if !is_encodable(request.method.as_slice()) || !is_encodable(request.uri.as_slice())
        || !is_encodable(request.body.as_slice()) {
        return false;
    }
    let ghost pairs = header_pairs(request.headers@);
    let mut i: usize = 0;
    while i < request.headers.len()
        invariant
            i <= request.headers.len(),
            pairs == header_pairs(request.headers@),
            forall|j: int| 0 <= j < i ==> encodable((#[trigger] pairs[j]).0) && encodable(pairs[j].1),
        decreases request.headers.len() - i,
    {
        let header = &request.headers[i];
        assert(pairs[i as int] == header@);
        if !is_encodable(header.name.as_slice()) || !is_encodable(header.value.as_slice()) {
            return false;
        }
        i += 1;
    }
    true
}

/// The request that the parts make up.
pub open spec fn request_of(
    method: Seq<u8>,
    version: Option<Version>,
    uri: Seq<u8>,
    headers: Seq<Header>,
    body: Seq<u8>,
) -> CapturedRequestView {
    CapturedRequestView { method, version, uri, headers: header_pairs(headers), body }
}

/// Answers a request whose body stream has been drained; `body` is what the
/// collection gave. A request with its whole body is answered with status
/// 200 and its canonical document. Where the body was not read to its end
/// there is no answer, and the failure is handed on instead.
pub fn answer(
    method: Vec<u8>,
    version: Option<Version>,
    uri: Vec<u8>,
    headers: Vec<Header>,
    body: Option<Vec<u8>>,
) -> (outcome: Result<Response, Unanswered>)
    ensures
        match outcome {
            Ok(response) => {
                &&& body is Some
                &&& request_encodable(request_of(method@, version, uri@, headers@, body->Some_0@))
                &&& reversible(request_of(method@, version, uri@, headers@, body->Some_0@))
                &&& response.status == 200
                &&& response.body@ == canonical_json(
                    request_of(method@, version, uri@, headers@, body->Some_0@),
                )
            },
            Err(Unanswered::BodyUnread) => body is None,
            Err(Unanswered::TooLong) => body is Some && !request_encodable(
                request_of(method@, version, uri@, headers@, body->Some_0@),
            ),
        },
{
    match body {
        None => Err(Unanswered::BodyUnread),
        Some(bytes) => {
            let request = CapturedRequest { method, version, uri, headers, body: bytes };
            if is_request_encodable(&request) {
                Ok(echo(&request))
            } else {
                Err(Unanswered::TooLong)
            }
        },
    }
}

} // verus!
