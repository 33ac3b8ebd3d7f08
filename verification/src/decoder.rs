//! From a canonical encoding back to the request: the encoding is reversible.

use crate::codec::{decode_field, standard_base64_decoded};
use crate::encoder::{
    capture, decodes_to, request_encodable, CanonicalEncoding, CanonicalEncodingView,
    EncodedHeader,
};
use crate::request::{header_pairs, CapturedRequest, CapturedRequestView, Header};
use crate::version::{
    ascii_bytes, label_text, lemma_label_identifies_version, parse_label, Version,
};
use vstd::prelude::*;

verus! {

/// Why an encoding cannot be read back.
#[derive(Clone, Copy, Debug, PartialEq, Eq, Structural)]
pub enum DecodeFailure {
    /// One of the texts is not padded standard base64.
    NotBase64,
    /// Every text is base64, but the version text stands for no label.
    UnknownVersion,
}

/// Every text of the encoding can be decoded as padded standard base64.
pub open spec fn all_decodable(encoding: CanonicalEncodingView) -> bool {
    &&& standard_base64_decoded(encoding.method) is Some
    &&& standard_base64_decoded(encoding.version) is Some
    &&& standard_base64_decoded(encoding.uri) is Some
    &&& standard_base64_decoded(encoding.body) is Some
    &&& forall|i: int|
        0 <= i < encoding.headers.len() ==> standard_base64_decoded(
            (#[trigger] encoding.headers[i]).0,
        ) is Some && standard_base64_decoded(encoding.headers[i].1) is Some
}

/// The version text of the encoding stands for the label of some version.
pub open spec fn version_known(encoding: CanonicalEncodingView) -> bool {
    exists|version: Option<Version>|
        standard_base64_decoded(encoding.version) == Some(
            ascii_bytes(#[trigger] label_text(version)),
        )
}

/// Decodes the headers one by one, in order; fails at the first text that is
/// not base64.
pub fn decode_headers(encoded: &Vec<EncodedHeader>) -> (decoded: Option<Vec<Header>>)
    ensures
        match decoded {
            Some(headers) => headers.len() == encoded.len() && forall|i: int|
                0 <= i < encoded.len() ==> standard_base64_decoded((#[trigger] encoded[i]).name@)
                    == Some(headers[i].name@) && standard_base64_decoded(encoded[i].value@)
                    == Some(headers[i].value@),
            None => exists|i: int|
                0 <= i < encoded.len() && (standard_base64_decoded((#[trigger] encoded[i]).name@)
                    is None || standard_base64_decoded(encoded[i].value@) is None),
        },
{
    let mut headers: Vec<Header> = Vec::new();
    let mut i: usize = 0;
    while i < encoded.len()
        invariant
            i <= encoded.len(),
            headers.len() == i,
            forall|j: int|
                0 <= j < i ==> standard_base64_decoded((#[trigger] encoded[j]).name@) == Some(
                    headers[j].name@,
                ) && standard_base64_decoded(encoded[j].value@) == Some(headers[j].value@),
        decreases encoded.len() - i,
    {
        let name = match decode_field(encoded[i].name.as_str()) {
            Ok(bytes) => bytes,
            Err(_) => {
                return None;
            },
        };
        let value = match decode_field(encoded[i].value.as_str()) {
            Ok(bytes) => bytes,
            Err(_) => {
                return None;
            },
        };
        headers.push(Header { name, value });
        i += 1;
    }
    Some(headers)
}

impl CanonicalEncoding {
    /// Reads the request back from its encoding. This succeeds exactly where
    /// every text is base64 and the version text stands for a label; the
    /// request then has the bytes that the texts decode to, header by header
    /// in the same order.
    pub fn decode(&self) -> (decoded: Result<CapturedRequest, DecodeFailure>)
        ensures
            match decoded {
                Ok(request) => decodes_to(self@, request@),
                Err(DecodeFailure::NotBase64) => !all_decodable(self@),
                Err(DecodeFailure::UnknownVersion) => all_decodable(self@) && !version_known(self@),
            },
    {
        let method = match decode_field(self.method.as_str()) {
            Ok(bytes) => bytes,
            Err(_) => {
                return Err(DecodeFailure::NotBase64);
            },
        };
        let label = match decode_field(self.version.as_str()) {
            Ok(bytes) => bytes,
            Err(_) => {
                return Err(DecodeFailure::NotBase64);
            },
        };
        let uri = match decode_field(self.uri.as_str()) {
            Ok(bytes) => bytes,
            Err(_) => {
                return Err(DecodeFailure::NotBase64);
            },
        };
        let body = match decode_field(self.body.as_str()) {
            Ok(bytes) => bytes,
            Err(_) => {
                return Err(DecodeFailure::NotBase64);
            },
        };
        let headers = match decode_headers(&self.headers) {
            Some(headers) => headers,
            None => {
                proof {
                    let i = choose|i: int|
                        0 <= i < self.headers.len() && (standard_base64_decoded(
                            (#[trigger] self.headers[i]).name@,
                        ) is None || standard_base64_decoded(self.headers[i].value@) is None);
                    assert(self@.headers[i] == self.headers[i]@);
                }
                return Err(DecodeFailure::NotBase64);
            },
        };
        assert forall|i: int| 0 <= i < self@.headers.len() implies standard_base64_decoded(
            (#[trigger] self@.headers[i]).0,
        ) == Some(header_pairs(headers@)[i].0) && standard_base64_decoded(self@.headers[i].1)
            == Some(header_pairs(headers@)[i].1) by {
            assert(self@.headers[i] == self.headers[i]@);
        }
        match parse_label(label.as_slice()) {
            Ok(version) => Ok(CapturedRequest { method, version, uri, headers, body }),
            Err(_) => Err(DecodeFailure::UnknownVersion),
        }
    }
}

/// Encodes a request and reads the encoding back. The result is the request
/// again: every field has its bytes, the headers their order and duplicates,
/// and the version is the one that went in.
pub fn round_trip(request: &CapturedRequest) -> (back: Result<CapturedRequest, DecodeFailure>)
    requires
        request_encodable(request@),
    ensures
        back is Ok,
        back->Ok_0@ == request@,
{
    let encoding = capture(request);
    let back = encoding.decode();
    proof {
        lemma_encoding_is_readable(encoding@, request@);
        if back is Ok {
            lemma_encoding_identifies_request(encoding@, back->Ok_0@, request@);
        }
    }
    back
}

/// An encoding stands for at most one request: two requests that the same
/// encoding decodes to are equal in every field, header order and duplicates
/// included.
pub proof fn lemma_encoding_identifies_request(
    encoding: CanonicalEncodingView,
    a: CapturedRequestView,
    b: CapturedRequestView,
)
    requires
        decodes_to(encoding, a),
        decodes_to(encoding, b),
    ensures
        a == b,
{
    lemma_label_identifies_version(a.version, b.version);
    assert forall|i: int| 0 <= i < a.headers.len() implies a.headers[i] == b.headers[i] by {
        let pair = encoding.headers[i];
        assert(standard_base64_decoded(pair.0) == Some(a.headers[i].0));
        assert(standard_base64_decoded(pair.0) == Some(b.headers[i].0));
    }
    assert(a.headers =~= b.headers);
}

/// Whatever decodes to a request can be read back: decoding does not fail on
/// the encoding of any request.
pub proof fn lemma_encoding_is_readable(encoding: CanonicalEncodingView, request: CapturedRequestView)
    requires
        decodes_to(encoding, request),
    ensures
        all_decodable(encoding),
        version_known(encoding),
{
    assert(standard_base64_decoded(encoding.version) == Some(
        ascii_bytes(label_text(request.version)),
    ));
}

} // verus!
