//! From a captured request to its canonical JSON document.
//!
//! The work is done in two layers. The first turns every field into base64
//! text and keeps the request's shape; the second writes that shape as JSON.
//! Base64 text holds no character that JSON would escape, so the second layer
//! only places quotes, brackets and commas.

use crate::codec::{
    encodable, encode_field, is_base64_text, standard_base64, standard_base64_decoded,
};
use crate::request::{header_pairs, CapturedRequest, CapturedRequestView, Header};
use crate::response::{respond, Response};
use crate::version::{ascii_bytes, label_text, version_label};
use vstd::prelude::*;
use vstd::string::*;

verus! {

/// One header with name and value as base64 text.
pub struct EncodedHeader {
    pub name: String,
    pub value: String,
}

impl View for EncodedHeader {
    type V = (Seq<char>, Seq<char>);

    open spec fn view(&self) -> (Seq<char>, Seq<char>) {
        (self.name@, self.value@)
    }
}

/// Encoded headers as pairs of texts, in their order.
pub open spec fn encoded_pairs(headers: Seq<EncodedHeader>) -> Seq<(Seq<char>, Seq<char>)> {
    Seq::new(headers.len(), |i: int| headers[i]@)
}

/// What a canonical encoding holds, as plain values.
pub ghost struct CanonicalEncodingView {
    pub method: Seq<char>,
    pub version: Seq<char>,
    pub uri: Seq<char>,
    pub headers: Seq<(Seq<char>, Seq<char>)>,
    pub body: Seq<char>,
}

/// A request with every field as base64 text: the content of the document.
pub struct CanonicalEncoding {
    pub method: String,
    pub version: String,
    pub uri: String,
    pub headers: Vec<EncodedHeader>,
    pub body: String,
}

impl View for CanonicalEncoding {
    type V = CanonicalEncodingView;

    open spec fn view(&self) -> CanonicalEncodingView {
        CanonicalEncodingView {
            method: self.method@,
            version: self.version@,
            uri: self.uri@,
            headers: encoded_pairs(self.headers@),
            body: self.body@,
        }
    }
}

/// The base64 texts of a sequence of headers: one pair for each header, in
/// the same order, duplicates included.
pub open spec fn encoded_headers(headers: Seq<(Seq<u8>, Seq<u8>)>) -> Seq<(Seq<char>, Seq<char>)> {
    Seq::new(
        headers.len(),
        |i: int| (standard_base64(headers[i].0), standard_base64(headers[i].1)),
    )
}

/// The canonical encoding of a request: each field in base64, the version by
/// the bytes of its label.
pub open spec fn encoding_of(request: CapturedRequestView) -> CanonicalEncodingView {
    CanonicalEncodingView {
        method: standard_base64(request.method),
        version: standard_base64(ascii_bytes(label_text(request.version))),
        uri: standard_base64(request.uri),
        headers: encoded_headers(request.headers),
        body: standard_base64(request.body),
    }
}

/// Every header name and value is short enough to be encoded.
pub open spec fn headers_encodable(headers: Seq<(Seq<u8>, Seq<u8>)>) -> bool {
    forall|i: int|
        0 <= i < headers.len() ==> encodable((#[trigger] headers[i]).0) && encodable(headers[i].1)
}

/// Every field of the request is short enough to be encoded.
pub open spec fn request_encodable(request: CapturedRequestView) -> bool {
    &&& encodable(request.method)
    &&& encodable(request.uri)
    &&& headers_encodable(request.headers)
    &&& encodable(request.body)
}

/// Decoding every text of `encoding` gives back the bytes of `request`.
pub open spec fn decodes_to(encoding: CanonicalEncodingView, request: CapturedRequestView) -> bool {
    &&& standard_base64_decoded(encoding.method) == Some(request.method)
    &&& standard_base64_decoded(encoding.version) == Some(
        ascii_bytes(label_text(request.version)),
    )
    &&& standard_base64_decoded(encoding.uri) == Some(request.uri)
    &&& encoding.headers.len() == request.headers.len()
    &&& forall|i: int|
        0 <= i < request.headers.len() ==> standard_base64_decoded(
            (#[trigger] encoding.headers[i]).0,
        ) == Some(request.headers[i].0) && standard_base64_decoded(encoding.headers[i].1) == Some(
            request.headers[i].1,
        )
    &&& standard_base64_decoded(encoding.body) == Some(request.body)
}

/// Every text of the encoding is made of base64 characters only.
pub open spec fn texts_are_base64(encoding: CanonicalEncodingView) -> bool {
    &&& is_base64_text(encoding.method)
    &&& is_base64_text(encoding.version)
    &&& is_base64_text(encoding.uri)
    &&& forall|i: int|
        0 <= i < encoding.headers.len() ==> is_base64_text((#[trigger] encoding.headers[i]).0)
            && is_base64_text(encoding.headers[i].1)
    &&& is_base64_text(encoding.body)
}

/// The encoding of the request can be read back: its texts are base64 and
/// decode to the request's bytes.
pub open spec fn reversible(request: CapturedRequestView) -> bool {
    &&& texts_are_base64(encoding_of(request))
    &&& decodes_to(encoding_of(request), request)
}

/// One header as JSON: an array of its two texts.
pub open spec fn pair_text(pair: (Seq<char>, Seq<char>)) -> Seq<char> {
    "[\""@ + pair.0 + "\",\""@ + pair.1 + "\"]"@
}

/// The headers as JSON array elements, separated by commas.
pub open spec fn pairs_text(pairs: Seq<(Seq<char>, Seq<char>)>) -> Seq<char>
    decreases pairs.len(),
{
    if pairs.len() == 0 {
        Seq::empty()
    } else if pairs.len() == 1 {
        pair_text(pairs[0])
    } else {
        pairs_text(pairs.drop_last()) + ","@ + pair_text(pairs.last())
    }
}

/// The headers as a JSON array.
pub open spec fn array_text(pairs: Seq<(Seq<char>, Seq<char>)>) -> Seq<char> {
    "["@ + pairs_text(pairs) + "]"@
}

/// The document: one JSON object with the keys `method`, `version`, `uri`,
/// `headers` and `body`, in this order, on one line.
pub open spec fn document_text(
    method: Seq<char>,
    version: Seq<char>,
    uri: Seq<char>,
    headers: Seq<char>,
    body: Seq<char>,
) -> Seq<char> {
    "{\"method\":\""@ + method + "\",\"version\":\""@ + version + "\",\"uri\":\""@ + uri
        + "\",\"headers\":"@ + headers + ",\"body\":\""@ + body + "\"}"@
}

/// The document of an encoding.
pub open spec fn json_text(encoding: CanonicalEncodingView) -> Seq<char> {
    document_text(
        encoding.method,
        encoding.version,
        encoding.uri,
        array_text(encoding.headers),
        encoding.body,
    )
}

/// The document of a request.
pub open spec fn canonical_json(request: CapturedRequestView) -> Seq<char> {
    json_text(encoding_of(request))
}

/// Encodes the headers: one pair of base64 texts for each header, in receipt
/// order, nothing merged, sorted or dropped; each text decodes to the bytes
/// it was made from.
pub fn encode_headers(headers: &Vec<Header>) -> (encoded: Vec<EncodedHeader>)
    requires
        headers_encodable(header_pairs(headers@)),
    ensures
        encoded_pairs(encoded@) == encoded_headers(header_pairs(headers@)),
        forall|i: int|
            0 <= i < headers.len() ==> standard_base64_decoded((#[trigger] encoded[i]).name@)
                == Some(headers[i].name@) && standard_base64_decoded(encoded[i].value@) == Some(
                headers[i].value@,
            ),
        forall|i: int|
            0 <= i < headers.len() ==> is_base64_text((#[trigger] encoded[i]).name@)
                && is_base64_text(encoded[i].value@),
{
    let ghost pairs = header_pairs(headers@);
    let mut encoded: Vec<EncodedHeader> = Vec::new();
    let mut i: usize = 0;
    while i < headers.len()
        invariant
            i <= headers.len(),
            pairs == header_pairs(headers@),
            headers_encodable(pairs),
            encoded.len() == i,
            forall|j: int|
                0 <= j < i ==> (#[trigger] encoded[j]).name@ == standard_base64(headers[j].name@)
                    && encoded[j].value@ == standard_base64(headers[j].value@),
            forall|j: int|
                0 <= j < i ==> standard_base64_decoded((#[trigger] encoded[j]).name@) == Some(
                    headers[j].name@,
                ) && standard_base64_decoded(encoded[j].value@) == Some(headers[j].value@),
            forall|j: int|
                0 <= j < i ==> is_base64_text((#[trigger] encoded[j]).name@) && is_base64_text(
                    encoded[j].value@,
                ),
        decreases headers.len() - i,
    {
        let header = &headers[i];
        assert(pairs[i as int] == header@);
        assert(encodable(pairs[i as int].0) && encodable(pairs[i as int].1));
        let name = encode_field(header.name.as_slice());
        let value = encode_field(header.value.as_slice());
        encoded.push(EncodedHeader { name, value });
        i += 1;
    }
    assert(encoded_pairs(encoded@) =~= encoded_headers(header_pairs(headers@)));
    encoded
}

/// Writes encoded headers as a JSON array of two-element arrays, in order.
pub fn render_headers(headers: &Vec<EncodedHeader>) -> (text: String)
    ensures
        text@ == array_text(encoded_pairs(headers@)),
{
    let ghost pairs = encoded_pairs(headers@);
    let mut text = String::from_str("[");
    let mut i: usize = 0;
    while i < headers.len()
        invariant
            i <= headers.len(),
            pairs == encoded_pairs(headers@),
            text@ == "["@ + pairs_text(pairs.take(i as int)),
        decreases headers.len() - i,
    {
        let ghost before = pairs.take(i as int);
        let ghost after = pairs.take(i + 1);
        if i > 0 {
            text.append(",");
        }
        text.append("[\"");
        text.append(headers[i].name.as_str());
        text.append("\",\"");
        text.append(headers[i].value.as_str());
        text.append("\"]");
        proof {
            let pair = pairs[i as int];
            assert(pair == headers[i as int]@);
            assert(after.drop_last() =~= before);
            assert(after.last() == pair);
            if i == 0 {
                assert(before.len() == 0);
                assert(after[0] == pair);
                assert(text@ =~= "["@ + pair_text(pair));
            } else {
                assert(text@ =~= "["@ + (pairs_text(before) + ","@ + pair_text(pair)));
            }
        }
        i += 1;
    }
    assert(pairs.take(i as int) =~= pairs);
    text.append("]");
    text
}

/// The header encoder: the JSON array of the headers' base64 texts, in
/// receipt order.
pub fn header_array(headers: &Vec<Header>) -> (text: String)
    requires
        headers_encodable(header_pairs(headers@)),
    ensures
        text@ == array_text(encoded_headers(header_pairs(headers@))),
{
    let encoded = encode_headers(headers);
    render_headers(&encoded)
}

/// Writes the document around five texts that are already in their final
/// form: four base64 texts and the JSON array of the headers.
pub fn render_document(method: &str, version: &str, uri: &str, headers: &str, body: &str) -> (text:
    String)
    ensures
        text@ == document_text(method@, version@, uri@, headers@, body@),
{
    let mut text = String::from_str("{\"method\":\"");
    text.append(method);
    text.append("\",\"version\":\"");
    text.append(version);
    text.append("\",\"uri\":\"");
    text.append(uri);
    text.append("\",\"headers\":");
    text.append(headers);
    text.append(",\"body\":\"");
    text.append(body);
    text.append("\"}");
    text
}

/// The assembler: encodes the method, the version label, the target and the
/// body, and writes the document around them and the encoded headers.
pub fn assemble(method: &[u8], label: &str, uri: &[u8], encoded_headers: &str, body: &[u8]) -> (text:
    String)
    requires
        encodable(method@),
        encodable(label.spec_bytes()),
        encodable(uri@),
        encodable(body@),
    ensures
        text@ == document_text(
            standard_base64(method@),
            standard_base64(label.spec_bytes()),
            standard_base64(uri@),
            encoded_headers@,
            standard_base64(body@),
        ),
{
    let method_text = encode_field(method);
    let version_text = encode_field(label.as_bytes());
    let uri_text = encode_field(uri);
    let body_text = encode_field(body);
    render_document(
        method_text.as_str(),
        version_text.as_str(),
        uri_text.as_str(),
        encoded_headers,
        body_text.as_str(),
    )
}

/// Encodes every field of a request. The result has the request's shape, and
/// decoding its texts gives the request's bytes back.
pub fn capture(request: &CapturedRequest) -> (encoding: CanonicalEncoding)
    requires
        request_encodable(request@),
    ensures
        encoding@ == encoding_of(request@),
        texts_are_base64(encoding@),
        decodes_to(encoding@, request@),
{
    let label = version_label(request.version);
    let encoding = CanonicalEncoding {
        method: encode_field(request.method.as_slice()),
        version: encode_field(label.as_bytes()),
        uri: encode_field(request.uri.as_slice()),
        headers: encode_headers(&request.headers),
        body: encode_field(request.body.as_slice()),
    };
    assert(encoding@.headers =~= encoding_of(request@).headers);
    encoding
}

impl CanonicalEncoding {
    /// Writes the encoding as its JSON document.
    pub fn to_json(&self) -> (text: String)
        ensures
            text@ == json_text(self@),
    {
        let headers = render_headers(&self.headers);
        render_document(
            self.method.as_str(),
            self.version.as_str(),
            self.uri.as_str(),
            headers.as_str(),
            self.body.as_str(),
        )
    }
}

/// The canonical JSON document of a request; the encoding that it holds
/// can be read back.
pub fn encode_request(request: &CapturedRequest) -> (text: String)
    requires
        request_encodable(request@),
    ensures
        text@ == canonical_json(request@),
        reversible(request@),
{
    capture(request).to_json()
}

/// Answers a captured request: status 200, with the request's canonical
/// document as the whole body.
pub fn echo(request: &CapturedRequest) -> (response: Response)
    requires
        request_encodable(request@),
    ensures
        response.status == 200,
        response.body@ == canonical_json(request@),
        reversible(request@),
{
    respond(encode_request(request))
}

} // verus!
