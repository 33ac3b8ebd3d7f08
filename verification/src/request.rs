//! A request as the protocol stack parsed it.

use crate::version::Version;
use vstd::prelude::*;

verus! {

/// One header line: name and value as the raw bytes that arrived.
pub struct Header {
    pub name: Vec<u8>,
    pub value: Vec<u8>,
}

impl View for Header {
    type V = (Seq<u8>, Seq<u8>);

    open spec fn view(&self) -> (Seq<u8>, Seq<u8>) {
        (self.name@, self.value@)
    }
}

/// The headers of a request as pairs of byte sequences, in receipt order.
pub open spec fn header_pairs(headers: Seq<Header>) -> Seq<(Seq<u8>, Seq<u8>)> {
    Seq::new(headers.len(), |i: int| headers[i]@)
}

/// What a captured request holds, as plain values.
pub ghost struct CapturedRequestView {
    pub method: Seq<u8>,
    pub version: Option<Version>,
    pub uri: Seq<u8>,
    pub headers: Seq<(Seq<u8>, Seq<u8>)>,
    pub body: Seq<u8>,
}

/// A parsed request. Nothing is normalized: the method and the target are the
/// bytes that arrived, headers keep their order and their duplicates, and a
/// request without a body has the empty body. `version` is `None` where the
/// stack negotiated a version outside the recognized five.
pub struct CapturedRequest {
    pub method: Vec<u8>,
    pub version: Option<Version>,
    pub uri: Vec<u8>,
    pub headers: Vec<Header>,
    pub body: Vec<u8>,
}

impl View for CapturedRequest {
    type V = CapturedRequestView;

    open spec fn view(&self) -> CapturedRequestView {
        CapturedRequestView {
            method: self.method@,
            version: self.version,
            uri: self.uri@,
            headers: header_pairs(self.headers@),
            body: self.body@,
        }
    }
}

} // verus!
