//! Canonical, reversible encoding of a parsed HTTP request.
//!
//! A captured request (method, protocol version, target, ordered headers, body)
//! is turned into one JSON document in which every field is base64 text, so that
//! two HTTP stacks can be compared by what they parsed from the same bytes.

pub mod codec;
pub mod collector;
pub mod decoder;
pub mod encoder;
pub mod gateway;
pub mod handler;
pub mod identity;
pub mod request;
pub mod response;
pub mod version;

pub use codec::{decode_field, encode_field, is_encodable, NotBase64};
pub use collector::{collect_body, BodyCollector, BodyEvent, CollectorStatus};
pub use decoder::{decode_headers, round_trip, DecodeFailure};
pub use encoder::{
    assemble, capture, echo, encode_headers, encode_request, header_array, render_document,
    render_headers, CanonicalEncoding, EncodedHeader,
};
pub use gateway::{MyGateway, UpstreamPeer};
pub use handler::{answer, is_request_encodable, Unanswered};
pub use request::{CapturedRequest, Header};
pub use response::{respond, Response};
pub use version::{parse_label, version_label, UnknownLabel, Version};
