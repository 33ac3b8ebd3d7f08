//! Base64 text for raw bytes, in the standard alphabet with padding.

use base64::engine::general_purpose::STANDARD;
use base64::DecodeError;
use base64::Engine;
use vstd::prelude::*;

verus! {

/// The base64 text of `bytes`: standard alphabet, padded with `=`.
pub uninterp spec fn standard_base64(bytes: Seq<u8>) -> Seq<char>;

/// The bytes that `text` stands for as padded standard base64, or `None` where
/// `text` is not such an encoding.
pub uninterp spec fn standard_base64_decoded(text: Seq<char>) -> Option<Seq<u8>>;

/// The characters of padded standard base64: letters, digits, `+`, `/`, and
/// `=` for padding.
pub open spec fn is_base64_char(c: char) -> bool {
    ||| 'A' <= c <= 'Z'
    ||| 'a' <= c <= 'z'
    ||| '0' <= c <= '9'
    ||| c == '+'
    ||| c == '/'
    ||| c == '='
}

/// Text made of base64 characters only.
pub open spec fn is_base64_text(text: Seq<char>) -> bool {
    forall|i: int| 0 <= i < text.len() ==> is_base64_char(#[trigger] text[i])
}

/// What the base64 engine reports for text that it cannot decode.
#[verifier::external_type_specification]
#[verifier::external_body]
pub struct ExDecodeError(DecodeError);

/// The error of [`decode_field`]: the text is not padded standard base64.
#[derive(Clone, Copy, Debug, PartialEq, Eq, Structural)]
pub struct NotBase64;

/// Whether the base64 text of `bytes` still fits in one allocation: four
/// characters for each started group of three bytes, at most `isize::MAX`.
pub open spec fn encodable(bytes: Seq<u8>) -> bool {
    4 * (bytes.len() / 3 + 1) <= isize::MAX
}

/// Calls `Engine::encode` of the `base64` crate on its `STANDARD` engine.
///
/// Trusted: the returned text is the padded standard base64 of `bytes`, it
/// holds no character outside that alphabet, and it decodes, under the same
/// engine, to `bytes` again. The engine panics where the length of the text
/// cannot be represented; `encodable` keeps such inputs out.
#[verifier::external_body]
fn engine_encode(bytes: &[u8]) -> (text: String)
    requires
        encodable(bytes@),
    ensures
        text@ == standard_base64(bytes@),
        is_base64_text(text@),
        standard_base64_decoded(text@) == Some(bytes@),
{
    STANDARD.encode(bytes)
}

/// Calls `Engine::decode` of the `base64` crate on its `STANDARD` engine.
///
/// Trusted: the call succeeds exactly on padded standard base64 text, and
/// then returns the bytes that the text stands for.
#[verifier::external_body]
fn engine_decode(text: &str) -> (decoded: Result<Vec<u8>, DecodeError>)
    ensures
        match decoded {
            Ok(bytes) => standard_base64_decoded(text@) == Some(bytes@),
            Err(_) => standard_base64_decoded(text@) is None,
        },
{
    STANDARD.decode(text)
}

/// Tells whether `bytes` is short enough to be encoded.
pub fn is_encodable(bytes: &[u8]) -> (fits: bool)
    ensures
        fits == encodable(bytes@),
{
    let groups: usize = bytes.len() / 3;
    let limit: usize = (isize::MAX as usize) / 4;
    groups < limit
}

/// Encodes one field: the base64 text of `bytes`, which decodes to `bytes`.
pub fn encode_field(bytes: &[u8]) -> (text: String)
    requires
        encodable(bytes@),
    ensures
        text@ == standard_base64(bytes@),
        is_base64_text(text@),
        standard_base64_decoded(text@) == Some(bytes@),
{
    engine_encode(bytes)
}

/// Decodes one field: the bytes behind `text`, or `NotBase64` exactly where
/// `text` is not padded standard base64.
pub fn decode_field(text: &str) -> (decoded: Result<Vec<u8>, NotBase64>)
    ensures
        match decoded {
            Ok(bytes) => standard_base64_decoded(text@) == Some(bytes@),
            Err(_) => standard_base64_decoded(text@) is None,
        },
{
    match engine_decode(text) {
        Ok(bytes) => Ok(bytes),
        Err(_) => Err(NotBase64),
    }
}

} // verus!
