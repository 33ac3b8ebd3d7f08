//! The answer to a captured request.

use vstd::prelude::*;

verus! {

/// The status of every answer.
pub const STATUS_OK: u16 = 200;

/// A response as the protocol stack sends it: a status and the whole body.
pub struct Response {
    pub status: u16,
    pub body: String,
}

/// Wraps an assembled document as the answer: status 200, and the document,
/// unchanged, as the entire body.
pub fn respond(document: String) -> (response: Response)
    ensures
        response.status == 200,
        response.body@ == document@,
{
    Response { status: STATUS_OK, body: document }
}

} // verus!
