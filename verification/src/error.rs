//! What can go wrong with a request.

use vstd::prelude::*;

use crate::json::DecodeError;

verus! {

#[derive(Debug, Clone, PartialEq, Eq)]
pub enum KalshiError {
    /// The venue refused with this status and body, or, with status 0, the library did.
    Api { status: u16, body: String },
    /// The venue's answer is not what was asked for.
    Decode(DecodeError),
}

/// `error` is the library's own refusal with this text.
pub open spec fn is_refusal(error: KalshiError, text: Seq<char>) -> bool {
    match error {
        KalshiError::Api { status, body } => status == 0 && body@ == text,
        _ => false,
    }
}

/// A refusal of the library's own has the status 0 and its text.
pub proof fn law_refusal_is_status_zero(error: KalshiError, text: Seq<char>)
    ensures
        is_refusal(error, text) <==> error is Api && error->Api_status == 0 && error->Api_body@
            == text,
{
}

} // verus!
