use vstd::prelude::*;

use crate::json::Json;

verus! {

/// Why a call to the API gave no usable answer.
#[derive(Debug)]
pub enum ApiError {
    /// The document is not a JSON-RPC envelope of the expected shape.
    MalformedEnvelope,
    /// The server refused the login; the error object it sent.
    Authentication(Json),
    /// The server answered a call with an error object.
    Remote(Json),
    /// The response carries neither a result nor an error.
    MissingResult,
    /// The login result is not a string, so it holds no token.
    TokenNotString,
    /// The session has used every request id.
    IdsExhausted,
}

} // verus!
