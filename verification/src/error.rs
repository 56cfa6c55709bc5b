//! The error type of the SDK.

use vstd::prelude::*;

verus! {

/// Declares `reqwest::Error` (a failed HTTP exchange) so that the error type can
/// carry it; nothing is claimed of its contents.
#[verifier::external_type_specification]
#[verifier::external_body]
pub struct ExHttpError(reqwest::Error);

/// Declares `url::ParseError` (a URL that could not be built) so that the error
/// type can carry it; nothing is claimed of its contents.
#[verifier::external_type_specification]
#[verifier::external_body]
pub struct ExUrlParseError(url::ParseError);

/// Declares `serde_json::Error` (a JSON document that could not be written or
/// read) so that the error type can carry it; nothing is claimed of its contents.
#[verifier::external_type_specification]
#[verifier::external_body]
pub struct ExJsonError(serde_json::Error);

/// All errors that the SDK can produce.
#[derive(Debug)]
pub enum SmsDevError {
    /// An HTTP-level error returned by the HTTP client.
    Http(reqwest::Error),
    /// The API answered with `situacao = "ERROR"`.
    Api {
        /// Numeric error code returned by the API.
        code: String,
        /// Human-readable description returned by the API.
        description: String,
    },
    /// A URL could not be built from the given parameters.
    UrlParse(url::ParseError),
    /// A JSON document could not be written or read.
    Json(serde_json::Error),
    /// The API answered with an unexpected or empty body.
    UnexpectedResponse(String),
}

/// Result type used throughout the SDK.
pub type Result<T> = std::result::Result<T, SmsDevError>;

} // verus!
