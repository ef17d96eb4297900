//! What can go wrong.
use vstd::prelude::*;

verus! {

/// Why a request was not made, or why a reply was not understood.
#[derive(Debug)]
pub enum ClientError {
    /// The endpoint asks for an access token and the client has no session.
    AuthenticationRequired,
    /// The HTTP client refused a setting, could not be set up, or failed to
    /// carry a request.
    Reqwest(reqwest::Error),
    /// A request could not be encoded, or a reply reported a failure or could
    /// not be decoded.
    RumaApi(ruma_api::Error),
}

/// A text that cannot be the value of an HTTP header.
#[derive(Debug)]
pub struct HeaderValueError(pub http::header::InvalidHeaderValue);

/// A number that is negative or above 2^53 - 1.
#[derive(Debug)]
pub struct IntRangeError(pub js_int::TryFromIntError);

} // verus!
