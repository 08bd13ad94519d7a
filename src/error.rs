use reqwest::Error as HttpError;
use vstd::prelude::*;

verus! {

#[verifier::external_type_specification]
#[verifier::external_body]
pub struct ExHttpError(HttpError);

/// The ways a call into the API can fail.
#[derive(Debug)]
pub enum Error {
    /// The server answered, but the payload does not hold together
    /// (a success without a result).
    Api(String),
    /// The server reported a failure; this is its message, verbatim.
    Result(String),
    /// The HTTP transport failed.
    Http(HttpError),
    /// The signature bytes could not be written as hexadecimal.
    Encoding(String),
    /// An internal failure: the HMAC primitive refused the key material, or
    /// the system clock reads before the Unix epoch.
    Internal(String),
    /// A private request was attempted before `login`.
    NotAuthenticated,
}

} // verus!
