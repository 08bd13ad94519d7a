use vstd::prelude::*;

use crate::error::Error;

verus! {

/// The text of the error for a success response that carries no result.
pub open spec fn invalid_result_message() -> Seq<char> {
    seq![
        'i', 'n', 'v', 'a', 'l', 'i', 'd', ' ', 'r', 'e', 's', 'u', 'l', 't', ' ', 'i', 'n', ' ',
        's', 'u', 'c', 'c', 'e', 's', 's', ' ', 'r', 'e', 's', 'p', 'o', 'n', 's', 'e',
    ]
}

/// The envelope that wraps every response of the API.
pub struct ApiResult<R> {
    /// Whether the API call was successful.
    pub success: bool,
    /// The message returned with the call.
    pub message: String,
    /// The result of the call.
    pub result: Option<R>,
}

impl<R> ApiResult<R> {
    /// Converts the envelope into a result: the payload of a success, an
    /// `Api` error for a success without payload, and a `Result` error with
    /// the server's message for a failure.
    pub fn into_result(self) -> (r: Result<R, Error>)
        ensures
            self.success && self.result is Some ==> r == Ok::<R, Error>(self.result->Some_0),
            self.success && self.result is None ==> (r matches Err(Error::Api(m))
                && m@ == invalid_result_message()),
            !self.success ==> r == Err::<R, Error>(Error::Result(self.message)),
    {
        if self.success {
            match self.result {
                Some(v) => Ok(v),
                None => {
                    let m = "invalid result in success response";
                    proof {
                        reveal_strlit("invalid result in success response");
                    }
                    Err(Error::Api(String::from_str(m)))
                },
            }
        } else {
            Err(Error::Result(self.message))
        }
    }
}

} // verus!
