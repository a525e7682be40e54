//! The failure of a request.

use crate::http::api::{Response, ResponseView};
use vstd::prelude::*;
use vstd::string::StringExecFns;

verus! {

/// Why a request could not be answered; it holds the reason as text.
#[derive(Debug)]
pub struct Error(pub String);

impl View for Error {
    type V = Seq<char>;

    open spec fn view(&self) -> Seq<char> {
        self.0@
    }
}

/// The body of the answer to a request that failed for the reason `cause`.
pub open spec fn failure_body(cause: Seq<char>) -> Seq<char> {
    "Failed to handle request due to internal server error:\n"@ + cause
}

impl Error {
    /// The failure with the reason `cause`.
    pub fn from(cause: String) -> (r: Self)
        ensures
            r@ == cause@,
    {
        Error(cause)
    }

    /// The reason, as text.
    pub fn to_string(&self) -> (r: String)
        ensures
            r@ == self@,
    {
        self.0.clone()
    }

    /// The answer that tells of the failure: an internal server error.
    pub fn into_response(self) -> (r: Response)
        ensures
            r@ == (ResponseView {
                status: 500,
                content_type: None,
                body: failure_body(self@),
            }),
    {
        let mut body = String::from_str(
            "Failed to handle request due to internal server error:\n",
        );
        body.append(self.0.as_str());
        Response { status: 500, content_type: None, body }
    }
}

} // verus!
