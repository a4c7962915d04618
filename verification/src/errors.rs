//! The error taxonomy of one connection.
//!
//! These are the transport-level conditions a connection task can end with.
//! They are local to their connection: the task reports them and exits, and
//! no other connection or component is affected.

use vstd::prelude::*;

use crate::framer::FrameError;

verus! {

/// What went wrong while serving one connection.
#[derive(Debug, Clone, PartialEq, Eq)]
pub enum GSIServerError {
    /// The socket closed before the header block was complete.
    IncompleteHeaders,
    /// Reading from or writing to the socket failed; the message is the
    /// underlying I/O error.
    SocketError(String),
    /// The socket was closed.
    SocketClosed,
    /// A spawned task could not be joined; the message is the scheduler's
    /// error.
    TaskError(String),
    /// The payload could not be decoded by a consumer that expected JSON.
    ParseJSONError(String),
    /// The `Content-Length` header is missing or its value is unusable.
    ParseContentLengthError(String),
    /// The request's header block is malformed.
    ParseRequestError(String),
}

/// Which taxonomy row a framing failure falls under: a malformed header block
/// is a request parse error; a missing or unusable `Content-Length` is a
/// content-length error, with the two conditions kept apart in the message.
pub fn server_error_of_frame(e: FrameError) -> (r: GSIServerError)
    ensures
        match e {
            FrameError::MalformedHeaders => r matches GSIServerError::ParseRequestError(m)
                && m@ == "header line without a colon"@,
            FrameError::MissingContentLength => r matches GSIServerError::ParseContentLengthError(m)
                && m@ == "Content-Length header not found"@,
            FrameError::InvalidContentLength => r matches GSIServerError::ParseContentLengthError(m)
                && m@ == "Content-Length value is not a usable number"@,
        },
{
    match e {
        FrameError::MalformedHeaders => {
            GSIServerError::ParseRequestError("header line without a colon".to_owned())
        },
        FrameError::MissingContentLength => {
            GSIServerError::ParseContentLengthError("Content-Length header not found".to_owned())
        },
        FrameError::InvalidContentLength => {
            GSIServerError::ParseContentLengthError(
                "Content-Length value is not a usable number".to_owned(),
            )
        },
    }
}

} // verus!
