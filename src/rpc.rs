use vstd::prelude::*;
use crate::json::{starts_with_text, JsonValue};

verus! {

/// Why a call to the service did not succeed.
#[derive(Debug, PartialEq, Eq)]
pub enum MorayError {
    /// No connection could be claimed from the pool, or none opened.
    Connection(String),
    /// A claim or a read timed out; the call may be tried again.
    Timeout(String),
    /// The transport failed, or the service reported an error other than an
    /// etag conflict; the text is the transport's or the service's own.
    Transport(String),
    /// The service refused the call because an etag did not match.
    EtagConflict(String),
    /// The payload is neither an object nor an array where one was expected.
    PayloadShape,
    /// The payload element at this index does not have the expected structure.
    Decode(usize),
    /// A put or a get was answered with this many elements instead of exactly
    /// one.
    UnexpectedCount(usize),
    /// The call's options are given as a text that is not JSON.
    InvalidOptions,
    /// A value to be sent holds a number whose text is not a JSON number.
    InvalidNumber(String),
    /// The batch request at this index is of a kind this client does not send.
    UnsupportedOperation(usize),
    /// The bucket method cannot be used for this call.
    UnsupportedMethod,
    /// A handler given by the caller stopped the call.
    Aborted(String),
}

/// The name under which the service reports an etag conflict.
pub open spec fn etag_conflict_name() -> Seq<char> {
    "EtagConflictError"@
}

impl MorayError {
    /// Sorts an error that the transport reported, in the form
    /// `<name>: <message>`: an etag conflict is told apart from the rest.
    pub fn from_service_message(text: String) -> (r: MorayError)
        ensures
            ({
                let name = etag_conflict_name();
                if name.len() <= text@.len() && text@.subrange(0, name.len() as int) == name {
                    r == MorayError::EtagConflict(text)
                } else {
                    r == MorayError::Transport(text)
                }
            }),
    {
        if starts_with_text(text.as_str(), "EtagConflictError") {
            MorayError::EtagConflict(text)
        } else {
            MorayError::Transport(text)
        }
    }
}

/// One call to the service: the method's name and its positional arguments.
#[derive(Debug)]
pub struct RpcCall {
    pub method: String,
    pub args: JsonValue,
}

} // verus!
