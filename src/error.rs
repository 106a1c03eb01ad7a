//! Errors of the library.
use vstd::prelude::*;

verus! {

/// What can go wrong when building requests or assembling a stream.
#[derive(Debug, Clone, PartialEq, Eq)]
pub enum Error {
    MessageBuilderMissRole,
    MessageBuilderMissMessages,
    /// A frame payload that is not a valid delta: why, and the payload.
    JsonDecode { reason: String, payload: String },
    /// A header value with a byte that HTTP does not allow.
    HeaderValue,
    ClientBuild,
    ChatCompletionRequestBuild,
    SendMessage,
    NoFileName,
    NoFileExtension,
    ToolCallBuild,
    ToolCallParametersBuild,
    ToolCallFunctionBuild,
    GenerationRequestBuild,
    /// The server answered with this non-success status code.
    ApiError(u16),
    FileRequestBuild,
}

} // verus!
