use vstd::prelude::*;

verus! {

/// Failures that the orchestration core reports.
#[derive(Clone, Copy, Debug, PartialEq, Eq, Structural)]
pub enum Error {
    /// The transport layer could not create the session or its tracks.
    TransportInit,
    /// No local description materialized during negotiation.
    Negotiation,
    /// Negotiation did not finish within the caller's deadline.
    NegotiationTimeout,
    /// The rendering engine could not build the encode graph of a slot.
    PipelineBuild,
    /// The rendering engine rejected a state transition.
    StateTransition,
    /// The rendering engine could not take a clip.
    ClipRejected,
    /// Writing a sample to the transport failed.
    Write,
    /// A command or lookup addressed an unknown session.
    NotFound,
    /// A session with the same identifier is already registered.
    Duplicate,
    /// The operation is not allowed in the session's current state.
    InvalidState,
    /// A control message lacked a field that its command needs.
    MalformedMessage,
    /// A text that should be base64 is not.
    InvalidBase64,
    /// Bytes that should be UTF-8 are not.
    InvalidUtf8,
}

impl Error {
    /// A short, stable description, used where the error is shown to a peer.
    pub fn describe(&self) -> (text: &'static str)
        ensures
            text@ == error_text(*self),
    {
        match self {
            Error::TransportInit => "transport initialization failed",
            Error::Negotiation => "Failed to get local description",
            Error::NegotiationTimeout => "negotiation timed out",
            Error::PipelineBuild => "pipeline construction failed",
            Error::StateTransition => "state transition rejected",
            Error::ClipRejected => "clip rejected",
            Error::Write => "sample write failed",
            Error::NotFound => "session not found",
            Error::Duplicate => "session already registered",
            Error::InvalidState => "operation not allowed in this state",
            Error::MalformedMessage => "malformed control message",
            Error::InvalidBase64 => "invalid base64 text",
            Error::InvalidUtf8 => "invalid UTF-8 text",
        }
    }
}

/// The description of each error, as a sequence of characters.
pub open spec fn error_text(e: Error) -> Seq<char> {
    match e {
        Error::TransportInit => "transport initialization failed"@,
        Error::Negotiation => "Failed to get local description"@,
        Error::NegotiationTimeout => "negotiation timed out"@,
        Error::PipelineBuild => "pipeline construction failed"@,
        Error::StateTransition => "state transition rejected"@,
        Error::ClipRejected => "clip rejected"@,
        Error::Write => "sample write failed"@,
        Error::NotFound => "session not found"@,
        Error::Duplicate => "session already registered"@,
        Error::InvalidState => "operation not allowed in this state"@,
        Error::MalformedMessage => "malformed control message"@,
        Error::InvalidBase64 => "invalid base64 text"@,
        Error::InvalidUtf8 => "invalid UTF-8 text"@,
    }
}

} // verus!
