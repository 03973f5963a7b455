use vstd::prelude::*;

verus! {

/// The failures a caller of this library can see.
///
/// Each variant stands for one class of fault on the path from building a
/// command to receiving the terminal's reply; none is ever retried or
/// recovered internally.
#[derive(Clone, Copy, Debug, PartialEq, Eq, Structural)]
pub enum ClientError {
    /// A socket could not be created or connected at startup.
    Connection,
    /// The command record could not be serialized.
    Encoding,
    /// A send or receive failed at the socket level (other than by timeout).
    Transport,
    /// No reply arrived within the configured timeout window.
    Timeout,
    /// The reply bytes were not valid UTF-8 or not valid JSON.
    Decoding,
    /// The host-binding entry point was given a keyword outside the schema.
    UnknownParameter,
}

impl ClientError {
    /// A short fixed description, for callers that print the failure.
    pub fn message(&self) -> (r: &'static str)
        ensures
            *self is Connection ==> r@ == "failed to create or connect a socket"@,
            *self is Encoding ==> r@ == "failed to encode the command"@,
            *self is Transport ==> r@ == "socket send or receive failed"@,
            *self is Timeout ==> r@ == "no reply within the configured timeout"@,
            *self is Decoding ==> r@ == "reply was not valid UTF-8 JSON"@,
            *self is UnknownParameter ==> r@ == "unknown parameter name"@,
    {
        match self {
            ClientError::Connection => "failed to create or connect a socket",
            ClientError::Encoding => "failed to encode the command",
            ClientError::Transport => "socket send or receive failed",
            ClientError::Timeout => "no reply within the configured timeout",
            ClientError::Decoding => "reply was not valid UTF-8 JSON",
            ClientError::UnknownParameter => "unknown parameter name",
        }
    }
}

} // verus!
