use vstd::prelude::*;

verus! {

/// Failure taxonomy of the four session operations.
///
/// Every failure is surfaced synchronously to the caller of the failing
/// operation; none crashes the host process.
#[derive(Clone, Copy, Debug, PartialEq, Eq, Structural)]
pub enum StdioError {
    /// The operating system refused to create the child process.
    SpawnError,
    /// A required standard stream handle was unavailable right after spawn.
    PipeAcquisitionError,
    /// The session identifier is absent from the registry.
    SessionNotFound,
    /// The outbound queue is closed: the writer task is gone.
    SendFailure,
    /// The inbound queue closed before a response arrived: the child exited.
    ProcessClosed,
    /// The response window elapsed with no line from the child.
    ResponseTimeout,
}

impl StdioError {
    /// A short description of the failure, phrased for the caller.
    pub fn describe(&self) -> (r: String)
        ensures
            *self == StdioError::SpawnError ==> r@ == "Failed to spawn MCP process"@,
            *self == StdioError::PipeAcquisitionError ==> r@ == "Failed to get child pipe"@,
            *self == StdioError::SessionNotFound ==> r@ == "Session not found"@,
            *self == StdioError::SendFailure ==> r@ == "Failed to send message"@,
            *self == StdioError::ProcessClosed ==> r@ == "MCP stdio process closed"@,
            *self == StdioError::ResponseTimeout ==> r@ == "MCP stdio response timeout (60s)"@,
    {
        match self {
            StdioError::SpawnError => String::from_str("Failed to spawn MCP process"),
            StdioError::PipeAcquisitionError => String::from_str("Failed to get child pipe"),
            StdioError::SessionNotFound => String::from_str("Session not found"),
            StdioError::SendFailure => String::from_str("Failed to send message"),
            StdioError::ProcessClosed => String::from_str("MCP stdio process closed"),
            StdioError::ResponseTimeout => String::from_str("MCP stdio response timeout (60s)"),
        }
    }
}

} // verus!
