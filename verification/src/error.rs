//! Error taxonomy shared by every component of the core.

use vstd::prelude::*;

verus! {

/// One error kind for each failure class the core distinguishes:
/// a missing model, audio file or tool; a tool or worker process that
/// exited abnormally; a malformed handshake or event line; an inference
/// pass that produced nothing; an invalid option combination.
#[derive(Debug, Clone, PartialEq, Eq)]
pub enum CoreError {
    ResourceMissing(String),
    ProcessFailure(String),
    ProtocolError(String),
    DecodeFailure(String),
    ConfigError(String),
}

impl CoreError {
    /// The human-readable message carried by the error.
    pub fn message(&self) -> (r: String)
        ensures
            r@ == self.message_spec(),
    {
        match self {
            CoreError::ResourceMissing(m) => m.clone(),
            CoreError::ProcessFailure(m) => m.clone(),
            CoreError::ProtocolError(m) => m.clone(),
            CoreError::DecodeFailure(m) => m.clone(),
            CoreError::ConfigError(m) => m.clone(),
        }
    }

    pub open spec fn message_spec(&self) -> Seq<char> {
        match self {
            CoreError::ResourceMissing(m) => m@,
            CoreError::ProcessFailure(m) => m@,
            CoreError::ProtocolError(m) => m@,
            CoreError::DecodeFailure(m) => m@,
            CoreError::ConfigError(m) => m@,
        }
    }
}

} // verus!
