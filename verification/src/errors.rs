//! Error taxonomy of the engine.

use vstd::prelude::*;

verus! {

/// One error kind per failure class the engine distinguishes: I/O failures
/// abort a single operation, rule-engine failures abort startup or a single
/// scan, network and decode failures degrade to "no remote opinion",
/// a conflict aborts a restore without touching any state, and a timeout is
/// a failed scan rather than a clean verdict.
#[derive(Debug, Clone)]
pub enum AvError {
    Io(String),
    Yara(String),
    Net(String),
    Decode(String),
    Conflict(String),
    Timeout(String),
    Other(String),
}

impl AvError {
    /// The human-readable message carried by the error.
    pub open spec fn spec_message(&self) -> Seq<char> {
        match self {
            AvError::Io(m) => m@,
            AvError::Yara(m) => m@,
            AvError::Net(m) => m@,
            AvError::Decode(m) => m@,
            AvError::Conflict(m) => m@,
            AvError::Timeout(m) => m@,
            AvError::Other(m) => m@,
        }
    }

    /// Returns the message of the error.
    pub fn message(&self) -> (msg: String)
        ensures
            msg@ == self.spec_message(),
    {
        match self {
            AvError::Io(m) => m.clone(),
            AvError::Yara(m) => m.clone(),
            AvError::Net(m) => m.clone(),
            AvError::Decode(m) => m.clone(),
            AvError::Conflict(m) => m.clone(),
            AvError::Timeout(m) => m.clone(),
            AvError::Other(m) => m.clone(),
        }
    }

    /// Builds a general error from a message.
    pub fn new(message: &str) -> (e: AvError)
        ensures
            e is Other,
            e.spec_message() == message@,
    {
        AvError::Other(message.to_owned())
    }
}

} // verus!
