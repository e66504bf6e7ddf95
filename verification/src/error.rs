//! The error taxonomy of the client.

use vstd::prelude::*;

verus! {

/// The error type for any failure encountered while driving the engine.
///
/// A transport failure leaves the client unusable: the instance must be
/// discarded, not reused.  There is no retry anywhere in this crate.
#[derive(Debug)]
pub enum EngineError {
    /// A failure reading from or writing to the engine's streams,
    /// including an output stream that closed before the awaited line.
    Io(String),
    /// The engine did not recognize the option of this name: it emitted
    /// non-empty output in response to the option-setting command.
    UnknownOption(String),
    /// The engine subprocess could not be started at all.
    Spawn(String),
}

impl EngineError {
    /// The human-readable description of this error.
    pub open spec fn message_view(&self) -> Seq<char> {
        match self {
            EngineError::Io(detail) => "IO error: "@ + detail@,
            EngineError::UnknownOption(name) => "No such option: '"@ + name@ + "'"@,
            EngineError::Spawn(detail) => "Unable to run engine: "@ + detail@,
        }
    }

    /// Render the error as text, for callers that report it.
    pub fn message(&self) -> (r: String)
        ensures
            r@ == self.message_view(),
    {
        match self {
            EngineError::Io(detail) => {
                let mut r = String::from_str("IO error: ");
                r.append(detail.as_str());
                r
            },
            EngineError::UnknownOption(name) => {
                let mut r = String::from_str("No such option: '");
                r.append(name.as_str());
                r.append("'");
                r
            },
            EngineError::Spawn(detail) => {
                let mut r = String::from_str("Unable to run engine: ");
                r.append(detail.as_str());
                r
            },
        }
    }
}

} // verus!
