//! The failure kinds a transformation or a dispatch can surface.

use vstd::prelude::*;

verus! {

/// Every way an invocation of the engine can fail. Each transformation-level
/// failure is surfaced immediately; there is no local recovery or retry.
#[derive(Clone, Copy, Debug, PartialEq, Eq, Structural)]
pub enum TransformError {
    /// The requested command name is not in the registry.
    UnknownCommand,
    /// The command needs input and none could be supplied.
    InputUnavailable,
    /// A token of a binary-encoded text is not a valid base-2 octet.
    InvalidEncoding,
    /// The input does not parse as a JSON value.
    InvalidJson,
    /// The input does not parse as a URL, or the URL cannot take path segments.
    InvalidUrl,
    /// The network request failed or returned a non-text body.
    NetworkError,
    /// The result could not be delivered to the clipboard.
    OutputUnavailable,
}

impl TransformError {
    /// A short human-readable description of the failure.
    pub fn message(&self) -> (r: &'static str)
        ensures
            r@ == self.spec_message(),
    {
        match self {
            TransformError::UnknownCommand => "unknown command",
            TransformError::InputUnavailable => "unable to read input",
            TransformError::InvalidEncoding => "invalid binary encoding",
            TransformError::InvalidJson => "unable to parse json, check input",
            TransformError::InvalidUrl => "unable to parse url, check input",
            TransformError::NetworkError => "network request failed",
            TransformError::OutputUnavailable => "unable to write output",
        }
    }

    pub open spec fn spec_message(self) -> Seq<char> {
        match self {
            TransformError::UnknownCommand => "unknown command"@,
            TransformError::InputUnavailable => "unable to read input"@,
            TransformError::InvalidEncoding => "invalid binary encoding"@,
            TransformError::InvalidJson => "unable to parse json, check input"@,
            TransformError::InvalidUrl => "unable to parse url, check input"@,
            TransformError::NetworkError => "network request failed"@,
            TransformError::OutputUnavailable => "unable to write output"@,
        }
    }
}

} // verus!
