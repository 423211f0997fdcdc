//! Error values for configuration validation and waveform generation.

use vstd::prelude::*;
use vstd::string::StringExecFns;

verus! {

/// All errors this library reports. Decoding and file I/O live outside the
/// library; their failures are carried as generation or encoding messages.
#[derive(Debug)]
pub enum WaverError {
    /// A command-line argument or configuration value was invalid.
    ArgumentError(String),
    /// Waveform generation failed.
    GenerationError(String),
    /// The PNG encoder reported an error.
    PngError(String),
}

impl WaverError {
    /// The message text of this error, with its category prefix.
    pub open spec fn spec_message(self) -> Seq<char> {
        match self {
            WaverError::ArgumentError(m) => "Invalid argument: "@ + m@,
            WaverError::GenerationError(m) => "Waveform generation error: "@ + m@,
            WaverError::PngError(m) => "PNG encoding error: "@ + m@,
        }
    }

    /// Creates an `ArgumentError` with the given message.
    pub fn argument_error(msg: String) -> (e: Self)
        ensures
            e == WaverError::ArgumentError(msg),
    {
        WaverError::ArgumentError(msg)
    }

    /// Creates a `GenerationError` with the given message.
    pub fn generation_error(msg: String) -> (e: Self)
        ensures
            e == WaverError::GenerationError(msg),
    {
        WaverError::GenerationError(msg)
    }

    /// Renders the error as a human-readable string.
    pub fn message(&self) -> (r: String)
        ensures
            r@ == self.spec_message(),
    {
        match self {
            WaverError::ArgumentError(m) => String::from_str("Invalid argument: ").concat(
                m.as_str(),
            ),
            WaverError::GenerationError(m) => String::from_str(
                "Waveform generation error: ",
            ).concat(m.as_str()),
            WaverError::PngError(m) => String::from_str("PNG encoding error: ").concat(m.as_str()),
        }
    }
}

} // verus!
