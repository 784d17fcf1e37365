//! The errors of the decoder and of a session with the meter.

use vstd::prelude::*;
use vstd::string::StringExecFns;

verus! {

/// Why a frame could not be decoded. The decoder degrades gracefully on
/// unknown glyphs, icons and units; only a malformed length is an error.
#[derive(Debug, Clone, Copy, PartialEq, Eq, Hash)]
pub enum DecodeError {
    /// The payload handed to the decoder is not exactly one frame long.
    LengthError,
    /// The byte record handed to the field unpacker does not have the length
    /// of the bit layout.
    FormatError,
}

/// What can go wrong in a session with the meter.
#[derive(Debug, Clone, PartialEq, Eq, Hash)]
pub enum DmmError {
    AlreadyConnected,
    NotConnected,
    DeviceDisconnected,
    DeviceNotFound,
    Unknown(String),
}

impl DmmError {
    /// The text that describes the error to a user.
    pub open spec fn message_spec(self) -> Seq<char> {
        match self {
            DmmError::AlreadyConnected => "Already connected"@,
            DmmError::NotConnected => "Device not connected"@,
            DmmError::DeviceDisconnected => "Device disconnected"@,
            DmmError::DeviceNotFound => "Device not found"@,
            DmmError::Unknown(detail) => "Unknown error: "@ + detail@,
        }
    }

    /// Renders the error for a user.
    pub fn message(&self) -> (text: String)
        ensures
            text@ == self.message_spec(),
    {
        match self {
            DmmError::AlreadyConnected => String::from_str("Already connected"),
            DmmError::NotConnected => String::from_str("Device not connected"),
            DmmError::DeviceDisconnected => String::from_str("Device disconnected"),
            DmmError::DeviceNotFound => String::from_str("Device not found"),
            DmmError::Unknown(detail) => String::from_str("Unknown error: ").concat(
                detail.as_str(),
            ),
        }
    }
}

} // verus!
