//! The ways a run can fail. Every failure is terminal and names the outside
//! input that caused it.

use vstd::prelude::*;
use vstd::string::*;

verus! {

/// The four families of failure.
#[derive(Clone, Copy, Debug, PartialEq, Eq, Structural)]
pub enum ErrorKind {
    /// Missing or invalid arguments, an invalid scale.
    Configuration,
    /// The image file is missing, corrupt or of an unsupported format.
    Image,
    /// The endpoint is unreachable, or the transport failed mid-stream.
    Connection,
    /// Malformed room id, unknown room, or a disconnect during the handshake.
    Protocol,
}

/// A terminal failure together with the input it is about.
#[derive(Clone, Debug, PartialEq, Eq)]
pub enum Failure {
    /// The endpoint or the image path is missing from the arguments.
    Usage,
    /// The scale argument, as given, is not a whole number from 1 to
    /// `usize::MAX`.
    InvalidScale(String),
    /// The image file at this path could not be opened.
    ImageUnreadable(String),
    /// The image file at this path could not be decoded.
    ImageUndecodable(String),
    /// No connection could be made to this endpoint.
    EndpointUnreachable(String),
    /// Sending to this endpoint failed.
    SendFailed(String),
    /// This text is not a version-4 UUID.
    InvalidRoomId(String),
    /// The server knows no room of this id.
    RoomNotFound(String),
    /// The connection closed or failed while the join of this room was still
    /// unanswered.
    Disconnected(String),
}

impl Failure {
    /// The family a failure belongs to.
    pub open spec fn spec_kind(&self) -> ErrorKind {
        match self {
            Failure::Usage => ErrorKind::Configuration,
            Failure::InvalidScale(_) => ErrorKind::Configuration,
            Failure::ImageUnreadable(_) => ErrorKind::Image,
            Failure::ImageUndecodable(_) => ErrorKind::Image,
            Failure::EndpointUnreachable(_) => ErrorKind::Connection,
            Failure::SendFailed(_) => ErrorKind::Connection,
            Failure::InvalidRoomId(_) => ErrorKind::Protocol,
            Failure::RoomNotFound(_) => ErrorKind::Protocol,
            Failure::Disconnected(_) => ErrorKind::Protocol,
        }
    }

    /// The family a failure belongs to.
    pub fn kind(&self) -> (k: ErrorKind)
        ensures
            k == self.spec_kind(),
    {
        match self {
            Failure::Usage => ErrorKind::Configuration,
            Failure::InvalidScale(_) => ErrorKind::Configuration,
            Failure::ImageUnreadable(_) => ErrorKind::Image,
            Failure::ImageUndecodable(_) => ErrorKind::Image,
            Failure::EndpointUnreachable(_) => ErrorKind::Connection,
            Failure::SendFailed(_) => ErrorKind::Connection,
            Failure::InvalidRoomId(_) => ErrorKind::Protocol,
            Failure::RoomNotFound(_) => ErrorKind::Protocol,
            Failure::Disconnected(_) => ErrorKind::Protocol,
        }
    }

    /// The diagnostic shown to the operator: a fixed sentence followed by the
    /// input the failure is about.
    pub open spec fn spec_message(&self) -> Seq<char> {
        match self {
            Failure::Usage => "Usage: termdrawascii <termdrawserver url> <image-path> [zoom-in-scale=1]"@,
            Failure::InvalidScale(s) => "Scale must be a whole number of at least 1 that fits a machine word, got "@ + s@,
            Failure::ImageUnreadable(s) => "Could not open file "@ + s@,
            Failure::ImageUndecodable(s) => "Could not decode file "@ + s@,
            Failure::EndpointUnreachable(s) => "Could not connect to termdrawserver instance on "@
                + s@,
            Failure::SendFailed(s) => "Could not send to "@ + s@,
            Failure::InvalidRoomId(s) => "Invalid v4 UUID "@ + s@,
            Failure::RoomNotFound(s) => "Unknown room "@ + s@,
            Failure::Disconnected(s) => "Connection lost while joining room "@ + s@,
        }
    }

    /// The diagnostic shown to the operator.
    pub fn message(&self) -> (m: String)
        ensures
            m@ == self.spec_message(),
    {
        match self {
            Failure::Usage => String::from_str(
                "Usage: termdrawascii <termdrawserver url> <image-path> [zoom-in-scale=1]",
            ),
            Failure::InvalidScale(s) => String::from_str(
                "Scale must be a whole number of at least 1 that fits a machine word, got ",
            ).concat(s.as_str()),
            Failure::ImageUnreadable(s) => String::from_str("Could not open file ").concat(
                s.as_str(),
            ),
            Failure::ImageUndecodable(s) => String::from_str("Could not decode file ").concat(
                s.as_str(),
            ),
            Failure::EndpointUnreachable(s) => String::from_str(
                "Could not connect to termdrawserver instance on ",
            ).concat(s.as_str()),
            Failure::SendFailed(s) => String::from_str("Could not send to ").concat(s.as_str()),
            Failure::InvalidRoomId(s) => String::from_str("Invalid v4 UUID ").concat(s.as_str()),
            Failure::RoomNotFound(s) => String::from_str("Unknown room ").concat(s.as_str()),
            Failure::Disconnected(s) => String::from_str(
                "Connection lost while joining room ",
            ).concat(s.as_str()),
        }
    }
}

} // verus!
