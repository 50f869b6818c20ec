//! The failures that the protocol layer reports.

use vstd::prelude::*;

verus! {

/// Why a received frame or move code was discarded.
#[derive(Clone, Copy, Debug, PartialEq, Eq, Structural)]
pub enum ProtocolError {
    /// The frame splits into fewer than four colon-separated parts.
    TooFewFields,
    /// The first part of the frame is not the protocol tag.
    UnknownTag,
    /// A square of the move code is off the board, or the code is too short
    /// to hold two squares.
    InvalidSquare,
}

/// The fields handed to the framer do not fit into one frame.
#[derive(Clone, Copy, Debug, PartialEq, Eq, Structural)]
pub struct EncodingOverflow;

/// Why a session could not be set up.
#[derive(Clone, Copy, Debug, PartialEq, Eq, Structural)]
pub enum ConnectionError {
    /// The outbound attempt failed for another reason than a missing listener.
    ConnectFailed,
    /// Binding the listener, or accepting the peer, failed.
    ListenFailed,
}

} // verus!
