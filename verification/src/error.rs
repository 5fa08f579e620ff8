//! Error types returned by the library.
//!
//! All errors are plain flat enums: the wire codec and frame-store primitives
//! never log or retry, they only return errors upward.

use vstd::prelude::*;

verus! {

/// Wire encode/decode errors.
#[derive(Debug, Copy, Clone, PartialEq, Eq, Structural)]
pub enum WireError {
    /// The buffer to extract a type from is too short to do so.
    ReadBufferTooShort,
    /// The buffer to write the packed data into is too short.
    WriteBufferTooShort,
    /// Invalid enum or struct value.
    InvalidValue,
    /// Failed to create an array of the correct length.
    ArrayLength,
    /// Valid UTF8 input data is required to decode to a string.
    InvalidUtf8,
}

/// Low-level PDU and frame-slot errors.
#[derive(Debug, Copy, Clone, PartialEq, Eq, Structural)]
pub enum PduError {
    /// A frame slot state transition failed where none was expected, or the
    /// allocator found no idle slot.
    SwapState,
    /// Frame payload space is exhausted: the PDU does not fit.
    TooLong,
    /// A frame slot was in a state that the operation does not accept.
    InvalidFrameState,
    /// A frame slot index was out of range.
    InvalidIndex(u8),
    /// A received frame could not be matched to a pending slot.
    Decode,
}

/// The resource that ran out in [`Error::Capacity`].
#[derive(Debug, Copy, Clone, PartialEq, Eq, Structural)]
pub enum Item {
    /// A sub-device record.
    SubDevice,
    /// A frame slot.
    Frame,
    /// A PDU within a frame.
    Pdu,
}

/// Top-level error type.
#[derive(Debug, Copy, Clone, PartialEq, Eq, Structural)]
pub enum Error {
    /// A wire encode/decode error.
    Wire(WireError),
    /// A PDU or frame-slot error.
    Pdu(PduError),
    /// An Ethernet frame could not be sent.
    SendFrame,
    /// A received Ethernet frame was malformed.
    ReceiveFrame,
    /// Only part of a frame was sent by the network driver.
    PartialSend {
        /// The number of bytes that should have been sent.
        len: usize,
        /// The number of bytes actually sent.
        sent: usize,
    },
    /// A response did not arrive in time and no retries remain.
    Timeout,
    /// The working counter of a response did not match the expected value.
    WorkingCounter {
        /// The expected working counter.
        expected: u16,
        /// The received working counter.
        actual: u16,
    },
    /// A sub-device state transition failed.
    StateTransition,
    /// The network topology could not be reconstructed.
    Topology,
    /// A sub-device was addressed that does not exist.
    UnknownSubDevice,
    /// A fixed-capacity resource ran out.
    Capacity(Item),
    /// An internal invariant did not hold.
    Internal,
}

impl Error {
    /// A short human-readable description of the error.
    pub fn describe(&self) -> (r: &'static str)
        ensures r@.len() > 0,
    {
        let s: &'static str = match self {
            Error::Wire(_) => "wire codec error",
            Error::Pdu(_) => "PDU error",
            Error::SendFrame => "failed to send frame",
            Error::ReceiveFrame => "received frame is malformed",
            Error::PartialSend { .. } => "frame only partially sent",
            Error::Timeout => "timed out waiting for a response",
            Error::WorkingCounter { .. } => "working counter mismatch",
            Error::StateTransition => "sub-device state transition failed",
            Error::Topology => "topology could not be reconstructed",
            Error::UnknownSubDevice => "unknown sub-device",
            Error::Capacity(_) => "a fixed-capacity resource ran out",
            Error::Internal => "internal error",
        };

        proof {
            reveal_strlit("wire codec error");
            reveal_strlit("PDU error");
            reveal_strlit("failed to send frame");
            reveal_strlit("received frame is malformed");
            reveal_strlit("frame only partially sent");
            reveal_strlit("timed out waiting for a response");
            reveal_strlit("working counter mismatch");
            reveal_strlit("sub-device state transition failed");
            reveal_strlit("topology could not be reconstructed");
            reveal_strlit("unknown sub-device");
            reveal_strlit("a fixed-capacity resource ran out");
            reveal_strlit("internal error");
        }

        s
    }
}

} // verus!
