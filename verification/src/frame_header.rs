//! The two-byte EtherCAT frame header: an 11-bit aggregate PDU-region length
//! and a 4-bit protocol type, little-endian on the wire.

use vstd::prelude::*;

use crate::error::WireError;
use crate::wire::{le16_at, put_u16_le, u16_hi, u16_lo};

verus! {

/// The largest value the 11-bit length field can carry.
pub const LEN_MASK: u16 = 0x07ff;

/// The protocol type carried in the upper nibble of the frame header. Only
/// the DLPDU variant is implemented.
#[derive(Debug, Copy, Clone, PartialEq, Eq, Structural)]
pub enum ProtocolType {
    /// Data-link PDUs: ordinary EtherCAT device communication.
    DlPdu,
}

/// An EtherCAT frame header. One or more PDUs follow it, each led by its own
/// ten-byte header.
#[derive(Copy, Clone, Debug, PartialEq, Eq, Structural)]
pub struct EthercatFrameHeader {
    /// The length in bytes of the PDU region that follows the header. At most
    /// [`LEN_MASK`].
    pub payload_len: u16,
    /// The protocol type in the upper nibble.
    pub protocol: ProtocolType,
}

/// The 16-bit wire value of a frame header: the 11-bit length with the DLPDU
/// protocol nibble above it.
pub open spec fn ecat_header_value(payload_len: u16) -> int {
    (payload_len % 0x800) + 0x1000
}

impl EthercatFrameHeader {
    /// The header's length field is in range.
    pub open spec fn wf(self) -> bool {
        self.payload_len <= LEN_MASK
    }

    /// Create a PDU frame header for a PDU region of `len` bytes.
    pub fn pdu(len: u16) -> (r: Self)
        requires
            len <= LEN_MASK,
        ensures
            r.payload_len == len,
            r.protocol == ProtocolType::DlPdu,
            r.wf(),
    {
        EthercatFrameHeader { payload_len: len, protocol: ProtocolType::DlPdu }
    }

    /// The packed size of the header in bytes.
    pub fn header_len() -> (r: usize)
        ensures
            r == 2,
    {
        2
    }

    /// Pack the header to its two little-endian bytes.
    pub fn pack(&self) -> (r: [u8; 2])
        requires
            self.wf(),
        ensures
            crate::wire::le16(r[0], r[1]) == ecat_header_value(self.payload_len),
            r[0] == u16_lo((self.payload_len + 0x1000) as u16),
            r[1] == u16_hi((self.payload_len + 0x1000) as u16),
    {
        let raw: u16 = self.payload_len % 0x800 + 0x1000;
        [(raw % 0x100) as u8, (raw / 0x100) as u8]
    }

    /// Pack the header into `buf` at offset `at`.
    pub fn pack_into(&self, buf: &mut Vec<u8>, at: usize)
        requires
            self.wf(),
            at + 2 <= old(buf).len(),
        ensures
            final(buf).len() == old(buf).len(),
            le16_at(final(buf)@, at as int) == ecat_header_value(self.payload_len),
            forall|j: int|
                0 <= j < old(buf).len() && j != at && j != at + 1 ==> final(buf)@[j] == old(
                    buf,
                )@[j],
    {
        let raw: u16 = self.payload_len % 0x800 + 0x1000;
        put_u16_le(buf, at, raw);
    }

    /// Unpack a frame header from the first two bytes of `buf`.
    ///
    /// Fails with `ReadBufferTooShort` when fewer than two bytes are given,
    /// and with `InvalidValue` when the protocol nibble is not DLPDU.
    pub fn unpack_from_slice(buf: &Vec<u8>) -> (r: Result<Self, WireError>)
        ensures
            match r {
                Ok(h) => {
                    &&& buf.len() >= 2
                    &&& le16_at(buf@, 0) / 0x1000 == 1
                    &&& h.payload_len == le16_at(buf@, 0) % 0x800
                    &&& h.protocol == ProtocolType::DlPdu
                    &&& h.wf()
                },
                Err(WireError::ReadBufferTooShort) => buf.len() < 2,
                Err(WireError::InvalidValue) => buf.len() >= 2 && le16_at(buf@, 0) / 0x1000 != 1,
                Err(_) => false,
            },
    {
        if buf.len() < 2 {
            return Err(WireError::ReadBufferTooShort);
        }
        let raw = crate::wire::get_u16_le(buf, 0);
        let protocol_raw = raw / 0x1000;
        if protocol_raw != 1 {
            return Err(WireError::InvalidValue);
        }
        Ok(EthercatFrameHeader { payload_len: raw % 0x800, protocol: ProtocolType::DlPdu })
    }
}

} // verus!
