//! Sub-device records: identity, per-port state and the bookkeeping the
//! distributed-clock engine fills in.

use vstd::prelude::*;

use crate::ports::{Port, Ports};
use crate::wire::le32_at;

verus! {

/// The kind of distributed-clock support a sub-device advertises.
#[derive(Debug, Copy, Clone, PartialEq, Eq, Structural)]
pub enum DcSupport {
    /// No distributed-clock support.
    Absent,
    /// 32-bit receive-time registers only.
    Bits32,
    /// Full 64-bit receive-time registers.
    Bits64,
}

impl DcSupport {
    /// Whether the device supports distributed clocks at all.
    pub fn any(&self) -> (r: bool)
        ensures
            r == (*self != DcSupport::Absent),
    {
        matches!(self, DcSupport::Bits32 | DcSupport::Bits64)
    }
}

/// Sub-device identity information read from its EEPROM.
#[derive(Debug, Copy, Clone, PartialEq, Eq, Structural)]
pub struct SubDeviceIdentity {
    /// Vendor ID.
    pub vendor_id: u32,
    /// Product ID.
    pub product_id: u32,
    /// Product revision.
    pub revision: u32,
    /// Device serial number.
    pub serial: u32,
}

impl SubDeviceIdentity {
    /// Unpack an identity record from 16 little-endian bytes.
    pub fn unpack_from_slice(buf: &Vec<u8>) -> (r: Result<Self, crate::error::WireError>)
        ensures
            match r {
                Ok(id) => buf.len() >= 16 && id.vendor_id == le32_at(buf@, 0) && id.product_id
                    == le32_at(buf@, 4) && id.revision == le32_at(buf@, 8) && id.serial == le32_at(
                    buf@,
                    12,
                ),
                Err(e) => buf.len() < 16 && e == crate::error::WireError::ReadBufferTooShort,
            },
    {
        if buf.len() < 16 {
            return Err(crate::error::WireError::ReadBufferTooShort);
        }
        Ok(
            SubDeviceIdentity {
                vendor_id: crate::wire::get_u32_le(buf, 0),
                product_id: crate::wire::get_u32_le(buf, 4),
                revision: crate::wire::get_u32_le(buf, 8),
                serial: crate::wire::get_u32_le(buf, 12),
            },
        )
    }
}

/// One mailbox region advertised by a sub-device.
#[derive(Debug, Copy, Clone, PartialEq, Eq, Structural)]
pub struct Mailbox {
    /// The start address of the mailbox region.
    pub address: u16,
    /// The length of the mailbox region in bytes.
    pub len: u16,
    /// The sync manager backing the mailbox.
    pub sync_manager: u8,
}

/// One segment of the process data image.
#[derive(Debug, Copy, Clone, PartialEq, Eq, Structural, Default)]
pub struct PdiSegment {
    /// The segment's length in bits.
    pub bit_len: usize,
    /// The first byte of the segment within the image.
    pub start_byte: usize,
    /// One past the last byte of the segment within the image.
    pub end_byte: usize,
}

/// The input and output segments a sub-device maps into the process data
/// image.
#[derive(Debug, Copy, Clone, PartialEq, Eq, Structural, Default)]
pub struct IoRanges {
    /// The master-read (input) segment.
    pub input: PdiSegment,
    /// The master-write (output) segment.
    pub output: PdiSegment,
}

/// One discovered sub-device, with the per-port state the distributed-clock
/// engine reads and the bookkeeping it fills in.
#[derive(Debug, Clone, PartialEq)]
pub struct SubDevice {
    /// The station address written during discovery.
    pub configured_address: u16,
    /// A short human-readable device name.
    pub name: String,
    /// This device's position in discovery order.
    pub index: u16,
    /// The four ports in EtherCAT traversal order.
    pub ports: Ports,
    /// The 64-bit receive time latched by the latch broadcast.
    pub dc_receive_time: u64,
    /// The discovery-order index of this device's parent, if it has one.
    pub parent_index: Option<u16>,
    /// The computed one-way propagation delay from the main device, in
    /// nanoseconds.
    pub propagation_delay: u32,
    /// The kind of distributed-clock support the device advertises.
    pub dc_support: DcSupport,
}

impl SubDevice {
    /// The station address written during discovery.
    pub fn configured_address(&self) -> (r: u16)
        ensures
            r == self.configured_address,
    {
        self.configured_address
    }

    /// Whether this device hangs off one of `parent`'s branch ports rather
    /// than continuing the chain through the parent's last open port.
    pub fn is_child_of(&self, parent: &SubDevice) -> (r: bool)
        ensures
            r == (parent.ports.assigned_position(self.index) >= 0 && parent.ports.0[
                parent.ports.last_active_index()
            ] != parent.ports.0[parent.ports.assigned_position(self.index)]),
    {
        match parent.ports.port_assigned_to(self) {
            Some(assigned) => !parent.ports.is_last_port(&assigned),
            None => false,
        }
    }
}

} // verus!
