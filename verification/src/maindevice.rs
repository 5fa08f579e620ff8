//! The main EtherCAT controller: the frame pool plus discovery bookkeeping
//! and configuration.

use vstd::prelude::*;

use crate::maindevice_config::MainDeviceConfig;
use crate::pdu_loop::{PduStorage, PDU_REGION_START};

verus! {

/// The timeouts the main device applies, in nanoseconds.
#[derive(Debug, Copy, Clone, PartialEq, Eq, Structural)]
pub struct Timeouts {
    /// How long to wait for all sub-devices to reach a requested state.
    pub state_transition: u64,
    /// How long to wait for the response to one PDU before a retry or a
    /// timeout error.
    pub pdu: u64,
    /// How long to wait for a sub-device's EEPROM interface to become idle.
    pub eeprom: u64,
    /// The pause between polls while waiting on a sub-device.
    pub wait_loop_delay: u64,
}

impl Default for Timeouts {
    /// A second for state transitions, a hundred milliseconds for PDUs and
    /// EEPROM access, no pause between polls.
    fn default() -> (r: Self)
        ensures
            r == (Timeouts {
                state_transition: 1_000_000_000u64,
                pdu: 100_000_000u64,
                eeprom: 100_000_000u64,
                wait_loop_delay: 0u64,
            }),
    {
        Timeouts {
            state_transition: 1_000_000_000,
            pdu: 100_000_000,
            eeprom: 100_000_000,
            wait_loop_delay: 0,
        }
    }
}

/// The main EtherCAT controller. It owns the frame pool and provides the
/// addressed reads and writes that drive the bus.
pub struct MainDevice {
    /// The frame pool all PDU traffic goes through.
    pub pdu_loop: PduStorage,
    /// The number of sub-devices found by discovery.
    pub num_subdevices: u16,
    /// The configured address of the distributed-clock reference device, or
    /// zero when none was designated.
    pub dc_reference_configured_address: u16,
    /// The timeouts applied to bus operations.
    pub timeouts: Timeouts,
    /// The device's configuration.
    pub config: MainDeviceConfig,
}

impl MainDevice {
    /// Create a new main device around a frame pool.
    pub fn new(pdu_loop: PduStorage, timeouts: Timeouts, config: MainDeviceConfig) -> (r: Self)
        ensures
            r.pdu_loop == pdu_loop,
            r.num_subdevices == 0,
            r.dc_reference_configured_address == 0,
            r.timeouts == timeouts,
            r.config == config,
    {
        MainDevice {
            pdu_loop,
            num_subdevices: 0,
            dc_reference_configured_address: 0,
            timeouts,
            config,
        }
    }

    /// The number of sub-devices found by discovery. Discovery must have run
    /// for the count to be meaningful.
    pub fn num_subdevices(&self) -> (r: usize)
        ensures
            r == self.num_subdevices,
    {
        self.num_subdevices as usize
    }

    /// The configured address of the designated distributed-clock reference
    /// device, if one was designated.
    pub fn dc_ref_address(&self) -> (r: Option<u16>)
        ensures
            r == if self.dc_reference_configured_address > 0 {
                Some(self.dc_reference_configured_address)
            } else {
                None::<u16>
            },
    {
        let addr = self.dc_reference_configured_address;
        if addr > 0 {
            Some(addr)
        } else {
            None
        }
    }

    /// The PDU payload bytes one frame of the pool can carry.
    pub fn max_frame_data(&self) -> (r: usize)
        requires
            self.pdu_loop.wf(),
        ensures
            r == self.pdu_loop.capacity(),
    {
        self.pdu_loop.frame_data_len - PDU_REGION_START
    }

    /// Release the frame pool without signalling the I/O drivers, clearing
    /// any in-use frames so a new main device can reuse the pool.
    pub fn release(self) -> (r: PduStorage)
        requires
            self.pdu_loop.wf(),
        ensures
            r.wf(),
            r.num_slots() == self.pdu_loop.num_slots(),
            r.frame_data_len == self.pdu_loop.frame_data_len,
            r.frame_idx == 0,
            r.pdu_idx == 0,
            forall|i: int|
                0 <= i < r.num_slots() ==> (#[trigger] r.slot(i)).status
                    == crate::pdu_loop::FrameState::Idle,
    {
        let mut storage = self.pdu_loop;
        storage.reset();
        storage
    }

    /// Release the frame pool and ask the transmit and receive drivers to
    /// return their handles.
    pub fn release_all(self) -> (r: PduStorage)
        requires
            self.pdu_loop.wf(),
        ensures
            r.wf(),
            r.num_slots() == self.pdu_loop.num_slots(),
            r.frame_data_len == self.pdu_loop.frame_data_len,
            r.frame_idx == 0,
            r.pdu_idx == 0,
            r.exit_flag,
            forall|i: int|
                0 <= i < r.num_slots() ==> (#[trigger] r.slot(i)).status
                    == crate::pdu_loop::FrameState::Idle,
    {
        let mut storage = self.pdu_loop;
        storage.reset();
        let ghost mid = storage;
        storage.request_exit();
        proof {
            assert forall|i: int|
                0 <= i < storage.num_slots() implies (#[trigger] storage.slot(i)).status
                == crate::pdu_loop::FrameState::Idle by {
                assert(storage.frames == mid.frames);
                assert(mid.slot(i).status == crate::pdu_loop::FrameState::Idle);
            }
        }
        storage
    }
}

} // verus!
