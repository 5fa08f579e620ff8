//! The frame store and PDU loop: a fixed pool of frame slots, each with a
//! lifecycle state machine, onto which many logical PDUs are multiplexed.
//!
//! A slot's life: `Idle -> Created` (allocation), `Created -> Sendable`
//! (composition done), `Sendable -> Sending -> Sent` (transmit path),
//! `Sent -> RxBusy -> RxDone` (receive path), `RxDone -> RxProcessing ->
//! Idle` (response handed to the caller and dropped). Every transition
//! checks the slot's current state first; a mismatch means a competitor
//! already moved the slot and the step is abandoned.

use vstd::prelude::*;

use crate::command::{command_addr_spec, command_code_spec, Command};
use crate::error::{Error, PduError};
use crate::frame_header::{ecat_header_value, EthercatFrameHeader, LEN_MASK};
use crate::wire::{get_u16_le, le16_at, put_u16_le};

verus! {

/// A marker value for the `first_pdu` field of slots with no pushed PDUs.
/// Its upper byte is non-zero, so no 8-bit PDU index can collide with it.
pub const FIRST_PDU_EMPTY: u16 = 0xff00;

/// The length of an Ethernet header: two MAC addresses and an ethertype.
pub const ETHERNET_HEADER_BYTES: usize = 14;

/// The length of the EtherCAT frame header that follows the Ethernet header.
pub const ECAT_HEADER_BYTES: usize = 2;

/// The length of one PDU header: command code, index, address, flags, IRQ.
pub const PDU_HEADER_BYTES: usize = 10;

/// The space one PDU occupies beyond its payload: its header and the two
/// working-counter bytes after the payload.
pub const PDU_OVERHEAD_BYTES: usize = 12;

/// The offset of the PDU region within a slot's Ethernet buffer.
pub const PDU_REGION_START: usize = 16;

/// The smallest slot buffer able to hold all headers and one empty PDU.
pub const MIN_DATA: usize = 28;

/// The EtherCAT ethertype, sent big-endian on the wire.
pub const ETHERCAT_ETHERTYPE: u16 = 0x88a4;

/// The source MAC address the main device stamps on outgoing frames.
pub open spec fn maindevice_addr_spec() -> Seq<u8> {
    seq![0x10u8, 0x10u8, 0x10u8, 0x10u8, 0x10u8, 0x10u8]
}

/// The bytes of a freshly initialised slot buffer: broadcast destination,
/// the main device's source MAC, the EtherCAT ethertype, and zeroes from the
/// EtherCAT header onward.
pub open spec fn fresh_frame_bytes(data_len: int) -> Seq<u8> {
    Seq::new(
        data_len as nat,
        |j: int|
            if j < 6 {
                0xffu8
            } else if j < 12 {
                0x10u8
            } else if j == 12 {
                0x88u8
            } else if j == 13 {
                0xa4u8
            } else {
                0u8
            },
    )
}

/// A frame slot's lifecycle state.
#[derive(Debug, PartialEq, Eq, Copy, Clone, Structural)]
pub enum FrameState {
    /// The slot is free and can be claimed.
    Idle,
    /// The slot is claimed with a zeroed buffer and is being filled.
    Created,
    /// The slot holds a complete frame, ready for the transmit driver.
    Sendable,
    /// The frame is being written to the network interface.
    Sending,
    /// The frame was sent and awaits a response from the network.
    Sent,
    /// A response arrived and is being copied into the slot.
    RxBusy,
    /// The response is stored in the slot, ready for the waiting caller.
    RxDone,
    /// The response is held by calling code; the slot returns to `Idle` when
    /// it is dropped.
    RxProcessing,
}

/// One frame slot: its state and its Ethernet frame buffer, plus the
/// bookkeeping the PDU loop needs.
#[derive(Debug)]
pub struct FrameElement {
    /// The slot's lifecycle state.
    pub status: FrameState,
    /// The slot's position in the pool. Not a wire-level value.
    pub storage_slot_index: u8,
    /// Bytes consumed in the PDU region by PDUs pushed so far.
    pub pdu_payload_len: usize,
    /// The wire index of the first PDU packed into this slot, or
    /// [`FIRST_PDU_EMPTY`] when none has been.
    pub first_pdu: u16,
    /// The slot's Ethernet frame buffer: Ethernet header, EtherCAT header,
    /// then the PDU region.
    pub ethernet_frame: Vec<u8>,
}

/// Whether `n` is a power of two no larger than 128, the sizes a pool of at
/// most 255 slots can take.
pub open spec fn is_pow2_slot_count(n: int) -> bool {
    n == 1 || n == 2 || n == 4 || n == 8 || n == 16 || n == 32 || n == 64 || n == 128
}

/// A fixed-capacity pool of frame slots.
pub struct PduStorage {
    /// The slots.
    pub frames: Vec<FrameElement>,
    /// The allocator cursor; wraps modulo the pool size.
    pub frame_idx: u8,
    /// The wire-level PDU index counter; wraps at 256.
    pub pdu_idx: u8,
    /// The size of each slot's Ethernet buffer.
    pub frame_data_len: usize,
    /// Set when the transmit and receive drivers should return their
    /// handles.
    pub exit_flag: bool,
}

impl PduStorage {
    /// The number of slots in the pool.
    pub open spec fn num_slots(&self) -> int {
        self.frames@.len() as int
    }

    /// The slot at position `i`.
    pub open spec fn slot(&self, i: int) -> FrameElement {
        self.frames@[i]
    }

    /// The bytes a slot's PDU region can hold.
    pub open spec fn capacity(&self) -> int {
        self.frame_data_len - PDU_REGION_START
    }

    /// The PDU region of slot `i`: the slot buffer after the Ethernet and
    /// EtherCAT headers.
    pub open spec fn region(&self, i: int) -> Seq<u8> {
        self.slot(i).ethernet_frame@.subrange(
            PDU_REGION_START as int,
            self.slot(i).ethernet_frame@.len() as int,
        )
    }

    /// The pool's structural invariant: a power-of-two number of slots that
    /// fits in a `u8`, buffers all the configured size and large enough for
    /// the headers, payload lengths within capacity, and each slot knowing
    /// its own position.
    pub open spec fn wf(&self) -> bool {
        &&& is_pow2_slot_count(self.num_slots())
        &&& MIN_DATA <= self.frame_data_len <= PDU_REGION_START + LEN_MASK
        &&& forall|i: int|
            0 <= i < self.num_slots() ==> wf_slot(#[trigger] self.frames@[i], i, self.frame_data_len as int)
    }

    /// Create a pool of `num_frames` slots, each with a buffer of
    /// `frame_data_len` bytes, all idle with freshly initialised buffers.
    ///
    /// `num_frames` must be a power of two so the allocator cursor can wrap
    /// cheaply, and each buffer must at least hold the Ethernet and EtherCAT
    /// headers plus one empty PDU, and at most what the 11-bit frame-header
    /// length field can describe.
    pub fn new(num_frames: usize, frame_data_len: usize) -> (r: Self)
        requires
            is_pow2_slot_count(num_frames as int),
            MIN_DATA <= frame_data_len <= PDU_REGION_START + LEN_MASK,
        ensures
            r.wf(),
            r.num_slots() == num_frames,
            r.frame_data_len == frame_data_len,
            r.frame_idx == 0,
            r.pdu_idx == 0,
            !r.exit_flag,
            forall|i: int| 0 <= i < num_frames ==> (#[trigger] r.slot(i)).status == FrameState::Idle,
            forall|i: int|
                0 <= i < num_frames ==> (#[trigger] r.slot(i)).first_pdu == FIRST_PDU_EMPTY && r.slot(
                    i,
                ).pdu_payload_len == 0,
    {
        let mut frames: Vec<FrameElement> = Vec::new();
        let mut i: usize = 0;
        while i < num_frames
            invariant
                i <= num_frames,
                num_frames <= 255,
                frames@.len() == i,
                MIN_DATA <= frame_data_len <= PDU_REGION_START + LEN_MASK,
                forall|k: int|
                    0 <= k < i ==> wf_slot(#[trigger] frames@[k], k, frame_data_len as int) && frames@[
                        k
                    ].status == FrameState::Idle && frames@[k].first_pdu == FIRST_PDU_EMPTY
                        && frames@[k].pdu_payload_len == 0,
            decreases num_frames - i,
        {
            let elem = fresh_element(i as u8, frame_data_len);
            frames.push(elem);
            i += 1;
        }
        PduStorage { frames, frame_idx: 0, pdu_idx: 0, frame_data_len, exit_flag: false }
    }

    /// The size a slot buffer must have to hold a PDU payload region of
    /// `data_len` bytes: the Ethernet and EtherCAT headers plus one empty
    /// PDU's overhead come on top.
    pub fn element_size(data_len: usize) -> (r: usize)
        requires
            data_len <= usize::MAX - MIN_DATA,
        ensures
            r == MIN_DATA + data_len,
    {
        MIN_DATA + data_len
    }

    /// Whether the transmit and receive drivers should return their handles.
    pub fn should_exit(&self) -> (r: bool)
        ensures
            r == self.exit_flag,
    {
        self.exit_flag
    }

    /// Ask the transmit and receive drivers to return their handles.
    pub fn request_exit(&mut self)
        ensures
            *final(self) == (PduStorage { exit_flag: true, ..*old(self) }),
    {
        self.exit_flag = true;
    }

    /// Clear the exit request, readying the pool's handles for reuse.
    pub fn release(&mut self)
        ensures
            *final(self) == (PduStorage { exit_flag: false, ..*old(self) }),
    {
        self.exit_flag = false;
    }

    /// Force every slot back to `Idle` and zero both counters, ready for a
    /// fresh main device. Slot buffers and bookkeeping are left as they are:
    /// allocation re-initialises them.
    pub fn reset(&mut self)
        requires
            old(self).wf(),
        ensures
            final(self).wf(),
            final(self).num_slots() == old(self).num_slots(),
            final(self).frame_data_len == old(self).frame_data_len,
            final(self).frame_idx == 0,
            final(self).pdu_idx == 0,
            final(self).exit_flag == old(self).exit_flag,
            forall|i: int|
                0 <= i < final(self).num_slots() ==> (#[trigger] final(self).slot(i)).status
                    == FrameState::Idle,
    {
        self.frame_idx = 0;
        self.pdu_idx = 0;
        let n = self.frames.len();
        let mut i: usize = 0;
        while i < n
            invariant
                i <= n,
                n == self.frames@.len(),
                self.frame_data_len == old(self).frame_data_len,
                self.frame_idx == 0,
                self.pdu_idx == 0,
                self.exit_flag == old(self).exit_flag,
                is_pow2_slot_count(n as int),
                MIN_DATA <= self.frame_data_len <= PDU_REGION_START + LEN_MASK,
                forall|k: int|
                    0 <= k < n ==> wf_slot(#[trigger] self.frames@[k], k, self.frame_data_len as int),
                forall|k: int|
                    0 <= k < i ==> (#[trigger] self.frames@[k]).status == FrameState::Idle,
            decreases n - i,
        {
            let ghost prev = self.frames@;
            let mut elem = self.frames.remove(i);
            elem.status = FrameState::Idle;
            self.frames.insert(i, elem);
            proof {
                lemma_remove_insert(prev, i as int, elem);
            }
            i += 1;
        }
    }

    /// Find the slot whose first PDU has wire index `search`: the receive
    /// path's way back from a response to the slot awaiting it. Slots with
    /// no pushed PDUs hold the sentinel [`FIRST_PDU_EMPTY`], whose non-zero
    /// upper byte can never equal an 8-bit index.
    pub fn frame_index_by_first_pdu_index(&self, search: u8) -> (r: Option<u8>)
        requires
            self.wf(),
        ensures
            match r {
                Some(i) => 0 <= i < self.num_slots() && self.slot(i as int).first_pdu == search
                    as u16 && forall|j: int|
                    0 <= j < i ==> (#[trigger] self.slot(j)).first_pdu != search as u16,
                None => forall|j: int|
                    0 <= j < self.num_slots() ==> (#[trigger] self.slot(j)).first_pdu != search
                        as u16,
            },
    {
        let n = self.frames.len();
        let mut i: usize = 0;
        while i < n
            invariant
                i <= n,
                n == self.frames@.len(),
                n <= 255,
                forall|j: int| 0 <= j < i ==> (#[trigger] self.slot(j)).first_pdu != search as u16,
            decreases n - i,
        {
            if self.frames[i].first_pdu == search as u16 {
                return Some(i as u8);
            }
            i += 1;
        }
        None
    }
}

/// What a well-formed slot at position `i` looks like: a buffer of the
/// configured size, a payload length within capacity, and its own position
/// recorded.
pub open spec fn wf_slot(e: FrameElement, i: int, frame_data_len: int) -> bool {
    &&& e.ethernet_frame@.len() == frame_data_len
    &&& e.pdu_payload_len <= frame_data_len - PDU_REGION_START
    &&& e.storage_slot_index == i
}

/// Build one idle slot with a freshly initialised buffer.
fn fresh_element(index: u8, frame_data_len: usize) -> (r: FrameElement)
    requires
        MIN_DATA <= frame_data_len,
    ensures
        r.status == FrameState::Idle,
        r.storage_slot_index == index,
        r.pdu_payload_len == 0,
        r.first_pdu == FIRST_PDU_EMPTY,
        r.ethernet_frame@ =~= fresh_frame_bytes(frame_data_len as int),
        r.ethernet_frame@.len() == frame_data_len,
{
    FrameElement {
        status: FrameState::Idle,
        storage_slot_index: index,
        pdu_payload_len: 0,
        first_pdu: FIRST_PDU_EMPTY,
        ethernet_frame: fresh_buffer(frame_data_len),
    }
}

/// Removing an element and inserting a replacement at the same position is
/// an update.
pub(crate) proof fn lemma_remove_insert<T>(s: Seq<T>, i: int, x: T)
    requires
        0 <= i < s.len(),
    ensures
        s.remove(i).insert(i, x) =~= s.update(i, x),
{
}

/// The two flag bytes of a PDU header: an 11-bit payload length, reserved
/// bits, and a *more-follows* bit in bit 15 saying another PDU is chained in
/// the same frame.
#[derive(Debug, PartialEq, Eq, Copy, Clone, Structural)]
pub struct PduFlags {
    /// The PDU payload length in bytes. Only the low 11 bits go on the wire.
    pub len: u16,
    /// Whether another PDU follows this one in the same frame.
    pub more_follows: bool,
}

/// The 16-bit wire value of a flags field.
pub open spec fn flags_value(len: u16, more_follows: bool) -> int {
    (len % 0x800) + if more_follows {
        0x8000int
    } else {
        0int
    }
}

/// Whether a 16-bit flags value has the more-follows bit set.
pub open spec fn flags_more(v: int) -> bool {
    v >= 0x8000
}

/// The payload length carried in a 16-bit flags value.
pub open spec fn flags_len(v: int) -> int {
    v % 0x800
}

impl PduFlags {
    /// Flags for a PDU of `len` payload bytes.
    pub fn new(len: u16, more_follows: bool) -> (r: Self)
        ensures
            r == (PduFlags { len, more_follows }),
    {
        PduFlags { len, more_follows }
    }

    /// Pack the flags to their two little-endian bytes.
    pub fn pack(&self) -> (r: [u8; 2])
        ensures
            crate::wire::le16(r[0], r[1]) == flags_value(self.len, self.more_follows),
            r[0] == (flags_value(self.len, self.more_follows) % 0x100) as u8,
            r[1] == (flags_value(self.len, self.more_follows) / 0x100) as u8,
    {
        let raw: u16 = self.len % 0x800 + if self.more_follows {
            0x8000
        } else {
            0
        };
        [(raw % 0x100) as u8, (raw / 0x100) as u8]
    }

    /// Decode flags from their 16-bit wire value.
    pub fn from_value(raw: u16) -> (r: Self)
        ensures
            r.len == flags_len(raw as int),
            r.more_follows == flags_more(raw as int),
    {
        PduFlags { len: raw % 0x800, more_follows: raw / 0x8000 == 1 }
    }

    /// Unpack flags from the two little-endian bytes of `buf` at `at`.
    pub fn unpack_from_slice(buf: &Vec<u8>, at: usize) -> (r: Result<Self, crate::error::WireError>)
        ensures
            match r {
                Ok(f) => at + 2 <= buf.len() && f.len == flags_len(le16_at(buf@, at as int))
                    && f.more_follows == flags_more(le16_at(buf@, at as int)),
                Err(e) => at + 2 > buf.len() && e == crate::error::WireError::ReadBufferTooShort,
            },
    {
        if buf.len() < 2 || at > buf.len() - 2 {
            return Err(crate::error::WireError::ReadBufferTooShort);
        }
        Ok(PduFlags::from_value(get_u16_le(buf, at)))
    }
}

/// Decoding a packed flags value gives back the length and more-follows bit.
pub proof fn lemma_flags_roundtrip(len: u16, more_follows: bool)
    ensures
        flags_len(flags_value(len, more_follows)) == len % 0x800,
        flags_more(flags_value(len, more_follows)) == more_follows,
{
    assert((len % 0x800 + 0x8000) % 0x800 == len % 0x800) by (nonlinear_arith);
    assert((len % 0x800) < 0x800) by (nonlinear_arith);
}

/// The record a response is later matched against: where in the frame a PDU
/// sits and what was allocated for it.
#[derive(Debug, PartialEq, Eq, Copy, Clone, Structural)]
pub struct PduResponseHandle {
    /// The PDU's position within its frame, counting from zero.
    pub index_in_frame: u8,
    /// The PDU's wire-level index, used to match the response.
    pub pdu_idx: u8,
    /// The command code the PDU carried.
    pub command_code: u8,
    /// The bytes allocated in the frame for the PDU's header, payload and
    /// working counter.
    pub alloc_size: usize,
}

/// The ghost record of one pushed PDU.
pub ghost struct PduMeta {
    /// The PDU's offset within the slot's PDU region.
    pub start: int,
    /// The bytes the PDU occupies: header, payload and working counter.
    pub alloc: int,
    /// The PDU's wire-level index.
    pub pdu_idx: u8,
    /// The command code byte.
    pub code: u8,
}

/// The pushed PDUs are laid out back to back from offset zero, each at least
/// one header plus working counter long.
pub open spec fn meta_shape_ok(ps: Seq<PduMeta>, k: int) -> bool {
    let m = ps[k];
    &&& m.start == if k == 0 {
        0int
    } else {
        ps[k - 1].start + ps[k - 1].alloc
    }
    &&& m.alloc >= PDU_OVERHEAD_BYTES
}

/// What the region bytes say about pushed PDU `k`: its command code and wire
/// index in the header's first two bytes, and the more-follows flag set
/// exactly when it is not the last PDU.
pub open spec fn meta_bytes_ok(ps: Seq<PduMeta>, k: int, reg: Seq<u8>) -> bool {
    let m = ps[k];
    &&& m.start + m.alloc <= reg.len()
    &&& reg[m.start] == m.code
    &&& reg[m.start + 1] == m.pdu_idx
    &&& flags_more(le16_at(reg, m.start + 6)) == (k < ps.len() - 1)
}

/// One past the end of the last pushed PDU: the consumed part of the region.
pub open spec fn pushed_end(ps: Seq<PduMeta>) -> int {
    if ps.len() == 0 {
        0
    } else {
        ps[ps.len() - 1].start + ps[ps.len() - 1].alloc
    }
}

/// The Ethernet header of an outgoing frame: broadcast destination, the main
/// device's source MAC, the EtherCAT ethertype big-endian.
pub open spec fn eth_header_ok(buf: Seq<u8>) -> bool {
    &&& buf.len() >= PDU_REGION_START
    &&& (forall|j: int| 0 <= j < 6 ==> buf[j] == 0xff)
    &&& (forall|j: int| 6 <= j < 12 ==> buf[j] == 0x10)
    &&& buf[12] == 0x88
    &&& buf[13] == 0xa4
}

/// A frame slot claimed for composition. Push PDUs into it, then mark it
/// sendable; dropping it instead releases the slot.
pub struct CreatedFrame {
    /// The claimed slot's position in the pool.
    pub slot: u8,
    /// How many PDUs have been pushed so far.
    pub pdu_count: u8,
    /// The offset of the last pushed PDU's header in the region, used to set
    /// its more-follows flag when another PDU is pushed after it.
    pub last_header_location: Option<usize>,
    /// The ghost record of the pushed PDUs.
    pub pushed: Ghost<Seq<PduMeta>>,
}

/// Everything that holds of a claimed slot between allocation and
/// mark-sendable: the slot is in `Created`, the pushed PDUs tile the region
/// from the start, their flag bits chain them together, the region beyond
/// them is zero, and the slot's `first_pdu` names the first of them.
pub open spec fn created_inv(store: PduStorage, f: CreatedFrame) -> bool {
    let s = f.slot as int;
    &&& store.wf()
    &&& 0 <= s < store.num_slots()
    &&& created_slot_inv(store.slot(s), store.region(s), f)
}

/// The per-slot part of [`created_inv`].
pub open spec fn created_slot_inv(e: FrameElement, reg: Seq<u8>, f: CreatedFrame) -> bool {
    let ps = f.pushed@;
    &&& e.status == FrameState::Created
    &&& ps.len() == f.pdu_count as int
    &&& (forall|k: int| 0 <= k < ps.len() ==> #[trigger] meta_shape_ok(ps, k))
    &&& (forall|k: int| 0 <= k < ps.len() ==> #[trigger] meta_bytes_ok(ps, k, reg))
    &&& pushed_end(ps) == e.pdu_payload_len
    &&& match f.last_header_location {
        None => ps.len() == 0,
        Some(l) => ps.len() > 0 && l as int == ps[ps.len() - 1].start,
    }
    &&& (if ps.len() == 0 {
        e.first_pdu == FIRST_PDU_EMPTY
    } else {
        e.first_pdu == ps[0].pdu_idx as u16
    })
    &&& (forall|j: int| e.pdu_payload_len <= j < reg.len() ==> reg[j] == 0)
    &&& eth_header_ok(e.ethernet_frame@)
}

impl CreatedFrame {
    /// The claimed slot's position in the pool.
    pub fn storage_slot_index(&self) -> (r: u8)
        ensures
            r == self.slot,
    {
        self.slot
    }

    /// Whether no PDU has been pushed yet.
    pub fn is_empty(&self) -> (r: bool)
        ensures
            r == (self.pdu_count == 0),
    {
        self.pdu_count == 0
    }

    /// Give the slot back without sending: `Created` returns to `Idle`.
    pub fn release(self, storage: &mut PduStorage)
        requires
            created_inv(*old(storage), self),
        ensures
            final(storage).wf(),
            final(storage).frames@ =~= old(storage).frames@.update(
                self.slot as int,
                final(storage).slot(self.slot as int),
            ),
            final(storage).slot(self.slot as int).status == FrameState::Idle,
            final(storage).slot(self.slot as int).ethernet_frame == old(storage).slot(
                self.slot as int,
            ).ethernet_frame,
            final(storage).slot(self.slot as int).pdu_payload_len == old(storage).slot(
                self.slot as int,
            ).pdu_payload_len,
            final(storage).slot(self.slot as int).first_pdu == old(storage).slot(
                self.slot as int,
            ).first_pdu,
            final(storage).frame_idx == old(storage).frame_idx,
            final(storage).pdu_idx == old(storage).pdu_idx,
            final(storage).frame_data_len == old(storage).frame_data_len,
            final(storage).exit_flag == old(storage).exit_flag,
    {
        let s = self.slot as usize;
        let ghost prev = storage.frames@;
        let mut elem = storage.frames.remove(s);
        elem.status = FrameState::Idle;
        let ghost gelem = elem;
        storage.frames.insert(s, elem);
        proof {
            lemma_remove_insert(prev, s as int, gelem);
        }
    }
}

/// Starts are non-negative.
proof fn lemma_start_nonneg(ps: Seq<PduMeta>, k: int)
    requires
        forall|j: int| 0 <= j < ps.len() ==> #[trigger] meta_shape_ok(ps, j),
        0 <= k < ps.len(),
    ensures
        ps[k].start >= 0,
    decreases k,
{
    assert(meta_shape_ok(ps, k));
    if k > 0 {
        assert(meta_shape_ok(ps, k - 1));
        lemma_start_nonneg(ps, k - 1);
    }
}

/// Every PDU before the last one ends at or before the last one's start.
proof fn lemma_end_le_last_start(ps: Seq<PduMeta>, k: int)
    requires
        forall|j: int| 0 <= j < ps.len() ==> #[trigger] meta_shape_ok(ps, j),
        0 <= k < ps.len() - 1,
    ensures
        ps[k].start + ps[k].alloc <= ps[ps.len() - 1].start,
    decreases ps.len() - k,
{
    assert(meta_shape_ok(ps, k + 1));
    if k + 1 < ps.len() - 1 {
        lemma_end_le_last_start(ps, k + 1);
    }
}

/// Every pushed PDU lies within the consumed part of the region.
proof fn lemma_meta_within_end(ps: Seq<PduMeta>, k: int)
    requires
        forall|j: int| 0 <= j < ps.len() ==> #[trigger] meta_shape_ok(ps, j),
        0 <= k < ps.len(),
    ensures
        ps[k].start + ps[k].alloc <= pushed_end(ps),
        ps[k].start >= 0,
    decreases ps.len() - k,
{
    lemma_start_nonneg(ps, k);
    if k < ps.len() - 1 {
        assert(meta_shape_ok(ps, k + 1));
        lemma_meta_within_end(ps, k + 1);
    }
}

/// The consumed part of the region is at least the overhead of each pushed
/// PDU: a lower bound that keeps the PDU count well under its 8-bit limit.
proof fn lemma_pushed_min_size(ps: Seq<PduMeta>, k: int)
    requires
        forall|j: int| 0 <= j < ps.len() ==> #[trigger] meta_shape_ok(ps, j),
        0 <= k <= ps.len(),
    ensures
        k > 0 ==> ps[k - 1].start + ps[k - 1].alloc >= PDU_OVERHEAD_BYTES * k,
    decreases k,
{
    if k > 0 {
        assert(meta_shape_ok(ps, k - 1));
        lemma_pushed_min_size(ps, k - 1);
    }
}

/// The payload length consumed by `n` PDUs is at least `12 * n`.
pub proof fn lemma_count_bound(ps: Seq<PduMeta>)
    requires
        forall|j: int| 0 <= j < ps.len() ==> #[trigger] meta_shape_ok(ps, j),
    ensures
        pushed_end(ps) >= PDU_OVERHEAD_BYTES * ps.len(),
{
    lemma_pushed_min_size(ps, ps.len() as int);
}

/// The PDU length actually allocated: the larger of the payload's own
/// length and the override, when one is given.
pub open spec fn spec_data_len(data_len: int, len_override: Option<u16>) -> int {
    match len_override {
        Some(l) => if l as int > data_len {
            l as int
        } else {
            data_len
        },
        None => data_len,
    }
}

/// The ten header bytes of a PDU: command code, wire index, four address
/// bytes, the two little-endian flag bytes, and a zero IRQ word.
pub open spec fn pdu_header_bytes(command: Command, idx: u8, flags_val: int) -> Seq<u8> {
    seq![command_code_spec(command), idx] + command_addr_spec(command) + seq![
        (flags_val % 0x100) as u8,
        (flags_val / 0x100) as u8,
        0u8,
        0u8,
    ]
}

/// All bytes one pushed PDU occupies: its header, the payload data, and
/// zeroes for the rest of the allocated length plus the two working-counter
/// bytes.
pub open spec fn pdu_bytes(command: Command, idx: u8, len: int, data: Seq<u8>) -> Seq<u8> {
    pdu_header_bytes(command, idx, flags_value(len as u16, false)) + data + Seq::new(
        (len + 2 - data.len()) as nat,
        |_j: int| 0u8,
    )
}

impl PduStorage {
    /// Claim an idle slot and re-initialise it for composition.
    ///
    /// The allocator cursor walks the pool; the search gives up after twice
    /// the pool size rather than spinning forever, and fails exactly when no
    /// slot is idle. On success the claimed slot is `Created` with a fresh
    /// buffer, no pushed PDUs and the empty `first_pdu` sentinel.
    pub fn alloc_frame(&mut self) -> (r: Result<CreatedFrame, Error>)
        requires
            old(self).wf(),
        ensures
            final(self).wf(),
            final(self).num_slots() == old(self).num_slots(),
            final(self).frame_data_len == old(self).frame_data_len,
            final(self).pdu_idx == old(self).pdu_idx,
            final(self).exit_flag == old(self).exit_flag,
            match r {
                Ok(f) => {
                    &&& created_inv(*final(self), f)
                    &&& f.pdu_count == 0
                    &&& f.pushed@.len() == 0
                    &&& 0 <= (f.slot as int) < old(self).num_slots()
                    &&& old(self).slot(f.slot as int).status == FrameState::Idle
                    &&& final(self).frames@ =~= old(self).frames@.update(
                        f.slot as int,
                        final(self).slot(f.slot as int),
                    )
                    &&& final(self).slot(f.slot as int).status == FrameState::Created
                    &&& final(self).slot(f.slot as int).pdu_payload_len == 0
                    &&& final(self).slot(f.slot as int).first_pdu == FIRST_PDU_EMPTY
                    &&& final(self).slot(f.slot as int).ethernet_frame@ =~= fresh_frame_bytes(
                        old(self).frame_data_len as int,
                    )
                },
                Err(e) => {
                    &&& e == Error::Pdu(PduError::SwapState)
                    &&& (forall|i: int|
                        0 <= i < old(self).num_slots() ==> (#[trigger] old(self).slot(i)).status
                            != FrameState::Idle)
                    &&& final(self).frames@ == old(self).frames@
                },
            },
    {
        let n = self.frames.len();
        let mut cur: usize = (self.frame_idx as usize) % n;
        let ghost c0 = cur as int;
        let mut attempts: usize = 0;
        let ghost mut laps: int = 0;
        while attempts < 2 * n
            invariant
                self == old(self),
                n == self.frames@.len(),
                1 <= n <= 255,
                self.wf(),
                0 <= cur < n,
                0 <= c0 < n,
                laps >= 0,
                c0 + attempts == cur + laps * n,
                attempts <= 2 * n,
                laps == 0 ==> forall|j: int|
                    c0 <= j < cur ==> (#[trigger] self.slot(j)).status != FrameState::Idle,
                laps >= 1 ==> (forall|j: int|
                    c0 <= j < n ==> (#[trigger] self.slot(j)).status != FrameState::Idle)
                    && (forall|j: int|
                    0 <= j < cur ==> (#[trigger] self.slot(j)).status != FrameState::Idle),
            decreases 2 * n - attempts,
        {
            if matches!(self.frames[cur].status, FrameState::Idle) {
                // Claim the slot and re-initialise it.
                self.frame_idx = self.frame_idx.wrapping_add(1);
                let ghost prev = self.frames@;
                let mut elem = self.frames.remove(cur);
                elem.status = FrameState::Created;
                elem.pdu_payload_len = 0;
                elem.first_pdu = FIRST_PDU_EMPTY;
                elem.ethernet_frame = fresh_buffer(self.frame_data_len);
                let ghost gelem = elem;
                self.frames.insert(cur, elem);
                proof {
                    lemma_remove_insert(prev, cur as int, gelem);
                }
                let f = CreatedFrame {
                    slot: cur as u8,
                    pdu_count: 0,
                    last_header_location: None,
                    pushed: Ghost(Seq::empty()),
                };
                proof {
                    assert(self.region(cur as int) =~= fresh_frame_bytes(
                        self.frame_data_len as int,
                    ).subrange(PDU_REGION_START as int, self.frame_data_len as int));
                }
                return Ok(f);
            }
            if cur + 1 == n {
                cur = 0;
                proof {
                    assert((laps + 1) * n == laps * n + n) by (nonlinear_arith);
                    laps = laps + 1;
                }
            } else {
                cur = cur + 1;
            }
            attempts += 1;
        }
        proof {
            // After two full laps the cursor is back where it started and
            // every slot has been probed.
            assert(laps * n == c0 - cur + 2 * n);
            assert(laps == 2) by {
                assert(-n < c0 - cur < n);
                assert(n < laps * n < 3 * n) by (nonlinear_arith)
                    requires
                        laps * n == c0 - cur + 2 * n,
                        -n < c0 - cur < n,
                        n >= 1,
                ;
                if laps <= 1 {
                    assert(laps * n <= n) by (nonlinear_arith)
                        requires
                            laps <= 1,
                            n >= 1,
                    ;
                }
                if laps >= 3 {
                    assert(laps * n >= 3 * n) by (nonlinear_arith)
                        requires
                            laps >= 3,
                            n >= 1,
                    ;
                }
            }
            assert(cur == c0);
        }
        Err(Error::Pdu(PduError::SwapState))
    }

    /// Push a PDU with the given command and payload into a claimed frame.
    ///
    /// The allocated length is the larger of the payload's own length and
    /// `len_override`; the PDU occupies that many bytes plus a ten-byte
    /// header and two working-counter bytes. Fails with `TooLong` exactly
    /// when that does not fit in the remaining payload capacity. On success
    /// the header and payload are written at the end of the used region, the
    /// previous PDU's more-follows flag is raised, and the returned handle
    /// records the PDU's position, wire index, command code and size.
    #[verifier::rlimit(100)]
    pub fn push_pdu(
        &mut self,
        frame: &mut CreatedFrame,
        command: Command,
        data: &Vec<u8>,
        len_override: Option<u16>,
    ) -> (r: Result<PduResponseHandle, PduError>)
        requires
            created_inv(*old(self), *old(frame)),
        ensures
            final(self).num_slots() == old(self).num_slots(),
            final(self).frame_data_len == old(self).frame_data_len,
            final(self).frame_idx == old(self).frame_idx,
            final(self).exit_flag == old(self).exit_flag,
            final(frame).slot == old(frame).slot,
            ({
                let s = old(frame).slot as int;
                let start = old(self).slot(s).pdu_payload_len as int;
                let dl = spec_data_len(data@.len() as int, len_override);
                let alloc = dl + PDU_OVERHEAD_BYTES;
                match r {
                    Err(e) => {
                        &&& e == PduError::TooLong
                        &&& start + alloc > old(self).capacity()
                        &&& *final(self) == *old(self)
                        &&& *final(frame) == *old(frame)
                    },
                    Ok(h) => {
                        &&& start + alloc <= old(self).capacity()
                        &&& h == (PduResponseHandle {
                            index_in_frame: old(frame).pdu_count,
                            pdu_idx: old(self).pdu_idx,
                            command_code: command_code_spec(command),
                            alloc_size: alloc as usize,
                        })
                        &&& created_inv(*final(self), *final(frame))
                        &&& final(frame).pdu_count == old(frame).pdu_count + 1
                        &&& final(frame).pushed@ =~= old(frame).pushed@.push(
                            PduMeta {
                                start,
                                alloc,
                                pdu_idx: old(self).pdu_idx,
                                code: command_code_spec(command),
                            },
                        )
                        &&& final(self).pdu_idx == ((old(self).pdu_idx + 1) % 256) as u8
                        &&& final(self).frames@ =~= old(self).frames@.update(
                            s,
                            final(self).slot(s),
                        )
                        &&& final(self).slot(s).status == FrameState::Created
                        &&& final(self).slot(s).pdu_payload_len == start + alloc
                        &&& final(self).region(s).subrange(start, start + alloc) =~= pdu_bytes(
                            command,
                            old(self).pdu_idx,
                            dl,
                            data@,
                        )
                        &&& match old(frame).last_header_location {
                            None => forall|j: int|
                                0 <= j < start ==> final(self).region(s)[j] == old(self).region(
                                    s,
                                )[j],
                            Some(loc) => {
                                &&& forall|j: int|
                                    0 <= j < start && j != loc + 6 && j != loc + 7 ==> final(self).region(s)[j] == old(self).region(s)[j]
                                &&& le16_at(final(self).region(s), loc + 6) == (le16_at(
                                    old(self).region(s),
                                    loc + 6,
                                ) % 0x800) + 0x8000
                            },
                        }
                    },
                }
            }),
    {
        let s = frame.slot as usize;
        let ghost s_i = s as int;
        let flen = self.frame_data_len;
        let cap = flen - PDU_REGION_START;
        let consumed = self.frames[s].pdu_payload_len;
        let data_length: usize = match len_override {
            Some(l) => if (l as usize) > data.len() {
                l as usize
            } else {
                data.len()
            },
            None => data.len(),
        };
        let remaining = cap - consumed;
        if remaining < PDU_OVERHEAD_BYTES || data_length > remaining - PDU_OVERHEAD_BYTES {
            return Err(PduError::TooLong);
        }
        let alloc_size = data_length + PDU_OVERHEAD_BYTES;
        let start = consumed;
        let abs = PDU_REGION_START + start;
        let pdu_idx = self.pdu_idx;
        let code = command.code();
        let addr = command.pack();
        let flags = PduFlags::new(data_length as u16, false);
        let packed = flags.pack();
        let ghost old_ps = frame.pushed@;
        let ghost dl = spec_data_len(data@.len() as int, len_override);
        proof {
            assert(dl == data_length as int);
            lemma_count_bound(old_ps);
            assert(frame.pdu_count < 255);
            if old_ps.len() > 0 {
                assert(meta_shape_ok(old_ps, old_ps.len() - 1));
                lemma_meta_within_end(old_ps, old_ps.len() - 1);
            }
        }

        let ghost reg0 = self.region(s_i);
        let ghost prev_frames = self.frames@;
        let mut elem = self.frames.remove(s);
        let ghost buf0 = elem.ethernet_frame@;
        write_pdu_header(&mut elem.ethernet_frame, abs, code, pdu_idx, &addr, &packed);
        let ghost buf_h = elem.ethernet_frame@;
        let mut k: usize = 0;
        while k < data.len()
            invariant
                k <= data@.len(),
                abs + PDU_HEADER_BYTES + data@.len() <= flen,
                flen <= PDU_REGION_START + LEN_MASK,
                elem.ethernet_frame@.len() == flen,
                buf_h.len() == flen,
                0 <= s_i < prev_frames.len(),
                elem.storage_slot_index == prev_frames[s_i].storage_slot_index,
                elem.status == prev_frames[s_i].status,
                elem.pdu_payload_len == prev_frames[s_i].pdu_payload_len,
                elem.first_pdu == prev_frames[s_i].first_pdu,
                forall|j: int|
                    0 <= j < flen && !(abs + PDU_HEADER_BYTES <= j < abs + PDU_HEADER_BYTES
                        + k) ==> elem.ethernet_frame@[j] == buf_h[j],
                forall|j: int|
                    0 <= j < k ==> elem.ethernet_frame@[abs + PDU_HEADER_BYTES + j] == data@[j],
            decreases data@.len() - k,
        {
            elem.ethernet_frame.set(abs + PDU_HEADER_BYTES + k, data[k]);
            k += 1;
        }
        let ghost buf_d = elem.ethernet_frame@;
        match frame.last_header_location {
            Some(loc) => {
                proof {
                    assert(loc + PDU_OVERHEAD_BYTES <= start);
                }
                let fabs = PDU_REGION_START + loc + 6;
                let old_flags = get_u16_le(&elem.ethernet_frame, fabs);
                let new_flags = old_flags % 0x800 + 0x8000;
                put_u16_le(&mut elem.ethernet_frame, fabs, new_flags);
            },
            None => {},
        }
        elem.pdu_payload_len = start + alloc_size;
        if elem.first_pdu == FIRST_PDU_EMPTY {
            elem.first_pdu = pdu_idx as u16;
        }
        let ghost gelem = elem;
        self.frames.insert(s, elem);
        proof {
            lemma_remove_insert(prev_frames, s_i, gelem);
        }
        let index_in_frame = frame.pdu_count;
        frame.pdu_count = frame.pdu_count + 1;
        frame.last_header_location = Some(start);
        let ghost meta = PduMeta { start: start as int, alloc: alloc_size as int, pdu_idx, code };
        proof {
            frame.pushed@ = old_ps.push(meta);
        }
        self.pdu_idx = self.pdu_idx.wrapping_add(1);

        proof {
            let st = start as int;
            let alloc = alloc_size as int;
            let new_ps = frame.pushed@;
            let regN = self.region(s_i);
            let bufN = gelem.ethernet_frame@;
            let ghost oldloc = old(frame).last_header_location;
            assert(self.frames@ =~= prev_frames.update(s_i, gelem));
            assert(self.slot(s_i) == gelem);
            assert(bufN.len() == flen);
            assert(regN.len() == reg0.len());
            assert forall|i: int| 0 <= i < self.num_slots() implies wf_slot(
                #[trigger] self.frames@[i],
                i,
                self.frame_data_len as int,
            ) by {
                if i != s_i {
                    assert(self.frames@[i] == old(self).frames@[i]);
                    assert(wf_slot(old(self).frames@[i], i, old(self).frame_data_len as int));
                } else {
                    assert(gelem.storage_slot_index == old(self).frames@[s_i].storage_slot_index);
                }
            }

            // R6: the prefix of the region is unchanged outside the previous
            // PDU's flag bytes.
            assert forall|j: int|
                0 <= j < st && (match oldloc {
                    None => true,
                    Some(loc) => j != loc + 6 && j != loc + 7,
                }) implies regN[j] == reg0[j] by {
                assert(regN[j] == bufN[PDU_REGION_START + j]);
                assert(reg0[j] == buf0[PDU_REGION_START + j]);
                assert(buf_d[PDU_REGION_START + j] == buf_h[PDU_REGION_START + j]);
                assert(buf_h[PDU_REGION_START + j] == buf0[PDU_REGION_START + j]);
            }
            // R7: the previous PDU's flags were raised.
            match oldloc {
                Some(loc) => {
                    assert(le16_at(regN, loc + 6) == (le16_at(reg0, loc + 6) % 0x800) + 0x8000)
                        by {
                        assert(regN[loc + 6] == bufN[PDU_REGION_START + loc + 6]);
                        assert(regN[loc + 7] == bufN[PDU_REGION_START + loc + 7]);
                        assert(buf_d[PDU_REGION_START + loc + 6] == buf_h[PDU_REGION_START + loc
                            + 6]);
                        assert(buf_d[PDU_REGION_START + loc + 7] == buf_h[PDU_REGION_START + loc
                            + 7]);
                        assert(buf_h[PDU_REGION_START + loc + 6] == buf0[PDU_REGION_START + loc
                            + 6]);
                        assert(buf_h[PDU_REGION_START + loc + 7] == buf0[PDU_REGION_START + loc
                            + 7]);
                        assert(reg0[loc + 6] == buf0[PDU_REGION_START + loc + 6]);
                        assert(reg0[loc + 7] == buf0[PDU_REGION_START + loc + 7]);
                    }
                },
                None => {},
            }
            // R8: the new PDU's bytes are in place.
            assert(regN.subrange(st, st + alloc) =~= pdu_bytes(command, pdu_idx, dl, data@)) by {
                let sub = regN.subrange(st, st + alloc);
                let want = pdu_bytes(command, pdu_idx, dl, data@);
                assert(want.len() == alloc);
                assert(command_addr_spec(command) =~= addr@);
                assert forall|j: int| 0 <= j < alloc implies sub[j] == want[j] by {
                    assert(sub[j] == bufN[PDU_REGION_START + st + j]);
                    if j < PDU_HEADER_BYTES {
                        assert(bufN[PDU_REGION_START + st + j] == buf_d[PDU_REGION_START + st
                            + j]);
                        assert(buf_d[PDU_REGION_START + st + j] == buf_h[PDU_REGION_START + st
                            + j]);
                    } else if j < PDU_HEADER_BYTES + data@.len() {
                        assert(bufN[PDU_REGION_START + st + j] == buf_d[PDU_REGION_START + st
                            + j]);
                        assert(buf_d[PDU_REGION_START + st + j] == data@[j - PDU_HEADER_BYTES]);
                    } else {
                        assert(bufN[PDU_REGION_START + st + j] == buf_d[PDU_REGION_START + st
                            + j]);
                        assert(buf_d[PDU_REGION_START + st + j] == buf_h[PDU_REGION_START + st
                            + j]);
                        assert(buf_h[PDU_REGION_START + st + j] == buf0[PDU_REGION_START + st
                            + j]);
                        assert(buf0[PDU_REGION_START + st + j] == reg0[st + j]);
                    }
                }
            }
            // Tail zeroes past the new payload length.
            assert forall|j: int| st + alloc <= j < regN.len() implies regN[j] == 0 by {
                assert(regN[j] == bufN[PDU_REGION_START + j]);
                assert(bufN[PDU_REGION_START + j] == buf_d[PDU_REGION_START + j]);
                assert(buf_d[PDU_REGION_START + j] == buf_h[PDU_REGION_START + j]);
                assert(buf_h[PDU_REGION_START + j] == buf0[PDU_REGION_START + j]);
                assert(buf0[PDU_REGION_START + j] == reg0[j]);
            }
            // Everything else of the invariant follows from those facts.
            lemma_push_invariant(old_ps, new_ps, meta, reg0, regN, oldloc, st, alloc, dl, data@,
                command, pdu_idx, code);
            assert(eth_header_ok(bufN)) by {
                assert forall|j: int| 0 <= j < ETHERNET_HEADER_BYTES implies bufN[j] == buf0[j]
                    by {
                    assert(buf_d[j] == buf_h[j]);
                    assert(buf_h[j] == buf0[j]);
                }
                assert(eth_header_ok(buf0));
            }
        }
        Ok(PduResponseHandle { index_in_frame, pdu_idx, command_code: code, alloc_size })

    }
}

/// Build a freshly initialised slot buffer: Ethernet header set, everything
/// after it zero.
fn fresh_buffer(frame_data_len: usize) -> (r: Vec<u8>)
    requires
        MIN_DATA <= frame_data_len,
    ensures
        r@ =~= fresh_frame_bytes(frame_data_len as int),
        r@.len() == frame_data_len,
{
    let mut buf: Vec<u8> = Vec::new();
    let mut j: usize = 0;
    while j < frame_data_len
        invariant
            j <= frame_data_len,
            buf@.len() == j,
            forall|k: int| 0 <= k < j ==> buf@[k] == fresh_frame_bytes(frame_data_len as int)[k],
        decreases frame_data_len - j,
    {
        let b: u8 = if j < 6 {
            0xff
        } else if j < 12 {
            0x10
        } else if j == 12 {
            0x88
        } else if j == 13 {
            0xa4
        } else {
            0
        };
        buf.push(b);
        j += 1;
    }
    buf
}

/// Write the ten header bytes of a PDU into `buf` at offset `abs`.
fn write_pdu_header(buf: &mut Vec<u8>, abs: usize, code: u8, idx: u8, addr: &[u8; 4], packed: &[
    u8;
    2
])
    requires
        abs + PDU_HEADER_BYTES <= old(buf).len(),
    ensures
        final(buf).len() == old(buf).len(),
        forall|j: int|
            0 <= j < old(buf).len() && !(abs <= j < abs + PDU_HEADER_BYTES) ==> final(buf)@[j]
                == old(buf)@[j],
        final(buf)@[abs as int] == code,
        final(buf)@[abs + 1] == idx,
        final(buf)@[abs + 2] == addr[0] && final(buf)@[abs + 3] == addr[1],
        final(buf)@[abs + 4] == addr[2] && final(buf)@[abs + 5] == addr[3],
        final(buf)@[abs + 6] == packed[0] && final(buf)@[abs + 7] == packed[1],
        final(buf)@[abs + 8] == 0 && final(buf)@[abs + 9] == 0,
{
    buf.set(abs, code);
    buf.set(abs + 1, idx);
    buf.set(abs + 2, addr[0]);
    buf.set(abs + 3, addr[1]);
    buf.set(abs + 4, addr[2]);
    buf.set(abs + 5, addr[3]);
    buf.set(abs + 6, packed[0]);
    buf.set(abs + 7, packed[1]);
    buf.set(abs + 8, 0);
    buf.set(abs + 9, 0);
}

/// Pushing one more PDU keeps the composed-frame invariant: the new record
/// list still tiles the region, the bytes of every record still match, and
/// the region past the new end is still zero.
#[verifier::rlimit(60)]
proof fn lemma_push_invariant(
    old_ps: Seq<PduMeta>,
    new_ps: Seq<PduMeta>,
    meta: PduMeta,
    reg0: Seq<u8>,
    regN: Seq<u8>,
    oldloc: Option<usize>,
    st: int,
    alloc: int,
    dl: int,
    data: Seq<u8>,
    command: Command,
    idx: u8,
    code: u8,
)
    requires
        forall|j: int| 0 <= j < old_ps.len() ==> #[trigger] meta_shape_ok(old_ps, j),
        forall|j: int| 0 <= j < old_ps.len() ==> #[trigger] meta_bytes_ok(old_ps, j, reg0),
        pushed_end(old_ps) == st,
        new_ps == old_ps.push(meta),
        meta == (PduMeta { start: st, alloc, pdu_idx: idx, code }),
        code == command_code_spec(command),
        regN.len() == reg0.len(),
        st + alloc <= regN.len(),
        alloc == dl + PDU_OVERHEAD_BYTES,
        0 <= data.len() <= dl,
        dl < 0x800,
        match oldloc {
            None => old_ps.len() == 0,
            Some(loc) => old_ps.len() > 0 && loc as int == old_ps[old_ps.len() - 1].start,
        },
        forall|j: int|
            0 <= j < st && (match oldloc {
                None => true,
                Some(loc) => j != loc + 6 && j != loc + 7,
            }) ==> regN[j] == reg0[j],
        match oldloc {
            None => true,
            Some(loc) => le16_at(regN, loc + 6) == (le16_at(reg0, loc + 6) % 0x800) + 0x8000,
        },
        regN.subrange(st, st + alloc) =~= pdu_bytes(command, idx, dl, data),
    ensures
        forall|k: int| 0 <= k < new_ps.len() ==> #[trigger] meta_shape_ok(new_ps, k),
        forall|k: int| 0 <= k < new_ps.len() ==> #[trigger] meta_bytes_ok(new_ps, k, regN),
        pushed_end(new_ps) == st + alloc,
{
    let n = old_ps.len() as int;
    if n > 0 {
        assert(meta_shape_ok(old_ps, n - 1));
        lemma_meta_within_end(old_ps, n - 1);
    }
    assert(st >= 0);
    assert forall|k: int| 0 <= k < new_ps.len() implies #[trigger] meta_shape_ok(new_ps, k) by {
        if k < n {
            assert(meta_shape_ok(old_ps, k));
        }
    }
    let want = pdu_bytes(command, idx, dl, data);
    let fv = flags_value(dl as u16, false);
    assert(fv == dl);
    assert(want[0] == code && want[1] == idx);
    assert(want[6] == (fv % 0x100) as u8 && want[7] == (fv / 0x100) as u8);
    assert(le16_at(regN, st + 6) == fv) by {
        assert(regN[st + 6] == regN.subrange(st, st + alloc)[6]);
        assert(regN[st + 7] == regN.subrange(st, st + alloc)[7]);
        assert(crate::wire::le16((fv % 0x100) as u8, (fv / 0x100) as u8) == fv);
    }
    assert(regN[st] == code && regN[st + 1] == idx) by {
        assert(regN[st] == regN.subrange(st, st + alloc)[0]);
        assert(regN[st + 1] == regN.subrange(st, st + alloc)[1]);
    }
    assert forall|k: int| 0 <= k < new_ps.len() implies #[trigger] meta_bytes_ok(new_ps, k, regN)
        by {
        if k < n {
            assert(meta_bytes_ok(old_ps, k, reg0));
            assert(meta_shape_ok(old_ps, k));
            lemma_meta_within_end(old_ps, k);
            let m = old_ps[k];
            assert(m.start + m.alloc <= st);
            if k < n - 1 {
                lemma_end_le_last_start(old_ps, k);
            }
            assert(regN[m.start] == reg0[m.start]);
            assert(regN[m.start + 1] == reg0[m.start + 1]);
            if k < n - 1 {
                assert(regN[m.start + 6] == reg0[m.start + 6]);
                assert(regN[m.start + 7] == reg0[m.start + 7]);
                assert(le16_at(regN, m.start + 6) == le16_at(reg0, m.start + 6));
            } else {
                let loc = oldloc.unwrap() as int;
                assert(loc == m.start);
                assert(flags_more(le16_at(regN, m.start + 6)));
            }
        } else {
            assert(new_ps[k] == meta);
            assert(!flags_more(fv));
        }
    }
}

impl PduStorage {
    /// Push as much of a byte slice as fits into the frame as one PDU.
    ///
    /// Returns `Ok(None)` when the input is empty or no payload byte fits;
    /// otherwise the number of bytes consumed — the input length capped at
    /// the remaining payload capacity — together with the response handle.
    pub fn push_pdu_slice_rest(
        &mut self,
        frame: &mut CreatedFrame,
        command: Command,
        bytes: &Vec<u8>,
    ) -> (r: Result<Option<(usize, PduResponseHandle)>, PduError>)
        requires
            created_inv(*old(self), *old(frame)),
        ensures
            final(self).num_slots() == old(self).num_slots(),
            final(self).frame_data_len == old(self).frame_data_len,
            final(self).frame_idx == old(self).frame_idx,
            final(self).exit_flag == old(self).exit_flag,
            final(frame).slot == old(frame).slot,
            ({
                let s = old(frame).slot as int;
                let start = old(self).slot(s).pdu_payload_len as int;
                let room = old(self).capacity() - start;
                let max_bytes = if room >= PDU_OVERHEAD_BYTES {
                    room - PDU_OVERHEAD_BYTES
                } else {
                    0
                };
                match r {
                    Ok(None) => {
                        &&& bytes@.len() == 0 || max_bytes == 0
                        &&& *final(self) == *old(self)
                        &&& *final(frame) == *old(frame)
                    },
                    Ok(Some((written, h))) => {
                        &&& bytes@.len() > 0 && max_bytes > 0
                        &&& written as int == if max_bytes < bytes@.len() {
                            max_bytes
                        } else {
                            bytes@.len() as int
                        }
                        &&& h == (PduResponseHandle {
                            index_in_frame: old(frame).pdu_count,
                            pdu_idx: old(self).pdu_idx,
                            command_code: command_code_spec(command),
                            alloc_size: (written + PDU_OVERHEAD_BYTES) as usize,
                        })
                        &&& created_inv(*final(self), *final(frame))
                        &&& final(frame).pushed@ =~= old(frame).pushed@.push(
                            PduMeta {
                                start,
                                alloc: written + PDU_OVERHEAD_BYTES,
                                pdu_idx: old(self).pdu_idx,
                                code: command_code_spec(command),
                            },
                        )
                        &&& final(self).pdu_idx == ((old(self).pdu_idx + 1) % 256) as u8
                        &&& final(self).slot(s).pdu_payload_len == start + written
                            + PDU_OVERHEAD_BYTES
                        &&& final(self).region(s).subrange(
                            start,
                            start + written + PDU_OVERHEAD_BYTES,
                        ) =~= pdu_bytes(
                            command,
                            old(self).pdu_idx,
                            written as int,
                            bytes@.subrange(0, written as int),
                        )
                    },
                    Err(_) => false,
                }
            }),
    {
        if bytes.len() == 0 {
            return Ok(None);
        }
        let s = frame.slot as usize;
        let cap = self.frame_data_len - PDU_REGION_START;
        let consumed = self.frames[s].pdu_payload_len;
        let room = cap - consumed;
        if room < PDU_OVERHEAD_BYTES || room - PDU_OVERHEAD_BYTES == 0 {
            return Ok(None);
        }
        let max_bytes = room - PDU_OVERHEAD_BYTES;
        let sub_len = if max_bytes < bytes.len() {
            max_bytes
        } else {
            bytes.len()
        };
        let mut sub: Vec<u8> = Vec::new();
        let mut k: usize = 0;
        while k < sub_len
            invariant
                k <= sub_len,
                sub_len <= bytes@.len(),
                sub@ =~= bytes@.subrange(0, k as int),
            decreases sub_len - k,
        {
            sub.push(bytes[k]);
            k += 1;
        }
        match self.push_pdu(frame, command, &sub, None) {
            Ok(handle) => Ok(Some((sub_len, handle))),
            Err(e) => {
                proof {
                    // The payload was sized to fit, so the push cannot fail.
                    assert(false);
                }
                Err(e)
            },
        }
    }

    /// Seal a composed frame: write the EtherCAT frame header over the PDU
    /// region's length, hand the slot to the transmit driver by moving it to
    /// `Sendable`, and return the future that waits for the response with
    /// the given number of timeout retries.
    pub fn mark_sendable(&mut self, frame: CreatedFrame, retries: usize) -> (fut: ReceiveFrameFut)
        requires
            created_inv(*old(self), frame),
        ensures
            final(self).wf(),
            fut_inv(*final(self), fut),
            fut == (ReceiveFrameFut { slot: frame.slot, retries_left: retries, taken: false }),
            final(self).num_slots() == old(self).num_slots(),
            final(self).frame_data_len == old(self).frame_data_len,
            final(self).frame_idx == old(self).frame_idx,
            final(self).pdu_idx == old(self).pdu_idx,
            final(self).exit_flag == old(self).exit_flag,
            ({
                let s = frame.slot as int;
                &&& final(self).frames@ =~= old(self).frames@.update(s, final(self).slot(s))
                &&& final(self).slot(s).status == FrameState::Sendable
                &&& final(self).slot(s).pdu_payload_len == old(self).slot(s).pdu_payload_len
                &&& final(self).slot(s).first_pdu == old(self).slot(s).first_pdu
                &&& final(self).region(s) =~= old(self).region(s)
                &&& le16_at(final(self).slot(s).ethernet_frame@, ETHERNET_HEADER_BYTES as int)
                    == ecat_header_value(old(self).slot(s).pdu_payload_len as u16)
                &&& forall|j: int|
                    0 <= j < ETHERNET_HEADER_BYTES ==> final(self).slot(s).ethernet_frame@[j]
                        == old(self).slot(s).ethernet_frame@[j]
            }),
    {
        let s = frame.slot as usize;
        let len16 = self.frames[s].pdu_payload_len as u16;
        let header = EthercatFrameHeader::pdu(len16);
        let ghost prev = self.frames@;
        let mut elem = self.frames.remove(s);
        let ghost buf0 = elem.ethernet_frame@;
        header.pack_into(&mut elem.ethernet_frame, ETHERNET_HEADER_BYTES);
        elem.status = FrameState::Sendable;
        let ghost gelem = elem;
        self.frames.insert(s, elem);
        proof {
            lemma_remove_insert(prev, s as int, gelem);
            assert(self.region(s as int) =~= old(self).region(s as int)) by {
                assert forall|j: int|
                    0 <= j < self.region(s as int).len() implies self.region(s as int)[j] == old(
                        self,
                    ).region(s as int)[j] by {
                    assert(self.region(s as int)[j] == gelem.ethernet_frame@[PDU_REGION_START
                        + j]);
                    assert(old(self).region(s as int)[j] == buf0[PDU_REGION_START + j]);
                }
            }
        }
        ReceiveFrameFut { slot: frame.slot, retries_left: retries, taken: false }
    }

    /// Claim the next frame waiting to be sent, moving it from `Sendable` to
    /// `Sending`, scanning the pool from slot zero. Returns `None` when the
    /// pool holds no sendable frame or an exit was requested.
    pub fn next_sendable_frame(&mut self) -> (r: Option<u8>)
        requires
            old(self).wf(),
        ensures
            final(self).wf(),
            final(self).num_slots() == old(self).num_slots(),
            final(self).frame_data_len == old(self).frame_data_len,
            final(self).frame_idx == old(self).frame_idx,
            final(self).pdu_idx == old(self).pdu_idx,
            final(self).exit_flag == old(self).exit_flag,
            match r {
                Some(i) => {
                    &&& 0 <= (i as int) < old(self).num_slots()
                    &&& !old(self).exit_flag
                    &&& old(self).slot(i as int).status == FrameState::Sendable
                    &&& (forall|j: int|
                        0 <= j < i ==> (#[trigger] old(self).slot(j)).status
                            != FrameState::Sendable)
                    &&& final(self).frames@ =~= old(self).frames@.update(
                        i as int,
                        (FrameElement {
                            status: FrameState::Sending,
                            ..old(self).slot(i as int)
                        }),
                    )
                },
                None => {
                    &&& *final(self) == *old(self)
                    &&& old(self).exit_flag || forall|j: int|
                        0 <= j < old(self).num_slots() ==> (#[trigger] old(self).slot(j)).status
                            != FrameState::Sendable
                },
            },
    {
        if self.exit_flag {
            return None;
        }
        let n = self.frames.len();
        let mut i: usize = 0;
        while i < n
            invariant
                i <= n,
                n == self.frames@.len(),
                n <= 255,
                self.wf(),
                self == old(self),
                !self.exit_flag,
                forall|j: int|
                    0 <= j < i ==> (#[trigger] self.slot(j)).status != FrameState::Sendable,
            decreases n - i,
        {
            if matches!(self.frames[i].status, FrameState::Sendable) {
                set_slot_status(self, i, FrameState::Sending);
                return Some(i as u8);
            }
            i += 1;
        }
        None
    }

    /// The length in bytes of the Ethernet frame a slot would put on the
    /// wire: both headers plus the consumed PDU region.
    pub fn sendable_len(&self, slot: u8) -> (r: usize)
        requires
            self.wf(),
            (slot as int) < self.num_slots(),
        ensures
            r == PDU_REGION_START + self.slot(slot as int).pdu_payload_len,
    {
        PDU_REGION_START + self.frames[slot as usize].pdu_payload_len
    }

    /// A copy of the bytes a slot puts on the wire: the Ethernet header, the
    /// EtherCAT header, and the consumed PDU region.
    pub fn frame_bytes(&self, slot: u8) -> (r: Vec<u8>)
        requires
            self.wf(),
            (slot as int) < self.num_slots(),
        ensures
            r@ =~= self.slot(slot as int).ethernet_frame@.subrange(
                0,
                PDU_REGION_START + self.slot(slot as int).pdu_payload_len as int,
            ),
    {
        let len = PDU_REGION_START + self.frames[slot as usize].pdu_payload_len;
        let mut out: Vec<u8> = Vec::new();
        let mut j: usize = 0;
        while j < len
            invariant
                j <= len,
                (slot as int) < self.num_slots(),
                len <= self.slot(slot as int).ethernet_frame@.len(),
                out@.len() == j,
                forall|t: int|
                    0 <= t < j ==> out@[t] == self.slot(slot as int).ethernet_frame@[t],
            decreases len - j,
        {
            out.push(self.frames[slot as usize].ethernet_frame[j]);
            j += 1;
        }
        out
    }

    /// A copy of a slot's whole PDU region.
    pub fn pdu_buf(&self, slot: u8) -> (r: Vec<u8>)
        requires
            self.wf(),
            (slot as int) < self.num_slots(),
        ensures
            r@ =~= self.region(slot as int),
    {
        let len = self.frame_data_len;
        let mut out: Vec<u8> = Vec::new();
        let mut j: usize = PDU_REGION_START;
        while j < len
            invariant
                PDU_REGION_START <= j <= len,
                (slot as int) < self.num_slots(),
                len == self.slot(slot as int).ethernet_frame@.len(),
                len == self.frame_data_len,
                out@.len() == j - PDU_REGION_START,
                forall|t: int|
                    0 <= t < j - PDU_REGION_START ==> out@[t] == self.region(slot as int)[t],
            decreases len - j,
        {
            out.push(self.frames[slot as usize].ethernet_frame[j]);
            j += 1;
        }
        out
    }

    /// Record the outcome of a transmit attempt on a `Sending` slot.
    ///
    /// A complete send moves the slot to `Sent`. A short send puts the slot
    /// back to `Sendable` and reports `PartialSend`; a driver error puts it
    /// back and is passed through.
    pub fn complete_send(&mut self, slot: u8, sent: Result<usize, Error>) -> (r: Result<
        usize,
        Error,
    >)
        requires
            old(self).wf(),
            (slot as int) < old(self).num_slots(),
            old(self).slot(slot as int).status == FrameState::Sending,
        ensures
            final(self).wf(),
            final(self).num_slots() == old(self).num_slots(),
            final(self).frame_data_len == old(self).frame_data_len,
            final(self).frame_idx == old(self).frame_idx,
            final(self).pdu_idx == old(self).pdu_idx,
            final(self).exit_flag == old(self).exit_flag,
            ({
                let len = PDU_REGION_START + old(self).slot(slot as int).pdu_payload_len as int;
                let to = match sent {
                    Ok(n) => if n as int == len {
                        FrameState::Sent
                    } else {
                        FrameState::Sendable
                    },
                    Err(_) => FrameState::Sendable,
                };
                &&& final(self).frames@ =~= old(self).frames@.update(
                    slot as int,
                    (FrameElement { status: to, ..old(self).slot(slot as int) }),
                )
                &&& r == match sent {
                    Ok(n) => if n as int == len {
                        Ok::<usize, Error>(n)
                    } else {
                        Err::<usize, Error>(Error::PartialSend { len: len as usize, sent: n })
                    },
                    Err(e) => Err::<usize, Error>(e),
                }
            }),
    {
        let len = PDU_REGION_START + self.frames[slot as usize].pdu_payload_len;
        match sent {
            Ok(n) => if n == len {
                set_slot_status(self, slot as usize, FrameState::Sent);
                Ok(n)
            } else {
                set_slot_status(self, slot as usize, FrameState::Sendable);
                Err(Error::PartialSend { len, sent: n })
            },
            Err(e) => {
                set_slot_status(self, slot as usize, FrameState::Sendable);
                Err(e)
            },
        }
    }
}

/// What happened to a received Ethernet frame.
#[derive(Debug, PartialEq, Eq, Copy, Clone, Structural)]
pub enum ReceiveAction {
    /// The frame was ignored: not EtherCAT, an echo of our own send, empty,
    /// or its slot was no longer waiting.
    Ignored,
    /// The frame was matched to a waiting slot and stored there.
    Processed,
}

/// Whether a received Ethernet frame carries the EtherCAT ethertype.
pub open spec fn rx_ethertype_ok(f: Seq<u8>) -> bool {
    f[12] == 0x88 && f[13] == 0xa4
}

/// Whether a received frame's source MAC is the main device's own: an echo
/// of our own broadcast on a switched network.
pub open spec fn rx_src_is_self(f: Seq<u8>) -> bool {
    f.subrange(6, 12) =~= maindevice_addr_spec()
}

impl PduStorage {
    /// Feed one received Ethernet frame to the PDU loop.
    ///
    /// Non-EtherCAT frames, echoes of our own sends, and empty frames are
    /// ignored. Otherwise the first PDU's wire index is looked up among the
    /// slots; a miss is a decode error, and a hit whose slot is no longer in
    /// `Sent` — a response arriving after a timeout freed the slot — is
    /// silently dropped. A matched response is copied into the slot, which
    /// moves to `RxDone` for the waiting future.
    #[verifier::rlimit(100)]
    pub fn receive_frame(&mut self, ethernet_frame: &Vec<u8>) -> (r: Result<ReceiveAction, Error>)
        requires
            old(self).wf(),
        ensures
            final(self).wf(),
            final(self).num_slots() == old(self).num_slots(),
            final(self).frame_data_len == old(self).frame_data_len,
            final(self).frame_idx == old(self).frame_idx,
            final(self).pdu_idx == old(self).pdu_idx,
            final(self).exit_flag == old(self).exit_flag,
            ({
                let f = ethernet_frame@;
                let hv = le16_at(f, ETHERNET_HEADER_BYTES as int);
                let plen = hv % 0x800;
                if old(self).exit_flag {
                    r == Ok::<_, Error>(ReceiveAction::Ignored) && *final(self) == *old(self)
                } else if f.len() < ETHERNET_HEADER_BYTES {
                    r == Err::<ReceiveAction, _>(Error::ReceiveFrame) && *final(self) == *old(self)
                } else if !rx_ethertype_ok(f) || rx_src_is_self(f) {
                    r == Ok::<_, Error>(ReceiveAction::Ignored) && *final(self) == *old(self)
                } else if f.len() < PDU_REGION_START {
                    r == Err::<ReceiveAction, _>(
                        Error::Wire(crate::error::WireError::ReadBufferTooShort),
                    ) && *final(self) == *old(self)
                } else if hv / 0x1000 != 1 {
                    r == Err::<ReceiveAction, _>(
                        Error::Wire(crate::error::WireError::InvalidValue),
                    ) && *final(self) == *old(self)
                } else if plen == 0 {
                    r == Ok::<_, Error>(ReceiveAction::Ignored) && *final(self) == *old(self)
                } else if f.len() < PDU_REGION_START + plen {
                    r == Err::<ReceiveAction, _>(Error::ReceiveFrame) && *final(self) == *old(self)
                } else if plen < 2 {
                    r == Err::<ReceiveAction, _>(Error::Internal) && *final(self) == *old(self)
                } else {
                    let idx = f[PDU_REGION_START + 1];
                    if forall|j: int|
                        0 <= j < old(self).num_slots() ==> (#[trigger] old(self).slot(
                            j,
                        )).first_pdu != idx as u16 {
                        r == Err::<ReceiveAction, _>(Error::Pdu(PduError::Decode)) && *final(self)
                            == *old(self)
                    } else {
                        let i = choose|i: int|
                            0 <= i < old(self).num_slots() && (#[trigger] old(self).slot(
                                i,
                            )).first_pdu == idx as u16 && forall|j: int|
                                0 <= j < i ==> (#[trigger] old(self).slot(j)).first_pdu != idx
                                    as u16;
                        if old(self).slot(i).status != FrameState::Sent {
                            r == Ok::<_, Error>(ReceiveAction::Ignored) && *final(self) == *old(
                                self,
                            )
                        } else if plen > old(self).capacity() {
                            r == Err::<ReceiveAction, _>(Error::Internal) && final(self).frames@
                                =~= old(self).frames@.update(
                                i,
                                (FrameElement {
                                    status: FrameState::RxBusy,
                                    ..old(self).slot(i)
                                }),
                            )
                        } else {
                            &&& r == Ok::<_, Error>(ReceiveAction::Processed)
                            &&& final(self).frames@ =~= old(self).frames@.update(
                                i,
                                final(self).slot(i),
                            )
                            &&& final(self).slot(i).status == FrameState::RxDone
                            &&& final(self).slot(i).pdu_payload_len == old(self).slot(
                                i,
                            ).pdu_payload_len
                            &&& final(self).slot(i).first_pdu == old(self).slot(i).first_pdu
                            &&& final(self).region(i).subrange(0, plen) =~= f.subrange(
                                PDU_REGION_START as int,
                                PDU_REGION_START + plen,
                            )
                            &&& forall|t: int|
                                plen <= t < old(self).capacity() ==> final(self).region(i)[t]
                                    == old(self).region(i)[t]
                        }
                    }
                }
            }),
    {
        if self.exit_flag {
            return Ok(ReceiveAction::Ignored);
        }
        if ethernet_frame.len() < ETHERNET_HEADER_BYTES {
            return Err(Error::ReceiveFrame);
        }
        // Ethertype check, big-endian on the wire.
        if !(ethernet_frame[12] == 0x88 && ethernet_frame[13] == 0xa4) {
            return Ok(ReceiveAction::Ignored);
        }
        // Ignore echoes of our own broadcasts.
        let src_is_self = ethernet_frame[6] == 0x10 && ethernet_frame[7] == 0x10
            && ethernet_frame[8] == 0x10 && ethernet_frame[9] == 0x10 && ethernet_frame[10]
            == 0x10 && ethernet_frame[11] == 0x10;
        proof {
            assert(maindevice_addr_spec().len() == 6);
            if src_is_self {
                assert(rx_src_is_self(ethernet_frame@));
            } else {
                assert(!rx_src_is_self(ethernet_frame@));
            }
        }
        if src_is_self {
            return Ok(ReceiveAction::Ignored);
        }
        if ethernet_frame.len() < PDU_REGION_START {
            return Err(Error::Wire(crate::error::WireError::ReadBufferTooShort));
        }
        let hv = get_u16_le(ethernet_frame, ETHERNET_HEADER_BYTES);
        if hv / 0x1000 != 1 {
            return Err(Error::Wire(crate::error::WireError::InvalidValue));
        }
        let plen = (hv % 0x800) as usize;
        if plen == 0 {
            return Ok(ReceiveAction::Ignored);
        }
        if ethernet_frame.len() < PDU_REGION_START + plen {
            return Err(Error::ReceiveFrame);
        }
        if plen < 2 {
            return Err(Error::Internal);
        }
        // The second byte of the first PDU header is its wire index.
        let pdu_idx = ethernet_frame[PDU_REGION_START + 1];
        let frame_index = match self.frame_index_by_first_pdu_index(pdu_idx) {
            Some(i) => i,
            None => {
                return Err(Error::Pdu(PduError::Decode));
            },
        };
        let sl = frame_index as usize;
        proof {
            assert(sl as int == choose|i: int|
                0 <= i < self.num_slots() && (#[trigger] self.slot(i)).first_pdu == pdu_idx
                    as u16 && forall|j: int|
                    0 <= j < i ==> (#[trigger] self.slot(j)).first_pdu != pdu_idx as u16) by {
                let c = choose|i: int|
                    0 <= i < self.num_slots() && (#[trigger] self.slot(i)).first_pdu == pdu_idx
                        as u16 && forall|j: int|
                        0 <= j < i ==> (#[trigger] self.slot(j)).first_pdu != pdu_idx as u16;
                let sli = sl as int;
                assert(!(c < sli) && !(sli < c));
            }
        }
        if !matches!(self.frames[sl].status, FrameState::Sent) {
            // A competitor — usually a timeout — already moved the slot on;
            // drop the frame rather than double-process it.
            return Ok(ReceiveAction::Ignored);
        }
        if plen > self.frame_data_len - PDU_REGION_START {
            set_slot_status(self, sl, FrameState::RxBusy);
            return Err(Error::Internal);
        }
        // Copy the PDU region of the response into the slot.
        let ghost prev = self.frames@;
        let mut elem = self.frames.remove(sl);
        let ghost buf0 = elem.ethernet_frame@;
        let mut k: usize = 0;
        while k < plen
            invariant
                k <= plen,
                plen < 0x800,
                PDU_REGION_START + plen <= elem.ethernet_frame@.len(),
                PDU_REGION_START + plen <= ethernet_frame@.len(),
                elem.ethernet_frame@.len() == buf0.len(),
                0 <= sl < prev.len(),
                elem.storage_slot_index == prev[sl as int].storage_slot_index,
                elem.status == prev[sl as int].status,
                elem.pdu_payload_len == prev[sl as int].pdu_payload_len,
                elem.first_pdu == prev[sl as int].first_pdu,
                forall|j: int|
                    0 <= j < buf0.len() && !(PDU_REGION_START <= j < PDU_REGION_START + k)
                        ==> elem.ethernet_frame@[j] == buf0[j],
                forall|j: int|
                    0 <= j < k ==> #[trigger] elem.ethernet_frame@[PDU_REGION_START + j]
                        == ethernet_frame@[PDU_REGION_START + j],
            decreases plen - k,
        {
            elem.ethernet_frame.set(PDU_REGION_START + k, ethernet_frame[PDU_REGION_START + k]);
            k += 1;
        }
        elem.status = FrameState::RxDone;
        let ghost gelem = elem;
        self.frames.insert(sl, elem);
        proof {
            lemma_remove_insert(prev, sl as int, gelem);
            assert forall|t: int|
                0 <= t < self.region(sl as int).len() implies (t < plen ==> self.region(
                sl as int,
            )[t] == ethernet_frame@[PDU_REGION_START + t]) && (t >= plen ==> self.region(
                sl as int,
            )[t] == old(self).region(sl as int)[t]) by {
                assert(self.region(sl as int)[t] == gelem.ethernet_frame@[PDU_REGION_START + t]);
                assert(old(self).region(sl as int)[t] == buf0[PDU_REGION_START + t]);
            }
        }
        Ok(ReceiveAction::Processed)
    }
}

/// A response held by calling code. Dropping it returns the slot to `Idle`.
#[derive(Debug, PartialEq, Eq, Copy, Clone, Structural)]
pub struct ReceivedFrame {
    /// The slot holding the response.
    pub slot: u8,
}

/// One step of polling a response future.
#[derive(Debug, PartialEq, Eq, Copy, Clone)]
pub enum FramePoll {
    /// The future completed with a response or an error.
    Ready(Result<ReceivedFrame, Error>),
    /// Still waiting: poll again after the transmit driver, receive driver
    /// or timer has made progress.
    Pending,
}

/// The future returned by [`PduStorage::mark_sendable`], waiting for the
/// response to a sent frame. The caller re-checks the slot state on every
/// poll, so a response that arrives before the first poll is still seen.
pub struct ReceiveFrameFut {
    /// The slot the sent frame occupies.
    pub slot: u8,
    /// Timeout-triggered resends remaining.
    pub retries_left: usize,
    /// Whether the future has already yielded its result and given up the
    /// slot.
    pub taken: bool,
}

/// The future's slot stays within the pool.
pub open spec fn fut_inv(store: PduStorage, fut: ReceiveFrameFut) -> bool {
    0 <= (fut.slot as int) < store.num_slots()
}

impl ReceiveFrameFut {
    /// Drive the future one step.
    ///
    /// A stored response (`RxDone`) is claimed and returned. Otherwise, on a
    /// timer expiry the frame is either re-queued for sending (when retries
    /// remain) or given up with `Timeout` and its slot freed. A slot still
    /// in flight leaves the future pending; any other slot state is a logic
    /// error.
    pub fn poll(&mut self, storage: &mut PduStorage, timer_expired: bool) -> (r: FramePoll)
        requires
            old(storage).wf(),
            fut_inv(*old(storage), *old(self)),
        ensures
            final(storage).wf(),
            fut_inv(*final(storage), *final(self)),
            final(self).slot == old(self).slot,
            final(storage).num_slots() == old(storage).num_slots(),
            final(storage).frame_data_len == old(storage).frame_data_len,
            final(storage).frame_idx == old(storage).frame_idx,
            final(storage).pdu_idx == old(storage).pdu_idx,
            final(storage).exit_flag == old(storage).exit_flag,
            ({
                let sl = old(self).slot as int;
                let st = old(storage).slot(sl).status;
                if old(self).taken {
                    &&& r == FramePoll::Ready(
                        Err::<ReceivedFrame, _>(Error::Pdu(PduError::InvalidFrameState)),
                    )
                    &&& *final(storage) == *old(storage)
                    &&& *final(self) == *old(self)
                } else if st == FrameState::RxDone {
                    &&& r == FramePoll::Ready(
                        Ok::<_, Error>(ReceivedFrame { slot: old(self).slot }),
                    )
                    &&& final(storage).frames@ =~= old(storage).frames@.update(
                        sl,
                        (FrameElement {
                            status: FrameState::RxProcessing,
                            ..old(storage).slot(sl)
                        }),
                    )
                    &&& final(self).taken
                    &&& final(self).retries_left == old(self).retries_left
                } else if timer_expired && old(self).retries_left == 0 {
                    &&& r == FramePoll::Ready(Err::<ReceivedFrame, _>(Error::Timeout))
                    &&& final(storage).frames@ =~= old(storage).frames@.update(
                        sl,
                        (FrameElement { status: FrameState::Idle, ..old(storage).slot(sl) }),
                    )
                    &&& final(self).taken
                } else {
                    &&& final(storage).frames@ =~= old(storage).frames@.update(
                        sl,
                        (FrameElement {
                            status: if timer_expired {
                                FrameState::Sendable
                            } else {
                                st
                            },
                            ..old(storage).slot(sl)
                        }),
                    )
                    &&& final(self).retries_left == if timer_expired {
                        (old(self).retries_left - 1) as usize
                    } else {
                        old(self).retries_left
                    }
                    &&& if st == FrameState::Sendable || st == FrameState::Sending || st
                        == FrameState::Sent || st == FrameState::RxBusy {
                        r == FramePoll::Pending && !final(self).taken
                    } else {
                        r == FramePoll::Ready(
                            Err::<ReceivedFrame, _>(Error::Pdu(PduError::InvalidFrameState)),
                        ) && final(self).taken
                    }
                }
            }),
    {
        if self.taken {
            return FramePoll::Ready(Err(Error::Pdu(PduError::InvalidFrameState)));
        }
        let sl = self.slot as usize;
        let was = storage.frames[sl].status;
        if matches!(was, FrameState::RxDone) {
            set_slot_status(storage, sl, FrameState::RxProcessing);
            self.taken = true;
            return FramePoll::Ready(Ok(ReceivedFrame { slot: self.slot }));
        }
        if timer_expired {
            if self.retries_left == 0 {
                // Give the slot up for reuse and report the timeout.
                set_slot_status(storage, sl, FrameState::Idle);
                self.taken = true;
                return FramePoll::Ready(Err(Error::Timeout));
            }
            // Re-queue the frame for the transmit driver and keep waiting.
            self.retries_left = self.retries_left - 1;
            set_slot_status(storage, sl, FrameState::Sendable);
        } else {
            set_slot_status(storage, sl, was);
        }
        match was {
            FrameState::Sendable | FrameState::Sending | FrameState::Sent | FrameState::RxBusy => {
                FramePoll::Pending
            },
            _ => {
                self.taken = true;
                FramePoll::Ready(Err(Error::Pdu(PduError::InvalidFrameState)))
            },
        }
    }

    /// Give the slot back if the future is dropped before completion;
    /// without this, timed-out frames would clog the pool.
    pub fn release(self, storage: &mut PduStorage)
        requires
            old(storage).wf(),
            fut_inv(*old(storage), self),
        ensures
            final(storage).wf(),
            self.taken ==> *final(storage) == *old(storage),
            !self.taken ==> final(storage).frames@ =~= old(storage).frames@.update(
                self.slot as int,
                (FrameElement {
                    status: FrameState::Idle,
                    ..old(storage).slot(self.slot as int)
                }),
            ),
            final(storage).num_slots() == old(storage).num_slots(),
            final(storage).frame_data_len == old(storage).frame_data_len,
            final(storage).frame_idx == old(storage).frame_idx,
            final(storage).pdu_idx == old(storage).pdu_idx,
            final(storage).exit_flag == old(storage).exit_flag,
    {
        if !self.taken {
            set_slot_status(storage, self.slot as usize, FrameState::Idle);
        }
    }
}

impl ReceivedFrame {
    /// Hand the slot back: the response has been read and the slot returns
    /// to `Idle`.
    pub fn release(self, storage: &mut PduStorage)
        requires
            old(storage).wf(),
            0 <= (self.slot as int) < old(storage).num_slots(),
        ensures
            final(storage).wf(),
            final(storage).frames@ =~= old(storage).frames@.update(
                self.slot as int,
                (FrameElement {
                    status: FrameState::Idle,
                    ..old(storage).slot(self.slot as int)
                }),
            ),
            final(storage).num_slots() == old(storage).num_slots(),
            final(storage).frame_data_len == old(storage).frame_data_len,
            final(storage).frame_idx == old(storage).frame_idx,
            final(storage).pdu_idx == old(storage).pdu_idx,
            final(storage).exit_flag == old(storage).exit_flag,
    {
        set_slot_status(storage, self.slot as usize, FrameState::Idle);
    }
}

/// Replace one slot's status, leaving everything else in place.
fn set_slot_status(storage: &mut PduStorage, sl: usize, to: FrameState)
    requires
        old(storage).wf(),
        sl < old(storage).num_slots(),
    ensures
        final(storage).wf(),
        final(storage).frames@ =~= old(storage).frames@.update(
            sl as int,
            (FrameElement { status: to, ..old(storage).slot(sl as int) }),
        ),
        final(storage).frame_idx == old(storage).frame_idx,
        final(storage).pdu_idx == old(storage).pdu_idx,
        final(storage).frame_data_len == old(storage).frame_data_len,
        final(storage).exit_flag == old(storage).exit_flag,
{
    let ghost prev = storage.frames@;
    let mut elem = storage.frames.remove(sl);
    elem.status = to;
    let ghost gelem = elem;
    storage.frames.insert(sl, elem);
    proof {
        lemma_remove_insert(prev, sl as int, gelem);
    }
}

/// Law: for every composed frame, the sum of the pushed PDUs' allocation
/// sizes equals the slot's consumed payload length, which never exceeds the
/// payload region's capacity.
pub proof fn lemma_frame_fill_total(store: PduStorage, f: CreatedFrame)
    requires
        created_inv(store, f),
    ensures
        sum_allocs(f.pushed@) == store.slot(f.slot as int).pdu_payload_len,
        store.slot(f.slot as int).pdu_payload_len <= store.capacity(),
{
    lemma_sum_allocs(f.pushed@);
}

/// Law: within a composed frame, every PDU but the last has its
/// more-follows flag set, and the last has it clear.
pub proof fn lemma_more_follows_chain(store: PduStorage, f: CreatedFrame)
    requires
        created_inv(store, f),
    ensures
        forall|k: int|
            0 <= k < f.pushed@.len() ==> flags_more(
                le16_at(store.region(f.slot as int), (#[trigger] f.pushed@[k]).start + 6),
            ) == (k < f.pushed@.len() - 1),
{
    let reg = store.region(f.slot as int);
    assert forall|k: int|
        0 <= k < f.pushed@.len() implies flags_more(
        le16_at(reg, (#[trigger] f.pushed@[k]).start + 6),
    ) == (k < f.pushed@.len() - 1) by {
        assert(meta_bytes_ok(f.pushed@, k, reg));
    }
}

/// Law: the empty-slot sentinel has a non-zero upper byte, so no 8-bit PDU
/// index can ever match a slot with no pushed PDUs.
pub proof fn lemma_sentinel_never_matches(search: u8)
    ensures
        search as u16 != FIRST_PDU_EMPTY,
{
}

/// The sum of the pushed PDUs' allocation sizes.
pub open spec fn sum_allocs(ps: Seq<PduMeta>) -> int
    decreases ps.len(),
{
    if ps.len() == 0 {
        0
    } else {
        sum_allocs(ps.drop_last()) + ps.last().alloc
    }
}

/// Because the pushed PDUs tile the region back to back, the sum of their
/// allocation sizes is exactly the consumed payload length.
pub proof fn lemma_sum_allocs(ps: Seq<PduMeta>)
    requires
        forall|j: int| 0 <= j < ps.len() ==> #[trigger] meta_shape_ok(ps, j),
    ensures
        sum_allocs(ps) == pushed_end(ps),
    decreases ps.len(),
{
    if ps.len() > 0 {
        let prefix = ps.drop_last();
        assert forall|j: int| 0 <= j < prefix.len() implies #[trigger] meta_shape_ok(prefix, j) by {
            assert(meta_shape_ok(ps, j));
        }
        lemma_sum_allocs(prefix);
        assert(meta_shape_ok(ps, ps.len() - 1));
        if ps.len() >= 2 {
            assert(prefix[prefix.len() - 1] == ps[ps.len() - 2]);
        }
    }
}

} // verus!
