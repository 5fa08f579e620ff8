//! Per-sub-device port records and the topology queries the distributed-clock
//! engine is built on.
//!
//! Each sub-device has four ports, stored in EtherCAT traversal order
//! `0, 3, 1, 2`. A port latches a 32-bit receive timestamp when the latch
//! broadcast passes it; the differences between those timestamps drive the
//! propagation-delay computation.

use vstd::prelude::*;

use crate::subdevice::SubDevice;

verus! {

/// One port of a sub-device.
#[derive(Debug, PartialEq, Eq, Copy, Clone)]
pub struct Port {
    /// Whether the port has a link.
    pub active: bool,
    /// The receive timestamp latched at this port, in nanoseconds.
    pub dc_receive_time: u32,
    /// The EtherCAT port number, ordered as 0 -> 3 -> 1 -> 2.
    pub number: u8,
    /// The index of the downstream sub-device this port is connected to, if
    /// one has been assigned. Index 0 is never a downstream device, so the
    /// value is always non-zero.
    pub downstream_to: Option<u16>,
}

impl Default for Port {
    /// An inactive port numbered 0 with no timestamp and no downstream link.
    fn default() -> (r: Self)
        ensures
            r == (Port { active: false, dc_receive_time: 0, number: 0, downstream_to: None::<u16> }),
    {
        Port { active: false, dc_receive_time: 0, number: 0, downstream_to: None }
    }
}

/// The position of EtherCAT port number `number` in the traversal order
/// `0, 3, 1, 2`.
pub open spec fn port_index_spec(number: u8) -> int {
    if number == 0 {
        0
    } else if number == 3 {
        1
    } else if number == 1 {
        2
    } else {
        3
    }
}

impl Port {
    /// The position of this port's number in the traversal order `0, 3, 1, 2`.
    pub fn index(&self) -> (r: usize)
        requires
            self.number < 4,
        ensures
            r == port_index_spec(self.number),
            r < 4,
    {
        match self.number {
            0 => 0,
            3 => 1,
            1 => 2,
            _ => 3,
        }
    }

    /// Whether two ports agree on every field.
    fn same_as(&self, other: &Port) -> (r: bool)
        ensures
            r == (*self == *other),
    {
        let downstream_same = match (self.downstream_to, other.downstream_to) {
            (Some(a), Some(b)) => a == b,
            (None, None) => true,
            _ => false,
        };
        self.active == other.active && self.dc_receive_time == other.dc_receive_time
            && self.number == other.number && downstream_same
    }
}

/// A sub-device's place in the topology, classified by its number of open
/// ports.
#[derive(Debug, PartialEq, Eq, Copy, Clone, Structural)]
pub enum Topology {
    /// Two open ports: one upstream, one downstream.
    Passthrough,
    /// One open port: the last device in its branch.
    LineEnd,
    /// Three open ports: the device forks the tree.
    Fork,
    /// Four open ports: the device forms a cross.
    Cross,
}

impl Topology {
    /// Whether the device splits the tree into more than one downstream
    /// branch.
    pub fn is_junction(&self) -> (r: bool)
        ensures
            r == (*self == Topology::Fork || *self == Topology::Cross),
    {
        matches!(self, Topology::Fork | Topology::Cross)
    }
}

/// The four ports of a sub-device, stored in EtherCAT traversal order
/// `0, 3, 1, 2`.
#[derive(Debug, PartialEq, Copy, Clone)]
pub struct Ports(pub [Port; 4]);

impl Ports {
    /// Whether position `i` holds an active port.
    pub open spec fn active(self, i: int) -> bool {
        self.0[i].active
    }

    /// The receive timestamp at position `i`.
    pub open spec fn time(self, i: int) -> int {
        self.0[i].dc_receive_time as int
    }

    /// The downstream assignment at position `i`.
    pub open spec fn downstream(self, i: int) -> Option<u16> {
        self.0[i].downstream_to
    }

    /// The ports are stored in EtherCAT traversal order: position `k` holds
    /// port number 0, 3, 1, 2 respectively.
    pub open spec fn wf(self) -> bool {
        self.0[0].number == 0 && self.0[1].number == 3 && self.0[2].number == 1 && self.0[
            3
        ].number == 2
    }

    /// The number of active ports.
    pub open spec fn open_count(self) -> int {
        (if self.active(0) {
            1int
        } else {
            0
        }) + (if self.active(1) {
            1int
        } else {
            0
        }) + (if self.active(2) {
            1int
        } else {
            0
        }) + (if self.active(3) {
            1int
        } else {
            0
        })
    }

    /// Of two positions, the one an iteration in array order keeps when
    /// looking for the first port with the smallest receive time.
    pub open spec fn earlier_min(self, i: int, j: int) -> int {
        if !self.active(j) {
            i
        } else if !self.active(i) {
            j
        } else if self.time(j) < self.time(i) {
            j
        } else {
            i
        }
    }

    /// The position of the first active port with the smallest receive time:
    /// the port traffic from the main device enters through.
    pub open spec fn entry_index(self) -> int {
        self.earlier_min(self.earlier_min(self.earlier_min(0, 1), 2), 3)
    }

    /// The position of the last active port in array order, or -1 when no
    /// port is active.
    pub open spec fn last_active_index(self) -> int {
        if self.active(3) {
            3
        } else if self.active(2) {
            2
        } else if self.active(1) {
            1
        } else if self.active(0) {
            0
        } else {
            -1
        }
    }

    /// The largest receive time over active positions in `[lo, hi]`.
    pub open spec fn max_time_in(self, lo: int, hi: int) -> int {
        let m = -1int;
        let m = if lo <= 0 <= hi && self.active(0) && self.time(0) > m {
            self.time(0)
        } else {
            m
        };
        let m = if lo <= 1 <= hi && self.active(1) && self.time(1) > m {
            self.time(1)
        } else {
            m
        };
        let m = if lo <= 2 <= hi && self.active(2) && self.time(2) > m {
            self.time(2)
        } else {
            m
        };
        if lo <= 3 <= hi && self.active(3) && self.time(3) > m {
            self.time(3)
        } else {
            m
        }
    }

    /// The smallest receive time over active positions in `[lo, hi]`.
    pub open spec fn min_time_in(self, lo: int, hi: int) -> int {
        let m = 0x1_0000_0000int;
        let m = if lo <= 0 <= hi && self.active(0) && self.time(0) < m {
            self.time(0)
        } else {
            m
        };
        let m = if lo <= 1 <= hi && self.active(1) && self.time(1) < m {
            self.time(1)
        } else {
            m
        };
        let m = if lo <= 2 <= hi && self.active(2) && self.time(2) < m {
            self.time(2)
        } else {
            m
        };
        if lo <= 3 <= hi && self.active(3) && self.time(3) < m {
            self.time(3)
        } else {
            m
        }
    }

    /// Whether `[lo, hi]` holds at least one active position.
    pub open spec fn has_active_in(self, lo: int, hi: int) -> bool {
        exists|i: int| lo <= i <= hi && 0 <= i < 4 && self.active(i)
    }

    /// The loop propagation time over active positions in `[lo, hi]`: the
    /// spread between the largest and smallest receive time, or `None` when
    /// the spread is zero or no position qualifies.
    pub open spec fn spread_in(self, lo: int, hi: int) -> Option<u32> {
        if self.has_active_in(lo, hi) && self.max_time_in(lo, hi) > self.min_time_in(lo, hi) {
            Some((self.max_time_in(lo, hi) - self.min_time_in(lo, hi)) as u32)
        } else {
            None
        }
    }

    /// Build a port set from four active flags given in EtherCAT traversal
    /// order `0, 3, 1, 2`, with all receive times zero and no downstream
    /// assignments.
    pub fn new(active0: bool, active3: bool, active1: bool, active2: bool) -> (r: Self)
        ensures
            r.wf(),
            r.active(0) == active0,
            r.active(1) == active3,
            r.active(2) == active1,
            r.active(3) == active2,
            forall|i: int| 0 <= i < 4 ==> r.time(i) == 0 && r.downstream(i) is None,
    {
        let r = Ports(
            [
                Port { active: active0, dc_receive_time: 0, number: 0, downstream_to: None },
                Port { active: active3, dc_receive_time: 0, number: 3, downstream_to: None },
                Port { active: active1, dc_receive_time: 0, number: 1, downstream_to: None },
                Port { active: active2, dc_receive_time: 0, number: 2, downstream_to: None },
            ],
        );
        proof {
            assert(forall|i: int| 0 <= i < 4 ==> r.time(i) == 0 && r.downstream(i) is None) by {
                assert(r.0[0].dc_receive_time == 0 && r.0[1].dc_receive_time == 0 && r.0[
                    2
                ].dc_receive_time == 0 && r.0[3].dc_receive_time == 0);
            }
        }
        r
    }

    /// Set the four receive times, given in EtherCAT traversal order
    /// `0, 3, 1, 2`.
    pub fn set_receive_times(&mut self, time_p0: u32, time_p3: u32, time_p1: u32, time_p2: u32)
        ensures
            final(self).time(0) == time_p0,
            final(self).time(1) == time_p3,
            final(self).time(2) == time_p1,
            final(self).time(3) == time_p2,
            forall|i: int|
                0 <= i < 4 ==> final(self).active(i) == old(self).active(i) && final(self).downstream(i) == old(self).downstream(i) && final(self).0[i].number == old(self).0[i].number,
            final(self).wf() == old(self).wf(),
    {
        let p = self.0[0];
        self.0[0] = Port { dc_receive_time: time_p0, ..p };
        let p = self.0[1];
        self.0[1] = Port { dc_receive_time: time_p3, ..p };
        let p = self.0[2];
        self.0[2] = Port { dc_receive_time: time_p1, ..p };
        let p = self.0[3];
        self.0[3] = Port { dc_receive_time: time_p2, ..p };
    }

    /// The number of ports with a link.
    pub fn open_ports(&self) -> (r: u8)
        ensures
            r == self.open_count(),
    {
        let mut count: u8 = 0;
        if self.0[0].active {
            count += 1;
        }
        if self.0[1].active {
            count += 1;
        }
        if self.0[2].active {
            count += 1;
        }
        if self.0[3].active {
            count += 1;
        }
        count
    }

    /// The port that first sees traffic from the main device: the first
    /// active port with the smallest receive time.
    pub fn entry_port(&self) -> (r: Port)
        requires
            self.open_count() >= 1,
        ensures
            r == self.0[self.entry_index()],
            0 <= self.entry_index() < 4,
            self.active(self.entry_index()),
    {
        // Fold in one position at a time, mirroring `earlier_min`.
        let mut best: usize = 0;
        if self.0[1].active && (!self.0[best].active || self.0[1].dc_receive_time < self.0[
            best
        ].dc_receive_time) {
            best = 1;
        }
        if self.0[2].active && (!self.0[best].active || self.0[2].dc_receive_time < self.0[
            best
        ].dc_receive_time) {
            best = 2;
        }
        if self.0[3].active && (!self.0[best].active || self.0[3].dc_receive_time < self.0[
            best
        ].dc_receive_time) {
            best = 3;
        }
        self.0[best]
    }

    /// The last open port in array order.
    pub fn last_port(&self) -> (r: Option<Port>)
        ensures
            match r {
                Some(p) => self.last_active_index() >= 0 && p == self.0[self.last_active_index()],
                None => self.open_count() == 0,
            },
    {
        if self.0[3].active {
            Some(self.0[3])
        } else if self.0[2].active {
            Some(self.0[2])
        } else if self.0[1].active {
            Some(self.0[1])
        } else if self.0[0].active {
            Some(self.0[0])
        } else {
            None
        }
    }

    /// The device's place in the topology, by its number of open ports.
    pub fn topology(&self) -> (r: Topology)
        requires
            1 <= self.open_count(),
        ensures
            r == Topology::LineEnd <==> self.open_count() == 1,
            r == Topology::Passthrough <==> self.open_count() == 2,
            r == Topology::Fork <==> self.open_count() == 3,
            r == Topology::Cross <==> self.open_count() == 4,
    {
        match self.open_ports() {
            1 => Topology::LineEnd,
            2 => Topology::Passthrough,
            3 => Topology::Fork,
            _ => Topology::Cross,
        }
    }

    /// Whether `port` is the last open port of this device.
    pub fn is_last_port(&self, port: &Port) -> (r: bool)
        ensures
            r == (self.last_active_index() >= 0 && self.0[self.last_active_index()] == *port),
    {
        match self.last_port() {
            Some(last) => last.same_as(port),
            None => false,
        }
    }

    /// The time in nanoseconds for a packet to traverse all active ports of
    /// this device and come back: the spread between the largest and smallest
    /// active receive time.
    pub fn total_propagation_time(&self) -> (r: Option<u32>)
        ensures
            r == self.spread_in(0, 3),
    {
        self.spread_between(0, 3)
    }

    /// The propagation time from this device's entry port up to `this_port`,
    /// over the active ports between them in array order.
    pub fn propagation_time_to(&self, this_port: &Port) -> (r: Option<u32>)
        requires
            self.wf(),
            self.open_count() >= 1,
            this_port.number < 4,
        ensures
            r == self.spread_in(self.entry_index(), port_index_spec(this_port.number)),
    {
        let entry_port = self.entry_port();
        let lo = entry_port.index();
        let hi = this_port.index();
        self.spread_between(lo, hi)
    }

    /// The spread between the largest and smallest active receive time over
    /// positions `lo..=hi`, or `None` when it is zero or no position
    /// qualifies.
    fn spread_between(&self, lo: usize, hi: usize) -> (r: Option<u32>)
        requires
            lo < 4 || lo > hi,
            hi < 4,
        ensures
            r == self.spread_in(lo as int, hi as int),
    {
        let mut max: Option<u32> = None;
        let mut min: Option<u32> = None;
        let mut i: usize = lo;
        while i <= hi && i < 4
            invariant
                lo <= i,
                i <= hi + 1 || i == lo,
                hi < 4,
                match max {
                    Some(m) => m == self.max_time_in(lo as int, i - 1) && self.has_active_in(
                        lo as int,
                        i - 1,
                    ),
                    None => !self.has_active_in(lo as int, i - 1),
                },
                match (max, min) {
                    (Some(_), Some(mn)) => mn == self.min_time_in(lo as int, i - 1),
                    (None, None) => true,
                    _ => false,
                },
            decreases 4 - i,
        {
            if self.0[i].active {
                let t = self.0[i].dc_receive_time;
                match max {
                    Some(m) => if t > m {
                        max = Some(t);
                    },
                    None => max = Some(t),
                }
                match min {
                    Some(m) => if t < m {
                        min = Some(t);
                    },
                    None => min = Some(t),
                }
            }
            i += 1;
        }
        proof {
            assert(self.max_time_in(lo as int, i - 1) == self.max_time_in(lo as int, hi as int));
            assert(self.min_time_in(lo as int, i - 1) == self.min_time_in(lo as int, hi as int));
            assert(self.has_active_in(lo as int, i - 1) == self.has_active_in(
                lo as int,
                hi as int,
            ));
        }
        match (max, min) {
            (Some(mx), Some(mn)) => {
                let diff = mx - mn;
                if diff > 0 {
                    Some(diff)
                } else {
                    None
                }
            },
            _ => None,
        }
    }

    /// The sum of receive-time deltas over adjacent active port pairs up to
    /// (exclusive) the pair starting at `port`'s position. A pair only
    /// contributes when both of its ports are active; the sum saturates.
    pub open spec fn intermediate_time_to(self, pos: int) -> int {
        let d0 = if 0 < pos && self.active(0) && self.active(1) {
            sat_sub32(self.time(1), self.time(0))
        } else {
            0
        };
        let d1 = if 1 < pos && self.active(1) && self.active(2) {
            sat_sub32(self.time(2), self.time(1))
        } else {
            0
        };
        let d2 = if 2 < pos && self.active(2) && self.active(3) {
            sat_sub32(self.time(3), self.time(2))
        } else {
            0
        };
        sat_add32(sat_add32(d0, d1), d2)
    }

    /// Propagation time between this device's active port pairs, summed in
    /// array order up to `port`'s position.
    pub fn intermediate_propagation_time_to(&self, port: &Port) -> (r: u32)
        requires
            port.number < 4,
        ensures
            r == self.intermediate_time_to(port_index_spec(port.number)),
    {
        let pos = port.index();
        let mut sum: u32 = 0;
        if 0 < pos && self.0[0].active && self.0[1].active {
            sum = sum.saturating_add(self.0[1].dc_receive_time.saturating_sub(
                self.0[0].dc_receive_time,
            ));
        }
        if 1 < pos && self.0[1].active && self.0[2].active {
            sum = sum.saturating_add(self.0[2].dc_receive_time.saturating_sub(
                self.0[1].dc_receive_time,
            ));
        }
        if 2 < pos && self.0[2].active && self.0[3].active {
            sum = sum.saturating_add(self.0[3].dc_receive_time.saturating_sub(
                self.0[2].dc_receive_time,
            ));
        }
        sum
    }

    /// The active positions in array order.
    pub open spec fn active_positions(self) -> Seq<int> {
        let s = Seq::<int>::empty();
        let s = if self.active(0) {
            s.push(0)
        } else {
            s
        };
        let s = if self.active(1) {
            s.push(1)
        } else {
            s
        };
        let s = if self.active(2) {
            s.push(2)
        } else {
            s
        };
        if self.active(3) {
            s.push(3)
        } else {
            s
        }
    }

    /// The candidate visited `t` steps into the cyclic search that starts one
    /// past the entry port.
    pub open spec fn assign_candidate(self, t: int) -> int {
        let a = self.active_positions();
        a[(self.entry_index() + 1 + t) % (a.len() as int)]
    }

    /// The position the next downstream assignment goes to: the first
    /// candidate of the cyclic search, bounded at four steps, whose
    /// `downstream_to` is still unset.
    #[verifier::opaque]
    pub open spec fn next_assignable_index(self) -> Option<int> {
        if self.downstream(self.assign_candidate(0)) is None {
            Some(self.assign_candidate(0))
        } else if self.downstream(self.assign_candidate(1)) is None {
            Some(self.assign_candidate(1))
        } else if self.downstream(self.assign_candidate(2)) is None {
            Some(self.assign_candidate(2))
        } else if self.downstream(self.assign_candidate(3)) is None {
            Some(self.assign_candidate(3))
        } else {
            None
        }
    }

    /// Link a downstream device to this one, using the next open port found
    /// by a cyclic search that starts one past the entry port. Returns the
    /// EtherCAT number of the chosen port, or `None` when every active port
    /// is already assigned.
    pub fn assign_next_downstream_port(&mut self, downstream_subdevice_index: u16) -> (r: Option<
        u8,
    >)
        requires
            old(self).wf(),
            old(self).open_count() >= 1,
            downstream_subdevice_index != 0,
        ensures
            match old(self).next_assignable_index() {
                Some(a) => r == Some(old(self).0[a].number) && final(self).0@ =~= old(self).0@.update(
                    a,
                    Port { downstream_to: Some(downstream_subdevice_index), ..old(self).0[a] },
                ),
                None => r is None && *final(self) == *old(self),
            },
            final(self).wf(),
            final(self).open_count() == old(self).open_count(),
    {
        proof {
            reveal(Ports::next_assignable_index);
        }
        let entry = self.entry_port();
        let s = entry.index();

        let mut positions: [usize; 4] = [0, 0, 0, 0];
        let mut count: usize = 0;
        if self.0[0].active {
            positions[count] = 0;
            count += 1;
        }
        if self.0[1].active {
            positions[count] = 1;
            count += 1;
        }
        if self.0[2].active {
            positions[count] = 2;
            count += 1;
        }
        if self.0[3].active {
            positions[count] = 3;
            count += 1;
        }
        proof {
            assert(count == self.active_positions().len());
            assert(forall|k: int|
                0 <= k < count ==> positions@[k] as int == self.active_positions()[k]);
            assert(count >= 1);
        }

        let mut t: usize = 0;
        let mut found: Option<usize> = None;
        while t < 4 && found.is_none()
            invariant
                count == self.active_positions().len(),
                1 <= count <= 4,
                s == self.entry_index(),
                forall|k: int| 0 <= k < count ==> positions@[k] as int == self.active_positions()[k],
                forall|k: int| 0 <= k < count ==> 0 <= #[trigger] positions@[k] < 4,
                t <= 4,
                found is None ==> forall|u: int|
                    0 <= u < t ==> self.downstream(self.assign_candidate(u)) is Some,
                match found {
                    Some(p) => self.next_assignable_index() == Some(p as int) && p < 4,
                    None => true,
                },
            decreases 4 - t,
        {
            let pos = positions[(s + 1 + t) % count];
            proof {
                reveal(Ports::next_assignable_index);
                assert(pos as int == self.assign_candidate(t as int));
            }
            if self.0[pos].downstream_to.is_none() {
                found = Some(pos);
            }
            t += 1;
        }

        match found {
            Some(a) => {
                let num = self.0[a].number;
                let p = self.0[a];
                self.0[a] = Port { downstream_to: Some(downstream_subdevice_index), ..p };
                Some(num)
            },
            None => {
                proof {
                    reveal(Ports::next_assignable_index);
                    assert(self.next_assignable_index() is None);
                }
                None
            },
        }
    }

    /// The position of the first active port assigned to sub-device index
    /// `idx`, or -1 when none is.
    pub open spec fn assigned_position(self, idx: u16) -> int {
        if self.active(0) && self.downstream(0) == Some(idx) {
            0
        } else if self.active(1) && self.downstream(1) == Some(idx) {
            1
        } else if self.active(2) && self.downstream(2) == Some(idx) {
            2
        } else if self.active(3) && self.downstream(3) == Some(idx) {
            3
        } else {
            -1
        }
    }

    /// The port assigned as the upstream link of the given sub-device, if
    /// any.
    pub fn port_assigned_to(&self, subdevice: &SubDevice) -> (r: Option<Port>)
        ensures
            match r {
                Some(p) => self.assigned_position(subdevice.index) >= 0 && p == self.0[
                    self.assigned_position(subdevice.index)
                ],
                None => self.assigned_position(subdevice.index) == -1,
            },
    {
        let idx = subdevice.index;
        if self.0[0].active && downstream_is(&self.0[0], idx) {
            Some(self.0[0])
        } else if self.0[1].active && downstream_is(&self.0[1], idx) {
            Some(self.0[1])
        } else if self.0[2].active && downstream_is(&self.0[2], idx) {
            Some(self.0[2])
        } else if self.0[3].active && downstream_is(&self.0[3], idx) {
            Some(self.0[3])
        } else {
            None
        }
    }
}

/// Whether the port's downstream assignment is exactly `idx`.
fn downstream_is(p: &Port, idx: u16) -> (r: bool)
    ensures
        r == (p.downstream_to == Some(idx)),
{
    match p.downstream_to {
        Some(d) => d == idx,
        None => false,
    }
}

/// `a - b`, saturating at zero.
pub open spec fn sat_sub32(a: int, b: int) -> int {
    if a >= b {
        a - b
    } else {
        0
    }
}

/// `a + b`, saturating at the largest 32-bit value.
pub open spec fn sat_add32(a: int, b: int) -> int {
    if a + b > 0xffff_ffff {
        0xffff_ffff
    } else {
        a + b
    }
}

} // verus!
