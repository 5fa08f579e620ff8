//! Distributed clocks: topology reconstruction from per-port receive
//! timestamps and propagation-delay computation.
//!
//! The engine runs once over the discovered sub-devices, in discovery order.
//! For each device it finds the parent, links the parent's next open port to
//! the device, and — for DC-capable devices — accumulates the one-way
//! propagation delay from the main device.

use vstd::prelude::*;

use crate::error::Error;
use crate::ports::{sat_add32, sat_sub32, Ports};
use crate::subdevice::SubDevice;

verus! {

/// Search backwards from position `j` for the nearest junction: a device
/// with three or more open ports.
pub open spec fn junction_search(parents: Seq<SubDevice>, j: int) -> Option<int>
    decreases j + 1,
{
    if j < 0 {
        None
    } else if parents[j].ports.open_count() >= 3 {
        Some(j)
    } else {
        junction_search(parents, j - 1)
    }
}

/// The parent of a device whose predecessors in discovery order are
/// `parents`: none for the first device; the immediate predecessor unless it
/// is a line end; otherwise the nearest junction before it, or a topology
/// error when there is none.
#[verifier::opaque]
pub open spec fn find_parent_spec(parents: Seq<SubDevice>) -> Result<Option<u16>, Error> {
    if parents.len() == 0 {
        Ok(None)
    } else if parents[parents.len() - 1].ports.open_count() != 1 {
        Ok(Some(parents[parents.len() - 1].index))
    } else {
        match junction_search(parents, parents.len() - 2) {
            Some(j) => Ok(Some(parents[j].index)),
            None => Err(Error::Topology),
        }
    }
}

/// Find the parent of `subdevice` among the devices discovered before it.
///
/// The immediate predecessor is the parent unless it is a line end, in which
/// case the physical parent is the most recent junction — fork or cross —
/// before it; a chain of line ends with no junction is a topology error.
pub fn find_subdevice_parent(parents: &Vec<SubDevice>, subdevice: &SubDevice) -> (r: Result<
    Option<u16>,
    Error,
>)
    requires
        forall|i: int|
            0 <= i < parents@.len() ==> (#[trigger] parents@[i]).ports.open_count() >= 1,
    ensures
        r == find_parent_spec(parents@),
{
    proof {
        reveal(find_parent_spec);
    }
    let n = parents.len();
    if n == 0 {
        return Ok(None);
    }
    let last = &parents[n - 1];
    if !matches!(last.ports.topology(), crate::ports::Topology::LineEnd) {
        return Ok(Some(last.index));
    }
    // Walk back through the predecessors to the nearest junction.
    let mut j: usize = n - 1;
    while j > 0
        invariant
            n == parents@.len(),
            1 <= n,
            j <= n - 1,
            parents@[n - 1].ports.open_count() == 1,
            forall|i: int|
                0 <= i < parents@.len() ==> (#[trigger] parents@[i]).ports.open_count() >= 1,
            junction_search(parents@, n - 2) == junction_search(parents@, j - 1),
        decreases j,
    {
        let cand = &parents[j - 1];
        if cand.ports.topology().is_junction() {
            proof {
                reveal(find_parent_spec);
                assert(junction_search(parents@, j - 1) == Some(j - 1));
            }
            return Ok(Some(cand.index));
        }
        j -= 1;
    }
    Err(Error::Topology)
}

/// The loop propagation time of a port set, taking zero when no spread
/// exists.
pub open spec fn spread_val(p: Ports) -> int {
    match p.spread_in(0, 3) {
        Some(v) => v as int,
        None => 0,
    }
}

/// The propagation time from the entry port up to position `pos`, taking
/// zero when no spread exists.
pub open spec fn spread_to_val(p: Ports, pos: int) -> int {
    match p.spread_in(p.entry_index(), pos) {
        Some(v) => v as int,
        None => 0,
    }
}

/// Whether the device assigned to position `pos` of `pp` hangs off a branch
/// port rather than the last open port.
pub open spec fn branch_child(pp: Ports, pos: int) -> bool {
    pp.0[pp.last_active_index()] != pp.0[pos]
}

/// One device's contribution to the propagation-delay accumulator, by the
/// parent's topology. Propagation times measure a round trip, so most
/// contributions are halved.
#[verifier::opaque]
pub open spec fn propagation_contribution(pp: Ports, sub: SubDevice, accum: int) -> int {
    let pos = pp.assigned_position(sub.index);
    let parent_prop = spread_val(pp);
    let this_prop = spread_val(sub.ports);
    let delta = sat_sub32(parent_prop, this_prop);
    let oc = pp.open_count();
    if oc == 2 {
        delta / 2
    } else if oc == 3 {
        if branch_child(pp, pos) {
            sat_sub32(spread_to_val(pp, pos), this_prop) / 2
        } else {
            delta / 2
        }
    } else if oc == 4 {
        if branch_child(pp, pos) {
            sat_sub32(pp.intermediate_time_to(pos), this_prop) / 2
        } else {
            sat_sub32(parent_prop, accum)
        }
    } else {
        0
    }
}

/// Compute one device's propagation delay against its parent's ports:
/// accumulate the contribution given by the parent's topology and record
/// the running total as this device's delay.
fn propagation_step(subdevice: &mut SubDevice, parent_ports: Ports, delay_accum: &mut u32)
    requires
        parent_ports.wf(),
        parent_ports.open_count() >= 1,
        parent_ports.assigned_position(old(subdevice).index) >= 0,
        old(subdevice).ports.open_count() >= 1,
    ensures
        *final(delay_accum) == sat_add32(
            *old(delay_accum) as int,
            propagation_contribution(parent_ports, *old(subdevice), *old(delay_accum) as int),
        ),
        *final(subdevice) == (SubDevice {
            propagation_delay: *final(delay_accum),
            ..*old(subdevice)
        }),
        *final(delay_accum) >= *old(delay_accum),
{
    proof {
        reveal(propagation_contribution);
    }
    let parent_port = match parent_ports.port_assigned_to(subdevice) {
        Some(p) => p,
        None => {
            // A port was assigned to this device before the call, so the
            // lookup cannot miss.
            proof {
                assert(false);
            }
            return ;
        },
    };
    let parent_prop_time = match parent_ports.total_propagation_time() {
        Some(t) => t,
        None => 0,
    };
    let this_prop_time = match subdevice.ports.total_propagation_time() {
        Some(t) => t,
        None => 0,
    };
    let parent_delta = parent_prop_time.saturating_sub(this_prop_time);

    // Propagation times are for a loop — out and back again — so halve them
    // to get the one-way delay.
    let propagation_delay: u32 = match parent_ports.topology() {
        crate::ports::Topology::Passthrough => parent_delta / 2,
        crate::ports::Topology::Fork => {
            if !parent_ports.is_last_port(&parent_port) {
                let children_loop_time = match parent_ports.propagation_time_to(&parent_port) {
                    Some(t) => t,
                    None => 0,
                };
                children_loop_time.saturating_sub(this_prop_time) / 2
            } else {
                parent_delta / 2
            }
        },
        crate::ports::Topology::Cross => {
            if !parent_ports.is_last_port(&parent_port) {
                let children_loop_time = parent_ports.intermediate_propagation_time_to(
                    &parent_port,
                );
                children_loop_time.saturating_sub(this_prop_time) / 2
            } else {
                parent_prop_time.saturating_sub(*delay_accum)
            }
        },
        crate::ports::Topology::LineEnd => 0,
    };

    *delay_accum = delay_accum.saturating_add(propagation_delay);
    subdevice.propagation_delay = *delay_accum;
}

/// The position of the first device with discovery index `idx`, or none.
pub open spec fn device_by_index(s: Seq<SubDevice>, idx: u16) -> Option<int>
    decreases s.len(),
{
    if s.len() == 0 {
        None
    } else if s[0].index == idx {
        Some(0)
    } else {
        match device_by_index(s.drop_first(), idx) {
            Some(i) => Some(i + 1),
            None => None,
        }
    }
}

/// Calculate and assign a sub-device's propagation delay: the time a packet
/// takes to reach it from the main device. A device with no resolvable
/// parent — the first in the chain — is left untouched.
/// What [`configure_subdevice_offsets`] needs of a device whose parent is
/// found: a well-formed parent port set with a port assigned to the device,
/// and at least one open port on each side.
pub open spec fn configure_offsets_pre(subdevice: SubDevice, parents: Seq<SubDevice>) -> bool {
    match subdevice.parent_index {
        None => true,
        Some(pi) => match device_by_index(parents, pi) {
            None => true,
            Some(p) => {
                &&& parents[p].ports.wf()
                &&& parents[p].ports.open_count() >= 1
                &&& parents[p].ports.assigned_position(subdevice.index) >= 0
                &&& subdevice.ports.open_count() >= 1
            },
        },
    }
}

/// What [`configure_subdevice_offsets`] does: when the parent resolves, the
/// accumulator grows by the parent-topology contribution and becomes the
/// device's propagation delay; otherwise nothing changes.
pub open spec fn configure_offsets_post(
    old_sub: SubDevice,
    new_sub: SubDevice,
    parents: Seq<SubDevice>,
    old_accum: u32,
    new_accum: u32,
) -> bool {
    match old_sub.parent_index {
        None => new_sub == old_sub && new_accum == old_accum,
        Some(pi) => match device_by_index(parents, pi) {
            None => new_sub == old_sub && new_accum == old_accum,
            Some(p) => {
                &&& new_accum as int == sat_add32(
                    old_accum as int,
                    propagation_contribution(parents[p].ports, old_sub, old_accum as int),
                )
                &&& new_sub == (SubDevice { propagation_delay: new_accum, ..old_sub })
                &&& new_accum >= old_accum
            },
        },
    }
}

/// Calculate and assign a sub-device's propagation delay: the time a packet
/// takes to reach it from the main device. A device with no resolvable
/// parent — the first in the chain — is left untouched.
#[verifier::loop_isolation(false)]
pub fn configure_subdevice_offsets(
    subdevice: &mut SubDevice,
    parents: &Vec<SubDevice>,
    delay_accum: &mut u32,
)
    requires
        configure_offsets_pre(*old(subdevice), parents@),
    ensures
        configure_offsets_post(
            *old(subdevice),
            *final(subdevice),
            parents@,
            *old(delay_accum),
            *final(delay_accum),
        ),
{
    let parent_index = match subdevice.parent_index {
        Some(pi) => pi,
        None => {
            return ;
        },
    };
    let n = parents.len();
    proof {
        assert(parents@.subrange(0, n as int) =~= parents@);
    }
    let mut i: usize = 0;
    while i < n
        invariant
            i <= n,
            n == parents@.len(),
            *subdevice == *old(subdevice),
            *delay_accum == *old(delay_accum),
            device_by_index(parents@, parent_index) == match device_by_index(
                parents@.subrange(i as int, n as int),
                parent_index,
            ) {
                Some(p) => Some(p + i),
                None => None,
            },
        decreases n - i,
    {
        proof {
            assert(parents@.subrange(i as int, n as int)[0] == parents@[i as int]);
            assert(parents@.subrange(i as int, n as int).drop_first() =~= parents@.subrange(
                i + 1,
                n as int,
            ));
        }
        if parents[i].index == parent_index {
            proof {
                assert(device_by_index(parents@.subrange(i as int, n as int), parent_index)
                    == Some(0int));
                assert(device_by_index(parents@, parent_index) == Some(i as int));
            }
            let pp = parents[i].ports;
            propagation_step(subdevice, pp, delay_accum);
            return ;
        }
        i += 1;
    }
}

/// The parent index the pass assigns to device `k`, from the topology alone.
#[verifier::opaque]
pub open spec fn parent_of(s: Seq<SubDevice>, k: int) -> Option<u16> {
    match find_parent_spec(s.subrange(0, k)) {
        Ok(p) => p,
        Err(_) => None,
    }
}

/// The fields the pass never touches: everything but the parent index, the
/// propagation delay and the ports' downstream assignments.
pub open spec fn same_core(a: SubDevice, b: SubDevice) -> bool {
    &&& a.index == b.index
    &&& a.configured_address == b.configured_address
    &&& a.name == b.name
    &&& a.dc_receive_time == b.dc_receive_time
    &&& a.dc_support == b.dc_support
    &&& ports_same_shape(a.ports, b.ports)
}

/// Two ports with the same link state, receive time and number; only the
/// downstream assignment may differ.
pub open spec fn port_same_shape(a: crate::ports::Port, b: crate::ports::Port) -> bool {
    a.active == b.active && a.dc_receive_time == b.dc_receive_time && a.number == b.number
}

/// Two port sets with the same link states, receive times and numbers; only
/// downstream assignments may differ.
pub open spec fn ports_same_shape(a: Ports, b: Ports) -> bool {
    &&& port_same_shape(a.0[0], b.0[0])
    &&& port_same_shape(a.0[1], b.0[1])
    &&& port_same_shape(a.0[2], b.0[2])
    &&& port_same_shape(a.0[3], b.0[3])
}

/// Port sets of the same shape have the same number of open ports.
proof fn lemma_shape_open_count(a: Ports, b: Ports)
    requires
        ports_same_shape(a, b),
    ensures
        a.open_count() == b.open_count(),
        a.wf() == b.wf(),
{
    assert(a.0[0].active == b.0[0].active);
    assert(a.0[1].active == b.0[1].active);
    assert(a.0[2].active == b.0[2].active);
    assert(a.0[3].active == b.0[3].active);
    assert(a.0[0].number == b.0[0].number);
    assert(a.0[1].number == b.0[1].number);
    assert(a.0[2].number == b.0[2].number);
    assert(a.0[3].number == b.0[3].number);
}

/// The junction search only looks at open-port counts, so it agrees on any
/// two sequences that agree on them.
proof fn lemma_junction_search_congruent(a: Seq<SubDevice>, b: Seq<SubDevice>, j: int)
    requires
        a.len() == b.len(),
        forall|k: int|
            0 <= k < a.len() ==> (#[trigger] a[k]).index == b[k].index && a[k].ports.open_count()
                == b[k].ports.open_count(),
        j < a.len(),
    ensures
        junction_search(a, j) == junction_search(b, j),
    decreases j + 1,
{
    if j >= 0 {
        lemma_junction_search_congruent(a, b, j - 1);
    }
}

/// The parent search only looks at indices and open-port counts.
proof fn lemma_find_parent_congruent(a: Seq<SubDevice>, b: Seq<SubDevice>)
    requires
        a.len() == b.len(),
        forall|k: int|
            0 <= k < a.len() ==> (#[trigger] a[k]).index == b[k].index && a[k].ports.open_count()
                == b[k].ports.open_count(),
    ensures
        find_parent_spec(a) == find_parent_spec(b),
{
    reveal(find_parent_spec);
    if a.len() > 0 {
        lemma_junction_search_congruent(a, b, a.len() - 2);
        lemma_junction_search_range(a, a.len() - 2);
    }
}

/// The junction search stays within its bounds.
proof fn lemma_junction_search_range(s: Seq<SubDevice>, j: int)
    requires
        j < s.len(),
    ensures
        match junction_search(s, j) {
            Some(x) => 0 <= x <= j,
            None => true,
        },
    decreases j + 1,
{
    if j >= 0 {
        lemma_junction_search_range(s, j - 1);
    }
}

/// When every device's index is its position, a found parent index names a
/// device earlier in the sequence.
proof fn lemma_parent_index_in_range(s: Seq<SubDevice>)
    requires
        forall|k: int| 0 <= k < s.len() ==> (#[trigger] s[k]).index == k as u16,
    ensures
        match find_parent_spec(s) {
            Ok(Some(pi)) => (pi as int) < s.len(),
            _ => true,
        },
{
    reveal(find_parent_spec);
    if s.len() > 0 {
        lemma_junction_search_range(s, s.len() - 2);
    }
}

/// The parent search over the first `upto` devices of `subdevices`.
fn find_parent_upto(subdevices: &Vec<SubDevice>, upto: usize) -> (r: Result<Option<u16>, Error>)
    requires
        upto <= subdevices@.len(),
        forall|k: int|
            0 <= k < upto ==> (#[trigger] subdevices@[k]).ports.open_count() >= 1,
    ensures
        r == find_parent_spec(subdevices@.subrange(0, upto as int)),
{
    proof {
        reveal(find_parent_spec);
    }
    let ghost pre = subdevices@.subrange(0, upto as int);
    if upto == 0 {
        return Ok(None);
    }
    let last = &subdevices[upto - 1];
    proof {
        assert(pre[upto - 1] == subdevices@[upto - 1]);
    }
    if !matches!(last.ports.topology(), crate::ports::Topology::LineEnd) {
        return Ok(Some(last.index));
    }
    // Walk back through the predecessors to the nearest junction.
    let mut j: usize = upto - 1;
    while j > 0
        invariant
            upto <= subdevices@.len(),
            1 <= upto,
            j <= upto - 1,
            pre == subdevices@.subrange(0, upto as int),
            pre[upto - 1].ports.open_count() == 1,
            forall|k: int|
                0 <= k < upto ==> (#[trigger] subdevices@[k]).ports.open_count() >= 1,
            junction_search(pre, upto - 2) == junction_search(pre, j - 1),
        decreases j,
    {
        let cand = &subdevices[j - 1];
        proof {
            assert(pre[j - 1] == subdevices@[j - 1]);
        }
        if cand.ports.topology().is_junction() {
            proof {
                reveal(find_parent_spec);
                assert(junction_search(pre, j - 1) == Some(j - 1));
            }
            return Ok(Some(cand.index));
        }
        j -= 1;
    }
    Err(Error::Topology)
}

/// What the relationship pass assumes of every input device: its index is
/// its position, its ports are well formed with at least one open, it has no
/// parent or downstream links yet, and its delay starts at zero.
pub open spec fn orig_inv(orig: Seq<SubDevice>, k: int) -> bool {
    &&& orig[k].index == k as u16
    &&& orig[k].ports.open_count() >= 1
    &&& orig[k].ports.wf()
    &&& orig[k].propagation_delay == 0
    &&& orig[k].parent_index is None
    &&& (forall|pos: int| 0 <= pos < 4 ==> #[trigger] orig[k].ports.downstream(pos) is None)
}

/// What the relationship pass keeps true of device `k` after `i` devices
/// have been processed: untouched fields match the input, processed devices
/// carry the parent the topology names, parents come earlier, and delays
/// never exceed the accumulator and never shrink below the parent's.
pub open spec fn elem_inv(s: Seq<SubDevice>, orig: Seq<SubDevice>, i: int, accum: u32, k: int) -> bool {
    &&& same_core(s[k], orig[k])
    &&& s[k].ports.wf()
    &&& s[k].ports.open_count() >= 1
    &&& (k >= i ==> s[k] == orig[k])
    &&& (k < i ==> s[k].parent_index == parent_of(orig, k))
    &&& (k < i && s[k].parent_index is Some ==> (s[k].parent_index.unwrap() as int) < k)
    &&& s[k].propagation_delay <= accum
    &&& (k < i && s[k].dc_support != crate::subdevice::DcSupport::Absent && s[k].parent_index
        is Some ==> s[k].propagation_delay >= s[
        s[k].parent_index.unwrap() as int
    ].propagation_delay)
}

/// Every downstream assignment so far names a device processed earlier:
/// a positive index below `i`.
pub open spec fn ds_bound(s: Seq<SubDevice>, i: int) -> bool {
    forall|k: int, pos: int|
        0 <= k < s.len() && 0 <= pos < 4 ==> match #[trigger] s[k].ports.downstream(pos) {
            Some(d) => 0 < d < i,
            None => true,
        }
}

/// The part of one device the relationship pass computes: its parent, its
/// propagation delay, and the downstream assignments of its four ports.
pub ghost struct DevUpdate {
    /// The discovery-order index of the device's parent, if any.
    pub parent: Option<u16>,
    /// The device's computed propagation delay.
    pub delay: u32,
    /// The downstream assignment of each of the four port positions.
    pub ds: Seq<Option<u16>>,
}

/// The pass-relevant part of one device.
pub open spec fn dev_update_of(d: SubDevice) -> DevUpdate {
    DevUpdate {
        parent: d.parent_index,
        delay: d.propagation_delay,
        ds: seq![
            d.ports.downstream(0),
            d.ports.downstream(1),
            d.ports.downstream(2),
            d.ports.downstream(3),
        ],
    }
}

/// The pass-relevant part of every device.
pub open spec fn model_of(s: Seq<SubDevice>) -> Seq<DevUpdate> {
    Seq::new(s.len(), |k: int| dev_update_of(s[k]))
}

/// The position the next downstream assignment goes to, over a port set's
/// fixed shape `pp` and the evolving assignments `ds`: the first candidate
/// of the cyclic search whose position is still unassigned.
pub open spec fn model_next_assignable(pp: Ports, ds: Seq<Option<u16>>) -> Option<int> {
    if ds[pp.assign_candidate(0)] is None {
        Some(pp.assign_candidate(0))
    } else if ds[pp.assign_candidate(1)] is None {
        Some(pp.assign_candidate(1))
    } else if ds[pp.assign_candidate(2)] is None {
        Some(pp.assign_candidate(2))
    } else if ds[pp.assign_candidate(3)] is None {
        Some(pp.assign_candidate(3))
    } else {
        None
    }
}

/// One device's delay contribution, over the parent's input port set `pp`
/// and the position `a` the parent just assigned to the device: the
/// by-topology table, with "branch child" meaning `a` is not the parent's
/// last open port.
pub open spec fn model_contribution(pp: Ports, a: int, sub_ports: Ports, accum: u32) -> int {
    let parent_prop = spread_val(pp);
    let this_prop = spread_val(sub_ports);
    let delta = sat_sub32(parent_prop, this_prop);
    let oc = pp.open_count();
    if oc == 2 {
        delta / 2
    } else if oc == 3 {
        if pp.last_active_index() != a {
            sat_sub32(spread_to_val(pp, a), this_prop) / 2
        } else {
            delta / 2
        }
    } else if oc == 4 {
        if pp.last_active_index() != a {
            sat_sub32(pp.intermediate_time_to(a), this_prop) / 2
        } else {
            sat_sub32(parent_prop, accum as int)
        }
    } else {
        0
    }
}

/// One step of the relationship pass as a pure function of the input
/// topology `orig` and the pass state so far: find device `i`'s parent, link
/// the parent's next open port, and advance the delay accumulator for
/// DC-capable devices. Fails where the pass fails: no parent found, or no
/// free port on the found parent.
pub open spec fn pass_step(orig: Seq<SubDevice>, st: Seq<DevUpdate>, i: int, accum: u32) -> Result<
    (Seq<DevUpdate>, u32),
    Error,
> {
    match find_parent_spec(orig.subrange(0, i)) {
        Err(_) => Err(Error::Topology),
        Ok(popt) => match popt {
            None => Ok((st.update(i, DevUpdate { parent: None, ..st[i] }), accum)),
            Some(pi) => {
                let p = pi as int;
                match model_next_assignable(orig[p].ports, st[p].ds) {
                    None => Err(Error::Topology),
                    Some(a) => {
                        let st1 = st.update(
                            p,
                            DevUpdate { ds: st[p].ds.update(a, Some(i as u16)), ..st[p] },
                        );
                        if orig[i].dc_support != crate::subdevice::DcSupport::Absent {
                            let accum2 = sat_add32(
                                accum as int,
                                model_contribution(orig[p].ports, a, orig[i].ports, accum),
                            ) as u32;
                            Ok(
                                (
                                    st1.update(
                                        i,
                                        DevUpdate { parent: Some(pi), delay: accum2, ..st1[i] },
                                    ),
                                    accum2,
                                ),
                            )
                        } else {
                            Ok((st1.update(i, DevUpdate { parent: Some(pi), ..st1[i] }), accum))
                        }
                    },
                }
            },
        },
    }
}

/// The pass state after processing the first `i` devices of `orig`: the
/// computed updates and the delay accumulator, or the error the pass stops
/// with.
pub open spec fn pass_state(orig: Seq<SubDevice>, i: int) -> Result<(Seq<DevUpdate>, u32), Error>
    decreases i,
{
    if i <= 0 {
        Ok((model_of(orig), 0))
    } else {
        match pass_state(orig, i - 1) {
            Err(e) => Err(e),
            Ok((st, accum)) => pass_step(orig, st, i - 1, accum),
        }
    }
}

/// Once the pass fails, it stays failed with the same error.
proof fn lemma_pass_state_err(orig: Seq<SubDevice>, i: int, j: int)
    requires
        0 <= i <= j,
        pass_state(orig, i) is Err,
    ensures
        pass_state(orig, j) == pass_state(orig, i),
    decreases j,
{
    if j > i {
        lemma_pass_state_err(orig, i, j - 1);
    }
}

/// The relationship pass's invariant: `orig` is the input sequence, `s` the
/// current one, `i` how many devices have been processed, `accum` the
/// running delay accumulator, and the pass model agrees with the state.
pub open spec fn pass_inv(s: Seq<SubDevice>, orig: Seq<SubDevice>, i: int, accum: u32) -> bool {
    &&& s.len() == orig.len()
    &&& orig.len() <= 0x10000
    &&& 0 <= i <= s.len()
    &&& (forall|k: int| 0 <= k < orig.len() ==> #[trigger] orig_inv(orig, k))
    &&& (forall|k: int| 0 <= k < s.len() ==> #[trigger] elem_inv(s, orig, i, accum, k))
    &&& ds_bound(s, i)
    &&& pass_state(orig, i) == Ok::<_, Error>((model_of(s), accum))
}

/// Port sets of the same shape agree on every quantity that reads only
/// link states, receive times and numbers.
proof fn lemma_shape_ports_eq(a: Ports, b: Ports)
    requires
        ports_same_shape(a, b),
    ensures
        a.open_count() == b.open_count(),
        a.wf() == b.wf(),
        a.entry_index() == b.entry_index(),
        a.last_active_index() == b.last_active_index(),
        a.active_positions() == b.active_positions(),
        forall|lo: int, hi: int| #[trigger] a.spread_in(lo, hi) == b.spread_in(lo, hi),
        forall|pos: int| #[trigger] a.intermediate_time_to(pos) == b.intermediate_time_to(pos),
        forall|t: int| #[trigger] a.assign_candidate(t) == b.assign_candidate(t),
{
    lemma_shape_open_count(a, b);
    assert(a.active_positions() =~= b.active_positions());
    assert forall|lo: int, hi: int| #[trigger] a.spread_in(lo, hi) == b.spread_in(lo, hi) by {
        if a.has_active_in(lo, hi) {
            let w = choose|i: int| lo <= i <= hi && 0 <= i < 4 && a.active(i);
            assert(b.active(w));
        }
        if b.has_active_in(lo, hi) {
            let w = choose|i: int| lo <= i <= hi && 0 <= i < 4 && b.active(i);
            assert(a.active(w));
        }
    }
}

/// The cyclic search candidates of a port set with at least one open port
/// stay within the four positions.
proof fn lemma_candidates_in_range(pp: Ports)
    requires
        pp.open_count() >= 1,
    ensures
        forall|t: int| 0 <= t < 4 ==> 0 <= #[trigger] pp.assign_candidate(t) < 4,
{
    assert(forall|u: int|
        0 <= u < pp.active_positions().len() ==> 0 <= #[trigger] pp.active_positions()[u] < 4);
    assert(pp.active_positions().len() >= 1);
}

/// The next assignable position of an evolved port set equals the model's
/// answer over the input shape and the evolved assignments.
proof fn lemma_next_assignable_model(e: Ports, o: Ports, ds: Seq<Option<u16>>)
    requires
        ports_same_shape(e, o),
        e.open_count() >= 1,
        ds.len() == 4,
        forall|pos: int| 0 <= pos < 4 ==> #[trigger] e.downstream(pos) == ds[pos],
    ensures
        e.next_assignable_index() == model_next_assignable(o, ds),
{
    reveal(Ports::next_assignable_index);
    lemma_shape_ports_eq(e, o);
    lemma_candidates_in_range(e);
}

/// The delay contribution of an evolved parent port set, for the device its
/// position `a` was just assigned to, equals the model's table over the
/// input shape.
proof fn lemma_contribution_model(
    pp_e: Ports,
    pp_o: Ports,
    sub: SubDevice,
    a: int,
    accum: u32,
)
    requires
        ports_same_shape(pp_e, pp_o),
        pp_e.wf(),
        pp_e.open_count() >= 1,
        0 <= a < 4,
        pp_e.assigned_position(sub.index) == a,
    ensures
        propagation_contribution(pp_e, sub, accum as int) == model_contribution(
            pp_o,
            a,
            sub.ports,
            accum,
        ),
{
    reveal(propagation_contribution);
    lemma_shape_ports_eq(pp_e, pp_o);
    // With distinct port numbers, two positions hold equal ports only when
    // they are the same position, so "branch child" is a position test.
    let last = pp_e.last_active_index();
    assert(0 <= last < 4);
    if last != a {
        assert(pp_e.0[last].number != pp_e.0[a].number);
        assert(branch_child(pp_e, a));
    } else {
        assert(!branch_child(pp_e, a));
    }
}

/// Link a downstream device to the next open port of a parent's port set.
/// A wrapper around [`Ports::assign_next_downstream_port`] whose contract
/// speaks of positions, the shape the relationship pass reasons over.
fn link_downstream(ports: &mut Ports, downstream: u16) -> (r: bool)
    requires
        old(ports).wf(),
        old(ports).open_count() >= 1,
        downstream != 0,
    ensures
        final(ports).wf(),
        ports_same_shape(*final(ports), *old(ports)),
        match old(ports).next_assignable_index() {
            Some(a) => {
                &&& r
                &&& 0 <= a < 4
                &&& final(ports).active(a)
                &&& final(ports).downstream(a) == Some(downstream)
                &&& forall|pos: int|
                    0 <= pos < 4 && pos != a ==> #[trigger] final(ports).downstream(pos) == old(
                        ports,
                    ).downstream(pos)
            },
            None => !r && *final(ports) == *old(ports),
        },
{
    let r = ports.assign_next_downstream_port(downstream);
    proof {
        match old(ports).next_assignable_index() {
            Some(a) => {
                assert(0 <= a < 4 && old(ports).active(a)) by {
                    reveal(Ports::next_assignable_index);
                    lemma_candidates_in_range(*old(ports));
                    assert(forall|t: int|
                        0 <= t < old(ports).active_positions().len() ==> old(ports).active(
                            #[trigger] old(ports).active_positions()[t],
                        ));
                }
                assert(ports.0[a].active && ports.0[a].downstream_to == Some(downstream));
            },
            None => {},
        }
    }
    r.is_some()
}

/// Process one device of the relationship pass: find its parent, record it,
/// link the parent's next open port, and accumulate the propagation delay
/// for DC-capable devices.
#[verifier::rlimit(100)]
#[verifier::spinoff_prover]
fn relate_one(
    subdevices: &mut Vec<SubDevice>,
    i: usize,
    delay_accum: &mut u32,
    Ghost(orig): Ghost<Seq<SubDevice>>,
) -> (r: Result<(), Error>)
    requires
        pass_inv(old(subdevices)@, orig, i as int, *old(delay_accum)),
        (i as int) < orig.len(),
    ensures
        final(subdevices)@.len() == orig.len(),
        *final(delay_accum) >= *old(delay_accum),
        match r {
            Ok(_) => pass_inv(final(subdevices)@, orig, i + 1, *final(delay_accum)),
            Err(e) => {
                &&& e == Error::Topology
                &&& (forall|k: int|
                    0 <= k < orig.len() ==> same_core(#[trigger] final(subdevices)@[k], orig[k]))
                &&& pass_state(orig, orig.len() as int) == Err::<
                    (Seq<DevUpdate>, u32),
                    Error,
                >(Error::Topology)
            },
        },
{
    let ghost s1 = subdevices@;
    proof {
        assert forall|k: int|
            0 <= k < i implies (#[trigger] s1[k]).ports.open_count() >= 1 by {
            assert(elem_inv(s1, orig, i as int, *old(delay_accum), k));
        }
    }
    let parent_res = find_parent_upto(subdevices, i);
    proof {
        let cur_pre = s1.subrange(0, i as int);
        let orig_pre = orig.subrange(0, i as int);
        assert forall|k: int|
            0 <= k < cur_pre.len() implies (#[trigger] cur_pre[k]).index == orig_pre[k].index
                && cur_pre[k].ports.open_count() == orig_pre[k].ports.open_count() by {
            assert(cur_pre[k] == s1[k]);
            assert(orig_pre[k] == orig[k]);
            assert(elem_inv(s1, orig, i as int, *old(delay_accum), k));
            lemma_shape_open_count(s1[k].ports, orig[k].ports);
        }
        lemma_find_parent_congruent(cur_pre, orig_pre);
        assert forall|k: int| 0 <= k < cur_pre.len() implies (#[trigger] cur_pre[k]).index == k
            as u16 by {
            assert(cur_pre[k] == s1[k]);
            assert(elem_inv(s1, orig, i as int, *old(delay_accum), k));
            assert(orig_inv(orig, k));
        }
        lemma_parent_index_in_range(cur_pre);
        assert(parent_of(orig, i as int) == match find_parent_spec(orig_pre) {
            Ok(p) => p,
            Err(_) => None,
        }) by {
            reveal(parent_of);
        }
    }
    let parent_index_opt = match parent_res {
        Ok(p) => p,
        Err(_) => {
            proof {
                assert forall|k: int|
                    0 <= k < orig.len() implies same_core(#[trigger] subdevices@[k], orig[k]) by {
                    assert(elem_inv(s1, orig, i as int, *old(delay_accum), k));
                }
                // The model fails at this step for the same reason.
                assert(pass_step(orig, model_of(s1), i as int, *old(delay_accum)) is Err);
                assert(pass_state(orig, i + 1) is Err);
                lemma_pass_state_err(orig, i + 1, orig.len() as int);
            }
            return Err(Error::Topology);
        },
    };

    // Link the parent's next open port to this device, then record the
    // parent and — for DC-capable devices — the propagation delay.
    let ghost acc0 = *delay_accum;
    let ghost stm = model_of(s1);
    proof {
        if parent_index_opt is Some {
            // A found parent means the prefix is non-empty.
            assert(i >= 1) by {
                reveal(find_parent_spec);
            }
            let p = parent_index_opt.unwrap() as int;
            assert(elem_inv(s1, orig, i as int, acc0, p));
            assert(stm[p].ds.len() == 4);
            assert forall|pos: int|
                0 <= pos < 4 implies #[trigger] s1[p].ports.downstream(pos) == stm[p].ds[pos] by {}
            lemma_next_assignable_model(s1[p].ports, orig[p].ports, stm[p].ds);
        }
    }
    let mut dc_parent_ports: Option<Ports> = None;
    let ghost mut ga: int = 0;
    if let Some(parent_idx) = parent_index_opt {
        let p = parent_idx as usize;
        proof {
            assert((parent_idx as int) < i);
            assert(elem_inv(s1, orig, i as int, acc0, p as int));
        }
        let mut parent = subdevices.remove(p);
        let assigned = link_downstream(&mut parent.ports, i as u16);
        let ghost gparent = parent;
        subdevices.insert(p, parent);
        proof {
            crate::pdu_loop::lemma_remove_insert(s1, p as int, gparent);
            let s2 = subdevices@;
            assert(s2 =~= s1.update(p as int, gparent));
            assert forall|k: int|
                0 <= k < orig.len() implies #[trigger] elem_inv(s2, orig, i as int, acc0, k) by {
                assert(elem_inv(s1, orig, i as int, acc0, k));
                if k == p {
                    lemma_shape_open_count(s2[k].ports, s1[k].ports);
                    lemma_shape_open_count(s2[k].ports, orig[k].ports);
                }
            }
        }
        if !assigned {
            proof {
                assert forall|k: int|
                    0 <= k < orig.len() implies same_core(#[trigger] subdevices@[k], orig[k]) by {
                    assert(elem_inv(subdevices@, orig, i as int, acc0, k));
                }
                // The parent had no free port: the model fails here too.
                assert(model_next_assignable(orig[parent_idx as int].ports, stm[
                    parent_idx as int
                ].ds) is None);
                assert(pass_step(orig, stm, i as int, acc0) is Err);
                assert(pass_state(orig, i + 1) is Err);
                lemma_pass_state_err(orig, i + 1, orig.len() as int);
            }
            return Err(Error::Topology);
        }
        proof {
            ga = s1[p as int].ports.next_assignable_index().unwrap();
        }
        dc_parent_ports = Some(subdevices[p].ports);
    }
    let ghost s2 = subdevices@;
    let ghost st1 = if parent_index_opt is Some {
        let p = parent_index_opt.unwrap() as int;
        stm.update(p, DevUpdate { ds: stm[p].ds.update(ga, Some(i as u16)), ..stm[p] })
    } else {
        stm
    };
    proof {
        if parent_index_opt is Some {
            let p = parent_index_opt.unwrap() as int;
            assert(model_of(s2) =~= st1) by {
                assert forall|k: int| 0 <= k < orig.len() implies model_of(s2)[k] == st1[k] by {
                    if k == p {
                        assert(dev_update_of(s2[k]).ds =~= st1[k].ds);
                    } else {
                        assert(s2[k] == s1[k]);
                    }
                }
            }
        } else {
            assert(model_of(s2) =~= st1);
        }
    }

    let mut sub = subdevices.remove(i);
    proof {
        assert(elem_inv(s2, orig, i as int, acc0, i as int));
    }
    sub.parent_index = parent_index_opt;
    let ghost sub_before = sub;
    let mut took_dc_step: bool = false;
    if sub.dc_support.any() {
        match dc_parent_ports {
            Some(pp) => {
                proof {
                    let p = parent_index_opt.unwrap() as int;
                    assert(elem_inv(s2, orig, i as int, acc0, p));
                    lemma_shape_open_count(s2[p].ports, orig[p].ports);
                    assert(orig_inv(orig, i as int));
                    assert(sub.index == i as u16);
                    // Exactly the just-linked position is assigned to this
                    // device: every earlier assignment names an earlier
                    // device.
                    assert(pp.assigned_position(i as u16) == ga) by {
                        assert(pp == s2[p].ports);
                        assert(pp.active(ga) && pp.downstream(ga) == Some(i as u16));
                        assert forall|pos: int|
                            0 <= pos < 4 && pos != ga implies #[trigger] pp.downstream(pos)
                                != Some(i as u16) by {
                            assert(pp.downstream(pos) == s1[p].ports.downstream(pos));
                            assert(ds_bound(s1, i as int));
                        }
                    }
                    lemma_contribution_model(pp, orig[p].ports, sub, ga, acc0);
                }
                propagation_step(&mut sub, pp, delay_accum);
                took_dc_step = true;
            },
            None => {},
        }
    }
    let ghost gsub = sub;
    subdevices.insert(i, sub);
    proof {
        crate::pdu_loop::lemma_remove_insert(s2, i as int, gsub);
        let s3 = subdevices@;
        let accN = *delay_accum;
        assert(s3 =~= s2.update(i as int, gsub));
        assert forall|k: int|
            0 <= k < orig.len() implies #[trigger] elem_inv(s3, orig, i + 1, accN, k) by {
            assert(elem_inv(s2, orig, i as int, acc0, k));
            if k == i {
                assert(same_core(s2[k], orig[k]));
                match parent_index_opt {
                    Some(pi) => {
                        let pk = pi as int;
                        assert(elem_inv(s2, orig, i as int, acc0, pk));
                        assert(s3[pk] == s2[pk]);
                    },
                    None => {},
                }
            } else if parent_index_opt is Some && k == parent_index_opt.unwrap() as int {
                assert(s3[k] == s2[k]);
            } else {
                assert(s3[k] == s2[k]);
                if k < i && s3[k].parent_index is Some {
                    let pk = s3[k].parent_index.unwrap() as int;
                    assert(elem_inv(s2, orig, i as int, acc0, pk));
                    assert(s3[pk].propagation_delay == s2[pk].propagation_delay);
                }
            }
        }
        assert(ds_bound(s3, i + 1)) by {
            assert forall|k: int, pos: int|
                0 <= k < s3.len() && 0 <= pos < 4 implies match #[trigger] s3[k].ports.downstream(
                pos,
            ) {
                Some(d) => 0 < d < i + 1,
                None => true,
            } by {
                assert(ds_bound(s1, i as int));
                if parent_index_opt is Some && k == parent_index_opt.unwrap() as int {
                    if pos != ga {
                        assert(s3[k].ports.downstream(pos) == s1[k].ports.downstream(pos));
                    }
                } else if k == i {
                    assert(s3[k].ports == s2[k].ports);
                    assert(s2[k].ports == s1[k].ports);
                } else {
                    assert(s3[k].ports == s1[k].ports);
                }
            }
        }
        // The model takes the same step.
        let st2 = if took_dc_step {
            st1.update(i as int, DevUpdate { parent: parent_index_opt, delay: accN, ..st1[i as int] })
        } else {
            st1.update(i as int, DevUpdate { parent: parent_index_opt, ..st1[i as int] })
        };
        assert(model_of(s3) =~= st2) by {
            assert forall|k: int| 0 <= k < orig.len() implies model_of(s3)[k] == st2[k] by {
                if k == i {
                    assert(gsub.ports == s2[k].ports);
                    assert(dev_update_of(gsub).ds =~= st1[k].ds);
                } else {
                    assert(s3[k] == s2[k]);
                }
            }
        }
        assert(pass_step(orig, stm, i as int, acc0) == Ok::<_, Error>((st2, accN))) by {
            match parent_index_opt {
                None => {
                    assert(!took_dc_step);
                },
                Some(pi) => {
                    let p = pi as int;
                    if took_dc_step {
                        assert(sub_before.ports == orig[i as int].ports);
                        assert(sub_before.index == orig[i as int].index);
                        assert(propagation_contribution(s2[p].ports, sub_before, acc0 as int)
                            == model_contribution(orig[p].ports, ga, orig[i as int].ports, acc0));
                    } else {
                        assert(orig[i as int].dc_support == crate::subdevice::DcSupport::Absent);
                        assert(accN == acc0);
                    }
                },
            }
        }
        assert(pass_state(orig, i + 1) == Ok::<_, Error>((model_of(s3), accN)));
    }
    Ok(())
}

/// Assign parent/child relationships and compute propagation delays for all
/// sub-devices, walking them in discovery order.
///
/// For each device the parent is found from the topology, the parent's next
/// open port is linked to the device, and — for DC-capable devices — the
/// propagation-delay accumulator advances by the parent's contribution and
/// becomes the device's delay. Fails with a topology error when a parent
/// cannot be found or has no free port.
#[verifier::rlimit(100)]
pub fn assign_parent_relationships(subdevices: &mut Vec<SubDevice>) -> (r: Result<(), Error>)
    requires
        old(subdevices)@.len() <= 0x10000,
        forall|k: int|
            0 <= k < old(subdevices)@.len() ==> (#[trigger] old(subdevices)@[k]).index == k as u16,
        forall|k: int|
            0 <= k < old(subdevices)@.len() ==> (#[trigger] old(subdevices)@[k]).ports.open_count()
                >= 1,
        forall|k: int|
            0 <= k < old(subdevices)@.len() ==> (#[trigger] old(subdevices)@[k]).ports.wf(),
        forall|k: int|
            0 <= k < old(subdevices)@.len() ==> (#[trigger] old(subdevices)@[k]).propagation_delay
                == 0,
        forall|k: int|
            0 <= k < old(subdevices)@.len() ==> (#[trigger] old(subdevices)@[k]).parent_index
                is None,
        forall|k: int, pos: int|
            0 <= k < old(subdevices)@.len() && 0 <= pos < 4 ==> (#[trigger] old(
                subdevices,
            )@[k].ports.downstream(pos)) is None,
    ensures
        final(subdevices)@.len() == old(subdevices)@.len(),
        forall|k: int|
            0 <= k < old(subdevices)@.len() ==> same_core(
                #[trigger] final(subdevices)@[k],
                old(subdevices)@[k],
            ),
        match (r, pass_state(old(subdevices)@, old(subdevices)@.len() as int)) {
            (Ok(_), Ok((m, _))) => model_of(final(subdevices)@) == m,
            (Err(e), Err(e2)) => e == Error::Topology && e2 == Error::Topology,
            _ => false,
        },
        match r {
            Ok(_) => {
                &&& forall|k: int|
                    0 <= k < final(subdevices)@.len() ==> (#[trigger] final(subdevices)@[k]).parent_index == parent_of(old(subdevices)@, k)
                &&& forall|k: int|
                    0 <= k < final(subdevices)@.len() && final(subdevices)@[k].dc_support
                        != crate::subdevice::DcSupport::Absent && (#[trigger] final(subdevices)@[k]).parent_index is Some ==> {
                        let p = final(subdevices)@[k].parent_index.unwrap() as int;
                        0 <= p < k && final(subdevices)@[k].propagation_delay >= final(subdevices)@[p].propagation_delay
                    }
            },
            Err(e) => e == Error::Topology,
        },
{
    let ghost orig = old(subdevices)@;
    let n = subdevices.len();
    let mut delay_accum: u32 = 0;
    proof {
        assert forall|k: int| 0 <= k < orig.len() implies #[trigger] orig_inv(orig, k) by {}
        assert forall|k: int|
            0 <= k < orig.len() implies #[trigger] elem_inv(orig, orig, 0, 0u32, k) by {
            assert(orig_inv(orig, k));
        }
    }
    let mut i: usize = 0;
    while i < n
        invariant
            i <= n,
            n == subdevices@.len(),
            n == orig.len(),
            orig == old(subdevices)@,
            pass_inv(subdevices@, orig, i as int, delay_accum),
        decreases n - i,
    {
        match relate_one(subdevices, i, &mut delay_accum, Ghost(orig)) {
            Ok(_) => {},
            Err(_) => {
                proof {
                    assert forall|k: int|
                        0 <= k < orig.len() implies same_core(
                        #[trigger] subdevices@[k],
                        orig[k],
                    ) by {}
                }
                return Err(Error::Topology);
            },
        }
        i += 1;
    }
    proof {
        assert forall|k: int|
            0 <= k < orig.len() implies same_core(#[trigger] subdevices@[k], orig[k]) && subdevices@[
            k
        ].parent_index == parent_of(orig, k) by {
            assert(elem_inv(subdevices@, orig, n as int, delay_accum, k));
        }
        assert forall|k: int|
            0 <= k < orig.len() && subdevices@[k].dc_support != crate::subdevice::DcSupport::Absent
                && (#[trigger] subdevices@[k]).parent_index is Some implies {
            let p = subdevices@[k].parent_index.unwrap() as int;
            0 <= p < k && subdevices@[k].propagation_delay >= subdevices@[p].propagation_delay
        } by {
            assert(elem_inv(subdevices@, orig, n as int, delay_accum, k));
        }
    }
    Ok(())
}

/// The system-time offset programmed into a DC-capable device: the
/// caller-supplied time now, minus the receive time the latch broadcast
/// recorded on the device.
pub fn dc_system_time_offset(dc_receive_time: u64, now_nanos: u64) -> (r: i64)
    requires
        dc_receive_time < 0x8000_0000_0000_0000,
        now_nanos < 0x8000_0000_0000_0000,
    ensures
        r == now_nanos - dc_receive_time,
{
    -(dc_receive_time as i64) + now_nanos as i64
}

/// The distributed-clock reference: the first DC-capable device in
/// discovery order, if any.
pub fn first_dc_subdevice_index(subdevices: &Vec<SubDevice>) -> (r: Option<usize>)
    ensures
        match r {
            Some(i) => i < subdevices@.len() && subdevices@[i as int].dc_support
                != crate::subdevice::DcSupport::Absent && forall|j: int|
                0 <= j < i ==> (#[trigger] subdevices@[j]).dc_support
                    == crate::subdevice::DcSupport::Absent,
            None => forall|j: int|
                0 <= j < subdevices@.len() ==> (#[trigger] subdevices@[j]).dc_support
                    == crate::subdevice::DcSupport::Absent,
        },
{
    let n = subdevices.len();
    let mut i: usize = 0;
    while i < n
        invariant
            i <= n,
            n == subdevices@.len(),
            forall|j: int|
                0 <= j < i ==> (#[trigger] subdevices@[j]).dc_support
                    == crate::subdevice::DcSupport::Absent,
        decreases n - i,
    {
        if subdevices[i].dc_support.any() {
            return Some(i);
        }
        i += 1;
    }
    None
}

} // verus!
