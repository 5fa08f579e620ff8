use ethercrab::dc::{assign_parent_relationships, configure_subdevice_offsets, find_subdevice_parent};
use ethercrab::ports::{Port, Ports};
use ethercrab::subdevice::{DcSupport, SubDevice};

const ENTRY_RECEIVE: u32 = 1234;

fn make_ports(active0: bool, active3: bool, active1: bool, active2: bool) -> Ports {
    let mut ports = Ports::new(active0, active3, active1, active2);

    ports.0[0].dc_receive_time = ENTRY_RECEIVE;
    ports.0[1].dc_receive_time = ENTRY_RECEIVE + 100;
    ports.0[2].dc_receive_time = ENTRY_RECEIVE + 200;
    ports.0[3].dc_receive_time = ENTRY_RECEIVE + 300;

    ports
}

// A SubDevice in the middle of the chain
fn ports_passthrough() -> Ports {
    make_ports(true, true, false, false)
}

// EK1100 for example, with in/out ports and a bunch of SubDevices connected to it
fn ports_fork() -> Ports {
    make_ports(true, true, true, false)
}

// Last SubDevice in the network
fn ports_eol() -> Ports {
    make_ports(true, false, false, false)
}

fn subdevice(configured_address: u16, name: &str, index: u16, ports: Ports) -> SubDevice {
    SubDevice {
        configured_address,
        name: String::from(name),
        index,
        ports,
        dc_receive_time: 0,
        parent_index: None,
        propagation_delay: 0,
        dc_support: DcSupport::Absent,
    }
}

/// Create a ports object with active flags and DC receive times.
#[allow(clippy::too_many_arguments)]
fn ports(
    active0: bool,
    t0: u32,
    active3: bool,
    t3: u32,
    active1: bool,
    t1: u32,
    active2: bool,
    t2: u32,
) -> Ports {
    let mut ports = Ports::new(active0, active3, active1, active2);

    ports.set_receive_times(t0, t3, t1, t2);

    ports
}

fn set_downstreams(p: &mut Ports, d0: Option<u16>, d3: Option<u16>, d1: Option<u16>, d2: Option<u16>) {
    p.0[0].downstream_to = d0;
    p.0[1].downstream_to = d3;
    p.0[2].downstream_to = d1;
    p.0[3].downstream_to = d2;
}

// Test for topology including an EK1100 that creates a fork in the tree.
#[test]
fn parent_is_ek1100() {
    let parents = vec![
        subdevice(0x1000, "LAN9252", 0, ports_passthrough()),
        subdevice(0x1100, "EK1100", 1, ports_fork()),
        subdevice(0x2004, "EL2004", 2, ports_passthrough()),
        subdevice(0x3004, "EL3004", 3, ports_eol()),
    ];

    let me = subdevice(0x9252, "LAN9252", 4, ports_eol());

    let parent_index = find_subdevice_parent(&parents, &me);

    assert_eq!(parent_index.unwrap(), Some(1));
}

// Two forks in the tree
#[test]
fn two_ek1100() {
    let parents = vec![
        subdevice(0x1100, "EK1100", 1, ports_fork()),
        subdevice(0x2004, "EL2004", 2, ports_passthrough()),
        subdevice(0x3004, "EL3004", 3, ports_eol()),
        subdevice(0x1100, "EK1100_2", 4, ports_fork()),
        subdevice(0x2004, "EL2828", 5, ports_passthrough()),
        subdevice(0x3004, "EL2889", 6, ports_eol()),
    ];

    let ek1100_2_parents = parents[0..3].to_vec();
    let ek1100_2 = &parents[3];

    let el2828_parents = parents[0..4].to_vec();
    let el2828 = &parents[4];

    assert_eq!(
        find_subdevice_parent(&ek1100_2_parents, ek1100_2).unwrap(),
        Some(1)
    );
    assert_eq!(
        find_subdevice_parent(&el2828_parents, el2828).unwrap(),
        Some(ek1100_2.index)
    );
}

#[test]
fn first_in_chain() {
    let parents = vec![];

    let me = subdevice(0x1100, "EK1100", 4, ports_eol());

    let parent_index = find_subdevice_parent(&parents, &me);

    assert_eq!(parent_index.unwrap(), None);
}

#[test]
fn p0_p1_times_only() {
    // From EC400 in test rig
    let test_ports = Ports([
        Port {
            active: true,
            dc_receive_time: 641524306,
            number: 0,
            downstream_to: None,
        },
        Port {
            active: false,
            dc_receive_time: 1413563250,
            number: 1,
            downstream_to: None,
        },
        Port {
            active: false,
            dc_receive_time: 0,
            number: 2,
            downstream_to: None,
        },
        Port {
            active: false,
            dc_receive_time: 0,
            number: 3,
            downstream_to: None,
        },
    ]);

    assert_eq!(test_ports.topology(), ethercrab::ports::Topology::LineEnd);

    let mut dut = subdevice(0x1000, "Default", 0, test_ports);

    let parents = vec![];

    let mut delay_accum = 0u32;

    configure_subdevice_offsets(&mut dut, &parents, &mut delay_accum);

    assert_eq!(dut.dc_receive_time, 0u64);
}

// Test that SubDevice parent/child relationships are established, and that propagation delays
// are computed correctly.
#[test]
fn propagation_delay_calc_fork() {
    // Input data represents the following topology
    //
    // EK1100
    // --> EK1122
    // --> EL9560
    // EK1914
    // --> EL1008
    let mut subdevices = vec![
        SubDevice {
            index: 0,
            configured_address: 0x1000,
            name: String::from("EK1100"),
            ports: ports(
                true, 3380373882, false, 1819436374, true, 3380374482, true, 3380375762,
            ),
            dc_receive_time: 402812332410,
            parent_index: None,
            propagation_delay: 0,
            dc_support: DcSupport::Bits64,
        },
        SubDevice {
            index: 1,
            configured_address: 0x1001,
            name: String::from("EK1122"),
            ports: ports(
                true, 3384116362, false, 1819436374, false, 1717989224, true, 3384116672,
            ),
            dc_receive_time: 402816074890,
            parent_index: None,
            propagation_delay: 0,
            dc_support: DcSupport::Bits64,
        },
        SubDevice {
            index: 2,
            configured_address: 0x1002,
            name: String::from("EL9560"),
            ports: ports(
                true, 3383862982, false, 1819436374, false, 1717989224, false, 0,
            ),
            dc_receive_time: 0,
            parent_index: None,
            propagation_delay: 0,
            dc_support: DcSupport::Bits64,
        },
        SubDevice {
            index: 3,
            configured_address: 0x1003,
            name: String::from("EK1914"),
            ports: ports(
                true, 3373883962, false, 1819436374, true, 3373884272, false, 0,
            ),
            dc_receive_time: 0,
            parent_index: None,
            propagation_delay: 0,
            dc_support: DcSupport::Bits64,
        },
        SubDevice {
            index: 4,
            configured_address: 0x1004,
            name: String::from("EL1008"),
            ports: ports(
                true, 3375060602, false, 1819436374, false, 1717989224, false, 0,
            ),
            dc_receive_time: 0,
            parent_index: None,
            propagation_delay: 0,
            dc_support: DcSupport::Bits64,
        },
    ];

    let downstreams = [
        // Index 0: EK1100 (Fork)
        ([None, None, Some(1), Some(3)], None, 0),
        // Index 1: EK1122 (Passthrough)
        ([None, None, None, Some(2)], Some(0), 145),
        // Index 2: EL9560 (LineEnd)
        ([None, None, None, None], Some(1), 300),
        // Index 3: EK1914 (Passthrough)
        ([None, None, Some(4), None], Some(0), 1085),
        // Index 4: EL1008 (LineEnd)
        ([None, None, None, None], Some(3), 1240),
    ];

    let expected = {
        let mut expected = subdevices.clone();

        expected.iter_mut().zip(downstreams).for_each(
            |(subdevice, ([d0, d3, d1, d2], parent_index, propagation_delay))| {
                set_downstreams(&mut subdevice.ports, d0, d3, d1, d2);

                subdevice.parent_index = parent_index;
                subdevice.propagation_delay = propagation_delay;
            },
        );

        expected
    };

    assign_parent_relationships(&mut subdevices).expect("assign");

    assert_eq!(subdevices, expected);
}

#[test]
fn propagation_delay_calc_cross() {
    let mut subdevices = vec![
        SubDevice {
            index: 0,
            configured_address: 0x1000,
            name: String::from("EK1100"),
            ports: ports(
                true, 3493061450, false, 1819436374, true, 3493064460, false, 0,
            ),
            dc_receive_time: 3493061450,
            parent_index: None,
            propagation_delay: 0,
            dc_support: DcSupport::Bits64,
        },
        SubDevice {
            index: 1,
            configured_address: 0x1001,
            name: String::from("EK1122"),
            ports: ports(
                true, 3493293220, true, 3493294570, true, 3493295650, true, 3493295940,
            ),
            dc_receive_time: 3493293220,
            parent_index: None,
            propagation_delay: 0,
            dc_support: DcSupport::Bits64,
        },
        SubDevice {
            index: 2,
            configured_address: 0x1002,
            name: String::from("EK1914"),
            ports: ports(
                true, 3485337450, false, 1819436374, true, 3485337760, false, 0,
            ),
            dc_receive_time: 0,
            parent_index: None,
            propagation_delay: 0,
            dc_support: DcSupport::Bits64,
        },
        SubDevice {
            index: 3,
            configured_address: 0x1003,
            name: String::from("EL1008"),
            ports: ports(
                true, 3488375400, false, 1819436374, false, 1717989224, false, 0,
            ),
            dc_receive_time: 0,
            parent_index: None,
            propagation_delay: 0,
            dc_support: DcSupport::Bits64,
        },
        SubDevice {
            index: 4,
            configured_address: 0x1004,
            name: String::from("EK1101"),
            ports: ports(
                true, 3485087810, false, 1819436374, false, 1717989224, false, 0,
            ),
            dc_receive_time: 3485087810,
            parent_index: None,
            propagation_delay: 0,
            dc_support: DcSupport::Bits64,
        },
        SubDevice {
            index: 5,
            configured_address: 0x1005,
            name: String::from("EL9560"),
            ports: ports(
                true, 3494335890, false, 1819436374, false, 1717989224, false, 0,
            ),
            dc_receive_time: 0,
            parent_index: None,
            propagation_delay: 0,
            dc_support: DcSupport::Bits64,
        },
    ];

    let downstreams = [
        // Index 0: EK1100 (Passthrough)
        ([None, None, Some(1), None], None, 0),
        // Index 1: EK1122 (Cross)
        ([None, Some(2), Some(4), Some(5)], Some(0), 145),
        // Index 2: EK1914 (Passthrough)
        ([None, None, Some(3), None], Some(1), 665),
        // Index 3: EL1008 (LineEnd)
        ([None, None, None, None], Some(2), 820),
        // Index 4: EK1101 (LineEnd)
        ([None, None, None, None], Some(1), 2035),
        // Index 5: EL9560 (LineEnd)
        ([None, None, None, None], Some(1), 2720),
    ];

    let expected = {
        let mut expected = subdevices.clone();

        expected.iter_mut().zip(downstreams).for_each(
            |(subdevice, ([d0, d3, d1, d2], parent_index, propagation_delay))| {
                set_downstreams(&mut subdevice.ports, d0, d3, d1, d2);

                subdevice.parent_index = parent_index;
                subdevice.propagation_delay = propagation_delay;
            },
        );

        expected
    };

    assign_parent_relationships(&mut subdevices).expect("assign");

    assert_eq!(subdevices, expected);
}

#[test]
fn issue_302() {
    let mut subdevices = vec![
        SubDevice {
            index: 0,
            configured_address: 0x1000,
            name: String::from("EK1100"),
            ports: ports(
                true, 2684027691, false, 1819436374, true, 2684028571, false, 0,
            ),
            dc_receive_time: 0,
            parent_index: None,
            propagation_delay: 0,
            dc_support: DcSupport::Bits64,
        },
        SubDevice {
            index: 1,
            configured_address: 0x1001,
            name: String::from("EL2002"),
            ports: ports(
                true, 2680777793, false, 1819436374, true, 2680778393, false, 0,
            ),
            dc_receive_time: 0,
            parent_index: None,
            propagation_delay: 0,
            dc_support: DcSupport::Bits64,
        },
        SubDevice {
            index: 2,
            configured_address: 0x1002,
            name: String::from("EL3001"),
            ports: ports(
                true, 2675710949, false, 1819436374, true, 2675711259, false, 0,
            ),
            dc_receive_time: 0,
            parent_index: None,
            propagation_delay: 0,
            dc_support: DcSupport::Bits64,
        },
        SubDevice {
            index: 3,
            configured_address: 0x1003,
            name: String::from("EL7041-0052"),
            ports: ports(
                true, 2351926151, false, 1819436374, true, 1717989224, false, 0,
            ),
            dc_receive_time: 0,
            parent_index: None,
            propagation_delay: 0,
            dc_support: DcSupport::Bits64,
        },
    ];

    assert_eq!(assign_parent_relationships(&mut subdevices), Ok(()));
}

#[test]
fn system_time_offset_formula() {
    // offset = -dc_receive_time + now
    assert_eq!(
        ethercrab::dc::dc_system_time_offset(402812332410, 1_000_000_000_000),
        1_000_000_000_000 - 402812332410
    );
    assert_eq!(ethercrab::dc::dc_system_time_offset(500, 100), -400);
}

#[test]
fn first_dc_reference_pick() {
    let subdevices = vec![
        subdevice(0x1000, "EK1100", 0, ports_passthrough()),
        SubDevice {
            dc_support: DcSupport::Bits64,
            ..subdevice(0x1001, "EL2004", 1, ports_eol())
        },
    ];

    assert_eq!(ethercrab::dc::first_dc_subdevice_index(&subdevices), Some(1));

    let none = vec![subdevice(0x1000, "EK1100", 0, ports_eol())];
    assert_eq!(ethercrab::dc::first_dc_subdevice_index(&none), None);
}
