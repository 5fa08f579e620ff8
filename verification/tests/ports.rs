use ethercrab::ports::{Port, Ports, Topology};

const ENTRY_RECEIVE: u32 = 1234;

fn make_ports(active0: bool, active3: bool, active1: bool, active2: bool) -> Ports {
    let mut ports = Ports::new(active0, active3, active1, active2);

    ports.0[0].dc_receive_time = ENTRY_RECEIVE;
    ports.0[1].dc_receive_time = ENTRY_RECEIVE + 100;
    ports.0[2].dc_receive_time = ENTRY_RECEIVE + 200;
    ports.0[3].dc_receive_time = ENTRY_RECEIVE + 300;

    ports
}

#[test]
fn open_ports() {
    // EK1100 with children attached to port 3 and downstream devices on port 1
    let ports = make_ports(true, true, true, false);
    // Normal SubDevice has no children, so no child delay
    let passthrough = make_ports(true, true, false, false);

    assert_eq!(ports.open_ports(), 3);
    assert_eq!(passthrough.open_ports(), 2);
}

#[test]
fn topologies() {
    let passthrough = make_ports(true, true, false, false);
    let passthrough_skip_port = make_ports(true, false, true, false);
    let fork = make_ports(true, true, true, false);
    let line_end = make_ports(true, false, false, false);
    let cross = make_ports(true, true, true, true);

    assert_eq!(passthrough.topology(), Topology::Passthrough);
    assert_eq!(passthrough_skip_port.topology(), Topology::Passthrough);
    assert_eq!(fork.topology(), Topology::Fork);
    assert_eq!(line_end.topology(), Topology::LineEnd);
    assert_eq!(cross.topology(), Topology::Cross);
}

#[test]
fn entry_port() {
    // EK1100 with children attached to port 3 and downstream devices on port 1
    let ports = make_ports(true, true, true, false);

    assert_eq!(
        ports.entry_port(),
        Port {
            active: true,
            number: 0,
            dc_receive_time: ENTRY_RECEIVE,
            ..Port::default()
        }
    );
}

#[test]
fn propagation_time() {
    // Passthrough SubDevice
    let ports = make_ports(true, true, false, false);

    assert_eq!(ports.total_propagation_time(), Some(100));
}

#[test]
fn propagation_time_fork() {
    // Fork, e.g. EK1100 with modules AND downstream devices
    let ports = make_ports(true, true, true, false);

    assert_eq!(ports.total_propagation_time(), Some(200));
}

#[test]
fn propagation_time_cross() {
    // Cross, e.g. EK1122 in a module chain with both ports connected
    let ports = make_ports(true, true, true, true);

    assert_eq!(ports.topology(), Topology::Cross);
    assert_eq!(ports.total_propagation_time(), Some(300));
}

#[test]
fn assign_downstream_port() {
    let mut ports = make_ports(true, true, true, false);

    assert_eq!(
        ports.entry_port(),
        Port {
            active: true,
            dc_receive_time: ENTRY_RECEIVE,
            number: 0,
            downstream_to: None
        }
    );

    let port_number = ports.assign_next_downstream_port(1);

    assert_eq!(port_number, Some(3), "assign SubDevice idx 1");

    let port_number = ports.assign_next_downstream_port(2);

    assert_eq!(port_number, Some(1), "assign SubDevice idx 2");

    assert_eq!(
        ports,
        Ports([
            // Entry port
            Port {
                active: true,
                dc_receive_time: ENTRY_RECEIVE,
                number: 0,
                downstream_to: None,
            },
            Port {
                active: true,
                dc_receive_time: ENTRY_RECEIVE + 100,
                number: 3,
                downstream_to: Some(1),
            },
            Port {
                active: true,
                dc_receive_time: ENTRY_RECEIVE + 200,
                number: 1,
                downstream_to: Some(2),
            },
            Port {
                active: false,
                dc_receive_time: ENTRY_RECEIVE + 300,
                number: 2,
                downstream_to: None,
            }
        ])
    )
}

#[test]
fn propagation_time_to_last_port() {
    let ports = make_ports(true, false, true, true);

    let last = ports.last_port().unwrap();

    assert_eq!(
        ports.propagation_time_to(&last),
        ports.total_propagation_time()
    );
}

#[test]
fn propagation_time_to_intermediate_port() {
    // Cross topology
    let ports = make_ports(true, true, true, true);

    let up_to = ports.0[2];

    assert_eq!(ports.propagation_time_to(&up_to), Some(200));
}

#[test]
fn propagation_time_cross_first() {
    // Cross topology, e.g. EK1122
    let mut ports = make_ports(true, true, true, true);

    // Deltas are 1340ns, 1080ns and 290ns
    ports.set_receive_times(3699944655, 3699945995, 3699947075, 3699947365);

    // Device connected to EtherCAT port number 3 (second index)
    let up_to = ports.0[1];

    assert_eq!(ports.propagation_time_to(&up_to), Some(1340));
}

#[test]
fn propagation_time_cross_second() {
    // Cross topology, e.g. EK1122
    let mut ports = make_ports(true, true, true, true);

    // Deltas are 1340ns, 1080ns and 290ns
    ports.set_receive_times(3699944655, 3699945995, 3699947075, 3699947365);

    // Device connected to EtherCAT port number 3 (second index)
    let up_to = ports.0[2];

    assert_eq!(ports.propagation_time_to(&up_to), Some(1340 + 1080));
}
