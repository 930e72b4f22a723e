use sparrow::engine::colour::Colour;
use sparrow::engine::dmx::{
    agent_step, available_ports, frame_rest, AgentAction, AgentEvent, Packet, Port, PortKind,
    FRAME_NANOS, MAX_CHANNELS,
};

fn port(name: &str, kind: PortKind) -> Port {
    Port { name: name.to_string(), kind }
}

#[test]
fn ports_on_the_bus_are_left_out() {
    let ports = vec![
        port("/dev/ttyS0", PortKind::Pci),
        port("/dev/ttyUSB0", PortKind::Usb),
        port("/dev/rfcomm0", PortKind::Bluetooth),
        port("/dev/tty9", PortKind::Unknown),
    ];
    let listed = |current: Option<&str>| -> Vec<(String, bool)> {
        available_ports(&ports, current).into_iter().map(|d| (d.name, d.selected)).collect()
    };
    assert_eq!(
        listed(Some("/dev/rfcomm0")),
        vec![
            ("/dev/ttyUSB0".to_string(), false),
            ("/dev/rfcomm0".to_string(), true),
            ("/dev/tty9".to_string(), false),
        ]
    );
    assert!(listed(None).iter().all(|d| !d.1));
    assert!(listed(Some("/dev/ttyS0")).iter().all(|d| !d.1));
    assert!(available_ports(&vec![], Some("x")).is_empty());
}

#[test]
fn a_frame_starts_with_zero() {
    let packet = Packet::new(255, 128, 1);
    assert_eq!(packet.data, [255, 128, 1]);
    assert_eq!(packet.frame(), vec![0, 255, 128, 1]);
    assert_eq!(packet.frame().len(), MAX_CHANNELS + 1);
}

#[test]
fn frames_take_their_time() {
    assert_eq!(frame_rest(0), 22_700_000);
    assert_eq!(frame_rest(136_000), 22_564_000);
    assert_eq!(frame_rest(FRAME_NANOS), 0);
    assert_eq!(frame_rest(FRAME_NANOS + 1), 0);
}

#[test]
fn the_loop_sends_until_told_to_stop() {
    let colour = Colour { red: 1, green: 2, blue: 3 };
    match agent_step(&AgentEvent::Ready(false, colour)) {
        AgentAction::Send(packet) => assert_eq!(packet.frame(), vec![0, 1, 2, 3]),
        other => panic!("{other:?}"),
    }
    assert!(matches!(agent_step(&AgentEvent::Ready(true, colour)), AgentAction::Close));
    assert!(matches!(agent_step(&AgentEvent::Sent), AgentAction::Continue));
    assert!(matches!(agent_step(&AgentEvent::Disconnected), AgentAction::Close));
}

#[test]
fn a_device_that_is_gone_ends_the_loop() {
    let failed = |no_device: bool, text: &str| {
        agent_step(&AgentEvent::PortFailed(no_device, text.to_string()))
    };
    assert!(matches!(failed(true, "anything"), AgentAction::Close));
    assert!(matches!(failed(false, "No such device or address"), AgentAction::Close));
    assert!(matches!(failed(false, "no such device or address"), AgentAction::Continue));
    assert!(matches!(failed(false, "Broken pipe"), AgentAction::Continue));
    assert!(matches!(agent_step(&AgentEvent::Failed), AgentAction::Continue));
}
