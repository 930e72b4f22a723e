//! DMX output: serial ports, frames and the loop that sends them.
use vstd::prelude::*;

use super::colour::Colour;
use crate::text::same_text;

verus! {

/// The channels of a frame: red, green and blue.
pub const MAX_CHANNELS: usize = 3;

/// How long the line is held in the break state before a frame, in
/// nanoseconds.
pub const BREAK_NANOS: u128 = 136_000;

/// The time that one frame takes at the highest rate of DMX, about 44 Hz, in
/// nanoseconds.
pub const FRAME_NANOS: u128 = 22_700_000;

// -- Ports

/// What a serial port is attached to.
#[derive(Clone, Copy, Debug, PartialEq, Eq, Structural)]
pub enum PortKind {
    Usb,
    Pci,
    Bluetooth,
    Unknown,
}

/// A serial port of the machine.
#[derive(Debug)]
pub struct Port {
    pub name: String,
    pub kind: PortKind,
}

/// A port as it is listed.
#[derive(Debug)]
pub struct DeviceInfo {
    pub name: String,
    pub selected: bool,
}

impl View for Port {
    type V = (Seq<char>, PortKind);

    open spec fn view(&self) -> (Seq<char>, PortKind) {
        (self.name@, self.kind)
    }
}

impl View for DeviceInfo {
    type V = (Seq<char>, bool);

    open spec fn view(&self) -> (Seq<char>, bool) {
        (self.name@, self.selected)
    }
}

/// The model of a list of ports.
pub open spec fn ports_view(ports: Seq<Port>) -> Seq<(Seq<char>, PortKind)> {
    ports.map_values(|p: Port| p@)
}

/// The model of a list of devices.
pub open spec fn devices_view(devices: Seq<DeviceInfo>) -> Seq<(Seq<char>, bool)> {
    devices.map_values(|d: DeviceInfo| d@)
}

/// The listing of ports: all but those on the PCI bus, the one of the current
/// name marked as selected.
pub open spec fn port_listing(
    ports: Seq<(Seq<char>, PortKind)>,
    current: Option<Seq<char>>,
) -> Seq<(Seq<char>, bool)> {
    ports.filter(|p: (Seq<char>, PortKind)| p.1 != PortKind::Pci).map_values(
        |p: (Seq<char>, PortKind)| (p.0, current == Some(p.0)),
    )
}

/// Lists the ports that a DMX device may be attached to.
pub fn available_ports(ports: &Vec<Port>, current_device: Option<&str>) -> (r: Vec<DeviceInfo>)
    ensures
        devices_view(r@) == port_listing(
            ports_view(ports@),
            match current_device {
                Some(name) => Some(name@),
                None => None,
            },
        ),
{
    let ghost current: Option<Seq<char>> = match current_device {
        Some(name) => Some(name@),
        None => None,
    };
    let ghost all = ports_view(ports@);
    let ghost kept = |p: (Seq<char>, PortKind)| p.1 != PortKind::Pci;
    let ghost mark = |p: (Seq<char>, PortKind)| (p.0, current == Some(p.0));
    let mut info: Vec<DeviceInfo> = Vec::new();
    let mut i: usize = 0;
    proof {
        reveal(Seq::filter);
        assert(devices_view(info@) =~= port_listing(all.take(0), current));
    }
    while i < ports.len()
        invariant
            i <= ports.len(),
            all == ports_view(ports@),
            current == (match current_device {
                Some(name) => Some(name@),
                None => None,
            }),
            kept == (|p: (Seq<char>, PortKind)| p.1 != PortKind::Pci),
            mark == (|p: (Seq<char>, PortKind)| (p.0, current == Some(p.0))),
            devices_view(info@) == port_listing(all.take(i as int), current),
        decreases ports.len() - i,
    {
        let ghost before = info@;
        let name = ports[i].name.clone();
        let ghost next = all[i as int];
        proof {
            assert(next == (ports@[i as int].name@, ports@[i as int].kind));
            assert(all.take(i + 1) == all.take(i as int).push(next));
            all.take(i as int).lemma_filter_push(next, kept);
        }
        if ports[i].kind != PortKind::Pci {
            let selected = match current_device {
                Some(current_name) => same_text(current_name, name.as_str()),
                None => false,
            };
            info.push(DeviceInfo { name, selected });
            assert(devices_view(info@) =~= devices_view(before).push(mark(next)));
            assert(all.take(i as int).filter(kept).push(next).map_values(mark)
                =~= all.take(i as int).filter(kept).map_values(mark).push(mark(next)));
        }
        i = i + 1;
    }
    assert(all.take(i as int) == all);
    info
}

// -- Frames

/// One value for each channel.
#[derive(Clone, Copy, Debug)]
pub struct Packet {
    pub data: [u8; 3],
}

/// The channels that show a colour.
pub open spec fn channels(colour: Colour) -> Seq<u8> {
    seq![colour.red, colour.green, colour.blue]
}

/// The bytes on the line: the start byte, which is zero, and the channels.
pub open spec fn frame_of(data: Seq<u8>) -> Seq<u8> {
    seq![0u8] + data
}

impl Packet {
    /// A packet of the given red, green and blue.
    pub fn new(red: u8, green: u8, blue: u8) -> (r: Packet)
        ensures
            r.data@ == channels(Colour { red, green, blue }),
    {
        Packet { data: [red, green, blue] }
    }

    /// The bytes to write to the port.
    pub fn frame(&self) -> (r: Vec<u8>)
        ensures
            r@ == frame_of(self.data@),
            r@.len() == MAX_CHANNELS + 1,
    {
        let mut bytes: Vec<u8> = Vec::new();
        bytes.push(0);
        bytes.push(self.data[0]);
        bytes.push(self.data[1]);
        bytes.push(self.data[2]);
        assert(bytes@ =~= frame_of(self.data@));
        bytes
    }
}

/// How long the rest of a frame is after the given time was spent on it.
pub open spec fn rest_after(elapsed: nat) -> nat {
    if elapsed <= FRAME_NANOS {
        (FRAME_NANOS - elapsed) as nat
    } else {
        0
    }
}

/// How long to wait until the time of a frame is over, in nanoseconds, after
/// the given time was spent on it.
pub fn frame_rest(elapsed: u128) -> (r: u128)
    ensures
        r == rest_after(elapsed as nat),
        FRAME_NANOS <= elapsed + r,
{
    if elapsed <= FRAME_NANOS {
        FRAME_NANOS - elapsed
    } else {
        0
    }
}

// -- Sending

/// What the sending loop learns.
#[derive(Debug)]
pub enum AgentEvent {
    /// The loop is ready: whether it was told to stop, and the colour to show.
    Ready(bool, Colour),
    /// The last packet was sent.
    Sent,
    /// The port failed: whether as a device that is gone, and its description
    /// of the failure.
    PortFailed(bool, String),
    /// Sending failed in another way.
    Failed,
    /// Nobody is left to send colours.
    Disconnected,
}

/// What the sending loop does.
#[derive(Clone, Copy, Debug)]
pub enum AgentAction {
    /// Send this packet.
    Send(Packet),
    /// Go on with the next round.
    Continue,
    /// Signal that the connection is closed, and end.
    Close,
}

/// What the sending loop does, by the channels of the packet that it sends.
#[verifier::ext_equal]
pub enum AgentActionView {
    Send(Seq<u8>),
    Continue,
    Close,
}

impl View for AgentAction {
    type V = AgentActionView;

    open spec fn view(&self) -> AgentActionView {
        match self {
            AgentAction::Send(packet) => AgentActionView::Send(packet.data@),
            AgentAction::Continue => AgentActionView::Continue,
            AgentAction::Close => AgentActionView::Close,
        }
    }
}

/// What the sending loop does about an event.
pub open spec fn agent_reaction(event: AgentEvent) -> AgentActionView {
    match event {
        AgentEvent::Ready(stop, colour) => if stop {
            AgentActionView::Close
        } else {
            AgentActionView::Send(channels(colour))
        },
        AgentEvent::PortFailed(no_device, description) => if device_gone(
            no_device,
            description@,
        ) {
            AgentActionView::Close
        } else {
            AgentActionView::Continue
        },
        AgentEvent::Disconnected => AgentActionView::Close,
        AgentEvent::Sent | AgentEvent::Failed => AgentActionView::Continue,
    }
}

/// Whether a failure of the port means that its device is gone. Some systems
/// say so only in the description.
pub open spec fn device_gone(no_device: bool, description: Seq<char>) -> bool {
    no_device || description == "No such device or address"@
}

/// What the sending loop does about an event.
///
/// Colours are sent until nobody is left to send them or the loop is told to
/// stop. Once its device is gone the loop ends too, whether or not the device
/// comes back; any other failure costs one packet.
pub fn agent_step(event: &AgentEvent) -> (r: AgentAction)
    ensures
        match event {
            AgentEvent::Ready(true, _) => r is Close,
            AgentEvent::Ready(false, colour) => r is Send && r->Send_0.data@ == seq![
                colour.red,
                colour.green,
                colour.blue,
            ],
            AgentEvent::Sent => r is Continue,
            AgentEvent::PortFailed(no_device, description) => if device_gone(
                *no_device,
                description@,
            ) {
                r is Close
            } else {
                r is Continue
            },
            AgentEvent::Failed => r is Continue,
            AgentEvent::Disconnected => r is Close,
        },
        r@ == agent_reaction(*event),
{
    match event {
        AgentEvent::Ready(stop, colour) => {
            if *stop {
                AgentAction::Close
            } else {
                AgentAction::Send(Packet::new(colour.red, colour.green, colour.blue))
            }
        },
        AgentEvent::Sent => AgentAction::Continue,
        AgentEvent::PortFailed(no_device, description) => {
            if *no_device || same_text(description.as_str(), "No such device or address") {
                AgentAction::Close
            } else {
                AgentAction::Continue
            }
        },
        AgentEvent::Failed => AgentAction::Continue,
        AgentEvent::Disconnected => AgentAction::Close,
    }
}

/// The listing of ports grows with the ports: a port on the PCI bus adds
/// nothing, any other one entry at the end, selected exactly if it is the
/// current one.
pub proof fn lemma_listing_grows(
    ports: Seq<(Seq<char>, PortKind)>,
    port: (Seq<char>, PortKind),
    current: Option<Seq<char>>,
)
    ensures
        port_listing(Seq::empty(), current).len() == 0,
        port.1 == PortKind::Pci ==> port_listing(ports.push(port), current) == port_listing(
            ports,
            current,
        ),
        port.1 != PortKind::Pci ==> port_listing(ports.push(port), current) == port_listing(
            ports,
            current,
        ).push((port.0, current == Some(port.0))),
{
    let kept = |p: (Seq<char>, PortKind)| p.1 != PortKind::Pci;
    ports.lemma_filter_push(port, kept);
    reveal(Seq::filter);
    assert(ports.push(port).drop_last() =~= ports);
    assert(port.1 != PortKind::Pci ==> port_listing(ports.push(port), current) =~= port_listing(
        ports,
        current,
    ).push((port.0, current == Some(port.0))));
}

/// A port is listed under its name and kind, a device under its name and mark.
pub proof fn lemma_port_models(ports: Seq<Port>, devices: Seq<DeviceInfo>, i: int)
    ensures
        ports_view(ports).len() == ports.len(),
        devices_view(devices).len() == devices.len(),
        0 <= i < ports.len() ==> ports_view(ports)[i] == (ports[i].name@, ports[i].kind),
        0 <= i < devices.len() ==> devices_view(devices)[i] == (
            devices[i].name@,
            devices[i].selected,
        ),
{
}

/// A packet holds red, green and blue, each in its channel.
pub proof fn lemma_channels_of_colour(colour: Colour)
    ensures
        channels(colour).len() == MAX_CHANNELS,
        MAX_CHANNELS == 3,
        channels(colour)[0] == colour.red,
        channels(colour)[1] == colour.green,
        channels(colour)[2] == colour.blue,
{
}

/// Work on a frame and the rest after it take the time of a frame, or as long
/// as the work takes if that is longer. A second has room for 44 frames and not
/// for 45. The break before a frame is 136 microseconds.
pub proof fn lemma_frames_take_their_time(elapsed: nat)
    ensures
        elapsed <= 22_700_000 ==> elapsed + rest_after(elapsed) == 22_700_000,
        elapsed > 22_700_000 ==> rest_after(elapsed) == 0,
        44 * rest_after(0) <= 1_000_000_000 < 45 * rest_after(0),
        BREAK_NANOS == 136 * 1000,
{
}

/// The loop ends exactly if it is told to stop, if nobody is left to send
/// colours, or if the device is gone. It sends exactly the colour that it is
/// ready for, and goes on in any other case.
pub proof fn lemma_loop_ends(colour: Colour, description: String)
    ensures
        agent_reaction(AgentEvent::Ready(true, colour)) is Close,
        agent_reaction(AgentEvent::Disconnected) is Close,
        agent_reaction(AgentEvent::PortFailed(true, description)) is Close,
        description@ == "No such device or address"@ ==> agent_reaction(
            AgentEvent::PortFailed(false, description),
        ) is Close,
        description@ != "No such device or address"@ ==> agent_reaction(
            AgentEvent::PortFailed(false, description),
        ) is Continue,
        agent_reaction(AgentEvent::Failed) is Continue,
        agent_reaction(AgentEvent::Sent) is Continue,
        agent_reaction(AgentEvent::Ready(false, colour)) == AgentActionView::Send(
            seq![colour.red, colour.green, colour.blue],
        ),
{
}

/// The channels of a frame are what was put into its packet, behind a start
/// byte of zero.
pub proof fn lemma_frame_carries_channels(data: Seq<u8>)
    ensures
        frame_of(data)[0] == 0,
        frame_of(data).skip(1) == data,
{
    assert(frame_of(data).skip(1) =~= data);
}

} // verus!
