//! What the daemon does about each command, and about the outcome of what it
//! asked for.
use vstd::prelude::*;

use super::daemon::{
    self, Action, ActionView, Command, CommandView, DaemonView, Event, EventView, Failure,
    FailureView, Next, NextView, PlaybackStatus, Query, QueryView, Reply, ReplyView, Step,
};
use super::dmx::{Port, PortKind};
use super::gradient::{Gradient, Stop};
use super::gradients::InfoView;
use crate::error::{Error, ErrorView};

verus! {

// -- Asking

/// The audio is started with the gradient in use and with no other, whatever
/// led to it; with one without colours if none is in use.
pub proof fn lemma_starts_with_gradient_in_use(v: DaemonView, c: CommandView, e: EventView)
    requires
        daemon::consistent(v),
    ensures
        ({
            let in_use = match v.gradients.current {
                Some(name) => v.gradients.gradients[name],
                None => Seq::<Stop>::empty(),
            };
            let command = daemon::command_step(v, c).1.next;
            let event = daemon::event_step(v, e).1.next;
            &&& command is Ask && command->Ask_0 is Start ==> command == NextView::Ask(
                QueryView::Start(in_use),
            )
            &&& event is Ask && event->Ask_0 is Start ==> event == NextView::Ask(
                QueryView::Start(in_use),
            )
        }),
{
}

/// The audio is started exactly if it is to play from now on, or if it plays
/// and one of its devices has changed.
pub proof fn lemma_when_audio_starts(v: DaemonView, c: CommandView, e: EventView)
    requires
        daemon::consistent(v),
    ensures
        ({
            let next = daemon::command_step(v, c).1.next;
            v.pending is Idle ==> (next is Ask && next->Ask_0 is Start <==> (c is ToggleAudioStatus
                && !v.playing) || (c is SetAudioOutput && c->SetAudioOutput_device_name is None
                && v.playing))
        }),
        ({
            let next = daemon::event_step(v, e).1.next;
            daemon::expects(v, e) ==> (next is Ask <==> v.playing && ((v.pending matches
                daemon::PendingView::ChooseInput(name) && e->Inputs_0 is Ok
                && e->Inputs_0->Ok_0.contains(name)) || (v.pending matches
                daemon::PendingView::ChooseOutput(name) && e->Outputs_0 is Ok
                && e->Outputs_0->Ok_0.contains(name))))
        }),
        ({
            let next = daemon::event_step(v, e).1.next;
            daemon::expects(v, e) && next is Ask ==> next->Ask_0 is Start
        }),
{
}

/// A command that needs to know the devices asks for them: one on inputs for
/// the inputs, one on outputs for the outputs, one on the lights for the ports,
/// or for the port that it names to be opened.
pub proof fn lemma_commands_ask(v: DaemonView, name: Seq<char>)
    requires
        v.pending is Idle,
    ensures
        ({
            let asked = |c: CommandView| daemon::command_step(v, c).1.next;
            &&& asked(CommandView::ListAudioInputs) == NextView::Ask(QueryView::Inputs)
            &&& asked(CommandView::SetAudioInput { device_name: name }) == NextView::Ask(
                QueryView::Inputs,
            )
            &&& asked(CommandView::ListAudioOutputs) == NextView::Ask(QueryView::Outputs)
            &&& asked(CommandView::SetAudioOutput { device_name: Some(name) }) == NextView::Ask(
                QueryView::Outputs,
            )
            &&& asked(CommandView::ListDMXOutputs) == NextView::Ask(QueryView::Ports)
            &&& asked(CommandView::SetDMXOutput { device_name: Some(name) }) == NextView::Ask(
                QueryView::Open(name),
            )
        }),
{
}

/// Whether an event is the outcome of a query.
pub open spec fn outcome_of(q: QueryView, e: EventView) -> bool {
    match e {
        EventView::Inputs(_) => q is Inputs,
        EventView::Outputs(_) => q is Outputs,
        EventView::Ports(_) => q is Ports,
        EventView::Opened(_) => q is Open,
        EventView::Started(_) => q is Start,
    }
}

/// What was asked for is waited for: after a query its outcome is expected,
/// whatever it is, and nothing else. After an answer nothing is.
pub proof fn lemma_outcomes_are_expected(v: DaemonView, c: CommandView, e: EventView, f: EventView)
    requires
        daemon::consistent(v),
    ensures
        v.pending is Idle ==> {
            let (w, s) = daemon::command_step(v, c);
            &&& s.next is Ask ==> (daemon::expects(w, f) <==> outcome_of(s.next->Ask_0, f))
            &&& !(s.next is Ask) ==> !daemon::expects(w, f)
        },
        daemon::expects(v, e) ==> {
            let (w, s) = daemon::event_step(v, e);
            &&& s.next is Ask ==> (daemon::expects(w, f) <==> outcome_of(s.next->Ask_0, f))
            &&& !(s.next is Ask) ==> !daemon::expects(w, f)
        },
{
}

// -- What changes

/// A command changes nothing but what it is about. One that lists, reads or
/// asks changes nothing but what is waited for.
pub proof fn lemma_commands_change_their_own(v: DaemonView, c: CommandView)
    requires
        daemon::consistent(v),
        v.pending is Idle,
    ensures
        ({
            let w = daemon::command_step(v, c).0;
            &&& w.input_device == v.input_device
            &&& !(c is SetAudioOutput) ==> w.output_device == v.output_device
            &&& c is SetAudioOutput ==> w.output_device == (
                if c->SetAudioOutput_device_name is None {
                    None
                } else {
                    v.output_device
                })
            &&& !(c is SetDMXOutput) ==> w.dmx_port == v.dmx_port
            &&& !(c is SetDMXOutput || c is Shutdown) ==> w.agent == v.agent
            &&& !(c is SetDMXOutput || c is Shutdown || c is ToggleAudioStatus) ==> w.playing
                == v.playing && w.pipe == v.pipe
            &&& c is ToggleAudioStatus ==> w.playing == !v.playing
            &&& c is SetDMXOutput ==> w.dmx_port == c->SetDMXOutput_device_name && !w.playing
                && !w.pipe && !w.agent
            &&& c is Shutdown ==> !w.playing && !w.pipe && !w.agent
        }),
{
}

/// The outcome of a query changes nothing but what was asked for: a device that
/// was chosen, the connection to the lights, or the audio.
pub proof fn lemma_events_change_their_own(v: DaemonView, e: EventView)
    requires
        daemon::consistent(v),
        daemon::expects(v, e),
    ensures
        ({
            let w = daemon::event_step(v, e).0;
            &&& w.dmx_port == v.dmx_port && w.gradients == v.gradients
            &&& !(v.pending is ChooseInput) ==> w.input_device == v.input_device
            &&& !(v.pending is ChooseOutput || v.pending is ListOutputs) ==> w.output_device
                == v.output_device
            &&& !(v.pending is StartPipe || v.pending is ListOutputs) ==> w.playing == v.playing
                && w.pipe == v.pipe
            &&& !(v.pending is OpenPort || v.pending is ListOutputs) ==> w.agent == v.agent
            &&& v.pending is StartPipe ==> w.playing == (e->Started_0 is Ok) && w.pipe == (
            e->Started_0 is Ok)
            &&& v.pending is OpenPort ==> w.agent == (e->Opened_0 is Ok)
        }),
{
}

// -- Devices

/// The inputs are listed as they are, each in its place, and the one in use is
/// selected. If they cannot be listed, the answer is why.
pub proof fn lemma_inputs_are_listed(v: DaemonView, names: Seq<Seq<char>>, text: Seq<char>, i: int)
    requires
        v.pending is ListInputs,
    ensures
        ({
            let (w, s) = daemon::event_step(v, EventView::Inputs(Ok(names)));
            let list = s.next->Reply_0->Ok_0->AudioDevices_0;
            &&& s.next is Reply && s.next->Reply_0 is Ok && s.next->Reply_0->Ok_0 is AudioDevices
            &&& list.len() == names.len()
            &&& 0 <= i < names.len() ==> list[i].0 == names[i] && (list[i].1 <==> names[i]
                == v.input_device)
            &&& s.actions.len() == 0
            &&& w == (DaemonView { pending: daemon::PendingView::Idle, ..v })
        }),
        daemon::event_step(v, EventView::Inputs(Err(text))).1.next == NextView::Reply(
            Err(ErrorView::Device(text)),
        ),
        daemon::event_step(v, EventView::Inputs(Err(text))).1.actions.len() == 0,
{
}

/// The outputs are listed as they are, each in its place, and the one in use is
/// selected. If they cannot be listed, the answer is why.
pub proof fn lemma_outputs_are_listed(v: DaemonView, names: Seq<Seq<char>>, text: Seq<char>, i: int)
    requires
        v.pending is ListOutputs,
    ensures
        ({
            let s = daemon::event_step(v, EventView::Outputs(Ok(names))).1;
            let list = s.next->Reply_0->Ok_0->AudioDevices_0;
            &&& s.next is Reply && s.next->Reply_0 is Ok && s.next->Reply_0->Ok_0 is AudioDevices
            &&& list.len() == names.len()
            &&& 0 <= i < names.len() ==> list[i].0 == names[i] && (list[i].1
                <==> v.output_device is Some && names[i] == v.output_device->0)
        }),
        daemon::event_step(v, EventView::Outputs(Err(text))).1.next == NextView::Reply(
            Err(ErrorView::Device(text)),
        ),
{
}

/// An output in use that is not among the outputs, or that cannot be looked
/// for, is given up: the audio is closed, then the lights, and none is in use.
/// With one that is there, or with none in use, nothing happens.
pub proof fn lemma_output_is_given_up(v: DaemonView, r: Result<Seq<Seq<char>>, Seq<char>>)
    requires
        daemon::consistent(v),
        v.pending is ListOutputs,
    ensures
        ({
            let (w, s) = daemon::event_step(v, EventView::Outputs(r));
            let there = r is Ok && r->Ok_0.contains(v.output_device->0);
            &&& w.pending is Idle
            &&& v.output_device is Some && !there ==> {
                &&& w.output_device is None && !w.playing && !w.pipe && !w.agent
                &&& s.actions.len() == 1 + (if v.pipe {
                    1int
                } else {
                    0
                }) + (if v.agent {
                    1int
                } else {
                    0
                })
                &&& s.actions[0] == ActionView::NoOutput
                &&& v.pipe ==> s.actions[1] == ActionView::ClosePipe
                &&& v.agent ==> s.actions.last() == ActionView::StopAgent
            }
            &&& v.output_device is None || there ==> s.actions.len() == 0 && w == (DaemonView {
                pending: daemon::PendingView::Idle,
                ..v
            })
        }),
{
    if r is Ok && v.output_device is Some {
        let names = r->Ok_0;
        let list = super::audio::device_listing(names, v.output_device);
        if names.contains(v.output_device->0) {
            let i = choose|i: int| 0 <= i < names.len() && names[i] == v.output_device->0;
            assert(list[i].1);
        } else if super::audio::any_selected(list) {
            let i = choose|i: int| 0 <= i < list.len() && (#[trigger] list[i]).1;
            assert(names[i] == v.output_device->0);
        }
    }
}

/// The ports are listed but for those on the PCI bus, the chosen one selected.
/// If they cannot be listed, the answer is why.
pub proof fn lemma_ports_are_listed(
    v: DaemonView,
    ports: Seq<(Seq<char>, PortKind)>,
    text: Seq<char>,
    i: int,
)
    requires
        v.pending is ListPorts,
    ensures
        ({
            let (w, s) = daemon::event_step(v, EventView::Ports(Ok(ports)));
            let list = s.next->Reply_0->Ok_0->DMXDevices_0;
            &&& s.next is Reply && s.next->Reply_0 is Ok && s.next->Reply_0->Ok_0 is DMXDevices
            &&& 0 <= i < ports.len() && ports[i].1 != PortKind::Pci ==> list.contains(
                (ports[i].0, v.dmx_port is Some && v.dmx_port->0 == ports[i].0),
            )
            &&& 0 <= i < list.len() ==> exists|k: int|
                0 <= k < ports.len() && (#[trigger] ports[k]).1 != PortKind::Pci && ports[k].0
                    == list[i].0
            &&& list.len() <= ports.len()
            &&& list == super::dmx::port_listing(ports, v.dmx_port)
            &&& s.actions.len() == 0
            &&& w == (DaemonView { pending: daemon::PendingView::Idle, ..v })
        }),
        daemon::event_step(v, EventView::Ports(Err(text))).1.next == NextView::Reply(
            Err(ErrorView::Device(text)),
        ),
{
    let kept = |p: (Seq<char>, PortKind)| p.1 != PortKind::Pci;
    let some = ports.filter(kept);
    let list = super::dmx::port_listing(ports, v.dmx_port);
    if 0 <= i < ports.len() && ports[i].1 != PortKind::Pci {
        ports.lemma_filter_contains(kept, i);
        let k = choose|k: int| 0 <= k < some.len() && some[k] == ports[i];
        assert(list[k] == (ports[i].0, v.dmx_port == Some(ports[i].0)));
    }
    if 0 <= i < list.len() {
        ports.lemma_filter_pred(kept, i);
        assert(some.contains(some[i]));
        ports.lemma_filter_contains_rev(kept, some[i]);
        let k = choose|k: int| 0 <= k < ports.len() && ports[k] == some[i];
        assert(ports[k].1 != PortKind::Pci);
    }
    ports.lemma_filter_len(kept);
}

/// A device that was chosen and is not there is refused by its name, and devices
/// that cannot be listed by their account. Nothing changes.
pub proof fn lemma_unknown_devices_are_refused(
    v: DaemonView,
    name: Seq<char>,
    names: Seq<Seq<char>>,
    text: Seq<char>,
)
    requires
        daemon::consistent(v),
        v.pending is Idle,
        !names.contains(name),
    ensures
        ({
            let w = daemon::command_step(v, CommandView::SetAudioInput { device_name: name }).0;
            let (x, s) = daemon::event_step(w, EventView::Inputs(Ok(names)));
            let (y, t) = daemon::event_step(w, EventView::Inputs(Err(text)));
            &&& s.next == NextView::Reply(Err(ErrorView::DeviceNotFound(name)))
            &&& t.next == NextView::Reply(Err(ErrorView::Device(text)))
            &&& x == v && y == v && s.actions.len() == 0 && t.actions.len() == 0
        }),
        ({
            let w = daemon::command_step(
                v,
                CommandView::SetAudioOutput { device_name: Some(name) },
            ).0;
            let (x, s) = daemon::event_step(w, EventView::Outputs(Ok(names)));
            let (y, t) = daemon::event_step(w, EventView::Outputs(Err(text)));
            &&& s.next == NextView::Reply(Err(ErrorView::DeviceNotFound(name)))
            &&& t.next == NextView::Reply(Err(ErrorView::Device(text)))
            &&& x == v && y == v && s.actions.len() == 0 && t.actions.len() == 0
        }),
{
    let w = daemon::command_step(v, CommandView::SetAudioInput { device_name: name }).0;
    assert(daemon::event_step(w, EventView::Inputs(Ok(names))).0 =~= v);
    assert(daemon::event_step(w, EventView::Inputs(Err(text))).0 =~= v);
    let u = daemon::command_step(v, CommandView::SetAudioOutput { device_name: Some(name) }).0;
    assert(daemon::event_step(u, EventView::Outputs(Ok(names))).0 =~= v);
    assert(daemon::event_step(u, EventView::Outputs(Err(text))).0 =~= v);
}

/// A device that was chosen is taken from where it first stands in the list. If
/// the audio does not play, that is all, and the command is done. If it plays,
/// it is started anew.
pub proof fn lemma_devices_are_switched(v: DaemonView, names: Seq<Seq<char>>, i: int)
    requires
        daemon::consistent(v),
        v.pending is Idle,
        0 <= i < names.len() <= usize::MAX,
        forall|k: int| 0 <= k < i ==> names[k] != names[i],
    ensures
        ({
            let name = names[i];
            let w = daemon::command_step(v, CommandView::SetAudioInput { device_name: name }).0;
            let (x, s) = daemon::event_step(w, EventView::Inputs(Ok(names)));
            &&& x == (DaemonView { input_device: name, pending: x.pending, ..v })
            &&& s.actions == seq![ActionView::UseInput(i as usize)]
            &&& !v.playing ==> x.pending is Idle && s.next == NextView::Reply(Ok(ReplyView::Done))
            &&& v.playing ==> x.pending is StartPipe && s.next is Ask
        }),
        ({
            let name = names[i];
            let w = daemon::command_step(
                v,
                CommandView::SetAudioOutput { device_name: Some(name) },
            ).0;
            let (x, s) = daemon::event_step(w, EventView::Outputs(Ok(names)));
            &&& x == (DaemonView { output_device: Some(name), pending: x.pending, ..v })
            &&& s.actions == seq![ActionView::UseOutput(i as usize)]
            &&& !v.playing ==> x.pending is Idle && s.next == NextView::Reply(Ok(ReplyView::Done))
            &&& v.playing ==> x.pending is StartPipe && s.next is Ask
        }),
{
    let name = names[i];
    assert(super::audio::first_named(names, name, (i as usize) as int));
    daemon::lemma_chosen_device_is_used(v, names, i as usize);
    let w = daemon::command_step(v, CommandView::SetAudioInput { device_name: name }).0;
    let x = daemon::event_step(w, EventView::Inputs(Ok(names))).0;
    assert(names.contains(name));
    assert(x =~= (DaemonView { input_device: name, pending: x.pending, ..v }));
    let u = daemon::command_step(v, CommandView::SetAudioOutput { device_name: Some(name) }).0;
    let y = daemon::event_step(u, EventView::Outputs(Ok(names))).0;
    assert(y =~= (DaemonView { output_device: Some(name), pending: y.pending, ..v }));
}

/// Giving up the output lets go of it and of nothing else; audio that plays is
/// started anew without it.
pub proof fn lemma_output_can_be_left_out(v: DaemonView)
    requires
        daemon::consistent(v),
        v.pending is Idle,
    ensures
        ({
            let (w, s) = daemon::command_step(v, CommandView::SetAudioOutput { device_name: None });
            &&& w == (DaemonView { output_device: None, pending: w.pending, ..v })
            &&& s.actions == seq![ActionView::NoOutput]
            &&& !v.playing ==> w.pending is Idle && s.next == NextView::Reply(Ok(ReplyView::Done))
            &&& v.playing ==> w.pending is StartPipe && s.next is Ask
        }),
{
    let w = daemon::command_step(v, CommandView::SetAudioOutput { device_name: None }).0;
    assert(w =~= (DaemonView { output_device: None, pending: w.pending, ..v }));
}

// -- Playback

/// Pausing closes the audio, turns the lights off if there are any, and is done
/// at once. Playing closes and turns off nothing.
pub proof fn lemma_toggling(v: DaemonView)
    requires
        daemon::consistent(v),
        v.pending is Idle,
    ensures
        ({
            let (w, s) = daemon::command_step(v, CommandView::ToggleAudioStatus);
            &&& v.playing ==> {
                &&& s.next == NextView::Reply(Ok(ReplyView::Done))
                &&& w == (DaemonView { playing: false, pipe: false, ..v })
                &&& s.actions == (if v.agent {
                    seq![ActionView::ClosePipe, ActionView::Blackout]
                } else {
                    seq![ActionView::ClosePipe]
                })
            }
            &&& !v.playing ==> {
                &&& s.next is Ask
                &&& w == (DaemonView { playing: true, pending: daemon::PendingView::StartPipe, ..v })
                &&& s.actions.len() == 0
            }
        }),
{
    let (w, s) = daemon::command_step(v, CommandView::ToggleAudioStatus);
    if v.playing {
        assert(w =~= (DaemonView { playing: false, pipe: false, ..v }));
        assert(s.actions =~= (if v.agent {
            seq![ActionView::ClosePipe, ActionView::Blackout]
        } else {
            seq![ActionView::ClosePipe]
        }));
    }
}

/// Audio that started plays, and the command is done.
pub proof fn lemma_started_audio_plays(v: DaemonView)
    requires
        daemon::consistent(v),
        v.pending is StartPipe,
    ensures
        ({
            let (w, s) = daemon::event_step(v, EventView::Started(Ok(())));
            &&& s.next == NextView::Reply(Ok(ReplyView::Done))
            &&& s.actions.len() == 0
            &&& w == (DaemonView { pipe: true, pending: daemon::PendingView::Idle, ..v })
            &&& w.playing
        }),
{
}

/// Asking for the status tells whether audio plays, and does nothing.
pub proof fn lemma_status_is_playing(v: DaemonView)
    requires
        v.pending is Idle,
    ensures
        ({
            let (w, s) = daemon::command_step(v, CommandView::GetAudioStatus);
            &&& v.playing ==> s.next == NextView::Reply(
                Ok(ReplyView::Status(PlaybackStatus::Playing)),
            )
            &&& !v.playing ==> s.next == NextView::Reply(
                Ok(ReplyView::Status(PlaybackStatus::Paused)),
            )
            &&& s.actions.len() == 0
            &&& w == v
        }),
{
    assert(daemon::command_step(v, CommandView::GetAudioStatus).0 =~= v);
}

// -- Lights

/// Choosing a port, or none, first closes the audio if there is any, and then
/// the lights if there are any, and does no more by itself.
pub proof fn lemma_port_choice_lets_go(v: DaemonView, port: Option<Seq<char>>)
    requires
        daemon::consistent(v),
        v.pending is Idle,
    ensures
        ({
            let (w, s) = daemon::command_step(v, CommandView::SetDMXOutput { device_name: port });
            &&& s.actions == released(v)
            &&& w.input_device == v.input_device && w.output_device == v.output_device
                && w.gradients == v.gradients
        }),
{
    assert(daemon::cleanup(v) =~= released(v));
}

/// What lets go of the audio and the lights, in this order, as far as there are
/// any.
pub open spec fn released(v: DaemonView) -> Seq<ActionView> {
    match (v.pipe, v.agent) {
        (true, true) => seq![ActionView::ClosePipe, ActionView::StopAgent],
        (true, false) => seq![ActionView::ClosePipe],
        (false, true) => seq![ActionView::StopAgent],
        (false, false) => seq![],
    }
}

/// A port that was opened connects the lights, and the command is done. One
/// that was not leaves them unconnected, and the answer is why. Neither does
/// anything else.
pub proof fn lemma_port_is_opened(v: DaemonView, text: Seq<char>)
    requires
        daemon::consistent(v),
        v.pending is OpenPort,
    ensures
        ({
            let (w, s) = daemon::event_step(v, EventView::Opened(Ok(())));
            let (x, t) = daemon::event_step(v, EventView::Opened(Err(text)));
            &&& w == (DaemonView { agent: true, pending: daemon::PendingView::Idle, ..v })
            &&& s.next == NextView::Reply(Ok(ReplyView::Done)) && s.actions.len() == 0
            &&& x == (DaemonView { pending: daemon::PendingView::Idle, ..v })
            &&& t.next == NextView::Reply(Err(ErrorView::Device(text))) && t.actions.len() == 0
        }),
{
}

/// Shutting down takes no more commands, then closes the audio and the lights,
/// and ends.
pub proof fn lemma_shutdown_in_order(v: DaemonView)
    requires
        daemon::consistent(v),
        v.pending is Idle,
    ensures
        ({
            let (w, s) = daemon::command_step(v, CommandView::Shutdown);
            &&& s.actions == seq![ActionView::CloseCommands] + released(v)
            &&& s.next is Finish
            &&& w.pending is Stopped
        }),
{
    assert(daemon::cleanup(v) =~= released(v));
}

// -- Gradients

/// Reading a gradient gives the one that stands under the name, and an error if
/// none does.
pub proof fn lemma_gradients_are_read(v: DaemonView, name: Seq<char>)
    requires
        v.pending is Idle,
    ensures
        ({
            let (w, s) = daemon::command_step(v, CommandView::GetGradient { name });
            &&& v.gradients.gradients.contains_key(name) ==> s.next == NextView::Reply(
                Ok(ReplyView::Gradient(v.gradients.gradients[name])),
            )
            &&& !v.gradients.gradients.contains_key(name) ==> s.next == NextView::Reply(
                Err(ErrorView::GradientMissing),
            )
            &&& s.actions.len() == 0
            &&& w == v
        }),
{
    assert(daemon::command_step(v, CommandView::GetGradient { name }).0 =~= v);
}

/// Listing the gradients gives their list and changes nothing.
pub proof fn lemma_gradients_are_listed(v: DaemonView, list: Seq<InfoView>)
    requires
        v.pending is Idle,
        super::gradients::lists(v.gradients, list),
    ensures
        ({
            let (w, s) = daemon::command_step(v, CommandView::ListGradients);
            &&& s.next == NextView::Reply(Ok(ReplyView::Gradients(list)))
            &&& s.actions.len() == 0
            &&& w == v
        }),
{
    super::gradients::lemma_listing_is_determined(v.gradients, list, list);
    assert(daemon::command_step(v, CommandView::ListGradients).0 =~= v);
}

/// Choosing a gradient that exists puts it in use and does nothing else. One
/// that does not is refused.
pub proof fn lemma_gradients_are_chosen(v: DaemonView, name: Seq<char>)
    requires
        v.pending is Idle,
    ensures
        ({
            let (w, s) = daemon::command_step(v, CommandView::SetCurrentGradient { name });
            &&& v.gradients.gradients.contains_key(name) ==> {
                &&& s.next == NextView::Reply(Ok(ReplyView::Done))
                &&& w.gradients.current == Some(name)
            }
            &&& !v.gradients.gradients.contains_key(name) ==> {
                &&& s.next == NextView::Reply(Err(ErrorView::GradientMissing))
                &&& w.gradients.current == v.gradients.current
            }
            &&& w.gradients.gradients == v.gradients.gradients
            &&& w == (DaemonView { gradients: w.gradients, ..v })
            &&& s.actions.len() == 0
        }),
{
    let w = daemon::command_step(v, CommandView::SetCurrentGradient { name }).0;
    assert(w =~= (DaemonView { gradients: w.gradients, ..v }));
}

/// A gradient is put under its name and in use, and no other gradient changes.
/// A name that is taken is refused unless it may be overwritten, and nothing
/// changes.
pub proof fn lemma_gradients_are_added(
    v: DaemonView,
    name: Seq<char>,
    gradient: Seq<Stop>,
    overwrite: bool,
    other: Seq<char>,
)
    requires
        v.pending is Idle,
    ensures
        ({
            let (w, s) = daemon::command_step(
                v,
                CommandView::AddGradient { name, gradient, overwrite },
            );
            let taken = v.gradients.gradients.contains_key(name);
            &&& taken && !overwrite ==> s.next == NextView::Reply(Err(ErrorView::GradientExists))
                && w == v
            &&& !taken || overwrite ==> {
                &&& s.next == NextView::Reply(Ok(ReplyView::Done))
                &&& w.gradients.current == Some(name)
                &&& w.gradients.gradients.contains_key(name)
                &&& w.gradients.gradients[name] == gradient
                &&& other != name ==> (w.gradients.gradients.contains_key(other)
                    <==> v.gradients.gradients.contains_key(other))
                &&& other != name && v.gradients.gradients.contains_key(other)
                    ==> w.gradients.gradients[other] == v.gradients.gradients[other]
            }
            &&& w == (DaemonView { gradients: w.gradients, ..v })
            &&& s.actions.len() == 0
        }),
{
    let w = daemon::command_step(v, CommandView::AddGradient { name, gradient, overwrite }).0;
    assert(w =~= (DaemonView { gradients: w.gradients, ..v }));
    if v.gradients.gradients.contains_key(name) && !overwrite {
        assert(w =~= v);
    }
}

/// A gradient that is deleted is gone, in use or not, no other gradient changes,
/// and the one in use stays so if it is another. Deleting one that does not
/// exist is no error.
pub proof fn lemma_gradients_are_deleted(v: DaemonView, name: Seq<char>, other: Seq<char>)
    requires
        v.pending is Idle,
    ensures
        ({
            let (w, s) = daemon::command_step(v, CommandView::DeleteGradient { name });
            &&& s.next == NextView::Reply(Ok(ReplyView::Done))
            &&& !w.gradients.gradients.contains_key(name)
            &&& other != name ==> (w.gradients.gradients.contains_key(other)
                <==> v.gradients.gradients.contains_key(other))
            &&& other != name && v.gradients.gradients.contains_key(other)
                ==> w.gradients.gradients[other] == v.gradients.gradients[other]
            &&& v.gradients.current == Some(name) ==> w.gradients.current is None
            &&& v.gradients.current != Some(name) ==> w.gradients.current == v.gradients.current
            &&& w == (DaemonView { gradients: w.gradients, ..v })
            &&& s.actions.len() == 0
        }),
{
    let w = daemon::command_step(v, CommandView::DeleteGradient { name }).0;
    assert(w =~= (DaemonView { gradients: w.gradients, ..v }));
}

/// A new daemon is paused, with its two devices, no lights and no gradients.
pub proof fn lemma_new_daemon(input: Seq<char>, output: Seq<char>, name: Seq<char>)
    ensures
        ({
            let v = daemon::fresh(input, output);
            &&& v.input_device == input && v.output_device == Some(output)
            &&& !v.playing && !v.pipe && !v.agent && v.dmx_port is None
            &&& v.gradients.current is None && !v.gradients.gradients.contains_key(name)
            &&& v.pending is Idle
            &&& daemon::consistent(v)
        }),
{
}

// -- Models

/// A command is taken as it is given.
pub proof fn lemma_command_models(
    name: String,
    device: Option<String>,
    gradient: Gradient,
    overwrite: bool,
)
    ensures
        Command::ListAudioInputs@ is ListAudioInputs,
        Command::ListAudioOutputs@ is ListAudioOutputs,
        Command::GetAudioStatus@ is GetAudioStatus,
        Command::ToggleAudioStatus@ is ToggleAudioStatus,
        Command::ListGradients@ is ListGradients,
        Command::ListDMXOutputs@ is ListDMXOutputs,
        Command::Shutdown@ is Shutdown,
        (Command::SetAudioInput { device_name: name })@ == (CommandView::SetAudioInput {
            device_name: name@,
        }),
        (Command::SetAudioOutput { device_name: Some(name) })@ == (CommandView::SetAudioOutput {
            device_name: Some(name@),
        }),
        (Command::SetAudioOutput { device_name: None })@ == (CommandView::SetAudioOutput {
            device_name: None,
        }),
        (Command::SetDMXOutput { device_name: Some(name) })@ == (CommandView::SetDMXOutput {
            device_name: Some(name@),
        }),
        (Command::SetDMXOutput { device_name: None })@ == (CommandView::SetDMXOutput {
            device_name: None,
        }),
        (Command::SetCurrentGradient { name })@ == (CommandView::SetCurrentGradient {
            name: name@,
        }),
        (Command::GetGradient { name })@ == (CommandView::GetGradient { name: name@ }),
        (Command::AddGradient { name, gradient, overwrite })@ == (CommandView::AddGradient {
            name: name@,
            gradient: gradient@,
            overwrite,
        }),
        (Command::DeleteGradient { name })@ == (CommandView::DeleteGradient { name: name@ }),
        gradient@ == gradient.colours@,
{
}

/// What is asked, done and told is what the step says.
pub proof fn lemma_step_models(
    step: Step,
    reply: Reply,
    error: Error,
    gradient: Gradient,
    text: String,
    i: usize,
)
    ensures
        step@.next == step.next@,
        step@.actions.len() == step.actions@.len(),
        0 <= i < step.actions@.len() ==> step@.actions[i as int] == step.actions@[i as int]@,
        Next::Reply(Ok(reply))@ == NextView::Reply(Ok(reply@)),
        Next::Reply(Err(error))@ == NextView::Reply(Err(error@)),
        Next::Finish@ is Finish,
        Next::Ask(Query::Inputs)@ == NextView::Ask(QueryView::Inputs),
        Next::Ask(Query::Outputs)@ == NextView::Ask(QueryView::Outputs),
        Next::Ask(Query::Ports)@ == NextView::Ask(QueryView::Ports),
        Next::Ask(Query::Open(text))@ == NextView::Ask(QueryView::Open(text@)),
        Next::Ask(Query::Start(gradient))@ == NextView::Ask(QueryView::Start(gradient@)),
        Action::UseInput(i)@ == ActionView::UseInput(i),
        Action::UseOutput(i)@ == ActionView::UseOutput(i),
        Action::NoOutput@ is NoOutput,
        Action::ClosePipe@ is ClosePipe,
        Action::ReportFailure(text)@ == ActionView::ReportFailure(text@),
        Action::Blackout@ is Blackout,
        Action::StopAgent@ is StopAgent,
        Action::CloseCommands@ is CloseCommands,
{
}

/// The outcome of a query is taken as it came.
pub proof fn lemma_event_models(
    names: Vec<String>,
    ports: Vec<Port>,
    failure: Failure,
    text: String,
    i: int,
)
    ensures
        Event::Inputs(Ok(names))@ == EventView::Inputs(Ok(super::audio::names_view(names@))),
        Event::Outputs(Ok(names))@ == EventView::Outputs(Ok(super::audio::names_view(names@))),
        Event::Ports(Ok(ports))@ == EventView::Ports(Ok(super::dmx::ports_view(ports@))),
        Event::Inputs(Err(text))@ == EventView::Inputs(Err(text@)),
        Event::Outputs(Err(text))@ == EventView::Outputs(Err(text@)),
        Event::Ports(Err(text))@ == EventView::Ports(Err(text@)),
        Event::Opened(Ok(()))@ == EventView::Opened(Ok(())),
        Event::Opened(Err(text))@ == EventView::Opened(Err(text@)),
        Event::Started(Ok(()))@ == EventView::Started(Ok(())),
        Event::Started(Err(failure))@ == EventView::Started(
            Err(FailureView { text: failure.text@, account: failure.account@ }),
        ),
{
}

/// A reply is what it holds.
pub proof fn lemma_reply_models(
    devices: Vec<super::audio::DeviceInfo>,
    ports: Vec<super::dmx::DeviceInfo>,
    list: Vec<super::gradients::GradientInfo>,
    gradient: Gradient,
    status: PlaybackStatus,
    i: int,
)
    ensures
        Reply::AudioDevices(devices)@ == ReplyView::AudioDevices(
            super::audio::devices_view(devices@),
        ),
        Reply::DMXDevices(ports)@ == ReplyView::DMXDevices(super::dmx::devices_view(ports@)),
        Reply::Status(status)@ == ReplyView::Status(status),
        Reply::Gradients(list)@ is Gradients,
        Reply::Gradients(list)@->Gradients_0.len() == list@.len(),
        0 <= i < list@.len() ==> Reply::Gradients(list)@->Gradients_0[i] == (InfoView {
            name: list@[i].name@,
            selected: list@[i].selected,
            stops: list@[i].data@,
        }),
        Reply::Gradient(gradient)@ == ReplyView::Gradient(gradient@),
        Reply::Done@ is Done,
{
}

} // verus!
