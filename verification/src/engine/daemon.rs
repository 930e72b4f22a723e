//! The command loop.
//!
//! Commands come in one at a time. The daemon decides what each of them means
//! and asks for what it cannot do itself: to look at the devices, to open a
//! port, to start the audio. It is told how that went, and in the end it
//! answers the command.
use vstd::prelude::*;

use super::audio::{self, find_device, has_selected, input_device_info, output_device_info};
use super::dmx::{self, available_ports, Port};
use super::gradient::{Gradient, Stop};
use super::gradients::{Gradients, GradientsView};
pub use super::protocol::{
    Action, ActionView, Command, CommandView, Event, EventView, Failure, FailureView, Next, NextView, PlaybackStatus, Query,
    QueryView, Reply, ReplyView, Step, StepView,
};
use crate::error::{Error, ErrorView};

verus! {

// -- State

/// What the daemon waits for.
enum Pending {
    Idle,
    ListInputs,
    ListOutputs,
    ListPorts,
    ChooseInput(String),
    ChooseOutput(String),
    OpenPort,
    StartPipe,
    Stopped,
}

/// What the daemon waits for: nothing, a list to answer with, a list to choose
/// from, a port, the audio; or it has stopped.
#[verifier::ext_equal]
pub enum PendingView {
    Idle,
    ListInputs,
    ListOutputs,
    ListPorts,
    ChooseInput(Seq<char>),
    ChooseOutput(Seq<char>),
    OpenPort,
    StartPipe,
    Stopped,
}

impl Pending {
    spec fn model(self) -> PendingView {
        match self {
            Pending::Idle => PendingView::Idle,
            Pending::ListInputs => PendingView::ListInputs,
            Pending::ListOutputs => PendingView::ListOutputs,
            Pending::ListPorts => PendingView::ListPorts,
            Pending::ChooseInput(name) => PendingView::ChooseInput(name@),
            Pending::ChooseOutput(name) => PendingView::ChooseOutput(name@),
            Pending::OpenPort => PendingView::OpenPort,
            Pending::StartPipe => PendingView::StartPipe,
            Pending::Stopped => PendingView::Stopped,
        }
    }
}

/// The state of the daemon.
#[verifier::ext_equal]
pub struct DaemonView {
    /// The input in use.
    pub input_device: Seq<char>,
    /// The output in use, if any.
    pub output_device: Option<Seq<char>>,
    /// Whether audio is meant to play.
    pub playing: bool,
    /// Whether there is a pipe from input to output.
    pub pipe: bool,
    /// Whether there is a connection to the lights.
    pub agent: bool,
    /// The port chosen for the lights, if any.
    pub dmx_port: Option<Seq<char>>,
    /// The gradients.
    pub gradients: GradientsView,
    /// What the daemon waits for.
    pub pending: PendingView,
}

/// The state of a new daemon on the given devices.
pub open spec fn fresh(input_device: Seq<char>, output_device: Seq<char>) -> DaemonView {
    DaemonView {
        input_device,
        output_device: Some(output_device),
        playing: false,
        pipe: false,
        agent: false,
        dmx_port: None,
        gradients: GradientsView { current: None, gradients: Map::empty() },
        pending: PendingView::Idle,
    }
}

/// What holds of the daemon at all times.
///
/// Between commands there is a pipe exactly while audio is playing, and a
/// connection to the lights only while a port is chosen.
pub open spec fn consistent(v: DaemonView) -> bool {
    &&& super::gradients::coherent(v.gradients)
    &&& v.agent ==> v.dmx_port is Some
    &&& match v.pending {
        PendingView::StartPipe => v.playing,
        PendingView::OpenPort => !v.playing && !v.pipe && !v.agent && v.dmx_port is Some,
        PendingView::Stopped => !v.playing && !v.pipe && !v.agent,
        _ => v.pipe == v.playing,
    }
}

/// Whether an event answers what the daemon waits for.
pub open spec fn expects(v: DaemonView, e: EventView) -> bool {
    match v.pending {
        PendingView::ListInputs | PendingView::ChooseInput(_) => e is Inputs,
        PendingView::ListOutputs | PendingView::ChooseOutput(_) => e is Outputs,
        PendingView::ListPorts => e is Ports,
        PendingView::OpenPort => e is Opened,
        PendingView::StartPipe => e is Started,
        PendingView::Idle | PendingView::Stopped => false,
    }
}

// -- Steps

/// The daemon, waiting for nothing, answers.
pub open spec fn replies(
    v: DaemonView,
    actions: Seq<ActionView>,
    reply: Result<ReplyView, ErrorView>,
) -> (DaemonView, StepView) {
    (
        DaemonView { pending: PendingView::Idle, ..v },
        StepView { actions, next: NextView::Reply(reply) },
    )
}

/// The daemon asks and waits.
pub open spec fn asks(
    v: DaemonView,
    actions: Seq<ActionView>,
    query: QueryView,
    pending: PendingView,
) -> (DaemonView, StepView) {
    (DaemonView { pending, ..v }, StepView { actions, next: NextView::Ask(query) })
}

/// The gradient to play with: the one in use, or one without colours.
pub open spec fn playing_gradient(v: DaemonView) -> Seq<Stop> {
    match super::gradients::in_use(v.gradients) {
        Some(stops) => stops,
        None => Seq::empty(),
    }
}

/// The end of a change of devices: the audio starts anew if it is meant to
/// play.
pub open spec fn resumes(v: DaemonView, actions: Seq<ActionView>) -> (DaemonView, StepView) {
    if v.playing {
        asks(v, actions, QueryView::Start(playing_gradient(v)), PendingView::StartPipe)
    } else {
        replies(v, actions, Ok(ReplyView::Done))
    }
}

/// One action if a condition holds, none otherwise.
pub open spec fn only_if(condition: bool, action: ActionView) -> Seq<ActionView> {
    if condition {
        seq![action]
    } else {
        Seq::empty()
    }
}

/// What it takes to let go of the pipe and the lights.
pub open spec fn cleanup(v: DaemonView) -> Seq<ActionView> {
    only_if(v.pipe, ActionView::ClosePipe) + only_if(v.agent, ActionView::StopAgent)
}

/// The daemon without pipe and lights, paused.
pub open spec fn cleaned(v: DaemonView) -> DaemonView {
    DaemonView { playing: false, pipe: false, agent: false, ..v }
}

/// What the daemon does about a command.
pub open spec fn command_step(v: DaemonView, c: CommandView) -> (DaemonView, StepView) {
    match c {
        CommandView::ListAudioInputs => asks(
            v,
            Seq::empty(),
            QueryView::Inputs,
            PendingView::ListInputs,
        ),
        CommandView::ListAudioOutputs => asks(
            v,
            Seq::empty(),
            QueryView::Outputs,
            PendingView::ListOutputs,
        ),
        CommandView::SetAudioInput { device_name } => asks(
            v,
            Seq::empty(),
            QueryView::Inputs,
            PendingView::ChooseInput(device_name),
        ),
        CommandView::SetAudioOutput { device_name: Some(name) } => asks(
            v,
            Seq::empty(),
            QueryView::Outputs,
            PendingView::ChooseOutput(name),
        ),
        CommandView::SetAudioOutput { device_name: None } => resumes(
            DaemonView { output_device: None, ..v },
            seq![ActionView::NoOutput],
        ),
        CommandView::GetAudioStatus => replies(
            v,
            Seq::empty(),
            Ok(
                ReplyView::Status(
                    if v.playing {
                        PlaybackStatus::Playing
                    } else {
                        PlaybackStatus::Paused
                    },
                ),
            ),
        ),
        CommandView::ToggleAudioStatus => if v.playing {
            replies(
                DaemonView { playing: false, pipe: false, ..v },
                only_if(v.pipe, ActionView::ClosePipe) + only_if(v.agent, ActionView::Blackout),
                Ok(ReplyView::Done),
            )
        } else {
            resumes(DaemonView { playing: true, ..v }, Seq::empty())
        },
        CommandView::ListGradients => replies(
            v,
            Seq::empty(),
            Ok(ReplyView::Gradients(super::gradients::listing(v.gradients))),
        ),
        CommandView::SetCurrentGradient { name } => if v.gradients.gradients.contains_key(name) {
            replies(
                DaemonView { gradients: super::gradients::chosen(v.gradients, name), ..v },
                Seq::empty(),
                Ok(ReplyView::Done),
            )
        } else {
            replies(v, Seq::empty(), Err(ErrorView::GradientMissing))
        },
        CommandView::GetGradient { name } => replies(
            v,
            Seq::empty(),
            match super::gradients::lookup(v.gradients, name) {
                Some(stops) => Ok(ReplyView::Gradient(stops)),
                None => Err(ErrorView::GradientMissing),
            },
        ),
        CommandView::AddGradient { name, gradient, overwrite } => if !overwrite
            && v.gradients.gradients.contains_key(name) {
            replies(v, Seq::empty(), Err(ErrorView::GradientExists))
        } else {
            replies(
                DaemonView {
                    gradients: super::gradients::added(v.gradients, name, gradient),
                    ..v
                },
                Seq::empty(),
                Ok(ReplyView::Done),
            )
        },
        CommandView::DeleteGradient { name } => replies(
            DaemonView { gradients: super::gradients::deleted(v.gradients, name), ..v },
            Seq::empty(),
            Ok(ReplyView::Done),
        ),
        CommandView::ListDMXOutputs => asks(
            v,
            Seq::empty(),
            QueryView::Ports,
            PendingView::ListPorts,
        ),
        CommandView::SetDMXOutput { device_name: Some(port) } => asks(
            DaemonView { dmx_port: Some(port), ..cleaned(v) },
            cleanup(v),
            QueryView::Open(port),
            PendingView::OpenPort,
        ),
        CommandView::SetDMXOutput { device_name: None } => resumes(
            DaemonView { dmx_port: None, ..cleaned(v) },
            cleanup(v),
        ),
        CommandView::Shutdown => (
            DaemonView { pending: PendingView::Stopped, ..cleaned(v) },
            StepView {
                actions: seq![ActionView::CloseCommands] + cleanup(v),
                next: NextView::Finish,
            },
        ),
    }
}

/// The answer to a request for a list of audio devices.
pub open spec fn devices_reply(
    r: Result<Seq<Seq<char>>, Seq<char>>,
    current: Option<Seq<char>>,
) -> Result<ReplyView, ErrorView> {
    match r {
        Ok(names) => Ok(ReplyView::AudioDevices(audio::device_listing(names, current))),
        Err(text) => Err(ErrorView::Device(text)),
    }
}

/// Whether the output in use is gone: it is not among the outputs, or they
/// cannot be listed.
pub open spec fn output_lost(
    r: Result<Seq<Seq<char>>, Seq<char>>,
    current: Option<Seq<char>>,
) -> bool {
    current is Some && (r matches Ok(names) ==> !audio::any_selected(
        audio::device_listing(names, current),
    ))
}

/// Where a device of the given name comes first.
pub open spec fn first_index(names: Seq<Seq<char>>, name: Seq<char>) -> usize {
    choose|i: usize| audio::first_named(names, name, i as int)
}

/// What the daemon does about the outcome of what it asked for.
pub open spec fn event_step(v: DaemonView, e: EventView) -> (DaemonView, StepView) {
    match (v.pending, e) {
        (PendingView::ListInputs, EventView::Inputs(r)) => replies(
            v,
            Seq::empty(),
            devices_reply(r, Some(v.input_device)),
        ),
        (PendingView::ListOutputs, EventView::Outputs(r)) => if output_lost(r, v.output_device) {
            replies(
                DaemonView { output_device: None, ..cleaned(v) },
                seq![ActionView::NoOutput] + cleanup(v),
                devices_reply(r, v.output_device),
            )
        } else {
            replies(v, Seq::empty(), devices_reply(r, v.output_device))
        },
        (PendingView::ListPorts, EventView::Ports(r)) => replies(
            v,
            Seq::empty(),
            match r {
                Ok(ports) => Ok(ReplyView::DMXDevices(dmx::port_listing(ports, v.dmx_port))),
                Err(text) => Err(ErrorView::Device(text)),
            },
        ),
        (PendingView::ChooseInput(name), EventView::Inputs(r)) => match r {
            Ok(names) => if names.contains(name) {
                resumes(
                    DaemonView { input_device: name, ..v },
                    seq![ActionView::UseInput(first_index(names, name))],
                )
            } else {
                replies(v, Seq::empty(), Err(ErrorView::DeviceNotFound(name)))
            },
            Err(text) => replies(v, Seq::empty(), Err(ErrorView::Device(text))),
        },
        (PendingView::ChooseOutput(name), EventView::Outputs(r)) => match r {
            Ok(names) => if names.contains(name) {
                resumes(
                    DaemonView { output_device: Some(name), ..v },
                    seq![ActionView::UseOutput(first_index(names, name))],
                )
            } else {
                replies(v, Seq::empty(), Err(ErrorView::DeviceNotFound(name)))
            },
            Err(text) => replies(v, Seq::empty(), Err(ErrorView::Device(text))),
        },
        (PendingView::OpenPort, EventView::Opened(r)) => match r {
            Ok(_) => resumes(DaemonView { agent: true, ..v }, Seq::empty()),
            Err(text) => replies(v, Seq::empty(), Err(ErrorView::Device(text))),
        },
        (PendingView::StartPipe, EventView::Started(r)) => match r {
            Ok(_) => replies(DaemonView { pipe: true, ..v }, Seq::empty(), Ok(ReplyView::Done)),
            Err(failure) => replies(
                DaemonView { playing: false, pipe: false, ..v },
                seq![ActionView::ClosePipe, ActionView::ReportFailure(failure.account)],
                Err(ErrorView::Device(failure.text)),
            ),
        },
        _ => (v, StepView { actions: Seq::empty(), next: NextView::Finish }),
    }
}

/// A command keeps the invariant.
pub proof fn lemma_command_keeps_consistency(v: DaemonView, c: CommandView)
    requires
        consistent(v),
        v.pending is Idle,
    ensures
        consistent(command_step(v, c).0),
{
}

/// The outcome of a query keeps the invariant.
pub proof fn lemma_event_keeps_consistency(v: DaemonView, e: EventView)
    requires
        consistent(v),
        expects(v, e),
    ensures
        consistent(event_step(v, e).0),
{
}

// -- The daemon

/// The state behind the command loop.
pub struct Daemon {
    input_device: String,
    output_device: Option<String>,
    play_audio: bool,
    pipe: bool,
    agent: bool,
    dmx_port: Option<String>,
    gradients: Gradients,
    pending: Pending,
}

impl View for Daemon {
    type V = DaemonView;

    closed spec fn view(&self) -> DaemonView {
        DaemonView {
            input_device: self.input_device@,
            output_device: crate::text::text_view(self.output_device),
            playing: self.play_audio,
            pipe: self.pipe,
            agent: self.agent,
            dmx_port: crate::text::text_view(self.dmx_port),
            gradients: self.gradients@,
            pending: self.pending.model(),
        }
    }
}

fn reply(actions: Vec<Action>, answer: Result<Reply, Error>) -> (r: Step)
    ensures
        r.actions == actions,
        r.next == Next::Reply(answer),
{
    Step { actions, next: Next::Reply(answer) }
}

fn nothing() -> (r: Vec<Action>)
    ensures
        super::protocol::actions_view(r@) == Seq::<ActionView>::empty(),
{
    let actions: Vec<Action> = Vec::new();
    assert(super::protocol::actions_view(actions@) =~= Seq::<ActionView>::empty());
    actions
}

fn also(actions: &mut Vec<Action>, action: Action)
    ensures
        super::protocol::actions_view(final(actions)@) == super::protocol::actions_view(
            old(actions)@,
        ).push(action@),
{
    let ghost before = actions@;
    actions.push(action);
    assert(super::protocol::actions_view(actions@) =~= super::protocol::actions_view(before).push(
        action@,
    ));
}

fn just(action: Action) -> (r: Vec<Action>)
    ensures
        super::protocol::actions_view(r@) == seq![action@],
{
    let mut actions = nothing();
    also(&mut actions, action);
    assert(super::protocol::actions_view(actions@) =~= seq![action@]);
    actions
}

fn devices(r: Result<Vec<String>, String>, current: Option<&str>, output: bool) -> (res: (
    Result<Reply, Error>,
    bool,
))
    ensures
        Next::Reply(res.0)@ == NextView::Reply(
            devices_reply(super::protocol::names_result(r), audio::str_view(current)),
        ),
        res.1 == output_lost(super::protocol::names_result(r), audio::str_view(current)),
{
    match r {
        Ok(names) => {
            let info = if output {
                output_device_info(&names, current)
            } else {
                input_device_info(&names, current)
            };
            let lost = current.is_some() && !has_selected(&info);
            (Ok(Reply::AudioDevices(info)), lost)
        },
        Err(text) => (Err(Error::Device(text)), current.is_some()),
    }
}

fn optional_str(t: &Option<String>) -> (r: Option<&str>)
    ensures
        audio::str_view(r) == crate::text::text_view(*t),
{
    match t {
        Some(s) => Some(s.as_str()),
        None => None,
    }
}

impl Daemon {
    /// Whether the gradients are well formed and the invariant holds.
    pub closed spec fn wf(&self) -> bool {
        self.gradients.wf() && consistent(self@)
    }

    /// The invariant holds of a well-formed daemon.
    pub proof fn lemma_wf(&self)
        requires
            self.wf(),
        ensures
            consistent(self@),
    {
    }

    /// A daemon that listens to and plays to the given devices, paused, with
    /// no lights and no gradients.
    pub fn new(input_device: String, output_device: String) -> (r: Daemon)
        ensures
            r.wf(),
            r@ == fresh(input_device@, output_device@),
    {
        Daemon {
            input_device,
            output_device: Some(output_device),
            play_audio: false,
            pipe: false,
            agent: false,
            dmx_port: None,
            gradients: Gradients::default(),
            pending: Pending::Idle,
        }
    }

    /// Starts the audio if it is meant to play, and answers otherwise.
    fn play_audio(&mut self, actions: Vec<Action>) -> (r: Step)
        requires
            old(self).gradients.wf(),
        ensures
            final(self).gradients.wf(),
            (final(self)@, r@) == resumes(old(self)@, super::protocol::actions_view(actions@)),
    {
        if self.play_audio {
            let gradient = match self.gradients.get_current() {
                Some(gradient) => gradient,
                None => Gradient::new(),
            };
            self.pending = Pending::StartPipe;
            Step { actions, next: Next::Ask(Query::Start(gradient)) }
        } else {
            self.pending = Pending::Idle;
            reply(actions, Ok(Reply::Done))
        }
    }

    /// Lets go of the pipe and the lights.
    fn cleanup_audio(&mut self, actions: &mut Vec<Action>)
        requires
            old(self).gradients.wf(),
        ensures
            final(self).gradients.wf(),
            final(self)@ == cleaned(old(self)@),
            super::protocol::actions_view(final(actions)@) == super::protocol::actions_view(
                old(actions)@,
            ) + cleanup(old(self)@),
    {
        self.play_audio = false;
        if self.pipe {
            self.pipe = false;
            also(actions, Action::ClosePipe);
        }
        if self.agent {
            self.agent = false;
            also(actions, Action::StopAgent);
        }
        assert(super::protocol::actions_view(actions@) =~= super::protocol::actions_view(
            old(actions)@,
        ) + cleanup(old(self)@));
    }

    fn ask(&mut self, query: Query, pending: Pending) -> (r: Step)
        requires
            old(self).gradients.wf(),
        ensures
            final(self).gradients.wf(),
            (final(self)@, r@) == asks(old(self)@, Seq::empty(), query@, pending.model()),
    {
        self.pending = pending;
        Step { actions: nothing(), next: Next::Ask(query) }
    }

    /// Takes a command.
    pub fn on_command(&mut self, command: Command) -> (r: Step)
        requires
            old(self).wf(),
            old(self)@.pending is Idle,
        ensures
            final(self).wf(),
            (final(self)@, r@) == command_step(old(self)@, command@),
    {
        proof {
            lemma_command_keeps_consistency(self@, command@);
        }
        match command {
            Command::ListAudioInputs => self.ask(Query::Inputs, Pending::ListInputs),
            Command::ListAudioOutputs => self.ask(Query::Outputs, Pending::ListOutputs),
            Command::SetAudioInput { device_name } => self.ask(
                Query::Inputs,
                Pending::ChooseInput(device_name),
            ),
            Command::SetAudioOutput { device_name } => {
                match device_name {
                    Some(name) => self.ask(Query::Outputs, Pending::ChooseOutput(name)),
                    None => {
                        self.output_device = None;
                        self.play_audio(just(Action::NoOutput))
                    },
                }
            },
            Command::GetAudioStatus => {
                let status = if self.play_audio {
                    PlaybackStatus::Playing
                } else {
                    PlaybackStatus::Paused
                };
                reply(nothing(), Ok(Reply::Status(status)))
            },
            Command::ToggleAudioStatus => {
                let mut actions = nothing();
                if self.play_audio {
                    self.play_audio = false;
                    if self.pipe {
                        self.pipe = false;
                        also(&mut actions, Action::ClosePipe);
                    }
                    // The connection to the lights outlasts the pause.
                    if self.agent {
                        also(&mut actions, Action::Blackout);
                    }
                    assert(super::protocol::actions_view(actions@) =~= only_if(old(self)@.pipe, ActionView::ClosePipe) + only_if(
                        old(self)@.agent,
                        ActionView::Blackout,
                    ));
                    reply(actions, Ok(Reply::Done))
                } else {
                    self.play_audio = true;
                    self.play_audio(actions)
                }
            },
            Command::ListGradients => reply(
                nothing(),
                Ok(Reply::Gradients(self.gradients.info())),
            ),
            Command::SetCurrentGradient { name } => {
                match self.gradients.set_current(name.as_str()) {
                    Ok(_) => reply(nothing(), Ok(Reply::Done)),
                    Err(e) => reply(nothing(), Err(e)),
                }
            },
            Command::GetGradient { name } => {
                match self.gradients.get(name.as_str()) {
                    Ok(gradient) => reply(nothing(), Ok(Reply::Gradient(gradient))),
                    Err(e) => reply(nothing(), Err(e)),
                }
            },
            Command::AddGradient { name, gradient, overwrite } => {
                match self.gradients.add(name.as_str(), gradient, overwrite) {
                    Ok(_) => reply(nothing(), Ok(Reply::Done)),
                    Err(e) => reply(nothing(), Err(e)),
                }
            },
            Command::DeleteGradient { name } => {
                match self.gradients.delete(name.as_str()) {
                    Ok(_) => reply(nothing(), Ok(Reply::Done)),
                    Err(e) => reply(nothing(), Err(e)),
                }
            },
            Command::ListDMXOutputs => self.ask(Query::Ports, Pending::ListPorts),
            Command::SetDMXOutput { device_name } => {
                let mut actions = nothing();
                self.cleanup_audio(&mut actions);
                assert(super::protocol::actions_view(actions@) =~= cleanup(old(self)@));
                match device_name {
                    Some(port) => {
                        self.dmx_port = Some(port.clone());
                        self.pending = Pending::OpenPort;
                        Step { actions, next: Next::Ask(Query::Open(port)) }
                    },
                    None => {
                        self.dmx_port = None;
                        self.play_audio(actions)
                    },
                }
            },
            Command::Shutdown => {
                let mut actions = just(Action::CloseCommands);
                self.cleanup_audio(&mut actions);
                self.pending = Pending::Stopped;
                Step { actions, next: Next::Finish }
            },
        }
    }
}

proof fn lemma_first_index(names: Seq<Seq<char>>, name: Seq<char>, i: usize)
    requires
        audio::first_named(names, name, i as int),
    ensures
        names.contains(name),
        first_index(names, name) == i,
{
    assert(names[i as int] == name);
    let k = first_index(names, name);
    assert(audio::first_named(names, name, k as int));
    assert(!(k < i) && !(i < k));
}

impl Daemon {
    /// Whether an event answers what the daemon waits for.
    pub fn awaits(&self, event: &Event) -> (r: bool)
        ensures
            r == expects(self@, event@),
    {
        match (&self.pending, event) {
            (Pending::ListInputs, Event::Inputs(_)) => true,
            (Pending::ChooseInput(_), Event::Inputs(_)) => true,
            (Pending::ListOutputs, Event::Outputs(_)) => true,
            (Pending::ChooseOutput(_), Event::Outputs(_)) => true,
            (Pending::ListPorts, Event::Ports(_)) => true,
            (Pending::OpenPort, Event::Opened(_)) => true,
            (Pending::StartPipe, Event::Started(_)) => true,
            _ => false,
        }
    }

    /// Whether the daemon is ready for a command.
    pub fn is_idle(&self) -> (r: bool)
        ensures
            r == (self@.pending is Idle),
    {
        match self.pending {
            Pending::Idle => true,
            _ => false,
        }
    }

    fn on_inputs(&mut self, r: Result<Vec<String>, String>, chosen: Option<String>) -> (res: Step)
        requires
            old(self).gradients.wf(),
            old(self)@.pending == (match chosen {
                Some(name) => PendingView::ChooseInput(name@),
                None => PendingView::ListInputs,
            }),
        ensures
            final(self).gradients.wf(),
            (final(self)@, res@) == event_step(old(self)@, Event::Inputs(r)@),
    {
        self.pending = Pending::Idle;
        match chosen {
            None => {
                let current = Some(self.input_device.as_str());
                let (answer, _) = devices(r, current, false);
                reply(nothing(), answer)
            },
            Some(name) => {
                match r {
                    Err(text) => reply(nothing(), Err(Error::Device(text))),
                    Ok(names) => {
                        match find_device(&names, name.as_str()) {
                            None => reply(nothing(), Err(Error::DeviceNotFound(name))),
                            Some(i) => {
                                proof {
                                    lemma_first_index(audio::names_view(names@), name@, i);
                                }
                                self.input_device = name;
                                self.play_audio(just(Action::UseInput(i)))
                            },
                        }
                    },
                }
            },
        }
    }

    fn on_outputs(&mut self, r: Result<Vec<String>, String>, chosen: Option<String>) -> (res: Step)
        requires
            old(self).gradients.wf(),
            old(self)@.pending == (match chosen {
                Some(name) => PendingView::ChooseOutput(name@),
                None => PendingView::ListOutputs,
            }),
        ensures
            final(self).gradients.wf(),
            (final(self)@, res@) == event_step(old(self)@, Event::Outputs(r)@),
    {
        self.pending = Pending::Idle;
        match chosen {
            None => {
                let (answer, lost) = devices(r, optional_str(&self.output_device), true);
                let mut actions = nothing();
                // A device may be switched or replaced, as when headphones
                // take the place of the speakers. Then none is selected.
                if lost {
                    self.output_device = None;
                    actions = just(Action::NoOutput);
                    self.cleanup_audio(&mut actions);
                }
                reply(actions, answer)
            },
            Some(name) => {
                match r {
                    Err(text) => reply(nothing(), Err(Error::Device(text))),
                    Ok(names) => {
                        match find_device(&names, name.as_str()) {
                            None => reply(nothing(), Err(Error::DeviceNotFound(name))),
                            Some(i) => {
                                proof {
                                    lemma_first_index(audio::names_view(names@), name@, i);
                                }
                                self.output_device = Some(name);
                                self.play_audio(just(Action::UseOutput(i)))
                            },
                        }
                    },
                }
            },
        }
    }

    fn on_ports(&mut self, r: Result<Vec<Port>, String>) -> (res: Step)
        requires
            old(self).gradients.wf(),
            old(self)@.pending is ListPorts,
        ensures
            final(self).gradients.wf(),
            (final(self)@, res@) == event_step(old(self)@, Event::Ports(r)@),
    {
        self.pending = Pending::Idle;
        match r {
            Ok(ports) => reply(
                nothing(),
                Ok(Reply::DMXDevices(available_ports(&ports, optional_str(&self.dmx_port)))),
            ),
            Err(text) => reply(nothing(), Err(Error::Device(text))),
        }
    }

    fn on_opened(&mut self, r: Result<(), String>) -> (res: Step)
        requires
            old(self).gradients.wf(),
            old(self)@.pending is OpenPort,
        ensures
            final(self).gradients.wf(),
            (final(self)@, res@) == event_step(old(self)@, Event::Opened(r)@),
    {
        self.pending = Pending::Idle;
        match r {
            Ok(_) => {
                self.agent = true;
                self.play_audio(nothing())
            },
            Err(text) => reply(nothing(), Err(Error::Device(text))),
        }
    }

    fn on_started(&mut self, r: Result<(), Failure>) -> (res: Step)
        requires
            old(self).gradients.wf(),
            old(self)@.pending is StartPipe,
        ensures
            final(self).gradients.wf(),
            (final(self)@, res@) == event_step(old(self)@, Event::Started(r)@),
    {
        self.pending = Pending::Idle;
        match r {
            Ok(_) => {
                self.pipe = true;
                reply(nothing(), Ok(Reply::Done))
            },
            Err(failure) => {
                // The user is told that playback failed, and it waits, paused,
                // to be started again.
                self.play_audio = false;
                self.pipe = false;
                let ghost account = failure.account@;
                let mut actions = just(Action::ClosePipe);
                also(&mut actions, Action::ReportFailure(failure.account));
                assert(super::protocol::actions_view(actions@) =~= seq![
                    ActionView::ClosePipe,
                    ActionView::ReportFailure(account),
                ]);
                reply(actions, Err(Error::Device(failure.text)))
            },
        }
    }

    /// Takes the outcome of what the daemon asked for.
    pub fn on_event(&mut self, event: Event) -> (r: Step)
        requires
            old(self).wf(),
            expects(old(self)@, event@),
        ensures
            final(self).wf(),
            (final(self)@, r@) == event_step(old(self)@, event@),
    {
        proof {
            lemma_event_keeps_consistency(self@, event@);
        }
        let chosen = match &self.pending {
            Pending::ChooseInput(name) => Some(name.clone()),
            Pending::ChooseOutput(name) => Some(name.clone()),
            _ => None,
        };
        match event {
            Event::Inputs(r) => self.on_inputs(r, chosen),
            Event::Outputs(r) => self.on_outputs(r, chosen),
            Event::Ports(r) => self.on_ports(r),
            Event::Opened(r) => self.on_opened(r),
            Event::Started(r) => self.on_started(r),
        }
    }
}

// -- Laws

/// Every command is answered once: a step that asks leaves the daemon waiting,
/// a step that answers leaves it idle, and after the outcome of a query at
/// most the start of the audio is still waited for, so that two queries are
/// the most that a command takes.
pub proof fn lemma_commands_are_answered(v: DaemonView, c: CommandView, e: EventView)
    requires
        consistent(v),
    ensures
        v.pending is Idle ==> {
            let (w, s) = command_step(v, c);
            &&& s.next is Ask <==> !(w.pending is Idle) && !(w.pending is Stopped)
            &&& s.next is Reply <==> w.pending is Idle
            &&& s.next is Finish <==> c is Shutdown
        },
        expects(v, e) ==> {
            let (w, s) = event_step(v, e);
            &&& s.next is Ask <==> w.pending is StartPipe
            &&& s.next is Reply <==> w.pending is Idle
            &&& s.next is Ask ==> v.pending is ChooseInput || v.pending is ChooseOutput
        },
{
}

/// Nothing is let go of silently: a pipe that is gone after a step was closed
/// by it, and so was a connection to the lights. A step makes a pipe only by
/// starting the audio and a connection only by opening a port.
pub proof fn lemma_resources_are_released(v: DaemonView, c: CommandView, e: EventView)
    requires
        consistent(v),
    ensures
        v.pending is Idle ==> {
            let (w, s) = command_step(v, c);
            &&& v.pipe && !w.pipe <==> s.actions.contains(ActionView::ClosePipe)
            &&& v.agent && !w.agent <==> s.actions.contains(ActionView::StopAgent)
            &&& w.pipe ==> v.pipe
            &&& w.agent ==> v.agent
        },
        expects(v, e) ==> {
            let (w, s) = event_step(v, e);
            &&& v.pipe && !w.pipe ==> s.actions.contains(ActionView::ClosePipe)
            &&& v.agent && !w.agent ==> s.actions.contains(ActionView::StopAgent)
            &&& w.pipe && !v.pipe ==> e is Started && e->Started_0 is Ok
            &&& w.agent && !v.agent ==> e is Opened && e->Opened_0 is Ok
        },
{
    lemma_cleanup_releases(v);
    if v.pending is Idle {
        let (w, s) = command_step(v, c);
        match c {
            CommandView::ToggleAudioStatus => {
                if v.playing {
                    assert(s.actions[0] == ActionView::ClosePipe);
                }
            },
            CommandView::Shutdown => {
                lemma_contains_behind(ActionView::CloseCommands, cleanup(v), ActionView::ClosePipe);
                lemma_contains_behind(ActionView::CloseCommands, cleanup(v), ActionView::StopAgent);
            },
            _ => {},
        }
    }
    if expects(v, e) {
        let (w, s) = event_step(v, e);
        lemma_contains_behind(ActionView::NoOutput, cleanup(v), ActionView::ClosePipe);
        lemma_contains_behind(ActionView::NoOutput, cleanup(v), ActionView::StopAgent);
        if e is Started {
            assert(s.actions.len() > 0 ==> s.actions[0] == ActionView::ClosePipe);
        }
    }
}

proof fn lemma_cleanup_releases(v: DaemonView)
    ensures
        cleanup(v).contains(ActionView::ClosePipe) <==> v.pipe,
        cleanup(v).contains(ActionView::StopAgent) <==> v.agent,
{
    if v.pipe {
        assert(cleanup(v)[0] == ActionView::ClosePipe);
    }
    if v.agent {
        assert(cleanup(v).last() == ActionView::StopAgent);
    }
}

proof fn lemma_contains_behind(first: ActionView, rest: Seq<ActionView>, action: ActionView)
    requires
        first != action,
    ensures
        (seq![first] + rest).contains(action) <==> rest.contains(action),
{
    let all = seq![first] + rest;
    if all.contains(action) {
        let i = choose|i: int| 0 <= i < all.len() && all[i] == action;
        assert(rest[i - 1] == action);
    }
    if rest.contains(action) {
        let i = choose|i: int| 0 <= i < rest.len() && rest[i] == action;
        assert(all[i + 1] == action);
    }
}

/// Whether a step refuses its command.
pub open spec fn refuses(s: StepView) -> bool {
    s.next is Reply && s.next->Reply_0 is Err
}

/// A request that is refused changes nothing: to use, to read or to add a
/// gradient, or to use a device.
pub proof fn lemma_refusals_change_nothing(v: DaemonView, c: CommandView, e: EventView)
    requires
        consistent(v),
        v.pending is Idle,
    ensures
        refuses(command_step(v, c).1) ==> command_step(v, c).0 == v && command_step(
            v,
            c,
        ).1.actions.len() == 0,
        c is SetAudioInput || c is SetAudioOutput ==> {
            let w = command_step(v, c).0;
            expects(w, e) && !(w.pending is StartPipe) && refuses(event_step(w, e).1)
                ==> event_step(w, e).0 == v && event_step(w, e).1.actions.len() == 0
        },
{
    let w = command_step(v, c).0;
    assert(refuses(command_step(v, c).1) ==> command_step(v, c).0 =~= v);
    if (c is SetAudioInput || c is SetAudioOutput) && expects(w, e) && !(w.pending is StartPipe) {
        assert(refuses(event_step(w, e).1) ==> event_step(w, e).0 =~= v);
    }
}

/// Audio that fails to start leaves the daemon paused and without a pipe, the
/// full account of the failure is reported, and the command is answered with
/// the failure.
pub proof fn lemma_failed_start_pauses(v: DaemonView, failure: FailureView)
    requires
        v.pending is StartPipe,
    ensures
        ({
            let (w, s) = event_step(v, EventView::Started(Err(failure)));
            &&& !w.playing && !w.pipe && w.pending is Idle
            &&& s.actions == seq![
                ActionView::ClosePipe,
                ActionView::ReportFailure(failure.account),
            ]
            &&& s.next == NextView::Reply(Err(ErrorView::Device(failure.text)))
            &&& w == (DaemonView { playing: false, pipe: false, pending: PendingView::Idle, ..v })
        }),
{
}

/// A failure is reported by the step that learns of it, once and with its full
/// account, and by no other step.
pub proof fn lemma_failed_starts_are_reported(v: DaemonView, c: CommandView, e: EventView)
    requires
        consistent(v),
    ensures
        v.pending is Idle ==> reports(command_step(v, c).1).len() == 0,
        expects(v, e) ==> reports(event_step(v, e).1) == (match e {
            EventView::Started(Err(failure)) => seq![ActionView::ReportFailure(failure.account)],
            _ => Seq::empty(),
        }),
{
    reveal(Seq::filter);
    let is_report = |a: ActionView| a is ReportFailure;
    if v.pending is Idle {
        lemma_no_reports(command_step(v, c).1);
    }
    if expects(v, e) {
        let s = event_step(v, e).1;
        if e is Started && e->Started_0 is Err {
            assert(s.actions.drop_last() =~= seq![ActionView::ClosePipe]);
            assert(s.actions.drop_last().drop_last() =~= Seq::<ActionView>::empty());
            assert(s.actions.drop_last().drop_last().filter(is_report) =~= Seq::empty());
            assert(s.actions.drop_last().filter(is_report) =~= Seq::empty());
            assert(reports(s) =~= seq![s.actions.last()]);
        } else {
            lemma_no_reports(s);
            assert(reports(s) =~= Seq::<ActionView>::empty());
        }
    }
}

/// The reports among the actions of a step.
pub open spec fn reports(s: StepView) -> Seq<ActionView> {
    s.actions.filter(|a: ActionView| a is ReportFailure)
}

proof fn lemma_no_reports(s: StepView)
    requires
        forall|i: int| 0 <= i < s.actions.len() ==> !((#[trigger] s.actions[i]) is ReportFailure),
    ensures
        reports(s).len() == 0,
{
    let is_report = |a: ActionView| a is ReportFailure;
    if reports(s).len() > 0 {
        let first = reports(s)[0];
        s.actions.lemma_filter_pred(is_report, 0);
        assert(reports(s).contains(first));
        s.actions.lemma_filter_contains_rev(is_report, first);
        let i = choose|i: int| 0 <= i < s.actions.len() && s.actions[i] == first;
        assert(s.actions[i] is ReportFailure);
    }
}

/// Starting from pause: the audio is asked to start with the gradient in use,
/// and the command succeeds exactly if it did start. The status told from then
/// on is playing if it succeeded, and paused if not.
pub proof fn lemma_starting_from_pause(v: DaemonView, started: Result<(), FailureView>)
    requires
        consistent(v),
        v.pending is Idle,
        !v.playing,
    ensures
        ({
            let (w, s) = command_step(v, CommandView::ToggleAudioStatus);
            let (x, t) = event_step(w, EventView::Started(started));
            let (y, u) = command_step(x, CommandView::GetAudioStatus);
            &&& s.next == NextView::Ask(QueryView::Start(playing_gradient(v)))
            &&& expects(w, EventView::Started(started))
            &&& t.next == NextView::Reply(
                match started {
                    Ok(_) => Ok(ReplyView::Done),
                    Err(failure) => Err(ErrorView::Device(failure.text)),
                },
            )
            &&& u.next == NextView::Reply(
                Ok(
                    ReplyView::Status(
                        if started is Ok {
                            PlaybackStatus::Playing
                        } else {
                            PlaybackStatus::Paused
                        },
                    ),
                ),
            )
            &&& y.pipe == (started is Ok)
        }),
{
}

/// The status that is told is the one that holds: playing exactly while there
/// is a pipe.
pub proof fn lemma_status_is_told(v: DaemonView)
    requires
        consistent(v),
        v.pending is Idle,
    ensures
        command_step(v, CommandView::GetAudioStatus).0 == v,
        command_step(v, CommandView::GetAudioStatus).1.next == NextView::Reply(
            Ok(
                ReplyView::Status(
                    if v.pipe {
                        PlaybackStatus::Playing
                    } else {
                        PlaybackStatus::Paused
                    },
                ),
            ),
        ),
{
    assert(command_step(v, CommandView::GetAudioStatus).0 =~= v);
}

/// Toggling twice is no change: a paused daemon whose audio starts is paused
/// by the second toggle, with nothing else altered.
pub proof fn lemma_toggle_twice(v: DaemonView)
    requires
        consistent(v),
        v.pending is Idle,
        !v.playing,
    ensures
        ({
            let (asked, start) = command_step(v, CommandView::ToggleAudioStatus);
            let (on, _) = event_step(asked, EventView::Started(Ok(())));
            let (off, stop) = command_step(on, CommandView::ToggleAudioStatus);
            &&& start.next == NextView::Ask(QueryView::Start(playing_gradient(v)))
            &&& on == (DaemonView { playing: true, pipe: true, ..v })
            &&& stop.actions.contains(ActionView::ClosePipe)
            &&& off == v
        }),
{
    let (asked, _) = command_step(v, CommandView::ToggleAudioStatus);
    let (on, _) = event_step(asked, EventView::Started(Ok(())));
    assert(on =~= (DaemonView { playing: true, pipe: true, ..v }));
    let (off, stop) = command_step(on, CommandView::ToggleAudioStatus);
    assert(stop.actions[0] == ActionView::ClosePipe);
    assert(off =~= v);
}

/// Pausing keeps the connection to the lights and turns them off.
pub proof fn lemma_pausing_keeps_lights(v: DaemonView)
    requires
        consistent(v),
        v.pending is Idle,
        v.playing,
    ensures
        ({
            let (w, s) = command_step(v, CommandView::ToggleAudioStatus);
            &&& w.agent == v.agent && w.dmx_port == v.dmx_port
            &&& s.actions.contains(ActionView::Blackout) <==> v.agent
            &&& !s.actions.contains(ActionView::StopAgent)
        }),
{
    let s = command_step(v, CommandView::ToggleAudioStatus).1;
    if v.agent {
        assert(s.actions.last() == ActionView::Blackout);
    }
}

/// Choosing a port for the lights pauses the audio, whatever the outcome:
/// the old connection is closed, and the audio is not started again.
pub proof fn lemma_choosing_port_pauses(
    v: DaemonView,
    port: Option<Seq<char>>,
    opened: Result<(), Seq<char>>,
)
    requires
        consistent(v),
        v.pending is Idle,
    ensures
        ({
            let (w, s) = command_step(v, CommandView::SetDMXOutput { device_name: port });
            &&& !w.playing && !w.pipe && !w.agent && w.dmx_port == port
            &&& port is None ==> w.pending is Idle && s.next == NextView::Reply(
                Ok(ReplyView::Done),
            )
            &&& port is Some ==> {
                let (x, t) = event_step(w, EventView::Opened(opened));
                &&& s.next == NextView::Ask(QueryView::Open(port->0))
                &&& x.pending is Idle && !x.playing && !x.pipe && x.dmx_port == port
                &&& x.agent == opened is Ok
                &&& t.next == (match opened {
                    Ok(_) => NextView::Reply(Ok(ReplyView::Done)),
                    Err(text) => NextView::Reply(Err(ErrorView::Device(text))),
                })
            }
        }),
{
}

/// An output that is gone when the outputs are listed is let go of: the audio
/// pauses, the lights are closed, and the list says that none is selected. An
/// output that is still there stays in use.
pub proof fn lemma_lost_output_is_released(v: DaemonView, names: Seq<Seq<char>>)
    requires
        consistent(v),
        v.pending is ListOutputs,
        v.output_device is Some,
    ensures
        ({
            let (w, s) = event_step(v, EventView::Outputs(Ok(names)));
            if names.contains(v.output_device->0) {
                w == (DaemonView { pending: PendingView::Idle, ..v }) && s.actions.len() == 0
            } else {
                &&& w.output_device is None && !w.playing && !w.pipe && !w.agent
                &&& s.next matches NextView::Reply(Ok(ReplyView::AudioDevices(list)))
                    && !audio::any_selected(list)
            }
        }),
{
    let list = audio::device_listing(names, v.output_device);
    if names.contains(v.output_device->0) {
        let i = choose|i: int| 0 <= i < names.len() && names[i] == v.output_device->0;
        assert(list[i].1);
    } else if audio::any_selected(list) {
        let i = choose|i: int| 0 <= i < list.len() && (#[trigger] list[i]).1;
        assert(names[i] == v.output_device->0);
    }
}

/// Shutting down lets go of everything and takes no more commands.
pub proof fn lemma_shutdown_releases_all(v: DaemonView)
    requires
        consistent(v),
        v.pending is Idle,
    ensures
        ({
            let (w, s) = command_step(v, CommandView::Shutdown);
            &&& w.pending is Stopped && !w.playing && !w.pipe && !w.agent
            &&& s.next is Finish
            &&& s.actions[0] == ActionView::CloseCommands
            &&& s.actions.contains(ActionView::ClosePipe) <==> v.pipe
            &&& s.actions.contains(ActionView::StopAgent) <==> v.agent
            &&& forall|e: EventView| !expects(w, e)
        }),
{
    lemma_cleanup_releases(v);
    lemma_contains_behind(ActionView::CloseCommands, cleanup(v), ActionView::ClosePipe);
    lemma_contains_behind(ActionView::CloseCommands, cleanup(v), ActionView::StopAgent);
}

/// A device that is chosen is the one in use, by name and by its place in the
/// list, and the audio starts anew on it exactly if it was playing.
pub proof fn lemma_chosen_device_is_used(v: DaemonView, names: Seq<Seq<char>>, i: usize)
    requires
        consistent(v),
        v.pending is Idle,
        i < names.len(),
        audio::first_named(names, names[i as int], i as int),
    ensures
        ({
            let name = names[i as int];
            let w = command_step(v, CommandView::SetAudioInput { device_name: name }).0;
            let (x, s) = event_step(w, EventView::Inputs(Ok(names)));
            &&& x.input_device == name && x.output_device == v.output_device
            &&& s.actions == seq![ActionView::UseInput(i)]
            &&& s.next is Ask <==> v.playing
        }),
        ({
            let name = names[i as int];
            let w = command_step(v, CommandView::SetAudioOutput { device_name: Some(name) }).0;
            let (x, s) = event_step(w, EventView::Outputs(Ok(names)));
            &&& x.output_device == Some(name) && x.input_device == v.input_device
            &&& s.actions == seq![ActionView::UseOutput(i)]
            &&& s.next is Ask <==> v.playing
        }),
{
    lemma_first_index(names, names[i as int], i);
}

/// A gradient that was added is what the daemon gives back under its name,
/// and what it plays with.
pub proof fn lemma_added_gradient_is_given_back(
    v: DaemonView,
    name: Seq<char>,
    gradient: Seq<Stop>,
    overwrite: bool,
)
    requires
        consistent(v),
        v.pending is Idle,
        overwrite || !v.gradients.gradients.contains_key(name),
    ensures
        ({
            let w = command_step(v, CommandView::AddGradient { name, gradient, overwrite }).0;
            &&& command_step(w, CommandView::GetGradient { name }).1.next == NextView::Reply(
                Ok(ReplyView::Gradient(gradient)),
            )
            &&& playing_gradient(w) == gradient
        }),
{
}

/// Whether a reply is of the kind that a command asks for.
pub open spec fn fits(c: CommandView, reply: ReplyView) -> bool {
    match c {
        CommandView::ListAudioInputs | CommandView::ListAudioOutputs => reply is AudioDevices,
        CommandView::ListDMXOutputs => reply is DMXDevices,
        CommandView::GetAudioStatus => reply is Status,
        CommandView::ListGradients => reply is Gradients,
        CommandView::GetGradient { .. } => reply is Gradient,
        _ => reply is Done,
    }
}

/// Whether a step that answers a command does so with a reply of its kind.
pub open spec fn answers_well(c: CommandView, s: StepView) -> bool {
    s.next is Reply && s.next->Reply_0 is Ok ==> fits(c, s.next->Reply_0->Ok_0)
}

/// A command is answered with a reply of its kind, or with an error, at
/// whatever step the answer comes.
pub proof fn lemma_answers_fit(v: DaemonView, c: CommandView, first: EventView, second: EventView)
    requires
        consistent(v),
        v.pending is Idle,
    ensures
        ({
            let (w, s) = command_step(v, c);
            let (x, t) = event_step(w, first);
            let (_, u) = event_step(x, second);
            &&& answers_well(c, s)
            &&& expects(w, first) ==> answers_well(c, t)
            &&& expects(w, first) && expects(x, second) ==> answers_well(c, u)
        }),
{
}

/// What a command on the gradients is answered: what looking up, choosing,
/// adding, deleting or listing them gives.
pub open spec fn gradients_answer(g: GradientsView, c: CommandView) -> Result<
    ReplyView,
    ErrorView,
> {
    match c {
        CommandView::ListGradients => Ok(ReplyView::Gradients(super::gradients::listing(g))),
        CommandView::GetGradient { name } => match super::gradients::lookup(g, name) {
            Some(stops) => Ok(ReplyView::Gradient(stops)),
            None => Err(ErrorView::GradientMissing),
        },
        CommandView::SetCurrentGradient { name } => if g.gradients.contains_key(name) {
            Ok(ReplyView::Done)
        } else {
            Err(ErrorView::GradientMissing)
        },
        CommandView::AddGradient { name, overwrite, .. } => if !overwrite
            && g.gradients.contains_key(name) {
            Err(ErrorView::GradientExists)
        } else {
            Ok(ReplyView::Done)
        },
        _ => Ok(ReplyView::Done),
    }
}

/// The gradients after a command on them that was not refused.
pub open spec fn gradients_after(g: GradientsView, c: CommandView) -> GradientsView {
    match c {
        CommandView::SetCurrentGradient { name } => super::gradients::chosen(g, name),
        CommandView::AddGradient { name, gradient, .. } => super::gradients::added(
            g,
            name,
            gradient,
        ),
        CommandView::DeleteGradient { name } => super::gradients::deleted(g, name),
        _ => g,
    }
}

/// A command on the gradients is answered at once, as the gradients answer it,
/// and changes nothing else: not the playback, the devices, the port for the
/// lights, nor the pipe with the gradient it was started with.
pub proof fn lemma_gradient_commands(v: DaemonView, c: CommandView)
    requires
        consistent(v),
        v.pending is Idle,
        c is ListGradients || c is GetGradient || c is SetCurrentGradient || c is AddGradient
            || c is DeleteGradient,
    ensures
        ({
            let (w, s) = command_step(v, c);
            let answer = gradients_answer(v.gradients, c);
            &&& s.next == NextView::Reply(answer)
            &&& s.actions.len() == 0
            &&& w == (DaemonView {
                gradients: if answer is Ok {
                    gradients_after(v.gradients, c)
                } else {
                    v.gradients
                },
                ..v
            })
        }),
{
    let w = command_step(v, c).0;
    assert(w =~= (DaemonView { gradients: w.gradients, ..v }));
}

/// The outcome of a query never touches the gradients, and a command does so
/// only if it chooses, adds or deletes one.
pub proof fn lemma_gradients_stay(v: DaemonView, c: CommandView, e: EventView)
    ensures
        event_step(v, e).0.gradients == v.gradients,
        !(c is SetCurrentGradient || c is AddGradient || c is DeleteGradient) ==> command_step(
            v,
            c,
        ).0.gradients == v.gradients,
{
}

} // verus!
