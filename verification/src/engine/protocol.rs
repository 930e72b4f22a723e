//! What passes between the daemon, those who command it and the devices.
use vstd::prelude::*;

use super::audio;
use super::dmx::{self, Port, PortKind};
use super::gradient::{Gradient, Stop};
use super::gradients::{GradientInfo, InfoView};
use crate::error::{Error, ErrorView};

verus! {

// -- Commands and answers

/// Whether audio is playing.
#[derive(Clone, Copy, Debug, PartialEq, Eq, Structural)]
pub enum PlaybackStatus {
    Playing,
    Paused,
}

/// What the daemon can be told to do.
#[allow(inconsistent_fields)]
#[derive(Debug)]
pub enum Command {
    ListAudioInputs,
    ListAudioOutputs,
    SetAudioInput { device_name: String },
    SetAudioOutput { device_name: Option<String> },
    GetAudioStatus,
    ToggleAudioStatus,
    ListGradients,
    SetCurrentGradient { name: String },
    GetGradient { name: String },
    AddGradient { name: String, gradient: Gradient, overwrite: bool },
    DeleteGradient { name: String },
    ListDMXOutputs,
    SetDMXOutput { device_name: Option<String> },
    Shutdown,
}

/// The model of a [`Command`].
#[allow(inconsistent_fields)]
#[verifier::ext_equal]
pub enum CommandView {
    ListAudioInputs,
    ListAudioOutputs,
    SetAudioInput { device_name: Seq<char> },
    SetAudioOutput { device_name: Option<Seq<char>> },
    GetAudioStatus,
    ToggleAudioStatus,
    ListGradients,
    SetCurrentGradient { name: Seq<char> },
    GetGradient { name: Seq<char> },
    AddGradient { name: Seq<char>, gradient: Seq<Stop>, overwrite: bool },
    DeleteGradient { name: Seq<char> },
    ListDMXOutputs,
    SetDMXOutput { device_name: Option<Seq<char>> },
    Shutdown,
}

impl View for Command {
    type V = CommandView;

    open spec fn view(&self) -> CommandView {
        match self {
            Command::ListAudioInputs => CommandView::ListAudioInputs,
            Command::ListAudioOutputs => CommandView::ListAudioOutputs,
            Command::SetAudioInput { device_name } => CommandView::SetAudioInput {
                device_name: device_name@,
            },
            Command::SetAudioOutput { device_name } => CommandView::SetAudioOutput {
                device_name: crate::text::text_view(*device_name),
            },
            Command::GetAudioStatus => CommandView::GetAudioStatus,
            Command::ToggleAudioStatus => CommandView::ToggleAudioStatus,
            Command::ListGradients => CommandView::ListGradients,
            Command::SetCurrentGradient { name } => CommandView::SetCurrentGradient {
                name: name@,
            },
            Command::GetGradient { name } => CommandView::GetGradient { name: name@ },
            Command::AddGradient { name, gradient, overwrite } => CommandView::AddGradient {
                name: name@,
                gradient: gradient@,
                overwrite: *overwrite,
            },
            Command::DeleteGradient { name } => CommandView::DeleteGradient { name: name@ },
            Command::ListDMXOutputs => CommandView::ListDMXOutputs,
            Command::SetDMXOutput { device_name } => CommandView::SetDMXOutput {
                device_name: crate::text::text_view(*device_name),
            },
            Command::Shutdown => CommandView::Shutdown,
        }
    }
}

/// What a command is answered.
#[derive(Debug)]
pub enum Reply {
    AudioDevices(Vec<audio::DeviceInfo>),
    DMXDevices(Vec<dmx::DeviceInfo>),
    Status(PlaybackStatus),
    Gradients(Vec<GradientInfo>),
    Gradient(Gradient),
    Done,
}

/// The model of a [`Reply`].
#[verifier::ext_equal]
pub enum ReplyView {
    AudioDevices(Seq<(Seq<char>, bool)>),
    DMXDevices(Seq<(Seq<char>, bool)>),
    Status(PlaybackStatus),
    Gradients(Seq<InfoView>),
    Gradient(Seq<Stop>),
    Done,
}

impl View for Reply {
    type V = ReplyView;

    open spec fn view(&self) -> ReplyView {
        match self {
            Reply::AudioDevices(devices) => ReplyView::AudioDevices(audio::devices_view(devices@)),
            Reply::DMXDevices(devices) => ReplyView::DMXDevices(dmx::devices_view(devices@)),
            Reply::Status(status) => ReplyView::Status(*status),
            Reply::Gradients(list) => ReplyView::Gradients(super::gradients::infos(list@)),
            Reply::Gradient(gradient) => ReplyView::Gradient(gradient@),
            Reply::Done => ReplyView::Done,
        }
    }
}

// -- What the daemon asks for

/// Something the daemon waits for.
#[derive(Debug)]
pub enum Query {
    /// List the names of the audio inputs.
    Inputs,
    /// List the names of the audio outputs.
    Outputs,
    /// List the serial ports.
    Ports,
    /// Open the DMX device on this port.
    Open(String),
    /// Start the audio with the chosen devices and this gradient, in place of
    /// what is playing.
    Start(Gradient),
}

/// The model of a [`Query`].
#[verifier::ext_equal]
pub enum QueryView {
    Inputs,
    Outputs,
    Ports,
    Open(Seq<char>),
    Start(Seq<Stop>),
}

impl View for Query {
    type V = QueryView;

    open spec fn view(&self) -> QueryView {
        match self {
            Query::Inputs => QueryView::Inputs,
            Query::Outputs => QueryView::Outputs,
            Query::Ports => QueryView::Ports,
            Query::Open(port) => QueryView::Open(port@),
            Query::Start(gradient) => QueryView::Start(gradient@),
        }
    }
}

/// How a query came out. A failure is told by its own account.
#[derive(Debug)]
pub enum Event {
    Inputs(Result<Vec<String>, String>),
    Outputs(Result<Vec<String>, String>),
    Ports(Result<Vec<Port>, String>),
    Opened(Result<(), String>),
    Started(Result<(), Failure>),
}

/// Why the audio did not start: in short, for the one who gave the command,
/// and in full, for the log.
#[derive(Debug)]
pub struct Failure {
    pub text: String,
    pub account: String,
}

/// The model of a [`Failure`].
#[verifier::ext_equal]
pub struct FailureView {
    pub text: Seq<char>,
    pub account: Seq<char>,
}

impl View for Failure {
    type V = FailureView;

    open spec fn view(&self) -> FailureView {
        FailureView { text: self.text@, account: self.account@ }
    }
}

/// The model of an [`Event`].
#[verifier::ext_equal]
pub enum EventView {
    Inputs(Result<Seq<Seq<char>>, Seq<char>>),
    Outputs(Result<Seq<Seq<char>>, Seq<char>>),
    Ports(Result<Seq<(Seq<char>, PortKind)>, Seq<char>>),
    Opened(Result<(), Seq<char>>),
    Started(Result<(), FailureView>),
}

/// The model of a list of names that may have failed.
pub open spec fn names_result(r: Result<Vec<String>, String>) -> Result<
    Seq<Seq<char>>,
    Seq<char>,
> {
    match r {
        Ok(names) => Ok(audio::names_view(names@)),
        Err(text) => Err(text@),
    }
}

/// The model of a list of ports that may have failed.
pub open spec fn ports_result(r: Result<Vec<Port>, String>) -> Result<
    Seq<(Seq<char>, PortKind)>,
    Seq<char>,
> {
    match r {
        Ok(ports) => Ok(dmx::ports_view(ports@)),
        Err(text) => Err(text@),
    }
}

/// The model of an attempt that may have failed.
pub open spec fn unit_result(r: Result<(), String>) -> Result<(), Seq<char>> {
    match r {
        Ok(_) => Ok(()),
        Err(text) => Err(text@),
    }
}

/// The model of an attempt to start the audio.
pub open spec fn start_result(r: Result<(), Failure>) -> Result<(), FailureView> {
    match r {
        Ok(_) => Ok(()),
        Err(failure) => Err(failure@),
    }
}

impl View for Event {
    type V = EventView;

    open spec fn view(&self) -> EventView {
        match self {
            Event::Inputs(r) => EventView::Inputs(names_result(*r)),
            Event::Outputs(r) => EventView::Outputs(names_result(*r)),
            Event::Ports(r) => EventView::Ports(ports_result(*r)),
            Event::Opened(r) => EventView::Opened(unit_result(*r)),
            Event::Started(r) => EventView::Started(start_result(*r)),
        }
    }
}

/// Something to do that cannot fail.
#[derive(Debug, PartialEq, Eq)]
pub enum Action {
    /// Listen to the input at this index of the last list.
    UseInput(usize),
    /// Play to the output at this index of the last list.
    UseOutput(usize),
    /// Play to no output.
    NoOutput,
    /// Stop the audio.
    ClosePipe,
    /// Let the user know, in the log of failures, why the audio did not start:
    /// with this account.
    ReportFailure(String),
    /// Turn the lights off.
    Blackout,
    /// Turn the lights off and close the connection to them.
    StopAgent,
    /// Take no more commands.
    CloseCommands,
}

/// The model of an [`Action`].
#[verifier::ext_equal]
pub enum ActionView {
    UseInput(usize),
    UseOutput(usize),
    NoOutput,
    ClosePipe,
    ReportFailure(Seq<char>),
    Blackout,
    StopAgent,
    CloseCommands,
}

impl View for Action {
    type V = ActionView;

    open spec fn view(&self) -> ActionView {
        match self {
            Action::UseInput(i) => ActionView::UseInput(*i),
            Action::UseOutput(i) => ActionView::UseOutput(*i),
            Action::NoOutput => ActionView::NoOutput,
            Action::ClosePipe => ActionView::ClosePipe,
            Action::ReportFailure(account) => ActionView::ReportFailure(account@),
            Action::Blackout => ActionView::Blackout,
            Action::StopAgent => ActionView::StopAgent,
            Action::CloseCommands => ActionView::CloseCommands,
        }
    }
}

/// The model of a list of actions.
pub open spec fn actions_view(actions: Seq<Action>) -> Seq<ActionView> {
    actions.map_values(|a: Action| a@)
}

/// How a step ends.
#[derive(Debug)]
pub enum Next {
    /// With a question, whose outcome is the next event.
    Ask(Query),
    /// With the answer to the command.
    Reply(Result<Reply, Error>),
    /// With the answer that all is done, and the end of the daemon.
    Finish,
}

/// The model of a [`Next`].
#[verifier::ext_equal]
pub enum NextView {
    Ask(QueryView),
    Reply(Result<ReplyView, ErrorView>),
    Finish,
}

impl View for Next {
    type V = NextView;

    open spec fn view(&self) -> NextView {
        match self {
            Next::Ask(query) => NextView::Ask(query@),
            Next::Reply(Ok(reply)) => NextView::Reply(Ok(reply@)),
            Next::Reply(Err(error)) => NextView::Reply(Err(error@)),
            Next::Finish => NextView::Finish,
        }
    }
}

/// A step of the daemon: what to do, in order, and how it goes on.
#[derive(Debug)]
pub struct Step {
    pub actions: Vec<Action>,
    pub next: Next,
}

/// The model of a [`Step`].
#[verifier::ext_equal]
pub struct StepView {
    pub actions: Seq<ActionView>,
    pub next: NextView,
}

impl View for Step {
    type V = StepView;

    open spec fn view(&self) -> StepView {
        StepView { actions: actions_view(self.actions@), next: self.next@ }
    }
}

} // verus!
