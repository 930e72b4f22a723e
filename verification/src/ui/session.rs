//! The conversation behind a request.
//!
//! A request is a short conversation with the engine: it sends a command,
//! learns the reply, may send another, and ends with a response. The pages
//! themselves are rendered elsewhere; a response holds what they show.
use vstd::prelude::*;

use super::routes::{
    edit_gradient, empty_string_as_none, is_editable, parse_hx_prompt, Edit, EditView, Request,
    RequestView,
};
use crate::engine::audio;
use crate::engine::colour::Colour;
use crate::engine::daemon::{
    ActionView, Command, CommandView, DaemonView, EventView, PlaybackStatus, Reply, ReplyView,
};
use crate::engine::dmx::{self, PortKind};
use crate::engine::gradient::{Gradient, Stop};
use crate::engine::gradients::{GradientInfo, InfoView};
use crate::error::{Error, ErrorView};
use crate::number::Single;
use crate::text::same_text;

verus! {

// -- Responses

/// What a page shows.
#[derive(Debug)]
pub enum Body {
    AudioInputs(Vec<audio::DeviceInfo>),
    AudioOutputs(Vec<audio::DeviceInfo>),
    AudioStatus(&'static str),
    AudioStatusToggle,
    DMXOutputs(Vec<dmx::DeviceInfo>),
    /// The gradients, and the one among them that is selected.
    Gradients(Vec<GradientInfo>, Option<GradientInfo>),
    GradientsEdited,
}

/// The model of a [`Body`].
#[verifier::ext_equal]
pub enum BodyView {
    AudioInputs(Seq<(Seq<char>, bool)>),
    AudioOutputs(Seq<(Seq<char>, bool)>),
    AudioStatus(Seq<char>),
    AudioStatusToggle,
    DMXOutputs(Seq<(Seq<char>, bool)>),
    Gradients(Seq<InfoView>, Option<InfoView>),
    GradientsEdited,
}

/// A response: a page, a message if something went wrong, and an event for the
/// page to act on. The causes of what went wrong are not shown; they are for
/// the log.
#[derive(Debug)]
pub struct Response {
    pub body: Body,
    pub err_message: Option<&'static str>,
    pub trigger: Option<&'static str>,
    pub causes: Vec<Error>,
}

/// The model of a [`Response`].
#[verifier::ext_equal]
pub struct ResponseView {
    pub body: BodyView,
    pub err_message: Option<Seq<char>>,
    pub trigger: Option<Seq<char>>,
    pub causes: Seq<ErrorView>,
}

/// The model of a list of errors.
pub open spec fn errors_view(errors: Seq<Error>) -> Seq<ErrorView> {
    errors.map_values(|e: Error| e@)
}

/// The model of an optional error.
pub open spec fn error_view(error: Option<Error>) -> Option<ErrorView> {
    match error {
        Some(e) => Some(e@),
        None => None,
    }
}

/// The model of an optional gradient of a list.
pub open spec fn info_view(info: Option<GradientInfo>) -> Option<InfoView> {
    match info {
        Some(i) => Some(i@),
        None => None,
    }
}

impl View for Body {
    type V = BodyView;

    open spec fn view(&self) -> BodyView {
        match self {
            Body::AudioInputs(devices) => BodyView::AudioInputs(audio::devices_view(devices@)),
            Body::AudioOutputs(devices) => BodyView::AudioOutputs(audio::devices_view(devices@)),
            Body::AudioStatus(status) => BodyView::AudioStatus(status@),
            Body::AudioStatusToggle => BodyView::AudioStatusToggle,
            Body::DMXOutputs(devices) => BodyView::DMXOutputs(dmx::devices_view(devices@)),
            Body::Gradients(list, selected) => BodyView::Gradients(
                crate::engine::gradients::infos(list@),
                info_view(*selected),
            ),
            Body::GradientsEdited => BodyView::GradientsEdited,
        }
    }
}

impl View for Response {
    type V = ResponseView;

    open spec fn view(&self) -> ResponseView {
        ResponseView {
            body: self.body@,
            err_message: audio::str_view(self.err_message),
            trigger: audio::str_view(self.trigger),
            causes: errors_view(self.causes@),
        }
    }
}

// -- Stages

/// The lists that a page can show.
#[derive(Clone, Copy, Debug, PartialEq, Eq, Structural)]
pub enum List {
    AudioInputs,
    AudioOutputs,
    DMXOutputs,
    Gradients,
}

/// The changes to gradients that a page can make.
#[derive(Clone, Copy, Debug, PartialEq, Eq, Structural)]
pub enum Change {
    AddGradient,
    DeleteGradient,
    AddColour,
    DeleteColour,
    EditColourValue,
    EditColourPosition,
}

#[derive(Debug)]
enum Stage {
    Switching(List),
    Listing(List, Option<Error>),
    AskingStatus,
    Toggling,
    Reading(String, Edit),
    Saving(Change),
}

/// Where a conversation stands: switching what a list selects; listing, with
/// the cause for which the switch before it failed, if it did; asking for the
/// status; toggling; reading the gradient to edit; or saving a change.
#[verifier::ext_equal]
pub enum StageView {
    Switching(List),
    Listing(List, Option<ErrorView>),
    AskingStatus,
    Toggling,
    Reading(Seq<char>, EditView),
    Saving(Change),
}

impl Stage {
    spec fn model(self) -> StageView {
        match self {
            Stage::Switching(list) => StageView::Switching(list),
            Stage::Listing(list, cause) => StageView::Listing(list, error_view(cause)),
            Stage::AskingStatus => StageView::AskingStatus,
            Stage::Toggling => StageView::Toggling,
            Stage::Reading(name, edit) => StageView::Reading(name@, edit@),
            Stage::Saving(change) => StageView::Saving(change),
        }
    }
}

// -- Messages

/// What is wrong with a list: the switch before it, the list itself, or both.
pub open spec fn list_message(list: List, switched: bool, listed: bool) -> Option<Seq<char>> {
    if switched && listed {
        None
    } else {
        Some(
            match (list, switched, listed) {
                (List::AudioInputs | List::AudioOutputs, false, true) =>
                    "Failed to switch input device."@,
                (List::AudioInputs | List::AudioOutputs, true, _) =>
                    "Switched device, but failed to reload the available input devices. Please refresh the page."@,
                (List::AudioInputs | List::AudioOutputs, false, false) =>
                    "Failed to switch device and reload the available input devices. Please refresh the page."@,
                (List::DMXOutputs, false, true) => "Failed to switch device."@,
                (List::DMXOutputs, true, _) =>
                    "Switched device, but failed to reload the available devices. Please refresh the page."@,
                (List::DMXOutputs, false, false) =>
                    "Failed to switch device and reload the available devices. Please refresh the page."@,
                (List::Gradients, false, true) => "Failed to switch gradient."@,
                (List::Gradients, true, _) =>
                    "Switched gradient, but failed to reload the available gradients. Please refresh the page."@,
                (List::Gradients, false, false) =>
                    "Failed to switch gradient and reload the available gradients. Please refresh the page."@,
            },
        )
    }
}

fn message_for_list(list: List, switched: bool, listed: bool) -> (r: Option<&'static str>)
    ensures
        audio::str_view(r) == list_message(list, switched, listed),
{
    if switched && listed {
        return None;
    }
    match list {
        List::AudioInputs | List::AudioOutputs => {
            if listed {
                Some("Failed to switch input device.")
            } else if switched {
                Some(
                    "Switched device, but failed to reload the available input devices. Please refresh the page.",
                )
            } else {
                Some(
                    "Failed to switch device and reload the available input devices. Please refresh the page.",
                )
            }
        },
        List::DMXOutputs => {
            if listed {
                Some("Failed to switch device.")
            } else if switched {
                Some(
                    "Switched device, but failed to reload the available devices. Please refresh the page.",
                )
            } else {
                Some(
                    "Failed to switch device and reload the available devices. Please refresh the page.",
                )
            }
        },
        List::Gradients => {
            if listed {
                Some("Failed to switch gradient.")
            } else if switched {
                Some(
                    "Switched gradient, but failed to reload the available gradients. Please refresh the page.",
                )
            } else {
                Some(
                    "Failed to switch gradient and reload the available gradients. Please refresh the page.",
                )
            }
        },
    }
}

/// What is said of a change that failed.
pub open spec fn change_message(change: Change) -> Seq<char> {
    match change {
        Change::AddGradient => "Failed to add gradient."@,
        Change::DeleteGradient => "Failed to delete gradient."@,
        Change::AddColour => "Failed to add colour."@,
        Change::DeleteColour => "Failed to delete colour."@,
        Change::EditColourValue => "Failed to edit colour."@,
        Change::EditColourPosition => "Failed to edit colour position."@,
    }
}

fn message_for_change(change: Change) -> (r: &'static str)
    ensures
        r@ == change_message(change),
{
    match change {
        Change::AddGradient => "Failed to add gradient.",
        Change::DeleteGradient => "Failed to delete gradient.",
        Change::AddColour => "Failed to add colour.",
        Change::DeleteColour => "Failed to delete colour.",
        Change::EditColourValue => "Failed to edit colour.",
        Change::EditColourPosition => "Failed to edit colour position.",
    }
}

/// The change that an edit is.
pub open spec fn change_of(edit: EditView) -> Change {
    match edit {
        EditView::Add => Change::AddColour,
        EditView::Delete(_) => Change::DeleteColour,
        EditView::Value(_, _) => Change::EditColourValue,
        EditView::Position(_, _) => Change::EditColourPosition,
    }
}

fn change_for(edit: &Edit) -> (r: Change)
    ensures
        r == change_of(edit@),
{
    match edit {
        Edit::Add => Change::AddColour,
        Edit::Delete(_) => Change::DeleteColour,
        Edit::Value(_, _) => Change::EditColourValue,
        Edit::Position(_, _) => Change::EditColourPosition,
    }
}

// -- Pages

/// The cause of a failure, if there is one.
pub open spec fn told(cause: Option<ErrorView>) -> Seq<ErrorView> {
    match cause {
        Some(e) => seq![e],
        None => Seq::empty(),
    }
}

/// What went wrong with a command, if anything did.
pub open spec fn cause_of<T>(result: Result<T, ErrorView>) -> Option<ErrorView> {
    match result {
        Ok(_) => None,
        Err(e) => Some(e),
    }
}

/// The response to a change of the gradients: it makes the page reload them
/// if it went well, and shows what failed if it did not.
pub open spec fn edited_page(cause: Option<ErrorView>, message: Seq<char>) -> ResponseView {
    ResponseView {
        body: BodyView::GradientsEdited,
        err_message: if cause is None {
            None
        } else {
            Some(message)
        },
        trigger: if cause is None {
            Some("gradientsEdited"@)
        } else {
            None
        },
        causes: told(cause),
    }
}

fn causes(first: Option<Error>, second: Option<Error>) -> (r: Vec<Error>)
    ensures
        errors_view(r@) == told(error_view(first)) + told(error_view(second)),
{
    let mut all: Vec<Error> = Vec::new();
    if let Some(e) = first {
        all.push(e);
    }
    if let Some(e) = second {
        all.push(e);
    }
    assert(errors_view(all@) =~= told(error_view(first)) + told(error_view(second)));
    all
}

fn no_causes() -> (r: Vec<Error>)
    ensures
        errors_view(r@) == Seq::<ErrorView>::empty(),
{
    let none: Vec<Error> = Vec::new();
    assert(errors_view(none@) =~= Seq::<ErrorView>::empty());
    none
}

fn one_cause(e: Error) -> (r: Vec<Error>)
    ensures
        errors_view(r@) == seq![e@],
{
    let one = causes(Some(e), None);
    assert(errors_view(one@) =~= seq![e@]);
    one
}

/// The model of the outcome of a change.
pub open spec fn outcome_view(result: Result<(), Error>) -> Result<(), ErrorView> {
    match result {
        Ok(_) => Ok(()),
        Err(e) => Err(e@),
    }
}

/// The response to a change of the gradients.
pub fn gradients_edited_resp(result: Result<(), Error>, err_message: &'static str) -> (r: Response)
    ensures
        r@ == edited_page(cause_of(outcome_view(result)), err_message@),
{
    match result {
        Ok(_) => Response {
            body: Body::GradientsEdited,
            err_message: None,
            trigger: Some("gradientsEdited"),
            causes: no_causes(),
        },
        Err(e) => Response {
            body: Body::GradientsEdited,
            err_message: Some(err_message),
            trigger: None,
            causes: one_cause(e),
        },
    }
}

/// The page of the playback status.
pub open spec fn status_page(reply: Result<ReplyView, ErrorView>) -> ResponseView {
    match reply {
        Ok(ReplyView::Status(status)) => ResponseView {
            body: BodyView::AudioStatus(
                match status {
                    PlaybackStatus::Playing => "Playing"@,
                    PlaybackStatus::Paused => "Paused"@,
                },
            ),
            err_message: None,
            trigger: None,
            causes: Seq::empty(),
        },
        _ => ResponseView {
            body: BodyView::AudioStatus("N/A"@),
            err_message: Some("Failed to get audio status."@),
            trigger: None,
            causes: told(cause_of(reply)),
        },
    }
}

/// The page after playback was toggled.
pub open spec fn toggle_page(cause: Option<ErrorView>) -> ResponseView {
    ResponseView {
        body: BodyView::AudioStatusToggle,
        err_message: if cause is None {
            None
        } else {
            Some("Failed to toggle audio playback."@)
        },
        trigger: if cause is None {
            Some("audioStatusToggled"@)
        } else {
            None
        },
        causes: told(cause),
    }
}

/// Whether the first selected gradient of a list is the one at `i`.
pub open spec fn first_selected_at(list: Seq<InfoView>, i: int) -> bool {
    &&& 0 <= i < list.len()
    &&& list[i].selected
    &&& forall|k: int| 0 <= k < i ==> !(#[trigger] list[k]).selected
}

/// The first selected gradient of a list.
pub open spec fn first_selected(list: Seq<InfoView>) -> Option<InfoView> {
    if exists|i: int| first_selected_at(list, i) {
        Some(list[choose|i: int| first_selected_at(list, i)])
    } else {
        None
    }
}

/// What a page shows of a list, nothing if it could not be had.
pub open spec fn list_body(list: List, reply: Result<ReplyView, ErrorView>) -> BodyView {
    match list {
        List::AudioInputs => BodyView::AudioInputs(
            match reply {
                Ok(ReplyView::AudioDevices(devices)) => devices,
                _ => Seq::empty(),
            },
        ),
        List::AudioOutputs => BodyView::AudioOutputs(
            match reply {
                Ok(ReplyView::AudioDevices(devices)) => devices,
                _ => Seq::empty(),
            },
        ),
        List::DMXOutputs => BodyView::DMXOutputs(
            match reply {
                Ok(ReplyView::DMXDevices(devices)) => devices,
                _ => Seq::empty(),
            },
        ),
        List::Gradients => match reply {
            Ok(ReplyView::Gradients(gradients)) => BodyView::Gradients(
                gradients,
                first_selected(gradients),
            ),
            _ => BodyView::Gradients(Seq::empty(), None),
        },
    }
}

/// The page of a list, with the cause for which the switch before it failed, if
/// it did.
pub open spec fn list_page(
    list: List,
    cause: Option<ErrorView>,
    reply: Result<ReplyView, ErrorView>,
) -> ResponseView {
    ResponseView {
        body: list_body(list, reply),
        err_message: list_message(list, cause is None, reply is Ok),
        trigger: None,
        causes: told(cause) + told(cause_of(reply)),
    }
}

fn select_first(list: &Vec<GradientInfo>) -> (r: Option<GradientInfo>)
    ensures
        info_view(r) == first_selected(crate::engine::gradients::infos(list@)),
{
    let ghost all = crate::engine::gradients::infos(list@);
    let mut i: usize = 0;
    while i < list.len()
        invariant
            i <= list.len(),
            all == crate::engine::gradients::infos(list@),
            forall|k: int| 0 <= k < i ==> !(#[trigger] all[k]).selected,
        decreases list.len() - i,
    {
        assert(all[i as int] == list@[i as int]@);
        if list[i].selected {
            proof {
                assert(first_selected_at(all, i as int));
                let c = choose|c: int| first_selected_at(all, c);
                assert(!(c < i) && !(i < c));
            }
            return Some(
                GradientInfo {
                    name: list[i].name.clone(),
                    selected: true,
                    data: list[i].data.clone(),
                },
            );
        }
        i = i + 1;
    }
    assert(forall|c: int| !first_selected_at(all, c));
    None
}

// -- Steps

/// The command that switches what a list selects.
///
/// `unselected` is a reserved name: no device is to be connected to the
/// lights.
pub open spec fn switch_command(list: List, name: Seq<char>) -> CommandView {
    match list {
        List::AudioInputs => CommandView::SetAudioInput { device_name: name },
        List::AudioOutputs => CommandView::SetAudioOutput { device_name: Some(name) },
        List::DMXOutputs => CommandView::SetDMXOutput {
            device_name: if name == "unselected"@ {
                None
            } else {
                Some(name)
            },
        },
        List::Gradients => CommandView::SetCurrentGradient { name },
    }
}

/// The command that asks for a list.
pub open spec fn list_command(list: List) -> CommandView {
    match list {
        List::AudioInputs => CommandView::ListAudioInputs,
        List::AudioOutputs => CommandView::ListAudioOutputs,
        List::DMXOutputs => CommandView::ListDMXOutputs,
        List::Gradients => CommandView::ListGradients,
    }
}

/// How a conversation goes on: with a command, whose reply takes it to the
/// next stage, or with the response.
#[verifier::ext_equal]
pub enum ServeView {
    Send(CommandView, StageView),
    Respond(ResponseView),
}

/// The start of a request for a list.
pub open spec fn list_step(list: List, choice: Option<Seq<char>>) -> ServeView {
    match super::routes::nonempty(choice) {
        Some(name) => ServeView::Send(switch_command(list, name), StageView::Switching(list)),
        None => ServeView::Send(list_command(list), StageView::Listing(list, None)),
    }
}

/// The response to a request that lacks a name.
pub open spec fn nameless() -> ServeView {
    ServeView::Respond(
        ResponseView {
            body: BodyView::GradientsEdited,
            err_message: Some("Gradient must have a name."@),
            trigger: None,
            causes: Seq::empty(),
        },
    )
}

/// The start of a conversation.
pub open spec fn open_step(request: RequestView) -> ServeView {
    match request {
        RequestView::AudioInputs(device) => list_step(List::AudioInputs, device),
        RequestView::AudioOutputs(device) => list_step(List::AudioOutputs, device),
        RequestView::DMXOutputs(device) => list_step(List::DMXOutputs, device),
        RequestView::Gradients(name) => list_step(List::Gradients, name),
        RequestView::AudioStatus => ServeView::Send(
            CommandView::GetAudioStatus,
            StageView::AskingStatus,
        ),
        RequestView::ToggleAudioStatus => ServeView::Send(
            CommandView::ToggleAudioStatus,
            StageView::Toggling,
        ),
        RequestView::AddGradient(header) => match super::routes::prompt(header) {
            Some(name) => ServeView::Send(
                CommandView::AddGradient { name, gradient: Seq::empty(), overwrite: false },
                StageView::Saving(Change::AddGradient),
            ),
            None => nameless(),
        },
        RequestView::DeleteGradient(header) => match super::routes::prompt(header) {
            Some(name) => ServeView::Send(
                CommandView::DeleteGradient { name },
                StageView::Saving(Change::DeleteGradient),
            ),
            None => nameless(),
        },
        RequestView::EditGradient(name, edit) => ServeView::Send(
            CommandView::GetGradient { name },
            StageView::Reading(name, edit),
        ),
    }
}

/// Whether a reply is one to the command that was sent, and can be taken.
pub open spec fn takes(stage: StageView, reply: Result<ReplyView, ErrorView>) -> bool {
    match reply {
        Err(_) => true,
        Ok(r) => match stage {
            StageView::Switching(_) => r is Done,
            StageView::Listing(List::AudioInputs | List::AudioOutputs, _) => r is AudioDevices,
            StageView::Listing(List::DMXOutputs, _) => r is DMXDevices,
            StageView::Listing(List::Gradients, _) => r is Gradients,
            StageView::AskingStatus => r is Status,
            StageView::Toggling => r is Done,
            StageView::Reading(_, edit) => r is Gradient && super::routes::editable(
                r->Gradient_0,
                edit,
            ),
            StageView::Saving(_) => r is Done,
        },
    }
}

/// How a conversation goes on after a reply.
pub open spec fn reply_step(stage: StageView, reply: Result<ReplyView, ErrorView>) -> ServeView {
    match stage {
        StageView::Switching(list) => ServeView::Send(
            list_command(list),
            StageView::Listing(list, cause_of(reply)),
        ),
        StageView::Listing(list, cause) => ServeView::Respond(list_page(list, cause, reply)),
        StageView::AskingStatus => ServeView::Respond(status_page(reply)),
        StageView::Toggling => ServeView::Respond(toggle_page(cause_of(reply))),
        StageView::Reading(name, edit) => {
            let edited = match reply {
                Ok(ReplyView::Gradient(stops)) => super::routes::edited(stops, edit),
                Ok(_) => Err(ErrorView::GradientMissing),
                Err(e) => Err(e),
            };
            match edited {
                Ok(gradient) => ServeView::Send(
                    CommandView::AddGradient { name, gradient, overwrite: true },
                    StageView::Saving(change_of(edit)),
                ),
                Err(e) => ServeView::Respond(
                    edited_page(Some(e), change_message(change_of(edit))),
                ),
            }
        },
        StageView::Saving(change) => ServeView::Respond(
            edited_page(cause_of(reply), change_message(change)),
        ),
    }
}

/// The model of a reply.
pub open spec fn reply_view(reply: Result<Reply, Error>) -> Result<ReplyView, ErrorView> {
    match reply {
        Ok(r) => Ok(r@),
        Err(e) => Err(e@),
    }
}

/// A conversation behind a request, waiting for a reply.
#[derive(Debug)]
pub struct Session {
    stage: Stage,
}

impl View for Session {
    type V = StageView;

    closed spec fn view(&self) -> StageView {
        self.stage.model()
    }
}

/// How a conversation goes on.
#[derive(Debug)]
pub enum Serve {
    /// With a command, whose reply the conversation waits for.
    Send(Command, Session),
    /// With the response.
    Respond(Response),
}

impl View for Serve {
    type V = ServeView;

    open spec fn view(&self) -> ServeView {
        match self {
            Serve::Send(command, session) => ServeView::Send(command@, session@),
            Serve::Respond(response) => ServeView::Respond(response@),
        }
    }
}

fn send(command: Command, stage: Stage) -> (r: Serve)
    ensures
        r@ == ServeView::Send(command@, stage.model()),
{
    Serve::Send(command, Session { stage })
}

fn command_for_list(list: List) -> (r: Command)
    ensures
        r@ == list_command(list),
{
    match list {
        List::AudioInputs => Command::ListAudioInputs,
        List::AudioOutputs => Command::ListAudioOutputs,
        List::DMXOutputs => Command::ListDMXOutputs,
        List::Gradients => Command::ListGradients,
    }
}

fn command_for_switch(list: List, name: String) -> (r: Command)
    ensures
        r@ == switch_command(list, name@),
{
    match list {
        List::AudioInputs => Command::SetAudioInput { device_name: name },
        List::AudioOutputs => Command::SetAudioOutput { device_name: Some(name) },
        List::DMXOutputs => {
            if same_text(name.as_str(), "unselected") {
                Command::SetDMXOutput { device_name: None }
            } else {
                Command::SetDMXOutput { device_name: Some(name) }
            }
        },
        List::Gradients => Command::SetCurrentGradient { name },
    }
}

fn open_list(list: List, choice: Option<String>) -> (r: Serve)
    ensures
        r@ == list_step(list, crate::text::text_view(choice)),
{
    match empty_string_as_none(choice) {
        Some(name) => send(command_for_switch(list, name), Stage::Switching(list)),
        None => send(command_for_list(list), Stage::Listing(list, None)),
    }
}

fn without_name() -> (r: Serve)
    ensures
        r@ == nameless(),
{
    Serve::Respond(
        Response {
            body: Body::GradientsEdited,
            err_message: Some("Gradient must have a name."),
            trigger: None,
            causes: no_causes(),
        },
    )
}

fn list_response(list: List, cause: Option<Error>, reply: Result<Reply, Error>) -> (r: Response)
    requires
        takes(StageView::Listing(list, error_view(cause)), reply_view(reply)),
    ensures
        r@ == list_page(list, error_view(cause), reply_view(reply)),
{
    let err_message = message_for_list(list, cause.is_none(), reply.is_ok());
    let (answer, error) = match reply {
        Ok(answer) => (Some(answer), None),
        Err(e) => (None, Some(e)),
    };
    let body = match list {
        List::AudioInputs => Body::AudioInputs(
            match answer {
                Some(Reply::AudioDevices(devices)) => devices,
                _ => no_audio_devices(),
            },
        ),
        List::AudioOutputs => Body::AudioOutputs(
            match answer {
                Some(Reply::AudioDevices(devices)) => devices,
                _ => no_audio_devices(),
            },
        ),
        List::DMXOutputs => Body::DMXOutputs(
            match answer {
                Some(Reply::DMXDevices(devices)) => devices,
                _ => no_dmx_devices(),
            },
        ),
        List::Gradients => match answer {
            Some(Reply::Gradients(gradients)) => {
                let selected = select_first(&gradients);
                Body::Gradients(gradients, selected)
            },
            _ => {
                let none: Vec<GradientInfo> = Vec::new();
                assert(crate::engine::gradients::infos(none@) =~= Seq::<InfoView>::empty());
                Body::Gradients(none, None)
            },
        },
    };
    Response { body, err_message, trigger: None, causes: causes(cause, error) }
}

fn no_audio_devices() -> (r: Vec<audio::DeviceInfo>)
    ensures
        audio::devices_view(r@) == Seq::<(Seq<char>, bool)>::empty(),
{
    let none: Vec<audio::DeviceInfo> = Vec::new();
    assert(audio::devices_view(none@) =~= Seq::<(Seq<char>, bool)>::empty());
    none
}

fn no_dmx_devices() -> (r: Vec<dmx::DeviceInfo>)
    ensures
        dmx::devices_view(r@) == Seq::<(Seq<char>, bool)>::empty(),
{
    let none: Vec<dmx::DeviceInfo> = Vec::new();
    assert(dmx::devices_view(none@) =~= Seq::<(Seq<char>, bool)>::empty());
    none
}

fn status_response(reply: Result<Reply, Error>) -> (r: Response)
    ensures
        r@ == status_page(reply_view(reply)),
{
    let causes = match reply {
        Ok(Reply::Status(status)) => {
            return Response {
                body: Body::AudioStatus(
                    match status {
                        PlaybackStatus::Playing => "Playing",
                        PlaybackStatus::Paused => "Paused",
                    },
                ),
                err_message: None,
                trigger: None,
                causes: no_causes(),
            };
        },
        Ok(_) => no_causes(),
        Err(e) => one_cause(e),
    };
    Response {
        body: Body::AudioStatus("N/A"),
        err_message: Some("Failed to get audio status."),
        trigger: None,
        causes,
    }
}

fn toggle_response(reply: Result<Reply, Error>) -> (r: Response)
    ensures
        r@ == toggle_page(cause_of(reply_view(reply))),
{
    match reply {
        Ok(_) => Response {
            body: Body::AudioStatusToggle,
            err_message: None,
            trigger: Some("audioStatusToggled"),
            causes: no_causes(),
        },
        Err(e) => Response {
            body: Body::AudioStatusToggle,
            err_message: Some("Failed to toggle audio playback."),
            trigger: None,
            causes: one_cause(e),
        },
    }
}

fn outcome(reply: Result<Reply, Error>) -> (r: Result<(), Error>)
    ensures
        cause_of(outcome_view(r)) == cause_of(reply_view(reply)),
{
    match reply {
        Ok(_) => Ok(()),
        Err(e) => Err(e),
    }
}

impl Session {
    /// Starts the conversation behind a request.
    pub fn open(request: Request) -> (r: Serve)
        ensures
            r@ == open_step(request@),
    {
        match request {
            Request::AudioInputs(device) => open_list(List::AudioInputs, device),
            Request::AudioOutputs(device) => open_list(List::AudioOutputs, device),
            Request::DMXOutputs(device) => open_list(List::DMXOutputs, device),
            Request::Gradients(name) => open_list(List::Gradients, name),
            Request::AudioStatus => send(Command::GetAudioStatus, Stage::AskingStatus),
            Request::ToggleAudioStatus => send(Command::ToggleAudioStatus, Stage::Toggling),
            Request::AddGradient(header) => {
                match parse_hx_prompt(&header) {
                    Some(name) => send(
                        Command::AddGradient { name, gradient: Gradient::new(), overwrite: false },
                        Stage::Saving(Change::AddGradient),
                    ),
                    None => without_name(),
                }
            },
            Request::DeleteGradient(header) => {
                match parse_hx_prompt(&header) {
                    Some(name) => send(
                        Command::DeleteGradient { name },
                        Stage::Saving(Change::DeleteGradient),
                    ),
                    None => without_name(),
                }
            },
            Request::EditGradient(name, edit) => send(
                Command::GetGradient { name: name.clone() },
                Stage::Reading(name, edit),
            ),
        }
    }

    /// Whether a reply is one to the command that was sent, and can be taken.
    pub fn accepts(&self, reply: &Result<Reply, Error>) -> (r: bool)
        ensures
            r == takes(self@, reply_view(*reply)),
    {
        match (&self.stage, reply) {
            (_, Err(_)) => true,
            (Stage::Switching(_), Ok(Reply::Done)) => true,
            (Stage::Listing(list, _), Ok(r)) => {
                match (*list, r) {
                    (List::AudioInputs, Reply::AudioDevices(_)) => true,
                    (List::AudioOutputs, Reply::AudioDevices(_)) => true,
                    (List::DMXOutputs, Reply::DMXDevices(_)) => true,
                    (List::Gradients, Reply::Gradients(_)) => true,
                    _ => false,
                }
            },
            (Stage::AskingStatus, Ok(Reply::Status(_))) => true,
            (Stage::Toggling, Ok(Reply::Done)) => true,
            (Stage::Reading(_, edit), Ok(Reply::Gradient(gradient))) => is_editable(
                gradient,
                edit,
            ),
            (Stage::Saving(_), Ok(Reply::Done)) => true,
            _ => false,
        }
    }

    /// Goes on after the reply to the command that was sent.
    pub fn on_reply(self, reply: Result<Reply, Error>) -> (r: Serve)
        requires
            takes(self@, reply_view(reply)),
        ensures
            r@ == reply_step(self@, reply_view(reply)),
    {
        match self.stage {
            Stage::Switching(list) => {
                let cause = match reply {
                    Ok(_) => None,
                    Err(e) => Some(e),
                };
                send(command_for_list(list), Stage::Listing(list, cause))
            },
            Stage::Listing(list, cause) => Serve::Respond(list_response(list, cause, reply)),
            Stage::AskingStatus => Serve::Respond(status_response(reply)),
            Stage::Toggling => Serve::Respond(toggle_response(reply)),
            Stage::Reading(name, edit) => {
                let change = change_for(&edit);
                let edited = match reply {
                    Ok(Reply::Gradient(gradient)) => edit_gradient(gradient, &edit),
                    Ok(_) => Err(Error::GradientMissing),
                    Err(e) => Err(e),
                };
                match edited {
                    Ok(gradient) => send(
                        Command::AddGradient { name, gradient, overwrite: true },
                        Stage::Saving(change),
                    ),
                    Err(e) => Serve::Respond(
                        gradients_edited_resp(Err(e), message_for_change(change)),
                    ),
                }
            },
            Stage::Saving(change) => Serve::Respond(
                gradients_edited_resp(outcome(reply), message_for_change(change)),
            ),
        }
    }
}

// -- Laws

/// Every request is responded to after at most two commands: a conversation
/// that went on after a first reply ends with the second.
pub proof fn lemma_requests_are_answered(
    request: RequestView,
    first: Result<ReplyView, ErrorView>,
    second: Result<ReplyView, ErrorView>,
)
    ensures
        ({
            let opened = open_step(request);
            opened is Send ==> {
                let went_on = reply_step(opened->Send_1, first);
                went_on is Send ==> reply_step(went_on->Send_1, second) is Respond
            }
        }),
{
}

/// What the daemon replies to the command that was sent can be taken: any
/// reply of the command's kind and any error, as long as an edit can be tried
/// on the gradient it was sent for.
pub proof fn lemma_replies_are_taken(
    request: RequestView,
    first: Result<ReplyView, ErrorView>,
    second: Result<ReplyView, ErrorView>,
)
    ensures
        ({
            let opened = open_step(request);
            opened is Send && replied(opened->Send_0, first) && tried(opened->Send_1, first) ==> {
                let went_on = reply_step(opened->Send_1, first);
                &&& takes(opened->Send_1, first)
                &&& went_on is Send && replied(went_on->Send_0, second) ==> takes(
                    went_on->Send_1,
                    second,
                )
            }
        }),
{
}

/// A conversation that ends after a reply ends with a message exactly if it
/// hands out the cause of a failure, and then the page is not told to act.
pub proof fn lemma_failures_have_causes(stage: StageView, reply: Result<ReplyView, ErrorView>)
    requires
        takes(stage, reply),
    ensures
        reply_step(stage, reply) matches ServeView::Respond(page) ==> {
            &&& page.err_message is Some <==> page.causes.len() > 0
            &&& page.trigger is Some ==> page.err_message is None
            &&& reply matches Err(e) ==> page.causes.len() > 0 && page.causes.last() == e
        },
{
}

/// Whether a reply is an error or of the kind that a command asks for.
pub open spec fn replied(c: CommandView, reply: Result<ReplyView, ErrorView>) -> bool {
    reply matches Ok(r) ==> crate::engine::daemon::fits(c, r)
}

/// Whether an edit can be tried on the gradient that a reply brings for it.
pub open spec fn tried(stage: StageView, reply: Result<ReplyView, ErrorView>) -> bool {
    stage is Reading && reply is Ok && reply->Ok_0 is Gradient ==> super::routes::editable(
        reply->Ok_0->Gradient_0,
        stage->Reading_1,
    )
}

/// The page that a request for an edit ends with, and the daemon after it.
pub open spec fn after_edit(v: DaemonView, name: Seq<char>, edit: EditView) -> (
    DaemonView,
    ServeView,
) {
    let opened = open_step(RequestView::EditGradient(name, edit));
    let (w, s) = crate::engine::daemon::command_step(v, opened->Send_0);
    let went_on = reply_step(opened->Send_1, s.next->Reply_0);
    if went_on is Send {
        let (x, t) = crate::engine::daemon::command_step(w, went_on->Send_0);
        (x, reply_step(went_on->Send_1, t.next->Reply_0))
    } else {
        (w, went_on)
    }
}

/// An edit of a gradient is stored under its name, the page is told to reload
/// the gradients, and nothing else has changed but that the gradient is in
/// use.
pub proof fn lemma_edit_is_stored(v: DaemonView, name: Seq<char>, edit: EditView)
    requires
        crate::engine::daemon::consistent(v),
        v.pending is Idle,
        v.gradients.gradients.contains_key(name),
        super::routes::edited(v.gradients.gradients[name], edit) is Ok,
    ensures
        after_edit(v, name, edit).0 == (DaemonView {
            gradients: crate::engine::gradients::added(
                v.gradients,
                name,
                super::routes::edited(v.gradients.gradients[name], edit)->Ok_0,
            ),
            ..v
        }),
        after_edit(v, name, edit).1 == ServeView::Respond(
            edited_page(None, change_message(change_of(edit))),
        ),
{
    let w = crate::engine::daemon::command_step(v, CommandView::GetGradient { name }).0;
    assert(w =~= v);
}

/// An edit that is refused, or of a gradient that does not exist, changes
/// nothing, the page says what failed, and the reason is handed out.
pub proof fn lemma_refused_edit_changes_nothing(v: DaemonView, name: Seq<char>, edit: EditView)
    requires
        crate::engine::daemon::consistent(v),
        v.pending is Idle,
        !v.gradients.gradients.contains_key(name) || super::routes::edited(
            v.gradients.gradients[name],
            edit,
        ) is Err,
    ensures
        after_edit(v, name, edit).0 == v,
        after_edit(v, name, edit).1 == ServeView::Respond(
            edited_page(
                Some(
                    if v.gradients.gradients.contains_key(name) {
                        super::routes::edited(v.gradients.gradients[name], edit)->Err_0
                    } else {
                        ErrorView::GradientMissing
                    },
                ),
                change_message(change_of(edit)),
            ),
        ),
{
    let w = crate::engine::daemon::command_step(v, CommandView::GetGradient { name }).0;
    assert(w =~= v);
}

/// Whether all gradients are in order.
pub open spec fn all_in_order(v: DaemonView) -> bool {
    forall|name: Seq<char>| #[trigger]
        v.gradients.gradients.contains_key(name) ==> crate::engine::gradient::in_order(
            v.gradients.gradients[name],
        )
}

/// Requests keep all gradients in order.
pub proof fn lemma_requests_keep_order(
    v: DaemonView,
    request: RequestView,
    e: EventView,
    first: Result<ReplyView, ErrorView>,
)
    requires
        crate::engine::daemon::consistent(v),
        all_in_order(v),
    ensures
        all_in_order(crate::engine::daemon::event_step(v, e).0),
        ({
            let opened = open_step(request);
            opened is Send ==> {
                let (w, s) = crate::engine::daemon::command_step(v, opened->Send_0);
                let reply = if request is EditGradient {
                    s.next->Reply_0
                } else {
                    first
                };
                let went_on = reply_step(opened->Send_1, reply);
                &&& all_in_order(w)
                &&& went_on is Send ==> all_in_order(
                    crate::engine::daemon::command_step(w, went_on->Send_0).0,
                )
            }
        }),
{
    crate::engine::daemon::lemma_gradients_stay(v, CommandView::GetAudioStatus, e);
    let opened = open_step(request);
    if opened is Send {
        let (w, s) = crate::engine::daemon::command_step(v, opened->Send_0);
        if let RequestView::EditGradient(name, edit) = request {
            assert(w =~= (DaemonView { pending: w.pending, ..v }));
            if v.gradients.gradients.contains_key(name) {
                let stops = v.gradients.gradients[name];
                lemma_edited_is_in_order(stops, edit);
            }
        }
    }
}

proof fn lemma_edited_is_in_order(stops: Seq<Stop>, edit: EditView)
    requires
        crate::engine::gradient::in_order(stops),
    ensures
        super::routes::edited(stops, edit) matches Ok(after)
            ==> crate::engine::gradient::in_order(after),
{
    let (index, colour, position) = match edit {
        EditView::Add => (0, Colour::spec_black(), Single::spec_one()),
        EditView::Delete(index) => (index as int, Colour::spec_black(), Single::spec_one()),
        EditView::Value(index, value) => (
            index as int,
            super::routes::read_colour(value)->0,
            Single::spec_one(),
        ),
        EditView::Position(index, position) => (index as int, Colour::spec_black(), position),
    };
    let after = super::routes::moved(stops, index, position);
    crate::engine::gradient::lemma_sorting_exists(
        crate::engine::gradient::placed(stops, index, position),
    );
    crate::engine::gradient::lemma_editing_keeps_order(stops, index, colour, position, after);
}

/// A gradient that is chosen is the one that the page then shows as selected.
pub proof fn lemma_chosen_gradient_is_shown(v: DaemonView, name: Seq<char>, list: Seq<InfoView>)
    requires
        crate::engine::daemon::consistent(v),
        v.pending is Idle,
        name.len() > 0,
        v.gradients.gradients.contains_key(name),
        crate::engine::gradients::lists(
            crate::engine::gradients::chosen(v.gradients, name),
            list,
        ),
    ensures
        ({
            let opened = open_step(RequestView::Gradients(Some(name)));
            let (w, s) = crate::engine::daemon::command_step(v, opened->Send_0);
            let went_on = reply_step(opened->Send_1, s.next->Reply_0);
            let (x, t) = crate::engine::daemon::command_step(w, went_on->Send_0);
            &&& opened is Send && s.next is Reply && went_on is Send && t.next is Reply
            &&& reply_step(went_on->Send_1, t.next->Reply_0) == ServeView::Respond(
                ResponseView {
                    body: BodyView::Gradients(
                        list,
                        Some(
                            InfoView {
                                name,
                                selected: true,
                                stops: v.gradients.gradients[name],
                            },
                        ),
                    ),
                    err_message: None,
                    trigger: None,
                    causes: Seq::empty(),
                },
            )
            &&& x == (DaemonView {
                gradients: crate::engine::gradients::chosen(v.gradients, name),
                ..v
            })
        }),
{
    let after = crate::engine::gradients::chosen(v.gradients, name);
    crate::engine::gradients::lemma_listing_is_determined(after, list, list);
    crate::engine::gradients::lemma_one_is_selected(after, list);
    let names = crate::engine::gradients::listed_names(list);
    assert(after.gradients.contains_key(name));
    assert(names.contains(name));
    let i = choose|i: int| 0 <= i < names.len() && names[i] == name;
    assert(list[i].name == name);
    assert(list[i] =~= (InfoView { name, selected: true, stops: v.gradients.gradients[name] }));
    assert(first_selected_at(list, i));
    let c = choose|c: int| first_selected_at(list, c);
    assert(list[c].selected && list[i].selected);
    assert(c == i);
    let w = crate::engine::daemon::command_step(v, CommandView::SetCurrentGradient { name }).0;
    assert(w =~= (DaemonView { gradients: after, ..v }));
    assert(crate::engine::daemon::command_step(w, CommandView::ListGradients).0 =~= w);
}

/// The name `unselected` lets go of the lights, and the page then shows none
/// of the ports as selected.
pub proof fn lemma_unselected_disconnects(v: DaemonView, ports: Seq<(Seq<char>, PortKind)>)
    requires
        crate::engine::daemon::consistent(v),
        v.pending is Idle,
    ensures
        ({
            let opened = open_step(RequestView::DMXOutputs(Some("unselected"@)));
            let (w, s) = crate::engine::daemon::command_step(v, opened->Send_0);
            let went_on = reply_step(opened->Send_1, s.next->Reply_0);
            let (x, t) = crate::engine::daemon::command_step(w, went_on->Send_0);
            let (y, u) = crate::engine::daemon::event_step(x, EventView::Ports(Ok(ports)));
            let page = reply_step(went_on->Send_1, u.next->Reply_0)->Respond_0;
            &&& y.dmx_port is None && !y.agent && !y.playing
            &&& v.agent ==> s.actions.contains(ActionView::StopAgent)
            &&& page.err_message is None
            &&& page.body is DMXOutputs
            &&& forall|i: int|
                0 <= i < page.body->DMXOutputs_0.len() ==> !(#[trigger] page.body->DMXOutputs_0[i]).1
        }),
{
    reveal_strlit("unselected");
    let opened = open_step(RequestView::DMXOutputs(Some("unselected"@)));
    assert(opened->Send_0 == (CommandView::SetDMXOutput { device_name: None }));
    let s = crate::engine::daemon::command_step(v, opened->Send_0).1;
    if v.agent {
        assert(s.actions.last() == ActionView::StopAgent);
    }
}

} // verus!
