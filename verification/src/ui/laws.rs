//! What requests do, from their parameters to the page and the engine behind
//! it.
use vstd::prelude::*;

use super::routes::{self, Edit, EditView, Request, RequestView};
use super::session::{
    self, Body, BodyView, Change, List, Response, ResponseView, ServeView, StageView,
};
use crate::engine::colour::{self, Colour};
use crate::engine::daemon::{
    self, CommandView, DaemonView, EventView, FailureView, NextView, ReplyView,
};
use crate::engine::dmx::PortKind;
use crate::engine::gradient::{self, Stop};
use crate::engine::gradients::{GradientInfo, InfoView};
use crate::error::ErrorView;
use crate::number::Single;

verus! {

// -- Parameters

/// A parameter counts exactly if it was sent and is not empty, and then as it
/// was sent.
pub proof fn lemma_empty_is_missing(s: Seq<char>)
    ensures
        routes::nonempty(None) is None,
        s.len() == 0 ==> routes::nonempty(Some(s)) is None,
        s.len() > 0 ==> routes::nonempty(Some(s)) == Some(s),
{
}

/// A header is read exactly if each of its bytes is a tab or one from space to
/// tilde, and then character by character.
pub proof fn lemma_headers_are_read(bytes: Seq<u8>, i: int)
    ensures
        routes::header_text(bytes) is Some <==> forall|k: int|
            0 <= k < bytes.len() ==> (#[trigger] bytes[k]) == 9 || 32 <= bytes[k] <= 126,
        routes::header_text(bytes) is Some ==> routes::header_text(bytes)->0.len() == bytes.len(),
        routes::header_text(bytes) is Some && 0 <= i < bytes.len() ==> routes::header_text(
            bytes,
        )->0[i] as u32 == bytes[i],
{
    assert(forall|b: u8| #[trigger] routes::visible(b) <==> b == 9 || 32 <= b <= 126);
    assert(routes::header_text(bytes) is Some <==> forall|k: int|
        0 <= k < bytes.len() ==> routes::visible(#[trigger] bytes[k]));
}

/// The answer to a prompt is the text of its header, unless there is no header,
/// its text cannot be read, or it is empty.
pub proof fn lemma_prompts(bytes: Seq<u8>)
    ensures
        routes::prompt(None) is None,
        bytes.len() == 0 ==> routes::prompt(Some(bytes)) is None,
        routes::header_text(bytes) is None ==> routes::prompt(Some(bytes)) is None,
        bytes.len() > 0 && routes::header_text(bytes) is Some ==> routes::prompt(Some(bytes))
            == routes::header_text(bytes),
{
}

/// A request is taken as it was made.
pub proof fn lemma_request_models(
    name: String,
    bytes: Vec<u8>,
    index: usize,
    position: Single,
    edit: Edit,
)
    ensures
        Request::AudioInputs(Some(name))@ == RequestView::AudioInputs(Some(name@)),
        Request::AudioInputs(None)@ == RequestView::AudioInputs(None),
        Request::AudioOutputs(Some(name))@ == RequestView::AudioOutputs(Some(name@)),
        Request::AudioOutputs(None)@ == RequestView::AudioOutputs(None),
        Request::AudioStatus@ is AudioStatus,
        Request::ToggleAudioStatus@ is ToggleAudioStatus,
        Request::DMXOutputs(Some(name))@ == RequestView::DMXOutputs(Some(name@)),
        Request::DMXOutputs(None)@ == RequestView::DMXOutputs(None),
        Request::Gradients(Some(name))@ == RequestView::Gradients(Some(name@)),
        Request::Gradients(None)@ == RequestView::Gradients(None),
        Request::AddGradient(Some(bytes))@ == RequestView::AddGradient(Some(bytes@)),
        Request::AddGradient(None)@ == RequestView::AddGradient(None),
        Request::DeleteGradient(Some(bytes))@ == RequestView::DeleteGradient(Some(bytes@)),
        Request::DeleteGradient(None)@ == RequestView::DeleteGradient(None),
        Request::EditGradient(name, edit)@ == RequestView::EditGradient(name@, edit@),
        Edit::Add@ is Add,
        Edit::Delete(index)@ == EditView::Delete(index as nat),
        Edit::Value(index, name)@ == EditView::Value(index as nat, name@),
        Edit::Position(index, position)@ == EditView::Position(index as nat, position),
{
}

/// A response is what it holds.
pub proof fn lemma_response_models(
    response: Response,
    devices: Vec<crate::engine::audio::DeviceInfo>,
    ports: Vec<crate::engine::dmx::DeviceInfo>,
    list: Vec<GradientInfo>,
    selected: GradientInfo,
    status: &'static str,
    i: int,
)
    ensures
        response@.body == response.body@,
        response.err_message is None ==> response@.err_message is None,
        response.err_message is Some ==> response@.err_message == Some(response.err_message->0@),
        response.trigger is None ==> response@.trigger is None,
        response.trigger is Some ==> response@.trigger == Some(response.trigger->0@),
        response@.causes.len() == response.causes@.len(),
        0 <= i < response.causes@.len() ==> response@.causes[i] == response.causes@[i]@,
        Body::AudioInputs(devices)@ == BodyView::AudioInputs(
            crate::engine::audio::devices_view(devices@),
        ),
        Body::AudioOutputs(devices)@ == BodyView::AudioOutputs(
            crate::engine::audio::devices_view(devices@),
        ),
        Body::DMXOutputs(ports)@ == BodyView::DMXOutputs(
            crate::engine::dmx::devices_view(ports@),
        ),
        Body::AudioStatus(status)@ == BodyView::AudioStatus(status@),
        Body::AudioStatusToggle@ is AudioStatusToggle,
        Body::GradientsEdited@ is GradientsEdited,
        Body::Gradients(list, None)@ == BodyView::Gradients(
            crate::engine::gradients::infos(list@),
            None,
        ),
        Body::Gradients(list, Some(selected))@ == BodyView::Gradients(
            crate::engine::gradients::infos(list@),
            Some(
                InfoView {
                    name: selected.name@,
                    selected: selected.selected,
                    stops: selected.data@,
                },
            ),
        ),
{
}

// -- Edits

/// An edit that adds a colour puts black at the end, at position one, and
/// leaves all other colours as they are. It is never refused.
pub proof fn lemma_adding_a_colour(stops: Seq<Stop>, k: int)
    ensures
        ({
            let after = routes::edited(stops, EditView::Add);
            &&& after is Ok
            &&& after->Ok_0.len() == stops.len() + 1
            &&& 0 <= k < stops.len() ==> after->Ok_0[k] == stops[k]
            &&& after->Ok_0[stops.len() as int] == (
                Colour { red: 0, green: 0, blue: 0 },
                Single { bits: 0x3f80_0000 },
            )
        }),
{
}

/// An edit that deletes a colour takes out the one at its index: those before
/// it stay where they are, those behind it move up by one. An index past the
/// end is refused.
pub proof fn lemma_deleting_a_colour(stops: Seq<Stop>, index: nat, k: int)
    ensures
        ({
            let after = routes::edited(stops, EditView::Delete(index));
            &&& index >= stops.len() ==> after == Err::<Seq<Stop>, ErrorView>(
                ErrorView::ColourIndex,
            )
            &&& index < stops.len() ==> {
                &&& after is Ok
                &&& after->Ok_0.len() == stops.len() - 1
                &&& 0 <= k < index ==> after->Ok_0[k] == stops[k]
                &&& index <= k < stops.len() - 1 ==> after->Ok_0[k] == stops[k + 1]
            }
        }),
{
}

/// An edit that replaces a colour gives the stop at its index the colour that
/// the text is the hexadecimal form of, keeps its position, and leaves all
/// other stops as they are. An index past the end is refused, and so is a text
/// that is no colour, by the reason for it.
pub proof fn lemma_replacing_a_colour(
    stops: Seq<Stop>,
    index: nat,
    colour: Colour,
    text: Seq<char>,
    k: int,
)
    ensures
        ({
            let after = routes::edited(stops, EditView::Value(index, colour::hex_text(colour)));
            index < stops.len() ==> {
                &&& after is Ok
                &&& after->Ok_0.len() == stops.len()
                &&& after->Ok_0[index as int] == (colour, stops[index as int].1)
                &&& 0 <= k < stops.len() && k != index ==> after->Ok_0[k] == stops[k]
            }
        }),
        index >= stops.len() ==> routes::edited(stops, EditView::Value(index, text)) == Err::<
            Seq<Stop>,
            ErrorView,
        >(ErrorView::ColourIndex),
        ({
            let read = colour::colour_of(colour::hex_code(vstd::utf8::encode_utf8(text)));
            let after = routes::edited(stops, EditView::Value(index, text));
            &&& index < stops.len() && read is None ==> after == Err::<Seq<Stop>, ErrorView>(
                ErrorView::InvalidColour(colour::colour_error(text)),
            )
            &&& index < stops.len() && read is Some ==> after is Ok
                && after->Ok_0[index as int].0 == read->0
        }),
{
    colour::lemma_hex_reads_back(colour);
}

/// An edit that moves a colour of a gradient in order takes the stop at its
/// index to its place among the others, with its colour and the new position,
/// and leaves the others in their order. An index past the end is refused, and
/// so is a position that is not a number from zero to one.
pub proof fn lemma_moving_a_colour(stops: Seq<Stop>, index: nat, position: Single) -> (k: int)
    requires
        gradient::in_order(stops),
    ensures
        ({
            let after = routes::edited(stops, EditView::Position(index, position));
            let number = !position.nan() && !position.below(Single { bits: 0 }) && !(Single {
                bits: 0x3f80_0000,
            }).below(position);
            &&& index >= stops.len() ==> after == Err::<Seq<Stop>, ErrorView>(
                ErrorView::ColourIndex,
            )
            &&& index < stops.len() && !number ==> after == Err::<Seq<Stop>, ErrorView>(
                ErrorView::ColourPosition,
            )
            &&& index < stops.len() && number ==> {
                &&& after is Ok
                &&& 0 <= k < stops.len()
                &&& after->Ok_0.len() == stops.len()
                &&& after->Ok_0[k] == (stops[index as int].0, position)
                &&& after->Ok_0.remove(k) == stops.remove(index as int)
                &&& forall|i: int, j: int|
                    0 <= i < j < stops.len() ==> !(#[trigger] after->Ok_0[j]).1.below(
                        (#[trigger] after->Ok_0[i]).1,
                    )
            }
        }),
{
    gradient::lemma_refused_positions(position);
    if index < stops.len() && !gradient::outside(position) {
        let placed = gradient::placed(stops, index as int, position);
        gradient::lemma_sorting_exists(placed);
        let after = routes::moved(stops, index as int, position);
        assert(gradient::sorted_from(placed, after));
        gradient::lemma_sorting_keeps_stops(placed, after);
        assert forall|i: int, j: int| 0 <= i < j < stops.len() implies !(#[trigger] after[j]).1.below(
            (#[trigger] after[i]).1,
        ) by {
            gradient::lemma_sorting_orders(placed, after, i, j);
        }
        gradient::lemma_moving_one_stop(stops, index as int, position, after)
    } else {
        0
    }
}

/// In any gradient, in order or not, moving a colour keeps all the others and
/// puts all of them in order.
pub proof fn lemma_moving_sorts_the_gradient(
    stops: Seq<Stop>,
    index: nat,
    position: Single,
    i: int,
    j: int,
)
    requires
        index < stops.len(),
        !gradient::outside(position),
    ensures
        ({
            let after = routes::edited(stops, EditView::Position(index, position));
            &&& after is Ok
            &&& after->Ok_0.len() == stops.len()
            &&& after->Ok_0.to_multiset() == stops.update(
                index as int,
                (stops[index as int].0, position),
            ).to_multiset()
            &&& 0 <= i < j < stops.len() ==> !after->Ok_0[j].1.below(after->Ok_0[i].1)
        }),
{
    let placed = gradient::placed(stops, index as int, position);
    gradient::lemma_sorting_exists(placed);
    let after = routes::moved(stops, index as int, position);
    gradient::lemma_sorting_keeps_stops(placed, after);
    if 0 <= i < j < stops.len() {
        gradient::lemma_sorting_orders(placed, after, i, j);
    }
}

/// Every edit of a gradient in order can be tried, as long as the text for a
/// colour is plain.
pub proof fn lemma_edits_can_be_tried(stops: Seq<Stop>, edit: EditView)
    requires
        gradient::in_order(stops),
        edit matches EditView::Value(_, text) ==> vstd::utf8::is_ascii_chars(text),
    ensures
        routes::editable(stops, edit),
{
    match edit {
        EditView::Value(index, text) => {
            vstd::utf8::is_ascii_chars_encode_utf8(text);
            let bytes = vstd::utf8::encode_utf8(text);
            let code = colour::hex_code(bytes);
            assert forall|i: int| 0 <= i < code.len() implies (#[trigger] code[i]) < 0x80 by {
                assert(code[i] == bytes[i] || code[i] == bytes[i + 1]);
            }
            colour::lemma_plain_text_splits(code);
        },
        EditView::Position(index, position) => {
            if index < stops.len() && !gradient::outside(position) {
                let placed = gradient::placed(stops, index as int, position);
                assert forall|i: int| 0 <= i < placed.len() implies !(#[trigger] placed[i]).1.nan() by {
                    assert(gradient::in_range(stops[i].1));
                }
            }
        },
        _ => {},
    }
}

// -- Devices

/// The audio once a start was tried, if one was asked for, and the answer to
/// the command that led to it.
pub open spec fn settled(v: DaemonView, s: daemon::StepView, started: Result<(), FailureView>) -> (
    DaemonView,
    Result<ReplyView, ErrorView>,
) {
    if s.next is Ask {
        let (w, t) = daemon::event_step(v, EventView::Started(started));
        (w, t.next->Reply_0)
    } else {
        (v, s.next->Reply_0)
    }
}

/// A request for the inputs with the name of one that is there makes it the
/// input in use and leaves the output as it is, and the page then lists the
/// inputs with it, and only it, selected.
pub proof fn lemma_input_is_switched(
    v: DaemonView,
    names: Seq<Seq<char>>,
    n: int,
    listed: Seq<Seq<char>>,
    started: Result<(), FailureView>,
    i: int,
)
    requires
        daemon::consistent(v),
        v.pending is Idle,
        0 <= n < names.len() <= usize::MAX,
        forall|k: int| 0 <= k < n ==> names[k] != names[n],
        names[n].len() > 0,
    ensures
        ({
            let name = names[n];
            let opened = session::open_step(RequestView::AudioInputs(Some(name)));
            let w = daemon::command_step(v, opened->Send_0).0;
            let (x, s) = daemon::event_step(w, EventView::Inputs(Ok(names)));
            let (y, reply) = settled(x, s, started);
            let listing = session::reply_step(opened->Send_1, reply);
            let z = daemon::command_step(y, listing->Send_0).0;
            let (end, t) = daemon::event_step(z, EventView::Inputs(Ok(listed)));
            let page = session::reply_step(listing->Send_1, t.next->Reply_0)->Respond_0;
            let list = page.body->AudioInputs_0;
            &&& end.input_device == name && end.output_device == v.output_device
            &&& end.gradients == v.gradients && end.dmx_port == v.dmx_port && end.agent == v.agent
            &&& s.actions == seq![daemon::ActionView::UseInput(n as usize)]
            &&& page.body is AudioInputs && list.len() == listed.len()
            &&& 0 <= i < listed.len() ==> list[i].0 == listed[i] && (list[i].1 <==> listed[i]
                == name)
            &&& !v.playing || started is Ok ==> page.err_message is None && end.playing == v.playing
            &&& v.playing && started is Err ==> page.err_message is Some && !end.playing
            &&& page.trigger is None
        }),
{
    crate::engine::laws::lemma_devices_are_switched(v, names, n);
}

/// A request for the outputs with the name of one that is there makes it the
/// output in use and leaves the input as it is, and the page then lists the
/// outputs with it, and only it, selected.
pub proof fn lemma_output_is_switched(
    v: DaemonView,
    names: Seq<Seq<char>>,
    n: int,
    listed: Seq<Seq<char>>,
    started: Result<(), FailureView>,
    i: int,
)
    requires
        daemon::consistent(v),
        v.pending is Idle,
        0 <= n < names.len() <= usize::MAX,
        forall|k: int| 0 <= k < n ==> names[k] != names[n],
        names[n].len() > 0,
        listed.contains(names[n]),
    ensures
        ({
            let name = names[n];
            let opened = session::open_step(RequestView::AudioOutputs(Some(name)));
            let w = daemon::command_step(v, opened->Send_0).0;
            let (x, s) = daemon::event_step(w, EventView::Outputs(Ok(names)));
            let (y, reply) = settled(x, s, started);
            let listing = session::reply_step(opened->Send_1, reply);
            let z = daemon::command_step(y, listing->Send_0).0;
            let (end, t) = daemon::event_step(z, EventView::Outputs(Ok(listed)));
            let page = session::reply_step(listing->Send_1, t.next->Reply_0)->Respond_0;
            let list = page.body->AudioOutputs_0;
            &&& end.output_device == Some(name) && end.input_device == v.input_device
            &&& end.gradients == v.gradients && end.dmx_port == v.dmx_port && end.agent == v.agent
            &&& s.actions == seq![daemon::ActionView::UseOutput(n as usize)]
            &&& page.body is AudioOutputs && list.len() == listed.len()
            &&& 0 <= i < listed.len() ==> list[i].0 == listed[i] && (list[i].1 <==> listed[i]
                == name)
            &&& !v.playing || started is Ok ==> page.err_message is None && end.playing == v.playing
            &&& v.playing && started is Err ==> page.err_message is Some && !end.playing
            &&& page.trigger is None
        }),
{
    let name = names[n];
    crate::engine::laws::lemma_devices_are_switched(v, names, n);
    let opened = session::open_step(RequestView::AudioOutputs(Some(name)));
    let w = daemon::command_step(v, opened->Send_0).0;
    let (x, s) = daemon::event_step(w, EventView::Outputs(Ok(names)));
    let (y, reply) = settled(x, s, started);
    let listing = session::reply_step(opened->Send_1, reply);
    let z = daemon::command_step(y, listing->Send_0).0;
    crate::engine::laws::lemma_output_is_given_up(z, Ok(listed));
    crate::engine::laws::lemma_outputs_are_listed(z, listed, seq![], i);
}

/// A request for the ports with the name of one makes it the chosen port, the
/// lights are connected exactly if it could be opened, and the page then lists
/// the ports with it selected. If it could not, the page says so.
pub proof fn lemma_port_is_switched(
    v: DaemonView,
    name: Seq<char>,
    result: Result<(), Seq<char>>,
    ports: Seq<(Seq<char>, PortKind)>,
    i: int,
)
    requires
        daemon::consistent(v),
        v.pending is Idle,
        name.len() > 0,
        name != "unselected"@,
    ensures
        ({
            let opened = session::open_step(RequestView::DMXOutputs(Some(name)));
            let (w, s) = daemon::command_step(v, opened->Send_0);
            let (x, t) = daemon::event_step(w, EventView::Opened(result));
            let listing = session::reply_step(opened->Send_1, t.next->Reply_0);
            let z = daemon::command_step(x, listing->Send_0).0;
            let (end, u) = daemon::event_step(z, EventView::Ports(Ok(ports)));
            let page = session::reply_step(listing->Send_1, u.next->Reply_0)->Respond_0;
            &&& s.next == NextView::Ask(daemon::QueryView::Open(name))
            &&& end.dmx_port == Some(name) && end.agent == (result is Ok)
            &&& end.input_device == v.input_device && end.output_device == v.output_device
            &&& end.gradients == v.gradients
            &&& page.body is DMXOutputs
            &&& page.err_message is None <==> result is Ok
            &&& 0 <= i < ports.len() && ports[i].1 != PortKind::Pci
                ==> page.body->DMXOutputs_0.contains((ports[i].0, ports[i].0 == name))
            &&& page.body->DMXOutputs_0 == crate::engine::dmx::port_listing(ports, Some(name))
        }),
{
    let opened = session::open_step(RequestView::DMXOutputs(Some(name)));
    let (w, s) = daemon::command_step(v, opened->Send_0);
    let (x, t) = daemon::event_step(w, EventView::Opened(result));
    let listing = session::reply_step(opened->Send_1, t.next->Reply_0);
    let z = daemon::command_step(x, listing->Send_0).0;
    crate::engine::laws::lemma_ports_are_listed(z, ports, seq![], i);
}

/// A request for a list without a name, or with an empty one, sends one command
/// only, which asks for the list, and changes no choice. The page shows what
/// comes back, or nothing and a message.
pub proof fn lemma_lists_are_only_shown(
    choice: Option<Seq<char>>,
    devices: Seq<(Seq<char>, bool)>,
    gradients: Seq<InfoView>,
    e: ErrorView,
)
    requires
        choice is Some ==> choice->0.len() == 0,
    ensures
        ({
            let inputs = session::open_step(RequestView::AudioInputs(choice));
            let outputs = session::open_step(RequestView::AudioOutputs(choice));
            let ports = session::open_step(RequestView::DMXOutputs(choice));
            let all = session::open_step(RequestView::Gradients(choice));
            let shown = |asked: ServeView, reply: Result<ReplyView, ErrorView>|
                session::reply_step(asked->Send_1, reply)->Respond_0;
            &&& inputs is Send && inputs->Send_0 is ListAudioInputs
            &&& outputs is Send && outputs->Send_0 is ListAudioOutputs
            &&& ports is Send && ports->Send_0 is ListDMXOutputs
            &&& all is Send && all->Send_0 is ListGradients
            &&& shown(inputs, Ok(ReplyView::AudioDevices(devices))).body == BodyView::AudioInputs(
                devices,
            )
            &&& shown(outputs, Ok(ReplyView::AudioDevices(devices))).body
                == BodyView::AudioOutputs(devices)
            &&& shown(ports, Ok(ReplyView::DMXDevices(devices))).body == BodyView::DMXOutputs(
                devices,
            )
            &&& shown(all, Ok(ReplyView::Gradients(gradients))).body is Gradients
            &&& shown(all, Ok(ReplyView::Gradients(gradients))).body->Gradients_0 == gradients
            &&& shown(inputs, Ok(ReplyView::AudioDevices(devices))).err_message is None
            &&& shown(outputs, Ok(ReplyView::AudioDevices(devices))).err_message is None
            &&& shown(ports, Ok(ReplyView::DMXDevices(devices))).err_message is None
            &&& shown(all, Ok(ReplyView::Gradients(gradients))).err_message is None
            &&& shown(inputs, Err(e)).body == BodyView::AudioInputs(Seq::empty())
            &&& shown(outputs, Err(e)).body == BodyView::AudioOutputs(Seq::empty())
            &&& shown(ports, Err(e)).body == BodyView::DMXOutputs(Seq::empty())
            &&& shown(all, Err(e)).body == BodyView::Gradients(Seq::empty(), None)
            &&& shown(inputs, Err(e)).err_message is Some
            &&& shown(outputs, Err(e)).err_message is Some
            &&& shown(ports, Err(e)).err_message is Some
            &&& shown(all, Err(e)).err_message is Some
        }),
{
}

/// A request with a name sends the command that makes the choice, then the one
/// that asks for the same list, whatever became of the choice. The page tells
/// of each of the two that failed, the choice first.
pub proof fn lemma_choices_are_sent(
    name: Seq<char>,
    first: Result<ReplyView, ErrorView>,
    second: Result<ReplyView, ErrorView>,
)
    requires
        name.len() > 0,
    ensures
        ({
            let inputs = session::open_step(RequestView::AudioInputs(Some(name)));
            let outputs = session::open_step(RequestView::AudioOutputs(Some(name)));
            let ports = session::open_step(RequestView::DMXOutputs(Some(name)));
            let all = session::open_step(RequestView::Gradients(Some(name)));
            let listing = |asked: ServeView| session::reply_step(asked->Send_1, first);
            let causes = |asked: ServeView|
                session::reply_step(listing(asked)->Send_1, second)->Respond_0.causes;
            let failed = session::told(session::cause_of(first)) + session::told(
                session::cause_of(second),
            );
            &&& inputs is Send && inputs->Send_0 == (CommandView::SetAudioInput {
                device_name: name,
            })
            &&& outputs is Send && outputs->Send_0 == (CommandView::SetAudioOutput {
                device_name: Some(name),
            })
            &&& ports is Send && ports->Send_0 == (CommandView::SetDMXOutput {
                device_name: if name == "unselected"@ {
                    None
                } else {
                    Some(name)
                },
            })
            &&& all is Send && all->Send_0 == (CommandView::SetCurrentGradient { name })
            &&& listing(inputs) is Send && listing(inputs)->Send_0 is ListAudioInputs
            &&& listing(outputs) is Send && listing(outputs)->Send_0 is ListAudioOutputs
            &&& listing(ports) is Send && listing(ports)->Send_0 is ListDMXOutputs
            &&& listing(all) is Send && listing(all)->Send_0 is ListGradients
            &&& causes(inputs) == failed && causes(outputs) == failed && causes(ports) == failed
                && causes(all) == failed
        }),
{
}

/// The causes told of are those there are: none without a failure, and one with
/// one.
pub proof fn lemma_causes(r: ReplyView, e: ErrorView)
    ensures
        session::told(session::cause_of(Ok::<ReplyView, ErrorView>(r))).len() == 0,
        session::told(session::cause_of(Err::<ReplyView, ErrorView>(e))) == seq![e],
{
}

/// What is said of a list: nothing if all went well, otherwise whether the
/// choice, the list or both failed, in the words for that list.
pub proof fn lemma_list_messages(list: List)
    ensures
        session::list_message(list, true, true) is None,
        list == List::AudioInputs || list == List::AudioOutputs ==> {
            &&& session::list_message(list, false, true) == Some("Failed to switch input device."@)
            &&& session::list_message(list, true, false) == Some(
                "Switched device, but failed to reload the available input devices. Please refresh the page."@,
            )
            &&& session::list_message(list, false, false) == Some(
                "Failed to switch device and reload the available input devices. Please refresh the page."@,
            )
        },
        list == List::DMXOutputs ==> {
            &&& session::list_message(list, false, true) == Some("Failed to switch device."@)
            &&& session::list_message(list, true, false) == Some(
                "Switched device, but failed to reload the available devices. Please refresh the page."@,
            )
            &&& session::list_message(list, false, false) == Some(
                "Failed to switch device and reload the available devices. Please refresh the page."@,
            )
        },
        list == List::Gradients ==> {
            &&& session::list_message(list, false, true) == Some("Failed to switch gradient."@)
            &&& session::list_message(list, true, false) == Some(
                "Switched gradient, but failed to reload the available gradients. Please refresh the page."@,
            )
            &&& session::list_message(list, false, false) == Some(
                "Failed to switch gradient and reload the available gradients. Please refresh the page."@,
            )
        },
{
}

/// The page of a list says what failed: the choice if its answer was an error,
/// the list if its answer was.
pub proof fn lemma_list_pages_say_what_failed(
    list: List,
    cause: Option<ErrorView>,
    reply: Result<ReplyView, ErrorView>,
)
    ensures
        session::reply_step(StageView::Listing(list, cause), reply) is Respond,
        session::reply_step(
            StageView::Listing(list, cause),
            reply,
        )->Respond_0.err_message == session::list_message(list, cause is None, reply is Ok),
{
}

/// The gradient that the page shows is the first that the list marks, and none
/// if the list marks none.
pub proof fn lemma_marked_gradient_is_shown(list: Seq<InfoView>, i: int)
    ensures
        ({
            let shown = session::reply_step(
                StageView::Listing(List::Gradients, None),
                Ok(ReplyView::Gradients(list)),
            )->Respond_0.body->Gradients_1;
            &&& 0 <= i < list.len() && list[i].selected && (forall|k: int|
                0 <= k < i ==> !(#[trigger] list[k]).selected) ==> shown == Some(list[i])
            &&& (forall|k: int| 0 <= k < list.len() ==> !(#[trigger] list[k]).selected)
                ==> shown is None
        }),
{
    if 0 <= i < list.len() && list[i].selected && (forall|k: int|
        0 <= k < i ==> !(#[trigger] list[k]).selected) {
        assert(session::first_selected_at(list, i));
        let c = choose|c: int| session::first_selected_at(list, c);
        assert(!(c < i) && !(i < c));
    }
}

// -- Playback

/// A request for the status shows whether audio plays. One to toggle it does
/// so, and lets the page know, unless the audio could not be started.
pub proof fn lemma_playback_requests(v: DaemonView, started: Result<(), FailureView>)
    requires
        daemon::consistent(v),
        v.pending is Idle,
    ensures
        ({
            let opened = session::open_step(RequestView::AudioStatus);
            let (w, s) = daemon::command_step(v, opened->Send_0);
            let page = session::reply_step(opened->Send_1, s.next->Reply_0)->Respond_0;
            &&& w == v
            &&& page.body == BodyView::AudioStatus(
                if v.playing {
                    "Playing"@
                } else {
                    "Paused"@
                },
            )
            &&& page.err_message is None && page.trigger is None
        }),
        ({
            let opened = session::open_step(RequestView::ToggleAudioStatus);
            let (w, s) = daemon::command_step(v, opened->Send_0);
            let (x, reply) = settled(w, s, started);
            let page = session::reply_step(opened->Send_1, reply)->Respond_0;
            let done = v.playing || started is Ok;
            &&& x.playing == (!v.playing && started is Ok)
            &&& x.pending is Idle
            &&& page.body is AudioStatusToggle
            &&& done ==> page.trigger == Some("audioStatusToggled"@) && page.err_message is None
            &&& !done ==> page.trigger is None && page.err_message == Some(
                "Failed to toggle audio playback."@,
            )
        }),
{
    crate::engine::laws::lemma_status_is_playing(v);
}

/// A status that cannot be had is shown as not available, with a message.
pub proof fn lemma_status_may_be_missing(e: ErrorView)
    ensures
        session::reply_step(StageView::AskingStatus, Err(e)) == ServeView::Respond(
            ResponseView {
                body: BodyView::AudioStatus("N/A"@),
                err_message: Some("Failed to get audio status."@),
                trigger: None,
                causes: seq![e],
            },
        ),
{
}

// -- Gradients

/// A request for a new gradient puts one without colours under the name that
/// was prompted for, in use, and touches no other. A name that is taken is
/// refused and nothing changes.
pub proof fn lemma_gradient_is_made(
    v: DaemonView,
    header: Seq<u8>,
    name: Seq<char>,
    other: Seq<char>,
)
    requires
        daemon::consistent(v),
        v.pending is Idle,
        routes::prompt(Some(header)) == Some(name),
    ensures
        ({
            let opened = session::open_step(RequestView::AddGradient(Some(header)));
            let (w, s) = daemon::command_step(v, opened->Send_0);
            let page = session::reply_step(opened->Send_1, s.next->Reply_0)->Respond_0;
            let taken = v.gradients.gradients.contains_key(name);
            &&& page.body is GradientsEdited
            &&& taken ==> w == v && page.err_message == Some("Failed to add gradient."@)
                && page.trigger is None
            &&& !taken ==> {
                &&& w.gradients.gradients.contains_key(name)
                &&& w.gradients.gradients[name].len() == 0
                &&& w.gradients.current == Some(name)
                &&& other != name && v.gradients.gradients.contains_key(other)
                    ==> w.gradients.gradients.contains_key(other) && w.gradients.gradients[other]
                    == v.gradients.gradients[other]
                &&& page.err_message is None && page.trigger == Some("gradientsEdited"@)
            }
        }),
{
    crate::engine::laws::lemma_gradients_are_added(v, name, Seq::empty(), false, other);
}

/// A request to delete a gradient takes out the one of the name that was
/// prompted for, and no other.
pub proof fn lemma_gradient_is_removed(
    v: DaemonView,
    header: Seq<u8>,
    name: Seq<char>,
    other: Seq<char>,
)
    requires
        daemon::consistent(v),
        v.pending is Idle,
        routes::prompt(Some(header)) == Some(name),
    ensures
        ({
            let opened = session::open_step(RequestView::DeleteGradient(Some(header)));
            let (w, s) = daemon::command_step(v, opened->Send_0);
            let page = session::reply_step(opened->Send_1, s.next->Reply_0)->Respond_0;
            &&& !w.gradients.gradients.contains_key(name)
            &&& other != name && v.gradients.gradients.contains_key(other)
                ==> w.gradients.gradients.contains_key(other) && w.gradients.gradients[other]
                == v.gradients.gradients[other]
            &&& page.body is GradientsEdited
            &&& page.err_message is None && page.trigger == Some("gradientsEdited"@)
        }),
{
}

/// Without a name nothing is sent, and the page says that there has to be one.
pub proof fn lemma_gradients_need_names(header: Option<Seq<u8>>)
    requires
        routes::prompt(header) is None,
    ensures
        ({
            let page = ServeView::Respond(
                ResponseView {
                    body: BodyView::GradientsEdited,
                    err_message: Some("Gradient must have a name."@),
                    trigger: None,
                    causes: Seq::empty(),
                },
            );
            &&& session::open_step(RequestView::AddGradient(header)) == page
            &&& session::open_step(RequestView::DeleteGradient(header)) == page
        }),
{
}

/// An edit reads the gradient of its name, edits what it got, and stores that
/// under the same name in place of the old. If it cannot be read, or the edit
/// is refused, nothing is sent, and the page says what failed and why.
pub proof fn lemma_edits_read_and_write(
    name: Seq<char>,
    edit: EditView,
    stops: Seq<Stop>,
    e: ErrorView,
)
    ensures
        ({
            let opened = session::open_step(RequestView::EditGradient(name, edit));
            let stored = session::reply_step(opened->Send_1, Ok(ReplyView::Gradient(stops)));
            let unread = session::reply_step(opened->Send_1, Err(e));
            let after = routes::edited(stops, edit);
            &&& opened is Send && opened->Send_0 == (CommandView::GetGradient { name })
            &&& after is Ok ==> {
                &&& stored is Send
                &&& stored->Send_0 == (CommandView::AddGradient {
                    name,
                    gradient: after->Ok_0,
                    overwrite: true,
                })
                &&& session::reply_step(
                    stored->Send_1,
                    Ok(ReplyView::Done),
                )->Respond_0.trigger == Some("gradientsEdited"@)
                &&& session::reply_step(stored->Send_1, Err(e))->Respond_0.causes == seq![e]
                &&& session::reply_step(
                    stored->Send_1,
                    Err(e),
                )->Respond_0.err_message == unread->Respond_0.err_message
            }
            &&& after is Err ==> stored is Respond && stored->Respond_0.causes == seq![
                after->Err_0,
            ] && stored->Respond_0.err_message == unread->Respond_0.err_message
                && stored->Respond_0.trigger is None
            &&& unread is Respond && unread->Respond_0.causes == seq![e]
            &&& unread->Respond_0.err_message is Some && unread->Respond_0.trigger is None
        }),
{
}

/// What is said of an edit that failed, by the kind of the edit.
pub proof fn lemma_change_messages(
    name: Seq<char>,
    index: nat,
    text: Seq<char>,
    position: Single,
    e: ErrorView,
)
    ensures
        ({
            let said = |edit: EditView|
                session::reply_step(StageView::Reading(name, edit), Err(e))->Respond_0.err_message;
            &&& said(EditView::Add) == Some("Failed to add colour."@)
            &&& said(EditView::Delete(index)) == Some("Failed to delete colour."@)
            &&& said(EditView::Value(index, text)) == Some("Failed to edit colour."@)
            &&& said(EditView::Position(index, position)) == Some(
                "Failed to edit colour position."@,
            )
        }),
        session::reply_step(
            StageView::Saving(Change::AddGradient),
            Err(e),
        )->Respond_0.err_message == Some("Failed to add gradient."@),
        session::reply_step(
            StageView::Saving(Change::DeleteGradient),
            Err(e),
        )->Respond_0.err_message == Some("Failed to delete gradient."@),
        session::reply_step(StageView::Saving(Change::AddColour), Err(e))->Respond_0.err_message
            == Some("Failed to add colour."@),
        session::reply_step(
            StageView::Saving(Change::DeleteColour),
            Err(e),
        )->Respond_0.err_message == Some("Failed to delete colour."@),
        session::reply_step(
            StageView::Saving(Change::EditColourValue),
            Err(e),
        )->Respond_0.err_message == Some("Failed to edit colour."@),
        session::reply_step(
            StageView::Saving(Change::EditColourPosition),
            Err(e),
        )->Respond_0.err_message == Some("Failed to edit colour position."@),
{
}

} // verus!
