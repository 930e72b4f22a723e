use http::HeaderValue;
use sparrow::engine::audio;
use sparrow::engine::daemon::{Command, Event, Next, PlaybackStatus, Query, Reply};
use sparrow::engine::dmx;
use sparrow::engine::led::{Colour, Gradient};
use sparrow::engine::Daemon;
use sparrow::error::Error;
use sparrow::number::Single;
use sparrow::ui::routes::{
    empty_string_as_none, is_editable, parse_colour_index, parse_hx_prompt, Edit, Request,
};
use sparrow::ui::session::{gradients_edited_resp, Body, Response, Serve, Session};

fn at(position: f32) -> Single {
    Single { bits: position.to_bits() }
}

fn text(s: &str) -> Option<String> {
    Some(s.to_string())
}

fn header(s: &str) -> Option<Vec<u8>> {
    Some(s.as_bytes().to_vec())
}

/// Sends a command to a daemon whose devices all work.
fn answer(daemon: &mut Daemon, command: Command) -> Result<Reply, Error> {
    let names = |list: &[&str]| -> Vec<String> { list.iter().map(|n| n.to_string()).collect() };
    let mut step = daemon.on_command(command);
    loop {
        let event = match step.next {
            Next::Reply(reply) => return reply,
            Next::Finish => panic!("no answer"),
            Next::Ask(Query::Inputs) => Event::Inputs(Ok(names(&["mic", "line"]))),
            Next::Ask(Query::Outputs) => Event::Outputs(Ok(names(&["speaker"]))),
            Next::Ask(Query::Ports) => Event::Ports(Ok(vec![dmx::Port {
                name: "/dev/ttyUSB0".to_string(),
                kind: dmx::PortKind::Usb,
            }])),
            Next::Ask(Query::Open(_)) => Event::Opened(Ok(())),
            Next::Ask(Query::Start(_)) => Event::Started(Ok(())),
        };
        step = daemon.on_event(event);
    }
}

/// Serves a request, and counts the commands that it took.
fn serve(daemon: &mut Daemon, request: Request) -> (Response, usize) {
    let mut commands = 0;
    let mut serve = Session::open(request);
    loop {
        match serve {
            Serve::Respond(response) => return (response, commands),
            Serve::Send(command, session) => {
                commands += 1;
                let reply = answer(daemon, command);
                assert!(session.accepts(&reply));
                serve = session.on_reply(reply);
            }
        }
    }
}

fn daemon() -> Daemon {
    Daemon::new("mic".to_string(), "speaker".to_string())
}

fn stops(daemon: &mut Daemon, name: &str) -> Vec<(String, f32)> {
    match answer(daemon, Command::GetGradient { name: name.to_string() }) {
        Ok(Reply::Gradient(g)) => {
            g.colours.iter().map(|s| (s.0.to_string(), f32::from_bits(s.1.bits))).collect()
        }
        other => panic!("{other:?}"),
    }
}

fn edit(daemon: &mut Daemon, name: &str, edit: Edit) -> Response {
    serve(daemon, Request::EditGradient(name.to_string(), edit)).0
}

fn causes(response: &Response) -> Vec<String> {
    response.causes.iter().map(|e| e.message()).collect()
}

fn saved(response: &Response) -> bool {
    assert!(matches!(response.body, Body::GradientsEdited));
    assert_eq!(response.err_message.is_none(), response.trigger == Some("gradientsEdited"));
    response.err_message.is_none()
}

#[test]
fn empty_parameters_count_as_missing() {
    assert_eq!(empty_string_as_none(None), None);
    assert_eq!(empty_string_as_none(text("")), None);
    assert_eq!(empty_string_as_none(text(" ")), text(" "));
    assert_eq!(empty_string_as_none(text("mic")), text("mic"));
}

#[test]
fn prompts_are_plain_text() {
    assert_eq!(parse_hx_prompt(&None), None);
    assert_eq!(parse_hx_prompt(&header("")), None);
    assert_eq!(parse_hx_prompt(&header("Deep sea\t2~")), text("Deep sea\t2~"));
    assert_eq!(parse_hx_prompt(&header("é")), None);
    assert_eq!(parse_hx_prompt(&Some(vec![0x41, 0x7f])), None);
}

#[test]
fn prompts_are_read_as_headers_are() {
    for b in 0..=255u8 {
        let bytes = vec![0x61, b];
        if let Ok(value) = HeaderValue::from_bytes(&bytes) {
            let expected = match value.to_str().unwrap_or_default() {
                "" => None,
                name => text(name),
            };
            assert_eq!(parse_hx_prompt(&Some(bytes)), expected, "{b}");
        }
    }
}

#[test]
fn an_index_is_checked_against_its_gradient() {
    let mut g = Gradient::new();
    assert!(matches!(parse_colour_index(Ok(g.clone()), 0), Err(Error::ColourIndex)));
    g.add_colour(Colour::black());
    assert_eq!(parse_colour_index(Ok(g.clone()), 0).unwrap().colours.len(), 1);
    assert!(matches!(parse_colour_index(Ok(g), 1), Err(Error::ColourIndex)));
    let missing = parse_colour_index(Err(Error::GradientMissing), 0);
    assert!(matches!(missing, Err(Error::GradientMissing)));
}

#[test]
fn inputs_are_switched_and_listed() {
    let mut d = daemon();
    let (response, commands) = serve(&mut d, Request::AudioInputs(None));
    assert_eq!(commands, 1);
    assert_eq!(response.err_message, None);
    let (response, commands) = serve(&mut d, Request::AudioInputs(text("line")));
    assert_eq!(commands, 2);
    assert_eq!((response.err_message, response.trigger), (None, None));
    match response.body {
        Body::AudioInputs(devices) => {
            assert_eq!(devices.len(), 2);
            assert!(!devices[0].selected && devices[1].selected);
        }
        other => panic!("{other:?}"),
    }
    let (response, _) = serve(&mut d, Request::AudioInputs(text("drum")));
    assert_eq!(response.err_message, Some("Failed to switch input device."));
    match response.body {
        Body::AudioInputs(devices) => assert!(devices[1].selected),
        other => panic!("{other:?}"),
    }
}

#[test]
fn outputs_are_switched_and_listed() {
    let mut d = daemon();
    let (response, commands) = serve(&mut d, Request::AudioOutputs(text("")));
    assert_eq!(commands, 1);
    assert!(matches!(response.body, Body::AudioOutputs(ref list) if list.len() == 1));
    let (response, _) = serve(&mut d, Request::AudioOutputs(text("drum")));
    assert_eq!(response.err_message, Some("Failed to switch input device."));
}

#[test]
fn ports_are_switched_and_listed() {
    let mut d = daemon();
    let selected = |response: &Response| match &response.body {
        Body::DMXOutputs(devices) => devices[0].selected,
        other => panic!("{other:?}"),
    };
    let (response, _) = serve(&mut d, Request::DMXOutputs(text("/dev/ttyUSB0")));
    assert!(selected(&response));
    let (response, _) = serve(&mut d, Request::DMXOutputs(None));
    assert!(selected(&response));
    let (response, commands) = serve(&mut d, Request::DMXOutputs(text("unselected")));
    assert!(!selected(&response));
    assert_eq!((response.err_message, commands), (None, 2));
}

fn after(request: Request, replies: Vec<Result<Reply, Error>>) -> Response {
    let mut serve = Session::open(request);
    for reply in replies {
        match serve {
            Serve::Send(_, session) => {
                assert!(session.accepts(&reply));
                serve = session.on_reply(reply);
            }
            Serve::Respond(response) => panic!("{response:?}"),
        }
    }
    match serve {
        Serve::Respond(response) => response,
        other => panic!("{other:?}"),
    }
}

fn broken() -> Result<Reply, Error> {
    Err(Error::Device("broken".to_string()))
}

#[test]
fn failures_of_lists_are_told() {
    let device = |r: Result<Reply, Error>, list: Result<Reply, Error>| {
        after(Request::AudioInputs(text("mic")), vec![r, list]).err_message
    };
    let none = || Ok(Reply::AudioDevices(Vec::new()));
    assert_eq!(device(Ok(Reply::Done), none()), None);
    assert_eq!(device(broken(), none()), Some("Failed to switch input device."));
    assert_eq!(
        device(Ok(Reply::Done), broken()),
        Some("Switched device, but failed to reload the available input devices. Please refresh the page.")
    );
    assert_eq!(
        device(broken(), broken()),
        Some("Failed to switch device and reload the available input devices. Please refresh the page.")
    );
    let output = after(Request::AudioOutputs(text("x")), vec![Ok(Reply::Done), broken()]);
    assert_eq!(
        output.err_message,
        Some("Switched device, but failed to reload the available input devices. Please refresh the page.")
    );
    assert!(matches!(output.body, Body::AudioOutputs(ref list) if list.is_empty()));

    let port = |r: Result<Reply, Error>, list: Result<Reply, Error>| {
        after(Request::DMXOutputs(text("x")), vec![r, list]).err_message
    };
    let none = || Ok(Reply::DMXDevices(Vec::new()));
    assert_eq!(port(broken(), none()), Some("Failed to switch device."));
    assert_eq!(
        port(Ok(Reply::Done), broken()),
        Some("Switched device, but failed to reload the available devices. Please refresh the page.")
    );
    assert_eq!(
        port(broken(), broken()),
        Some("Failed to switch device and reload the available devices. Please refresh the page.")
    );

    let gradient = |r: Result<Reply, Error>, list: Result<Reply, Error>| {
        after(Request::Gradients(text("x")), vec![r, list]).err_message
    };
    let none = || Ok(Reply::Gradients(Vec::new()));
    assert_eq!(gradient(broken(), none()), Some("Failed to switch gradient."));
    assert_eq!(
        gradient(Ok(Reply::Done), broken()),
        Some("Switched gradient, but failed to reload the available gradients. Please refresh the page.")
    );
    assert_eq!(
        gradient(broken(), broken()),
        Some("Failed to switch gradient and reload the available gradients. Please refresh the page.")
    );
}

#[test]
fn the_status_is_shown() {
    let status = |s: PlaybackStatus| after(Request::AudioStatus, vec![Ok(Reply::Status(s))]);
    let playing = status(PlaybackStatus::Playing);
    assert!(matches!(playing.body, Body::AudioStatus("Playing")));
    assert_eq!(playing.err_message, None);
    assert!(matches!(status(PlaybackStatus::Paused).body, Body::AudioStatus("Paused")));
    let failed = after(Request::AudioStatus, vec![broken()]);
    assert!(matches!(failed.body, Body::AudioStatus("N/A")));
    assert_eq!(failed.err_message, Some("Failed to get audio status."));
}

#[test]
fn toggling_is_announced() {
    let mut d = daemon();
    let (response, commands) = serve(&mut d, Request::ToggleAudioStatus);
    assert_eq!(commands, 1);
    assert!(matches!(response.body, Body::AudioStatusToggle));
    assert_eq!(response.trigger, Some("audioStatusToggled"));
    let (response, _) = serve(&mut d, Request::AudioStatus);
    assert!(matches!(response.body, Body::AudioStatus("Playing")));
    let failed = after(Request::ToggleAudioStatus, vec![broken()]);
    assert_eq!(failed.trigger, None);
    assert_eq!(failed.err_message, Some("Failed to toggle audio playback."));
}

#[test]
fn gradients_are_added_by_name() {
    let mut d = daemon();
    assert!(saved(&serve(&mut d, Request::AddGradient(header("sea"))).0));
    assert!(stops(&mut d, "sea").is_empty());
    let (again, _) = serve(&mut d, Request::AddGradient(header("sea")));
    assert_eq!(again.err_message, Some("Failed to add gradient."));
    let (nameless, commands) = serve(&mut d, Request::AddGradient(None));
    assert_eq!((nameless.err_message, commands), (Some("Gradient must have a name."), 0));
    assert!(!saved(&nameless));
    let (nameless, commands) = serve(&mut d, Request::DeleteGradient(header("")));
    assert_eq!((nameless.err_message, commands), (Some("Gradient must have a name."), 0));
    assert!(saved(&serve(&mut d, Request::DeleteGradient(header("sea"))).0));
    let gone = answer(&mut d, Command::GetGradient { name: "sea".to_string() });
    assert!(matches!(gone, Err(Error::GradientMissing)));
    let failed = after(Request::DeleteGradient(header("sea")), vec![broken()]);
    assert_eq!(failed.err_message, Some("Failed to delete gradient."));
}

#[test]
fn a_chosen_gradient_is_shown() {
    let mut d = daemon();
    for name in ["sea", "fire"] {
        assert!(saved(&serve(&mut d, Request::AddGradient(header(name))).0));
    }
    let (response, commands) = serve(&mut d, Request::Gradients(text("sea")));
    assert_eq!((response.err_message, commands), (None, 2));
    match response.body {
        Body::Gradients(list, Some(selected)) => {
            let names: Vec<&str> = list.iter().map(|g| g.name.as_str()).collect();
            assert_eq!(names, vec!["fire", "sea"]);
            assert_eq!(selected.name, "sea");
            assert!(selected.selected);
        }
        other => panic!("{other:?}"),
    }
    assert!(saved(&serve(&mut d, Request::DeleteGradient(header("sea"))).0));
    let (response, _) = serve(&mut d, Request::Gradients(None));
    assert!(matches!(response.body, Body::Gradients(ref list, None) if list.len() == 1));
    let (response, _) = serve(&mut d, Request::Gradients(text("sea")));
    assert_eq!(response.err_message, Some("Failed to switch gradient."));
}

#[test]
fn edits_are_stored() {
    let mut d = daemon();
    assert!(saved(&serve(&mut d, Request::AddGradient(header("sea"))).0));
    assert!(saved(&serve(&mut d, Request::AddGradient(header("fire"))).0));
    for _ in 0..3 {
        assert!(saved(&edit(&mut d, "sea", Edit::Add)));
    }
    assert!(saved(&edit(&mut d, "sea", Edit::Value(0, "#0000ff".to_string()))));
    assert!(saved(&edit(&mut d, "sea", Edit::Value(1, "#0f0".to_string()))));
    assert!(saved(&edit(&mut d, "sea", Edit::Position(2, at(0.0)))));
    assert!(saved(&edit(&mut d, "sea", Edit::Position(1, at(0.5)))));
    let expected = vec![
        ("#000000".to_string(), 0.0),
        ("#0000ff".to_string(), 0.5),
        ("#00ff00".to_string(), 1.0),
    ];
    assert_eq!(stops(&mut d, "sea"), expected);
    assert!(saved(&edit(&mut d, "sea", Edit::Delete(0))));
    assert_eq!(stops(&mut d, "sea"), expected[1..].to_vec());
    assert!(stops(&mut d, "fire").is_empty());
}

#[test]
fn refused_edits_change_nothing() {
    let mut d = daemon();
    assert!(saved(&serve(&mut d, Request::AddGradient(header("sea"))).0));
    assert!(saved(&edit(&mut d, "sea", Edit::Add)));
    assert!(saved(&edit(&mut d, "sea", Edit::Add)));
    let before = stops(&mut d, "sea");
    let message = |d: &mut Daemon, e: Edit| edit(d, "sea", e).err_message.unwrap();
    assert_eq!(message(&mut d, Edit::Delete(2)), "Failed to delete colour.");
    assert_eq!(message(&mut d, Edit::Value(2, "#fff".to_string())), "Failed to edit colour.");
    assert_eq!(message(&mut d, Edit::Value(0, "blue".to_string())), "Failed to edit colour.");
    let position = "Failed to edit colour position.";
    assert_eq!(message(&mut d, Edit::Position(2, at(0.5))), position);
    assert_eq!(message(&mut d, Edit::Position(0, at(-0.5))), position);
    assert_eq!(message(&mut d, Edit::Position(0, at(1.5))), position);
    assert_eq!(stops(&mut d, "sea"), before);
    let missing = edit(&mut d, "fire", Edit::Add);
    assert_eq!(missing.err_message, Some("Failed to add colour."));
    assert_eq!(causes(&missing), vec!["gradient does not exist"]);
}

#[test]
fn the_reasons_of_failures_are_handed_out() {
    let mut d = daemon();
    assert!(saved(&serve(&mut d, Request::AddGradient(header("sea"))).0));
    let added = edit(&mut d, "sea", Edit::Add);
    assert!(saved(&added) && causes(&added).is_empty());
    let reasons = |d: &mut Daemon, e: Edit| causes(&edit(d, "sea", e));
    assert_eq!(reasons(&mut d, Edit::Delete(1)), vec!["invalid colour index"]);
    assert_eq!(reasons(&mut d, Edit::Position(0, at(2.0))), vec!["invalid colour position"]);
    assert_eq!(
        reasons(&mut d, Edit::Value(0, "blue".to_string())),
        vec!["invalid hex code format, please use format '#fff', 'fff', '#ffffff', 'ffffff', etc."]
    );
    let (again, _) = serve(&mut d, Request::AddGradient(header("sea")));
    assert_eq!(causes(&again), vec!["gradient already exists"]);
    let (nameless, _) = serve(&mut d, Request::AddGradient(None));
    assert!(causes(&nameless).is_empty());
    let missing = || Err(Error::DeviceNotFound("mic".to_string()));
    let inputs = |r: Result<Reply, Error>, list: Result<Reply, Error>| {
        causes(&after(Request::AudioInputs(text("mic")), vec![r, list]))
    };
    let none = || Ok(Reply::AudioDevices(Vec::new()));
    assert!(inputs(Ok(Reply::Done), none()).is_empty());
    assert_eq!(inputs(missing(), none()), vec!["device not found: mic"]);
    assert_eq!(inputs(Ok(Reply::Done), broken()), vec!["broken"]);
    assert_eq!(inputs(missing(), broken()), vec!["device not found: mic", "broken"]);
    assert_eq!(causes(&after(Request::AudioStatus, vec![broken()])), vec!["broken"]);
    assert_eq!(causes(&after(Request::ToggleAudioStatus, vec![broken()])), vec!["broken"]);
}

#[test]
fn replies_of_another_kind_are_not_accepted() {
    let session = |request: Request| match Session::open(request) {
        Serve::Send(_, session) => session,
        other => panic!("{other:?}"),
    };
    assert!(!session(Request::AudioStatus).accepts(&Ok(Reply::Done)));
    assert!(!session(Request::ToggleAudioStatus)
        .accepts(&Ok(Reply::Status(PlaybackStatus::Paused))));
    assert!(!session(Request::AudioInputs(None)).accepts(&Ok(Reply::DMXDevices(vec![]))));
    let devices = vec![audio::DeviceInfo { name: "mic".to_string(), selected: true }];
    assert!(session(Request::AudioInputs(None)).accepts(&Ok(Reply::AudioDevices(devices))));
    assert!(session(Request::AudioInputs(None)).accepts(&broken()));
}

#[test]
fn some_edits_cannot_be_tried() {
    let mut g = Gradient::new();
    g.add_colour(Colour::black());
    g.add_colour(Colour::black());
    assert!(is_editable(&g, &Edit::Position(0, at(0.5))));
    assert!(is_editable(&g, &Edit::Position(0, at(2.0))));
    assert!(is_editable(&g, &Edit::Position(0, at(f32::NAN))));
    assert!(!is_editable(&g, &Edit::Value(0, "1é".to_string())));
    assert!(is_editable(&g, &Edit::Value(2, "1é".to_string())));
    assert!(is_editable(&g, &Edit::Delete(7)));
    // A gradient that was made with a position that is not a number.
    g.colours[0].1 = at(f32::NAN);
    assert!(is_editable(&g, &Edit::Position(0, at(0.5))));
    assert!(is_editable(&g, &Edit::Position(1, at(2.0))));
    assert!(!is_editable(&g, &Edit::Position(1, at(0.5))));
    let edit = Request::EditGradient("sea".to_string(), Edit::Position(1, at(0.5)));
    match Session::open(edit) {
        Serve::Send(_, session) => assert!(!session.accepts(&Ok(Reply::Gradient(g)))),
        other => panic!("{other:?}"),
    }
}

#[test]
fn a_position_has_to_be_a_number() {
    let mut d = daemon();
    assert!(saved(&serve(&mut d, Request::AddGradient(header("sea"))).0));
    for _ in 0..2 {
        assert!(saved(&edit(&mut d, "sea", Edit::Add)));
        let before = stops(&mut d, "sea");
        let refused = edit(&mut d, "sea", Edit::Position(0, at(f32::NAN)));
        assert!(!saved(&refused));
        assert_eq!(refused.err_message, Some("Failed to edit colour position."));
        assert_eq!(stops(&mut d, "sea"), before);
    }
}

#[test]
fn an_edited_page_reloads_or_explains() {
    assert!(saved(&gradients_edited_resp(Ok(()), "unused")));
    let failed = gradients_edited_resp(Err(Error::GradientMissing), "Failed to add colour.");
    assert_eq!((failed.err_message, failed.trigger), (Some("Failed to add colour."), None));
    assert_eq!(causes(&failed), vec!["gradient does not exist"]);
}
