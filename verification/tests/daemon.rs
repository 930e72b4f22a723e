use sparrow::engine::daemon::{
    Action, Command, Event, Failure, Next, PlaybackStatus, Query, Reply,
};
use sparrow::engine::dmx::{Port, PortKind};
use sparrow::engine::led::{Colour, Gradient};
use sparrow::engine::Daemon;
use sparrow::error::Error;

/// The devices of a machine, and what was done with them.
struct Machine {
    inputs: Result<Vec<String>, String>,
    outputs: Result<Vec<String>, String>,
    ports: Result<Vec<Port>, String>,
    opens: Result<(), String>,
    starts: Result<(), String>,
    actions: Vec<Action>,
    started: Vec<usize>,
    opened: Vec<String>,
}

fn names(list: &[&str]) -> Vec<String> {
    list.iter().map(|n| n.to_string()).collect()
}

fn machine() -> Machine {
    Machine {
        inputs: Ok(names(&["mic", "line"])),
        outputs: Ok(names(&["speaker", "headphones"])),
        ports: Ok(vec![
            Port { name: "/dev/ttyS0".to_string(), kind: PortKind::Pci },
            Port { name: "/dev/ttyUSB0".to_string(), kind: PortKind::Usb },
        ]),
        opens: Ok(()),
        starts: Ok(()),
        actions: Vec::new(),
        started: Vec::new(),
        opened: Vec::new(),
    }
}

fn daemon() -> Daemon {
    Daemon::new("mic".to_string(), "speaker".to_string())
}

impl Machine {
    /// Runs a command to its answer, none at the end of the daemon.
    fn run(&mut self, daemon: &mut Daemon, command: Command) -> Option<Result<Reply, Error>> {
        self.actions.clear();
        assert!(daemon.is_idle());
        let mut step = daemon.on_command(command);
        loop {
            self.actions.extend(step.actions);
            let query = match step.next {
                Next::Reply(reply) => return Some(reply),
                Next::Finish => return None,
                Next::Ask(query) => query,
            };
            assert!(!daemon.is_idle());
            let event = match query {
                Query::Inputs => Event::Inputs(self.inputs.clone()),
                Query::Outputs => Event::Outputs(self.outputs.clone()),
                Query::Ports => Event::Ports(match &self.ports {
                    Ok(ports) => Ok(ports
                        .iter()
                        .map(|p| Port { name: p.name.clone(), kind: p.kind })
                        .collect()),
                    Err(text) => Err(text.clone()),
                }),
                Query::Open(port) => {
                    self.opened.push(port);
                    Event::Opened(self.opens.clone())
                }
                Query::Start(gradient) => {
                    self.started.push(gradient.colours.len());
                    Event::Started(match &self.starts {
                        Ok(()) => Ok(()),
                        Err(text) => Err(Failure {
                            text: text.clone(),
                            account: format!("account of {text}"),
                        }),
                    })
                }
            };
            assert!(daemon.awaits(&event));
            step = daemon.on_event(event);
        }
    }

    fn done(&mut self, daemon: &mut Daemon, command: Command) {
        match self.run(daemon, command) {
            Some(Ok(Reply::Done)) => {}
            other => panic!("{other:?}"),
        }
    }

    fn fails(&mut self, daemon: &mut Daemon, command: Command) -> String {
        match self.run(daemon, command) {
            Some(Err(error)) => error.message(),
            other => panic!("{other:?}"),
        }
    }

    fn playing(&mut self, daemon: &mut Daemon) -> bool {
        match self.run(daemon, Command::GetAudioStatus) {
            Some(Ok(Reply::Status(status))) => status == PlaybackStatus::Playing,
            other => panic!("{other:?}"),
        }
    }

    fn devices(&mut self, daemon: &mut Daemon, command: Command) -> Vec<(String, bool)> {
        match self.run(daemon, command) {
            Some(Ok(Reply::AudioDevices(list))) => {
                list.into_iter().map(|d| (d.name, d.selected)).collect()
            }
            Some(Ok(Reply::DMXDevices(list))) => {
                list.into_iter().map(|d| (d.name, d.selected)).collect()
            }
            other => panic!("{other:?}"),
        }
    }

    fn choose_port(&mut self, daemon: &mut Daemon, port: Option<&str>) {
        self.done(daemon, Command::SetDMXOutput { device_name: port.map(|p| p.to_string()) });
    }
}

fn marked(list: &[(&str, bool)]) -> Vec<(String, bool)> {
    list.iter().map(|d| (d.0.to_string(), d.1)).collect()
}

#[test]
fn a_new_daemon_is_paused() {
    let (mut m, mut d) = (machine(), daemon());
    assert!(!m.playing(&mut d));
    assert_eq!(
        m.devices(&mut d, Command::ListAudioInputs),
        marked(&[("mic", true), ("line", false)])
    );
    assert_eq!(
        m.devices(&mut d, Command::ListAudioOutputs),
        marked(&[("speaker", true), ("headphones", false)])
    );
    assert_eq!(m.devices(&mut d, Command::ListDMXOutputs), marked(&[("/dev/ttyUSB0", false)]));
    assert!(m.actions.is_empty());
}

#[test]
fn toggling_twice_is_no_change() {
    let (mut m, mut d) = (machine(), daemon());
    m.done(&mut d, Command::ToggleAudioStatus);
    assert!(m.playing(&mut d));
    m.done(&mut d, Command::ToggleAudioStatus);
    assert_eq!(m.actions, vec![Action::ClosePipe]);
    assert!(!m.playing(&mut d));
    assert_eq!(m.started, vec![0]);
}

#[test]
fn audio_that_fails_to_start_pauses() {
    let (mut m, mut d) = (machine(), daemon());
    m.starts = Err("no stream".to_string());
    assert_eq!(m.fails(&mut d, Command::ToggleAudioStatus), "no stream");
    assert_eq!(m.actions, vec![
        Action::ClosePipe,
        Action::ReportFailure("account of no stream".to_string()),
    ]);
    assert!(!m.playing(&mut d));
    m.starts = Ok(());
    m.done(&mut d, Command::ToggleAudioStatus);
    assert!(m.actions.is_empty());
    assert!(m.playing(&mut d));
}

#[test]
fn a_chosen_input_is_used() {
    let (mut m, mut d) = (machine(), daemon());
    m.done(&mut d, Command::SetAudioInput { device_name: "line".to_string() });
    assert_eq!(m.actions, vec![Action::UseInput(1)]);
    assert!(m.started.is_empty());
    m.done(&mut d, Command::ToggleAudioStatus);
    m.done(&mut d, Command::SetAudioInput { device_name: "mic".to_string() });
    assert_eq!(m.actions, vec![Action::UseInput(0)]);
    assert_eq!(m.started.len(), 2);
    assert_eq!(
        m.devices(&mut d, Command::ListAudioInputs),
        marked(&[("mic", true), ("line", false)])
    );
}

#[test]
fn an_unknown_device_is_refused() {
    let (mut m, mut d) = (machine(), daemon());
    m.done(&mut d, Command::ToggleAudioStatus);
    let input = Command::SetAudioInput { device_name: "drum".to_string() };
    assert_eq!(m.fails(&mut d, input), "device not found: drum");
    let output = Command::SetAudioOutput { device_name: Some("drum".to_string()) };
    assert_eq!(m.fails(&mut d, output), "device not found: drum");
    m.inputs = Err("no host".to_string());
    let input = Command::SetAudioInput { device_name: "mic".to_string() };
    assert_eq!(m.fails(&mut d, input), "no host");
    assert!(m.actions.is_empty());
    assert_eq!(m.started.len(), 1);
    assert!(m.playing(&mut d));
}

#[test]
fn a_chosen_output_is_used() {
    let (mut m, mut d) = (machine(), daemon());
    m.done(&mut d, Command::SetAudioOutput { device_name: Some("headphones".to_string()) });
    assert_eq!(m.actions, vec![Action::UseOutput(1)]);
    m.done(&mut d, Command::SetAudioOutput { device_name: None });
    assert_eq!(m.actions, vec![Action::NoOutput]);
    assert_eq!(
        m.devices(&mut d, Command::ListAudioOutputs),
        marked(&[("speaker", false), ("headphones", false)])
    );
    assert!(m.actions.is_empty());
}

#[test]
fn a_device_switch_that_fails_to_start_pauses() {
    let (mut m, mut d) = (machine(), daemon());
    m.done(&mut d, Command::ToggleAudioStatus);
    m.starts = Err("busy".to_string());
    let input = Command::SetAudioInput { device_name: "line".to_string() };
    assert_eq!(m.fails(&mut d, input), "busy");
    assert_eq!(m.actions, vec![
        Action::UseInput(1),
        Action::ClosePipe,
        Action::ReportFailure("account of busy".to_string()),
    ]);
    assert!(!m.playing(&mut d));
    // The device stays chosen.
    assert_eq!(
        m.devices(&mut d, Command::ListAudioInputs),
        marked(&[("mic", false), ("line", true)])
    );
}

#[test]
fn a_lost_output_is_let_go_of() {
    let (mut m, mut d) = (machine(), daemon());
    m.choose_port(&mut d, Some("/dev/ttyUSB0"));
    m.done(&mut d, Command::ToggleAudioStatus);
    m.outputs = Ok(names(&["headphones"]));
    assert_eq!(m.devices(&mut d, Command::ListAudioOutputs), marked(&[("headphones", false)]));
    assert_eq!(m.actions, vec![Action::NoOutput, Action::ClosePipe, Action::StopAgent]);
    assert!(!m.playing(&mut d));
    // Nothing is left to lose.
    m.outputs = Err("no host".to_string());
    assert_eq!(m.fails(&mut d, Command::ListAudioOutputs), "no host");
    assert!(m.actions.is_empty());
}

#[test]
fn outputs_that_cannot_be_listed_are_lost() {
    let (mut m, mut d) = (machine(), daemon());
    m.done(&mut d, Command::ToggleAudioStatus);
    m.outputs = Err("no host".to_string());
    assert_eq!(m.fails(&mut d, Command::ListAudioOutputs), "no host");
    assert_eq!(m.actions, vec![Action::NoOutput, Action::ClosePipe]);
    assert!(!m.playing(&mut d));
}

#[test]
fn inputs_that_cannot_be_listed_are_kept() {
    let (mut m, mut d) = (machine(), daemon());
    m.done(&mut d, Command::ToggleAudioStatus);
    m.inputs = Err("no host".to_string());
    assert_eq!(m.fails(&mut d, Command::ListAudioInputs), "no host");
    m.ports = Err("no bus".to_string());
    assert_eq!(m.fails(&mut d, Command::ListDMXOutputs), "no bus");
    assert!(m.actions.is_empty());
    assert!(m.playing(&mut d));
}

#[test]
fn choosing_a_port_pauses() {
    let (mut m, mut d) = (machine(), daemon());
    m.done(&mut d, Command::ToggleAudioStatus);
    m.choose_port(&mut d, Some("/dev/ttyUSB0"));
    assert_eq!(m.actions, vec![Action::ClosePipe]);
    assert_eq!(m.opened, names(&["/dev/ttyUSB0"]));
    assert!(!m.playing(&mut d));
    assert_eq!(m.devices(&mut d, Command::ListDMXOutputs), marked(&[("/dev/ttyUSB0", true)]));
    m.choose_port(&mut d, None);
    assert_eq!(m.actions, vec![Action::StopAgent]);
    assert_eq!(m.devices(&mut d, Command::ListDMXOutputs), marked(&[("/dev/ttyUSB0", false)]));
}

#[test]
fn a_port_that_fails_to_open_stays_chosen() {
    let (mut m, mut d) = (machine(), daemon());
    m.opens = Err("permission denied".to_string());
    let command = Command::SetDMXOutput { device_name: Some("/dev/ttyUSB0".to_string()) };
    assert_eq!(m.fails(&mut d, command), "permission denied");
    assert_eq!(m.devices(&mut d, Command::ListDMXOutputs), marked(&[("/dev/ttyUSB0", true)]));
    // There is no connection to close.
    m.choose_port(&mut d, None);
    assert!(m.actions.is_empty());
}

#[test]
fn pausing_turns_the_lights_off_and_keeps_them() {
    let (mut m, mut d) = (machine(), daemon());
    m.choose_port(&mut d, Some("/dev/ttyUSB0"));
    m.done(&mut d, Command::ToggleAudioStatus);
    m.done(&mut d, Command::ToggleAudioStatus);
    assert_eq!(m.actions, vec![Action::ClosePipe, Action::Blackout]);
    assert_eq!(m.devices(&mut d, Command::ListDMXOutputs), marked(&[("/dev/ttyUSB0", true)]));
}

#[test]
fn shutting_down_lets_go_of_everything() {
    let (mut m, mut d) = (machine(), daemon());
    m.choose_port(&mut d, Some("/dev/ttyUSB0"));
    m.done(&mut d, Command::ToggleAudioStatus);
    assert!(m.run(&mut d, Command::Shutdown).is_none());
    assert_eq!(m.actions, vec![Action::CloseCommands, Action::ClosePipe, Action::StopAgent]);
    assert!(!d.is_idle());
    assert!(!d.awaits(&Event::Started(Ok(()))));
}

fn one_colour() -> Gradient {
    let mut g = Gradient::new();
    g.add_colour(Colour::black());
    g
}

#[test]
fn gradients_are_kept_and_played_with() {
    let (mut m, mut d) = (machine(), daemon());
    let add = |name: &str, gradient: Gradient, overwrite: bool| Command::AddGradient {
        name: name.to_string(),
        gradient,
        overwrite,
    };
    m.done(&mut d, add("warm", one_colour(), false));
    m.done(&mut d, add("cold", Gradient::new(), false));
    assert_eq!(m.fails(&mut d, add("warm", Gradient::new(), false)), "gradient already exists");
    m.done(&mut d, Command::SetCurrentGradient { name: "warm".to_string() });
    let missing = Command::SetCurrentGradient { name: "hot".to_string() };
    assert_eq!(m.fails(&mut d, missing), "gradient does not exist");
    match m.run(&mut d, Command::ListGradients) {
        Some(Ok(Reply::Gradients(list))) => {
            let shown: Vec<(String, bool)> =
                list.into_iter().map(|g| (g.name, g.selected)).collect();
            assert_eq!(shown, marked(&[("cold", false), ("warm", true)]));
        }
        other => panic!("{other:?}"),
    }
    m.done(&mut d, Command::ToggleAudioStatus);
    assert_eq!(m.started, vec![1]);
    match m.run(&mut d, Command::GetGradient { name: "warm".to_string() }) {
        Some(Ok(Reply::Gradient(g))) => assert_eq!(g.colours.len(), 1),
        other => panic!("{other:?}"),
    }
    // The audio goes on with the gradient it was started with.
    assert!(m.playing(&mut d));
    m.done(&mut d, Command::DeleteGradient { name: "warm".to_string() });
    assert!(m.actions.is_empty());
    assert!(m.playing(&mut d));
    assert_eq!(m.started, vec![1]);
    let gone = Command::GetGradient { name: "warm".to_string() };
    assert_eq!(m.fails(&mut d, gone), "gradient does not exist");
}
