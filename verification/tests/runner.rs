use iced_mobile::control::{Control, NewWindow};
use iced_mobile::flow::ControlFlow;
use iced_mobile::host::Host;
use iced_mobile::input::WindowInput;
use iced_mobile::instance::StartCause;
use iced_mobile::platform::Platform;
use iced_mobile::runner::{Callback, Command, Event, Reply, Runner};
use std::collections::VecDeque;

struct Desk;

impl Host for Desk {
    type Message = u8;
    type Event = u8;
    type Window = u8;
    type RawWindow = u64;
    type Cache = u8;
    type Settings = u8;
    type Creation = &'static str;
    type Size = u8;
    type Point = u8;
    type Icon = u8;
    type Callback = u8;
    type Channel = u8;
    type Operation = u8;
    type Image = u8;
    type Font = u8;
    type Interaction = u8;
    type InputMethod = u8;
    type LoopEvent = &'static str;
    type Error = &'static str;
}

/// An event loop with an application that asks for the next batch of controls with every event.
struct Loop {
    runner: Runner<Desk>,
    exiting: bool,
    finished: bool,
    flow: ControlFlow,
    now: u64,
    batches: VecDeque<Vec<Control<Desk>>>,
    controls: VecDeque<Control<Desk>>,
    log: Vec<String>,
}

impl Loop {
    fn new(platform: Platform) -> Self {
        Loop {
            runner: Runner::new(platform),
            exiting: false,
            finished: false,
            flow: ControlFlow::Wait,
            now: 50,
            batches: VecDeque::new(),
            controls: VecDeque::new(),
            log: vec![],
        }
    }

    fn asks(mut self, controls: Vec<Control<Desk>>) -> Self {
        self.batches.push_back(controls);
        self
    }

    fn reports(&mut self, callback: Callback<Desk>) -> Vec<String> {
        assert!(self.runner.is_settled());
        self.runner.receive(callback);
        let mut reply = Reply::Done;
        loop {
            reply = match self.runner.advance(reply) {
                Command::Idle => break,
                Command::Proceed => Reply::Done,
                Command::AskExiting => Reply::Exiting(self.exiting),
                Command::Send(event) => {
                    self.log.push(match event {
                        Event::WindowCreated {
                            id,
                            window,
                            exit_on_close_request,
                            make_visible,
                            channel,
                        } => format!(
                            "created {id} {window} {exit_on_close_request} {make_visible} {channel}"
                        ),
                        Event::EventLoopAwakened(event) => format!("told {event}"),
                        Event::AboutToWait => String::from("told to wait"),
                        Event::Resumed => String::from("told resumed"),
                        Event::Suspended => String::from("told suspended"),
                        Event::Exit => {
                            self.finished = true;
                            String::from("told exit")
                        }
                    });
                    if let Some(batch) = self.batches.pop_front() {
                        self.controls.extend(batch);
                    }
                    Reply::Done
                }
                Command::Poll => Reply::Polled { ready: self.finished },
                Command::Receive => Reply::Received(self.controls.pop_front()),
                Command::ReadFlow => Reply::Flow { current: self.flow, now: self.now },
                Command::SetFlow(flow) => {
                    self.flow = flow;
                    self.log.push(format!("flow {flow:?}"));
                    Reply::Done
                }
                Command::CreateWindow { id, creation, plan } => {
                    let filling = plan.fills_screen;
                    self.log.push(format!("create {id} {creation} {filling}"));
                    Reply::Created(id + 100)
                }
                Command::SetAutomaticWindowTabbing(enabled) => {
                    self.log.push(format!("tabbing {enabled}"));
                    Reply::Done
                }
                Command::Exit => {
                    self.exiting = true;
                    self.log.push(String::from("exit"));
                    Reply::Done
                }
            };
        }
        std::mem::take(&mut self.log)
    }
}

fn creation(id: u64) -> Control<Desk> {
    Control::CreateWindow(NewWindow {
        id,
        visible: true,
        exit_on_close_request: false,
        creation: "settings",
        channel: 9,
    })
}

#[test]
fn android_puts_windows_off_until_it_is_resumed() {
    let mut android = Loop::new(Platform::Android)
        .asks(vec![creation(1), creation(2), Control::ChangeFlow(ControlFlow::Poll)]);
    assert_eq!(android.reports(Callback::UserEvent("open")), vec!["told open", "flow Poll"]);
    assert_eq!(
        android.reports(Callback::Resumed),
        vec![
            "told resumed",
            "create 1 settings false",
            "created 1 101 false true 9",
            "create 2 settings false",
            "created 2 102 false true 9",
        ]
    );
    assert!(android.reports(Callback::Resumed) == vec!["told resumed"]);
}

#[test]
fn android_puts_windows_off_again_once_it_is_suspended() {
    let mut android = Loop::new(Platform::Android);
    let _ = android.reports(Callback::Resumed);
    assert_eq!(android.reports(Callback::Suspended), vec!["told suspended"]);
    let mut android = android.asks(vec![creation(1)]);
    assert_eq!(android.reports(Callback::AboutToWait), vec!["told to wait"]);
    assert_eq!(
        android.reports(Callback::Resumed),
        vec!["told resumed", "create 1 settings false", "created 1 101 false true 9"]
    );
}

#[test]
fn android_creates_windows_put_off_in_the_order_they_were_asked_for() {
    let mut android = Loop::new(Platform::Android)
        .asks(vec![creation(4), Control::ChangeFlow(ControlFlow::Poll)])
        .asks(vec![Control::ChangeFlow(ControlFlow::Wait), creation(2)])
        .asks(vec![creation(3)]);
    assert_eq!(android.reports(Callback::UserEvent("first")), vec!["told first", "flow Poll"]);
    assert_eq!(android.reports(Callback::AboutToWait), vec!["told to wait", "flow Wait"]);
    // The third window is not put off: it is asked for once the system has resumed.
    let created: Vec<String> = android
        .reports(Callback::Resumed)
        .into_iter()
        .filter(|line| line.starts_with("create ") || line.starts_with("told"))
        .collect();
    assert_eq!(
        created,
        vec![
            "told resumed",
            "create 3 settings false",
            "create 4 settings false",
            "create 2 settings false",
        ]
    );
    assert_eq!(android.reports(Callback::AboutToWait), vec!["told to wait"]);
}

#[test]
fn other_systems_create_windows_at_once() {
    let mut ios = Loop::new(Platform::Ios).asks(vec![creation(3)]);
    assert_eq!(
        ios.reports(Callback::UserEvent("open")),
        vec!["told open", "create 3 settings true", "created 3 103 false true 9"]
    );
}

#[test]
fn android_is_not_told_of_the_start() {
    let start = || Callback::NewEvents { cause: StartCause::Init, event: "start" };
    let wake = || Callback::NewEvents { cause: StartCause::ResumeTimeReached, event: "wake" };
    let mut android = Loop::new(Platform::Android);
    assert!(android.reports(start()).is_empty());
    assert_eq!(android.reports(wake()), vec!["told wake"]);
    let mut ios = Loop::new(Platform::Ios);
    assert_eq!(ios.reports(start()), vec!["told start"]);
}

#[test]
fn windows_lets_the_application_wait_while_a_window_moves() {
    let moved = |input| Callback::WindowEvent { input, event: "moved" };
    let mut windows = Loop::new(Platform::Windows);
    assert_eq!(windows.reports(moved(WindowInput::Moved)), vec!["told moved", "told to wait"]);
    assert_eq!(windows.reports(moved(WindowInput::Resized)), vec!["told moved", "told to wait"]);
    assert_eq!(windows.reports(moved(WindowInput::Other)), vec!["told moved"]);
    let mut macos = Loop::new(Platform::MacOs);
    assert_eq!(macos.reports(moved(WindowInput::Resized)), vec!["told moved"]);
}

#[test]
fn an_exit_tells_the_application_and_ends_the_loop() {
    let mut other = Loop::new(Platform::Other).asks(vec![Control::Exit]);
    let log = other.reports(Callback::UserEvent("leave"));
    assert_eq!(log[..3], ["told leave", "told exit", "exit"]);
    assert!(log[3..].iter().all(|line| line == "exit"));
    assert!(other.exiting);
    assert!(other.reports(Callback::AboutToWait).is_empty());
    assert_eq!(other.runner.finish(), Ok(()));
}

#[test]
fn a_crash_is_reported() {
    let mut other = Loop::new(Platform::Other)
        .asks(vec![Control::Crash("first"), Control::Crash("second")]);
    assert_eq!(
        other.reports(Callback::UserEvent("break")),
        vec!["told break", "exit", "exit"]
    );
    assert_eq!(other.runner.finish(), Err("second"));
}

#[test]
fn an_application_that_ends_ends_the_loop() {
    let mut other = Loop::new(Platform::Other);
    other.finished = true;
    assert_eq!(other.reports(Callback::AboutToWait), vec!["told to wait", "exit"]);
    assert_eq!(Runner::<Desk>::new(Platform::Other).finish(), Ok(()));
}

#[test]
fn a_deadline_to_come_is_kept() {
    let mut other = Loop::new(Platform::Other).asks(vec![
        Control::ChangeFlow(ControlFlow::WaitUntil(60)),
        Control::ChangeFlow(ControlFlow::WaitUntil(70)),
        Control::ChangeFlow(ControlFlow::Wait),
        Control::ChangeFlow(ControlFlow::WaitUntil(55)),
    ]);
    assert_eq!(
        other.reports(Callback::AboutToWait),
        vec!["told to wait", "flow WaitUntil(60)", "flow WaitUntil(55)"]
    );
    assert_eq!(other.flow, ControlFlow::WaitUntil(55));
}

#[test]
fn only_macos_organizes_windows_into_tabs() {
    let mut macos = Loop::new(Platform::MacOs)
        .asks(vec![Control::SetAutomaticWindowTabbing(true)]);
    assert_eq!(macos.reports(Callback::AboutToWait), vec!["told to wait", "tabbing true"]);
    let mut other = Loop::new(Platform::Other)
        .asks(vec![Control::SetAutomaticWindowTabbing(true)]);
    assert_eq!(other.reports(Callback::AboutToWait), vec!["told to wait"]);
}
