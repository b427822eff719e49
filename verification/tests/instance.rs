use iced_mobile::action::{
    Action, ClipboardAction, ClipboardKind, SystemAction, WindowAction, WindowRequest,
};
use iced_mobile::control::Control;
use iced_mobile::conversion::{ThemeMode, WindowMode, WindowTheme};
use iced_mobile::flow::ControlFlow;
use iced_mobile::host::Host;
use iced_mobile::input::{TouchPhase, WindowInput};
use iced_mobile::instance::{
    Command, Config, Effect, Event, Instance, Reply, StartCause, Status, SurfaceError, UiEvent,
    UiState, WindowOp,
};
use iced_mobile::platform::Platform;
use iced_mobile::update::Polled;
use iced_mobile::window_man::RedrawRequest;
use rustc_hash::FxHashMap;
use std::collections::VecDeque;

struct Desk;

impl Host for Desk {
    type Message = &'static str;
    type Event = &'static str;
    type Window = u32;
    type RawWindow = u64;
    type Cache = String;
    type Settings = &'static str;
    type Creation = u8;
    type Size = u8;
    type Point = u8;
    type Icon = u8;
    type Callback = u8;
    type Channel = u8;
    type Operation = u8;
    type Image = u8;
    type Font = u8;
    type Interaction = u8;
    type InputMethod = u8;
    type LoopEvent = u8;
    type Error = &'static str;
}

const CONFIG: Config = Config {
    platform: Platform::Other,
    is_daemon: false,
    unconditional_rendering: false,
    system_information: false,
};

fn updated(redraw_request: RedrawRequest, has_layout_changed: bool) -> UiState<Desk> {
    UiState::Updated { redraw_request, mouse_interaction: 4, input_method: 5, has_layout_changed }
}

/// A world around an application, which writes down what happens to it.
struct World {
    instance: Instance<Desk>,
    interfaces: FxHashMap<u64, String>,
    log: Vec<String>,
    compositor: Result<(), &'static str>,
    /// The states of the user interfaces that are told of something next, with their messages.
    states: VecDeque<(UiState<Desk>, Vec<&'static str>)>,
    /// What the user interfaces do with the events that they are shown next.
    statuses: VecDeque<Vec<Status>>,
    /// What the stream of the next task yields.
    stream: VecDeque<Polled<Action<Desk>>>,
    presented: VecDeque<Result<(), SurfaceError>>,
    surface_version: u64,
    width: u32,
    /// Whether the logical size is another one than that of the frame.
    resized: bool,
    converts: bool,
    connects: bool,
    chain: Option<u8>,
}

impl World {
    fn new(config: Config) -> Self {
        World {
            instance: Instance::new(config),
            interfaces: FxHashMap::default(),
            log: vec![],
            compositor: Ok(()),
            states: VecDeque::new(),
            statuses: VecDeque::new(),
            stream: VecDeque::new(),
            presented: VecDeque::new(),
            surface_version: 0,
            width: 640,
            resized: false,
            converts: true,
            connects: true,
            chain: None,
        }
    }

    /// A world in which some windows are open.
    fn with_windows(config: Config, ids: &[u64]) -> Self {
        let mut world = World::new(config);
        for id in ids {
            let _ = world.take(created(*id));
            let _ = world.take(Event::AboutToWait);
        }
        world
    }

    fn say(&mut self, line: String) {
        self.log.push(line);
    }

    fn state(&mut self) -> (UiState<Desk>, Vec<&'static str>) {
        self.states
            .pop_front()
            .unwrap_or((updated(RedrawRequest::Wait, false), vec![]))
    }

    fn take(&mut self, event: Event<Desk>) -> Vec<String> {
        assert!(self.instance.is_settled());
        self.instance.handle(event);
        self.go_on(Command::Proceed)
    }

    /// Runs an action outside of any event.
    fn run(&mut self, action: Action<Desk>) -> Vec<String> {
        assert!(self.instance.is_settled());
        let command = self.instance.run_action(&mut self.interfaces, action);
        self.go_on(command)
    }

    fn go_on(&mut self, first: Command<Desk, String>) -> Vec<String> {
        let mut command = first;
        loop {
            let reply = match command {
                Command::Idle => break,
                Command::Proceed => Reply::Done,
                Command::Effect(effect) => {
                    self.say(describe(effect));
                    Reply::Done
                }
                Command::CreateCompositor => {
                    self.say(String::from("compositor"));
                    Reply::Compositor(self.compositor)
                }
                Command::OpenWindow { id, system_theme } => {
                    self.say(format!("window {id} {system_theme:?}"));
                    Reply::Window {
                        window: 0,
                        surface_version: self.surface_version,
                        theme_mode: ThemeMode::Light,
                    }
                }
                Command::FirstInterface { id } => Reply::FirstInterface {
                    interface: format!("interface {id}"),
                    cache: String::from("fresh"),
                },
                Command::ReadOpened { .. } => Reply::Event(Some("opened")),
                Command::ConnectClipboard { id } => {
                    self.say(format!("connect {id}"));
                    Reply::Flag(self.connects)
                }
                Command::IntoCache { id, interface } => {
                    self.say(format!("cache {id}"));
                    Reply::Cache(interface)
                }
                Command::Build { id, cache } => {
                    self.say(format!("build {id}"));
                    Reply::Interface(cache.unwrap_or_else(|| String::from("fresh")))
                }
                Command::Relayout { id, interface } => {
                    self.say(format!("relayout {id}"));
                    Reply::Interface(interface)
                }
                Command::UpdateProgram(message) => {
                    self.say(format!("update {message}"));
                    Reply::Flag(!self.stream.is_empty())
                }
                Command::Poll => {
                    Reply::Polled(self.stream.pop_front().unwrap_or(Polled::Finished))
                }
                Command::Interact { id } => {
                    let events = self.instance.window_events().len();
                    self.say(format!("show {id} {events}"));
                    let (state, messages) = self.state();
                    let statuses = self.statuses.pop_front();
                    let statuses = statuses.unwrap_or(vec![Status::Captured; events]);
                    Reply::Interacted { state, statuses, messages }
                }
                Command::Redraw { id } => {
                    self.say(format!("redraw {id}"));
                    let (state, messages) = self.state();
                    Reply::Redrawn { state, messages }
                }
                Command::Inspect { .. } => Reply::Inspected {
                    width: self.width,
                    height: 480,
                    surface_version: self.surface_version,
                },
                Command::CheckSize { .. } => Reply::Flag(self.resized),
                Command::Present { id } => {
                    self.say(format!("present {id}"));
                    Reply::Presented(self.presented.pop_front().unwrap_or(Ok(())))
                }
                Command::ConvertEvent { .. } => {
                    Reply::Event(if self.converts { Some("event") } else { None })
                }
                Command::ConvertTouch { id, finger } => {
                    self.say(format!("touch {id} {finger:?}"));
                    Reply::Event(Some("touch"))
                }
                Command::Operate { id, operation } => {
                    self.say(format!("operate {id} {operation}"));
                    Reply::Operation(operation + 1)
                }
                Command::FinishOperation(operation) => {
                    self.say(format!("finish {operation}"));
                    Reply::Outcome(self.chain.take())
                }
                Command::ReadMode { .. } => Reply::Mode { visible: None, fullscreen: true },
                Command::ReadMaximized { .. } => Reply::Flag(false),
                Command::ReadDecorated { .. } => Reply::Flag(true),
                Command::ReadCursor { .. } => Reply::Cursor(Some(6)),
            };
            command = self.instance.advance(&mut self.interfaces, reply);
        }
        std::mem::take(&mut self.log)
    }
}

fn describe(effect: Effect<Desk>) -> String {
    match effect {
        Effect::Window { id, op } => format!("{} {id}", describe_op(op)),
        Effect::Control(control) => match control {
            Control::ChangeFlow(ControlFlow::Wait) => String::from("wait"),
            Control::ChangeFlow(ControlFlow::WaitUntil(time)) => format!("wait until {time}"),
            Control::ChangeFlow(ControlFlow::Poll) => String::from("poll"),
            Control::Exit => String::from("exit"),
            Control::Crash(error) => format!("crash {error}"),
            Control::CreateWindow(window) => format!("create {}", window.id),
            Control::SetAutomaticWindowTabbing(enabled) => format!("tabbing {enabled}"),
        },
        Effect::Open { id, settings, channel, monitor_of } => {
            format!("open {id} {settings} {channel} {monitor_of:?}")
        }
        Effect::Opened { id, channel } => format!("opened {id} {channel}"),
        Effect::Broadcast { id, event, status } => match event {
            UiEvent::Closed => format!("tell {id} closed {status:?}"),
            UiEvent::Host(event) => format!("tell {id} {event} {status:?}"),
        },
        Effect::BroadcastTheme(mode) => format!("tell theme {mode:?}"),
        Effect::FreeSlots(actions) => format!("free {actions}"),
        Effect::Defer(action) => match action {
            Action::Window(WindowAction::Close(id)) => format!("defer close {id}"),
            _ => String::from("defer"),
        },
        Effect::ReadClipboard { target, channel } => format!("read {target:?} {channel}"),
        Effect::WriteClipboard { target, contents } => format!("write {target:?} {contents}"),
        Effect::DisconnectClipboard => String::from("disconnect"),
        Effect::SendId { channel, id } => format!("send {channel} {id:?}"),
        Effect::SendTheme { channel, mode } => format!("send {channel} {mode:?}"),
        Effect::SendInformation(channel) => format!("send {channel} information"),
        Effect::DropCompositor => String::from("no compositor"),
        Effect::LoadFont { bytes, channel } => format!("font {bytes} {channel}"),
        Effect::Spawn => String::from("spawn"),
        Effect::Track => String::from("track"),
    }
}

fn describe_op(op: WindowOp<Desk>) -> String {
    match op {
        WindowOp::RequestRedraw => String::from("request"),
        WindowOp::SetTheme(theme) => format!("theme {theme:?}"),
        WindowOp::SetVisible(visible) => format!("visible {visible}"),
        WindowOp::SetFullscreen(mode) => format!("fullscreen {mode:?}"),
        WindowOp::SetMaximized(maximized) => format!("maximized {maximized}"),
        WindowOp::SetDecorations(decorations) => format!("decorations {decorations}"),
        WindowOp::SetCursorHittest(hittest) => format!("hittest {hittest}"),
        WindowOp::ShowMenu(position) => format!("menu {position}"),
        WindowOp::SendMode(channel, mode) => format!("send {channel} {mode:?} of"),
        WindowOp::SendRawId(channel, raw) => format!("send {channel} {raw} of"),
        WindowOp::Screenshot(channel) => format!("screenshot {channel}"),
        WindowOp::AllocateImage { image, channel } => format!("image {image} {channel}"),
        WindowOp::Synchronize => String::from("synchronize"),
        WindowOp::ChangeTheme(theme) => format!("turn {theme:?}"),
        WindowOp::NoteEvent => String::from("note"),
        WindowOp::UpdateMouse(interaction) => format!("mouse {interaction}"),
        WindowOp::RequestInputMethod(method) => format!("input {method}"),
        WindowOp::ConfigureSurface => String::from("configure"),
        WindowOp::RecreateSurface => String::from("recreate"),
        WindowOp::BeginFrame => String::from("begin"),
        WindowOp::Draw => String::from("draw"),
        WindowOp::DrawPreedit => String::from("preedit"),
        WindowOp::BroadcastFrame => String::from("tell frame"),
        WindowOp::Resize(size) => format!("resize {size}"),
        WindowOp::Focus => String::from("focus"),
        _ => String::from("other"),
    }
}

fn created(id: u64) -> Event<Desk> {
    Event::WindowCreated {
        id,
        raw: id + 100,
        exit_on_close_request: id != 3,
        make_visible: true,
        channel: 9,
    }
}

fn window(action: WindowAction<Desk>) -> Event<Desk> {
    Event::UserEvent(Action::Window(action))
}

fn ask(id: u64, request: WindowRequest<Desk>) -> Event<Desk> {
    window(WindowAction::On(id, request))
}

fn input(id: u64, input: WindowInput) -> Event<Desk> {
    Event::WindowEvent { raw: id + 100, input }
}

fn redraw(id: u64) -> Event<Desk> {
    Event::RedrawRequested { raw: id + 100 }
}

fn nothing() -> Vec<String> {
    vec![]
}

#[test]
fn the_first_window_brings_a_compositor() {
    let mut world = World::new(CONFIG);
    assert_eq!(
        world.take(created(1)),
        vec![
            "compositor",
            "window 1 Dark",
            "theme Some(Light) 1",
            "visible true 1",
            "connect 1",
            "opened 1 9",
        ]
    );
    assert_eq!(world.interfaces[&1], "interface 1");
    assert_eq!(
        world.take(created(2)),
        vec!["window 2 Dark", "theme Some(Light) 2", "visible true 2", "opened 2 9"]
    );
    assert_eq!(world.interfaces.len(), 2);
}

#[test]
fn without_a_compositor_there_is_no_window() {
    let mut world = World::new(CONFIG);
    world.compositor = Err("no graphics");
    assert_eq!(world.take(created(1)), vec!["compositor", "crash no graphics"]);
    assert!(world.interfaces.is_empty());
    assert!(world.instance.window(1).is_none());
    assert_eq!(world.take(redraw(1)), nothing());
}

#[test]
fn a_clipboard_that_does_not_connect_is_tried_again() {
    let mut world = World::new(CONFIG);
    world.connects = false;
    assert!(world.take(created(1)).contains(&String::from("connect 1")));
    assert!(world.take(created(2)).contains(&String::from("connect 2")));
}

#[test]
fn opening_is_told_to_the_user_interface() {
    let mut world = World::new(CONFIG);
    let _ = world.take(created(1));
    assert_eq!(
        world.take(Event::AboutToWait),
        vec!["show 1 1", "mouse 4 1", "tell 1 opened Captured", "wait"]
    );
    assert_eq!(world.take(Event::AboutToWait), nothing());
}

#[test]
fn a_start_redraws_every_window() {
    let mut world = World::with_windows(CONFIG, &[2, 1]);
    assert_eq!(
        world.take(Event::NewEvents { cause: StartCause::Init, now: 0 }),
        vec!["request 1", "request 2"]
    );
    assert_eq!(world.take(Event::NewEvents { cause: StartCause::Other, now: 0 }), nothing());
    assert_eq!(world.take(Event::Resumed), nothing());
    assert_eq!(world.take(Event::Suspended), nothing());
    assert_eq!(world.take(Event::Other), nothing());
}

#[test]
fn windows_whose_time_has_come_are_redrawn() {
    let mut world = World::with_windows(CONFIG, &[1, 2]);
    world.states.push_back((updated(RedrawRequest::At(20), false), vec![]));
    world.states.push_back((updated(RedrawRequest::At(30), false), vec![]));
    let _ = world.take(input(1, WindowInput::Other));
    let _ = world.take(input(2, WindowInput::Other));
    assert_eq!(world.take(Event::AboutToWait).last(), Some(&String::from("wait until 20")));
    let wake = |now| Event::NewEvents { cause: StartCause::ResumeTimeReached, now };
    assert_eq!(world.take(wake(19)), vec!["wait until 20"]);
    assert_eq!(world.take(wake(20)), vec!["request 1", "wait until 30"]);
    assert_eq!(world.take(wake(40)), vec!["request 2", "wait"]);
}

#[test]
fn a_request_to_close_closes_a_window_that_exits_on_it() {
    let mut world = World::with_windows(CONFIG, &[1, 3]);
    assert_eq!(world.take(input(1, WindowInput::CloseRequested)), vec!["connect 3"]);
    assert!(world.instance.window(1).is_none());
    assert!(!world.interfaces.contains_key(&1));
    assert_eq!(world.take(input(3, WindowInput::CloseRequested)), vec!["note 3"]);
    assert!(world.instance.window(3).is_some());
    assert_eq!(
        world.take(Event::AboutToWait),
        vec!["show 3 1", "mouse 4 3", "tell 3 event Captured", "tell 1 closed Ignored", "wait"]
    );
}

#[test]
fn the_last_window_takes_the_compositor_along() {
    let mut world = World::with_windows(CONFIG, &[1]);
    assert_eq!(
        world.take(window(WindowAction::Close(1))),
        vec!["disconnect", "no compositor"]
    );
    assert_eq!(world.take(window(WindowAction::Close(1))), vec!["no compositor"]);
    assert_eq!(world.take(Event::AboutToWait), vec!["free 2", "tell 1 closed Ignored", "wait"]);
    assert_eq!(world.take(created(2))[0], "compositor");
}

#[test]
fn a_window_is_closed_once() {
    let mut world = World::with_windows(CONFIG, &[1, 2]);
    assert_eq!(world.take(window(WindowAction::Close(1))), vec!["connect 2"]);
    assert_eq!(world.take(window(WindowAction::Close(1))), nothing());
    assert_eq!(world.take(window(WindowAction::Close(7))), nothing());
    assert!(world.instance.window(2).is_some());
    assert_eq!(world.interfaces.len(), 1);
    assert_eq!(
        world.take(Event::AboutToWait),
        vec!["free 3", "tell 1 closed Ignored", "wait"]
    );
}

#[test]
fn an_action_can_be_run_outside_of_any_event() {
    let mut world = World::with_windows(CONFIG, &[1, 2]);
    assert_eq!(world.run(Action::Window(WindowAction::Close(1))), vec!["connect 2"]);
    assert_eq!(world.run(Action::Window(WindowAction::Close(1))), nothing());
    assert_eq!(world.interfaces.len(), 1);
    assert_eq!(world.run(Action::Reload), vec!["cache 2", "build 2", "request 2"]);
    assert_eq!(world.interfaces[&2], "interface 2");
    assert_eq!(world.instance.actions(), 0);
    assert_eq!(world.take(Event::AboutToWait), vec!["tell 1 closed Ignored", "wait"]);
}

#[test]
fn actions_leave_the_other_windows_alone() {
    let mut world = World::with_windows(CONFIG, &[1, 2, 4]);
    let _ = world.take(ask(1, WindowRequest::Resize(3)));
    let _ = world.take(window(WindowAction::RelayoutAll));
    let _ = world.take(Event::UserEvent(Action::Reload));
    let _ = world.take(Event::UserEvent(Action::Widget(1)));
    assert_eq!(world.interfaces.len(), 3);
    let _ = world.take(window(WindowAction::Close(2)));
    for id in [1, 4] {
        assert!(world.instance.window(id).is_some());
        assert_eq!(world.interfaces[&id], format!("interface {id}"));
    }
    assert!(world.instance.window(2).is_none());
    assert_eq!(world.interfaces.len(), 2);
}

#[test]
fn the_last_window_ends_the_application() {
    let mut world = World::with_windows(CONFIG, &[1]);
    assert_eq!(world.take(input(1, WindowInput::Destroyed)), vec!["note 1"]);
    let _ = world.take(window(WindowAction::Close(1)));
    assert_eq!(world.take(input(1, WindowInput::Other)), nothing());
    assert_eq!(world.take(input(1, WindowInput::Destroyed)), vec!["exit"]);
}

#[test]
fn a_window_on_its_way_keeps_the_application_alive() {
    let mut world = World::new(CONFIG);
    assert_eq!(world.take(input(1, WindowInput::Destroyed)), nothing());
    let mut world = World::with_windows(CONFIG, &[1]);
    assert_eq!(
        world.take(window(WindowAction::Open(2, "settings", 7))),
        vec!["open 2 settings 7 Some(1)"]
    );
    let _ = world.take(window(WindowAction::Close(1)));
    assert_eq!(world.take(input(1, WindowInput::Destroyed)), nothing());
}

#[test]
fn a_daemon_outlives_its_windows() {
    let mut world = World::with_windows(Config { is_daemon: true, ..CONFIG }, &[1]);
    let _ = world.take(window(WindowAction::Close(1)));
    assert_eq!(world.take(input(1, WindowInput::Destroyed)), nothing());
}

#[test]
fn an_exit_finishes_the_application() {
    let mut world = World::new(CONFIG);
    assert!(!world.instance.is_finished());
    assert_eq!(world.take(Event::UserEvent(Action::Exit)), vec!["exit"]);
    assert!(!world.instance.is_finished());
    assert_eq!(world.take(Event::Exit), nothing());
    assert!(world.instance.is_finished());
}

#[test]
fn a_resized_window_is_redrawn() {
    let mut world = World::with_windows(CONFIG, &[1]);
    world.converts = false;
    assert_eq!(world.take(input(1, WindowInput::Resized)), vec!["request 1", "note 1"]);
    assert_eq!(world.take(input(2, WindowInput::Resized)), nothing());
    assert_eq!(world.take(Event::AboutToWait), nothing());
}

#[test]
fn a_touch_is_told_twice() {
    let mut world = World::with_windows(CONFIG, &[1]);
    assert_eq!(
        world.take(input(1, WindowInput::Touch(TouchPhase::Cancelled))),
        vec!["touch 1 Lifted", "note 1", "note 1"]
    );
    assert_eq!(
        world.take(Event::AboutToWait),
        vec![
            "show 1 2",
            "mouse 4 1",
            "tell 1 touch Captured",
            "tell 1 event Captured",
            "wait",
        ]
    );
}

#[test]
fn a_theme_is_told_when_it_changes() {
    let mut world = World::with_windows(CONFIG, &[1]);
    let turn = |theme| input(1, WindowInput::ThemeChanged(theme));
    assert_eq!(world.take(turn(WindowTheme::Dark)), vec!["note 1"]);
    assert_eq!(world.take(turn(WindowTheme::Light)), vec!["tell theme Light", "note 1"]);
    assert_eq!(world.take(turn(WindowTheme::Light)), vec!["note 1"]);
    assert_eq!(
        world.take(Event::UserEvent(Action::System(SystemAction::GetTheme(2)))),
        vec!["send 2 Light"]
    );
}

#[test]
fn a_theme_that_is_notified_turns_every_window() {
    let mut world = World::with_windows(CONFIG, &[1, 2]);
    let notify = |mode| Event::UserEvent(Action::System(SystemAction::NotifyTheme(mode)));
    assert_eq!(
        world.take(notify(ThemeMode::Light)),
        vec!["tell theme Light", "turn Light 1", "turn Light 2"]
    );
    assert_eq!(world.take(notify(ThemeMode::Light)), vec!["turn Light 1", "turn Light 2"]);
    assert_eq!(world.take(notify(ThemeMode::Neutral)), vec!["tell theme Neutral"]);
    assert_eq!(
        world.take(notify(ThemeMode::Dark)),
        vec!["tell theme Dark", "turn Dark 1", "turn Dark 2"]
    );
}

#[test]
fn a_frame_is_drawn_and_presented() {
    let mut world = World::with_windows(CONFIG, &[1]);
    world.states.push_back((updated(RedrawRequest::NextFrame, false), vec![]));
    assert_eq!(
        world.take(redraw(1)),
        vec![
            "begin 1",
            "redraw 1",
            "draw 1",
            "request 1",
            "input 5 1",
            "mouse 4 1",
            "tell frame 1",
            "preedit 1",
            "present 1",
        ]
    );
    assert_eq!(world.take(redraw(2)), nothing());
}

#[test]
fn an_outdated_interface_is_drawn_all_the_same() {
    let mut world = World::with_windows(CONFIG, &[1]);
    for _ in 0..3 {
        world.states.push_back((UiState::Outdated, vec![]));
    }
    assert_eq!(
        world.take(redraw(1)),
        vec![
            "begin 1",
            "redraw 1",
            "redraw 1",
            "redraw 1",
            "draw 1",
            "tell frame 1",
            "preedit 1",
            "present 1",
        ]
    );
}

#[test]
fn a_window_without_an_area_is_not_drawn() {
    let mut world = World::with_windows(CONFIG, &[1]);
    world.width = 0;
    assert_eq!(world.take(redraw(1)), nothing());
}

#[test]
fn a_new_surface_is_configured_once() {
    let mut world = World::with_windows(CONFIG, &[1]);
    world.surface_version = 1;
    assert_eq!(world.take(redraw(1))[..3], ["relayout 1", "configure 1", "begin 1"]);
    assert_eq!(world.take(redraw(1))[0], "begin 1");
}

#[test]
fn messages_of_a_frame_refresh_every_interface() {
    let mut world = World::with_windows(CONFIG, &[1, 2]);
    world.resized = true;
    world.states.push_back((updated(RedrawRequest::Wait, false), vec!["tick"]));
    world.stream.push_back(Polled::Item(Action::Window(WindowAction::Close(1))));
    world.stream.push_back(Polled::Item(Action::System(SystemAction::GetTheme(3))));
    world.stream.push_back(Polled::Pending);
    assert_eq!(
        world.take(redraw(1)),
        vec![
            "begin 1",
            "redraw 1",
            "cache 1",
            "cache 2",
            "update tick",
            "spawn",
            "track",
            "synchronize 1",
            "synchronize 2",
            "build 1",
            "build 2",
            "defer close 1",
            "send 3 Dark",
            "request 2",
            "relayout 1",
            "redraw 1",
            "draw 1",
            "input 5 1",
            "mouse 4 1",
            "tell frame 1",
            "preedit 1",
            "present 1",
        ]
    );
    assert!(world.instance.window(1).is_some());
    assert_eq!(world.interfaces[&1], "interface 1");
}

#[test]
fn a_frame_is_redrawn_thrice_at_most() {
    let mut world = World::with_windows(CONFIG, &[1]);
    for _ in 0..5 {
        world.states.push_back((updated(RedrawRequest::Wait, true), vec!["again"]));
    }
    let log = world.take(redraw(1));
    assert_eq!(log.iter().filter(|line| *line == "redraw 1").count(), 3);
    assert_eq!(log.iter().filter(|line| *line == "update again").count(), 2);
    assert_eq!(log.iter().filter(|line| *line == "draw 1").count(), 1);
}

#[test]
fn a_surface_that_fails_is_mended() {
    let mut world = World::with_windows(CONFIG, &[1, 2]);
    let end = |world: &mut World, error| {
        world.presented.push_back(Err(error));
        let log = world.take(redraw(1));
        let place = log.iter().position(|line| line == "present 1").expect("a frame");
        log[place + 1..].to_vec()
    };
    assert_eq!(end(&mut world, SurfaceError::Outdated), vec!["configure 1", "request 1"]);
    assert_eq!(end(&mut world, SurfaceError::Lost), vec!["recreate 1", "request 1"]);
    assert_eq!(end(&mut world, SurfaceError::Timeout), vec!["request 1", "request 2"]);
    assert_eq!(end(&mut world, SurfaceError::Other), vec!["request 1", "request 2"]);
}

#[test]
fn waiting_applies_messages_and_runs_actions() {
    let mut world = World::with_windows(CONFIG, &[1, 2]);
    world.states.push_back((updated(RedrawRequest::Wait, false), vec!["hello"]));
    world.stream.push_back(Polled::Item(Action::Window(WindowAction::Close(2))));
    world.stream.push_back(Polled::Item(Action::Output("later")));
    let _ = world.take(input(1, WindowInput::Other));
    assert_eq!(
        world.take(Event::AboutToWait),
        vec![
            "show 1 1",
            "mouse 4 1",
            "tell 1 event Captured",
            "show 2 0",
            "mouse 4 2",
            "cache 1",
            "cache 2",
            "update hello",
            "track",
            "synchronize 1",
            "synchronize 2",
            "build 1",
            "build 2",
            "request 1",
            "wait",
        ]
    );
    assert!(world.instance.window(2).is_none());
    assert!(!world.interfaces.contains_key(&2));
    assert_eq!(
        world.take(Event::AboutToWait),
        vec![
            "show 1 0",
            "mouse 4 1",
            "tell 2 closed Ignored",
            "cache 1",
            "update later",
            "track",
            "synchronize 1",
            "build 1",
            "request 1",
            "wait",
        ]
    );
}

#[test]
fn messages_are_applied_once_and_in_order() {
    let mut world = World::with_windows(CONFIG, &[1, 2]);
    world.states.push_back((updated(RedrawRequest::Wait, false), vec!["one", "two"]));
    world.states.push_back((updated(RedrawRequest::Wait, false), vec!["three"]));
    world.states.push_back((updated(RedrawRequest::Wait, false), vec![]));
    world.states.push_back((updated(RedrawRequest::Wait, false), vec!["four"]));
    world.stream.push_back(Polled::Item(Action::Output("five")));
    let _ = world.take(Event::UserEvent(Action::Output("zero")));
    let mut applied = vec![];
    for event in [input(1, WindowInput::Other), Event::AboutToWait, redraw(2), redraw(1)] {
        applied.extend(world.take(event));
    }
    applied.extend(world.take(Event::AboutToWait));
    applied.retain(|line| line.starts_with("update"));
    assert_eq!(
        applied,
        vec![
            "update zero",
            "update one",
            "update two",
            "update three",
            "update five",
            "update four",
        ]
    );
}

#[test]
fn a_stale_interface_is_built_anew() {
    let mut world = World::with_windows(CONFIG, &[1]);
    world.states.push_back((UiState::Outdated, vec![]));
    let _ = world.take(input(1, WindowInput::Other));
    assert_eq!(
        world.take(Event::AboutToWait),
        vec![
            "show 1 1",
            "tell 1 event Captured",
            "cache 1",
            "track",
            "synchronize 1",
            "build 1",
            "request 1",
            "wait",
        ]
    );
}

#[test]
fn ios_redraws_after_events() {
    let mut world = World::with_windows(Config { platform: Platform::Ios, ..CONFIG }, &[1]);
    let _ = world.take(input(1, WindowInput::Other));
    assert_eq!(
        world.take(Event::AboutToWait),
        vec!["show 1 1", "mouse 4 1", "request 1", "tell 1 event Captured", "wait"]
    );
    world.states.push_back((UiState::Outdated, vec![]));
    let _ = world.take(input(1, WindowInput::Other));
    assert_eq!(
        world.take(Event::AboutToWait)[..3],
        ["show 1 1", "request 1", "tell 1 event Captured"]
    );
}

#[test]
fn unconditional_rendering_redraws_in_any_case() {
    let mut world = World::with_windows(Config { unconditional_rendering: true, ..CONFIG }, &[1]);
    world.states.push_back((updated(RedrawRequest::At(9), false), vec![]));
    let _ = world.take(input(1, WindowInput::Other));
    assert_eq!(
        world.take(Event::AboutToWait),
        vec!["show 1 1", "request 1", "mouse 4 1", "tell 1 event Captured", "wait"]
    );
}

#[test]
fn every_action_makes_room_for_another() {
    let mut world = World::new(CONFIG);
    let _ = world.take(Event::UserEvent(Action::Exit));
    let _ = world.take(Event::UserEvent(Action::Exit));
    assert_eq!(world.instance.actions(), 2);
    assert_eq!(world.take(Event::AboutToWait), vec!["free 2"]);
    assert_eq!(world.instance.actions(), 0);
    assert_eq!(world.take(Event::AboutToWait), nothing());
}

#[test]
fn room_is_made_for_the_actions_of_many_events() {
    let mut world = World::with_windows(CONFIG, &[1]);
    let mut freed = 0;
    for count in [3, 0, 1, 5] {
        for _ in 0..count {
            let _ = world.take(window(WindowAction::RedrawAll));
        }
        let _ = world.take(input(1, WindowInput::Other));
        for line in world.take(Event::AboutToWait) {
            if let Some(actions) = line.strip_prefix("free ") {
                freed += actions.parse::<usize>().expect("a number");
            }
        }
    }
    assert_eq!(freed, 9);
    assert_eq!(world.instance.actions(), 0);
}

#[test]
fn every_event_is_told_once() {
    let mut world = World::with_windows(CONFIG, &[1, 2, 4]);
    let _ = world.take(input(4, WindowInput::Other));
    let _ = world.take(input(1, WindowInput::Touch(TouchPhase::Started)));
    let _ = world.take(input(2, WindowInput::Other));
    let _ = world.take(window(WindowAction::Close(2)));
    let _ = world.take(input(4, WindowInput::Other));
    world.states.push_back((UiState::Outdated, vec!["hello"]));
    let log = world.take(Event::AboutToWait);
    let told: Vec<&String> = log.iter().filter(|line| line.starts_with("tell")).collect();
    assert_eq!(
        told,
        vec![
            "tell 1 touch Captured",
            "tell 1 event Captured",
            "tell 4 event Captured",
            "tell 4 event Captured",
            "tell 2 event Ignored",
            "tell 2 closed Ignored",
        ]
    );
    assert_eq!(world.take(Event::AboutToWait), nothing());
}

#[test]
fn events_are_told_in_order_with_what_came_of_them() {
    let mut world = World::with_windows(CONFIG, &[1, 2]);
    let touch = || WindowInput::Touch(TouchPhase::Started);
    let _ = world.take(input(2, touch()));
    let _ = world.take(input(1, WindowInput::Other));
    let _ = world.take(input(2, WindowInput::Other));
    world.statuses.push_back(vec![Status::Ignored]);
    world.statuses.push_back(vec![Status::Captured, Status::Ignored, Status::Captured]);
    let tellings = |log: Vec<String>| -> Vec<String> {
        log.into_iter().filter(|line| line.starts_with("tell")).collect()
    };
    assert_eq!(
        tellings(world.take(Event::AboutToWait)),
        vec![
            "tell 1 event Ignored",
            "tell 2 touch Captured",
            "tell 2 event Ignored",
            "tell 2 event Captured",
        ]
    );
    let _ = world.take(input(1, touch()));
    world.statuses.push_back(vec![Status::Ignored]);
    assert_eq!(tellings(world.take(Event::AboutToWait)), vec!["tell 1 touch Ignored"]);
}

#[test]
fn a_frame_is_drawn_once_however_often_it_is_told() {
    for rounds in 1..6usize {
        let mut world = World::with_windows(CONFIG, &[1, 2]);
        for _ in 1..rounds {
            world.states.push_back((UiState::Outdated, vec!["again"]));
        }
        let log = world.take(redraw(1));
        let times = |what: &str| log.iter().filter(|line| *line == what).count();
        assert_eq!(times("redraw 1"), rounds.min(3));
        assert_eq!(times("draw 1"), 1);
        assert_eq!(times("present 1"), 1);
        assert_eq!(times("draw 2") + times("redraw 2") + times("present 2"), 0);
        assert_eq!(world.interfaces.len(), 2);
    }
}

#[test]
fn the_clipboard_is_read_and_written() {
    let mut world = World::new(CONFIG);
    let read = ClipboardAction::Read { target: ClipboardKind::Primary, channel: 3 };
    assert_eq!(
        world.take(Event::UserEvent(Action::Clipboard(read))),
        vec!["read Primary 3"]
    );
    let write = ClipboardAction::Write {
        target: ClipboardKind::Standard,
        contents: String::from("text"),
    };
    assert_eq!(
        world.take(Event::UserEvent(Action::Clipboard(write))),
        vec!["write Standard text"]
    );
}

#[test]
fn the_oldest_and_the_latest_window_are_told() {
    let mut world = World::new(CONFIG);
    assert_eq!(world.take(window(WindowAction::GetOldest(5))), vec!["send 5 None"]);
    let mut world = World::with_windows(CONFIG, &[2, 1, 4]);
    assert_eq!(world.take(window(WindowAction::GetOldest(5))), vec!["send 5 Some(1)"]);
    assert_eq!(world.take(window(WindowAction::GetLatest(5))), vec!["send 5 Some(4)"]);
}

#[test]
fn requests_reach_open_windows_only() {
    let mut world = World::with_windows(CONFIG, &[1]);
    assert_eq!(world.take(ask(1, WindowRequest::Resize(7))), vec!["resize 7 1"]);
    assert_eq!(world.take(ask(1, WindowRequest::GainFocus)), vec!["focus 1"]);
    assert_eq!(world.take(ask(2, WindowRequest::GainFocus)), nothing());
    assert_eq!(
        world.take(ask(1, WindowRequest::EnableMousePassthrough)),
        vec!["hittest false 1"]
    );
    assert_eq!(
        world.take(ask(1, WindowRequest::DisableMousePassthrough)),
        vec!["hittest true 1"]
    );
    assert_eq!(world.take(ask(1, WindowRequest::ToggleMaximize)), vec!["maximized true 1"]);
    assert_eq!(world.take(ask(1, WindowRequest::ToggleDecorations)), vec!["decorations false 1"]);
    assert_eq!(world.take(ask(1, WindowRequest::ShowSystemMenu)), vec!["menu 6 1"]);
    assert_eq!(world.take(ask(1, WindowRequest::GetRawId(8))), vec!["send 8 101 of 1"]);
    assert_eq!(world.take(ask(1, WindowRequest::GetMode(8))), vec!["send 8 Fullscreen of 1"]);
    assert_eq!(world.take(ask(1, WindowRequest::Screenshot(8))), vec!["screenshot 8 1"]);
}

#[test]
fn a_hidden_mode_hides_a_window() {
    let mut world = World::with_windows(CONFIG, &[1]);
    assert_eq!(
        world.take(ask(1, WindowRequest::SetMode(WindowMode::Hidden))),
        vec!["visible false 1", "fullscreen Hidden 1"]
    );
    assert_eq!(
        world.take(ask(1, WindowRequest::SetMode(WindowMode::Fullscreen))),
        vec!["visible true 1", "fullscreen Fullscreen 1"]
    );
}

#[test]
fn all_windows_are_redrawn_and_laid_out() {
    let mut world = World::with_windows(CONFIG, &[1, 2]);
    assert_eq!(world.take(window(WindowAction::RedrawAll)), vec!["request 1", "request 2"]);
    assert_eq!(
        world.take(window(WindowAction::RelayoutAll)),
        vec!["relayout 1", "request 1", "relayout 2", "request 2"]
    );
    assert_eq!(
        world.take(Event::UserEvent(Action::Reload)),
        vec!["cache 1", "build 1", "request 1", "cache 2", "build 2", "request 2"]
    );
    assert_eq!(
        world.take(window(WindowAction::SetAllowAutomaticTabbing(true))),
        vec!["tabbing true"]
    );
}

#[test]
fn an_operation_sees_every_window_and_may_go_on() {
    let mut world = World::with_windows(CONFIG, &[1, 2]);
    world.chain = Some(20);
    assert_eq!(
        world.take(Event::UserEvent(Action::Widget(10))),
        vec![
            "operate 1 10",
            "operate 2 11",
            "finish 12",
            "operate 1 20",
            "operate 2 21",
            "finish 22",
        ]
    );
}

#[test]
fn fonts_and_images_need_a_window() {
    let font = || Event::UserEvent(Action::LoadFont { bytes: 1, channel: 2 });
    let image = || Event::UserEvent(Action::Image { image: 3, channel: 4 });
    let mut world = World::new(CONFIG);
    assert_eq!(world.take(font()), nothing());
    assert_eq!(world.take(image()), nothing());
    let mut world = World::with_windows(CONFIG, &[2, 1]);
    assert_eq!(world.take(font()), vec!["font 1 2"]);
    assert_eq!(world.take(image()), vec!["image 3 4 1"]);
}

#[test]
fn information_is_sent_where_there_is_some() {
    let ask = || Event::UserEvent(Action::System(SystemAction::GetInformation(6)));
    let informed = Config { system_information: true, ..CONFIG };
    assert_eq!(World::with_windows(CONFIG, &[1]).take(ask()), nothing());
    assert_eq!(World::new(informed).take(ask()), nothing());
    assert_eq!(World::with_windows(informed, &[1]).take(ask()), vec!["send 6 information"]);
}

#[test]
fn what_a_window_holds_is_at_hand() {
    let mut world = World::with_windows(CONFIG, &[1]);
    *world.instance.window_mut(1).expect("an open window") = 8;
    assert_eq!(world.instance.window(1), Some(&8));
    assert!(world.instance.window_mut(2).is_none());
}
