//! A running application.
//!
//! An [`Instance`] takes the events of the event loop with [`Instance::handle`]. What is to be done
//! about an event is then asked for with [`Instance::advance`], one [`Command`] at a time, until
//! there is nothing left to do. Each command is carried out before the next one is asked for, and
//! what came of it goes back as a [`Reply`].

use crate::action::{Action, ClipboardKind, Direction, Level, UserAttention};
use crate::control::Control;
use crate::conversion::{ThemeMode, WindowMode, WindowTheme};
use crate::flow::ControlFlow;
use crate::fx;
use crate::host::Host;
use crate::input::{FingerEvent, WindowInput};
use crate::platform::Platform;
use crate::rebuild::{Build, BuildView};
use crate::update::{Polled, Update, UpdateView};
use crate::window_man::{RedrawRequest, WindowManager, Windows};
use rustc_hash::FxHashMap;
use vstd::prelude::*;

pub mod asking;
pub mod course;
pub mod delivery;
pub mod drawing;
pub mod frames;
pub mod inputs;
pub mod interfaces;
pub mod laws;
pub mod life;
pub mod messages;
pub mod model;
pub mod openings;
pub mod order;
pub mod pace;
pub mod protocol;
pub mod refreshing;
pub mod showing;
pub mod tally;
pub mod upkeep;
pub mod visiting;
pub mod whole;

mod acting;
mod frame;
mod opening;
mod receiving;
mod refresh;
mod waiting;

pub use waiting::take_events;

use model::{emit, first_do, initial, noted, perform, rest_of, single_step, step, with_window};
use order::{goes_well, inv};
use protocol::{accepts, job_accepts, job_valid, ready};
use upkeep::{lemma_ready, steps_go_well};

verus! {

/// An event of a user interface that waits to be delivered.
pub enum UiEvent<E> {
    /// The window has been closed.
    Closed,
    /// Any other event.
    Host(E),
}

/// Whether a user interface made use of an event.
#[derive(Clone, Copy, Debug, PartialEq, Eq, Structural)]
pub enum Status {
    Ignored,
    Captured,
}

/// What a user interface is like after some events.
pub enum UiState<H: Host> {
    /// It no longer shows what the program is like.
    Outdated,
    /// It is up to date.
    Updated {
        redraw_request: RedrawRequest,
        mouse_interaction: H::Interaction,
        input_method: H::InputMethod,
        has_layout_changed: bool,
    },
}

/// Why a frame could not be presented.
#[derive(Clone, Copy, Debug, PartialEq, Eq, Structural)]
pub enum SurfaceError {
    Timeout,
    Outdated,
    Lost,
    OutOfMemory,
    Other,
}

/// Why the event loop woke up.
#[derive(Clone, Copy, Debug, PartialEq, Eq, Structural)]
pub enum StartCause {
    /// It has just been started.
    Init,
    /// The time that it waited for has come.
    ResumeTimeReached,
    Other,
}

/// What an application is run with.
#[derive(Clone, Copy, Debug, PartialEq, Eq, Structural)]
pub struct Config {
    pub platform: Platform,
    /// Whether the application goes on without windows.
    pub is_daemon: bool,
    /// Whether every window is drawn again after every event.
    pub unconditional_rendering: bool,
    /// Whether the application can tell what the system is like.
    pub system_information: bool,
}

/// An event that an application is told of.
pub enum Event<H: Host> {
    /// The system has created a window.
    WindowCreated {
        id: u64,
        raw: u64,
        exit_on_close_request: bool,
        make_visible: bool,
        channel: H::Channel,
    },
    /// The event loop woke up, at the given time.
    NewEvents { cause: StartCause, now: u64 },
    /// The program asks for an action.
    UserEvent(Action<H>),
    /// The system wants a window to be drawn.
    RedrawRequested { raw: u64 },
    /// Anything else happened to a window.
    WindowEvent { raw: u64, input: WindowInput },
    /// There are no more events for now.
    AboutToWait,
    Resumed,
    Suspended,
    Exit,
    Other,
}

/// Something to do to one window.
pub enum WindowOp<H: Host> {
    RequestRedraw,
    SetTheme(Option<WindowTheme>),
    SetVisible(bool),
    SetFullscreen(WindowMode),
    Drag,
    DragResize(Direction),
    Resize(H::Size),
    SetMinSize(Option<H::Size>),
    SetMaxSize(Option<H::Size>),
    SetResizeIncrements(Option<H::Size>),
    SetResizable(bool),
    SetMaximized(bool),
    SetMinimized(bool),
    SetDecorations(bool),
    SetPosition(H::Point),
    SetIcon(H::Icon),
    SetLevel(Level),
    SetCursorHittest(bool),
    RequestUserAttention(Option<UserAttention>),
    Focus,
    ShowMenu(H::Point),
    SendSize(H::Channel),
    SendMaximized(H::Channel),
    SendMinimized(H::Channel),
    SendPosition(H::Channel),
    SendScaleFactor(H::Channel),
    SendMonitorSize(H::Channel),
    SendMode(H::Channel, WindowMode),
    SendRawId(H::Channel, u64),
    Run(H::Callback),
    Screenshot(H::Channel),
    AllocateImage { image: H::Image, channel: H::Channel },
    /// Bring the title, the scale and the theme in line with the program.
    Synchronize,
    /// Note that the theme of the system is now this one.
    ChangeTheme(WindowTheme),
    /// Note the event of the window that is being handled.
    NoteEvent,
    UpdateMouse(H::Interaction),
    RequestInputMethod(H::InputMethod),
    ConfigureSurface,
    RecreateSurface,
    /// Begin a frame: take the time, the cursor and the logical size.
    BeginFrame,
    /// Draw the user interface.
    Draw,
    DrawPreedit,
    /// Tell the subscriptions of the frame.
    BroadcastFrame,
}

/// Something to do whose outcome makes no difference.
pub enum Effect<H: Host> {
    Window { id: u64, op: WindowOp<H> },
    Control(Control<H>),
    /// Ask the event loop for a new window, on the monitor of another one if there is one.
    Open { id: u64, settings: H::Settings, channel: H::Channel, monitor_of: Option<u64> },
    /// Tell that a window is open.
    Opened { id: u64, channel: H::Channel },
    /// Tell the subscriptions of an event.
    Broadcast { id: u64, event: UiEvent<H::Event>, status: Status },
    /// Tell the subscriptions of the theme of the system.
    BroadcastTheme(ThemeMode),
    /// Make room for this many actions that have been run.
    FreeSlots(usize),
    /// Put off an action until the event loop gets to it.
    Defer(Action<H>),
    ReadClipboard { target: ClipboardKind, channel: H::Channel },
    WriteClipboard { target: ClipboardKind, contents: String },
    DisconnectClipboard,
    SendId { channel: H::Channel, id: Option<u64> },
    SendTheme { channel: H::Channel, mode: ThemeMode },
    SendInformation(H::Channel),
    DropCompositor,
    LoadFont { bytes: H::Font, channel: H::Channel },
    /// Hand the stream of the last task to the executor.
    Spawn,
    /// Track what the program subscribes to.
    Track,
}

/// What is to be done next. A type `U` of user interfaces may be bound to the program, so it is not
/// one of the types of a [`Host`].
pub enum Command<H: Host, U> {
    /// Nothing: the event has been dealt with.
    Idle,
    /// Nothing, for now.
    Proceed,
    Effect(Effect<H>),
    /// Create the compositor. Replied to with [`Reply::Compositor`].
    CreateCompositor,
    /// Set up the window that the system has created. Replied to with [`Reply::Window`].
    OpenWindow { id: u64, system_theme: ThemeMode },
    /// Build the first user interface of a window. Replied to with [`Reply::FirstInterface`].
    FirstInterface { id: u64 },
    /// Make the event that tells of the opening. Replied to with [`Reply::Event`].
    ReadOpened { id: u64 },
    /// Connect the clipboard to a window. Replied to with [`Reply::Flag`].
    ConnectClipboard { id: u64 },
    /// Turn a user interface into its cache. Replied to with [`Reply::Cache`].
    IntoCache { id: u64, interface: U },
    /// Build a user interface, from a fresh cache if none is given. Replied to with
    /// [`Reply::Interface`].
    Build { id: u64, cache: Option<H::Cache> },
    /// Recompute the layout of a user interface. Replied to with [`Reply::Interface`].
    Relayout { id: u64, interface: U },
    /// Update the program. Replied to with [`Reply::Flag`]: whether its task has a stream.
    UpdateProgram(H::Message),
    /// Poll the stream of the last task. Replied to with [`Reply::Polled`].
    Poll,
    /// Show the events in [`Instance::window_events`] to a user interface. Replied to with
    /// [`Reply::Interacted`].
    Interact { id: u64 },
    /// Tell a user interface of the frame. Replied to with [`Reply::Redrawn`].
    Redraw { id: u64 },
    /// Replied to with [`Reply::Inspected`].
    Inspect { id: u64 },
    /// Replied to with [`Reply::Flag`]: whether the logical size is not that of the frame. The
    /// frame has the new one from then on.
    CheckSize { id: u64 },
    /// Present a frame. Replied to with [`Reply::Presented`].
    Present { id: u64 },
    /// Convert the event of the window that is being handled. Replied to with [`Reply::Event`].
    ConvertEvent { id: u64 },
    /// Make an event of the touch that is being handled. Replied to with [`Reply::Event`].
    ConvertTouch { id: u64, finger: FingerEvent },
    /// Show the widgets of a user interface to an operation. Replied to with [`Reply::Operation`].
    Operate { id: u64, operation: H::Operation },
    /// Replied to with [`Reply::Outcome`].
    FinishOperation(H::Operation),
    /// Replied to with [`Reply::Mode`].
    ReadMode { id: u64 },
    /// Replied to with [`Reply::Flag`].
    ReadMaximized { id: u64 },
    /// Replied to with [`Reply::Flag`].
    ReadDecorated { id: u64 },
    /// Replied to with [`Reply::Cursor`].
    ReadCursor { id: u64 },
}

/// What came of a command.
pub enum Reply<H: Host, U> {
    /// Nothing to speak of.
    Done,
    Flag(bool),
    Compositor(Result<(), H::Error>),
    /// A window, the version of its surface and the tone of its theme.
    Window { window: H::Window, surface_version: u64, theme_mode: ThemeMode },
    /// A user interface and a fresh cache.
    FirstInterface { interface: U, cache: H::Cache },
    Interface(U),
    Cache(H::Cache),
    Event(Option<H::Event>),
    Polled(Polled<Action<H>>),
    /// The state of a user interface, what it did with each event, and the messages that came of it.
    Interacted { state: UiState<H>, statuses: Vec<Status>, messages: Vec<H::Message> },
    /// The state of a user interface and the messages that came of it.
    Redrawn { state: UiState<H>, messages: Vec<H::Message> },
    /// The physical size of a window and the version that its surface should have.
    Inspected { width: u32, height: u32, surface_version: u64 },
    Presented(Result<(), SurfaceError>),
    Operation(H::Operation),
    /// The operation to go on with, if any.
    Outcome(Option<H::Operation>),
    /// Whether a window is visible, if that is known, and whether it covers a screen.
    Mode { visible: Option<bool>, fullscreen: bool },
    /// Where the cursor is, if it is over the window.
    Cursor(Option<H::Point>),
}

/// A step in the opening of a window.
pub enum Opening<H: Host> {
    MakeCompositor,
    AwaitCompositor,
    Open { id: u64, raw: u64, exit_on_close_request: bool, make_visible: bool, channel: H::Channel },
    AwaitWindow {
        id: u64,
        raw: u64,
        exit_on_close_request: bool,
        make_visible: bool,
        channel: H::Channel,
    },
    FirstInterface { id: u64 },
    AwaitFirst { id: u64 },
    ReadOpened { id: u64 },
    AwaitOpened { id: u64 },
    Finish,
}

/// A step in the run of an action. Places are places among the open windows.
pub enum Acting<H: Host> {
    Run(Action<H>),
    Count,
    Operate { operation: H::Operation, next: usize },
    AwaitOperation { next: usize },
    AwaitOutcome,
    RelayoutAll { next: usize },
    AwaitRelaid { id: u64, next: usize },
    ReloadAll { next: usize },
    AwaitReloadCache { id: u64, next: usize },
    AwaitReloaded { id: u64, next: usize },
    AwaitMode { id: u64, channel: H::Channel },
    AwaitMaximized { id: u64 },
    AwaitDecorated { id: u64 },
    AwaitCursor { id: u64 },
}

/// Something to do to one window after the other, from a place on.
pub enum Sweep {
    Redraw { next: usize, except: Option<u64> },
    Expire { next: usize, now: u64 },
    ChangeTheme { next: usize, theme: WindowTheme },
}

/// A step in the update of the program and of all user interfaces.
pub enum Refresh {
    Caching { next: usize },
    AwaitCache { id: u64, next: usize },
    Updating,
    Building,
}

/// A step in the drawing of a frame.
pub enum Frame {
    Inspect { id: u64 },
    AwaitInspect { id: u64 },
    Relayout { id: u64 },
    AwaitRelayout { id: u64 },
    Redraw { id: u64, count: usize },
    AwaitRedraw { id: u64, count: usize },
    Check { id: u64, count: usize },
    AwaitSize { id: u64, count: usize },
    Present { id: u64 },
    AwaitPresent { id: u64 },
}

/// A step in the delivery of events.
pub enum Waiting {
    Release,
    Check,
    Deliver { next: usize, stale: bool },
    AwaitInteract { id: u64, next: usize, stale: bool },
    BroadcastShown { id: u64 },
    BroadcastRest,
    Finish { stale: bool },
}

/// Something that is still to be done about an event.
pub enum Job<H: Host> {
    Emit(Effect<H>),
    Opening(Opening<H>),
    Acting(Acting<H>),
    Sweep(Sweep),
    Refresh(Refresh),
    /// Run the collected actions. Those on windows may be put off.
    RunCollected { defer: bool },
    Frame(Frame),
    Waiting(Waiting),
    RequestRedraw { id: u64, request: RedrawRequest },
    /// Tell the event loop how long it can wait.
    Flow,
    Connect { id: u64 },
    AwaitConnected { id: u64 },
    ConvertEvent { id: u64 },
    ConvertTouch { id: u64, finger: FingerEvent },
    AwaitEvent { id: u64 },
}

/// A running application.
pub struct Instance<H: Host> {
    config: Config,
    windows: WindowManager<H::Window>,
    is_window_opening: bool,
    system_theme: ThemeMode,
    compositor: bool,
    clipboard: Option<u64>,
    events: Vec<(u64, UiEvent<H::Event>)>,
    messages: Vec<H::Message>,
    actions: usize,
    ui_caches: FxHashMap<u64, H::Cache>,
    caches: FxHashMap<u64, H::Cache>,
    update: Update<H::Message, Action<H>>,
    build: Build<H::Cache>,
    collected: Vec<Action<H>>,
    window_events: Vec<UiEvent<H::Event>>,
    statuses: Vec<Status>,
    finished: bool,
    /// What is still to be done, the last job first.
    agenda: Vec<Job<H>>,
}

/// The state of a running application.
#[verifier::ext_equal]
pub ghost struct Model<H: Host> {
    pub config: Config,
    /// The open windows.
    pub windows: Windows<H::Window>,
    /// Whether a window has been asked for that is not open yet.
    pub is_window_opening: bool,
    /// The tone of the theme of the system.
    pub system_theme: ThemeMode,
    /// Whether there is a compositor.
    pub compositor: bool,
    /// The window that the clipboard is connected to, by its name for the system.
    pub clipboard: Option<u64>,
    /// The events of windows that are still to be delivered.
    pub events: Seq<(u64, UiEvent<H::Event>)>,
    /// The messages that are still to be applied to the program.
    pub messages: Seq<H::Message>,
    /// The number of actions that have been run since room was last made for more.
    pub actions: int,
    /// A fresh cache for each window.
    pub ui_caches: Map<u64, H::Cache>,
    /// What is left of the user interfaces while the program is updated.
    pub caches: Map<u64, H::Cache>,
    /// The update of the program in progress.
    pub update: UpdateView<H::Message, Action<H>>,
    /// The construction of user interfaces in progress.
    pub build: BuildView<H::Cache>,
    /// The actions that the last update yielded and that are still to be run.
    pub collected: Seq<Action<H>>,
    /// The events that a user interface is shown.
    pub window_events: Seq<UiEvent<H::Event>>,
    /// What the user interface did with them.
    pub statuses: Seq<Status>,
    /// Whether the application has ended.
    pub finished: bool,
    /// What is still to be done, in order.
    pub agenda: Seq<Job<H>>,
}

impl<H: Host> View for Instance<H> {
    type V = Model<H>;

    closed spec fn view(&self) -> Model<H> {
        Model {
            config: self.config,
            windows: self.windows@,
            is_window_opening: self.is_window_opening,
            system_theme: self.system_theme,
            compositor: self.compositor,
            clipboard: self.clipboard,
            events: self.events@,
            messages: self.messages@,
            actions: self.actions as int,
            ui_caches: self.ui_caches@,
            caches: self.caches@,
            update: self.update@,
            build: self.build@,
            collected: self.collected@,
            window_events: self.window_events@,
            statuses: self.statuses@,
            finished: self.finished,
            agenda: self.agenda@.reverse(),
        }
    }
}

impl<H: Host> Instance<H> {
    /// Returns an application that has no window yet.
    pub fn new(config: Config) -> (instance: Self)
        ensures
            instance@ == initial::<H>(config),
    {
        Instance {
            config,
            windows: WindowManager::new(),
            is_window_opening: !config.is_daemon,
            system_theme: ThemeMode::Dark,
            compositor: false,
            clipboard: None,
            events: Vec::new(),
            messages: Vec::new(),
            actions: 0,
            ui_caches: fx::new(),
            caches: fx::new(),
            update: Update::done(),
            build: Build::done(),
            collected: Vec::new(),
            window_events: Vec::new(),
            statuses: Vec::new(),
            finished: false,
            agenda: Vec::new(),
        }
    }

    /// Puts a job before all others.
    fn first_do(&mut self, job: Job<H>)
        ensures
            final(self)@ == first_do(old(self)@, seq![job]),
    {
        let ghost before = self.agenda@;
        self.agenda.push(job);
        assert(self.agenda@.reverse() =~= seq![job] + before.reverse());
    }

    /// Puts an effect on one window before all other jobs.
    fn first_do_to(&mut self, id: u64, op: WindowOp<H>)
        ensures
            final(self)@ == first_do(old(self)@, seq![emit(id, op)]),
    {
        self.first_do(Job::Emit(Effect::Window { id, op }));
    }

    /// Returns whether there is nothing left to do about the last event.
    pub fn is_settled(&self) -> (settled: bool)
        ensures
            settled == (self@.agenda.len() == 0),
    {
        self.agenda.len() == 0
    }

    /// Returns whether the application has ended.
    pub fn is_finished(&self) -> (finished: bool)
        ensures
            finished == self@.finished,
    {
        self.finished
    }

    /// Returns the number of actions that have been run since room was last made for more.
    pub fn actions(&self) -> (actions: usize)
        ensures
            actions == self@.actions,
    {
        self.actions
    }

    /// Returns the events that a user interface is to be shown.
    pub fn window_events(&self) -> (events: &Vec<UiEvent<H::Event>>)
        ensures
            events@ == self@.window_events,
    {
        &self.window_events
    }

    /// Returns what an open window holds.
    pub fn window(&self, id: u64) -> (window: Option<&H::Window>)
        requires
            self@.windows.sorted(),
        ensures
            window == (if self@.windows.has(id) { Some(&self@.windows.at(id).inner) } else { None }),
    {
        match self.windows.get(id) {
            Some(window) => Some(&window.inner),
            None => None,
        }
    }

    /// Returns what an open window holds, to be changed.
    pub fn window_mut(&mut self, id: u64) -> (window: Option<&mut H::Window>)
        requires
            old(self)@.windows.sorted(),
        ensures
            window is Some <==> old(self)@.windows.has(id),
            window is None ==> final(self)@ == old(self)@,
            window matches Some(window) ==> *window == old(self)@.windows.at(id).inner
                && final(self)@ == with_window(old(self)@, id, *final(window)),
    {
        self.windows.get_mut(id)
    }

    /// Takes the next step in dealing with the last event, and returns what is to be done for it.
    /// The reply is that to the command before, or [`Reply::Done`] if there was none since the event
    /// came in.
    pub fn advance<U>(
        &mut self,
        interfaces: &mut FxHashMap<u64, U>,
        reply: Reply<H, U>,
    ) -> (command: Command<H, U>)
        requires
            inv(old(self)@, old(interfaces)@),
            old(self)@.actions < usize::MAX,
            accepts(old(self)@, reply),
        ensures
            final(self)@ == step(old(self)@, old(interfaces)@, reply).model,
            final(interfaces)@ == step(old(self)@, old(interfaces)@, reply).interfaces,
            command == step(old(self)@, old(interfaces)@, reply).command,
            goes_well(step(old(self)@, old(interfaces)@, reply)),
    {
        let _ = self.windows.len();
        proof {
            steps_go_well(self@, interfaces@, reply);
        }
        let ghost before = self@;
        match self.agenda.pop() {
            None => Command::Idle,
            Some(job) => {
                proof {
                    lemma_ready(before, interfaces@, reply);
                    assert(before.agenda[0] == job);
                    assert(self@ =~= rest_of(before));
                }
                self.perform(interfaces, job, reply)
            },
        }
    }

    /// Does one job.
    fn perform<U>(
        &mut self,
        interfaces: &mut FxHashMap<u64, U>,
        job: Job<H>,
        reply: Reply<H, U>,
    ) -> (command: Command<H, U>)
        requires
            ready(old(self)@, old(interfaces)@, job, reply),
        ensures
            final(self)@ == perform(old(self)@, old(interfaces)@, job, reply).model,
            final(interfaces)@ == perform(old(self)@, old(interfaces)@, job, reply).interfaces,
            command == perform(old(self)@, old(interfaces)@, job, reply).command,
    {
        match job {
            Job::Opening(opening) => self.open(interfaces, opening, reply),
            Job::Acting(acting) => self.act(interfaces, acting, reply),
            Job::Sweep(sweep) => self.sweep(sweep),
            Job::Refresh(refresh) => self.refresh(interfaces, refresh, reply),
            Job::RunCollected { defer } => self.run_collected(defer),
            Job::Frame(frame) => self.draw(interfaces, frame, reply),
            Job::Waiting(waiting) => self.deliver(interfaces, waiting, reply),
            _ => self.perform_single(job, reply),
        }
    }

    /// Does a job that takes no further steps of its own kind.
    fn perform_single<U>(&mut self, job: Job<H>, reply: Reply<H, U>) -> (command: Command<H, U>)
        requires
            old(self)@.windows.sorted(),
            job_valid(old(self)@.windows, job),
            job_accepts(old(self)@, job, reply),
        ensures
            forall|ui: Map<u64, U>|
                #![trigger single_step(old(self)@, ui, job, reply)]
                {
                    &&& final(self)@ == single_step(old(self)@, ui, job, reply).model
                    &&& ui == single_step(old(self)@, ui, job, reply).interfaces
                    &&& command == single_step(old(self)@, ui, job, reply).command
                },
    {
        proof {
            reveal(single_step);
        }
        let ghost before = self@;
        proof {
            assert(first_do(before, seq![]) =~= before);
        }
        match job {
            Job::Emit(effect) => Command::Effect(effect),
            Job::RequestRedraw { id, request } => {
                if self.windows.request_redraw(id, request) {
                    Command::Effect(Effect::Window { id, op: WindowOp::RequestRedraw })
                } else {
                    Command::Proceed
                }
            },
            Job::Flow => {
                let flow = match self.windows.redraw_at() {
                    Some(time) => ControlFlow::WaitUntil(time),
                    None => ControlFlow::Wait,
                };
                Command::Effect(Effect::Control(Control::ChangeFlow(flow)))
            },
            Job::Connect { id } => {
                if self.clipboard.is_none() {
                    self.first_do(Job::AwaitConnected { id });
                    Command::ConnectClipboard { id }
                } else {
                    Command::Proceed
                }
            },
            Job::AwaitConnected { id } => {
                self.clipboard = match (reply, self.windows.get(id)) {
                    (Reply::Flag(true), Some(window)) => Some(window.raw),
                    _ => None,
                };
                Command::Proceed
            },
            Job::ConvertEvent { id } => {
                self.first_do(Job::AwaitEvent { id });
                Command::ConvertEvent { id }
            },
            Job::ConvertTouch { id, finger } => {
                self.first_do(Job::AwaitEvent { id });
                Command::ConvertTouch { id, finger }
            },
            Job::AwaitEvent { id } => {
                self.note(id, reply);
                Command::Proceed
            },
            _ => Command::Proceed,
        }
    }

    /// Queues the event that was made, if one was, for a window.
    fn note<U>(&mut self, id: u64, reply: Reply<H, U>)
        ensures
            final(self)@ == noted(old(self)@, id, reply),
    {
        if let Reply::Event(Some(event)) = reply {
            self.events.push((id, UiEvent::Host(event)));
        }
    }
}

} // verus!
