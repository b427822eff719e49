//! What a running application does, as a function of its state.
//!
//! The steps are opaque, so that a proof about one of them is not burdened with all the others. Where
//! the body of a step matters it is revealed.

use super::{
    Acting, Command, Config, Effect, Event, Frame, Job, Model, Opening, Refresh, Reply, StartCause,
    Status, SurfaceError, Sweep, UiEvent, UiState, Waiting, WindowOp,
};
use crate::action::{Action, ClipboardAction, SystemAction, WindowAction, WindowRequest};
use crate::control::Control;
use crate::conversion::{mode_of, theme_of, tone_of, ThemeMode, WindowMode};
use crate::flow::ControlFlow;
use crate::host::Host;
use crate::input::{finger_of, WindowInput};
use crate::platform::Platform;
use crate::rebuild::{build_step, BuildPhase, BuildStep, BuildView};
use crate::update::{starting, update_step, UpdatePhase, UpdateReply, UpdateStep, UpdateView};
use crate::window_man::{RedrawRequest, Window, Windows};
use vstd::prelude::*;

verus! {

/// A state, the user interfaces, and what is to be done.
pub ghost struct Next<H: Host, U> {
    pub model: Model<H>,
    pub interfaces: Map<u64, U>,
    pub command: Command<H, U>,
}

/// The state in which an application starts.
pub open spec fn initial<H: Host>(config: Config) -> Model<H> {
    Model {
        config,
        windows: Windows { entries: Seq::empty(), aliases: Map::empty() },
        is_window_opening: !config.is_daemon,
        system_theme: ThemeMode::Dark,
        compositor: false,
        clipboard: None,
        events: Seq::empty(),
        messages: Seq::empty(),
        actions: 0,
        ui_caches: Map::empty(),
        caches: Map::empty(),
        update: UpdateView {
            messages: Seq::empty(),
            actions: Seq::empty(),
            phase: UpdatePhase::Done,
        },
        build: BuildView { cached: Map::empty(), phase: BuildPhase::Done },
        collected: Seq::empty(),
        window_events: Seq::empty(),
        statuses: Seq::empty(),
        finished: false,
        agenda: Seq::empty(),
    }
}

/// The state in which an open window holds something else.
pub open spec fn with_window<H: Host>(s: Model<H>, id: u64, inner: H::Window) -> Model<H> {
    Model { windows: s.windows.replaced(Window { inner, ..s.windows.at(id) }), ..s }
}

/// Puts some jobs before all others.
pub open spec fn first_do<H: Host>(s: Model<H>, jobs: Seq<Job<H>>) -> Model<H> {
    Model { agenda: jobs + s.agenda, ..s }
}

/// An effect on one window.
pub open spec fn on_window<H: Host, U>(id: u64, op: WindowOp<H>) -> Command<H, U> {
    Command::Effect(Effect::Window { id, op })
}

/// A job that has an effect on one window.
pub open spec fn emit<H: Host>(id: u64, op: WindowOp<H>) -> Job<H> {
    Job::Emit(Effect::Window { id, op })
}

/// Goes on with a state in which some jobs come first, and does something meanwhile.
pub open spec fn goes_on<H: Host, U>(
    s: Model<H>,
    interfaces: Map<u64, U>,
    jobs: Seq<Job<H>>,
    command: Command<H, U>,
) -> Next<H, U> {
    Next { model: first_do(s, jobs), interfaces, command }
}

/// The place after another one.
pub open spec fn after(next: usize) -> usize {
    (next + 1) as usize
}

/// The opening of a window.
#[verifier::opaque]
pub open spec fn open_step<H: Host, U>(
    s: Model<H>,
    ui: Map<u64, U>,
    opening: Opening<H>,
    reply: Reply<H, U>,
) -> Next<H, U> {
    match opening {
        Opening::MakeCompositor => goes_on(
            s,
            ui,
            seq![Job::Opening(Opening::AwaitCompositor)],
            Command::CreateCompositor,
        ),
        Opening::AwaitCompositor => match reply {
            // Without a compositor there is no window. The rest of the opening is abandoned.
            Reply::Compositor(Err(error)) => Next {
                model: Model { agenda: Seq::empty(), ..s },
                interfaces: ui,
                command: Command::Effect(Effect::Control(Control::Crash(error))),
            },
            _ => goes_on(Model { compositor: true, ..s }, ui, seq![], Command::Proceed),
        },
        Opening::Open { id, raw, exit_on_close_request, make_visible, channel } => goes_on(
            s,
            ui,
            seq![
                Job::Opening(
                    Opening::AwaitWindow { id, raw, exit_on_close_request, make_visible, channel },
                ),
            ],
            Command::OpenWindow { id, system_theme: s.system_theme },
        ),
        Opening::AwaitWindow { id, raw, exit_on_close_request, make_visible, channel } => {
            let window = Window {
                id,
                raw,
                exit_on_close_request,
                redraw_at: None,
                surface_version: reply->Window_surface_version,
                inner: reply->window,
            };
            let shown = if make_visible {
                seq![emit(id, WindowOp::SetVisible(true))]
            } else {
                seq![]
            };
            goes_on(
                Model { windows: s.windows.inserted(window), ..s },
                ui,
                seq![Job::Opening(Opening::FirstInterface { id })] + shown + seq![
                    Job::Opening(Opening::ReadOpened { id }),
                    Job::Connect { id },
                    Job::Emit(Effect::Opened { id, channel }),
                    Job::Opening(Opening::Finish),
                ],
                on_window(id, WindowOp::SetTheme(theme_of(reply->theme_mode))),
            )
        },
        Opening::FirstInterface { id } => goes_on(
            s,
            ui,
            seq![Job::Opening(Opening::AwaitFirst { id })],
            Command::FirstInterface { id },
        ),
        Opening::AwaitFirst { id } => goes_on(
            Model { ui_caches: s.ui_caches.insert(id, reply->cache), ..s },
            ui.insert(id, reply->interface),
            seq![],
            Command::Proceed,
        ),
        Opening::ReadOpened { id } => goes_on(
            s,
            ui,
            seq![Job::Opening(Opening::AwaitOpened { id })],
            Command::ReadOpened { id },
        ),
        Opening::AwaitOpened { id } => goes_on(noted(s, id, reply), ui, seq![], Command::Proceed),
        Opening::Finish => goes_on(
            Model { is_window_opening: false, ..s },
            ui,
            seq![],
            Command::Proceed,
        ),
    }
}

/// Queues the event that was made, if one was, for a window.
pub open spec fn noted<H: Host, U>(s: Model<H>, id: u64, reply: Reply<H, U>) -> Model<H> {
    match reply {
        Reply::Event(Some(event)) => Model { events: s.events.push((id, UiEvent::Host(event))), ..s },
        _ => s,
    }
}

/// What is done when a window is closed. A clipboard that hung on it moves to the first window that
/// is left, and the compositor goes with the last window.
pub open spec fn closed<H: Host, U>(s: Model<H>, ui: Map<u64, U>, id: u64) -> Next<H, U> {
    let windows = s.windows.removed(id);
    let was_open = s.windows.has(id);
    let orphaned = was_open && s.clipboard == Some(s.windows.at(id).raw);
    let emptied = windows.entries.len() == 0;
    let reconnect = if !orphaned {
        seq![]
    } else if emptied {
        seq![Job::Emit(Effect::DisconnectClipboard)]
    } else {
        seq![Job::Connect { id: windows.entries[0].id }]
    };
    let cleared = if emptied {
        seq![Job::Emit(Effect::DropCompositor)]
    } else {
        seq![]
    };
    goes_on(
        Model {
            windows,
            ui_caches: s.ui_caches.remove(id),
            clipboard: if orphaned {
                None
            } else {
                s.clipboard
            },
            events: if was_open {
                s.events.push((id, UiEvent::Closed))
            } else {
                s.events
            },
            compositor: s.compositor && !emptied,
            ..s
        },
        ui.remove(id),
        reconnect + cleared,
        Command::Proceed,
    )
}

/// What is done for a request to one window. A window that is not open is asked nothing.
#[verifier::opaque]
pub open spec fn request_step<H: Host, U>(
    s: Model<H>,
    ui: Map<u64, U>,
    id: u64,
    request: WindowRequest<H>,
) -> Next<H, U> {
    if !s.windows.has(id) {
        goes_on(s, ui, seq![], Command::Proceed)
    } else {
        match request {
            WindowRequest::GetMode(channel) => goes_on(
                s,
                ui,
                seq![Job::Acting(Acting::AwaitMode { id, channel })],
                Command::ReadMode { id },
            ),
            WindowRequest::ToggleMaximize => goes_on(
                s,
                ui,
                seq![Job::Acting(Acting::AwaitMaximized { id })],
                Command::ReadMaximized { id },
            ),
            WindowRequest::ToggleDecorations => goes_on(
                s,
                ui,
                seq![Job::Acting(Acting::AwaitDecorated { id })],
                Command::ReadDecorated { id },
            ),
            WindowRequest::ShowSystemMenu => goes_on(
                s,
                ui,
                seq![Job::Acting(Acting::AwaitCursor { id })],
                Command::ReadCursor { id },
            ),
            WindowRequest::SetMode(mode) => goes_on(
                s,
                ui,
                seq![emit(id, WindowOp::SetFullscreen(mode))],
                on_window(id, WindowOp::SetVisible(mode != WindowMode::Hidden)),
            ),
            WindowRequest::Screenshot(channel) => goes_on(
                s,
                ui,
                seq![],
                if s.compositor {
                    on_window(id, WindowOp::Screenshot(channel))
                } else {
                    Command::Proceed
                },
            ),
            WindowRequest::GetRawId(channel) => goes_on(
                s,
                ui,
                seq![],
                on_window(id, WindowOp::SendRawId(channel, s.windows.at(id).raw)),
            ),
            _ => goes_on(s, ui, seq![], on_window(id, plain_op(request))),
        }
    }
}

/// The requests that are carried out just as they are.
pub open spec fn plain_op<H: Host>(request: WindowRequest<H>) -> WindowOp<H> {
    match request {
        WindowRequest::Drag => WindowOp::Drag,
        WindowRequest::DragResize(direction) => WindowOp::DragResize(direction),
        WindowRequest::Resize(size) => WindowOp::Resize(size),
        WindowRequest::GetSize(channel) => WindowOp::SendSize(channel),
        WindowRequest::GetMaximized(channel) => WindowOp::SendMaximized(channel),
        WindowRequest::Maximize(maximized) => WindowOp::SetMaximized(maximized),
        WindowRequest::GetMinimized(channel) => WindowOp::SendMinimized(channel),
        WindowRequest::Minimize(minimized) => WindowOp::SetMinimized(minimized),
        WindowRequest::GetPosition(channel) => WindowOp::SendPosition(channel),
        WindowRequest::GetScaleFactor(channel) => WindowOp::SendScaleFactor(channel),
        WindowRequest::Move(position) => WindowOp::SetPosition(position),
        WindowRequest::RequestUserAttention(attention) => WindowOp::RequestUserAttention(attention),
        WindowRequest::GainFocus => WindowOp::Focus,
        WindowRequest::SetLevel(level) => WindowOp::SetLevel(level),
        WindowRequest::SetIcon(icon) => WindowOp::SetIcon(icon),
        WindowRequest::Run(callback) => WindowOp::Run(callback),
        WindowRequest::EnableMousePassthrough => WindowOp::SetCursorHittest(false),
        WindowRequest::DisableMousePassthrough => WindowOp::SetCursorHittest(true),
        WindowRequest::SetMinSize(size) => WindowOp::SetMinSize(size),
        WindowRequest::SetMaxSize(size) => WindowOp::SetMaxSize(size),
        WindowRequest::SetResizable(resizable) => WindowOp::SetResizable(resizable),
        WindowRequest::SetResizeIncrements(size) => WindowOp::SetResizeIncrements(size),
        WindowRequest::GetMonitorSize(channel) => WindowOp::SendMonitorSize(channel),
        _ => arbitrary(),
    }
}

/// What is done for an action on the windows.
#[verifier::opaque]
pub open spec fn window_action_step<H: Host, U>(
    s: Model<H>,
    ui: Map<u64, U>,
    action: WindowAction<H>,
) -> Next<H, U> {
    match action {
        WindowAction::Open(id, settings, channel) => goes_on(
            Model { is_window_opening: true, ..s },
            ui,
            seq![],
            Command::Effect(
                Effect::Open { id, settings, channel, monitor_of: s.windows.last() },
            ),
        ),
        WindowAction::Close(id) => closed(s, ui, id),
        WindowAction::GetOldest(channel) => goes_on(
            s,
            ui,
            seq![],
            Command::Effect(Effect::SendId { channel, id: s.windows.first() }),
        ),
        WindowAction::GetLatest(channel) => goes_on(
            s,
            ui,
            seq![],
            Command::Effect(Effect::SendId { channel, id: s.windows.last() }),
        ),
        WindowAction::On(id, request) => request_step(s, ui, id, request),
        WindowAction::SetAllowAutomaticTabbing(enabled) => goes_on(
            s,
            ui,
            seq![],
            Command::Effect(Effect::Control(Control::SetAutomaticWindowTabbing(enabled))),
        ),
        WindowAction::RedrawAll => goes_on(
            s,
            ui,
            seq![Job::Sweep(Sweep::Redraw { next: 0, except: None })],
            Command::Proceed,
        ),
        WindowAction::RelayoutAll => goes_on(
            s,
            ui,
            seq![Job::Acting(Acting::RelayoutAll { next: 0 })],
            Command::Proceed,
        ),
    }
}

/// Takes note of the tone of the theme of the system, and tells of it if it is another one.
pub open spec fn theme_noted<H: Host>(s: Model<H>, mode: ThemeMode) -> (Model<H>, Seq<Job<H>>) {
    if mode == s.system_theme {
        (s, seq![])
    } else {
        (Model { system_theme: mode, ..s }, seq![Job::Emit(Effect::BroadcastTheme(mode))])
    }
}

/// What is done for an action.
#[verifier::opaque]
pub open spec fn action_step<H: Host, U>(
    s: Model<H>,
    ui: Map<u64, U>,
    action: Action<H>,
) -> Next<H, U> {
    match action {
        Action::Output(message) => goes_on(
            Model { messages: s.messages.push(message), ..s },
            ui,
            seq![],
            Command::Proceed,
        ),
        Action::Clipboard(ClipboardAction::Read { target, channel }) => goes_on(
            s,
            ui,
            seq![],
            Command::Effect(Effect::ReadClipboard { target, channel }),
        ),
        Action::Clipboard(ClipboardAction::Write { target, contents }) => goes_on(
            s,
            ui,
            seq![],
            Command::Effect(Effect::WriteClipboard { target, contents }),
        ),
        Action::Window(action) => window_action_step(s, ui, action),
        Action::System(SystemAction::GetInformation(channel)) => goes_on(
            s,
            ui,
            seq![],
            if s.config.system_information && s.compositor {
                Command::Effect(Effect::SendInformation(channel))
            } else {
                Command::Proceed
            },
        ),
        Action::System(SystemAction::GetTheme(channel)) => goes_on(
            s,
            ui,
            seq![],
            Command::Effect(Effect::SendTheme { channel, mode: s.system_theme }),
        ),
        Action::System(SystemAction::NotifyTheme(mode)) => {
            let (noted, told) = theme_noted(s, mode);
            let changed = match theme_of(mode) {
                Some(theme) => seq![Job::Sweep(Sweep::ChangeTheme { next: 0, theme })],
                None => seq![],
            };
            goes_on(noted, ui, told + changed, Command::Proceed)
        },
        Action::Widget(operation) => goes_on(
            s,
            ui,
            seq![Job::Acting(Acting::Operate { operation, next: 0 })],
            Command::Proceed,
        ),
        Action::Image { image, channel } => goes_on(
            s,
            ui,
            seq![],
            match s.windows.first() {
                Some(id) => on_window(id, WindowOp::AllocateImage { image, channel }),
                None => Command::Proceed,
            },
        ),
        Action::LoadFont { bytes, channel } => goes_on(
            s,
            ui,
            seq![],
            if s.compositor {
                Command::Effect(Effect::LoadFont { bytes, channel })
            } else {
                Command::Proceed
            },
        ),
        Action::Reload => goes_on(
            s,
            ui,
            seq![Job::Acting(Acting::ReloadAll { next: 0 })],
            Command::Proceed,
        ),
        Action::Exit => goes_on(s, ui, seq![], Command::Effect(Effect::Control(Control::Exit))),
    }
}

/// The run of an action.
#[verifier::opaque]
pub open spec fn act_step<H: Host, U>(
    s: Model<H>,
    ui: Map<u64, U>,
    acting: Acting<H>,
    reply: Reply<H, U>,
) -> Next<H, U> {
    let windows = s.windows.entries;
    match acting {
        Acting::Run(action) => action_step(s, ui, action),
        Acting::Count => goes_on(Model { actions: s.actions + 1, ..s }, ui, seq![], Command::Proceed),
        Acting::Operate { operation, next } => if next < windows.len() {
            goes_on(
                s,
                ui,
                seq![Job::Acting(Acting::AwaitOperation { next: after(next) })],
                Command::Operate { id: windows[next as int].id, operation },
            )
        } else {
            goes_on(
                s,
                ui,
                seq![Job::Acting(Acting::AwaitOutcome)],
                Command::FinishOperation(operation),
            )
        },
        Acting::AwaitOperation { next } => goes_on(
            s,
            ui,
            seq![Job::Acting(Acting::Operate { operation: reply->Operation_0, next })],
            Command::Proceed,
        ),
        Acting::AwaitOutcome => match reply {
            Reply::Outcome(Some(operation)) => goes_on(
                s,
                ui,
                seq![Job::Acting(Acting::Operate { operation, next: 0 })],
                Command::Proceed,
            ),
            _ => goes_on(s, ui, seq![], Command::Proceed),
        },
        Acting::RelayoutAll { next } => if next < windows.len() {
            let id = windows[next as int].id;
            goes_on(
                s,
                ui.remove(id),
                seq![Job::Acting(Acting::AwaitRelaid { id, next: after(next) })],
                Command::Relayout { id, interface: ui[id] },
            )
        } else {
            goes_on(s, ui, seq![], Command::Proceed)
        },
        Acting::AwaitRelaid { id, next } => goes_on(
            s,
            ui.insert(id, reply->Interface_0),
            seq![Job::Acting(Acting::RelayoutAll { next })],
            on_window(id, WindowOp::RequestRedraw),
        ),
        Acting::ReloadAll { next } => if next < windows.len() {
            let id = windows[next as int].id;
            goes_on(
                s,
                ui.remove(id),
                seq![Job::Acting(Acting::AwaitReloadCache { id, next: after(next) })],
                Command::IntoCache { id, interface: ui[id] },
            )
        } else {
            goes_on(s, ui, seq![], Command::Proceed)
        },
        Acting::AwaitReloadCache { id, next } => goes_on(
            s,
            ui,
            seq![Job::Acting(Acting::AwaitReloaded { id, next })],
            Command::Build { id, cache: Some(reply->Cache_0) },
        ),
        Acting::AwaitReloaded { id, next } => goes_on(
            s,
            ui.insert(id, reply->Interface_0),
            seq![Job::Acting(Acting::ReloadAll { next })],
            on_window(id, WindowOp::RequestRedraw),
        ),
        Acting::AwaitMode { id, channel } => goes_on(
            s,
            ui,
            seq![],
            on_window(id, WindowOp::SendMode(channel, mode_of(reply->visible, reply->fullscreen))),
        ),
        Acting::AwaitMaximized { id } => goes_on(
            s,
            ui,
            seq![],
            on_window(id, WindowOp::SetMaximized(!reply->Flag_0)),
        ),
        Acting::AwaitDecorated { id } => goes_on(
            s,
            ui,
            seq![],
            on_window(id, WindowOp::SetDecorations(!reply->Flag_0)),
        ),
        Acting::AwaitCursor { id } => goes_on(
            s,
            ui,
            seq![],
            match reply {
                Reply::Cursor(Some(position)) => on_window(id, WindowOp::ShowMenu(position)),
                _ => Command::Proceed,
            },
        ),
    }
}

/// One window of a sweep.
#[verifier::opaque]
pub open spec fn sweep_step<H: Host, U>(s: Model<H>, ui: Map<u64, U>, sweep: Sweep) -> Next<H, U> {
    let windows = s.windows.entries;
    match sweep {
        Sweep::Redraw { next, except } => if next < windows.len() {
            let id = windows[next as int].id;
            goes_on(
                s,
                ui,
                seq![Job::Sweep(Sweep::Redraw { next: after(next), except })],
                if except == Some(id) {
                    Command::Proceed
                } else {
                    on_window(id, WindowOp::RequestRedraw)
                },
            )
        } else {
            goes_on(s, ui, seq![], Command::Proceed)
        },
        Sweep::Expire { next, now } => if next < windows.len() {
            let id = windows[next as int].id;
            let go_on = seq![Job::Sweep(Sweep::Expire { next: after(next), now })];
            match windows[next as int].redraw_at {
                Some(time) if time <= now => goes_on(
                    Model { windows: s.windows.requested(id, RedrawRequest::NextFrame), ..s },
                    ui,
                    go_on,
                    on_window(id, WindowOp::RequestRedraw),
                ),
                _ => goes_on(s, ui, go_on, Command::Proceed),
            }
        } else {
            goes_on(s, ui, seq![], Command::Proceed)
        },
        Sweep::ChangeTheme { next, theme } => if next < windows.len() {
            goes_on(
                s,
                ui,
                seq![Job::Sweep(Sweep::ChangeTheme { next: after(next), theme })],
                on_window(windows[next as int].id, WindowOp::ChangeTheme(theme)),
            )
        } else {
            goes_on(s, ui, seq![], Command::Proceed)
        },
    }
}

/// What a reply means to the update of the program.
pub open spec fn update_reply<H: Host, U>(reply: Reply<H, U>) -> UpdateReply<Action<H>> {
    match reply {
        Reply::Flag(stream) => UpdateReply::Stream(stream),
        Reply::Polled(polled) => UpdateReply::Polled(polled),
        _ => UpdateReply::Nothing,
    }
}

/// The user interface that a reply brings, if any.
pub open spec fn built<H: Host, U>(reply: Reply<H, U>) -> Option<U> {
    match reply {
        Reply::Interface(interface) => Some(interface),
        _ => None,
    }
}

/// The update of the program and of all user interfaces.
#[verifier::opaque]
pub open spec fn refresh_step<H: Host, U>(
    s: Model<H>,
    ui: Map<u64, U>,
    refresh: Refresh,
    reply: Reply<H, U>,
) -> Next<H, U> {
    let windows = s.windows.entries;
    match refresh {
        Refresh::Caching { next } => if next < windows.len() {
            let id = windows[next as int].id;
            goes_on(
                s,
                ui.remove(id),
                seq![Job::Refresh(Refresh::AwaitCache { id, next: after(next) })],
                Command::IntoCache { id, interface: ui[id] },
            )
        } else {
            goes_on(
                Model { update: starting(s.messages), messages: Seq::empty(), ..s },
                ui,
                seq![Job::Refresh(Refresh::Updating)],
                Command::Proceed,
            )
        },
        Refresh::AwaitCache { id, next } => goes_on(
            Model { caches: s.caches.insert(id, reply->Cache_0), ..s },
            ui,
            seq![Job::Refresh(Refresh::Caching { next })],
            Command::Proceed,
        ),
        Refresh::Updating => {
            let (update, step) = update_step(s.update, update_reply(reply));
            match step {
                UpdateStep::Done => goes_on(
                    Model {
                        update: UpdateView {
                            messages: Seq::empty(),
                            actions: Seq::empty(),
                            phase: UpdatePhase::Done,
                        },
                        collected: update.actions,
                        caches: Map::empty(),
                        build: BuildView {
                            cached: s.caches,
                            phase: BuildPhase::Synchronizing { next: 0 },
                        },
                        ..s
                    },
                    ui,
                    seq![Job::Refresh(Refresh::Building)],
                    Command::Proceed,
                ),
                _ => goes_on(
                    Model { update, ..s },
                    ui,
                    seq![Job::Refresh(Refresh::Updating)],
                    match step {
                        UpdateStep::Update(message) => Command::UpdateProgram(message),
                        UpdateStep::Poll => Command::Poll,
                        UpdateStep::Spawn => Command::Effect(Effect::Spawn),
                        _ => Command::Effect(Effect::Track),
                    },
                ),
            }
        },
        Refresh::Building => {
            let (build, interfaces, step) = build_step(s.build, s.windows, ui, built(reply));
            goes_on(
                Model { build, ..s },
                interfaces,
                if step is Done {
                    seq![]
                } else {
                    seq![Job::Refresh(Refresh::Building)]
                },
                match step {
                    BuildStep::Synchronize(id) => on_window(id, WindowOp::Synchronize),
                    BuildStep::Build { id, cache } => Command::Build { id, cache },
                    _ => Command::Proceed,
                },
            )
        },
    }
}

/// The run of one of the collected actions.
#[verifier::opaque]
pub open spec fn collected_step<H: Host, U>(s: Model<H>, ui: Map<u64, U>, defer: bool) -> Next<H, U> {
    if s.collected.len() == 0 {
        goes_on(s, ui, seq![], Command::Proceed)
    } else {
        let action = s.collected[0];
        let rest = Model { collected: s.collected.drop_first(), ..s };
        if defer && action is Window {
            goes_on(
                rest,
                ui,
                seq![Job::RunCollected { defer }],
                Command::Effect(Effect::Defer(action)),
            )
        } else {
            goes_on(
                rest,
                ui,
                seq![Job::Acting(Acting::Run(action)), Job::RunCollected { defer }],
                Command::Proceed,
            )
        }
    }
}

/// Whether the layout of a user interface has changed. One that is outdated counts as changed.
pub open spec fn layout_changed<H: Host>(state: UiState<H>) -> bool {
    match state {
        UiState::Outdated => true,
        UiState::Updated { has_layout_changed, .. } => has_layout_changed,
    }
}

/// The most often that a user interface is told of a frame again.
pub const MAX_REDRAWS: usize = 2;

/// The jobs that finish a frame after it has been drawn.
pub open spec fn frame_end<H: Host>(id: u64, state: UiState<H>) -> Seq<Job<H>> {
    let told = seq![
        emit(id, WindowOp::BroadcastFrame),
        emit(id, WindowOp::DrawPreedit),
        Job::Frame(Frame::Present { id }),
    ];
    match state {
        UiState::Outdated => told,
        UiState::Updated { redraw_request, mouse_interaction, input_method, .. } => seq![
            Job::RequestRedraw { id, request: redraw_request },
            emit(id, WindowOp::RequestInputMethod(input_method)),
            emit(id, WindowOp::UpdateMouse(mouse_interaction)),
        ] + told,
    }
}

/// The jobs that update the program and all user interfaces.
pub open spec fn refresh_jobs<H: Host>(defer: bool) -> Seq<Job<H>> {
    seq![Job::Refresh(Refresh::Caching { next: 0 }), Job::RunCollected { defer }]
}

/// The beginning of a frame. A surface of another version is configured anew, and the user interface
/// on it gets a new layout.
pub open spec fn frame_begun<H: Host>(s: Model<H>, id: u64, version: u64) -> Model<H> {
    let begin = seq![
        emit(id, WindowOp::BeginFrame),
        Job::Frame(Frame::Redraw { id, count: 0 }),
    ];
    let window = s.windows.at(id);
    if window.surface_version == version {
        first_do(s, begin)
    } else {
        first_do(
            Model {
                windows: s.windows.replaced(Window { surface_version: version, ..window }),
                ..s
            },
            seq![Job::Frame(Frame::Relayout { id }), emit(id, WindowOp::ConfigureSurface)] + begin,
        )
    }
}

/// The drawing of a frame.
#[verifier::opaque]
pub open spec fn frame_step<H: Host, U>(
    s: Model<H>,
    ui: Map<u64, U>,
    frame: Frame,
    reply: Reply<H, U>,
) -> Next<H, U> {
    match frame {
        Frame::Inspect { id } => goes_on(
            s,
            ui,
            seq![Job::Frame(Frame::AwaitInspect { id })],
            Command::Inspect { id },
        ),
        Frame::AwaitInspect { id } => if reply->width == 0 || reply->height == 0 {
            goes_on(s, ui, seq![], Command::Proceed)
        } else {
            goes_on(
                frame_begun(s, id, reply->Inspected_surface_version),
                ui,
                seq![],
                Command::Proceed,
            )
        },
        Frame::Relayout { id } => goes_on(
            s,
            ui.remove(id),
            seq![Job::Frame(Frame::AwaitRelayout { id })],
            Command::Relayout { id, interface: ui[id] },
        ),
        Frame::AwaitRelayout { id } => goes_on(
            s,
            ui.insert(id, reply->Interface_0),
            seq![],
            Command::Proceed,
        ),
        Frame::Redraw { id, count } => goes_on(
            s,
            ui,
            seq![Job::Frame(Frame::AwaitRedraw { id, count })],
            Command::Redraw { id },
        ),
        Frame::AwaitRedraw { id, count } => {
            let state = reply->Redrawn_state;
            let messages = s.messages + reply->Redrawn_messages@;
            let told = Model { messages, ..s };
            let settled = reply->Redrawn_messages@.len() == 0 && !layout_changed(state);
            if settled || count >= MAX_REDRAWS {
                goes_on(told, ui, frame_end(id, state), on_window(id, WindowOp::Draw))
            } else if messages.len() > 0 {
                goes_on(
                    told,
                    ui,
                    refresh_jobs(true) + seq![
                        Job::Sweep(Sweep::Redraw { next: 0, except: Some(id) }),
                        Job::Frame(Frame::Check { id, count: after(count) }),
                    ],
                    Command::Proceed,
                )
            } else {
                goes_on(
                    told,
                    ui,
                    seq![Job::Frame(Frame::Redraw { id, count: after(count) })],
                    Command::Proceed,
                )
            }
        },
        Frame::Check { id, count } => if s.compositor {
            goes_on(
                s,
                ui,
                seq![Job::Frame(Frame::AwaitSize { id, count })],
                Command::CheckSize { id },
            )
        } else {
            goes_on(s, ui, seq![], Command::Proceed)
        },
        Frame::AwaitSize { id, count } => goes_on(
            s,
            ui,
            if reply->Flag_0 {
                seq![
                    Job::Frame(Frame::Relayout { id }),
                    Job::Frame(Frame::Redraw { id, count }),
                ]
            } else {
                seq![Job::Frame(Frame::Redraw { id, count })]
            },
            Command::Proceed,
        ),
        Frame::Present { id } => goes_on(
            s,
            ui,
            seq![Job::Frame(Frame::AwaitPresent { id })],
            Command::Present { id },
        ),
        Frame::AwaitPresent { id } => goes_on(
            s,
            ui,
            match reply->Presented_0 {
                Ok(_) => seq![],
                Err(SurfaceError::Outdated) => seq![
                    emit(id, WindowOp::ConfigureSurface),
                    emit(id, WindowOp::RequestRedraw),
                ],
                Err(SurfaceError::Lost) => seq![
                    emit(id, WindowOp::RecreateSurface),
                    emit(id, WindowOp::RequestRedraw),
                ],
                Err(_) => seq![Job::Sweep(Sweep::Redraw { next: 0, except: None })],
            },
            Command::Proceed,
        ),
    }
}

/// Whether an event is one of a window.
pub open spec fn is_of<E>(id: u64) -> spec_fn((u64, UiEvent<E>)) -> bool {
    |event: (u64, UiEvent<E>)| event.0 == id
}

/// Whether an event is one of another window.
pub open spec fn is_not_of<E>(id: u64) -> spec_fn((u64, UiEvent<E>)) -> bool {
    |event: (u64, UiEvent<E>)| event.0 != id
}

/// An event without its window.
pub open spec fn unaddressed<E>() -> spec_fn((u64, UiEvent<E>)) -> UiEvent<E> {
    |event: (u64, UiEvent<E>)| event.1
}

/// The events of one window, out of those of all windows.
pub open spec fn events_of<E>(events: Seq<(u64, UiEvent<E>)>, id: u64) -> Seq<UiEvent<E>> {
    events.filter(is_of(id)).map_values(unaddressed())
}

/// The events of all windows but one.
pub open spec fn events_but<E>(events: Seq<(u64, UiEvent<E>)>, id: u64) -> Seq<(u64, UiEvent<E>)> {
    events.filter(is_not_of(id))
}

/// The jobs that follow when a user interface was shown its events.
///
/// On iOS a window that was shown events is drawn again even if its user interface does not ask for
/// it.
pub open spec fn shown<H: Host>(
    config: Config,
    id: u64,
    had_events: bool,
    state: UiState<H>,
) -> Seq<Job<H>> {
    let next_frame = Job::RequestRedraw { id, request: RedrawRequest::NextFrame };
    let always = if config.unconditional_rendering {
        seq![next_frame]
    } else {
        seq![]
    };
    let nudged = config.platform == Platform::Ios && had_events;
    match state {
        UiState::Updated { redraw_request, mouse_interaction, .. } => {
            let asked = if config.unconditional_rendering {
                seq![]
            } else {
                seq![Job::RequestRedraw { id, request: redraw_request }]
            };
            let fallback = if nudged && redraw_request == RedrawRequest::Wait {
                seq![emit(id, WindowOp::RequestRedraw)]
            } else {
                seq![]
            };
            always + seq![emit(id, WindowOp::UpdateMouse(mouse_interaction))] + asked + fallback
        },
        UiState::Outdated => {
            let fallback = if nudged {
                seq![emit(id, WindowOp::RequestRedraw)]
            } else {
                seq![]
            };
            always + fallback
        },
    }
}

/// The delivery of its events to the window at a place. Where there are messages to be applied, every
/// window is shown its events, even if it has none.
pub open spec fn deliver_step<H: Host, U>(
    s: Model<H>,
    ui: Map<u64, U>,
    next: usize,
    stale: bool,
) -> Next<H, U> {
    if next < s.windows.entries.len() {
        let id = s.windows.entries[next as int].id;
        let mine = events_of(s.events, id);
        let sorted = Model { events: events_but(s.events, id), ..s };
        if mine.len() == 0 && s.messages.len() == 0 {
            goes_on(
                sorted,
                ui,
                seq![Job::Waiting(Waiting::Deliver { next: after(next), stale })],
                Command::Proceed,
            )
        } else {
            goes_on(
                Model { window_events: mine, ..sorted },
                ui,
                seq![Job::Waiting(Waiting::AwaitInteract { id, next: after(next), stale })],
                Command::Interact { id },
            )
        }
    } else {
        goes_on(
            s,
            ui,
            seq![
                Job::Waiting(Waiting::BroadcastRest),
                Job::Waiting(Waiting::Finish { stale }),
            ],
            Command::Proceed,
        )
    }
}

/// What follows when a user interface was shown its events.
pub open spec fn interacted<H: Host, U>(
    s: Model<H>,
    id: u64,
    next: usize,
    stale: bool,
    reply: Reply<H, U>,
) -> Model<H> {
    let state = reply->Interacted_state;
    first_do(
        Model {
            messages: s.messages + reply->Interacted_messages@,
            statuses: reply->statuses@,
            ..s
        },
        shown(s.config, id, s.window_events.len() > 0, state) + seq![
            Job::Waiting(Waiting::BroadcastShown { id }),
            Job::Waiting(Waiting::Deliver { next, stale: stale || state is Outdated }),
        ],
    )
}

/// The news of an event that a user interface was shown, and of what it did with it.
pub open spec fn broadcast_shown_step<H: Host, U>(s: Model<H>, ui: Map<u64, U>, id: u64) -> Next<H, U> {
    if s.window_events.len() > 0 && s.statuses.len() > 0 {
        goes_on(
            Model {
                window_events: s.window_events.drop_first(),
                statuses: s.statuses.drop_first(),
                ..s
            },
            ui,
            seq![Job::Waiting(Waiting::BroadcastShown { id })],
            Command::Effect(
                Effect::Broadcast { id, event: s.window_events[0], status: s.statuses[0] },
            ),
        )
    } else {
        goes_on(
            Model { window_events: Seq::empty(), statuses: Seq::empty(), ..s },
            ui,
            seq![],
            Command::Proceed,
        )
    }
}

/// The news of an event that belongs to no window that is open.
pub open spec fn broadcast_rest_step<H: Host, U>(s: Model<H>, ui: Map<u64, U>) -> Next<H, U> {
    if s.events.len() > 0 {
        goes_on(
            Model { events: s.events.drop_first(), ..s },
            ui,
            seq![Job::Waiting(Waiting::BroadcastRest)],
            Command::Effect(
                Effect::Broadcast {
                    id: s.events[0].0,
                    event: s.events[0].1,
                    status: Status::Ignored,
                },
            ),
        )
    } else {
        goes_on(s, ui, seq![], Command::Proceed)
    }
}

/// The delivery of events.
#[verifier::opaque]
pub open spec fn wait_step<H: Host, U>(
    s: Model<H>,
    ui: Map<u64, U>,
    waiting: Waiting,
    reply: Reply<H, U>,
) -> Next<H, U> {
    match waiting {
        Waiting::Release => goes_on(
            Model { actions: 0, ..s },
            ui,
            seq![Job::Waiting(Waiting::Check)],
            if s.actions > 0 {
                Command::Effect(Effect::FreeSlots(s.actions as usize))
            } else {
                Command::Proceed
            },
        ),
        Waiting::Check => goes_on(
            s,
            ui,
            if s.events.len() == 0 && s.messages.len() == 0 && s.windows.idle() {
                seq![]
            } else {
                seq![Job::Waiting(Waiting::Deliver { next: 0, stale: false })]
            },
            Command::Proceed,
        ),
        Waiting::Deliver { next, stale } => deliver_step(s, ui, next, stale),
        Waiting::AwaitInteract { id, next, stale } => goes_on(
            interacted(s, id, next, stale, reply),
            ui,
            seq![],
            Command::Proceed,
        ),
        Waiting::BroadcastShown { id } => broadcast_shown_step(s, ui, id),
        Waiting::BroadcastRest => broadcast_rest_step(s, ui),
        Waiting::Finish { stale } => goes_on(
            s,
            ui,
            if s.messages.len() > 0 || stale {
                refresh_jobs(false) + seq![
                    Job::Sweep(Sweep::Redraw { next: 0, except: None }),
                    Job::Flow,
                ]
            } else {
                seq![Job::Flow]
            },
            Command::Proceed,
        ),
    }
}

/// How long the event loop can wait.
pub open spec fn flow_of<H: Host>(s: Model<H>) -> ControlFlow {
    match s.windows.redraw_at() {
        Some(time) => ControlFlow::WaitUntil(time),
        None => ControlFlow::Wait,
    }
}

/// Does a job that takes no further steps of its own kind.
#[verifier::opaque]
pub open spec fn single_step<H: Host, U>(
    s: Model<H>,
    ui: Map<u64, U>,
    job: Job<H>,
    reply: Reply<H, U>,
) -> Next<H, U> {
    match job {
        Job::Emit(effect) => goes_on(s, ui, seq![], Command::Effect(effect)),
        Job::RequestRedraw { id, request } => goes_on(
            Model { windows: s.windows.requested(id, request), ..s },
            ui,
            seq![],
            if request == RedrawRequest::NextFrame {
                on_window(id, WindowOp::RequestRedraw)
            } else {
                Command::Proceed
            },
        ),
        Job::Flow => goes_on(
            s,
            ui,
            seq![],
            Command::Effect(Effect::Control(Control::ChangeFlow(flow_of(s)))),
        ),
        Job::Connect { id } => if s.clipboard is None {
            goes_on(
                s,
                ui,
                seq![Job::AwaitConnected { id }],
                Command::ConnectClipboard { id },
            )
        } else {
            goes_on(s, ui, seq![], Command::Proceed)
        },
        Job::AwaitConnected { id } => goes_on(
            Model {
                clipboard: if reply->Flag_0 {
                    Some(s.windows.at(id).raw)
                } else {
                    None
                },
                ..s
            },
            ui,
            seq![],
            Command::Proceed,
        ),
        Job::ConvertEvent { id } => goes_on(
            s,
            ui,
            seq![Job::AwaitEvent { id }],
            Command::ConvertEvent { id },
        ),
        Job::ConvertTouch { id, finger } => goes_on(
            s,
            ui,
            seq![Job::AwaitEvent { id }],
            Command::ConvertTouch { id, finger },
        ),
        Job::AwaitEvent { id } => goes_on(noted(s, id, reply), ui, seq![], Command::Proceed),
        _ => goes_on(s, ui, seq![], Command::Proceed),
    }
}

/// Does one job. The state is that without the job.
pub open spec fn perform<H: Host, U>(
    s: Model<H>,
    ui: Map<u64, U>,
    job: Job<H>,
    reply: Reply<H, U>,
) -> Next<H, U> {
    match job {
        Job::Opening(opening) => open_step(s, ui, opening, reply),
        Job::Acting(acting) => act_step(s, ui, acting, reply),
        Job::Sweep(sweep) => sweep_step(s, ui, sweep),
        Job::Refresh(refresh) => refresh_step(s, ui, refresh, reply),
        Job::RunCollected { defer } => collected_step(s, ui, defer),
        Job::Frame(frame) => frame_step(s, ui, frame, reply),
        Job::Waiting(waiting) => wait_step(s, ui, waiting, reply),
        _ => single_step(s, ui, job, reply),
    }
}

/// A state without its first job.
pub open spec fn rest_of<H: Host>(s: Model<H>) -> Model<H> {
    Model { agenda: s.agenda.drop_first(), ..s }
}

/// One step of a running application: its first job, if it has any.
pub open spec fn step<H: Host, U>(s: Model<H>, ui: Map<u64, U>, reply: Reply<H, U>) -> Next<H, U> {
    if s.agenda.len() == 0 {
        Next { model: s, interfaces: ui, command: Command::Idle }
    } else {
        perform(rest_of(s), ui, s.agenda[0], reply)
    }
}

/// What is to be done about an event of a window other than a request to draw it.
pub open spec fn input_received<H: Host>(s: Model<H>, raw: u64, input: WindowInput) -> Model<H> {
    if !s.config.is_daemon && input is Destroyed && !s.is_window_opening && s.windows.entries.len()
        == 0 {
        first_do(s, seq![Job::Emit(Effect::Control(Control::Exit))])
    } else {
        match s.windows.alias(raw) {
            None => s,
            Some(id) => {
                let (noted, told) = match input {
                    WindowInput::ThemeChanged(theme) => theme_noted(s, tone_of(theme)),
                    _ => (s, seq![]),
                };
                let special = match input {
                    WindowInput::Resized => seq![emit(id, WindowOp::RequestRedraw)],
                    WindowInput::Touch(phase) => seq![
                        Job::ConvertTouch { id, finger: finger_of(phase) },
                        emit(id, WindowOp::NoteEvent),
                    ],
                    _ => seq![],
                };
                let last = if input is CloseRequested && s.windows.at(id).exit_on_close_request {
                    seq![Job::Acting(Acting::Run(Action::Window(WindowAction::Close(id))))]
                } else {
                    seq![emit(id, WindowOp::NoteEvent), Job::ConvertEvent { id }]
                };
                first_do(noted, told + special + last)
            },
        }
    }
}

/// What is to be done about an event.
pub open spec fn received<H: Host>(s: Model<H>, event: Event<H>) -> Model<H> {
    match event {
        Event::WindowCreated { id, raw, exit_on_close_request, make_visible, channel } => {
            let open = Job::Opening(
                Opening::Open { id, raw, exit_on_close_request, make_visible, channel },
            );
            first_do(
                s,
                if s.compositor {
                    seq![open]
                } else {
                    seq![Job::Opening(Opening::MakeCompositor), open]
                },
            )
        },
        Event::NewEvents { cause: StartCause::Init, .. } => first_do(
            s,
            seq![Job::Sweep(Sweep::Redraw { next: 0, except: None })],
        ),
        Event::NewEvents { cause: StartCause::ResumeTimeReached, now } => first_do(
            s,
            seq![Job::Sweep(Sweep::Expire { next: 0, now }), Job::Flow],
        ),
        Event::UserEvent(action) => first_do(
            s,
            seq![Job::Acting(Acting::Run(action)), Job::Acting(Acting::Count)],
        ),
        Event::RedrawRequested { raw } => match s.windows.alias(raw) {
            Some(id) if s.compositor => first_do(s, seq![Job::Frame(Frame::Inspect { id })]),
            _ => s,
        },
        Event::WindowEvent { raw, input } => input_received(s, raw, input),
        Event::AboutToWait => first_do(s, seq![Job::Waiting(Waiting::Release)]),
        Event::Exit => Model { finished: true, ..s },
        Event::NewEvents { cause: StartCause::Other, .. }
        | Event::Resumed
        | Event::Suspended
        | Event::Other => s,
    }
}

} // verus!
