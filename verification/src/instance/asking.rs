//! What is done for what a program asks for.

use super::course::{lemma_emits, lemma_performs, with_jobs};
use super::inputs::does_to;
use super::laws::{commands_of, every_window_is_redrawn, redraws_from, state_after};
use super::model::{
    act_step, action_step, after, request_step, rest_of, step, sweep_step, window_action_step, Next,
};
use super::whole::{go, is_about_to};
use super::{Acting, Command, Effect, Job, Model, Reply, Sweep, WindowOp};
use crate::action::{Action, ClipboardAction, SystemAction, WindowAction, WindowRequest};
use crate::control::Control;
use crate::conversion::{ThemeMode, WindowMode, WindowTheme};
use crate::host::Host;
use crate::window_man::first_and_last_are_the_ends;
use vstd::prelude::*;

verus! {

/// Whether an application does one thing for its next job, and nothing else: the state is what it was,
/// and the other jobs are next.
pub open spec fn only_does<H: Host, U>(start: Next<H, U>, command: Command<H, U>) -> bool {
    go(start, Reply::Done) == (Next {
        model: rest_of(start.model),
        interfaces: start.interfaces,
        command,
    })
}

/// Whether an application does one thing to one window for its next job, and nothing else.
pub open spec fn only_does_to<H: Host, U>(start: Next<H, U>, id: u64, op: WindowOp<H>) -> bool {
    only_does(start, Command::<H, U>::Effect(Effect::Window { id, op }))
}

proof fn lemma_request_asked<H: Host, U>(start: Next<H, U>, id: u64, request: WindowRequest<H>)
    requires
        is_about_to(start, Action::Window(WindowAction::On(id, request))),
    ensures
        go(start, Reply::Done) == request_step(rest_of(start.model), start.interfaces, id, request),
        Seq::<Job<H>>::empty() + rest_of(start.model).agenda == rest_of(start.model).agenda,
{
    reveal(act_step);
    reveal(action_step);
    reveal(window_action_step);
    assert(Seq::<Job<H>>::empty() + rest_of(start.model).agenda =~= rest_of(start.model).agenda);
}

/// What is asked of a window that is not open is not asked of any.
pub proof fn closed_windows_are_asked_nothing<H: Host, U>(
    start: Next<H, U>,
    id: u64,
    request: WindowRequest<H>,
)
    requires
        is_about_to(start, Action::Window(WindowAction::On(id, request))),
        !start.model.windows.has(id),
    ensures
        only_does(start, Command::<H, U>::Proceed),
{
    lemma_request_asked(start, id, request);
    reveal(request_step);
}

/// What is asked of an open window is done to that window, as it was asked for: it is moved, sized,
/// shown and stacked as the program says, and mouse events pass through it once that is enabled, and
/// not once it is disabled.
pub proof fn open_windows_are_changed_as_asked<H: Host, U>(
    start: Next<H, U>,
    id: u64,
    request: WindowRequest<H>,
)
    requires
        is_about_to(start, Action::Window(WindowAction::On(id, request))),
        start.model.windows.has(id),
    ensures
        match request {
            WindowRequest::Drag => only_does_to(start, id, WindowOp::Drag),
            WindowRequest::DragResize(direction) => only_does_to(
                start,
                id,
                WindowOp::DragResize(direction),
            ),
            WindowRequest::Resize(size) => only_does_to(start, id, WindowOp::Resize(size)),
            WindowRequest::SetMinSize(size) => only_does_to(start, id, WindowOp::SetMinSize(size)),
            WindowRequest::SetMaxSize(size) => only_does_to(start, id, WindowOp::SetMaxSize(size)),
            WindowRequest::SetResizable(resizable) => only_does_to(
                start,
                id,
                WindowOp::SetResizable(resizable),
            ),
            WindowRequest::SetResizeIncrements(size) => only_does_to(
                start,
                id,
                WindowOp::SetResizeIncrements(size),
            ),
            WindowRequest::Maximize(maximized) => only_does_to(
                start,
                id,
                WindowOp::SetMaximized(maximized),
            ),
            WindowRequest::Minimize(minimized) => only_does_to(
                start,
                id,
                WindowOp::SetMinimized(minimized),
            ),
            WindowRequest::Move(position) => only_does_to(start, id, WindowOp::SetPosition(position)),
            WindowRequest::SetIcon(icon) => only_does_to(start, id, WindowOp::SetIcon(icon)),
            WindowRequest::SetLevel(level) => only_does_to(start, id, WindowOp::SetLevel(level)),
            WindowRequest::RequestUserAttention(attention) => only_does_to(
                start,
                id,
                WindowOp::RequestUserAttention(attention),
            ),
            WindowRequest::GainFocus => only_does_to(start, id, WindowOp::Focus),
            WindowRequest::Run(callback) => only_does_to(start, id, WindowOp::Run(callback)),
            WindowRequest::EnableMousePassthrough => only_does_to(
                start,
                id,
                WindowOp::SetCursorHittest(false),
            ),
            WindowRequest::DisableMousePassthrough => only_does_to(
                start,
                id,
                WindowOp::SetCursorHittest(true),
            ),
            _ => true,
        },
{
    lemma_request_asked(start, id, request);
    reveal(request_step);
}

/// What is asked about an open window is answered about that window, where it was asked for. A picture
/// of it can only be had while there is a compositor, and the name that is sent is the one that the
/// system has for it.
pub proof fn open_windows_answer_what_is_asked<H: Host, U>(
    start: Next<H, U>,
    id: u64,
    request: WindowRequest<H>,
)
    requires
        is_about_to(start, Action::Window(WindowAction::On(id, request))),
        start.model.windows.has(id),
    ensures
        match request {
            WindowRequest::GetSize(channel) => only_does_to(start, id, WindowOp::SendSize(channel)),
            WindowRequest::GetMaximized(channel) => only_does_to(
                start,
                id,
                WindowOp::SendMaximized(channel),
            ),
            WindowRequest::GetMinimized(channel) => only_does_to(
                start,
                id,
                WindowOp::SendMinimized(channel),
            ),
            WindowRequest::GetPosition(channel) => only_does_to(
                start,
                id,
                WindowOp::SendPosition(channel),
            ),
            WindowRequest::GetScaleFactor(channel) => only_does_to(
                start,
                id,
                WindowOp::SendScaleFactor(channel),
            ),
            WindowRequest::GetMonitorSize(channel) => only_does_to(
                start,
                id,
                WindowOp::SendMonitorSize(channel),
            ),
            WindowRequest::GetRawId(channel) => only_does_to(
                start,
                id,
                WindowOp::SendRawId(channel, start.model.windows.at(id).raw),
            ),
            WindowRequest::Screenshot(channel) => if start.model.compositor {
                only_does_to(start, id, WindowOp::Screenshot(channel))
            } else {
                only_does(start, Command::<H, U>::Proceed)
            },
            _ => true,
        },
{
    lemma_request_asked(start, id, request);
    reveal(request_step);
}

/// Whether an application does one thing to one window with a reply, and nothing else.
pub open spec fn answers_with<H: Host, U>(
    start: Next<H, U>,
    asked: Next<H, U>,
    reply: Reply<H, U>,
    id: u64,
    op: WindowOp<H>,
) -> bool {
    go(asked, reply) == (Next {
        model: rest_of(start.model),
        interfaces: start.interfaces,
        command: Command::<H, U>::Effect(Effect::Window { id, op }),
    })
}

/// A window that is maximized is restored and one that is not is maximized; decorations are taken if
/// there are some and given if there are none; and the system menu is shown at the cursor if the cursor
/// is over the window. The mode that is sent is hidden exactly if the window is known not to be
/// visible, and otherwise fullscreen if the window covers a screen and windowed if it does not.
pub proof fn open_windows_are_looked_at_first<H: Host, U>(
    start: Next<H, U>,
    id: u64,
    request: WindowRequest<H>,
    flag: bool,
    visible: Option<bool>,
    fullscreen: bool,
    position: H::Point,
)
    requires
        is_about_to(start, Action::Window(WindowAction::On(id, request))),
        start.model.windows.has(id),
    ensures
        ({
            let asked = go(start, Reply::Done);
            &&& request is ToggleMaximize ==> {
                &&& asked.command == (Command::<H, U>::ReadMaximized { id })
                &&& answers_with(start, asked, Reply::Flag(flag), id, WindowOp::SetMaximized(!flag))
            }
            &&& request is ToggleDecorations ==> {
                &&& asked.command == (Command::<H, U>::ReadDecorated { id })
                &&& answers_with(start, asked, Reply::Flag(flag), id, WindowOp::SetDecorations(!flag))
            }
            &&& request is ShowSystemMenu ==> {
                &&& asked.command == (Command::<H, U>::ReadCursor { id })
                &&& answers_with(
                    start,
                    asked,
                    Reply::Cursor(Some(position)),
                    id,
                    WindowOp::ShowMenu(position),
                )
                &&& go(asked, Reply::Cursor(None)) == (Next {
                    model: rest_of(start.model),
                    interfaces: start.interfaces,
                    command: Command::<H, U>::Proceed,
                })
            }
            &&& request matches WindowRequest::GetMode(channel) ==> {
                &&& asked.command == (Command::<H, U>::ReadMode { id })
                &&& answers_with(
                    start,
                    asked,
                    Reply::Mode { visible, fullscreen },
                    id,
                    WindowOp::SendMode(
                        channel,
                        if visible == Some(false) {
                            WindowMode::Hidden
                        } else if fullscreen {
                            WindowMode::Fullscreen
                        } else {
                            WindowMode::Windowed
                        },
                    ),
                )
            }
        }),
{
    let rest = rest_of(start.model).agenda;
    let asked = go(start, Reply::Done);
    lemma_request_asked(start, id, request);
    assert(request is ToggleMaximize || request is ToggleDecorations || request is ShowSystemMenu
        || request is GetMode ==> {
        &&& asked.model.agenda.len() == rest.len() + 1
        &&& rest_of(asked.model) == rest_of(start.model)
        &&& asked.interfaces == start.interfaces
    }) by {
        reveal(request_step);
        assert(asked.model.agenda.len() == rest.len() + 1 ==> asked.model.agenda.drop_first() =~= rest);
    }
    reveal(request_step);
    reveal(act_step);
}

/// A window in a mode is visible unless the mode is the hidden one, and covers a screen as the mode
/// says.
pub proof fn modes_are_set_as_asked<H: Host, U>(start: Next<H, U>, id: u64, mode: WindowMode)
    requires
        is_about_to(start, Action::Window(WindowAction::On(id, WindowRequest::SetMode(mode)))),
        start.model.windows.has(id),
    ensures
        ({
            let shown = go(start, Reply::Done);
            let done = go(shown, Reply::Done);
            &&& does_to(shown, id, WindowOp::SetVisible(mode != WindowMode::Hidden))
            &&& does_to(done, id, WindowOp::SetFullscreen(mode))
            &&& done.model == rest_of(start.model)
            &&& done.interfaces == start.interfaces
        }),
{
    let rest = rest_of(start.model).agenda;
    let shown = go(start, Reply::Done);
    let effect = Effect::Window { id, op: WindowOp::<H>::SetFullscreen(mode) };
    lemma_request_asked(start, id, WindowRequest::SetMode(mode));
    reveal(request_step);
    assert(shown.model.agenda =~= seq![Job::Emit(effect)] + rest);
    lemma_emits(shown.model, shown.interfaces, effect, rest, Reply::Done);
}

/// What is asked of the windows as a whole. A window is opened with what it was asked for with, on the
/// monitor of the window with the largest identifier if there is one, and is on its way from then on.
/// The oldest window that is sent is the one with the smallest identifier and the latest the one with
/// the largest, or none if none is open. Whether windows can be organized into tabs is for the event
/// loop to say.
pub proof fn windows_are_asked_as_a_whole<H: Host, U>(start: Next<H, U>, action: WindowAction<H>)
    requires
        is_about_to(start, Action::Window(action)),
        start.model.windows.sorted(),
    ensures
        ({
            let windows = start.model.windows;
            let next = go(start, Reply::Done);
            &&& action matches WindowAction::Open(id, settings, channel) ==> {
                &&& next.model == (Model { is_window_opening: true, ..rest_of(start.model) })
                &&& next.interfaces == start.interfaces
                &&& next.command matches Command::Effect(
                    Effect::Open { id: opened, settings: with, channel: to, monitor_of },
                ) && opened == id && with == settings && to == channel && {
                    &&& monitor_of is None <==> windows.entries.len() == 0
                    &&& monitor_of matches Some(last) ==> windows.has(last) && forall|other: u64|
                        #[trigger]
                        windows.has(other) ==> other <= last
                }
            }
            &&& action matches WindowAction::GetOldest(channel) ==> {
                &&& next.model == rest_of(start.model)
                &&& next.interfaces == start.interfaces
                &&& next.command matches Command::Effect(Effect::SendId { channel: to, id }) && to
                    == channel && {
                    &&& id is None <==> windows.entries.len() == 0
                    &&& id matches Some(first) ==> windows.has(first) && forall|other: u64| #[trigger]
                        windows.has(other) ==> first <= other
                }
            }
            &&& action matches WindowAction::GetLatest(channel) ==> {
                &&& next.model == rest_of(start.model)
                &&& next.interfaces == start.interfaces
                &&& next.command matches Command::Effect(Effect::SendId { channel: to, id }) && to
                    == channel && {
                    &&& id is None <==> windows.entries.len() == 0
                    &&& id matches Some(last) ==> windows.has(last) && forall|other: u64| #[trigger]
                        windows.has(other) ==> other <= last
                }
            }
            &&& action matches WindowAction::SetAllowAutomaticTabbing(enabled) ==> only_does(
                start,
                Command::<H, U>::Effect(Effect::Control(Control::SetAutomaticWindowTabbing(enabled))),
            )
        }),
{
    reveal(act_step);
    reveal(action_step);
    reveal(window_action_step);
    first_and_last_are_the_ends(start.model.windows);
    assert(Seq::<Job<H>>::empty() + rest_of(start.model).agenda =~= rest_of(start.model).agenda);
}

/// What else a program can ask for is handed on as it was asked for: what is in the clipboard, the tone
/// of the system, what is known of the system if the application can tell and there is a compositor, a
/// font if there is a compositor, an image to the window with the smallest identifier if there is one,
/// and the exit. A message that is put out waits behind the others.
pub proof fn other_actions_are_handed_on<H: Host, U>(start: Next<H, U>, action: Action<H>)
    requires
        is_about_to(start, action),
        start.model.windows.sorted(),
    ensures
        ({
            let s = start.model;
            let next = go(start, Reply::Done);
            &&& action matches Action::Output(message) ==> next == (Next {
                model: Model { messages: s.messages.push(message), ..rest_of(s) },
                interfaces: start.interfaces,
                command: Command::<H, U>::Proceed,
            })
            &&& action matches Action::Clipboard(ClipboardAction::Read { target, channel }) ==> only_does(
                start,
                Command::Effect(Effect::ReadClipboard { target, channel }),
            )
            &&& action matches Action::Clipboard(ClipboardAction::Write { target, contents })
                ==> only_does(
                start,
                Command::Effect(Effect::WriteClipboard { target, contents }),
            )
            &&& action matches Action::System(SystemAction::GetTheme(channel)) ==> only_does(
                start,
                Command::Effect(Effect::SendTheme { channel, mode: s.system_theme }),
            )
            &&& action matches Action::System(SystemAction::GetInformation(channel)) ==> only_does(
                start,
                if s.config.system_information && s.compositor {
                    Command::Effect(Effect::SendInformation(channel))
                } else {
                    Command::Proceed
                },
            )
            &&& action matches Action::LoadFont { bytes, channel } ==> only_does(
                start,
                if s.compositor {
                    Command::Effect(Effect::LoadFont { bytes, channel })
                } else {
                    Command::Proceed
                },
            )
            &&& action matches Action::Image { image, channel } ==> {
                &&& s.windows.entries.len() == 0 ==> only_does(start, Command::<H, U>::Proceed)
                &&& s.windows.entries.len() > 0 ==> {
                    &&& next.model == rest_of(s)
                    &&& next.interfaces == start.interfaces
                    &&& next.command matches Command::Effect(
                        Effect::Window { id, op: WindowOp::AllocateImage { image: what, channel: to } },
                    ) && what == image && to == channel && s.windows.has(id) && (forall|other: u64|
                        #[trigger]
                        s.windows.has(other) ==> id <= other)
                }
            }
            &&& action is Exit ==> only_does(
                start,
                Command::<H, U>::Effect(Effect::Control(Control::Exit)),
            )
        }),
{
    reveal(act_step);
    reveal(action_step);
    first_and_last_are_the_ends(start.model.windows);
    assert(Seq::<Job<H>>::empty() + rest_of(start.model).agenda =~= rest_of(start.model).agenda);
}

/// An action that was run for the program is counted.
pub proof fn actions_are_counted<H: Host, U>(now: Next<H, U>)
    requires
        now.model.agenda.len() > 0,
        now.model.agenda[0] == Job::<H>::Acting(Acting::Count),
    ensures
        go(now, Reply::Done) == (Next {
            model: Model { actions: now.model.actions + 1, ..rest_of(now.model) },
            interfaces: now.interfaces,
            command: Command::<H, U>::Proceed,
        }),
{
    reveal(act_step);
    assert(Seq::<Job<H>>::empty() + rest_of(now.model).agenda =~= rest_of(now.model).agenda);
}

/// Every window is asked to be drawn again when all of them are to be: each of them once, in the order
/// of their identifiers, and nothing else is done.
pub proof fn all_windows_are_drawn_again<H: Host, U>(start: Next<H, U>)
    requires
        is_about_to(start, Action::Window(WindowAction::RedrawAll)),
        start.model.windows.entries.len() <= usize::MAX,
    ensures
        ({
            let s = start.model;
            let next = go(start, Reply::Done);
            let n = s.windows.entries.len();
            &&& next.command == Command::<H, U>::Proceed
            &&& next.interfaces == start.interfaces
            &&& state_after(next.model, next.interfaces, n + 1) == rest_of(s)
            &&& forall|i: int|
                0 <= i < n ==> commands_of(next.model, next.interfaces, n + 1)[i] == Command::<
                    H,
                    U,
                >::Effect(
                    Effect::Window {
                        id: (#[trigger] s.windows.entries[i]).id,
                        op: WindowOp::RequestRedraw,
                    },
                )
            &&& commands_of(next.model, next.interfaces, n + 1).len() == n + 1
            &&& commands_of(next.model, next.interfaces, n + 1)[n as int] == Command::<H, U>::Proceed
        }),
{
    reveal(act_step);
    reveal(action_step);
    reveal(window_action_step);
    let s = start.model;
    let next = go(start, Reply::Done);
    let job = Job::<H>::Sweep(Sweep::Redraw { next: 0, except: None });
    assert(next.model.agenda =~= seq![job] + rest_of(s).agenda);
    assert(rest_of(next.model).agenda =~= rest_of(s).agenda);
    every_window_is_redrawn(next.model, next.interfaces, 0, None);
    let requests = redraws_from::<H, U>(s.windows, 0, None);
    assert(requests.len() == s.windows.entries.len());
}

/// The windows from a place on hear of a theme of the system, one after the other.
proof fn lemma_themes_change<H: Host, U>(
    s: Model<H>,
    ui: Map<u64, U>,
    place: usize,
    theme: WindowTheme,
    rest: Seq<Job<H>>,
)
    requires
        s.agenda == seq![Job::<H>::Sweep(Sweep::ChangeTheme { next: place, theme })] + rest,
        place <= s.windows.entries.len() <= usize::MAX,
    ensures
        ({
            let n = (s.windows.entries.len() - place) as nat;
            let commands = commands_of(s, ui, n + 1);
            &&& commands.len() == n + 1
            &&& forall|i: int|
                0 <= i < n ==> #[trigger] commands[i] == Command::<H, U>::Effect(
                    Effect::Window {
                        id: s.windows.entries[place + i].id,
                        op: WindowOp::ChangeTheme(theme),
                    },
                )
            &&& commands[n as int] == Command::<H, U>::Proceed
            &&& state_after(s, ui, n + 1) == with_jobs(s, rest)
        }),
    decreases s.windows.entries.len() - place,
{
    let n = (s.windows.entries.len() - place) as nat;
    let next = step(s, ui, Reply::Done);
    lemma_performs(s, ui, s.agenda[0], rest, Reply::Done);
    assert(next.interfaces == ui) by {
        reveal(sweep_step);
    }
    assert(commands_of(s, ui, n + 1) == seq![next.command] + commands_of(next.model, ui, n));
    assert(state_after(s, ui, n + 1) == state_after(next.model, ui, n));
    if place < s.windows.entries.len() {
        let job = Job::<H>::Sweep(Sweep::ChangeTheme { next: after(place), theme });
        assert(next.model == with_jobs(s, seq![job] + rest)) by {
            reveal(sweep_step);
        }
        assert(next.command == Command::<H, U>::Effect(
            Effect::Window {
                id: s.windows.entries[place as int].id,
                op: WindowOp::ChangeTheme(theme),
            },
        )) by {
            reveal(sweep_step);
        }
        lemma_themes_change(next.model, ui, after(place), theme, rest);
    } else {
        reveal(sweep_step);
        assert(Seq::<Job<H>>::empty() + rest =~= rest);
        assert(commands_of(next.model, ui, 0) =~= Seq::empty());
        assert(state_after(next.model, ui, 0) == next.model);
    }
}

/// When the tone of the system is notified, it is that tone from then on. If it is another one than
/// before, it is told of, and only then. Every window hears of the theme of the tone, in the order of
/// their identifiers; a neutral tone has none.
pub proof fn notified_themes_reach_every_window<H: Host, U>(start: Next<H, U>, mode: ThemeMode)
    requires
        is_about_to(start, Action::System(SystemAction::NotifyTheme(mode))),
        start.model.windows.entries.len() <= usize::MAX,
    ensures
        ({
            let s = start.model;
            let next = go(start, Reply::Done);
            let told = if mode == s.system_theme {
                next
            } else {
                go(next, Reply::Done)
            };
            let n = s.windows.entries.len();
            let commands = commands_of(told.model, told.interfaces, n + 1);
            let theme = if mode == ThemeMode::Light {
                WindowTheme::Light
            } else {
                WindowTheme::Dark
            };
            let done = Model { system_theme: mode, ..rest_of(s) };
            &&& next.command == Command::<H, U>::Proceed
            &&& told.interfaces == start.interfaces
            &&& mode != s.system_theme ==> told.command == Command::<H, U>::Effect(
                Effect::BroadcastTheme(mode),
            )
            &&& mode == ThemeMode::Neutral ==> told.model == done
            &&& mode != ThemeMode::Neutral ==> {
                &&& commands.len() == n + 1
                &&& forall|i: int|
                    0 <= i < n ==> #[trigger] commands[i] == Command::<H, U>::Effect(
                        Effect::Window {
                            id: s.windows.entries[i].id,
                            op: WindowOp::ChangeTheme(theme),
                        },
                    )
                &&& commands[n as int] == Command::<H, U>::Proceed
                &&& state_after(told.model, told.interfaces, n + 1) == done
            }
        }),
{
    let s = start.model;
    let ui = start.interfaces;
    let rest = rest_of(s).agenda;
    let next = go(start, Reply::Done);
    let theme = if mode == ThemeMode::Light {
        WindowTheme::Light
    } else {
        WindowTheme::Dark
    };
    let sweep = Job::<H>::Sweep(Sweep::ChangeTheme { next: 0, theme });
    let jobs = if mode == ThemeMode::Neutral {
        rest
    } else {
        seq![sweep] + rest
    };
    let noted = Model { system_theme: mode, agenda: jobs, ..s };
    let effect = Effect::<H>::BroadcastTheme(mode);
    assert(next == Next {
        model: if mode == s.system_theme {
            noted
        } else {
            with_jobs(noted, seq![Job::Emit(effect)] + jobs)
        },
        interfaces: ui,
        command: Command::<H, U>::Proceed,
    }) by {
        reveal(act_step);
        reveal(action_step);
        if mode == s.system_theme {
            assert(next.model.agenda =~= jobs);
        } else {
            assert(next.model.agenda =~= seq![Job::Emit(effect)] + jobs);
        }
    }
    if mode != s.system_theme {
        lemma_emits(next.model, ui, effect, jobs, Reply::Done);
    }
    if mode != ThemeMode::Neutral {
        lemma_themes_change(noted, ui, 0, theme, rest);
        assert(with_jobs(noted, rest) == Model { system_theme: mode, ..rest_of(s) });
    }
}

} // verus!
