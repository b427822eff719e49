//! How windows come and go.

use super::course::{lemma_connects, lemma_emits, with_jobs};
use super::inputs::does_to;
use super::model::{
    act_step, action_step, closed, open_step, rest_of, window_action_step, Next,
};
use super::whole::{begun, close, go, is_about_to};
use super::{Command, Effect, Event, Job, Model, Opening, Reply, UiEvent, WindowOp};
use crate::control::Control;
use crate::conversion::{ThemeMode, WindowTheme};
use crate::host::Host;
use crate::window_man::{
    first_and_last_are_the_ends, lemma_inserted, lemma_removed, names_come_and_go_with_windows, Window,
};
use vstd::prelude::*;

verus! {

/// Without a compositor the first thing that a new window asks for is one. If there cannot be one the
/// application crashes for that reason, and the window is left out of everything. If there is one, the
/// window opens as any other one does.
pub proof fn windows_need_a_compositor<H: Host, U>(
    s: Model<H>,
    ui: Map<u64, U>,
    event: Event<H>,
    error: H::Error,
)
    requires
        s.agenda.len() == 0,
        !s.compositor,
        event is WindowCreated,
    ensures
        ({
            let told = begun(s, ui, event);
            let asked = go(told, Reply::Done);
            let failed = go(asked, Reply::Compositor(Err(error)));
            let made = go(asked, Reply::Compositor(Ok(())));
            &&& asked.command == Command::<H, U>::CreateCompositor
            &&& failed.command == Command::<H, U>::Effect(Effect::Control(Control::Crash(error)))
            &&& failed.model == s
            &&& failed.interfaces == ui
            &&& made.command == Command::<H, U>::Proceed
            &&& made.model == begun(Model { compositor: true, ..s }, ui, event).model
            &&& made.interfaces == ui
        }),
{
    reveal(open_step);
    let told = begun(s, ui, event);
    let asked = go(told, Reply::Done);
    let failed = go(asked, Reply::Compositor(Err(error)));
    let made = go(asked, Reply::Compositor(Ok(())));
    let other = begun(Model { compositor: true, ..s }, ui, event);
    assert(rest_of(told.model).agenda =~= other.model.agenda);
    assert(rest_of(asked.model).agenda =~= other.model.agenda);
    assert(made.model.agenda =~= other.model.agenda);
    assert(failed.model =~= s);
}

/// A window opens as it was created. It is set up in the tone of the system, and gets the theme of the
/// tone that it has. It is open from then on, under its identifier and the name that the system has for
/// it, with no time set to be drawn again, and whether a request to close it closes it is what it was
/// created with. It gets its first user interface and a fresh cache, is made visible if it is to be,
/// and its user interface is told. The clipboard is connected to it unless it is connected already, and
/// whoever opened the window is sent its identifier. No other window is touched.
pub proof fn windows_open_as_they_were_created<H: Host, U>(
    s: Model<H>,
    ui: Map<u64, U>,
    created: Window<H::Window>,
    make_visible: bool,
    channel: H::Channel,
    tone: ThemeMode,
    interface: U,
    cache: H::Cache,
    opened: H::Event,
    connects: bool,
)
    requires
        s.agenda.len() == 0,
        s.compositor,
        s.windows.sorted(),
        created.redraw_at is None,
    ensures
        ({
            let id = created.id;
            let event = Event::WindowCreated {
                id,
                raw: created.raw,
                exit_on_close_request: created.exit_on_close_request,
                make_visible,
                channel,
            };
            let asked = go(begun(s, ui, event), Reply::Done);
            let set_up = go(
                asked,
                Reply::Window {
                    window: created.inner,
                    surface_version: created.surface_version,
                    theme_mode: tone,
                },
            );
            let building = go(set_up, Reply::Done);
            let built = go(building, Reply::FirstInterface { interface, cache });
            let shown = if make_visible {
                go(built, Reply::Done)
            } else {
                built
            };
            let reading = go(shown, Reply::Done);
            let told = go(reading, Reply::Event(Some(opened)));
            let connecting = go(told, Reply::Done);
            let connected = if s.clipboard is None {
                go(connecting, Reply::Flag(connects))
            } else {
                connecting
            };
            let sent = go(connected, Reply::Done);
            let done = go(sent, Reply::Done);
            let windows = done.model.windows;
            &&& asked.command == (Command::<H, U>::OpenWindow { id, system_theme: s.system_theme })
            &&& does_to(
                set_up,
                id,
                WindowOp::SetTheme(
                    match tone {
                        ThemeMode::Neutral => None,
                        ThemeMode::Light => Some(WindowTheme::Light),
                        ThemeMode::Dark => Some(WindowTheme::Dark),
                    },
                ),
            )
            &&& building.command == (Command::<H, U>::FirstInterface { id })
            &&& built.command == Command::<H, U>::Proceed
            &&& make_visible ==> does_to(shown, id, WindowOp::SetVisible(true))
            &&& reading.command == (Command::<H, U>::ReadOpened { id })
            &&& told.command == Command::<H, U>::Proceed
            &&& s.clipboard is None ==> connecting.command == (Command::<H, U>::ConnectClipboard { id })
            &&& connected.model.clipboard == if s.clipboard is Some {
                s.clipboard
            } else if connects {
                Some(created.raw)
            } else {
                None
            }
            &&& s.clipboard is Some ==> connecting.command == Command::<H, U>::Proceed
            &&& sent.command == Command::<H, U>::Effect(Effect::Opened { id, channel })
            &&& done.command == Command::<H, U>::Proceed
            &&& done.interfaces == ui.insert(id, interface)
            &&& windows.ids() == s.windows.ids().insert(id)
            &&& windows.at(id) == created
            &&& windows.alias(created.raw) == Some(id)
            &&& forall|other: u64|
                #![trigger s.windows.at(other)]
                other != id && s.windows.has(other) ==> windows.at(other) == s.windows.at(other)
            &&& done.model == (Model {
                windows,
                is_window_opening: false,
                clipboard: connected.model.clipboard,
                events: s.events.push((id, UiEvent::Host(opened))),
                ui_caches: s.ui_caches.insert(id, cache),
                ..s
            })
        }),
{
    let id = created.id;
    let event = Event::WindowCreated {
        id,
        raw: created.raw,
        exit_on_close_request: created.exit_on_close_request,
        make_visible,
        channel,
    };
    let begin = begun(s, ui, event);
    let asked = go(begin, Reply::Done);
    let set_up = go(
        asked,
        Reply::Window {
            window: created.inner,
            surface_version: created.surface_version,
            theme_mode: tone,
        },
    );
    let building = go(set_up, Reply::Done);
    let built = go(building, Reply::FirstInterface { interface, cache });
    let visible = Effect::Window { id, op: WindowOp::SetVisible(true) };
    let tail = tail_of(id, channel);
    lemma_inserted(s.windows, created);
    names_come_and_go_with_windows(s.windows, created, id, created.raw);
    lemma_setting_up(s, ui, created, make_visible, channel, tone, interface, cache);
    let shown = if make_visible {
        lemma_emits(built.model, built.interfaces, visible, tail, Reply::Done);
        go(built, Reply::Done)
    } else {
        built
    };
    assert(shown.model == with_jobs(built.model, tail));
    assert(shown.model.windows.at(id) == created);
    lemma_finishing(shown, id, channel, opened, connects);
    let windows = s.windows.inserted(created);
    assert(Model { windows, is_window_opening: false, ..s } == Model {
        windows,
        is_window_opening: false,
        agenda: Seq::empty(),
        ..s
    }) by {
        assert(s.agenda =~= Seq::empty());
    }
}

/// What is left to do for a new window once it is there.
spec fn tail_of<H: Host>(id: u64, channel: H::Channel) -> Seq<Job<H>> {
    seq![
        Job::Opening(Opening::ReadOpened { id }),
        Job::Connect { id },
        Job::Emit(Effect::Opened { id, channel }),
        Job::Opening(Opening::Finish),
    ]
}

proof fn lemma_setting_up<H: Host, U>(
    s: Model<H>,
    ui: Map<u64, U>,
    created: Window<H::Window>,
    make_visible: bool,
    channel: H::Channel,
    tone: ThemeMode,
    interface: U,
    cache: H::Cache,
)
    requires
        s.agenda.len() == 0,
        s.compositor,
        created.redraw_at is None,
    ensures
        ({
            let id = created.id;
            let event = Event::WindowCreated {
                id,
                raw: created.raw,
                exit_on_close_request: created.exit_on_close_request,
                make_visible,
                channel,
            };
            let asked = go(begun(s, ui, event), Reply::Done);
            let set_up = go(
                asked,
                Reply::Window {
                    window: created.inner,
                    surface_version: created.surface_version,
                    theme_mode: tone,
                },
            );
            let building = go(set_up, Reply::Done);
            let built = go(building, Reply::FirstInterface { interface, cache });
            let visible = Job::<H>::Emit(Effect::Window { id, op: WindowOp::SetVisible(true) });
            let tail = tail_of::<H>(id, channel);
            &&& asked.command == (Command::<H, U>::OpenWindow { id, system_theme: s.system_theme })
            &&& does_to(
                set_up,
                id,
                WindowOp::SetTheme(
                    match tone {
                        ThemeMode::Neutral => None,
                        ThemeMode::Light => Some(WindowTheme::Light),
                        ThemeMode::Dark => Some(WindowTheme::Dark),
                    },
                ),
            )
            &&& building.command == (Command::<H, U>::FirstInterface { id })
            &&& built == (Next {
                model: Model {
                    windows: s.windows.inserted(created),
                    ui_caches: s.ui_caches.insert(id, cache),
                    agenda: if make_visible {
                        seq![visible] + tail
                    } else {
                        tail
                    },
                    ..s
                },
                interfaces: ui.insert(id, interface),
                command: Command::<H, U>::Proceed,
            })
        }),
{
    reveal(open_step);
    let id = created.id;
    let event = Event::WindowCreated {
        id,
        raw: created.raw,
        exit_on_close_request: created.exit_on_close_request,
        make_visible,
        channel,
    };
    let begin = begun(s, ui, event);
    let asked = go(begin, Reply::Done);
    let set_up = go(
        asked,
        Reply::Window {
            window: created.inner,
            surface_version: created.surface_version,
            theme_mode: tone,
        },
    );
    let building = go(set_up, Reply::Done);
    let built = go(building, Reply::FirstInterface { interface, cache });
    let visible = Job::<H>::Emit(Effect::Window { id, op: WindowOp::SetVisible(true) });
    let tail = tail_of::<H>(id, channel);
    let rest = if make_visible {
        seq![visible] + tail
    } else {
        tail
    };
    assert(rest_of(begin.model).agenda =~= Seq::empty());
    assert(rest_of(asked.model).agenda =~= Seq::empty());
    assert(set_up.model.agenda =~= seq![Job::<H>::Opening(Opening::FirstInterface { id })] + rest);
    assert(rest_of(set_up.model).agenda =~= rest);
    assert(building.model.agenda =~= seq![Job::<H>::Opening(Opening::AwaitFirst { id })] + rest);
    assert(rest_of(building.model).agenda =~= rest);
    assert(built.model.agenda =~= rest);
}

proof fn lemma_finishing<H: Host, U>(
    now: Next<H, U>,
    id: u64,
    channel: H::Channel,
    opened: H::Event,
    connects: bool,
)
    requires
        now.model.agenda == tail_of::<H>(id, channel),
    ensures
        ({
            let s = now.model;
            let reading = go(now, Reply::Done);
            let told = go(reading, Reply::Event(Some(opened)));
            let connecting = go(told, Reply::Done);
            let connected = if s.clipboard is None {
                go(connecting, Reply::Flag(connects))
            } else {
                connecting
            };
            let sent = go(connected, Reply::Done);
            let done = go(sent, Reply::Done);
            let clipboard = if s.clipboard is Some {
                s.clipboard
            } else if connects {
                Some(s.windows.at(id).raw)
            } else {
                None
            };
            &&& reading.command == (Command::<H, U>::ReadOpened { id })
            &&& told.command == Command::<H, U>::Proceed
            &&& s.clipboard is None ==> connecting.command == (Command::<H, U>::ConnectClipboard { id })
            &&& s.clipboard is Some ==> connecting.command == Command::<H, U>::Proceed
            &&& connected.model.clipboard == clipboard
            &&& sent.command == Command::<H, U>::Effect(Effect::Opened { id, channel })
            &&& done == (Next {
                model: Model {
                    is_window_opening: false,
                    clipboard,
                    events: s.events.push((id, UiEvent::Host(opened))),
                    agenda: Seq::empty(),
                    ..s
                },
                interfaces: now.interfaces,
                command: Command::<H, U>::Proceed,
            })
        }),
{
    let s = now.model;
    let ui = now.interfaces;
    let reading = go(now, Reply::Done);
    let told = go(reading, Reply::Event(Some(opened)));
    let finish = Job::<H>::Opening(Opening::Finish);
    let effect = Effect::Opened { id, channel };
    let last = seq![Job::<H>::Emit(effect)] + seq![finish];
    let after = seq![Job::<H>::Connect { id }] + last;
    assert(tail_of::<H>(id, channel) =~= seq![Job::<H>::Opening(Opening::ReadOpened { id })] + after);
    lemma_reading_opened(now, id, after, opened);
    lemma_connects(told.model, ui, id, last, connects);
    let connecting = go(told, Reply::Done);
    let connected = if s.clipboard is None {
        go(connecting, Reply::Flag(connects))
    } else {
        connecting
    };
    lemma_emits(connected.model, ui, effect, seq![finish], Reply::Done);
    let sent = go(connected, Reply::Done);
    lemma_opened(sent);
}

proof fn lemma_reading_opened<H: Host, U>(
    now: Next<H, U>,
    id: u64,
    rest: Seq<Job<H>>,
    opened: H::Event,
)
    requires
        now.model.agenda == seq![Job::<H>::Opening(Opening::ReadOpened { id })] + rest,
    ensures
        ({
            let s = now.model;
            let reading = go(now, Reply::Done);
            let told = go(reading, Reply::Event(Some(opened)));
            &&& reading.command == (Command::<H, U>::ReadOpened { id })
            &&& told == (Next {
                model: Model {
                    events: s.events.push((id, UiEvent::Host(opened))),
                    ..with_jobs(s, rest)
                },
                interfaces: now.interfaces,
                command: Command::<H, U>::Proceed,
            })
        }),
{
    reveal(open_step);
    let reading = go(now, Reply::Done);
    let told = go(reading, Reply::Event(Some(opened)));
    assert(rest_of(now.model).agenda =~= rest);
    assert(reading.model.agenda =~= seq![Job::<H>::Opening(Opening::AwaitOpened { id })] + rest);
    assert(rest_of(reading.model).agenda =~= rest);
    assert(told.model.agenda =~= rest);
}

proof fn lemma_opened<H: Host, U>(now: Next<H, U>)
    requires
        now.model.agenda == seq![Job::<H>::Opening(Opening::Finish)],
    ensures
        go(now, Reply::Done) == (Next {
            model: Model { is_window_opening: false, ..with_jobs(now.model, Seq::empty()) },
            interfaces: now.interfaces,
            command: Command::<H, U>::Proceed,
        }),
{
    reveal(open_step);
    assert(rest_of(now.model).agenda =~= Seq::empty());
    assert(go(now, Reply::Done).model.agenda =~= Seq::empty());
}

/// A window that is closed is gone, with its user interface, its cache and its name, and that is queued
/// as an event. No other window is touched. If the clipboard was connected to it, it is connected to
/// the window with the smallest identifier that is left, or to none if none is left; otherwise it stays
/// where it is. The compositor goes with the last window, and only then.
pub proof fn windows_close_and_leave_the_rest<H: Host, U>(start: Next<H, U>, id: u64, connects: bool)
    requires
        is_about_to(start, close(id)),
        start.model.windows.sorted(),
        start.model.windows.has(id),
    ensures
        ({
            let s = start.model;
            let rest = rest_of(s);
            let next = go(start, Reply::Done);
            let windows = next.model.windows;
            let emptied = windows.entries.len() == 0;
            let orphaned = s.clipboard == Some(s.windows.at(id).raw);
            let then = go(next, Reply::Done);
            let heir = go(then, Reply::Flag(connects));
            let last = go(then, Reply::Done);
            &&& next.command == Command::<H, U>::Proceed
            &&& next.interfaces == start.interfaces.remove(id)
            &&& windows.ids() == s.windows.ids().remove(id)
            &&& windows.alias(s.windows.at(id).raw) is None
            &&& forall|raw: u64|
                raw != s.windows.at(id).raw && s.windows.alias(raw) != Some(id)
                    ==> #[trigger] windows.alias(raw) == s.windows.alias(raw)
            &&& forall|other: u64|
                #![trigger windows.at(other)]
                other != id && s.windows.has(other) ==> windows.at(other) == s.windows.at(other)
            &&& next.model == (Model {
                windows,
                ui_caches: s.ui_caches.remove(id),
                clipboard: if orphaned {
                    None
                } else {
                    s.clipboard
                },
                events: s.events.push((id, UiEvent::Closed)),
                compositor: s.compositor && !emptied,
                agenda: next.model.agenda,
                ..s
            })
            &&& orphaned && !emptied ==> {
                &&& then.command matches Command::ConnectClipboard { id: first } && windows.has(first)
                    && (forall|other: u64| #[trigger] windows.has(other) ==> first <= other)
                    && heir.model.clipboard == if connects {
                    Some(windows.at(first).raw)
                } else {
                    None
                }
                &&& heir.model == (Model { clipboard: heir.model.clipboard, agenda: rest.agenda, ..next.model })
            }
            &&& orphaned && emptied ==> {
                &&& then.command == Command::<H, U>::Effect(Effect::DisconnectClipboard)
                &&& last.command == Command::<H, U>::Effect(Effect::DropCompositor)
                &&& last.model == (Model { agenda: rest.agenda, ..next.model })
            }
            &&& !orphaned && emptied ==> {
                &&& then.command == Command::<H, U>::Effect(Effect::DropCompositor)
                &&& then.model == (Model { agenda: rest.agenda, ..next.model })
            }
            &&& !orphaned && !emptied ==> next.model.agenda == rest.agenda
        }),
{
    let s = start.model;
    let rest = rest_of(s);
    let next = go(start, Reply::Done);
    let windows = s.windows.removed(id);
    let then = go(next, Reply::Done);
    lemma_removed(s.windows, id);
    names_come_and_go_with_windows(s.windows, s.windows.at(id), id, s.windows.at(id).raw);
    assert forall|raw: u64|
        raw != s.windows.at(id).raw && s.windows.alias(raw) != Some(
            id,
        ) implies #[trigger] windows.alias(raw) == s.windows.alias(raw) by {
        names_come_and_go_with_windows(s.windows, s.windows.at(id), id, raw);
    }
    first_and_last_are_the_ends(windows);
    assert(next == closed(rest, start.interfaces, id)) by {
        reveal(act_step);
        reveal(action_step);
        reveal(window_action_step);
    }
    let emptied = windows.entries.len() == 0;
    let orphaned = s.clipboard == Some(s.windows.at(id).raw);
    let ui = next.interfaces;
    let dropping = Effect::<H>::DropCompositor;
    let disconnect = Effect::<H>::DisconnectClipboard;
    if orphaned && !emptied {
        let first = windows.entries[0].id;
        assert(next.model.agenda =~= seq![Job::<H>::Connect { id: first }] + rest.agenda);
        lemma_connects(next.model, ui, first, rest.agenda, connects);
    } else if orphaned {
        let then_drop = seq![Job::Emit(dropping)] + rest.agenda;
        assert(next.model.agenda =~= seq![Job::Emit(disconnect)] + then_drop);
        lemma_emits(next.model, ui, disconnect, then_drop, Reply::Done);
        lemma_emits(then.model, ui, dropping, rest.agenda, Reply::Done);
    } else if emptied {
        assert(next.model.agenda =~= seq![Job::Emit(dropping)] + rest.agenda);
        lemma_emits(next.model, ui, dropping, rest.agenda, Reply::Done);
    } else {
        assert(next.model.agenda =~= rest.agenda);
    }
}

/// Where a window that is not open is to be closed, no window is, and no event is queued. As long as
/// another one is open nothing comes of it at all. With none open there is no need for a compositor, so
/// that it is dropped.
pub proof fn closed_windows_stay_closed<H: Host, U>(start: Next<H, U>, id: u64)
    requires
        is_about_to(start, close(id)),
        !start.model.windows.has(id),
    ensures
        ({
            let s = start.model;
            let next = go(start, Reply::Done);
            let dropped = go(next, Reply::Done);
            let emptied = s.windows.entries.len() == 0;
            &&& next.command == Command::<H, U>::Proceed
            &&& next.interfaces == start.interfaces.remove(id)
            &&& !emptied ==> next.model == (Model {
                ui_caches: s.ui_caches.remove(id),
                ..rest_of(s)
            })
            &&& emptied ==> {
                &&& dropped.command == Command::<H, U>::Effect(Effect::DropCompositor)
                &&& dropped.interfaces == next.interfaces
                &&& dropped.model == (Model {
                    ui_caches: s.ui_caches.remove(id),
                    compositor: false,
                    ..rest_of(s)
                })
            }
        }),
{
    let s = start.model;
    let rest = rest_of(s);
    let next = go(start, Reply::Done);
    assert(next == closed(rest, start.interfaces, id)) by {
        reveal(act_step);
        reveal(action_step);
        reveal(window_action_step);
    }
    assert(!rest.windows.has(id));
    if s.windows.entries.len() == 0 {
        let dropping = Effect::<H>::DropCompositor;
        assert(next.model.agenda =~= seq![Job::Emit(dropping)] + rest.agenda);
        lemma_emits(next.model, next.interfaces, dropping, rest.agenda, Reply::Done);
    } else {
        assert(next.model.agenda =~= rest.agenda);
    }
}

} // verus!
