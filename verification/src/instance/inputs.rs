//! What an application makes of what happens to a window.

use super::model::{first_do, received, rest_of, single_step, Next};
use super::whole::{begun, close, go, is_about_to};
use super::{Command, Effect, Event, Job, Model, Reply, StartCause, UiEvent, WindowOp};
use crate::control::Control;
use crate::conversion::{ThemeMode, WindowTheme};
use crate::host::Host;
use crate::input::{FingerEvent, TouchPhase, WindowInput};
use vstd::prelude::*;

verus! {

/// Whether an application has just done something to a window.
pub open spec fn does_to<H: Host, U>(now: Next<H, U>, id: u64, op: WindowOp<H>) -> bool {
    now.command == Command::<H, U>::Effect(Effect::Window { id, op })
}

/// Some events, and one more of a window if there is one.
pub open spec fn queued<H: Host>(
    events: Seq<(u64, UiEvent<H::Event>)>,
    id: u64,
    event: Option<H::Event>,
) -> Seq<(u64, UiEvent<H::Event>)> {
    match event {
        Some(event) => events.push((id, UiEvent::Host(event))),
        None => events,
    }
}

/// Whether an application notes the event that it was told of, has it converted for the user interface
/// of a window, and queues what comes of that, if anything, behind all other events. That is all.
pub open spec fn converts<H: Host, U>(now: Next<H, U>, id: u64, converted: Option<H::Event>) -> bool {
    let noted = go(now, Reply::Done);
    let asked = go(noted, Reply::Done);
    let done = go(asked, Reply::Event(converted));
    &&& does_to(noted, id, WindowOp::NoteEvent)
    &&& asked.command == (Command::<H, U>::ConvertEvent { id })
    &&& done.command == Command::<H, U>::Proceed
    &&& done.interfaces == now.interfaces
    &&& done.model == (Model {
        events: queued::<H>(now.model.events, id, converted),
        agenda: Seq::empty(),
        ..now.model
    })
}

proof fn lemma_converts<H: Host, U>(now: Next<H, U>, id: u64, converted: Option<H::Event>)
    requires
        now.model.agenda == seq![
            Job::<H>::Emit(Effect::Window { id, op: WindowOp::NoteEvent }),
            Job::<H>::ConvertEvent { id },
        ],
    ensures
        converts(now, id, converted),
{
    reveal(single_step);
    let noted = go(now, Reply::Done);
    let asked = go(noted, Reply::Done);
    let done = go(asked, Reply::Event(converted));
    assert(noted.model.agenda =~= seq![Job::<H>::ConvertEvent { id }]);
    assert(asked.model.agenda =~= seq![Job::<H>::AwaitEvent { id }]);
    assert(done.model.agenda =~= Seq::empty());
}

/// An event of a window that is not open, or that the application does not know, is passed over, unless
/// it ends the application.
pub proof fn strange_windows_are_passed_over<H: Host>(s: Model<H>, raw: u64, input: WindowInput)
    requires
        s.windows.alias(raw) is None,
        input !is Destroyed,
    ensures
        received(s, Event::WindowEvent { raw, input }) == s,
{
}

/// The last window that goes takes an application that is no daemon along: it is left, and nothing else
/// is done. While a window is on its way, or for a daemon, that is an event like any other.
pub proof fn applications_end_with_their_last_window<H: Host, U>(s: Model<H>, ui: Map<u64, U>, raw: u64)
    requires
        s.agenda.len() == 0,
        s.windows.entries.len() == 0,
    ensures
        ({
            let told = begun(s, ui, Event::WindowEvent { raw, input: WindowInput::Destroyed });
            let next = go(told, Reply::Done);
            &&& !s.config.is_daemon && !s.is_window_opening ==> {
                &&& next.command == Command::<H, U>::Effect(Effect::Control(Control::Exit))
                &&& next.model == s
                &&& next.interfaces == ui
            }
            &&& s.config.is_daemon || s.is_window_opening ==> told.model == s
        }),
{
    reveal(single_step);
    let told = begun(s, ui, Event::WindowEvent { raw, input: WindowInput::Destroyed });
    if let Some(id) = s.windows.alias(raw) {
        assert(s.windows.has(id));
    }
    if told.model.agenda.len() > 0 {
        assert(first_do(rest_of(told.model), Seq::<Job<H>>::empty()).agenda =~= s.agenda);
    }
}

/// A touch is told to the user interface of the window that is touched as what the finger did: it was
/// pressed if the touch started, it moved if the touch did, and it was lifted if the touch ended or was
/// cancelled. After that the touch is an event like any other.
pub proof fn touches_are_told_as_they_are<H: Host, U>(
    s: Model<H>,
    ui: Map<u64, U>,
    raw: u64,
    id: u64,
    phase: TouchPhase,
    touch: H::Event,
    converted: Option<H::Event>,
)
    requires
        s.agenda.len() == 0,
        s.windows.alias(raw) == Some(id),
    ensures
        ({
            let told = begun(s, ui, Event::WindowEvent { raw, input: WindowInput::Touch(phase) });
            let asked = go(told, Reply::Done);
            let made = go(asked, Reply::Event(Some(touch)));
            let noted = go(made, Reply::Done);
            &&& asked.command matches Command::ConvertTouch { id: touched, finger } && {
                &&& touched == id
                &&& finger == FingerEvent::Pressed <==> phase == TouchPhase::Started
                &&& finger == FingerEvent::Moved <==> phase == TouchPhase::Moved
                &&& finger == FingerEvent::Lifted <==> phase == TouchPhase::Ended || phase
                    == TouchPhase::Cancelled
            }
            &&& made.command == Command::<H, U>::Proceed
            &&& made.interfaces == ui
            &&& made.model == (Model {
                events: s.events.push((id, UiEvent::Host(touch))),
                agenda: made.model.agenda,
                ..s
            })
            &&& does_to(noted, id, WindowOp::NoteEvent)
            &&& noted.model == (Model { agenda: noted.model.agenda, ..made.model })
            &&& converts(noted, id, converted)
        }),
{
    reveal(single_step);
    let note = Job::<H>::Emit(Effect::Window { id, op: WindowOp::NoteEvent });
    let convert = Job::<H>::ConvertEvent { id };
    let told = begun(s, ui, Event::WindowEvent { raw, input: WindowInput::Touch(phase) });
    let asked = go(told, Reply::Done);
    let made = go(asked, Reply::Event(Some(touch)));
    let noted = go(made, Reply::Done);
    assert(rest_of(told.model).agenda =~= seq![note, note, convert]);
    assert(asked.model.agenda =~= seq![Job::<H>::AwaitEvent { id }, note, note, convert]);
    assert(made.model.agenda =~= seq![note, note, convert]);
    assert(noted.model.agenda =~= seq![note, convert]);
    lemma_converts(noted, id, converted);
}

/// A window that was resized is drawn again, and its user interface is told.
pub proof fn resized_windows_are_drawn_again<H: Host, U>(
    s: Model<H>,
    ui: Map<u64, U>,
    raw: u64,
    id: u64,
    converted: Option<H::Event>,
)
    requires
        s.agenda.len() == 0,
        s.windows.alias(raw) == Some(id),
    ensures
        ({
            let told = begun(s, ui, Event::WindowEvent { raw, input: WindowInput::Resized });
            let next = go(told, Reply::Done);
            &&& does_to(next, id, WindowOp::RequestRedraw)
            &&& next.interfaces == ui
            &&& next.model == (Model { agenda: next.model.agenda, ..s })
            &&& converts(next, id, converted)
        }),
{
    reveal(single_step);
    let note = Job::<H>::Emit(Effect::Window { id, op: WindowOp::NoteEvent });
    let convert = Job::<H>::ConvertEvent { id };
    let told = begun(s, ui, Event::WindowEvent { raw, input: WindowInput::Resized });
    assert(rest_of(told.model).agenda =~= seq![note, convert]);
    assert(go(told, Reply::Done).model.agenda =~= seq![note, convert]);
    lemma_converts(go(told, Reply::Done), id, converted);
}

/// When the theme of a window changes, the tone of the system is that of the theme from then on. If it
/// is another one than before, it is told of, and only then. The user interface is told in any case.
pub proof fn changed_themes_are_told<H: Host, U>(
    s: Model<H>,
    ui: Map<u64, U>,
    raw: u64,
    id: u64,
    theme: WindowTheme,
    converted: Option<H::Event>,
)
    requires
        s.agenda.len() == 0,
        s.windows.alias(raw) == Some(id),
    ensures
        ({
            let told = begun(s, ui, Event::WindowEvent { raw, input: WindowInput::ThemeChanged(theme) });
            let tone = match theme {
                WindowTheme::Light => ThemeMode::Light,
                WindowTheme::Dark => ThemeMode::Dark,
            };
            let next = go(told, Reply::Done);
            &&& told.model == (Model { system_theme: tone, agenda: told.model.agenda, ..s })
            &&& s.system_theme == tone ==> converts(told, id, converted)
            &&& s.system_theme != tone ==> {
                &&& next.command == Command::<H, U>::Effect(Effect::BroadcastTheme(tone))
                &&& next.interfaces == ui
                &&& next.model == (Model { agenda: next.model.agenda, ..told.model })
                &&& converts(next, id, converted)
            }
        }),
{
    reveal(single_step);
    let note = Job::<H>::Emit(Effect::Window { id, op: WindowOp::NoteEvent });
    let convert = Job::<H>::ConvertEvent { id };
    let told = begun(s, ui, Event::WindowEvent { raw, input: WindowInput::ThemeChanged(theme) });
    let tone = match theme {
        WindowTheme::Light => ThemeMode::Light,
        WindowTheme::Dark => ThemeMode::Dark,
    };
    if s.system_theme == tone {
        assert(told.model.agenda =~= seq![note, convert]);
        lemma_converts(told, id, converted);
    } else {
        assert(rest_of(told.model).agenda =~= seq![note, convert]);
        assert(go(told, Reply::Done).model.agenda =~= seq![note, convert]);
        lemma_converts(go(told, Reply::Done), id, converted);
    }
}

/// A request to close a window closes it exactly if the window is one that exits on it. Otherwise its
/// user interface is told of the request, and it stays open.
pub proof fn close_requests_close_some_windows<H: Host, U>(
    s: Model<H>,
    ui: Map<u64, U>,
    raw: u64,
    id: u64,
    converted: Option<H::Event>,
)
    requires
        s.agenda.len() == 0,
        s.windows.alias(raw) == Some(id),
    ensures
        ({
            let told = begun(s, ui, Event::WindowEvent { raw, input: WindowInput::CloseRequested });
            &&& told.model == (Model { agenda: told.model.agenda, ..s })
            &&& s.windows.at(id).exit_on_close_request ==> {
                &&& is_about_to(told, close(id))
                &&& rest_of(told.model) == s
            }
            &&& !s.windows.at(id).exit_on_close_request ==> converts(told, id, converted)
        }),
{
    let note = Job::<H>::Emit(Effect::Window { id, op: WindowOp::NoteEvent });
    let convert = Job::<H>::ConvertEvent { id };
    let told = begun(s, ui, Event::WindowEvent { raw, input: WindowInput::CloseRequested });
    if s.windows.at(id).exit_on_close_request {
        assert(rest_of(told.model).agenda =~= s.agenda);
    } else {
        assert(told.model.agenda =~= seq![note, convert]);
        lemma_converts(told, id, converted);
    }
}

/// Anything else that happens to an open window is told to its user interface, and nothing else is done
/// about it.
pub proof fn other_events_are_told<H: Host, U>(
    s: Model<H>,
    ui: Map<u64, U>,
    raw: u64,
    id: u64,
    input: WindowInput,
    converted: Option<H::Event>,
)
    requires
        s.agenda.len() == 0,
        s.windows.alias(raw) == Some(id),
        input is Destroyed || input is Moved || input is Keyboard || input is Other,
    ensures
        ({
            let told = begun(s, ui, Event::WindowEvent { raw, input });
            &&& told.model == (Model { agenda: told.model.agenda, ..s })
            &&& converts(told, id, converted)
        }),
{
    let note = Job::<H>::Emit(Effect::Window { id, op: WindowOp::NoteEvent });
    let convert = Job::<H>::ConvertEvent { id };
    let told = begun(s, ui, Event::WindowEvent { raw, input });
    assert(s.windows.has(id));
    assert(s.windows.entries.len() > 0);
    assert(told.model.agenda =~= seq![note, convert]);
    lemma_converts(told, id, converted);
}

/// An application that is resumed or suspended, or whose event loop woke up for no reason of its own,
/// has nothing to do. One that is to exit has ended, and has nothing to do either.
pub proof fn some_events_ask_for_nothing<H: Host>(s: Model<H>, event: Event<H>, now: u64)
    ensures
        event is Resumed || event is Suspended || event is Other ==> received(s, event) == s,
        received(
            s,
            Event::<H>::NewEvents { cause: StartCause::Other, now },
        ) == s,
        received(s, Event::<H>::Exit) == (Model { finished: true, ..s }),
        event !is Exit ==> received(s, event).finished == s.finished,
{
}

} // verus!
