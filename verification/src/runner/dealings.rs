//! What a runner does about each report and about each thing that the application asks for.

use super::model::{ending, put_off, received, rest_of, starting, step};
use super::{Callback, Command, Event, Job, Model, Reply};
use crate::control::{systems_create_windows_their_way, Control, NewWindow};
use crate::flow::ControlFlow;
use crate::host::Host;
use crate::input::WindowInput;
use crate::instance::StartCause;
use crate::platform::Platform;
use vstd::prelude::*;

verus! {

/// Whether a runner tells the application of an event next and lets it run, unless the event loop is
/// about to end, and does some other jobs after that.
pub open spec fn tells<H: Host>(s: Model<H>, event: Event<H>, jobs: Seq<Job<H>>) -> bool {
    let (asked, asks) = step(s, Reply::Done);
    let (told, tells) = step(asked, Reply::Exiting(false));
    let (polled, polls) = step(told, Reply::Done);
    let (left, leaves) = step(asked, Reply::Exiting(true));
    &&& asks == Command::<H>::AskExiting
    &&& tells == Command::Send(event)
    &&& polls == Command::<H>::Poll
    &&& told == (Model { agenda: seq![Job::<H>::Poll] + jobs, ..s })
    &&& leaves == Command::<H>::Proceed
    &&& left == (Model { agenda: jobs, ..s })
}

proof fn lemma_tells<H: Host>(s: Model<H>, event: Event<H>)
    requires
        s.agenda.len() > 0,
        s.agenda[0] == Job::Process(event),
    ensures
        tells(s, event, s.agenda.drop_first()),
{
    let asked = step(s, Reply::Done).0;
    assert(asked.agenda.drop_first() =~= s.agenda.drop_first());
}

/// The application is told of each report: that it is resumed or suspended, that there are no more
/// events, and of all events of the event loop, but for its start on Android. On Windows it is told
/// that there are no more events after a window was moved or resized, too. What is put off and what was
/// reported as an error stay as they are.
pub proof fn reports_are_passed_on<H: Host>(s: Model<H>, callback: Callback<H>)
    requires
        s.agenda.len() == 0,
    ensures
        ({
            let told = received(s, callback);
            let none = Seq::<Job<H>>::empty();
            let waits = seq![Job::<H>::Process(Event::AboutToWait)];
            &&& told.pending == s.pending
            &&& told.error == s.error
            &&& told.platform == s.platform
            &&& told.resumed == match callback {
                Callback::Resumed => true,
                Callback::Suspended => false,
                _ => s.resumed,
            }
            &&& match callback {
                Callback::Resumed => tells(told, Event::Resumed, seq![Job::<H>::Release]),
                Callback::Suspended => tells(told, Event::Suspended, none),
                Callback::AboutToWait => tells(told, Event::AboutToWait, none),
                Callback::UserEvent(event) => tells(told, Event::EventLoopAwakened(event), none),
                Callback::NewEvents { cause, event } => if s.platform == Platform::Android && cause
                    == StartCause::Init {
                    told == s
                } else {
                    tells(told, Event::EventLoopAwakened(event), none)
                },
                Callback::WindowEvent { input, event } => if s.platform == Platform::Windows && (input
                    == WindowInput::Moved || input == WindowInput::Resized) {
                    &&& tells(told, Event::EventLoopAwakened(event), waits)
                    &&& tells(Model { agenda: waits, ..told }, Event::AboutToWait, none)
                } else {
                    tells(told, Event::EventLoopAwakened(event), none)
                },
            }
        }),
{
    let told = received(s, callback);
    let none = Seq::<Job<H>>::empty();
    let waits = seq![Job::<H>::Process(Event::AboutToWait)];
    assert(waits.drop_first() =~= none);
    lemma_tells(Model { agenda: waits, ..told }, Event::AboutToWait);
    if told.agenda.len() > 0 {
        lemma_tells(told, told.agenda[0]->Process_0);
        match callback {
            Callback::Resumed => {
                assert(told.agenda.drop_first() =~= seq![Job::<H>::Release]);
            },
            Callback::WindowEvent { .. } => {
                assert(told.agenda.len() == 2 ==> told.agenda.drop_first() =~= waits);
                assert(told.agenda.len() == 1 ==> told.agenda.drop_first() =~= none);
            },
            _ => {
                assert(told.agenda.drop_first() =~= none);
            },
        }
    } else {
        assert(told.agenda =~= s.agenda);
    }
}

/// An application that has ended ends the event loop. One that has not is asked for the next thing that
/// it wants, until it wants nothing more; whenever it wanted something it runs again right after that.
pub proof fn applications_run_until_they_want_nothing<H: Host>(
    s: Model<H>,
    control: Control<H>,
)
    requires
        s.agenda.len() > 0,
        s.agenda[0] == Job::<H>::Poll,
    ensures
        ({
            let (polled, polls) = step(s, Reply::Done);
            let (ended, ends) = step(polled, Reply::Polled { ready: true });
            let (asked, asks) = step(polled, Reply::Polled { ready: false });
            let (rested, rests) = step(asked, Reply::Received(None));
            let (taken, takes) = step(asked, Reply::Received(Some(control)));
            let held = s.platform == Platform::Android && !s.resumed && control is CreateWindow;
            &&& polls == Command::<H>::Poll
            &&& ends == Command::<H>::Exit && ended == rest_of(s)
            &&& asks == Command::<H>::Receive
            &&& rests == Command::<H>::Proceed && rested == rest_of(s)
            &&& takes == Command::<H>::Proceed
            &&& held ==> taken == (Model { pending: s.pending.push(control), ..s })
            &&& !held ==> taken == (Model { agenda: seq![Job::Handle(control)] + s.agenda, ..s })
        }),
{
    let (polled, _) = step(s, Reply::Done);
    let (asked, _) = step(polled, Reply::Polled { ready: false });
    let (taken, _) = step(asked, Reply::Received(Some(control)));
    assert(polled.agenda.drop_first() =~= s.agenda.drop_first());
    assert(asked.agenda.drop_first() =~= s.agenda.drop_first());
    if put_off(s, control) {
        assert(taken.agenda =~= s.agenda);
    } else {
        assert(taken.agenda =~= seq![Job::Handle(control)] + s.agenda);
    }
}

/// A window is created with what it was asked for with, the way that the system wants it. The
/// application is then told of it: of its identifier, of the window that was created, of whether a
/// request to close it closes it, of whether it is to be made visible, and of where its identifier is
/// to be sent.
pub proof fn windows_are_created_as_asked_for<H: Host>(
    s: Model<H>,
    window: NewWindow<H>,
    first: Reply<H>,
    raw: H::RawWindow,
)
    requires
        s.agenda.len() > 0,
        s.agenda[0] == Job::Handle(Control::CreateWindow(window)),
    ensures
        ({
            let (asked, creates) = step(s, first);
            let (made, proceeds) = step(asked, Reply::Created(raw));
            &&& creates matches Command::CreateWindow { id, creation, plan } && {
                &&& id == window.id
                &&& creation == window.creation
                &&& !plan.visible
                &&& plan.fills_screen <==> s.platform == Platform::Ios
                &&& plan.follows_device <==> s.platform == Platform::Ios
                &&& plan.positioned_later <==> s.platform == Platform::MacOs
                &&& plan.embedded <==> s.platform == Platform::Web
            }
            &&& proceeds == Command::<H>::Proceed
            &&& tells(
                made,
                Event::WindowCreated {
                    id: window.id,
                    window: raw,
                    exit_on_close_request: window.exit_on_close_request,
                    make_visible: window.visible,
                    channel: window.channel,
                },
                s.agenda.drop_first(),
            )
            &&& made == (Model { agenda: made.agenda, ..s })
        }),
{
    let (asked, _) = step(s, first);
    let (made, _) = step(asked, Reply::Created(raw));
    systems_create_windows_their_way(s.platform);
    assert(asked.agenda.drop_first() =~= s.agenda.drop_first());
    assert(made.agenda.drop_first() =~= s.agenda.drop_first());
    lemma_tells(made, made.agenda[0]->Process_0);
}

/// A request to wait another way is weighed against how the event loop waits: an earlier deadline
/// stays, a deadline that is still to come stays in place of an open-ended wait, and any other request
/// is met.
pub proof fn waits_are_changed_as_asked_for<H: Host>(
    s: Model<H>,
    requested: ControlFlow,
    first: Reply<H>,
    current: ControlFlow,
    now: u64,
)
    requires
        s.agenda.len() > 0,
        s.agenda[0] == Job::<H>::Handle(Control::ChangeFlow(requested)),
    ensures
        ({
            let (asked, asks) = step(s, first);
            let (set, sets) = step(asked, Reply::Flow { current, now });
            let stays = match (current, requested) {
                (ControlFlow::WaitUntil(earlier), ControlFlow::WaitUntil(later)) => earlier < later,
                (ControlFlow::WaitUntil(deadline), ControlFlow::Wait) => now < deadline,
                _ => false,
            };
            &&& asks == Command::<H>::ReadFlow
            &&& set == rest_of(s)
            &&& stays ==> sets == Command::<H>::Proceed
            &&& !stays ==> sets == Command::<H>::SetFlow(requested)
        }),
{
    let (asked, _) = step(s, first);
    assert(asked.agenda.drop_first() =~= s.agenda.drop_first());
}

/// A crash is kept to be reported and ends the event loop. An exit has the application told and ends
/// the event loop after that. Only macOS is told whether windows can be organized into tabs.
pub proof fn endings_and_tabs_are_dealt_with<H: Host>(s: Model<H>, control: Control<H>, reply: Reply<H>)
    requires
        s.agenda.len() > 0,
        s.agenda[0] == Job::Handle(control),
    ensures
        ({
            let (after, command) = step(s, reply);
            let rest = s.agenda.drop_first();
            &&& control matches Control::Crash(error) ==> {
                &&& command == Command::<H>::Exit
                &&& after == (Model { error: Some(error), ..rest_of(s) })
            }
            &&& control matches Control::SetAutomaticWindowTabbing(enabled) ==> {
                &&& after == rest_of(s)
                &&& command == if s.platform == Platform::MacOs {
                    Command::<H>::SetAutomaticWindowTabbing(enabled)
                } else {
                    Command::<H>::Proceed
                }
            }
            &&& control is Exit ==> {
                let leaving = seq![Job::<H>::Leave] + rest;
                let (left, leaves) = step(Model { agenda: leaving, ..s }, reply);
                &&& command == Command::<H>::Proceed
                &&& tells(after, Event::Exit, leaving)
                &&& leaves == Command::<H>::Exit
                &&& left == rest_of(s)
            }
        }),
{
    let (after, _) = step(s, reply);
    if control is Exit {
        let leaving = seq![Job::<H>::Leave] + s.agenda.drop_first();
        assert(after.agenda.drop_first() =~= leaving);
        assert(leaving.drop_first() =~= s.agenda.drop_first());
        lemma_tells(after, Event::Exit);
    }
}

/// What was put off is handled once the application has been told that it is resumed, all of it, in the
/// order in which it was asked for.
pub proof fn what_was_put_off_is_handled_in_order<H: Host>(s: Model<H>, reply: Reply<H>)
    requires
        s.agenda.len() > 0,
        s.agenda[0] == Job::<H>::Release,
    ensures
        ({
            let (after, command) = step(s, reply);
            let n = s.pending.len();
            &&& command == Command::<H>::Proceed
            &&& after.pending.len() == 0
            &&& after.agenda.len() == n + s.agenda.len() - 1
            &&& forall|i: int|
                0 <= i < n ==> #[trigger] after.agenda[i] == Job::Handle(s.pending[i])
            &&& after.agenda.skip(n as int) == s.agenda.drop_first()
            &&& after == (Model { agenda: after.agenda, pending: after.pending, ..s })
        }),
{
    let (after, _) = step(s, reply);
    assert(after.agenda.skip(s.pending.len() as int) =~= s.agenda.drop_first());
}

/// An application that has crashed ends with its error, and any other one ends well. A runner that has
/// nothing to do stays as it is and says so.
pub proof fn runners_end_as_the_application_did<H: Host>(s: Model<H>, error: H::Error, reply: Reply<H>)
    ensures
        s.error == Some(error) <==> ending(s) == Err::<(), H::Error>(error),
        s.error is None <==> ending(s) is Ok,
        s.agenda.len() == 0 ==> step(s, reply) == (s, Command::<H>::Idle),
{
}

/// A runner starts with an application that is not resumed, with nothing put off, nothing to report and
/// nothing to do.
pub proof fn runners_start_afresh<H: Host>(platform: Platform)
    ensures
        ({
            let s = starting::<H>(platform);
            &&& s.platform == platform
            &&& !s.resumed
            &&& s.pending.len() == 0
            &&& s.error is None
            &&& s.agenda.len() == 0
        }),
{
}

} // verus!
