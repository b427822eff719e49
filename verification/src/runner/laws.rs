//! What a runner can be relied on for.

use super::model::{accepts, creates, handling, inv, put_off, received, rest_of, step};
use super::{Callback, Command, Event, Job, Model, Reply};
use crate::control::Control;
use crate::host::Host;
use crate::input::{moves_or_resizes, WindowInput};
use crate::instance::StartCause;
use crate::platform::Platform;
use vstd::prelude::*;

verus! {

/// On Android no window is created unless the application is resumed.
pub proof fn windows_are_created_while_resumed<H: Host>(s: Model<H>, reply: Reply<H>)
    requires
        inv(s),
        accepts(s, reply),
        s.platform == Platform::Android,
        step(s, reply).1 is CreateWindow,
    ensures
        s.resumed,
{
    assert(creates(s.agenda[0]));
}

/// What is put off is kept in the order in which it came until it is handled, and then all of it is:
/// a step adds one thing that has to be put off, hands on everything, or leaves things as they are.
pub proof fn nothing_put_off_gets_lost<H: Host>(s: Model<H>, reply: Reply<H>)
    requires
        inv(s),
        accepts(s, reply),
        s.agenda.len() > 0,
    ensures
        ({
            let after = step(s, reply).0;
            match s.agenda[0] {
                Job::AwaitControl => after.pending == match reply {
                    Reply::Received(Some(control)) if put_off(s, control) => s.pending.push(control),
                    _ => s.pending,
                },
                Job::Release => {
                    &&& after.pending == Seq::<Control<H>>::empty()
                    &&& after.agenda == handling(s.pending) + s.agenda.drop_first()
                },
                _ => after.pending == s.pending,
            }
        }),
{
}

/// When the application is resumed, everything that was put off is handled after the application has
/// been told, in the order in which it came.
pub proof fn resuming_hands_on_what_was_put_off<H: Host>(s: Model<H>)
    requires
        s.agenda.len() == 0,
    ensures
        ({
            let after = received(s, Callback::<H>::Resumed);
            &&& after.resumed
            &&& after.pending == s.pending
            &&& after.agenda == seq![Job::<H>::Process(Event::Resumed), Job::<H>::Release]
        }),
{
    assert(received(s, Callback::<H>::Resumed).agenda =~= seq![
        Job::<H>::Process(Event::Resumed),
        Job::<H>::Release,
    ]);
}

/// An application is told of nothing once the event loop is about to end.
pub proof fn nothing_is_sent_on_the_way_out<H: Host>(s: Model<H>, event: Event<H>)
    requires
        s.agenda.len() > 0,
        s.agenda[0] == Job::Process(event),
    ensures
        ({
            let (asked, command) = step(s, Reply::Done);
            let (after, next) = step(asked, Reply::Exiting(true));
            &&& command == Command::<H>::AskExiting
            &&& next == Command::<H>::Proceed
            &&& after == rest_of(s)
        }),
{
    let asked = step(s, Reply::Done).0;
    assert(asked.agenda.drop_first() =~= s.agenda.drop_first());
}

/// An application is told of every event while the event loop goes on, and runs right after.
pub proof fn events_are_sent_and_run<H: Host>(s: Model<H>, event: Event<H>)
    requires
        s.agenda.len() > 0,
        s.agenda[0] == Job::Process(event),
    ensures
        ({
            let asked = step(s, Reply::Done).0;
            let (sent, command) = step(asked, Reply::Exiting(false));
            &&& command == Command::Send(event)
            &&& step(sent, Reply::Done).1 == Command::<H>::Poll
            &&& sent.agenda == seq![Job::<H>::Poll] + s.agenda.drop_first()
        }),
{
    let asked = step(s, Reply::Done).0;
    assert(asked.agenda.drop_first() =~= s.agenda.drop_first());
}

/// A crash ends the event loop, and its error is the one that is reported. Nothing else changes what
/// is reported.
pub proof fn crashes_are_reported<H: Host>(s: Model<H>, reply: Reply<H>)
    requires
        s.agenda.len() > 0,
    ensures
        step(s, reply).0.error == match s.agenda[0] {
            Job::Handle(Control::Crash(error)) => Some(error),
            _ => s.error,
        },
        s.agenda[0] is Handle && s.agenda[0]->Handle_0 is Crash ==> step(s, reply).1
            == Command::<H>::Exit,
{
}

/// On Windows the application gets to wait after a window is moved or resized. Nowhere else, and
/// after no other event of a window, is it told so out of turn.
pub proof fn moving_windows_lets_the_application_wait<H: Host>(
    s: Model<H>,
    input: WindowInput,
    event: H::LoopEvent,
)
    requires
        s.agenda.len() == 0,
    ensures
        ({
            let after = received(s, Callback::<H>::WindowEvent { input, event });
            let waits = s.platform == Platform::Windows && moves_or_resizes(input);
            after.agenda == if waits {
                seq![
                    Job::<H>::Process(Event::EventLoopAwakened(event)),
                    Job::<H>::Process(Event::AboutToWait),
                ]
            } else {
                seq![Job::<H>::Process(Event::EventLoopAwakened(event))]
            }
        }),
{
    let after = received(s, Callback::<H>::WindowEvent { input, event });
    if s.platform == Platform::Windows && moves_or_resizes(input) {
        assert(after.agenda =~= seq![
            Job::<H>::Process(Event::EventLoopAwakened(event)),
            Job::<H>::Process(Event::AboutToWait),
        ]);
    } else {
        assert(after.agenda =~= seq![Job::<H>::Process(Event::EventLoopAwakened(event))]);
    }
}

/// On Android the application is not told that the event loop starts. Everywhere else it is.
pub proof fn android_starts_silently<H: Host>(s: Model<H>, event: H::LoopEvent)
    requires
        s.agenda.len() == 0,
    ensures
        received(s, Callback::<H>::NewEvents { cause: StartCause::Init, event }).agenda.len() == (
        if s.platform == Platform::Android {
            0int
        } else {
            1
        }),
{
}

} // verus!
