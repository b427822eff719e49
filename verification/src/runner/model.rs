//! What a runner does, as a function of its state.

use super::{Callback, Command, Event, Job, Model, Reply};
use crate::control::{plan_of, Control};
use crate::flow::keeps;
use crate::host::Host;
use crate::input::moves_or_resizes;
use crate::instance::StartCause;
use crate::platform::Platform;
use vstd::prelude::*;

verus! {

/// The state in which a runner starts.
pub open spec fn starting<H: Host>(platform: Platform) -> Model<H> {
    Model { platform, resumed: false, pending: Seq::empty(), error: None, agenda: Seq::empty() }
}

/// How the application of a runner has ended.
pub open spec fn ending<H: Host>(s: Model<H>) -> Result<(), H::Error> {
    match s.error {
        Some(error) => Err(error),
        None => Ok(()),
    }
}

/// Puts some jobs before all others.
pub open spec fn first_do<H: Host>(s: Model<H>, jobs: Seq<Job<H>>) -> Model<H> {
    Model { agenda: jobs + s.agenda, ..s }
}

/// What is to be done about a report of the event loop.
///
/// On Android the event loop starts before there is anything to start with. On Windows it does not
/// report that it waits while a window is moved or resized, so that is made up for.
pub open spec fn received<H: Host>(s: Model<H>, callback: Callback<H>) -> Model<H> {
    match callback {
        Callback::Resumed => first_do(
            Model { resumed: true, ..s },
            seq![Job::Process(Event::Resumed), Job::Release],
        ),
        Callback::Suspended => first_do(
            Model { resumed: false, ..s },
            seq![Job::Process(Event::Suspended)],
        ),
        Callback::NewEvents { cause, event } => if s.platform == Platform::Android && cause
            == StartCause::Init {
            s
        } else {
            first_do(s, seq![Job::Process(Event::EventLoopAwakened(event))])
        },
        Callback::WindowEvent { input, event } => if s.platform == Platform::Windows
            && moves_or_resizes(input) {
            first_do(
                s,
                seq![
                    Job::Process(Event::EventLoopAwakened(event)),
                    Job::Process(Event::AboutToWait),
                ],
            )
        } else {
            first_do(s, seq![Job::Process(Event::EventLoopAwakened(event))])
        },
        Callback::UserEvent(event) => first_do(
            s,
            seq![Job::Process(Event::EventLoopAwakened(event))],
        ),
        Callback::AboutToWait => first_do(s, seq![Job::Process(Event::AboutToWait)]),
    }
}

/// What is done for something that the application has asked for.
pub open spec fn handled<H: Host>(s: Model<H>, control: Control<H>) -> (Model<H>, Command<H>) {
    match control {
        Control::ChangeFlow(flow) => (first_do(s, seq![Job::AwaitFlow(flow)]), Command::ReadFlow),
        Control::CreateWindow(window) => (
            first_do(
                s,
                seq![
                    Job::AwaitCreated {
                        id: window.id,
                        exit_on_close_request: window.exit_on_close_request,
                        make_visible: window.visible,
                        channel: window.channel,
                    },
                ],
            ),
            Command::CreateWindow {
                id: window.id,
                creation: window.creation,
                plan: plan_of(s.platform),
            },
        ),
        Control::Exit => (
            first_do(s, seq![Job::Process(Event::Exit), Job::Leave]),
            Command::Proceed,
        ),
        Control::Crash(error) => (Model { error: Some(error), ..s }, Command::Exit),
        Control::SetAutomaticWindowTabbing(enabled) => (
            s,
            if s.platform == Platform::MacOs {
                Command::SetAutomaticWindowTabbing(enabled)
            } else {
                Command::Proceed
            },
        ),
    }
}

/// The jobs that handle some things that the application has asked for, in order.
pub open spec fn handling<H: Host>(controls: Seq<Control<H>>) -> Seq<Job<H>> {
    Seq::new(controls.len(), |i: int| Job::Handle(controls[i]))
}

/// The state in which what has been put off is handled next.
pub open spec fn released<H: Host>(s: Model<H>) -> Model<H> {
    first_do(Model { pending: Seq::empty(), ..s }, handling(s.pending))
}

/// Whether something that the application has asked for has to be put off: on Android no window can
/// be created before the application is resumed.
pub open spec fn put_off<H: Host>(s: Model<H>, control: Control<H>) -> bool {
    s.platform == Platform::Android && control is CreateWindow && !s.resumed
}

/// Does one job. The state is that without the job.
pub open spec fn perform<H: Host>(s: Model<H>, job: Job<H>, reply: Reply<H>) -> (
    Model<H>,
    Command<H>,
) {
    match job {
        Job::Process(event) => (first_do(s, seq![Job::AwaitExiting(event)]), Command::AskExiting),
        Job::AwaitExiting(event) => if reply->Exiting_0 {
            (s, Command::Proceed)
        } else {
            (first_do(s, seq![Job::Poll]), Command::Send(event))
        },
        Job::Poll => (first_do(s, seq![Job::AwaitPoll]), Command::Poll),
        Job::AwaitPoll => if reply->ready {
            (s, Command::Exit)
        } else {
            (first_do(s, seq![Job::AwaitControl]), Command::Receive)
        },
        Job::AwaitControl => match reply {
            Reply::Received(Some(control)) => if put_off(s, control) {
                (
                    first_do(Model { pending: s.pending.push(control), ..s }, seq![Job::Poll]),
                    Command::Proceed,
                )
            } else {
                (first_do(s, seq![Job::Handle(control), Job::Poll]), Command::Proceed)
            },
            _ => (s, Command::Proceed),
        },
        Job::Handle(control) => handled(s, control),
        Job::AwaitFlow(requested) => (
            s,
            if keeps(reply->current, requested, reply->now) {
                Command::Proceed
            } else {
                Command::SetFlow(requested)
            },
        ),
        Job::AwaitCreated { id, exit_on_close_request, make_visible, channel } => (
            first_do(
                s,
                seq![
                    Job::Process(
                        Event::WindowCreated {
                            id,
                            window: reply->Created_0,
                            exit_on_close_request,
                            make_visible,
                            channel,
                        },
                    ),
                ],
            ),
            Command::Proceed,
        ),
        Job::Release => (released(s), Command::Proceed),
        Job::Leave => (s, Command::Exit),
    }
}

/// A state without its first job.
pub open spec fn rest_of<H: Host>(s: Model<H>) -> Model<H> {
    Model { agenda: s.agenda.drop_first(), ..s }
}

/// One step of a runner: its first job, if it has any.
pub open spec fn step<H: Host>(s: Model<H>, reply: Reply<H>) -> (Model<H>, Command<H>) {
    if s.agenda.len() == 0 {
        (s, Command::Idle)
    } else {
        perform(rest_of(s), s.agenda[0], reply)
    }
}

/// Whether a reply is one to a command.
pub open spec fn answers<H: Host>(command: Command<H>, reply: Reply<H>) -> bool {
    match command {
        Command::AskExiting => reply is Exiting,
        Command::Poll => reply is Polled,
        Command::Receive => reply is Received,
        Command::ReadFlow => reply is Flow,
        Command::CreateWindow { .. } => reply is Created,
        _ => reply is Done,
    }
}

/// Whether a runner can go on with a reply.
pub open spec fn accepts<H: Host>(s: Model<H>, reply: Reply<H>) -> bool {
    s.agenda.len() > 0 ==> match s.agenda[0] {
        Job::AwaitExiting(_) => reply is Exiting,
        Job::AwaitPoll => reply is Polled,
        Job::AwaitControl => reply is Received,
        Job::AwaitFlow(_) => reply is Flow,
        Job::AwaitCreated { .. } => reply is Created,
        _ => true,
    }
}

/// Whether a job waits for a reply.
pub open spec fn awaits<H: Host>(job: Job<H>) -> bool {
    job is AwaitExiting || job is AwaitPoll || job is AwaitControl || job is AwaitFlow
        || job is AwaitCreated
}

/// Whether a job leads to a window being created.
pub open spec fn creates<H: Host>(job: Job<H>) -> bool {
    job is Release || job matches Job::Handle(Control::CreateWindow(_))
}

/// What holds of a runner at all times: only the next job waits for a reply, only the creation of
/// windows is put off, and that only on Android; and there no window is about to be created unless
/// the application is resumed.
pub open spec fn inv<H: Host>(s: Model<H>) -> bool {
    &&& forall|i: int| 1 <= i < s.agenda.len() ==> !awaits(#[trigger] s.agenda[i])
    &&& forall|i: int| 0 <= i < s.pending.len() ==> (#[trigger] s.pending[i]) is CreateWindow
    &&& s.pending.len() > 0 ==> s.platform == Platform::Android
    &&& s.platform == Platform::Android && !s.resumed ==> forall|i: int|
        0 <= i < s.agenda.len() ==> !creates(#[trigger] s.agenda[i])
}

/// Whether a runner goes on well after a step: what always holds still does, and any answer to the
/// command is accepted.
pub open spec fn goes_well<H: Host>(next: (Model<H>, Command<H>)) -> bool {
    &&& inv(next.0)
    &&& forall|reply: Reply<H>| #[trigger] answers(next.1, reply) ==> accepts(next.0, reply)
}

/// Every step of a runner goes well.
pub proof fn steps_go_well<H: Host>(s: Model<H>, reply: Reply<H>)
    requires
        inv(s),
        accepts(s, reply),
    ensures
        goes_well(step(s, reply)),
{
    let next = step(s, reply);
    if s.agenda.len() > 0 {
        let rest = rest_of(s).agenda;
        let n = next.0.agenda.len() - rest.len();
        assert forall|i: int| 0 <= i < rest.len() implies rest[i] == s.agenda[i + 1] && !awaits(
            #[trigger] rest[i],
        ) by {
            assert(!awaits(s.agenda[i + 1]));
        }
        assert forall|i: int| n <= i < next.0.agenda.len() implies #[trigger] next.0.agenda[i]
            == rest[i - n] by {}
        if s.agenda[0] is Release {
            assert(creates(s.agenda[0]));
            assert forall|i: int| 0 <= i < n implies (#[trigger] next.0.agenda[i]) is Handle by {}
        }
    }
}

} // verus!
