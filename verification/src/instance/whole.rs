//! What comes of an event as a whole, and of an action wherever it is run.

use super::course::{
    follows_action, leads_on, lemma_action_goes_on, lemma_action_starts, lemma_leads_further,
};
use super::laws::windows_come_and_go_as_told;
use super::model::{
    act_step, action_step, closed, first_do, received, rest_of, single_step, step,
    window_action_step, Next,
};
use super::order::{goes_well, inv, passing};
use super::protocol::{accepts, answers};
use super::upkeep::{events_are_taken_well, steps_go_well};
use super::{Acting, Command, Effect, Event, Job, Model, Reply, UiEvent};
use crate::action::{Action, WindowAction};
use crate::host::Host;
use crate::window_man::lemma_removed;
use vstd::prelude::*;

verus! {

/// An application that has just been told of an event.
pub open spec fn begun<H: Host, U>(s: Model<H>, ui: Map<u64, U>, event: Event<H>) -> Next<H, U> {
    Next { model: received(s, event), interfaces: ui, command: Command::Proceed }
}

/// An application after a reply to its last command.
pub open spec fn go<H: Host, U>(now: Next<H, U>, reply: Reply<H, U>) -> Next<H, U> {
    step(now.model, now.interfaces, reply)
}

/// An application after some replies to its commands.
pub open spec fn run<H: Host, U>(start: Next<H, U>, replies: Seq<Reply<H, U>>) -> Next<H, U>
    decreases replies.len(),
{
    if replies.len() == 0 {
        start
    } else {
        let now = run(start, replies.drop_last());
        step(now.model, now.interfaces, replies.last())
    }
}

/// How often an application has asked for something of a kind.
pub open spec fn times<H: Host, U>(
    start: Next<H, U>,
    replies: Seq<Reply<H, U>>,
    kind: spec_fn(Command<H, U>) -> bool,
) -> int
    decreases replies.len(),
{
    if replies.len() == 0 {
        0
    } else {
        times(start, replies.drop_last(), kind) + one_if(kind(run(start, replies).command))
    }
}

/// One if something holds, else zero.
pub open spec fn one_if(holds: bool) -> int {
    if holds {
        1
    } else {
        0
    }
}

/// Whether an application can go on from a reply to its last command.
pub open spec fn can_go_on<H: Host, U>(now: Next<H, U>, reply: Reply<H, U>) -> bool {
    &&& answers(now.command, reply)
    &&& now.model.windows.entries.len() <= usize::MAX
    &&& now.model.actions < usize::MAX
}

/// Whether every command of an application was answered.
pub open spec fn answered<H: Host, U>(start: Next<H, U>, replies: Seq<Reply<H, U>>) -> bool
    decreases replies.len(),
{
    replies.len() == 0 || {
        &&& answered(start, replies.drop_last())
        &&& can_go_on(run(start, replies.drop_last()), replies.last())
    }
}

/// Whatever the replies are, an event is dealt with well all along.
pub proof fn events_go_well<H: Host, U>(
    s: Model<H>,
    ui: Map<u64, U>,
    event: Event<H>,
    replies: Seq<Reply<H, U>>,
)
    requires
        inv(s, ui),
        s.agenda.len() == 0,
        answered(begun(s, ui, event), replies),
    ensures
        goes_well(run(begun(s, ui, event), replies)),
    decreases replies.len(),
{
    if replies.len() == 0 {
        events_are_taken_well(s, ui, event);
        assert forall|reply: Reply<H, U>| #[trigger]
            answers(Command::<H, U>::Proceed, reply) implies accepts(received(s, event), reply) by {
            assert(reply == Reply::<H, U>::Done);
        }
    } else {
        let now = run(begun(s, ui, event), replies.drop_last());
        events_go_well(s, ui, event, replies.drop_last());
        assert(accepts(now.model, replies.last()));
        steps_go_well(now.model, now.interfaces, replies.last());
    }
}

/// The identifiers that are left after an action.
pub open spec fn ids_after<H: Host>(ids: Set<u64>, action: Action<H>) -> Set<u64> {
    match action {
        Action::Window(WindowAction::Close(id)) => ids.remove(id),
        _ => ids,
    }
}

/// What is left of what each window has after an action.
pub open spec fn left_by<H: Host, V>(map: Map<u64, V>, action: Action<H>) -> Map<u64, V> {
    match action {
        Action::Window(WindowAction::Close(id)) => map.remove(id),
        _ => map,
    }
}

/// Whether an application is about to run an action.
pub open spec fn is_about_to<H: Host, U>(start: Next<H, U>, action: Action<H>) -> bool {
    start.model.agenda.len() > 0 && start.model.agenda[0] == Job::Acting(Acting::Run(action))
}

/// Whether the first job of an application was still under way when each reply came.
pub open spec fn is_under_way<H: Host, U>(start: Next<H, U>, replies: Seq<Reply<H, U>>) -> bool
    decreases replies.len(),
{
    replies.len() == 0 || {
        &&& is_under_way(start, replies.drop_last())
        &&& run(start, replies.drop_last()).model.agenda.len() >= start.model.agenda.len()
    }
}

/// Whether some replies are those to the first job of an application, and all that it led to: every
/// command was answered, and with the last reply nothing is left to do but what was to be done anyway.
pub open spec fn carries_out<H: Host, U>(start: Next<H, U>, replies: Seq<Reply<H, U>>) -> bool {
    &&& answered(start, replies)
    &&& is_under_way(start, replies)
    &&& run(start, replies).model.agenda.len() < start.model.agenda.len()
}

/// Whatever the replies are, an application that goes well goes on well.
pub proof fn runs_go_well<H: Host, U>(start: Next<H, U>, replies: Seq<Reply<H, U>>)
    requires
        goes_well(start),
        answered(start, replies),
    ensures
        goes_well(run(start, replies)),
    decreases replies.len(),
{
    if replies.len() > 0 {
        let now = run(start, replies.drop_last());
        runs_go_well(start, replies.drop_last());
        assert(accepts(now.model, replies.last()));
        steps_go_well(now.model, now.interfaces, replies.last());
    }
}

/// What an action does to the windows, the user interfaces and the caches it does right away. If it
/// closes a window that is not open, it does nothing to them, nor to the events and the clipboard.
pub(crate) proof fn lemma_run_action<H: Host, U>(s: Model<H>, ui: Map<u64, U>, action: Action<H>)
    requires
        s.windows.sorted(),
    ensures
        ({
            let next = action_step(s, ui, action);
            &&& next.model.windows.ids() == ids_after(s.windows.ids(), action)
            &&& next.interfaces == left_by(ui, action)
            &&& next.model.ui_caches == left_by(s.ui_caches, action)
            &&& forall|id: u64|
                #![trigger s.windows.has(id)]
                action == close::<H>(id) && !s.windows.has(id) ==> {
                    &&& next.model.windows == s.windows
                    &&& next.model.events == s.events
                    &&& next.model.clipboard == s.clipboard
                }
        }),
{
    lemma_action_starts(s, ui, action);
    if let Action::Window(WindowAction::Close(id)) = action {
        reveal(action_step);
        reveal(window_action_step);
        lemma_removed(s.windows, id);
    }
}

/// An action that is run while there is nothing else to do goes well.
pub(crate) proof fn lemma_action_goes_well<H: Host, U>(s: Model<H>, ui: Map<u64, U>, action: Action<H>)
    requires
        s.windows.entries.len() <= usize::MAX,
    ensures
        inv(s, ui) && s.agenda.len() == 0 ==> goes_well(action_step(s, ui, action)),
{
    if inv(s, ui) && s.agenda.len() == 0 {
        let asked = first_do(s, seq![Job::Acting(Acting::Run(action))]);
        reveal(act_step);
        assert(asked.agenda =~= seq![Job::Acting(Acting::Run(action))]);
        assert(rest_of(asked) =~= s);
        steps_go_well(asked, ui, Reply::<H, U>::Done);
    }
}

/// How far an action has got: it is about to start, or it has started and the windows are as it leaves
/// them.
proof fn lemma_action_course<H: Host, U>(
    start: Next<H, U>,
    action: Action<H>,
    replies: Seq<Reply<H, U>>,
)
    requires
        goes_well(start),
        is_about_to(start, action),
        answered(start, replies),
        is_under_way(start, replies),
        replies.len() > 0,
    ensures
        ({
            let now = run(start, replies);
            &&& leads_on(rest_of(start.model), now, |job: Job<H>| follows_action(job))
            &&& now.model.actions == start.model.actions
            &&& now.model.windows.ids() == ids_after(start.model.windows.ids(), action)
        }),
    decreases replies.len(),
{
    let front = replies.drop_last();
    let before = run(start, front);
    let now = run(start, replies);
    let reply = replies.last();
    runs_go_well(start, front);
    assert(accepts(before.model, reply));
    windows_come_and_go_as_told(before.model, before.interfaces, reply);
    if front.len() == 0 {
        reveal(act_step);
        lemma_action_starts(rest_of(start.model), start.interfaces, action);
    } else {
        lemma_action_course(start, action, front);
        assert(follows_action(before.model.agenda[0]));
        lemma_action_goes_on(before.model, before.interfaces, reply);
        lemma_leads_further(rest_of(start.model), before, now, |job: Job<H>| follows_action(job));
    }
}

/// Once an action is over, nothing is left to do but what was to be done anyway.
proof fn lemma_action_over<H: Host, U>(start: Next<H, U>, action: Action<H>, replies: Seq<Reply<H, U>>)
    requires
        goes_well(start),
        is_about_to(start, action),
        carries_out(start, replies),
    ensures
        run(start, replies).model.agenda == rest_of(start.model).agenda,
        goes_well(run(start, replies)),
{
    let now = run(start, replies);
    runs_go_well(start, replies);
    lemma_action_course(start, action, replies);
    assert(now.model.agenda =~= rest_of(start.model).agenda);
}

/// No action brings a window, a user interface or a cache, wherever it is run. Closing a window takes
/// those of that window away, and no other action takes any.
pub proof fn actions_keep_windows<H: Host, U>(
    start: Next<H, U>,
    action: Action<H>,
    replies: Seq<Reply<H, U>>,
)
    requires
        goes_well(start),
        is_about_to(start, action),
        carries_out(start, replies),
    ensures
        ({
            let now = run(start, replies);
            &&& now.model.windows.ids() == ids_after(start.model.windows.ids(), action)
            &&& now.interfaces.dom() == ids_after(start.interfaces.dom(), action)
            &&& now.model.ui_caches.dom() == ids_after(start.model.ui_caches.dom(), action)
        }),
{
    let now = run(start, replies);
    lemma_action_over(start, action, replies);
    lemma_action_course(start, action, replies);
    assert(start.interfaces.dom() =~= start.model.windows.ids());
    assert(start.model.ui_caches.dom() =~= start.model.windows.ids());
    if now.model.agenda.len() > 0 {
        assert(now.model.agenda[0] == start.model.agenda[1]);
        assert(!passing(start.model.agenda[1]));
    }
    assert(now.interfaces.dom() =~= now.model.windows.ids());
    assert(now.model.ui_caches.dom() =~= now.model.windows.ids());
}

/// An application that is asked for an action runs it next, and counts it after that.
pub proof fn actions_are_run_when_asked_for<H: Host, U>(s: Model<H>, ui: Map<u64, U>, action: Action<H>)
    requires
        inv(s, ui),
        s.agenda.len() == 0,
    ensures
        goes_well(begun(s, ui, Event::UserEvent(action))),
        is_about_to(begun(s, ui, Event::UserEvent(action)), action),
        rest_of(received(s, Event::UserEvent(action))).agenda == seq![
            Job::<H>::Acting(Acting::Count),
        ],
{
    let none = Seq::<Reply<H, U>>::empty();
    events_go_well(s, ui, Event::UserEvent(action), none);
    assert(run(begun(s, ui, Event::UserEvent(action)), none) == begun(
        s,
        ui,
        Event::UserEvent(action),
    ));
    assert(rest_of(received(s, Event::UserEvent(action))).agenda =~= seq![
        Job::<H>::Acting(Acting::Count),
    ]);
}

/// The action that closes a window.
pub open spec fn close<H: Host>(id: u64) -> Action<H> {
    Action::Window(WindowAction::Close(id))
}

/// Closing a window that is not open changes nothing, wherever it is done: the windows, the user
/// interfaces, the caches, the events, the clipboard and the compositor are as they were.
pub proof fn closing_what_is_not_open_changes_nothing<H: Host, U>(
    start: Next<H, U>,
    id: u64,
    replies: Seq<Reply<H, U>>,
)
    requires
        goes_well(start),
        is_about_to(start, close(id)),
        !start.model.windows.has(id),
        carries_out(start, replies),
    ensures
        run(start, replies).model == rest_of(start.model),
        run(start, replies).interfaces == start.interfaces,
{
    lemma_nothing_closed(start, id, replies);
    lemma_action_over(start, close(id), replies);
}

/// While a window that is not open is being closed, there is at most the compositor to be dropped that
/// has gone before.
proof fn lemma_nothing_closed<H: Host, U>(start: Next<H, U>, id: u64, replies: Seq<Reply<H, U>>)
    requires
        goes_well(start),
        is_about_to(start, close(id)),
        !start.model.windows.has(id),
        answered(start, replies),
        is_under_way(start, replies),
        replies.len() > 0,
    ensures
        ({
            let now = run(start, replies);
            let rest = rest_of(start.model);
            let cleared = Job::<H>::Emit(Effect::DropCompositor);
            &&& now.model == rest || now.model == first_do(rest, seq![cleared])
            &&& now.interfaces == start.interfaces
        }),
    decreases replies.len(),
{
    let front = replies.drop_last();
    let before = run(start, front);
    let s = start.model;
    let ui = start.interfaces;
    let rest = rest_of(s);
    assert(first_do(rest, Seq::<Job<H>>::empty()) =~= rest);
    if front.len() == 0 {
        reveal(act_step);
        reveal(action_step);
        reveal(window_action_step);
        assert(ui.dom() =~= s.windows.ids());
        assert(s.ui_caches.dom() =~= s.windows.ids());
        assert(!s.windows.ids().contains(id));
        assert(ui.remove(id) =~= ui);
        assert(s.ui_caches.remove(id) =~= s.ui_caches);
        let next = closed(rest, ui, id);
        if s.windows.entries.len() == 0 {
            assert(next.model =~= first_do(rest, seq![Job::<H>::Emit(Effect::DropCompositor)]));
        } else {
            assert(next.model =~= rest);
        }
    } else {
        lemma_nothing_closed(start, id, front);
        reveal(single_step);
        assert(rest_of(before.model) =~= rest);
    }
}

/// Whether a job comes after a window has been closed.
pub open spec fn follows_close<H: Host>(job: Job<H>) -> bool {
    job is Emit || job is Connect || job is AwaitConnected
}

/// Closing a window queues one event that tells of it if the window was open, and none if it was not.
pub proof fn closing_queues_one_event<H: Host, U>(
    start: Next<H, U>,
    id: u64,
    replies: Seq<Reply<H, U>>,
)
    requires
        is_about_to(start, close(id)),
        is_under_way(start, replies),
        replies.len() > 0,
    ensures
        run(start, replies).model.events == if start.model.windows.has(id) {
            start.model.events.push((id, UiEvent::Closed))
        } else {
            start.model.events
        },
{
    lemma_close_course(start, id, replies);
}

/// What follows the closing of a window queues no event.
proof fn lemma_close_goes_on<H: Host, U>(s: Model<H>, ui: Map<u64, U>, reply: Reply<H, U>)
    requires
        s.agenda.len() > 0,
        follows_close(s.agenda[0]),
    ensures
        leads_on(rest_of(s), step(s, ui, reply), |job: Job<H>| follows_close(job)),
        step(s, ui, reply).model.events == s.events,
{
    reveal(single_step);
}

proof fn lemma_close_starts<H: Host, U>(s: Model<H>, ui: Map<u64, U>, id: u64)
    ensures
        leads_on(s, closed(s, ui, id), |job: Job<H>| follows_close(job)),
{
}

proof fn lemma_close_course<H: Host, U>(start: Next<H, U>, id: u64, replies: Seq<Reply<H, U>>)
    requires
        is_about_to(start, close(id)),
        is_under_way(start, replies),
        replies.len() > 0,
    ensures
        ({
            let now = run(start, replies);
            let rest = rest_of(start.model);
            &&& now.model.events == closed(rest, start.interfaces, id).model.events
            &&& leads_on(rest, now, |job: Job<H>| follows_close(job))
        }),
    decreases replies.len(),
{
    let front = replies.drop_last();
    let before = run(start, front);
    let rest = rest_of(start.model);
    if front.len() == 0 {
        reveal(act_step);
        reveal(action_step);
        reveal(window_action_step);
        lemma_close_starts(rest, start.interfaces, id);
    } else {
        lemma_close_course(start, id, front);
        assert(follows_close(before.model.agenda[0]));
        lemma_close_goes_on(before.model, before.interfaces, replies.last());
        lemma_leads_further(rest, before, run(start, replies), |job: Job<H>| follows_close(job));
    }
}

/// Closing a window twice is closing it once, wherever it is done: the second time changes nothing at
/// all.
pub proof fn closing_twice_is_closing_once<H: Host, U>(
    start: Next<H, U>,
    id: u64,
    first: Seq<Reply<H, U>>,
    second: Seq<Reply<H, U>>,
)
    requires
        goes_well(start),
        is_about_to(start, close(id)),
        carries_out(start, first),
        is_about_to(run(start, first), close(id)),
        carries_out(run(start, first), second),
    ensures
        ({
            let once = run(start, first);
            let twice = run(once, second);
            &&& twice.model == rest_of(once.model)
            &&& twice.interfaces == once.interfaces
        }),
{
    let once = run(start, first);
    lemma_action_over(start, close(id), first);
    actions_keep_windows(start, close(id), first);
    assert(!once.model.windows.ids().contains(id));
    closing_what_is_not_open_changes_nothing(once, id, second);
}

} // verus!
