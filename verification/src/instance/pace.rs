//! How an application keeps up when there are no more events for now, and how long it can wait then.

use super::course::{
    follows_action, lemma_action_goes_on, lemma_action_starts, lemma_interaction,
    leads_on, reacts, sets_pace,
};
use super::laws::{commands_of, state_after, times_that_have_come_are_forgotten};
use super::model::{
    act_step, collected_step, deliver_step, first_do, interacted, received, refresh_step, rest_of,
    single_step, step, sweep_step, update_reply, wait_step, Next,
};
use super::order::inv;
use super::protocol::accepts;
use super::whole::{answered, begun, events_go_well, go, run};
use super::{
    Acting, Command, Effect, Event, Job, Model, Refresh, Reply, StartCause, Sweep, Waiting,
    WindowOp,
};
use crate::control::Control;
use crate::flow::ControlFlow;
use crate::host::Host;
use crate::update::{update_step, UpdatePhase};
use crate::window_man::{
    earliest_time_is_that_of_a_window, is_set_to, lemma_place, lemma_requested, RedrawRequest, Window,
    Windows,
};
use vstd::prelude::*;

verus! {

/// What an application did while it dealt with an event.
#[verifier::ext_equal]
pub ghost struct Pace<H: Host> {
    /// How long it told the event loop to wait, each time that it did.
    pub flows: Seq<ControlFlow>,
    /// Whether some user interface was outdated once it was shown its events.
    pub outdated: bool,
    /// The messages that user interfaces had once they were shown their events.
    pub said: Seq<H::Message>,
    /// The messages that the program was updated with.
    pub applied: Seq<H::Message>,
    /// How often it had what the program subscribes to followed, which ends an update of it.
    pub rounds: int,
    /// The windows that it asked to be drawn again since it last did that.
    pub asked: Set<u64>,
}

/// What an application did, and what it does with one more reply.
pub open spec fn paced<H: Host, U>(
    pace: Pace<H>,
    before: Command<H, U>,
    reply: Reply<H, U>,
    command: Command<H, U>,
) -> Pace<H> {
    Pace {
        flows: match command {
            Command::Effect(Effect::Control(Control::ChangeFlow(flow))) => pace.flows.push(flow),
            _ => pace.flows,
        },
        outdated: pace.outdated || (before is Interact && reply->Interacted_state is Outdated),
        said: if before is Interact {
            pace.said + reply->Interacted_messages@
        } else {
            pace.said
        },
        applied: match command {
            Command::UpdateProgram(message) => pace.applied.push(message),
            _ => pace.applied,
        },
        rounds: match command {
            Command::Effect(Effect::Track) => pace.rounds + 1,
            _ => pace.rounds,
        },
        asked: match command {
            Command::Effect(Effect::Track) => Set::empty(),
            Command::Effect(Effect::Window { id, op: WindowOp::RequestRedraw }) => pace.asked.insert(id),
            _ => pace.asked,
        },
    }
}

/// What an application did while it was given some replies.
pub open spec fn pace_of<H: Host, U>(start: Next<H, U>, replies: Seq<Reply<H, U>>) -> Pace<H>
    decreases replies.len(),
{
    if replies.len() == 0 {
        Pace {
            flows: Seq::empty(),
            outdated: false,
            said: Seq::empty(),
            applied: Seq::empty(),
            rounds: 0,
            asked: Set::empty(),
        }
    } else {
        let front = replies.drop_last();
        paced(
            pace_of(start, front),
            run(start, front).command,
            replies.last(),
            run(start, replies).command,
        )
    }
}

/// Whether there is something to deliver, to apply or to draw at a set time.
pub open spec fn is_busy<H: Host>(s: Model<H>) -> bool {
    ||| s.events.len() > 0
    ||| s.messages.len() > 0
    ||| exists|i: int|
        0 <= i < s.windows.entries.len() && (#[trigger] s.windows.entries[i]).redraw_at is Some
}

/// Whether the event loop is told to wait as long as it can: until the earliest time at which a window
/// is to be drawn again, or for as long as nothing happens if no window has a time set.
pub open spec fn waits_long_enough<W>(windows: Windows<W>, flow: ControlFlow) -> bool {
    match flow {
        ControlFlow::Poll => false,
        ControlFlow::Wait => forall|i: int|
            0 <= i < windows.entries.len() ==> (#[trigger] windows.entries[i]).redraw_at is None,
        ControlFlow::WaitUntil(time) => {
            &&& exists|i: int|
                0 <= i < windows.entries.len() && (#[trigger] windows.entries[i]).redraw_at == Some(
                    time,
                )
            &&& forall|i: int, other: u64|
                0 <= i < windows.entries.len() && #[trigger] is_set_to(windows.entries[i], other)
                    ==> time <= other
        },
    }
}

/// A stage on the way from the last event to the wait.
ghost enum Stage {
    /// Room is made for actions, and it is looked at whether there is anything to do.
    Begin,
    /// There is nothing to do.
    Rest,
    /// The windows are shown their events.
    Deliver,
    /// The user interfaces are turned into their caches.
    Caching,
    /// The program is updated.
    Updating,
    /// The user interfaces are built.
    Building,
    /// The actions that came of the update are run.
    Running,
    /// All windows are asked to be drawn again. Those before a place have been.
    Sweeping { next: int },
    /// The event loop is about to be told how long it can wait.
    Flowing,
    /// The event loop has been told.
    Over,
}

/// What is left to do once the user interfaces have been built.
spec fn tail<H: Host>() -> Seq<Job<H>> {
    seq![
        Job::RunCollected { defer: false },
        Job::Sweep(Sweep::Redraw { next: 0, except: None }),
        Job::Flow,
    ]
}

/// What is left to do once all actions have been run.
spec fn end<H: Host>() -> Seq<Job<H>> {
    seq![Job::Sweep(Sweep::Redraw { next: 0, except: None }), Job::Flow]
}

/// Whether a job belongs to the run of the actions that came of an update.
spec fn runs<H: Host>(job: Job<H>) -> bool {
    match job {
        Job::Acting(acting) => !(acting is Count),
        Job::RunCollected { defer } => !defer,
        _ => follows_action(job),
    }
}

/// Whether a job has to do with what a window was shown.
spec fn tells<H: Host>(job: Job<H>) -> bool {
    match job {
        Job::Waiting(waiting) => waiting is BroadcastShown || waiting is BroadcastRest,
        _ => reacts(job),
    }
}

/// Whether a job leads on in the delivery of events.
spec fn delivers<H: Host>(job: Job<H>, stale: bool) -> bool {
    match job {
        Job::Waiting(Waiting::Deliver { stale: is, .. }) => is == stale,
        Job::Waiting(Waiting::AwaitInteract { stale: is, .. }) => is == stale,
        Job::Waiting(Waiting::Finish { stale: is }) => is == stale,
        _ => false,
    }
}

/// Whether an application that was in a state when there were no more events is at a stage.
spec fn stands_at<H: Host, U>(s: Model<H>, now: Next<H, U>, stage: Stage, p: Pace<H>) -> bool {
    let m = now.model;
    let agenda = m.agenda;
    let n = agenda.len();
    let messages = s.messages + p.said;
    let due = messages.len() > 0 || p.outdated;
    let shows = n > 0 && (agenda[0] matches Job::Waiting(waiting) && waiting is AwaitInteract);
    &&& now.command is Interact <==> shows
    &&& stage !is Over ==> p.flows.len() == 0
    &&& stage is Begin || stage is Rest || stage is Deliver || stage is Caching ==> p.rounds == 0
        && p.applied.len() == 0
    &&& stage is Building || stage is Running || stage is Sweeping ==> due && p.rounds == 1
        && p.applied == messages
    &&& stage is Begin || stage is Rest ==> p.said.len() == 0 && !p.outdated
    &&& stage !is Begin ==> (stage is Rest <==> !is_busy(s))
    &&& match stage {
        Stage::Begin => {
            &&& agenda == seq![Job::<H>::Waiting(Waiting::Release)] || agenda == seq![
                Job::<H>::Waiting(Waiting::Check),
            ]
            &&& m.events == s.events && m.messages == s.messages && m.windows == s.windows
        },
        Stage::Rest => n == 0,
        Stage::Deliver => {
            &&& n > 0
            &&& forall|i: int| 0 <= i < n - 1 ==> tells(#[trigger] agenda[i])
            &&& delivers(agenda[n - 1], p.outdated)
            &&& n > 1 ==> !(agenda[n - 1] matches Job::Waiting(waiting) && waiting is AwaitInteract)
            &&& m.messages == messages
        },
        Stage::Caching => {
            &&& due
            &&& m.messages == messages
            &&& n == 4 && agenda.drop_first() == tail::<H>()
            &&& agenda[0] matches Job::Refresh(refresh)
            &&& refresh is Caching || refresh is AwaitCache
        },
        Stage::Updating => {
            &&& due
            &&& p.applied + m.update.messages == messages
            &&& m.update.phase == UpdatePhase::Done ==> m.update.messages.len() == 0
            &&& p.rounds == (if m.update.phase == UpdatePhase::Done {
                1int
            } else {
                0
            })
            &&& n == 4 && agenda.drop_first() == tail::<H>()
            &&& agenda[0] == Job::<H>::Refresh(Refresh::Updating)
        },
        Stage::Building => {
            &&& n == 4 && agenda.drop_first() == tail::<H>()
            &&& agenda[0] == Job::<H>::Refresh(Refresh::Building)
        },
        Stage::Running => {
            &&& n > 2
            &&& forall|i: int| 0 <= i < n - 2 ==> runs(#[trigger] agenda[i])
            &&& agenda.skip(n - 2) == end::<H>()
        },
        Stage::Sweeping { next } => {
            &&& 0 <= next
            &&& n == 2
            &&& agenda[0] matches Job::Sweep(Sweep::Redraw { next: place, except: None })
            &&& place == next
            &&& agenda[1] == Job::<H>::Flow
            &&& forall|i: int|
                0 <= i < next && i < m.windows.entries.len() ==> p.asked.contains(
                    (#[trigger] m.windows.entries[i]).id,
                )
        },
        Stage::Flowing => {
            &&& agenda == seq![Job::<H>::Flow]
            &&& has_kept_up(m.windows, messages, due, p)
        },
        Stage::Over => {
            &&& n == 0
            &&& p.flows.len() == 1
            &&& waits_long_enough(m.windows, p.flows[0])
            &&& has_kept_up(m.windows, messages, due, p)
        },
    }
}

/// Whether an application has kept up with what it had to do: if there were messages, or user
/// interfaces that were outdated, the program has been updated with all of these messages, in order,
/// its subscriptions are followed, and every window has been asked to be drawn again since. Otherwise
/// none of that was done.
pub open spec fn has_kept_up<H: Host, W>(
    windows: Windows<W>,
    messages: Seq<H::Message>,
    due: bool,
    pace: Pace<H>,
) -> bool {
    if due {
        &&& pace.rounds == 1
        &&& pace.applied == messages
        &&& forall|i: int|
            0 <= i < windows.entries.len() ==> pace.asked.contains((#[trigger] windows.entries[i]).id)
    } else {
        pace.rounds == 0 && pace.applied.len() == 0
    }
}

/// What a step from a stage leads to.
spec fn arrives<H: Host, U>(
    s: Model<H>,
    now: Next<H, U>,
    reply: Reply<H, U>,
    p: Pace<H>,
    next: Stage,
) -> bool {
    let after = go(now, reply);
    stands_at(s, after, next, paced(p, now.command, reply, after.command))
}

proof fn lemma_begin<H: Host, U>(
    s: Model<H>,
    now: Next<H, U>,
    reply: Reply<H, U>,
    p: Pace<H>,
) -> (next: Stage)
    requires
        stands_at(s, now, Stage::Begin, p),
    ensures
        arrives(s, now, reply, p, next),
{
    reveal(wait_step);
    let after = go(now, reply);
    assert(rest_of(now.model).agenda =~= Seq::empty());
    assert(s.messages + p.said =~= s.messages);
    if now.model.agenda[0] == Job::<H>::Waiting(Waiting::Release) {
        assert(after.model.agenda =~= seq![Job::<H>::Waiting(Waiting::Check)]);
        Stage::Begin
    } else if is_busy(s) {
        assert(!s.windows.idle() || s.events.len() > 0 || s.messages.len() > 0);
        assert(after.model.agenda =~= seq![
            Job::<H>::Waiting(Waiting::Deliver { next: 0, stale: false }),
        ]);
        Stage::Deliver
    } else {
        assert(s.windows.idle());
        assert(after.model.agenda =~= Seq::empty());
        Stage::Rest
    }
}

/// A job that has to do with what a window was shown leaves the delivery as it is.
proof fn lemma_telling<H: Host, U>(s: Model<H>, now: Next<H, U>, reply: Reply<H, U>, p: Pace<H>)
    requires
        stands_at(s, now, Stage::Deliver, p),
        now.model.agenda.len() > 1,
    ensures
        arrives(s, now, reply, p, Stage::Deliver),
{
    let after = go(now, reply);
    let agenda = now.model.agenda;
    let rest = rest_of(now.model).agenda;
    assert(tells(agenda[0]));
    assert(leads_on(rest_of(now.model), after, |job: Job<H>| tells(job)) && after.model.messages
        == now.model.messages && (after.command matches Command::Effect(effect) ==> !(effect is Track)
        && !(effect is Control)) && !(after.command is Interact) && !(after.command is UpdateProgram))
        by {
        reveal(wait_step);
        reveal(single_step);
    }
    let n = after.model.agenda.len() - rest.len();
    assert forall|i: int| n <= i < after.model.agenda.len() implies #[trigger] after.model.agenda[i]
        == agenda[i - n + 1] by {
        assert(after.model.agenda[i] == rest[i - n]);
    }
    assert forall|i: int| 0 <= i < after.model.agenda.len() - 1 implies tells(
        #[trigger] after.model.agenda[i],
    ) by {
        if i >= n {
            assert(tells(agenda[i - n + 1]));
        }
    }
    if n == 0 {
        assert(after.model.agenda[0] == agenda[1]);
    } else {
        assert(tells(after.model.agenda[0]));
    }
}

proof fn lemma_deliver<H: Host, U>(
    s: Model<H>,
    now: Next<H, U>,
    reply: Reply<H, U>,
    p: Pace<H>,
) -> (next: Stage)
    requires
        stands_at(s, now, Stage::Deliver, p),
        now.model.agenda.len() == 1,
    ensures
        arrives(s, now, reply, p, next),
{
    match now.model.agenda[0]->Waiting_0 {
        Waiting::Deliver { next, stale } => {
            lemma_next_window(s, now, reply, p, next, stale);
            Stage::Deliver
        },
        Waiting::AwaitInteract { id, next, stale } => {
            lemma_shown(s, now, reply, p, id, next, stale);
            Stage::Deliver
        },
        _ => lemma_delivered(s, now, reply, p),
    }
}

proof fn lemma_next_window<H: Host, U>(
    s: Model<H>,
    now: Next<H, U>,
    reply: Reply<H, U>,
    p: Pace<H>,
    next: usize,
    stale: bool,
)
    requires
        stands_at(s, now, Stage::Deliver, p),
        now.model.agenda.len() == 1,
        now.model.agenda[0] == Job::<H>::Waiting(Waiting::Deliver { next, stale }),
    ensures
        arrives(s, now, reply, p, Stage::Deliver),
{
    let after = go(now, reply);
    let rest = rest_of(now.model);
    assert(rest.agenda =~= Seq::empty());
    assert(after == deliver_step(rest, now.interfaces, next, stale)) by {
        reveal(wait_step);
    }
}

proof fn lemma_shown<H: Host, U>(
    s: Model<H>,
    now: Next<H, U>,
    reply: Reply<H, U>,
    p: Pace<H>,
    id: u64,
    next: usize,
    stale: bool,
)
    requires
        stands_at(s, now, Stage::Deliver, p),
        now.model.agenda.len() == 1,
        now.model.agenda[0] == Job::<H>::Waiting(Waiting::AwaitInteract { id, next, stale }),
    ensures
        arrives(s, now, reply, p, Stage::Deliver),
{
    let after = go(now, reply);
    let rest = rest_of(now.model);
    let told = interacted(rest, id, next, stale, reply);
    assert(rest.agenda =~= Seq::empty());
    lemma_interaction(rest, id, next, stale, reply);
    assert(after.command == Command::<H, U>::Proceed && after.model == told) by {
        reveal(wait_step);
        assert(first_do(told, Seq::<Job<H>>::empty()).agenda =~= told.agenda);
    }
    let more = reply->Interacted_messages@;
    assert(told.messages == now.model.messages + more);
    assert(s.messages + (p.said + more) =~= s.messages + p.said + more);
    let n = told.agenda.len();
    assert forall|i: int| 0 <= i < n - 1 implies tells(#[trigger] told.agenda[i]) by {
        if i < n - 2 {
            assert(reacts(told.agenda[i]));
        }
    }
    assert(tells(told.agenda[0]));
}

proof fn lemma_delivered<H: Host, U>(
    s: Model<H>,
    now: Next<H, U>,
    reply: Reply<H, U>,
    p: Pace<H>,
) -> (next: Stage)
    requires
        stands_at(s, now, Stage::Deliver, p),
        now.model.agenda.len() == 1,
        now.model.agenda[0] matches Job::Waiting(waiting) && waiting is Finish,
    ensures
        arrives(s, now, reply, p, next),
{
    reveal(wait_step);
    let after = go(now, reply);
    assert(rest_of(now.model).agenda =~= Seq::empty());
    if now.model.messages.len() > 0 || p.outdated {
        assert(after.model.agenda =~= seq![Job::<H>::Refresh(Refresh::Caching { next: 0 })] + tail::<
            H,
        >());
        assert(after.model.agenda.drop_first() =~= tail::<H>());
        Stage::Caching
    } else {
        assert(after.model.agenda =~= seq![Job::<H>::Flow]);
        Stage::Flowing
    }
}

proof fn lemma_refresh<H: Host, U>(
    s: Model<H>,
    now: Next<H, U>,
    reply: Reply<H, U>,
    stage: Stage,
    p: Pace<H>,
) -> (next: Stage)
    requires
        stage is Caching || stage is Building,
        stands_at(s, now, stage, p),
    ensures
        arrives(s, now, reply, p, next),
{
    reveal(refresh_step);
    let after = go(now, reply);
    let m = after.model;
    assert(rest_of(now.model).agenda == tail::<H>());
    if stage is Caching {
        assert(m.agenda.drop_first() =~= tail::<H>());
        if m.agenda[0] == Job::<H>::Refresh(Refresh::Updating) {
            assert(p.applied + m.update.messages =~= s.messages + p.said);
            Stage::Updating
        } else {
            Stage::Caching
        }
    } else if m.agenda.len() == 4 {
        assert(m.agenda.drop_first() =~= tail::<H>());
        Stage::Building
    } else {
        assert(m.agenda =~= tail::<H>());
        assert(m.agenda.skip(1) =~= end::<H>());
        Stage::Running
    }
}

proof fn lemma_updating<H: Host, U>(
    s: Model<H>,
    now: Next<H, U>,
    reply: Reply<H, U>,
    p: Pace<H>,
) -> (next: Stage)
    requires
        stands_at(s, now, Stage::Updating, p),
    ensures
        arrives(s, now, reply, p, next),
{
    reveal(refresh_step);
    let after = go(now, reply);
    let m = after.model;
    let before = now.model.update;
    assert(rest_of(now.model).agenda == tail::<H>());
    assert(m.agenda.drop_first() =~= tail::<H>());
    let (update, told) = update_step(before, update_reply(reply));
    if before.phase == UpdatePhase::Done {
        assert(p.applied + before.messages =~= p.applied);
        Stage::Building
    } else {
        if after.command is UpdateProgram {
            assert(before.messages =~= seq![before.messages[0]] + before.messages.drop_first());
            assert(p.applied.push(before.messages[0]) + before.messages.drop_first() =~= p.applied
                + before.messages);
        }
        Stage::Updating
    }
}

/// A job that belongs to the run of actions leads to others that do.
proof fn lemma_runs<H: Host, U>(s: Model<H>, ui: Map<u64, U>, reply: Reply<H, U>)
    requires
        s.agenda.len() > 0,
        runs(s.agenda[0]),
    ensures
        ({
            let next = step(s, ui, reply);
            &&& leads_on(rest_of(s), next, |job: Job<H>| runs(job))
            &&& !(next.command is Interact)
            &&& !(next.command is UpdateProgram)
            &&& next.command matches Command::Effect(effect) ==> !sets_pace(effect)
        }),
{
    let rest = rest_of(s);
    let next = step(s, ui, reply);
    if s.agenda[0] is RunCollected {
        reveal(collected_step);
    } else {
        if s.agenda[0] is Acting && s.agenda[0]->Acting_0 is Run {
            reveal(act_step);
            lemma_action_starts(rest, ui, s.agenda[0]->Acting_0->Run_0);
        } else {
            lemma_action_goes_on(s, ui, reply);
        }
        let n = next.model.agenda.len() - rest.agenda.len();
        assert forall|i: int| 0 <= i < n implies runs(#[trigger] next.model.agenda[i]) by {
            assert(follows_action(next.model.agenda[i]));
        }
    }
}

proof fn lemma_running<H: Host, U>(
    s: Model<H>,
    now: Next<H, U>,
    reply: Reply<H, U>,
    p: Pace<H>,
) -> (next: Stage)
    requires
        stands_at(s, now, Stage::Running, p),
    ensures
        arrives(s, now, reply, p, next),
{
    let after = go(now, reply);
    let agenda = now.model.agenda;
    let m = after.model.agenda;
    let last = agenda.len();
    assert(runs(agenda[0]));
    lemma_runs(now.model, now.interfaces, reply);
    let rest = rest_of(now.model).agenda;
    let n = m.len() - rest.len();
    assert forall|i: int| n <= i < m.len() implies #[trigger] m[i] == agenda[i - n + 1] by {
        assert(m[i] == rest[i - n]);
    }
    assert(m.skip(m.len() - 2) =~= end::<H>()) by {
        assert(agenda.skip(last - 2)[0] == agenda[last - 2]);
        assert(agenda.skip(last - 2)[1] == agenda[last - 1]);
    }
    assert(m.skip(m.len() - 2)[0] == m[m.len() - 2]);
    assert(m.skip(m.len() - 2)[1] == m[m.len() - 1]);
    assert forall|i: int| 0 <= i < m.len() - 2 implies runs(#[trigger] m[i]) by {
        if i >= n {
            assert(runs(agenda[i - n + 1]));
        }
    }
    if m.len() > 2 {
        assert(runs(m[0]));
        Stage::Running
    } else {
        Stage::Sweeping { next: 0 }
    }
}

proof fn lemma_sweeping<H: Host, U>(
    s: Model<H>,
    now: Next<H, U>,
    reply: Reply<H, U>,
    stage: Stage,
    p: Pace<H>,
) -> (next: Stage)
    requires
        stage is Sweeping,
        now.model.windows.entries.len() <= usize::MAX,
        stands_at(s, now, stage, p),
    ensures
        arrives(s, now, reply, p, next),
{
    reveal(sweep_step);
    let after = go(now, reply);
    assert(rest_of(now.model).agenda =~= seq![Job::<H>::Flow]);
    let place = stage->next;
    if place < now.model.windows.entries.len() {
        assert(after.model.agenda[1] == Job::<H>::Flow);
        Stage::Sweeping { next: place + 1 }
    } else {
        assert(after.model.agenda =~= seq![Job::<H>::Flow]);
        Stage::Flowing
    }
}

proof fn lemma_flowing<H: Host, U>(s: Model<H>, now: Next<H, U>, reply: Reply<H, U>, p: Pace<H>)
    requires
        stands_at(s, now, Stage::Flowing, p),
    ensures
        arrives(s, now, reply, p, Stage::Over),
{
    let after = go(now, reply);
    lemma_flow(now, reply, Seq::empty());
    assert(now.model.agenda =~= seq![Job::<H>::Flow] + Seq::<Job<H>>::empty());
}

/// The event loop is told how long it can wait.
proof fn lemma_flow<H: Host, U>(now: Next<H, U>, reply: Reply<H, U>, rest: Seq<Job<H>>)
    requires
        now.model.agenda =~= seq![Job::<H>::Flow] + rest,
    ensures
        ({
            let after = go(now, reply);
            &&& after.model == (Model { agenda: rest, ..now.model })
            &&& after.interfaces == now.interfaces
            &&& after.command matches Command::Effect(Effect::Control(Control::ChangeFlow(flow)))
                && waits_long_enough(now.model.windows, flow)
        }),
{
    reveal(single_step);
    let windows = now.model.windows;
    assert(rest_of(now.model).agenda =~= rest);
    assert(go(now, reply).model.agenda =~= rest);
    match windows.redraw_at() {
        Some(time) => earliest_time_is_that_of_a_window(windows, time),
        None => earliest_time_is_that_of_a_window(windows, 0),
    }
}

/// The stage that an application is at.
proof fn lemma_stage<H: Host, U>(s: Model<H>, ui: Map<u64, U>, replies: Seq<Reply<H, U>>) -> (stage: Stage)
    requires
        inv(s, ui),
        s.agenda.len() == 0,
        answered(begun(s, ui, Event::AboutToWait), replies),
    ensures
        stands_at(
            s,
            run(begun(s, ui, Event::AboutToWait), replies),
            stage,
            pace_of(begun(s, ui, Event::AboutToWait), replies),
        ),
    decreases replies.len(),
{
    let start = begun(s, ui, Event::AboutToWait);
    let p = pace_of(start, replies.drop_last());
    if replies.len() == 0 {
        assert(start.model.agenda =~= seq![Job::<H>::Waiting(Waiting::Release)]);
        Stage::Begin
    } else {
        let front = replies.drop_last();
        let reply = replies.last();
        let now = run(start, front);
        let stage = lemma_stage(s, ui, front);
        events_go_well(s, ui, Event::AboutToWait, front);
        assert(accepts(now.model, reply));
        assert(run(start, replies) == go(now, reply));
        match stage {
            Stage::Begin => lemma_begin(s, now, reply, p),
            Stage::Deliver => if now.model.agenda.len() > 1 {
                lemma_telling(s, now, reply, p);
                Stage::Deliver
            } else {
                lemma_deliver(s, now, reply, p)
            },
            Stage::Caching | Stage::Building => lemma_refresh(s, now, reply, stage, p),
            Stage::Updating => lemma_updating(s, now, reply, p),
            Stage::Running => lemma_running(s, now, reply, p),
            Stage::Sweeping { .. } => lemma_sweeping(s, now, reply, stage, p),
            Stage::Flowing => {
                lemma_flowing(s, now, reply, p);
                Stage::Over
            },
            Stage::Rest | Stage::Over => stage,
        }
    }
}

/// When there are no more events for now, an application keeps up with what there is to do before it
/// waits. If there is an event or a message, or a window that is to be drawn at a set time, it always
/// ends by telling the event loop how long to wait, just once: until the earliest time at which a
/// window is to be drawn then, or for as long as nothing happens if there is no such time. If there is
/// nothing at all it tells it nothing. If there were messages, before or from user interfaces that were
/// shown their events, or if one of these was outdated, the program is updated with all of these
/// messages, in order, and every window that is open then is asked to be drawn again; otherwise the
/// program is left alone.
pub proof fn applications_keep_up_before_they_wait<H: Host, U>(
    s: Model<H>,
    ui: Map<u64, U>,
    replies: Seq<Reply<H, U>>,
)
    requires
        inv(s, ui),
        s.agenda.len() == 0,
        answered(begun(s, ui, Event::AboutToWait), replies),
        run(begun(s, ui, Event::AboutToWait), replies).model.agenda.len() == 0,
    ensures
        ({
            let start = begun(s, ui, Event::AboutToWait);
            let windows = run(start, replies).model.windows;
            let pace = pace_of(start, replies);
            let messages = s.messages + pace.said;
            &&& is_busy(s) ==> {
                &&& pace.flows.len() == 1
                &&& waits_long_enough(windows, pace.flows[0])
                &&& has_kept_up(windows, messages, messages.len() > 0 || pace.outdated, pace)
            }
            &&& !is_busy(s) ==> {
                &&& pace.flows.len() == 0
                &&& pace.rounds == 0
                &&& pace.applied.len() == 0
            }
        }),
{
    let stage = lemma_stage(s, ui, replies);
    let p = pace_of(begun(s, ui, Event::AboutToWait), replies);
    if stage is Rest {
        assert(s.messages + p.said =~= s.messages);
    }
}

/// The event loop is told how long to wait at the very end: nothing is left to do then.
pub proof fn the_wait_comes_last<H: Host, U>(
    s: Model<H>,
    ui: Map<u64, U>,
    replies: Seq<Reply<H, U>>,
)
    requires
        inv(s, ui),
        s.agenda.len() == 0,
        answered(begun(s, ui, Event::AboutToWait), replies),
        pace_of(begun(s, ui, Event::AboutToWait), replies).flows.len() > 0,
    ensures
        run(begun(s, ui, Event::AboutToWait), replies).model.agenda.len() == 0,
{
    let stage = lemma_stage(s, ui, replies);
}

/// Whether a time that is set has come.
pub open spec fn has_come(time: Option<u64>, now: u64) -> bool {
    time matches Some(time) && time <= now
}

/// When the event loop woke up because a time had come, each window whose time has come is asked to be
/// drawn again, and has no time set any more; the others keep theirs. Then the event loop is told to
/// wait for the earliest of these, if there is one.
pub proof fn windows_are_drawn_at_their_times<H: Host, U>(s: Model<H>, ui: Map<u64, U>, now: u64)
    requires
        s.windows.sorted(),
        s.windows.entries.len() <= usize::MAX,
        s.agenda.len() == 0,
    ensures
        ({
            let n = s.windows.entries.len();
            let told = received(s, Event::NewEvents { cause: StartCause::ResumeTimeReached, now });
            let commands = commands_of(told, ui, n + 1);
            let swept = state_after(told, ui, n + 1);
            let last = step(swept, ui, Reply::Done);
            let windows = swept.windows;
            &&& commands.len() == n + 1
            &&& commands[n as int] == Command::<H, U>::Proceed
            &&& windows.entries.len() == n
            &&& forall|i: int|
                0 <= i < n ==> ({
                    let window = #[trigger] s.windows.entries[i];
                    &&& commands[i] == if has_come(window.redraw_at, now) {
                        Command::<H, U>::Effect(
                            Effect::Window { id: window.id, op: WindowOp::RequestRedraw },
                        )
                    } else {
                        Command::<H, U>::Proceed
                    }
                    &&& windows.entries[i] == if has_come(window.redraw_at, now) {
                        Window { redraw_at: None, ..window }
                    } else {
                        window
                    }
                })
            &&& last.command matches Command::Effect(Effect::Control(Control::ChangeFlow(flow)))
                && waits_long_enough(windows, flow)
            &&& last.model == (Model { windows, ..s })
            &&& last.interfaces == ui
        }),
{
    let told = received(s, Event::NewEvents { cause: StartCause::ResumeTimeReached, now });
    let n = s.windows.entries.len();
    assert(told.agenda =~= seq![Job::<H>::Sweep(Sweep::Expire { next: 0, now }), Job::<H>::Flow]);
    times_that_have_come_are_forgotten(told, ui, 0, now);
    lemma_expiring(told, ui, 0, now);
    let swept = state_after(told, ui, n + 1);
    let flow = Next { model: swept, interfaces: ui, command: Command::<H, U>::Proceed };
    assert(swept.agenda =~= seq![Job::<H>::Flow] + Seq::<Job<H>>::empty());
    lemma_flow(flow, Reply::Done, Seq::empty());
    assert(s.agenda =~= Seq::empty());
}

/// The windows from a place on are asked to be drawn again if their time has come.
proof fn lemma_expiring<H: Host, U>(s: Model<H>, ui: Map<u64, U>, place: usize, now: u64)
    requires
        s.windows.sorted(),
        s.agenda.len() > 0,
        s.agenda[0] == Job::<H>::Sweep(Sweep::Expire { next: place, now }),
        place <= s.windows.entries.len() <= usize::MAX,
    ensures
        ({
            let n = (s.windows.entries.len() - place) as nat;
            let commands = commands_of(s, ui, n + 1);
            &&& commands.len() == n + 1
            &&& commands[n as int] == Command::<H, U>::Proceed
            &&& forall|i: int|
                place <= i < s.windows.entries.len() ==> commands[i - place] == if has_come(
                    (#[trigger] s.windows.entries[i]).redraw_at,
                    now,
                ) {
                    Command::<H, U>::Effect(
                        Effect::Window { id: s.windows.entries[i].id, op: WindowOp::RequestRedraw },
                    )
                } else {
                    Command::<H, U>::Proceed
                }
        }),
    decreases s.windows.entries.len() - place,
{
    reveal(sweep_step);
    let n = (s.windows.entries.len() - place) as nat;
    let next = step(s, ui, Reply::Done);
    assert(next.interfaces == ui);
    assert(commands_of(s, ui, n + 1) == seq![next.command] + commands_of(next.model, ui, n));
    if place < s.windows.entries.len() {
        let window = s.windows.entries[place as int];
        lemma_place(s.windows, place as int);
        lemma_requested(s.windows, window.id, RedrawRequest::NextFrame);
        assert forall|i: int| 0 <= i < s.windows.entries.len() && i != place implies
            #[trigger] next.model.windows.entries[i] == s.windows.entries[i] by {}
        lemma_expiring(next.model, ui, (place + 1) as usize, now);
        assert forall|i: int| place <= i < s.windows.entries.len() implies commands_of(
            s,
            ui,
            n + 1,
        )[i - place] == if has_come((#[trigger] s.windows.entries[i]).redraw_at, now) {
            Command::<H, U>::Effect(
                Effect::Window { id: s.windows.entries[i].id, op: WindowOp::RequestRedraw },
            )
        } else {
            Command::<H, U>::Proceed
        } by {
            if i > place {
                assert(next.model.windows.entries[i] == s.windows.entries[i]);
                assert(commands_of(s, ui, n + 1)[i - place] == commands_of(next.model, ui, n)[i - place
                    - 1]);
            }
        }
    } else {
        assert(commands_of(next.model, ui, 0) =~= Seq::empty());
    }
}

} // verus!
