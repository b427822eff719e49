//! What is counted over time: the room that is made for actions.

use super::course::{aside, leads_on, lemma_interaction, lemma_stays_aside, reacts, stays_aside};
use super::life::{applications_never_get_stuck, can_turn, is_life, life, Turn};
use super::model::{
    act_step, first_do, frame_step, interacted, open_step, received, rest_of, single_step, step,
    wait_step, Next,
};
use super::order::{composes, inv};
use super::protocol::accepts;
use super::{
    Acting, Command, Config, Effect, Event, Frame, Job, Model, Opening, Reply, Waiting,
};
use crate::host::Host;
use vstd::prelude::*;

verus! {

/// Whether a job has to do with the room for actions.
pub open spec fn counts<H: Host>(job: Job<H>) -> bool {
    match job {
        Job::Acting(acting) => acting is Count,
        Job::Waiting(waiting) => waiting is Release,
        Job::Emit(effect) => effect is FreeSlots,
        _ => false,
    }
}

/// Whether a command makes room for actions.
pub open spec fn makes_room<H: Host, U>(command: Command<H, U>) -> bool {
    match command {
        Command::Effect(effect) => effect is FreeSlots,
        _ => false,
    }
}

/// The room that a command makes.
pub open spec fn room_of<H: Host, U>(command: Command<H, U>) -> int {
    match command {
        Command::Effect(Effect::FreeSlots(slots)) => slots as int,
        _ => 0,
    }
}

/// Whether a step has nothing to do with the room for actions. The state is that without the job that
/// was done.
pub open spec fn counts_nothing<H: Host, U>(s: Model<H>, next: Next<H, U>) -> bool {
    &&& leads_on(s, next, |job: Job<H>| !counts(job))
    &&& next.model.actions == s.actions
    &&& !makes_room(next.command)
}

/// Whether a reply tells that there is no compositor.
pub open spec fn fails<H: Host, U>(reply: Reply<H, U>) -> bool {
    match reply {
        Reply::Compositor(made) => made is Err,
        _ => false,
    }
}

proof fn lemma_opening_counts<H: Host, U>(
    s: Model<H>,
    ui: Map<u64, U>,
    opening: Opening<H>,
    reply: Reply<H, U>,
)
    requires
        !(opening is AwaitCompositor && fails(reply)),
    ensures
        counts_nothing(s, open_step(s, ui, opening, reply)),
{
    reveal(open_step);
}

proof fn lemma_aside_counts_nothing<H: Host, U>(s: Model<H>, next: Next<H, U>)
    requires
        stays_aside(s, next),
    ensures
        counts_nothing(s, next),
{
    let n = next.model.agenda.len() - s.agenda.len();
    assert forall|i: int| 0 <= i < n implies !counts(#[trigger] next.model.agenda[i]) by {
        assert(aside(next.model.agenda[i]));
    }
}

proof fn lemma_frame_counts<H: Host, U>(
    s: Model<H>,
    ui: Map<u64, U>,
    frame: Frame,
    reply: Reply<H, U>,
)
    ensures
        counts_nothing(s, frame_step(s, ui, frame, reply)),
{
    reveal(frame_step);
}

proof fn lemma_waiting_counts<H: Host, U>(
    s: Model<H>,
    ui: Map<u64, U>,
    waiting: Waiting,
    reply: Reply<H, U>,
)
    requires
        !(waiting is Release),
        !(waiting is Finish),
    ensures
        counts_nothing(s, wait_step(s, ui, waiting, reply)),
{
    reveal(wait_step);
    if let Waiting::AwaitInteract { id, next, stale } = waiting {
        let after = interacted(s, id, next, stale, reply);
        lemma_interaction(s, id, next, stale, reply);
        assert(first_do(after, Seq::<Job<H>>::empty()).agenda =~= after.agenda);
        let n = after.agenda.len() - s.agenda.len();
        assert forall|i: int| 0 <= i < n implies !counts(#[trigger] after.agenda[i]) by {
            if i < n - 2 {
                assert(reacts(after.agenda[i]));
            }
        }
    } else {
        lemma_other_waiting_counts(s, ui, waiting, reply);
    }
}

proof fn lemma_other_waiting_counts<H: Host, U>(
    s: Model<H>,
    ui: Map<u64, U>,
    waiting: Waiting,
    reply: Reply<H, U>,
)
    requires
        !(waiting is Release),
        !(waiting is Finish),
        !(waiting is AwaitInteract),
    ensures
        counts_nothing(s, wait_step(s, ui, waiting, reply)),
{
    reveal(wait_step);
}

/// Only a few steps have to do with the room for actions.
proof fn lemma_counts_nothing<H: Host, U>(s: Model<H>, ui: Map<u64, U>, reply: Reply<H, U>)
    requires
        s.agenda.len() > 0,
        !counts(s.agenda[0]),
        !(s.agenda[0] == Job::<H>::Opening(Opening::AwaitCompositor) && fails(reply)),
    ensures
        counts_nothing(rest_of(s), step(s, ui, reply)),
{
    let rest = rest_of(s);
    if aside(s.agenda[0]) {
        lemma_stays_aside(s, ui, reply);
        lemma_aside_counts_nothing(rest, step(s, ui, reply));
    } else {
        match s.agenda[0] {
            Job::Opening(opening) => lemma_opening_counts(rest, ui, opening, reply),
            Job::Frame(frame) => lemma_frame_counts(rest, ui, frame, reply),
            Job::Waiting(waiting) => lemma_waiting_counts(rest, ui, waiting, reply),
            _ => {
                reveal(single_step);
            },
        }
    }
}

/// The number of actions that an application was asked to run.
pub open spec fn actions_asked<H: Host, U>(turns: Seq<Turn<H, U>>) -> int
    decreases turns.len(),
{
    if turns.len() == 0 {
        0
    } else {
        actions_asked(turns.drop_last()) + match turns.last() {
            Turn::Event(Event::UserEvent(_)) => 1int,
            _ => 0,
        }
    }
}

/// The room that an application has made for actions.
pub open spec fn room_made<H: Host, U>(config: Config, turns: Seq<Turn<H, U>>) -> int
    decreases turns.len(),
{
    if turns.len() == 0 {
        0
    } else {
        room_made(config, turns.drop_last()) + if turns.last() is Reply {
            room_of(life(config, turns).command)
        } else {
            0
        }
    }
}

/// One if an action is being run that has not been counted yet.
pub open spec fn uncounted<H: Host>(agenda: Seq<Job<H>>) -> int {
    if agenda.len() > 0 && agenda.last() == Job::<H>::Acting(Acting::Count) {
        1
    } else {
        0
    }
}

/// Whether the room that was made, the actions that were run since and the one that is being run add up
/// to the actions that were asked for.
pub open spec fn adds_up<H: Host>(s: Model<H>, room: int, asked: int) -> bool {
    &&& forall|i: int| 0 <= i < s.agenda.len() - 1 ==> !counts(#[trigger] s.agenda[i])
    &&& s.agenda.len() > 0 ==> !(s.agenda.last() is Emit && counts(s.agenda.last()))
    &&& s.actions >= 0
    &&& room >= 0
    &&& room + s.actions + uncounted(s.agenda) == asked
}

proof fn lemma_adds_up<H: Host, U>(
    now: Next<H, U>,
    reply: Reply<H, U>,
    room: int,
    asked: int,
)
    requires
        inv(now.model, now.interfaces),
        can_turn(now, Turn::Reply(reply)),
        accepts(now.model, reply),
        adds_up(now.model, room, asked),
    ensures
        ({
            let next = step(now.model, now.interfaces, reply);
            &&& adds_up(next.model, room + room_of(next.command), asked)
            &&& makes_room(next.command) ==> room + room_of(next.command) == asked
        }),
{
    let s = now.model;
    let ui = now.interfaces;
    let next = step(s, ui, reply);
    if s.agenda.len() > 0 {
        let job = s.agenda[0];
        let rest = rest_of(s);
        if job == Job::<H>::Opening(Opening::AwaitCompositor) && fails(reply) {
            reveal(open_step);
            assert(composes(s.agenda[0]));
            assert(s.agenda.last() == s.agenda[1]);
        } else if counts(job) {
            assert(s.agenda.len() == 1);
            assert(s.agenda.last() == job);
            assert(rest.agenda =~= Seq::empty());
            reveal(act_step);
            reveal(wait_step);
            assert(first_do(rest, Seq::<Job<H>>::empty()).agenda =~= Seq::empty());
            if job is Waiting {
                assert(next.model.agenda =~= seq![Job::<H>::Waiting(Waiting::Check)]);
            }
        } else {
            lemma_counts_nothing(s, ui, reply);
            let n = next.model.agenda.len() - rest.agenda.len();
            if rest.agenda.len() > 0 {
                assert(next.model.agenda.last() == rest.agenda.last());
                assert(rest.agenda.last() == s.agenda.last());
            } else if next.model.agenda.len() > 0 {
                assert(!counts(next.model.agenda[n - 1]));
            }
            assert forall|i: int| 0 <= i < next.model.agenda.len() - 1 implies !counts(
                #[trigger] next.model.agenda[i],
            ) by {
                if i >= n {
                    assert(next.model.agenda[i] == rest.agenda[i - n]);
                    assert(rest.agenda[i - n] == s.agenda[i - n + 1]);
                }
            }
        }
    }
}

/// Over the whole life of an application, no more room is made for actions than actions were asked for.
/// Whenever room is made, it has been made for every one of them.
pub proof fn room_is_made_for_every_action<H: Host, U>(config: Config, turns: Seq<Turn<H, U>>)
    requires
        is_life(config, turns),
    ensures
        ({
            let now = life(config, turns);
            let room = room_made(config, turns);
            let asked = actions_asked(turns);
            &&& adds_up(now.model, room, asked)
            &&& room <= asked
            &&& now.model.agenda.len() == 0 ==> room + now.model.actions == asked
            &&& turns.len() > 0 && turns.last() is Reply && makes_room(now.command) ==> room == asked
        }),
    decreases turns.len(),
{
    if turns.len() > 0 {
        let front = turns.drop_last();
        let now = life(config, front);
        room_is_made_for_every_action(config, front);
        applications_never_get_stuck(config, front);
        match turns.last() {
            Turn::Event(event) => {
                let after = received(now.model, event);
                let told = after.agenda;
                assert(now.model.agenda =~= Seq::empty());
                assert(first_do(now.model, Seq::<Job<H>>::empty()).agenda =~= Seq::empty());
                if event is UserEvent {
                    assert(told =~= seq![
                        Job::Acting(Acting::Run(event->UserEvent_0)),
                        Job::Acting(Acting::Count),
                    ]);
                } else if event is AboutToWait {
                    assert(told =~= seq![Job::<H>::Waiting(Waiting::Release)]);
                } else {
                    assert forall|i: int| 0 <= i < told.len() implies !counts(#[trigger] told[i]) by {}
                    if told.len() > 0 {
                        assert(!counts(told[told.len() - 1]));
                    }
                }
            },
            Turn::Reply(reply) => {
                assert(accepts(now.model, reply));
                lemma_adds_up(now, reply, room_made(config, front), actions_asked(front));
            },
            Turn::Window { .. } => {},
        }
    }
}

} // verus!
