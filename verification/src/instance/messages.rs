//! How messages get from the user interfaces and the actions to the program.

use super::course::{adds_messages, lemma_acting_goes_on, lemma_action_starts, put_out};
use super::laws::lemma_acting_keeps;
use super::life::{can_turn, is_life, life, turned, Turn};
use super::model::{
    act_step, collected_step, frame_step, open_step, received, refresh_step, rest_of, single_step, step,
    sweep_step, update_reply, wait_step, Next,
};
use super::{
    Acting, Command, Config, Event, Frame, Job, Model, Opening, Refresh, Reply, Waiting,
};
use crate::host::Host;
use crate::update::{update_step, UpdatePhase};
use vstd::prelude::*;

verus! {

/// The messages that come in with a step: those that a user interface has when it was shown events or
/// told of a frame, and the one that an action puts out.
pub open spec fn reported_in<H: Host, U>(s: Model<H>, reply: Reply<H, U>) -> Seq<H::Message> {
    if s.agenda.len() == 0 {
        Seq::empty()
    } else {
        match s.agenda[0] {
            Job::Waiting(Waiting::AwaitInteract { .. }) => reply->Interacted_messages@,
            Job::Frame(Frame::AwaitRedraw { .. }) => reply->Redrawn_messages@,
            Job::Acting(Acting::Run(action)) => put_out(action),
            _ => Seq::empty(),
        }
    }
}

/// The message that a command applies to the program, if it does.
pub open spec fn applied_with<H: Host, U>(command: Command<H, U>) -> Seq<H::Message> {
    match command {
        Command::UpdateProgram(message) => seq![message],
        _ => Seq::empty(),
    }
}

/// The messages that come in with something that happens to an application.
pub open spec fn reported_at<H: Host, U>(now: Next<H, U>, turn: Turn<H, U>) -> Seq<H::Message> {
    match turn {
        Turn::Reply(reply) => reported_in(now.model, reply),
        _ => Seq::empty(),
    }
}

/// The message that is applied to the program with something that happens to an application, if any.
pub open spec fn applied_at<H: Host, U>(now: Next<H, U>, turn: Turn<H, U>) -> Seq<H::Message> {
    match turn {
        Turn::Reply(_) => applied_with(turned(now, turn).command),
        _ => Seq::empty(),
    }
}

/// The messages that have come in over the life of an application.
pub open spec fn reported<H: Host, U>(config: Config, turns: Seq<Turn<H, U>>) -> Seq<H::Message>
    decreases turns.len(),
{
    if turns.len() == 0 {
        Seq::empty()
    } else {
        let front = turns.drop_last();
        reported(config, front) + reported_at(life(config, front), turns.last())
    }
}

/// The messages that have been applied to the program over the life of an application.
pub open spec fn applied<H: Host, U>(config: Config, turns: Seq<Turn<H, U>>) -> Seq<H::Message>
    decreases turns.len(),
{
    if turns.len() == 0 {
        Seq::empty()
    } else {
        let front = turns.drop_last();
        applied(config, front) + applied_at(life(config, front), turns.last())
    }
}

/// The messages that are still to be applied: those of the update in progress, and those that wait.
pub open spec fn unapplied<H: Host>(s: Model<H>) -> Seq<H::Message> {
    s.update.messages + s.messages
}

/// Whether the program is being updated only while that is the next thing to do, and an update that is
/// done has no message left.
pub open spec fn updates_in_turn<H: Host>(s: Model<H>) -> bool {
    if s.update.phase == UpdatePhase::Done {
        s.update.messages.len() == 0
    } else {
        s.agenda.len() > 0 && s.agenda[0] == Job::<H>::Refresh(Refresh::Updating)
    }
}

/// Whether a step keeps account of messages.
spec fn accounts<H: Host, U>(s: Model<H>, next: Next<H, U>, reported: Seq<H::Message>) -> bool {
    &&& updates_in_turn(next.model)
    &&& applied_with(next.command) + unapplied(next.model) == unapplied(s) + reported
}

/// A step that only adds messages keeps account of them.
proof fn lemma_added<H: Host, U>(s: Model<H>, next: Next<H, U>, messages: Seq<H::Message>)
    requires
        adds_messages(s, next.model, messages),
        s.update.phase == UpdatePhase::Done,
        s.update.messages.len() == 0,
        applied_with(next.command).len() == 0,
    ensures
        accounts(s, next, messages),
{
    assert(applied_with(next.command) + unapplied(next.model) =~= unapplied(s) + messages);
}

proof fn lemma_opening_adds<H: Host, U>(
    s: Model<H>,
    ui: Map<u64, U>,
    opening: Opening<H>,
    reply: Reply<H, U>,
)
    ensures
        adds_messages(s, open_step(s, ui, opening, reply).model, Seq::empty()),
        applied_with(open_step(s, ui, opening, reply).command).len() == 0,
{
    reveal(open_step);
    assert(s.messages + Seq::<H::Message>::empty() =~= s.messages);
}

proof fn lemma_acting_adds<H: Host, U>(s: Model<H>, ui: Map<u64, U>, reply: Reply<H, U>)
    requires
        s.agenda.len() > 0,
        s.agenda[0] is Acting,
    ensures
        adds_messages(rest_of(s), step(s, ui, reply).model, reported_in(s, reply)),
        applied_with(step(s, ui, reply).command).len() == 0,
{
    let acting = s.agenda[0]->Acting_0;
    lemma_acting_keeps(rest_of(s), ui, acting, reply);
    match acting {
        Acting::Run(action) => {
            reveal(act_step);
            lemma_action_starts(rest_of(s), ui, action);
        },
        Acting::Count => {
            reveal(act_step);
        },
        _ => lemma_acting_goes_on(rest_of(s), ui, acting, reply),
    }
}

proof fn lemma_frame_adds<H: Host, U>(s: Model<H>, ui: Map<u64, U>, reply: Reply<H, U>)
    requires
        s.agenda.len() > 0,
        s.agenda[0] is Frame,
    ensures
        adds_messages(rest_of(s), step(s, ui, reply).model, reported_in(s, reply)),
        applied_with(step(s, ui, reply).command).len() == 0,
{
    reveal(frame_step);
    assert(s.messages + Seq::<H::Message>::empty() =~= s.messages);
}

proof fn lemma_waiting_adds<H: Host, U>(s: Model<H>, ui: Map<u64, U>, reply: Reply<H, U>)
    requires
        s.agenda.len() > 0,
        s.agenda[0] is Waiting,
    ensures
        adds_messages(rest_of(s), step(s, ui, reply).model, reported_in(s, reply)),
        applied_with(step(s, ui, reply).command).len() == 0,
{
    reveal(wait_step);
    assert(s.messages + Seq::<H::Message>::empty() =~= s.messages);
}

/// A step in the update of the program and of all user interfaces keeps account of messages.
proof fn lemma_refresh_accounts<H: Host, U>(s: Model<H>, ui: Map<u64, U>, reply: Reply<H, U>)
    requires
        s.agenda.len() > 0,
        s.agenda[0] is Refresh,
        updates_in_turn(s),
    ensures
        accounts(s, step(s, ui, reply), Seq::empty()),
{
    reveal(refresh_step);
    let next = step(s, ui, reply);
    let refresh = s.agenda[0]->Refresh_0;
    if refresh is Updating {
        let (update, told) = update_step(s.update, update_reply(reply));
        assert(next.model.agenda[0] is Refresh);
    }
    assert(applied_with(next.command) + unapplied(next.model) =~= unapplied(s) + Seq::<
        H::Message,
    >::empty());
}

/// Every step keeps account of messages.
proof fn lemma_step_accounts<H: Host, U>(s: Model<H>, ui: Map<u64, U>, reply: Reply<H, U>)
    requires
        s.agenda.len() > 0,
        updates_in_turn(s),
    ensures
        accounts(s, step(s, ui, reply), reported_in(s, reply)),
{
    let rest = rest_of(s);
    let next = step(s, ui, reply);
    assert(s.messages + Seq::<H::Message>::empty() =~= s.messages);
    if s.agenda[0] is Refresh {
        lemma_refresh_accounts(s, ui, reply);
    } else {
        match s.agenda[0] {
            Job::Opening(opening) => lemma_opening_adds(rest, ui, opening, reply),
            Job::Acting(_) => lemma_acting_adds(s, ui, reply),
            Job::Frame(_) => lemma_frame_adds(s, ui, reply),
            Job::Waiting(_) => lemma_waiting_adds(s, ui, reply),
            Job::Sweep(_) => {
                reveal(sweep_step);
            },
            Job::RunCollected { .. } => {
                reveal(collected_step);
            },
            _ => {
                reveal(single_step);
            },
        }
        lemma_added(s, next, reported_in(s, reply));
    }
}

/// An event brings no message.
proof fn lemma_event_accounts<H: Host>(s: Model<H>, event: Event<H>)
    ensures
        received(s, event).messages == s.messages,
        received(s, event).update == s.update,
{
}

/// Whatever happens to an application, account is kept of messages.
proof fn lemma_turn_accounts<H: Host, U>(now: Next<H, U>, turn: Turn<H, U>)
    requires
        can_turn(now, turn),
        updates_in_turn(now.model),
    ensures
        updates_in_turn(turned(now, turn).model),
        applied_at(now, turn) + unapplied(turned(now, turn).model) == unapplied(now.model)
            + reported_at(now, turn),
{
    let next = turned(now, turn);
    match turn {
        Turn::Reply(reply) => {
            if now.model.agenda.len() > 0 {
                lemma_step_accounts(now.model, now.interfaces, reply);
            }
        },
        Turn::Event(event) => {
            lemma_event_accounts(now.model, event);
        },
        Turn::Window { .. } => {},
    }
    if applied_at(now, turn).len() == 0 && reported_at(now, turn).len() == 0 {
        assert(applied_at(now, turn) + unapplied(next.model) =~= unapplied(next.model));
        assert(unapplied(now.model) + reported_at(now, turn) =~= unapplied(now.model));
    }
}

/// What has been done and what is to be done go on adding up.
proof fn lemma_account_goes_on<A>(done: Seq<A>, left: Seq<A>, doing: Seq<A>, rest: Seq<A>, more: Seq<A>)
    requires
        doing + rest == left + more,
    ensures
        (done + doing) + rest == (done + left) + more,
{
    assert((done + doing) + rest =~= done + (doing + rest));
    assert((done + left) + more =~= done + (left + more));
}

/// Over the whole life of an application, each message that comes in is applied to the program once, in
/// the order in which it came in: those that have been applied, those of the update in progress and
/// those that wait are all of them.
pub proof fn messages_are_applied_once<H: Host, U>(config: Config, turns: Seq<Turn<H, U>>)
    requires
        is_life(config, turns),
    ensures
        ({
            let s = life(config, turns).model;
            &&& updates_in_turn(s)
            &&& applied(config, turns) + unapplied(s) == reported(config, turns)
            &&& s.agenda.len() == 0 ==> applied(config, turns) + s.messages == reported(
                config,
                turns,
            )
        }),
    decreases turns.len(),
{
    let s = life(config, turns).model;
    if turns.len() == 0 {
        assert(applied(config, turns) + unapplied(s) =~= reported(config, turns));
    } else {
        let front = turns.drop_last();
        let now = life(config, front);
        messages_are_applied_once(config, front);
        lemma_turn_accounts(now, turns.last());
        lemma_account_goes_on(
            applied(config, front),
            unapplied(now.model),
            applied_at(now, turns.last()),
            unapplied(s),
            reported_at(now, turns.last()),
        );
    }
    if s.agenda.len() == 0 {
        assert(unapplied(s) =~= s.messages);
    }
}

} // verus!
