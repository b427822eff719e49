//! Whose user interface is whose, over the life of an application.

use super::life::{applications_never_get_stuck, is_life, life, turned, Turn};
use super::model::{
    act_step, action_step, closed, collected_step, frame_step, open_step, received, refresh_step,
    request_step, rest_of, single_step, step, sweep_step, wait_step, window_action_step, Next,
};
use super::order::{inv, passing};
use super::protocol::{accepts, takes};
use super::upkeep::lemma_ready;
use super::{
    Acting, Command, Config, Event, Frame, Job, Model, Opening, Refresh, Reply,
};
use crate::action::{Action, WindowAction, WindowRequest};
use crate::host::Host;
use crate::rebuild::BuildPhase;
use crate::window_man::lemma_ids_parted;
use vstd::prelude::*;

verus! {

/// What an application waits for: the user interface or the cache of a window, or neither.
pub ghost enum Awaited {
    Nothing,
    Interface(u64),
    Cache(u64),
}

/// What a command is to be answered with: whose user interface or whose cache.
pub open spec fn awaited<H: Host, U>(command: Command<H, U>) -> Awaited {
    match command {
        Command::FirstInterface { id } => Awaited::Interface(id),
        Command::Relayout { id, .. } => Awaited::Interface(id),
        Command::Build { id, .. } => Awaited::Interface(id),
        Command::IntoCache { id, .. } => Awaited::Cache(id),
        _ => Awaited::Nothing,
    }
}

/// The user interface that a reply brings.
pub open spec fn brought<H: Host, U>(reply: Reply<H, U>) -> U {
    match reply {
        Reply::FirstInterface { interface, .. } => interface,
        _ => reply->Interface_0,
    }
}

/// The user interface and the cache that came for each window last.
#[verifier::ext_equal]
pub ghost struct Holdings<H: Host, U> {
    pub interfaces: Map<u64, U>,
    pub caches: Map<u64, H::Cache>,
}

/// What came last, with one more reply to a command.
pub open spec fn received_for<H: Host, U>(
    held: Holdings<H, U>,
    command: Command<H, U>,
    reply: Reply<H, U>,
) -> Holdings<H, U> {
    match awaited(command) {
        Awaited::Interface(id) => Holdings {
            interfaces: held.interfaces.insert(id, brought(reply)),
            ..held
        },
        Awaited::Cache(id) => Holdings { caches: held.caches.insert(id, reply->Cache_0), ..held },
        Awaited::Nothing => held,
    }
}

/// What came last for each window in the life of an application.
pub open spec fn holdings<H: Host, U>(config: Config, turns: Seq<Turn<H, U>>) -> Holdings<H, U>
    decreases turns.len(),
{
    if turns.len() == 0 {
        Holdings { interfaces: Map::empty(), caches: Map::empty() }
    } else {
        let front = turns.drop_last();
        match turns.last() {
            Turn::Reply(reply) => received_for(
                holdings(config, front),
                life(config, front).command,
                reply,
            ),
            _ => holdings(config, front),
        }
    }
}

/// Whether all that one map holds is in the other.
spec fn is_within<V>(some: Map<u64, V>, all: Map<u64, V>) -> bool {
    forall|id: u64| #[trigger]
        some.contains_key(id) ==> all.contains_key(id) && all[id] == some[id]
}

/// Whether a job waits for a user interface or a cache, or may do so.
spec fn may_hold<H: Host>(job: Job<H>) -> bool {
    match job {
        Job::Opening(opening) => opening is AwaitFirst,
        Job::Acting(acting) => acting is AwaitRelaid || acting is AwaitReloadCache
            || acting is AwaitReloaded,
        Job::Refresh(refresh) => refresh is AwaitCache || refresh is Building,
        Job::Frame(frame) => frame is AwaitRelayout,
        _ => false,
    }
}

/// What the next job waits for.
spec fn expected<H: Host>(s: Model<H>) -> Awaited {
    if s.agenda.len() == 0 {
        Awaited::Nothing
    } else {
        match s.agenda[0] {
            Job::Opening(Opening::AwaitFirst { id }) => Awaited::Interface(id),
            Job::Acting(Acting::AwaitRelaid { id, .. }) => Awaited::Interface(id),
            Job::Acting(Acting::AwaitReloaded { id, .. }) => Awaited::Interface(id),
            Job::Acting(Acting::AwaitReloadCache { id, .. }) => Awaited::Cache(id),
            Job::Refresh(Refresh::AwaitCache { id, .. }) => Awaited::Cache(id),
            Job::Refresh(Refresh::Building) => match s.build.phase {
                BuildPhase::AwaitInterface { id, .. } => Awaited::Interface(id),
                _ => Awaited::Nothing,
            },
            Job::Frame(Frame::AwaitRelayout { id }) => Awaited::Interface(id),
            _ => Awaited::Nothing,
        }
    }
}

/// Whether user interfaces are built at the moment.
spec fn builds<H: Host>(s: Model<H>) -> bool {
    s.agenda.len() > 0 && s.agenda[0] == Job::<H>::Refresh(Refresh::Building)
}

/// Whether all that an application has and asks for is what came for the window in question.
spec fn agrees<H: Host, U>(now: Next<H, U>, held: Holdings<H, U>) -> bool {
    &&& expected(now.model) == awaited(now.command)
    &&& is_within(now.interfaces, held.interfaces)
    &&& is_within(now.model.caches, held.caches)
    &&& is_within(now.model.build.cached, held.caches)
    &&& !builds(now.model) || now.model.build.phase is Done ==> now.model.build.cached
        =~= Map::empty()
    &&& is_fair(now.command, held)
}

/// Whether a command hands on what came last for the window in question: the user interface that is
/// given a new layout or turned into a cache is the one that was last made for the window, and one is
/// built from the cache that the last one of the window was turned into.
pub open spec fn is_fair<H: Host, U>(command: Command<H, U>, held: Holdings<H, U>) -> bool {
    match command {
        Command::Relayout { id, interface } => held.interfaces.contains_key(id)
            && held.interfaces[id] == interface,
        Command::IntoCache { id, interface } => held.interfaces.contains_key(id)
            && held.interfaces[id] == interface,
        Command::Build { id, cache } => held.caches.contains_key(id) && cache == Some(held.caches[id]),
        _ => true,
    }
}

/// Whether a step has nothing to do with user interfaces and caches, but that it may take some away.
/// The state is that without the job that was done.
spec fn stands_back<H: Host, U>(s: Model<H>, ui: Map<u64, U>, next: Next<H, U>) -> bool {
    &&& is_within(next.interfaces, ui)
    &&& next.model.caches == s.caches
    &&& next.model.build == s.build
    &&& awaited(next.command) is Nothing
    &&& next.model.agenda.len() > 0 ==> !may_hold(next.model.agenda[0]) || (s.agenda.len() > 0
        && next.model.agenda[0] == s.agenda[0])
}

proof fn lemma_stands_back<H: Host, U>(
    s: Model<H>,
    now: Next<H, U>,
    next: Next<H, U>,
    held: Holdings<H, U>,
)
    requires
        inv(now.model, now.interfaces),
        agrees(now, held),
        now.model.agenda.len() > 0,
        expected(now.model) is Nothing,
        !builds(now.model),
        s == rest_of(now.model),
        stands_back(s, now.interfaces, next),
    ensures
        agrees(next, held),
{
    if s.agenda.len() > 0 {
        assert(s.agenda[0] == now.model.agenda[1]);
        assert(!passing(now.model.agenda[1]));
        assert(!may_hold(s.agenda[0]));
    }
}

proof fn lemma_request_stands_back<H: Host, U>(
    s: Model<H>,
    ui: Map<u64, U>,
    id: u64,
    request: WindowRequest<H>,
)
    ensures
        stands_back(s, ui, request_step(s, ui, id, request)),
{
    reveal(request_step);
}

proof fn lemma_action_stands_back<H: Host, U>(s: Model<H>, ui: Map<u64, U>, action: Action<H>)
    ensures
        stands_back(s, ui, action_step(s, ui, action)),
{
    reveal(action_step);
    if let Action::Window(action) = action {
        reveal(window_action_step);
        match action {
            WindowAction::On(id, request) => lemma_request_stands_back(s, ui, id, request),
            WindowAction::Close(id) => {
                let next = closed(s, ui, id);
            },
            _ => {},
        }
    }
}

/// The run of an action keeps to what came for each window.
proof fn lemma_acting_agrees<H: Host, U>(
    now: Next<H, U>,
    reply: Reply<H, U>,
    held: Holdings<H, U>,
)
    requires
        inv(now.model, now.interfaces),
        now.model.windows.entries.len() <= usize::MAX,
        agrees(now, held),
        accepts(now.model, reply),
        now.model.agenda.len() > 0,
        now.model.agenda[0] is Acting,
        takes(rest_of(now.model), now.model.agenda[0]) matches Some(id)
            ==> now.interfaces.contains_key(id),
    ensures
        agrees(
            step(now.model, now.interfaces, reply),
            received_for(held, now.command, reply),
        ),
{
    let s = rest_of(now.model);
    let next = step(now.model, now.interfaces, reply);
    let acting = now.model.agenda[0]->Acting_0;
    if s.agenda.len() > 0 {
        assert(s.agenda[0] == now.model.agenda[1]);
        assert(!passing(now.model.agenda[1]));
    }
    assert(now.model.caches.dom() =~= Set::empty());
    if acting is Run {
        assert(next == action_step(s, now.interfaces, acting->Run_0)) by {
            reveal(act_step);
        }
        lemma_action_stands_back(s, now.interfaces, acting->Run_0);
        lemma_stands_back(s, now, next, held);
    } else {
        reveal(act_step);
    }
}

/// The update of all user interfaces keeps to what came for each window.
proof fn lemma_refresh_agrees<H: Host, U>(
    now: Next<H, U>,
    reply: Reply<H, U>,
    held: Holdings<H, U>,
)
    requires
        inv(now.model, now.interfaces),
        agrees(now, held),
        accepts(now.model, reply),
        now.model.agenda.len() > 0,
        now.model.agenda[0] is Refresh,
        takes(rest_of(now.model), now.model.agenda[0]) matches Some(id)
            ==> now.interfaces.contains_key(id),
    ensures
        agrees(
            step(now.model, now.interfaces, reply),
            received_for(held, now.command, reply),
        ),
{
    reveal(refresh_step);
    let s = rest_of(now.model);
    if s.agenda.len() > 0 {
        assert(s.agenda[0] == now.model.agenda[1]);
        assert(!passing(now.model.agenda[1]));
    }
    match now.model.agenda[0]->Refresh_0 {
        Refresh::Building => {
            if let BuildPhase::Building { next } = now.model.build.phase {
                lemma_ids_parted(now.model.windows, next as int);
            }
        },
        _ => {},
    }
}

/// The drawing of a frame keeps to what came for each window.
proof fn lemma_frame_agrees<H: Host, U>(
    now: Next<H, U>,
    reply: Reply<H, U>,
    held: Holdings<H, U>,
)
    requires
        inv(now.model, now.interfaces),
        agrees(now, held),
        accepts(now.model, reply),
        now.model.agenda.len() > 0,
        now.model.agenda[0] is Frame,
        takes(rest_of(now.model), now.model.agenda[0]) matches Some(id)
            ==> now.interfaces.contains_key(id),
    ensures
        agrees(
            step(now.model, now.interfaces, reply),
            received_for(held, now.command, reply),
        ),
{
    reveal(frame_step);
    let s = rest_of(now.model);
    if s.agenda.len() > 0 {
        assert(s.agenda[0] == now.model.agenda[1]);
        assert(!passing(now.model.agenda[1]));
    }
}

/// The opening of a window keeps to what came for each window.
proof fn lemma_opening_agrees<H: Host, U>(
    now: Next<H, U>,
    reply: Reply<H, U>,
    held: Holdings<H, U>,
)
    requires
        inv(now.model, now.interfaces),
        agrees(now, held),
        accepts(now.model, reply),
        now.model.agenda.len() > 0,
        now.model.agenda[0] is Opening,
    ensures
        agrees(
            step(now.model, now.interfaces, reply),
            received_for(held, now.command, reply),
        ),
{
    reveal(open_step);
    let s = rest_of(now.model);
    if s.agenda.len() > 0 {
        assert(s.agenda[0] == now.model.agenda[1]);
        assert(!passing(now.model.agenda[1]));
    }
}

/// Every step keeps to what came for each window.
proof fn lemma_step_agrees<H: Host, U>(now: Next<H, U>, reply: Reply<H, U>, held: Holdings<H, U>)
    requires
        inv(now.model, now.interfaces),
        now.model.windows.entries.len() <= usize::MAX,
        now.model.actions < usize::MAX,
        agrees(now, held),
        accepts(now.model, reply),
        now.model.agenda.len() > 0,
    ensures
        agrees(
            step(now.model, now.interfaces, reply),
            received_for(held, now.command, reply),
        ),
{
    let s = rest_of(now.model);
    let ui = now.interfaces;
    let next = step(now.model, ui, reply);
    lemma_ready(now.model, ui, reply);
    match now.model.agenda[0] {
        Job::Opening(_) => lemma_opening_agrees(now, reply, held),
        Job::Acting(_) => lemma_acting_agrees(now, reply, held),
        Job::Refresh(_) => lemma_refresh_agrees(now, reply, held),
        Job::Frame(_) => lemma_frame_agrees(now, reply, held),
        Job::Sweep(_) => {
            assert(stands_back(s, ui, next)) by {
                reveal(sweep_step);
            }
            lemma_stands_back(s, now, next, held);
        },
        Job::RunCollected { .. } => {
            assert(stands_back(s, ui, next)) by {
                reveal(collected_step);
            }
            lemma_stands_back(s, now, next, held);
        },
        Job::Waiting(_) => {
            assert(stands_back(s, ui, next)) by {
                reveal(wait_step);
            }
            lemma_stands_back(s, now, next, held);
        },
        _ => {
            assert(stands_back(s, ui, next)) by {
                reveal(single_step);
            }
            lemma_stands_back(s, now, next, held);
        },
    }
}

proof fn lemma_event_agrees<H: Host>(s: Model<H>, event: Event<H>)
    requires
        s.agenda.len() == 0,
    ensures
        expected(received(s, event)) is Nothing,
        !builds(received(s, event)),
        received(s, event).caches == s.caches,
        received(s, event).build == s.build,
{
}

/// At no time in the life of an application do user interfaces or caches get mixed up. The user
/// interface of each window is the one that was last made for it. When one is given a new layout or
/// turned into a cache it is that one, and when one is built it is from the cache that the last one of
/// the same window was turned into.
pub proof fn interfaces_are_never_mixed_up<H: Host, U>(config: Config, turns: Seq<Turn<H, U>>)
    requires
        is_life(config, turns),
    ensures
        ({
            let now = life(config, turns);
            let held = holdings(config, turns);
            &&& forall|id: u64| #[trigger]
                now.interfaces.contains_key(id) ==> held.interfaces.contains_key(id)
                    && held.interfaces[id] == now.interfaces[id]
            &&& is_fair(now.command, held)
        }),
{
    lemma_agrees(config, turns);
    let now = life(config, turns);
    let held = holdings(config, turns);
    assert forall|id: u64| #[trigger] now.interfaces.contains_key(id) implies
        held.interfaces.contains_key(id) && held.interfaces[id] == now.interfaces[id] by {
    }
}

proof fn lemma_agrees<H: Host, U>(config: Config, turns: Seq<Turn<H, U>>)
    requires
        is_life(config, turns),
    ensures
        agrees(life(config, turns), holdings(config, turns)),
    decreases turns.len(),
{
    if turns.len() > 0 {
        let front = turns.drop_last();
        let now = life(config, front);
        let held = holdings(config, front);
        lemma_agrees(config, front);
        applications_never_get_stuck(config, front);
        match turns.last() {
            Turn::Reply(reply) => {
                assert(accepts(now.model, reply));
                if now.model.agenda.len() > 0 {
                    lemma_step_agrees(now, reply, held);
                }
            },
            Turn::Event(event) => lemma_event_agrees(now.model, event),
            Turn::Window { .. } => {
                let next = turned(now, turns.last());
                assert(next.model.agenda == now.model.agenda);
            },
        }
    }
}

} // verus!
