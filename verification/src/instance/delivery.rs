//! How events are delivered, from the moment that there are no more of them until all are told of.

use super::course::{
    aside, lemma_all_lead_on, lemma_interaction, lemma_stays_aside, reacts,
};
use super::laws::{events_are_parted, lemma_last_event};
use super::model::{
    events_of, first_do, interacted, rest_of, single_step, step, wait_step, Next,
};
use super::order::inv;
use super::protocol::{accepts, job_valid};
use super::whole::{answered, begun, events_go_well, run};
use super::{Command, Effect, Event, Job, Model, Reply, Status, UiEvent, Waiting};
use crate::host::Host;
use crate::window_man::{lemma_place, lemma_requested, Windows};
use vstd::multiset::Multiset;
use vstd::prelude::*;
use vstd::seq_lib::{to_multiset_build, to_multiset_contains, to_multiset_len};

verus! {

/// The news that a command spreads of an event of a window, if any: the window, the event, and what a
/// user interface did with it.
pub open spec fn news_of<H: Host, U>(command: Command<H, U>) -> Option<
    (u64, UiEvent<H::Event>, Status),
> {
    match command {
        Command::Effect(Effect::Broadcast { id, event, status }) => Some((id, event, status)),
        _ => None,
    }
}

/// What an application tells of the events of one window, in order: each event, and what a user
/// interface did with it.
pub open spec fn told_of<H: Host, U>(start: Next<H, U>, replies: Seq<Reply<H, U>>, id: u64) -> Seq<
    (UiEvent<H::Event>, Status),
>
    decreases replies.len(),
{
    if replies.len() == 0 {
        Seq::empty()
    } else {
        let before = told_of(start, replies.drop_last(), id);
        match news_of(run(start, replies).command) {
            Some((of, event, status)) if of == id => before.push((event, status)),
            _ => before,
        }
    }
}

/// The events that an application tells of, each as often as it does.
pub open spec fn told<H: Host, U>(start: Next<H, U>, replies: Seq<Reply<H, U>>) -> Multiset<
    (u64, UiEvent<H::Event>),
>
    decreases replies.len(),
{
    if replies.len() == 0 {
        Multiset::empty()
    } else {
        let before = told(start, replies.drop_last());
        match news_of(run(start, replies).command) {
            Some((id, event, _)) => before.insert((id, event)),
            None => before,
        }
    }
}

/// What the user interface of a window has told that it did with the events that it was shown.
pub open spec fn returned<H: Host, U>(start: Next<H, U>, replies: Seq<Reply<H, U>>, id: u64) -> Seq<
    Status,
>
    decreases replies.len(),
{
    if replies.len() == 0 {
        Seq::empty()
    } else {
        let front = replies.drop_last();
        let before = returned(start, front, id);
        if run(start, front).command == (Command::<H, U>::Interact { id }) {
            before + replies.last()->statuses@
        } else {
            before
        }
    }
}

/// Whether each user interface told what it did with each event that it was shown.
pub open spec fn one_status_each<H: Host, U>(start: Next<H, U>, replies: Seq<Reply<H, U>>) -> bool
    decreases replies.len(),
{
    replies.len() == 0 || {
        let now = run(start, replies.drop_last());
        &&& one_status_each(start, replies.drop_last())
        &&& now.command is Interact ==> replies.last()->statuses@.len()
            == now.model.window_events.len()
    }
}

/// Events, each with what a user interface did with it, as far as there are both.
pub open spec fn paired<E>(events: Seq<UiEvent<E>>, statuses: Seq<Status>) -> Seq<
    (UiEvent<E>, Status),
> {
    let n = if events.len() <= statuses.len() {
        events.len()
    } else {
        statuses.len()
    };
    Seq::new(n, |i: int| (events[i], statuses[i]))
}

/// Events that no user interface made use of.
pub open spec fn ignored<E>(events: Seq<UiEvent<E>>) -> Seq<(UiEvent<E>, Status)> {
    events.map_values(|event: UiEvent<E>| (event, Status::Ignored))
}

/// A stage in the delivery of events.
ghost enum Stage {
    /// No window is being shown its events. Those before a place have been.
    Between { next: int },
    /// A window is being shown its events. Those before a place are done with then.
    Showing { id: u64, next: int },
    /// A window has been shown its events, and they are still to be told of.
    Shown { id: u64, next: int },
    /// Every window has been shown its events.
    Rest,
    /// All events have been told of.
    Over,
}

/// Whether the jobs of an application are those of a stage.
spec fn is_at<H: Host>(agenda: Seq<Job<H>>, stage: Stage) -> bool {
    let n = agenda.len();
    match stage {
        Stage::Between { next } => n == 1 && (agenda[0] matches Job::Waiting(waiting) && match waiting {
            Waiting::Release | Waiting::Check => next == 0,
            Waiting::Deliver { next: place, .. } => next == place,
            _ => false,
        }),
        Stage::Showing { id, next } => n == 1 && (agenda[0] matches Job::Waiting(
            Waiting::AwaitInteract { id: shown, next: place, .. },
        ) && shown == id && place == next),
        Stage::Shown { id, next } => {
            &&& n >= 2
            &&& forall|i: int| 0 <= i < n - 2 ==> reacts(#[trigger] agenda[i])
            &&& agenda[n - 2] == Job::<H>::Waiting(Waiting::BroadcastShown { id })
            &&& agenda[n - 1] matches Job::Waiting(Waiting::Deliver { next: place, .. })
            &&& place == next
        },
        Stage::Rest => n == 2 && agenda[0] == Job::<H>::Waiting(Waiting::BroadcastRest)
            && (agenda[1] matches Job::Waiting(Waiting::Finish { .. })),
        Stage::Over => forall|i: int| 0 <= i < n ==> aside(#[trigger] agenda[i]),
    }
}

/// Whether the same windows are at the same places.
spec fn same_places<W>(a: Windows<W>, b: Windows<W>) -> bool {
    &&& a.entries.len() == b.entries.len()
    &&& forall|i: int| 0 <= i < a.entries.len() ==> (#[trigger] a.entries[i]).id == b.entries[i].id
}

/// What has come of the events of one window so far.
ghost struct Progress<E> {
    /// The window.
    id: u64,
    /// Its events.
    events: Seq<UiEvent<E>>,
    /// What has been told of them.
    told: Seq<(UiEvent<E>, Status)>,
    /// What its user interface has told that it did with them.
    returned: Seq<Status>,
    /// Whether every user interface told what it did with each event that it was shown.
    full: bool,
}

impl<E> Progress<E> {
    /// Whether nothing has come of the events yet.
    spec fn is_to_come(self, left: Seq<UiEvent<E>>) -> bool {
        &&& left == self.events
        &&& self.told.len() == 0
        &&& self.returned.len() == 0
    }

    /// Whether there are as many answers as events, if there have always been.
    spec fn is_full(self) -> bool {
        self.full ==> self.returned.len() == self.events.len()
    }

    /// Whether all that was answered has been told of.
    spec fn is_told(self) -> bool {
        self.told == paired(self.events, self.returned) && self.is_full()
    }
}

/// Whether the events of one window have come as far as an application has, which started with some
/// windows.
spec fn keeps_up<H: Host>(
    s: Model<H>,
    windows: Windows<H::Window>,
    stage: Stage,
    p: Progress<H::Event>,
) -> bool {
    let left = events_of(s.events, p.id);
    let open = windows.has(p.id);
    let place = windows.place(p.id);
    match stage {
        Stage::Between { next } => {
            &&& next >= 0
            &&& open && place < next ==> p.is_told() && left.len() == 0
            &&& !(open && place < next) ==> p.is_to_come(left)
        },
        Stage::Showing { id, next } => {
            &&& 0 < next <= windows.entries.len()
            &&& windows.entries[next - 1].id == id
            &&& if p.id == id {
                p.is_to_come(s.window_events) && left.len() == 0
            } else {
                &&& open && place < next ==> p.is_told() && left.len() == 0
                &&& !(open && place < next) ==> p.is_to_come(left)
            }
        },
        Stage::Shown { id, next } => {
            &&& 0 < next <= windows.entries.len()
            &&& windows.entries[next - 1].id == id
            &&& if p.id == id {
                &&& p.told + paired(s.window_events, s.statuses) == paired(p.events, p.returned)
                &&& p.is_full()
                &&& left.len() == 0
            } else {
                &&& open && place < next ==> p.is_told() && left.len() == 0
                &&& !(open && place < next) ==> p.is_to_come(left)
            }
        },
        Stage::Rest => {
            &&& open ==> p.is_told() && left.len() == 0
            &&& !open ==> p.returned.len() == 0 && p.told + ignored(left) == ignored(p.events)
        },
        Stage::Over => {
            &&& open ==> p.is_told()
            &&& !open ==> p.returned.len() == 0 && p.told == ignored(p.events)
        },
    }
}

/// Whether an application is at a stage.
spec fn stands_at<H: Host>(
    s: Model<H>,
    windows: Windows<H::Window>,
    stage: Stage,
    p: Progress<H::Event>,
) -> bool {
    &&& is_at(s.agenda, stage)
    &&& stage !is Over ==> same_places(s.windows, windows)
    &&& keeps_up(s, windows, stage, p)
}

/// The progress after a step from a stage.
spec fn progressed<H: Host, U>(
    p: Progress<H::Event>,
    stage: Stage,
    reply: Reply<H, U>,
    command: Command<H, U>,
) -> Progress<H::Event> {
    Progress {
        told: match news_of(command) {
            Some((of, event, status)) if of == p.id => p.told.push((event, status)),
            _ => p.told,
        },
        returned: if stage matches Stage::Showing { id, .. } && id == p.id {
            p.returned + reply->statuses@
        } else {
            p.returned
        },
        ..p
    }
}

/// What a step leads to.
spec fn arrives<H: Host, U>(
    next: Next<H, U>,
    windows: Windows<H::Window>,
    stage: Stage,
    p: Progress<H::Event>,
) -> bool {
    &&& stands_at(next.model, windows, stage, p)
    &&& stage matches Stage::Showing { id, .. } ==> next.command == (Command::<H, U>::Interact { id })
    &&& next.command is Interact ==> stage is Showing
}

/// What follows while no window is being shown its events.
proof fn lemma_between<H: Host, U>(
    s: Model<H>,
    ui: Map<u64, U>,
    reply: Reply<H, U>,
    windows: Windows<H::Window>,
    stage: Stage,
    p: Progress<H::Event>,
) -> (next: Stage)
    requires
        windows.sorted(),
        s.windows.entries.len() <= usize::MAX,
        stage is Between,
        stands_at(s, windows, stage, p),
    ensures
        ({
            let after = step(s, ui, reply);
            arrives(after, windows, next, progressed(p, stage, reply, after.command))
        }),
{
    reveal(wait_step);
    let after = step(s, ui, reply);
    let waiting = s.agenda[0]->Waiting_0;
    assert(rest_of(s).agenda =~= Seq::empty());
    if windows.has(p.id) {
        assert(windows.entries[windows.place(p.id)].id == p.id);
    }
    match waiting {
        Waiting::Release => Stage::Between { next: 0 },
        Waiting::Check => {
            if s.events.len() == 0 && s.messages.len() == 0 && s.windows.idle() {
                assert(after.model.agenda =~= Seq::empty());
                assert(events_of(s.events, p.id) =~= Seq::empty()) by {
                    reveal(Seq::filter);
                }
                assert(p.told =~= paired(p.events, p.returned));
                assert(p.told =~= ignored(p.events));
                Stage::Over
            } else {
                Stage::Between { next: 0 }
            }
        },
        _ => {
            let place = waiting->Deliver_next;
            if place < s.windows.entries.len() {
                let id = s.windows.entries[place as int].id;
                assert(windows.entries[place as int].id == id);
                lemma_place(windows, place as int);
                events_are_parted(s.events, id);
                let mine = events_of(s.events, id);
                if mine.len() == 0 && s.messages.len() == 0 {
                    if p.id == id {
                        assert(p.told =~= paired(p.events, p.returned));
                    }
                    Stage::Between { next: place + 1 }
                } else {
                    Stage::Showing { id, next: place + 1 }
                }
            } else {
                if !windows.has(p.id) {
                    let left = events_of(s.events, p.id);
                    assert(p.told + ignored(left) =~= ignored(p.events));
                }
                Stage::Rest
            }
        },
    }
}

/// What follows when a window was shown its events.
proof fn lemma_shown<H: Host, U>(
    s: Model<H>,
    ui: Map<u64, U>,
    reply: Reply<H, U>,
    windows: Windows<H::Window>,
    stage: Stage,
    p: Progress<H::Event>,
) -> (next: Stage)
    requires
        inv(s, ui),
        windows.sorted(),
        stage is Shown,
        stands_at(s, windows, stage, p),
    ensures
        ({
            let after = step(s, ui, reply);
            arrives(after, windows, next, progressed(p, stage, reply, after.command))
        }),
{
    let id = stage->Shown_id;
    let place = stage->Shown_next;
    let rest = rest_of(s);
    let after = step(s, ui, reply);
    let n = s.agenda.len();
    assert(first_do(rest, Seq::<Job<H>>::empty()).agenda =~= rest.agenda);
    if n > 2 {
        reveal(single_step);
        assert(reacts(s.agenda[0]));
        assert(job_valid(s.windows, s.agenda[0]));
        if let Job::RequestRedraw { id, request } = s.agenda[0] {
            lemma_requested(s.windows, id, request);
        }
        assert(after.model.agenda =~= rest.agenda);
        assert(after.model.agenda[n - 3] == s.agenda[n - 2]);
        assert(after.model.agenda[n - 2] == s.agenda[n - 1]);
        assert forall|i: int| 0 <= i < n - 3 implies reacts(#[trigger] after.model.agenda[i]) by {
            assert(after.model.agenda[i] == s.agenda[i + 1]);
        }
        stage
    } else {
        reveal(wait_step);
        let events = s.window_events;
        let statuses = s.statuses;
        if events.len() > 0 && statuses.len() > 0 {
            assert(after.model.agenda =~= s.agenda);
            if p.id == id {
                assert(p.told.push((events[0], statuses[0])) + paired(
                    events.drop_first(),
                    statuses.drop_first(),
                ) =~= p.told + paired(events, statuses));
            }
            stage
        } else {
            assert(after.model.agenda =~= seq![s.agenda[1]]);
            lemma_place(windows, place - 1);
            if p.id == id {
                assert(p.told =~= p.told + paired(events, statuses));
            }
            Stage::Between { next: place }
        }
    }
}

/// What follows while the events are told of that belong to no window that is open.
proof fn lemma_rest<H: Host, U>(
    s: Model<H>,
    ui: Map<u64, U>,
    reply: Reply<H, U>,
    windows: Windows<H::Window>,
    p: Progress<H::Event>,
) -> (next: Stage)
    requires
        stands_at(s, windows, Stage::Rest, p),
    ensures
        ({
            let after = step(s, ui, reply);
            arrives(after, windows, next, progressed(p, Stage::Rest, reply, after.command))
        }),
{
    reveal(wait_step);
    let after = step(s, ui, reply);
    let left = events_of(s.events, p.id);
    assert(rest_of(s).agenda =~= seq![s.agenda[1]]);
    if s.events.len() > 0 {
        assert(after.model.agenda =~= s.agenda);
        lemma_first_event(s.events, p.id);
        if s.events[0].0 == p.id {
            let less = events_of(s.events.drop_first(), p.id);
            assert(p.told + ignored(left) =~= p.told.push((s.events[0].1, Status::Ignored)) + ignored(
                less,
            ));
        }
        Stage::Rest
    } else {
        assert(left =~= Seq::empty()) by {
            reveal(Seq::filter);
        }
        assert(p.told + ignored(left) =~= p.told);
        assert(after.model.agenda =~= seq![s.agenda[1]]);
        Stage::Over
    }
}

/// The first event either is the first one of a window or is none of its events.
proof fn lemma_first_event<E>(events: Seq<(u64, UiEvent<E>)>, id: u64)
    requires
        events.len() > 0,
    ensures
        events_of(events, id) == if events[0].0 == id {
            seq![events[0].1] + events_of(events.drop_first(), id)
        } else {
            events_of(events.drop_first(), id)
        },
    decreases events.len(),
{
    let rest = events.drop_first();
    lemma_last_event(events, id);
    if events.len() == 1 {
        reveal(Seq::filter);
        assert(rest =~= Seq::empty());
        assert(events.drop_last() =~= Seq::empty());
        assert(events_of(rest, id) =~= Seq::empty());
        if events[0].0 == id {
            assert(events_of(events, id) =~= seq![events[0].1] + events_of(rest, id));
        }
    } else {
        lemma_first_event(events.drop_last(), id);
        lemma_last_event(rest, id);
        assert(events.drop_last().drop_first() =~= rest.drop_last());
        if events[0].0 == id {
            assert(events_of(events, id) =~= seq![events[0].1] + events_of(rest, id));
        }
    }
}

/// The delivery goes on from one stage to another, or stays at it.
proof fn lemma_delivery<H: Host, U>(
    s: Model<H>,
    ui: Map<u64, U>,
    reply: Reply<H, U>,
    windows: Windows<H::Window>,
    stage: Stage,
    p: Progress<H::Event>,
) -> (next: Stage)
    requires
        inv(s, ui),
        accepts(s, reply),
        s.agenda.len() > 0,
        windows.sorted(),
        s.windows.entries.len() <= usize::MAX,
        stands_at(s, windows, stage, p),
        stage is Showing && p.full ==> reply->statuses@.len() == s.window_events.len(),
    ensures
        ({
            let after = step(s, ui, reply);
            arrives(after, windows, next, progressed(p, stage, reply, after.command))
        }),
{
    let rest = rest_of(s);
    let after = step(s, ui, reply);
    match stage {
        Stage::Between { .. } => lemma_between(s, ui, reply, windows, stage, p),
        Stage::Showing { id, next } => {
            reveal(wait_step);
            assert(rest.agenda =~= Seq::empty());
            let waiting = s.agenda[0]->Waiting_0;
            let place = waiting->AwaitInteract_next;
            let stale = waiting->AwaitInteract_stale;
            let told = interacted(rest, id, place, stale, reply);
            lemma_interaction(rest, id, place, stale, reply);
            assert(first_do(told, Seq::<Job<H>>::empty()).agenda =~= told.agenda);
            if p.id == id {
                assert(p.returned + reply->statuses@ =~= reply->statuses@);
                assert(p.told + paired(s.window_events, reply->statuses@) =~= paired(
                    p.events,
                    reply->statuses@,
                ));
            }
            Stage::Shown { id, next }
        },
        Stage::Shown { .. } => lemma_shown(s, ui, reply, windows, stage, p),
        Stage::Rest => lemma_rest(s, ui, reply, windows, p),
        Stage::Over => {
            assert(aside(s.agenda[0]));
            lemma_stays_aside(s, ui, reply);
            lemma_all_lead_on(s, after, |job: Job<H>| aside(job));
            Stage::Over
        },
    }
}

/// What has come of the events of one window after some replies.
spec fn progress<H: Host, U>(
    s: Model<H>,
    ui: Map<u64, U>,
    replies: Seq<Reply<H, U>>,
    id: u64,
) -> Progress<H::Event> {
    let start = begun(s, ui, Event::AboutToWait);
    Progress {
        id,
        events: events_of(s.events, id),
        told: told_of(start, replies, id),
        returned: returned(start, replies, id),
        full: one_status_each(start, replies),
    }
}

/// The stage that the delivery of events is at.
proof fn lemma_stage<H: Host, U>(
    s: Model<H>,
    ui: Map<u64, U>,
    replies: Seq<Reply<H, U>>,
    id: u64,
) -> (stage: Stage)
    requires
        inv(s, ui),
        s.agenda.len() == 0,
        answered(begun(s, ui, Event::AboutToWait), replies),
    ensures
        arrives(
            run(begun(s, ui, Event::AboutToWait), replies),
            s.windows,
            stage,
            progress(s, ui, replies, id),
        ),
    decreases replies.len(),
{
    let start = begun(s, ui, Event::AboutToWait);
    if replies.len() == 0 {
        assert(start.model.agenda =~= seq![Job::<H>::Waiting(Waiting::Release)]);
        Stage::Between { next: 0 }
    } else {
        let front = replies.drop_last();
        let reply = replies.last();
        let now = run(start, front);
        let stage = lemma_stage(s, ui, front, id);
        events_go_well(s, ui, Event::AboutToWait, front);
        assert(accepts(now.model, reply));
        let p = Progress {
            full: one_status_each(start, replies),
            ..progress(s, ui, front, id)
        };
        assert(stands_at(now.model, s.windows, stage, p));
        if now.model.agenda.len() == 0 {
            stage
        } else {
            let next = lemma_delivery(now.model, now.interfaces, reply, s.windows, stage, p);
            let after = step(now.model, now.interfaces, reply);
            assert(progressed(p, stage, reply, after.command) == progress(s, ui, replies, id));
            next
        }
    }
}

/// When there are no more events for now, each open window is shown its events in the order in which
/// they came in, and they are told of in that order, each with what the user interface did with it. The
/// events of windows that are not open are told of in order, too, as ignored. That holds whatever the
/// replies are; if a user interface does not tell what it did with each event that it was shown, the
/// last ones of them are not told of.
pub proof fn events_are_told_in_order<H: Host, U>(
    s: Model<H>,
    ui: Map<u64, U>,
    replies: Seq<Reply<H, U>>,
    id: u64,
)
    requires
        inv(s, ui),
        s.agenda.len() == 0,
        answered(begun(s, ui, Event::AboutToWait), replies),
    ensures
        ({
            let start = begun(s, ui, Event::AboutToWait);
            let now = run(start, replies);
            let events = events_of(s.events, id);
            let statuses = returned(start, replies, id);
            &&& now.command == (Command::<H, U>::Interact { id }) ==> s.windows.has(id)
                && now.model.window_events == events
            &&& now.model.agenda.len() == 0 ==> {
                &&& told_of(start, replies, id) == if s.windows.has(id) {
                    paired(events, statuses)
                } else {
                    ignored(events)
                }
                &&& one_status_each(start, replies) && s.windows.has(id) ==> statuses.len()
                    == events.len()
            }
        }),
{
    let stage = lemma_stage(s, ui, replies, id);
    if let Stage::Showing { next, .. } = stage {
        lemma_place(s.windows, next - 1);
    }
}

/// Without items there is nothing.
proof fn lemma_empty<A>()
    ensures
        Seq::<A>::empty().to_multiset() == Multiset::<A>::empty(),
{
    let none = Seq::<A>::empty();
    to_multiset_len(none);
    assert forall|a: A| none.to_multiset().count(a) == 0 by {
        to_multiset_contains(none, a);
    }
    assert(none.to_multiset() =~= Multiset::empty());
}

/// An event of a window is among all events as often as it is among those of the window.
proof fn lemma_count<E>(events: Seq<(u64, UiEvent<E>)>, id: u64, event: UiEvent<E>)
    ensures
        events.to_multiset().count((id, event)) == events_of(events, id).to_multiset().count(event),
    decreases events.len(),
{
    if events.len() == 0 {
        reveal(Seq::filter);
        lemma_empty::<(u64, UiEvent<E>)>();
        lemma_empty::<UiEvent<E>>();
        assert(events =~= Seq::empty());
        assert(events_of(events, id) =~= Seq::empty());
    } else {
        let front = events.drop_last();
        lemma_count(front, id, event);
        lemma_last_event(events, id);
        assert(events =~= front.push(events.last()));
        to_multiset_build(front, events.last());
        to_multiset_build(events_of(front, id), events.last().1);
    }
}

/// The events of some news.
spec fn events_in<E>(news: Seq<(UiEvent<E>, Status)>) -> Seq<UiEvent<E>> {
    news.map_values(|told: (UiEvent<E>, Status)| told.0)
}

/// An event of a window is told of as often as it is among what is told of the window.
proof fn lemma_told_count<H: Host, U>(
    start: Next<H, U>,
    replies: Seq<Reply<H, U>>,
    id: u64,
    event: UiEvent<H::Event>,
)
    ensures
        told(start, replies).count((id, event)) == events_in(
            told_of(start, replies, id),
        ).to_multiset().count(event),
    decreases replies.len(),
{
    if replies.len() == 0 {
        lemma_empty::<UiEvent<H::Event>>();
        assert(events_in(told_of(start, replies, id)) =~= Seq::empty());
    } else {
        let front = replies.drop_last();
        let before = told_of(start, front, id);
        lemma_told_count(start, front, id, event);
        if let Some((of, news, status)) = news_of(run(start, replies).command) {
            if of == id {
                assert(events_in(before.push((news, status))) =~= events_in(before).push(news));
                to_multiset_build(events_in(before), news);
            }
        }
    }
}

/// When there are no more events for now, every event that waits is told of exactly once, whoever it
/// belongs to: by the time that the application waits there is none left, and none was told of that was
/// not there. Each user interface has to tell what it did with each event that it was shown.
pub proof fn every_event_is_told_once<H: Host, U>(
    s: Model<H>,
    ui: Map<u64, U>,
    replies: Seq<Reply<H, U>>,
)
    requires
        inv(s, ui),
        s.agenda.len() == 0,
        answered(begun(s, ui, Event::AboutToWait), replies),
        one_status_each(begun(s, ui, Event::AboutToWait), replies),
        run(begun(s, ui, Event::AboutToWait), replies).model.agenda.len() == 0,
    ensures
        told(begun(s, ui, Event::AboutToWait), replies) == s.events.to_multiset(),
{
    let start = begun(s, ui, Event::AboutToWait);
    assert forall|news: (u64, UiEvent<H::Event>)|
        told(start, replies).count(news) == s.events.to_multiset().count(news) by {
        let (id, event) = news;
        let events = events_of(s.events, id);
        events_are_told_in_order(s, ui, replies, id);
        lemma_told_count(start, replies, id, event);
        lemma_count(s.events, id, event);
        assert(events_in(told_of(start, replies, id)) =~= events);
    }
    assert(told(start, replies) =~= s.events.to_multiset());
}

} // verus!
