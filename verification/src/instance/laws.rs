//! What an application can be relied on for.

use super::course::{
    adds_messages, keeps_windows, lemma_acting_goes_on, lemma_action_starts, put_out,
};
use super::model::{
    act_step, action_step, after, closed, collected_step, emit, events_but, events_of, first_do,
    flow_of, frame_step, layout_changed, open_step, received, refresh_step, rest_of, shown,
    single_step, step, sweep_step, theme_noted, wait_step, window_action_step, with_window,
    MAX_REDRAWS,
};
use super::order::{inv, may_close};
use super::protocol::{accepts, concerns, framed, job_valid};
use super::upkeep::{lemma_relocated, lemma_same_ids};
use super::{
    Acting, Command, Config, Effect, Event, Frame, Job, Model, Opening, Refresh, Reply, StartCause,
    Status, Sweep, UiEvent, UiState, Waiting, WindowOp,
};
use crate::action::{Action, WindowAction};
use crate::control::Control;
use crate::conversion::ThemeMode;
use crate::flow::ControlFlow;
use crate::host::Host;
use crate::input::WindowInput;
use crate::platform::Platform;
use crate::update::starting;
use crate::window_man::{
    lemma_ids_parted, lemma_inserted, lemma_place, lemma_removed, lemma_replaced, lemma_requested,
    redraw_at_is_earliest, RedrawRequest, Window, Windows,
};
use vstd::prelude::*;

verus! {

/// What a window holds makes no difference to what always holds.
pub proof fn windows_may_change_inside<H: Host, U>(
    s: Model<H>,
    ui: Map<u64, U>,
    id: u64,
    inner: H::Window,
)
    requires
        inv(s, ui),
        s.windows.has(id),
    ensures
        inv(with_window(s, id, inner), ui),
        forall|reply: Reply<H, U>| #[trigger]
            accepts(with_window(s, id, inner), reply) == accepts(s, reply),
{
    let window = Window { inner, ..s.windows.at(id) };
    assert(s.windows.entries[s.windows.place(id)].id == id);
    lemma_replaced(s.windows, window);
    lemma_same_ids(s.windows, s.windows.replaced(window));
    lemma_same_places(s.windows, s.windows.replaced(window));
    lemma_relocated(s, ui, with_window(s, id, inner));
}

/// Windows with the same identifiers in the same places have the same ones before and after each.
proof fn lemma_same_places<W>(a: Windows<W>, b: Windows<W>)
    requires
        a.entries.len() == b.entries.len(),
        forall|i: int| 0 <= i < a.entries.len() ==> (#[trigger] b.entries[i]).id == a.entries[i].id,
    ensures
        forall|place: int| #[trigger] a.ids_before(place) =~= b.ids_before(place),
        forall|place: int| #[trigger] a.ids_from(place) =~= b.ids_from(place),
{
    assert forall|place: int| #[trigger] a.ids_before(place) =~= b.ids_before(place) by {
        assert forall|id: u64| a.ids_before(place).contains(id) == b.ids_before(place).contains(id) by {
            if a.ids_before(place).contains(id) {
                let i = choose|i: int|
                    0 <= i < a.entries.len() && i < place && (#[trigger] a.entries[i]).id == id;
                assert(b.entries[i].id == id);
            }
            if b.ids_before(place).contains(id) {
                let i = choose|i: int|
                    0 <= i < b.entries.len() && i < place && (#[trigger] b.entries[i]).id == id;
                assert(a.entries[i].id == id);
            }
        }
    }
    assert forall|place: int| #[trigger] a.ids_from(place) =~= b.ids_from(place) by {
        assert forall|id: u64| a.ids_from(place).contains(id) == b.ids_from(place).contains(id) by {
            if a.ids_from(place).contains(id) {
                let i = choose|i: int|
                    0 <= i < a.entries.len() && place <= i && (#[trigger] a.entries[i]).id == id;
                assert(b.entries[i].id == id);
            }
            if b.ids_from(place).contains(id) {
                let i = choose|i: int|
                    0 <= i < b.entries.len() && place <= i && (#[trigger] b.entries[i]).id == id;
                assert(a.entries[i].id == id);
            }
        }
    }
}

/// Once an event has been dealt with, there is a compositor exactly while a window is open, and every
/// open window has a user interface.
pub proof fn compositor_comes_with_windows<H: Host, U>(s: Model<H>, ui: Map<u64, U>)
    requires
        inv(s, ui),
        s.agenda.len() == 0,
    ensures
        s.compositor <==> s.windows.entries.len() > 0,
        ui.dom() =~= s.windows.ids(),
        s.ui_caches.dom() =~= s.windows.ids(),
{
}

/// An application that is no daemon ends when a window is destroyed while none is open and none is on
/// its way. No other event of a window ends one.
pub proof fn last_window_ends_the_application<H: Host>(s: Model<H>, raw: u64, input: WindowInput)
    requires
        s.agenda.len() == 0,
    ensures
        ({
            let after = received(s, Event::WindowEvent { raw, input });
            let exit = Job::<H>::Emit(Effect::Control(Control::Exit));
            after.agenda.contains(exit) <==> !s.config.is_daemon && input is Destroyed
                && !s.is_window_opening && s.windows.entries.len() == 0
        }),
{
    let after = received(s, Event::WindowEvent { raw, input });
    let exit = Job::<H>::Emit(Effect::Control(Control::Exit));
    if !s.config.is_daemon && input is Destroyed && !s.is_window_opening && s.windows.entries.len()
        == 0 {
        assert(after.agenda[0] == exit);
    } else {
        assert forall|i: int| 0 <= i < after.agenda.len() implies after.agenda[i] != exit by {}
    }
}

/// A daemon is not ended by anything that happens to a window.
pub proof fn daemons_outlive_windows<H: Host>(s: Model<H>, raw: u64, input: WindowInput)
    requires
        s.agenda.len() == 0,
        s.config.is_daemon,
    ensures
        !received(s, Event::WindowEvent { raw, input }).agenda.contains(
            Job::<H>::Emit(Effect::Control(Control::Exit)),
        ),
{
    last_window_ends_the_application(s, raw, input);
}

/// A user interface is told of a frame three times at most. After the third time the frame is drawn,
/// whatever came of it.
pub proof fn frames_are_redrawn_thrice_at_most<H: Host, U>(
    s: Model<H>,
    ui: Map<u64, U>,
    id: u64,
    count: usize,
    reply: Reply<H, U>,
)
    requires
        inv(s, ui),
        s.agenda.len() > 0,
        s.agenda[0] == Job::<H>::Frame(Frame::AwaitRedraw { id, count }),
        accepts(s, reply),
    ensures
        ({
            let next = step(s, ui, reply);
            let settled = reply->Redrawn_messages@.len() == 0 && !layout_changed(
                reply->Redrawn_state,
            );
            &&& count <= MAX_REDRAWS
            &&& next.command == Command::<H, U>::Effect(
                Effect::Window { id, op: WindowOp::Draw },
            ) <==> settled || count == MAX_REDRAWS
            &&& !settled && count < MAX_REDRAWS ==> {
                ||| next.model.agenda[0] == Job::<H>::Frame(Frame::Redraw { id, count: after(count) })
                ||| next.model.agenda[3] == Job::<H>::Frame(Frame::Check { id, count: after(count) })
            }
        }),
{
    reveal(frame_step);
    assert(job_valid(s.windows, s.agenda[0]));
}

/// While a frame is drawn, actions on windows are put off and all others are run.
pub proof fn drawing_defers_window_actions<H: Host, U>(s: Model<H>, ui: Map<u64, U>)
    requires
        s.agenda.len() > 0,
        s.agenda[0] == (Job::<H>::RunCollected { defer: true }),
        s.collected.len() > 0,
    ensures
        ({
            let action = s.collected[0];
            let next = step(s, ui, Reply::Done);
            &&& next.model.collected == s.collected.drop_first()
            &&& next.model.windows == s.windows
            &&& action is Window ==> next.command == Command::<H, U>::Effect(Effect::Defer(action))
            &&& !(action is Window) ==> next.model.agenda[0] == Job::Acting(Acting::Run(action))
        }),
{
    reveal(collected_step);
}

/// What a step does to the windows: a window that is ready is opened, one that is to be closed is
/// closed, and otherwise the same windows stay open.
pub proof fn windows_come_and_go_as_told<H: Host, U>(s: Model<H>, ui: Map<u64, U>, reply: Reply<H, U>)
    requires
        inv(s, ui),
        accepts(s, reply),
        s.agenda.len() > 0,
    ensures
        ({
            let ids = step(s, ui, reply).model.windows.ids();
            match s.agenda[0] {
                Job::Opening(Opening::AwaitWindow { id, .. }) => ids == s.windows.ids().insert(id),
                Job::Acting(Acting::Run(Action::Window(WindowAction::Close(id)))) => ids
                    == s.windows.ids().remove(id),
                _ => ids == s.windows.ids(),
            }
        }),
{
    reveal(single_step);
    reveal(collected_step);
    let rest = rest_of(s);
    assert(job_valid(s.windows, s.agenda[0]));
    match s.agenda[0] {
        Job::Opening(opening) => lemma_opening_ids(rest, ui, opening, reply),
        Job::Acting(acting) => lemma_acting_ids(rest, ui, acting, reply),
        Job::Sweep(sweep) => lemma_swept_ids(rest, ui, sweep),
        Job::Refresh(refresh) => lemma_refreshed_windows(rest, ui, refresh, reply),
        Job::Frame(frame) => lemma_frame_ids(rest, ui, frame, reply),
        Job::Waiting(waiting) => lemma_waiting_windows(rest, ui, waiting, reply),
        Job::RequestRedraw { id, request } => lemma_requested(s.windows, id, request),
        _ => {},
    }
}

proof fn lemma_opening_ids<H: Host, U>(
    s: Model<H>,
    ui: Map<u64, U>,
    opening: Opening<H>,
    reply: Reply<H, U>,
)
    requires
        s.windows.sorted(),
    ensures
        open_step(s, ui, opening, reply).model.windows.ids() == match opening {
            Opening::AwaitWindow { id, .. } => s.windows.ids().insert(id),
            _ => s.windows.ids(),
        },
{
    reveal(open_step);
    if let Opening::AwaitWindow { id, raw, exit_on_close_request, .. } = opening {
        lemma_inserted(
            s.windows,
            Window {
                id,
                raw,
                exit_on_close_request,
                redraw_at: None,
                surface_version: reply->Window_surface_version,
                inner: reply->window,
            },
        );
    }
}

proof fn lemma_acting_ids<H: Host, U>(
    s: Model<H>,
    ui: Map<u64, U>,
    acting: Acting<H>,
    reply: Reply<H, U>,
)
    requires
        s.windows.sorted(),
    ensures
        act_step(s, ui, acting, reply).model.windows.ids() == match acting {
            Acting::Run(Action::Window(WindowAction::Close(id))) => s.windows.ids().remove(id),
            _ => s.windows.ids(),
        },
{
    lemma_acting_keeps(s, ui, acting, reply);
    if let Acting::Run(Action::Window(WindowAction::Close(id))) = acting {
        lemma_removed(s.windows, id);
    }
}

/// The run of an action keeps the windows, unless it closes one.
pub(crate) proof fn lemma_acting_keeps<H: Host, U>(
    s: Model<H>,
    ui: Map<u64, U>,
    acting: Acting<H>,
    reply: Reply<H, U>,
)
    ensures
        match acting {
            Acting::Run(Action::Window(WindowAction::Close(id))) => act_step(s, ui, acting, reply)
                == closed(s, ui, id),
            _ => keeps_windows(s, act_step(s, ui, acting, reply).model),
        },
        adds_messages(
            s,
            act_step(s, ui, acting, reply).model,
            match acting {
                Acting::Run(action) => put_out(action),
                _ => Seq::empty(),
            },
        ),
{
    assert(s.messages + Seq::<H::Message>::empty() =~= s.messages);
    match acting {
        Acting::Run(action) => {
            reveal(act_step);
            lemma_action_starts(s, ui, action);
            if let Action::Window(WindowAction::Close(_)) = action {
                reveal(action_step);
                reveal(window_action_step);
            }
        },
        Acting::Count => {
            reveal(act_step);
        },
        _ => lemma_acting_goes_on(s, ui, acting, reply),
    }
}

proof fn lemma_refreshed_windows<H: Host, U>(
    s: Model<H>,
    ui: Map<u64, U>,
    refresh: Refresh,
    reply: Reply<H, U>,
)
    ensures
        refresh_step(s, ui, refresh, reply).model.windows == s.windows,
{
    reveal(refresh_step);
}

proof fn lemma_frame_ids<H: Host, U>(s: Model<H>, ui: Map<u64, U>, frame: Frame, reply: Reply<H, U>)
    requires
        s.windows.sorted(),
        s.windows.has(framed(frame)),
    ensures
        frame_step(s, ui, frame, reply).model.windows.ids() == s.windows.ids(),
{
    reveal(frame_step);
    if let Frame::AwaitInspect { id } = frame {
        let version = reply->Inspected_surface_version;
        assert(s.windows.entries[s.windows.place(id)].id == id);
        lemma_replaced(s.windows, Window { surface_version: version, ..s.windows.at(id) });
    }
}

proof fn lemma_waiting_windows<H: Host, U>(
    s: Model<H>,
    ui: Map<u64, U>,
    waiting: Waiting,
    reply: Reply<H, U>,
)
    ensures
        wait_step(s, ui, waiting, reply).model.windows == s.windows,
{
    reveal(wait_step);
}

proof fn lemma_swept_ids<H: Host, U>(s: Model<H>, ui: Map<u64, U>, sweep: Sweep)
    requires
        s.windows.sorted(),
    ensures
        sweep_step(s, ui, sweep).model.windows.ids() == s.windows.ids(),
{
    reveal(sweep_step);
    if let Sweep::Expire { next, .. } = sweep {
        if next < s.windows.entries.len() {
            lemma_ids_parted(s.windows, next as int);
            lemma_requested(
                s.windows,
                s.windows.entries[next as int].id,
                RedrawRequest::NextFrame,
            );
        }
    }
}

/// A window that was drawn in time is not asked to be drawn again. Those whose time has come are, and
/// their time is forgotten.
pub proof fn expired_windows_are_redrawn<H: Host, U>(
    s: Model<H>,
    ui: Map<u64, U>,
    place: usize,
    now: u64,
)
    requires
        inv(s, ui),
        s.agenda.len() > 0,
        s.agenda[0] == Job::<H>::Sweep(Sweep::Expire { next: place, now }),
        place < s.windows.entries.len(),
    ensures
        ({
            let window = s.windows.entries[place as int];
            let next = step(s, ui, Reply::Done);
            let expired = window.redraw_at matches Some(time) && time <= now;
            &&& expired <==> next.command == Command::<H, U>::Effect(
                Effect::Window { id: window.id, op: WindowOp::RequestRedraw },
            )
            &&& next.model.windows.at(window.id).redraw_at == if expired {
                None
            } else {
                window.redraw_at
            }
        }),
{
    reveal(sweep_step);
    lemma_ids_parted(s.windows, place as int);
    let id = s.windows.entries[place as int].id;
    lemma_requested(s.windows, id, RedrawRequest::NextFrame);
    let there = s.windows.place(id);
    assert(s.windows.entries[there].id == id);
    if there < place {
        assert(s.windows.entries[there].id < s.windows.entries[place as int].id);
    } else if place < there {
        assert(s.windows.entries[place as int].id < s.windows.entries[there].id);
    }
    let windows = step(s, ui, Reply::Done).model.windows;
    assert(windows.entries[there].id == id);
    let other = windows.place(id);
    assert(windows.entries[other].id == id);
    assert(windows.sorted());
    if there < other {
        assert(windows.entries[there].id < windows.entries[other].id);
    } else if other < there {
        assert(windows.entries[other].id < windows.entries[there].id);
    }
}

/// A theme of the system is told of when it is another one, and noted in any case. Noting it once more
/// tells of nothing.
pub proof fn themes_are_told_once<H: Host>(s: Model<H>, mode: ThemeMode)
    ensures
        theme_noted(s, mode).0.system_theme == mode,
        theme_noted(s, mode).1 == if mode == s.system_theme {
            Seq::<Job<H>>::empty()
        } else {
            seq![Job::Emit(Effect::BroadcastTheme(mode))]
        },
        theme_noted(theme_noted(s, mode).0, mode) == (theme_noted(s, mode).0, Seq::<Job<H>>::empty()),
{
}

/// Room is made for exactly the actions that have been run.
pub proof fn every_action_makes_room<H: Host, U>(s: Model<H>, ui: Map<u64, U>)
    requires
        s.agenda.len() > 0,
        s.agenda[0] == Job::<H>::Waiting(Waiting::Release),
        0 <= s.actions <= usize::MAX,
    ensures
        step(s, ui, Reply::Done).model.actions == 0,
        s.actions > 0 ==> step(s, ui, Reply::Done).command == Command::<H, U>::Effect(
            Effect::FreeSlots(s.actions as usize),
        ),
        s.actions == 0 ==> step(s, ui, Reply::Done).command == Command::<H, U>::Proceed,
{
    reveal(wait_step);
}

/// While a frame is being drawn its window stays open: nothing that can close a window comes before
/// the frame is done.
pub proof fn nothing_closes_before_a_frame<H: Host, U>(
    s: Model<H>,
    ui: Map<u64, U>,
    frame: Frame,
    place: int,
)
    requires
        inv(s, ui),
        0 <= place < s.agenda.len(),
        s.agenda[place] == Job::<H>::Frame(frame),
    ensures
        s.windows.has(framed(frame)),
        forall|i: int| 0 <= i < place ==> !may_close(#[trigger] s.agenda[i]),
{
    assert(job_valid(s.windows, s.agenda[place]));
    assert(concerns(s.agenda[place]) is Some);
}

/// The events of one window are taken out of those of all windows: none is left, those of every other
/// window stay as they are, and none gets lost.
pub proof fn events_are_parted<E>(events: Seq<(u64, UiEvent<E>)>, id: u64)
    ensures
        events_of(events_but(events, id), id) == Seq::<UiEvent<E>>::empty(),
        forall|other: u64|
            other != id ==> #[trigger] events_of(events_but(events, id), other) == events_of(
                events,
                other,
            ),
        events_of(events, id).len() + events_but(events, id).len() == events.len(),
    decreases events.len(),
{
    reveal(Seq::filter);
    if events.len() > 0 {
        let front = events.drop_last();
        events_are_parted(front, id);
        lemma_last_event(events, id);
        assert forall|other: u64| other != id implies #[trigger] events_of(
            events_but(events, id),
            other,
        ) == events_of(events, other) by {
            lemma_last_event(events, other);
            if events.last().0 != id {
                lemma_last_event(events_but(events, id), other);
                assert(events_but(events, id).drop_last() =~= events_but(front, id));
            }
        }
        if events.last().0 != id {
            lemma_last_event(events_but(events, id), id);
            assert(events_but(events, id).drop_last() =~= events_but(front, id));
        }
    } else {
        assert(events_of(events_but(events, id), id) =~= Seq::<UiEvent<E>>::empty());
        assert forall|other: u64| other != id implies #[trigger] events_of(
            events_but(events, id),
            other,
        ) == events_of(events, other) by {
            assert(events_but(events, id) =~= events);
        }
    }
}

/// The last event either is one of a window or is left among those of the others.
pub(crate) proof fn lemma_last_event<E>(events: Seq<(u64, UiEvent<E>)>, id: u64)
    requires
        events.len() > 0,
    ensures
        events.last().0 == id ==> {
            &&& events_of(events, id) == events_of(events.drop_last(), id).push(events.last().1)
            &&& events_but(events, id) == events_but(events.drop_last(), id)
        },
        events.last().0 != id ==> {
            &&& events_of(events, id) == events_of(events.drop_last(), id)
            &&& events_but(events, id) == events_but(events.drop_last(), id).push(events.last())
        },
{
    reveal(Seq::filter);
    if events.last().0 == id {
        assert(events_of(events, id) =~= events_of(events.drop_last(), id).push(events.last().1));
    }
}

/// The state after some steps that are all answered with [`Reply::Done`].
pub open spec fn state_after<H: Host, U>(s: Model<H>, ui: Map<u64, U>, steps: nat) -> Model<H>
    decreases steps,
{
    if steps == 0 {
        s
    } else {
        let next = step(s, ui, Reply::Done);
        state_after(next.model, next.interfaces, (steps - 1) as nat)
    }
}

/// The commands of some steps that are all answered with [`Reply::Done`].
pub open spec fn commands_of<H: Host, U>(
    s: Model<H>,
    ui: Map<u64, U>,
    steps: nat,
) -> Seq<Command<H, U>>
    decreases steps,
{
    if steps == 0 {
        Seq::empty()
    } else {
        let next = step(s, ui, Reply::Done);
        seq![next.command] + commands_of(next.model, next.interfaces, (steps - 1) as nat)
    }
}

/// The news of events that a user interface was shown, each with what the user interface did with it.
pub open spec fn news_of_shown<H: Host, U>(
    id: u64,
    events: Seq<UiEvent<H::Event>>,
    statuses: Seq<Status>,
) -> Seq<Command<H, U>> {
    Seq::new(
        if events.len() <= statuses.len() {
            events.len()
        } else {
            statuses.len()
        },
        |i: int|
            Command::Effect(Effect::Broadcast { id, event: events[i], status: statuses[i] }),
    )
}

/// The events that a user interface was shown are told of one by one, in order, each with what became
/// of it. The next job follows.
pub proof fn shown_events_are_told_in_order<H: Host, U>(s: Model<H>, ui: Map<u64, U>, id: u64)
    requires
        s.agenda.len() > 0,
        s.agenda[0] == Job::<H>::Waiting(Waiting::BroadcastShown { id }),
    ensures
        ({
            let news = news_of_shown::<H, U>(id, s.window_events, s.statuses);
            &&& commands_of(s, ui, news.len() + 1) == news.push(Command::Proceed)
            &&& state_after(s, ui, news.len() + 1) == (Model {
                window_events: Seq::empty(),
                statuses: Seq::empty(),
                ..rest_of(s)
            })
        }),
    decreases s.window_events.len(),
{
    reveal(wait_step);
    let news = news_of_shown::<H, U>(id, s.window_events, s.statuses);
    let next = step(s, ui, Reply::Done);
    assert(next.interfaces == ui);
    assert(state_after(next.model, ui, 0) == next.model);
    if s.window_events.len() > 0 && s.statuses.len() > 0 {
        let job = Job::<H>::Waiting(Waiting::BroadcastShown { id });
        assert(next.model.agenda =~= s.agenda) by {
            assert(s.agenda =~= seq![job] + s.agenda.drop_first());
        }
        shown_events_are_told_in_order(next.model, ui, id);
        let rest = news_of_shown::<H, U>(id, next.model.window_events, next.model.statuses);
        assert(news =~= seq![news[0]] + rest);
        assert(news.push(Command::Proceed) =~= seq![news[0]] + rest.push(Command::Proceed));
        assert(news.len() == rest.len() + 1);
    } else {
        assert(news =~= Seq::empty());
        assert(first_do(rest_of(s), seq![]).agenda =~= rest_of(s).agenda);
        assert(commands_of(next.model, ui, 0) =~= Seq::empty());
        assert(commands_of(s, ui, 1) =~= seq![Command::<H, U>::Proceed]);
        assert(news.push(Command::Proceed) =~= seq![Command::<H, U>::Proceed]);
    }
}

/// The news of events that belong to no open window. No user interface made use of them.
pub open spec fn news_of_rest<H: Host, U>(events: Seq<(u64, UiEvent<H::Event>)>) -> Seq<
    Command<H, U>,
> {
    Seq::new(
        events.len(),
        |i: int|
            Command::Effect(
                Effect::Broadcast { id: events[i].0, event: events[i].1, status: Status::Ignored },
            ),
    )
}

/// All events that are left when every window has been shown its own are told of, in order. None is
/// left then.
pub proof fn remaining_events_are_told_in_order<H: Host, U>(s: Model<H>, ui: Map<u64, U>)
    requires
        s.agenda.len() > 0,
        s.agenda[0] == Job::<H>::Waiting(Waiting::BroadcastRest),
    ensures
        ({
            let news = news_of_rest::<H, U>(s.events);
            &&& commands_of(s, ui, news.len() + 1) == news.push(Command::Proceed)
            &&& state_after(s, ui, news.len() + 1) == (Model {
                events: Seq::empty(),
                ..rest_of(s)
            })
        }),
    decreases s.events.len(),
{
    reveal(wait_step);
    let news = news_of_rest::<H, U>(s.events);
    let next = step(s, ui, Reply::Done);
    assert(next.interfaces == ui);
    assert(state_after(next.model, ui, 0) == next.model);
    if s.events.len() > 0 {
        let job = Job::<H>::Waiting(Waiting::BroadcastRest);
        assert(next.model.agenda =~= s.agenda) by {
            assert(s.agenda =~= seq![job] + s.agenda.drop_first());
        }
        remaining_events_are_told_in_order(next.model, ui);
        let rest = news_of_rest::<H, U>(next.model.events);
        assert(news =~= seq![news[0]] + rest);
        assert(news.push(Command::Proceed) =~= seq![news[0]] + rest.push(Command::Proceed));
        assert(news.len() == rest.len() + 1);
    } else {
        assert(news =~= Seq::empty());
        assert(s.events =~= Seq::empty());
        assert(first_do(rest_of(s), seq![]).agenda =~= rest_of(s).agenda);
        assert(commands_of(next.model, ui, 0) =~= Seq::empty());
        assert(commands_of(s, ui, 1) =~= seq![Command::<H, U>::Proceed]);
        assert(news.push(Command::Proceed) =~= seq![Command::<H, U>::Proceed]);
    }
}

/// The requests that ask the windows from a place on to be drawn again, all but one.
pub open spec fn redraws_from<H: Host, U>(
    windows: Windows<H::Window>,
    place: int,
    except: Option<u64>,
) -> Seq<Command<H, U>> {
    Seq::new(
        (windows.entries.len() - place) as nat,
        |i: int|
            {
                let id = windows.entries[place + i].id;
                if except == Some(id) {
                    Command::Proceed
                } else {
                    Command::Effect(Effect::Window { id, op: WindowOp::RequestRedraw })
                }
            },
    )
}

/// Every window is asked to be drawn again, but for the one that is being drawn already, if any.
pub proof fn every_window_is_redrawn<H: Host, U>(
    s: Model<H>,
    ui: Map<u64, U>,
    place: usize,
    except: Option<u64>,
)
    requires
        s.agenda.len() > 0,
        s.agenda[0] == Job::<H>::Sweep(Sweep::Redraw { next: place, except }),
        place <= s.windows.entries.len() <= usize::MAX,
    ensures
        ({
            let requests = redraws_from::<H, U>(s.windows, place as int, except);
            &&& commands_of(s, ui, requests.len() + 1) == requests.push(Command::Proceed)
            &&& state_after(s, ui, requests.len() + 1) == rest_of(s)
        }),
    decreases s.windows.entries.len() - place,
{
    reveal(sweep_step);
    let requests = redraws_from::<H, U>(s.windows, place as int, except);
    let next = step(s, ui, Reply::Done);
    assert(next.interfaces == ui);
    assert(state_after(next.model, ui, 0) == next.model);
    if place < s.windows.entries.len() {
        let job = Job::<H>::Sweep(Sweep::Redraw { next: after(place), except });
        assert(next.model.agenda =~= seq![job] + s.agenda.drop_first());
        every_window_is_redrawn(next.model, ui, after(place), except);
        assert(rest_of(next.model).agenda =~= rest_of(s).agenda);
        assert(rest_of(next.model) =~= rest_of(s));
        let rest = redraws_from::<H, U>(s.windows, place + 1, except);
        assert(requests =~= seq![requests[0]] + rest);
        assert(requests.push(Command::Proceed) =~= seq![requests[0]] + rest.push(Command::Proceed));
        assert(requests.len() == rest.len() + 1);
    } else {
        assert(requests =~= Seq::empty());
        assert(first_do(rest_of(s), seq![]).agenda =~= rest_of(s).agenda);
        assert(commands_of(next.model, ui, 0) =~= Seq::empty());
        assert(commands_of(s, ui, 1) =~= seq![Command::<H, U>::Proceed]);
        assert(requests.push(Command::Proceed) =~= seq![Command::<H, U>::Proceed]);
    }
}

/// Whether a name of the system is that of an open window.
pub open spec fn is_open<W>(windows: Windows<W>, raw: u64) -> bool {
    exists|id: u64| #[trigger] windows.has(id) && windows.at(id).raw == raw
}

/// Whether the clipboard is connected to an open window, if it is connected at all.
pub open spec fn attached<H: Host>(s: Model<H>) -> bool {
    s.clipboard matches Some(raw) ==> is_open(s.windows, raw)
}

/// Changing what an open window holds keeps the names of the windows.
pub(crate) proof fn lemma_names_kept<W>(before: Windows<W>, window: Window<W>)
    requires
        before.sorted(),
        before.has(window.id),
        window.raw == before.at(window.id).raw,
    ensures
        forall|raw: u64| #[trigger]
            is_open(before, raw) ==> is_open(before.replaced(window), raw),
{
    let after = before.replaced(window);
    lemma_replaced(before, window);
    lemma_same_ids(before, after);
    assert(before.entries[before.place(window.id)].id == window.id);
    assert forall|raw: u64| #[trigger] is_open(before, raw) implies is_open(after, raw) by {
        let id = choose|id: u64| #[trigger] before.has(id) && before.at(id).raw == raw;
        assert(after.has(id));
        let place = before.place(id);
        assert(before.entries[place].id == id);
        assert(after.entries[place].id == id);
        lemma_place(after, place);
        lemma_place(before, place);
        assert(after.at(id).raw == raw);
    }
}

/// A redraw that is asked for keeps the names of the windows.
proof fn lemma_names_asked<W>(before: Windows<W>, id: u64, request: RedrawRequest)
    requires
        before.sorted(),
        before.has(id),
    ensures
        forall|raw: u64| #[trigger]
            is_open(before, raw) ==> is_open(before.requested(id, request), raw),
{
    assert(before.entries[before.place(id)].id == id);
    lemma_names_kept(before, Window { redraw_at: None, ..before.at(id) });
    if let RedrawRequest::At(time) = request {
        lemma_names_kept(before, Window { redraw_at: Some(time), ..before.at(id) });
    }
}

/// The clipboard is only ever connected to an open window, as long as no window is opened under the
/// identifier of another one.
pub proof fn clipboard_stays_attached<H: Host, U>(s: Model<H>, ui: Map<u64, U>, reply: Reply<H, U>)
    requires
        inv(s, ui),
        attached(s),
        accepts(s, reply),
        s.agenda.len() > 0,
        s.agenda[0] matches Job::Opening(Opening::AwaitWindow { id, .. }) ==> !s.windows.has(id),
    ensures
        attached(step(s, ui, reply).model),
{
    let rest = rest_of(s);
    assert(job_valid(s.windows, s.agenda[0]));
    match s.agenda[0] {
        Job::Opening(opening) => lemma_opening_attached(rest, ui, opening, reply),
        Job::Acting(acting) => lemma_acting_attached(rest, ui, acting, reply),
        Job::Sweep(sweep) => {
            reveal(sweep_step);
            if let Sweep::Expire { next, .. } = sweep {
                if next < s.windows.entries.len() {
                    lemma_ids_parted(s.windows, next as int);
                    let id = s.windows.entries[next as int].id;
                    lemma_names_asked(s.windows, id, RedrawRequest::NextFrame);
                }
            }
        },
        Job::Refresh(refresh) => {
            reveal(refresh_step);
        },
        Job::RunCollected { .. } => {
            reveal(collected_step);
        },
        Job::Frame(frame) => {
            reveal(frame_step);
            if let Frame::AwaitInspect { id } = frame {
                let version = reply->Inspected_surface_version;
                assert(s.windows.entries[s.windows.place(id)].id == id);
                lemma_names_kept(
                    s.windows,
                    Window { surface_version: version, ..s.windows.at(id) },
                );
            }
        },
        Job::Waiting(waiting) => {
            reveal(wait_step);
        },
        Job::RequestRedraw { id, request } => {
            reveal(single_step);
            lemma_names_asked(s.windows, id, request);
        },
        _ => {
            reveal(single_step);
        },
    }
}

proof fn lemma_opening_attached<H: Host, U>(
    s: Model<H>,
    ui: Map<u64, U>,
    opening: Opening<H>,
    reply: Reply<H, U>,
)
    requires
        s.windows.sorted(),
        attached(s),
        opening matches Opening::AwaitWindow { id, .. } ==> !s.windows.has(id),
    ensures
        attached(open_step(s, ui, opening, reply).model),
{
    reveal(open_step);
    if let Opening::AwaitWindow { id, raw, exit_on_close_request, .. } = opening {
        let window = Window {
            id,
            raw,
            exit_on_close_request,
            redraw_at: None,
            surface_version: reply->Window_surface_version,
            inner: reply->window,
        };
        let windows = s.windows.inserted(window);
        lemma_inserted(s.windows, window);
        if let Some(name) = s.clipboard {
            let other = choose|other: u64| #[trigger]
                s.windows.has(other) && s.windows.at(other).raw == name;
            assert(windows.ids().contains(other));
            assert(windows.has(other));
            assert(windows.at(other).raw == name);
        }
    }
}

proof fn lemma_acting_attached<H: Host, U>(
    s: Model<H>,
    ui: Map<u64, U>,
    acting: Acting<H>,
    reply: Reply<H, U>,
)
    requires
        s.windows.sorted(),
        attached(s),
    ensures
        attached(act_step(s, ui, acting, reply).model),
{
    lemma_acting_keeps(s, ui, acting, reply);
    if let Acting::Run(Action::Window(WindowAction::Close(id))) = acting {
        let windows = s.windows.removed(id);
        lemma_removed(s.windows, id);
        if let Some(name) = closed(s, ui, id).model.clipboard {
            let other = choose|other: u64| #[trigger]
                s.windows.has(other) && s.windows.at(other).raw == name;
            assert(s.windows.ids().contains(other));
            assert(windows.ids().contains(other));
            assert(windows.has(other));
            assert(windows.at(other).raw == name);
        }
    }
}

/// Whether a job has a window drawn again, now or at a set time.
pub open spec fn has_drawn<H: Host>(job: Job<H>, id: u64) -> bool {
    match job {
        Job::RequestRedraw { id: other, request } => other == id && request != RedrawRequest::Wait,
        _ => job == emit::<H>(id, WindowOp::RequestRedraw),
    }
}

/// On iOS every window that was shown events is drawn again, whether or not its user interface asks
/// for it.
pub proof fn ios_draws_after_events<H: Host>(config: Config, id: u64, state: UiState<H>)
    requires
        config.platform == Platform::Ios,
    ensures
        exists|i: int|
            0 <= i < shown(config, id, true, state).len() && has_drawn(
                #[trigger] shown(config, id, true, state)[i],
                id,
            ),
{
    let jobs = shown(config, id, true, state);
    if config.unconditional_rendering {
        assert(has_drawn(jobs[0], id));
    } else {
        match state {
            UiState::Updated { redraw_request, .. } => {
                if redraw_request == RedrawRequest::Wait {
                    assert(has_drawn(jobs[2], id));
                } else {
                    assert(has_drawn(jobs[1], id));
                }
            },
            UiState::Outdated => {
                assert(has_drawn(jobs[0], id));
            },
        }
    }
}

/// An application that has nothing to deliver, nothing to apply and nothing to draw rests: all it does
/// before it waits is to make room for more actions.
pub proof fn idle_applications_rest<H: Host, U>(s: Model<H>, ui: Map<u64, U>)
    requires
        s.agenda.len() == 0,
        s.events.len() == 0,
        s.messages.len() == 0,
        s.windows.idle(),
        0 <= s.actions <= usize::MAX,
    ensures
        ({
            let told = received(s, Event::AboutToWait);
            let room = if s.actions > 0 {
                Command::Effect(Effect::FreeSlots(s.actions as usize))
            } else {
                Command::Proceed
            };
            &&& commands_of(told, ui, 2) == seq![room, Command::<H, U>::Proceed]
            &&& state_after(told, ui, 2) == (Model { actions: 0, ..s })
        }),
{
    reveal(wait_step);
    reveal_with_fuel(commands_of, 3);
    reveal_with_fuel(state_after, 3);
    let told = received(s, Event::AboutToWait);
    let next = step(told, ui, Reply::Done);
    assert(told.agenda.drop_first() =~= s.agenda);
    assert(next.model.agenda =~= seq![Job::<H>::Waiting(Waiting::Check)]);
    let last = step(next.model, next.interfaces, Reply::Done);
    assert(last.model.agenda =~= s.agenda);
    let room = if s.actions > 0 {
        Command::Effect(Effect::FreeSlots(s.actions as usize))
    } else {
        Command::Proceed
    };
    assert(commands_of(told, ui, 2) =~= seq![room, Command::<H, U>::Proceed]);
}

/// What becomes of the time at which a window is to be drawn again, when it is asked whether that time
/// has come.
pub open spec fn time_left(redraw_at: Option<u64>, now: u64) -> Option<u64> {
    match redraw_at {
        Some(time) if time <= now => None,
        _ => redraw_at,
    }
}

/// Once every window has been asked, the times that have come are forgotten and the others stay.
pub proof fn times_that_have_come_are_forgotten<H: Host, U>(
    s: Model<H>,
    ui: Map<u64, U>,
    place: usize,
    now: u64,
)
    requires
        s.windows.sorted(),
        s.agenda.len() > 0,
        s.agenda[0] == Job::<H>::Sweep(Sweep::Expire { next: place, now }),
        place <= s.windows.entries.len() <= usize::MAX,
    ensures
        ({
            let after = state_after(s, ui, (s.windows.entries.len() - place + 1) as nat);
            &&& after == (Model { windows: after.windows, ..rest_of(s) })
            &&& after.windows.aliases == s.windows.aliases
            &&& after.windows.entries.len() == s.windows.entries.len()
            &&& forall|i: int|
                0 <= i < s.windows.entries.len() ==> #[trigger] after.windows.entries[i] == if i
                    < place {
                    s.windows.entries[i]
                } else {
                    Window {
                        redraw_at: time_left(s.windows.entries[i].redraw_at, now),
                        ..s.windows.entries[i]
                    }
                }
        }),
    decreases s.windows.entries.len() - place,
{
    reveal(sweep_step);
    let next = step(s, ui, Reply::Done);
    let steps = (s.windows.entries.len() - place + 1) as nat;
    assert(next.interfaces == ui);
    if place < s.windows.entries.len() {
        let window = s.windows.entries[place as int];
        lemma_place(s.windows, place as int);
        lemma_requested(s.windows, window.id, RedrawRequest::NextFrame);
        let job = Job::<H>::Sweep(Sweep::Expire { next: after(place), now });
        assert(next.model.agenda =~= seq![job] + s.agenda.drop_first());
        times_that_have_come_are_forgotten(next.model, ui, after(place), now);
        assert(rest_of(next.model).agenda =~= rest_of(s).agenda);
        let end = state_after(s, ui, steps);
        assert(end == state_after(next.model, ui, (steps - 1) as nat));
        assert forall|i: int| 0 <= i < s.windows.entries.len() && i != place implies
            #[trigger] next.model.windows.entries[i] == s.windows.entries[i] by {}
    } else {
        assert(first_do(rest_of(s), seq![]).agenda =~= rest_of(s).agenda);
        assert(state_after(next.model, ui, 0) == next.model);
    }
}

/// When the event loop woke up because a time had come, it is not told to wait for a time that has come
/// already.
pub proof fn the_event_loop_waits_for_times_to_come<H: Host, U>(
    s: Model<H>,
    ui: Map<u64, U>,
    now: u64,
)
    requires
        s.windows.sorted(),
        s.windows.entries.len() <= usize::MAX,
        s.agenda.len() == 0,
    ensures
        ({
            let event = Event::NewEvents { cause: StartCause::ResumeTimeReached, now };
            let swept = state_after(received(s, event), ui, s.windows.entries.len() + 1);
            let flow = flow_of(swept);
            &&& step(swept, ui, Reply::Done).command == Command::<H, U>::Effect(
                Effect::Control(Control::ChangeFlow(flow)),
            )
            &&& flow matches ControlFlow::WaitUntil(time) ==> time > now
            &&& flow != ControlFlow::Poll
        }),
{
    reveal(single_step);
    let event = Event::NewEvents { cause: StartCause::ResumeTimeReached, now };
    let told = received(s, event);
    assert(told.agenda =~= seq![
        Job::<H>::Sweep(Sweep::Expire { next: 0, now }),
        Job::<H>::Flow,
    ]);
    times_that_have_come_are_forgotten(told, ui, 0, now);
    let swept = state_after(told, ui, s.windows.entries.len() + 1);
    assert(swept.agenda =~= seq![Job::<H>::Flow]);
    redraw_at_is_earliest(swept.windows);
    if let Some(time) = swept.windows.redraw_at() {
        let i = choose|i: int|
            0 <= i < swept.windows.entries.len() && (#[trigger] swept.windows.entries[i]).redraw_at
                == swept.windows.redraw_at();
        assert(swept.windows.entries[i].redraw_at == time_left(
            s.windows.entries[i].redraw_at,
            now,
        ));
    }
}

/// Messages do not get lost. A step adds some behind those that are there, or hands all of them to the
/// update of the program.
pub proof fn messages_wait_for_their_update<H: Host, U>(
    s: Model<H>,
    ui: Map<u64, U>,
    reply: Reply<H, U>,
)
    requires
        s.agenda.len() > 0,
    ensures
        ({
            let next = step(s, ui, reply).model;
            match s.agenda[0] {
                Job::Refresh(Refresh::Caching { next: place }) if place
                    >= s.windows.entries.len() => next.messages.len() == 0 && next.update
                    == starting::<H::Message, Action<H>>(s.messages),
                _ => s.messages.is_prefix_of(next.messages),
            }
        }),
{
    let rest = rest_of(s);
    match s.agenda[0] {
        Job::Opening(opening) => lemma_opening_queues(rest, ui, opening, reply),
        Job::Acting(acting) => lemma_acting_queues(rest, ui, acting, reply),
        Job::Sweep(_) => {
            reveal(sweep_step);
        },
        Job::Refresh(refresh) => lemma_refresh_queues(rest, ui, refresh, reply),
        Job::RunCollected { .. } => {
            reveal(collected_step);
        },
        Job::Frame(frame) => lemma_frame_queues(rest, ui, frame, reply),
        Job::Waiting(waiting) => {
            reveal(wait_step);
        },
        _ => {
            reveal(single_step);
        },
    }
}

/// Events do not get lost. A step adds some behind those that are there, takes out those that a user
/// interface is to be shown, or takes out the one that it tells of.
pub proof fn events_wait_for_their_delivery<H: Host, U>(
    s: Model<H>,
    ui: Map<u64, U>,
    reply: Reply<H, U>,
)
    requires
        s.agenda.len() > 0,
    ensures
        ({
            let next = step(s, ui, reply);
            match s.agenda[0] {
                Job::Waiting(Waiting::Deliver { next: place, .. }) if place
                    < s.windows.entries.len() => {
                    let id = s.windows.entries[place as int].id;
                    let mine = events_of(s.events, id);
                    &&& next.model.events == events_but(s.events, id)
                    &&& mine.len() > 0 ==> next.model.window_events == mine && next.command
                        == Command::<H, U>::Interact { id }
                },
                Job::Waiting(Waiting::BroadcastRest) if s.events.len() > 0 => {
                    &&& next.model.events == s.events.drop_first()
                    &&& next.command == Command::<H, U>::Effect(
                        Effect::Broadcast {
                            id: s.events[0].0,
                            event: s.events[0].1,
                            status: Status::Ignored,
                        },
                    )
                },
                _ => s.events.is_prefix_of(next.model.events),
            }
        }),
{
    let rest = rest_of(s);
    match s.agenda[0] {
        Job::Opening(opening) => lemma_opening_queues(rest, ui, opening, reply),
        Job::Acting(acting) => lemma_acting_queues(rest, ui, acting, reply),
        Job::Sweep(_) => {
            reveal(sweep_step);
        },
        Job::Refresh(refresh) => lemma_refresh_queues(rest, ui, refresh, reply),
        Job::RunCollected { .. } => {
            reveal(collected_step);
        },
        Job::Frame(frame) => lemma_frame_queues(rest, ui, frame, reply),
        Job::Waiting(waiting) => {
            reveal(wait_step);
        },
        _ => {
            reveal(single_step);
        },
    }
}

proof fn lemma_opening_queues<H: Host, U>(
    s: Model<H>,
    ui: Map<u64, U>,
    opening: Opening<H>,
    reply: Reply<H, U>,
)
    ensures
        open_step(s, ui, opening, reply).model.messages == s.messages,
        s.events.is_prefix_of(open_step(s, ui, opening, reply).model.events),
{
    reveal(open_step);
}

proof fn lemma_acting_queues<H: Host, U>(
    s: Model<H>,
    ui: Map<u64, U>,
    acting: Acting<H>,
    reply: Reply<H, U>,
)
    ensures
        s.messages.is_prefix_of(act_step(s, ui, acting, reply).model.messages),
        s.events.is_prefix_of(act_step(s, ui, acting, reply).model.events),
{
    lemma_acting_keeps(s, ui, acting, reply);
}

proof fn lemma_refresh_queues<H: Host, U>(
    s: Model<H>,
    ui: Map<u64, U>,
    refresh: Refresh,
    reply: Reply<H, U>,
)
    ensures
        refresh_step(s, ui, refresh, reply).model.events == s.events,
        match refresh {
            Refresh::Caching { next } if next >= s.windows.entries.len() => {
                &&& refresh_step(s, ui, refresh, reply).model.messages.len() == 0
                &&& refresh_step(s, ui, refresh, reply).model.update == starting::<
                    H::Message,
                    Action<H>,
                >(s.messages)
            },
            _ => refresh_step(s, ui, refresh, reply).model.messages == s.messages,
        },
{
    reveal(refresh_step);
}

proof fn lemma_frame_queues<H: Host, U>(
    s: Model<H>,
    ui: Map<u64, U>,
    frame: Frame,
    reply: Reply<H, U>,
)
    ensures
        s.messages.is_prefix_of(frame_step(s, ui, frame, reply).model.messages),
        frame_step(s, ui, frame, reply).model.events == s.events,
{
    reveal(frame_step);
}

} // verus!
