//! How an application starts, takes in what its windows were shown and updates its program.

use super::course::with_jobs;
use super::laws::{commands_of, every_window_is_redrawn, lemma_last_event, redraws_from, state_after};
use super::model::{
    collected_step, events_but, events_of, initial, received, refresh_step, rest_of, wait_step,
    with_window, Next,
};
use super::whole::{begun, go, is_about_to};
use super::{
    Command, Config, Effect, Event, Job, Model, Refresh, Reply, StartCause, Sweep, UiEvent, Waiting,
    WindowOp,
};
use crate::action::Action;
use crate::conversion::ThemeMode;
use crate::host::Host;
use crate::rebuild::{build_step, BuildPhase, BuildStep};
use crate::update::{update_step, UpdatePhase, UpdateReply, UpdateStep, UpdateView};
use crate::window_man::{lemma_place, lemma_replaced, replacing_touches_one_window, Window};
use vstd::prelude::*;

verus! {

/// An application starts without a window, a compositor, a clipboard, an event or a message, and has
/// nothing to do. It counts on a first window unless it is a daemon, and takes the theme of the system
/// to be dark.
pub proof fn applications_start_with_nothing<H: Host>(config: Config)
    ensures
        ({
            let s = initial::<H>(config);
            &&& s.config == config
            &&& s.is_window_opening != config.is_daemon
            &&& s.system_theme == ThemeMode::Dark
            &&& s.windows.entries.len() == 0
            &&& s.windows.aliases == Map::<u64, u64>::empty()
            &&& !s.compositor
            &&& s.clipboard is None
            &&& s.events.len() == 0
            &&& s.messages.len() == 0
            &&& s.actions == 0
            &&& s.ui_caches == Map::<u64, H::Cache>::empty()
            &&& s.caches == Map::<u64, H::Cache>::empty()
            &&& s.collected.len() == 0
            &&& s.window_events.len() == 0
            &&& s.statuses.len() == 0
            &&& !s.finished
            &&& s.agenda.len() == 0
        }),
{
}

/// An application that has nothing to do stays as it is and says so.
pub proof fn settled_applications_are_idle<H: Host, U>(now: Next<H, U>, reply: Reply<H, U>)
    requires
        now.model.agenda.len() == 0,
    ensures
        go(now, reply) == (Next { command: Command::Idle, ..now }),
{
}

/// When what an open window holds is changed, it holds that from then on. Nothing else about the window
/// changes, nothing about another one, and nothing about the rest of the application.
pub proof fn windows_hold_what_they_are_given<H: Host>(s: Model<H>, id: u64, inner: H::Window)
    requires
        s.windows.sorted(),
        s.windows.has(id),
    ensures
        ({
            let next = with_window(s, id, inner);
            &&& next == (Model { windows: next.windows, ..s })
            &&& next.windows.ids() == s.windows.ids()
            &&& next.windows.aliases == s.windows.aliases
            &&& next.windows.at(id) == (Window { inner, ..s.windows.at(id) })
            &&& forall|other: u64|
                #![trigger next.windows.at(other)]
                other != id && s.windows.has(other) ==> next.windows.at(other) == s.windows.at(other)
        }),
{
    let window = Window { inner, ..s.windows.at(id) };
    lemma_place(s.windows, s.windows.place(id));
    lemma_replaced(s.windows, window);
    replacing_touches_one_window(s.windows, window);
}

/// An event changes nothing by itself but what is to be done. Only a theme of the system is noted right
/// away, and only the end of the event loop ends the application.
pub proof fn events_only_lead_to_jobs<H: Host>(s: Model<H>, event: Event<H>)
    ensures
        ({
            let next = received(s, event);
            &&& next == (Model {
                agenda: next.agenda,
                system_theme: next.system_theme,
                finished: next.finished,
                ..s
            })
            &&& next.finished <==> s.finished || event is Exit
            &&& next.system_theme != s.system_theme ==> (event matches Event::WindowEvent { raw, input }
                && input is ThemeChanged && s.windows.alias(raw) is Some)
        }),
{
}

/// Before an application waits, room is made for as many actions as have been run, if any has. Then it
/// is checked whether an event or a message waits or a window is to be drawn at a set time. If so, the
/// windows are gone through from the first one on. If not, there is nothing to do.
pub proof fn waits_begin_with_a_check<H: Host, U>(now: Next<H, U>, window: int)
    requires
        now.model.agenda.len() > 0,
        0 <= now.model.actions <= usize::MAX,
    ensures
        ({
            let s = now.model;
            let rest = s.agenda.drop_first();
            let next = go(now, Reply::Done);
            let shows = Next {
                model: with_jobs(
                    s,
                    seq![Job::<H>::Waiting(Waiting::Deliver { next: 0, stale: false })] + rest,
                ),
                interfaces: now.interfaces,
                command: Command::<H, U>::Proceed,
            };
            &&& s.agenda[0] == Job::<H>::Waiting(Waiting::Release) ==> next == (Next {
                model: Model {
                    actions: 0,
                    agenda: seq![Job::<H>::Waiting(Waiting::Check)] + rest,
                    ..s
                },
                interfaces: now.interfaces,
                command: if s.actions == 0 {
                    Command::<H, U>::Proceed
                } else {
                    Command::<H, U>::Effect(Effect::FreeSlots(s.actions as usize))
                },
            })
            &&& s.agenda[0] == Job::<H>::Waiting(Waiting::Check) ==> {
                &&& s.events.len() > 0 || s.messages.len() > 0 ==> next == shows
                &&& 0 <= window < s.windows.entries.len() && s.windows.entries[window].redraw_at is Some
                    ==> next == shows
                &&& s.events.len() == 0 && s.messages.len() == 0 && (forall|i: int|
                    0 <= i < s.windows.entries.len() ==> (
                    #[trigger] s.windows.entries[i]).redraw_at is None) ==> next == (Next {
                    model: rest_of(s),
                    interfaces: now.interfaces,
                    command: Command::<H, U>::Proceed,
                })
            }
        }),
{
    reveal(wait_step);
    let rest = now.model.agenda.drop_first();
    assert(Seq::<Job<H>>::empty() + rest =~= rest);
}

/// When the event loop starts, every open window is asked to be drawn, in order, and nothing else is
/// done.
pub proof fn windows_are_drawn_at_the_start<H: Host, U>(s: Model<H>, ui: Map<u64, U>, now: u64)
    requires
        s.agenda.len() == 0,
        s.windows.entries.len() <= usize::MAX,
    ensures
        ({
            let n = s.windows.entries.len();
            let start = begun(s, ui, Event::NewEvents { cause: StartCause::Init, now });
            let commands = commands_of(start.model, ui, n + 1);
            &&& state_after(start.model, ui, n + 1) == s
            &&& commands.len() == n + 1
            &&& forall|i: int|
                0 <= i < n ==> commands[i] == Command::<H, U>::Effect(
                    Effect::Window {
                        id: (#[trigger] s.windows.entries[i]).id,
                        op: WindowOp::RequestRedraw,
                    },
                )
            &&& commands[n as int] == Command::<H, U>::Proceed
        }),
{
    let start = begun(s, ui, Event::NewEvents { cause: StartCause::Init, now });
    let job = Job::<H>::Sweep(Sweep::Redraw { next: 0, except: None });
    assert(start.model.agenda =~= seq![job]);
    every_window_is_redrawn(start.model, ui, 0, None);
    assert(rest_of(start.model).agenda =~= s.agenda);
    assert(rest_of(start.model) == s);
    assert(redraws_from::<H, U>(s.windows, 0, None).len() == s.windows.entries.len());
}

/// An event that comes behind others comes behind those of its own window, and leaves those of every
/// other window as they are.
pub proof fn events_keep_their_order<E>(
    events: Seq<(u64, UiEvent<E>)>,
    to: u64,
    event: UiEvent<E>,
    id: u64,
)
    ensures
        events_of(Seq::<(u64, UiEvent<E>)>::empty(), id).len() == 0,
        events_but(Seq::<(u64, UiEvent<E>)>::empty(), id).len() == 0,
        to == id ==> {
            &&& events_of(events.push((to, event)), id) == events_of(events, id).push(event)
            &&& events_but(events.push((to, event)), id) == events_but(events, id)
        },
        to != id ==> {
            &&& events_of(events.push((to, event)), id) == events_of(events, id)
            &&& events_but(events.push((to, event)), id) == events_but(events, id).push((to, event))
        },
{
    reveal(Seq::filter);
    lemma_last_event(events.push((to, event)), id);
    assert(events.push((to, event)).drop_last() =~= events);
}

/// A window is passed over exactly if no event is for it.
proof fn lemma_has_some<E>(events: Seq<(u64, UiEvent<E>)>, id: u64)
    ensures
        events_of(events, id).len() > 0 <==> exists|i: int|
            0 <= i < events.len() && (#[trigger] events[i]).0 == id,
        events_of(events, id).len() == 0 ==> events_but(events, id) == events,
    decreases events.len(),
{
    reveal(Seq::filter);
    if events.len() > 0 {
        let front = events.drop_last();
        lemma_has_some(front, id);
        lemma_last_event(events, id);
        assert(events.last() == events[events.len() - 1]);
        if events.last().0 != id {
            if exists|i: int| 0 <= i < events.len() && (#[trigger] events[i]).0 == id {
                let i = choose|i: int| 0 <= i < events.len() && (#[trigger] events[i]).0 == id;
                assert(front[i] == events[i]);
            }
            if exists|i: int| 0 <= i < front.len() && (#[trigger] front[i]).0 == id {
                let i = choose|i: int| 0 <= i < front.len() && (#[trigger] front[i]).0 == id;
                assert(front[i] == events[i]);
            }
            assert(front.push(events.last()) =~= events);
        }
    } else {
        assert(events_but(events, id) =~= events);
    }
}

/// The windows are gone through in order. One is shown its events if it has some or if a message waits;
/// if not, it is passed over. The events of the others stay. Once all have been gone through, the
/// events that are left are told of, and then what came of it all is taken in.
pub proof fn windows_are_shown_what_waits<H: Host, U>(now: Next<H, U>, place: usize, stale: bool)
    requires
        now.model.agenda.len() > 0,
        now.model.agenda[0] == Job::<H>::Waiting(Waiting::Deliver { next: place, stale }),
        now.model.windows.entries.len() <= usize::MAX,
    ensures
        ({
            let s = now.model;
            let rest = s.agenda.drop_first();
            let next = go(now, Reply::Done);
            &&& next.interfaces == now.interfaces
            &&& place >= s.windows.entries.len() ==> {
                &&& next.command == Command::<H, U>::Proceed
                &&& next.model == with_jobs(
                    s,
                    seq![
                        Job::<H>::Waiting(Waiting::BroadcastRest),
                        Job::<H>::Waiting(Waiting::Finish { stale }),
                    ] + rest,
                )
            }
            &&& place < s.windows.entries.len() ==> {
                let id = s.windows.entries[place as int].id;
                let has_some = exists|i: int| 0 <= i < s.events.len() && (#[trigger] s.events[i]).0 == id;
                &&& has_some || s.messages.len() > 0 ==> {
                    &&& next.command == (Command::<H, U>::Interact { id })
                    &&& next.model == (Model {
                        window_events: events_of(s.events, id),
                        events: events_but(s.events, id),
                        agenda: seq![
                            Job::<H>::Waiting(
                                Waiting::AwaitInteract { id, next: (place + 1) as usize, stale },
                            ),
                        ] + rest,
                        ..s
                    })
                }
                &&& !has_some && s.messages.len() == 0 ==> {
                    &&& next.command == Command::<H, U>::Proceed
                    &&& next.model == with_jobs(
                        s,
                        seq![
                            Job::<H>::Waiting(Waiting::Deliver { next: (place + 1) as usize, stale }),
                        ] + rest,
                    )
                }
            }
        }),
{
    reveal(wait_step);
    let s = now.model;
    if place < s.windows.entries.len() {
        lemma_has_some(s.events, s.windows.entries[place as int].id);
    }
}

/// Once all windows have been shown what waits, the program is updated and all user interfaces are
/// built anew if a message waits or a user interface is out of date, the actions that come of it are
/// run and every window is drawn again. In any case the event loop is told at the end how long to wait.
pub proof fn what_was_shown_is_taken_in<H: Host, U>(now: Next<H, U>, stale: bool)
    requires
        now.model.agenda.len() > 0,
        now.model.agenda[0] == Job::<H>::Waiting(Waiting::Finish { stale }),
    ensures
        ({
            let s = now.model;
            let rest = s.agenda.drop_first();
            go(now, Reply::Done) == (Next {
                model: with_jobs(
                    s,
                    if s.messages.len() > 0 || stale {
                        seq![
                            Job::<H>::Refresh(Refresh::Caching { next: 0 }),
                            Job::<H>::RunCollected { defer: false },
                            Job::<H>::Sweep(Sweep::Redraw { next: 0, except: None }),
                            Job::<H>::Flow,
                        ] + rest
                    } else {
                        seq![Job::<H>::Flow] + rest
                    },
                ),
                interfaces: now.interfaces,
                command: Command::<H, U>::Proceed,
            })
        }),
{
    reveal(wait_step);
    let s = now.model;
    let rest = s.agenda.drop_first();
    let next = go(now, Reply::Done);
    assert(next.model.agenda =~= if s.messages.len() > 0 || stale {
        seq![
            Job::<H>::Refresh(Refresh::Caching { next: 0 }),
            Job::<H>::RunCollected { defer: false },
            Job::<H>::Sweep(Sweep::Redraw { next: 0, except: None }),
            Job::<H>::Flow,
        ] + rest
    } else {
        seq![Job::<H>::Flow] + rest
    });
}

/// The actions that came of an update are run in order, one after the other. Only where actions on
/// windows are to be put off are they handed back to be run later, in their place.
pub proof fn yielded_actions_are_run_in_order<H: Host, U>(now: Next<H, U>, defer: bool)
    requires
        now.model.agenda.len() > 0,
        now.model.agenda[0] == (Job::<H>::RunCollected { defer }),
    ensures
        ({
            let s = now.model;
            let rest = s.agenda.drop_first();
            let next = go(now, Reply::Done);
            &&& next.interfaces == now.interfaces
            &&& s.collected.len() == 0 ==> next.command == Command::<H, U>::Proceed && next.model
                == rest_of(s)
            &&& s.collected.len() > 0 ==> {
                let action = s.collected[0];
                let puts_off = defer && action is Window;
                &&& next.model.collected == s.collected.drop_first()
                &&& puts_off ==> {
                    &&& next.command == Command::<H, U>::Effect(Effect::Defer(action))
                    &&& next.model == (Model { collected: s.collected.drop_first(), ..s })
                }
                &&& !puts_off ==> {
                    &&& next.command == Command::<H, U>::Proceed
                    &&& is_about_to(next, action)
                    &&& rest_of(next.model) == (Model { collected: s.collected.drop_first(), ..s })
                }
            }
        }),
{
    reveal(collected_step);
    let s = now.model;
    let rest = s.agenda.drop_first();
    let next = go(now, Reply::Done);
    assert(Seq::<Job<H>>::empty() + rest =~= rest);
    assert(seq![Job::<H>::RunCollected { defer }] + rest =~= s.agenda);
    if s.collected.len() > 0 && !(defer && s.collected[0] is Window) {
        assert(next.model.agenda.drop_first() =~= s.agenda);
    }
}

/// While the program is updated, what the update asks for is what is done, and what comes of it is what
/// the update is told. When the update is done, the actions that came of it are to be run, and the user
/// interfaces are built from the caches that they were turned into.
pub proof fn programs_are_updated_as_planned<H: Host, U>(now: Next<H, U>, reply: Reply<H, U>)
    requires
        now.model.agenda.len() > 0,
        now.model.agenda[0] == Job::<H>::Refresh(Refresh::Updating),
        reply is Done || reply is Flag || reply is Polled,
    ensures
        ({
            let s = now.model;
            let rest = s.agenda.drop_first();
            let next = go(now, reply);
            let told = match reply {
                Reply::Flag(stream) => UpdateReply::Stream(stream),
                Reply::Polled(polled) => UpdateReply::Polled(polled),
                _ => UpdateReply::<Action<H>>::Nothing,
            };
            let (update, asked) = update_step(s.update, told);
            &&& next.interfaces == now.interfaces
            &&& asked is Done ==> {
                &&& next.command == Command::<H, U>::Proceed
                &&& next.model.collected == update.actions
                &&& next.model.build.cached == s.caches
                &&& next.model.build.phase == (BuildPhase::Synchronizing { next: 0 })
                &&& next.model.agenda == seq![Job::<H>::Refresh(Refresh::Building)] + rest
                &&& next.model == (Model {
                    collected: next.model.collected,
                    build: next.model.build,
                    update: next.model.update,
                    caches: Map::empty(),
                    agenda: next.model.agenda,
                    ..s
                })
            }
            &&& !(asked is Done) ==> {
                &&& next.model == (Model { update, ..s })
                &&& asked matches UpdateStep::Update(message) ==> next.command == Command::<
                    H,
                    U,
                >::UpdateProgram(message)
                &&& asked is Poll ==> next.command == Command::<H, U>::Poll
                &&& asked is Spawn ==> next.command == Command::<H, U>::Effect(Effect::Spawn)
                &&& asked is Track ==> next.command == Command::<H, U>::Effect(Effect::Track)
            }
        }),
{
    reveal(refresh_step);
    let s = now.model;
    let rest = s.agenda.drop_first();
    assert(seq![Job::<H>::Refresh(Refresh::Updating)] + rest =~= s.agenda);
}

/// While user interfaces are built, what the build asks for is what is done, and the user interface
/// that comes of it is what the build is handed.
pub proof fn interfaces_are_built_as_planned<H: Host, U>(now: Next<H, U>, reply: Reply<H, U>)
    requires
        now.model.agenda.len() > 0,
        now.model.agenda[0] == Job::<H>::Refresh(Refresh::Building),
        reply is Done || reply is Interface,
    ensures
        ({
            let s = now.model;
            let next = go(now, reply);
            let made = match reply {
                Reply::Interface(interface) => Some(interface),
                _ => None,
            };
            let (build, interfaces, asked) = build_step(s.build, s.windows, now.interfaces, made);
            &&& next.interfaces == interfaces
            &&& next.model == (Model {
                build,
                agenda: if asked is Done {
                    s.agenda.drop_first()
                } else {
                    s.agenda
                },
                ..s
            })
            &&& asked matches BuildStep::Synchronize(id) ==> next.command == Command::<H, U>::Effect(
                Effect::Window { id, op: WindowOp::Synchronize },
            )
            &&& asked matches BuildStep::Build { id, cache } ==> next.command == (Command::<
                H,
                U,
            >::Build { id, cache })
            &&& asked is Proceed || asked is Done ==> next.command == Command::<H, U>::Proceed
        }),
{
    reveal(refresh_step);
    let s = now.model;
    let rest = s.agenda.drop_first();
    assert(Seq::<Job<H>>::empty() + rest =~= rest);
    assert(seq![Job::<H>::Refresh(Refresh::Building)] + rest =~= s.agenda);
}

/// Before the program is updated, each user interface is turned into its cache, in the order of the
/// windows, and kept under the name of its window. Then the update starts with all messages, in order,
/// and none is left for another one.
pub proof fn interfaces_are_put_away_before_an_update<H: Host, U>(now: Next<H, U>, place: usize)
    requires
        now.model.agenda.len() > 0,
        now.model.agenda[0] == Job::<H>::Refresh(Refresh::Caching { next: place }),
        now.model.windows.entries.len() <= usize::MAX,
    ensures
        ({
            let s = now.model;
            let rest = s.agenda.drop_first();
            let next = go(now, Reply::Done);
            &&& place < s.windows.entries.len() ==> {
                let id = s.windows.entries[place as int].id;
                &&& next.command == (Command::<H, U>::IntoCache {
                    id,
                    interface: now.interfaces[id],
                })
                &&& forall|cache: H::Cache| #[trigger]
                    go(next, Reply::Cache(cache)) == (Next {
                        model: Model {
                            caches: s.caches.insert(id, cache),
                            agenda: seq![
                                Job::<H>::Refresh(Refresh::Caching { next: (place + 1) as usize }),
                            ] + rest,
                            ..s
                        },
                        interfaces: now.interfaces.remove(id),
                        command: Command::<H, U>::Proceed,
                    })
            }
            &&& place >= s.windows.entries.len() ==> next == (Next {
                model: Model {
                    update: UpdateView {
                        messages: s.messages,
                        actions: Seq::empty(),
                        phase: UpdatePhase::Ready,
                    },
                    messages: Seq::empty(),
                    agenda: seq![Job::<H>::Refresh(Refresh::Updating)] + rest,
                    ..s
                },
                interfaces: now.interfaces,
                command: Command::<H, U>::Proceed,
            })
        }),
{
    reveal(refresh_step);
    let s = now.model;
    let rest = s.agenda.drop_first();
    let next = go(now, Reply::Done);
    if place < s.windows.entries.len() {
        assert(next.model.agenda.drop_first() =~= rest);
    }
}

} // verus!
