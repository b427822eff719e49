//! How an application goes from window to window for an action.

use super::course::{lemma_performs, with_jobs};
use super::model::{act_step, action_step, after, rest_of, window_action_step, Next};
use super::whole::{go, is_about_to};
use super::{Acting, Command, Effect, Job, Model, Reply, WindowOp};
use crate::action::{Action, WindowAction};
use crate::host::Host;
use vstd::prelude::*;

verus! {

/// An application that has been handed new layouts for some of its windows, one after the other, with
/// all else done that it wanted.
pub open spec fn handed_layouts<H: Host, U>(start: Next<H, U>, made: Seq<U>) -> Next<H, U>
    decreases made.len(),
{
    if made.len() == 0 {
        start
    } else {
        go(go(handed_layouts(start, made.drop_last()), Reply::Done), Reply::Interface(made.last()))
    }
}

/// An application that has been handed the caches of the user interfaces of some of its windows, and
/// then new user interfaces, one after the other.
pub open spec fn handed_builds<H: Host, U>(
    start: Next<H, U>,
    made: Seq<(H::Cache, U)>,
) -> Next<H, U>
    decreases made.len(),
{
    if made.len() == 0 {
        start
    } else {
        let cached = go(
            go(handed_builds(start, made.drop_last()), Reply::Done),
            Reply::Cache(made.last().0),
        );
        go(cached, Reply::Interface(made.last().1))
    }
}

/// An application that has been handed an operation back by some of its windows, one after the other.
pub open spec fn handed_operations<H: Host, U>(
    start: Next<H, U>,
    made: Seq<H::Operation>,
) -> Next<H, U>
    decreases made.len(),
{
    if made.len() == 0 {
        start
    } else {
        go(
            go(handed_operations(start, made.drop_last()), Reply::Done),
            Reply::Operation(made.last()),
        )
    }
}

/// Whether the first windows have the user interfaces that were made for them, in order, and all others
/// have those that they had.
pub open spec fn has_made<H: Host, U>(start: Next<H, U>, now: Map<u64, U>, made: Seq<U>) -> bool {
    let windows = start.model.windows.entries;
    &&& forall|i: int|
        0 <= i < made.len() ==> #[trigger] now.contains_key(windows[i].id) && now[windows[i].id]
            == made[i]
    &&& forall|id: u64|
        (forall|i: int| 0 <= i < made.len() ==> (#[trigger] windows[i]).id != id) ==> (
        #[trigger] now.contains_key(id) <==> start.interfaces.contains_key(id)) && now[id]
            == start.interfaces[id]
}

/// The layout of every window is made anew, in order: each user interface is taken away, handed back
/// with a new layout, and its window is asked to be drawn again. Nothing else comes of it.
pub proof fn all_windows_get_new_layouts<H: Host, U>(start: Next<H, U>, made: Seq<U>)
    requires
        is_about_to(start, Action::Window(WindowAction::RelayoutAll)),
        start.model.windows.sorted(),
        made.len() <= start.model.windows.entries.len() <= usize::MAX,
    ensures
        ({
            let windows = start.model.windows.entries;
            let now = handed_layouts(go(start, Reply::Done), made);
            let next = go(now, Reply::Done);
            &&& has_made(start, now.interfaces, made)
            &&& made.len() > 0 ==> now.command == Command::<H, U>::Effect(
                Effect::Window { id: windows[made.len() - 1].id, op: WindowOp::RequestRedraw },
            )
            &&& made.len() == 0 ==> now.command == Command::<H, U>::Proceed
            &&& made.len() < windows.len() ==> next.command == (Command::<H, U>::Relayout {
                id: windows[made.len() as int].id,
                interface: start.interfaces[windows[made.len() as int].id],
            })
            &&& made.len() == windows.len() ==> next == (Next {
                model: rest_of(start.model),
                interfaces: now.interfaces,
                command: Command::<H, U>::Proceed,
            })
        }),
{
    lemma_layouts(start, made);
    let now = handed_layouts(go(start, Reply::Done), made);
    lemma_layout_asked(now, rest_of(start.model), made.len() as usize);
    if made.len() < start.model.windows.entries.len() {
        lemma_not_made(start, now.interfaces, made);
    }
}

/// What comes of one part of an action, with other jobs after it.
proof fn lemma_acts<H: Host, U>(now: Next<H, U>, s: Model<H>, acting: Acting<H>, reply: Reply<H, U>)
    requires
        now.model == with_jobs(s, seq![Job::Acting(acting)] + s.agenda),
    ensures
        go(now, reply) == act_step(s, now.interfaces, acting, reply),
        Seq::<Job<H>>::empty() + s.agenda == s.agenda,
{
    lemma_performs(now.model, now.interfaces, Job::Acting(acting), s.agenda, reply);
    assert(with_jobs(now.model, s.agenda) == s);
    assert(Seq::<Job<H>>::empty() + s.agenda =~= s.agenda);
}

/// One more user interface is made for the next window.
proof fn lemma_made<H: Host, U>(
    start: Next<H, U>,
    before: Map<u64, U>,
    now: Map<u64, U>,
    made: Seq<U>,
)
    requires
        start.model.windows.sorted(),
        0 < made.len() <= start.model.windows.entries.len(),
        has_made(start, before, made.drop_last()),
        ({
            let id = start.model.windows.entries[made.len() - 1].id;
            now == before.remove(id).insert(id, made.last())
        }),
    ensures
        has_made(start, now, made),
{
    let windows = start.model.windows.entries;
    let front = made.drop_last();
    let last = windows[made.len() - 1].id;
    assert forall|i: int| 0 <= i < made.len() implies #[trigger] now.contains_key(windows[i].id)
        && now[windows[i].id] == made[i] by {
        if i < front.len() {
            assert(windows[i].id != last);
            assert(before.contains_key(windows[i].id));
            assert(front[i] == made[i]);
        }
    }
    assert forall|id: u64|
        (forall|i: int| 0 <= i < made.len() ==> (#[trigger] windows[i]).id != id) implies (
    #[trigger] now.contains_key(id) <==> start.interfaces.contains_key(id)) && now[id]
        == start.interfaces[id] by {
        assert(windows[made.len() - 1].id != id);
        assert forall|i: int| 0 <= i < front.len() implies (#[trigger] windows[i]).id != id by {
        }
        assert(before.contains_key(id) <==> start.interfaces.contains_key(id));
    }
}

/// The window that is next has the user interface that it had.
proof fn lemma_not_made<H: Host, U>(start: Next<H, U>, now: Map<u64, U>, made: Seq<U>)
    requires
        start.model.windows.sorted(),
        made.len() < start.model.windows.entries.len(),
        has_made(start, now, made),
    ensures
        ({
            let id = start.model.windows.entries[made.len() as int].id;
            now[id] == start.interfaces[id]
        }),
{
    let windows = start.model.windows.entries;
    let id = windows[made.len() as int].id;
    assert forall|i: int| 0 <= i < made.len() implies (#[trigger] windows[i]).id != id by {
    }
    assert(now.contains_key(id) <==> start.interfaces.contains_key(id));
}

proof fn lemma_layout_asked<H: Host, U>(now: Next<H, U>, s: Model<H>, place: usize)
    requires
        now.model == with_jobs(
            s,
            seq![Job::<H>::Acting(Acting::RelayoutAll { next: place })] + s.agenda,
        ),
        s.windows.entries.len() <= usize::MAX,
    ensures
        place < s.windows.entries.len() ==> {
            let id = s.windows.entries[place as int].id;
            let next = go(now, Reply::Done);
            &&& next.command == (Command::<H, U>::Relayout { id, interface: now.interfaces[id] })
            &&& forall|interface: U| #[trigger]
                go(next, Reply::Interface(interface)) == (Next {
                    model: with_jobs(
                        s,
                        seq![
                            Job::<H>::Acting(Acting::RelayoutAll { next: (place + 1) as usize }),
                        ] + s.agenda,
                    ),
                    interfaces: now.interfaces.remove(id).insert(id, interface),
                    command: Command::<H, U>::Effect(
                        Effect::Window { id, op: WindowOp::RequestRedraw },
                    ),
                })
        },
        place >= s.windows.entries.len() ==> go(now, Reply::Done) == (Next {
            model: s,
            interfaces: now.interfaces,
            command: Command::<H, U>::Proceed,
        }),
{
    lemma_acts(now, s, Acting::RelayoutAll { next: place }, Reply::Done);
    let next = go(now, Reply::Done);
    assert(place >= s.windows.entries.len() ==> next == (Next {
        model: s,
        interfaces: now.interfaces,
        command: Command::<H, U>::Proceed,
    })) by {
        reveal(act_step);
    }
    if place < s.windows.entries.len() {
        let id = s.windows.entries[place as int].id;
        let awaiting = Acting::<H>::AwaitRelaid { id, next: after(place) };
        assert(next == (Next {
            model: with_jobs(s, seq![Job::Acting(awaiting)] + s.agenda),
            interfaces: now.interfaces.remove(id),
            command: Command::<H, U>::Relayout { id, interface: now.interfaces[id] },
        })) by {
            reveal(act_step);
        }
        assert forall|interface: U| #[trigger]
            go(next, Reply::Interface(interface)) == (Next {
            model: with_jobs(
                s,
                seq![Job::<H>::Acting(Acting::RelayoutAll { next: (place + 1) as usize })]
                    + s.agenda,
            ),
            interfaces: now.interfaces.remove(id).insert(id, interface),
            command: Command::<H, U>::Effect(Effect::Window { id, op: WindowOp::RequestRedraw }),
        }) by {
            lemma_acts(next, s, awaiting, Reply::Interface(interface));
            reveal(act_step);
        }
    }
}

proof fn lemma_layouts<H: Host, U>(start: Next<H, U>, made: Seq<U>)
    requires
        is_about_to(start, Action::Window(WindowAction::RelayoutAll)),
        start.model.windows.sorted(),
        made.len() <= start.model.windows.entries.len() <= usize::MAX,
    ensures
        ({
            let s = rest_of(start.model);
            let windows = start.model.windows.entries;
            let now = handed_layouts(go(start, Reply::Done), made);
            let place = made.len() as usize;
            &&& now.model == with_jobs(
                s,
                seq![Job::<H>::Acting(Acting::RelayoutAll { next: place })] + s.agenda,
            )
            &&& has_made(start, now.interfaces, made)
            &&& now.command == if made.len() > 0 {
                Command::<H, U>::Effect(
                    Effect::Window { id: windows[made.len() - 1].id, op: WindowOp::RequestRedraw },
                )
            } else {
                Command::<H, U>::Proceed
            }
        }),
    decreases made.len(),
{
    let s = rest_of(start.model);
    if made.len() == 0 {
        reveal(act_step);
        reveal(action_step);
        reveal(window_action_step);
    } else {
        let front = made.drop_last();
        lemma_layouts(start, front);
        let before = handed_layouts(go(start, Reply::Done), front);
        let now = handed_layouts(go(start, Reply::Done), made);
        lemma_layout_asked(before, s, (made.len() - 1) as usize);
        assert(now == go(go(before, Reply::Done), Reply::Interface(made.last())));
        lemma_made(start, before.interfaces, now.interfaces, made);
    }
}

/// Every user interface is made anew, in order: each is taken away and turned into its cache, a new one
/// is built from that cache, and its window is asked to be drawn again. Nothing else comes of it.
pub proof fn all_windows_are_reloaded<H: Host, U>(start: Next<H, U>, made: Seq<(H::Cache, U)>)
    requires
        is_about_to(start, Action::Reload),
        start.model.windows.sorted(),
        made.len() <= start.model.windows.entries.len() <= usize::MAX,
    ensures
        ({
            let windows = start.model.windows.entries;
            let now = handed_builds(go(start, Reply::Done), made);
            let next = go(now, Reply::Done);
            &&& has_made(start, now.interfaces, made.map_values(|one: (H::Cache, U)| one.1))
            &&& made.len() > 0 ==> now.command == Command::<H, U>::Effect(
                Effect::Window { id: windows[made.len() - 1].id, op: WindowOp::RequestRedraw },
            )
            &&& made.len() == 0 ==> now.command == Command::<H, U>::Proceed
            &&& made.len() < windows.len() ==> {
                let id = windows[made.len() as int].id;
                &&& next.command == (Command::<H, U>::IntoCache {
                    id,
                    interface: start.interfaces[id],
                })
                &&& forall|cache: H::Cache| (#[trigger] go(next, Reply::Cache(cache))).command == (
                Command::<H, U>::Build { id, cache: Some(cache) })
            }
            &&& made.len() == windows.len() ==> next == (Next {
                model: rest_of(start.model),
                interfaces: now.interfaces,
                command: Command::<H, U>::Proceed,
            })
        }),
{
    lemma_builds(start, made);
    let now = handed_builds(go(start, Reply::Done), made);
    lemma_build_asked(now, rest_of(start.model), made.len() as usize);
    if made.len() < start.model.windows.entries.len() {
        lemma_not_made(start, now.interfaces, made.map_values(|one: (H::Cache, U)| one.1));
    }
}

proof fn lemma_build_asked<H: Host, U>(now: Next<H, U>, s: Model<H>, place: usize)
    requires
        now.model == with_jobs(
            s,
            seq![Job::<H>::Acting(Acting::ReloadAll { next: place })] + s.agenda,
        ),
        s.windows.entries.len() <= usize::MAX,
    ensures
        place < s.windows.entries.len() ==> {
            let id = s.windows.entries[place as int].id;
            let next = go(now, Reply::Done);
            &&& next.command == (Command::<H, U>::IntoCache { id, interface: now.interfaces[id] })
            &&& forall|cache: H::Cache| #[trigger]
                go(next, Reply::Cache(cache)) == (Next {
                    model: with_jobs(
                        s,
                        seq![
                            Job::<H>::Acting(Acting::AwaitReloaded { id, next: after(place) }),
                        ] + s.agenda,
                    ),
                    interfaces: now.interfaces.remove(id),
                    command: Command::<H, U>::Build { id, cache: Some(cache) },
                })
        },
        place >= s.windows.entries.len() ==> go(now, Reply::Done) == (Next {
            model: s,
            interfaces: now.interfaces,
            command: Command::<H, U>::Proceed,
        }),
{
    lemma_acts(now, s, Acting::ReloadAll { next: place }, Reply::Done);
    let next = go(now, Reply::Done);
    assert(place >= s.windows.entries.len() ==> next == (Next {
        model: s,
        interfaces: now.interfaces,
        command: Command::<H, U>::Proceed,
    })) by {
        reveal(act_step);
    }
    if place < s.windows.entries.len() {
        let id = s.windows.entries[place as int].id;
        let awaiting = Acting::<H>::AwaitReloadCache { id, next: after(place) };
        assert(next == (Next {
            model: with_jobs(s, seq![Job::Acting(awaiting)] + s.agenda),
            interfaces: now.interfaces.remove(id),
            command: Command::<H, U>::IntoCache { id, interface: now.interfaces[id] },
        })) by {
            reveal(act_step);
        }
        assert forall|cache: H::Cache| #[trigger]
            go(next, Reply::Cache(cache)) == (Next {
            model: with_jobs(
                s,
                seq![Job::<H>::Acting(Acting::AwaitReloaded { id, next: after(place) })] + s.agenda,
            ),
            interfaces: now.interfaces.remove(id),
            command: Command::<H, U>::Build { id, cache: Some(cache) },
        }) by {
            lemma_acts(next, s, awaiting, Reply::Cache(cache));
            reveal(act_step);
        }
    }
}

proof fn lemma_built<H: Host, U>(
    now: Next<H, U>,
    s: Model<H>,
    id: u64,
    next: usize,
    interface: U,
)
    requires
        now.model == with_jobs(
            s,
            seq![Job::<H>::Acting(Acting::AwaitReloaded { id, next })] + s.agenda,
        ),
    ensures
        go(now, Reply::Interface(interface)) == (Next {
            model: with_jobs(s, seq![Job::<H>::Acting(Acting::ReloadAll { next })] + s.agenda),
            interfaces: now.interfaces.insert(id, interface),
            command: Command::<H, U>::Effect(Effect::Window { id, op: WindowOp::RequestRedraw }),
        }),
{
    lemma_acts(now, s, Acting::AwaitReloaded { id, next }, Reply::Interface(interface));
    reveal(act_step);
}

proof fn lemma_builds<H: Host, U>(start: Next<H, U>, made: Seq<(H::Cache, U)>)
    requires
        is_about_to(start, Action::Reload),
        start.model.windows.sorted(),
        made.len() <= start.model.windows.entries.len() <= usize::MAX,
    ensures
        ({
            let s = rest_of(start.model);
            let windows = start.model.windows.entries;
            let now = handed_builds(go(start, Reply::Done), made);
            let place = made.len() as usize;
            &&& now.model == with_jobs(
                s,
                seq![Job::<H>::Acting(Acting::ReloadAll { next: place })] + s.agenda,
            )
            &&& has_made(start, now.interfaces, made.map_values(|one: (H::Cache, U)| one.1))
            &&& now.command == if made.len() > 0 {
                Command::<H, U>::Effect(
                    Effect::Window { id: windows[made.len() - 1].id, op: WindowOp::RequestRedraw },
                )
            } else {
                Command::<H, U>::Proceed
            }
        }),
    decreases made.len(),
{
    let s = rest_of(start.model);
    let all = made.map_values(|one: (H::Cache, U)| one.1);
    if made.len() == 0 {
        reveal(act_step);
        reveal(action_step);
    } else {
        let front = made.drop_last();
        lemma_builds(start, front);
        let before = handed_builds(go(start, Reply::Done), front);
        let now = handed_builds(go(start, Reply::Done), made);
        lemma_build_asked(before, s, (made.len() - 1) as usize);
        let asked = go(go(before, Reply::Done), Reply::Cache(made.last().0));
        let id = s.windows.entries[made.len() - 1].id;
        lemma_built(asked, s, id, made.len() as usize, made.last().1);
        assert(now == go(asked, Reply::Interface(made.last().1)));
        assert(front.map_values(|one: (H::Cache, U)| one.1) =~= all.drop_last());
        lemma_made(start, before.interfaces, now.interfaces, all);
    }
}

/// A widget operation goes from window to window, in order: each is handed what the one before it made
/// of the operation. What the last one made of it is finished. If another operation comes of that it
/// goes around in the same way, as if the program had asked for it, and nothing else comes of it.
pub proof fn operations_go_around<H: Host, U>(
    start: Next<H, U>,
    operation: H::Operation,
    made: Seq<H::Operation>,
)
    requires
        is_about_to(start, Action::Widget(operation)),
        made.len() <= start.model.windows.entries.len() <= usize::MAX,
    ensures
        ({
            let windows = start.model.windows.entries;
            let now = handed_operations(go(start, Reply::Done), made);
            let next = go(now, Reply::Done);
            let latest = if made.len() == 0 {
                operation
            } else {
                made.last()
            };
            &&& now.interfaces == start.interfaces
            &&& now.command == Command::<H, U>::Proceed
            &&& made.len() < windows.len() ==> next.command == (Command::<H, U>::Operate {
                id: windows[made.len() as int].id,
                operation: latest,
            })
            &&& made.len() == windows.len() ==> {
                &&& next.command == Command::<H, U>::FinishOperation(latest)
                &&& go(next, Reply::Outcome(None)) == (Next {
                    model: rest_of(start.model),
                    interfaces: start.interfaces,
                    command: Command::<H, U>::Proceed,
                })
                &&& forall|more: H::Operation|
                    (#[trigger] go(next, Reply::Outcome(Some(more)))) == go(
                        Next {
                            model: with_jobs(
                                start.model,
                                seq![Job::Acting(Acting::Run(Action::Widget(more)))]
                                    + start.model.agenda.drop_first(),
                            ),
                            ..start
                        },
                        Reply::Done,
                    )
            }
        }),
{
    lemma_operations(start, operation, made);
    let s = rest_of(start.model);
    let now = handed_operations(go(start, Reply::Done), made);
    let next = go(now, Reply::Done);
    let latest = if made.len() == 0 {
        operation
    } else {
        made.last()
    };
    lemma_operated(now, s, latest, made.len() as usize);
    if made.len() == s.windows.entries.len() {
        lemma_acts(next, s, Acting::AwaitOutcome, Reply::Outcome(None));
        assert(go(next, Reply::Outcome(None)) == (Next {
            model: s,
            interfaces: start.interfaces,
            command: Command::<H, U>::Proceed,
        })) by {
            reveal(act_step);
        }
        assert forall|more: H::Operation| #[trigger]
            go(next, Reply::Outcome(Some(more))) == go(
            Next {
                model: with_jobs(
                    start.model,
                    seq![Job::Acting(Acting::Run(Action::Widget(more)))]
                        + start.model.agenda.drop_first(),
                ),
                ..start
            },
            Reply::Done,
        ) by {
            let asked = Next {
                model: with_jobs(
                    start.model,
                    seq![Job::Acting(Acting::Run(Action::Widget(more)))]
                        + start.model.agenda.drop_first(),
                ),
                ..start
            };
            lemma_operation_begins(asked, s, more);
            lemma_acts(next, s, Acting::AwaitOutcome, Reply::Outcome(Some(more)));
            reveal(act_step);
        }
    }
}

proof fn lemma_operation_begins<H: Host, U>(
    now: Next<H, U>,
    s: Model<H>,
    operation: H::Operation,
)
    requires
        now.model == with_jobs(
            s,
            seq![Job::Acting(Acting::Run(Action::Widget(operation)))] + s.agenda,
        ),
    ensures
        go(now, Reply::Done) == (Next {
            model: with_jobs(
                s,
                seq![Job::<H>::Acting(Acting::Operate { operation, next: 0 })] + s.agenda,
            ),
            interfaces: now.interfaces,
            command: Command::<H, U>::Proceed,
        }),
{
    lemma_acts(now, s, Acting::Run(Action::Widget(operation)), Reply::Done);
    reveal(act_step);
    reveal(action_step);
}

proof fn lemma_operated<H: Host, U>(
    now: Next<H, U>,
    s: Model<H>,
    operation: H::Operation,
    place: usize,
)
    requires
        now.model == with_jobs(
            s,
            seq![Job::<H>::Acting(Acting::Operate { operation, next: place })] + s.agenda,
        ),
        s.windows.entries.len() <= usize::MAX,
    ensures
        place < s.windows.entries.len() ==> go(now, Reply::Done) == (Next {
            model: with_jobs(
                s,
                seq![Job::<H>::Acting(Acting::AwaitOperation { next: (place + 1) as usize })]
                    + s.agenda,
            ),
            interfaces: now.interfaces,
            command: Command::<H, U>::Operate {
                id: s.windows.entries[place as int].id,
                operation,
            },
        }),
        place >= s.windows.entries.len() ==> go(now, Reply::Done) == (Next {
            model: with_jobs(s, seq![Job::<H>::Acting(Acting::AwaitOutcome)] + s.agenda),
            interfaces: now.interfaces,
            command: Command::<H, U>::FinishOperation(operation),
        }),
{
    lemma_acts(now, s, Acting::Operate { operation, next: place }, Reply::Done);
    reveal(act_step);
}

proof fn lemma_operations<H: Host, U>(
    start: Next<H, U>,
    operation: H::Operation,
    made: Seq<H::Operation>,
)
    requires
        is_about_to(start, Action::Widget(operation)),
        made.len() <= start.model.windows.entries.len() <= usize::MAX,
    ensures
        handed_operations(go(start, Reply::Done), made) == (Next {
            model: with_jobs(
                rest_of(start.model),
                seq![
                    Job::<H>::Acting(
                        Acting::Operate {
                            operation: if made.len() == 0 {
                                operation
                            } else {
                                made.last()
                            },
                            next: made.len() as usize,
                        },
                    ),
                ] + rest_of(start.model).agenda,
            ),
            interfaces: start.interfaces,
            command: Command::<H, U>::Proceed,
        }),
    decreases made.len(),
{
    let s = rest_of(start.model);
    if made.len() == 0 {
        assert(start.model.agenda =~= seq![Job::Acting(Acting::Run(Action::Widget(operation)))]
            + s.agenda);
        lemma_operation_begins(start, s, operation);
    } else {
        let front = made.drop_last();
        lemma_operations(start, operation, front);
        let before = handed_operations(go(start, Reply::Done), front);
        let latest = if front.len() == 0 {
            operation
        } else {
            front.last()
        };
        lemma_operated(before, s, latest, front.len() as usize);
        let asked = go(before, Reply::Done);
        lemma_acts(
            asked,
            s,
            Acting::AwaitOperation { next: made.len() as usize },
            Reply::Operation(made.last()),
        );
        assert(handed_operations(go(start, Reply::Done), made) == go(
            asked,
            Reply::Operation(made.last()),
        ));
        reveal(act_step);
    }
}

} // verus!
