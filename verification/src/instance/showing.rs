//! What follows when a user interface was shown its events.

use super::course::{lemma_emits, with_jobs};
use super::drawing::lemma_asks_to_redraw;
use super::inputs::does_to;
use super::model::{rest_of, wait_step, Next};
use super::whole::go;
use super::{Command, Effect, Job, Model, Reply, Status, UiState, Waiting, WindowOp};
use crate::host::Host;
use crate::platform::Platform;
use crate::window_man::{redraws_are_due_when_asked_for, RedrawRequest, Window, Windows};
use vstd::prelude::*;

verus! {

/// What is left to do once a window has reacted: its events are told of, and the next window is shown
/// its own.
spec fn onwards<H: Host>(
    id: u64,
    next: usize,
    stale: bool,
    state: UiState<H>,
    rest: Seq<Job<H>>,
) -> Seq<Job<H>> {
    seq![
        Job::Waiting(Waiting::BroadcastShown { id }),
        Job::Waiting(Waiting::Deliver { next, stale: stale || state is Outdated }),
    ] + rest
}

/// Whether nothing but the time of one window has changed: it is to be drawn again at another time.
pub open spec fn only_retimed<W>(
    before: Windows<W>,
    after: Windows<W>,
    id: u64,
    time: Option<u64>,
) -> bool {
    &&& after.at(id) == (Window { redraw_at: time, ..before.at(id) })
    &&& after.aliases == before.aliases
    &&& forall|other: u64|
        #![trigger before.at(other)]
        other != id && before.has(other) ==> after.at(other) == before.at(other)
}

/// Whether an application has taken in what a user interface had to say and is about to go on, with
/// some windows.
pub open spec fn has_taken_in<H: Host, U>(
    now: Next<H, U>,
    after: Next<H, U>,
    statuses: Vec<Status>,
    messages: Vec<H::Message>,
) -> bool {
    &&& after.interfaces == now.interfaces
    &&& after.model == (Model {
        windows: after.model.windows,
        messages: now.model.messages + messages@,
        statuses: statuses@,
        agenda: after.model.agenda,
        ..now.model
    })
}

proof fn lemma_taken_in<H: Host, U>(
    now: Next<H, U>,
    id: u64,
    next: usize,
    stale: bool,
    state: UiState<H>,
    statuses: Vec<Status>,
    messages: Vec<H::Message>,
)
    requires
        now.model.agenda.len() > 0,
        now.model.agenda[0] == Job::<H>::Waiting(Waiting::AwaitInteract { id, next, stale }),
    ensures
        ({
            let taken = go(now, Reply::Interacted { state, statuses, messages });
            let s = now.model;
            let always = s.config.unconditional_rendering;
            let nudged = s.config.platform == Platform::Ios && s.window_events.len() > 0;
            let onwards = onwards(id, next, stale, state, rest_of(s).agenda);
            let frame = Job::<H>::RequestRedraw { id, request: RedrawRequest::NextFrame };
            let nudge = Job::<H>::Emit(Effect::Window { id, op: WindowOp::RequestRedraw });
            &&& taken.command == Command::<H, U>::Proceed
            &&& has_taken_in(now, taken, statuses, messages)
            &&& taken.model.windows == s.windows
            &&& state is Outdated ==> taken.model.agenda == (if always {
                seq![frame]
            } else {
                seq![]
            }) + ((if nudged {
                seq![nudge]
            } else {
                seq![]
            }) + onwards)
            &&& state is Updated ==> {
                let mouse = Job::<H>::Emit(
                    Effect::Window { id, op: WindowOp::UpdateMouse(state->mouse_interaction) },
                );
                let request = state->redraw_request;
                let last = (if nudged && request == RedrawRequest::Wait {
                    seq![nudge]
                } else {
                    seq![]
                }) + onwards;
                taken.model.agenda == if always {
                    seq![frame] + (seq![mouse] + last)
                } else {
                    seq![mouse] + (seq![Job::<H>::RequestRedraw { id, request }] + last)
                }
            }
        }),
{
    reveal(wait_step);
    let taken = go(now, Reply::Interacted { state, statuses, messages });
    let s = now.model;
    let always = s.config.unconditional_rendering;
    let nudged = s.config.platform == Platform::Ios && s.window_events.len() > 0;
    let onwards = onwards(id, next, stale, state, rest_of(s).agenda);
    let frame = Job::<H>::RequestRedraw { id, request: RedrawRequest::NextFrame };
    let nudge = Job::<H>::Emit(Effect::Window { id, op: WindowOp::RequestRedraw });
    if state is Outdated {
        assert(taken.model.agenda =~= (if always {
            seq![frame]
        } else {
            seq![]
        }) + ((if nudged {
            seq![nudge]
        } else {
            seq![]
        }) + onwards));
    } else {
        let mouse = Job::<H>::Emit(
            Effect::Window { id, op: WindowOp::UpdateMouse(state->mouse_interaction) },
        );
        let request = state->redraw_request;
        let last = (if nudged && request == RedrawRequest::Wait {
            seq![nudge]
        } else {
            seq![]
        }) + onwards;
        if always {
            assert(taken.model.agenda =~= seq![frame] + (seq![mouse] + last));
        } else {
            assert(taken.model.agenda =~= seq![mouse] + (seq![Job::<H>::RequestRedraw { id, request }]
                + last));
        }
    }
}

/// A user interface that was shown its events gets the mouse cursor that it wants, and its window is
/// drawn again when it wants it to be: with the next frame, for which the system is asked right away,
/// or at a time, which is set then; if it wants nothing, the time that was set stays. On iOS a window
/// that was shown some events and wants nothing is drawn again all the same. No other window is
/// touched.
pub proof fn shown_windows_are_drawn_again_in_time<H: Host, U>(
    now: Next<H, U>,
    id: u64,
    next: usize,
    stale: bool,
    state: UiState<H>,
    statuses: Vec<Status>,
    messages: Vec<H::Message>,
)
    requires
        now.model.agenda.len() > 0,
        now.model.agenda[0] == Job::<H>::Waiting(Waiting::AwaitInteract { id, next, stale }),
        now.model.windows.sorted(),
        now.model.windows.has(id),
        !now.model.config.unconditional_rendering,
        state is Updated,
    ensures
        ({
            let s = now.model;
            let taken = go(now, Reply::Interacted { state, statuses, messages });
            let mouse = go(taken, Reply::Done);
            let asked = go(mouse, Reply::Done);
            let nudged = go(asked, Reply::Done);
            let request = state->redraw_request;
            let onwards = seq![
                Job::<H>::Waiting(Waiting::BroadcastShown { id }),
                Job::<H>::Waiting(Waiting::Deliver { next, stale }),
            ] + rest_of(s).agenda;
            &&& taken.command == Command::<H, U>::Proceed
            &&& does_to(mouse, id, WindowOp::UpdateMouse(state->mouse_interaction))
            &&& asked.command == if request == RedrawRequest::NextFrame {
                Command::<H, U>::Effect(Effect::Window { id, op: WindowOp::RequestRedraw })
            } else {
                Command::<H, U>::Proceed
            }
            &&& has_taken_in(now, asked, statuses, messages)
            &&& only_retimed(
                s.windows,
                asked.model.windows,
                id,
                match request {
                    RedrawRequest::At(time) => Some(time),
                    RedrawRequest::NextFrame => None,
                    RedrawRequest::Wait => s.windows.at(id).redraw_at,
                },
            )
            &&& if s.config.platform == Platform::Ios && s.window_events.len() > 0 && request
                == RedrawRequest::Wait {
                &&& does_to(nudged, id, WindowOp::RequestRedraw)
                &&& nudged.interfaces == asked.interfaces
                &&& nudged.model == with_jobs(asked.model, onwards)
            } else {
                asked.model.agenda == onwards
            }
        }),
{
    let s = now.model;
    let taken = go(now, Reply::Interacted { state, statuses, messages });
    let request = state->redraw_request;
    let point = Effect::<H>::Window { id, op: WindowOp::UpdateMouse(state->mouse_interaction) };
    let nudge = Effect::<H>::Window { id, op: WindowOp::RequestRedraw };
    let onwards = onwards(id, next, stale, state, rest_of(s).agenda);
    let nudges = s.config.platform == Platform::Ios && s.window_events.len() > 0 && request
        == RedrawRequest::Wait;
    let last = (if nudges {
        seq![Job::Emit(nudge)]
    } else {
        seq![]
    }) + onwards;
    lemma_taken_in(now, id, next, stale, state, statuses, messages);
    lemma_emits(
        taken.model,
        taken.interfaces,
        point,
        seq![Job::<H>::RequestRedraw { id, request }] + last,
        Reply::Done,
    );
    let mouse = go(taken, Reply::Done);
    lemma_asks_to_redraw(mouse, id, request, last);
    redraws_are_due_when_asked_for(s.windows, id, request);
    let asked = go(mouse, Reply::Done);
    if nudges {
        lemma_emits(asked.model, asked.interfaces, nudge, onwards, Reply::Done);
    } else {
        assert(last =~= onwards);
    }
}

/// A user interface that is outdated once it was shown its events has nothing to want, and makes all of
/// them be built anew. On iOS its window is drawn again if it was shown some events. No window has its
/// time changed.
pub proof fn outdated_windows_are_stale<H: Host, U>(
    now: Next<H, U>,
    id: u64,
    next: usize,
    stale: bool,
    statuses: Vec<Status>,
    messages: Vec<H::Message>,
)
    requires
        now.model.agenda.len() > 0,
        now.model.agenda[0] == Job::<H>::Waiting(Waiting::AwaitInteract { id, next, stale }),
        !now.model.config.unconditional_rendering,
    ensures
        ({
            let s = now.model;
            let taken = go(now, Reply::Interacted { state: UiState::Outdated, statuses, messages });
            let nudged = go(taken, Reply::Done);
            let onwards = seq![
                Job::<H>::Waiting(Waiting::BroadcastShown { id }),
                Job::<H>::Waiting(Waiting::Deliver { next, stale: true }),
            ] + rest_of(s).agenda;
            &&& taken.command == Command::<H, U>::Proceed
            &&& has_taken_in(now, taken, statuses, messages)
            &&& taken.model.windows == s.windows
            &&& if s.config.platform == Platform::Ios && s.window_events.len() > 0 {
                &&& does_to(nudged, id, WindowOp::RequestRedraw)
                &&& nudged.interfaces == taken.interfaces
                &&& nudged.model == with_jobs(taken.model, onwards)
            } else {
                taken.model.agenda == onwards
            }
        }),
{
    let s = now.model;
    let state = UiState::<H>::Outdated;
    let taken = go(now, Reply::Interacted { state, statuses, messages });
    let nudge = Effect::<H>::Window { id, op: WindowOp::RequestRedraw };
    let onwards = onwards(id, next, stale, state, rest_of(s).agenda);
    let none = Seq::<Job<H>>::empty();
    lemma_taken_in(now, id, next, stale, state, statuses, messages);
    if s.config.platform == Platform::Ios && s.window_events.len() > 0 {
        assert(none + (seq![Job::Emit(nudge)] + onwards) =~= seq![Job::Emit(nudge)] + onwards);
        lemma_emits(taken.model, taken.interfaces, nudge, onwards, Reply::Done);
    } else {
        assert(none + (none + onwards) =~= onwards);
    }
}

/// Where every window is drawn again after every event, the system is asked for a new frame of a window
/// that was shown its events, and no other time is set for it, whatever its user interface wants. It
/// gets the mouse cursor that it wants all the same.
pub proof fn windows_can_be_drawn_unconditionally<H: Host, U>(
    now: Next<H, U>,
    id: u64,
    next: usize,
    stale: bool,
    state: UiState<H>,
    statuses: Vec<Status>,
    messages: Vec<H::Message>,
)
    requires
        now.model.agenda.len() > 0,
        now.model.agenda[0] == Job::<H>::Waiting(Waiting::AwaitInteract { id, next, stale }),
        now.model.windows.sorted(),
        now.model.windows.has(id),
        now.model.config.unconditional_rendering,
    ensures
        ({
            let s = now.model;
            let taken = go(now, Reply::Interacted { state, statuses, messages });
            let asked = go(taken, Reply::Done);
            &&& taken.command == Command::<H, U>::Proceed
            &&& does_to(asked, id, WindowOp::RequestRedraw)
            &&& has_taken_in(now, asked, statuses, messages)
            &&& only_retimed(s.windows, asked.model.windows, id, None)
            &&& state matches UiState::Updated { mouse_interaction, .. } ==> does_to(
                go(asked, Reply::Done),
                id,
                WindowOp::UpdateMouse(mouse_interaction),
            )
        }),
{
    let s = now.model;
    let taken = go(now, Reply::Interacted { state, statuses, messages });
    let onwards = onwards(id, next, stale, state, rest_of(s).agenda);
    let rest = taken.model.agenda.drop_first();
    let frame = Job::<H>::RequestRedraw { id, request: RedrawRequest::NextFrame };
    lemma_taken_in(now, id, next, stale, state, statuses, messages);
    assert(taken.model.agenda =~= seq![frame] + rest);
    lemma_asks_to_redraw(taken, id, RedrawRequest::NextFrame, rest);
    redraws_are_due_when_asked_for(s.windows, id, RedrawRequest::NextFrame);
    if let UiState::Updated { mouse_interaction, redraw_request, .. } = state {
        let asked = go(taken, Reply::Done);
        let point = Effect::<H>::Window { id, op: WindowOp::UpdateMouse(mouse_interaction) };
        let last = rest.drop_first();
        assert(rest =~= seq![Job::Emit(point)] + last);
        lemma_emits(asked.model, asked.interfaces, point, last, Reply::Done);
    }
}

} // verus!
