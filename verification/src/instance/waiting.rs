//! How events are delivered.

use super::model::{
    broadcast_rest_step, broadcast_shown_step, deliver_step, events_but, events_of, interacted,
    is_not_of, is_of, shown, unaddressed, wait_step,
};
use super::protocol::ready;
use super::{
    Command, Effect, Instance, Job, Refresh, Reply, Status, Sweep, UiEvent, UiState, Waiting,
    WindowOp,
};
use crate::host::Host;
use crate::platform::Platform;
use crate::window_man::{lemma_filter_split, RedrawRequest};
use rustc_hash::FxHashMap;
use vstd::prelude::*;

verus! {

/// Takes the events of one window out of those of all windows. The order stays, of those and of the
/// others.
pub fn take_events<E>(events: &mut Vec<(u64, UiEvent<E>)>, id: u64) -> (taken: Vec<UiEvent<E>>)
    ensures
        taken@ == events_of(old(events)@, id),
        final(events)@ == events_but(old(events)@, id),
{
    let mut rest: Vec<(u64, UiEvent<E>)> = Vec::new();
    let mut kept: Vec<(u64, UiEvent<E>)> = Vec::new();
    let mut taken: Vec<UiEvent<E>> = Vec::new();
    let ghost all = events@;
    std::mem::swap(&mut rest, events);
    let ghost mut done: Seq<(u64, UiEvent<E>)> = Seq::empty();
    let ghost is_mine = is_of::<E>(id);
    let ghost is_other = is_not_of::<E>(id);
    let ghost inner = unaddressed::<E>();
    proof {
        reveal(Seq::filter);
        assert(taken@ =~= done.filter(is_mine).map_values(inner));
        assert(kept@ =~= done.filter(is_other));
        assert(done + rest@ =~= all);
    }
    while rest.len() > 0
        invariant
            is_mine == is_of::<E>(id),
            is_other == is_not_of::<E>(id),
            inner == unaddressed::<E>(),
            done + rest@ == all,
            taken@ == done.filter(is_mine).map_values(inner),
            kept@ == done.filter(is_other),
        decreases rest.len(),
    {
        let ghost before = rest@;
        let event = rest.remove(0);
        proof {
            let one = seq![event];
            lemma_filter_split(done, one, is_mine);
            lemma_filter_split(done, one, is_other);
            reveal_with_fuel(Seq::filter, 2);
            assert(one.drop_last() =~= Seq::empty());
            assert(one.filter(is_mine) =~= if is_mine(event) { one } else { Seq::empty() });
            assert(one.filter(is_other) =~= if is_other(event) { one } else { Seq::empty() });
            assert(done.push(event) =~= done + one);
            assert(before =~= one + rest@);
            assert(done + before =~= done.push(event) + rest@);
            if is_mine(event) {
                assert(done.push(event).filter(is_mine).map_values(inner) =~= taken@.push(event.1));
                assert(done.push(event).filter(is_other) =~= kept@);
            } else {
                assert(done.push(event).filter(is_mine).map_values(inner) =~= taken@);
                assert(done.push(event).filter(is_other) =~= kept@.push(event));
            }
            done = done.push(event);
        }
        if event.0 == id {
            taken.push(event.1);
        } else {
            kept.push(event);
        }
    }
    assert(done + rest@ =~= done);
    *events = kept;
    taken
}

impl<H: Host> Instance<H> {
    /// Takes a step in the delivery of events.
    #[verifier::rlimit(30)]
    pub(super) fn deliver<U>(
        &mut self,
        interfaces: &mut FxHashMap<u64, U>,
        waiting: Waiting,
        reply: Reply<H, U>,
    ) -> (command: Command<H, U>)
        requires
            ready(old(self)@, old(interfaces)@, Job::Waiting(waiting), reply),
        ensures
            final(self)@ == wait_step(old(self)@, old(interfaces)@, waiting, reply).model,
            final(interfaces)@ == wait_step(old(self)@, old(interfaces)@, waiting, reply).interfaces,
            command == wait_step(old(self)@, old(interfaces)@, waiting, reply).command,
    {
        proof {
            reveal(wait_step);
        }
        match waiting {
            Waiting::Release => {
                let actions = self.actions;
                self.actions = 0;
                self.first_do(Job::Waiting(Waiting::Check));
                if actions > 0 {
                    Command::Effect(Effect::FreeSlots(actions))
                } else {
                    Command::Proceed
                }
            },
            Waiting::Check => {
                let nothing = self.events.len() == 0 && self.messages.len() == 0;
                if !(nothing && self.windows.is_idle()) {
                    self.first_do(Job::Waiting(Waiting::Deliver { next: 0, stale: false }));
                }
                Command::Proceed
            },
            Waiting::Deliver { next, stale } => {
                self.show_events(next, stale)
            },
            Waiting::AwaitInteract { id, next, stale } => {
                self.take_interaction(id, next, stale, reply);
                Command::Proceed
            },
            Waiting::BroadcastShown { id } => self.broadcast_shown(id),
            Waiting::BroadcastRest => self.broadcast_rest(),
            Waiting::Finish { stale } => {
                self.first_do(Job::Flow);
                if self.messages.len() > 0 || stale {
                    self.first_do(Job::Sweep(Sweep::Redraw { next: 0, except: None }));
                    self.first_do(Job::RunCollected { defer: false });
                    self.first_do(Job::Refresh(Refresh::Caching { next: 0 }));
                }
                Command::Proceed
            },
        }
    }

    /// Tells of an event that a user interface was shown.
    fn broadcast_shown<U>(&mut self, id: u64) -> (command: Command<H, U>)
        ensures
            forall|ui: Map<u64, U>|
                #![trigger broadcast_shown_step(old(self)@, ui, id)]
                {
                    &&& final(self)@ == broadcast_shown_step(old(self)@, ui, id).model
                    &&& ui == broadcast_shown_step(old(self)@, ui, id).interfaces
                    &&& command == broadcast_shown_step(old(self)@, ui, id).command
                },
    {
        if self.window_events.len() > 0 && self.statuses.len() > 0 {
            let ghost events = self.window_events@;
            let ghost statuses = self.statuses@;
            let event = self.window_events.remove(0);
            let status = self.statuses.remove(0);
            assert(self.window_events@ =~= events.drop_first());
            assert(self.statuses@ =~= statuses.drop_first());
            self.first_do(Job::Waiting(Waiting::BroadcastShown { id }));
            Command::Effect(Effect::Broadcast { id, event, status })
        } else {
            self.window_events = Vec::new();
            self.statuses = Vec::new();
            Command::Proceed
        }
    }

    /// Tells of an event that belongs to no window that is open.
    fn broadcast_rest<U>(&mut self) -> (command: Command<H, U>)
        ensures
            forall|ui: Map<u64, U>|
                #![trigger broadcast_rest_step(old(self)@, ui)]
                {
                    &&& final(self)@ == broadcast_rest_step(old(self)@, ui).model
                    &&& ui == broadcast_rest_step(old(self)@, ui).interfaces
                    &&& command == broadcast_rest_step(old(self)@, ui).command
                },
    {
        if self.events.len() > 0 {
            let ghost events = self.events@;
            let (id, event) = self.events.remove(0);
            assert(self.events@ =~= events.drop_first());
            self.first_do(Job::Waiting(Waiting::BroadcastRest));
            Command::Effect(Effect::Broadcast { id, event, status: Status::Ignored })
        } else {
            Command::Proceed
        }
    }

    /// Shows the window at a place its events.
    fn show_events<U>(&mut self, next: usize, stale: bool) -> (command: Command<H, U>)
        ensures
            forall|ui: Map<u64, U>|
                #![trigger deliver_step(old(self)@, ui, next, stale)]
                {
                    &&& final(self)@ == deliver_step(old(self)@, ui, next, stale).model
                    &&& ui == deliver_step(old(self)@, ui, next, stale).interfaces
                    &&& command == deliver_step(old(self)@, ui, next, stale).command
                },
    {
        if next < self.windows.len() {
            let id = self.windows.nth(next).id;
            let mine = take_events(&mut self.events, id);
            if mine.len() == 0 && self.messages.len() == 0 {
                self.first_do(Job::Waiting(Waiting::Deliver { next: next + 1, stale }));
                Command::Proceed
            } else {
                self.window_events = mine;
                self.first_do(Job::Waiting(Waiting::AwaitInteract { id, next: next + 1, stale }));
                Command::Interact { id }
            }
        } else {
            self.first_do(Job::Waiting(Waiting::Finish { stale }));
            self.first_do(Job::Waiting(Waiting::BroadcastRest));
            Command::Proceed
        }
    }

    /// Takes in what came of the events that a user interface was shown.
    fn take_interaction<U>(&mut self, id: u64, next: usize, stale: bool, reply: Reply<H, U>)
        requires
            reply is Interacted,
        ensures
            final(self)@ == interacted(old(self)@, id, next, stale, reply),
    {
        if let Reply::Interacted { state, statuses, messages } = reply {
            let mut messages = messages;
            self.messages.append(&mut messages);
            self.statuses = statuses;
            let outdated = matches!(state, UiState::Outdated);
            self.first_do(Job::Waiting(Waiting::Deliver { next, stale: stale || outdated }));
            self.first_do(Job::Waiting(Waiting::BroadcastShown { id }));
            let had_events = self.window_events.len() > 0;
            self.after_showing(id, had_events, state);
        }
    }

    /// Goes on from a user interface that was shown its events.
    fn after_showing(&mut self, id: u64, had_events: bool, state: UiState<H>)
        ensures
            final(self)@ == super::model::first_do(
                old(self)@,
                shown(old(self)@.config, id, had_events, state),
            ),
    {
        let always = self.config.unconditional_rendering;
        let nudged = self.config.platform == Platform::Ios && had_events;
        match state {
            UiState::Updated { redraw_request, mouse_interaction, .. } => {
                if nudged && redraw_request == RedrawRequest::Wait {
                    self.first_do_to(id, WindowOp::RequestRedraw);
                }
                if !always {
                    self.first_do(Job::RequestRedraw { id, request: redraw_request });
                }
                self.first_do_to(id, WindowOp::UpdateMouse(mouse_interaction));
            },
            UiState::Outdated => {
                if nudged {
                    self.first_do_to(id, WindowOp::RequestRedraw);
                }
            },
        }
        if always {
            self.first_do(Job::RequestRedraw { id, request: RedrawRequest::NextFrame });
        }
    }
}

} // verus!
