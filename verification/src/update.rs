//! How the messages of a program are applied to it.

use vstd::prelude::*;

verus! {

/// What a stream of actions has to offer when it is polled.
pub enum Polled<A> {
    /// The next action.
    Item(A),
    /// Nothing, for good.
    Finished,
    /// Nothing yet.
    Pending,
}

/// What is to be done next.
pub enum UpdateStep<M> {
    /// Update the program with a message and say whether the task that comes of it has a stream of
    /// actions.
    Update(M),
    /// Poll the stream of the last task.
    Poll,
    /// Hand the stream of the last task to the executor.
    Spawn,
    /// Track what the program subscribes to now.
    Track,
    /// Nothing: all messages are applied.
    Done,
}

/// What came of the last step.
pub enum UpdateReply<A> {
    Nothing,
    /// Whether the task has a stream of actions.
    Stream(bool),
    Polled(Polled<A>),
}

/// What an update waits for.
#[derive(Clone, Copy, Debug, PartialEq, Eq, Structural)]
pub enum UpdatePhase {
    Ready,
    AwaitStream,
    AwaitPoll,
    Done,
}

/// The application of some messages to a program. Actions that a task has at once are collected,
/// and a task that is not finished by then goes on in the background.
pub struct Update<M, A> {
    messages: Vec<M>,
    actions: Vec<A>,
    phase: UpdatePhase,
}

/// The messages still to be applied, the actions collected, and what is waited for.
#[verifier::ext_equal]
pub ghost struct UpdateView<M, A> {
    pub messages: Seq<M>,
    pub actions: Seq<A>,
    pub phase: UpdatePhase,
}

impl<M, A> View for Update<M, A> {
    type V = UpdateView<M, A>;

    closed spec fn view(&self) -> UpdateView<M, A> {
        UpdateView { messages: self.messages@, actions: self.actions@, phase: self.phase }
    }
}

/// An update of some messages that is about to begin.
pub open spec fn starting<M, A>(messages: Seq<M>) -> UpdateView<M, A> {
    UpdateView { messages, actions: Seq::empty(), phase: UpdatePhase::Ready }
}

/// Whether a reply is one to what the update waits for.
pub open spec fn update_accepts<M, A>(update: UpdateView<M, A>, reply: UpdateReply<A>) -> bool {
    &&& update.phase == UpdatePhase::AwaitStream ==> reply is Stream
    &&& update.phase == UpdatePhase::AwaitPoll ==> reply is Polled
}

/// Takes up the next message, or ends the update with the subscriptions of the program.
pub open spec fn next_message<M, A>(update: UpdateView<M, A>) -> (UpdateView<M, A>, UpdateStep<M>) {
    if update.messages.len() > 0 {
        (
            UpdateView {
                messages: update.messages.drop_first(),
                phase: UpdatePhase::AwaitStream,
                ..update
            },
            UpdateStep::Update(update.messages[0]),
        )
    } else {
        (UpdateView { phase: UpdatePhase::Done, ..update }, UpdateStep::Track)
    }
}

/// One step of an update.
pub open spec fn update_step<M, A>(update: UpdateView<M, A>, reply: UpdateReply<A>) -> (
    UpdateView<M, A>,
    UpdateStep<M>,
) {
    match update.phase {
        UpdatePhase::Ready => next_message(update),
        UpdatePhase::AwaitStream => match reply {
            UpdateReply::Stream(true) => (
                UpdateView { phase: UpdatePhase::AwaitPoll, ..update },
                UpdateStep::Poll,
            ),
            _ => next_message(update),
        },
        UpdatePhase::AwaitPoll => match reply {
            UpdateReply::Polled(Polled::Item(action)) => (
                UpdateView { actions: update.actions.push(action), ..update },
                UpdateStep::Poll,
            ),
            UpdateReply::Polled(Polled::Pending) => (
                UpdateView { phase: UpdatePhase::Ready, ..update },
                UpdateStep::Spawn,
            ),
            _ => next_message(update),
        },
        UpdatePhase::Done => (update, UpdateStep::Done),
    }
}

impl<M, A> Update<M, A> {
    /// Returns an update that applies some messages, in their order.
    pub fn new(messages: Vec<M>) -> (update: Self)
        ensures
            update@ == starting::<M, A>(messages@),
    {
        Update { messages, actions: Vec::new(), phase: UpdatePhase::Ready }
    }

    /// Returns an update of no message that has nothing to do.
    pub fn done() -> (update: Self)
        ensures
            update@ == (UpdateView::<M, A> {
                messages: Seq::empty(),
                actions: Seq::empty(),
                phase: UpdatePhase::Done,
            }),
    {
        Update { messages: Vec::new(), actions: Vec::new(), phase: UpdatePhase::Done }
    }

    /// Takes in what came of the last step and returns the next one.
    pub fn next(&mut self, reply: UpdateReply<A>) -> (step: UpdateStep<M>)
        requires
            update_accepts(old(self)@, reply),
        ensures
            (final(self)@, step) == update_step(old(self)@, reply),
    {
        match self.phase {
            UpdatePhase::Ready => self.next_message(),
            UpdatePhase::AwaitStream => match reply {
                UpdateReply::Stream(true) => {
                    self.phase = UpdatePhase::AwaitPoll;
                    UpdateStep::Poll
                },
                _ => self.next_message(),
            },
            UpdatePhase::AwaitPoll => match reply {
                UpdateReply::Polled(Polled::Item(action)) => {
                    self.actions.push(action);
                    UpdateStep::Poll
                },
                UpdateReply::Polled(Polled::Pending) => {
                    self.phase = UpdatePhase::Ready;
                    UpdateStep::Spawn
                },
                _ => self.next_message(),
            },
            UpdatePhase::Done => UpdateStep::Done,
        }
    }

    fn next_message(&mut self) -> (step: UpdateStep<M>)
        ensures
            (final(self)@, step) == next_message(old(self)@),
    {
        if self.messages.len() > 0 {
            let ghost before = self.messages@;
            let message = self.messages.remove(0);
            assert(self.messages@ =~= before.drop_first());
            self.phase = UpdatePhase::AwaitStream;
            UpdateStep::Update(message)
        } else {
            self.phase = UpdatePhase::Done;
            UpdateStep::Track
        }
    }

    /// Returns the actions that were collected.
    pub fn into_actions(self) -> (actions: Vec<A>)
        ensures
            actions@ == self@.actions,
    {
        self.actions
    }
}

/// The state of an update after some replies.
pub open spec fn update_after<M, A>(
    update: UpdateView<M, A>,
    replies: Seq<UpdateReply<A>>,
) -> UpdateView<M, A>
    decreases replies.len(),
{
    if replies.len() == 0 {
        update
    } else {
        update_step(update_after(update, replies.drop_last()), replies.last()).0
    }
}

/// The messages that the program is updated with on some replies.
pub open spec fn applied<M, A>(update: UpdateView<M, A>, replies: Seq<UpdateReply<A>>) -> Seq<M>
    decreases replies.len(),
{
    if replies.len() == 0 {
        Seq::empty()
    } else {
        let before = applied(update, replies.drop_last());
        match update_step(update_after(update, replies.drop_last()), replies.last()).1 {
            UpdateStep::Update(message) => before.push(message),
            _ => before,
        }
    }
}

/// The actions that the streams yield in some replies.
pub open spec fn yielded<A>(replies: Seq<UpdateReply<A>>) -> Seq<A>
    decreases replies.len(),
{
    if replies.len() == 0 {
        Seq::empty()
    } else {
        match replies.last() {
            UpdateReply::Polled(Polled::Item(action)) => yielded(replies.drop_last()).push(action),
            _ => yielded(replies.drop_last()),
        }
    }
}

/// Whether each of some replies is one to what the update waits for when it arrives, and is nothing
/// when it waits for nothing.
pub open spec fn replies_fit<M, A>(update: UpdateView<M, A>, replies: Seq<UpdateReply<A>>) -> bool
    decreases replies.len(),
{
    replies.len() > 0 ==> {
        let before = update_after(update, replies.drop_last());
        &&& replies_fit(update, replies.drop_last())
        &&& update_accepts(before, replies.last())
        &&& replies.last() is Polled ==> before.phase == UpdatePhase::AwaitPoll
    }
}

/// However the tasks behave, the program is updated with each message once and in order, and the
/// actions collected are those that the streams yielded, in order. Once the update is done no
/// message is left.
pub proof fn messages_are_applied_in_order<M, A>(messages: Seq<M>, replies: Seq<UpdateReply<A>>)
    requires
        replies_fit(starting::<M, A>(messages), replies),
    ensures
        ({
            let start = starting::<M, A>(messages);
            let after = update_after(start, replies);
            &&& applied(start, replies) + after.messages == messages
            &&& after.actions == yielded(replies)
            &&& after.phase == UpdatePhase::Done ==> applied(start, replies) == messages
        }),
    decreases replies.len(),
{
    let start = starting::<M, A>(messages);
    if replies.len() == 0 {
        assert(applied(start, replies) + start.messages =~= messages);
    } else {
        let front = replies.drop_last();
        messages_are_applied_in_order::<M, A>(messages, front);
        let before = update_after(start, front);
        let (after, step) = update_step(before, replies.last());
        lemma_done_is_empty(start, front);
        assert(applied(start, replies) + after.messages =~= messages) by {
            if step is Update {
                assert(before.messages =~= seq![before.messages[0]] + before.messages.drop_first());
                assert(applied(start, front) + before.messages =~= applied(start, front).push(
                    before.messages[0],
                ) + before.messages.drop_first());
            }
        }
    }
    lemma_done_is_empty(start, replies);
    let after = update_after(start, replies);
    if after.phase == UpdatePhase::Done {
        assert(applied(start, replies) + after.messages =~= applied(start, replies));
    }
}

proof fn lemma_done_is_empty<M, A>(start: UpdateView<M, A>, replies: Seq<UpdateReply<A>>)
    requires
        start.phase == UpdatePhase::Done ==> start.messages.len() == 0,
    ensures
        update_after(start, replies).phase == UpdatePhase::Done ==> update_after(
            start,
            replies,
        ).messages.len() == 0,
    decreases replies.len(),
{
    if replies.len() > 0 {
        lemma_done_is_empty(start, replies.drop_last());
    }
}

/// What an update asks for last on some replies, if there are any.
pub open spec fn asked_last<M, A>(messages: Seq<M>, replies: Seq<UpdateReply<A>>) -> Option<UpdateStep<M>> {
    if replies.len() == 0 {
        None
    } else {
        let before = update_after(starting::<M, A>(messages), replies.drop_last());
        Some(update_step(before, replies.last()).1)
    }
}

/// Whether each reply is one to what the update asked for last.
pub open spec fn update_answered<M, A>(messages: Seq<M>, replies: Seq<UpdateReply<A>>) -> bool
    decreases replies.len(),
{
    replies.len() == 0 || {
        &&& update_answered(messages, replies.drop_last())
        &&& match asked_last(messages, replies.drop_last()) {
            Some(UpdateStep::Update(_)) => replies.last() is Stream,
            Some(UpdateStep::Poll) => replies.last() is Polled,
            _ => replies.last() is Nothing,
        }
    }
}

/// A task that has a stream of actions is polled, again after each action that it has, and is handed
/// over when it has nothing yet; no other reply leads to either. With any other reply the next message
/// is applied. Once there is none left the subscriptions are tracked, just once, and the update is
/// done.
pub proof fn tasks_are_followed_up<M, A>(messages: Seq<M>, replies: Seq<UpdateReply<A>>)
    requires
        update_answered(messages, replies),
        replies.len() > 0,
    ensures
        replies_fit(starting::<M, A>(messages), replies),
        ({
            let front = replies.drop_last();
            let reply = replies.last();
            let before = asked_last(messages, front);
            let over = before == Some(UpdateStep::<M>::Track) || before == Some(UpdateStep::<M>::Done);
            let done = applied(starting::<M, A>(messages), front).len();
            let polls = reply == UpdateReply::<A>::Stream(true) || (reply matches UpdateReply::Polled(
                polled,
            ) && polled is Item);
            let spawns = reply == UpdateReply::<A>::Polled(Polled::Pending);
            asked_last(messages, replies) == Some(
                if over {
                    UpdateStep::<M>::Done
                } else if polls {
                    UpdateStep::<M>::Poll
                } else if spawns {
                    UpdateStep::<M>::Spawn
                } else if done < messages.len() {
                    UpdateStep::Update(messages[done as int])
                } else {
                    UpdateStep::<M>::Track
                },
            )
        }),
    decreases replies.len(),
{
    let front = replies.drop_last();
    let start = starting::<M, A>(messages);
    lemma_phase(messages, front);
    messages_are_applied_in_order::<M, A>(messages, front);
    let before = update_after(start, front);
    let done = applied(start, front);
    if before.messages.len() > 0 {
        assert((done + before.messages)[done.len() as int] == before.messages[0]);
    }
    assert((done + before.messages).len() == done.len() + before.messages.len());
}

/// What an update waits for is what it asked for last.
proof fn lemma_phase<M, A>(messages: Seq<M>, replies: Seq<UpdateReply<A>>)
    requires
        update_answered(messages, replies),
    ensures
        replies_fit(starting::<M, A>(messages), replies),
        update_after(starting::<M, A>(messages), replies).phase == match asked_last(messages, replies) {
            None | Some(UpdateStep::Spawn) => UpdatePhase::Ready,
            Some(UpdateStep::Update(_)) => UpdatePhase::AwaitStream,
            Some(UpdateStep::Poll) => UpdatePhase::AwaitPoll,
            _ => UpdatePhase::Done,
        },
    decreases replies.len(),
{
    if replies.len() > 0 {
        lemma_phase(messages, replies.drop_last());
    }
}

} // verus!
