//! What one job leads to: others of its kind, before all that was to be done anyway.

use super::model::{
    act_step, action_step, closed, collected_step, interacted, perform, refresh_step, request_step, rest_of,
    shown, single_step, step, sweep_step, wait_step, window_action_step, Next,
};
use super::{Acting, Command, Config, Effect, Job, Model, Refresh, Reply, UiState, Waiting};
use crate::action::{Action, WindowAction, WindowRequest};
use crate::host::Host;
use vstd::prelude::*;

verus! {

/// Whether a step leads on to jobs of a kind, and keeps the others. The state is that without the job
/// that was done.
pub open spec fn leads_on<H: Host, U>(
    s: Model<H>,
    next: Next<H, U>,
    kind: spec_fn(Job<H>) -> bool,
) -> bool {
    let n = next.model.agenda.len() - s.agenda.len();
    &&& n >= 0
    &&& forall|i: int| 0 <= i < n ==> kind(#[trigger] next.model.agenda[i])
    &&& forall|i: int|
        n <= i < next.model.agenda.len() ==> #[trigger] next.model.agenda[i] == s.agenda[i - n]
}

/// Whether an effect is a plain one: it makes no room for actions, tells of no event of a window and
/// draws nothing.
pub open spec fn plain_effect<H: Host>(effect: Effect<H>) -> bool {
    match effect {
        Effect::FreeSlots(_) | Effect::Broadcast { .. } => false,
        Effect::Window { op, .. } => !(op is Draw),
        _ => true,
    }
}

/// Whether a command is a plain one: it has a plain effect or none, shows no events to a user
/// interface, and has to do with no frame.
pub open spec fn plain<H: Host, U>(command: Command<H, U>) -> bool {
    match command {
        Command::Effect(effect) => plain_effect(effect),
        Command::Interact { .. } | Command::Redraw { .. } | Command::Present { .. } => false,
        _ => true,
    }
}

/// Whether an effect tells the event loop how long it can wait, or tracks what the program subscribes
/// to.
pub open spec fn sets_pace<H: Host>(effect: Effect<H>) -> bool {
    match effect {
        Effect::Control(control) => control is ChangeFlow,
        Effect::Track => true,
        _ => false,
    }
}

/// Whether a job comes after the start of an action.
pub open spec fn follows_action<H: Host>(job: Job<H>) -> bool {
    match job {
        Job::Acting(acting) => !(acting is Run) && !(acting is Count),
        Job::Emit(effect) => plain_effect(effect) && !sets_pace(effect),
        Job::Sweep(_) | Job::Connect { .. } | Job::AwaitConnected { .. } => true,
        _ => false,
    }
}

/// Whether a step belongs to an action, which never updates the program itself. The state is that
/// without the job that was done.
pub open spec fn is_of_action<H: Host, U>(s: Model<H>, next: Next<H, U>) -> bool {
    &&& leads_on(s, next, |job: Job<H>| follows_action(job))
    &&& next.model.actions == s.actions
    &&& plain(next.command)
    &&& !(next.command is UpdateProgram)
    &&& match next.command {
        Command::Effect(effect) => !sets_pace(effect),
        _ => true,
    }
}

/// Whether a job has nothing to do with the room for actions, with the delivery of events nor with the
/// drawing of a frame.
pub open spec fn aside<H: Host>(job: Job<H>) -> bool {
    match job {
        Job::Acting(acting) => !(acting is Count),
        Job::Waiting(waiting) => waiting is Finish,
        Job::Emit(effect) => plain_effect(effect),
        Job::Opening(_) | Job::Frame(_) => false,
        Job::ConvertEvent { .. } | Job::ConvertTouch { .. } | Job::AwaitEvent { .. } => false,
        _ => true,
    }
}

/// Whether a step has nothing to do with the room for actions, with the delivery of events nor with the
/// drawing of a frame. The state is that without the job that was done.
pub open spec fn stays_aside<H: Host, U>(s: Model<H>, next: Next<H, U>) -> bool {
    &&& leads_on(s, next, |job: Job<H>| aside(job))
    &&& next.model.actions == s.actions
    &&& plain(next.command)
}

/// All jobs are of a kind after a step that leads to others of its kind.
pub(crate) proof fn lemma_all_lead_on<H: Host, U>(
    s: Model<H>,
    next: Next<H, U>,
    kind: spec_fn(Job<H>) -> bool,
)
    requires
        s.agenda.len() > 0,
        leads_on(rest_of(s), next, kind),
        forall|i: int| 0 <= i < s.agenda.len() ==> kind(#[trigger] s.agenda[i]),
    ensures
        forall|i: int| 0 <= i < next.model.agenda.len() ==> kind(#[trigger] next.model.agenda[i]),
{
    let rest = rest_of(s).agenda;
    let n = next.model.agenda.len() - rest.len();
    assert forall|i: int| 0 <= i < next.model.agenda.len() implies kind(
        #[trigger] next.model.agenda[i],
    ) by {
        if i >= n {
            assert(next.model.agenda[i] == rest[i - n]);
            assert(rest[i - n] == s.agenda[i - n + 1]);
        }
    }
}

/// What leads on to jobs of a kind does so further with a step that does.
pub(crate) proof fn lemma_leads_further<H: Host, U>(
    s: Model<H>,
    before: Next<H, U>,
    now: Next<H, U>,
    kind: spec_fn(Job<H>) -> bool,
)
    requires
        leads_on(s, before, kind),
        before.model.agenda.len() > s.agenda.len(),
        leads_on(rest_of(before.model), now, kind),
    ensures
        leads_on(s, now, kind),
{
    let whole = s.agenda;
    let last = before.model.agenda;
    let rest = rest_of(before.model).agenda;
    let agenda = now.model.agenda;
    let m = last.len() - whole.len();
    let n = agenda.len() - rest.len();
    let k = agenda.len() - whole.len();
    assert forall|i: int| n <= i < agenda.len() implies #[trigger] agenda[i] == last[i - n + 1] by {
        assert(agenda[i] == rest[i - n]);
    }
    assert forall|i: int| 0 <= i < k implies kind(#[trigger] agenda[i]) by {
        if i >= n {
            assert(kind(last[i - n + 1]));
        }
    }
    assert forall|i: int| k <= i < agenda.len() implies #[trigger] agenda[i] == whole[i - k] by {
        assert(last[i - n + 1] == whole[i - n + 1 - m]);
    }
}

/// What a step of a kind leads to is of any wider kind, too.
proof fn lemma_aside_of_action<H: Host, U>(s: Model<H>, next: Next<H, U>)
    requires
        is_of_action(s, next),
    ensures
        stays_aside(s, next),
{
    let n = next.model.agenda.len() - s.agenda.len();
    assert forall|i: int| 0 <= i < n implies aside(#[trigger] next.model.agenda[i]) by {
        assert(follows_action(next.model.agenda[i]));
    }
}

/// Whether the windows, the clipboard and the events that wait are as they were after a step.
pub open spec fn keeps_windows<H: Host>(s: Model<H>, next: Model<H>) -> bool {
    &&& next.windows == s.windows
    &&& next.clipboard == s.clipboard
    &&& next.events == s.events
}

/// The message that an action puts out, if it does.
pub open spec fn put_out<H: Host>(action: Action<H>) -> Seq<H::Message> {
    match action {
        Action::Output(message) => seq![message],
        _ => Seq::empty(),
    }
}

/// Whether a step has messages wait behind those that do already, and leaves the update of the program
/// alone.
pub open spec fn adds_messages<H: Host>(s: Model<H>, next: Model<H>, messages: Seq<H::Message>) -> bool {
    &&& next.messages == s.messages + messages
    &&& next.update == s.update
}

/// Whether the user interfaces and the caches are as they were after a step, too.
pub open spec fn keeps_all<H: Host, U>(s: Model<H>, ui: Map<u64, U>, next: Next<H, U>) -> bool {
    &&& keeps_windows(s, next.model)
    &&& next.interfaces == ui
    &&& next.model.ui_caches == s.ui_caches
}

proof fn lemma_request_starts<H: Host, U>(
    s: Model<H>,
    ui: Map<u64, U>,
    id: u64,
    request: WindowRequest<H>,
)
    ensures
        is_of_action(s, request_step(s, ui, id, request)),
        keeps_all(s, ui, request_step(s, ui, id, request)),
        adds_messages(s, request_step(s, ui, id, request).model, Seq::empty()),
{
    reveal(request_step);
    assert(s.messages + Seq::<H::Message>::empty() =~= s.messages);
}

proof fn lemma_close_starts<H: Host, U>(s: Model<H>, ui: Map<u64, U>, id: u64)
    ensures
        is_of_action(s, closed(s, ui, id)),
        adds_messages(s, closed(s, ui, id).model, Seq::empty()),
{
    assert(s.messages + Seq::<H::Message>::empty() =~= s.messages);
}

proof fn lemma_window_action_starts<H: Host, U>(s: Model<H>, ui: Map<u64, U>, action: WindowAction<H>)
    ensures
        is_of_action(s, window_action_step(s, ui, action)),
        !(action is Close) ==> keeps_all(s, ui, window_action_step(s, ui, action)),
        adds_messages(s, window_action_step(s, ui, action).model, Seq::empty()),
{
    reveal(window_action_step);
    assert(s.messages + Seq::<H::Message>::empty() =~= s.messages);
    match action {
        WindowAction::Close(id) => lemma_close_starts(s, ui, id),
        WindowAction::On(id, request) => lemma_request_starts(s, ui, id, request),
        _ => {},
    }
}

/// The start of an action leads to what follows it. Only the closing of a window makes a difference to
/// the windows, the user interfaces, the caches, the events and the clipboard.
pub(crate) proof fn lemma_action_starts<H: Host, U>(s: Model<H>, ui: Map<u64, U>, action: Action<H>)
    ensures
        is_of_action(s, action_step(s, ui, action)),
        !(action is Window && action->Window_0 is Close) ==> keeps_all(
            s,
            ui,
            action_step(s, ui, action),
        ),
        adds_messages(s, action_step(s, ui, action).model, put_out(action)),
{
    reveal(action_step);
    assert(s.messages + Seq::<H::Message>::empty() =~= s.messages);
    if let Action::Output(message) = action {
        assert(s.messages.push(message) =~= s.messages + seq![message]);
    }
    if let Action::Window(action) = action {
        lemma_window_action_starts(s, ui, action);
    }
}

/// What follows an action leads to more of it, and keeps the windows as they are.
pub(crate) proof fn lemma_acting_goes_on<H: Host, U>(
    s: Model<H>,
    ui: Map<u64, U>,
    acting: Acting<H>,
    reply: Reply<H, U>,
)
    requires
        !(acting is Run),
        !(acting is Count),
    ensures
        is_of_action(s, act_step(s, ui, acting, reply)),
        keeps_windows(s, act_step(s, ui, acting, reply).model),
        adds_messages(s, act_step(s, ui, acting, reply).model, Seq::empty()),
{
    reveal(act_step);
    assert(s.messages + Seq::<H::Message>::empty() =~= s.messages);
}

/// What follows an action leads to more of it.
pub(crate) proof fn lemma_action_goes_on<H: Host, U>(
    s: Model<H>,
    ui: Map<u64, U>,
    reply: Reply<H, U>,
)
    requires
        s.agenda.len() > 0,
        follows_action(s.agenda[0]),
    ensures
        is_of_action(rest_of(s), step(s, ui, reply)),
{
    match s.agenda[0] {
        Job::Acting(acting) => lemma_acting_goes_on(rest_of(s), ui, acting, reply),
        Job::Sweep(_) => {
            reveal(sweep_step);
        },
        _ => {
            reveal(single_step);
        },
    }
}

proof fn lemma_refresh_aside<H: Host, U>(
    s: Model<H>,
    ui: Map<u64, U>,
    refresh: Refresh,
    reply: Reply<H, U>,
)
    ensures
        stays_aside(s, refresh_step(s, ui, refresh, reply)),
{
    reveal(refresh_step);
}

/// A job that stands aside leads to others that do.
pub(crate) proof fn lemma_stays_aside<H: Host, U>(s: Model<H>, ui: Map<u64, U>, reply: Reply<H, U>)
    requires
        s.agenda.len() > 0,
        aside(s.agenda[0]),
    ensures
        stays_aside(rest_of(s), step(s, ui, reply)),
{
    let rest = rest_of(s);
    if follows_action(s.agenda[0]) {
        lemma_action_goes_on(s, ui, reply);
        lemma_aside_of_action(rest, step(s, ui, reply));
    } else {
        match s.agenda[0] {
            Job::Acting(acting) => {
                reveal(act_step);
                lemma_action_starts(rest, ui, acting->Run_0);
                lemma_aside_of_action(rest, step(s, ui, reply));
            },
            Job::Refresh(refresh) => lemma_refresh_aside(rest, ui, refresh, reply),
            Job::RunCollected { .. } => {
                reveal(collected_step);
            },
            Job::Waiting(_) => {
                reveal(wait_step);
            },
            _ => {
                reveal(single_step);
            },
        }
    }
}

/// Whether a job has a window react to what it was shown.
pub open spec fn reacts<H: Host>(job: Job<H>) -> bool {
    match job {
        Job::RequestRedraw { .. } => true,
        Job::Emit(effect) => effect is Window,
        _ => false,
    }
}

proof fn lemma_shown_reacts<H: Host>(config: Config, id: u64, had_events: bool, state: UiState<H>)
    ensures
        forall|i: int|
            0 <= i < shown(config, id, had_events, state).len() ==> reacts(
                #[trigger] shown(config, id, had_events, state)[i],
            ),
{
}

/// What follows when a user interface was shown its events: its window reacts, the events are told of,
/// and the delivery goes on.
pub(crate) proof fn lemma_interaction<H: Host, U>(
    s: Model<H>,
    id: u64,
    next: usize,
    stale: bool,
    reply: Reply<H, U>,
)
    ensures
        ({
            let after = interacted(s, id, next, stale, reply);
            let n = after.agenda.len() - s.agenda.len();
            &&& n >= 2
            &&& forall|i: int| 0 <= i < n - 2 ==> reacts(#[trigger] after.agenda[i])
            &&& after.agenda[n - 2] == Job::<H>::Waiting(Waiting::BroadcastShown { id })
            &&& after.agenda[n - 1] == Job::<H>::Waiting(
                Waiting::Deliver { next, stale: stale || reply->Interacted_state is Outdated },
            )
            &&& forall|i: int|
                n <= i < after.agenda.len() ==> #[trigger] after.agenda[i] == s.agenda[i - n]
            &&& after.actions == s.actions
            &&& after.events == s.events
            &&& after.window_events == s.window_events
            &&& after.statuses == reply->statuses@
            &&& after.windows == s.windows
        }),
{
    let state = reply->Interacted_state;
    let jobs = shown(s.config, id, s.window_events.len() > 0, state);
    let after = interacted(s, id, next, stale, reply);
    let n = after.agenda.len() - s.agenda.len();
    lemma_shown_reacts(s.config, id, s.window_events.len() > 0, state);
    assert(n == jobs.len() + 2);
    assert forall|i: int| 0 <= i < n - 2 implies reacts(#[trigger] after.agenda[i]) by {
        assert(after.agenda[i] == jobs[i]);
    }
}

/// The state with some other jobs to do.
pub open spec fn with_jobs<H: Host>(s: Model<H>, jobs: Seq<Job<H>>) -> Model<H> {
    Model { agenda: jobs, ..s }
}

/// What comes of the next job, with any others after it.
pub(crate) proof fn lemma_performs<H: Host, U>(
    s: Model<H>,
    ui: Map<u64, U>,
    job: Job<H>,
    rest: Seq<Job<H>>,
    reply: Reply<H, U>,
)
    requires
        s.agenda == seq![job] + rest,
    ensures
        step(s, ui, reply) == perform(with_jobs(s, rest), ui, job, reply),
{
    assert(s.agenda.drop_first() =~= rest);
}

/// A job that only has an effect has it, and the others follow.
pub(crate) proof fn lemma_emits<H: Host, U>(
    s: Model<H>,
    ui: Map<u64, U>,
    effect: Effect<H>,
    rest: Seq<Job<H>>,
    reply: Reply<H, U>,
)
    requires
        s.agenda == seq![Job::Emit(effect)] + rest,
    ensures
        step(s, ui, reply) == (Next {
            model: with_jobs(s, rest),
            interfaces: ui,
            command: Command::Effect(effect),
        }),
{
    reveal(single_step);
    lemma_performs(s, ui, Job::Emit(effect), rest, reply);
    assert(Seq::<Job<H>>::empty() + rest =~= rest);
}

/// A clipboard that is connected stays so. One that is not is connected to a window, if it can be.
pub(crate) proof fn lemma_connects<H: Host, U>(
    s: Model<H>,
    ui: Map<u64, U>,
    id: u64,
    rest: Seq<Job<H>>,
    connects: bool,
)
    requires
        s.agenda == seq![Job::<H>::Connect { id }] + rest,
    ensures
        s.clipboard is Some ==> step(s, ui, Reply::Done) == (Next {
            model: with_jobs(s, rest),
            interfaces: ui,
            command: Command::<H, U>::Proceed,
        }),
        s.clipboard is None ==> ({
            let asked = step(s, ui, Reply::Done);
            let done = step(asked.model, asked.interfaces, Reply::Flag(connects));
            &&& asked.command == (Command::<H, U>::ConnectClipboard { id })
            &&& asked.interfaces == ui
            &&& done == (Next {
                model: Model {
                    clipboard: if connects {
                        Some(s.windows.at(id).raw)
                    } else {
                        None
                    },
                    ..with_jobs(s, rest)
                },
                interfaces: ui,
                command: Command::<H, U>::Proceed,
            })
        }),
{
    reveal(single_step);
    lemma_performs(s, ui, Job::Connect { id }, rest, Reply::Done);
    assert(Seq::<Job<H>>::empty() + rest =~= rest);
    if s.clipboard is None {
        let asked = step(s, ui, Reply::Done);
        assert(asked.model.agenda =~= seq![Job::<H>::AwaitConnected { id }] + rest);
        lemma_performs(asked.model, ui, Job::AwaitConnected { id }, rest, Reply::Flag(connects));
        assert(with_jobs(asked.model, rest) =~= with_jobs(s, rest));
    }
}

} // verus!
