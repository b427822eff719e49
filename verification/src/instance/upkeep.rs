//! Why what holds of a running application holds at all times.

use super::model::{
    act_step, action_step, after, built, closed, collected_step, deliver_step, events_but,
    events_of, first_do, frame_begun, frame_step, goes_on, initial, input_received, interacted,
    noted, open_step, received, refresh_jobs, refresh_step, request_step, rest_of, shown,
    single_step, step, sweep_step, theme_noted, wait_step, window_action_step,
};
use super::order::{
    build_covers, cached, composes, covered, feasible, goes_well, inv, lent, may_close, newborn,
    opens, orderly, passing,
};
use super::protocol::{accepts, answers, concerns, job_accepts, job_valid, ready, takes};
use super::{
    Acting, Command, Config, Event, Frame, Job, Model, Opening, Refresh, Reply, Sweep, Waiting,
};
use crate::action::{Action, SystemAction, WindowAction, WindowRequest};
use crate::conversion::theme_of;
use crate::host::Host;
use crate::input::WindowInput;
use crate::rebuild::{build_accepts, build_fits, build_step, BuildPhase, BuildStep, BuildView};
use crate::window_man::{
    lemma_ids_parted, lemma_inserted, lemma_removed, lemma_replaced, lemma_requested, RedrawRequest,
    Window, Windows,
};
use vstd::prelude::*;

verus! {

/// What new jobs have to be like for the jobs to stay in order.
pub open spec fn fits<H: Host, W>(windows: Windows<W>, done: Job<H>, jobs: Seq<Job<H>>) -> bool {
    &&& !composes(done)
    &&& forall|i: int|
        0 <= i < jobs.len() ==> {
            &&& job_valid(windows, #[trigger] jobs[i])
            &&& !composes(jobs[i])
            &&& !opens(jobs[i])
            &&& may_close(jobs[i]) ==> may_close(done)
        }
    &&& forall|i: int| 1 <= i < jobs.len() ==> !passing(#[trigger] jobs[i])
    &&& forall|i: int, j: int|
        0 <= i < j < jobs.len() && may_close(#[trigger] jobs[i]) ==> concerns(
            #[trigger] jobs[j],
        ) is None
}

pub proof fn lemma_same_ids<W>(a: Windows<W>, b: Windows<W>)
    requires
        a.ids() == b.ids(),
    ensures
        forall|id: u64| #[trigger] a.has(id) == b.has(id),
{
    assert forall|id: u64| #[trigger] a.has(id) == b.has(id) by {
        assert(a.ids().contains(id) == a.has(id));
        assert(b.ids().contains(id) == b.has(id));
    }
}

/// What always holds does not depend on more of the windows than their identifiers and places.
pub proof fn lemma_relocated<H: Host, U>(s: Model<H>, ui: Map<u64, U>, after: Model<H>)
    requires
        inv(s, ui),
        after == (Model { windows: after.windows, ..s }),
        after.windows.sorted(),
        after.windows.ids() == s.windows.ids(),
        after.windows.entries.len() == s.windows.entries.len(),
        forall|i: int|
            0 <= i < s.windows.entries.len() ==> (#[trigger] after.windows.entries[i]).id
                == s.windows.entries[i].id,
        forall|place: int| #[trigger]
            s.windows.ids_before(place) =~= after.windows.ids_before(place),
        forall|place: int| #[trigger] s.windows.ids_from(place) =~= after.windows.ids_from(place),
    ensures
        inv(after, ui),
{
    lemma_same_ids(s.windows, after.windows);
}

/// New jobs that fit keep the jobs in order, as long as no window is closed.
proof fn lemma_orderly<H: Host>(s: Model<H>, after: Model<H>, jobs: Seq<Job<H>>)
    requires
        orderly(s),
        s.agenda.len() > 0,
        after.agenda == jobs + s.agenda.drop_first(),
        fits(after.windows, s.agenda[0], jobs),
        s.windows.ids().subset_of(after.windows.ids()),
    ensures
        orderly(after),
        jobs.len() == 0 && after.agenda.len() > 0 ==> !passing(after.agenda[0]) && !opens(
            after.agenda[0],
        ) && after.agenda[0] == s.agenda[1],
        jobs.len() > 0 ==> after.agenda.len() > 0 && after.agenda[0] == jobs[0],
{
    let n = jobs.len();
    assert forall|id: u64| #[trigger] s.windows.has(id) implies after.windows.has(id) by {
        assert(s.windows.ids().contains(id));
        assert(after.windows.ids().contains(id));
    }
    assert forall|i: int| 0 <= i < after.agenda.len() implies after.agenda[i] == if i < n {
        jobs[i]
    } else {
        s.agenda[i - n + 1]
    } by {}
}

/// New jobs that fit keep all that always holds, as long as the user interfaces are accounted for
/// and no window is opened or closed.
proof fn lemma_inv<H: Host, U>(
    s: Model<H>,
    ui: Map<u64, U>,
    after: Model<H>,
    interfaces: Map<u64, U>,
    jobs: Seq<Job<H>>,
)
    requires
        inv(s, ui),
        s.agenda.len() > 0,
        after.agenda == jobs + s.agenda.drop_first(),
        fits(after.windows, s.agenda[0], jobs),
        !opens(s.agenda[0]),
        s.windows.ids() == after.windows.ids(),
        s.windows.entries.len() == after.windows.entries.len(),
        after.windows.sorted(),
        s.compositor == after.compositor,
        jobs.len() > 0 ==> covered(after, interfaces) && cached(after),
        jobs.len() == 0 ==> {
            &&& after.caches.dom() =~= Set::empty()
            &&& interfaces.dom() =~= s.windows.ids()
            &&& after.ui_caches.dom() =~= s.windows.ids()
        },
    ensures
        inv(after, interfaces),
        jobs.len() == 0 ==> forall|reply: Reply<H, U>| #[trigger] accepts(after, reply),
        jobs.len() > 0 ==> after.agenda[0] == jobs[0],
        forall|id: u64| #[trigger] after.windows.has(id) == s.windows.has(id),
{
    lemma_orderly(s, after, jobs);
    lemma_same_ids(after.windows, s.windows);
    if jobs.len() == 0 && after.agenda.len() > 0 {
        let top = after.agenda[0];
        assert(lent(top) =~= Set::empty());
        assert(newborn(top) =~= Set::empty());
    }
}

/// While the next job leaves all user interfaces in place, each open window has one.
proof fn lemma_all_present<H: Host, U>(s: Model<H>, ui: Map<u64, U>)
    requires
        inv(s, ui),
        s.agenda.len() > 0 ==> !(s.agenda[0] is Refresh) && lent(s.agenda[0]) =~= Set::empty(),
    ensures
        ui.dom() =~= s.windows.ids(),
        s.ui_caches.dom() =~= s.windows.ids(),
        s.caches.dom() =~= Set::empty(),
        forall|id: u64| #[trigger] s.windows.has(id) == ui.contains_key(id),
{
    if s.agenda.len() > 0 {
        assert(newborn(s.agenda[0]) =~= Set::empty());
    }
    assert forall|id: u64| #[trigger] s.windows.has(id) == ui.contains_key(id) by {
        assert(s.windows.ids().contains(id) == s.windows.has(id));
    }
}

/// A sweep goes well.
proof fn lemma_sweep<H: Host, U>(s: Model<H>, ui: Map<u64, U>, sweep: Sweep)
    requires
        inv(s, ui),
        s.windows.entries.len() <= usize::MAX,
        s.agenda.len() > 0,
        s.agenda[0] == Job::<H>::Sweep(sweep),
    ensures
        goes_well(sweep_step(rest_of(s), ui, sweep)),
{
    reveal(sweep_step);
    let rest = rest_of(s);
    let next = sweep_step(rest, ui, sweep);
    let place = match sweep {
        Sweep::Redraw { next, .. } => next,
        Sweep::Expire { next, .. } => next,
        Sweep::ChangeTheme { next, .. } => next,
    };
    let jobs = if place < s.windows.entries.len() {
        seq![next.model.agenda[0]]
    } else {
        seq![]
    };
    assert(next.model.agenda =~= jobs + s.agenda.drop_first());
    lemma_all_present(s, ui);
    lemma_ids_parted(s.windows, place as int);
    if place < s.windows.entries.len() {
        lemma_requested(s.windows, s.windows.entries[place as int].id, RedrawRequest::NextFrame);
    }
    lemma_inv(s, ui, next.model, next.interfaces, jobs);
}

/// The opening of a window goes well.
proof fn lemma_opening<H: Host, U>(
    s: Model<H>,
    ui: Map<u64, U>,
    opening: Opening<H>,
    reply: Reply<H, U>,
)
    requires
        inv(s, ui),
        s.agenda.len() > 0,
        s.agenda[0] == Job::<H>::Opening(opening),
        accepts(s, reply),
    ensures
        goes_well(open_step(rest_of(s), ui, opening, reply)),
{
    reveal(open_step);
    let rest = rest_of(s);
    let next = open_step(rest, ui, opening, reply);
    match opening {
        Opening::MakeCompositor | Opening::AwaitCompositor => {
            lemma_all_present(s, ui);
            assert(composes(s.agenda[0]));
            assert(s.agenda[1] matches Job::Opening(Opening::Open { .. }));
            assert(rest.agenda =~= seq![s.agenda[1]]);
        },
        Opening::Open { .. } => {
            lemma_all_present(s, ui);
            assert(next.model.agenda.len() == s.agenda.len());
            assert forall|i: int| 1 <= i < s.agenda.len() implies next.model.agenda[i]
                == s.agenda[i] by {}
            assert(opens(next.model.agenda[0]));
        },
        Opening::AwaitWindow { id, raw, exit_on_close_request, make_visible, channel } => {
            lemma_all_present(s, ui);
            let window = Window {
                id,
                raw,
                exit_on_close_request,
                redraw_at: None,
                surface_version: reply->Window_surface_version,
                inner: reply->window,
            };
            lemma_inserted(s.windows, window);
            let n = next.model.agenda.len() - rest.agenda.len();
            let jobs = next.model.agenda.take(n);
            assert(next.model.agenda =~= jobs + rest.agenda);
            assert(next.model.windows.ids().contains(id));
            assert(fits(next.model.windows, s.agenda[0], jobs));
            lemma_orderly(s, next.model, jobs);
            assert(jobs[0] == Job::<H>::Opening(Opening::FirstInterface { id }));
        },
        Opening::FirstInterface { id } => {
            let jobs = seq![Job::<H>::Opening(Opening::AwaitFirst { id })];
            lemma_inv(s, ui, next.model, next.interfaces, jobs);
        },
        Opening::AwaitFirst { id } => {
            assert(next.model.agenda =~= Seq::<Job<H>>::empty() + s.agenda.drop_first());
            assert(next.interfaces.dom() =~= s.windows.ids());
            assert(next.model.ui_caches.dom() =~= s.windows.ids());
            lemma_inv(s, ui, next.model, next.interfaces, seq![]);
        },
        Opening::ReadOpened { id } => {
            lemma_all_present(s, ui);
            let jobs = seq![Job::<H>::Opening(Opening::AwaitOpened { id })];
            lemma_inv(s, ui, next.model, next.interfaces, jobs);
        },
        Opening::AwaitOpened { .. } | Opening::Finish => {
            lemma_all_present(s, ui);
            assert(next.model.agenda =~= Seq::<Job<H>>::empty() + s.agenda.drop_first());
            lemma_inv(s, ui, next.model, next.interfaces, seq![]);
        },
    }
}

/// Going on with new jobs that fit goes well, as long as the user interfaces are accounted for and
/// no window is opened or closed.
proof fn lemma_goes_on<H: Host, U>(
    s: Model<H>,
    ui: Map<u64, U>,
    rest: Model<H>,
    interfaces: Map<u64, U>,
    jobs: Seq<Job<H>>,
    command: Command<H, U>,
)
    requires
        inv(s, ui),
        s.agenda.len() > 0,
        rest.agenda == s.agenda.drop_first(),
        fits(rest.windows, s.agenda[0], jobs),
        !opens(s.agenda[0]),
        s.windows.ids() == rest.windows.ids(),
        s.windows.entries.len() == rest.windows.entries.len(),
        rest.windows.sorted(),
        s.compositor == rest.compositor,
        jobs.len() > 0 ==> covered(first_do(rest, jobs), interfaces) && cached(
            first_do(rest, jobs),
        ),
        jobs.len() == 0 ==> {
            &&& rest.caches.dom() =~= Set::empty()
            &&& interfaces.dom() =~= s.windows.ids()
            &&& rest.ui_caches.dom() =~= s.windows.ids()
        },
        feasible(rest, interfaces, command),
        jobs.len() > 0 ==> forall|reply: Reply<H, U>| #[trigger]
            answers(command, reply) ==> job_accepts(rest, jobs[0], reply),
    ensures
        goes_well(goes_on(rest, interfaces, jobs, command)),
{
    lemma_inv(s, ui, first_do(rest, jobs), interfaces, jobs);
}

/// Going on with new jobs that fit goes well while all user interfaces stay in place.
proof fn lemma_plain<H: Host, U>(
    s: Model<H>,
    ui: Map<u64, U>,
    rest: Model<H>,
    jobs: Seq<Job<H>>,
    command: Command<H, U>,
)
    requires
        inv(s, ui),
        s.agenda.len() > 0,
        !(s.agenda[0] is Refresh),
        lent(s.agenda[0]) =~= Set::empty(),
        !opens(s.agenda[0]),
        rest.agenda == s.agenda.drop_first(),
        fits(rest.windows, s.agenda[0], jobs),
        s.windows.ids() == rest.windows.ids(),
        s.windows.entries.len() == rest.windows.entries.len(),
        rest.windows.sorted(),
        s.compositor == rest.compositor,
        s.caches == rest.caches,
        s.ui_caches == rest.ui_caches,
        jobs.len() > 0 ==> !(jobs[0] is Refresh) && lent(jobs[0]) =~= Set::empty(),
        feasible(rest, ui, command),
        jobs.len() > 0 ==> forall|reply: Reply<H, U>| #[trigger]
            answers(command, reply) ==> job_accepts(rest, jobs[0], reply),
    ensures
        goes_well(goes_on(rest, ui, jobs, command)),
{
    lemma_all_present(s, ui);
    if jobs.len() > 0 {
        assert(newborn(jobs[0]) =~= Set::empty());
        assert(first_do(rest, jobs).agenda[0] == jobs[0]);
    }
    lemma_goes_on(s, ui, rest, ui, jobs, command);
}

/// Going on with no new job goes well while all user interfaces stay in place.
proof fn lemma_done<H: Host, U>(
    s: Model<H>,
    ui: Map<u64, U>,
    rest: Model<H>,
    command: Command<H, U>,
)
    requires
        inv(s, ui),
        s.agenda.len() > 0,
        !(s.agenda[0] is Refresh),
        lent(s.agenda[0]) =~= Set::empty(),
        !opens(s.agenda[0]),
        !composes(s.agenda[0]),
        rest.agenda == s.agenda.drop_first(),
        s.windows.ids() == rest.windows.ids(),
        s.windows.entries.len() == rest.windows.entries.len(),
        rest.windows.sorted(),
        s.compositor == rest.compositor,
        s.caches == rest.caches,
        s.ui_caches == rest.ui_caches,
        feasible(rest, ui, command),
    ensures
        goes_well(goes_on(rest, ui, seq![], command)),
{
    lemma_plain(s, ui, rest, seq![], command);
}

/// Going on with one new job that fits goes well while all user interfaces stay in place.
proof fn lemma_one<H: Host, U>(
    s: Model<H>,
    ui: Map<u64, U>,
    rest: Model<H>,
    job: Job<H>,
    command: Command<H, U>,
)
    requires
        inv(s, ui),
        s.agenda.len() > 0,
        !(s.agenda[0] is Refresh),
        lent(s.agenda[0]) =~= Set::empty(),
        !opens(s.agenda[0]),
        !composes(s.agenda[0]),
        rest.agenda == s.agenda.drop_first(),
        s.windows.ids() == rest.windows.ids(),
        s.windows.entries.len() == rest.windows.entries.len(),
        rest.windows.sorted(),
        s.compositor == rest.compositor,
        s.caches == rest.caches,
        s.ui_caches == rest.ui_caches,
        job_valid(rest.windows, job),
        !composes(job),
        !opens(job),
        may_close(job) ==> may_close(s.agenda[0]),
        !(job is Refresh),
        lent(job) =~= Set::empty(),
        feasible(rest, ui, command),
        forall|reply: Reply<H, U>| #[trigger]
            answers(command, reply) ==> job_accepts(rest, job, reply),
    ensures
        goes_well(goes_on(rest, ui, seq![job], command)),
{
    lemma_plain(s, ui, rest, seq![job], command);
}

/// A request to a window goes well.
proof fn lemma_request<H: Host, U>(
    s: Model<H>,
    ui: Map<u64, U>,
    id: u64,
    request: WindowRequest<H>,
)
    requires
        inv(s, ui),
        s.agenda.len() > 0,
        s.agenda[0] == Job::Acting(Acting::Run(Action::Window(WindowAction::On(id, request)))),
    ensures
        goes_well(request_step(rest_of(s), ui, id, request)),
{
    reveal(request_step);
    let rest = rest_of(s);
    let next = request_step(rest, ui, id, request);
    let jobs = next.model.agenda.take(next.model.agenda.len() - rest.agenda.len());
    assert(next.model.agenda =~= jobs + rest.agenda);
    assert(next == goes_on(rest, ui, jobs, next.command));
    lemma_all_present(s, ui);
    lemma_plain(s, ui, rest, jobs, next.command);
}

/// The closing of a window goes well.
proof fn lemma_closed<H: Host, U>(s: Model<H>, ui: Map<u64, U>, id: u64)
    requires
        inv(s, ui),
        s.agenda.len() > 0,
        s.agenda[0] == Job::<H>::Acting(Acting::Run(Action::Window(WindowAction::Close(id)))),
    ensures
        goes_well(closed(rest_of(s), ui, id)),
{
    let rest = rest_of(s);
    let next = closed(rest, ui, id);
    let n = next.model.agenda.len() - rest.agenda.len();
    let windows = s.windows.removed(id);
    lemma_all_present(s, ui);
    lemma_removed(s.windows, id);
    lemma_ids_parted(windows, 0);
    assert(s.windows.ids().contains(id) == s.windows.has(id));
    assert(may_close(s.agenda[0]));
    assert forall|i: int| 0 <= i < rest.agenda.len() implies {
        &&& next.model.agenda[n + i] == rest.agenda[i]
        &&& rest.agenda[i] == s.agenda[i + 1]
        &&& concerns(#[trigger] rest.agenda[i]) is None
        &&& job_valid(windows, rest.agenda[i])
        &&& !passing(rest.agenda[i])
        &&& !opens(rest.agenda[i])
        &&& !composes(rest.agenda[i])
    } by {
        assert(concerns(s.agenda[i + 1]) is None);
        assert(job_valid(s.windows, s.agenda[i + 1]));
        assert(!passing(s.agenda[i + 1]));
    }
    assert forall|i: int| n <= i < next.model.agenda.len() implies #[trigger] next.model.agenda[i]
        == rest.agenda[i - n] by {}
    assert forall|i: int| 0 <= i < n implies {
        let job = #[trigger] next.model.agenda[i];
        &&& job_valid(windows, job)
        &&& !passing(job)
        &&& !opens(job)
        &&& !composes(job)
        &&& !may_close(job)
    } by {}
    assert(ui.remove(id).dom() =~= windows.ids());
    assert(s.ui_caches.remove(id).dom() =~= windows.ids());
    if next.model.agenda.len() > 0 {
        let top = next.model.agenda[0];
        assert(top == if n > 0 { top } else { rest.agenda[0] });
        assert(lent(top) =~= Set::empty());
        assert(newborn(top) =~= Set::empty());
    }
    assert(orderly(next.model)) by {
        assert forall|i: int, j: int|
            0 <= i < j < next.model.agenda.len() && may_close(
                #[trigger] next.model.agenda[i],
            ) implies concerns(#[trigger] next.model.agenda[j]) is None by {
            assert(next.model.agenda[j] == rest.agenda[j - n]);
        }
    }
}

/// An action on the windows goes well.
proof fn lemma_window_action<H: Host, U>(s: Model<H>, ui: Map<u64, U>, action: WindowAction<H>)
    requires
        inv(s, ui),
        s.agenda.len() > 0,
        s.agenda[0] == Job::Acting(Acting::Run(Action::Window(action))),
    ensures
        goes_well(window_action_step(rest_of(s), ui, action)),
{
    reveal(window_action_step);
    let rest = rest_of(s);
    let next = window_action_step(rest, ui, action);
    match action {
        WindowAction::Close(id) => {
            lemma_closed(s, ui, id);
        },
        WindowAction::On(id, request) => {
            lemma_request(s, ui, id, request);
        },
        WindowAction::Open(id, settings, channel) => {
            lemma_done(s, ui, Model { is_window_opening: true, ..rest }, next.command);
        },
        WindowAction::RedrawAll => {
            let job = Job::Sweep(Sweep::Redraw { next: 0, except: None });
            lemma_one(s, ui, rest, job, Command::Proceed);
        },
        WindowAction::RelayoutAll => {
            let job = Job::Acting(Acting::RelayoutAll { next: 0 });
            lemma_one(s, ui, rest, job, Command::Proceed);
        },
        _ => {
            lemma_done(s, ui, rest, next.command);
        },
    }
}

/// An action goes well.
proof fn lemma_action<H: Host, U>(s: Model<H>, ui: Map<u64, U>, action: Action<H>)
    requires
        inv(s, ui),
        s.agenda.len() > 0,
        s.agenda[0] == Job::Acting(Acting::Run(action)),
    ensures
        goes_well(action_step(rest_of(s), ui, action)),
{
    reveal(action_step);
    let rest = rest_of(s);
    let next = action_step(rest, ui, action);
    match action {
        Action::Window(action) => {
            lemma_window_action(s, ui, action);
        },
        Action::Output(message) => {
            let told = Model { messages: s.messages.push(message), ..rest };
            lemma_done(s, ui, told, next.command);
        },
        Action::System(SystemAction::NotifyTheme(mode)) => {
            let (noted, told) = theme_noted(rest, mode);
            let changed = match theme_of(mode) {
                Some(theme) => seq![Job::<H>::Sweep(Sweep::ChangeTheme { next: 0, theme })],
                None => seq![],
            };
            lemma_plain(s, ui, noted, told + changed, next.command);
        },
        Action::Widget(operation) => {
            let job = Job::Acting(Acting::Operate { operation, next: 0 });
            lemma_one(s, ui, rest, job, next.command);
        },
        Action::Reload => {
            let job = Job::<H>::Acting(Acting::ReloadAll { next: 0 });
            lemma_one(s, ui, rest, job, next.command);
        },
        _ => {
            lemma_ids_parted(s.windows, 0);
            lemma_done(s, ui, rest, next.command);
        },
    }
}

/// The run of an action goes well.
proof fn lemma_act<H: Host, U>(
    s: Model<H>,
    ui: Map<u64, U>,
    acting: Acting<H>,
    reply: Reply<H, U>,
)
    requires
        inv(s, ui),
        s.windows.entries.len() <= usize::MAX,
        s.agenda.len() > 0,
        s.agenda[0] == Job::Acting(acting),
        accepts(s, reply),
    ensures
        goes_well(act_step(rest_of(s), ui, acting, reply)),
{
    reveal(act_step);
    let rest = rest_of(s);
    let next = act_step(rest, ui, acting, reply);
    let windows = s.windows.entries;
    assert(job_valid(s.windows, s.agenda[0]));
    match acting {
        Acting::Run(action) => {
            lemma_action(s, ui, action);
        },
        Acting::Count => {
            lemma_done(s, ui, Model { actions: s.actions + 1, ..rest }, next.command);
        },
        Acting::Operate { operation, next: place } => {
            if place < windows.len() {
                lemma_all_present(s, ui);
                lemma_ids_parted(s.windows, place as int);
                let job = Job::Acting(Acting::AwaitOperation { next: after(place) });
                lemma_one(s, ui, rest, job, next.command);
            } else {
                lemma_one(s, ui, rest, Job::Acting(Acting::AwaitOutcome), next.command);
            }
        },
        Acting::AwaitOperation { next: place } => {
            let operation = reply->Operation_0;
            let job = Job::Acting(Acting::Operate { operation, next: place });
            lemma_one(s, ui, rest, job, next.command);
        },
        Acting::AwaitOutcome => {
            if let Reply::Outcome(Some(operation)) = reply {
                let job = Job::Acting(Acting::Operate { operation, next: 0 });
                lemma_one(s, ui, rest, job, next.command);
            } else {
                lemma_done(s, ui, rest, next.command);
            }
        },
        Acting::RelayoutAll { next: place } => {
            if place < windows.len() {
                let id = windows[place as int].id;
                let job = Job::Acting(Acting::AwaitRelaid { id, next: after(place) });
                lemma_ids_parted(s.windows, place as int);
                lemma_lending(s, ui, id, job, next.command);
            } else {
                lemma_done(s, ui, rest, next.command);
            }
        },
        Acting::ReloadAll { next: place } => {
            if place < windows.len() {
                let id = windows[place as int].id;
                let job = Job::Acting(Acting::AwaitReloadCache { id, next: after(place) });
                lemma_ids_parted(s.windows, place as int);
                lemma_lending(s, ui, id, job, next.command);
            } else {
                lemma_done(s, ui, rest, next.command);
            }
        },
        Acting::AwaitRelaid { id, next: place } => {
            let job = Job::Acting(Acting::RelayoutAll { next: place });
            lemma_returning(s, ui, id, reply->Interface_0, seq![job], next.command);
        },
        Acting::AwaitReloadCache { id, next: place } => {
            let jobs = seq![Job::<H>::Acting(Acting::AwaitReloaded { id, next: place })];
            assert(first_do(rest, jobs).agenda[0] == jobs[0]);
            assert(newborn(s.agenda[0]) =~= newborn(jobs[0]));
            lemma_goes_on(s, ui, rest, ui, jobs, next.command);
        },
        Acting::AwaitReloaded { id, next: place } => {
            let job = Job::Acting(Acting::ReloadAll { next: place });
            lemma_returning(s, ui, id, reply->Interface_0, seq![job], next.command);
        },
        Acting::AwaitMode { .. }
        | Acting::AwaitMaximized { .. }
        | Acting::AwaitDecorated { .. }
        | Acting::AwaitCursor { .. } => {
            lemma_done(s, ui, rest, next.command);
        },
    }
}

/// Taking the user interface of a window away goes well, with a job that brings it back.
proof fn lemma_lending<H: Host, U>(
    s: Model<H>,
    ui: Map<u64, U>,
    id: u64,
    job: Job<H>,
    command: Command<H, U>,
)
    requires
        inv(s, ui),
        s.agenda.len() > 0,
        !(s.agenda[0] is Refresh),
        lent(s.agenda[0]) =~= Set::empty(),
        !opens(s.agenda[0]),
        !composes(s.agenda[0]),
        s.windows.has(id),
        job_valid(s.windows, job),
        !composes(job),
        !opens(job),
        !may_close(job),
        !(job is Refresh),
        lent(job) =~= set![id],
        newborn(job) =~= Set::empty(),
        feasible(s, ui.remove(id), command),
        forall|reply: Reply<H, U>| #[trigger]
            answers(command, reply) ==> job_accepts(rest_of(s), job, reply),
    ensures
        goes_well(goes_on(rest_of(s), ui.remove(id), seq![job], command)),
{
    lemma_all_present(s, ui);
    assert(s.windows.ids().contains(id));
    assert(ui.remove(id).dom().union(set![id]) =~= s.windows.ids());
    assert(first_do(rest_of(s), seq![job]).agenda[0] == job);
    lemma_goes_on(s, ui, rest_of(s), ui.remove(id), seq![job], command);
}

/// Bringing the user interface of a window back goes well.
proof fn lemma_returning<H: Host, U>(
    s: Model<H>,
    ui: Map<u64, U>,
    id: u64,
    interface: U,
    jobs: Seq<Job<H>>,
    command: Command<H, U>,
)
    requires
        inv(s, ui),
        s.agenda.len() > 0,
        !(s.agenda[0] is Refresh),
        lent(s.agenda[0]) =~= set![id],
        newborn(s.agenda[0]) =~= Set::empty(),
        !opens(s.agenda[0]),
        s.windows.has(id),
        fits(s.windows, s.agenda[0], jobs),
        jobs.len() > 0 ==> !(jobs[0] is Refresh) && lent(jobs[0]) =~= Set::empty(),
        feasible(s, ui.insert(id, interface), command),
        jobs.len() > 0 ==> forall|reply: Reply<H, U>| #[trigger]
            answers(command, reply) ==> job_accepts(rest_of(s), jobs[0], reply),
    ensures
        goes_well(goes_on(rest_of(s), ui.insert(id, interface), jobs, command)),
{
    let rest = rest_of(s);
    assert(s.windows.ids().contains(id));
    assert(ui.insert(id, interface).dom() =~= s.windows.ids());
    if jobs.len() > 0 {
        assert(newborn(jobs[0]) =~= Set::empty());
        assert(first_do(rest, jobs).agenda[0] == jobs[0]);
    }
    lemma_goes_on(s, ui, rest, ui.insert(id, interface), jobs, command);
}

/// The update of the program and of all user interfaces goes well.
proof fn lemma_refresh<H: Host, U>(
    s: Model<H>,
    ui: Map<u64, U>,
    refresh: Refresh,
    reply: Reply<H, U>,
)
    requires
        inv(s, ui),
        s.windows.entries.len() <= usize::MAX,
        s.agenda.len() > 0,
        s.agenda[0] == Job::<H>::Refresh(refresh),
        accepts(s, reply),
    ensures
        goes_well(refresh_step(rest_of(s), ui, refresh, reply)),
{
    reveal(refresh_step);
    let rest = rest_of(s);
    let next = refresh_step(rest, ui, refresh, reply);
    let n = next.model.agenda.len() - rest.agenda.len();
    let jobs = next.model.agenda.take(n);
    assert(next.model.agenda =~= jobs + rest.agenda);
    let after = Model { agenda: rest.agenda, ..next.model };
    assert(next.model == first_do(after, jobs));
    assert(newborn(s.agenda[0]) =~= Set::empty());
    match refresh {
        Refresh::Caching { next: place } => {
            lemma_ids_parted(s.windows, place as int);
            if place < s.windows.entries.len() {
                let id = s.windows.entries[place as int].id;
                assert(s.windows.ids_from(place + 1) =~= ui.remove(id).dom());
            }
        },
        Refresh::AwaitCache { id, next: place } => {
            lemma_ids_parted(s.windows, place - 1);
        },
        Refresh::Updating => {},
        Refresh::Building => {
            lemma_build(s.build, s.windows, ui, built(reply));
        },
    }
    lemma_goes_on(s, ui, after, next.interfaces, jobs, next.command);
}

/// The construction of user interfaces keeps each window with a cache or a user interface.
proof fn lemma_build<W, C, U>(
    build: BuildView<C>,
    windows: Windows<W>,
    ui: Map<u64, U>,
    interface: Option<U>,
)
    requires
        windows.sorted(),
        windows.entries.len() <= usize::MAX,
        build_covers(build, windows, ui),
        build_fits(build, windows),
        build_accepts(build, interface),
    ensures
        ({
            let (after, interfaces, step) = build_step(build, windows, ui, interface);
            &&& build_covers(after, windows, interfaces)
            &&& build_fits(after, windows)
            &&& step is Done ==> interfaces.dom() =~= windows.ids()
            &&& step is Build <==> after.phase is AwaitInterface
            &&& step matches BuildStep::Build { id, .. } ==> windows.has(id)
            &&& step matches BuildStep::Synchronize(id) ==> windows.has(id)
        }),
{
    match build.phase {
        BuildPhase::Synchronizing { next } => {
            lemma_ids_parted(windows, next as int);
            lemma_ids_parted(windows, 0);
        },
        BuildPhase::Building { next } | BuildPhase::AwaitInterface { next, .. } => {
            lemma_ids_parted(windows, next as int);
            if next < windows.entries.len() {
                let id = windows.entries[next as int].id;
                assert(build.cached.remove(id).dom() =~= windows.ids_from(next + 1));
            }
        },
        BuildPhase::Done => {},
    }
}

/// The run of one of the collected actions goes well.
proof fn lemma_collected<H: Host, U>(s: Model<H>, ui: Map<u64, U>, defer: bool)
    requires
        inv(s, ui),
        s.agenda.len() > 0,
        s.agenda[0] == (Job::<H>::RunCollected { defer }),
    ensures
        goes_well(collected_step(rest_of(s), ui, defer)),
{
    reveal(collected_step);
    let rest = rest_of(s);
    let next = collected_step(rest, ui, defer);
    let n = next.model.agenda.len() - rest.agenda.len();
    let jobs = next.model.agenda.take(n);
    assert(next.model.agenda =~= jobs + rest.agenda);
    let after = Model { agenda: rest.agenda, ..next.model };
    assert(next.model == first_do(after, jobs));
    lemma_plain(s, ui, after, jobs, next.command);
}

/// The beginning of a frame goes well.
proof fn lemma_frame_begun<H: Host, U>(s: Model<H>, ui: Map<u64, U>, id: u64, version: u64)
    requires
        inv(s, ui),
        s.agenda.len() > 0,
        s.agenda[0] == Job::<H>::Frame(Frame::AwaitInspect { id }),
    ensures
        goes_well(
            goes_on(
                frame_begun(rest_of(s), id, version),
                ui,
                seq![],
                Command::Proceed,
            ),
        ),
{
    let rest = rest_of(s);
    let begun = frame_begun(rest, id, version);
    let jobs = begun.agenda.take(begun.agenda.len() - rest.agenda.len());
    assert(begun.agenda =~= jobs + rest.agenda);
    let after = Model { agenda: rest.agenda, ..begun };
    assert(first_do(begun, seq![]) =~= begun);
    assert(begun == first_do(after, jobs));
    assert(s.windows.has(id));
    let window = s.windows.at(id);
    assert(s.windows.entries[s.windows.place(id)].id == id);
    lemma_replaced(s.windows, Window { surface_version: version, ..window });
    lemma_same_ids(s.windows, after.windows);
    lemma_plain(s, ui, after, jobs, Command::Proceed);
}

/// The drawing of a frame goes well.
proof fn lemma_frame<H: Host, U>(s: Model<H>, ui: Map<u64, U>, frame: Frame, reply: Reply<H, U>)
    requires
        inv(s, ui),
        s.agenda.len() > 0,
        s.agenda[0] == Job::<H>::Frame(frame),
        accepts(s, reply),
    ensures
        goes_well(frame_step(rest_of(s), ui, frame, reply)),
{
    reveal(frame_step);
    let rest = rest_of(s);
    let next = frame_step(rest, ui, frame, reply);
    let n = next.model.agenda.len() - rest.agenda.len();
    let jobs = next.model.agenda.take(n);
    assert(next.model.agenda =~= next.model.agenda.take(n) + next.model.agenda.skip(n));
    match frame {
        Frame::AwaitInspect { id } => {
            if reply->width == 0 || reply->height == 0 {
                lemma_done(s, ui, rest, Command::Proceed);
            } else {
                lemma_frame_begun(s, ui, id, reply->Inspected_surface_version);
            }
        },
        Frame::Relayout { id } => {
            let job = Job::Frame(Frame::AwaitRelayout { id });
            assert(job_valid(s.windows, s.agenda[0]));
            lemma_lending(s, ui, id, job, next.command);
        },
        Frame::AwaitRelayout { id } => {
            assert(job_valid(s.windows, s.agenda[0]));
            lemma_returning(s, ui, id, reply->Interface_0, seq![], next.command);
        },
        Frame::AwaitRedraw { id, count } => {
            lemma_redrawn(s, ui, id, count, reply);
        },
        _ => {
            lemma_all_present(s, ui);
            assert(next.model == first_do(rest, jobs));
            lemma_plain(s, ui, rest, jobs, next.command);
        },
    }
}

/// Going on after a user interface was told of a frame goes well.
proof fn lemma_redrawn<H: Host, U>(
    s: Model<H>,
    ui: Map<u64, U>,
    id: u64,
    count: usize,
    reply: Reply<H, U>,
)
    requires
        inv(s, ui),
        s.agenda.len() > 0,
        s.agenda[0] == Job::<H>::Frame(Frame::AwaitRedraw { id, count }),
        accepts(s, reply),
    ensures
        goes_well(
            frame_step(
                rest_of(s),
                ui,
                Frame::AwaitRedraw { id, count },
                reply,
            ),
        ),
{
    reveal(frame_step);
    let rest = rest_of(s);
    let next = frame_step(rest, ui, Frame::AwaitRedraw { id, count }, reply);
    let n = next.model.agenda.len() - rest.agenda.len();
    let jobs = next.model.agenda.take(n);
    assert(next.model.agenda =~= jobs + rest.agenda);
    let after = Model { agenda: rest.agenda, ..next.model };
    assert(next.model == first_do(after, jobs));
    lemma_all_present(s, ui);
    lemma_ids_parted(s.windows, 0);
    assert(s.windows.has(id));
    if jobs[0] is Refresh {
        lemma_goes_on(s, ui, after, ui, jobs, next.command);
    } else {
        lemma_plain(s, ui, after, jobs, next.command);
    }
}

/// Going on after a user interface was shown its events goes well.
proof fn lemma_interacted<H: Host, U>(
    s: Model<H>,
    ui: Map<u64, U>,
    id: u64,
    place: usize,
    stale: bool,
    reply: Reply<H, U>,
)
    requires
        inv(s, ui),
        s.agenda.len() > 0,
        s.agenda[0] == Job::<H>::Waiting(Waiting::AwaitInteract { id, next: place, stale }),
        accepts(s, reply),
    ensures
        goes_well(
            wait_step(
                rest_of(s),
                ui,
                Waiting::AwaitInteract { id, next: place, stale },
                reply,
            ),
        ),
{
    reveal(wait_step);
    let rest = rest_of(s);
    let told = interacted(rest, id, place, stale, reply);
    let state = reply->Interacted_state;
    let had_events = s.window_events.len() > 0;
    let jobs = shown(s.config, id, had_events, state) + seq![
        Job::Waiting(Waiting::BroadcastShown { id }),
        Job::Waiting(Waiting::Deliver { next: place, stale: stale || state is Outdated }),
    ];
    let after = Model { agenda: rest.agenda, ..told };
    assert(first_do(told, seq![]) =~= told);
    assert(told == first_do(after, jobs));
    lemma_all_present(s, ui);
    assert(s.windows.has(id));
    let n = shown(s.config, id, had_events, state).len();
    assert forall|i: int| 0 <= i < n implies {
        let job = #[trigger] jobs[i];
        &&& job_valid(s.windows, job)
        &&& job is RequestRedraw || job is Emit
    } by {}
    lemma_plain(s, ui, after, jobs, Command::Proceed);
}

/// The delivery of events goes well.
proof fn lemma_wait<H: Host, U>(s: Model<H>, ui: Map<u64, U>, waiting: Waiting, reply: Reply<H, U>)
    requires
        inv(s, ui),
        s.windows.entries.len() <= usize::MAX,
        s.agenda.len() > 0,
        s.agenda[0] == Job::<H>::Waiting(waiting),
        accepts(s, reply),
    ensures
        goes_well(wait_step(rest_of(s), ui, waiting, reply)),
{
    reveal(wait_step);
    let rest = rest_of(s);
    let next = wait_step(rest, ui, waiting, reply);
    lemma_all_present(s, ui);
    match waiting {
        Waiting::Release => {
            let job = Job::<H>::Waiting(Waiting::Check);
            lemma_one(s, ui, Model { actions: 0, ..rest }, job, next.command);
        },
        Waiting::Check => {
            if s.events.len() == 0 && s.messages.len() == 0 && s.windows.idle() {
                lemma_done(s, ui, rest, Command::Proceed);
            } else {
                let job = Job::<H>::Waiting(Waiting::Deliver { next: 0, stale: false });
                lemma_one(s, ui, rest, job, Command::Proceed);
            }
        },
        Waiting::Deliver { next: place, stale } => {
            lemma_deliver(s, ui, place, stale);
        },
        Waiting::AwaitInteract { id, next: place, stale } => {
            lemma_interacted(s, ui, id, place, stale, reply);
        },
        Waiting::BroadcastShown { id } => {
            if s.window_events.len() > 0 && s.statuses.len() > 0 {
                let told = Model {
                    window_events: s.window_events.drop_first(),
                    statuses: s.statuses.drop_first(),
                    ..rest
                };
                let jobs = seq![Job::<H>::Waiting(Waiting::BroadcastShown { id })];
                assert(s.windows.has(id));
                lemma_plain(s, ui, told, jobs, next.command);
            } else {
                let told = Model { window_events: Seq::empty(), statuses: Seq::empty(), ..rest };
                lemma_done(s, ui, told, next.command);
            }
        },
        Waiting::BroadcastRest => {
            if s.events.len() > 0 {
                let told = Model { events: s.events.drop_first(), ..rest };
                let job = Job::<H>::Waiting(Waiting::BroadcastRest);
                lemma_one(s, ui, told, job, next.command);
            } else {
                lemma_done(s, ui, rest, next.command);
            }
        },
        Waiting::Finish { stale } => {
            if s.messages.len() > 0 || stale {
                let jobs = refresh_jobs::<H>(false) + seq![
                    Job::Sweep(Sweep::Redraw { next: 0, except: None }),
                    Job::Flow,
                ];
                lemma_ids_parted(s.windows, 0);
                assert(first_do(rest, jobs).agenda[0] == jobs[0]);
                assert(newborn(jobs[0]) =~= Set::empty());
                lemma_goes_on(s, ui, rest, ui, jobs, Command::Proceed);
            } else {
                lemma_one(s, ui, rest, Job::Flow, Command::Proceed);
            }
        },
    }
}

/// The delivery of events to a window goes well.
proof fn lemma_deliver<H: Host, U>(s: Model<H>, ui: Map<u64, U>, place: usize, stale: bool)
    requires
        inv(s, ui),
        s.windows.entries.len() <= usize::MAX,
        s.agenda.len() > 0,
        s.agenda[0] == Job::<H>::Waiting(Waiting::Deliver { next: place, stale }),
    ensures
        goes_well(deliver_step(rest_of(s), ui, place, stale)),
{
    let rest = rest_of(s);
    let next = deliver_step(rest, ui, place, stale);
    lemma_all_present(s, ui);
    lemma_ids_parted(s.windows, place as int);
    if place < s.windows.entries.len() {
        let id = s.windows.entries[place as int].id;
        let mine = events_of(s.events, id);
        let sorted = Model { events: events_but(s.events, id), ..rest };
        if mine.len() == 0 && s.messages.len() == 0 {
            let job = Job::<H>::Waiting(Waiting::Deliver { next: after(place), stale });
            lemma_one(s, ui, sorted, job, next.command);
        } else {
            let jobs = seq![
                Job::<H>::Waiting(Waiting::AwaitInteract { id, next: after(place), stale }),
            ];
            lemma_plain(s, ui, Model { window_events: mine, ..sorted }, jobs, next.command);
        }
    } else {
        let jobs = seq![
            Job::<H>::Waiting(Waiting::BroadcastRest),
            Job::<H>::Waiting(Waiting::Finish { stale }),
        ];
        lemma_plain(s, ui, rest, jobs, next.command);
    }
}

/// A job of its own goes well.
proof fn lemma_single<H: Host, U>(s: Model<H>, ui: Map<u64, U>, reply: Reply<H, U>)
    requires
        inv(s, ui),
        s.agenda.len() > 0,
        match s.agenda[0] {
            Job::Opening(_) | Job::Acting(_) | Job::Sweep(_) | Job::Refresh(_) => false,
            Job::RunCollected { .. } | Job::Frame(_) | Job::Waiting(_) => false,
            _ => true,
        },
        accepts(s, reply),
    ensures
        goes_well(single_step(rest_of(s), ui, s.agenda[0], reply)),
{
    reveal(single_step);
    let rest = rest_of(s);
    let next = single_step(rest, ui, s.agenda[0], reply);
    lemma_all_present(s, ui);
    assert(job_valid(s.windows, s.agenda[0]));
    match s.agenda[0] {
        Job::RequestRedraw { id, request } => {
            let asked = Model { windows: s.windows.requested(id, request), ..rest };
            lemma_requested(s.windows, id, request);
            lemma_same_ids(s.windows, asked.windows);
            lemma_done(s, ui, asked, next.command);
        },
        Job::Connect { id } => {
            if s.clipboard is None {
                let job = Job::<H>::AwaitConnected { id };
                lemma_one(s, ui, rest, job, next.command);
            } else {
                lemma_done(s, ui, rest, next.command);
            }
        },
        Job::AwaitConnected { id } => {
            let clipboard = if reply->Flag_0 {
                Some(s.windows.at(id).raw)
            } else {
                None
            };
            lemma_done(s, ui, Model { clipboard, ..rest }, next.command);
        },
        Job::ConvertEvent { id } | Job::ConvertTouch { id, .. } => {
            lemma_one(s, ui, rest, Job::AwaitEvent { id }, next.command);
        },
        Job::AwaitEvent { id } => {
            lemma_done(s, ui, noted(rest, id, reply), next.command);
        },
        _ => {
            lemma_done(s, ui, rest, next.command);
        },
    }
}

/// Every step of a running application goes well: each open window has a user interface whenever it
/// is needed, every command is about a window that is open, and there is a compositor exactly while
/// there are windows. Whatever answer a command is given, the application can go on from it.
pub proof fn steps_go_well<H: Host, U>(s: Model<H>, ui: Map<u64, U>, reply: Reply<H, U>)
    requires
        inv(s, ui),
        s.windows.entries.len() <= usize::MAX,
        accepts(s, reply),
    ensures
        goes_well(step(s, ui, reply)),
{
    if s.agenda.len() > 0 {
        match s.agenda[0] {
            Job::Opening(opening) => lemma_opening(s, ui, opening, reply),
            Job::Acting(acting) => lemma_act(s, ui, acting, reply),
            Job::Sweep(sweep) => lemma_sweep(s, ui, sweep),
            Job::Refresh(refresh) => lemma_refresh(s, ui, refresh, reply),
            Job::RunCollected { defer } => lemma_collected(s, ui, defer),
            Job::Frame(frame) => lemma_frame(s, ui, frame, reply),
            Job::Waiting(waiting) => lemma_wait(s, ui, waiting, reply),
            _ => lemma_single(s, ui, reply),
        }
    }
}

/// What always holds is enough for the next job.
pub proof fn lemma_ready<H: Host, U>(s: Model<H>, ui: Map<u64, U>, reply: Reply<H, U>)
    requires
        inv(s, ui),
        s.agenda.len() > 0,
        s.actions < usize::MAX,
        accepts(s, reply),
    ensures
        ready(rest_of(s), ui, s.agenda[0], reply),
{
    let job = s.agenda[0];
    assert(job_valid(s.windows, job));
    if takes(s, job) is Some {
        let id = takes(s, job)->0;
        match job {
            Job::Refresh(Refresh::Caching { next }) => {
                lemma_ids_parted(s.windows, next as int);
                assert(ui.dom().contains(id));
            },
            Job::Acting(Acting::RelayoutAll { next }) | Job::Acting(Acting::ReloadAll { next }) => {
                lemma_ids_parted(s.windows, next as int);
                lemma_all_present(s, ui);
            },
            _ => {
                lemma_all_present(s, ui);
            },
        }
    }
}

/// An application starts well.
pub proof fn starts_well<H: Host, U>(config: Config)
    ensures
        inv(initial::<H>(config), Map::<u64, U>::empty()),
{
    let s = initial::<H>(config);
    assert(s.windows.ids() =~= Set::empty());
}

/// Taking up jobs that fit goes well when there is nothing else to do.
proof fn lemma_taken<H: Host, U>(s: Model<H>, ui: Map<u64, U>, rest: Model<H>, jobs: Seq<Job<H>>)
    requires
        inv(s, ui),
        s.agenda.len() == 0,
        rest == (Model { system_theme: rest.system_theme, ..s }),
        forall|i: int|
            0 <= i < jobs.len() ==> {
                &&& job_valid(s.windows, #[trigger] jobs[i])
                &&& !composes(jobs[i])
                &&& !opens(jobs[i])
                &&& !passing(jobs[i])
                &&& may_close(jobs[i]) ==> forall|j: int|
                    i < j < jobs.len() ==> concerns(#[trigger] jobs[j]) is None
            },
    ensures
        inv(first_do(rest, jobs), ui),
        accepts(first_do(rest, jobs), Reply::<H, U>::Done),
{
    assert(first_do(rest, jobs).agenda =~= jobs);
    if jobs.len() > 0 {
        assert(!passing(jobs[0]));
        assert(lent(jobs[0]) =~= Set::empty());
        assert(newborn(jobs[0]) =~= Set::empty());
    }
}

/// An event that comes in when there is nothing left to do is taken well.
pub proof fn events_are_taken_well<H: Host, U>(s: Model<H>, ui: Map<u64, U>, event: Event<H>)
    requires
        inv(s, ui),
        s.agenda.len() == 0,
    ensures
        inv(received(s, event), ui),
        accepts(received(s, event), Reply::<H, U>::Done),
{
    let after = received(s, event);
    match event {
        Event::WindowCreated { .. } => {
            assert(after.agenda.len() > 0);
            assert(lent(after.agenda[0]) =~= Set::empty());
            assert(newborn(after.agenda[0]) =~= Set::empty());
        },
        Event::WindowEvent { raw, input } => {
            lemma_input_taken(s, ui, raw, input);
        },
        Event::Exit => {},
        _ => {
            assert(first_do(s, seq![]) =~= s);
            assert(s.agenda =~= seq![]);
            assert(after.agenda =~= after.agenda + s.agenda);
            assert(after == first_do(s, after.agenda));
            lemma_taken(s, ui, s, after.agenda);
        },
    }
}

/// An event of a window is taken well.
proof fn lemma_input_taken<H: Host, U>(s: Model<H>, ui: Map<u64, U>, raw: u64, input: WindowInput)
    requires
        inv(s, ui),
        s.agenda.len() == 0,
    ensures
        inv(input_received(s, raw, input), ui),
        accepts(input_received(s, raw, input), Reply::<H, U>::Done),
{
    let after = input_received(s, raw, input);
    assert(first_do(s, seq![]) =~= s);
    assert(s.agenda =~= seq![]);
    assert(after.agenda =~= after.agenda + s.agenda);
    let rest = Model { system_theme: after.system_theme, ..s };
    assert(after == first_do(rest, after.agenda));
    lemma_taken(s, ui, rest, after.agenda);
}

} // verus!
