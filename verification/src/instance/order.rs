//! What holds of a running application at all times.

use super::model::Next;
use super::protocol::{accepts, answers, concerns, job_valid};
use super::{Acting, Command, Effect, Frame, Job, Model, Opening, Refresh, Reply, Waiting};
use crate::action::{Action, WindowAction};
use crate::host::Host;
use crate::rebuild::{build_fits, BuildPhase, BuildView};
use crate::window_man::{Window, Windows};
use vstd::prelude::*;

verus! {

/// Whether a job waits for a reply.
pub open spec fn awaits<H: Host>(job: Job<H>) -> bool {
    match job {
        Job::Opening(opening) => opening is AwaitCompositor || opening is AwaitWindow
            || opening is AwaitFirst || opening is AwaitOpened,
        Job::Acting(acting) => acting is AwaitOperation || acting is AwaitOutcome
            || acting is AwaitRelaid || acting is AwaitReloadCache || acting is AwaitReloaded
            || acting is AwaitMode || acting is AwaitMaximized || acting is AwaitDecorated
            || acting is AwaitCursor,
        Job::Frame(frame) => frame is AwaitInspect || frame is AwaitRelayout || frame is AwaitRedraw
            || frame is AwaitSize || frame is AwaitPresent,
        Job::Waiting(waiting) => waiting is AwaitInteract,
        Job::AwaitConnected { .. } | Job::AwaitEvent { .. } => true,
        _ => false,
    }
}

/// The windows whose user interface is away while a job is the next one.
pub open spec fn lent<H: Host>(job: Job<H>) -> Set<u64> {
    match job {
        Job::Opening(Opening::FirstInterface { id }) => set![id],
        Job::Opening(Opening::AwaitFirst { id }) => set![id],
        Job::Acting(Acting::AwaitRelaid { id, .. }) => set![id],
        Job::Acting(Acting::AwaitReloadCache { id, .. }) => set![id],
        Job::Acting(Acting::AwaitReloaded { id, .. }) => set![id],
        Job::Frame(Frame::AwaitRelayout { id }) => set![id],
        _ => Set::empty(),
    }
}

/// The windows that have no cache yet while a job is the next one.
pub open spec fn newborn<H: Host>(job: Job<H>) -> Set<u64> {
    match job {
        Job::Opening(_) => lent(job),
        _ => Set::empty(),
    }
}

/// Whether a job only makes sense as the next one.
pub open spec fn passing<H: Host>(job: Job<H>) -> bool {
    awaits(job) || job is Refresh || job matches Job::Opening(Opening::FirstInterface { .. })
}

/// Whether a job makes the compositor.
pub open spec fn composes<H: Host>(job: Job<H>) -> bool {
    job matches Job::Opening(opening) && (opening is MakeCompositor || opening is AwaitCompositor)
}

/// Whether a job brings a window in.
pub open spec fn opens<H: Host>(job: Job<H>) -> bool {
    job matches Job::Opening(opening) && (opening is Open || opening is AwaitWindow)
}

/// Whether a job can lead to a window being closed.
pub open spec fn may_close<H: Host>(job: Job<H>) -> bool {
    match job {
        Job::Acting(Acting::Run(Action::Window(WindowAction::Close(_)))) => true,
        Job::RunCollected { defer } => !defer,
        Job::Waiting(waiting) => !(waiting is BroadcastShown),
        _ => false,
    }
}

/// While user interfaces are built, each window has a cache or a user interface, by its place.
pub open spec fn build_covers<W, C, U>(
    build: BuildView<C>,
    windows: Windows<W>,
    ui: Map<u64, U>,
) -> bool {
    match build.phase {
        BuildPhase::Synchronizing { .. } => {
            &&& build.cached.dom() =~= windows.ids()
            &&& ui.dom() =~= Set::empty()
        },
        BuildPhase::Building { next } => {
            &&& build.cached.dom() =~= windows.ids_from(next as int)
            &&& ui.dom() =~= windows.ids_before(next as int)
        },
        BuildPhase::AwaitInterface { next, .. } => {
            &&& build.cached.dom() =~= windows.ids_from(next + 1)
            &&& ui.dom() =~= windows.ids_before(next as int)
        },
        BuildPhase::Done => ui.dom() =~= windows.ids(),
    }
}

/// While the program is updated, each window has a user interface or a cache.
pub open spec fn refresh_covers<H: Host, U>(s: Model<H>, ui: Map<u64, U>, refresh: Refresh) -> bool {
    match refresh {
        Refresh::Caching { next } => {
            &&& ui.dom() =~= s.windows.ids_from(next as int)
            &&& s.caches.dom() =~= s.windows.ids_before(next as int)
        },
        Refresh::AwaitCache { id, next } => {
            &&& 0 < next <= s.windows.entries.len()
            &&& s.windows.entries[next - 1].id == id
            &&& ui.dom() =~= s.windows.ids_from(next as int)
            &&& s.caches.dom() =~= s.windows.ids_before(next - 1)
        },
        Refresh::Updating => {
            &&& ui.dom() =~= Set::empty()
            &&& s.caches.dom() =~= s.windows.ids()
        },
        Refresh::Building => {
            &&& s.caches.dom() =~= Set::empty()
            &&& build_covers(s.build, s.windows, ui)
            &&& build_fits(s.build, s.windows)
        },
    }
}

/// Every open window has a user interface, and there is none without its window. While one is away
/// the next job brings it back, and while all are away the next job builds them.
pub open spec fn covered<H: Host, U>(s: Model<H>, ui: Map<u64, U>) -> bool {
    if s.agenda.len() == 0 {
        &&& s.caches.dom() =~= Set::empty()
        &&& ui.dom() =~= s.windows.ids()
    } else {
        match s.agenda[0] {
            Job::Refresh(refresh) => refresh_covers(s, ui, refresh),
            job => {
                &&& s.caches.dom() =~= Set::empty()
                &&& ui.dom().union(lent(job)) =~= s.windows.ids()
            },
        }
    }
}

/// Every open window has a fresh cache, and there is none without its window.
pub open spec fn cached<H: Host>(s: Model<H>) -> bool {
    if s.agenda.len() == 0 {
        s.ui_caches.dom() =~= s.windows.ids()
    } else {
        s.ui_caches.dom().union(newborn(s.agenda[0])) =~= s.windows.ids()
    }
}

/// There is a compositor exactly while there is a window, or one about to come in.
pub open spec fn composed<H: Host>(s: Model<H>) -> bool {
    s.compositor <==> s.windows.entries.len() > 0 || (s.agenda.len() > 0 && opens(s.agenda[0]))
}

/// The jobs are in order: they are about open windows, those that only make sense as the next one
/// are, and nothing that is about a window comes after something that can close one.
pub open spec fn orderly<H: Host>(s: Model<H>) -> bool {
    &&& forall|i: int| 0 <= i < s.agenda.len() ==> job_valid(s.windows, #[trigger] s.agenda[i])
    &&& forall|i: int| 1 <= i < s.agenda.len() ==> !passing(#[trigger] s.agenda[i])
    &&& forall|i: int|
        0 <= i < s.agenda.len() && composes(#[trigger] s.agenda[i]) ==> {
            &&& i == 0
            &&& s.agenda.len() == 2
            &&& s.agenda[1] matches Job::Opening(Opening::Open { .. })
        }
    &&& forall|i: int|
        0 <= i < s.agenda.len() && opens(#[trigger] s.agenda[i]) ==> i == 0 || (i == 1 && composes(
            s.agenda[0],
        ))
    &&& forall|i: int, j: int|
        0 <= i < j < s.agenda.len() && may_close(#[trigger] s.agenda[i]) ==> concerns(
            #[trigger] s.agenda[j],
        ) is None
}

/// What holds of a running application and the user interfaces of its windows at all times.
pub open spec fn inv<H: Host, U>(s: Model<H>, ui: Map<u64, U>) -> bool {
    &&& s.windows.sorted()
    &&& covered(s, ui)
    &&& cached(s)
    &&& composed(s)
    &&& orderly(s)
}

/// Whether all that a command is about is there: a window that is open, with its user interface
/// where the command needs it.
pub open spec fn feasible<H: Host, U>(s: Model<H>, ui: Map<u64, U>, command: Command<H, U>) -> bool {
    match command {
        Command::Effect(Effect::Window { id, op }) => {
            &&& s.windows.has(id)
            &&& op is Draw ==> ui.contains_key(id)
        },
        Command::Interact { id } => s.windows.has(id) && ui.contains_key(id),
        Command::Redraw { id } => s.windows.has(id) && ui.contains_key(id),
        Command::Operate { id, .. } => s.windows.has(id) && ui.contains_key(id),
        Command::FirstInterface { id } => s.windows.has(id),
        Command::ReadOpened { id } => s.windows.has(id),
        Command::ConnectClipboard { id } => s.windows.has(id),
        Command::IntoCache { id, .. } => s.windows.has(id),
        Command::Build { id, .. } => s.windows.has(id),
        Command::Relayout { id, .. } => s.windows.has(id),
        Command::Inspect { id } => s.windows.has(id),
        Command::CheckSize { id } => s.windows.has(id),
        Command::Present { id } => s.windows.has(id),
        Command::ConvertEvent { id } => s.windows.has(id),
        Command::ConvertTouch { id, .. } => s.windows.has(id),
        Command::ReadMode { id } => s.windows.has(id),
        Command::ReadMaximized { id } => s.windows.has(id),
        Command::ReadDecorated { id } => s.windows.has(id),
        Command::ReadCursor { id } => s.windows.has(id),
        _ => true,
    }
}

/// Whether an application goes on well after a step: what always holds still does, the command can
/// be carried out, and any answer to it is accepted.
pub open spec fn goes_well<H: Host, U>(next: Next<H, U>) -> bool {
    &&& inv(next.model, next.interfaces)
    &&& feasible(next.model, next.interfaces, next.command)
    &&& forall|reply: Reply<H, U>| #[trigger]
        answers(next.command, reply) ==> accepts(next.model, reply)
}

} // verus!
