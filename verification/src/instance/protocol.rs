//! Which reply a command is to be answered with, and what a job relies on.

use super::model::{built, update_reply, MAX_REDRAWS};
use super::{
    Acting, Command, Effect, Frame, Job, Model, Opening, Refresh, Reply, SurfaceError, Waiting,
};
use crate::host::Host;
use crate::rebuild::{build_accepts, build_fits};
use crate::update::update_accepts;
use crate::window_man::Windows;
use vstd::prelude::*;

verus! {

/// Whether a reply is one to a command. A frame that cannot be presented for want of memory is not
/// something to go on from.
pub open spec fn answers<H: Host, U>(command: Command<H, U>, reply: Reply<H, U>) -> bool {
    match command {
        Command::Idle | Command::Proceed | Command::Effect(_) => reply is Done,
        Command::CreateCompositor => reply is Compositor,
        Command::OpenWindow { .. } => reply is Window,
        Command::FirstInterface { .. } => reply is FirstInterface,
        Command::ReadOpened { .. } => reply matches Reply::Event(Some(_)),
        Command::ConvertTouch { .. } => reply matches Reply::Event(Some(_)),
        Command::ConvertEvent { .. } => reply is Event,
        Command::IntoCache { .. } => reply is Cache,
        Command::Build { .. } | Command::Relayout { .. } => reply is Interface,
        Command::Poll => reply is Polled,
        Command::Interact { .. } => reply is Interacted,
        Command::Redraw { .. } => reply is Redrawn,
        Command::Inspect { .. } => reply is Inspected,
        Command::Present { .. } => {
            &&& reply is Presented
            &&& reply->Presented_0 != Err::<(), SurfaceError>(SurfaceError::OutOfMemory)
        },
        Command::Operate { .. } => reply is Operation,
        Command::FinishOperation(_) => reply is Outcome,
        Command::ReadMode { .. } => reply is Mode,
        Command::ReadCursor { .. } => reply is Cursor,
        Command::ConnectClipboard { .. }
        | Command::UpdateProgram(_)
        | Command::CheckSize { .. }
        | Command::ReadMaximized { .. }
        | Command::ReadDecorated { .. } => reply is Flag,
    }
}

/// Whether a job can go on with a reply.
pub open spec fn job_accepts<H: Host, U>(s: Model<H>, job: Job<H>, reply: Reply<H, U>) -> bool {
    match job {
        Job::Opening(Opening::AwaitCompositor) => reply is Compositor,
        Job::Opening(Opening::AwaitWindow { .. }) => reply is Window,
        Job::Opening(Opening::AwaitFirst { .. }) => reply is FirstInterface,
        Job::Opening(Opening::AwaitOpened { .. }) => reply matches Reply::Event(Some(_)),
        Job::Acting(Acting::AwaitOperation { .. }) => reply is Operation,
        Job::Acting(Acting::AwaitOutcome) => reply is Outcome,
        Job::Acting(Acting::AwaitRelaid { .. }) => reply is Interface,
        Job::Acting(Acting::AwaitReloadCache { .. }) => reply is Cache,
        Job::Acting(Acting::AwaitReloaded { .. }) => reply is Interface,
        Job::Acting(Acting::AwaitMode { .. }) => reply is Mode,
        Job::Acting(Acting::AwaitMaximized { .. }) => reply is Flag,
        Job::Acting(Acting::AwaitDecorated { .. }) => reply is Flag,
        Job::Acting(Acting::AwaitCursor { .. }) => reply is Cursor,
        Job::Refresh(Refresh::AwaitCache { .. }) => reply is Cache,
        Job::Refresh(Refresh::Updating) => update_accepts(s.update, update_reply(reply)),
        Job::Refresh(Refresh::Building) => build_accepts(s.build, built(reply)),
        Job::Frame(Frame::AwaitInspect { .. }) => reply is Inspected,
        Job::Frame(Frame::AwaitRelayout { .. }) => reply is Interface,
        Job::Frame(Frame::AwaitRedraw { .. }) => reply is Redrawn,
        Job::Frame(Frame::AwaitSize { .. }) => reply is Flag,
        Job::Frame(Frame::AwaitPresent { .. }) => {
            &&& reply is Presented
            &&& reply->Presented_0 != Err::<(), SurfaceError>(SurfaceError::OutOfMemory)
        },
        Job::Waiting(Waiting::AwaitInteract { .. }) => reply is Interacted,
        Job::AwaitConnected { .. } => reply is Flag,
        Job::AwaitEvent { .. } => reply is Event,
        _ => true,
    }
}

/// Whether an application can go on with a reply.
pub open spec fn accepts<H: Host, U>(s: Model<H>, reply: Reply<H, U>) -> bool {
    s.agenda.len() > 0 ==> job_accepts(s, s.agenda[0], reply)
}

/// The window that a job is about.
pub open spec fn concerns<H: Host>(job: Job<H>) -> Option<u64> {
    match job {
        Job::Emit(Effect::Window { id, .. }) => Some(id),
        Job::Opening(Opening::FirstInterface { id }) => Some(id),
        Job::Opening(Opening::AwaitFirst { id }) => Some(id),
        Job::Opening(Opening::ReadOpened { id }) => Some(id),
        Job::Opening(Opening::AwaitOpened { id }) => Some(id),
        Job::Acting(Acting::AwaitRelaid { id, .. }) => Some(id),
        Job::Acting(Acting::AwaitReloadCache { id, .. }) => Some(id),
        Job::Acting(Acting::AwaitReloaded { id, .. }) => Some(id),
        Job::Acting(Acting::AwaitMode { id, .. }) => Some(id),
        Job::Acting(Acting::AwaitMaximized { id }) => Some(id),
        Job::Acting(Acting::AwaitDecorated { id }) => Some(id),
        Job::Acting(Acting::AwaitCursor { id }) => Some(id),
        Job::Refresh(Refresh::AwaitCache { id, .. }) => Some(id),
        Job::Frame(frame) => Some(framed(frame)),
        Job::Waiting(Waiting::AwaitInteract { id, .. }) => Some(id),
        Job::Waiting(Waiting::BroadcastShown { id }) => Some(id),
        Job::RequestRedraw { id, .. } => Some(id),
        Job::Connect { id } => Some(id),
        Job::AwaitConnected { id } => Some(id),
        Job::ConvertEvent { id } => Some(id),
        Job::ConvertTouch { id, .. } => Some(id),
        Job::AwaitEvent { id } => Some(id),
        _ => None,
    }
}

/// The window that a frame is drawn for.
pub open spec fn framed(frame: Frame) -> u64 {
    match frame {
        Frame::Inspect { id } => id,
        Frame::AwaitInspect { id } => id,
        Frame::Relayout { id } => id,
        Frame::AwaitRelayout { id } => id,
        Frame::Redraw { id, .. } => id,
        Frame::AwaitRedraw { id, .. } => id,
        Frame::Check { id, .. } => id,
        Frame::AwaitSize { id, .. } => id,
        Frame::Present { id } => id,
        Frame::AwaitPresent { id } => id,
    }
}

/// How often the user interface of a frame has been told of it again.
pub open spec fn redraws<H: Host>(job: Job<H>) -> usize {
    match job {
        Job::Frame(Frame::Redraw { count, .. }) => count,
        Job::Frame(Frame::AwaitRedraw { count, .. }) => count,
        Job::Frame(Frame::Check { count, .. }) => count,
        Job::Frame(Frame::AwaitSize { count, .. }) => count,
        _ => 0,
    }
}

/// Whether a job fits the open windows: it is about an open window, if it is about one, and it does
/// not go round too often.
pub open spec fn job_valid<H: Host, W>(windows: Windows<W>, job: Job<H>) -> bool {
    &&& concerns(job) matches Some(id) ==> windows.has(id)
    &&& redraws(job) <= MAX_REDRAWS
}

/// The window whose user interface a job takes away, for a while.
pub open spec fn takes<H: Host>(s: Model<H>, job: Job<H>) -> Option<u64> {
    let windows = s.windows.entries;
    match job {
        Job::Frame(Frame::Relayout { id }) => Some(id),
        Job::Acting(Acting::RelayoutAll { next }) if next < windows.len() => Some(
            windows[next as int].id,
        ),
        Job::Acting(Acting::ReloadAll { next }) if next < windows.len() => Some(
            windows[next as int].id,
        ),
        Job::Refresh(Refresh::Caching { next }) if next < windows.len() => Some(
            windows[next as int].id,
        ),
        _ => None,
    }
}

/// What a job relies on. The state is that without the job.
pub open spec fn ready<H: Host, U>(
    s: Model<H>,
    ui: Map<u64, U>,
    job: Job<H>,
    reply: Reply<H, U>,
) -> bool {
    &&& s.windows.sorted()
    &&& s.actions < usize::MAX
    &&& job_valid(s.windows, job)
    &&& job_accepts(s, job, reply)
    &&& takes(s, job) matches Some(id) ==> ui.contains_key(id)
    &&& job == Job::<H>::Refresh(Refresh::Building) ==> build_fits(s.build, s.windows)
}

} // verus!
