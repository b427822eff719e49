//! How a frame is drawn.

use super::model::{frame_begun, frame_end, frame_step, MAX_REDRAWS};
use super::protocol::ready;
use super::{
    Command, Effect, Frame, Instance, Job, Refresh, Reply, SurfaceError, Sweep, UiState, WindowOp,
};
use crate::fx;
use crate::host::Host;
use rustc_hash::FxHashMap;
use vstd::prelude::*;

verus! {

impl<H: Host> Instance<H> {
    /// Takes a step in the drawing of a frame.
    #[verifier::rlimit(30)]
    pub(super) fn draw<U>(
        &mut self,
        interfaces: &mut FxHashMap<u64, U>,
        frame: Frame,
        reply: Reply<H, U>,
    ) -> (command: Command<H, U>)
        requires
            ready(old(self)@, old(interfaces)@, Job::Frame(frame), reply),
        ensures
            final(self)@ == frame_step(old(self)@, old(interfaces)@, frame, reply).model,
            final(interfaces)@ == frame_step(old(self)@, old(interfaces)@, frame, reply).interfaces,
            command == frame_step(old(self)@, old(interfaces)@, frame, reply).command,
    {
        proof {
            reveal(frame_step);
        }
        match frame {
            Frame::Inspect { id } => {
                self.first_do(Job::Frame(Frame::AwaitInspect { id }));
                Command::Inspect { id }
            },
            Frame::AwaitInspect { id } => {
                if let Reply::Inspected { width, height, surface_version } = reply {
                    if width != 0 && height != 0 {
                        self.begin_frame(id, surface_version);
                    }
                }
                Command::Proceed
            },
            Frame::Relayout { id } => match fx::remove(interfaces, id) {
                Some(interface) => {
                    self.first_do(Job::Frame(Frame::AwaitRelayout { id }));
                    Command::Relayout { id, interface }
                },
                None => Command::Proceed,
            },
            Frame::AwaitRelayout { id } => {
                if let Reply::Interface(interface) = reply {
                    let _ = fx::insert(interfaces, id, interface);
                }
                Command::Proceed
            },
            Frame::Redraw { id, count } => {
                self.first_do(Job::Frame(Frame::AwaitRedraw { id, count }));
                Command::Redraw { id }
            },
            Frame::AwaitRedraw { id, count } => match reply {
                Reply::Redrawn { state, messages } => {
                    let mut messages = messages;
                    let changed = match &state {
                        UiState::Outdated => true,
                        UiState::Updated { has_layout_changed, .. } => *has_layout_changed,
                    };
                    let settled = messages.len() == 0 && !changed;
                    self.messages.append(&mut messages);
                    if settled || count >= MAX_REDRAWS {
                        self.end_frame(id, state);
                        return Command::Effect(Effect::Window { id, op: WindowOp::Draw });
                    }
                    if self.messages.len() > 0 {
                        self.first_do(Job::Frame(Frame::Check { id, count: count + 1 }));
                        self.first_do(Job::Sweep(Sweep::Redraw { next: 0, except: Some(id) }));
                        self.first_do(Job::RunCollected { defer: true });
                        self.first_do(Job::Refresh(Refresh::Caching { next: 0 }));
                    } else {
                        self.first_do(Job::Frame(Frame::Redraw { id, count: count + 1 }));
                    }
                    Command::Proceed
                },
                _ => Command::Proceed,
            },
            Frame::Check { id, count } => {
                if self.compositor {
                    self.first_do(Job::Frame(Frame::AwaitSize { id, count }));
                    Command::CheckSize { id }
                } else {
                    Command::Proceed
                }
            },
            Frame::AwaitSize { id, count } => {
                self.first_do(Job::Frame(Frame::Redraw { id, count }));
                if let Reply::Flag(true) = reply {
                    self.first_do(Job::Frame(Frame::Relayout { id }));
                }
                Command::Proceed
            },
            Frame::Present { id } => {
                self.first_do(Job::Frame(Frame::AwaitPresent { id }));
                Command::Present { id }
            },
            Frame::AwaitPresent { id } => {
                if let Reply::Presented(Err(error)) = reply {
                    match error {
                        SurfaceError::Outdated => {
                            self.first_do_to(id, WindowOp::RequestRedraw);
                            self.first_do_to(id, WindowOp::ConfigureSurface);
                        },
                        SurfaceError::Lost => {
                            self.first_do_to(id, WindowOp::RequestRedraw);
                            self.first_do_to(id, WindowOp::RecreateSurface);
                        },
                        _ => {
                            self.first_do(Job::Sweep(Sweep::Redraw { next: 0, except: None }));
                        },
                    }
                }
                Command::Proceed
            },
        }
    }

    /// Begins a frame, with a new layout and a new configuration of the surface if it is not of the
    /// given version.
    fn begin_frame(&mut self, id: u64, version: u64)
        requires
            old(self)@.windows.sorted(),
            old(self)@.windows.has(id),
        ensures
            final(self)@ == frame_begun(old(self)@, id, version),
    {
        let configured = match self.windows.get(id) {
            Some(window) => window.surface_version,
            None => version,
        };
        self.first_do(Job::Frame(Frame::Redraw { id, count: 0 }));
        self.first_do_to(id, WindowOp::BeginFrame);
        if configured != version {
            self.windows.configured(id, version);
            self.first_do_to(id, WindowOp::ConfigureSurface);
            self.first_do(Job::Frame(Frame::Relayout { id }));
        }
    }

    /// Finishes a frame after it has been drawn.
    fn end_frame(&mut self, id: u64, state: UiState<H>)
        ensures
            final(self)@ == super::model::first_do(old(self)@, frame_end(id, state)),
    {
        self.first_do(Job::Frame(Frame::Present { id }));
        self.first_do_to(id, WindowOp::DrawPreedit);
        self.first_do_to(id, WindowOp::BroadcastFrame);
        if let UiState::Updated { redraw_request, mouse_interaction, input_method, .. } = state {
            self.first_do_to(id, WindowOp::UpdateMouse(mouse_interaction));
            self.first_do_to(id, WindowOp::RequestInputMethod(input_method));
            self.first_do(Job::RequestRedraw { id, request: redraw_request });
        }
    }
}

} // verus!
