//! How an event is taken up.

use super::model::{input_received, received};
use super::{
    Acting, Effect, Event, Frame, Instance, Job, Opening, StartCause, Sweep, Waiting, WindowOp,
};
use crate::action::{Action, WindowAction};
use crate::control::Control;
use crate::conversion::theme_mode;
use crate::host::Host;
use crate::input::{finger_event, WindowInput};
use vstd::prelude::*;

verus! {

impl<H: Host> Instance<H> {
    /// Takes up an event when there is nothing left to do about the last one. What is to be done about
    /// it is asked for with [`Instance::advance`].
    pub fn handle(&mut self, event: Event<H>)
        requires
            old(self)@.windows.sorted(),
            old(self)@.agenda.len() == 0,
        ensures
            final(self)@ == received(old(self)@, event),
    {
        let ghost before = self@;
        match event {
            Event::WindowCreated { id, raw, exit_on_close_request, make_visible, channel } => {
                self.first_do(
                    Job::Opening(
                        Opening::Open { id, raw, exit_on_close_request, make_visible, channel },
                    ),
                );
                if !self.compositor {
                    self.first_do(Job::Opening(Opening::MakeCompositor));
                }
            },
            Event::NewEvents { cause, now } => match cause {
                StartCause::Init => {
                    self.first_do(Job::Sweep(Sweep::Redraw { next: 0, except: None }));
                },
                StartCause::ResumeTimeReached => {
                    self.first_do(Job::Flow);
                    self.first_do(Job::Sweep(Sweep::Expire { next: 0, now }));
                },
                StartCause::Other => {},
            },
            Event::UserEvent(action) => {
                self.first_do(Job::Acting(Acting::Count));
                self.first_do(Job::Acting(Acting::Run(action)));
            },
            Event::RedrawRequested { raw } => {
                if let Some(id) = self.windows.get_alias(raw) {
                    if self.compositor {
                        self.first_do(Job::Frame(Frame::Inspect { id }));
                    }
                }
            },
            Event::WindowEvent { raw, input } => {
                self.receive_input(raw, input);
            },
            Event::AboutToWait => {
                self.first_do(Job::Waiting(Waiting::Release));
            },
            Event::Exit => {
                self.finished = true;
            },
            Event::Resumed | Event::Suspended | Event::Other => {},
        }
        assert(self@ =~= received(before, event));
    }

    /// Takes up an event of a window other than a request to draw it.
    #[verifier::rlimit(30)]
    fn receive_input(&mut self, raw: u64, input: WindowInput)
        requires
            old(self)@.windows.sorted(),
        ensures
            final(self)@ == input_received(old(self)@, raw, input),
    {
        let ghost before = self@;
        let is_destroyed = matches!(input, WindowInput::Destroyed);
        if !self.config.is_daemon && is_destroyed && !self.is_window_opening
            && self.windows.is_empty() {
            self.first_do(Job::Emit(Effect::Control(Control::Exit)));
            return;
        }
        let id = match self.windows.get_alias(raw) {
            Some(id) => id,
            None => {
                return;
            },
        };
        let exits = match self.windows.get(id) {
            Some(window) => window.exit_on_close_request,
            None => false,
        };
        let closes = matches!(input, WindowInput::CloseRequested) && exits;
        if closes {
            self.first_do(Job::Acting(Acting::Run(Action::Window(WindowAction::Close(id)))));
        } else {
            self.first_do(Job::ConvertEvent { id });
            self.first_do_to(id, WindowOp::NoteEvent);
        }
        match input {
            WindowInput::Resized => {
                self.first_do_to(id, WindowOp::RequestRedraw);
            },
            WindowInput::ThemeChanged(theme) => {
                self.note_theme(theme_mode(theme));
            },
            WindowInput::Touch(phase) => {
                self.first_do_to(id, WindowOp::NoteEvent);
                self.first_do(Job::ConvertTouch { id, finger: finger_event(phase) });
            },
            _ => {},
        }
        assert(self@ =~= input_received(before, raw, input));
    }
}

} // verus!
