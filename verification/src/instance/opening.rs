//! How a window is opened.

use super::model::open_step;
use super::protocol::ready;
use super::{Command, Effect, Instance, Job, Opening, Reply, WindowOp};
use crate::control::Control;
use crate::conversion::window_theme;
use crate::fx;
use crate::host::Host;
use crate::window_man::Window;
use rustc_hash::FxHashMap;
use vstd::prelude::*;

verus! {

impl<H: Host> Instance<H> {
    /// Takes a step in the opening of a window.
    #[verifier::rlimit(30)]
    pub(super) fn open<U>(
        &mut self,
        interfaces: &mut FxHashMap<u64, U>,
        opening: Opening<H>,
        reply: Reply<H, U>,
    ) -> (command: Command<H, U>)
        requires
            ready(old(self)@, old(interfaces)@, Job::Opening(opening), reply),
        ensures
            final(self)@ == open_step(old(self)@, old(interfaces)@, opening, reply).model,
            final(interfaces)@ == open_step(old(self)@, old(interfaces)@, opening, reply).interfaces,
            command == open_step(old(self)@, old(interfaces)@, opening, reply).command,
    {
        proof {
            reveal(open_step);
        }
        match opening {
            Opening::MakeCompositor => {
                self.first_do(Job::Opening(Opening::AwaitCompositor));
                Command::CreateCompositor
            },
            Opening::AwaitCompositor => match reply {
                Reply::Compositor(Err(error)) => {
                    self.agenda = Vec::new();
                    Command::Effect(Effect::Control(Control::Crash(error)))
                },
                _ => {
                    self.compositor = true;
                    Command::Proceed
                },
            },
            Opening::Open { id, raw, exit_on_close_request, make_visible, channel } => {
                self.first_do(
                    Job::Opening(
                        Opening::AwaitWindow {
                            id,
                            raw,
                            exit_on_close_request,
                            make_visible,
                            channel,
                        },
                    ),
                );
                Command::OpenWindow { id, system_theme: self.system_theme }
            },
            Opening::AwaitWindow { id, raw, exit_on_close_request, make_visible, channel } => {
                match reply {
                    Reply::Window { window, surface_version, theme_mode } => {
                        self.windows.insert(
                            Window {
                                id,
                                raw,
                                exit_on_close_request,
                                redraw_at: None,
                                surface_version,
                                inner: window,
                            },
                        );
                        self.first_do(Job::Opening(Opening::Finish));
                        self.first_do(Job::Emit(Effect::Opened { id, channel }));
                        self.first_do(Job::Connect { id });
                        self.first_do(Job::Opening(Opening::ReadOpened { id }));
                        if make_visible {
                            self.first_do_to(id, WindowOp::SetVisible(true));
                        }
                        self.first_do(Job::Opening(Opening::FirstInterface { id }));
                        Command::Effect(
                            Effect::Window { id, op: WindowOp::SetTheme(window_theme(theme_mode)) },
                        )
                    },
                    _ => Command::Proceed,
                }
            },
            Opening::FirstInterface { id } => {
                self.first_do(Job::Opening(Opening::AwaitFirst { id }));
                Command::FirstInterface { id }
            },
            Opening::AwaitFirst { id } => {
                if let Reply::FirstInterface { interface, cache } = reply {
                    let _ = fx::insert(interfaces, id, interface);
                    let _ = fx::insert(&mut self.ui_caches, id, cache);
                }
                Command::Proceed
            },
            Opening::ReadOpened { id } => {
                self.first_do(Job::Opening(Opening::AwaitOpened { id }));
                Command::ReadOpened { id }
            },
            Opening::AwaitOpened { id } => {
                self.note(id, reply);
                Command::Proceed
            },
            Opening::Finish => {
                self.is_window_opening = false;
                Command::Proceed
            },
        }
    }
}

} // verus!
