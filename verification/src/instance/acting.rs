//! How an action is run.

use super::model::{
    act_step, action_step, closed, request_step, theme_noted, window_action_step,
};
use super::order::{goes_well, inv};
use super::protocol::ready;
use super::whole::{close, ids_after, left_by, lemma_action_goes_well, lemma_run_action};
use super::{Acting, Command, Effect, Instance, Job, Reply, Sweep, UiEvent, WindowOp};
use crate::action::{Action, ClipboardAction, SystemAction, WindowAction, WindowRequest};
use crate::control::Control;
use crate::conversion::{reported_mode, visible, window_theme, ThemeMode};
use crate::fx;
use crate::host::Host;
use rustc_hash::FxHashMap;
use vstd::prelude::*;

verus! {

impl<H: Host> Instance<H> {
    /// Takes a step in the run of an action.
    pub(super) fn act<U>(
        &mut self,
        interfaces: &mut FxHashMap<u64, U>,
        acting: Acting<H>,
        reply: Reply<H, U>,
    ) -> (command: Command<H, U>)
        requires
            ready(old(self)@, old(interfaces)@, Job::Acting(acting), reply),
        ensures
            final(self)@ == act_step(old(self)@, old(interfaces)@, acting, reply).model,
            final(interfaces)@ == act_step(old(self)@, old(interfaces)@, acting, reply).interfaces,
            command == act_step(old(self)@, old(interfaces)@, acting, reply).command,
    {
        proof {
            reveal(act_step);
        }
        match acting {
            Acting::Run(action) => self.run_action(interfaces, action),
            Acting::Count => {
                self.actions = self.actions + 1;
                Command::Proceed
            },
            Acting::Operate { operation, next } => {
                if next < self.windows.len() {
                    let id = self.windows.nth(next).id;
                    self.first_do(Job::Acting(Acting::AwaitOperation { next: next + 1 }));
                    Command::Operate { id, operation }
                } else {
                    self.first_do(Job::Acting(Acting::AwaitOutcome));
                    Command::FinishOperation(operation)
                }
            },
            Acting::AwaitOperation { next } => {
                if let Reply::Operation(operation) = reply {
                    self.first_do(Job::Acting(Acting::Operate { operation, next }));
                }
                Command::Proceed
            },
            Acting::AwaitOutcome => {
                if let Reply::Outcome(Some(operation)) = reply {
                    self.first_do(Job::Acting(Acting::Operate { operation, next: 0 }));
                }
                Command::Proceed
            },
            Acting::RelayoutAll { next } => {
                if next < self.windows.len() {
                    let id = self.windows.nth(next).id;
                    match fx::remove(interfaces, id) {
                        Some(interface) => {
                            self.first_do(
                                Job::Acting(Acting::AwaitRelaid { id, next: next + 1 }),
                            );
                            Command::Relayout { id, interface }
                        },
                        None => Command::Proceed,
                    }
                } else {
                    Command::Proceed
                }
            },
            Acting::AwaitRelaid { id, next } => {
                if let Reply::Interface(interface) = reply {
                    let _ = fx::insert(interfaces, id, interface);
                }
                self.first_do(Job::Acting(Acting::RelayoutAll { next }));
                Command::Effect(Effect::Window { id, op: WindowOp::RequestRedraw })
            },
            Acting::ReloadAll { next } => {
                if next < self.windows.len() {
                    let id = self.windows.nth(next).id;
                    match fx::remove(interfaces, id) {
                        Some(interface) => {
                            self.first_do(
                                Job::Acting(Acting::AwaitReloadCache { id, next: next + 1 }),
                            );
                            Command::IntoCache { id, interface }
                        },
                        None => Command::Proceed,
                    }
                } else {
                    Command::Proceed
                }
            },
            Acting::AwaitReloadCache { id, next } => match reply {
                Reply::Cache(cache) => {
                    self.first_do(Job::Acting(Acting::AwaitReloaded { id, next }));
                    Command::Build { id, cache: Some(cache) }
                },
                _ => Command::Proceed,
            },
            Acting::AwaitReloaded { id, next } => {
                if let Reply::Interface(interface) = reply {
                    let _ = fx::insert(interfaces, id, interface);
                }
                self.first_do(Job::Acting(Acting::ReloadAll { next }));
                Command::Effect(Effect::Window { id, op: WindowOp::RequestRedraw })
            },
            Acting::AwaitMode { id, channel } => match reply {
                Reply::Mode { visible, fullscreen } => {
                    let mode = reported_mode(visible, fullscreen);
                    Command::Effect(Effect::Window { id, op: WindowOp::SendMode(channel, mode) })
                },
                _ => Command::Proceed,
            },
            Acting::AwaitMaximized { id } => match reply {
                Reply::Flag(maximized) => Command::Effect(
                    Effect::Window { id, op: WindowOp::SetMaximized(!maximized) },
                ),
                _ => Command::Proceed,
            },
            Acting::AwaitDecorated { id } => match reply {
                Reply::Flag(decorated) => Command::Effect(
                    Effect::Window { id, op: WindowOp::SetDecorations(!decorated) },
                ),
                _ => Command::Proceed,
            },
            Acting::AwaitCursor { id } => match reply {
                Reply::Cursor(Some(position)) => Command::Effect(
                    Effect::Window { id, op: WindowOp::ShowMenu(position) },
                ),
                _ => Command::Proceed,
            },
        }
    }

    /// Runs an action, and returns what is to be done for it. What else is to be done is asked for with
    /// [`Instance::advance`]; the action is not counted.
    ///
    /// No action brings a window, a user interface or a cache. Closing a window takes those of that
    /// window away, and no other action takes any. Closing one that is not open queues no event.
    pub fn run_action<U>(
        &mut self,
        interfaces: &mut FxHashMap<u64, U>,
        action: Action<H>,
    ) -> (command: Command<H, U>)
        requires
            old(self)@.windows.sorted(),
        ensures
            final(self)@.windows.ids() == ids_after(old(self)@.windows.ids(), action),
            final(interfaces)@ == left_by(old(interfaces)@, action),
            final(self)@.ui_caches == left_by(old(self)@.ui_caches, action),
            forall|id: u64|
                #![trigger old(self)@.windows.has(id)]
                action == close::<H>(id) && !old(self)@.windows.has(id) ==> {
                    &&& final(self)@.windows == old(self)@.windows
                    &&& final(self)@.events == old(self)@.events
                    &&& final(self)@.clipboard == old(self)@.clipboard
                },
            inv(old(self)@, old(interfaces)@) && old(self)@.agenda.len() == 0 ==> goes_well(
                action_step(old(self)@, old(interfaces)@, action),
            ),
            final(self)@ == action_step(old(self)@, old(interfaces)@, action).model,
            final(interfaces)@ == action_step(old(self)@, old(interfaces)@, action).interfaces,
            command == action_step(old(self)@, old(interfaces)@, action).command,
    {
        let _ = self.windows.len();
        proof {
            lemma_run_action(self@, interfaces@, action);
            lemma_action_goes_well(self@, interfaces@, action);
            reveal(action_step);
        }
        match action {
            Action::Output(message) => {
                self.messages.push(message);
                Command::Proceed
            },
            Action::Clipboard(ClipboardAction::Read { target, channel }) => {
                Command::Effect(Effect::ReadClipboard { target, channel })
            },
            Action::Clipboard(ClipboardAction::Write { target, contents }) => {
                Command::Effect(Effect::WriteClipboard { target, contents })
            },
            Action::Window(action) => self.run_window_action(interfaces, action),
            Action::System(SystemAction::GetInformation(channel)) => {
                if self.config.system_information && self.compositor {
                    Command::Effect(Effect::SendInformation(channel))
                } else {
                    Command::Proceed
                }
            },
            Action::System(SystemAction::GetTheme(channel)) => {
                Command::Effect(Effect::SendTheme { channel, mode: self.system_theme })
            },
            Action::System(SystemAction::NotifyTheme(mode)) => {
                if let Some(theme) = window_theme(mode) {
                    self.first_do(Job::Sweep(Sweep::ChangeTheme { next: 0, theme }));
                }
                self.note_theme(mode);
                Command::Proceed
            },
            Action::Widget(operation) => {
                self.first_do(Job::Acting(Acting::Operate { operation, next: 0 }));
                Command::Proceed
            },
            Action::Image { image, channel } => match self.windows.first() {
                Some(window) => Command::Effect(
                    Effect::Window {
                        id: window.id,
                        op: WindowOp::AllocateImage { image, channel },
                    },
                ),
                None => Command::Proceed,
            },
            Action::LoadFont { bytes, channel } => {
                if self.compositor {
                    Command::Effect(Effect::LoadFont { bytes, channel })
                } else {
                    Command::Proceed
                }
            },
            Action::Reload => {
                self.first_do(Job::Acting(Acting::ReloadAll { next: 0 }));
                Command::Proceed
            },
            Action::Exit => Command::Effect(Effect::Control(Control::Exit)),
        }
    }

    /// Takes note of the tone of the theme of the system. If it is another one, to tell of it comes
    /// before all other jobs.
    pub(super) fn note_theme(&mut self, mode: ThemeMode)
        ensures
            ({
                let (noted, told) = theme_noted(old(self)@, mode);
                final(self)@.agenda == told + old(self)@.agenda && final(self)@ == (super::Model {
                    agenda: final(self)@.agenda,
                    ..noted
                })
            }),
    {
        if mode != self.system_theme {
            self.system_theme = mode;
            self.first_do(Job::Emit(Effect::BroadcastTheme(mode)));
        }
    }

    /// Runs an action on the windows.
    fn run_window_action<U>(
        &mut self,
        interfaces: &mut FxHashMap<u64, U>,
        action: WindowAction<H>,
    ) -> (command: Command<H, U>)
        requires
            old(self)@.windows.sorted(),
        ensures
            final(self)@ == window_action_step(old(self)@, old(interfaces)@, action).model,
            final(interfaces)@ == window_action_step(
                old(self)@,
                old(interfaces)@,
                action,
            ).interfaces,
            command == window_action_step(old(self)@, old(interfaces)@, action).command,
    {
        proof {
            reveal(window_action_step);
        }
        match action {
            WindowAction::Open(id, settings, channel) => {
                self.is_window_opening = true;
                let monitor_of = match self.windows.last() {
                    Some(window) => Some(window.id),
                    None => None,
                };
                Command::Effect(Effect::Open { id, settings, channel, monitor_of })
            },
            WindowAction::Close(id) => self.close(interfaces, id),
            WindowAction::GetOldest(channel) => {
                let id = match self.windows.first() {
                    Some(window) => Some(window.id),
                    None => None,
                };
                Command::Effect(Effect::SendId { channel, id })
            },
            WindowAction::GetLatest(channel) => {
                let id = match self.windows.last() {
                    Some(window) => Some(window.id),
                    None => None,
                };
                Command::Effect(Effect::SendId { channel, id })
            },
            WindowAction::On(id, request) => self.ask(id, request),
            WindowAction::SetAllowAutomaticTabbing(enabled) => {
                Command::Effect(Effect::Control(Control::SetAutomaticWindowTabbing(enabled)))
            },
            WindowAction::RedrawAll => {
                self.first_do(Job::Sweep(Sweep::Redraw { next: 0, except: None }));
                Command::Proceed
            },
            WindowAction::RelayoutAll => {
                self.first_do(Job::Acting(Acting::RelayoutAll { next: 0 }));
                Command::Proceed
            },
        }
    }

    /// Closes a window.
    fn close<U>(&mut self, interfaces: &mut FxHashMap<u64, U>, id: u64) -> (command: Command<H, U>)
        requires
            old(self)@.windows.sorted(),
        ensures
            final(self)@ == closed(old(self)@, old(interfaces)@, id).model,
            final(interfaces)@ == closed(old(self)@, old(interfaces)@, id).interfaces,
            command == closed(old(self)@, old(interfaces)@, id).command,
    {
        let _ = fx::remove(&mut self.ui_caches, id);
        let _ = fx::remove(interfaces, id);
        let removed = self.windows.remove(id);
        if self.windows.is_empty() {
            self.compositor = false;
            self.first_do(Job::Emit(Effect::DropCompositor));
        }
        if let Some(window) = removed {
            self.events.push((id, UiEvent::Closed));
            let orphaned = match self.clipboard {
                Some(raw) => raw == window.raw,
                None => false,
            };
            if orphaned {
                self.clipboard = None;
                let heir = match self.windows.first() {
                    Some(first) => Some(first.id),
                    None => None,
                };
                match heir {
                    Some(id) => self.first_do(Job::Connect { id }),
                    None => self.first_do(Job::Emit(Effect::DisconnectClipboard)),
                }
            }
        }
        Command::Proceed
    }

    /// Asks something of one window.
    fn ask<U>(&mut self, id: u64, request: WindowRequest<H>) -> (command: Command<H, U>)
        requires
            old(self)@.windows.sorted(),
        ensures
            forall|ui: Map<u64, U>|
                #![trigger request_step(old(self)@, ui, id, request)]
                {
                    &&& final(self)@ == request_step(old(self)@, ui, id, request).model
                    &&& ui == request_step(old(self)@, ui, id, request).interfaces
                    &&& command == request_step(old(self)@, ui, id, request).command
                },
    {
        proof {
            reveal(request_step);
        }
        let raw = match self.windows.get(id) {
            Some(window) => window.raw,
            None => {
                return Command::Proceed;
            },
        };
        let op = match request {
            WindowRequest::GetMode(channel) => {
                self.first_do(Job::Acting(Acting::AwaitMode { id, channel }));
                return Command::ReadMode { id };
            },
            WindowRequest::ToggleMaximize => {
                self.first_do(Job::Acting(Acting::AwaitMaximized { id }));
                return Command::ReadMaximized { id };
            },
            WindowRequest::ToggleDecorations => {
                self.first_do(Job::Acting(Acting::AwaitDecorated { id }));
                return Command::ReadDecorated { id };
            },
            WindowRequest::ShowSystemMenu => {
                self.first_do(Job::Acting(Acting::AwaitCursor { id }));
                return Command::ReadCursor { id };
            },
            WindowRequest::SetMode(mode) => {
                self.first_do_to(id, WindowOp::SetFullscreen(mode));
                let op = WindowOp::SetVisible(visible(mode));
                return Command::Effect(Effect::Window { id, op });
            },
            WindowRequest::Screenshot(channel) => {
                if !self.compositor {
                    return Command::Proceed;
                }
                WindowOp::Screenshot(channel)
            },
            WindowRequest::GetRawId(channel) => WindowOp::SendRawId(channel, raw),
            WindowRequest::Drag => WindowOp::Drag,
            WindowRequest::DragResize(direction) => WindowOp::DragResize(direction),
            WindowRequest::Resize(size) => WindowOp::Resize(size),
            WindowRequest::GetSize(channel) => WindowOp::SendSize(channel),
            WindowRequest::GetMaximized(channel) => WindowOp::SendMaximized(channel),
            WindowRequest::Maximize(maximized) => WindowOp::SetMaximized(maximized),
            WindowRequest::GetMinimized(channel) => WindowOp::SendMinimized(channel),
            WindowRequest::Minimize(minimized) => WindowOp::SetMinimized(minimized),
            WindowRequest::GetPosition(channel) => WindowOp::SendPosition(channel),
            WindowRequest::GetScaleFactor(channel) => WindowOp::SendScaleFactor(channel),
            WindowRequest::Move(position) => WindowOp::SetPosition(position),
            WindowRequest::RequestUserAttention(attention) => {
                WindowOp::RequestUserAttention(attention)
            },
            WindowRequest::GainFocus => WindowOp::Focus,
            WindowRequest::SetLevel(level) => WindowOp::SetLevel(level),
            WindowRequest::SetIcon(icon) => WindowOp::SetIcon(icon),
            WindowRequest::Run(callback) => WindowOp::Run(callback),
            WindowRequest::EnableMousePassthrough => WindowOp::SetCursorHittest(false),
            WindowRequest::DisableMousePassthrough => WindowOp::SetCursorHittest(true),
            WindowRequest::SetMinSize(size) => WindowOp::SetMinSize(size),
            WindowRequest::SetMaxSize(size) => WindowOp::SetMaxSize(size),
            WindowRequest::SetResizable(resizable) => WindowOp::SetResizable(resizable),
            WindowRequest::SetResizeIncrements(size) => WindowOp::SetResizeIncrements(size),
            WindowRequest::GetMonitorSize(channel) => WindowOp::SendMonitorSize(channel),
        };
        Command::Effect(Effect::Window { id, op })
    }
}

} // verus!
