//! How the program and all user interfaces are updated.

use super::model::{collected_step, refresh_step, sweep_step};
use super::protocol::ready;
use super::{Acting, Command, Effect, Instance, Job, Refresh, Reply, Sweep, WindowOp};
use crate::action::Action;
use crate::fx;
use crate::host::Host;
use crate::rebuild::{build_user_interfaces, BuildStep};
use crate::update::{Update, UpdateReply, UpdateStep};
use crate::window_man::RedrawRequest;
use rustc_hash::FxHashMap;
use vstd::prelude::*;

verus! {

impl<H: Host> Instance<H> {
    /// Takes a step in the update of the program and of all user interfaces.
    #[verifier::rlimit(30)]
    pub(super) fn refresh<U>(
        &mut self,
        interfaces: &mut FxHashMap<u64, U>,
        refresh: Refresh,
        reply: Reply<H, U>,
    ) -> (command: Command<H, U>)
        requires
            ready(old(self)@, old(interfaces)@, Job::Refresh(refresh), reply),
        ensures
            final(self)@ == refresh_step(old(self)@, old(interfaces)@, refresh, reply).model,
            final(interfaces)@ == refresh_step(
                old(self)@,
                old(interfaces)@,
                refresh,
                reply,
            ).interfaces,
            command == refresh_step(old(self)@, old(interfaces)@, refresh, reply).command,
    {
        proof {
            reveal(refresh_step);
        }
        match refresh {
            Refresh::Caching { next } => {
                if next < self.windows.len() {
                    let id = self.windows.nth(next).id;
                    match fx::remove(interfaces, id) {
                        Some(interface) => {
                            self.first_do(
                                Job::Refresh(Refresh::AwaitCache { id, next: next + 1 }),
                            );
                            Command::IntoCache { id, interface }
                        },
                        None => Command::Proceed,
                    }
                } else {
                    let mut messages: Vec<H::Message> = Vec::new();
                    std::mem::swap(&mut messages, &mut self.messages);
                    self.update = Update::new(messages);
                    self.first_do(Job::Refresh(Refresh::Updating));
                    Command::Proceed
                }
            },
            Refresh::AwaitCache { id, next } => {
                if let Reply::Cache(cache) = reply {
                    let _ = fx::insert(&mut self.caches, id, cache);
                }
                self.first_do(Job::Refresh(Refresh::Caching { next }));
                Command::Proceed
            },
            Refresh::Updating => {
                let reply = match reply {
                    Reply::Flag(stream) => UpdateReply::Stream(stream),
                    Reply::Polled(polled) => UpdateReply::Polled(polled),
                    _ => UpdateReply::Nothing,
                };
                match self.update.next(reply) {
                    UpdateStep::Update(message) => {
                        self.first_do(Job::Refresh(Refresh::Updating));
                        Command::UpdateProgram(message)
                    },
                    UpdateStep::Poll => {
                        self.first_do(Job::Refresh(Refresh::Updating));
                        Command::Poll
                    },
                    UpdateStep::Spawn => {
                        self.first_do(Job::Refresh(Refresh::Updating));
                        Command::Effect(Effect::Spawn)
                    },
                    UpdateStep::Track => {
                        self.first_do(Job::Refresh(Refresh::Updating));
                        Command::Effect(Effect::Track)
                    },
                    UpdateStep::Done => {
                        let mut update: Update<H::Message, Action<H>> = Update::done();
                        std::mem::swap(&mut update, &mut self.update);
                        self.collected = update.into_actions();
                        let mut caches: FxHashMap<u64, H::Cache> = fx::new();
                        std::mem::swap(&mut caches, &mut self.caches);
                        self.build = build_user_interfaces(caches);
                        self.first_do(Job::Refresh(Refresh::Building));
                        Command::Proceed
                    },
                }
            },
            Refresh::Building => {
                let interface = match reply {
                    Reply::Interface(interface) => Some(interface),
                    _ => None,
                };
                match self.build.next(&self.windows, interfaces, interface) {
                    BuildStep::Synchronize(id) => {
                        self.first_do(Job::Refresh(Refresh::Building));
                        Command::Effect(Effect::Window { id, op: WindowOp::Synchronize })
                    },
                    BuildStep::Build { id, cache } => {
                        self.first_do(Job::Refresh(Refresh::Building));
                        Command::Build { id, cache }
                    },
                    BuildStep::Proceed => {
                        self.first_do(Job::Refresh(Refresh::Building));
                        Command::Proceed
                    },
                    BuildStep::Done => Command::Proceed,
                }
            },
        }
    }

    /// Runs one of the collected actions, or puts it off.
    pub(super) fn run_collected<U>(&mut self, defer: bool) -> (command: Command<H, U>)
        ensures
            forall|ui: Map<u64, U>|
                #![trigger collected_step(old(self)@, ui, defer)]
                {
                    &&& final(self)@ == collected_step(old(self)@, ui, defer).model
                    &&& ui == collected_step(old(self)@, ui, defer).interfaces
                    &&& command == collected_step(old(self)@, ui, defer).command
                },
    {
        proof {
            reveal(collected_step);
        }
        if self.collected.len() == 0 {
            return Command::Proceed;
        }
        let ghost before = self.collected@;
        let action = self.collected.remove(0);
        assert(self.collected@ =~= before.drop_first());
        self.first_do(Job::RunCollected { defer });
        if defer && matches!(action, Action::Window(_)) {
            Command::Effect(Effect::Defer(action))
        } else {
            self.first_do(Job::Acting(Acting::Run(action)));
            Command::Proceed
        }
    }

    /// Does something to the next window of a sweep.
    pub(super) fn sweep<U>(&mut self, sweep: Sweep) -> (command: Command<H, U>)
        requires
            old(self)@.windows.sorted(),
        ensures
            forall|ui: Map<u64, U>|
                #![trigger sweep_step(old(self)@, ui, sweep)]
                {
                    &&& final(self)@ == sweep_step(old(self)@, ui, sweep).model
                    &&& ui == sweep_step(old(self)@, ui, sweep).interfaces
                    &&& command == sweep_step(old(self)@, ui, sweep).command
                },
    {
        proof {
            reveal(sweep_step);
        }
        match sweep {
            Sweep::Redraw { next, except } => {
                if next < self.windows.len() {
                    let id = self.windows.nth(next).id;
                    self.first_do(Job::Sweep(Sweep::Redraw { next: next + 1, except }));
                    let excepted = match except {
                        Some(other) => other == id,
                        None => false,
                    };
                    if excepted {
                        Command::Proceed
                    } else {
                        Command::Effect(Effect::Window { id, op: WindowOp::RequestRedraw })
                    }
                } else {
                    Command::Proceed
                }
            },
            Sweep::Expire { next, now } => {
                if next < self.windows.len() {
                    let id = self.windows.nth(next).id;
                    let redraw_at = self.windows.nth(next).redraw_at;
                    self.first_do(Job::Sweep(Sweep::Expire { next: next + 1, now }));
                    let due = match redraw_at {
                        Some(time) => time <= now,
                        None => false,
                    };
                    if due {
                        let _ = self.windows.request_redraw(id, RedrawRequest::NextFrame);
                        Command::Effect(Effect::Window { id, op: WindowOp::RequestRedraw })
                    } else {
                        Command::Proceed
                    }
                } else {
                    Command::Proceed
                }
            },
            Sweep::ChangeTheme { next, theme } => {
                if next < self.windows.len() {
                    let id = self.windows.nth(next).id;
                    self.first_do(Job::Sweep(Sweep::ChangeTheme { next: next + 1, theme }));
                    Command::Effect(Effect::Window { id, op: WindowOp::ChangeTheme(theme) })
                } else {
                    Command::Proceed
                }
            },
        }
    }
}

} // verus!
