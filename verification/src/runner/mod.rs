//! The runner that sits between the event loop and the application.
//!
//! A [`Runner`] is told what the event loop reports with [`Runner::receive`]. What is to be done
//! about it is then asked for with [`Runner::advance`], one [`Command`] at a time, until there is
//! nothing left to do. Each command is carried out before the next one is asked for, and what came
//! of it goes back as a [`Reply`].

use crate::control::{window_plan, Control, WindowPlan};
use crate::flow::{change_flow, ControlFlow};
use crate::host::Host;
use crate::input::WindowInput;
use crate::instance::StartCause;
use crate::platform::Platform;
use vstd::prelude::*;

pub mod dealings;
pub mod laws;
pub mod life;
pub mod model;

use model::{accepts, ending, first_do, goes_well, inv, received, starting, step, steps_go_well};

verus! {

/// What the event loop reports.
pub enum Callback<H: Host> {
    Resumed,
    Suspended,
    NewEvents { cause: StartCause, event: H::LoopEvent },
    WindowEvent { input: WindowInput, event: H::LoopEvent },
    UserEvent(H::LoopEvent),
    AboutToWait,
}

/// What an application is told.
pub enum Event<H: Host> {
    /// The system has created a window.
    WindowCreated {
        id: u64,
        window: H::RawWindow,
        exit_on_close_request: bool,
        make_visible: bool,
        channel: H::Channel,
    },
    /// The event loop has something to report.
    EventLoopAwakened(H::LoopEvent),
    /// There are no more events for now.
    AboutToWait,
    Resumed,
    Suspended,
    Exit,
}

/// What is to be done next.
pub enum Command<H: Host> {
    /// Nothing: the report has been dealt with.
    Idle,
    /// Nothing, for now.
    Proceed,
    /// Tell whether the event loop is about to end. Replied to with [`Reply::Exiting`].
    AskExiting,
    /// Tell the application of an event.
    Send(Event<H>),
    /// Let the application run as far as it can. Replied to with [`Reply::Polled`].
    Poll,
    /// Take the next thing that the application has asked for. Replied to with [`Reply::Received`].
    Receive,
    /// Tell how the event loop waits. Replied to with [`Reply::Flow`].
    ReadFlow,
    SetFlow(ControlFlow),
    /// Create a window. Replied to with [`Reply::Created`].
    CreateWindow { id: u64, creation: H::Creation, plan: WindowPlan },
    SetAutomaticWindowTabbing(bool),
    /// End the event loop.
    Exit,
}

/// What came of a command.
pub enum Reply<H: Host> {
    /// Nothing to speak of.
    Done,
    Exiting(bool),
    /// Whether the application has ended.
    Polled { ready: bool },
    Received(Option<Control<H>>),
    /// How the event loop waits, and the time.
    Flow { current: ControlFlow, now: u64 },
    Created(H::RawWindow),
}

/// Something that is still to be done about a report.
pub enum Job<H: Host> {
    Process(Event<H>),
    AwaitExiting(Event<H>),
    Poll,
    AwaitPoll,
    AwaitControl,
    Handle(Control<H>),
    AwaitFlow(ControlFlow),
    AwaitCreated { id: u64, exit_on_close_request: bool, make_visible: bool, channel: H::Channel },
    /// Handle what has been put off.
    Release,
    Leave,
}

/// The runner that sits between the event loop and the application.
pub struct Runner<H: Host> {
    platform: Platform,
    resumed: bool,
    pending_controls: Vec<Control<H>>,
    error: Option<H::Error>,
    /// What is still to be done, the last job first.
    agenda: Vec<Job<H>>,
}

/// The state of a runner.
#[verifier::ext_equal]
pub ghost struct Model<H: Host> {
    pub platform: Platform,
    /// Whether windows can be created.
    pub resumed: bool,
    /// What has been put off until windows can be created.
    pub pending: Seq<Control<H>>,
    /// Why the application crashed, if it did.
    pub error: Option<H::Error>,
    /// What is still to be done, in order.
    pub agenda: Seq<Job<H>>,
}

impl<H: Host> View for Runner<H> {
    type V = Model<H>;

    closed spec fn view(&self) -> Model<H> {
        Model {
            platform: self.platform,
            resumed: self.resumed,
            pending: self.pending_controls@,
            error: self.error,
            agenda: self.agenda@.reverse(),
        }
    }
}

impl<H: Host> Runner<H> {
    /// Returns a runner for an application that has not been resumed yet.
    pub fn new(platform: Platform) -> (runner: Self)
        ensures
            runner@ == starting::<H>(platform),
            inv(runner@),
    {
        Runner {
            platform,
            resumed: false,
            pending_controls: Vec::new(),
            error: None,
            agenda: Vec::new(),
        }
    }

    /// Returns whether there is nothing left to do about the last report.
    pub fn is_settled(&self) -> (settled: bool)
        ensures
            settled == (self@.agenda.len() == 0),
    {
        self.agenda.len() == 0
    }

    /// Returns how the application ended.
    pub fn finish(self) -> (result: Result<(), H::Error>)
        ensures
            result == ending(self@),
    {
        match self.error {
            Some(error) => Err(error),
            None => Ok(()),
        }
    }

    /// Puts a job before all others.
    fn first_do(&mut self, job: Job<H>)
        ensures
            final(self)@ == first_do(old(self)@, seq![job]),
    {
        let ghost before = self.agenda@;
        self.agenda.push(job);
        assert(self.agenda@.reverse() =~= seq![job] + before.reverse());
    }

    /// Takes up a report of the event loop. What is to be done about it is asked for with
    /// [`Runner::advance`].
    pub fn receive(&mut self, callback: Callback<H>)
        requires
            inv(old(self)@),
            old(self)@.agenda.len() == 0,
        ensures
            final(self)@ == received(old(self)@, callback),
            inv(final(self)@),
            accepts(final(self)@, Reply::Done),
    {
        let ghost before = self@;
        match callback {
            Callback::Resumed => {
                self.resumed = true;
                self.first_do(Job::Release);
                self.first_do(Job::Process(Event::Resumed));
            },
            Callback::Suspended => {
                self.resumed = false;
                self.first_do(Job::Process(Event::Suspended));
            },
            Callback::NewEvents { cause, event } => {
                if !(self.platform == Platform::Android && cause == StartCause::Init) {
                    self.first_do(Job::Process(Event::EventLoopAwakened(event)));
                }
            },
            Callback::WindowEvent { input, event } => {
                if self.platform == Platform::Windows && matches!(
                    input,
                    WindowInput::Moved | WindowInput::Resized
                ) {
                    self.first_do(Job::Process(Event::AboutToWait));
                }
                self.first_do(Job::Process(Event::EventLoopAwakened(event)));
            },
            Callback::UserEvent(event) => {
                self.first_do(Job::Process(Event::EventLoopAwakened(event)));
            },
            Callback::AboutToWait => {
                self.first_do(Job::Process(Event::AboutToWait));
            },
        }
        assert(self@ =~= received(before, callback));
    }

    /// Takes the next step in dealing with the last report, and returns what is to be done for it.
    /// The reply is that to the command before, or [`Reply::Done`] if there was none since the report
    /// came in.
    pub fn advance(&mut self, reply: Reply<H>) -> (command: Command<H>)
        requires
            inv(old(self)@),
            accepts(old(self)@, reply),
        ensures
            (final(self)@, command) == step(old(self)@, reply),
            goes_well(step(old(self)@, reply)),
    {
        let ghost before = self@;
        proof {
            steps_go_well(before, reply);
        }
        let job = match self.agenda.pop() {
            Some(job) => job,
            None => {
                return Command::Idle;
            },
        };
        proof {
            assert(before.agenda[0] == job);
            assert(self@.agenda =~= before.agenda.drop_first());
            assert(first_do(self@, seq![]) =~= self@);
        }
        match job {
            Job::Process(event) => {
                self.first_do(Job::AwaitExiting(event));
                Command::AskExiting
            },
            Job::AwaitExiting(event) => {
                if let Reply::Exiting(true) = reply {
                    Command::Proceed
                } else {
                    self.first_do(Job::Poll);
                    Command::Send(event)
                }
            },
            Job::Poll => {
                self.first_do(Job::AwaitPoll);
                Command::Poll
            },
            Job::AwaitPoll => {
                if let Reply::Polled { ready: true } = reply {
                    Command::Exit
                } else {
                    self.first_do(Job::AwaitControl);
                    Command::Receive
                }
            },
            Job::AwaitControl => {
                if let Reply::Received(Some(control)) = reply {
                    self.first_do(Job::Poll);
                    let creates = matches!(control, Control::CreateWindow(_));
                    if self.platform == Platform::Android && creates && !self.resumed {
                        self.pending_controls.push(control);
                    } else {
                        self.first_do(Job::Handle(control));
                    }
                }
                Command::Proceed
            },
            Job::Handle(control) => self.handle_control(control),
            Job::AwaitFlow(requested) => {
                if let Reply::Flow { current, now } = reply {
                    if let Some(flow) = change_flow(current, requested, now) {
                        return Command::SetFlow(flow);
                    }
                }
                Command::Proceed
            },
            Job::AwaitCreated { id, exit_on_close_request, make_visible, channel } => {
                if let Reply::Created(window) = reply {
                    self.first_do(
                        Job::Process(
                            Event::WindowCreated {
                                id,
                                window,
                                exit_on_close_request,
                                make_visible,
                                channel,
                            },
                        ),
                    );
                }
                Command::Proceed
            },
            Job::Release => {
                self.release();
                Command::Proceed
            },
            Job::Leave => Command::Exit,
        }
    }

    /// Handles something that the application has asked for.
    fn handle_control(&mut self, control: Control<H>) -> (command: Command<H>)
        ensures
            (final(self)@, command) == model::handled(old(self)@, control),
    {
        let ghost before = self@;
        proof {
            assert(first_do(before, seq![]) =~= before);
        }
        match control {
            Control::ChangeFlow(flow) => {
                self.first_do(Job::AwaitFlow(flow));
                Command::ReadFlow
            },
            Control::CreateWindow(window) => {
                self.first_do(
                    Job::AwaitCreated {
                        id: window.id,
                        exit_on_close_request: window.exit_on_close_request,
                        make_visible: window.visible,
                        channel: window.channel,
                    },
                );
                Command::CreateWindow {
                    id: window.id,
                    creation: window.creation,
                    plan: window_plan(self.platform),
                }
            },
            Control::Exit => {
                self.first_do(Job::Leave);
                self.first_do(Job::Process(Event::Exit));
                assert(self@ =~= first_do(before, seq![Job::Process(Event::Exit), Job::Leave]));
                Command::Proceed
            },
            Control::Crash(error) => {
                self.error = Some(error);
                Command::Exit
            },
            Control::SetAutomaticWindowTabbing(enabled) => {
                if self.platform == Platform::MacOs {
                    Command::SetAutomaticWindowTabbing(enabled)
                } else {
                    Command::Proceed
                }
            },
        }
    }

    /// Goes on with what has been put off, in the order in which it came.
    fn release(&mut self)
        ensures
            final(self)@ == model::released(old(self)@),
    {
        let ghost before = self@;
        let ghost taken = Seq::<Control<H>>::empty();
        proof {
            assert(before.pending =~= self.pending_controls@ + taken);
            assert(model::handling(taken) + before.agenda =~= before.agenda);
        }
        while self.pending_controls.len() > 0
            invariant
                before.pending == self.pending_controls@ + taken,
                self@ == (Model {
                    pending: self.pending_controls@,
                    agenda: model::handling(taken) + before.agenda,
                    ..before
                }),
            decreases self.pending_controls.len(),
        {
            let ghost rest = self.pending_controls@.drop_last();
            let control = self.pending_controls.pop();
            if let Some(control) = control {
                let ghost was = taken;
                self.first_do(Job::Handle(control));
                proof {
                    taken = seq![control] + was;
                    assert(before.pending =~= self.pending_controls@ + taken);
                    assert(model::handling(taken) =~= seq![Job::Handle(control)] + model::handling(
                        was,
                    ));
                    assert(self@.agenda =~= model::handling(taken) + before.agenda);
                }
            }
        }
        proof {
            assert(taken =~= before.pending);
            assert(self@ =~= model::released(before));
        }
    }
}

} // verus!
