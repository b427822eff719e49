//! How a frame is drawn, from the request for it until it is presented.

use super::course::{
    aside, follows_action, leads_on, lemma_action_goes_on, lemma_all_lead_on, lemma_stays_aside,
    plain,
};
use super::laws::windows_come_and_go_as_told;
use super::model::{
    first_do, frame_begun, frame_end, frame_step, received, rest_of, step, Next, MAX_REDRAWS,
};
use super::order::{inv, may_close};
use super::protocol::{accepts, concerns, job_valid, redraws};
use super::whole::{answered, begun, events_go_well, one_if, run, times};
use super::{Command, Effect, Event, Frame, Job, Model, Reply};
use crate::host::Host;
use vstd::prelude::*;

verus! {

/// Whether a user interface is told of a frame.
pub open spec fn tells<H: Host, U>(command: Command<H, U>) -> bool {
    command is Redraw
}

/// Whether a frame is drawn.
pub open spec fn draws<H: Host, U>(command: Command<H, U>) -> bool {
    match command {
        Command::Effect(Effect::Window { op, .. }) => op is Draw,
        _ => false,
    }
}

/// Whether a frame is presented.
pub open spec fn presents<H: Host, U>(command: Command<H, U>) -> bool {
    command is Present
}

/// The window whose frame a command has to do with.
pub open spec fn window_of<H: Host, U>(command: Command<H, U>) -> Option<u64> {
    match command {
        Command::Redraw { id } => Some(id),
        Command::Effect(Effect::Window { id, op }) if op is Draw => Some(id),
        Command::Present { id } => Some(id),
        _ => None,
    }
}

/// Whether a reply tells that there is nothing to draw on.
pub open spec fn has_no_area<H: Host, U>(reply: Reply<H, U>) -> bool {
    match reply {
        Reply::Inspected { width, height, .. } => width == 0 || height == 0,
        _ => false,
    }
}

/// How often a user interface has been told of a frame, and how often the frame has been drawn and
/// presented.
ghost struct Account {
    told: int,
    drawn: int,
    presented: int,
}

/// An account after a command.
spec fn counted<H: Host, U>(account: Account, command: Command<H, U>) -> Account {
    Account {
        told: account.told + one_if(tells(command)),
        drawn: account.drawn + one_if(draws(command)),
        presented: account.presented + one_if(presents(command)),
    }
}

/// A stage in the drawing of a frame.
ghost enum Stage {
    /// The window is about to be looked at.
    Ahead,
    /// The window is being looked at.
    Looking,
    /// There is nothing to draw on.
    NoArea,
    /// The user interface is told of the frame.
    Telling,
    /// The frame has been drawn.
    Drawn,
    /// The frame has been presented.
    Over,
}

/// Whether a job prepares a user interface for a frame.
spec fn prepares<H: Host>(job: Job<H>) -> bool {
    match job {
        Job::Frame(frame) => frame is Relayout || frame is AwaitRelayout,
        _ => aside(job),
    }
}

/// Whether a job is one of a round in which a user interface is told of a frame.
spec fn is_round<H: Host>(job: Job<H>, id: u64) -> bool {
    match job {
        Job::Frame(Frame::Redraw { id: framed, .. }) => framed == id,
        Job::Frame(Frame::AwaitRedraw { id: framed, .. }) => framed == id,
        Job::Frame(Frame::Check { id: framed, .. }) => framed == id,
        Job::Frame(Frame::AwaitSize { id: framed, .. }) => framed == id,
        _ => false,
    }
}

/// Whether an application is at a stage.
spec fn stands_at<H: Host>(s: Model<H>, id: u64, stage: Stage, account: Account) -> bool {
    let agenda = s.agenda;
    let n = agenda.len();
    let none = Account { told: 0, drawn: 0, presented: 0 };
    match stage {
        Stage::Ahead => agenda == seq![Job::<H>::Frame(Frame::Inspect { id })] && account == none,
        Stage::Looking => agenda == seq![Job::<H>::Frame(Frame::AwaitInspect { id })] && account
            == none,
        Stage::NoArea => n == 0 && account == none,
        Stage::Telling => {
            &&& n > 0
            &&& forall|i: int| 0 <= i < n - 1 ==> prepares(#[trigger] agenda[i])
            &&& is_round(agenda[n - 1], id)
            &&& redraws(agenda[n - 1]) <= MAX_REDRAWS
            &&& account.told == redraws(agenda[n - 1]) + one_if(
                agenda[n - 1] matches Job::Frame(frame) && frame is AwaitRedraw,
            )
            &&& account.drawn == 0 && account.presented == 0
        },
        Stage::Drawn => {
            &&& n > 0
            &&& forall|i: int| 0 <= i < n - 1 ==> aside(#[trigger] agenda[i])
            &&& agenda[n - 1] == Job::<H>::Frame(Frame::Present { id }) || agenda[n - 1] == Job::<
                H,
            >::Frame(Frame::AwaitPresent { id })
            &&& 1 <= account.told <= MAX_REDRAWS + 1
            &&& account.drawn == 1
            &&& account.presented == one_if(
                agenda[n - 1] == Job::<H>::Frame(Frame::AwaitPresent { id }),
            )
        },
        Stage::Over => {
            &&& forall|i: int| 0 <= i < n ==> follows_action(#[trigger] agenda[i])
            &&& 1 <= account.told <= MAX_REDRAWS + 1
            &&& account.drawn == 1 && account.presented == 1
        },
    }
}

/// A job that prepares a user interface for a frame leads to others that do.
proof fn lemma_prepares<H: Host, U>(s: Model<H>, ui: Map<u64, U>, reply: Reply<H, U>)
    requires
        s.agenda.len() > 0,
        prepares(s.agenda[0]),
    ensures
        leads_on(rest_of(s), step(s, ui, reply), |job: Job<H>| prepares(job)),
        plain(step(s, ui, reply).command),
{
    let next = step(s, ui, reply);
    if s.agenda[0] is Frame {
        reveal(frame_step);
    } else {
        lemma_stays_aside(s, ui, reply);
        let n = next.model.agenda.len() - rest_of(s).agenda.len();
        assert forall|i: int| 0 <= i < n implies prepares(#[trigger] next.model.agenda[i]) by {
            assert(aside(next.model.agenda[i]));
        }
    }
}

/// Jobs of a kind stay before a last one when the first of them leads to others of its kind.
proof fn lemma_last_stays<H: Host, U>(s: Model<H>, next: Next<H, U>, kind: spec_fn(Job<H>) -> bool)
    requires
        s.agenda.len() > 1,
        leads_on(rest_of(s), next, kind),
        forall|i: int| 0 <= i < s.agenda.len() - 1 ==> kind(#[trigger] s.agenda[i]),
    ensures
        next.model.agenda.len() > 0,
        next.model.agenda.last() == s.agenda.last(),
        forall|i: int|
            0 <= i < next.model.agenda.len() - 1 ==> kind(#[trigger] next.model.agenda[i]),
{
    let rest = rest_of(s).agenda;
    let n = next.model.agenda.len() - rest.len();
    let last = next.model.agenda.len() - 1;
    assert(next.model.agenda[last] == rest[last - n]);
    assert forall|i: int| 0 <= i < last implies kind(#[trigger] next.model.agenda[i]) by {
        if i >= n {
            assert(next.model.agenda[i] == rest[i - n]);
            assert(rest[i - n] == s.agenda[i - n + 1]);
        }
    }
}

/// A round in which a user interface is told of a frame goes on, or ends with the frame being drawn.
proof fn lemma_round<H: Host, U>(
    s: Model<H>,
    ui: Map<u64, U>,
    reply: Reply<H, U>,
    id: u64,
    account: Account,
) -> (next: Stage)
    requires
        inv(s, ui),
        s.agenda.len() == 1,
        stands_at(s, id, Stage::Telling, account),
    ensures
        ({
            let after = step(s, ui, reply);
            &&& stands_at(after.model, id, next, counted(account, after.command))
            &&& next is Telling || next is Drawn
            &&& tells(after.command) ==> next is Telling
            &&& window_of(after.command) matches Some(framed) ==> framed == id
        }),
{
    reveal(frame_step);
    let rest = rest_of(s);
    let after = step(s, ui, reply);
    assert(rest.agenda =~= Seq::empty());
    assert(job_valid(s.windows, s.agenda[0]));
    assert(s.compositor);
    if draws(after.command) {
        let state = reply->Redrawn_state;
        assert(after.model.agenda =~= frame_end(id, state));
        Stage::Drawn
    } else {
        Stage::Telling
    }
}

/// What follows when the window has been looked at.
proof fn lemma_looked<H: Host, U>(
    s: Model<H>,
    ui: Map<u64, U>,
    reply: Reply<H, U>,
    id: u64,
    account: Account,
) -> (next: Stage)
    requires
        accepts(s, reply),
        stands_at(s, id, Stage::Looking, account),
    ensures
        ({
            let after = step(s, ui, reply);
            &&& stands_at(after.model, id, next, counted(account, after.command))
            &&& next == if has_no_area(reply) {
                Stage::NoArea
            } else {
                Stage::Telling
            }
            &&& window_of(after.command) is None
        }),
{
    reveal(frame_step);
    let rest = rest_of(s);
    let after = step(s, ui, reply);
    assert(rest.agenda =~= Seq::empty());
    if has_no_area(reply) {
        assert(after.model.agenda =~= Seq::empty());
        Stage::NoArea
    } else {
        let begun = frame_begun(rest, id, reply->Inspected_surface_version);
        assert(first_do(begun, Seq::<Job<H>>::empty()).agenda =~= begun.agenda);
        Stage::Telling
    }
}

/// The drawing of a frame goes on from one stage to another, or stays at it.
proof fn lemma_frame_goes_on<H: Host, U>(
    s: Model<H>,
    ui: Map<u64, U>,
    reply: Reply<H, U>,
    id: u64,
    stage: Stage,
    account: Account,
) -> (next: Stage)
    requires
        inv(s, ui),
        accepts(s, reply),
        s.agenda.len() > 0,
        stands_at(s, id, stage, account),
    ensures
        ({
            let after = step(s, ui, reply);
            &&& stands_at(after.model, id, next, counted(account, after.command))
            &&& window_of(after.command) matches Some(framed) ==> framed == id
            &&& tells(after.command) ==> next is Telling
            &&& next is Looking <==> stage is Ahead
            &&& next is NoArea <==> stage is Looking && has_no_area(reply)
            &&& next !is Ahead
            &&& after.model.windows.ids() == s.windows.ids()
        }),
{
    windows_come_and_go_as_told(s, ui, reply);
    assert(may_close(s.agenda[0]) ==> s.agenda.len() == 1 || concerns(s.agenda.last()) is None);
    let rest = rest_of(s);
    let after = step(s, ui, reply);
    let n = s.agenda.len();
    match stage {
        Stage::Ahead => {
            reveal(frame_step);
            assert(rest.agenda =~= Seq::empty());
            assert(after.model.agenda =~= seq![Job::<H>::Frame(Frame::AwaitInspect { id })]);
            Stage::Looking
        },
        Stage::Looking => lemma_looked(s, ui, reply, id, account),
        Stage::Telling => if n == 1 {
            lemma_round(s, ui, reply, id, account)
        } else {
            assert(prepares(s.agenda[0]));
            lemma_prepares(s, ui, reply);
            lemma_last_stays(s, after, |job: Job<H>| prepares(job));
            Stage::Telling
        },
        Stage::Drawn => if n == 1 {
            reveal(frame_step);
            assert(rest.agenda =~= Seq::empty());
            if s.agenda[0] == Job::<H>::Frame(Frame::Present { id }) {
                Stage::Drawn
            } else {
                Stage::Over
            }
        } else {
            assert(aside(s.agenda[0]));
            lemma_stays_aside(s, ui, reply);
            lemma_last_stays(s, after, |job: Job<H>| aside(job));
            Stage::Drawn
        },
        _ => {
            assert(follows_action(s.agenda[0]));
            lemma_action_goes_on(s, ui, reply);
            lemma_all_lead_on(s, after, |job: Job<H>| follows_action(job));
            Stage::Over
        },
    }
}

/// How often a user interface has been told of a frame, and how often the frame has been drawn and
/// presented, over some replies.
spec fn account_of<H: Host, U>(start: Next<H, U>, replies: Seq<Reply<H, U>>) -> Account {
    Account {
        told: times(start, replies, |command: Command<H, U>| tells(command)),
        drawn: times(start, replies, |command: Command<H, U>| draws(command)),
        presented: times(start, replies, |command: Command<H, U>| presents(command)),
    }
}

/// The stage that the drawing of a frame is at.
proof fn lemma_stage<H: Host, U>(
    s: Model<H>,
    ui: Map<u64, U>,
    raw: u64,
    replies: Seq<Reply<H, U>>,
) -> (stage: Stage)
    requires
        inv(s, ui),
        s.agenda.len() == 0,
        s.windows.alias(raw) is Some,
        answered(begun(s, ui, Event::RedrawRequested { raw }), replies),
    ensures
        ({
            let start = begun(s, ui, Event::RedrawRequested { raw });
            let now = run(start, replies);
            let id = s.windows.alias(raw)->0;
            &&& stands_at(now.model, id, stage, account_of(start, replies))
            &&& window_of(now.command) matches Some(framed) ==> framed == id
            &&& now.model.windows.ids() == s.windows.ids()
            &&& stage is Ahead <==> replies.len() == 0
            &&& stage is Looking <==> replies.len() == 1
            &&& stage is NoArea <==> replies.len() > 1 && has_no_area(replies[1])
            &&& replies.len() > 0 && tells(now.command) ==> account_of(start, replies).drawn == 0
        }),
    decreases replies.len(),
{
    let start = begun(s, ui, Event::RedrawRequested { raw });
    let id = s.windows.alias(raw)->0;
    if replies.len() == 0 {
        assert(s.windows.has(id));
        assert(s.compositor);
        assert(start.model.agenda =~= seq![Job::<H>::Frame(Frame::Inspect { id })]);
        Stage::Ahead
    } else {
        let front = replies.drop_last();
        let reply = replies.last();
        let before = run(start, front);
        let stage = lemma_stage(s, ui, raw, front);
        events_go_well(s, ui, Event::RedrawRequested { raw }, front);
        assert(accepts(before.model, reply));
        if replies.len() > 2 {
            assert(replies[1] == front[1]);
        }
        if before.model.agenda.len() == 0 {
            stage
        } else {
            lemma_frame_goes_on(
                before.model,
                before.interfaces,
                reply,
                id,
                stage,
                account_of(start, front),
            )
        }
    }
}

/// When a window is to be drawn, its user interface is told of the frame one to three times, and the
/// frame is then drawn exactly once and presented once, whatever the replies are. Only if the window
/// has no area is none of that done. No other window is told, drawn or presented meanwhile, and none is
/// opened or closed.
pub proof fn frames_are_drawn_once<H: Host, U>(
    s: Model<H>,
    ui: Map<u64, U>,
    raw: u64,
    replies: Seq<Reply<H, U>>,
)
    requires
        inv(s, ui),
        s.agenda.len() == 0,
        s.windows.alias(raw) is Some,
        answered(begun(s, ui, Event::RedrawRequested { raw }), replies),
    ensures
        ({
            let start = begun(s, ui, Event::RedrawRequested { raw });
            let now = run(start, replies);
            let told = times(start, replies, |command: Command<H, U>| tells(command));
            let drawn = times(start, replies, |command: Command<H, U>| draws(command));
            let presented = times(start, replies, |command: Command<H, U>| presents(command));
            &&& told <= 3
            &&& presented <= drawn <= 1
            &&& drawn == 1 ==> told >= 1
            &&& replies.len() > 0 && tells(now.command) ==> drawn == 0
            &&& window_of(now.command) matches Some(id) ==> s.windows.alias(raw) == Some(id)
            &&& now.model.windows.ids() == s.windows.ids()
            &&& now.model.agenda.len() == 0 ==> {
                &&& replies.len() > 1
                &&& has_no_area(replies[1]) ==> told == 0 && drawn == 0 && presented == 0
                &&& !has_no_area(replies[1]) ==> 1 <= told <= 3 && drawn == 1 && presented == 1
            }
        }),
{
    let stage = lemma_stage(s, ui, raw, replies);
}

/// A request to draw a window that is not open is left alone.
pub proof fn only_open_windows_are_drawn<H: Host>(s: Model<H>, raw: u64)
    requires
        s.windows.alias(raw) is None,
    ensures
        received(s, Event::RedrawRequested { raw }) == s,
{
}

} // verus!
