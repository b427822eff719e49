//! The life of a runner, from its start on.

use super::laws::windows_are_created_while_resumed;
use super::model::{
    accepts, answers, ending, goes_well, handling, inv, put_off, received, starting, step, steps_go_well,
};
use super::{Callback, Command, Event, Job, Model, Reply};
use crate::control::Control;
use crate::host::Host;
use crate::platform::Platform;
use vstd::prelude::*;

verus! {

/// Something that happens to a runner.
pub ghost enum Turn<H: Host> {
    /// The event loop reports something.
    Report(Callback<H>),
    /// The last command has been carried out, and this came of it.
    Reply(Reply<H>),
}

/// A runner after something has happened to it, and what it asks for.
pub open spec fn turned<H: Host>(now: (Model<H>, Command<H>), turn: Turn<H>) -> (
    Model<H>,
    Command<H>,
) {
    match turn {
        Turn::Report(callback) => (received(now.0, callback), Command::Proceed),
        Turn::Reply(reply) => step(now.0, reply),
    }
}

/// Whether something can happen to a runner: the event loop reports something when there is nothing
/// left to do about the last report, and a reply is one to the last command.
pub open spec fn can_turn<H: Host>(now: (Model<H>, Command<H>), turn: Turn<H>) -> bool {
    match turn {
        Turn::Report(_) => now.0.agenda.len() == 0,
        Turn::Reply(reply) => answers(now.1, reply),
    }
}

/// A runner after all that has happened to it, and what it asks for.
pub open spec fn life<H: Host>(platform: Platform, turns: Seq<Turn<H>>) -> (Model<H>, Command<H>)
    decreases turns.len(),
{
    if turns.len() == 0 {
        (starting(platform), Command::Proceed)
    } else {
        turned(life(platform, turns.drop_last()), turns.last())
    }
}

/// Whether all that happened to a runner could happen to it.
pub open spec fn is_life<H: Host>(platform: Platform, turns: Seq<Turn<H>>) -> bool
    decreases turns.len(),
{
    turns.len() == 0 || {
        &&& is_life(platform, turns.drop_last())
        &&& can_turn(life(platform, turns.drop_last()), turns.last())
    }
}

/// Whatever happens to a runner, it never gets stuck: it can go on from any answer to its last command.
pub proof fn runners_never_get_stuck<H: Host>(platform: Platform, turns: Seq<Turn<H>>)
    requires
        is_life(platform, turns),
    ensures
        goes_well(life(platform, turns)),
        life(platform, turns).0.platform == platform,
    decreases turns.len(),
{
    if turns.len() > 0 {
        let now = life(platform, turns.drop_last());
        runners_never_get_stuck(platform, turns.drop_last());
        match turns.last() {
            Turn::Report(callback) => {
                assert(inv(received(now.0, callback)));
            },
            Turn::Reply(reply) => {
                assert(accepts(now.0, reply));
                steps_go_well(now.0, reply);
            },
        }
    }
}

/// At no time in its life does a runner have a window created on Android while the application is not
/// resumed.
pub proof fn no_window_is_created_too_early<H: Host>(turns: Seq<Turn<H>>)
    requires
        is_life(Platform::Android, turns),
        life(Platform::Android, turns).1 is CreateWindow,
    ensures
        life(Platform::Android, turns).0.resumed,
{
    let now = life(Platform::Android, turns.drop_last());
    runners_never_get_stuck(Platform::Android, turns.drop_last());
    if let Turn::Reply(reply) = turns.last() {
        assert(accepts(now.0, reply));
        windows_are_created_while_resumed(now.0, reply);
    }
}

/// What a runner put off and what became of it, so far.
pub ghost struct Ledger<H: Host> {
    /// What the application asked for and was put off, in the order in which it was asked for.
    pub deferred: Seq<Control<H>>,
    /// What was put off and has been handled since, in the order in which it was handled.
    pub made: Seq<Control<H>>,
    /// Whether the application has been sent the event that it is resumed, since the last report.
    pub greeted: bool,
    /// Whether the event loop was about to end when the application was to be told.
    pub leaving: bool,
}

/// Whether some jobs are all there to handle something.
pub open spec fn all_handle<H: Host>(agenda: Seq<Job<H>>) -> bool {
    forall|i: int| 0 <= i < agenda.len() ==> (#[trigger] agenda[i]) is Handle
}

/// The things that the last jobs are there to handle, up to the first job from the back that is there
/// for something else. These are the ones that were put off and have been handed on: one that is
/// handled as soon as it is asked for always has another job behind it.
pub open spec fn handed_on<H: Host>(agenda: Seq<Job<H>>) -> Seq<Control<H>>
    decreases agenda.len(),
{
    if agenda.len() == 0 {
        Seq::empty()
    } else {
        match agenda.last() {
            Job::Handle(control) => handed_on(agenda.drop_last()).push(control),
            _ => Seq::empty(),
        }
    }
}

/// Keeps account of something that happens to a runner.
pub open spec fn noted<H: Host>(ledger: Ledger<H>, s: Model<H>, turn: Turn<H>) -> Ledger<H> {
    match turn {
        Turn::Report(_) => Ledger { greeted: false, leaving: false, ..ledger },
        Turn::Reply(reply) => if s.agenda.len() == 0 {
            ledger
        } else {
            match s.agenda[0] {
                Job::AwaitControl => match reply {
                    Reply::Received(Some(control)) if put_off(s, control) => Ledger {
                        deferred: ledger.deferred.push(control),
                        ..ledger
                    },
                    _ => ledger,
                },
                Job::Handle(control) if all_handle(s.agenda) => Ledger {
                    made: ledger.made.push(control),
                    ..ledger
                },
                Job::AwaitExiting(Event::Resumed) => Ledger {
                    greeted: !reply->Exiting_0,
                    leaving: reply->Exiting_0,
                    ..ledger
                },
                _ => ledger,
            }
        },
    }
}

/// The account of all that has happened to a runner.
pub open spec fn ledger<H: Host>(platform: Platform, turns: Seq<Turn<H>>) -> Ledger<H>
    decreases turns.len(),
{
    if turns.len() == 0 {
        Ledger { deferred: Seq::empty(), made: Seq::empty(), greeted: false, leaving: false }
    } else {
        let front = turns.drop_last();
        noted(ledger(platform, front), life(platform, front).0, turns.last())
    }
}

/// Whether what was put off is accounted for.
pub open spec fn balanced<H: Host>(s: Model<H>, ledger: Ledger<H>) -> bool {
    let last = s.agenda.len() - 1;
    &&& ledger.deferred == ledger.made + handed_on(s.agenda) + s.pending
    &&& forall|i: int| 0 <= i < ledger.deferred.len() ==> (#[trigger] ledger.deferred[i]) is CreateWindow
    &&& forall|i: int| 0 <= i < last ==> !((#[trigger] s.agenda[i]) is Release)
    &&& s.pending.len() > 0 && s.resumed ==> s.agenda.len() > 0 && s.agenda[last] is Release
    &&& s.agenda.len() > 0 && s.agenda[last] is Release ==> {
        ||| ledger.greeted || ledger.leaving
        ||| s.agenda.len() == 2 && s.agenda[0] == Job::<H>::Process(Event::Resumed)
        ||| s.agenda.len() == 2 && s.agenda[0] == Job::<H>::AwaitExiting(Event::Resumed)
    }
    &&& handed_on(s.agenda).len() > 0 ==> ledger.greeted || ledger.leaving
}

/// New jobs that do not end with one to handle something do not change what is handed on.
proof fn lemma_handed_on_behind<H: Host>(jobs: Seq<Job<H>>, rest: Seq<Job<H>>)
    requires
        jobs.len() > 0 ==> !(jobs.last() is Handle),
    ensures
        handed_on(jobs + rest) == handed_on(rest),
    decreases rest.len(),
{
    if rest.len() == 0 {
        assert(jobs + rest =~= jobs);
    } else {
        assert((jobs + rest).drop_last() =~= jobs + rest.drop_last());
        lemma_handed_on_behind(jobs, rest.drop_last());
    }
}

/// The first job makes a difference to what is handed on only if there is nothing but things to handle.
proof fn lemma_handed_on_first<H: Host>(agenda: Seq<Job<H>>)
    requires
        agenda.len() > 0,
    ensures
        all_handle(agenda) ==> handed_on(agenda) == seq![agenda[0]->Handle_0] + handed_on(
            agenda.drop_first(),
        ),
        !all_handle(agenda) ==> handed_on(agenda) == handed_on(agenda.drop_first()),
    decreases agenda.len(),
{
    let rest = agenda.drop_first();
    if agenda.len() == 1 {
        assert(rest =~= Seq::empty());
        assert(agenda.drop_last() =~= Seq::empty());
        if agenda[0] is Handle {
            assert(handed_on(agenda) =~= seq![agenda[0]->Handle_0] + handed_on(rest));
        }
    } else {
        let front = agenda.drop_last();
        assert(front.drop_first() =~= rest.drop_last());
        assert(rest.last() == agenda.last());
        lemma_handed_on_first(front);
        if agenda.last() is Handle {
            assert(all_handle(agenda) == all_handle(front)) by {
                if all_handle(front) {
                    assert forall|i: int| 0 <= i < agenda.len() implies (
                    #[trigger] agenda[i]) is Handle by {
                        if i < front.len() {
                            assert(front[i] == agenda[i]);
                        }
                    }
                }
                if all_handle(agenda) {
                    assert forall|i: int| 0 <= i < front.len() implies (
                    #[trigger] front[i]) is Handle by {
                        assert(front[i] == agenda[i]);
                    }
                }
            }
            if all_handle(agenda) {
                assert(handed_on(agenda) =~= seq![agenda[0]->Handle_0] + handed_on(rest));
            }
        } else {
            assert(!all_handle(agenda)) by {
                assert(!(agenda[agenda.len() - 1] is Handle));
            }
        }
    }
}

/// All that is handed on at once comes in the order in which it was put off.
proof fn lemma_handed_on_all<H: Host>(controls: Seq<Control<H>>)
    ensures
        handed_on(handling(controls)) == controls,
    decreases controls.len(),
{
    if controls.len() > 0 {
        lemma_handed_on_all(controls.drop_last());
        assert(handling(controls).drop_last() =~= handling(controls.drop_last()));
        assert(controls =~= controls.drop_last().push(controls.last()));
    } else {
        assert(handling(controls) =~= Seq::empty());
        assert(controls =~= Seq::empty());
    }
}

/// What was put off stays accounted for.
proof fn lemma_balanced<H: Host>(s: Model<H>, ledger: Ledger<H>, reply: Reply<H>)
    requires
        inv(s),
        accepts(s, reply),
        balanced(s, ledger),
        s.platform == Platform::Android,
    ensures
        balanced(step(s, reply).0, noted(ledger, s, Turn::Reply(reply))),
{
    let after = step(s, reply).0;
    let now = noted(ledger, s, Turn::Reply(reply));
    if s.agenda.len() > 0 {
        let rest = s.agenda.drop_first();
        lemma_handed_on_first(s.agenda);
        let n = after.agenda.len() - rest.len();
        assert(n >= 0);
        let jobs = after.agenda.take(n);
        assert(after.agenda =~= jobs + rest);
        if rest.len() > 0 {
            assert(rest.last() == s.agenda[s.agenda.len() - 1]);
            assert(after.agenda[after.agenda.len() - 1] == rest.last());
        }
        assert forall|i: int| n <= i < after.agenda.len() implies #[trigger] after.agenda[i]
            == s.agenda[i - n + 1] by {}
        if s.agenda[0] is Release {
            assert(s.agenda.len() == 1);
            assert(rest =~= Seq::empty());
            assert(after.agenda =~= handling(s.pending));
            lemma_handed_on_all(s.pending);
            assert(now.deferred =~= now.made + handed_on(after.agenda) + after.pending);
        } else {
            assert(jobs.len() > 0 ==> !(jobs.last() is Handle));
            assert forall|i: int| 0 <= i < n implies !((#[trigger] after.agenda[i]) is Release) by {}
            lemma_handed_on_behind(jobs, rest);
            assert(now.deferred =~= now.made + handed_on(after.agenda) + after.pending);
        }
    }
}

/// On Android, whatever happens: a window that is asked for while the application is not resumed is put
/// off, and those that were put off are created in the order in which they were asked for, each once.
/// None of them is created before the application has been told that it is resumed, unless the event
/// loop is about to end and it is told nothing any more. Once a resumed application has nothing left to
/// do, all of them have been created.
pub proof fn put_off_windows_are_created_in_order<H: Host>(turns: Seq<Turn<H>>)
    requires
        is_life(Platform::Android, turns),
    ensures
        ({
            let s = life(Platform::Android, turns).0;
            let ledger = ledger(Platform::Android, turns);
            &&& balanced(s, ledger)
            &&& ledger.made.is_prefix_of(ledger.deferred)
            &&& s.agenda.len() == 0 && s.resumed ==> ledger.made == ledger.deferred
        }),
    decreases turns.len(),
{
    let s = life(Platform::Android, turns).0;
    let account = ledger(Platform::Android, turns);
    if turns.len() == 0 {
        assert(account.deferred =~= account.made + handed_on(s.agenda) + s.pending);
    } else {
        let front = turns.drop_last();
        let now = life(Platform::Android, front).0;
        let before = ledger(Platform::Android, front);
        put_off_windows_are_created_in_order(front);
        runners_never_get_stuck(Platform::Android, front);
        match turns.last() {
            Turn::Report(callback) => {
                assert(handed_on(now.agenda) =~= Seq::empty());
                assert(now.agenda + now.agenda =~= now.agenda);
                if s.agenda.len() > 0 {
                    assert(!(s.agenda.last() is Handle));
                }
                assert(handed_on(s.agenda) =~= Seq::empty());
                assert(s.agenda.len() > 0 && s.agenda[s.agenda.len() - 1] is Release ==> callback
                    is Resumed);
            },
            Turn::Reply(reply) => {
                assert(accepts(now, reply));
                lemma_balanced(now, before, reply);
            },
        }
    }
    if s.agenda.len() == 0 {
        assert(handed_on(s.agenda) =~= Seq::empty());
        if s.resumed {
            assert(account.made =~= account.deferred);
        }
    }
}

/// What the account holds is what happens. A window that was put off is entered as created exactly when
/// the system is asked for it, and by then the application has been told that it is resumed, unless the
/// event loop is about to end. The application counts as told when it is sent the event.
pub proof fn the_account_is_true<H: Host>(turns: Seq<Turn<H>>)
    requires
        is_life(Platform::Android, turns),
        turns.len() > 0,
        turns.last() is Reply,
    ensures
        ({
            let (s, command) = life(Platform::Android, turns);
            let before = ledger(Platform::Android, turns.drop_last());
            let after = ledger(Platform::Android, turns);
            &&& after.made != before.made ==> {
                &&& command is CreateWindow
                &&& after.made.len() == before.made.len() + 1
                &&& after.made.last() matches Control::CreateWindow(window) && window.id
                    == command->CreateWindow_id && window.creation == command->creation
                &&& after.made.last() == after.deferred[before.made.len() as int]
                &&& after.greeted || after.leaving
                &&& s.resumed
            }
            &&& !before.greeted && after.greeted ==> command == Command::<H>::Send(Event::Resumed)
        }),
{
    let front = turns.drop_last();
    let now = life(Platform::Android, front).0;
    let before = ledger(Platform::Android, front);
    let after = ledger(Platform::Android, turns);
    put_off_windows_are_created_in_order(front);
    put_off_windows_are_created_in_order(turns);
    runners_never_get_stuck(Platform::Android, front);
    if let Turn::Reply(reply) = turns.last() {
        assert(accepts(now, reply));
        if after.made != before.made {
            lemma_handed_on_first(now.agenda);
            let control = now.agenda[0]->Handle_0;
            assert(before.deferred[before.made.len() as int] == control);
            no_window_is_created_too_early(turns);
        }
    }
}

/// What is asked for is handled at once, unless it is a window that has to be put off: nothing else is
/// held back.
pub proof fn only_windows_are_held_back<H: Host>(s: Model<H>, control: Control<H>)
    requires
        s.agenda.len() > 0,
        s.agenda[0] == Job::<H>::AwaitControl,
    ensures
        ({
            let after = step(s, Reply::Received(Some(control))).0;
            let held_back = s.platform == Platform::Android && control is CreateWindow && !s.resumed;
            &&& held_back <==> after.pending == s.pending.push(control)
            &&& held_back <==> !(after.agenda[0] is Handle)
            &&& !held_back ==> after.agenda[0] == Job::Handle(control) && after.pending == s.pending
        }),
{
    let after = step(s, Reply::Received(Some(control))).0;
    assert(s.pending.push(control).len() == s.pending.len() + 1);
}

/// The error of a crash that is handled with something that happens to a runner, if one is.
pub open spec fn crash_of<H: Host>(s: Model<H>, turn: Turn<H>) -> Option<H::Error> {
    if turn is Reply && s.agenda.len() > 0 {
        match s.agenda[0] {
            Job::Handle(Control::Crash(error)) => Some(error),
            _ => None,
        }
    } else {
        None
    }
}

/// The error of the last crash that a runner has handled, if it has handled any.
pub open spec fn last_crash<H: Host>(platform: Platform, turns: Seq<Turn<H>>) -> Option<H::Error>
    decreases turns.len(),
{
    if turns.len() == 0 {
        None
    } else {
        let front = turns.drop_last();
        match crash_of(life(platform, front).0, turns.last()) {
            Some(error) => Some(error),
            None => last_crash(platform, front),
        }
    }
}

/// Whatever happens to a runner, it ends with the error of the last crash that it has handled, and well
/// exactly if it has handled none. Each crash that it handles ends the event loop.
pub proof fn the_last_crash_is_reported<H: Host>(platform: Platform, turns: Seq<Turn<H>>)
    ensures
        life(platform, turns).0.error == last_crash(platform, turns),
        ending(life(platform, turns).0) == match last_crash(platform, turns) {
            Some(error) => Err::<(), H::Error>(error),
            None => Ok::<(), H::Error>(()),
        },
        ending(life(platform, turns).0) is Ok <==> forall|n: int|
            0 <= n < turns.len() ==> crash_of(
                life(platform, #[trigger] turns.take(n)).0,
                turns[n],
            ) is None,
        turns.len() > 0 && crash_of(life(platform, turns.drop_last()).0, turns.last()) is Some
            ==> life(platform, turns).1 == Command::<H>::Exit,
    decreases turns.len(),
{
    if turns.len() > 0 {
        let front = turns.drop_last();
        let last = turns.len() - 1;
        the_last_crash_is_reported(platform, front);
        assert(turns.take(last) =~= front);
        assert forall|n: int| 0 <= n < last implies #[trigger] turns.take(n) == front.take(n)
            && turns[n] == front[n] by {
            assert(turns.take(n) =~= front.take(n));
        }
        assert forall|n: int| 0 <= n < last implies #[trigger] front.take(n) == turns.take(n) by {
            assert(turns.take(n) =~= front.take(n));
        }
    }
}

/// A crash that the application tells of is handled with the next reply.
pub proof fn crashes_are_handled_next<H: Host>(s: Model<H>, error: H::Error, reply: Reply<H>)
    requires
        s.agenda.len() > 0,
        s.agenda[0] == Job::<H>::AwaitControl,
    ensures
        crash_of(
            step(s, Reply::Received(Some(Control::Crash(error)))).0,
            Turn::Reply(reply),
        ) == Some(error),
{
}

} // verus!
