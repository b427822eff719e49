//! The life of an application, from its start on.

use super::laws::{
    attached, clipboard_stays_attached, lemma_names_kept, windows_may_change_inside,
};
use super::model::{initial, received, step, with_window, Next};
use super::order::{goes_well, inv};
use super::protocol::{accepts, answers};
use super::upkeep::{events_are_taken_well, lemma_same_ids, starts_well, steps_go_well};
use super::whole::can_go_on;
use super::{Command, Config, Event, Job, Opening, Reply};
use crate::host::Host;
use crate::window_man::{lemma_replaced, Window};
use vstd::prelude::*;

verus! {

/// Something that happens to an application.
pub ghost enum Turn<H: Host, U> {
    /// It is told of an event.
    Event(Event<H>),
    /// The last command has been carried out, and this came of it.
    Reply(Reply<H, U>),
    /// What an open window holds is changed.
    Window { id: u64, inner: H::Window },
}

/// The start of an application.
pub open spec fn birth<H: Host, U>(config: Config) -> Next<H, U> {
    Next { model: initial(config), interfaces: Map::empty(), command: Command::Proceed }
}

/// An application after something has happened to it.
pub open spec fn turned<H: Host, U>(now: Next<H, U>, turn: Turn<H, U>) -> Next<H, U> {
    match turn {
        Turn::Event(event) => Next {
            model: received(now.model, event),
            interfaces: now.interfaces,
            command: Command::Proceed,
        },
        Turn::Reply(reply) => step(now.model, now.interfaces, reply),
        Turn::Window { id, inner } => Next { model: with_window(now.model, id, inner), ..now },
    }
}

/// Whether something can happen to an application: it is told of an event when there is nothing left
/// to do about the last one, a reply is one to the last command, and a window that is changed is open.
pub open spec fn can_turn<H: Host, U>(now: Next<H, U>, turn: Turn<H, U>) -> bool {
    match turn {
        Turn::Event(_) => now.model.agenda.len() == 0,
        Turn::Reply(reply) => can_go_on(now, reply),
        Turn::Window { id, .. } => now.model.windows.has(id),
    }
}

/// An application after all that has happened to it.
pub open spec fn life<H: Host, U>(config: Config, turns: Seq<Turn<H, U>>) -> Next<H, U>
    decreases turns.len(),
{
    if turns.len() == 0 {
        birth(config)
    } else {
        turned(life(config, turns.drop_last()), turns.last())
    }
}

/// Whether all that happened to an application could happen to it.
pub open spec fn is_life<H: Host, U>(config: Config, turns: Seq<Turn<H, U>>) -> bool
    decreases turns.len(),
{
    turns.len() == 0 || {
        &&& is_life(config, turns.drop_last())
        &&& can_turn(life(config, turns.drop_last()), turns.last())
    }
}

/// Whatever happens to an application, it never gets stuck. At any time each open window has its user
/// interface or gets it back with the next reply, the last command is about a window that is open, and
/// the application can go on from any answer to it.
pub proof fn applications_never_get_stuck<H: Host, U>(config: Config, turns: Seq<Turn<H, U>>)
    requires
        is_life(config, turns),
    ensures
        goes_well(life(config, turns)),
    decreases turns.len(),
{
    if turns.len() == 0 {
        starts_well::<H, U>(config);
    } else {
        let now = life(config, turns.drop_last());
        applications_never_get_stuck(config, turns.drop_last());
        match turns.last() {
            Turn::Event(event) => {
                events_are_taken_well(now.model, now.interfaces, event);
                let after = received(now.model, event);
                assert forall|reply: Reply<H, U>| #[trigger]
                    answers(Command::<H, U>::Proceed, reply) implies accepts(after, reply) by {
                    assert(reply == Reply::<H, U>::Done);
                }
            },
            Turn::Reply(reply) => {
                steps_go_well(now.model, now.interfaces, reply);
            },
            Turn::Window { id, inner } => {
                let windows = now.model.windows;
                let window = Window { inner, ..windows.at(id) };
                assert(windows.entries[windows.place(id)].id == id);
                lemma_replaced(windows, window);
                lemma_same_ids(windows, windows.replaced(window));
                windows_may_change_inside(now.model, now.interfaces, id, inner);
            },
        }
    }
}

/// Whenever an application has dealt with an event, it has a compositor exactly while a window is open,
/// and each open window has a user interface.
pub proof fn settled_applications_are_complete<H: Host, U>(config: Config, turns: Seq<Turn<H, U>>)
    requires
        is_life(config, turns),
        life(config, turns).model.agenda.len() == 0,
    ensures
        ({
            let now = life(config, turns);
            &&& now.model.compositor <==> now.model.windows.entries.len() > 0
            &&& now.interfaces.dom() =~= now.model.windows.ids()
        }),
{
    applications_never_get_stuck(config, turns);
    assert(inv(life(config, turns).model, life(config, turns).interfaces));
}

/// Whether no window was ever opened under the identifier of another one that was open.
pub open spec fn identifiers_are_fresh<H: Host, U>(config: Config, turns: Seq<Turn<H, U>>) -> bool
    decreases turns.len(),
{
    turns.len() == 0 || {
        let s = life(config, turns.drop_last()).model;
        &&& identifiers_are_fresh(config, turns.drop_last())
        &&& s.agenda.len() > 0 && turns.last() is Reply ==> match s.agenda[0] {
            Job::Opening(Opening::AwaitWindow { id, .. }) => !s.windows.has(id),
            _ => true,
        }
    }
}

/// At no time in the life of an application is the clipboard connected to a window that is not open, as
/// long as no window is opened under the identifier of another one.
pub proof fn the_clipboard_is_never_left_behind<H: Host, U>(config: Config, turns: Seq<Turn<H, U>>)
    requires
        is_life(config, turns),
        identifiers_are_fresh(config, turns),
    ensures
        attached(life(config, turns).model),
    decreases turns.len(),
{
    if turns.len() > 0 {
        let front = turns.drop_last();
        let now = life(config, front);
        the_clipboard_is_never_left_behind(config, front);
        applications_never_get_stuck(config, front);
        match turns.last() {
            Turn::Event(event) => {
                let after = received(now.model, event);
                assert(after.clipboard == now.model.clipboard);
                assert(after.windows == now.model.windows);
            },
            Turn::Reply(reply) => {
                assert(accepts(now.model, reply));
                if now.model.agenda.len() > 0 {
                    clipboard_stays_attached(now.model, now.interfaces, reply);
                }
            },
            Turn::Window { id, inner } => {
                let windows = now.model.windows;
                assert(windows.entries[windows.place(id)].id == id);
                lemma_names_kept(windows, Window { inner, ..windows.at(id) });
            },
        }
    }
}

} // verus!
