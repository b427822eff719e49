//! When the event loop wakes up.

use vstd::prelude::*;

verus! {

/// How the event loop waits: `winit`'s `ControlFlow`. A point in time is a number of nanoseconds
/// since some moment that stays the same while the loop runs.
#[derive(Clone, Copy, Debug, PartialEq, Eq, Structural)]
pub enum ControlFlow {
    /// Run again at once.
    Poll,
    /// Sleep until an event arrives.
    Wait,
    /// Sleep until an event arrives or the time has come.
    WaitUntil(u64),
}

/// Whether the wait that the event loop has set stays in place of a requested one: an earlier
/// deadline beats a later one, and a deadline still to come beats an open-ended wait.
pub open spec fn keeps(current: ControlFlow, requested: ControlFlow, now: u64) -> bool {
    match (current, requested) {
        (ControlFlow::WaitUntil(set), ControlFlow::WaitUntil(new)) => set < new,
        (ControlFlow::WaitUntil(set), ControlFlow::Wait) => set > now,
        _ => false,
    }
}

/// The wait that the event loop has after a request.
pub open spec fn flow_after(current: ControlFlow, requested: ControlFlow, now: u64) -> ControlFlow {
    if keeps(current, requested, now) {
        current
    } else {
        requested
    }
}

/// Decides on a request to change how the event loop waits: the wait to set, or none if the current
/// one stays.
pub fn change_flow(current: ControlFlow, requested: ControlFlow, now: u64) -> (set: Option<ControlFlow>)
    ensures
        set == (if keeps(current, requested, now) { None::<ControlFlow> } else { Some(requested) }),
{
    match (current, requested) {
        (ControlFlow::WaitUntil(set), ControlFlow::WaitUntil(new)) => {
            if set < new { None } else { Some(requested) }
        },
        (ControlFlow::WaitUntil(set), ControlFlow::Wait) => {
            if set > now { None } else { Some(requested) }
        },
        _ => Some(requested),
    }
}

/// While a deadline is still to come, no request to wait makes the event loop wake up later.
pub proof fn deadlines_are_kept(set: u64, requested: ControlFlow, now: u64)
    requires
        set > now,
        requested != ControlFlow::Poll,
    ensures
        flow_after(ControlFlow::WaitUntil(set), requested, now) matches ControlFlow::WaitUntil(at)
            && at <= set,
{
}

/// Of two requested deadlines the earlier one is in force, whichever came first.
pub proof fn earlier_deadline_wins(start: ControlFlow, first: u64, second: u64, now: u64)
    requires
        start !is WaitUntil,
    ensures
        flow_after(
            flow_after(start, ControlFlow::WaitUntil(first), now),
            ControlFlow::WaitUntil(second),
            now,
        ) == ControlFlow::WaitUntil(if first < second { first } else { second }),
{
}

/// What the event loop waits for after a request. A request to poll is always met. A request for a
/// deadline is met unless an earlier one is set. A request for an open-ended wait is met unless a
/// deadline is set that is still to come.
pub proof fn requests_are_met_in_time(current: ControlFlow, requested: ControlFlow, now: u64)
    ensures
        ({
            let after = flow_after(current, requested, now);
            &&& after == current || after == requested
            &&& requested == ControlFlow::Poll ==> after == ControlFlow::Poll
            &&& current !is WaitUntil ==> after == requested
            &&& current matches ControlFlow::WaitUntil(set) ==> {
                &&& requested matches ControlFlow::WaitUntil(new) ==> after == (if set < new {
                    ControlFlow::WaitUntil(set)
                } else {
                    ControlFlow::WaitUntil(new)
                })
                &&& requested == ControlFlow::Wait ==> (after == ControlFlow::Wait <==> set <= now)
            }
        }),
{
}

} // verus!
