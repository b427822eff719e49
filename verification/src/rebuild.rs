//! How the user interfaces of all windows are built.

use crate::fx::{self, lookup};
use crate::window_man::{lemma_ids_parted, WindowManager, Windows};
use rustc_hash::FxHashMap;
use vstd::prelude::*;

verus! {

/// What is to be done next.
pub enum BuildStep<C> {
    /// Bring the title, the scale and the theme of an open window in line with the program.
    Synchronize(u64),
    /// Build the user interface of an open window from its cache, or from a fresh one if it has none.
    Build { id: u64, cache: Option<C> },
    /// Nothing, for now.
    Proceed,
    /// Nothing: every user interface is built.
    Done,
}

/// How far a build has come. Places are places among the open windows.
#[derive(Clone, Copy, Debug, PartialEq, Eq, Structural)]
pub enum BuildPhase {
    Synchronizing { next: usize },
    Building { next: usize },
    AwaitInterface { id: u64, next: usize },
    Done,
}

/// The construction of a user interface for every window.
pub struct Build<C> {
    cached: FxHashMap<u64, C>,
    phase: BuildPhase,
}

/// The caches that are left, and how far the build has come.
#[verifier::ext_equal]
pub ghost struct BuildView<C> {
    pub cached: Map<u64, C>,
    pub phase: BuildPhase,
}

impl<C> View for Build<C> {
    type V = BuildView<C>;

    closed spec fn view(&self) -> BuildView<C> {
        BuildView { cached: self.cached@, phase: self.phase }
    }
}

/// One step of a build: the build after it, the user interfaces after it, and what is to be done.
pub open spec fn build_step<W, C, U>(
    build: BuildView<C>,
    windows: Windows<W>,
    interfaces: Map<u64, U>,
    built: Option<U>,
) -> (BuildView<C>, Map<u64, U>, BuildStep<C>) {
    match build.phase {
        BuildPhase::Synchronizing { next } => if next < windows.entries.len() {
            (
                BuildView { phase: BuildPhase::Synchronizing { next: (next + 1) as usize }, ..build },
                interfaces,
                BuildStep::Synchronize(windows.entries[next as int].id),
            )
        } else {
            (
                BuildView { phase: BuildPhase::Building { next: 0 }, ..build },
                interfaces,
                BuildStep::Proceed,
            )
        },
        BuildPhase::Building { next } => if next < windows.entries.len() {
            let id = windows.entries[next as int].id;
            (
                BuildView {
                    cached: build.cached.remove(id),
                    phase: BuildPhase::AwaitInterface { id, next },
                },
                interfaces,
                BuildStep::Build { id, cache: lookup(build.cached, id) },
            )
        } else {
            (
                BuildView { cached: Map::empty(), phase: BuildPhase::Done },
                interfaces,
                BuildStep::Proceed,
            )
        },
        BuildPhase::AwaitInterface { id, next } => (
            BuildView { phase: BuildPhase::Building { next: (next + 1) as usize }, ..build },
            interfaces.insert(id, built->0),
            BuildStep::Proceed,
        ),
        BuildPhase::Done => (build, interfaces, BuildStep::Done),
    }
}

/// Whether an interface comes along exactly if the build waits for one.
pub open spec fn build_accepts<C, U>(build: BuildView<C>, built: Option<U>) -> bool {
    build.phase is AwaitInterface <==> built is Some
}

/// Whether the places of a build are within the open windows.
pub open spec fn build_fits<W, C>(build: BuildView<C>, windows: Windows<W>) -> bool {
    build.phase matches BuildPhase::AwaitInterface { id, next } ==> next < windows.entries.len()
        && windows.entries[next as int].id == id
}

/// Build the user interface for every window, from the caches of the last ones. A window that has none
/// starts from a fresh cache, and the cache of a window that is not open is dropped. Every window is
/// synchronized with the program first.
pub fn build_user_interfaces<C>(cached_user_interfaces: FxHashMap<u64, C>) -> (build: Build<C>)
    ensures
        build@ == (BuildView {
            cached: cached_user_interfaces@,
            phase: BuildPhase::Synchronizing { next: 0 },
        }),
{
    Build { cached: cached_user_interfaces, phase: BuildPhase::Synchronizing { next: 0 } }
}

impl<C> Build<C> {
    /// Returns a build that has nothing to do.
    pub fn done() -> (build: Self)
        ensures
            build@ == (BuildView::<C> { cached: Map::empty(), phase: BuildPhase::Done }),
    {
        Build { cached: fx::new(), phase: BuildPhase::Done }
    }

    /// Takes in the user interface that was built, if one was asked for, and returns the next step.
    pub fn next<W, U>(
        &mut self,
        windows: &WindowManager<W>,
        interfaces: &mut FxHashMap<u64, U>,
        built: Option<U>,
    ) -> (step: BuildStep<C>)
        requires
            build_accepts(old(self)@, built),
            build_fits(old(self)@, windows@),
        ensures
            (final(self)@, final(interfaces)@, step) == build_step(
                old(self)@,
                windows@,
                old(interfaces)@,
                built,
            ),
            build_fits(final(self)@, windows@),
    {
        let places = windows.len();
        match self.phase {
            BuildPhase::Synchronizing { next } => {
                if next < places {
                    self.phase = BuildPhase::Synchronizing { next: next + 1 };
                    BuildStep::Synchronize(windows.nth(next).id)
                } else {
                    self.phase = BuildPhase::Building { next: 0 };
                    BuildStep::Proceed
                }
            },
            BuildPhase::Building { next } => {
                if next < places {
                    let id = windows.nth(next).id;
                    let cache = fx::remove(&mut self.cached, id);
                    self.phase = BuildPhase::AwaitInterface { id, next };
                    BuildStep::Build { id, cache }
                } else {
                    self.cached = fx::new();
                    self.phase = BuildPhase::Done;
                    BuildStep::Proceed
                }
            },
            BuildPhase::AwaitInterface { id, next } => {
                if let Some(interface) = built {
                    let _ = fx::insert(interfaces, id, interface);
                }
                self.phase = BuildPhase::Building { next: next + 1 };
                BuildStep::Proceed
            },
            BuildPhase::Done => BuildStep::Done,
        }
    }
}

/// Where a build stands that began with some caches and no user interface: the windows before its
/// place have a user interface, and the windows from there on still have the cache that they had. Once
/// it is done every window has a user interface, and there is none without its window.
pub open spec fn build_progress<W, C, U>(
    start: Map<u64, C>,
    windows: Windows<W>,
    build: BuildView<C>,
    interfaces: Map<u64, U>,
) -> bool {
    &&& build.cached.submap_of(start)
    &&& match build.phase {
        BuildPhase::Synchronizing { next } => {
            &&& next <= windows.entries.len()
            &&& build.cached == start
            &&& interfaces.dom() =~= Set::empty()
        },
        BuildPhase::Building { next } => {
            &&& next <= windows.entries.len()
            &&& build.cached.dom() =~= start.dom().difference(windows.ids_before(next as int))
            &&& interfaces.dom() =~= windows.ids_before(next as int)
        },
        BuildPhase::AwaitInterface { id, next } => {
            &&& next < windows.entries.len()
            &&& windows.entries[next as int].id == id
            &&& build.cached.dom() =~= start.dom().difference(windows.ids_before(next + 1))
            &&& interfaces.dom() =~= windows.ids_before(next as int)
        },
        BuildPhase::Done => {
            &&& build.cached.dom() =~= Set::empty()
            &&& interfaces.dom() =~= windows.ids()
        },
    }
}

/// The number of steps that a build takes until it is done: one for each window to be synchronized, two
/// for each to be built, and one at the end of either round.
pub open spec fn steps_left<W, C>(build: BuildView<C>, windows: Windows<W>) -> int {
    let places = windows.entries.len();
    match build.phase {
        BuildPhase::Synchronizing { next } => places - next + 1 + 2 * places + 1,
        BuildPhase::Building { next } => 2 * (places - next) + 1,
        BuildPhase::AwaitInterface { next, .. } => 2 * (places - next),
        BuildPhase::Done => 0,
    }
}

/// Every step of a build keeps to [`build_progress`] and brings the end nearer. A user interface is
/// built from the cache that its own window had, or from a fresh one if it had none.
pub proof fn builds_from_caches<W, C, U>(
    start: Map<u64, C>,
    windows: Windows<W>,
    build: BuildView<C>,
    interfaces: Map<u64, U>,
    reply: Option<U>,
)
    requires
        windows.sorted(),
        build_progress(start, windows, build, interfaces),
        build_accepts(build, reply),
        windows.entries.len() <= usize::MAX,
    ensures
        ({
            let (after, built, step) = build_step(build, windows, interfaces, reply);
            &&& build_progress(start, windows, after, built)
            &&& build.phase != BuildPhase::Done ==> steps_left(after, windows) == steps_left(
                build,
                windows,
            ) - 1
            &&& step matches BuildStep::Build { id, cache } ==> windows.has(id) && cache == lookup(
                start,
                id,
            )
        }),
{
    match build.phase {
        BuildPhase::Synchronizing { .. } => {
            lemma_ids_parted(windows, 0);
        },
        BuildPhase::Building { next } => {
            lemma_ids_parted(windows, next as int);
        },
        BuildPhase::AwaitInterface { id, next } => {
            lemma_ids_parted(windows, next as int);
        },
        BuildPhase::Done => {},
    }
}

/// A build and the user interfaces after some replies.
pub open spec fn build_after<W, C, U>(
    start: Map<u64, C>,
    windows: Windows<W>,
    replies: Seq<Option<U>>,
) -> (BuildView<C>, Map<u64, U>)
    decreases replies.len(),
{
    if replies.len() == 0 {
        (
            BuildView { cached: start, phase: BuildPhase::Synchronizing { next: 0 } },
            Map::empty(),
        )
    } else {
        let (build, interfaces) = build_after(start, windows, replies.drop_last());
        let (after, built, _) = build_step(build, windows, interfaces, replies.last());
        (after, built)
    }
}

/// Whether a user interface came along each time that one was asked for, and no other time.
pub open spec fn build_answered<W, C, U>(
    start: Map<u64, C>,
    windows: Windows<W>,
    replies: Seq<Option<U>>,
) -> bool
    decreases replies.len(),
{
    replies.len() == 0 || {
        &&& build_answered(start, windows, replies.drop_last())
        &&& build_accepts(build_after(start, windows, replies.drop_last()).0, replies.last())
    }
}

/// Whichever caches there are, a build ends after three steps for each window and two more, and then
/// every open window has a user interface, and there is none without its window.
pub proof fn every_window_gets_an_interface<W, C, U>(
    start: Map<u64, C>,
    windows: Windows<W>,
    replies: Seq<Option<U>>,
)
    requires
        windows.sorted(),
        windows.entries.len() <= usize::MAX,
        build_answered(start, windows, replies),
    ensures
        ({
            let (build, interfaces) = build_after(start, windows, replies);
            &&& build_progress(start, windows, build, interfaces)
            &&& build.phase == BuildPhase::Done <==> replies.len() >= 3 * windows.entries.len() + 2
            &&& build.phase == BuildPhase::Done ==> interfaces.dom() =~= windows.ids()
            &&& replies.len() <= 3 * windows.entries.len() + 2 ==> steps_left(build, windows) == 3
                * windows.entries.len() + 2 - replies.len()
        }),
    decreases replies.len(),
{
    if replies.len() > 0 {
        let front = replies.drop_last();
        every_window_gets_an_interface(start, windows, front);
        let (build, interfaces) = build_after(start, windows, front);
        builds_from_caches(start, windows, build, interfaces, replies.last());
    }
}

/// What a build asks for with the last of some replies.
pub open spec fn build_asked<W, C, U>(
    start: Map<u64, C>,
    windows: Windows<W>,
    replies: Seq<Option<U>>,
) -> BuildStep<C> {
    let (build, interfaces) = build_after(start, windows, replies.drop_last());
    build_step(build, windows, interfaces, replies.last()).2
}

/// A build goes from window to window, in the order of their identifiers: first each of them is
/// synchronized, then each is built from the cache that it had, or from a fresh one if it had none. The
/// user interface that is built for a window is the one that it has from then on, and nothing else
/// changes what another window has.
pub proof fn builds_go_from_window_to_window<W, C, U>(
    start: Map<u64, C>,
    windows: Windows<W>,
    replies: Seq<Option<U>>,
)
    requires
        windows.sorted(),
        windows.entries.len() <= usize::MAX,
        build_answered(start, windows, replies),
        replies.len() > 0,
    ensures
        ({
            let n = windows.entries.len();
            let k = replies.len() - 1;
            let asked = build_asked(start, windows, replies);
            let before = build_after(start, windows, replies.drop_last()).1;
            let after = build_after(start, windows, replies).1;
            &&& k < n ==> asked == BuildStep::<C>::Synchronize(windows.entries[k].id)
            &&& forall|i: int|
                0 <= i < n && k == n + 1 + 2 * i ==> asked == (BuildStep::Build {
                    id: (#[trigger] windows.entries[i]).id,
                    cache: if start.contains_key(windows.entries[i].id) {
                        Some(start[windows.entries[i].id])
                    } else {
                        None
                    },
                }) && after == before
            &&& forall|i: int|
                0 <= i < n && k == n + 2 + 2 * i ==> after == before.insert(
                    (#[trigger] windows.entries[i]).id,
                    replies.last()->0,
                )
            &&& replies.last() is None ==> after == before
        }),
{
    let front = replies.drop_last();
    every_window_gets_an_interface(start, windows, front);
    let (build, interfaces) = build_after(start, windows, front);
    builds_from_caches(start, windows, build, interfaces, replies.last());
    lemma_build_place(start, windows, front);
}

/// The place that a build has got to.
proof fn lemma_build_place<W, C, U>(start: Map<u64, C>, windows: Windows<W>, replies: Seq<Option<U>>)
    requires
        windows.sorted(),
        windows.entries.len() <= usize::MAX,
        build_answered(start, windows, replies),
    ensures
        ({
            let n = windows.entries.len();
            let k = replies.len();
            match build_after(start, windows, replies).0.phase {
                BuildPhase::Synchronizing { next } => next == k && k <= n,
                BuildPhase::Building { next } => k == n + 1 + 2 * next && next <= n,
                BuildPhase::AwaitInterface { id, next } => k == n + 2 + 2 * next && next < n && id
                    == windows.entries[next as int].id,
                BuildPhase::Done => k >= 3 * n + 2,
            }
        }),
    decreases replies.len(),
{
    every_window_gets_an_interface(start, windows, replies);
    if replies.len() > 0 {
        lemma_build_place(start, windows, replies.drop_last());
        every_window_gets_an_interface(start, windows, replies.drop_last());
    }
}

} // verus!
