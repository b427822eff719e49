//! The windows of an application.

use crate::fx;
use rustc_hash::FxHashMap;
use vstd::prelude::*;

verus! {

/// When a user interface wants to be drawn again: `iced`'s `window::RedrawRequest`. A point in time
/// is a number of nanoseconds, as in [`crate::flow`].
#[derive(Clone, Copy, Debug, PartialEq, Eq, Structural)]
pub enum RedrawRequest {
    /// Redraw the next frame.
    NextFrame,
    /// Redraw at the given time.
    At(u64),
    /// No redraw is needed.
    Wait,
}

/// A window. What `W` holds of it is not looked at here.
pub struct Window<W> {
    /// The identifier that the application knows the window by.
    pub id: u64,
    /// The identifier that the system knows the window by.
    pub raw: u64,
    /// Whether a request to close the window closes it.
    pub exit_on_close_request: bool,
    /// The time at which the window is to be drawn again, if one is set.
    pub redraw_at: Option<u64>,
    /// The version of the surface that the window was last configured for.
    pub surface_version: u64,
    /// The window itself.
    pub inner: W,
}

/// The open windows, in the order of their identifiers.
pub struct WindowManager<W> {
    entries: Vec<Window<W>>,
    aliases: FxHashMap<u64, u64>,
}

/// The open windows in the order of their identifiers, and the identifier that each name of the
/// system stands for.
#[verifier::ext_equal]
pub ghost struct Windows<W> {
    pub entries: Seq<Window<W>>,
    pub aliases: Map<u64, u64>,
}

impl<W> Windows<W> {
    /// Identifiers occur once, in ascending order.
    pub open spec fn sorted(self) -> bool {
        forall|i: int, j: int|
            0 <= i < j < self.entries.len() ==> (#[trigger] self.entries[i]).id < (
            #[trigger] self.entries[j]).id
    }

    /// The identifiers of the open windows.
    pub open spec fn ids(self) -> Set<u64> {
        Set::new(|id: u64| self.has(id))
    }

    /// The identifiers of the windows before a place.
    pub open spec fn ids_before(self, place: int) -> Set<u64> {
        Set::new(
            |id: u64|
                exists|i: int|
                    0 <= i < place && i < self.entries.len() && (#[trigger] self.entries[i]).id == id,
        )
    }

    /// The identifiers of the windows from a place on.
    pub open spec fn ids_from(self, place: int) -> Set<u64> {
        Set::new(
            |id: u64|
                exists|i: int|
                    place <= i < self.entries.len() && 0 <= i && (#[trigger] self.entries[i]).id == id,
        )
    }

    /// Whether a window is open.
    pub open spec fn has(self, id: u64) -> bool {
        exists|i: int| 0 <= i < self.entries.len() && (#[trigger] self.entries[i]).id == id
    }

    /// The place of an open window.
    pub open spec fn place(self, id: u64) -> int {
        choose|i: int| 0 <= i < self.entries.len() && (#[trigger] self.entries[i]).id == id
    }

    /// An open window.
    pub open spec fn at(self, id: u64) -> Window<W> {
        self.entries[self.place(id)]
    }

    /// The window that a name of the system stands for, if it is open.
    pub open spec fn alias(self, raw: u64) -> Option<u64> {
        if self.aliases.contains_key(raw) && self.has(self.aliases[raw]) {
            Some(self.aliases[raw])
        } else {
            None
        }
    }

    /// The windows with one more, which takes the place of the one with its identifier.
    pub open spec fn inserted(self, window: Window<W>) -> Windows<W> {
        Windows {
            entries: self.entries.filter(|w: Window<W>| w.id < window.id).push(window)
                + self.entries.filter(|w: Window<W>| w.id > window.id),
            aliases: self.aliases.insert(window.raw, window.id),
        }
    }

    /// The windows without the one with the given identifier.
    pub open spec fn removed(self, id: u64) -> Windows<W> {
        if self.has(id) {
            Windows {
                entries: self.entries.filter(|w: Window<W>| w.id != id),
                aliases: self.aliases.remove(self.at(id).raw),
            }
        } else {
            self
        }
    }

    /// The windows with another value in place of an open one of the same identifier.
    pub open spec fn replaced(self, window: Window<W>) -> Windows<W> {
        Windows { entries: self.entries.update(self.place(window.id), window), ..self }
    }

    /// The windows after one of them is asked to redraw.
    pub open spec fn requested(self, id: u64, request: RedrawRequest) -> Windows<W> {
        match request {
            RedrawRequest::NextFrame => self.replaced(Window { redraw_at: None, ..self.at(id) }),
            RedrawRequest::At(time) => self.replaced(
                Window { redraw_at: Some(time), ..self.at(id) },
            ),
            RedrawRequest::Wait => self,
        }
    }

    /// The identifier of the window that comes first, if any is open.
    pub open spec fn first(self) -> Option<u64> {
        if self.entries.len() == 0 {
            None
        } else {
            Some(self.entries[0].id)
        }
    }

    /// The identifier of the window that comes last, if any is open.
    pub open spec fn last(self) -> Option<u64> {
        if self.entries.len() == 0 {
            None
        } else {
            Some(self.entries.last().id)
        }
    }

    /// No window is to be drawn again at a set time.
    pub open spec fn idle(self) -> bool {
        forall|i: int| 0 <= i < self.entries.len() ==> (#[trigger] self.entries[i]).redraw_at is None
    }

    /// The earliest time at which a window is to be drawn again, if any has one set.
    pub open spec fn redraw_at(self) -> Option<u64> {
        earliest(self.entries)
    }

    /// Every name of the system stands for one open window, and every open window has one.
    pub open spec fn alias_exact(self) -> bool {
        &&& forall|raw: u64|
            #[trigger] self.aliases.contains_key(raw) ==> self.has(self.aliases[raw]) && self.at(
                self.aliases[raw],
            ).raw == raw
        &&& forall|id: u64| #[trigger]
            self.has(id) ==> self.aliases.contains_key(self.at(id).raw)
                && self.aliases[self.at(id).raw] == id
    }
}

/// The earlier of two times that may not be set.
pub open spec fn earlier(a: Option<u64>, b: Option<u64>) -> Option<u64> {
    match (a, b) {
        (None, _) => b,
        (_, None) => a,
        (Some(x), Some(y)) => if x <= y {
            a
        } else {
            b
        },
    }
}

/// The earliest time that is set in any of some windows.
pub open spec fn earliest<W>(entries: Seq<Window<W>>) -> Option<u64>
    decreases entries.len(),
{
    if entries.len() == 0 {
        None
    } else {
        earlier(earliest(entries.drop_last()), entries.last().redraw_at)
    }
}

impl<W> View for WindowManager<W> {
    type V = Windows<W>;

    closed spec fn view(&self) -> Windows<W> {
        Windows { entries: self.entries@, aliases: self.aliases@ }
    }
}

impl<W> WindowManager<W> {
    /// Returns a manager of no window.
    pub fn new() -> (manager: Self)
        ensures
            manager@ == (Windows::<W> { entries: Seq::empty(), aliases: Map::empty() }),
            manager@.sorted(),
    {
        WindowManager { entries: Vec::new(), aliases: fx::new() }
    }

    /// Returns the number of open windows.
    pub fn len(&self) -> (len: usize)
        ensures
            len == self@.entries.len(),
    {
        self.entries.len()
    }

    /// Returns whether no window is open.
    pub fn is_empty(&self) -> (empty: bool)
        ensures
            empty == (self@.entries.len() == 0),
    {
        self.entries.len() == 0
    }

    /// Returns whether no window is to be drawn again at a set time.
    pub fn is_idle(&self) -> (idle: bool)
        ensures
            idle == self@.idle(),
    {
        let mut i: usize = 0;
        while i < self.entries.len()
            invariant
                i <= self.entries.len(),
                forall|j: int| 0 <= j < i ==> (#[trigger] self.entries@[j]).redraw_at is None,
            decreases self.entries.len() - i,
        {
            if self.entries[i].redraw_at.is_some() {
                assert(self@.entries[i as int].redraw_at is Some);
                return false;
            }
            i = i + 1;
        }
        true
    }

    /// Returns the earliest time at which a window is to be drawn again.
    pub fn redraw_at(&self) -> (time: Option<u64>)
        ensures
            time == self@.redraw_at(),
    {
        let mut time: Option<u64> = None;
        let mut i: usize = 0;
        while i < self.entries.len()
            invariant
                i <= self.entries.len(),
                time == earliest(self.entries@.take(i as int)),
            decreases self.entries.len() - i,
        {
            proof {
                let next = self.entries@.take(i + 1);
                assert(next.drop_last() =~= self.entries@.take(i as int));
                assert(next.last() == self.entries@[i as int]);
            }
            time = match (time, self.entries[i].redraw_at) {
                (None, other) => other,
                (some, None) => some,
                (Some(x), Some(y)) => if x <= y { Some(x) } else { Some(y) },
            };
            i = i + 1;
        }
        assert(self.entries@.take(i as int) =~= self.entries@);
        time
    }

    /// Returns the place of the first window whose identifier is not below the given one.
    fn lower_bound(&self, id: u64) -> (place: usize)
        requires
            self@.sorted(),
        ensures
            place <= self@.entries.len(),
            forall|i: int| 0 <= i < place ==> (#[trigger] self@.entries[i]).id < id,
            forall|i: int| place <= i < self@.entries.len() ==> (#[trigger] self@.entries[i]).id >= id,
    {
        let mut place: usize = 0;
        while place < self.entries.len() && self.entries[place].id < id
            invariant
                place <= self.entries.len(),
                forall|i: int| 0 <= i < place ==> (#[trigger] self.entries@[i]).id < id,
            decreases self.entries.len() - place,
        {
            place = place + 1;
        }
        proof {
            let entries = self@.entries;
            assert forall|i: int| place <= i < entries.len() implies (
            #[trigger] entries[i]).id >= id by {
                assert(entries[place as int].id >= id);
            }
        }
        place
    }

    /// Returns the window at a place.
    pub fn nth(&self, place: usize) -> (window: &Window<W>)
        requires
            place < self@.entries.len(),
        ensures
            *window == self@.entries[place as int],
    {
        &self.entries[place]
    }

    /// Returns the window that comes first, if any is open.
    pub fn first(&self) -> (window: Option<&Window<W>>)
        ensures
            window == (if self@.entries.len() == 0 { None } else { Some(&self@.entries[0]) }),
    {
        if self.entries.len() == 0 { None } else { Some(&self.entries[0]) }
    }

    /// Returns the window that comes last, if any is open.
    pub fn last(&self) -> (window: Option<&Window<W>>)
        ensures
            window == (if self@.entries.len() == 0 { None } else { Some(&self@.entries.last()) }),
    {
        let len = self.entries.len();
        if len == 0 { None } else { Some(&self.entries[len - 1]) }
    }

    /// Returns an open window.
    pub fn get(&self, id: u64) -> (window: Option<&Window<W>>)
        requires
            self@.sorted(),
        ensures
            window == (if self@.has(id) { Some(&self@.at(id)) } else { None }),
    {
        let place = self.lower_bound(id);
        if place < self.entries.len() && self.entries[place].id == id {
            proof {
                lemma_place(self@, place as int);
            }
            Some(&self.entries[place])
        } else {
            None
        }
    }

    /// Returns what an open window holds, to be changed.
    pub fn get_mut(&mut self, id: u64) -> (inner: Option<&mut W>)
        requires
            old(self)@.sorted(),
        ensures
            inner is Some <==> old(self)@.has(id),
            inner is None ==> final(self)@ == old(self)@,
            inner matches Some(inner) ==> *inner == old(self)@.at(id).inner && final(self)@
                == old(self)@.replaced(Window { inner: *final(inner), ..old(self)@.at(id) }),
    {
        let place = self.lower_bound(id);
        if place < self.entries.len() && self.entries[place].id == id {
            proof {
                lemma_place(self@, place as int);
            }
            Some(&mut self.entries[place].inner)
        } else {
            None
        }
    }

    /// Returns the identifier of the open window that a name of the system stands for.
    pub fn get_alias(&self, raw: u64) -> (id: Option<u64>)
        requires
            self@.sorted(),
        ensures
            id == self@.alias(raw),
    {
        match fx::get(&self.aliases, raw) {
            Some(id) => if self.get(id).is_some() { Some(id) } else { None },
            None => None,
        }
    }

    /// Opens a window, in place of the one with its identifier if there is one.
    pub fn insert(&mut self, window: Window<W>)
        requires
            old(self)@.sorted(),
        ensures
            final(self)@ == old(self)@.inserted(window),
            final(self)@.sorted(),
    {
        let place = self.lower_bound(window.id);
        let ghost before = self@;
        proof {
            lemma_filters(before, window.id, place as int);
            lemma_inserted(before, window);
        }
        let _ = fx::insert(&mut self.aliases, window.raw, window.id);
        if place < self.entries.len() && self.entries[place].id == window.id {
            let ghost entries = self.entries@.update(place as int, window);
            proof {
                assert(entries =~= before.inserted(window).entries);
            }
            self.entries[place] = window;
        } else {
            let ghost entries = self.entries@.insert(place as int, window);
            proof {
                assert(entries =~= before.inserted(window).entries);
            }
            self.entries.insert(place, window);
        }
    }

    /// Closes a window and returns it, if it was open.
    pub fn remove(&mut self, id: u64) -> (window: Option<Window<W>>)
        requires
            old(self)@.sorted(),
        ensures
            final(self)@ == old(self)@.removed(id),
            final(self)@.sorted(),
            window == (if old(self)@.has(id) { Some(old(self)@.at(id)) } else { None }),
    {
        let place = self.lower_bound(id);
        let ghost before = self@;
        proof {
            lemma_filters(before, id, place as int);
            lemma_removed(before, id);
        }
        if place < self.entries.len() && self.entries[place].id == id {
            proof {
                lemma_place(before, place as int);
            }
            let window = self.entries.remove(place);
            let _ = fx::remove(&mut self.aliases, window.raw);
            assert(self@.entries =~= before.removed(id).entries);
            Some(window)
        } else {
            None
        }
    }

    /// Asks an open window to redraw. Returns whether the system is to be asked for a new frame.
    pub fn request_redraw(&mut self, id: u64, request: RedrawRequest) -> (now: bool)
        requires
            old(self)@.sorted(),
            old(self)@.has(id),
        ensures
            final(self)@ == old(self)@.requested(id, request),
            final(self)@.sorted(),
            now == (request == RedrawRequest::NextFrame),
    {
        let place = self.lower_bound(id);
        proof {
            let witness = self@.place(id);
            assert(self@.entries[witness].id == id);
            if place < witness {
                assert(self@.entries[place as int].id < self@.entries[witness].id);
            }
            lemma_place(self@, place as int);
        }
        match request {
            RedrawRequest::NextFrame => {
                self.entries[place].redraw_at = None;
                true
            },
            RedrawRequest::At(time) => {
                self.entries[place].redraw_at = Some(time);
                false
            },
            RedrawRequest::Wait => false,
        }
    }

    /// Notes that the surface of an open window is configured for a version.
    pub fn configured(&mut self, id: u64, version: u64)
        requires
            old(self)@.sorted(),
            old(self)@.has(id),
        ensures
            final(self)@ == old(self)@.replaced(
                Window { surface_version: version, ..old(self)@.at(id) },
            ),
            final(self)@.sorted(),
    {
        let place = self.lower_bound(id);
        proof {
            let witness = self@.place(id);
            assert(self@.entries[witness].id == id);
            if place < witness {
                assert(self@.entries[place as int].id < self@.entries[witness].id);
            }
            lemma_place(self@, place as int);
        }
        self.entries[place].surface_version = version;
    }
}

/// A place parts the windows into those before it and those from there on.
pub proof fn lemma_ids_parted<W>(windows: Windows<W>, place: int)
    requires
        windows.sorted(),
        0 <= place,
    ensures
        place == 0 ==> windows.ids_before(place) =~= Set::empty(),
        place == 0 ==> windows.ids_from(place) =~= windows.ids(),
        place < windows.entries.len() ==> {
            let id = windows.entries[place].id;
            &&& windows.has(id)
            &&& !windows.ids_before(place).contains(id)
            &&& !windows.ids_from(place + 1).contains(id)
            &&& windows.ids_before(place + 1) =~= windows.ids_before(place).insert(id)
            &&& windows.ids_from(place) =~= windows.ids_from(place + 1).insert(id)
        },
        place >= windows.entries.len() ==> windows.ids_before(place) =~= windows.ids(),
        place >= windows.entries.len() ==> windows.ids_from(place) =~= Set::empty(),
{
    if place < windows.entries.len() {
        let id = windows.entries[place].id;
        assert forall|i: int|
            0 <= i < windows.entries.len() && i != place implies (#[trigger] windows.entries[i]).id
            != id by {
            if i < place {
                assert(windows.entries[i].id < windows.entries[place].id);
            } else {
                assert(windows.entries[place].id < windows.entries[i].id);
            }
        }
        assert forall|other: u64|
            windows.ids_before(place).contains(other) implies windows.ids_before(
            place + 1,
        ).contains(other) by {
            let i = choose|i: int|
                0 <= i < place && i < windows.entries.len() && (#[trigger] windows.entries[i]).id
                    == other;
            assert(0 <= i < place + 1 && windows.entries[i].id == other);
        }
        assert forall|other: u64|
            windows.ids_from(place + 1).contains(other) implies windows.ids_from(place).contains(
            other,
        ) by {
            let i = choose|i: int|
                place + 1 <= i < windows.entries.len() && 0 <= i && (#[trigger] windows.entries[i]).id
                    == other;
            assert(place <= i && windows.entries[i].id == other);
        }
    }
}

/// In sorted windows an identifier has one place.
pub(crate) proof fn lemma_place<W>(windows: Windows<W>, place: int)
    requires
        windows.sorted(),
        0 <= place < windows.entries.len(),
    ensures
        windows.has(windows.entries[place].id),
        windows.place(windows.entries[place].id) == place,
{
    let id = windows.entries[place].id;
    let other = windows.place(id);
    assert(windows.entries[other].id == id);
    if other < place {
        assert(windows.entries[other].id < windows.entries[place].id);
    } else if place < other {
        assert(windows.entries[place].id < windows.entries[other].id);
    }
}

/// Around an identifier, sorted windows fall into those below, the one that has it and those above.
proof fn lemma_filters<W>(windows: Windows<W>, id: u64, place: int)
    requires
        windows.sorted(),
        0 <= place <= windows.entries.len(),
        forall|i: int| 0 <= i < place ==> (#[trigger] windows.entries[i]).id < id,
        forall|i: int| place <= i < windows.entries.len() ==> (#[trigger] windows.entries[i]).id >= id,
    ensures
        ({
            let above = if place < windows.entries.len() && windows.entries[place].id == id {
                place + 1
            } else {
                place
            };
            &&& windows.entries.filter(|w: Window<W>| w.id < id) == windows.entries.take(place)
            &&& windows.entries.filter(|w: Window<W>| w.id > id) == windows.entries.skip(above)
            &&& windows.entries.filter(|w: Window<W>| w.id != id) == windows.entries.take(place)
                + windows.entries.skip(above)
            &&& windows.has(id) <==> above == place + 1
        }),
{
    let entries = windows.entries;
    let above = if place < entries.len() && entries[place].id == id {
        place + 1
    } else {
        place
    };
    if windows.has(id) {
        let i = windows.place(id);
        assert(entries[i].id == id);
        if place < i {
            assert(entries[place].id < entries[i].id);
        }
    }
    let low = entries.take(place);
    let mid = entries.subrange(place, above);
    let high = entries.skip(above);
    assert(entries =~= low + mid + high);
    assert forall|i: int| 0 <= i < high.len() implies (#[trigger] high[i]).id > id by {
        assert(high[i] == entries[above + i]);
        if entries[above + i].id == id {
            if above == place {
                assert(entries[place].id <= entries[above + i].id);
            } else {
                assert(entries[place].id < entries[above + i].id);
            }
        }
    }
    lemma_filters_of_parts(low, mid, high, id);
}

proof fn lemma_filters_of_parts<W>(
    low: Seq<Window<W>>,
    mid: Seq<Window<W>>,
    high: Seq<Window<W>>,
    id: u64,
)
    requires
        forall|i: int| 0 <= i < low.len() ==> (#[trigger] low[i]).id < id,
        forall|i: int| 0 <= i < mid.len() ==> (#[trigger] mid[i]).id == id,
        forall|i: int| 0 <= i < high.len() ==> (#[trigger] high[i]).id > id,
    ensures
        (low + mid + high).filter(|w: Window<W>| w.id < id) == low,
        (low + mid + high).filter(|w: Window<W>| w.id > id) == high,
        (low + mid + high).filter(|w: Window<W>| w.id != id) == low + high,
{
    let entries = low + mid + high;
    let none = Seq::<Window<W>>::empty();
    let below = |w: Window<W>| w.id < id;
    let over = |w: Window<W>| w.id > id;
    let other = |w: Window<W>| w.id != id;
    assert(entries.filter(below) == low) by {
        lemma_filter_parts(low, mid, high, below);
        lemma_filter_all(low, below);
        lemma_filter_none(mid, below);
        lemma_filter_none(high, below);
        assert(low + none + none =~= low);
    }
    assert(entries.filter(over) == high) by {
        lemma_filter_parts(low, mid, high, over);
        lemma_filter_none(low, over);
        lemma_filter_none(mid, over);
        lemma_filter_all(high, over);
        assert(none + none + high =~= high);
    }
    assert(entries.filter(other) == low + high) by {
        lemma_filter_parts(low, mid, high, other);
        lemma_filter_all(low, other);
        lemma_filter_none(mid, other);
        lemma_filter_all(high, other);
        assert(low + none + high =~= low + high);
    }
}

/// Filtering goes part by part, for three parts.
proof fn lemma_filter_parts<A>(a: Seq<A>, b: Seq<A>, c: Seq<A>, keep: spec_fn(A) -> bool)
    ensures
        (a + b + c).filter(keep) == a.filter(keep) + b.filter(keep) + c.filter(keep),
{
    lemma_filter_split(a + b, c, keep);
    lemma_filter_split(a, b, keep);
}

/// Filtering goes part by part.
pub(crate) proof fn lemma_filter_split<A>(a: Seq<A>, b: Seq<A>, keep: spec_fn(A) -> bool)
    ensures
        (a + b).filter(keep) == a.filter(keep) + b.filter(keep),
    decreases b.len(),
{
    reveal(Seq::filter);
    if b.len() == 0 {
        assert(a + b =~= a);
        assert(a.filter(keep) + b.filter(keep) =~= a.filter(keep));
    } else {
        lemma_filter_split(a, b.drop_last(), keep);
        assert((a + b).drop_last() =~= a + b.drop_last());
        assert((a + b).last() == b.last());
        assert(a.filter(keep) + b.filter(keep) =~= if keep(b.last()) {
            (a.filter(keep) + b.drop_last().filter(keep)).push(b.last())
        } else {
            a.filter(keep) + b.drop_last().filter(keep)
        });
    }
}

/// A filter that keeps every item changes nothing.
pub(crate) proof fn lemma_filter_all<A>(items: Seq<A>, keep: spec_fn(A) -> bool)
    requires
        forall|i: int| 0 <= i < items.len() ==> keep(#[trigger] items[i]),
    ensures
        items.filter(keep) == items,
    decreases items.len(),
{
    reveal(Seq::filter);
    if items.len() > 0 {
        assert forall|i: int| 0 <= i < items.drop_last().len() implies keep(
            #[trigger] items.drop_last()[i],
        ) by {
            assert(items.drop_last()[i] == items[i]);
        }
        lemma_filter_all(items.drop_last(), keep);
        assert(items.drop_last().push(items.last()) =~= items);
    } else {
        assert(items.filter(keep) =~= items);
    }
}

/// A filter that keeps no item leaves nothing.
pub(crate) proof fn lemma_filter_none<A>(items: Seq<A>, keep: spec_fn(A) -> bool)
    requires
        forall|i: int| 0 <= i < items.len() ==> !keep(#[trigger] items[i]),
    ensures
        items.filter(keep) == Seq::<A>::empty(),
    decreases items.len(),
{
    reveal(Seq::filter);
    if items.len() > 0 {
        assert forall|i: int| 0 <= i < items.drop_last().len() implies !keep(
            #[trigger] items.drop_last()[i],
        ) by {
            assert(items.drop_last()[i] == items[i]);
        }
        lemma_filter_none(items.drop_last(), keep);
    }
}

/// Where the windows are when one is opened: those before its place stay, and those after it move, from
/// where they were to right behind it.
proof fn lemma_insertion<W>(windows: Windows<W>, window: Window<W>) -> (places: (int, int))
    requires
        windows.sorted(),
    ensures
        ({
            let (place, above) = places;
            let before = windows.entries;
            let after = windows.inserted(window).entries;
            &&& 0 <= place <= above <= before.len()
            &&& above == place || above == place + 1 && before[place].id == window.id
            &&& after.len() == place + 1 + before.len() - above
            &&& after[place] == window
            &&& forall|i: int|
                0 <= i < place ==> #[trigger] after[i] == before[i] && before[i].id < window.id
            &&& forall|i: int|
                place < i < after.len() ==> #[trigger] after[i] == before[above + (i - place - 1)]
            &&& forall|i: int| above <= i < before.len() ==> (#[trigger] before[i]).id > window.id
        }),
{
    let place = lemma_lower_bound(windows, window.id);
    lemma_filters(windows, window.id, place);
    let above = if windows.has(window.id) {
        place + 1
    } else {
        place
    };
    let after = windows.inserted(window).entries;
    assert(after =~= windows.entries.take(place).push(window) + windows.entries.skip(above));
    (place, above)
}

/// Opening a window keeps the order. The window is open then, and so are the others as before.
pub proof fn lemma_inserted<W>(windows: Windows<W>, window: Window<W>)
    requires
        windows.sorted(),
    ensures
        windows.inserted(window).sorted(),
        windows.inserted(window).ids() == windows.ids().insert(window.id),
        windows.inserted(window).at(window.id) == window,
        forall|id: u64|
            #![trigger windows.inserted(window).at(id)]
            id != window.id && windows.has(id) ==> windows.inserted(window).at(id) == windows.at(id),
{
    let (place, above) = lemma_insertion(windows, window);
    let after = windows.inserted(window);
    assert(after.sorted()) by {
        assert forall|i: int, j: int| 0 <= i < j < after.entries.len() implies (
        #[trigger] after.entries[i]).id < (#[trigger] after.entries[j]).id by {
            if place < i {
                assert(after.entries[i] == windows.entries[above + (i - place - 1)]);
            }
            if place < j {
                assert(after.entries[j] == windows.entries[above + (j - place - 1)]);
            }
        }
    }
    lemma_place(after, place);
    assert forall|id: u64| id != window.id && windows.has(id) implies after.has(id)
        && #[trigger] after.at(id) == windows.at(id) by {
        let i = windows.place(id);
        assert(windows.entries[i].id == id);
        let k = if i < place {
            i
        } else {
            i - above + place + 1
        };
        assert(after.entries[k] == windows.entries[i]);
        lemma_place(after, k);
    }
    assert forall|id: u64| #[trigger] after.has(id) implies id == window.id || windows.has(id) by {
        let k = after.place(id);
        assert(after.entries[k].id == id);
        if k < place {
            assert(windows.entries[k].id == id);
        } else if k > place {
            assert(windows.entries[above + (k - place - 1)].id == id);
        }
    }
    assert forall|id: u64| after.ids().contains(id) <==> windows.ids().insert(window.id).contains(
        id,
    ) by {
        if id != window.id && windows.has(id) {
            assert(after.at(id) == windows.at(id));
        }
    }
    assert(after.ids() =~= windows.ids().insert(window.id));
}

/// Closing a window keeps the order. The window is not open then, and the others are as before.
pub proof fn lemma_removed<W>(windows: Windows<W>, id: u64)
    requires
        windows.sorted(),
    ensures
        windows.removed(id).sorted(),
        windows.removed(id).ids() == windows.ids().remove(id),
        forall|other: u64|
            #![trigger windows.removed(id).at(other)]
            other != id && windows.has(other) ==> windows.removed(id).at(other) == windows.at(other),
        windows.removed(id).entries.len() == windows.entries.len() - (if windows.has(id) {
            1int
        } else {
            0
        }),
{
    if windows.has(id) {
        let place = lemma_lower_bound(windows, id);
        lemma_filters(windows, id, place);
        let after = windows.removed(id);
        let low = windows.entries.take(place);
        let high = windows.entries.skip(place + 1);
        assert(after.entries =~= low + high);
        assert forall|i: int, j: int| 0 <= i < j < after.entries.len() implies (
        #[trigger] after.entries[i]).id < (#[trigger] after.entries[j]).id by {
            if place <= i {
                assert(after.entries[i] == windows.entries[i + 1]);
            }
            if place <= j {
                assert(after.entries[j] == windows.entries[j + 1]);
            }
        }
        assert forall|other: u64| other != id && windows.has(other) implies after.has(other)
            && #[trigger] after.at(other) == windows.at(other) by {
            let i = windows.place(other);
            assert(windows.entries[i].id == other);
            let k = if i < place {
                i
            } else {
                i - 1
            };
            assert(after.entries[k] == windows.entries[i]);
            lemma_place(after, k);
        }
        assert forall|other: u64| after.has(other) implies other != id && windows.has(other) by {
            let k = after.place(other);
            assert(after.entries[k].id == other);
            if k < place {
                assert(windows.entries[k].id == other);
            } else {
                assert(windows.entries[k + 1].id == other);
                assert(windows.entries[place].id < windows.entries[k + 1].id);
            }
        }
        assert(after.ids() =~= windows.ids().remove(id)) by {
            assert forall|other: u64| after.ids().contains(other) <==> windows.ids().remove(
                id,
            ).contains(other) by {
                if other != id && windows.has(other) {
                    assert(after.at(other) == windows.at(other));
                }
            }
        }
    } else {
        assert(windows.ids().remove(id) =~= windows.ids());
    }
}

/// Every identifier has a lower bound in sorted windows.
proof fn lemma_lower_bound<W>(windows: Windows<W>, id: u64) -> (place: int)
    requires
        windows.sorted(),
    ensures
        0 <= place <= windows.entries.len(),
        forall|i: int| 0 <= i < place ==> (#[trigger] windows.entries[i]).id < id,
        forall|i: int| place <= i < windows.entries.len() ==> (#[trigger] windows.entries[i]).id >= id,
{
    lemma_lower_bound_from(windows, id, 0)
}

proof fn lemma_lower_bound_from<W>(windows: Windows<W>, id: u64, from: int) -> (place: int)
    requires
        windows.sorted(),
        0 <= from <= windows.entries.len(),
        forall|i: int| 0 <= i < from ==> (#[trigger] windows.entries[i]).id < id,
    ensures
        0 <= place <= windows.entries.len(),
        forall|i: int| 0 <= i < place ==> (#[trigger] windows.entries[i]).id < id,
        forall|i: int| place <= i < windows.entries.len() ==> (#[trigger] windows.entries[i]).id >= id,
    decreases windows.entries.len() - from,
{
    if from < windows.entries.len() && windows.entries[from].id < id {
        lemma_lower_bound_from(windows, id, from + 1)
    } else {
        assert forall|i: int| from <= i < windows.entries.len() implies (
        #[trigger] windows.entries[i]).id >= id by {
            assert(windows.entries[from].id >= id);
        }
        from
    }
}

/// Changing what an open window holds, and neither its identifier nor its place, keeps the order
/// and which windows are open.
pub proof fn lemma_replaced<W>(windows: Windows<W>, window: Window<W>)
    requires
        windows.sorted(),
        windows.has(window.id),
    ensures
        windows.replaced(window).sorted(),
        windows.replaced(window).ids() == windows.ids(),
        windows.replaced(window).entries.len() == windows.entries.len(),
        forall|i: int|
            0 <= i < windows.entries.len() ==> (#[trigger] windows.replaced(window).entries[i]).id
                == windows.entries[i].id,
{
    let after = windows.replaced(window);
    let place = windows.place(window.id);
    assert(windows.entries[place].id == window.id);
    assert(after.entries[place].id == window.id);
    assert forall|id: u64| after.has(id) == windows.has(id) by {
        if after.has(id) {
            let k = after.place(id);
            assert(after.entries[k].id == id);
            assert(windows.entries[k].id == id);
        }
        if windows.has(id) {
            let k = windows.place(id);
            assert(windows.entries[k].id == id);
            assert(after.entries[k].id == id);
        }
    }
    assert(after.ids() =~= windows.ids());
}

/// Asking an open window to redraw keeps the order and which windows are open.
pub proof fn lemma_requested<W>(windows: Windows<W>, id: u64, request: RedrawRequest)
    requires
        windows.sorted(),
        windows.has(id),
    ensures
        windows.requested(id, request).sorted(),
        windows.requested(id, request).ids() == windows.ids(),
        windows.requested(id, request).entries.len() == windows.entries.len(),
        forall|i: int|
            0 <= i < windows.entries.len() ==> (#[trigger] windows.requested(id, request).entries[i]).id
                == windows.entries[i].id,
{
    assert(windows.entries[windows.place(id)].id == id);
    lemma_replaced(windows, Window { redraw_at: None, ..windows.at(id) });
    match request {
        RedrawRequest::At(time) => {
            lemma_replaced(windows, Window { redraw_at: Some(time), ..windows.at(id) });
        },
        _ => {},
    }
}

/// The time that the event loop waits for is the earliest one that any window has set: there is one
/// exactly if the windows are not idle, some window has it, and no window has an earlier one.
pub proof fn redraw_at_is_earliest<W>(windows: Windows<W>)
    ensures
        windows.redraw_at() is None <==> windows.idle(),
        windows.redraw_at() is Some ==> exists|i: int|
            0 <= i < windows.entries.len() && (#[trigger] windows.entries[i]).redraw_at
                == windows.redraw_at(),
        forall|i: int, time: u64|
            0 <= i < windows.entries.len() && (#[trigger] windows.entries[i]).redraw_at == Some(time)
                ==> #[trigger] not_after(windows.redraw_at(), time),
{
    lemma_earliest(windows.entries);
    assert(windows.redraw_at() is None ==> windows.idle());
    if windows.redraw_at() is Some {
        let i = choose|i: int|
            0 <= i < windows.entries.len() && (#[trigger] windows.entries[i]).redraw_at
                == windows.redraw_at();
        assert(windows.entries[i].redraw_at is Some);
    }
}

/// A time that is set, and not after another one.
pub open spec fn not_after(time: Option<u64>, bound: u64) -> bool {
    time matches Some(time) && time <= bound
}

proof fn lemma_earliest<W>(entries: Seq<Window<W>>)
    ensures
        earliest(entries) is Some ==> exists|i: int|
            0 <= i < entries.len() && (#[trigger] entries[i]).redraw_at == earliest(entries),
        forall|i: int, time: u64|
            0 <= i < entries.len() && (#[trigger] entries[i]).redraw_at == Some(time)
                ==> #[trigger] not_after(earliest(entries), time),
        earliest(entries) is None ==> forall|i: int|
            0 <= i < entries.len() ==> (#[trigger] entries[i]).redraw_at is None,
    decreases entries.len(),
{
    if entries.len() > 0 {
        let front = entries.drop_last();
        lemma_earliest(front);
        let last = entries.len() - 1;
        assert forall|i: int| 0 <= i < last implies front[i] == #[trigger] entries[i] by {}
        if earliest(entries) is Some && earliest(entries) != entries[last].redraw_at {
            let i = choose|i: int|
                0 <= i < front.len() && (#[trigger] front[i]).redraw_at == earliest(front);
            assert(entries[i].redraw_at == earliest(entries));
        }
        assert forall|i: int, time: u64|
            0 <= i < entries.len() && (#[trigger] entries[i]).redraw_at == Some(
                time,
            ) implies #[trigger] not_after(earliest(entries), time) by {
            if i < last {
                assert(front[i].redraw_at == Some(time));
                assert(not_after(earliest(front), time));
            }
        }
    }
}

/// As long as the system and the application use identifiers that no open window has, the names of
/// the system stand for the open windows one for one: opening a window keeps that.
pub proof fn opening_keeps_aliases_exact<W>(windows: Windows<W>, window: Window<W>)
    requires
        windows.sorted(),
        windows.alias_exact(),
        !windows.has(window.id),
        !windows.aliases.contains_key(window.raw),
    ensures
        windows.inserted(window).alias_exact(),
{
    lemma_inserted(windows, window);
    let after = windows.inserted(window);
    assert forall|id: u64| #[trigger] after.has(id) == (id == window.id || windows.has(id)) by {
        assert(after.ids().contains(id) == windows.ids().insert(window.id).contains(id));
    }
    assert forall|raw: u64| #[trigger] after.aliases.contains_key(raw) implies after.has(
        after.aliases[raw],
    ) && after.at(after.aliases[raw]).raw == raw by {
        if raw != window.raw {
            assert(windows.aliases.contains_key(raw));
            let id = windows.aliases[raw];
            assert(after.at(id) == windows.at(id));
        }
    }
    assert forall|id: u64| #[trigger] after.has(id) implies after.aliases.contains_key(
        after.at(id).raw,
    ) && after.aliases[after.at(id).raw] == id by {
        if id != window.id {
            assert(windows.has(id));
            assert(after.at(id) == windows.at(id));
        }
    }
}

/// Closing a window takes its name away with it and leaves the names of the others.
pub proof fn closing_keeps_aliases_exact<W>(windows: Windows<W>, id: u64)
    requires
        windows.sorted(),
        windows.alias_exact(),
    ensures
        windows.removed(id).alias_exact(),
        windows.has(id) ==> windows.removed(id).alias(windows.at(id).raw) is None,
{
    lemma_removed(windows, id);
    let after = windows.removed(id);
    if windows.has(id) {
        assert forall|other: u64| #[trigger] after.has(other) == (other != id && windows.has(other)) by {
            assert(after.ids().contains(other) == windows.ids().remove(id).contains(other));
        }
        assert forall|raw: u64| #[trigger] after.aliases.contains_key(raw) implies after.has(
            after.aliases[raw],
        ) && after.at(after.aliases[raw]).raw == raw by {
            assert(windows.aliases.contains_key(raw));
            let other = windows.aliases[raw];
            assert(windows.at(other).raw == raw);
            assert(after.at(other) == windows.at(other));
        }
        assert forall|other: u64| #[trigger] after.has(other) implies after.aliases.contains_key(
            after.at(other).raw,
        ) && after.aliases[after.at(other).raw] == other by {
            assert(windows.has(other));
            assert(after.at(other) == windows.at(other));
            assert(windows.aliases[windows.at(id).raw] == id);
        }
    }
}

/// What an open window is like after another one of its identifier has taken its place, and what the
/// others are like: they are what they were.
pub proof fn replacing_touches_one_window<W>(windows: Windows<W>, window: Window<W>)
    requires
        windows.sorted(),
        windows.has(window.id),
    ensures
        windows.replaced(window).at(window.id) == window,
        windows.replaced(window).aliases == windows.aliases,
        forall|id: u64|
            #![trigger windows.replaced(window).at(id)]
            id != window.id && windows.has(id) ==> windows.replaced(window).at(id) == windows.at(id),
{
    let after = windows.replaced(window);
    let place = windows.place(window.id);
    lemma_replaced(windows, window);
    assert(windows.entries[place].id == window.id);
    lemma_place(after, place);
    assert forall|id: u64|
        #![trigger after.at(id)]
        id != window.id && windows.has(id) implies after.at(id) == windows.at(id) by {
        let other = windows.place(id);
        assert(windows.entries[other].id == id);
        lemma_place(after, other);
        lemma_place(windows, other);
    }
}

/// A window that wants to be drawn at a time is to be drawn then, one that is drawn with the next frame
/// has no time set any more, and one that wants nothing keeps the time that it had. Nothing else about
/// it changes, and nothing about the other windows.
pub proof fn redraws_are_due_when_asked_for<W>(windows: Windows<W>, id: u64, request: RedrawRequest)
    requires
        windows.sorted(),
        windows.has(id),
    ensures
        ({
            let after = windows.requested(id, request);
            let time = match request {
                RedrawRequest::At(time) => Some(time),
                RedrawRequest::NextFrame => None,
                RedrawRequest::Wait => windows.at(id).redraw_at,
            };
            &&& after.at(id) == (Window { redraw_at: time, ..windows.at(id) })
            &&& after.aliases == windows.aliases
            &&& forall|other: u64|
                #![trigger after.at(other)]
                other != id && windows.has(other) ==> after.at(other) == windows.at(other)
        }),
{
    assert(windows.entries[windows.place(id)].id == id);
    replacing_touches_one_window(windows, Window { redraw_at: None, ..windows.at(id) });
    if let RedrawRequest::At(time) = request {
        replacing_touches_one_window(windows, Window { redraw_at: Some(time), ..windows.at(id) });
    }
}

/// The window that comes first has the smallest identifier of all open windows, and the one that comes
/// last the largest. There is neither exactly if no window is open.
pub proof fn first_and_last_are_the_ends<W>(windows: Windows<W>)
    requires
        windows.sorted(),
    ensures
        windows.first() is None <==> windows.entries.len() == 0,
        windows.last() is None <==> windows.entries.len() == 0,
        windows.first() matches Some(first) ==> windows.has(first) && forall|id: u64| #[trigger]
            windows.has(id) ==> first <= id,
        windows.last() matches Some(last) ==> windows.has(last) && forall|id: u64| #[trigger]
            windows.has(id) ==> id <= last,
{
    if windows.entries.len() > 0 {
        let end = windows.entries.len() - 1;
        assert(windows.has(windows.entries[0].id));
        assert(windows.has(windows.entries[end].id));
        assert forall|id: u64| #[trigger] windows.has(id) implies windows.entries[0].id <= id
            <= windows.entries[end].id by {
            let place = windows.place(id);
            assert(windows.entries[place].id == id);
        }
    }
}

/// A window that is opened goes by the name that the system has for it, and the names of the others are
/// what they were unless the system gave one of them away. A window that is closed has no name any
/// more.
pub proof fn names_come_and_go_with_windows<W>(windows: Windows<W>, window: Window<W>, id: u64, raw: u64)
    requires
        windows.sorted(),
    ensures
        windows.inserted(window).alias(window.raw) == Some(window.id),
        raw != window.raw && windows.alias(raw) is Some ==> windows.inserted(window).alias(raw)
            == windows.alias(raw),
        windows.has(id) ==> windows.removed(id).alias(windows.at(id).raw) is None,
        windows.removed(id).alias(raw) is Some ==> windows.removed(id).alias(raw) == windows.alias(raw)
            && windows.alias(raw) != Some(id),
        windows.alias(raw) is Some && windows.alias(raw) != Some(id) && !(windows.has(id) && raw
            == windows.at(id).raw) ==> windows.removed(id).alias(raw) == windows.alias(raw),
{
    lemma_inserted(windows, window);
    lemma_removed(windows, id);
    let more = windows.inserted(window);
    let less = windows.removed(id);
    assert forall|other: u64| #[trigger] more.has(other) == (other == window.id || windows.has(other)) by {
        assert(more.ids().contains(other) == windows.ids().insert(window.id).contains(other));
    }
    assert forall|other: u64| #[trigger] less.has(other) == (other != id && windows.has(other)) by {
        assert(less.ids().contains(other) == windows.ids().remove(id).contains(other));
    }
    if windows.alias(raw) is Some {
        assert(more.has(windows.aliases[raw]));
        assert(less.has(windows.aliases[raw]) == (windows.aliases[raw] != id));
    }
    if less.alias(raw) is Some {
        assert(less.has(less.aliases[raw]));
    }
}

/// The earliest time at which a window is to be drawn again is one that a window has set, and no window
/// has set an earlier one. There is none exactly if no window has set one.
pub proof fn earliest_time_is_that_of_a_window<W>(windows: Windows<W>, time: u64)
    ensures
        windows.redraw_at() == Some(time) <==> (exists|i: int|
            0 <= i < windows.entries.len() && (#[trigger] windows.entries[i]).redraw_at == Some(time))
            && (forall|i: int, other: u64|
            0 <= i < windows.entries.len() && #[trigger] is_set_to(windows.entries[i], other) ==> time
                <= other),
        windows.redraw_at() is None <==> forall|i: int|
            0 <= i < windows.entries.len() ==> (#[trigger] windows.entries[i]).redraw_at is None,
{
    redraw_at_is_earliest(windows);
    if windows.redraw_at() == Some(time) {
        assert forall|i: int, other: u64|
            0 <= i < windows.entries.len() && #[trigger] is_set_to(windows.entries[i], other) implies time
            <= other by {
            assert(windows.entries[i].redraw_at == Some(other));
            assert(not_after(windows.redraw_at(), other));
        }
    }
    if (exists|i: int|
        0 <= i < windows.entries.len() && (#[trigger] windows.entries[i]).redraw_at == Some(time)) && (
    forall|i: int, other: u64|
        0 <= i < windows.entries.len() && #[trigger] is_set_to(windows.entries[i], other) ==> time
            <= other) {
        let i = choose|i: int|
            0 <= i < windows.entries.len() && (#[trigger] windows.entries[i]).redraw_at == Some(time);
        assert(not_after(windows.redraw_at(), time));
        let k = choose|k: int|
            0 <= k < windows.entries.len() && (#[trigger] windows.entries[k]).redraw_at
                == windows.redraw_at();
        assert(is_set_to(windows.entries[k], windows.redraw_at()->0));
    }
}

/// Whether a window is to be drawn again at a time.
pub open spec fn is_set_to<W>(window: Window<W>, time: u64) -> bool {
    window.redraw_at == Some(time)
}

} // verus!
