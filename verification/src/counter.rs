//! A counter with a modal and a choice of themes.

use crate::widgets::modal::{modal, Advance, Modal, ModalViewStatus, Starts};
use vstd::prelude::*;

verus! {

/// The themes that a counter can have.
#[derive(Clone, Copy, Debug, PartialEq, Eq, Structural)]
pub enum Theme {
    Nord,
    Light,
    Dark,
    GruvboxLight,
    GruvboxDark,
}

/// The theme that follows another one. The default theme is left for good.
pub open spec fn next_theme(theme: Theme) -> Theme {
    match theme {
        Theme::Light => Theme::Dark,
        Theme::Dark => Theme::GruvboxLight,
        Theme::GruvboxLight => Theme::GruvboxDark,
        Theme::Nord | Theme::GruvboxDark => Theme::Light,
    }
}

/// The milliseconds between two ticks of a running animation.
pub const TICK_MILLISECONDS: u64 = 8;

/// What can happen to a counter. The type `T` is that of a moment in time.
#[derive(Clone, Copy, Debug, PartialEq, Eq)]
pub enum Message<T> {
    Nothing,
    Increment,
    Decrement,
    ToggleModal,
    ToggleTheme,
    /// It is time for a running animation to go on.
    AnimationTick(T),
}

/// What a tick of a running animation at a moment in time means to a counter.
pub fn tick<T>(time: T) -> (message: Message<T>)
    ensures
        message == Message::AnimationTick(time),
{
    Message::AnimationTick(time)
}

/// The measures that a message comes with. The type `P` measures the progress of an animation.
#[derive(Clone, Copy, Debug, PartialEq)]
pub struct Measures<P> {
    /// What a toggled modal starts from.
    pub starts: Starts<P>,
    /// How far a running animation has come since it last went on.
    pub advance: Advance<P>,
}

/// A counter.
#[derive(Clone, Debug, PartialEq)]
pub struct Counter<P> {
    value: i64,
    modal: ModalViewStatus<P>,
    theme: Theme,
}

/// What a counter holds.
pub ghost struct CounterView<P> {
    pub value: int,
    pub modal: ModalViewStatus<P>,
    pub theme: Theme,
}

impl<P> Counter<P> {
    /// What the counter holds.
    pub closed spec fn held(&self) -> CounterView<P> {
        CounterView { value: self.value as int, modal: self.modal, theme: self.theme }
    }
}

/// The milliseconds between the animation ticks that a counter subscribes to, if it does.
pub open spec fn subscribed<P>(counter: CounterView<P>) -> Option<u64> {
    if counter.modal.animates() {
        Some(TICK_MILLISECONDS)
    } else {
        None
    }
}

/// What a counter holds after a message.
pub open spec fn updated<P, T>(
    counter: CounterView<P>,
    message: Message<T>,
    measures: Measures<P>,
) -> CounterView<P> {
    match message {
        Message::Nothing => counter,
        Message::Increment => CounterView { value: counter.value + 1, ..counter },
        Message::Decrement => CounterView { value: counter.value - 1, ..counter },
        Message::ToggleModal => CounterView {
            modal: counter.modal.toggled(measures.starts),
            ..counter
        },
        Message::ToggleTheme => CounterView { theme: next_theme(counter.theme), ..counter },
        Message::AnimationTick(_) => CounterView {
            modal: counter.modal.advanced(measures.advance),
            ..counter
        },
    }
}

/// One thing in a column of things.
pub enum Item<T> {
    /// A button, and what pressing it leads to, if anything.
    Button { label: &'static str, on_press: Option<Message<T>> },
    Text(&'static str),
    /// The value of the counter.
    Value(i64),
}

/// One thing in a column of things.
pub ghost enum ItemView<T> {
    Button { label: Seq<char>, on_press: Option<Message<T>> },
    Text(Seq<char>),
    Value(int),
}

impl<T> View for Item<T> {
    type V = ItemView<T>;

    open spec fn view(&self) -> ItemView<T> {
        match self {
            Item::Button { label, on_press } => ItemView::Button {
                label: label@,
                on_press: *on_press,
            },
            Item::Text(text) => ItemView::Text(text@),
            Item::Value(value) => ItemView::Value(*value as int),
        }
    }
}

/// A column of things.
pub open spec fn column<T>(items: Seq<Item<T>>) -> Seq<ItemView<T>> {
    items.map_values(|item: Item<T>| item@)
}

/// What a counter looks like: a column of things, and a modal in front of it while there is one.
pub struct Screen<P, T> {
    pub content: Vec<Item<T>>,
    pub modal: Option<Modal<P, Vec<Item<T>>, T>>,
}

/// A button with something that pressing it leads to.
pub open spec fn button<T>(label: &str, message: Message<T>) -> ItemView<T> {
    ItemView::Button { label: label@, on_press: Some(message) }
}

/// The things that a counter always shows.
pub open spec fn content_of<T>(value: int) -> Seq<ItemView<T>> {
    seq![
        button("+", Message::Increment),
        ItemView::Value(value),
        button("-", Message::Decrement),
        button("Toggle Modal", Message::ToggleModal),
        button("Toggle Theme", Message::ToggleTheme),
    ]
}

/// The things in the modal of a counter.
pub open spec fn modal_content<T>() -> Seq<ItemView<T>> {
    seq![
        ItemView::Text("Modal Content"@),
        ItemView::Button { label: "test"@, on_press: None },
        ItemView::Text("Modal text"@),
    ]
}

impl<P> Default for Counter<P> {
    /// A counter starts at zero, with its modal hidden and the theme Nord.
    fn default() -> (counter: Self)
        ensures
            counter.held() == (CounterView::<P> {
                value: 0,
                modal: ModalViewStatus::Hidden,
                theme: Theme::Nord,
            }),
    {
        Counter { value: 0, modal: ModalViewStatus::default(), theme: Theme::Nord }
    }
}

impl<P: Copy> Counter<P> {
    /// Applies a message. The value may not leave the range of an `i64`.
    pub fn update<T>(&mut self, message: Message<T>, measures: Measures<P>)
        requires
            i64::MIN <= updated(old(self).held(), message, measures).value <= i64::MAX,
        ensures
            final(self).held() == updated(old(self).held(), message, measures),
    {
        match message {
            Message::Nothing => {},
            Message::Increment => {
                self.value = self.value + 1;
            },
            Message::Decrement => {
                self.value = self.value - 1;
            },
            Message::ToggleModal => {
                self.modal.toggle(measures.starts);
            },
            Message::ToggleTheme => {
                self.theme = match self.theme {
                    Theme::Light => Theme::Dark,
                    Theme::Dark => Theme::GruvboxLight,
                    Theme::GruvboxLight => Theme::GruvboxDark,
                    _ => Theme::Light,
                };
            },
            Message::AnimationTick(_) => {
                self.modal.update(measures.advance);
            },
        }
    }

    /// Returns the value that the counter shows.
    pub fn value(&self) -> (value: i64)
        ensures
            value == self.held().value,
    {
        self.value
    }

    /// Returns the status of the modal.
    pub fn modal(&self) -> (modal: ModalViewStatus<P>)
        ensures
            modal == self.held().modal,
    {
        self.modal
    }

    /// Returns what the counter looks like. The measures are those of its modal.
    pub fn view<T>(&self, one: P, remaining: P) -> (screen: Screen<P, T>)
        ensures
            column(screen.content@) == content_of::<T>(self.held().value),
            screen.modal is Some <==> self.held().modal.shown(one, remaining) is Some,
            screen.modal matches Some(shown) ==> {
                &&& column(shown.content@) == modal_content::<T>()
                &&& self.held().modal.shown(one, remaining) == Some(shown.progress)
                &&& shown.on_press_content == Message::<T>::Nothing
                &&& shown.on_press_around == Message::<T>::ToggleModal
            },
    {
        let content = vec![
            Item::Button { label: "+", on_press: Some(Message::Increment) },
            Item::Value(self.value),
            Item::Button { label: "-", on_press: Some(Message::Decrement) },
            Item::Button { label: "Toggle Modal", on_press: Some(Message::ToggleModal) },
            Item::Button { label: "Toggle Theme", on_press: Some(Message::ToggleTheme) },
        ];
        assert(column(content@) =~= content_of::<T>(self.held().value));
        let in_front = vec![
            Item::Text("Modal Content"),
            Item::Button { label: "test", on_press: None },
            Item::Text("Modal text"),
        ];
        assert(column(in_front@) =~= modal_content::<T>());
        Screen { content, modal: modal(in_front, self.modal, one, remaining) }
    }

    /// Returns whether the modal moves, so that the counter has to be drawn again.
    pub fn needs_redraw(&self) -> (needed: bool)
        ensures
            needed == self.held().modal.animates(),
    {
        self.modal.is_in_progress()
    }

    /// Returns the milliseconds between the animation ticks that the counter subscribes to. It
    /// subscribes to none while its modal rests. What each of them means, [`tick`] says.
    pub fn subscription(&self) -> (ticks: Option<u64>)
        ensures
            ticks == subscribed(self.held()),
    {
        if self.modal.is_in_progress() { Some(TICK_MILLISECONDS) } else { None }
    }

    /// Returns the theme.
    pub fn theme(&self) -> (theme: Theme)
        ensures
            theme == self.held().theme,
    {
        self.theme
    }
}

/// An increment and a decrement undo each other, in either order.
pub proof fn steps_cancel<P, T>(counter: CounterView<P>, measures: Measures<P>)
    ensures
        ({
            let up = Message::<T>::Increment;
            let down = Message::<T>::Decrement;
            &&& updated(updated(counter, up, measures), down, measures) == counter
            &&& updated(updated(counter, down, measures), up, measures) == counter
        }),
{
}

/// Toggling the theme four times brings back any theme but the default one, which no toggle leads to.
/// Toggling it once, twice or three times brings back none.
pub proof fn themes_cycle(theme: Theme)
    ensures
        next_theme(theme) != Theme::Nord,
        next_theme(theme) != theme,
        next_theme(next_theme(theme)) != theme,
        next_theme(next_theme(next_theme(theme))) != theme,
        theme != Theme::Nord ==> next_theme(next_theme(next_theme(next_theme(theme)))) == theme,
{
}

/// A counter subscribes to ticks exactly while it has to be drawn again. Each tick takes its modal one
/// step on, whatever the time, and touches nothing else, and the ticks end with the animation.
pub proof fn ticks_run_the_animation<P, T>(counter: CounterView<P>, time: T, measures: Measures<P>)
    ensures
        ({
            let after = updated(counter, Message::AnimationTick(time), measures);
            &&& subscribed(counter) == Some(TICK_MILLISECONDS) <==> counter.modal.animates()
            &&& subscribed(counter) is None <==> !counter.modal.animates()
            &&& after == CounterView { modal: counter.modal.advanced(measures.advance), ..counter }
            &&& subscribed(counter) is Some ==> (subscribed(after) is Some <==> measures.advance is To)
            &&& subscribed(counter) is None ==> after == counter
        }),
{
}

/// Each message changes one thing at most: the value, the modal or the theme.
pub proof fn messages_are_independent<P, T>(
    counter: CounterView<P>,
    message: Message<T>,
    measures: Measures<P>,
)
    ensures
        ({
            let after = updated(counter, message, measures);
            &&& message !is Increment && message !is Decrement ==> after.value == counter.value
            &&& message !is ToggleModal && message !is AnimationTick ==> after.modal
                == counter.modal
            &&& message !is ToggleTheme ==> after.theme == counter.theme
        }),
{
}

/// Each button of a counter does what it says: `+` adds one to the value and `-` takes one away, and
/// the others toggle the modal and the theme. The value is shown between the first two.
pub proof fn buttons_do_what_they_say<P, T>(counter: CounterView<P>, measures: Measures<P>)
    ensures
        ({
            let shown = content_of::<T>(counter.value);
            &&& shown.len() == 5
            &&& shown[0] matches ItemView::Button { label, on_press: Some(message) } && label == "+"@
                && updated(counter, message, measures) == (CounterView {
                value: counter.value + 1,
                ..counter
            })
            &&& shown[1] == ItemView::<T>::Value(counter.value)
            &&& shown[2] matches ItemView::Button { label, on_press: Some(message) } && label == "-"@
                && updated(counter, message, measures) == (CounterView {
                value: counter.value - 1,
                ..counter
            })
            &&& shown[3] == (ItemView::<T>::Button {
                label: "Toggle Modal"@,
                on_press: Some(Message::ToggleModal),
            })
            &&& shown[4] == (ItemView::<T>::Button {
                label: "Toggle Theme"@,
                on_press: Some(Message::ToggleTheme),
            })
        }),
{
}

/// What is in the modal of a counter cannot be pressed to any effect.
pub proof fn modal_contents_are_inert<T>()
    ensures
        modal_content::<T>() == seq![
            ItemView::<T>::Text("Modal Content"@),
            ItemView::<T>::Button { label: "test"@, on_press: None },
            ItemView::<T>::Text("Modal text"@),
        ],
{
}

/// Pressing the modal of a counter changes nothing. Pressing around it toggles it: one that is coming
/// or shown starts to leave, and one that is leaving is gone. Neither touches the value or the theme.
pub proof fn presses_around_the_modal_hide_it<P, T>(counter: CounterView<P>, measures: Measures<P>)
    ensures
        updated(counter, Message::<T>::Nothing, measures) == counter,
        ({
            let after = updated(counter, Message::<T>::ToggleModal, measures);
            &&& after == (CounterView { modal: after.modal, ..counter })
            &&& counter.modal is ShowAnimation ==> after.modal == ModalViewStatus::HideAnimation(
                measures.starts.remaining,
            )
            &&& counter.modal is Showing ==> after.modal == ModalViewStatus::HideAnimation(
                measures.starts.zero,
            )
            &&& counter.modal is HideAnimation ==> after.modal is Hidden
            &&& counter.modal is Hidden ==> after.modal == ModalViewStatus::ShowAnimation(
                measures.starts.zero,
            )
        }),
{
}

/// A tick takes a running animation to where it has come, and a resting modal nowhere.
pub proof fn ticks_move_the_modal<P, T>(counter: CounterView<P>, time: T, measures: Measures<P>)
    ensures
        ({
            let after = updated(counter, Message::AnimationTick(time), measures);
            &&& after == (CounterView { modal: after.modal, ..counter })
            &&& measures.advance matches Advance::To(progress) ==> {
                &&& counter.modal is ShowAnimation ==> after.modal == ModalViewStatus::ShowAnimation(
                    progress,
                )
                &&& counter.modal is HideAnimation ==> after.modal == ModalViewStatus::HideAnimation(
                    progress,
                )
            }
            &&& measures.advance is Complete ==> {
                &&& counter.modal is ShowAnimation ==> after.modal is Showing
                &&& counter.modal is HideAnimation ==> after.modal is Hidden
            }
            &&& counter.modal is Showing || counter.modal is Hidden ==> after.modal == counter.modal
        }),
{
}

/// The theme leaves the default one for the light one, and goes from there to the dark one, to the
/// light and the dark one of the other pair, and back.
pub proof fn themes_follow_each_other<P, T>(counter: CounterView<P>, measures: Measures<P>)
    ensures
        ({
            let after = updated(counter, Message::<T>::ToggleTheme, measures);
            &&& after == (CounterView { theme: after.theme, ..counter })
            &&& counter.theme == Theme::Nord || counter.theme == Theme::GruvboxDark <==> after.theme
                == Theme::Light
            &&& counter.theme == Theme::Light <==> after.theme == Theme::Dark
            &&& counter.theme == Theme::Dark <==> after.theme == Theme::GruvboxLight
            &&& counter.theme == Theme::GruvboxLight <==> after.theme == Theme::GruvboxDark
        }),
{
}

/// While its modal moves a counter asks for a tick every eight milliseconds, and for none otherwise.
pub proof fn ticks_come_while_the_modal_moves<P>(counter: CounterView<P>)
    ensures
        subscribed(counter) == Some(8u64) <==> counter.modal is ShowAnimation || counter.modal
            is HideAnimation,
        subscribed(counter) is None <==> counter.modal is Showing || counter.modal is Hidden,
{
}

/// The things in a column are seen one by one, in their order.
pub proof fn columns_keep_their_order<T>(items: Seq<Item<T>>, i: int)
    requires
        0 <= i < items.len(),
    ensures
        column(items).len() == items.len(),
        column(items)[i] == items[i]@,
{
}

/// What is seen of a thing is what it holds.
pub proof fn things_are_seen_as_they_are<T>(label: &'static str, press: Option<Message<T>>, value: i64)
    ensures
        (Item::Button { label, on_press: press })@ == (ItemView::Button {
            label: label@,
            on_press: press,
        }),
        Item::<T>::Text(label)@ == ItemView::<T>::Text(label@),
        Item::<T>::Value(value)@ == ItemView::<T>::Value(value as int),
{
}

} // verus!
