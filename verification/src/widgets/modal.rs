//! A modal that slides in and out.

use crate::counter::Message;
use vstd::prelude::*;

verus! {

/// Whether a modal is shown, and how far its animation has come.
///
/// The type `P` measures the progress of an animation from zero to one. It is floating point
/// arithmetic, so what it yields is handed in.
#[derive(Clone, Copy, Debug, PartialEq, PartialOrd)]
pub enum ModalViewStatus<P> {
    Hidden,
    ShowAnimation(P),
    Showing,
    HideAnimation(P),
}

/// How far a running animation gets in one step.
#[derive(Clone, Copy, Debug, PartialEq)]
pub enum Advance<P> {
    /// To the given progress, which is below one.
    To(P),
    /// To one or beyond.
    Complete,
}

/// The measures that a toggled modal starts from.
#[derive(Clone, Copy, Debug, PartialEq)]
pub struct Starts<P> {
    /// Zero.
    pub zero: P,
    /// One minus the progress of the running animation. Only looked at if there is one.
    pub remaining: P,
}

impl<P> ModalViewStatus<P> {
    /// Whether an animation is running.
    pub open spec fn animates(self) -> bool {
        self is ShowAnimation || self is HideAnimation
    }

    /// The status after a step of its animation, if one is running.
    pub open spec fn advanced(self, advance: Advance<P>) -> ModalViewStatus<P> {
        match (self, advance) {
            (ModalViewStatus::ShowAnimation(_), Advance::To(progress)) =>
                ModalViewStatus::ShowAnimation(progress),
            (ModalViewStatus::ShowAnimation(_), Advance::Complete) => ModalViewStatus::Showing,
            (ModalViewStatus::HideAnimation(_), Advance::To(progress)) =>
                ModalViewStatus::HideAnimation(progress),
            (ModalViewStatus::HideAnimation(_), Advance::Complete) => ModalViewStatus::Hidden,
            _ => self,
        }
    }

    /// The status after a toggle.
    pub open spec fn toggled(self, starts: Starts<P>) -> ModalViewStatus<P> {
        match self {
            ModalViewStatus::ShowAnimation(_) => ModalViewStatus::HideAnimation(starts.remaining),
            ModalViewStatus::Showing => ModalViewStatus::HideAnimation(starts.zero),
            ModalViewStatus::HideAnimation(_) => ModalViewStatus::Hidden,
            ModalViewStatus::Hidden => ModalViewStatus::ShowAnimation(starts.zero),
        }
    }

    /// How much of the modal is in view, if any of it is.
    pub open spec fn shown(self, one: P, remaining: P) -> Option<P> {
        match self {
            ModalViewStatus::ShowAnimation(progress) => Some(progress),
            ModalViewStatus::Showing => Some(one),
            ModalViewStatus::HideAnimation(_) => Some(remaining),
            ModalViewStatus::Hidden => None,
        }
    }

    /// Returns true if the modal is currently showing.
    pub fn is_showing(&self) -> (showing: bool)
        ensures
            showing == (*self !is Hidden),
    {
        !matches!(self, ModalViewStatus::Hidden)
    }

    /// Returns true if the modal is being animated.
    pub fn is_in_progress(&self) -> (in_progress: bool)
        ensures
            in_progress == self.animates(),
    {
        matches!(self, ModalViewStatus::ShowAnimation(_) | ModalViewStatus::HideAnimation(_))
    }
}

impl<P: Copy> ModalViewStatus<P> {
    /// Returns the progress of the running animation, if any.
    pub fn animation(&self) -> (progress: Option<P>)
        ensures
            progress == (match *self {
                ModalViewStatus::ShowAnimation(progress) => Some(progress),
                ModalViewStatus::HideAnimation(progress) => Some(progress),
                _ => None,
            }),
    {
        match self {
            ModalViewStatus::ShowAnimation(progress) => Some(*progress),
            ModalViewStatus::HideAnimation(progress) => Some(*progress),
            _ => None,
        }
    }

    /// Moves the running animation on, if any.
    pub fn update(&mut self, advance: Advance<P>)
        ensures
            *final(self) == old(self).advanced(advance),
    {
        match self {
            ModalViewStatus::ShowAnimation(_) => {
                *self = match advance {
                    Advance::To(progress) => ModalViewStatus::ShowAnimation(progress),
                    Advance::Complete => ModalViewStatus::Showing,
                };
            },
            ModalViewStatus::Showing | ModalViewStatus::Hidden => {},
            ModalViewStatus::HideAnimation(_) => {
                *self = match advance {
                    Advance::To(progress) => ModalViewStatus::HideAnimation(progress),
                    Advance::Complete => ModalViewStatus::Hidden,
                };
            },
        }
    }

    /// Returns how much of the modal is in view, if any of it is. While it slides out that is
    /// `remaining`, one minus the progress of the animation.
    pub fn progress(&self, one: P, remaining: P) -> (shown: Option<P>)
        ensures
            shown == self.shown(one, remaining),
    {
        match self {
            ModalViewStatus::ShowAnimation(progress) => Some(*progress),
            ModalViewStatus::Showing => Some(one),
            ModalViewStatus::HideAnimation(_) => Some(remaining),
            ModalViewStatus::Hidden => None,
        }
    }

    /// Shows a hidden modal and hides a shown one.
    pub fn toggle(&mut self, starts: Starts<P>)
        ensures
            *final(self) == old(self).toggled(starts),
    {
        *self = match self {
            ModalViewStatus::ShowAnimation(_) => ModalViewStatus::HideAnimation(starts.remaining),
            ModalViewStatus::Showing => ModalViewStatus::HideAnimation(starts.zero),
            ModalViewStatus::HideAnimation(_) => ModalViewStatus::Hidden,
            ModalViewStatus::Hidden => ModalViewStatus::ShowAnimation(starts.zero),
        };
    }
}

impl<P> Default for ModalViewStatus<P> {
    /// A modal starts out hidden.
    fn default() -> (status: Self)
        ensures
            status == ModalViewStatus::<P>::Hidden,
    {
        ModalViewStatus::Hidden
    }
}

/// Something that is shown in front of everything else.
pub struct Modal<P, C, T> {
    pub content: C,
    /// How much of it is in view.
    pub progress: P,
    /// What pressing the content leads to where nothing in it takes notice.
    pub on_press_content: Message<T>,
    /// What pressing anywhere else leads to.
    pub on_press_around: Message<T>,
}

/// Puts something in front of everything else while a modal is in view. Pressing it does nothing, and
/// pressing anywhere else toggles the modal.
pub fn modal<P: Copy, C, T>(
    content: C,
    modal_view_status: ModalViewStatus<P>,
    one: P,
    remaining: P,
) -> (modal: Option<Modal<P, C, T>>)
    ensures
        modal == (match modal_view_status.shown(one, remaining) {
            Some(progress) => Some(
                Modal {
                    content,
                    progress,
                    on_press_content: Message::<T>::Nothing,
                    on_press_around: Message::<T>::ToggleModal,
                },
            ),
            None => None,
        }),
{
    match modal_view_status.progress(one, remaining) {
        Some(progress) => Some(
            Modal {
                content,
                progress,
                on_press_content: Message::Nothing,
                on_press_around: Message::ToggleModal,
            },
        ),
        None => None,
    }
}

/// A modal is in view exactly while it is showing.
pub proof fn shown_while_showing<P>(status: ModalViewStatus<P>, one: P, remaining: P)
    ensures
        status.shown(one, remaining) is Some <==> status !is Hidden,
{
}

/// A step ends an animation or keeps it running, and never starts one. A modal that slides in does
/// not start to slide out by itself, nor the other way around.
pub proof fn steps_do_not_turn<P>(status: ModalViewStatus<P>, advance: Advance<P>)
    ensures
        !status.animates() ==> status.advanced(advance) == status,
        status.animates() ==> (status.advanced(advance).animates() <==> advance is To),
        status is ShowAnimation ==> status.advanced(advance) is ShowAnimation
            || status.advanced(advance) is Showing,
        status is HideAnimation ==> status.advanced(advance) is HideAnimation
            || status.advanced(advance) is Hidden,
{
}

/// Toggling a modal that slides in turns it around in place: as much of it is in view after the
/// toggle as before. `complement` is what takes the progress of an animation to one minus it.
pub proof fn toggling_turns_in_place<P>(progress: P, one: P, zero: P, complement: spec_fn(P) -> P)
    requires
        complement(complement(progress)) == progress,
    ensures
        ({
            let before = ModalViewStatus::ShowAnimation(progress);
            let after = before.toggled(Starts { zero, remaining: complement(progress) });
            &&& after == ModalViewStatus::HideAnimation(complement(progress))
            &&& after.shown(one, complement(complement(progress)))
                == before.shown(one, complement(progress))
        }),
{
}

/// A modal that has come to rest is back where it was after two toggles, each left to run out.
pub proof fn two_toggles_restore<P>(status: ModalViewStatus<P>, first: Starts<P>, second: Starts<P>)
    requires
        !status.animates(),
    ensures
        status.toggled(first).advanced(Advance::Complete).toggled(second).advanced(Advance::Complete)
            == status,
{
}

/// How much of a modal can be seen, between nothing and all of it: while it slides in, as much as its
/// animation has come, and while it slides out, what that leaves. `complement` is what takes the
/// progress of an animation to one minus it.
pub open spec fn in_view<P>(status: ModalViewStatus<P>, one: P, complement: spec_fn(P) -> P) -> Option<P> {
    match status {
        ModalViewStatus::HideAnimation(progress) => status.shown(one, complement(progress)),
        _ => status.shown(one, one),
    }
}

/// A modal that slides in is in view as far as it has come, one that slides out as far as it still has
/// to go, one that is shown is all in view, and one that is hidden is not.
pub proof fn as_much_is_in_view_as_has_come<P>(progress: P, one: P, complement: spec_fn(P) -> P)
    ensures
        in_view(ModalViewStatus::ShowAnimation(progress), one, complement) == Some(progress),
        in_view(ModalViewStatus::HideAnimation(progress), one, complement) == Some(
            complement(progress),
        ),
        in_view(ModalViewStatus::Showing, one, complement) == Some(one),
        in_view(ModalViewStatus::Hidden, one, complement) is None,
{
}

/// A toggle never makes a modal that is coming or shown jump: it starts to leave from where it is. One
/// that is hidden starts to come from nothing, and one that is leaving is gone at once.
pub proof fn toggles_start_where_the_modal_is<P>(
    status: ModalViewStatus<P>,
    one: P,
    starts: Starts<P>,
    complement: spec_fn(P) -> P,
)
    requires
        complement(starts.zero) == one,
        status matches ModalViewStatus::ShowAnimation(progress) ==> starts.remaining == complement(
            progress,
        ) && complement(complement(progress)) == progress,
    ensures
        ({
            let after = status.toggled(starts);
            let seen = in_view(status, one, complement);
            &&& status is Showing || status is ShowAnimation ==> after is HideAnimation && in_view(
                after,
                one,
                complement,
            ) == seen
            &&& status is Showing ==> after == ModalViewStatus::HideAnimation(starts.zero)
            &&& status is Hidden ==> after == ModalViewStatus::ShowAnimation(starts.zero) && in_view(
                after,
                one,
                complement,
            ) == Some(starts.zero)
            &&& status is HideAnimation ==> after is Hidden && in_view(after, one, complement) is None
        }),
{
}

/// A step brings a running animation just where it says, and one that completes it brings the modal all
/// into view or out of it.
pub proof fn steps_lead_where_they_say<P>(
    before: P,
    reached: P,
    one: P,
    complement: spec_fn(P) -> P,
)
    ensures
        ({
            let coming = ModalViewStatus::ShowAnimation(before);
            let leaving = ModalViewStatus::HideAnimation(before);
            let to = Advance::To(reached);
            &&& in_view(coming.advanced(to), one, complement) == Some(reached)
            &&& in_view(leaving.advanced(to), one, complement) == Some(complement(reached))
            &&& in_view(coming.advanced(Advance::Complete), one, complement) == Some(one)
            &&& in_view(leaving.advanced(Advance::Complete), one, complement) is None
            &&& coming.advanced(to).animates() && leaving.advanced(to).animates()
            &&& !coming.advanced(Advance::Complete).animates()
            &&& !leaving.advanced(Advance::Complete).animates()
        }),
{
}

} // verus!
