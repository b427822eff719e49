//! What a window tells the event loop.

use crate::conversion::{super_key, WindowTheme};
use crate::platform::Platform;
use vstd::prelude::*;

verus! {

/// The stage of a touch: `winit`'s `TouchPhase`.
#[derive(Clone, Copy, Debug, PartialEq, Eq, Structural)]
pub enum TouchPhase {
    Started,
    Moved,
    Ended,
    Cancelled,
}

/// What a finger did, as a user interface hears of it.
#[derive(Clone, Copy, Debug, PartialEq, Eq, Structural)]
pub enum FingerEvent {
    Pressed,
    Moved,
    Lifted,
}

/// The part of an event of a window that decisions depend on.
#[derive(Clone, Debug)]
pub enum WindowInput {
    Destroyed,
    CloseRequested,
    Resized,
    Moved,
    ThemeChanged(WindowTheme),
    Touch(TouchPhase),
    /// A key went down or up. Only a key that stands for some text has a character.
    Keyboard { character: Option<String>, pressed: bool },
    Other,
}

/// What a finger did in a stage of a touch. A touch that is cancelled ends like any other.
pub open spec fn finger_of(phase: TouchPhase) -> FingerEvent {
    match phase {
        TouchPhase::Started => FingerEvent::Pressed,
        TouchPhase::Moved => FingerEvent::Moved,
        TouchPhase::Ended | TouchPhase::Cancelled => FingerEvent::Lifted,
    }
}

/// What a finger did in a stage of a touch.
pub fn finger_event(phase: TouchPhase) -> (event: FingerEvent)
    ensures
        event == finger_of(phase),
{
    match phase {
        TouchPhase::Started => FingerEvent::Pressed,
        TouchPhase::Moved => FingerEvent::Moved,
        TouchPhase::Ended | TouchPhase::Cancelled => FingerEvent::Lifted,
    }
}

/// Whether an event moves or resizes a window.
pub open spec fn moves_or_resizes(event: WindowInput) -> bool {
    event is Moved || event is Resized
}

/// Whether an event is the chord that quits an application: on macOS the key `q` going down while
/// the super key is held. Every other system has none.
pub open spec fn quits(platform: Platform, event: WindowInput, modifiers: u32) -> bool {
    &&& platform == Platform::MacOs
    &&& event matches WindowInput::Keyboard { character: Some(character), pressed: true }
        && character@ == seq!['q']
    &&& modifiers & 0x800u32 != 0
}

/// Returns true if the provided event should cause a program to exit.
pub fn user_force_quit(platform: Platform, event: &WindowInput, modifiers: u32) -> (quit: bool)
    ensures
        quit == quits(platform, *event, modifiers),
{
    match event {
        WindowInput::Keyboard { character: Some(character), pressed: true } => {
            let text = character.as_str();
            let is_q = text.unicode_len() == 1 && text.get_char(0) == 'q';
            assert(is_q == (character@ =~= seq!['q']));
            platform == Platform::MacOs && is_q && super_key(modifiers)
        },
        _ => false,
    }
}

/// A finger is pressed exactly when a touch starts, moved exactly when it moves, and lifted exactly
/// when it ends in whatever way.
pub proof fn fingers_follow_touches(phase: TouchPhase)
    ensures
        finger_of(phase) == FingerEvent::Pressed <==> phase == TouchPhase::Started,
        finger_of(phase) == FingerEvent::Moved <==> phase == TouchPhase::Moved,
        finger_of(phase) == FingerEvent::Lifted <==> phase == TouchPhase::Ended || phase
            == TouchPhase::Cancelled,
{
}

/// Only on macOS, only with the super key held, and only when the one key `q` goes down does an
/// application quit; and then it does, whatever other modifiers are held.
pub proof fn one_chord_quits(platform: Platform, event: WindowInput, modifiers: u32)
    ensures
        quits(platform, event, modifiers) ==> platform == Platform::MacOs && modifiers & 0x800u32 != 0,
        quits(platform, event, modifiers) ==> (event matches WindowInput::Keyboard {
            character: Some(character),
            pressed,
        } && pressed && character@.len() == 1 && character@[0] == 'q'),
        forall|character: String|
            #![trigger character@]
            platform == Platform::MacOs && modifiers & 0x800u32 != 0 && character@.len() == 1
                && character@[0] == 'q' && event == (WindowInput::Keyboard {
                character: Some(character),
                pressed: true,
            }) ==> quits(platform, event, modifiers),
{
    assert forall|character: String|
        #![trigger character@]
        platform == Platform::MacOs && modifiers & 0x800u32 != 0 && character@.len() == 1
            && character@[0] == 'q' && event == (WindowInput::Keyboard {
            character: Some(character),
            pressed: true,
        }) implies quits(platform, event, modifiers) by {
        assert(character@ =~= seq!['q']);
    }
}

} // verus!
