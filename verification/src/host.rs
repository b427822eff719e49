//! What the runner carries around without looking at it.

use vstd::prelude::*;

verus! {

/// The types of the toolkit and of the program that runs on it. Values of these types are handed
/// on, each to where it belongs, and are never looked at.
pub trait Host: Sized {
    /// A message of the program.
    type Message;

    /// An event of a user interface.
    type Event;

    /// A window, with its renderer and its surface.
    type Window;

    /// A window that the system has just created.
    type RawWindow;

    /// What is left of a user interface while the program changes.
    type Cache;

    /// The settings of a window to open.
    type Settings;

    /// All that the system needs to create a window.
    type Creation;

    /// A logical size.
    type Size;

    /// A logical position.
    type Point;

    /// The icon of a window.
    type Icon;

    /// A function to run on a window.
    type Callback;

    /// Where the answer to a request is sent.
    type Channel;

    /// An operation on the widgets of a user interface.
    type Operation;

    /// A handle of an image.
    type Image;

    /// The bytes of a font.
    type Font;

    /// What the mouse would do to a user interface.
    type Interaction;

    /// How a user interface wants text to be entered.
    type InputMethod;

    /// An event of the event loop.
    type LoopEvent;

    /// Why an application cannot go on.
    type Error;
}

} // verus!
