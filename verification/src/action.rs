//! What a program can ask of its runtime.

use crate::conversion::{ThemeMode, WindowMode};
use crate::host::Host;
use vstd::prelude::*;

verus! {

/// An edge or a corner of a window.
#[derive(Clone, Copy, Debug, PartialEq, Eq, Structural)]
pub enum Direction {
    North,
    South,
    East,
    West,
    NorthEast,
    NorthWest,
    SouthEast,
    SouthWest,
}

/// How a window is stacked among the others.
#[derive(Clone, Copy, Debug, PartialEq, Eq, Structural)]
pub enum Level {
    Normal,
    AlwaysOnBottom,
    AlwaysOnTop,
}

/// How urgently a window wants to be looked at.
#[derive(Clone, Copy, Debug, PartialEq, Eq, Structural)]
pub enum UserAttention {
    Critical,
    Informational,
}

/// Which clipboard is meant.
#[derive(Clone, Copy, Debug, PartialEq, Eq, Structural)]
pub enum ClipboardKind {
    Standard,
    Primary,
}

/// An action that the runtime can perform: `iced_runtime`'s `Action`.
pub enum Action<H: Host> {
    /// Output some value.
    Output(H::Message),
    /// Load a font from its bytes.
    LoadFont { bytes: H::Font, channel: H::Channel },
    /// Run a widget operation.
    Widget(H::Operation),
    /// Run a clipboard action.
    Clipboard(ClipboardAction<H>),
    /// Run a window action.
    Window(WindowAction<H>),
    /// Run a system action.
    System(SystemAction<H>),
    /// Allocate an image.
    Image { image: H::Image, channel: H::Channel },
    /// Recreate all user interfaces and redraw all windows.
    Reload,
    /// Exit the runtime.
    Exit,
}

/// A clipboard action to be performed.
pub enum ClipboardAction<H: Host> {
    /// Read the clipboard and send its contents.
    Read { target: ClipboardKind, channel: H::Channel },
    /// Write to the clipboard.
    Write { target: ClipboardKind, contents: String },
}

/// An operation to be performed on the system.
pub enum SystemAction<H: Host> {
    /// Send what is known of the system.
    GetInformation(H::Channel),
    /// Send the current system theme.
    GetTheme(H::Channel),
    /// Notify the runtime that the system theme has changed.
    NotifyTheme(ThemeMode),
}

/// An operation to be performed on the windows.
pub enum WindowAction<H: Host> {
    /// Open a new window with some settings and send its identifier once it is open.
    Open(u64, H::Settings, H::Channel),
    /// Close the window.
    Close(u64),
    /// Send the identifier of the oldest window.
    GetOldest(H::Channel),
    /// Send the identifier of the latest window.
    GetLatest(H::Channel),
    /// Ask something of one window.
    On(u64, WindowRequest<H>),
    /// Set whether the system can organize windows into tabs.
    SetAllowAutomaticTabbing(bool),
    /// Redraw all the windows.
    RedrawAll,
    /// Recompute the layouts of all the windows.
    RelayoutAll,
}

/// What can be asked of one window.
pub enum WindowRequest<H: Host> {
    /// Move the window with the mouse until its button is released.
    Drag,
    /// Resize the window with the mouse until its button is released.
    DragResize(Direction),
    /// Resize the window.
    Resize(H::Size),
    /// Send the size of the window.
    GetSize(H::Channel),
    /// Send whether the window is maximized.
    GetMaximized(H::Channel),
    /// Set whether the window is maximized.
    Maximize(bool),
    /// Send whether the window is minimized.
    GetMinimized(H::Channel),
    /// Set whether the window is minimized.
    Minimize(bool),
    /// Send the position of the window.
    GetPosition(H::Channel),
    /// Send the scale factor of the window.
    GetScaleFactor(H::Channel),
    /// Move the window.
    Move(H::Point),
    /// Change the mode of the window.
    SetMode(WindowMode),
    /// Send the mode of the window.
    GetMode(H::Channel),
    /// Maximize the window, or restore it if it is maximized.
    ToggleMaximize,
    /// Give the window decorations, or take them if it has some.
    ToggleDecorations,
    /// Ask the user to look at the window.
    RequestUserAttention(Option<UserAttention>),
    /// Bring the window to the front.
    GainFocus,
    /// Change the level of the window.
    SetLevel(Level),
    /// Show the system menu at the cursor.
    ShowSystemMenu,
    /// Send the name that the system has for the window.
    GetRawId(H::Channel),
    /// Change the icon of the window.
    SetIcon(H::Icon),
    /// Run a function on the window.
    Run(H::Callback),
    /// Send a picture of the window.
    Screenshot(H::Channel),
    /// Let mouse events pass through the window.
    EnableMousePassthrough,
    /// Let the window have its mouse events.
    DisableMousePassthrough,
    /// Set the smallest size of the window.
    SetMinSize(Option<H::Size>),
    /// Set the largest size of the window.
    SetMaxSize(Option<H::Size>),
    /// Set whether the window can be resized.
    SetResizable(bool),
    /// Set the steps in which the window is resized.
    SetResizeIncrements(Option<H::Size>),
    /// Send the size of the monitor that the window is on.
    GetMonitorSize(H::Channel),
}

} // verus!
