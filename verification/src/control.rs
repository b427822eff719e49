//! What the runtime asks of the event loop, and how the event loop creates windows.

use crate::flow::ControlFlow;
use crate::host::Host;
use crate::platform::Platform;
use vstd::prelude::*;

verus! {

/// A window to be created.
pub struct NewWindow<H: Host> {
    pub id: u64,
    /// Whether the window is to be visible.
    pub visible: bool,
    /// Whether a request to close the window closes it.
    pub exit_on_close_request: bool,
    /// What the system needs to create the window.
    pub creation: H::Creation,
    /// Where the identifier is sent once the window is open.
    pub channel: H::Channel,
}

/// Something that the runtime asks of the event loop.
pub enum Control<H: Host> {
    /// Change how the event loop waits.
    ChangeFlow(ControlFlow),
    /// Leave the event loop.
    Exit,
    /// Leave the event loop because of an error.
    Crash(H::Error),
    /// Create a window.
    CreateWindow(NewWindow<H>),
    /// Set whether the system can organize windows into tabs.
    SetAutomaticWindowTabbing(bool),
}

/// What a system wants of a window that is created.
#[derive(Clone, Copy, Debug, PartialEq, Eq, Structural)]
pub struct WindowPlan {
    /// Whether the window is visible from the start.
    pub visible: bool,
    /// Whether the window takes the whole screen: no size is set, none is the smallest or the
    /// largest, and the home indicator and the status bar are hidden.
    pub fills_screen: bool,
    /// Whether the window keeps the scale factor of the system and may be turned.
    pub follows_device: bool,
    /// Whether the window is moved to its position after it is created. The position that a window
    /// is created with is that of its contents there.
    pub positioned_later: bool,
    /// Whether the window is put into the page that shows the application.
    pub embedded: bool,
}

/// What a system wants of a window that is created. No window is visible before it has been drawn.
pub open spec fn plan_of(platform: Platform) -> WindowPlan {
    WindowPlan {
        visible: false,
        fills_screen: platform == Platform::Ios,
        follows_device: platform == Platform::Ios,
        positioned_later: platform == Platform::MacOs,
        embedded: platform == Platform::Web,
    }
}

/// Returns what a system wants of a window that is created.
pub fn window_plan(platform: Platform) -> (plan: WindowPlan)
    ensures
        plan == plan_of(platform),
{
    WindowPlan {
        visible: false,
        fills_screen: matches!(platform, Platform::Ios),
        follows_device: matches!(platform, Platform::Ios),
        positioned_later: matches!(platform, Platform::MacOs),
        embedded: matches!(platform, Platform::Web),
    }
}

/// No window can be seen before it has been drawn. On iOS it takes the whole screen and follows the
/// device, on macOS it is moved after it is created, on the web it is put into the page, and everywhere
/// else it is created as it is.
pub proof fn systems_create_windows_their_way(platform: Platform)
    ensures
        ({
            let plan = plan_of(platform);
            &&& !plan.visible
            &&& plan.fills_screen <==> platform == Platform::Ios
            &&& plan.follows_device <==> platform == Platform::Ios
            &&& plan.positioned_later <==> platform == Platform::MacOs
            &&& plan.embedded <==> platform == Platform::Web
        }),
{
}

} // verus!
