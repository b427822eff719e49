//! The systems an application can run on.

use vstd::prelude::*;

verus! {

/// The system an application runs on.
#[derive(Clone, Copy, Debug, PartialEq, Eq, Structural)]
pub enum Platform {
    Android,
    Ios,
    MacOs,
    Windows,
    Web,
    Other,
}

} // verus!
