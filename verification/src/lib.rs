//! The decisions of a mobile runner for iced applications.
//!
//! The event loop, the windows, the renderer and the program all live outside of this crate.
//! What happens to them, and in which order, is decided here.

pub mod action;
pub mod control;
pub mod conversion;
pub mod counter;
pub mod flow;
pub mod fx;
pub mod host;
pub mod input;
pub mod instance;
pub mod platform;
pub mod rebuild;
pub mod runner;
pub mod update;
pub mod widgets;
pub mod window_man;
