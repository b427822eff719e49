//! Basic widgets.

pub mod modal;
