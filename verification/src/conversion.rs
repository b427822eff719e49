//! Themes and window modes, and the conversions between them that `iced_winit` defines.

use iced::theme::Mode;
use iced::window;
use iced_winit::conversion;
use iced_winit::winit;
use vstd::prelude::*;

verus! {

/// The tone of a theme: `iced`'s `theme::Mode`.
#[derive(Clone, Copy, Debug, PartialEq, Eq, Structural)]
pub enum ThemeMode {
    /// No specific tone.
    Neutral,
    Light,
    Dark,
}

/// The theme of a window: `winit`'s `window::Theme`.
#[derive(Clone, Copy, Debug, PartialEq, Eq, Structural)]
pub enum WindowTheme {
    Light,
    Dark,
}

/// How a window is shown: `iced`'s `window::Mode`.
#[derive(Clone, Copy, Debug, PartialEq, Eq, Structural)]
pub enum WindowMode {
    Windowed,
    Fullscreen,
    Hidden,
}

/// The tone that a window theme has.
pub open spec fn tone_of(theme: WindowTheme) -> ThemeMode {
    match theme {
        WindowTheme::Light => ThemeMode::Light,
        WindowTheme::Dark => ThemeMode::Dark,
    }
}

/// The window theme of a tone. A neutral tone asks for none.
pub open spec fn theme_of(mode: ThemeMode) -> Option<WindowTheme> {
    match mode {
        ThemeMode::Neutral => None,
        ThemeMode::Light => Some(WindowTheme::Light),
        ThemeMode::Dark => Some(WindowTheme::Dark),
    }
}

/// The mode of a window that can be seen.
pub open spec fn shown_mode(fullscreen: bool) -> WindowMode {
    if fullscreen {
        WindowMode::Fullscreen
    } else {
        WindowMode::Windowed
    }
}

/// The mode that a window reports. A window of unknown visibility counts as visible.
pub open spec fn mode_of(visible: Option<bool>, fullscreen: bool) -> WindowMode {
    if visible == Some(false) {
        WindowMode::Hidden
    } else {
        shown_mode(fullscreen)
    }
}

/// Calls `iced_winit::conversion::theme_mode`: a light theme has the light tone, a dark theme the
/// dark one.
#[verifier::external_body]
pub(crate) fn theme_mode(theme: WindowTheme) -> (mode: ThemeMode)
    ensures
        mode == tone_of(theme),
{
    let theme = match theme {
        WindowTheme::Light => winit::window::Theme::Light,
        WindowTheme::Dark => winit::window::Theme::Dark,
    };
    match conversion::theme_mode(theme) {
        Mode::None => ThemeMode::Neutral,
        Mode::Light => ThemeMode::Light,
        Mode::Dark => ThemeMode::Dark,
    }
}

/// Calls `iced_winit::conversion::window_theme`: the theme of the given tone, and none for the
/// neutral one.
#[verifier::external_body]
pub(crate) fn window_theme(mode: ThemeMode) -> (theme: Option<WindowTheme>)
    ensures
        theme == theme_of(mode),
{
    let mode = match mode {
        ThemeMode::Neutral => Mode::None,
        ThemeMode::Light => Mode::Light,
        ThemeMode::Dark => Mode::Dark,
    };
    match conversion::window_theme(mode) {
        None => None,
        Some(winit::window::Theme::Light) => Some(WindowTheme::Light),
        Some(winit::window::Theme::Dark) => Some(WindowTheme::Dark),
    }
}

/// Calls `iced_winit::conversion::visible`: every mode but the hidden one is visible.
#[verifier::external_body]
pub(crate) fn visible(mode: WindowMode) -> (visible: bool)
    ensures
        visible == (mode != WindowMode::Hidden),
{
    conversion::visible(match mode {
        WindowMode::Windowed => window::Mode::Windowed,
        WindowMode::Fullscreen => window::Mode::Fullscreen,
        WindowMode::Hidden => window::Mode::Hidden,
    })
}

/// Calls `iced_winit::conversion::mode`: a window that covers a screen is fullscreen, any other one
/// is windowed.
#[verifier::external_body]
pub(crate) fn mode(fullscreen: bool) -> (mode: WindowMode)
    ensures
        mode == shown_mode(fullscreen),
{
    let fullscreen = fullscreen.then_some(winit::window::Fullscreen::Borderless(None));
    match conversion::mode(fullscreen) {
        window::Mode::Windowed => WindowMode::Windowed,
        window::Mode::Fullscreen => WindowMode::Fullscreen,
        window::Mode::Hidden => WindowMode::Hidden,
    }
}

/// Calls `winit::keyboard::ModifiersState::super_key` on the state that has the given bits: whether
/// the bit of the super key, the twelfth, is set.
#[verifier::external_body]
pub(crate) fn super_key(modifiers: u32) -> (pressed: bool)
    ensures
        pressed == (modifiers & 0x800u32 != 0),
{
    winit::keyboard::ModifiersState::from_bits_retain(modifiers).super_key()
}

/// The mode that a window reports, from its visibility, where it is known, and from whether it
/// covers a screen.
pub fn reported_mode(visible: Option<bool>, fullscreen: bool) -> (reported: WindowMode)
    ensures
        reported == mode_of(visible, fullscreen),
{
    match visible {
        Some(false) => WindowMode::Hidden,
        _ => mode(fullscreen),
    }
}

/// A theme survives the way to its tone and back.
pub proof fn theme_of_tone(theme: WindowTheme)
    ensures
        theme_of(tone_of(theme)) == Some(theme),
{
}

/// A light theme has the light tone and a dark theme the dark one, and each of these tones asks for
/// just that theme. No theme has the neutral tone, which asks for none.
pub proof fn tones_match_themes(theme: WindowTheme, mode: ThemeMode)
    ensures
        tone_of(theme) == ThemeMode::Light <==> theme == WindowTheme::Light,
        tone_of(theme) == ThemeMode::Dark <==> theme == WindowTheme::Dark,
        theme_of(mode) == Some(theme) <==> tone_of(theme) == mode,
        theme_of(mode) is None <==> mode == ThemeMode::Neutral,
{
}

/// A window is reported as hidden exactly if it is known not to be visible. Otherwise it is reported as
/// fullscreen if it covers a screen, and as windowed if it does not.
pub proof fn modes_are_reported_as_seen(visible: Option<bool>, fullscreen: bool)
    ensures
        mode_of(visible, fullscreen) == WindowMode::Hidden <==> visible == Some(false),
        visible != Some(false) && fullscreen <==> mode_of(visible, fullscreen)
            == WindowMode::Fullscreen,
        visible != Some(false) && !fullscreen <==> mode_of(visible, fullscreen)
            == WindowMode::Windowed,
{
}

} // verus!
