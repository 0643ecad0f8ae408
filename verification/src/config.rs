//! Runtime configuration, set through the Lua config: the toggle hotkey and
//! the appearance.

use vstd::prelude::*;

use crate::text::owned;

verus! {

/// Runtime configuration set via the Lua config.
#[derive(Debug, Clone)]
pub struct AppConfig {
    /// Hotkey configuration.
    pub hotkey: HotkeyConfig,
    /// Appearance settings.
    pub appearance: AppearanceConfig,
}

/// Hotkey configuration.
#[derive(Debug, Clone)]
pub struct HotkeyConfig {
    /// Toggle hotkey string, e.g. "cmd+space".
    pub toggle: String,
}

/// Appearance configuration.
#[derive(Debug, Clone)]
pub struct AppearanceConfig {
    /// Theme mode: light, dark, or follow the system.
    pub theme: ThemeMode,
    /// Accent color (hex string).
    pub accent_color: Option<String>,
}

/// Theme mode selection.
#[derive(Debug, Clone, Copy, PartialEq, Eq, Structural)]
pub enum ThemeMode {
    Light,
    Dark,
    System,
}

impl Default for ThemeMode {
    fn default() -> (r: Self)
        ensures
            r == ThemeMode::System,
    {
        ThemeMode::System
    }
}

impl Default for HotkeyConfig {
    fn default() -> (r: Self)
        ensures
            r.toggle@ == "cmd+space"@,
    {
        HotkeyConfig { toggle: owned("cmd+space") }
    }
}

impl Default for AppearanceConfig {
    fn default() -> (r: Self)
        ensures
            r.theme == ThemeMode::System,
            r.accent_color is None,
    {
        AppearanceConfig { theme: ThemeMode::System, accent_color: None }
    }
}

impl Default for AppConfig {
    fn default() -> (r: Self)
        ensures
            r.hotkey.toggle@ == "cmd+space"@,
            r.appearance.theme == ThemeMode::System,
            r.appearance.accent_color is None,
    {
        AppConfig { hotkey: HotkeyConfig::default(), appearance: AppearanceConfig::default() }
    }
}

} // verus!
