use lux::config::{AppConfig, ThemeMode};
use lux::error::{BackendError, ConfigError};

#[test]
fn default_config() {
    let config = AppConfig::default();
    assert_eq!(config.hotkey.toggle, "cmd+space");
    assert_eq!(config.appearance.theme, ThemeMode::System);
    assert!(config.appearance.accent_color.is_none());
}

#[test]
fn error_messages() {
    assert_eq!(
        BackendError::Plugin { plugin: "files".to_string(), message: "oops".to_string() }.message(),
        "Plugin 'files' error: oops"
    );
    assert_eq!(BackendError::RuntimeUnavailable.message(), "Lua runtime unavailable");
    assert_eq!(
        BackendError::Timeout { duration: std::time::Duration::from_millis(1500) }.message(),
        "Lua runtime timeout after 1.5s"
    );
    assert_eq!(ConfigError::InvalidHotkey("x".to_string()).message(), "Invalid hotkey: x");
    assert_eq!(ConfigError::NoConfigDir.message(), "Config directory not found");
}
