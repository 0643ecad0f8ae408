//! Error types of the launcher, with their messages.

use vstd::prelude::*;

use crate::text::owned;

verus! {

/// The debug text of a duration, as `<Duration as Debug>::fmt` writes it
/// (such as `1.5s`); it depends on the duration alone.
pub uninterp spec fn duration_debug(d: std::time::Duration) -> Seq<char>;

/// The debug text of a duration.
///
/// Formats with `<Duration as Debug>::fmt`; the contract names the text
/// `duration_debug` of the duration.
#[verifier::external_body]
fn duration_text(d: &std::time::Duration) -> (r: String)
    ensures
        r@ == duration_debug(*d),
{
    format!("{:?}", d)
}

/// Backend errors, surfaced to the UI.
#[derive(Debug)]
pub enum BackendError {
    /// Lua script error.
    Lua(String),
    /// Plugin-specific error.
    Plugin { plugin: String, message: String },
    /// Lua runtime timeout.
    Timeout { duration: std::time::Duration },
    /// Lua runtime unavailable (e.g. not initialized).
    RuntimeUnavailable,
    /// Channel communication error.
    Channel(String),
}

/// Configuration errors.
#[derive(Debug)]
pub enum ConfigError {
    /// No config directory found.
    NoConfigDir,
    /// IO error.
    Io(String),
    /// Parse error.
    Parse(String),
    /// Invalid hotkey format.
    InvalidHotkey(String),
}

impl BackendError {
    /// The message of an error: for a timeout, its prefix followed by the
    /// duration's debug text.
    pub open spec fn message_spec(&self) -> Seq<char> {
        match self {
            BackendError::Lua(e) => "Lua error: "@ + e@,
            BackendError::Plugin { plugin, message } => "Plugin '"@ + plugin@ + "' error: "@ + message@,
            BackendError::Timeout { duration } => "Lua runtime timeout after "@ + duration_debug(*duration),
            BackendError::RuntimeUnavailable => "Lua runtime unavailable"@,
            BackendError::Channel(e) => "Channel error: "@ + e@,
        }
    }

    /// The error message.
    pub fn message(&self) -> (r: String)
        ensures
            r@ == self.message_spec(),
    {
        match self {
            BackendError::Lua(e) => {
                let mut s = owned("Lua error: ");
                s.append(e.as_str());
                s
            },
            BackendError::Plugin { plugin, message } => {
                let mut s = owned("Plugin '");
                s.append(plugin.as_str());
                s.append("' error: ");
                s.append(message.as_str());
                s
            },
            BackendError::Timeout { duration } => {
                let mut s = owned("Lua runtime timeout after ");
                let d = duration_text(duration);
                s.append(d.as_str());
                s
            },
            BackendError::RuntimeUnavailable => owned("Lua runtime unavailable"),
            BackendError::Channel(e) => {
                let mut s = owned("Channel error: ");
                s.append(e.as_str());
                s
            },
        }
    }
}

impl ConfigError {
    /// The error message.
    pub open spec fn message_spec(&self) -> Seq<char> {
        match self {
            ConfigError::NoConfigDir => "Config directory not found"@,
            ConfigError::Io(e) => "IO error: "@ + e@,
            ConfigError::Parse(e) => "Parse error: "@ + e@,
            ConfigError::InvalidHotkey(e) => "Invalid hotkey: "@ + e@,
        }
    }

    /// The error message.
    pub fn message(&self) -> (r: String)
        ensures
            r@ == self.message_spec(),
    {
        match self {
            ConfigError::NoConfigDir => owned("Config directory not found"),
            ConfigError::Io(e) => {
                let mut s = owned("IO error: ");
                s.append(e.as_str());
                s
            },
            ConfigError::Parse(e) => {
                let mut s = owned("Parse error: ");
                s.append(e.as_str());
                s
            },
            ConfigError::InvalidHotkey(e) => {
                let mut s = owned("Invalid hotkey: ");
                s.append(e.as_str());
                s
            },
        }
    }
}

} // verus!
