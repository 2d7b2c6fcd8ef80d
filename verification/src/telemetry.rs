//! Telemetry configuration for weaver services.
//!
//! Names the service, the optional Loki push endpoint and the console log
//! level; reading the environment and installing the subscribers is left to
//! the program that runs the service.
use vstd::prelude::*;

verus! {

/// Severity of a log line, from most to least verbose.
#[derive(Debug, Clone, Copy, PartialEq, Eq, Structural)]
pub enum LogLevel {
    Trace,
    Debug,
    Info,
    Warn,
    Error,
}

impl LogLevel {
    /// The level's name, in capitals.
    pub fn as_str(&self) -> (r: &'static str)
        ensures
            r@ == match self {
                LogLevel::Trace => "TRACE"@,
                LogLevel::Debug => "DEBUG"@,
                LogLevel::Info => "INFO"@,
                LogLevel::Warn => "WARN"@,
                LogLevel::Error => "ERROR"@,
            },
    {
        match self {
            LogLevel::Trace => "TRACE",
            LogLevel::Debug => "DEBUG",
            LogLevel::Info => "INFO",
            LogLevel::Warn => "WARN",
            LogLevel::Error => "ERROR",
        }
    }
}

/// Telemetry configuration
#[derive(Debug, Clone)]
pub struct TelemetryConfig {
    /// Service name for labeling (e.g., "weaver-index", "weaver-app")
    pub service_name: String,
    /// Loki push URL (e.g., "http://localhost:3100"). None disables Loki.
    pub loki_url: Option<String>,
    /// Console log level (default: INFO, DEBUG in debug builds)
    pub console_level: LogLevel,
}

impl TelemetryConfig {
    /// Configuration from what the environment gives: the `LOKI_URL`
    /// setting, and whether this is a debug build (console level DEBUG,
    /// else INFO).
    pub fn from_settings(service_name: String, loki_url: Option<String>, debug_build: bool) -> (r:
        Self)
        ensures
            r.service_name == service_name,
            r.loki_url == loki_url,
            r.console_level == (if debug_build {
                LogLevel::Debug
            } else {
                LogLevel::Info
            }),
    {
        let console_level = if debug_build {
            LogLevel::Debug
        } else {
            LogLevel::Info
        };
        TelemetryConfig { service_name, loki_url, console_level }
    }

    /// Filter used when no filter is set in the environment: the console
    /// level's name in lower case.
    pub fn default_filter(&self) -> (r: &'static str)
        ensures
            r@ == match self.console_level {
                LogLevel::Trace => "trace"@,
                LogLevel::Debug => "debug"@,
                LogLevel::Info => "info"@,
                LogLevel::Warn => "warn"@,
                LogLevel::Error => "error"@,
            },
    {
        match self.console_level {
            LogLevel::Trace => "trace",
            LogLevel::Debug => "debug",
            LogLevel::Info => "info",
            LogLevel::Warn => "warn",
            LogLevel::Error => "error",
        }
    }
}

} // verus!
