//! Client configuration: global defaults, per-target overrides, and the
//! merge that resolves one target's effective settings before its retry
//! sequence starts.
use vstd::prelude::*;

verus! {

/// Default per-attempt receive timeout, in milliseconds.
pub const TIMEOUT: u64 = 2000;

/// Default number of send attempts per target.
pub const MAX_SEND_RETRIES: usize = 3;

/// Default service port of the responder.
pub const DEFAULT_PORT: u16 = 15;

/// Settings that apply to every target unless a target overrides them.
pub struct GlobalConfig {
    /// Per-attempt receive timeout, in milliseconds.
    pub timeout: u64,
    /// Number of send attempts per target.
    pub max_retries: usize,
    /// Whether the summary shows sessions that are no longer live.
    pub include_inactive: bool,
    /// Service port appended to a target endpoint that names none.
    pub port: u16,
    /// Label shown for sessions without an explicit remote origin.
    pub source: String,
}

/// One configured target: its endpoint and its overrides.
pub struct Server {
    /// Host name or address, with an optional embedded port.
    pub endpoint: String,
    /// Display label; the endpoint stands in when absent.
    pub label: Option<String>,
    /// Per-attempt receive timeout override, in milliseconds.
    pub timeout: Option<u64>,
    /// Send-attempt count override.
    pub max_retries: Option<usize>,
    /// Whether a failure of this target is skipped rather than aborting
    /// the whole run.
    pub failsafe: Option<bool>,
}

/// The whole client configuration.
pub struct Config {
    pub global: GlobalConfig,
    pub server: Vec<Server>,
}

impl Default for GlobalConfig {
    /// The built-in defaults: 2000 ms timeout, 3 attempts, inactive
    /// sessions shown, port 15, "Local" as the local-session label.
    fn default() -> (r: Self)
        ensures
            r.timeout == TIMEOUT,
            r.max_retries == MAX_SEND_RETRIES,
            r.include_inactive == true,
            r.port == DEFAULT_PORT,
            r.source@ == "Local"@,
    {
        GlobalConfig {
            timeout: TIMEOUT,
            max_retries: MAX_SEND_RETRIES,
            include_inactive: true,
            port: DEFAULT_PORT,
            source: "Local".to_owned(),
        }
    }
}

impl Default for Config {
    /// The built-in defaults and no targets.
    fn default() -> (r: Self)
        ensures
            r.global.timeout == TIMEOUT,
            r.global.max_retries == MAX_SEND_RETRIES,
            r.global.include_inactive == true,
            r.global.port == DEFAULT_PORT,
            r.global.source@ == "Local"@,
            r.server@.len() == 0,
    {
        Config { global: GlobalConfig::default(), server: Vec::new() }
    }
}

/// One target's effective settings, resolved once before its retry
/// sequence starts.
pub struct TargetSettings {
    /// Label attached to the target's decoded sessions.
    pub label: String,
    /// Per-attempt receive timeout, in milliseconds.
    pub timeout: u64,
    /// Number of send attempts.
    pub max_retries: usize,
    /// Whether this target's failure is skipped rather than aborting the
    /// run.
    pub failsafe: bool,
}

impl Server {
    /// Merges this target's overrides with the global defaults: each
    /// setting falls back to the global value, the label falls back to
    /// the endpoint, and failsafe is off unless the target asks for it.
    pub fn resolve_settings(&self, global: &GlobalConfig) -> (r: TargetSettings)
        ensures
            r.label@ == (match self.label {
                Some(l) => l@,
                None => self.endpoint@,
            }),
            r.timeout == (match self.timeout {
                Some(t) => t,
                None => global.timeout,
            }),
            r.max_retries == (match self.max_retries {
                Some(m) => m,
                None => global.max_retries,
            }),
            r.failsafe == (match self.failsafe {
                Some(f) => f,
                None => false,
            }),
    {
        let label: String = match &self.label {
            Some(l) => l.clone(),
            None => self.endpoint.clone(),
        };
        let timeout: u64 = match self.timeout {
            Some(t) => t,
            None => global.timeout,
        };
        let max_retries: usize = match self.max_retries {
            Some(m) => m,
            None => global.max_retries,
        };
        let failsafe: bool = match self.failsafe {
            Some(f) => f,
            None => false,
        };
        TargetSettings { label, timeout, max_retries, failsafe }
    }
}

} // verus!
