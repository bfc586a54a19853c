//! The server's settings and their defaults.

use vstd::prelude::*;

verus! {

/// All settings of the server.
#[derive(Debug, Clone)]
pub struct Config {
    pub server: ServerConfig,
    pub auth: AuthConfig,
    pub session: SessionConfig,
}

/// Where the server listens and how it treats connections.
#[derive(Debug, Clone)]
pub struct ServerConfig {
    pub host: String,
    pub port: u16,
    pub max_connections: usize,
    pub heartbeat_interval_secs: u64,
}

/// Settings of the authenticator.
#[derive(Debug, Clone)]
pub struct AuthConfig {
    pub jwt_secret: String,
    pub token_expiry_hours: i64,
    pub max_failed_attempts: u32,
    pub lockout_duration_mins: u32,
}

/// Limits on sessions.
#[derive(Debug, Clone, Copy, PartialEq, Eq, Structural)]
pub struct SessionConfig {
    pub max_sessions: usize,
    pub session_timeout_mins: u64,
    pub cleanup_interval_secs: u64,
}

/// Whether `config` holds the default settings.
pub open spec fn is_default_config(config: Config) -> bool {
    &&& config.server.host@ == "127.0.0.1"@
    &&& config.server.port == 8080
    &&& config.server.max_connections == 1000
    &&& config.server.heartbeat_interval_secs == 30
    &&& config.auth.jwt_secret@ == "your-secret-key-change-this-in-production"@
    &&& config.auth.token_expiry_hours == 24
    &&& config.auth.max_failed_attempts == 3
    &&& config.auth.lockout_duration_mins == 15
    &&& config.session == (SessionConfig {
        max_sessions: 100,
        session_timeout_mins: 60,
        cleanup_interval_secs: 300,
    })
}

impl Default for Config {
    fn default() -> (config: Config)
        ensures
            is_default_config(config),
    {
        Config {
            server: ServerConfig {
                host: "127.0.0.1".to_owned(),
                port: 8080,
                max_connections: 1000,
                heartbeat_interval_secs: 30,
            },
            auth: AuthConfig {
                jwt_secret: "your-secret-key-change-this-in-production".to_owned(),
                token_expiry_hours: 24,
                max_failed_attempts: 3,
                lockout_duration_mins: 15,
            },
            session: SessionConfig {
                max_sessions: 100,
                session_timeout_mins: 60,
                cleanup_interval_secs: 300,
            },
        }
    }
}

impl Config {
    /// The settings that a new configuration file starts with.
    pub fn create_default_config() -> (config: Config)
        ensures
            is_default_config(config),
    {
        Config::default()
    }
}

} // verus!
