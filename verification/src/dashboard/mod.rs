//! The dashboard's configuration, its shared state, and the bug reports and
//! campaign states it shows.
use crate::clock::instant_now;
use crate::text::owned;
use std::time::Instant;
use vstd::prelude::*;

verus! {

/// Where and how the dashboard serves.
#[derive(Debug, Clone)]
pub struct DashboardConfig {
    pub host: String,
    pub port: u16,
    pub enable_cors: bool,
    pub static_dir: String,
}

impl DashboardConfig {
    /// The default: `127.0.0.1:8080`, cross-origin requests allowed, static
    /// files from `static`.
    pub fn new() -> (c: Self)
        ensures
            c.host@ == "127.0.0.1"@,
            c.port == 8080,
            c.enable_cors,
            c.static_dir@ == "static"@,
    {
        DashboardConfig {
            host: owned("127.0.0.1"),
            port: 8080,
            enable_cors: true,
            static_dir: owned("static"),
        }
    }

    /// The configuration with another port, all else kept.
    pub fn with_port(self, port: u16) -> (c: Self)
        ensures
            c == (DashboardConfig { port, ..self }),
    {
        let mut c = self;
        c.port = port;
        c
    }

    /// The configuration with another host, all else kept.
    pub fn with_host(self, host: String) -> (c: Self)
        ensures
            c == (DashboardConfig { host, ..self }),
    {
        let mut c = self;
        c.host = host;
        c
    }
}

impl Default for DashboardConfig {
    fn default() -> (c: Self)
        ensures
            c.host@ == "127.0.0.1"@,
            c.port == 8080,
            c.enable_cors,
            c.static_dir@ == "static"@,
    {
        DashboardConfig::new()
    }
}

/// Setting the port and then the host, or the other way round, gives the
/// same configuration, with both set and all else kept.
pub proof fn lemma_with_port_host_commute(c: DashboardConfig, port: u16, host: String)
    ensures
        (DashboardConfig { host, ..DashboardConfig { port, ..c } }) == (DashboardConfig {
            port,
            ..DashboardConfig { host, ..c }
        }),
{
}

/// The state of a campaign.
#[derive(Debug, Clone, Copy, PartialEq, Eq, Structural)]
pub enum CampaignStatus {
    Running,
    Paused,
    Completed,
    Failed,
}

/// A bug as the dashboard shows it.
#[derive(Debug, Clone)]
pub struct BugReport {
    pub id: String,
    pub campaign_id: String,
    pub bug_type: String,
    pub severity: BugSeverity,
    pub description: String,
    pub input_data: Vec<u8>,
    pub timestamp: String,
}

/// How serious a bug is.
#[derive(Debug, Clone, Copy, PartialEq, Eq, Structural)]
pub enum BugSeverity {
    Low,
    Medium,
    High,
    Critical,
}

/// The state the dashboard's handlers share.
#[derive(Debug, Clone)]
pub struct AppState {
    pub config: DashboardConfig,
    pub start_time: Instant,
}

impl AppState {
    /// The state for a configuration, started now.
    pub fn new(config: DashboardConfig) -> (s: Self)
        ensures
            s.config == config,
    {
        AppState { config, start_time: instant_now() }
    }
}

} // verus!
