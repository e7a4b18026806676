//! The snapshot published by each collection cycle, and the status and push
//! messages built around it.

use vstd::prelude::*;

verus! {

/// One service in a snapshot. Quantities are in thousandths of a unit,
/// money in pico-dollars.
#[derive(Debug, Clone)]
pub struct ServiceData {
    pub id: String,
    pub name: String,
    pub icon: String,
    pub group: String,
    pub cpu_usage: u64,
    pub memory_usage: u64,
    pub disk_usage: u64,
    pub network_tx: u64,
    pub cost_usd: u64,
    pub estimated_monthly_usd: u64,
    /// The service has usage but is no longer in the project's service list.
    pub is_deleted: bool,
}

/// Project totals of a snapshot, in pico-dollars.
#[derive(Debug, Clone)]
pub struct ProjectSummary {
    pub name: String,
    pub current_usage_usd: u64,
    pub estimated_monthly_usd: u64,
    pub daily_average_usd: u64,
    pub days_elapsed: u32,
    pub days_remaining: u32,
}

/// One complete, immutable result of a collection cycle.
#[derive(Debug, Clone)]
pub struct MetricsJson {
    pub project: ProjectSummary,
    pub services: Vec<ServiceData>,
    /// Unix time of the cycle, in seconds.
    pub scrape_timestamp: i64,
    pub scrape_duration_millis: u64,
}

/// A message on the push channel.
#[derive(Debug, Clone)]
pub enum WsMessage {
    Metrics(MetricsJson),
    Status(WsStatus),
}

/// Status heartbeat of the push channel.
#[derive(Debug, Clone)]
pub struct WsStatus {
    pub uptime_seconds: u64,
    pub api: ApiStatus,
    pub ws_clients: u32,
}

/// Which endpoints are served.
#[derive(Debug, Clone, Copy)]
pub struct EndpointStatus {
    pub prometheus: bool,
    pub json: bool,
    pub websocket: bool,
    pub health: bool,
}

/// Scrape bookkeeping as reported to clients.
#[derive(Debug, Clone)]
pub struct ApiStatus {
    pub last_success: Option<i64>,
    pub last_error: Option<String>,
    pub total_scrapes: u64,
    pub failed_scrapes: u64,
}

/// The endpoints served: all of them, the push channel when enabled.
pub fn endpoint_status(websocket_enabled: bool) -> (r: EndpointStatus)
    ensures
        r.prometheus && r.json && r.health,
        r.websocket == websocket_enabled,
{
    EndpointStatus { prometheus: true, json: true, websocket: websocket_enabled, health: true }
}

} // verus!
