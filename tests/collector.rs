use railway_exporter::client::{EstimatedItem, UsageItem, UsageTags};
use railway_exporter::collector::{
    build_snapshot, days_in_current_month, estimate_by_measurement, resolve_group, service_ids,
    share_of, ScrapeClock, ServiceRecord,
};
use railway_exporter::config::ServiceGroup;
use railway_exporter::pricing::PricingConfig;

fn usage(sid: &str, m: &str, v: u64) -> UsageItem {
    UsageItem { measurement: m.to_string(), value: v, tags: UsageTags { service_id: sid.to_string() } }
}

fn estimate(m: &str, v: u64) -> EstimatedItem {
    EstimatedItem { measurement: m.to_string(), estimated_value: v }
}

fn record(id: &str, name: &str) -> ServiceRecord {
    ServiceRecord {
        id: id.to_string(),
        name: name.to_string(),
        icon: format!("https://icons.example/{}.png", name),
        group: "web".to_string(),
    }
}

fn clock() -> ScrapeClock {
    ScrapeClock { timestamp: 1_700_000_000, year: 2024, month: 2, day: 10 }
}

#[test]
fn test_days_in_january() {
    assert_eq!(days_in_current_month(2024, 1), 31);
    assert_eq!(days_in_current_month(2025, 1), 31);
}

#[test]
fn test_days_in_february_regular() {
    assert_eq!(days_in_current_month(2023, 2), 28);
    assert_eq!(days_in_current_month(2025, 2), 28);
}

#[test]
fn test_days_in_february_leap() {
    assert_eq!(days_in_current_month(2024, 2), 29);
    assert_eq!(days_in_current_month(2020, 2), 29);
}

#[test]
fn test_days_in_april() {
    assert_eq!(days_in_current_month(2024, 4), 30);
}

#[test]
fn test_days_in_december() {
    assert_eq!(days_in_current_month(2024, 12), 31);
}

#[test]
fn days_in_century_years() {
    assert_eq!(days_in_current_month(1900, 2), 28);
    assert_eq!(days_in_current_month(2000, 2), 29);
    assert_eq!(days_in_current_month(-4, 2), 29);
}

#[test]
fn cpu_cost_of_one_service_on_pro() {
    let pricing = PricingConfig::new("pro");
    let items = vec![usage("svc1", "CPU_USAGE", 1_000_000)];
    let s = build_snapshot("proj", &Vec::new(), &items, &Vec::new(), &pricing, &clock(), 1_700_000_000, 5);
    assert_eq!(s.services.len(), 1);
    assert_eq!(s.services[0].cost_usd, 231_000_000_000);
    assert_eq!(s.project.current_usage_usd, 231_000_000_000);
}

#[test]
fn zero_total_spreads_no_estimate() {
    let pricing = PricingConfig::new("pro");
    let items = vec![usage("a", "NETWORK_RX_GB", 9_000), usage("b", "CPU_USAGE", 0)];
    let est = vec![estimate("CPU_USAGE", 5_000_000)];
    let s = build_snapshot("proj", &Vec::new(), &items, &est, &pricing, &clock(), 1_700_000_000, 0);
    assert_eq!(s.project.current_usage_usd, 0);
    assert!(s.project.estimated_monthly_usd > 0);
    for svc in &s.services {
        assert_eq!(svc.estimated_monthly_usd, 0);
    }
    assert_eq!(share_of(123, 0, 0), 0);
}

#[test]
fn service_missing_from_list_is_deleted() {
    let pricing = PricingConfig::new("hobby");
    let records = vec![record("svc-1", "api")];
    let items = vec![usage("svc-1", "CPU_USAGE", 1_000), usage("gone", "CPU_USAGE", 2_000)];
    let s = build_snapshot("proj", &records, &items, &Vec::new(), &pricing, &clock(), 1_700_000_000, 0);
    assert_eq!(s.services.len(), 2);
    assert_eq!(s.services[0].name, "api");
    assert!(!s.services[0].is_deleted);
    assert_eq!(s.services[1].id, "gone");
    assert_eq!(s.services[1].name, "gone");
    assert_eq!(s.services[1].icon, "");
    assert_eq!(s.services[1].group, "ungrouped");
    assert!(s.services[1].is_deleted);
}

#[test]
fn snapshot_spreads_estimate_and_counts_days() {
    let pricing = PricingConfig::new("pro");
    let records = vec![record("a", "api"), record("b", "db")];
    let items = vec![
        usage("a", "CPU_USAGE", 1_000_000),
        usage("b", "CPU_USAGE", 3_000_000),
        usage("a", "MEMORY_USAGE_GB", 0),
    ];
    let est = vec![estimate("CPU_USAGE", 8_000_000), estimate("CPU_USAGE", 4_000_000)];
    let s = build_snapshot("proj", &records, &items, &est, &pricing, &clock(), 1_700_000_000, 42);
    let total = 4 * 231_000_000_000u64;
    assert_eq!(s.project.current_usage_usd, total);
    // the later estimate of a kind wins
    assert_eq!(s.project.estimated_monthly_usd, 4 * 231_000_000_000);
    assert_eq!(s.services[0].estimated_monthly_usd, 231_000_000_000);
    assert_eq!(s.services[1].estimated_monthly_usd, 3 * 231_000_000_000);
    assert_eq!(s.project.days_elapsed, 10);
    assert_eq!(s.project.days_remaining, 19);
    assert_eq!(s.project.daily_average_usd, total / 10);
    assert_eq!(s.scrape_timestamp, 1_700_000_000);
    assert_eq!(s.scrape_duration_millis, 42);
    assert_eq!(s.project.name, "proj");
}

#[test]
fn later_usage_report_wins() {
    let items = vec![usage("a", "CPU_USAGE", 1), usage("b", "CPU_USAGE", 2), usage("a", "CPU_USAGE", 3)];
    let ids = service_ids(&items);
    assert_eq!(ids, vec!["a".to_string(), "b".to_string()]);
    let pricing = PricingConfig::new("pro");
    let s = build_snapshot("p", &Vec::new(), &items, &Vec::new(), &pricing, &clock(), 1_700_000_000, 0);
    assert_eq!(s.services[0].cpu_usage, 3);
}

#[test]
fn estimate_pairs_keep_first_order_last_value() {
    let est = vec![estimate("A", 1), estimate("B", 2), estimate("A", 3)];
    let pairs = estimate_by_measurement(&est);
    assert_eq!(pairs, vec![("A".to_string(), 3), ("B".to_string(), 2)]);
}

#[test]
fn group_resolution_first_match_in_declaration_order() {
    let groups = vec![
        ServiceGroup { name: "monitoring".to_string(), patterns: vec!["grafana".to_string()] },
        ServiceGroup { name: "database".to_string(), patterns: vec!["postgres".to_string(), "graf".to_string()] },
    ];
    assert_eq!(resolve_group(&groups, "grafana-prod"), "monitoring");
    assert_eq!(resolve_group(&groups, "my-postgres"), "database");
    assert_eq!(resolve_group(&groups, "graf"), "database");
    assert_eq!(resolve_group(&groups, "redis"), "ungrouped");
    // the pattern must occur in the name, not the other way round
    assert_eq!(resolve_group(&groups, "post"), "ungrouped");
}
