use railway_exporter::pricing::{calculate_cost, get_price, PricingConfig};

// Prices are in nano-dollars per unit: $0.000231 is 231_000.
// Quantities are in thousandths of a unit: 1000 units is 1_000_000.
// Costs are in pico-dollars: $0.231 is 231_000_000_000.

#[test]
fn test_get_price_pro_cpu() {
    assert_eq!(get_price("pro", "CPU_USAGE"), 231_000);
}

#[test]
fn test_get_price_hobby_cpu() {
    assert_eq!(get_price("hobby", "CPU_USAGE"), 463_000);
}

#[test]
fn test_get_price_pro_memory() {
    assert_eq!(get_price("pro", "MEMORY_USAGE_GB"), 116_000);
}

#[test]
fn test_get_price_hobby_memory() {
    assert_eq!(get_price("hobby", "MEMORY_USAGE_GB"), 231_000);
}

#[test]
fn test_get_price_disk_same_for_all_plans() {
    assert_eq!(get_price("pro", "DISK_USAGE_GB"), 21_000);
    assert_eq!(get_price("hobby", "DISK_USAGE_GB"), 21_000);
}

#[test]
fn test_get_price_network_tx() {
    assert_eq!(get_price("pro", "NETWORK_TX_GB"), 100_000_000);
    assert_eq!(get_price("hobby", "NETWORK_TX_GB"), 100_000_000);
}

#[test]
fn test_get_price_unknown_measurement() {
    assert_eq!(get_price("pro", "UNKNOWN"), 0);
}

#[test]
fn test_get_price_case_insensitive_plan() {
    assert_eq!(get_price("PRO", "CPU_USAGE"), 231_000);
    assert_eq!(get_price("Pro", "CPU_USAGE"), 231_000);
}

#[test]
fn test_pricing_config_default_prices() {
    let config = PricingConfig::new("pro");
    assert_eq!(config.get_price("CPU_USAGE"), 231_000);
    assert_eq!(config.get_price("MEMORY_USAGE_GB"), 116_000);
}

#[test]
fn test_pricing_config_custom_override() {
    let mut config = PricingConfig::new("pro");
    config.set_price("CPU_USAGE", 500_000);
    assert_eq!(config.get_price("CPU_USAGE"), 500_000);
    assert_eq!(config.get_price("MEMORY_USAGE_GB"), 116_000);
    config.set_price("CPU_USAGE", 600_000);
    assert_eq!(config.get_price("CPU_USAGE"), 600_000);
}

#[test]
fn test_pricing_config_plan() {
    let config = PricingConfig::new("Pro");
    assert_eq!(config.plan(), "pro");

    let config_hobby = PricingConfig::new("HOBBY");
    assert_eq!(config_hobby.plan(), "hobby");
}

#[test]
fn test_calculate_cost_empty() {
    let usage: Vec<(String, u64)> = Vec::new();
    assert_eq!(calculate_cost("pro", &usage), 0);
}

#[test]
fn test_calculate_cost_single_measurement() {
    let usage = vec![("CPU_USAGE".to_string(), 1_000_000u64)];
    let cost = calculate_cost("pro", &usage);
    assert_eq!(cost, 231_000_000_000);
}

#[test]
fn test_calculate_cost_multiple_measurements() {
    let usage = vec![
        ("CPU_USAGE".to_string(), 1_000_000u64),
        ("MEMORY_USAGE_GB".to_string(), 1_000_000u64),
        ("DISK_USAGE_GB".to_string(), 1_000_000u64),
    ];
    let cost = calculate_cost("pro", &usage);
    let expected: u64 = 1_000_000 * 231_000 + 1_000_000 * 116_000 + 1_000_000 * 21_000;
    assert_eq!(cost, expected);
}

#[test]
fn test_hobby_is_more_expensive_than_pro() {
    let usage = vec![
        ("CPU_USAGE".to_string(), 1_000_000u64),
        ("MEMORY_USAGE_GB".to_string(), 1_000_000u64),
    ];
    let hobby_cost = calculate_cost("hobby", &usage);
    let pro_cost = calculate_cost("pro", &usage);
    assert!(hobby_cost > pro_cost);
}

#[test]
fn cost_is_capped_not_wrapped() {
    let usage = vec![("NETWORK_TX_GB".to_string(), u64::MAX)];
    assert_eq!(calculate_cost("pro", &usage), u64::MAX);
}

#[test]
fn cost_of_uses_overrides() {
    let mut p = PricingConfig::new("hobby");
    p.set_price("CPU_USAGE", 10);
    let items = vec![("CPU_USAGE".to_string(), 3u64), ("NETWORK_RX_GB".to_string(), 5u64)];
    assert_eq!(p.cost_of(&items), 30);
}
