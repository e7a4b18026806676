use railway_exporter::config::{
    decode_config_text, default_gzip_enabled, default_gzip_level, default_gzip_min_size,
    default_icon_cache_enabled, default_icon_cache_max_age, default_icon_cache_max_count, Config,
    ConfigError, GzipConfig, IconCacheConfig, IconMode, NetworkPricing, Plan, PriceValues,
    PricingEntry, ServiceGroup, YamlConfig, DEFAULT_API_URL,
};
use std::str::FromStr;

fn minimal_yaml() -> YamlConfig {
    YamlConfig {
        railway_api_token: Some("token".to_string()),
        railway_project_id: Some("project".to_string()),
        railway_plan: None,
        railway_api_url: None,
        port: None,
        scrape_interval: None,
        pricing: None,
        service_groups: None,
        project_name: None,
        cors_enabled: None,
        websocket_enabled: None,
        gzip: None,
        icon_cache: None,
    }
}

#[test]
fn test_plan_from_str() {
    assert_eq!(Plan::from_str("hobby").unwrap(), Plan::Hobby);
    assert_eq!(Plan::from_str("HOBBY").unwrap(), Plan::Hobby);
    assert_eq!(Plan::from_str("pro").unwrap(), Plan::Pro);
    assert_eq!(Plan::from_str("PRO").unwrap(), Plan::Pro);
    assert_eq!(Plan::from_str("Pro").unwrap(), Plan::Pro);
}

#[test]
fn test_plan_from_str_invalid() {
    let result = Plan::from_str("enterprise");
    assert!(result.is_err());
    match result.unwrap_err() {
        ConfigError::InvalidPlan(v) => assert_eq!(v, "enterprise"),
        _ => panic!("Expected InvalidPlan error"),
    }
}

#[test]
fn test_plan_display() {
    assert_eq!(format!("{}", Plan::Hobby.as_str()), "hobby");
    assert_eq!(format!("{}", Plan::Pro.as_str()), "pro");
}

#[test]
fn test_plan_as_str() {
    assert_eq!(Plan::Hobby.as_str(), "hobby");
    assert_eq!(Plan::Pro.as_str(), "pro");
}

#[test]
fn test_plan_default() {
    assert_eq!(Plan::default(), Plan::Hobby);
}

#[test]
fn test_config_new() {
    let config = Config::new("token", "project", Plan::Pro, 60, 8080);
    assert_eq!(config.api_token, "token");
    assert_eq!(config.project_id, "project");
    assert_eq!(config.plan, Plan::Pro);
    assert_eq!(config.scrape_interval, 60);
    assert_eq!(config.port, 8080);
    assert!(config.service_groups.is_empty());
}

#[test]
fn test_config_api_url() {
    let config = Config::new("t", "p", Plan::Hobby, 60, 8080);
    assert_eq!(config.api_url, "https://backboard.railway.app/graphql/v2");
}

#[test]
fn test_config_pricing_uses_plan() {
    let hobby = Config::new("t", "p", Plan::Hobby, 60, 8080);
    let pro = Config::new("t", "p", Plan::Pro, 60, 8080);
    assert!(pro.pricing.get_price("CPU_USAGE") < hobby.pricing.get_price("CPU_USAGE"));
}

#[test]
fn test_config_default_gzip() {
    let config = Config::new("t", "p", Plan::Hobby, 60, 8080);
    assert!(config.gzip.enabled);
    assert_eq!(config.gzip.min_size, 256);
    assert_eq!(config.gzip.level, 1);
}

#[test]
fn test_config_error_display() {
    let err = ConfigError::MissingValue("TEST".to_string());
    assert_eq!(format!("{}", err.message()), "Missing required config: TEST");

    let err = ConfigError::YamlError("invalid".to_string());
    assert_eq!(format!("{}", err.message()), "YAML parse error: invalid");

    let err = ConfigError::ParseError("PORT".to_string(), "not a number".to_string());
    assert_eq!(format!("{}", err.message()), "Failed to parse PORT: not a number");

    let err = ConfigError::FileError("not found".to_string());
    assert_eq!(format!("{}", err.message()), "Config file error: not found");

    let err = ConfigError::Base64Error("invalid".to_string());
    assert_eq!(format!("{}", err.message()), "Base64 decode error: invalid");

    let err = ConfigError::InvalidPlan("enterprise".to_string());
    assert_eq!(
        format!("{}", err.message()),
        "Invalid plan 'enterprise': must be 'hobby' or 'pro'"
    );
}

#[test]
fn config_error_invalid_value_text() {
    let err = ConfigError::InvalidValue("too small".to_string());
    assert_eq!(err.message(), "Invalid value: too small");
}

#[test]
fn test_gzip_config_default() {
    let gzip = GzipConfig::default();
    assert!(gzip.enabled);
    assert_eq!(gzip.min_size, 256);
    assert_eq!(gzip.level, 1);
}

#[test]
fn default_value_functions() {
    assert!(default_gzip_enabled());
    assert_eq!(default_gzip_min_size(), 256);
    assert_eq!(default_gzip_level(), 1);
    assert!(default_icon_cache_enabled());
    assert_eq!(default_icon_cache_max_count(), 200);
    assert_eq!(default_icon_cache_max_age(), 86400);
}

#[test]
fn icon_cache_config_defaults() {
    let ic = IconCacheConfig::default();
    assert!(ic.enabled);
    assert_eq!(ic.max_count, 200);
    assert_eq!(ic.mode, IconMode::Base64);
    assert_eq!(ic.max_age, 86400);
    assert_eq!(ic.base_url, "");
    assert_eq!(IconMode::Base64.as_str(), "base64");
    assert_eq!(IconMode::Link.as_str(), "link");
    assert_eq!(IconMode::default(), IconMode::Base64);
}

#[test]
fn from_yaml_applies_defaults() {
    let c = Config::from_yaml(minimal_yaml()).unwrap();
    assert_eq!(c.api_token, "token");
    assert_eq!(c.project_id, "project");
    assert_eq!(c.plan, Plan::Hobby);
    assert_eq!(c.scrape_interval, 300);
    assert_eq!(c.port, 9090);
    assert_eq!(c.api_url, DEFAULT_API_URL);
    assert_eq!(c.project_name, "project");
    assert!(c.cors_enabled);
    assert!(c.websocket_enabled);
    assert_eq!(c.gzip.level, 1);
    assert_eq!(c.pricing.get_price("CPU_USAGE"), 463_000);
}

#[test]
fn from_yaml_missing_token() {
    let mut y = minimal_yaml();
    y.railway_api_token = None;
    match Config::from_yaml(y) {
        Err(ConfigError::MissingValue(k)) => assert_eq!(k, "railway_api_token"),
        other => panic!("unexpected {:?}", other),
    }
}

#[test]
fn from_yaml_missing_project() {
    let mut y = minimal_yaml();
    y.railway_project_id = None;
    match Config::from_yaml(y) {
        Err(ConfigError::MissingValue(k)) => assert_eq!(k, "railway_project_id"),
        other => panic!("unexpected {:?}", other),
    }
}

#[test]
fn from_yaml_interval_bounds() {
    let mut y = minimal_yaml();
    y.scrape_interval = Some(59);
    match Config::from_yaml(y) {
        Err(ConfigError::InvalidValue(m)) => {
            assert_eq!(m, "scrape_interval must be at least 60 seconds")
        }
        other => panic!("unexpected {:?}", other),
    }
    let mut y = minimal_yaml();
    y.scrape_interval = Some(3601);
    match Config::from_yaml(y) {
        Err(ConfigError::InvalidValue(m)) => {
            assert_eq!(m, "scrape_interval must be at most 3600 seconds")
        }
        other => panic!("unexpected {:?}", other),
    }
    let mut y = minimal_yaml();
    y.scrape_interval = Some(60);
    assert!(Config::from_yaml(y).is_ok());
    let mut y = minimal_yaml();
    y.scrape_interval = Some(3600);
    assert!(Config::from_yaml(y).is_ok());
}

#[test]
fn from_yaml_gzip_level_checked() {
    for level in [0u32, 10] {
        let mut y = minimal_yaml();
        y.gzip = Some(GzipConfig { enabled: true, min_size: 256, level });
        match Config::from_yaml(y) {
            Err(ConfigError::InvalidValue(m)) => assert_eq!(m, "gzip.level must be between 1 and 9"),
            other => panic!("unexpected {:?}", other),
        }
    }
}

#[test]
fn from_yaml_pricing_overrides_for_plan() {
    let mut y = minimal_yaml();
    y.railway_plan = Some(Plan::Pro);
    y.pricing = Some(vec![
        PricingEntry {
            name: "hobby".to_string(),
            price: PriceValues { cpu: Some(1), memory: None, disk: None, network: None },
        },
        PricingEntry {
            name: "PRO".to_string(),
            price: PriceValues {
                cpu: Some(300_000),
                memory: None,
                disk: Some(5),
                network: Some(NetworkPricing { tx: Some(7) }),
            },
        },
    ]);
    y.service_groups = Some(vec![ServiceGroup {
        name: "db".to_string(),
        patterns: vec!["postgres".to_string()],
    }]);
    let c = Config::from_yaml(y).unwrap();
    assert_eq!(c.pricing.get_price("CPU_USAGE"), 300_000);
    assert_eq!(c.pricing.get_price("MEMORY_USAGE_GB"), 116_000);
    assert_eq!(c.pricing.get_price("DISK_USAGE_GB"), 5);
    assert_eq!(c.pricing.get_price("NETWORK_TX_GB"), 7);
    assert_eq!(c.pricing_values.cpu, Some(300_000));
    assert_eq!(c.service_groups.len(), 1);
}

#[test]
fn decode_config_text_round() {
    // "a: 1" in standard base64
    assert_eq!(decode_config_text("YTogMQ==").unwrap(), "a: 1");
    match decode_config_text("not base64!!") {
        Err(ConfigError::Base64Error(_)) => {}
        other => panic!("unexpected {:?}", other),
    }
    // 0xff is not UTF-8
    match decode_config_text("/w==") {
        Err(ConfigError::Base64Error(_)) => {}
        other => panic!("unexpected {:?}", other),
    }
}
