//! Configuration: the plan, gzip and icon-cache settings, and the checks and
//! defaults applied to a parsed configuration file.

use vstd::prelude::*;
use base64::Engine;
use vstd::utf8::{decode_utf8, valid_utf8};
use crate::pricing::{
    PricingConfig, CPU_USAGE, DISK_USAGE_GB, MEMORY_USAGE_GB, NETWORK_TX_GB,
};
use crate::text::{lower_of, str_eq, to_lowercase};

verus! {

/// Pricing plan.
#[derive(Debug, Clone, Copy, PartialEq, Eq, Structural)]
pub enum Plan {
    /// Hobby plan, with the higher per-unit prices.
    Hobby,
    /// Pro plan, with the lower per-unit prices.
    Pro,
}

/// The lowercase name of a plan.
pub open spec fn plan_name(p: Plan) -> Seq<char> {
    match p {
        Plan::Hobby => "hobby"@,
        Plan::Pro => "pro"@,
    }
}

impl Default for Plan {
    fn default() -> (r: Plan)
        ensures
            r == Plan::Hobby,
    {
        Plan::Hobby
    }
}

impl Plan {
    /// The plan name, lowercase.
    pub fn as_str(&self) -> (r: &'static str)
        ensures
            r@ == plan_name(*self),
    {
        match self {
            Plan::Hobby => "hobby",
            Plan::Pro => "pro",
        }
    }

    /// Reads a plan name in any letter case.
    pub fn parse(s: &str) -> (r: Result<Plan, ConfigError>)
        ensures
            lower_of(s@) == "hobby"@ ==> r == Ok::<Plan, ConfigError>(Plan::Hobby),
            lower_of(s@) == "pro"@ ==> r == Ok::<Plan, ConfigError>(Plan::Pro),
            lower_of(s@) != "hobby"@ && lower_of(s@) != "pro"@ ==> (r matches Err(
                ConfigError::InvalidPlan(v),
            ) && v@ == s@),
    {
        proof {
            reveal_strlit("hobby");
            reveal_strlit("pro");
            assert("hobby"@[0] != "pro"@[0]);
        }
        let lower = to_lowercase(s);
        if str_eq(lower.as_str(), "hobby") {
            Ok(Plan::Hobby)
        } else if str_eq(lower.as_str(), "pro") {
            Ok(Plan::Pro)
        } else {
            Err(ConfigError::InvalidPlan(s.to_owned()))
        }
    }
}

impl std::str::FromStr for Plan {
    type Err = ConfigError;

    fn from_str(s: &str) -> Result<Plan, ConfigError> {
        Plan::parse(s)
    }
}

/// Gzip compression settings.
#[derive(Debug, Clone)]
pub struct GzipConfig {
    /// Compress responses at all.
    pub enabled: bool,
    /// Responses of at most this many bytes are sent as they are.
    pub min_size: usize,
    /// Compression level, 1 (fast) to 9 (small).
    pub level: u32,
}

/// Gzip is on unless configured off.
pub fn default_gzip_enabled() -> (r: bool)
    ensures
        r,
{
    true
}

/// Responses above 256 bytes are compressed unless configured otherwise.
pub fn default_gzip_min_size() -> (r: usize)
    ensures
        r == 256,
{
    256
}

/// The fastest compression level unless configured otherwise.
pub fn default_gzip_level() -> (r: u32)
    ensures
        r == 1,
{
    1
}

impl Default for GzipConfig {
    fn default() -> (r: GzipConfig)
        ensures
            r.enabled,
            r.min_size == 256,
            r.level == 1,
    {
        GzipConfig {
            enabled: default_gzip_enabled(),
            min_size: default_gzip_min_size(),
            level: default_gzip_level(),
        }
    }
}

/// How a service icon is delivered to clients.
#[derive(Debug, Clone, Copy, PartialEq, Eq, Structural)]
pub enum IconMode {
    /// Embedded in the payload as a base64 data URL.
    Base64,
    /// A link to the exporter's own icon endpoint.
    Link,
}

/// The configuration name of an icon mode.
pub open spec fn icon_mode_name(m: IconMode) -> Seq<char> {
    match m {
        IconMode::Base64 => "base64"@,
        IconMode::Link => "link"@,
    }
}

impl Default for IconMode {
    fn default() -> (r: IconMode)
        ensures
            r == IconMode::Base64,
    {
        IconMode::Base64
    }
}

impl IconMode {
    /// The configuration name of the mode.
    pub fn as_str(&self) -> (r: &'static str)
        ensures
            r@ == icon_mode_name(*self),
    {
        match self {
            IconMode::Base64 => "base64",
            IconMode::Link => "link",
        }
    }
}

/// Icon cache settings.
#[derive(Debug, Clone)]
pub struct IconCacheConfig {
    /// Resolve icons through the cache at all; when off, icon references are
    /// passed on as they are.
    pub enabled: bool,
    /// Most icons held at once (least recently used ones are evicted).
    pub max_count: usize,
    /// How icons are delivered.
    pub mode: IconMode,
    /// Browser cache lifetime, in seconds, of served icons.
    pub max_age: u32,
    /// Prefix put before icon links; empty for site-relative links.
    pub base_url: String,
}

/// Icon caching is on unless configured off.
pub fn default_icon_cache_enabled() -> (r: bool)
    ensures
        r,
{
    true
}

/// At most 200 cached icons unless configured otherwise.
pub fn default_icon_cache_max_count() -> (r: usize)
    ensures
        r == 200,
{
    200
}

/// Served icons may be cached by browsers for one day unless configured otherwise.
pub fn default_icon_cache_max_age() -> (r: u32)
    ensures
        r == 86400,
{
    86400
}

impl Default for IconCacheConfig {
    fn default() -> (r: IconCacheConfig)
        ensures
            r.enabled,
            r.max_count == 200,
            r.mode == IconMode::Base64,
            r.max_age == 86400,
            r.base_url@.len() == 0,
    {
        IconCacheConfig {
            enabled: default_icon_cache_enabled(),
            max_count: default_icon_cache_max_count(),
            mode: IconMode::Base64,
            max_age: default_icon_cache_max_age(),
            base_url: String::new(),
        }
    }
}

/// Configuration errors.
#[derive(Debug, Clone)]
pub enum ConfigError {
    /// A required value is missing; holds its key.
    MissingValue(String),
    /// A value could not be parsed; holds its key and the reason.
    ParseError(String, String),
    /// The configuration file could not be read.
    FileError(String),
    /// The configuration text is not valid YAML of the expected shape.
    YamlError(String),
    /// The base64-encoded configuration could not be decoded.
    Base64Error(String),
    /// The plan is neither "hobby" nor "pro"; holds the value given.
    InvalidPlan(String),
    /// A value is out of range or malformed.
    InvalidValue(String),
}

/// The human-readable text of a configuration error.
pub open spec fn config_error_text(e: ConfigError) -> Seq<char> {
    match e {
        ConfigError::MissingValue(k) => "Missing required config: "@ + k@,
        ConfigError::ParseError(k, m) => "Failed to parse "@ + k@ + ": "@ + m@,
        ConfigError::FileError(m) => "Config file error: "@ + m@,
        ConfigError::YamlError(m) => "YAML parse error: "@ + m@,
        ConfigError::Base64Error(m) => "Base64 decode error: "@ + m@,
        ConfigError::InvalidPlan(v) => "Invalid plan '"@ + v@ + "': must be 'hobby' or 'pro'"@,
        ConfigError::InvalidValue(m) => "Invalid value: "@ + m@,
    }
}

impl ConfigError {
    /// The human-readable text of the error.
    pub fn message(&self) -> (r: String)
        ensures
            r@ == config_error_text(*self),
    {
        match self {
            ConfigError::MissingValue(k) => String::from_str("Missing required config: ").concat(
                k.as_str(),
            ),
            ConfigError::ParseError(k, m) => String::from_str("Failed to parse ").concat(
                k.as_str(),
            ).concat(": ").concat(m.as_str()),
            ConfigError::FileError(m) => String::from_str("Config file error: ").concat(m.as_str()),
            ConfigError::YamlError(m) => String::from_str("YAML parse error: ").concat(m.as_str()),
            ConfigError::Base64Error(m) => String::from_str("Base64 decode error: ").concat(
                m.as_str(),
            ),
            ConfigError::InvalidPlan(v) => String::from_str("Invalid plan '").concat(
                v.as_str(),
            ).concat("': must be 'hobby' or 'pro'"),
            ConfigError::InvalidValue(m) => String::from_str("Invalid value: ").concat(m.as_str()),
        }
    }
}

/// The default upstream GraphQL endpoint.
pub const DEFAULT_API_URL: &'static str = "https://backboard.railway.app/graphql/v2";

/// Price overrides for egress.
#[derive(Debug, Clone, Copy, Default)]
pub struct NetworkPricing {
    /// Egress price, in nano-dollars per GB.
    pub tx: Option<u64>,
}

/// Price overrides of one plan, in nano-dollars per unit.
#[derive(Debug, Clone, Copy, Default)]
pub struct PriceValues {
    pub cpu: Option<u64>,
    pub memory: Option<u64>,
    pub disk: Option<u64>,
    pub network: Option<NetworkPricing>,
}

/// Price overrides under a plan name.
#[derive(Debug, Clone)]
pub struct PricingEntry {
    pub name: String,
    pub price: PriceValues,
}

/// A named group of services: a service belongs to it when one of the
/// patterns occurs in its name.
#[derive(Debug, Clone)]
pub struct ServiceGroup {
    pub name: String,
    pub patterns: Vec<String>,
}

/// A configuration file as parsed, before checks and defaults.
#[derive(Debug, Clone)]
pub struct YamlConfig {
    pub railway_api_token: Option<String>,
    pub railway_project_id: Option<String>,
    pub railway_plan: Option<Plan>,
    pub railway_api_url: Option<String>,
    pub port: Option<u16>,
    pub scrape_interval: Option<u16>,
    pub pricing: Option<Vec<PricingEntry>>,
    /// Groups in the order the file declares them.
    pub service_groups: Option<Vec<ServiceGroup>>,
    pub project_name: Option<String>,
    pub cors_enabled: Option<bool>,
    pub websocket_enabled: Option<bool>,
    pub gzip: Option<GzipConfig>,
    pub icon_cache: Option<IconCacheConfig>,
}

/// Exporter configuration.
#[derive(Debug, Clone)]
pub struct Config {
    pub api_token: String,
    pub project_id: String,
    pub plan: Plan,
    /// Seconds between collection cycles.
    pub scrape_interval: u16,
    pub port: u16,
    pub api_url: String,
    /// Prices used for cost figures.
    pub pricing: PricingConfig,
    /// The price overrides that the file gave for the plan, as reported.
    pub pricing_values: PriceValues,
    /// Service groups, in declaration order; the first that matches wins.
    pub service_groups: Vec<ServiceGroup>,
    pub project_name: String,
    pub cors_enabled: bool,
    pub websocket_enabled: bool,
    pub gzip: GzipConfig,
    pub icon_cache: IconCacheConfig,
}

/// The price overrides of the first entry named (in any case) after `plan`.
pub open spec fn first_match(entries: Seq<PricingEntry>, plan: Plan) -> Option<PriceValues>
    decreases entries.len(),
{
    if entries.len() == 0 {
        None
    } else if lower_of(entries[0].name@) == plan_name(plan) {
        Some(entries[0].price)
    } else {
        first_match(entries.drop_first(), plan)
    }
}

/// The price overrides that a parsed file gives for `plan`.
pub open spec fn overrides_for(y: YamlConfig, plan: Plan) -> Option<PriceValues> {
    match y.pricing {
        Some(entries) => first_match(entries@, plan),
        None => None,
    }
}

/// The egress override of a set of price overrides.
pub open spec fn tx_override(pv: PriceValues) -> Option<u64> {
    match pv.network {
        Some(n) => n.tx,
        None => None,
    }
}

/// `o`'s value, else `d`.
pub open spec fn or_default(o: Option<u64>, d: u64) -> u64 {
    match o {
        Some(v) => v,
        None => d,
    }
}

/// The scrape interval a parsed file asks for (300 s when absent).
pub open spec fn interval_of(y: YamlConfig) -> int {
    match y.scrape_interval {
        Some(v) => v as int,
        None => 300,
    }
}

/// The gzip level a parsed file asks for (1 when absent).
pub open spec fn gzip_level_of(y: YamlConfig) -> int {
    match y.gzip {
        Some(g) => g.level as int,
        None => 1,
    }
}

/// Whether `r` is the error `InvalidValue` with text `msg`.
pub open spec fn is_invalid_value(r: Result<Config, ConfigError>, msg: Seq<char>) -> bool {
    r matches Err(ConfigError::InvalidValue(m)) && m@ == msg
}

/// Whether `r` is the error `MissingValue` for `key`.
pub open spec fn is_missing(r: Result<Config, ConfigError>, key: Seq<char>) -> bool {
    r matches Err(ConfigError::MissingValue(k)) && k@ == key
}

/// Whether a parsed file passes every check.
pub open spec fn yaml_acceptable(y: YamlConfig) -> bool {
    y.railway_api_token.is_some() && y.railway_project_id.is_some() && 60 <= interval_of(y) <= 3600
        && 1 <= gzip_level_of(y) <= 9
}

/// The prices of `pricing` are those of `plan` with the overrides of `pv`.
pub open spec fn prices_follow(pricing: PricingConfig, plan: Plan, pv: PriceValues) -> bool {
    &&& pricing.wf()
    &&& pricing.plan_name() == plan_name(plan)
    &&& pricing.price_of(CPU_USAGE@) == or_default(pv.cpu, crate::pricing::default_price(
        plan_name(plan),
        CPU_USAGE@,
    ))
    &&& pricing.price_of(MEMORY_USAGE_GB@) == or_default(pv.memory, crate::pricing::default_price(
        plan_name(plan),
        MEMORY_USAGE_GB@,
    ))
    &&& pricing.price_of(DISK_USAGE_GB@) == or_default(pv.disk, crate::pricing::default_price(
        plan_name(plan),
        DISK_USAGE_GB@,
    ))
    &&& pricing.price_of(NETWORK_TX_GB@) == or_default(tx_override(pv), crate::pricing::default_price(
        plan_name(plan),
        NETWORK_TX_GB@,
    ))
    &&& forall|m: Seq<char>|
        m != CPU_USAGE@ && m != MEMORY_USAGE_GB@ && m != DISK_USAGE_GB@ && m != NETWORK_TX_GB@
            ==> #[trigger] pricing.price_of(m) == crate::pricing::default_price(plan_name(plan), m)
}

/// Prices of a plan: the built-in ones, with the overrides of `pv`.
fn plan_pricing(plan: Plan, pv: &PriceValues) -> (r: PricingConfig)
    ensures
        prices_follow(r, plan, *pv),
{
    proof {
        reveal_strlit("hobby");
        reveal_strlit("pro");
    }
    let name = plan.as_str();
    assert(forall|i: int| 0 <= i < name@.len() ==> 'a' <= #[trigger] name@[i] <= 'z');
    let mut pricing = PricingConfig::new(name);
    if let Some(cpu) = pv.cpu {
        pricing.set_price(CPU_USAGE, cpu);
    }
    if let Some(memory) = pv.memory {
        pricing.set_price(MEMORY_USAGE_GB, memory);
    }
    if let Some(disk) = pv.disk {
        pricing.set_price(DISK_USAGE_GB, disk);
    }
    if let Some(network) = &pv.network {
        if let Some(tx) = network.tx {
            pricing.set_price(NETWORK_TX_GB, tx);
        }
    }
    proof {
        reveal_strlit("CPU_USAGE");
        reveal_strlit("MEMORY_USAGE_GB");
        reveal_strlit("DISK_USAGE_GB");
        reveal_strlit("NETWORK_TX_GB");
        assert(CPU_USAGE@[0] != MEMORY_USAGE_GB@[0]);
        assert(CPU_USAGE@[0] != DISK_USAGE_GB@[0]);
        assert(CPU_USAGE@[0] != NETWORK_TX_GB@[0]);
        assert(MEMORY_USAGE_GB@[0] != DISK_USAGE_GB@[0]);
        assert(MEMORY_USAGE_GB@[0] != NETWORK_TX_GB@[0]);
        assert(DISK_USAGE_GB@[0] != NETWORK_TX_GB@[0]);
    }
    pricing
}

/// The price overrides of the first entry named (in any case) after `plan`.
fn find_plan_entry(entries: &Vec<PricingEntry>, plan: Plan) -> (r: Option<PriceValues>)
    ensures
        r == first_match(entries@, plan),
{
    let n = entries.len();
    let mut i: usize = 0;
    assert(entries@.subrange(0, n as int) =~= entries@);
    while i < n
        invariant
            n == entries.len(),
            0 <= i <= n,
            first_match(entries@, plan) == first_match(entries@.subrange(i as int, n as int), plan),
        decreases n - i,
    {
        let ghost rest = entries@.subrange(i as int, n as int);
        assert(rest.drop_first() =~= entries@.subrange(i + 1, n as int));
        let lower = to_lowercase(entries[i].name.as_str());
        if str_eq(lower.as_str(), plan.as_str()) {
            return Some(entries[i].price);
        }
        i += 1;
    }
    None
}

impl Config {
    /// A configuration with the given values and every other setting at its
    /// default.
    pub fn new(api_token: &str, project_id: &str, plan: Plan, scrape_interval: u16, port: u16) -> (r:
        Config)
        ensures
            r.api_token@ == api_token@,
            r.project_id@ == project_id@,
            r.plan == plan,
            r.scrape_interval == scrape_interval,
            r.port == port,
            r.api_url@ == DEFAULT_API_URL@,
            prices_follow(r.pricing, plan, PriceValues { cpu: None, memory: None, disk: None, network: None }),
            r.service_groups@.len() == 0,
            r.project_name@ == project_id@,
            r.cors_enabled,
            r.websocket_enabled,
            r.gzip.enabled && r.gzip.min_size == 256 && r.gzip.level == 1,
            r.icon_cache.enabled && r.icon_cache.max_count == 200 && r.icon_cache.mode
                == IconMode::Base64 && r.icon_cache.max_age == 86400,
    {
        let pv = PriceValues { cpu: None, memory: None, disk: None, network: None };
        Config {
            api_token: api_token.to_owned(),
            project_id: project_id.to_owned(),
            plan,
            scrape_interval,
            port,
            api_url: DEFAULT_API_URL.to_owned(),
            pricing: plan_pricing(plan, &pv),
            pricing_values: pv,
            service_groups: Vec::new(),
            project_name: project_id.to_owned(),
            cors_enabled: true,
            websocket_enabled: true,
            gzip: GzipConfig::default(),
            icon_cache: IconCacheConfig::default(),
        }
    }

    /// Applies the checks and defaults to a parsed configuration file.
    ///
    /// Errors, in the order they are checked: a missing token, a missing
    /// project id, a scrape interval under 60 s or over 3600 s, a gzip level
    /// outside 1 to 9. Defaults: plan hobby, interval 300 s, port 9090, the
    /// default endpoint, no groups, the project id as project name, CORS and
    /// the push channel on, default gzip and icon-cache settings. The price
    /// overrides are those of the first pricing entry named after the plan.
    pub fn from_yaml(y: YamlConfig) -> (r: Result<Config, ConfigError>)
        ensures
            y.railway_api_token.is_none() ==> is_missing(r, "railway_api_token"@),
            y.railway_api_token.is_some() && y.railway_project_id.is_none() ==> is_missing(
                r,
                "railway_project_id"@,
            ),
            y.railway_api_token.is_some() && y.railway_project_id.is_some() && interval_of(y) < 60
                ==> is_invalid_value(r, "scrape_interval must be at least 60 seconds"@),
            y.railway_api_token.is_some() && y.railway_project_id.is_some() && interval_of(y) > 3600
                ==> is_invalid_value(r, "scrape_interval must be at most 3600 seconds"@),
            y.railway_api_token.is_some() && y.railway_project_id.is_some() && 60 <= interval_of(y)
                <= 3600 && !(1 <= gzip_level_of(y) <= 9) ==> is_invalid_value(
                r,
                "gzip.level must be between 1 and 9"@,
            ),
            yaml_acceptable(y) <==> r is Ok,
            r matches Ok(c) ==> {
                let plan = match y.railway_plan {
                    Some(p) => p,
                    None => Plan::Hobby,
                };
                let pv = match overrides_for(y, plan) {
                    Some(pv) => pv,
                    None => PriceValues { cpu: None, memory: None, disk: None, network: None },
                };
                &&& Some(c.api_token) == y.railway_api_token
                &&& Some(c.project_id) == y.railway_project_id
                &&& c.plan == plan
                &&& c.scrape_interval == interval_of(y)
                &&& c.port == (match y.port {
                    Some(p) => p,
                    None => 9090,
                })
                &&& c.api_url@ == (match y.railway_api_url {
                    Some(u) => u@,
                    None => DEFAULT_API_URL@,
                })
                &&& prices_follow(c.pricing, plan, pv)
                &&& c.pricing_values == pv
                &&& c.service_groups@ == (match y.service_groups {
                    Some(g) => g@,
                    None => Seq::<ServiceGroup>::empty(),
                })
                &&& c.project_name == (match y.project_name {
                    Some(n) => n,
                    None => c.project_id,
                })
                &&& c.cors_enabled == (match y.cors_enabled {
                    Some(b) => b,
                    None => true,
                })
                &&& c.websocket_enabled == (match y.websocket_enabled {
                    Some(b) => b,
                    None => true,
                })
                &&& (match y.gzip {
                    Some(g) => c.gzip == g,
                    None => c.gzip.enabled && c.gzip.min_size == 256 && c.gzip.level == 1,
                })
                &&& (match y.icon_cache {
                    Some(ic) => c.icon_cache == ic,
                    None => c.icon_cache.enabled && c.icon_cache.max_count == 200
                        && c.icon_cache.mode == IconMode::Base64 && c.icon_cache.max_age == 86400
                        && c.icon_cache.base_url@.len() == 0,
                })
            },
    {
        let api_token = match y.railway_api_token {
            Some(t) => t,
            None => {
                return Err(ConfigError::MissingValue("railway_api_token".to_owned()));
            },
        };
        let project_id = match y.railway_project_id {
            Some(p) => p,
            None => {
                return Err(ConfigError::MissingValue("railway_project_id".to_owned()));
            },
        };
        let plan = match y.railway_plan {
            Some(p) => p,
            None => Plan::Hobby,
        };
        let scrape_interval: u16 = match y.scrape_interval {
            Some(v) => v,
            None => 300,
        };
        if scrape_interval < 60 {
            return Err(
                ConfigError::InvalidValue("scrape_interval must be at least 60 seconds".to_owned()),
            );
        }
        if scrape_interval > 3600 {
            return Err(
                ConfigError::InvalidValue("scrape_interval must be at most 3600 seconds".to_owned()),
            );
        }
        let port: u16 = match y.port {
            Some(p) => p,
            None => 9090,
        };
        let api_url = match y.railway_api_url {
            Some(u) => u,
            None => DEFAULT_API_URL.to_owned(),
        };
        let found = match &y.pricing {
            Some(entries) => find_plan_entry(entries, plan),
            None => None,
        };
        let pricing_values = match found {
            Some(pv) => pv,
            None => PriceValues { cpu: None, memory: None, disk: None, network: None },
        };
        let pricing = plan_pricing(plan, &pricing_values);
        let service_groups = match y.service_groups {
            Some(g) => g,
            None => Vec::new(),
        };
        let project_name = match y.project_name {
            Some(n) => n,
            None => project_id.clone(),
        };
        let cors_enabled = match y.cors_enabled {
            Some(b) => b,
            None => true,
        };
        let websocket_enabled = match y.websocket_enabled {
            Some(b) => b,
            None => true,
        };
        let gzip = match y.gzip {
            Some(g) => g,
            None => GzipConfig::default(),
        };
        if gzip.level < 1 || gzip.level > 9 {
            return Err(ConfigError::InvalidValue("gzip.level must be between 1 and 9".to_owned()));
        }
        let icon_cache = match y.icon_cache {
            Some(ic) => ic,
            None => IconCacheConfig::default(),
        };
        Ok(
            Config {
                api_token,
                project_id,
                plan,
                scrape_interval,
                port,
                api_url,
                pricing,
                pricing_values,
                service_groups,
                project_name,
                cors_enabled,
                websocket_enabled,
                gzip,
                icon_cache,
            },
        )
    }
}

/// What base64 decoding yields for a text: the bytes, or nothing where the
/// text is not valid standard base64.
pub uninterp spec fn base64_decoded(s: Seq<char>) -> Option<Seq<u8>>;

/// Relies on `base64::engine::general_purpose::STANDARD.decode`: the decoded
/// bytes, or its error message where the text is not valid standard base64.
#[verifier::external_body]
fn decode_base64(s: &str) -> (r: Result<Vec<u8>, String>)
    ensures
        match r {
            Ok(b) => base64_decoded(s@) == Some(b@),
            Err(_) => base64_decoded(s@).is_none(),
        },
{
    base64::engine::general_purpose::STANDARD.decode(s).map_err(|e| e.to_string())
}

/// Relies on `String::from_utf8` (std): the text when the bytes are valid
/// UTF-8, else its error message.
#[verifier::external_body]
fn utf8_text(b: Vec<u8>) -> (r: Result<String, String>)
    ensures
        match r {
            Ok(s) => valid_utf8(b@) && s@ == decode_utf8(b@),
            Err(_) => !valid_utf8(b@),
        },
{
    String::from_utf8(b).map_err(|e| e.to_string())
}

/// The configuration text carried base64-encoded (as in an environment
/// variable): the decoded text, or `Base64Error` when the value is not valid
/// base64 or does not decode to UTF-8 text.
pub fn decode_config_text(b64: &str) -> (r: Result<String, ConfigError>)
    ensures
        match r {
            Ok(t) => exists|b: Seq<u8>|
                base64_decoded(b64@) == Some(b) && valid_utf8(b) && t@ == decode_utf8(b),
            Err(e) => e is Base64Error && (base64_decoded(b64@).is_none() || !valid_utf8(
                base64_decoded(b64@).unwrap(),
            )),
        },
{
    match decode_base64(b64) {
        Ok(bytes) => match utf8_text(bytes) {
            Ok(t) => Ok(t),
            Err(m) => Err(ConfigError::Base64Error(m)),
        },
        Err(m) => Err(ConfigError::Base64Error(m)),
    }
}

} // verus!
