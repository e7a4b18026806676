//! One collection cycle: joining the service list with usage, pricing it,
//! spreading the month estimate, and the calendar figures of the summary.

use vstd::prelude::*;
use crate::client::{EstimatedItem, UsageItem};
use crate::config::ServiceGroup;
use crate::pricing::{
    add_capped, capped, cost_sum, lemma_capped_add, quantities_view, PricingConfig, CPU_USAGE,
    DISK_USAGE_GB, MEMORY_USAGE_GB, NETWORK_TX_GB,
};
use crate::text::{contains, has_infix, str_eq};
use crate::types::{MetricsJson, ProjectSummary, ServiceData};

verus! {

/// The group name of services that no configured group matches.
pub const UNGROUPED: &'static str = "ungrouped";

/// Whether one of `patterns` occurs in `name` (or equals it).
pub open spec fn pattern_hits(patterns: Seq<String>, name: Seq<char>) -> bool {
    exists|j: int|
        0 <= j < patterns.len() && (has_infix(name, #[trigger] patterns[j]@) || patterns[j]@ == name)
}

/// The group of the service named `name`: the first group, in declaration
/// order, one of whose patterns occurs in the name; else "ungrouped".
pub open spec fn group_of(groups: Seq<ServiceGroup>, name: Seq<char>) -> Seq<char>
    decreases groups.len(),
{
    if groups.len() == 0 {
        UNGROUPED@
    } else if pattern_hits(groups[0].patterns@, name) {
        groups[0].name@
    } else {
        group_of(groups.drop_first(), name)
    }
}

/// Whether one of `patterns` occurs in `name` (or equals it).
fn matches_any(patterns: &Vec<String>, name: &str) -> (r: bool)
    ensures
        r == pattern_hits(patterns@, name@),
{
    let n = patterns.len();
    let mut j: usize = 0;
    while j < n
        invariant
            n == patterns.len(),
            0 <= j <= n,
            forall|k: int|
                0 <= k < j ==> !(has_infix(name@, #[trigger] patterns@[k]@) || patterns@[k]@
                    == name@),
        decreases n - j,
    {
        let p = patterns[j].as_str();
        if contains(name, p) || str_eq(p, name) {
            return true;
        }
        j += 1;
    }
    false
}

/// The group of the service named `name` (see `group_of`).
pub fn resolve_group(groups: &Vec<ServiceGroup>, name: &str) -> (r: String)
    ensures
        r@ == group_of(groups@, name@),
{
    let n = groups.len();
    let mut i: usize = 0;
    assert(groups@.subrange(0, n as int) =~= groups@);
    while i < n
        invariant
            n == groups.len(),
            0 <= i <= n,
            group_of(groups@, name@) == group_of(groups@.subrange(i as int, n as int), name@),
        decreases n - i,
    {
        assert(groups@.subrange(i as int, n as int).drop_first() =~= groups@.subrange(
            i + 1,
            n as int,
        ));
        if matches_any(&groups[i].patterns, name) {
            return groups[i].name.clone();
        }
        i += 1;
    }
    UNGROUPED.to_owned()
}

/// Leap years of the Gregorian calendar.
pub open spec fn is_leap_year(year: int) -> bool {
    (year % 4 == 0 && year % 100 != 0) || year % 400 == 0
}

/// The number of days of `month` (1 to 12) of `year`.
pub open spec fn month_length(year: int, month: int) -> int {
    if month == 2 {
        if is_leap_year(year) {
            29
        } else {
            28
        }
    } else if month == 4 || month == 6 || month == 9 || month == 11 {
        30
    } else {
        31
    }
}

/// Divisibility does not depend on the sign.
proof fn lemma_divisible_negated(a: int, k: int)
    requires
        k > 0,
    ensures
        ((-a) % k == 0) == (a % k == 0),
{
    vstd::arithmetic::div_mod::lemma_fundamental_div_mod(a, k);
    vstd::arithmetic::div_mod::lemma_fundamental_div_mod(-a, k);
    if a % k == 0 {
        vstd::arithmetic::div_mod::lemma_mod_multiples_basic(-(a / k), k);
        assert(-a == -(a / k) * k) by (nonlinear_arith)
            requires
                a == k * (a / k),
        ;
    }
    if (-a) % k == 0 {
        vstd::arithmetic::div_mod::lemma_mod_multiples_basic(-((-a) / k), k);
        assert(a == -((-a) / k) * k) by (nonlinear_arith)
            requires
                -a == k * ((-a) / k),
        ;
    }
}

/// Whether `year` is a leap year.
fn leap_year(year: i32) -> (r: bool)
    ensures
        r == is_leap_year(year as int),
{
    let a: u64 = if year < 0 {
        (-(year as i64)) as u64
    } else {
        year as u64
    };
    proof {
        if year < 0 {
            lemma_divisible_negated(a as int, 4);
            lemma_divisible_negated(a as int, 100);
            lemma_divisible_negated(a as int, 400);
            assert(year as int == -(a as int));
        }
    }
    (a % 4 == 0 && a % 100 != 0) || a % 400 == 0
}

/// The number of days of `month` (1 to 12) of `year`.
pub fn days_in_current_month(year: i32, month: u32) -> (r: u32)
    requires
        1 <= month <= 12,
    ensures
        r == month_length(year as int, month as int),
        28 <= r <= 31,
{
    if month == 2 {
        if leap_year(year) {
            29
        } else {
            28
        }
    } else if month == 4 || month == 6 || month == 9 || month == 11 {
        30
    } else {
        31
    }
}

/// The part of `estimated` that falls to a service costing `cost` out of
/// `total`: proportional to its cost, and nothing at all when the total is
/// zero.
pub open spec fn share(estimated: int, cost: int, total: int) -> int {
    if total == 0 {
        0
    } else {
        estimated * cost / total
    }
}

/// The part of `estimated` that falls to a service costing `cost` out of
/// `total` (see `share`).
pub fn share_of(estimated: u64, cost: u64, total: u64) -> (r: u64)
    requires
        cost <= total,
    ensures
        r == share(estimated as int, cost as int, total as int),
        r <= estimated,
{
    if total == 0 {
        return 0;
    }
    let prod: u128 = crate::pricing::mul_wide(estimated, cost);
    let q: u128 = prod / total as u128;
    proof {
        let e = estimated as int;
        let c = cost as int;
        let t = total as int;
        assert(e * c <= e * t) by (nonlinear_arith)
            requires
                0 <= e,
                0 <= c <= t,
        ;
        assert((e * c) / t <= e) by (nonlinear_arith)
            requires
                0 <= e * c <= e * t,
                0 < t,
        ;
    }
    q as u64
}

/// A service of the current service list, with its icon already resolved
/// and its group assigned.
#[derive(Debug, Clone)]
pub struct ServiceRecord {
    pub id: String,
    pub name: String,
    pub icon: String,
    pub group: String,
}

/// The clock reading of a cycle: Unix time, and the UTC date.
#[derive(Debug, Clone, Copy)]
pub struct ScrapeClock {
    pub timestamp: i64,
    pub year: i32,
    pub month: u32,
    pub day: u32,
}

impl ScrapeClock {
    /// The date is a real one.
    pub open spec fn wf(&self) -> bool {
        1 <= self.month <= 12 && 1 <= self.day <= month_length(self.year as int, self.month as int)
    }
}

/// The keys of `keys` without repeats, in order of first appearance.
pub open spec fn first_seen(keys: Seq<Seq<char>>) -> Seq<Seq<char>>
    decreases keys.len(),
{
    if keys.len() == 0 {
        Seq::empty()
    } else {
        let before = first_seen(keys.drop_last());
        if before.contains(keys.last()) {
            before
        } else {
            before.push(keys.last())
        }
    }
}

/// The views of a list of strings.
pub open spec fn strings_view(v: Seq<String>) -> Seq<Seq<char>> {
    v.map_values(|s: String| s@)
}

/// The service ids of usage measurements, in order.
pub open spec fn usage_ids(items: Seq<UsageItem>) -> Seq<Seq<char>> {
    items.map_values(|i: UsageItem| i.tags.service_id@)
}

/// The measurement kinds of estimate items, in order.
pub open spec fn estimate_kinds(items: Seq<EstimatedItem>) -> Seq<Seq<char>> {
    items.map_values(|i: EstimatedItem| i.measurement@)
}

/// The quantity of measurement `m` of service `sid`: the last one reported,
/// or zero.
pub open spec fn latest_usage(items: Seq<UsageItem>, sid: Seq<char>, m: Seq<char>) -> u64
    decreases items.len(),
{
    if items.len() == 0 {
        0
    } else if items.last().tags.service_id@ == sid && items.last().measurement@ == m {
        items.last().value
    } else {
        latest_usage(items.drop_last(), sid, m)
    }
}

/// The estimated quantity of measurement `m`: the last one reported, or zero.
pub open spec fn latest_estimate(items: Seq<EstimatedItem>, m: Seq<char>) -> u64
    decreases items.len(),
{
    if items.len() == 0 {
        0
    } else if items.last().measurement@ == m {
        items.last().estimated_value
    } else {
        latest_estimate(items.drop_last(), m)
    }
}

/// The estimate as one (kind, quantity) pair per kind reported.
pub open spec fn estimate_pairs(items: Seq<EstimatedItem>) -> Seq<(Seq<char>, u64)> {
    first_seen(estimate_kinds(items)).map_values(|m: Seq<char>| (m, latest_estimate(items, m)))
}

/// The index of the last record of service `sid`, or -1 when the service is
/// not in the list.
pub open spec fn record_index(records: Seq<ServiceRecord>, sid: Seq<char>) -> int
    decreases records.len(),
{
    if records.len() == 0 {
        -1
    } else if records.last().id@ == sid {
        records.len() - 1
    } else {
        record_index(records.drop_last(), sid)
    }
}

/// The four priced quantities of service `sid`.
pub open spec fn service_quantities(items: Seq<UsageItem>, sid: Seq<char>) -> Seq<(Seq<char>, u64)> {
    seq![
        (CPU_USAGE@, latest_usage(items, sid, CPU_USAGE@)),
        (MEMORY_USAGE_GB@, latest_usage(items, sid, MEMORY_USAGE_GB@)),
        (DISK_USAGE_GB@, latest_usage(items, sid, DISK_USAGE_GB@)),
        (NETWORK_TX_GB@, latest_usage(items, sid, NETWORK_TX_GB@)),
    ]
}

/// The cost of service `sid` at the prices of `pricing`.
pub open spec fn service_cost(pricing: PricingConfig, items: Seq<UsageItem>, sid: Seq<char>) -> int {
    capped(cost_sum(service_quantities(items, sid), |m: Seq<char>| pricing.price_of(m)))
}

/// The month estimate at the prices of `pricing`.
pub open spec fn estimate_cost(pricing: PricingConfig, items: Seq<EstimatedItem>) -> int {
    capped(cost_sum(estimate_pairs(items), |m: Seq<char>| pricing.price_of(m)))
}

/// The sum of a list of amounts.
pub open spec fn sum_of(s: Seq<u64>) -> int
    decreases s.len(),
{
    if s.len() == 0 {
        0
    } else {
        sum_of(s.drop_last()) + s.last()
    }
}

/// The cost of each service of a snapshot.
pub open spec fn costs_of(services: Seq<ServiceData>) -> Seq<u64> {
    services.map_values(|d: ServiceData| d.cost_usd)
}

/// `svc` is the snapshot entry of service `sid`: its figures come from the
/// usage, its name, icon and group from its last record in the service list,
/// and a service missing from the list is marked deleted and named by its id.
pub open spec fn describes(
    svc: ServiceData,
    sid: Seq<char>,
    records: Seq<ServiceRecord>,
    items: Seq<UsageItem>,
    pricing: PricingConfig,
) -> bool {
    let k = record_index(records, sid);
    &&& svc.id@ == sid
    &&& svc.cpu_usage == latest_usage(items, sid, CPU_USAGE@)
    &&& svc.memory_usage == latest_usage(items, sid, MEMORY_USAGE_GB@)
    &&& svc.disk_usage == latest_usage(items, sid, DISK_USAGE_GB@)
    &&& svc.network_tx == latest_usage(items, sid, NETWORK_TX_GB@)
    &&& svc.cost_usd == service_cost(pricing, items, sid)
    &&& svc.is_deleted == (k < 0)
    &&& k >= 0 ==> (svc.name == records[k].name && svc.icon == records[k].icon && svc.group
        == records[k].group)
    &&& k < 0 ==> (svc.name@ == sid && svc.icon@.len() == 0 && svc.group@ == UNGROUPED@)
}

/// Whether `v` holds `s`.
fn holds_string(v: &Vec<String>, s: &str) -> (r: bool)
    ensures
        r == strings_view(v@).contains(s@),
{
    let n = v.len();
    let mut i: usize = 0;
    while i < n
        invariant
            n == v.len(),
            0 <= i <= n,
            forall|j: int| 0 <= j < i ==> v@[j]@ != s@,
        decreases n - i,
    {
        if str_eq(v[i].as_str(), s) {
            assert(strings_view(v@)[i as int] == s@);
            return true;
        }
        i += 1;
    }
    assert(!strings_view(v@).contains(s@)) by {
        if strings_view(v@).contains(s@) {
            let j = choose|j: int| 0 <= j < strings_view(v@).len() && strings_view(v@)[j] == s@;
            assert(v@[j]@ == s@);
        }
    }
    false
}

/// `keys` without repeats, in order of first appearance.
pub fn distinct_strings(keys: &Vec<String>) -> (r: Vec<String>)
    ensures
        strings_view(r@) == first_seen(strings_view(keys@)),
{
    let n = keys.len();
    let mut out: Vec<String> = Vec::new();
    let mut i: usize = 0;
    while i < n
        invariant
            n == keys.len(),
            0 <= i <= n,
            strings_view(out@) == first_seen(strings_view(keys@.subrange(0, i as int))),
        decreases n - i,
    {
        let ghost prev = strings_view(keys@.subrange(0, i as int));
        let ghost next = strings_view(keys@.subrange(0, i + 1));
        assert(next.drop_last() =~= prev);
        assert(next.last() == keys@[i as int]@);
        if !holds_string(&out, keys[i].as_str()) {
            out.push(keys[i].clone());
            assert(strings_view(out@) =~= first_seen(prev).push(keys@[i as int]@));
        }
        i += 1;
    }
    assert(keys@.subrange(0, n as int) =~= keys@);
    out
}

/// The ids of the services that have usage, without repeats, in order of
/// first appearance.
pub fn service_ids(items: &Vec<UsageItem>) -> (r: Vec<String>)
    ensures
        strings_view(r@) == first_seen(usage_ids(items@)),
{
    let n = items.len();
    let mut ids: Vec<String> = Vec::new();
    let mut i: usize = 0;
    while i < n
        invariant
            n == items.len(),
            0 <= i <= n,
            ids@.len() == i,
            strings_view(ids@) == usage_ids(items@.subrange(0, i as int)),
        decreases n - i,
    {
        let ghost before = ids@;
        ids.push(items[i].tags.service_id.clone());
        assert(ids@ =~= before.push(ids@[i as int]));
        assert(strings_view(ids@) =~= strings_view(before).push(items@[i as int].tags.service_id@));
        assert(usage_ids(items@.subrange(0, i + 1)) =~= usage_ids(items@.subrange(0, i as int)).push(
            items@[i as int].tags.service_id@,
        ));
        i += 1;
    }
    assert(items@.subrange(0, n as int) =~= items@);
    distinct_strings(&ids)
}

/// The quantity of measurement `m` of service `sid` (see `latest_usage`).
pub fn usage_quantity(items: &Vec<UsageItem>, sid: &str, m: &str) -> (r: u64)
    ensures
        r == latest_usage(items@, sid@, m@),
{
    let n = items.len();
    let mut r: u64 = 0;
    let mut i: usize = 0;
    while i < n
        invariant
            n == items.len(),
            0 <= i <= n,
            r == latest_usage(items@.subrange(0, i as int), sid@, m@),
        decreases n - i,
    {
        assert(items@.subrange(0, i + 1).drop_last() =~= items@.subrange(0, i as int));
        if str_eq(items[i].tags.service_id.as_str(), sid) && str_eq(items[i].measurement.as_str(), m) {
            r = items[i].value;
        }
        i += 1;
    }
    assert(items@.subrange(0, n as int) =~= items@);
    r
}

/// The estimated quantity of measurement `m` (see `latest_estimate`).
fn estimate_quantity(items: &Vec<EstimatedItem>, m: &str) -> (r: u64)
    ensures
        r == latest_estimate(items@, m@),
{
    let n = items.len();
    let mut r: u64 = 0;
    let mut i: usize = 0;
    while i < n
        invariant
            n == items.len(),
            0 <= i <= n,
            r == latest_estimate(items@.subrange(0, i as int), m@),
        decreases n - i,
    {
        assert(items@.subrange(0, i + 1).drop_last() =~= items@.subrange(0, i as int));
        if str_eq(items[i].measurement.as_str(), m) {
            r = items[i].estimated_value;
        }
        i += 1;
    }
    assert(items@.subrange(0, n as int) =~= items@);
    r
}

/// The estimate as one (kind, quantity) pair per kind, the last report of a
/// kind winning.
pub fn estimate_by_measurement(items: &Vec<EstimatedItem>) -> (r: Vec<(String, u64)>)
    ensures
        quantities_view(r@) == estimate_pairs(items@),
{
    let n = items.len();
    let mut kinds: Vec<String> = Vec::new();
    let mut i: usize = 0;
    while i < n
        invariant
            n == items.len(),
            0 <= i <= n,
            kinds@.len() == i,
            strings_view(kinds@) == estimate_kinds(items@.subrange(0, i as int)),
        decreases n - i,
    {
        let ghost before = kinds@;
        kinds.push(items[i].measurement.clone());
        assert(kinds@ =~= before.push(kinds@[i as int]));
        assert(strings_view(kinds@) =~= strings_view(before).push(items@[i as int].measurement@));
        assert(estimate_kinds(items@.subrange(0, i + 1)) =~= estimate_kinds(
            items@.subrange(0, i as int),
        ).push(items@[i as int].measurement@));
        i += 1;
    }
    assert(items@.subrange(0, n as int) =~= items@);
    let distinct = distinct_strings(&kinds);
    let ghost ks = first_seen(estimate_kinds(items@));
    let k = distinct.len();
    let mut out: Vec<(String, u64)> = Vec::new();
    let mut j: usize = 0;
    while j < k
        invariant
            k == distinct.len(),
            strings_view(distinct@) == ks,
            ks == first_seen(estimate_kinds(items@)),
            0 <= j <= k,
            out@.len() == j,
            quantities_view(out@) == ks.subrange(0, j as int).map_values(
                |m: Seq<char>| (m, latest_estimate(items@, m)),
            ),
        decreases k - j,
    {
        let q = estimate_quantity(items, distinct[j].as_str());
        let ghost before = out@;
        out.push((distinct[j].clone(), q));
        assert(ks[j as int] == strings_view(distinct@)[j as int]);
        assert(out@ =~= before.push(out@[j as int]));
        assert(quantities_view(out@) =~= quantities_view(before).push(
            (ks[j as int], latest_estimate(items@, ks[j as int])),
        ));
        assert(quantities_view(out@) =~= ks.subrange(0, j + 1).map_values(
            |m: Seq<char>| (m, latest_estimate(items@, m)),
        ));
        j += 1;
    }
    assert(ks.subrange(0, k as int) =~= ks);
    out
}

/// The index of the last record of service `sid` (see `record_index`).
fn find_record(records: &Vec<ServiceRecord>, sid: &str) -> (r: Option<usize>)
    ensures
        match r {
            Some(k) => record_index(records@, sid@) == k && k < records@.len(),
            None => record_index(records@, sid@) == -1,
        },
{
    let n = records.len();
    let mut r: Option<usize> = None;
    let mut i: usize = 0;
    while i < n
        invariant
            n == records.len(),
            0 <= i <= n,
            match r {
                Some(k) => record_index(records@.subrange(0, i as int), sid@) == k && k < i,
                None => record_index(records@.subrange(0, i as int), sid@) == -1,
            },
        decreases n - i,
    {
        assert(records@.subrange(0, i + 1).drop_last() =~= records@.subrange(0, i as int));
        if str_eq(records[i].id.as_str(), sid) {
            r = Some(i);
        }
        i += 1;
    }
    assert(records@.subrange(0, n as int) =~= records@);
    r
}

/// The cost of service `sid` (see `service_cost`).
pub fn cost_of_service(pricing: &PricingConfig, items: &Vec<UsageItem>, sid: &str) -> (r: u64)
    requires
        pricing.wf(),
    ensures
        r == service_cost(*pricing, items@, sid@),
{
    let cpu = usage_quantity(items, sid, CPU_USAGE);
    let mem = usage_quantity(items, sid, MEMORY_USAGE_GB);
    let disk = usage_quantity(items, sid, DISK_USAGE_GB);
    let tx = usage_quantity(items, sid, NETWORK_TX_GB);
    let quantities = vec![
        (CPU_USAGE.to_owned(), cpu),
        (MEMORY_USAGE_GB.to_owned(), mem),
        (DISK_USAGE_GB.to_owned(), disk),
        (NETWORK_TX_GB.to_owned(), tx),
    ];
    assert(quantities_view(quantities@) =~= service_quantities(items@, sid@));
    pricing.cost_of(&quantities)
}

/// The snapshot entry of service `sid`, with `estimated` as its part of the
/// month estimate.
fn service_entry(
    records: &Vec<ServiceRecord>,
    items: &Vec<UsageItem>,
    pricing: &PricingConfig,
    sid: &str,
    estimated: u64,
) -> (r: ServiceData)
    requires
        pricing.wf(),
    ensures
        describes(r, sid@, records@, items@, *pricing),
        r.estimated_monthly_usd == estimated,
{
    let (name, icon, group, is_deleted) = match find_record(records, sid) {
        Some(k) => (records[k].name.clone(), records[k].icon.clone(), records[k].group.clone(), false),
        None => (sid.to_owned(), String::new(), UNGROUPED.to_owned(), true),
    };
    ServiceData {
        id: sid.to_owned(),
        name,
        icon,
        group,
        cpu_usage: usage_quantity(items, sid, CPU_USAGE),
        memory_usage: usage_quantity(items, sid, MEMORY_USAGE_GB),
        disk_usage: usage_quantity(items, sid, DISK_USAGE_GB),
        network_tx: usage_quantity(items, sid, NETWORK_TX_GB),
        cost_usd: cost_of_service(pricing, items, sid),
        estimated_monthly_usd: estimated,
        is_deleted,
    }
}

/// `r` is the snapshot of one cycle (see `build_snapshot`).
pub open spec fn snapshot_of(
    r: MetricsJson,
    project_name: Seq<char>,
    records: Seq<ServiceRecord>,
    usage: Seq<UsageItem>,
    estimated: Seq<EstimatedItem>,
    pricing: PricingConfig,
    clock: ScrapeClock,
    published_at: i64,
    duration_millis: u64,
) -> bool {
    let ids = first_seen(usage_ids(usage));
    let total = r.project.current_usage_usd;
    let est = r.project.estimated_monthly_usd;
    &&& r.project.name@ == project_name
    &&& r.services@.len() == ids.len()
    &&& forall|k: int|
        0 <= k < ids.len() ==> describes(#[trigger] r.services@[k], ids[k], records, usage, pricing)
    &&& total == capped(sum_of(costs_of(r.services@)))
    &&& est == estimate_cost(pricing, estimated)
    &&& forall|k: int|
        0 <= k < ids.len() ==> (#[trigger] r.services@[k]).estimated_monthly_usd == share(
            est as int,
            r.services@[k].cost_usd as int,
            total as int,
        )
    &&& r.project.daily_average_usd == total as int / clock.day as int
    &&& r.project.days_elapsed == clock.day
    &&& r.project.days_remaining == month_length(clock.year as int, clock.month as int) - clock.day
    &&& r.scrape_timestamp == published_at
    &&& r.scrape_duration_millis == duration_millis
}

/// Builds the snapshot of one cycle from the service list, the usage and the
/// month estimate.
///
/// There is one entry per service with usage, in order of first appearance
/// in the usage (see `describes`). The project's current cost is the sum of
/// the services' costs; the month estimate is priced per kind and spread
/// over the services in proportion to their cost, or not at all when the
/// current cost is zero. The daily average is the current cost over the
/// days elapsed in the month, today included. The snapshot carries
/// `published_at` as its timestamp.
pub fn build_snapshot(
    project_name: &str,
    records: &Vec<ServiceRecord>,
    usage: &Vec<UsageItem>,
    estimated: &Vec<EstimatedItem>,
    pricing: &PricingConfig,
    clock: &ScrapeClock,
    published_at: i64,
    duration_millis: u64,
) -> (r: MetricsJson)
    requires
        pricing.wf(),
        clock.wf(),
    ensures
        snapshot_of(
            r,
            project_name@,
            records@,
            usage@,
            estimated@,
            *pricing,
            *clock,
            published_at,
            duration_millis,
        ),
{
    let ids = service_ids(usage);
    let ghost idv = first_seen(usage_ids(usage@));
    let n = ids.len();
    let mut costs: Vec<u64> = Vec::new();
    let mut total: u64 = 0;
    let mut i: usize = 0;
    while i < n
        invariant
            pricing.wf(),
            n == ids.len(),
            strings_view(ids@) == idv,
            0 <= i <= n,
            costs@.len() == i,
            forall|k: int| 0 <= k < i ==> #[trigger] costs@[k] == service_cost(*pricing, usage@, idv[k]),
            forall|k: int| 0 <= k < i ==> #[trigger] costs@[k] <= total,
            total == capped(sum_of(costs@)),
        decreases n - i,
    {
        let c = cost_of_service(pricing, usage, ids[i].as_str());
        assert(idv[i as int] == ids@[i as int]@);
        let ghost before = costs@;
        proof {
            lemma_sum_nonneg(before);
            lemma_capped_add(sum_of(before), c as int);
        }
        total = add_capped(total, c as u128);
        costs.push(c);
        assert(costs@.drop_last() =~= before);
        i += 1;
    }
    let est = pricing.cost_of(&estimate_by_measurement(estimated));
    let mut services: Vec<ServiceData> = Vec::new();
    let mut j: usize = 0;
    while j < n
        invariant
            pricing.wf(),
            n == ids.len(),
            strings_view(ids@) == idv,
            costs@.len() == n,
            forall|k: int| 0 <= k < n ==> #[trigger] costs@[k] == service_cost(*pricing, usage@, idv[k]),
            forall|k: int| 0 <= k < n ==> #[trigger] costs@[k] <= total,
            0 <= j <= n,
            services@.len() == j,
            forall|k: int|
                0 <= k < j ==> describes(#[trigger] services@[k], idv[k], records@, usage@, *pricing),
            forall|k: int|
                0 <= k < j ==> (#[trigger] services@[k]).estimated_monthly_usd == share(
                    est as int,
                    costs@[k] as int,
                    total as int,
                ),
        decreases n - j,
    {
        assert(idv[j as int] == ids@[j as int]@);
        let part = share_of(est, costs[j], total);
        let entry = service_entry(records, usage, pricing, ids[j].as_str(), part);
        services.push(entry);
        j += 1;
    }
    assert(costs_of(services@) =~= costs@);
    let days_in_month = days_in_current_month(clock.year, clock.month);
    MetricsJson {
        project: ProjectSummary {
            name: project_name.to_owned(),
            current_usage_usd: total,
            estimated_monthly_usd: est,
            daily_average_usd: total / clock.day as u64,
            days_elapsed: clock.day,
            days_remaining: days_in_month - clock.day,
        },
        services,
        scrape_timestamp: published_at,
        scrape_duration_millis: duration_millis,
    }
}

/// A sum of amounts is never negative.
pub proof fn lemma_sum_nonneg(s: Seq<u64>)
    ensures
        sum_of(s) >= 0,
    decreases s.len(),
{
    if s.len() > 0 {
        lemma_sum_nonneg(s.drop_last());
    }
}

/// A service id that no record carries has no record index.
pub proof fn lemma_no_record(records: Seq<ServiceRecord>, sid: Seq<char>)
    requires
        forall|j: int| 0 <= j < records.len() ==> (#[trigger] records[j]).id@ != sid,
    ensures
        record_index(records, sid) == -1,
    decreases records.len(),
{
    if records.len() > 0 {
        assert(records.last() == records[records.len() - 1]);
        let rest = records.drop_last();
        assert forall|j: int| 0 <= j < rest.len() implies (#[trigger] rest[j]).id@ != sid by {
            assert(rest[j] == records[j]);
        }
        lemma_no_record(rest, sid);
    }
}

/// A service with usage that is missing from the service list gets an entry
/// of its own, marked deleted, named by its id and in the default group.
pub proof fn lemma_missing_service_is_deleted(
    r: MetricsJson,
    project_name: Seq<char>,
    records: Seq<ServiceRecord>,
    usage: Seq<UsageItem>,
    estimated: Seq<EstimatedItem>,
    pricing: PricingConfig,
    clock: ScrapeClock,
    published_at: i64,
    duration_millis: u64,
    k: int,
)
    requires
        snapshot_of(r, project_name, records, usage, estimated, pricing, clock, published_at, duration_millis),
        0 <= k < first_seen(usage_ids(usage)).len(),
        forall|j: int|
            0 <= j < records.len() ==> (#[trigger] records[j]).id@ != first_seen(usage_ids(usage))[k],
    ensures
        r.services@[k].id@ == first_seen(usage_ids(usage))[k],
        r.services@[k].is_deleted,
        r.services@[k].name@ == first_seen(usage_ids(usage))[k],
        r.services@[k].group@ == UNGROUPED@,
{
    lemma_no_record(records, first_seen(usage_ids(usage))[k]);
    assert(describes(r.services@[k], first_seen(usage_ids(usage))[k], records, usage, pricing));
}

/// When the current cost is zero, no service gets any part of the month
/// estimate, whatever the estimate.
pub proof fn lemma_zero_total_spreads_nothing(
    r: MetricsJson,
    project_name: Seq<char>,
    records: Seq<ServiceRecord>,
    usage: Seq<UsageItem>,
    estimated: Seq<EstimatedItem>,
    pricing: PricingConfig,
    clock: ScrapeClock,
    published_at: i64,
    duration_millis: u64,
)
    requires
        snapshot_of(r, project_name, records, usage, estimated, pricing, clock, published_at, duration_millis),
        r.project.current_usage_usd == 0,
    ensures
        forall|k: int| 0 <= k < r.services@.len() ==> (#[trigger] r.services@[k]).estimated_monthly_usd == 0,
{
    assert forall|k: int| 0 <= k < r.services@.len() implies (
    #[trigger] r.services@[k]).estimated_monthly_usd == 0 by {
        assert(r.services@[k].estimated_monthly_usd == share(
            r.project.estimated_monthly_usd as int,
            r.services@[k].cost_usd as int,
            0,
        ));
    }
}

} // verus!
