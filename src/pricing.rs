//! Prices per measurement kind and the cost of a set of measurements.
//!
//! Quantities are in thousandths of a unit (`1_000` is one vCPU-minute, one
//! GB-minute or one GB), prices in nano-dollars per whole unit, and costs in
//! pico-dollars, so that `quantity * price` is a cost with no rounding.

use vstd::prelude::*;
use crate::text::{lower_of, str_eq, to_lowercase};

verus! {

/// Measurement kind: vCPU-minutes.
pub const CPU_USAGE: &'static str = "CPU_USAGE";
/// Measurement kind: memory GB-minutes.
pub const MEMORY_USAGE_GB: &'static str = "MEMORY_USAGE_GB";
/// Measurement kind: disk GB-minutes.
pub const DISK_USAGE_GB: &'static str = "DISK_USAGE_GB";
/// Measurement kind: egress GB.
pub const NETWORK_TX_GB: &'static str = "NETWORK_TX_GB";

/// The largest cost that can be held; sums beyond it are held at it.
pub const MAX_COST: u64 = 0xffff_ffff_ffff_ffff;

/// A cost or sum of costs, held at `MAX_COST` when it would exceed it.
pub open spec fn capped(x: int) -> int {
    if x > MAX_COST as int { MAX_COST as int } else { x }
}

/// The built-in price, in nano-dollars per unit, of `measurement` on the plan
/// named `plan` (already lowercase). Any plan other than "pro" is priced as
/// "hobby"; unknown measurements are free.
pub open spec fn default_price(plan: Seq<char>, measurement: Seq<char>) -> u64 {
    if plan == "pro"@ && measurement == CPU_USAGE@ {
        231_000
    } else if plan == "pro"@ && measurement == MEMORY_USAGE_GB@ {
        116_000
    } else if measurement == CPU_USAGE@ {
        463_000
    } else if measurement == MEMORY_USAGE_GB@ {
        231_000
    } else if measurement == DISK_USAGE_GB@ {
        21_000
    } else if measurement == NETWORK_TX_GB@ {
        100_000_000
    } else {
        0
    }
}

/// The built-in price of `measurement` on `plan`, whatever its letter case.
pub fn get_price(plan: &str, measurement: &str) -> (r: u64)
    ensures
        r == default_price(lower_of(plan@), measurement@),
{
    let lower = to_lowercase(plan);
    price_for_lowercase_plan(lower.as_str(), measurement)
}

/// The built-in price of `measurement` on a plan name that is already lowercase.
pub fn price_for_lowercase_plan(plan: &str, measurement: &str) -> (r: u64)
    ensures
        r == default_price(plan@, measurement@),
{
    proof {
        reveal_strlit("pro");
        reveal_strlit("CPU_USAGE");
        reveal_strlit("MEMORY_USAGE_GB");
        reveal_strlit("DISK_USAGE_GB");
        reveal_strlit("NETWORK_TX_GB");
    }
    let pro = str_eq(plan, "pro");
    if pro && str_eq(measurement, CPU_USAGE) {
        231_000
    } else if pro && str_eq(measurement, MEMORY_USAGE_GB) {
        116_000
    } else if str_eq(measurement, CPU_USAGE) {
        463_000
    } else if str_eq(measurement, MEMORY_USAGE_GB) {
        231_000
    } else if str_eq(measurement, DISK_USAGE_GB) {
        21_000
    } else if str_eq(measurement, NETWORK_TX_GB) {
        100_000_000
    } else {
        0
    }
}

/// Prices of one plan, with per-measurement overrides.
#[derive(Debug, Clone)]
pub struct PricingConfig {
    plan: String,
    overrides: Vec<(String, u64)>,
}

impl PricingConfig {
    /// The plan name, lowercase.
    pub closed spec fn plan_name(&self) -> Seq<char> {
        self.plan@
    }

    /// Whether `measurement` has an override.
    pub closed spec fn has_override(&self, measurement: Seq<char>) -> bool {
        exists|i: int| 0 <= i < self.overrides.len() && #[trigger] self.overrides@[i].0@ == measurement
    }

    /// The override of `measurement`, where it has one.
    pub closed spec fn override_of(&self, measurement: Seq<char>) -> u64 {
        self.overrides@[choose|i: int|
            0 <= i < self.overrides.len() && #[trigger] self.overrides@[i].0@ == measurement].1
    }

    /// Each measurement is overridden at most once.
    pub closed spec fn wf(&self) -> bool {
        forall|i: int, j: int|
            0 <= i < j < self.overrides.len() ==> #[trigger] self.overrides@[i].0@
                != #[trigger] self.overrides@[j].0@
    }

    /// The price in force for `measurement`.
    pub open spec fn price_of(&self, measurement: Seq<char>) -> u64 {
        if self.has_override(measurement) {
            self.override_of(measurement)
        } else {
            default_price(self.plan_name(), measurement)
        }
    }

    /// Prices of the plan named `plan` (in any letter case), with no overrides.
    pub fn new(plan: &str) -> (r: PricingConfig)
        ensures
            r.wf(),
            r.plan_name() == lower_of(plan@),
            (forall|i: int| 0 <= i < plan@.len() ==> 'a' <= #[trigger] plan@[i] <= 'z')
                ==> r.plan_name() == plan@,
            forall|m: Seq<char>| !r.has_override(m),
    {
        PricingConfig { plan: to_lowercase(plan), overrides: Vec::new() }
    }

    /// With unique keys, the entry at `i` is the override of its measurement.
    proof fn lemma_entry_is_override(&self, i: int)
        requires
            self.wf(),
            0 <= i < self.overrides.len(),
        ensures
            self.has_override(self.overrides@[i].0@),
            self.override_of(self.overrides@[i].0@) == self.overrides@[i].1,
    {
        let m = self.overrides@[i].0@;
        assert(self.overrides@[i].0@ == m);
        let k = choose|k: int| 0 <= k < self.overrides.len() && #[trigger] self.overrides@[k].0@ == m;
        if k < i {
            assert(self.overrides@[k].0@ != self.overrides@[i].0@);
        } else if i < k {
            assert(self.overrides@[i].0@ != self.overrides@[k].0@);
        }
    }

    /// Two pricings over the same entries but at index `at` agree on every
    /// other measurement.
    proof fn lemma_same_elsewhere(before: &PricingConfig, after: &PricingConfig, m: Seq<char>, at: int)
        requires
            before.wf(),
            after.wf(),
            0 <= at < after.overrides.len(),
            after.overrides@[at].0@ != m,
            after.overrides.len() >= before.overrides.len(),
            forall|j: int| 0 <= j < after.overrides.len() && j != at ==> j < before.overrides.len()
                && #[trigger] after.overrides@[j] == before.overrides@[j],
            at < before.overrides.len() ==> before.overrides@[at].0@ != m,
        ensures
            after.has_override(m) == before.has_override(m),
            before.has_override(m) ==> after.override_of(m) == before.override_of(m),
    {
        if before.has_override(m) {
            let k = choose|k: int| 0 <= k < before.overrides.len() && #[trigger] before.overrides@[k].0@ == m;
            assert(after.overrides@[k] == before.overrides@[k]);
            before.lemma_entry_is_override(k);
            after.lemma_entry_is_override(k);
        }
        if after.has_override(m) {
            let k = choose|k: int| 0 <= k < after.overrides.len() && #[trigger] after.overrides@[k].0@ == m;
            assert(after.overrides@[k] == before.overrides@[k]);
            assert(before.overrides@[k].0@ == m);
        }
    }

    /// Overrides the price of `measurement`; other prices are kept.
    pub fn set_price(&mut self, measurement: &str, price: u64)
        requires
            old(self).wf(),
        ensures
            final(self).wf(),
            final(self).plan_name() == old(self).plan_name(),
            final(self).has_override(measurement@),
            final(self).override_of(measurement@) == price,
            forall|m: Seq<char>|
                m != measurement@ ==> (final(self).has_override(m) == old(self).has_override(m)
                    && (old(self).has_override(m) ==> final(self).override_of(m)
                    == old(self).override_of(m))),
    {
        let ghost before = *self;
        let n = self.overrides.len();
        let mut i: usize = 0;
        while i < n
            invariant
                *self == before,
                before == *old(self),
                before.wf(),
                n == self.overrides.len(),
                0 <= i <= n,
                forall|j: int| 0 <= j < i ==> self.overrides@[j].0@ != measurement@,
            decreases n - i,
        {
            if str_eq(self.overrides[i].0.as_str(), measurement) {
                self.overrides.set(i, (measurement.to_owned(), price));
                proof {
                    assert forall|a: int, b: int|
                        0 <= a < b < self.overrides.len() implies #[trigger] self.overrides@[a].0@
                        != #[trigger] self.overrides@[b].0@ by {
                        assert(before.overrides@[a].0@ != before.overrides@[b].0@);
                    }
                    self.lemma_entry_is_override(i as int);
                    assert forall|m: Seq<char>| m != measurement@ implies (self.has_override(m)
                        == before.has_override(m) && (before.has_override(m)
                        ==> self.override_of(m) == before.override_of(m))) by {
                        PricingConfig::lemma_same_elsewhere(&before, self, m, i as int);
                    }
                }
                return;
            }
            i += 1;
        }
        self.overrides.push((measurement.to_owned(), price));
        proof {
            assert forall|a: int, b: int|
                0 <= a < b < self.overrides.len() implies #[trigger] self.overrides@[a].0@
                != #[trigger] self.overrides@[b].0@ by {
                if b < n {
                    assert(before.overrides@[a].0@ != before.overrides@[b].0@);
                }
            }
            self.lemma_entry_is_override(n as int);
            assert forall|m: Seq<char>| m != measurement@ implies (self.has_override(m)
                == before.has_override(m) && (before.has_override(m) ==> self.override_of(m)
                == before.override_of(m))) by {
                PricingConfig::lemma_same_elsewhere(&before, self, m, n as int);
            }
        }
    }

    /// The price in force for `measurement`: its override, else the plan's.
    pub fn get_price(&self, measurement: &str) -> (r: u64)
        requires
            self.wf(),
        ensures
            r == self.price_of(measurement@),
    {
        let n = self.overrides.len();
        let mut i: usize = 0;
        while i < n
            invariant
                self.wf(),
                n == self.overrides.len(),
                0 <= i <= n,
                forall|j: int| 0 <= j < i ==> self.overrides@[j].0@ != measurement@,
            decreases n - i,
        {
            if str_eq(self.overrides[i].0.as_str(), measurement) {
                proof {
                    self.lemma_entry_is_override(i as int);
                }
                return self.overrides[i].1;
            }
            i += 1;
        }
        assert(!self.has_override(measurement@));
        price_for_lowercase_plan(self.plan.as_str(), measurement)
    }

    /// The plan name, lowercase.
    pub fn plan(&self) -> (r: &str)
        ensures
            r@ == self.plan_name(),
    {
        self.plan.as_str()
    }
}

/// Quantities as (measurement, thousandths of a unit) pairs, viewed.
pub open spec fn quantities_view(v: Seq<(String, u64)>) -> Seq<(Seq<char>, u64)> {
    v.map_values(|p: (String, u64)| (p.0@, p.1))
}

/// The exact cost of `items` at `price`: the sum of quantity times price.
pub open spec fn cost_sum(items: Seq<(Seq<char>, u64)>, price: spec_fn(Seq<char>) -> u64) -> int
    decreases items.len(),
{
    if items.len() == 0 {
        0
    } else {
        cost_sum(items.drop_last(), price) + items.last().1 * price(items.last().0)
    }
}

/// Adding a non-negative amount commutes with capping.
pub proof fn lemma_capped_add(a: int, t: int)
    requires
        a >= 0,
        t >= 0,
    ensures
        capped(capped(a) + t) == capped(a + t),
{
}

/// The exact product of two 64-bit numbers.
pub fn mul_wide(a: u64, b: u64) -> (r: u128)
    ensures
        r == a * b,
{
    proof {
        let x = a as int;
        let y = b as int;
        assert(x * y <= 0xffff_ffff_ffff_ffff * 0xffff_ffff_ffff_ffff) by (nonlinear_arith)
            requires
                0 <= x <= 0xffff_ffff_ffff_ffff,
                0 <= y <= 0xffff_ffff_ffff_ffff,
        ;
        assert(0 <= x * y) by (nonlinear_arith)
            requires
                0 <= x,
                0 <= y,
        ;
    }
    a as u128 * b as u128
}

/// Adds `t` to a capped running sum.
pub fn add_capped(acc: u64, t: u128) -> (r: u64)
    ensures
        r == capped(acc + t),
{
    if t > MAX_COST as u128 {
        return MAX_COST;
    }
    let sum: u128 = acc as u128 + t;
    if sum > MAX_COST as u128 {
        MAX_COST
    } else {
        sum as u64
    }
}

/// The cost, in pico-dollars, of `measurements` on the plan named `plan`
/// (any letter case), at the built-in prices; held at `MAX_COST` when larger.
pub fn calculate_cost(plan: &str, measurements: &Vec<(String, u64)>) -> (r: u64)
    ensures
        r == capped(cost_sum(quantities_view(measurements@),
            |m: Seq<char>| default_price(lower_of(plan@), m))),
{
    let lower = to_lowercase(plan);
    let ghost price = |m: Seq<char>| default_price(lower_of(plan@), m);
    let ghost items = quantities_view(measurements@);
    let n = measurements.len();
    let mut acc: u64 = 0;
    let mut i: usize = 0;
    while i < n
        invariant
            n == measurements.len(),
            items == quantities_view(measurements@),
            price == (|m: Seq<char>| default_price(lower_of(plan@), m)),
            lower@ == lower_of(plan@),
            0 <= i <= n,
            acc == capped(cost_sum(items.subrange(0, i as int), price)),
        decreases n - i,
    {
        let q = measurements[i].1;
        let p = price_for_lowercase_plan(lower.as_str(), measurements[i].0.as_str());
        let term: u128 = mul_wide(q, p);
        proof {
            assert(items[i as int] == (measurements@[i as int].0@, measurements@[i as int].1));
            assert(p == price(items[i as int].0));
            assert(items.subrange(0, i + 1).drop_last() =~= items.subrange(0, i as int));
            assert(items.subrange(0, i + 1).last() == items[i as int]);
            lemma_capped_add(cost_sum(items.subrange(0, i as int), price), term as int);
            assert(0 <= q * p) by (nonlinear_arith);
            lemma_cost_sum_nonneg(items.subrange(0, i as int), price);
        }
        acc = add_capped(acc, term);
        i += 1;
    }
    assert(items.subrange(0, n as int) =~= items);
    acc
}

/// A cost sum is never negative.
pub proof fn lemma_cost_sum_nonneg(items: Seq<(Seq<char>, u64)>, price: spec_fn(Seq<char>) -> u64)
    ensures
        cost_sum(items, price) >= 0,
    decreases items.len(),
{
    if items.len() > 0 {
        lemma_cost_sum_nonneg(items.drop_last(), price);
        let t = items.last().1 * price(items.last().0);
        assert(0 <= items.last().1 * price(items.last().0)) by (nonlinear_arith);
    }
}

impl PricingConfig {
    /// The cost, in pico-dollars, of `items` at the prices in force; held at
    /// `MAX_COST` when larger.
    pub fn cost_of(&self, items: &Vec<(String, u64)>) -> (r: u64)
        requires
            self.wf(),
        ensures
            r == capped(cost_sum(quantities_view(items@), |m: Seq<char>| self.price_of(m))),
    {
        let ghost price = |m: Seq<char>| self.price_of(m);
        let ghost view = quantities_view(items@);
        let n = items.len();
        let mut acc: u64 = 0;
        let mut i: usize = 0;
        while i < n
            invariant
                self.wf(),
                n == items.len(),
                view == quantities_view(items@),
                price == (|m: Seq<char>| self.price_of(m)),
                0 <= i <= n,
                acc == capped(cost_sum(view.subrange(0, i as int), price)),
            decreases n - i,
        {
            let q = items[i].1;
            let p = self.get_price(items[i].0.as_str());
            let term: u128 = mul_wide(q, p);
            proof {
                assert(view[i as int] == (items@[i as int].0@, items@[i as int].1));
                assert(p == price(view[i as int].0));
                assert(view.subrange(0, i + 1).drop_last() =~= view.subrange(0, i as int));
                assert(view.subrange(0, i + 1).last() == view[i as int]);
                lemma_cost_sum_nonneg(view.subrange(0, i as int), price);
                lemma_capped_add(cost_sum(view.subrange(0, i as int), price), term as int);
            }
            acc = add_capped(acc, term);
            i += 1;
        }
        assert(view.subrange(0, n as int) =~= view);
        acc
    }
}

} // verus!
