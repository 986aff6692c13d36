//! What a team's view derives from the latest forecasts: the mean of the
//! minimum and of the maximum temperatures, and how often each weather
//! condition occurs.

use crate::forecasts::{
    as_map, distinct_ids, has_id, position, position_is_unique, removal_is_remove, Entries,
    ForecastMap,
};
use crate::weather::{CelsiusTemperature, WeatherCode, WeatherForecast};
use vstd::arithmetic::div_mod::{
    lemma_div_is_ordered, lemma_div_multiples_vanish, lemma_fundamental_div_mod,
    lemma_hoist_over_denominator,
};
use vstd::prelude::*;

verus! {

/// Which of a forecast's two temperatures is meant.
#[derive(Debug, Clone, Copy, PartialEq, Eq, Structural)]
pub enum Extreme {
    Minimum,
    Maximum,
}

/// The temperature of `forecast` that `which` names, in thousandths of a
/// degree.
pub open spec fn reading(forecast: WeatherForecast, which: Extreme) -> int {
    match which {
        Extreme::Minimum => forecast.minimum_temperature.0 as int,
        Extreme::Maximum => forecast.maximum_temperature.0 as int,
    }
}

/// The sum of the readings of all entries.
pub open spec fn temperature_sum(es: Entries, which: Extreme) -> int
    decreases es.len(),
{
    if es.len() == 0 {
        0
    } else {
        temperature_sum(es.drop_last(), which) + reading(es.last().1, which)
    }
}

/// The arithmetic mean of the readings of all entries, rounded down to a
/// thousandth of a degree. Without entries there is no mean.
pub open spec fn mean_temperature_of(es: Entries, which: Extreme) -> Option<CelsiusTemperature> {
    if es.len() == 0 {
        None
    } else {
        Some(CelsiusTemperature((temperature_sum(es, which) / (es.len() as int)) as i32))
    }
}

/// The number of entries whose forecast carries `code`.
pub open spec fn code_count(es: Entries, code: WeatherCode) -> nat
    decreases es.len(),
{
    if es.len() == 0 {
        0
    } else {
        code_count(es.drop_last(), code) + if es.last().1.weather_code == Some(code) {
            1nat
        } else {
            0nat
        }
    }
}

/// How often each condition occurs among the entries. A condition that no
/// forecast carries has no entry.
pub open spec fn distribution_of(es: Entries) -> Map<WeatherCode, nat> {
    Map::new(|code: WeatherCode| code_count(es, code) > 0, |code: WeatherCode| code_count(es, code))
}

/// The sum of `n` readings lies between `n` times the least and `n` times
/// the greatest temperature that can be written down.
pub proof fn temperature_sum_bounds(es: Entries, which: Extreme)
    ensures
        es.len() * (-0x8000_0000) <= temperature_sum(es, which) <= es.len() * 0x7fff_ffff,
    decreases es.len(),
{
    if es.len() > 0 {
        temperature_sum_bounds(es.drop_last(), which);
        let n = es.len() as int;
        assert((n - 1) * (-0x8000_0000) + (-0x8000_0000) == n * (-0x8000_0000)) by (nonlinear_arith);
        assert((n - 1) * 0x7fff_ffff + 0x7fff_ffff == n * 0x7fff_ffff) by (nonlinear_arith);
    }
}

/// The mean is the sum divided by the number of entries, rounded down: it
/// is the one temperature `m` with `m * n <= sum < (m + 1) * n`.
pub proof fn mean_is_rounded_down(es: Entries, which: Extreme)
    requires
        es.len() > 0,
    ensures
        mean_temperature_of(es, which) is Some,
        ({
            let m = mean_temperature_of(es, which).unwrap().0 as int;
            m * es.len() <= temperature_sum(es, which) < (m + 1) * es.len()
        }),
{
    let n = es.len() as int;
    let sum = temperature_sum(es, which);
    let q = sum / n;
    temperature_sum_bounds(es, which);
    lemma_fundamental_div_mod(sum, n);
    assert(-0x8000_0000 <= q <= 0x7fff_ffff) by (nonlinear_arith)
        requires
            n > 0,
            n * (-0x8000_0000) <= sum <= n * 0x7fff_ffff,
            sum == n * q + sum % n,
            0 <= sum % n < n,
    ;
    assert(q * n <= sum < (q + 1) * n) by (nonlinear_arith)
        requires
            sum == n * q + sum % n,
            0 <= sum % n < n,
    ;
}

/// The sum of the readings is the reading of any one entry and the sum of
/// the others.
pub proof fn temperature_sum_without(es: Entries, p: int, which: Extreme)
    requires
        0 <= p < es.len(),
    ensures
        temperature_sum(es, which) == temperature_sum(es.remove(p), which) + reading(
            es[p].1,
            which,
        ),
    decreases es.len(),
{
    if p == es.len() - 1 {
        assert(es.remove(p) =~= es.drop_last());
    } else {
        temperature_sum_without(es.drop_last(), p, which);
        assert(es.remove(p).drop_last() =~= es.drop_last().remove(p));
        assert(es.remove(p).last() == es.last());
    }
}

/// The number of entries with a condition is that of any one entry and
/// that of the others.
pub proof fn code_count_without(es: Entries, p: int, code: WeatherCode)
    requires
        0 <= p < es.len(),
    ensures
        code_count(es, code) == code_count(es.remove(p), code) + if es[p].1.weather_code == Some(
            code,
        ) {
            1nat
        } else {
            0nat
        },
    decreases es.len(),
{
    if p == es.len() - 1 {
        assert(es.remove(p) =~= es.drop_last());
    } else {
        code_count_without(es.drop_last(), p, code);
        assert(es.remove(p).drop_last() =~= es.drop_last().remove(p));
        assert(es.remove(p).last() == es.last());
    }
}

/// The sums and the counts depend on which forecast each member has, not
/// on the order in which the entries stand.
pub proof fn sums_whatever_the_order(a: Entries, b: Entries)
    requires
        distinct_ids(a),
        distinct_ids(b),
        as_map(a) == as_map(b),
    ensures
        a.len() == b.len(),
        forall|which: Extreme| temperature_sum(a, which) == temperature_sum(b, which),
        forall|code: WeatherCode| code_count(a, code) == code_count(b, code),
    decreases a.len(),
{
    if a.len() == 0 {
        if b.len() > 0 {
            assert(has_id(b, b[0].0));
            assert(as_map(b).dom().contains(b[0].0));
            assert(has_id(a, b[0].0));
        }
    } else {
        let last = a.len() - 1;
        let id = a[last].0;
        position_is_unique(a, last);
        assert(as_map(a).dom().contains(id));
        assert(has_id(b, id));
        let p = position(b, id);
        assert(0 <= p < b.len() && b[p].0 == id);
        assert(as_map(b)[id] == b[p].1);
        assert(as_map(a)[id] == a[last].1);
        removal_is_remove(a, last);
        removal_is_remove(b, p);
        sums_whatever_the_order(a.remove(last), b.remove(p));
        assert forall|which: Extreme| temperature_sum(a, which) == temperature_sum(b, which) by {
            temperature_sum_without(a, last, which);
            temperature_sum_without(b, p, which);
        }
        assert forall|code: WeatherCode| code_count(a, code) == code_count(b, code) by {
            code_count_without(a, last, code);
            code_count_without(b, p, code);
        }
    }
}

/// The means and the distribution depend on which forecast each member
/// has, not on the order in which the entries stand.
pub proof fn statistics_whatever_the_order(a: Entries, b: Entries)
    requires
        distinct_ids(a),
        distinct_ids(b),
        as_map(a) == as_map(b),
    ensures
        mean_temperature_of(a, Extreme::Minimum) == mean_temperature_of(b, Extreme::Minimum),
        mean_temperature_of(a, Extreme::Maximum) == mean_temperature_of(b, Extreme::Maximum),
        distribution_of(a) == distribution_of(b),
{
    sums_whatever_the_order(a, b);
    assert(distribution_of(a) =~= distribution_of(b));
}

/// How often each weather condition occurs among a team's latest
/// forecasts. Only the conditions that occur have a count.
#[derive(Debug, PartialEq, Eq)]
pub struct ConditionDistribution {
    counts: Vec<u64>,
}

impl View for ConditionDistribution {
    type V = Map<WeatherCode, nat>;

    closed spec fn view(&self) -> Map<WeatherCode, nat> {
        Map::new(
            |code: WeatherCode| self.counts@[code.spec_wmo_code() as int] > 0,
            |code: WeatherCode| self.counts@[code.spec_wmo_code() as int] as nat,
        )
    }
}

impl ConditionDistribution {
    #[verifier::type_invariant]
    spec fn one_count_per_wmo_number(&self) -> bool {
        self.counts@.len() == 100
    }

    /// The distribution in which no condition occurs.
    pub fn new() -> (r: Self)
        ensures
            r@ == Map::<WeatherCode, nat>::empty(),
    {
        let r = ConditionDistribution { counts: zeroed_counts() };
        assert(r@ =~= Map::<WeatherCode, nat>::empty());
        r
    }

    /// How often `code` occurs, if it does.
    pub fn get(&self, code: WeatherCode) -> (r: Option<u64>)
        ensures
            r.is_some() == self@.dom().contains(code),
            r.is_some() ==> r.unwrap() == self@[code],
    {
        proof {
            use_type_invariant(self);
        }
        let count = self.counts[code.wmo_code() as usize];
        if count > 0 {
            Some(count)
        } else {
            None
        }
    }

    /// Sets how often `code` occurs. A count of zero takes the condition
    /// out of the distribution.
    pub fn set(&mut self, code: WeatherCode, count: u64)
        ensures
            final(self)@ == if count == 0 {
                old(self)@.remove(code)
            } else {
                old(self)@.insert(code, count as nat)
            },
    {
        proof {
            use_type_invariant(&*self);
        }
        let mut counts = self.counts.clone();
        assert(counts@ =~= self.counts@);
        counts.set(code.wmo_code() as usize, count);
        self.counts = counts;
        proof {
            if count == 0 {
                assert(self@ =~= old(self)@.remove(code));
            } else {
                assert(self@ =~= old(self)@.insert(code, count as nat));
            }
        }
    }
}

impl Clone for ConditionDistribution {
    fn clone(&self) -> (r: Self)
        ensures
            r@ == self@,
    {
        proof {
            use_type_invariant(self);
        }
        let counts = self.counts.clone();
        assert(counts@ =~= self.counts@);
        ConditionDistribution { counts }
    }
}

impl Default for ConditionDistribution {
    fn default() -> (r: Self)
        ensures
            r@ == Map::<WeatherCode, nat>::empty(),
    {
        ConditionDistribution::new()
    }
}

/// One zero for each WMO number below 100.
fn zeroed_counts() -> (counts: Vec<u64>)
    ensures
        counts@.len() == 100,
        forall|k: int| 0 <= k < 100 ==> counts@[k] == 0,
{
    let mut counts: Vec<u64> = Vec::new();
    while counts.len() < 100
        invariant
            counts@.len() <= 100,
            forall|k: int| 0 <= k < counts@.len() ==> counts@[k] == 0,
        decreases 100 - counts@.len(),
    {
        counts.push(0);
    }
    counts
}

impl ForecastMap {
    /// The mean of the minimum or of the maximum temperatures of all
    /// forecasts, rounded down to a thousandth of a degree; `None` where
    /// there is no forecast.
    pub fn mean_temperature(&self, which: Extreme) -> (r: Option<CelsiusTemperature>)
        ensures
            r == mean_temperature_of(self@, which),
    {
        let n = self.len();
        if n == 0 {
            return None;
        }
        // Each reading is lifted by 2^31, so that the sum is never negative.
        let mut lifted_sum: u128 = 0;
        let mut i: usize = 0;
        while i < n
            invariant
                i <= n,
                n == self@.len(),
                lifted_sum == temperature_sum(self@.take(i as int), which) + i * 0x8000_0000,
                lifted_sum <= i * 0xffff_ffff,
            decreases n - i,
        {
            let (_, forecast) = self.entry_at(i);
            let t: i32 = match which {
                Extreme::Minimum => forecast.minimum_temperature.0,
                Extreme::Maximum => forecast.maximum_temperature.0,
            };
            let lifted: u128 = (t as i64 + 0x8000_0000) as u128;
            proof {
                assert(self@.take(i + 1).drop_last() =~= self@.take(i as int));
                assert((i + 1) * 0x8000_0000 == i * 0x8000_0000 + 0x8000_0000) by (nonlinear_arith);
                assert((i + 1) * 0xffff_ffff == i * 0xffff_ffff + 0xffff_ffff) by (nonlinear_arith);
                assert(i * 0xffff_ffff <= 0xffff_ffff_ffff_ffff * 0xffff_ffff) by (nonlinear_arith)
                    requires
                        i <= 0xffff_ffff_ffff_ffff,
                ;
            }
            lifted_sum = lifted_sum + lifted;
            i += 1;
        }
        let lifted_mean: u128 = lifted_sum / (n as u128);
        proof {
            assert(self@.take(n as int) =~= self@);
            let sum = temperature_sum(self@, which);
            lemma_hoist_over_denominator(sum, 0x8000_0000, n as nat);
            assert(0x8000_0000 * (n as int) == n * 0x8000_0000) by (nonlinear_arith);
            assert(lifted_mean == sum / (n as int) + 0x8000_0000);
            lemma_div_is_ordered(lifted_sum as int, n * 0xffff_ffff, n as int);
            lemma_div_multiples_vanish(0xffff_ffff, n as int);
            assert(n * 0xffff_ffff == (n as int) * 0xffff_ffff);
            assert((n as int) * 0xffff_ffff == 0xffff_ffff * (n as int)) by (nonlinear_arith);
        }
        let mean: i64 = lifted_mean as i64 - 0x8000_0000;
        Some(CelsiusTemperature(mean as i32))
    }

    /// How often each weather condition occurs among the forecasts. A
    /// forecast without a condition counts for none.
    pub fn condition_distribution(&self) -> (r: ConditionDistribution)
        ensures
            r@ == distribution_of(self@),
    {
        let n = self.len();
        let mut counts = zeroed_counts();
        let mut i: usize = 0;
        while i < n
            invariant
                i <= n,
                n == self@.len(),
                counts@.len() == 100,
                forall|k: int| 0 <= k < 100 ==> #[trigger] counts@[k] <= i,
                forall|code: WeatherCode|
                    counts@[#[trigger] code.spec_wmo_code() as int] == code_count(
                        self@.take(i as int),
                        code,
                    ),
            decreases n - i,
        {
            let (_, forecast) = self.entry_at(i);
            proof {
                assert(self@.take(i + 1).drop_last() =~= self@.take(i as int));
            }
            match forecast.weather_code {
                Some(code) => {
                    let slot = code.wmo_code() as usize;
                    let count = counts[slot];
                    counts.set(slot, count + 1);
                },
                None => {},
            }
            i += 1;
        }
        assert(self@.take(n as int) =~= self@);
        let r = ConditionDistribution { counts };
        assert(r@ =~= distribution_of(self@));
        r
    }
}

} // verus!
