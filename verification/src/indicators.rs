//! Indicator math over ordered decimal price series: simple and exponential
//! moving averages and the relative strength index. Each indicator takes the
//! series oldest-to-newest and a period, and returns `None` exactly when the
//! series is too short.

use crate::decimal::{div_floor, in_range, Dec, SCALE};
use vstd::arithmetic::div_mod::{
    lemma_div_is_ordered, lemma_div_is_ordered_by_denominator, lemma_div_multiples_vanish,
    lemma_div_nonincreasing, lemma_div_pos_is_pos, lemma_fundamental_div_mod,
    lemma_mod_division_less_than_divisor,
};
use vstd::arithmetic::mul::lemma_mul_nonnegative;
use vstd::prelude::*;

verus! {

/// Largest accepted indicator period; keeps window sums within an `i128`.
pub const PERIOD_LIMIT: usize = 1_000_000_000;

/// The unit counts of a decimal sequence.
pub open spec fn units_of(prices: Seq<Dec>) -> Seq<int> {
    prices.map_values(|d: Dec| d.units as int)
}

/// Whether every element is a unit count a parsed market value can take.
pub open spec fn all_in_range(s: Seq<int>) -> bool {
    forall|i: int| 0 <= i < s.len() ==> in_range(#[trigger] s[i])
}

/// Sum of a sequence of integers.
pub open spec fn seq_sum(s: Seq<int>) -> int
    decreases s.len(),
{
    if s.len() == 0 {
        0
    } else {
        seq_sum(s.drop_last()) + s.last()
    }
}

/// The simple moving average over the last `k` elements: their mean, rounded
/// toward negative infinity at the unit scale.
pub open spec fn spec_sma(s: Seq<int>, k: int) -> int {
    div_floor(seq_sum(s.subrange(s.len() - k, s.len() as int)), k)
}

/// The multiplier of the exponential moving average, `2 / (k + 1)` in units.
pub open spec fn ema_multiplier(k: int) -> int {
    div_floor(2 * SCALE as int, k + 1)
}

/// One update of the exponential moving average.
pub open spec fn ema_step(e: int, p: int, m: int) -> int {
    e + div_floor((p - e) * m, SCALE as int)
}

/// The exponential moving average: seeded with the mean of the first `k`
/// elements, then updated once per later element.
pub open spec fn spec_ema(s: Seq<int>, k: int) -> int
    decreases s.len(),
{
    if s.len() == 0 || s.len() <= k {
        div_floor(seq_sum(s.subrange(0, k)), k)
    } else {
        ema_step(spec_ema(s.drop_last(), k), s.last(), ema_multiplier(k))
    }
}

/// Per-step changes of a series.
pub open spec fn spec_deltas(s: Seq<int>) -> Seq<int> {
    if s.len() == 0 {
        Seq::empty()
    } else {
        Seq::new((s.len() - 1) as nat, |i: int| s[i + 1] - s[i])
    }
}

/// The gain a change contributes.
pub open spec fn gain_of(d: int) -> int {
    if d > 0 {
        d
    } else {
        0
    }
}

/// The loss a change contributes.
pub open spec fn loss_of(d: int) -> int {
    if d > 0 {
        0
    } else {
        -d
    }
}

/// The relative strength index over the last `k` changes, in units on the
/// 0-100 scale: 100 when the average loss is zero, else
/// `100 - 100 / (1 + RS)` with `RS` the ratio of average gain to average
/// loss, every quotient rounded toward negative infinity at the unit scale.
/// The numerator literal is `100 * SCALE * SCALE`.
pub open spec fn spec_rsi(s: Seq<int>, k: int) -> int {
    let ds = spec_deltas(s);
    let g = seq_sum(ds.map_values(|d: int| gain_of(d)).subrange(ds.len() - k, ds.len() as int));
    let l = seq_sum(ds.map_values(|d: int| loss_of(d)).subrange(ds.len() - k, ds.len() as int));
    let avg_gain = div_floor(g, k);
    let avg_loss = div_floor(l, k);
    if avg_loss == 0 {
        100 * SCALE as int
    } else {
        let rs = div_floor(avg_gain * SCALE as int, avg_loss);
        100 * SCALE as int - div_floor(100_000_000_000_000_000_000, SCALE as int + rs)
    }
}

/// A non-negative value divided by `k` stays between 0 and any `b` with
/// `x <= k * b`.
proof fn lemma_div_bound_upper(x: int, k: int, b: int)
    requires
        k >= 1,
        b >= 0,
        0 <= x <= k * b,
    ensures
        0 <= x / k <= b,
{
    lemma_div_pos_is_pos(x, k);
    lemma_div_is_ordered(x, k * b, k);
    lemma_div_multiples_vanish(b, k);
}

/// Sum of an elementwise non-negative sequence is non-negative.
proof fn lemma_seq_sum_nonneg(s: Seq<int>)
    requires
        forall|i: int| 0 <= i < s.len() ==> #[trigger] s[i] >= 0,
    ensures
        seq_sum(s) >= 0,
    decreases s.len(),
{
    if s.len() > 0 {
        lemma_seq_sum_nonneg(s.drop_last());
    }
}

/// Sum of an all-zero sequence is zero.
proof fn lemma_seq_sum_zero(s: Seq<int>)
    requires
        forall|i: int| 0 <= i < s.len() ==> #[trigger] s[i] == 0,
    ensures
        seq_sum(s) == 0,
    decreases s.len(),
{
    if s.len() > 0 {
        lemma_seq_sum_zero(s.drop_last());
    }
}

/// The simple moving average of the last `k` prices.
///
/// Defined exactly when the series has at least `k` elements; the result is
/// the floor of the arithmetic mean of the last `k` unit counts.
pub fn calculate_sma(prices: &Vec<Dec>, period: usize) -> (r: Option<Dec>)
    requires
        1 <= period <= PERIOD_LIMIT,
        all_in_range(units_of(prices@)),
    ensures
        r is Some <==> period <= prices@.len(),
        r matches Some(d) ==> d.units == spec_sma(units_of(prices@), period as int) && in_range(
            d.units as int,
        ),
{
    if prices.len() < period {
        return None;
    }
    let ghost u: Seq<int> = units_of(prices@);
    let start: usize = prices.len() - period;
    let mut sum: i128 = 0;
    let mut i: usize = start;
    while i < prices.len()
        invariant
            start <= i <= prices@.len(),
            start == prices@.len() - period,
            1 <= period <= PERIOD_LIMIT,
            u == units_of(prices@),
            all_in_range(u),
            sum == seq_sum(u.subrange(start as int, i as int)),
            -10_000_000_000_000_000_000 * ((i - start) as int) <= sum
                <= 10_000_000_000_000_000_000 * ((i - start) as int),
        decreases prices@.len() - i,
    {
        proof {
            assert(in_range(u[i as int]));
            assert(u.subrange(start as int, i + 1).drop_last() =~= u.subrange(
                start as int,
                i as int,
            ));
        }
        sum = sum + prices[i].units;
        i = i + 1;
    }
    proof {
        lemma_floor_div_in_range(sum as int, period as int);
    }
    let q: i128 = crate::decimal::div_units(sum, period as i128);
    Some(Dec { units: q })
}

/// The quotient of a window sum by the window length stays in range.
proof fn lemma_floor_div_in_range(sum: int, k: int)
    requires
        k >= 1,
        -10_000_000_000_000_000_000 * k <= sum <= 10_000_000_000_000_000_000 * k,
    ensures
        in_range(div_floor(sum, k)),
{
    lemma_div_is_ordered(sum, 10_000_000_000_000_000_000 * k, k);
    lemma_div_is_ordered(-10_000_000_000_000_000_000 * k, sum, k);
    lemma_div_multiples_vanish(10_000_000_000_000_000_000, k);
    lemma_div_multiples_vanish(-10_000_000_000_000_000_000, k);
}

/// One EMA step keeps the average between the old average and the new
/// price, hence in range.
proof fn lemma_ema_step_in_range(e: int, p: int, m: int)
    requires
        in_range(e),
        in_range(p),
        0 <= m <= SCALE as int,
    ensures
        in_range(ema_step(e, p, m)),
        e <= p ==> e <= ema_step(e, p, m) <= p,
        p <= e ==> p <= ema_step(e, p, m) <= e,
{
    let d = p - e;
    let s = SCALE as int;
    assert(d * s == s * d) by (nonlinear_arith);
    lemma_div_multiples_vanish(d, s);
    if d >= 0 {
        assert(0 <= d * m <= d * s) by (nonlinear_arith)
            requires
                d >= 0,
                0 <= m <= s,
        ;
        lemma_div_pos_is_pos(d * m, s);
        lemma_div_is_ordered(d * m, d * s, s);
    } else {
        assert(d * s <= d * m <= 0) by (nonlinear_arith)
            requires
                d < 0,
                0 <= m <= s,
                s > 0,
        ;
        lemma_div_is_ordered(d * s, d * m, s);
        lemma_div_is_ordered(d * m, 0, s);
        assert(0int / s == 0);
    }
}

/// The exponential moving average with period `k`.
///
/// Defined exactly when the series has at least `k` elements; seeded with
/// the mean of the first `k`, then updated by the multiplier recurrence for
/// each later element.
pub fn calculate_ema(prices: &Vec<Dec>, period: usize) -> (r: Option<Dec>)
    requires
        1 <= period <= PERIOD_LIMIT,
        all_in_range(units_of(prices@)),
    ensures
        r is Some <==> period <= prices@.len(),
        r matches Some(d) ==> d.units == spec_ema(units_of(prices@), period as int) && in_range(
            d.units as int,
        ),
{
    if prices.len() < period {
        return None;
    }
    let ghost u: Seq<int> = units_of(prices@);
    let mut sum: i128 = 0;
    let mut i: usize = 0;
    while i < period
        invariant
            i <= period <= prices@.len(),
            1 <= period <= PERIOD_LIMIT,
            u == units_of(prices@),
            all_in_range(u),
            sum == seq_sum(u.subrange(0, i as int)),
            -10_000_000_000_000_000_000 * (i as int) <= sum <= 10_000_000_000_000_000_000 * (
            i as int),
        decreases period - i,
    {
        proof {
            assert(in_range(u[i as int]));
            assert(u.subrange(0, i + 1).drop_last() =~= u.subrange(0, i as int));
        }
        sum = sum + prices[i].units;
        i = i + 1;
    }
    let m: i128 = crate::decimal::div_units(2 * SCALE, period as i128 + 1);
    proof {
        lemma_div_pos_is_pos(2 * SCALE as int, period as int + 1);
        lemma_div_is_ordered_by_denominator(2 * SCALE as int, 2, period as int + 1);
        assert(2 * SCALE as int / 2 == SCALE as int);
    }
    let mut e: i128 = crate::decimal::div_units(sum, period as i128);
    proof {
        lemma_floor_div_in_range(sum as int, period as int);
        assert(u.subrange(0, period as int).subrange(0, period as int) =~= u.subrange(
            0,
            period as int,
        ));
    }
    while i < prices.len()
        invariant
            period <= i <= prices@.len(),
            1 <= period <= PERIOD_LIMIT,
            u == units_of(prices@),
            all_in_range(u),
            0 <= m <= SCALE,
            m == ema_multiplier(period as int),
            in_range(e as int),
            e == spec_ema(u.subrange(0, i as int), period as int),
        decreases prices@.len() - i,
    {
        proof {
            assert(in_range(u[i as int]));
        }
        let p: i128 = prices[i].units;
        let diff: i128 = p - e;
        proof {
            assert(-20_000_000_000_000_000_000_000_000_000 <= (diff as int) * (m as int)
                <= 20_000_000_000_000_000_000_000_000_000) by (nonlinear_arith)
                requires
                    -20_000_000_000_000_000_000 <= diff as int <= 20_000_000_000_000_000_000,
                    0 <= m as int <= 1_000_000_000,
            ;
        }
        let prod: i128 = diff * m;
        let q: i128 = crate::decimal::div_units(prod, SCALE);
        proof {
            lemma_ema_step_in_range(e as int, p as int, m as int);
            assert(u.subrange(0, i + 1).drop_last() =~= u.subrange(0, i as int));
            assert(u.subrange(0, i + 1).len() > period as int);
        }
        e = e + q;
        i = i + 1;
    }
    proof {
        assert(u.subrange(0, u.len() as int) =~= u);
    }
    Some(Dec { units: e })
}

/// The relative strength index over the last `period` changes.
///
/// Defined exactly when the series has at least `period + 1` elements.
pub fn calculate_rsi(prices: &Vec<Dec>, period: usize) -> (r: Option<Dec>)
    requires
        1 <= period <= PERIOD_LIMIT,
        all_in_range(units_of(prices@)),
    ensures
        r is Some <==> period + 1 <= prices@.len(),
        r matches Some(d) ==> d.units == spec_rsi(units_of(prices@), period as int) && in_range(
            d.units as int,
        ),
{
    let n: usize = prices.len();
    if n < period + 1 {
        return None;
    }
    let ghost u: Seq<int> = units_of(prices@);
    let ghost ds: Seq<int> = spec_deltas(u);
    let ghost gs: Seq<int> = ds.map_values(|d: int| gain_of(d));
    let ghost ls: Seq<int> = ds.map_values(|d: int| loss_of(d));
    let start: usize = n - 1 - period;
    let mut g: i128 = 0;
    let mut l: i128 = 0;
    let mut j: usize = start;
    while j < n - 1
        invariant
            start <= j <= n - 1,
            n == prices@.len(),
            1 <= period <= PERIOD_LIMIT,
            start == n - 1 - period,
            u == units_of(prices@),
            all_in_range(u),
            ds == spec_deltas(u),
            gs == ds.map_values(|d: int| gain_of(d)),
            ls == ds.map_values(|d: int| loss_of(d)),
            g == seq_sum(gs.subrange(start as int, j as int)),
            l == seq_sum(ls.subrange(start as int, j as int)),
            0 <= g <= 20_000_000_000_000_000_000 * ((j - start) as int),
            0 <= l <= 20_000_000_000_000_000_000 * ((j - start) as int),
        decreases n - 1 - j,
    {
        proof {
            assert(in_range(u[j as int]));
            assert(in_range(u[j + 1]));
            assert(ds[j as int] == u[j + 1] - u[j as int]);
            assert(gs.subrange(start as int, j + 1).drop_last() =~= gs.subrange(
                start as int,
                j as int,
            ));
            assert(ls.subrange(start as int, j + 1).drop_last() =~= ls.subrange(
                start as int,
                j as int,
            ));
        }
        let d: i128 = prices[j + 1].units - prices[j].units;
        if d > 0 {
            g = g + d;
        } else {
            l = l - d;
        }
        j = j + 1;
    }
    let ag: i128 = crate::decimal::div_units(g, period as i128);
    let al: i128 = crate::decimal::div_units(l, period as i128);
    proof {
        lemma_div_bound_upper(g as int, period as int, 20_000_000_000_000_000_000);
        lemma_div_bound_upper(l as int, period as int, 20_000_000_000_000_000_000);
        assert(gs.subrange(start as int, (n - 1) as int) =~= gs.subrange(
            gs.len() - period,
            gs.len() as int,
        ));
        assert(ls.subrange(start as int, (n - 1) as int) =~= ls.subrange(
            ls.len() - period,
            ls.len() as int,
        ));
    }
    if al == 0 {
        return Some(Dec { units: 100 * SCALE });
    }
    proof {
        assert(0 <= (ag as int) * (SCALE as int) <= 20_000_000_000_000_000_000_000_000_000)
            by (nonlinear_arith)
            requires
                0 <= ag as int <= 20_000_000_000_000_000_000,
                SCALE as int == 1_000_000_000,
        ;
    }
    let rs: i128 = crate::decimal::div_units(ag * SCALE, al);
    proof {
        lemma_div_pos_is_pos(ag as int * SCALE as int, al as int);
        lemma_div_is_ordered(
            ag as int * SCALE as int,
            20_000_000_000_000_000_000_000_000_000,
            al as int,
        );
        lemma_div_nonincreasing(20_000_000_000_000_000_000_000_000_000, al as int);
    }
    let num: i128 = 100_000_000_000_000_000_000;
    let denom: i128 = SCALE + rs;
    let ratio: i128 = crate::decimal::div_units(num, denom);
    proof {
        lemma_div_pos_is_pos(num as int, denom as int);
        lemma_div_is_ordered_by_denominator(num as int, SCALE as int, denom as int);
        lemma_div_multiples_vanish(100 * SCALE as int, SCALE as int);
    }
    Some(Dec { units: 100 * SCALE - ratio })
}

/// The mean law of the simple moving average: `k` times the SMA brackets the
/// window sum, so the SMA is exactly the arithmetic mean of the last `k`
/// unit counts whenever that mean is whole, and its floor otherwise.
pub proof fn lemma_sma_is_mean(s: Seq<int>, k: int)
    requires
        1 <= k <= s.len(),
    ensures
        k * spec_sma(s, k) <= seq_sum(s.subrange(s.len() - k, s.len() as int)) < k * (spec_sma(
            s,
            k,
        ) + 1),
{
    let sum = seq_sum(s.subrange(s.len() - k, s.len() as int));
    lemma_fundamental_div_mod(sum, k);
    lemma_mod_division_less_than_divisor(sum, k);
    assert(k * (sum / k + 1) == k * (sum / k) + k) by (nonlinear_arith);
}

/// The seed law of the exponential moving average: at the first defined
/// point (a series of exactly `k` elements) the EMA equals the SMA.
pub proof fn lemma_ema_seed(s: Seq<int>, k: int)
    requires
        1 <= k,
        s.len() == k,
    ensures
        spec_ema(s, k) == spec_sma(s, k),
{
    assert(s.subrange(0, k) =~= s.subrange(s.len() - k, s.len() as int));
}

/// The recurrence law of the exponential moving average: past the seed,
/// each element updates the average by the multiplier recurrence.
pub proof fn lemma_ema_recurrence(s: Seq<int>, k: int)
    requires
        1 <= k < s.len(),
    ensures
        spec_ema(s, k) == ema_step(spec_ema(s.drop_last(), k), s.last(), ema_multiplier(k)),
{
}

/// The range law of the relative strength index: it is 100 whenever no
/// change in the window is a loss, and lies between 0 and 100 always.
pub proof fn lemma_rsi_range(s: Seq<int>, k: int)
    requires
        1 <= k,
        k + 1 <= s.len(),
    ensures
        (forall|i: int| s.len() - 1 - k <= i < s.len() - 1 ==> s[i + 1] >= #[trigger] s[i])
            ==> spec_rsi(s, k) == 100 * SCALE as int,
        0 <= spec_rsi(s, k) <= 100 * SCALE as int,
{
    let ds = spec_deltas(s);
    let gs = ds.map_values(|d: int| gain_of(d));
    let ls = ds.map_values(|d: int| loss_of(d));
    let gsub = gs.subrange(ds.len() - k, ds.len() as int);
    let lsub = ls.subrange(ds.len() - k, ds.len() as int);
    let g = seq_sum(gsub);
    let l = seq_sum(lsub);
    assert forall|i: int| 0 <= i < gsub.len() implies #[trigger] gsub[i] >= 0 by {
        assert(gsub[i] == gain_of(ds[ds.len() - k + i]));
    }
    assert forall|i: int| 0 <= i < lsub.len() implies #[trigger] lsub[i] >= 0 by {
        assert(lsub[i] == loss_of(ds[ds.len() - k + i]));
    }
    lemma_seq_sum_nonneg(gsub);
    lemma_seq_sum_nonneg(lsub);
    lemma_div_pos_is_pos(g, k);
    lemma_div_pos_is_pos(l, k);
    let avg_gain = div_floor(g, k);
    let avg_loss = div_floor(l, k);
    if forall|i: int| s.len() - 1 - k <= i < s.len() - 1 ==> s[i + 1] >= #[trigger] s[i] {
        assert forall|i: int| 0 <= i < lsub.len() implies #[trigger] lsub[i] == 0 by {
            assert(lsub[i] == loss_of(ds[ds.len() - k + i]));
            assert(s[ds.len() - k + i + 1] >= s[ds.len() - k + i]);
        }
        lemma_seq_sum_zero(lsub);
        assert(0int / k == 0);
    }
    if avg_loss != 0 {
        lemma_mul_nonnegative(avg_gain, SCALE as int);
        let rs = div_floor(avg_gain * SCALE as int, avg_loss);
        lemma_div_pos_is_pos(avg_gain * SCALE as int, avg_loss);
        let num = 100_000_000_000_000_000_000int;
        let denom = SCALE as int + rs;
        lemma_div_pos_is_pos(num, denom);
        lemma_div_is_ordered_by_denominator(num, SCALE as int, denom);
        lemma_div_multiples_vanish(100 * SCALE as int, SCALE as int);
    }
}

} // verus!
