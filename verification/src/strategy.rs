//! Trading strategies: the signal type, the strategy capability set, and the
//! SMA-crossover reference strategy.
//!
//! Signal strength is a dimensionless quality score held in thousandths
//! (per-mille): `1000` stands for a full-strength signal.

use crate::decimal::{div_floor, in_range, Dec, SCALE};
use crate::indicators::{all_in_range, calculate_sma, spec_sma, units_of, PERIOD_LIMIT};
use crate::models::{close_units_seq, MarketData};
use vstd::arithmetic::div_mod::lemma_div_pos_is_pos;
use vstd::arithmetic::mul::lemma_mul_nonnegative;
use vstd::prelude::*;

verus! {

/// Full strength on the per-mille scale.
pub const STRENGTH_SCALE: u32 = 1000;

/// A trading signal with its strength in thousandths.
#[derive(Debug, Clone, Copy, PartialEq, Eq, Structural)]
pub enum Signal {
    Buy { strength: u32 },
    Sell { strength: u32 },
    Hold,
}

impl Signal {
    /// Whether the strength stays on the per-mille scale.
    pub open spec fn wf(self) -> bool {
        match self {
            Signal::Buy { strength } => strength <= STRENGTH_SCALE,
            Signal::Sell { strength } => strength <= STRENGTH_SCALE,
            Signal::Hold => true,
        }
    }

    /// Whether the signal calls for an order: it is a buy or a sell and its
    /// strength reaches the threshold.
    pub fn is_actionable(&self, min_strength: u32) -> (r: bool)
        ensures
            r == match *self {
                Signal::Buy { strength } => strength >= min_strength,
                Signal::Sell { strength } => strength >= min_strength,
                Signal::Hold => false,
            },
    {
        match self {
            Signal::Buy { strength } => *strength >= min_strength,
            Signal::Sell { strength } => *strength >= min_strength,
            Signal::Hold => false,
        }
    }

    /// The strength of the signal; zero for a hold.
    pub fn strength(&self) -> (r: u32)
        ensures
            r == match *self {
                Signal::Buy { strength } => strength,
                Signal::Sell { strength } => strength,
                Signal::Hold => 0u32,
            },
    {
        match self {
            Signal::Buy { strength } => *strength,
            Signal::Sell { strength } => *strength,
            Signal::Hold => 0,
        }
    }
}

/// The capability set of a strategy: a name, the candle history it needs,
/// and a side-effect-free analysis from market data to a signal.
pub trait Strategy: Sized {
    /// Whether the strategy's parameters are usable.
    spec fn wf(&self) -> bool;

    /// The history requirement, at the specification level.
    spec fn spec_required_history(&self) -> int;

    /// The signal the strategy assigns to a market snapshot.
    spec fn spec_signal(&self, md: &MarketData) -> Signal;

    /// A human-readable name.
    fn name(&self) -> (r: &'static str);

    /// The minimum number of candles needed to form an actionable signal.
    fn required_history(&self) -> (r: usize)
        requires
            self.wf(),
        ensures
            r as int == self.spec_required_history(),
    ;

    /// Analyze a market snapshot and return the signal it assigns.
    fn analyze(&self, md: &MarketData) -> (s: Signal)
        requires
            self.wf(),
        ensures
            s == self.spec_signal(md),
            s.wf(),
    ;
}

/// The per-mille strength assigned to a detected crossover: half strength
/// plus the separation of the two averages, where one percent of separation
/// already counts as full strength.
pub open spec fn spec_strength(sn: int, ln: int) -> int {
    let sep = if ln != 0 {
        let du = div_floor(vstd::math::abs(sn - ln) as int * SCALE as int, ln);
        vstd::math::min(1000, div_floor(du, 10_000))
    } else {
        0
    };
    vstd::math::min(1000, 500 + sep)
}

/// The signal of the SMA-crossover rule on a series of close-price units.
pub open spec fn spec_crossover_signal(
    prices: Seq<int>,
    short: int,
    long: int,
    min_strength: int,
) -> Signal {
    if prices.len() < long + 1 {
        Signal::Hold
    } else {
        let sn = spec_sma(prices, short);
        let ln = spec_sma(prices, long);
        let prev = prices.subrange(0, prices.len() - 1);
        let sp = spec_sma(prev, short);
        let lp = spec_sma(prev, long);
        let st = spec_strength(sn, ln);
        if sp < lp && sn > ln && st >= min_strength {
            Signal::Buy { strength: st as u32 }
        } else if sp > lp && sn < ln && st >= min_strength {
            Signal::Sell { strength: st as u32 }
        } else {
            Signal::Hold
        }
    }
}

/// The SMA-crossover reference strategy: a golden cross (the short average
/// crossing above the long) buys, a death cross sells.
#[derive(Debug, Clone, Copy)]
pub struct SmaCrossoverStrategy {
    pub short_period: usize,
    pub long_period: usize,
    pub min_signal_strength: u32,
}

impl SmaCrossoverStrategy {
    /// Build the strategy; the short period must be shorter than the long.
    pub fn new(short_period: usize, long_period: usize, min_signal_strength: u32) -> (r:
        SmaCrossoverStrategy)
        requires
            1 <= short_period,
            short_period < long_period,
            long_period < PERIOD_LIMIT,
        ensures
            r.short_period == short_period,
            r.long_period == long_period,
            r.min_signal_strength == min_signal_strength,
            r.wf(),
    {
        SmaCrossoverStrategy { short_period, long_period, min_signal_strength }
    }
}

impl Strategy for SmaCrossoverStrategy {
    open spec fn wf(&self) -> bool {
        1 <= self.short_period && self.short_period < self.long_period && self.long_period
            < PERIOD_LIMIT
    }

    open spec fn spec_required_history(&self) -> int {
        self.long_period + 1
    }

    open spec fn spec_signal(&self, md: &MarketData) -> Signal {
        spec_crossover_signal(
            close_units_seq(*md),
            self.short_period as int,
            self.long_period as int,
            self.min_signal_strength as int,
        )
    }

    fn name(&self) -> (r: &'static str) {
        "SMA Crossover"
    }

    fn required_history(&self) -> (r: usize) {
        self.long_period + 1
    }

    fn analyze(&self, md: &MarketData) -> (s: Signal) {
        let prices: Vec<Dec> = md.close_prices();
        let ghost u: Seq<int> = units_of(prices@);
        proof {
            assert(u =~= close_units_seq(*md));
            assert forall|i: int| 0 <= i < u.len() implies in_range(#[trigger] u[i]) by {
                assert(in_range(prices@[i].units as int));
            }
        }
        if prices.len() < self.long_period + 1 {
            return Signal::Hold;
        }
        let s_now: Dec = calculate_sma(&prices, self.short_period).unwrap();
        let l_now: Dec = calculate_sma(&prices, self.long_period).unwrap();
        let mut prev: Vec<Dec> = Vec::new();
        let mut i: usize = 0;
        while i < prices.len() - 1
            invariant
                i <= prices@.len() - 1,
                prices@.len() >= 1,
                prev@ =~= prices@.subrange(0, i as int),
            decreases prices@.len() - 1 - i,
        {
            let d: Dec = prices[i];
            prev.push(d);
            i = i + 1;
        }
        proof {
            assert(units_of(prev@) =~= u.subrange(0, u.len() - 1));
            assert(all_in_range(units_of(prev@)));
        }
        let s_prev: Dec = calculate_sma(&prev, self.short_period).unwrap();
        let l_prev: Dec = calculate_sma(&prev, self.long_period).unwrap();

        let sn: i128 = s_now.units;
        let ln: i128 = l_now.units;
        let sep: i128 = if ln != 0 {
            let diffabs: i128 = if sn >= ln {
                sn - ln
            } else {
                ln - sn
            };
            proof {
                assert(0 <= (diffabs as int) * 1_000_000_000
                    <= 20_000_000_000_000_000_000_000_000_000) by (nonlinear_arith)
                    requires
                        0 <= diffabs as int <= 20_000_000_000_000_000_000,
                ;
            }
            let du: i128 = if ln > 0 {
                proof {
                    lemma_div_pos_is_pos((diffabs as int) * (SCALE as int), ln as int);
                    vstd::arithmetic::div_mod::lemma_div_nonincreasing(
                        (diffabs as int) * (SCALE as int),
                        ln as int,
                    );
                }
                crate::decimal::div_units(diffabs * SCALE, ln)
            } else {
                proof {
                    crate::decimal::lemma_div_floor_neg_bounds(
                        -((diffabs as int) * (SCALE as int)),
                        -(ln as int),
                    );
                }
                crate::decimal::div_units(-(diffabs * SCALE), -ln)
            };
            let raw: i128 = crate::decimal::div_units(du, 10_000);
            if raw > 1000 {
                1000
            } else {
                raw
            }
        } else {
            0
        };
        let st0: i128 = 500 + sep;
        let st: i128 = if st0 > 1000 {
            1000
        } else {
            st0
        };
        let was_below: bool = s_prev.units < l_prev.units;
        let is_above: bool = sn > ln;
        let was_above: bool = s_prev.units > l_prev.units;
        let is_below: bool = sn < ln;
        if was_below && is_above && st >= self.min_signal_strength as i128 {
            Signal::Buy { strength: st as u32 }
        } else if was_above && is_below && st >= self.min_signal_strength as i128 {
            Signal::Sell { strength: st as u32 }
        } else {
            Signal::Hold
        }
    }
}

/// The golden-cross law: when the short average was below the long and is
/// now above it, the long average is positive, and the strategy's threshold
/// is at most the half-strength floor, the crossover signal is a buy whose
/// strength lies between half and full.
pub proof fn lemma_golden_cross_buy(prices: Seq<int>, short: int, long: int, min_strength: int)
    requires
        1 <= short < long,
        prices.len() >= long + 1,
        0 <= min_strength <= 500,
        spec_sma(prices.subrange(0, prices.len() - 1), short) < spec_sma(
            prices.subrange(0, prices.len() - 1),
            long,
        ),
        spec_sma(prices, short) > spec_sma(prices, long),
        spec_sma(prices, long) > 0,
    ensures
        spec_crossover_signal(prices, short, long, min_strength) matches Signal::Buy {
            strength,
        } && 500 <= strength <= 1000,
{
    lemma_strength_range(spec_sma(prices, short), spec_sma(prices, long));
}

/// The death-cross law: symmetrically, a short average crossing below a
/// positive long average gives a sell whose strength lies between half and
/// full.
pub proof fn lemma_death_cross_sell(prices: Seq<int>, short: int, long: int, min_strength: int)
    requires
        1 <= short < long,
        prices.len() >= long + 1,
        0 <= min_strength <= 500,
        spec_sma(prices.subrange(0, prices.len() - 1), short) > spec_sma(
            prices.subrange(0, prices.len() - 1),
            long,
        ),
        spec_sma(prices, short) < spec_sma(prices, long),
        spec_sma(prices, long) > 0,
    ensures
        spec_crossover_signal(prices, short, long, min_strength) matches Signal::Sell {
            strength,
        } && 500 <= strength <= 1000,
{
    lemma_strength_range(spec_sma(prices, short), spec_sma(prices, long));
}

/// Against a positive long average the crossover strength lies between half
/// and full.
proof fn lemma_strength_range(sn: int, ln: int)
    requires
        ln > 0,
    ensures
        500 <= spec_strength(sn, ln) <= 1000,
{
    lemma_mul_nonnegative(vstd::math::abs(sn - ln) as int, SCALE as int);
    lemma_div_pos_is_pos(vstd::math::abs(sn - ln) as int * SCALE as int, ln);
    let du = div_floor(vstd::math::abs(sn - ln) as int * SCALE as int, ln);
    lemma_div_pos_is_pos(du, 10_000);
}

} // verus!
