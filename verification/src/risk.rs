//! The pre-trade risk gate: order validation, position sizing, and the
//! rolling daily-loss and open-position counters. All percentages are on the
//! 0-100 scale.

use crate::decimal::{div_floor, in_range, Dec, MAX_UNITS, SCALE};
use crate::models::{Balance, OrderRequest, OrderSide, OrderType};
use vstd::arithmetic::div_mod::{lemma_div_is_ordered, lemma_div_multiples_vanish};
use vstd::prelude::*;

verus! {

/// A typed risk violation, reported to the engine as expected flow control.
#[derive(Debug, Clone)]
pub enum RiskError {
    PositionTooLarge { requested: Dec, max_allowed: Dec, max_pct: Dec },
    InsufficientBalance { available: Dec, required: Dec },
    DailyLossExceeded { current_loss: Dec, max_loss: Dec },
    MaxPositionsReached { max: u32 },
    InvalidOrder { reason: String },
}

/// The outcome of the ordered validation cascade: state gates first, then
/// money gates, then shape gates.
#[derive(Debug, Clone, Copy, PartialEq, Eq, Structural)]
pub enum RiskVerdict {
    Pass,
    DailyLoss,
    MaxPositions,
    TooLarge,
    Insufficient,
    NonPositiveQuantity,
    LimitWithoutPrice,
}

/// The largest value an order may bind: `available * max_pct` percent,
/// computed in units.
pub open spec fn spec_max_position_value(available: int, max_pct: int) -> int {
    div_floor(div_floor(available * max_pct, SCALE as int), 100)
}

/// The quantity the sizing rule assigns: `balance` times the capped risk
/// percentage, divided by the price, every quotient rounded toward negative
/// infinity at the unit scale.
pub open spec fn spec_position_size(balance: int, risk_pct: int, max_pct: int, price: int) -> int {
    let eff = vstd::math::min(risk_pct, max_pct);
    let value = div_floor(div_floor(balance * eff, SCALE as int), 100);
    div_floor(value * SCALE as int, price)
}

/// Pre-trade limits (immutable) and counters (mutable, process-lived).
#[derive(Debug, Clone)]
pub struct RiskManager {
    pub max_position_pct: Dec,
    pub max_daily_loss_pct: Dec,
    pub max_open_positions: u32,
    pub current_daily_loss_pct: Dec,
    pub current_open_positions: u32,
}

impl RiskManager {
    /// Limits and counters are non-negative and stay within the
    /// parsed-value range.
    pub open spec fn wf(self) -> bool {
        &&& 0 <= self.max_position_pct.units <= MAX_UNITS as int
        &&& 0 <= self.max_daily_loss_pct.units <= MAX_UNITS as int
        &&& 0 <= self.current_daily_loss_pct.units <= MAX_UNITS as int
    }

    /// The verdict of the ordered checks on an order.
    pub open spec fn spec_validate(
        self,
        side: OrderSide,
        qty: int,
        order_type: OrderType,
        has_price: bool,
        available: int,
        price: int,
    ) -> RiskVerdict {
        if self.current_daily_loss_pct.units >= self.max_daily_loss_pct.units {
            RiskVerdict::DailyLoss
        } else if self.current_open_positions >= self.max_open_positions {
            RiskVerdict::MaxPositions
        } else if side == OrderSide::Buy && div_floor(qty * price, SCALE as int)
            > spec_max_position_value(available, self.max_position_pct.units as int) {
            RiskVerdict::TooLarge
        } else if side == OrderSide::Buy && div_floor(qty * price, SCALE as int) > available {
            RiskVerdict::Insufficient
        } else if qty <= 0 {
            RiskVerdict::NonPositiveQuantity
        } else if order_type == OrderType::Limit && !has_price {
            RiskVerdict::LimitWithoutPrice
        } else {
            RiskVerdict::Pass
        }
    }

    /// A manager with the given limits and zeroed counters.
    pub fn new(max_position_pct: Dec, max_daily_loss_pct: Dec, max_open_positions: u32) -> (r:
        RiskManager)
        requires
            0 <= max_position_pct.units <= MAX_UNITS as int,
            0 <= max_daily_loss_pct.units <= MAX_UNITS as int,
        ensures
            r.max_position_pct == max_position_pct,
            r.max_daily_loss_pct == max_daily_loss_pct,
            r.max_open_positions == max_open_positions,
            r.current_daily_loss_pct.units == 0,
            r.current_open_positions == 0,
            r.wf(),
    {
        RiskManager {
            max_position_pct,
            max_daily_loss_pct,
            max_open_positions,
            current_daily_loss_pct: Dec::zero(),
            current_open_positions: 0,
        }
    }

    /// Run the ordered checks on an order and return the first failure, or
    /// `Ok` when every check passes.
    pub fn validate_order(
        &self,
        order: &OrderRequest,
        quote_balance: &Balance,
        current_price: Dec,
    ) -> (r: Result<(), RiskError>)
        requires
            self.wf(),
            in_range(current_price.units as int),
            -(i128::MAX as int) <= order.quantity.units * current_price.units <= i128::MAX as int,
        ensures
            ({
                let v = self.spec_validate(
                    order.side,
                    order.quantity.units as int,
                    order.order_type,
                    order.price is Some,
                    crate::decimal::parse_default_units(quote_balance.free@),
                    current_price.units as int,
                );
                &&& r is Ok <==> v == RiskVerdict::Pass
                &&& v == RiskVerdict::DailyLoss ==> (r matches Err(RiskError::DailyLossExceeded {
                    current_loss,
                    max_loss,
                }) && current_loss == self.current_daily_loss_pct && max_loss
                    == self.max_daily_loss_pct)
                &&& v == RiskVerdict::MaxPositions ==> (r matches Err(
                    RiskError::MaxPositionsReached { max },
                ) && max == self.max_open_positions)
                &&& v == RiskVerdict::TooLarge ==> (r matches Err(RiskError::PositionTooLarge {
                    requested,
                    max_allowed,
                    max_pct,
                }) && requested.units == div_floor(
                    order.quantity.units * current_price.units,
                    SCALE as int,
                ) && max_allowed.units == spec_max_position_value(
                    crate::decimal::parse_default_units(quote_balance.free@),
                    self.max_position_pct.units as int,
                ) && max_pct == self.max_position_pct)
                &&& v == RiskVerdict::Insufficient ==> (r matches Err(
                    RiskError::InsufficientBalance { available, required },
                ) && available.units == crate::decimal::parse_default_units(quote_balance.free@)
                    && required.units == div_floor(
                    order.quantity.units * current_price.units,
                    SCALE as int,
                ))
                &&& v == RiskVerdict::NonPositiveQuantity ==> (r matches Err(
                    RiskError::InvalidOrder { reason },
                ) && reason@ == "Quantity must be positive"@)
                &&& v == RiskVerdict::LimitWithoutPrice ==> (r matches Err(
                    RiskError::InvalidOrder { reason },
                ) && reason@ == "Limit orders must have a price"@)
            }),
    {
        if self.current_daily_loss_pct.units >= self.max_daily_loss_pct.units {
            return Err(
                RiskError::DailyLossExceeded {
                    current_loss: self.current_daily_loss_pct,
                    max_loss: self.max_daily_loss_pct,
                },
            );
        }
        if self.current_open_positions >= self.max_open_positions {
            return Err(RiskError::MaxPositionsReached { max: self.max_open_positions });
        }
        if order.side == OrderSide::Buy {
            let order_value: Dec = order.quantity.mul(current_price);
            let available: Dec = quote_balance.free_decimal();
            proof {
                assert(-100_000_000_000_000_000_000_000_000_000_000_000_000 <= (
                available.units as int) * (self.max_position_pct.units as int)
                    <= 100_000_000_000_000_000_000_000_000_000_000_000_000) by (nonlinear_arith)
                    requires
                        -10_000_000_000_000_000_000 <= available.units as int
                            <= 10_000_000_000_000_000_000,
                        0 <= self.max_position_pct.units as int <= 10_000_000_000_000_000_000,
                ;
            }
            let scaled: Dec = available.mul(self.max_position_pct);
            proof {
                lemma_units_div_scale_bounds(
                    (available.units as int) * (self.max_position_pct.units as int),
                );
            }
            let max_position_value: Dec = Dec { units: crate::decimal::div_units(scaled.units, 100) };
            if order_value.units > max_position_value.units {
                return Err(
                    RiskError::PositionTooLarge {
                        requested: order_value,
                        max_allowed: max_position_value,
                        max_pct: self.max_position_pct,
                    },
                );
            }
            if order_value.units > available.units {
                return Err(
                    RiskError::InsufficientBalance { available, required: order_value },
                );
            }
        }
        if order.quantity.units <= 0 {
            return Err(
                RiskError::InvalidOrder { reason: "Quantity must be positive".to_owned() },
            );
        }
        if order.order_type == OrderType::Limit && order.price.is_none() {
            return Err(
                RiskError::InvalidOrder { reason: "Limit orders must have a price".to_owned() },
            );
        }
        Ok(())
    }

    /// Size a position: the balance share given by the capped risk
    /// percentage, divided by the price. Rounding to the venue's lot size is
    /// the engine's responsibility.
    pub fn calculate_position_size(&self, balance: Dec, risk_pct: Dec, price: Dec) -> (r: Dec)
        requires
            self.wf(),
            in_range(balance.units as int),
            in_range(risk_pct.units as int),
            in_range(price.units as int),
            price.units != 0,
        ensures
            r.units == spec_position_size(
                balance.units as int,
                risk_pct.units as int,
                self.max_position_pct.units as int,
                price.units as int,
            ),
    {
        let eff: Dec = risk_pct.min(self.max_position_pct);
        proof {
            assert(-100_000_000_000_000_000_000_000_000_000_000_000_000 <= (balance.units as int)
                * (eff.units as int) <= 100_000_000_000_000_000_000_000_000_000_000_000_000)
                by (nonlinear_arith)
                requires
                    -10_000_000_000_000_000_000 <= balance.units as int
                        <= 10_000_000_000_000_000_000,
                    -10_000_000_000_000_000_000 <= eff.units as int <= 10_000_000_000_000_000_000,
            ;
        }
        let scaled: Dec = balance.mul(eff);
        proof {
            let be = (balance.units as int) * (eff.units as int);
            lemma_div_is_ordered(be, 100_000_000_000_000_000_000_000_000_000_000_000_000, SCALE as int);
            lemma_div_is_ordered(-100_000_000_000_000_000_000_000_000_000_000_000_000, be, SCALE as int);
            lemma_div_multiples_vanish(100_000_000_000_000_000_000_000_000_000, SCALE as int);
            lemma_div_multiples_vanish(-100_000_000_000_000_000_000_000_000_000, SCALE as int);
        }
        let value: Dec = Dec { units: crate::decimal::div_units(scaled.units, 100) };
        proof {
            lemma_div_is_ordered(scaled.units as int, 100_000_000_000_000_000_000_000_000_000, 100);
            lemma_div_is_ordered(-100_000_000_000_000_000_000_000_000_000, scaled.units as int, 100);
            lemma_div_multiples_vanish(1_000_000_000_000_000_000_000_000_000, 100);
            lemma_div_multiples_vanish(-1_000_000_000_000_000_000_000_000_000, 100);
            assert(-1_000_000_000_000_000_000_000_000_000_000_000_000 <= (value.units as int) * (
            SCALE as int) <= 1_000_000_000_000_000_000_000_000_000_000_000_000) by (nonlinear_arith)
                requires
                    -1_000_000_000_000_000_000_000_000_000 <= value.units as int
                        <= 1_000_000_000_000_000_000_000_000_000,
                    SCALE as int == 1_000_000_000,
            ;
        }
        value.div(price)
    }

    /// Record a realized trade result; a loss adds its magnitude to the
    /// daily loss counter, a gain changes nothing.
    pub fn record_trade_result(&mut self, pnl_pct: Dec)
        requires
            old(self).wf(),
            in_range(pnl_pct.units as int),
            old(self).current_daily_loss_pct.units + (if pnl_pct.units < 0 {
                -(pnl_pct.units as int)
            } else {
                0int
            }) <= MAX_UNITS as int,
        ensures
            final(self).current_daily_loss_pct.units == old(self).current_daily_loss_pct.units + (
            if pnl_pct.units < 0 {
                -(pnl_pct.units as int)
            } else {
                0int
            }),
            final(self).max_position_pct == old(self).max_position_pct,
            final(self).max_daily_loss_pct == old(self).max_daily_loss_pct,
            final(self).max_open_positions == old(self).max_open_positions,
            final(self).current_open_positions == old(self).current_open_positions,
            final(self).wf(),
    {
        if pnl_pct.units < 0 {
            self.current_daily_loss_pct = self.current_daily_loss_pct.add(pnl_pct.abs());
        }
    }

    /// Note one more open position, as after a filled live buy.
    pub fn increment_positions(&mut self)
        requires
            old(self).current_open_positions < u32::MAX,
        ensures
            final(self).current_open_positions == old(self).current_open_positions + 1,
            final(self).max_position_pct == old(self).max_position_pct,
            final(self).max_daily_loss_pct == old(self).max_daily_loss_pct,
            final(self).max_open_positions == old(self).max_open_positions,
            final(self).current_daily_loss_pct == old(self).current_daily_loss_pct,
    {
        self.current_open_positions = self.current_open_positions + 1;
    }

    /// Note one position closed, as after a filled live sell. Must not be
    /// called when no position is open.
    pub fn decrement_positions(&mut self)
        requires
            old(self).current_open_positions > 0,
        ensures
            final(self).current_open_positions == old(self).current_open_positions - 1,
            final(self).max_position_pct == old(self).max_position_pct,
            final(self).max_daily_loss_pct == old(self).max_daily_loss_pct,
            final(self).max_open_positions == old(self).max_open_positions,
            final(self).current_daily_loss_pct == old(self).current_daily_loss_pct,
    {
        self.current_open_positions = self.current_open_positions - 1;
    }

    /// Zero the daily loss counter; the caller owns the daily boundary.
    pub fn reset_daily_stats(&mut self)
        ensures
            final(self).current_daily_loss_pct.units == 0,
            final(self).max_position_pct == old(self).max_position_pct,
            final(self).max_daily_loss_pct == old(self).max_daily_loss_pct,
            final(self).max_open_positions == old(self).max_open_positions,
            final(self).current_open_positions == old(self).current_open_positions,
    {
        self.current_daily_loss_pct = Dec::zero();
    }

    /// The accumulated daily loss percentage.
    pub fn current_daily_loss(&self) -> (r: Dec)
        ensures
            r == self.current_daily_loss_pct,
    {
        self.current_daily_loss_pct
    }

    /// The number of open positions.
    pub fn open_positions_count(&self) -> (r: u32)
        ensures
            r == self.current_open_positions,
    {
        self.current_open_positions
    }

    /// Whether trading may proceed: the daily loss and the open-position
    /// count are both strictly under their limits.
    pub fn can_trade(&self) -> (r: bool)
        ensures
            r == (self.current_daily_loss_pct.units < self.max_daily_loss_pct.units
                && self.current_open_positions < self.max_open_positions),
    {
        self.current_daily_loss_pct.units < self.max_daily_loss_pct.units
            && self.current_open_positions < self.max_open_positions
    }
}

/// A product of an in-range value and a percentage, divided by the unit
/// scale, stays within the parsed-value range scaled by one hundred.
proof fn lemma_units_div_scale_bounds(x: int)
    requires
        -100_000_000_000_000_000_000_000_000_000_000_000_000 <= x
            <= 100_000_000_000_000_000_000_000_000_000_000_000_000,
    ensures
        -100_000_000_000_000_000_000_000_000_000 <= div_floor(x, SCALE as int)
            <= 100_000_000_000_000_000_000_000_000_000,
{
    lemma_div_is_ordered(x, 100_000_000_000_000_000_000_000_000_000_000_000_000, SCALE as int);
    lemma_div_is_ordered(-100_000_000_000_000_000_000_000_000_000_000_000_000, x, SCALE as int);
    lemma_div_multiples_vanish(100_000_000_000_000_000_000_000_000_000, SCALE as int);
    lemma_div_multiples_vanish(-100_000_000_000_000_000_000_000_000_000, SCALE as int);
}

/// Position operations at the specification level.
pub enum PositionOp {
    Open,
    Close,
}

/// The number of opens in a sequence of position operations.
pub open spec fn num_opens(ops: Seq<PositionOp>) -> int
    decreases ops.len(),
{
    if ops.len() == 0 {
        0
    } else {
        (if ops[0] is Open {
            1int
        } else {
            0int
        }) + num_opens(ops.subrange(1, ops.len() as int))
    }
}

/// The number of closes in a sequence of position operations.
pub open spec fn num_closes(ops: Seq<PositionOp>) -> int
    decreases ops.len(),
{
    if ops.len() == 0 {
        0
    } else {
        (if ops[0] is Close {
            1int
        } else {
            0int
        }) + num_closes(ops.subrange(1, ops.len() as int))
    }
}

/// Whether a sequence of operations never closes with no position open,
/// starting from `count` open positions.
pub open spec fn ops_valid(count: int, ops: Seq<PositionOp>) -> bool
    decreases ops.len(),
{
    if ops.len() == 0 {
        true
    } else if ops[0] is Open {
        ops_valid(count + 1, ops.subrange(1, ops.len() as int))
    } else {
        count > 0 && ops_valid(count - 1, ops.subrange(1, ops.len() as int))
    }
}

/// The counter after a sequence of operations: each open adds one, each
/// close removes one, exactly as `increment_positions` and
/// `decrement_positions` ensure.
pub open spec fn apply_ops(count: int, ops: Seq<PositionOp>) -> int
    decreases ops.len(),
{
    if ops.len() == 0 {
        count
    } else if ops[0] is Open {
        apply_ops(count + 1, ops.subrange(1, ops.len() as int))
    } else {
        apply_ops(count - 1, ops.subrange(1, ops.len() as int))
    }
}

/// The net-count law of the position counter: starting from `count` open
/// positions, after `N` increments and `M` decrements in any valid order
/// (one that never decrements at zero) the counter reads `count + N - M`,
/// and never goes negative.
pub proof fn lemma_position_counter_net(count: int, ops: Seq<PositionOp>)
    requires
        count >= 0,
        ops_valid(count, ops),
    ensures
        apply_ops(count, ops) == count + num_opens(ops) - num_closes(ops),
        apply_ops(count, ops) >= 0,
        num_closes(ops) <= count + num_opens(ops),
    decreases ops.len(),
{
    if ops.len() > 0 {
        let rest = ops.subrange(1, ops.len() as int);
        if ops[0] is Open {
            lemma_position_counter_net(count + 1, rest);
        } else {
            lemma_position_counter_net(count - 1, rest);
        }
    }
}

/// Bounds of the sizing rule used by the engine: for a positive price the
/// quantity stays modest, and a positive quantity times the price stays
/// under the value share the rule allotted.
pub proof fn lemma_position_size_bounds(balance: int, risk_pct: int, max_pct: int, price: int)
    requires
        in_range(balance),
        in_range(risk_pct),
        0 <= max_pct <= MAX_UNITS as int,
        price >= 1,
    ensures
        ({
            let q = spec_position_size(balance, risk_pct, max_pct, price);
            &&& q <= 1_000_000_000_000_000_000_000_000_000_000_000_000
            &&& q >= 1 ==> q * price <= 1_000_000_000_000_000_000_000_000_000_000_000_000
        }),
{
    let eff = vstd::math::min(risk_pct, max_pct);
    assert(-100_000_000_000_000_000_000_000_000_000_000_000_000 <= balance * eff
        <= 100_000_000_000_000_000_000_000_000_000_000_000_000) by (nonlinear_arith)
        requires
            -10_000_000_000_000_000_000 <= balance <= 10_000_000_000_000_000_000,
            -10_000_000_000_000_000_000 <= eff <= 10_000_000_000_000_000_000,
    ;
    lemma_div_is_ordered(
        balance * eff,
        100_000_000_000_000_000_000_000_000_000_000_000_000,
        SCALE as int,
    );
    lemma_div_is_ordered(
        -100_000_000_000_000_000_000_000_000_000_000_000_000,
        balance * eff,
        SCALE as int,
    );
    lemma_div_multiples_vanish(100_000_000_000_000_000_000_000_000_000, SCALE as int);
    lemma_div_multiples_vanish(-100_000_000_000_000_000_000_000_000_000, SCALE as int);
    let t = div_floor(balance * eff, SCALE as int);
    lemma_div_is_ordered(t, 100_000_000_000_000_000_000_000_000_000, 100);
    lemma_div_is_ordered(-100_000_000_000_000_000_000_000_000_000, t, 100);
    lemma_div_multiples_vanish(1_000_000_000_000_000_000_000_000_000, 100);
    lemma_div_multiples_vanish(-1_000_000_000_000_000_000_000_000_000, 100);
    let v = div_floor(t, 100);
    assert(-1_000_000_000_000_000_000_000_000_000_000_000_000 <= v * (SCALE as int)
        <= 1_000_000_000_000_000_000_000_000_000_000_000_000) by (nonlinear_arith)
        requires
            -1_000_000_000_000_000_000_000_000_000 <= v <= 1_000_000_000_000_000_000_000_000_000,
            SCALE as int == 1_000_000_000,
    ;
    let vs = v * SCALE as int;
    let q = div_floor(vs, price);
    if vs >= 0 {
        vstd::arithmetic::div_mod::lemma_div_nonincreasing(vs, price);
        vstd::arithmetic::div_mod::lemma_div_pos_is_pos(vs, price);
    } else {
        crate::decimal::lemma_div_floor_neg_bounds(vs, price);
    }
    if q >= 1 {
        vstd::arithmetic::div_mod::lemma_fundamental_div_mod(vs, price);
        vstd::arithmetic::div_mod::lemma_mod_division_less_than_divisor(vs, price);
        assert(q * price == price * q) by (nonlinear_arith);
    }
}

/// The tightening law of order validation: with the same state and the same
/// order, lowering `max_position_pct` can only turn a pass into a failure,
/// never a failure into a pass, provided the quote balance is non-negative.
pub proof fn lemma_validate_monotone(
    rm1: RiskManager,
    rm2: RiskManager,
    side: OrderSide,
    qty: int,
    order_type: OrderType,
    has_price: bool,
    available: int,
    price: int,
)
    requires
        rm1.max_daily_loss_pct == rm2.max_daily_loss_pct,
        rm1.max_open_positions == rm2.max_open_positions,
        rm1.current_daily_loss_pct == rm2.current_daily_loss_pct,
        rm1.current_open_positions == rm2.current_open_positions,
        rm1.max_position_pct.units <= rm2.max_position_pct.units,
        available >= 0,
    ensures
        rm1.spec_validate(side, qty, order_type, has_price, available, price)
            == RiskVerdict::Pass ==> rm2.spec_validate(
            side,
            qty,
            order_type,
            has_price,
            available,
            price,
        ) == RiskVerdict::Pass,
{
    let m1 = rm1.max_position_pct.units as int;
    let m2 = rm2.max_position_pct.units as int;
    assert(available * m1 <= available * m2) by (nonlinear_arith)
        requires
            available >= 0,
            m1 <= m2,
    ;
    lemma_div_is_ordered(available * m1, available * m2, SCALE as int);
    lemma_div_is_ordered(
        div_floor(available * m1, SCALE as int),
        div_floor(available * m2, SCALE as int),
        100,
    );
}

/// The sizing-cap law: the computed quantity never exceeds the quantity the
/// full `max_position_pct` would give, for a non-negative balance, a
/// non-negative requested risk and a positive price.
pub proof fn lemma_position_size_cap(balance: int, risk_pct: int, max_pct: int, price: int)
    requires
        balance >= 0,
        risk_pct >= 0,
        max_pct >= 0,
        price > 0,
    ensures
        spec_position_size(balance, risk_pct, max_pct, price) <= spec_position_size(
            balance,
            max_pct,
            max_pct,
            price,
        ),
{
    let eff = vstd::math::min(risk_pct, max_pct);
    assert(balance * eff <= balance * max_pct) by (nonlinear_arith)
        requires
            balance >= 0,
            eff <= max_pct,
    ;
    lemma_div_is_ordered(balance * eff, balance * max_pct, SCALE as int);
    let v1 = div_floor(div_floor(balance * eff, SCALE as int), 100);
    let v2 = div_floor(div_floor(balance * max_pct, SCALE as int), 100);
    lemma_div_is_ordered(
        div_floor(balance * eff, SCALE as int),
        div_floor(balance * max_pct, SCALE as int),
        100,
    );
    vstd::arithmetic::mul::lemma_mul_inequality(v1, v2, SCALE as int);
    lemma_div_is_ordered(v1 * SCALE as int, v2 * SCALE as int, price);
}

} // verus!
