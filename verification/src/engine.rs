//! The decision core of the trading engine: from a market snapshot, the
//! account balances and the strategy's signal to an order plan. The engine
//! never performs I/O; a caller fetches the data, carries out the plan, and
//! reports filled orders back through [`TradingEngine::on_order_placed`].

use crate::decimal::{in_range, parse_default_units, pow10, round_units, Dec, SCALE};
use crate::models::{Balance, MarketData, OrderRequest, OrderSide, OrderType};
use crate::risk::{spec_position_size, RiskManager, RiskVerdict};
use crate::strategy::{Signal, Strategy};
use crate::text::{spec_ends_with, spec_starts_with, str_ends_with, str_eq, str_prefix,
    str_starts_with};
use vstd::prelude::*;
use vstd::string::StrSliceExecFns;

verus! {

/// What a trading cycle decides for one symbol: do nothing, log a
/// hypothetical fill, or submit a live order.
#[derive(Debug, Clone)]
pub enum OrderPlan {
    NoAction,
    Paper(OrderRequest),
    Submit(OrderRequest),
}

/// An error the decision logic reports to the cycle.
#[derive(Debug, Clone)]
pub enum EngineError {
    QuoteBalanceMissing { asset: String },
}

/// The quote asset of a symbol: the first matching suffix among the known
/// quote assets, defaulting to USDT.
pub open spec fn spec_quote_asset(sym: Seq<char>) -> Seq<char> {
    if spec_ends_with(sym, "USDT"@) {
        "USDT"@
    } else if spec_ends_with(sym, "BTC"@) {
        "BTC"@
    } else {
        "USDT"@
    }
}

/// The base asset of a symbol: the symbol with the first matching known
/// quote suffix removed, or the whole symbol.
pub open spec fn spec_base_asset(sym: Seq<char>) -> Seq<char> {
    if spec_ends_with(sym, "USDT"@) {
        sym.subrange(0, sym.len() - 4)
    } else if spec_ends_with(sym, "BTC"@) {
        sym.subrange(0, sym.len() - 3)
    } else if spec_ends_with(sym, "ETH"@) {
        sym.subrange(0, sym.len() - 3)
    } else {
        sym
    }
}

/// The first balance whose asset matches, if any.
pub open spec fn spec_find_balance(balances: Seq<Balance>, asset: Seq<char>) -> Option<Balance>
    decreases balances.len(),
{
    if balances.len() == 0 {
        None
    } else if balances[0].asset@ == asset {
        Some(balances[0])
    } else {
        spec_find_balance(balances.subrange(1, balances.len() as int), asset)
    }
}

/// Decimal places kept on a quantity, by symbol family.
pub open spec fn spec_symbol_dp(sym: Seq<char>) -> int {
    if spec_starts_with(sym, "BTC"@) {
        5
    } else if spec_starts_with(sym, "ETH"@) {
        4
    } else {
        3
    }
}

/// A quantity rounded to the symbol's decimal places.
pub open spec fn spec_round_qty(q: int, sym: Seq<char>) -> int {
    round_units(q, pow10((9 - spec_symbol_dp(sym)) as nat))
}

/// The risk percentage a buy uses: one percent plus one more scaled by the
/// signal strength.
pub open spec fn spec_buy_risk_pct(strength: int) -> int {
    SCALE as int + strength * 1_000_000
}

/// The quantity a sell offers: the free base balance scaled by the signal
/// strength.
pub open spec fn spec_sell_quantity(free: int, strength: int) -> int {
    crate::decimal::div_floor(free * (strength * 1_000_000), SCALE as int)
}

/// Whether an order is the market order the engine builds.
pub open spec fn spec_market_order(
    o: OrderRequest,
    symbol: Seq<char>,
    side: OrderSide,
    qty: int,
) -> bool {
    &&& o.symbol@ == symbol
    &&& o.side == side
    &&& o.order_type == OrderType::Market
    &&& o.quantity.units == qty
    &&& o.price is None
    &&& o.time_in_force is None
    &&& o.stop_price is None
}

/// What the buy path decides: fail without a quote balance; otherwise size
/// the position from the free quote balance, drop non-positive quantities,
/// round, validate, and plan a paper or live market buy.
pub open spec fn buy_plan_ok(
    rm: RiskManager,
    paper: bool,
    symbol: Seq<char>,
    price: int,
    balances: Seq<Balance>,
    strength: int,
    r: Result<OrderPlan, EngineError>,
) -> bool {
    match spec_find_balance(balances, spec_quote_asset(symbol)) {
        Option::None => r matches Err(EngineError::QuoteBalanceMissing { asset }) && asset@
            == spec_quote_asset(symbol),
        Option::Some(qb) => {
            let free = parse_default_units(qb.free@);
            let qty = spec_position_size(
                free,
                spec_buy_risk_pct(strength),
                rm.max_position_pct.units as int,
                price,
            );
            if qty <= 0 {
                r == Ok::<OrderPlan, EngineError>(OrderPlan::NoAction)
            } else {
                let rq = spec_round_qty(qty, symbol);
                let v = rm.spec_validate(
                    OrderSide::Buy,
                    rq,
                    OrderType::Market,
                    false,
                    free,
                    price,
                );
                if v != RiskVerdict::Pass {
                    r == Ok::<OrderPlan, EngineError>(OrderPlan::NoAction)
                } else if paper {
                    r matches Ok(OrderPlan::Paper(o)) && spec_market_order(
                        o,
                        symbol,
                        OrderSide::Buy,
                        rq,
                    )
                } else {
                    r matches Ok(OrderPlan::Submit(o)) && spec_market_order(
                        o,
                        symbol,
                        OrderSide::Buy,
                        rq,
                    )
                }
            }
        },
    }
}

/// What the sell path decides: nothing without a positive free base
/// balance; otherwise offer the strength share of it, drop non-positive
/// quantities, round, validate against the free USDT balance (zero when
/// absent), and plan a paper or live market sell.
pub open spec fn sell_plan_ok(
    rm: RiskManager,
    paper: bool,
    symbol: Seq<char>,
    price: int,
    balances: Seq<Balance>,
    strength: int,
    r: OrderPlan,
) -> bool {
    match spec_find_balance(balances, spec_base_asset(symbol)) {
        Option::None => r == OrderPlan::NoAction,
        Option::Some(bb) => {
            let free = parse_default_units(bb.free@);
            if free <= 0 {
                r == OrderPlan::NoAction
            } else {
                let qty = spec_sell_quantity(free, strength);
                if qty <= 0 {
                    r == OrderPlan::NoAction
                } else {
                    let rq = spec_round_qty(qty, symbol);
                    let quote_free = match spec_find_balance(balances, "USDT"@) {
                        Option::Some(b) => parse_default_units(b.free@),
                        Option::None => 0int,
                    };
                    let v = rm.spec_validate(
                        OrderSide::Sell,
                        rq,
                        OrderType::Market,
                        false,
                        quote_free,
                        price,
                    );
                    if v != RiskVerdict::Pass {
                        r == OrderPlan::NoAction
                    } else if paper {
                        r matches OrderPlan::Paper(o) && spec_market_order(
                            o,
                            symbol,
                            OrderSide::Sell,
                            rq,
                        )
                    } else {
                        r matches OrderPlan::Submit(o) && spec_market_order(
                            o,
                            symbol,
                            OrderSide::Sell,
                            rq,
                        )
                    }
                }
            }
        },
    }
}

/// The first balance for the given asset.
fn find_balance<'a>(balances: &'a Vec<Balance>, asset: &str) -> (r: Option<&'a Balance>)
    ensures
        match r {
            Some(b) => spec_find_balance(balances@, asset@) == Some(*b),
            None => spec_find_balance(balances@, asset@) is None,
        },
{
    let n: usize = balances.len();
    let mut i: usize = 0;
    proof {
        assert(balances@.subrange(0, n as int) =~= balances@);
    }
    while i < n
        invariant
            i <= n,
            n == balances@.len(),
            spec_find_balance(balances@, asset@) == spec_find_balance(
                balances@.subrange(i as int, n as int),
                asset@,
            ),
        decreases n - i,
    {
        proof {
            assert(balances@.subrange(i as int, n as int)[0] == balances@[i as int]);
            assert(balances@.subrange(i as int, n as int).subrange(
                1,
                (n - i) as int,
            ) =~= balances@.subrange(i + 1, n as int));
        }
        if str_eq(balances[i].asset.as_str(), asset) {
            return Some(&balances[i]);
        }
        i = i + 1;
    }
    proof {
        assert(balances@.subrange(n as int, n as int).len() == 0);
    }
    None
}

/// The orchestrator state: the risk gate, the strategy, the configured
/// symbols and the paper flag. The exchange connection stays with the
/// caller.
pub struct TradingEngine<S: Strategy> {
    pub risk_manager: RiskManager,
    pub strategy: S,
    pub symbols: Vec<String>,
    pub paper_trading: bool,
}

impl<S: Strategy> TradingEngine<S> {
    /// Assemble an engine.
    pub fn new(risk_manager: RiskManager, strategy: S, symbols: Vec<String>, paper_trading: bool)
        -> (r: TradingEngine<S>)
        ensures
            r.risk_manager == risk_manager,
            r.strategy == strategy,
            r.symbols == symbols,
            r.paper_trading == paper_trading,
    {
        TradingEngine { risk_manager, strategy, symbols, paper_trading }
    }

    /// How many candles a cycle fetches: the strategy's requirement with a
    /// floor of fifty, so indicators always have slack.
    pub fn required_klines(&self) -> (r: usize)
        requires
            self.strategy.wf(),
        ensures
            r as int == vstd::math::max(self.strategy.spec_required_history(), 50),
    {
        let h: usize = self.strategy.required_history();
        if h < 50 {
            50
        } else {
            h
        }
    }

    /// Round a quantity to the symbol family's decimal places.
    pub fn round_quantity(&self, quantity: Dec, symbol: &str) -> (r: Dec)
        requires
            i128::MIN + SCALE < quantity.units,
            quantity.units + SCALE <= i128::MAX,
        ensures
            r.units == spec_round_qty(quantity.units as int, symbol@),
    {
        let dp: u32 = if str_starts_with(symbol, "BTC") {
            5
        } else if str_starts_with(symbol, "ETH") {
            4
        } else {
            3
        };
        quantity.round_dp(dp)
    }

    /// Decide what a buy signal does for one symbol.
    pub fn decide_buy(
        &self,
        symbol: &str,
        market_data: &MarketData,
        balances: &Vec<Balance>,
        signal_strength: u32,
    ) -> (r: Result<OrderPlan, EngineError>)
        requires
            self.risk_manager.wf(),
            market_data.current_price.units > 0,
            in_range(market_data.current_price.units as int),
        ensures
            buy_plan_ok(
                self.risk_manager,
                self.paper_trading,
                symbol@,
                market_data.current_price.units as int,
                balances@,
                signal_strength as int,
                r,
            ),
            self.paper_trading ==> !(r matches Ok(OrderPlan::Submit(_))),
    {
        let quote_asset: &str = if str_ends_with(symbol, "USDT") {
            "USDT"
        } else if str_ends_with(symbol, "BTC") {
            "BTC"
        } else {
            "USDT"
        };
        let qb: &Balance = match find_balance(balances, quote_asset) {
            Some(b) => b,
            None => {
                return Err(EngineError::QuoteBalanceMissing { asset: quote_asset.to_owned() });
            },
        };
        let free: Dec = qb.free_decimal();
        let risk_pct: Dec = Dec { units: SCALE + (signal_strength as i128) * 1_000_000 };
        let quantity: Dec = self.risk_manager.calculate_position_size(
            free,
            risk_pct,
            market_data.current_price,
        );
        if quantity.units <= 0 {
            return Ok(OrderPlan::NoAction);
        }
        proof {
            crate::risk::lemma_position_size_bounds(
                free.units as int,
                risk_pct.units as int,
                self.risk_manager.max_position_pct.units as int,
                market_data.current_price.units as int,
            );
        }
        let rounded: Dec = self.round_quantity(quantity, symbol);
        proof {
            crate::decimal::lemma_pow10_bounds((9 - spec_symbol_dp(symbol@)) as nat);
            crate::decimal::lemma_round_bounds(
                quantity.units as int,
                pow10((9 - spec_symbol_dp(symbol@)) as nat),
            );
            assert(0 <= (rounded.units as int) * (market_data.current_price.units as int)
                <= 2_000_000_000_000_000_000_000_000_000_000_000_000) by (nonlinear_arith)
                requires
                    0 <= rounded.units as int,
                    rounded.units as int <= quantity.units as int + 1_000_000_000,
                    (quantity.units as int) * (market_data.current_price.units as int)
                        <= 1_000_000_000_000_000_000_000_000_000_000_000_000,
                    1 <= quantity.units as int,
                    1 <= market_data.current_price.units as int <= 10_000_000_000_000_000_000,
            ;
        }
        let order: OrderRequest = OrderRequest::market(symbol, OrderSide::Buy, rounded);
        match self.risk_manager.validate_order(&order, qb, market_data.current_price) {
            Err(_) => Ok(OrderPlan::NoAction),
            Ok(()) => {
                if self.paper_trading {
                    Ok(OrderPlan::Paper(order))
                } else {
                    Ok(OrderPlan::Submit(order))
                }
            },
        }
    }

    /// Decide what a sell signal does for one symbol.
    pub fn decide_sell(
        &self,
        symbol: &str,
        market_data: &MarketData,
        balances: &Vec<Balance>,
        signal_strength: u32,
    ) -> (r: OrderPlan)
        requires
            self.risk_manager.wf(),
            market_data.current_price.units > 0,
            in_range(market_data.current_price.units as int),
            signal_strength <= 1000,
        ensures
            sell_plan_ok(
                self.risk_manager,
                self.paper_trading,
                symbol@,
                market_data.current_price.units as int,
                balances@,
                signal_strength as int,
                r,
            ),
            self.paper_trading ==> !(r matches OrderPlan::Submit(_)),
    {
        let n: usize = symbol.unicode_len();
        let base_asset: &str = if str_ends_with(symbol, "USDT") {
            proof {
                reveal_strlit("USDT");
            }
            str_prefix(symbol, n - 4)
        } else if str_ends_with(symbol, "BTC") {
            proof {
                reveal_strlit("BTC");
            }
            str_prefix(symbol, n - 3)
        } else if str_ends_with(symbol, "ETH") {
            proof {
                reveal_strlit("ETH");
            }
            str_prefix(symbol, n - 3)
        } else {
            symbol
        };
        let bb: &Balance = match find_balance(balances, base_asset) {
            Some(b) => b,
            None => {
                return OrderPlan::NoAction;
            },
        };
        let free: Dec = bb.free_decimal();
        if free.units <= 0 {
            return OrderPlan::NoAction;
        }
        let sell_pct: Dec = Dec { units: (signal_strength as i128) * 1_000_000 };
        proof {
            assert(0 <= (free.units as int) * (sell_pct.units as int)
                <= 10_000_000_000_000_000_000_000_000_000) by (nonlinear_arith)
                requires
                    0 < free.units as int <= 10_000_000_000_000_000_000,
                    0 <= sell_pct.units as int <= 1_000_000_000,
            ;
        }
        let quantity: Dec = free.mul(sell_pct);
        proof {
            vstd::arithmetic::div_mod::lemma_div_is_ordered(
                (free.units as int) * (sell_pct.units as int),
                10_000_000_000_000_000_000_000_000_000,
                SCALE as int,
            );
            vstd::arithmetic::div_mod::lemma_div_multiples_vanish(
                10_000_000_000_000_000_000,
                SCALE as int,
            );
            vstd::arithmetic::div_mod::lemma_div_pos_is_pos(
                (free.units as int) * (sell_pct.units as int),
                SCALE as int,
            );
        }
        if quantity.units <= 0 {
            return OrderPlan::NoAction;
        }
        let rounded: Dec = self.round_quantity(quantity, symbol);
        proof {
            crate::decimal::lemma_pow10_bounds((9 - spec_symbol_dp(symbol@)) as nat);
            crate::decimal::lemma_round_bounds(
                quantity.units as int,
                pow10((9 - spec_symbol_dp(symbol@)) as nat),
            );
            assert(0 <= (rounded.units as int) * (market_data.current_price.units as int)
                <= 170_000_000_000_000_000_000_000_000_000_000_000_000) by (nonlinear_arith)
                requires
                    0 <= rounded.units as int <= 10_000_000_001_000_000_000,
                    1 <= market_data.current_price.units as int <= 10_000_000_000_000_000_000,
            ;
        }
        let order: OrderRequest = OrderRequest::market(symbol, OrderSide::Sell, rounded);
        let synth: Balance = Balance {
            asset: "USDT".to_owned(),
            free: "0".to_owned(),
            locked: "0".to_owned(),
        };
        let quote: &Balance = match find_balance(balances, "USDT") {
            Some(b) => b,
            None => {
                proof {
                    crate::decimal::lemma_parse_zero();
                }
                &synth
            },
        };
        match self.risk_manager.validate_order(&order, quote, market_data.current_price) {
            Err(_) => OrderPlan::NoAction,
            Ok(()) => {
                if self.paper_trading {
                    OrderPlan::Paper(order)
                } else {
                    OrderPlan::Submit(order)
                }
            },
        }
    }

    /// One symbol's step of a trading cycle: analyze the snapshot and turn
    /// the signal into an order plan.
    pub fn plan_symbol(&self, market_data: &MarketData, balances: &Vec<Balance>) -> (r: Result<
        OrderPlan,
        EngineError,
    >)
        requires
            self.risk_manager.wf(),
            self.strategy.wf(),
            market_data.current_price.units > 0,
            in_range(market_data.current_price.units as int),
        ensures
            ({
                let s = self.strategy.spec_signal(market_data);
                &&& (s matches Signal::Buy { strength } ==> buy_plan_ok(
                    self.risk_manager,
                    self.paper_trading,
                    market_data.symbol@,
                    market_data.current_price.units as int,
                    balances@,
                    strength as int,
                    r,
                ))
                &&& (s matches Signal::Sell { strength } ==> (r matches Ok(p) && sell_plan_ok(
                    self.risk_manager,
                    self.paper_trading,
                    market_data.symbol@,
                    market_data.current_price.units as int,
                    balances@,
                    strength as int,
                    p,
                )))
                &&& (s is Hold ==> r == Ok::<OrderPlan, EngineError>(OrderPlan::NoAction))
            }),
            self.paper_trading ==> !(r matches Ok(OrderPlan::Submit(_))),
    {
        let signal: Signal = self.strategy.analyze(market_data);
        match signal {
            Signal::Buy { strength } => self.decide_buy(
                market_data.symbol.as_str(),
                market_data,
                balances,
                strength,
            ),
            Signal::Sell { strength } => Ok(
                self.decide_sell(market_data.symbol.as_str(), market_data, balances, strength),
            ),
            Signal::Hold => Ok(OrderPlan::NoAction),
        }
    }

    /// Record a filled live order: a buy opens a position, a sell closes
    /// one. Must not be called for a sell when no position is open.
    pub fn on_order_placed(&mut self, side: OrderSide)
        requires
            side == OrderSide::Buy ==> old(self).risk_manager.current_open_positions < u32::MAX,
            side == OrderSide::Sell ==> old(self).risk_manager.current_open_positions > 0,
        ensures
            side == OrderSide::Buy ==> final(self).risk_manager.current_open_positions == old(
                self,
            ).risk_manager.current_open_positions + 1,
            side == OrderSide::Sell ==> final(self).risk_manager.current_open_positions == old(
                self,
            ).risk_manager.current_open_positions - 1,
            final(self).risk_manager.max_position_pct == old(self).risk_manager.max_position_pct,
            final(self).risk_manager.max_daily_loss_pct == old(
                self,
            ).risk_manager.max_daily_loss_pct,
            final(self).risk_manager.max_open_positions == old(
                self,
            ).risk_manager.max_open_positions,
            final(self).risk_manager.current_daily_loss_pct == old(
                self,
            ).risk_manager.current_daily_loss_pct,
            final(self).strategy == old(self).strategy,
            final(self).symbols == old(self).symbols,
            final(self).paper_trading == old(self).paper_trading,
    {
        match side {
            OrderSide::Buy => self.risk_manager.increment_positions(),
            OrderSide::Sell => self.risk_manager.decrement_positions(),
        }
    }
}

} // verus!
