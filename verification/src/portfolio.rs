//! Portfolio accounting: positions, cash, P&L and daily returns.
//!
//! The central invariant is that `total_equity` always equals
//! `cash + sum of position market values`, recomputed from scratch
//! after every fill or price update - never incrementally drifted.

use vstd::prelude::*;

use crate::decimal::{
    abs_m, div_m, mul_m, tdiv, Dec, AMT_LIMIT, SCALE, VAL_LIMIT,
};
use crate::host;
use crate::market::{Symbol, SymbolV};
use crate::orders::{Fill, Side};

verus! {

/// Largest number of distinct open positions a portfolio tracks.
pub const MAX_POSITIONS: usize = 1000;

/// Headroom kept inside the amount bound so that one more fill can
/// always be absorbed without overflow.
pub const FILL_STEP: i128 = 4_000_000_000_000_000_000_000_000;

/// An accumulator with room for one more fill's effect.
pub open spec fn has_room(x: int) -> bool {
    -(AMT_LIMIT - FILL_STEP) <= x <= AMT_LIMIT - FILL_STEP
}

/// Portfolio position for a specific symbol.
#[derive(Debug)]
pub struct Position {
    pub symbol: Symbol,
    pub quantity: Dec,
    pub average_price: Dec,
    pub market_value: Dec,
    pub unrealized_pnl: Dec,
    pub realized_pnl: Dec,
    pub last_updated: i64,
}

impl Clone for Position {
    fn clone(&self) -> (res: Position)
        ensures
            res == *self,
    {
        Position {
            symbol: self.symbol.clone(),
            quantity: self.quantity,
            average_price: self.average_price,
            market_value: self.market_value,
            unrealized_pnl: self.unrealized_pnl,
            realized_pnl: self.realized_pnl,
            last_updated: self.last_updated,
        }
    }
}

/// Signed quantity a fill adds to a position: positive for a buy,
/// negative for a sell.
pub open spec fn signed_fill_qty(f: Fill) -> int {
    match f.side {
        Side::Buy => f.quantity.m as int,
        Side::Sell => -(f.quantity.m as int),
    }
}

/// A position as it stands before its first fill.
pub open spec fn fresh_position(symbol: Symbol, now: i64) -> Position {
    Position {
        symbol,
        quantity: Dec { m: 0 },
        average_price: Dec { m: 0 },
        market_value: Dec { m: 0 },
        unrealized_pnl: Dec { m: 0 },
        realized_pnl: Dec { m: 0 },
        last_updated: now,
    }
}

/// The position that results from applying one fill: opening sets the
/// cost basis to the fill price; adding to a same-direction position
/// re-averages the cost basis by quantity; reducing realizes P&L on the
/// closed part and keeps the basis; closing to exactly zero resets the
/// basis to zero.
pub open spec fn position_after_fill(p: Position, f: Fill) -> Position {
    let q = p.quantity.m as int;
    let fq = signed_fill_qty(f);
    let price = f.price.m as int;
    let avg = p.average_price.m as int;
    if q == 0 {
        Position {
            quantity: Dec { m: fq as i128 },
            average_price: f.price,
            last_updated: f.executed_at,
            ..p
        }
    } else if (q > 0 && fq > 0) || (q < 0 && fq < 0) {
        let cost = mul_m(abs_m(q), avg) + mul_m(abs_m(fq), price);
        let totq = abs_m(q) + abs_m(fq);
        Position {
            quantity: Dec { m: (q + fq) as i128 },
            average_price: Dec { m: div_m(cost, totq) as i128 },
            last_updated: f.executed_at,
            ..p
        }
    } else {
        let closed = if abs_m(fq) <= abs_m(q) {
            abs_m(fq)
        } else {
            abs_m(q)
        };
        let remaining = abs_m(q) - closed;
        let delta = if q > 0 {
            mul_m(price - avg, closed)
        } else {
            mul_m(avg - price, closed)
        };
        let realized = Dec { m: (p.realized_pnl.m + delta) as i128 };
        if remaining == 0 {
            Position {
                quantity: Dec { m: 0 },
                average_price: Dec { m: 0 },
                realized_pnl: realized,
                last_updated: f.executed_at,
                ..p
            }
        } else {
            Position {
                quantity: Dec {
                    m: (if q > 0 {
                        remaining
                    } else {
                        -remaining
                    }) as i128,
                },
                realized_pnl: realized,
                last_updated: f.executed_at,
                ..p
            }
        }
    }
}

/// A position marked to a market price: market value and unrealized
/// P&L are recomputed from the quantity and cost basis; nothing else
/// changes.
pub open spec fn position_marked(p: Position, price: Dec) -> Position {
    let q = p.quantity.m as int;
    let avg = p.average_price.m as int;
    Position {
        market_value: Dec { m: mul_m(abs_m(q), price.m as int) as i128 },
        unrealized_pnl: Dec {
            m: (if q > 0 {
                mul_m(price.m - avg, q)
            } else if q < 0 {
                mul_m(avg - price.m as int, abs_m(q))
            } else {
                0
            }) as i128,
        },
        ..p
    }
}

impl Position {
    /// Field bounds under which every position computation stays
    /// representable.
    pub open spec fn wf(self) -> bool {
        &&& -VAL_LIMIT <= self.quantity.m <= VAL_LIMIT
        &&& -VAL_LIMIT <= self.average_price.m <= VAL_LIMIT
        &&& -AMT_LIMIT <= self.market_value.m <= AMT_LIMIT
        &&& -AMT_LIMIT <= self.unrealized_pnl.m <= AMT_LIMIT
        &&& -AMT_LIMIT <= self.realized_pnl.m <= AMT_LIMIT
    }

    pub fn new(symbol: Symbol) -> (r: Position)
        ensures
            r.wf(),
            exists|now: i64| r == fresh_position(symbol, now),
            r.symbol == symbol,
            r.quantity.m == 0,
            r.average_price.m == 0,
            r.market_value.m == 0,
            r.unrealized_pnl.m == 0,
            r.realized_pnl.m == 0,
    {
        let now = host::now_millis();
        let r = Position {
            symbol,
            quantity: Dec::zero(),
            average_price: Dec::zero(),
            market_value: Dec::zero(),
            unrealized_pnl: Dec::zero(),
            realized_pnl: Dec::zero(),
            last_updated: now,
        };
        proof {
            assert(r == fresh_position(r.symbol, now));
        }
        r
    }

    pub fn is_long(&self) -> (r: bool)
        ensures
            r == (self.quantity.m > 0),
    {
        self.quantity.m > 0
    }

    pub fn is_short(&self) -> (r: bool)
        ensures
            r == (self.quantity.m < 0),
    {
        self.quantity.m < 0
    }

    pub fn is_flat(&self) -> (r: bool)
        ensures
            r == (self.quantity.m == 0),
    {
        self.quantity.m == 0
    }

    /// Apply one execution to this position (cost-basis accounting;
    /// see [`position_after_fill`] for the exact result).
    pub fn apply_fill(&mut self, fill: &Fill)
        requires
            old(self).wf(),
            fill.bounded(),
            has_room(old(self).realized_pnl.m as int),
            abs_m(old(self).quantity.m as int) + fill.quantity.m <= VAL_LIMIT,
        ensures
            *final(self) == position_after_fill(*old(self), *fill),
            final(self).wf(),
    {
        let fill_quantity: Dec = match fill.side {
            Side::Buy => fill.quantity,
            Side::Sell => fill.quantity.neg(),
        };

        let new_quantity = self.quantity.add(fill_quantity);

        if self.quantity.m == 0 {
            self.quantity = new_quantity;
            self.average_price = fill.price;
        } else if (self.quantity.m > 0 && fill_quantity.m > 0) || (self.quantity.m < 0
            && fill_quantity.m < 0) {
            proof {
                crate::decimal::lemma_mul_bound(
                    abs_m(self.quantity.m as int),
                    self.average_price.m as int,
                    VAL_LIMIT as int,
                    VAL_LIMIT as int,
                );
                crate::decimal::lemma_mul_bound(
                    abs_m(fill_quantity.m as int),
                    fill.price.m as int,
                    VAL_LIMIT as int,
                    VAL_LIMIT as int,
                );
                crate::decimal::lemma_tdiv_abs(
                    abs_m(self.quantity.m as int) * self.average_price.m,
                    SCALE as int,
                );
                crate::decimal::lemma_tdiv_abs(
                    abs_m(fill_quantity.m as int) * fill.price.m,
                    SCALE as int,
                );
                crate::decimal::lemma_weighted_avg_bound(
                    abs_m(self.quantity.m as int),
                    abs_m(fill_quantity.m as int),
                    self.average_price.m as int,
                    fill.price.m as int,
                    VAL_LIMIT as int,
                );
            }
            let total_cost = self.quantity.abs().mul(self.average_price).add(
                fill_quantity.abs().mul(fill.price),
            );
            let total_quantity = self.quantity.abs().add(fill_quantity.abs());
            self.average_price = total_cost.div(total_quantity);
            self.quantity = new_quantity;
        } else {
            let closed_quantity = fill_quantity.abs().min(self.quantity.abs());
            let remaining_quantity = self.quantity.abs().sub(closed_quantity);

            proof {
                crate::decimal::lemma_mul_bound(
                    fill.price.m - self.average_price.m,
                    closed_quantity.m as int,
                    2 * VAL_LIMIT as int,
                    VAL_LIMIT as int,
                );
                crate::decimal::lemma_mul_bound(
                    self.average_price.m - fill.price.m,
                    closed_quantity.m as int,
                    2 * VAL_LIMIT as int,
                    VAL_LIMIT as int,
                );
                crate::decimal::lemma_tdiv_abs(
                    (fill.price.m - self.average_price.m) * closed_quantity.m,
                    SCALE as int,
                );
                crate::decimal::lemma_tdiv_abs(
                    (self.average_price.m - fill.price.m) * closed_quantity.m,
                    SCALE as int,
                );
                vstd::arithmetic::div_mod::lemma_div_is_ordered(
                    abs_m((fill.price.m - self.average_price.m) * closed_quantity.m as int),
                    2 * VAL_LIMIT * VAL_LIMIT,
                    SCALE as int,
                );
                vstd::arithmetic::div_mod::lemma_div_is_ordered(
                    abs_m((self.average_price.m - fill.price.m) * closed_quantity.m as int),
                    2 * VAL_LIMIT * VAL_LIMIT,
                    SCALE as int,
                );
            }
            let realized_pnl: Dec = if self.quantity.m > 0 {
                fill.price.sub(self.average_price).mul(closed_quantity)
            } else {
                self.average_price.sub(fill.price).mul(closed_quantity)
            };
            self.realized_pnl = self.realized_pnl.add(realized_pnl);

            if remaining_quantity.m == 0 {
                self.quantity = Dec::zero();
                self.average_price = Dec::zero();
            } else {
                self.quantity = if self.quantity.m > 0 {
                    remaining_quantity
                } else {
                    remaining_quantity.neg()
                };
            }
        }

        self.last_updated = fill.executed_at;
    }

    /// Mark the position to a market price: the market value becomes
    /// `|quantity| * price` and the unrealized P&L the signed
    /// difference to the cost basis.
    pub fn update_market_price(&mut self, market_price: Dec)
        requires
            old(self).wf(),
            market_price.val_ok(),
        ensures
            final(self).market_value.m == mul_m(
                abs_m(old(self).quantity.m as int),
                market_price.m as int,
            ),
            final(self).unrealized_pnl.m == if old(self).quantity.m > 0 {
                mul_m(market_price.m - old(self).average_price.m, old(self).quantity.m as int)
            } else if old(self).quantity.m < 0 {
                mul_m(
                    old(self).average_price.m - market_price.m,
                    abs_m(old(self).quantity.m as int),
                )
            } else {
                0
            },
            final(self).quantity == old(self).quantity,
            final(self).average_price == old(self).average_price,
            final(self).realized_pnl == old(self).realized_pnl,
            final(self).symbol == old(self).symbol,
            final(self).last_updated == old(self).last_updated,
            *final(self) == position_marked(*old(self), market_price),
            final(self).wf(),
    {
        proof {
            crate::decimal::lemma_mul_bound(
                abs_m(self.quantity.m as int),
                market_price.m as int,
                VAL_LIMIT as int,
                VAL_LIMIT as int,
            );
            crate::decimal::lemma_tdiv_abs(abs_m(self.quantity.m as int) * market_price.m, SCALE as int);
            crate::decimal::lemma_mul_bound(
                market_price.m - self.average_price.m,
                self.quantity.m as int,
                2 * VAL_LIMIT as int,
                VAL_LIMIT as int,
            );
            crate::decimal::lemma_mul_bound(
                self.average_price.m - market_price.m,
                abs_m(self.quantity.m as int),
                2 * VAL_LIMIT as int,
                VAL_LIMIT as int,
            );
            crate::decimal::lemma_tdiv_abs(
                (market_price.m - self.average_price.m) * self.quantity.m,
                SCALE as int,
            );
            crate::decimal::lemma_tdiv_abs(
                (self.average_price.m - market_price.m) * abs_m(self.quantity.m as int),
                SCALE as int,
            );
            vstd::arithmetic::div_mod::lemma_div_is_ordered(
                abs_m((market_price.m - self.average_price.m) * self.quantity.m as int),
                2 * VAL_LIMIT * VAL_LIMIT,
                SCALE as int,
            );
            vstd::arithmetic::div_mod::lemma_div_is_ordered(
                abs_m((self.average_price.m - market_price.m) * abs_m(self.quantity.m as int)),
                2 * VAL_LIMIT * VAL_LIMIT,
                SCALE as int,
            );
        }
        self.market_value = self.quantity.abs().mul(market_price);
        self.unrealized_pnl = if self.quantity.m > 0 {
            market_price.sub(self.average_price).mul(self.quantity)
        } else if self.quantity.m < 0 {
            self.average_price.sub(market_price).mul(self.quantity.abs())
        } else {
            Dec::zero()
        };
    }

    pub fn total_pnl(&self) -> (r: Dec)
        requires
            self.wf(),
        ensures
            r.m == self.realized_pnl.m + self.unrealized_pnl.m,
    {
        self.realized_pnl.add(self.unrealized_pnl)
    }
}

/// Sum of position market values.
pub open spec fn sum_mv(s: Seq<Position>) -> int
    decreases s.len(),
{
    if s.len() == 0 {
        0
    } else {
        sum_mv(s.drop_last()) + s.last().market_value.m
    }
}

/// Sum of realized P&L across positions.
pub open spec fn sum_realized(s: Seq<Position>) -> int
    decreases s.len(),
{
    if s.len() == 0 {
        0
    } else {
        sum_realized(s.drop_last()) + s.last().realized_pnl.m
    }
}

/// Sum of unrealized P&L across positions.
pub open spec fn sum_unrealized(s: Seq<Position>) -> int
    decreases s.len(),
{
    if s.len() == 0 {
        0
    } else {
        sum_unrealized(s.drop_last()) + s.last().unrealized_pnl.m
    }
}

/// Extending a prefix by one element grows each sum by that element's
/// contribution.
pub proof fn lemma_sums_prefix(s: Seq<Position>, i: int)
    requires
        0 <= i < s.len(),
    ensures
        sum_mv(s.subrange(0, i + 1)) == sum_mv(s.subrange(0, i)) + s[i].market_value.m,
        sum_realized(s.subrange(0, i + 1)) == sum_realized(s.subrange(0, i)) + s[i].realized_pnl.m,
        sum_unrealized(s.subrange(0, i + 1)) == sum_unrealized(s.subrange(0, i))
            + s[i].unrealized_pnl.m,
{
    assert(s.subrange(0, i + 1).drop_last() =~= s.subrange(0, i));
    assert(s.subrange(0, i + 1).last() == s[i]);
}

/// No two positions share a symbol.
pub open spec fn unique_syms(s: Seq<Position>) -> bool {
    forall|i: int, j: int|
        0 <= i < j < s.len() ==> (#[trigger] s[i].symbol)@ != (#[trigger] s[j].symbol)@
}

/// Whether some position carries this symbol.
pub open spec fn has_sym(s: Seq<Position>, sym: SymbolV) -> bool {
    exists|i: int| 0 <= i < s.len() && (#[trigger] s[i].symbol)@ == sym
}

/// Index of the position carrying this symbol (meaningful when
/// `has_sym` holds; unique when `unique_syms` holds).
pub open spec fn idx_of(s: Seq<Position>, sym: SymbolV) -> int {
    choose|i: int| 0 <= i < s.len() && (#[trigger] s[i].symbol)@ == sym
}

/// The position held for a symbol, if any.
pub open spec fn lookup(s: Seq<Position>, sym: SymbolV) -> Option<Position> {
    if has_sym(s, sym) {
        Some(s[idx_of(s, sym)])
    } else {
        None
    }
}

/// In a unique-symbol sequence, the element at any index with the
/// right symbol is the lookup result.
pub proof fn lemma_lookup_at(s: Seq<Position>, sym: SymbolV, i: int)
    requires
        unique_syms(s),
        0 <= i < s.len(),
        s[i].symbol@ == sym,
    ensures
        has_sym(s, sym),
        idx_of(s, sym) == i,
        lookup(s, sym) == Some(s[i]),
{
    assert(has_sym(s, sym));
    let j = idx_of(s, sym);
    if i < j {
        assert(s[i].symbol@ != s[j].symbol@);
    } else if j < i {
        assert(s[j].symbol@ != s[i].symbol@);
    }
}

/// Updating one position in place (same symbol) changes only that
/// symbol's lookup.
pub proof fn lemma_lookup_update(s: Seq<Position>, i: int, p: Position)
    requires
        unique_syms(s),
        0 <= i < s.len(),
        p.symbol@ == s[i].symbol@,
    ensures
        unique_syms(s.update(i, p)),
        lookup(s.update(i, p), p.symbol@) == Some(p),
        forall|o: SymbolV| o != p.symbol@ ==> lookup(s.update(i, p), o) == lookup(s, o),
{
    let s2 = s.update(i, p);
    assert forall|a: int, b: int| 0 <= a < b < s2.len() implies (#[trigger] s2[a].symbol)@ != (
    #[trigger] s2[b].symbol)@ by {
        assert(s[a].symbol@ != s[b].symbol@);
    }
    lemma_lookup_at(s2, p.symbol@, i);
    assert forall|o: SymbolV| o != p.symbol@ implies lookup(s2, o) == lookup(s, o) by {
        if has_sym(s, o) {
            let j = idx_of(s, o);
            assert(s[j].symbol@ == o);
            assert(j != i);
            assert(s2[j] == s[j]);
            lemma_lookup_at(s2, o, j);
            lemma_lookup_at(s, o, j);
        } else {
            assert forall|k: int| 0 <= k < s2.len() implies (#[trigger] s2[k].symbol)@ != o by {
                if k != i {
                    assert(s2[k] == s[k]);
                    assert(s[k].symbol@ != o);
                }
            }
        }
    }
}

/// Removing one position removes exactly that symbol's lookup.
pub proof fn lemma_lookup_remove(s: Seq<Position>, i: int)
    requires
        unique_syms(s),
        0 <= i < s.len(),
    ensures
        unique_syms(s.remove(i)),
        lookup(s.remove(i), s[i].symbol@) == None::<Position>,
        forall|o: SymbolV| o != s[i].symbol@ ==> lookup(s.remove(i), o) == lookup(s, o),
{
    let s2 = s.remove(i);
    let sym = s[i].symbol@;
    assert forall|a: int, b: int| 0 <= a < b < s2.len() implies (#[trigger] s2[a].symbol)@ != (
    #[trigger] s2[b].symbol)@ by {
        let a0 = if a < i {
            a
        } else {
            a + 1
        };
        let b0 = if b < i {
            b
        } else {
            b + 1
        };
        assert(s2[a] == s[a0] && s2[b] == s[b0]);
        assert(s[a0].symbol@ != s[b0].symbol@);
    }
    assert forall|k: int| 0 <= k < s2.len() implies (#[trigger] s2[k].symbol)@ != sym by {
        let k0 = if k < i {
            k
        } else {
            k + 1
        };
        assert(s2[k] == s[k0]);
        if k0 < i {
            assert(s[k0].symbol@ != s[i].symbol@);
        } else {
            assert(s[i].symbol@ != s[k0].symbol@);
        }
    }
    assert(!has_sym(s2, sym));
    assert forall|o: SymbolV| o != sym implies lookup(s2, o) == lookup(s, o) by {
        if has_sym(s, o) {
            let j = idx_of(s, o);
            assert(s[j].symbol@ == o);
            assert(j != i);
            let j2 = if j < i {
                j
            } else {
                j - 1
            };
            assert(s2[j2] == s[j]);
            lemma_lookup_at(s2, o, j2);
            lemma_lookup_at(s, o, j);
        } else {
            assert forall|k: int| 0 <= k < s2.len() implies (#[trigger] s2[k].symbol)@ != o by {
                let k0 = if k < i {
                    k
                } else {
                    k + 1
                };
                assert(s2[k] == s[k0]);
                assert(s[k0].symbol@ != o);
            }
        }
    }
}

/// Appending a position with a new symbol adds exactly that lookup.
pub proof fn lemma_lookup_push(s: Seq<Position>, p: Position)
    requires
        unique_syms(s),
        !has_sym(s, p.symbol@),
    ensures
        unique_syms(s.push(p)),
        lookup(s.push(p), p.symbol@) == Some(p),
        forall|o: SymbolV| o != p.symbol@ ==> lookup(s.push(p), o) == lookup(s, o),
{
    let s2 = s.push(p);
    assert forall|a: int, b: int| 0 <= a < b < s2.len() implies (#[trigger] s2[a].symbol)@ != (
    #[trigger] s2[b].symbol)@ by {
        if b < s.len() {
            assert(s2[a] == s[a] && s2[b] == s[b]);
            assert(s[a].symbol@ != s[b].symbol@);
        } else {
            assert(s2[b] == p);
            assert(s2[a] == s[a]);
            assert(s[a].symbol@ != p.symbol@);
        }
    }
    lemma_lookup_at(s2, p.symbol@, s.len() as int);
    assert forall|o: SymbolV| o != p.symbol@ implies lookup(s2, o) == lookup(s, o) by {
        if has_sym(s, o) {
            let j = idx_of(s, o);
            assert(s[j].symbol@ == o);
            assert(s2[j] == s[j]);
            lemma_lookup_at(s2, o, j);
            lemma_lookup_at(s, o, j);
        } else {
            assert forall|k: int| 0 <= k < s2.len() implies (#[trigger] s2[k].symbol)@ != o by {
                if k < s.len() {
                    assert(s2[k] == s[k]);
                    assert(s[k].symbol@ != o);
                } else {
                    assert(s2[k] == p);
                }
            }
        }
    }
}

/// Daily portfolio performance record.
#[derive(Debug, Clone, Copy, PartialEq, Eq, Structural)]
pub struct DailyReturn {
    pub date: i64,
    pub portfolio_value: Dec,
    pub daily_return: Dec,
    pub cumulative_return: Dec,
}

/// Risk management parameters.
#[derive(Debug, Clone, Copy, PartialEq, Eq, Structural)]
pub struct RiskLimits {
    pub max_position_size: Dec,
    pub max_portfolio_leverage: Dec,
    pub max_daily_loss: Dec,
    pub max_drawdown: Dec,
    /// Max fraction of portfolio equity in a single position.
    pub position_concentration_limit: Dec,
}

impl Default for RiskLimits {
    /// 10,000 share cap, 2x leverage, 5% daily loss, 20% drawdown,
    /// 25% concentration.
    fn default() -> (r: RiskLimits)
        ensures
            r.max_position_size.m == 10000 * SCALE,
            r.max_portfolio_leverage.m == 2 * SCALE,
            r.max_daily_loss.m == 50000,
            r.max_drawdown.m == 200000,
            r.position_concentration_limit.m == 250000,
    {
        RiskLimits {
            max_position_size: Dec::from_int(10000),
            max_portfolio_leverage: Dec::from_int(2),
            max_daily_loss: Dec::from_raw(50000),
            max_drawdown: Dec::from_raw(200000),
            position_concentration_limit: Dec::from_raw(250000),
        }
    }
}

/// Portfolio state: cash, positions keyed by symbol, running totals
/// and the daily-return history.
#[derive(Debug)]
pub struct Portfolio {
    pub account_id: String,
    pub initial_capital: Dec,
    pub cash: Dec,
    pub positions: Vec<Position>,
    pub total_equity: Dec,
    pub total_pnl: Dec,
    pub total_realized_pnl: Dec,
    pub total_unrealized_pnl: Dec,
    pub total_commissions: Dec,
    pub last_updated: i64,
    pub daily_returns: Vec<DailyReturn>,
}

impl Clone for Portfolio {
    fn clone(&self) -> (res: Portfolio)
        ensures
            res.account_id == self.account_id,
            res.initial_capital == self.initial_capital,
            res.cash == self.cash,
            res.positions@ == self.positions@,
            res.total_equity == self.total_equity,
            res.total_pnl == self.total_pnl,
            res.total_realized_pnl == self.total_realized_pnl,
            res.total_unrealized_pnl == self.total_unrealized_pnl,
            res.total_commissions == self.total_commissions,
            res.last_updated == self.last_updated,
            res.daily_returns@ == self.daily_returns@,
    {
        let mut positions: Vec<Position> = Vec::new();
        let mut i: usize = 0;
        while i < self.positions.len()
            invariant
                i <= self.positions.len(),
                positions@ =~= self.positions@.subrange(0, i as int),
            decreases self.positions.len() - i,
        {
            positions.push(self.positions[i].clone());
            i += 1;
        }
        proof {
            assert(positions@ =~= self.positions@);
        }
        Portfolio {
            account_id: self.account_id.clone(),
            initial_capital: self.initial_capital,
            cash: self.cash,
            positions,
            total_equity: self.total_equity,
            total_pnl: self.total_pnl,
            total_realized_pnl: self.total_realized_pnl,
            total_unrealized_pnl: self.total_unrealized_pnl,
            total_commissions: self.total_commissions,
            last_updated: self.last_updated,
            daily_returns: self.daily_returns.clone(),
        }
    }
}

impl Portfolio {
    /// Portfolio well-formedness: bounded fields, at most
    /// [`MAX_POSITIONS`] positions with pairwise distinct symbols, and
    /// the running totals exactly equal to the recomputed sums - in
    /// particular `total_equity == cash + sum of market values`.
    pub open spec fn wf(self) -> bool {
        &&& 0 <= self.initial_capital.m <= VAL_LIMIT
        &&& -AMT_LIMIT <= self.cash.m <= AMT_LIMIT
        &&& 0 <= self.total_commissions.m <= AMT_LIMIT
        &&& self.positions@.len() <= MAX_POSITIONS
        &&& (forall|i: int|
            0 <= i < self.positions@.len() ==> (#[trigger] self.positions@[i]).wf())
        &&& unique_syms(self.positions@)
        &&& self.total_realized_pnl.m == sum_realized(self.positions@)
        &&& self.total_unrealized_pnl.m == sum_unrealized(self.positions@)
        &&& self.total_pnl.m == self.total_realized_pnl.m + self.total_unrealized_pnl.m
        &&& self.total_equity.m == self.cash.m + sum_mv(self.positions@)
    }

    pub fn new(account_id: String, initial_capital: Dec) -> (r: Portfolio)
        requires
            0 <= initial_capital.m <= VAL_LIMIT,
        ensures
            r.wf(),
            r.account_id@ == account_id@,
            r.initial_capital == initial_capital,
            r.cash == initial_capital,
            r.positions@.len() == 0,
            r.total_equity == initial_capital,
            r.total_pnl.m == 0,
            r.total_realized_pnl.m == 0,
            r.total_unrealized_pnl.m == 0,
            r.total_commissions.m == 0,
            r.daily_returns@.len() == 0,
    {
        Portfolio {
            account_id,
            initial_capital,
            cash: initial_capital,
            positions: Vec::new(),
            total_equity: initial_capital,
            total_pnl: Dec::zero(),
            total_realized_pnl: Dec::zero(),
            total_unrealized_pnl: Dec::zero(),
            total_commissions: Dec::zero(),
            last_updated: host::now_millis(),
            daily_returns: Vec::new(),
        }
    }

    /// Recompute all totals from the positions; afterwards the
    /// equity equation of [`Portfolio::wf`] holds by construction.
    fn update_totals(&mut self)
        requires
            -AMT_LIMIT <= old(self).cash.m <= AMT_LIMIT,
            old(self).positions@.len() <= MAX_POSITIONS,
            forall|i: int|
                0 <= i < old(self).positions@.len() ==> (#[trigger] old(self).positions@[i]).wf(),
        ensures
            final(self).total_realized_pnl.m == sum_realized(final(self).positions@),
            final(self).total_unrealized_pnl.m == sum_unrealized(final(self).positions@),
            final(self).total_pnl.m == final(self).total_realized_pnl.m
                + final(self).total_unrealized_pnl.m,
            final(self).total_equity.m == final(self).cash.m + sum_mv(final(self).positions@),
            final(self).positions@ == old(self).positions@,
            final(self).cash == old(self).cash,
            final(self).account_id == old(self).account_id,
            final(self).initial_capital == old(self).initial_capital,
            final(self).total_commissions == old(self).total_commissions,
            final(self).daily_returns@ == old(self).daily_returns@,
            final(self).last_updated == old(self).last_updated,
            abs_m(sum_mv(final(self).positions@)) <= MAX_POSITIONS * AMT_LIMIT,
    {
        let ghost s = self.positions@;
        let mut acc_r: i128 = 0;
        let mut acc_u: i128 = 0;
        let mut acc_mv: i128 = 0;
        let mut i: usize = 0;
        proof {
            assert(s.subrange(0, 0) =~= Seq::<Position>::empty());
        }
        while i < self.positions.len()
            invariant
                i <= self.positions@.len(),
                self.positions@ == s,
                s.len() <= MAX_POSITIONS,
                forall|k: int| 0 <= k < s.len() ==> (#[trigger] s[k]).wf(),
                acc_r == sum_realized(s.subrange(0, i as int)),
                acc_u == sum_unrealized(s.subrange(0, i as int)),
                acc_mv == sum_mv(s.subrange(0, i as int)),
                -(i as int) * AMT_LIMIT <= acc_r <= (i as int) * AMT_LIMIT,
                -(i as int) * AMT_LIMIT <= acc_u <= (i as int) * AMT_LIMIT,
                -(i as int) * AMT_LIMIT <= acc_mv <= (i as int) * AMT_LIMIT,
            decreases self.positions@.len() - i,
        {
            proof {
                lemma_sums_prefix(s, i as int);
                assert(s[i as int].wf());
            }
            let p = &self.positions[i];
            acc_r = acc_r + p.realized_pnl.m;
            acc_u = acc_u + p.unrealized_pnl.m;
            acc_mv = acc_mv + p.market_value.m;
            i += 1;
        }
        proof {
            assert(s.subrange(0, s.len() as int) =~= s);
        }
        self.total_realized_pnl = Dec::from_raw(acc_r);
        self.total_unrealized_pnl = Dec::from_raw(acc_u);
        self.total_pnl = Dec::from_raw(acc_r).add(Dec::from_raw(acc_u));
        self.total_equity = self.cash.add(Dec::from_raw(acc_mv));
    }

    /// Number of open positions.
    pub fn position_count(&self) -> (r: usize)
        ensures
            r == self.positions@.len(),
    {
        self.positions.len()
    }

    /// Index of the position for this symbol, if one is held.
    fn find_position(&self, symbol: &Symbol) -> (r: Option<usize>)
        requires
            unique_syms(self.positions@),
        ensures
            match r {
                Some(i) => i < self.positions@.len() && self.positions@[i as int].symbol@
                    == symbol@,
                None => !has_sym(self.positions@, symbol@),
            },
    {
        let mut i: usize = 0;
        while i < self.positions.len()
            invariant
                i <= self.positions@.len(),
                forall|k: int|
                    0 <= k < i ==> (#[trigger] self.positions@[k].symbol)@ != symbol@,
            decreases self.positions@.len() - i,
        {
            if self.positions[i].symbol == *symbol {
                return Some(i);
            }
            i += 1;
        }
        None
    }

    /// The position held for a symbol, if any.
    pub fn get_position(&self, symbol: &Symbol) -> (r: Option<&Position>)
        requires
            unique_syms(self.positions@),
        ensures
            match r {
                Some(p) => lookup(self.positions@, symbol@) == Some(*p),
                None => lookup(self.positions@, symbol@) == None::<Position>,
            },
    {
        match self.find_position(symbol) {
            Some(i) => {
                proof {
                    lemma_lookup_at(self.positions@, symbol@, i as int);
                }
                Some(&self.positions[i])
            },
            None => None,
        }
    }

    /// Whether one more fill can be absorbed without any accumulator
    /// leaving its representable range.
    pub open spec fn can_absorb_spec(self, f: Fill) -> bool {
        &&& has_room(self.cash.m as int)
        &&& has_room(self.total_commissions.m as int)
        &&& (match lookup(self.positions@, f.symbol@) {
            Some(p) => has_room(p.realized_pnl.m as int) && abs_m(p.quantity.m as int)
                + f.quantity.m <= VAL_LIMIT,
            None => self.positions@.len() < MAX_POSITIONS,
        })
    }

    /// Runtime check for [`Portfolio::can_absorb_spec`].
    pub fn can_absorb(&self, fill: &Fill) -> (r: bool)
        requires
            self.wf(),
            fill.bounded(),
        ensures
            r == self.can_absorb_spec(*fill),
    {
        let room: i128 = AMT_LIMIT - FILL_STEP;
        if !(-room <= self.cash.m && self.cash.m <= room) {
            return false;
        }
        if !(-room <= self.total_commissions.m && self.total_commissions.m <= room) {
            return false;
        }
        match self.find_position(&fill.symbol) {
            Some(i) => {
                proof {
                    lemma_lookup_at(self.positions@, fill.symbol@, i as int);
                }
                let p = &self.positions[i];
                let qa: i128 = if p.quantity.m < 0 {
                    -p.quantity.m
                } else {
                    p.quantity.m
                };
                -room <= p.realized_pnl.m && p.realized_pnl.m <= room && qa + fill.quantity.m
                    <= VAL_LIMIT
            },
            None => self.positions.len() < MAX_POSITIONS,
        }
    }

    /// Apply a fill: cash moves by the fill's net amount, commissions
    /// accumulate, the symbol's position is updated by cost-basis
    /// accounting (and dropped if it closes flat), and all totals are
    /// recomputed.
    pub fn apply_fill(&mut self, fill: &Fill)
        requires
            old(self).wf(),
            fill.bounded(),
            old(self).can_absorb_spec(*fill),
        ensures
            final(self).wf(),
            final(self).cash.m == old(self).cash.m + fill.net_m(),
            final(self).total_commissions.m == old(self).total_commissions.m + fill.commission.m,
            final(self).last_updated == fill.executed_at,
            final(self).account_id == old(self).account_id,
            final(self).initial_capital == old(self).initial_capital,
            final(self).daily_returns@ == old(self).daily_returns@,
            ({
                let base = match lookup(old(self).positions@, fill.symbol@) {
                    Some(p) => p,
                    None => fresh_position(fill.symbol, 0),
                };
                let p2 = position_after_fill(
                    Position { last_updated: 0, ..base },
                    *fill,
                );
                &&& (if p2.quantity.m == 0 {
                    lookup(final(self).positions@, fill.symbol@) == None::<Position>
                } else {
                    lookup(final(self).positions@, fill.symbol@) == Some(p2)
                })
                &&& forall|o: SymbolV|
                    o != fill.symbol@ ==> lookup(final(self).positions@, o) == lookup(
                        old(self).positions@,
                        o,
                    )
            }),
    {
        let net = fill.net_amount();
        proof {
            crate::decimal::lemma_mul_bound(
                fill.quantity.m as int,
                fill.price.m as int,
                VAL_LIMIT as int,
                VAL_LIMIT as int,
            );
            crate::decimal::lemma_tdiv_abs(fill.quantity.m * fill.price.m, SCALE as int);
            vstd::arithmetic::div_mod::lemma_div_is_ordered(
                abs_m(fill.quantity.m * fill.price.m as int),
                VAL_LIMIT * VAL_LIMIT,
                SCALE as int,
            );
        }
        self.cash = self.cash.add(net);
        self.total_commissions = self.total_commissions.add(fill.commission);

        let ghost s0 = self.positions@;
        match self.find_position(&fill.symbol) {
            Some(i) => {
                proof {
                    lemma_lookup_at(s0, fill.symbol@, i as int);
                }
                let mut p = self.positions[i].clone();
                proof {
                    assert(Position { last_updated: p.last_updated, ..p } == p);
                    assert(position_after_fill(Position { last_updated: 0, ..p }, *fill)
                        == position_after_fill(p, *fill));
                }
                p.apply_fill(fill);
                if p.is_flat() {
                    proof {
                        lemma_lookup_update(s0, i as int, p);
                        lemma_lookup_remove(s0.update(i as int, p), i as int);
                    }
                    self.positions.set(i, p);
                    self.positions.remove(i);
                } else {
                    proof {
                        lemma_lookup_update(s0, i as int, p);
                    }
                    self.positions.set(i, p);
                }
            },
            None => {
                let mut p = Position::new(fill.symbol.clone());
                proof {
                    assert(Position { last_updated: 0, ..p } == fresh_position(fill.symbol, 0));
                    assert(position_after_fill(Position { last_updated: 0, ..p }, *fill)
                        == position_after_fill(p, *fill));
                }
                p.apply_fill(fill);
                if !p.is_flat() {
                    proof {
                        lemma_lookup_push(s0, p);
                    }
                    self.positions.push(p);
                }
            },
        }

        self.last_updated = fill.executed_at;
        self.update_totals();
    }

    /// Mark every position that has an entry in `prices` to that
    /// price, then recompute all totals.
    pub fn update_market_prices(&mut self, prices: &Vec<(Symbol, Dec)>)
        requires
            old(self).wf(),
            forall|k: int|
                0 <= k < prices@.len() ==> (#[trigger] prices@[k].1).val_ok(),
            forall|k: int, l: int|
                0 <= k < l < prices@.len() ==> (#[trigger] prices@[k].0)@ != (
                #[trigger] prices@[l].0)@,
        ensures
            final(self).wf(),
            final(self).positions@.len() == old(self).positions@.len(),
            final(self).cash == old(self).cash,
            final(self).account_id == old(self).account_id,
            final(self).initial_capital == old(self).initial_capital,
            final(self).total_commissions == old(self).total_commissions,
            final(self).daily_returns@ == old(self).daily_returns@,
            forall|o: SymbolV|
                #[trigger] lookup(final(self).positions@, o) == (match lookup(
                    old(self).positions@,
                    o,
                ) {
                    Some(p) => if has_price(prices@, o) {
                        Some(position_marked(p, price_of(prices@, o)))
                    } else {
                        Some(p)
                    },
                    None => None,
                }),
    {
        let ghost s0 = self.positions@;
        let mut k: usize = 0;
        while k < prices.len()
            invariant
                k <= prices@.len(),
                self.positions@.len() == s0.len(),
                s0.len() <= MAX_POSITIONS,
                -AMT_LIMIT <= self.cash.m <= AMT_LIMIT,
                self.cash == old(self).cash,
                self.account_id == old(self).account_id,
                self.initial_capital == old(self).initial_capital,
                self.total_commissions == old(self).total_commissions,
                self.daily_returns@ == old(self).daily_returns@,
                0 <= self.initial_capital.m <= VAL_LIMIT,
                0 <= self.total_commissions.m <= AMT_LIMIT,
                unique_syms(self.positions@),
                forall|i: int|
                    0 <= i < self.positions@.len() ==> (#[trigger] self.positions@[i]).wf(),
                forall|kk: int|
                    0 <= kk < prices@.len() ==> (#[trigger] prices@[kk].1).val_ok(),
                forall|kk: int, l: int|
                    0 <= kk < l < prices@.len() ==> (#[trigger] prices@[kk].0)@ != (
                    #[trigger] prices@[l].0)@,
                unique_syms(s0),
                forall|o: SymbolV|
                    #[trigger] lookup(self.positions@, o) == (match lookup(s0, o) {
                        Some(p) => if has_price(prices@.subrange(0, k as int), o) {
                            Some(position_marked(p, price_of(prices@.subrange(0, k as int), o)))
                        } else {
                            Some(p)
                        },
                        None => None,
                    }),
            decreases prices@.len() - k,
        {
            let ghost s_pre = self.positions@;
            let sym = &prices[k].0;
            let price = prices[k].1;
            match self.find_position(sym) {
                Some(i) => {
                    proof {
                        lemma_lookup_at(s_pre, sym@, i as int);
                    }
                    let mut p = self.positions[i].clone();
                    p.update_market_price(price);
                    proof {
                        lemma_lookup_update(s_pre, i as int, p);
                    }
                    self.positions.set(i, p);
                },
                None => {},
            }
            proof {
                let pk = prices@.subrange(0, k as int);
                let pk1 = prices@.subrange(0, k as int + 1);
                assert(pk1.drop_last() =~= pk);
                assert(pk1.last() == prices@[k as int]);
                assert forall|o: SymbolV|
                    #[trigger] lookup(self.positions@, o) == (match lookup(s0, o) {
                        Some(p) => if has_price(pk1, o) {
                            Some(position_marked(p, price_of(pk1, o)))
                        } else {
                            Some(p)
                        },
                        None => None,
                    }) by {
                    assert(lookup(s_pre, o) == (match lookup(s0, o) {
                        Some(p) => if has_price(pk, o) {
                            Some(position_marked(p, price_of(pk, o)))
                        } else {
                            Some(p)
                        },
                        None => None,
                    }));
                    if o == sym@ {
                        assert(pk1[k as int].0@ == o);
                        assert(has_price(pk1, o));
                        lemma_price_of_unique(pk1, o, k as int);
                        assert(!has_price(pk, o)) by {
                            if has_price(pk, o) {
                                let j = choose|j: int|
                                    0 <= j < pk.len() && (#[trigger] pk[j].0)@ == o;
                                assert(prices@[j].0@ == o);
                                assert(prices@[j].0@ != prices@[k as int].0@);
                            }
                        }
                    } else {
                        assert(has_price(pk1, o) == has_price(pk, o)) by {
                            if has_price(pk, o) {
                                let j = choose|j: int|
                                    0 <= j < pk.len() && (#[trigger] pk[j].0)@ == o;
                                assert(pk1[j].0@ == o);
                            }
                            if has_price(pk1, o) {
                                let j = choose|j: int|
                                    0 <= j < pk1.len() && (#[trigger] pk1[j].0)@ == o;
                                assert(j < pk.len()) by {
                                    if j == k as int {
                                        assert(pk1[j].0@ == sym@);
                                    }
                                }
                                assert(pk[j].0@ == o);
                            }
                        }
                        if has_price(pk, o) {
                            let j = choose|j: int| 0 <= j < pk.len() && (#[trigger] pk[j].0)@ == o;
                            lemma_price_of_unique(pk, o, j);
                            lemma_price_of_unique(pk1, o, j);
                        }
                    }
                }
            }
            k += 1;
        }
        proof {
            assert(prices@.subrange(0, prices@.len() as int) =~= prices@);
        }
        self.update_totals();
    }

    /// Cash available for new orders (never negative).
    pub fn get_available_cash(&self) -> (r: Dec)
        ensures
            r.m == if self.cash.m >= 0 {
                self.cash.m
            } else {
                0
            },
    {
        self.cash.max(Dec::zero())
    }

    /// Total return as a fraction of initial capital (zero when no
    /// capital was put in).
    pub fn get_total_return(&self) -> (r: Dec)
        requires
            self.wf(),
        ensures
            r.m == self.total_return_m(),
    {
        proof {
            lemma_sum_mv_bound(self.positions@);
        }
        if self.initial_capital.m > 0 {
            self.total_equity.sub(self.initial_capital).div(self.initial_capital)
        } else {
            Dec::zero()
        }
    }

    /// Mantissa of the portfolio's total return.
    pub open spec fn total_return_m(self) -> int {
        if self.initial_capital.m > 0 {
            div_m(self.total_equity.m - self.initial_capital.m, self.initial_capital.m as int)
        } else {
            0
        }
    }

    /// Append one daily-return snapshot; nothing else changes.
    pub fn add_daily_return(&mut self, date: i64, daily_return: Dec)
        requires
            old(self).wf(),
        ensures
            final(self).daily_returns@ == old(self).daily_returns@.push(
                DailyReturn {
                    date,
                    portfolio_value: old(self).total_equity,
                    daily_return,
                    cumulative_return: Dec { m: old(self).total_return_m() as i128 },
                },
            ),
            final(self).positions@ == old(self).positions@,
            final(self).cash == old(self).cash,
            final(self).total_equity == old(self).total_equity,
            final(self).wf(),
    {
        let cumulative_return = self.get_total_return();
        self.daily_returns.push(
            DailyReturn {
                date,
                portfolio_value: self.total_equity,
                daily_return,
                cumulative_return,
            },
        );
    }
}

/// Whether a price list carries an entry for this symbol.
pub open spec fn has_price(ps: Seq<(Symbol, Dec)>, sym: SymbolV) -> bool {
    exists|j: int| 0 <= j < ps.len() && (#[trigger] ps[j].0)@ == sym
}

/// The price listed for a symbol (meaningful when `has_price` holds).
pub open spec fn price_of(ps: Seq<(Symbol, Dec)>, sym: SymbolV) -> Dec {
    ps[choose|j: int| 0 <= j < ps.len() && (#[trigger] ps[j].0)@ == sym].1
}

/// In a duplicate-free price list, the listed price is the one at any
/// index carrying the symbol.
pub proof fn lemma_price_of_unique(ps: Seq<(Symbol, Dec)>, sym: SymbolV, j: int)
    requires
        forall|k: int, l: int|
            0 <= k < l < ps.len() ==> (#[trigger] ps[k].0)@ != (#[trigger] ps[l].0)@,
        0 <= j < ps.len(),
        ps[j].0@ == sym,
    ensures
        has_price(ps, sym),
        price_of(ps, sym) == ps[j].1,
{
    assert(has_price(ps, sym));
    let i = choose|i: int| 0 <= i < ps.len() && (#[trigger] ps[i].0)@ == sym;
    if i < j {
        assert(ps[i].0@ != ps[j].0@);
    } else if j < i {
        assert(ps[j].0@ != ps[i].0@);
    }
}

/// The summed market value of well-formed positions is bounded by the
/// position count times the per-position bound.
pub proof fn lemma_sum_mv_bound(s: Seq<Position>)
    requires
        forall|i: int| 0 <= i < s.len() ==> (#[trigger] s[i]).wf(),
    ensures
        abs_m(sum_mv(s)) <= s.len() * AMT_LIMIT,
    decreases s.len(),
{
    if s.len() == 0 {
    } else {
        lemma_sum_mv_bound(s.drop_last());
        assert(s.last().wf());
        assert((s.len() - 1) * AMT_LIMIT + AMT_LIMIT == s.len() * AMT_LIMIT) by (nonlinear_arith);
    }
}

/// The accounting identity behind every portfolio state this crate
/// produces: total equity is exactly cash plus the sum of position
/// market values, and total P&L is exactly the sum of realized and
/// unrealized P&L - with no incremental drift.
pub proof fn lemma_portfolio_equity_identity(p: Portfolio)
    requires
        p.wf(),
    ensures
        p.total_equity.m == p.cash.m + sum_mv(p.positions@),
        p.total_pnl.m == sum_realized(p.positions@) + sum_unrealized(p.positions@),
{
}

} // verus!
