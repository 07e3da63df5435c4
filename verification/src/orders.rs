//! Order and fill model, with the order lifecycle state machine.
//!
//! An order's status only ever advances through
//! Pending -> Submitted -> PartiallyFilled -> Filled | Canceled |
//! Rejected | Expired; terminal states are never left, and
//! `filled_quantity + remaining_quantity == quantity` holds at every
//! point of an order's life.

use vstd::prelude::*;

use crate::decimal::{div_m, mul_m, Dec, VAL_LIMIT};
use crate::host;
use crate::market::{Symbol, SymbolV};

verus! {

/// Unique order identifier (a UUID's 128 bits).
pub type OrderId = u128;

/// Direction of an order (buy or sell).
#[derive(Debug, Clone, Copy, PartialEq, Eq, Structural)]
pub enum Side {
    Buy,
    Sell,
}

impl Side {
    pub fn opposite(&self) -> (r: Side)
        ensures
            r == match *self {
                Side::Buy => Side::Sell,
                Side::Sell => Side::Buy,
            },
    {
        match self {
            Side::Buy => Side::Sell,
            Side::Sell => Side::Buy,
        }
    }

    pub fn sign(&self) -> (r: i32)
        ensures
            r == match *self {
                Side::Buy => 1i32,
                Side::Sell => -1i32,
            },
    {
        match self {
            Side::Buy => 1,
            Side::Sell => -1,
        }
    }
}

/// Order types supported by the engine.
#[derive(Debug, Clone, Copy, PartialEq, Eq, Structural)]
pub enum OrderType {
    Market,
    Limit { price: Dec },
    Stop { stop_price: Dec },
    StopLimit { stop_price: Dec, limit_price: Dec },
}

/// Time in force specifications.
#[derive(Debug, Clone, Copy, PartialEq, Eq, Structural)]
pub enum TimeInForce {
    Day,
    GTC,
    IOC,
    FOK,
}

/// Order status during its lifecycle.
#[derive(Debug, Clone, Copy, PartialEq, Eq, Structural)]
pub enum OrderStatus {
    Pending,
    Submitted,
    PartiallyFilled,
    Filled,
    Canceled,
    Rejected,
    Expired,
}

/// Terminal states are never left.
pub open spec fn is_terminal(s: OrderStatus) -> bool {
    match s {
        OrderStatus::Filled
        | OrderStatus::Canceled
        | OrderStatus::Rejected
        | OrderStatus::Expired => true,
        _ => false,
    }
}

/// An active order can still receive fills or be canceled.
pub open spec fn is_active_status(s: OrderStatus) -> bool {
    match s {
        OrderStatus::Pending | OrderStatus::Submitted | OrderStatus::PartiallyFilled => true,
        _ => false,
    }
}

/// Position of a status along the state machine; transitions never
/// decrease it.
pub open spec fn status_rank(s: OrderStatus) -> int {
    match s {
        OrderStatus::Pending => 0,
        OrderStatus::Submitted => 1,
        OrderStatus::PartiallyFilled => 2,
        _ => 3,
    }
}

/// The order state machine only moves forward: ranks never decrease,
/// and a terminal state maps to itself.
pub open spec fn status_advances(a: OrderStatus, b: OrderStatus) -> bool {
    status_rank(a) <= status_rank(b) && (is_terminal(a) ==> a == b)
}

/// The order after recording an execution of up to `quantity` at
/// `price`: the filled part grows by what was still remaining (at most
/// `quantity`), the average fill price becomes the quantity-weighted
/// mean, and the status becomes Filled exactly when nothing remains.
pub open spec fn order_filled(o: Order, quantity: Dec, price: Dec) -> Order {
    let fq: int = if quantity.m <= o.remaining_quantity.m {
        quantity.m as int
    } else {
        o.remaining_quantity.m as int
    };
    let total: int = o.filled_quantity.m + fq;
    let avg = match o.average_fill_price {
        Option::Some(avg) => Dec {
            m: div_m(mul_m(avg.m as int, o.filled_quantity.m as int) + mul_m(price.m as int, fq), total) as i128,
        },
        Option::None => price,
    };
    Order {
        filled_quantity: Dec { m: total as i128 },
        remaining_quantity: Dec { m: (o.quantity.m - total) as i128 },
        average_fill_price: Some(avg),
        status: if o.quantity.m - total == 0 {
            OrderStatus::Filled
        } else {
            OrderStatus::PartiallyFilled
        },
        ..o
    }
}

/// Order request from a strategy.
#[derive(Debug)]
pub struct Order {
    pub id: OrderId,
    pub symbol: Symbol,
    pub side: Side,
    pub quantity: Dec,
    pub order_type: OrderType,
    pub time_in_force: TimeInForce,
    pub submitted_at: i64,
    pub status: OrderStatus,
    pub filled_quantity: Dec,
    pub remaining_quantity: Dec,
    pub average_fill_price: Option<Dec>,
    pub strategy_id: String,
}

impl Clone for Order {
    fn clone(&self) -> (res: Order)
        ensures
            res == *self,
    {
        Order {
            id: self.id,
            symbol: self.symbol.clone(),
            side: self.side,
            quantity: self.quantity,
            order_type: self.order_type,
            time_in_force: self.time_in_force,
            submitted_at: self.submitted_at,
            status: self.status,
            filled_quantity: self.filled_quantity,
            remaining_quantity: self.remaining_quantity,
            average_fill_price: self.average_fill_price,
            strategy_id: self.strategy_id.clone(),
        }
    }
}

impl Order {
    /// Quantity bookkeeping invariant: the filled and remaining parts
    /// are non-negative and always sum to the order quantity.
    pub open spec fn wf(self) -> bool {
        &&& 0 <= self.quantity.m <= VAL_LIMIT
        &&& 0 <= self.filled_quantity.m
        &&& 0 <= self.remaining_quantity.m
        &&& self.filled_quantity.m + self.remaining_quantity.m == self.quantity.m
    }

    pub fn new(
        symbol: Symbol,
        side: Side,
        quantity: Dec,
        order_type: OrderType,
        strategy_id: String,
    ) -> (r: Order)
        requires
            0 <= quantity.m <= VAL_LIMIT,
        ensures
            r.wf(),
            r.symbol@ == symbol@,
            r.side == side,
            r.quantity == quantity,
            r.order_type == order_type,
            r.time_in_force == TimeInForce::GTC,
            r.status == OrderStatus::Pending,
            r.filled_quantity.m == 0,
            r.remaining_quantity == quantity,
            r.average_fill_price is None,
            r.strategy_id@ == strategy_id@,
    {
        Order {
            id: host::new_id(),
            symbol,
            side,
            quantity,
            order_type,
            time_in_force: TimeInForce::GTC,
            submitted_at: host::now_millis(),
            status: OrderStatus::Pending,
            filled_quantity: Dec::zero(),
            remaining_quantity: quantity,
            average_fill_price: None,
            strategy_id,
        }
    }

    pub fn market_order(symbol: Symbol, side: Side, quantity: Dec, strategy_id: String) -> (r:
        Order)
        requires
            0 <= quantity.m <= VAL_LIMIT,
        ensures
            r.wf(),
            r.symbol@ == symbol@,
            r.side == side,
            r.quantity == quantity,
            r.order_type == OrderType::Market,
            r.time_in_force == TimeInForce::GTC,
            r.status == OrderStatus::Pending,
            r.filled_quantity.m == 0,
            r.remaining_quantity == quantity,
            r.average_fill_price is None,
            r.strategy_id@ == strategy_id@,
    {
        Order::new(symbol, side, quantity, OrderType::Market, strategy_id)
    }

    pub fn limit_order(
        symbol: Symbol,
        side: Side,
        quantity: Dec,
        price: Dec,
        strategy_id: String,
    ) -> (r: Order)
        requires
            0 <= quantity.m <= VAL_LIMIT,
        ensures
            r.wf(),
            r.symbol@ == symbol@,
            r.side == side,
            r.quantity == quantity,
            r.order_type == (OrderType::Limit { price }),
            r.time_in_force == TimeInForce::GTC,
            r.status == OrderStatus::Pending,
            r.filled_quantity.m == 0,
            r.remaining_quantity == quantity,
            r.average_fill_price is None,
            r.strategy_id@ == strategy_id@,
    {
        Order::new(symbol, side, quantity, OrderType::Limit { price }, strategy_id)
    }

    pub fn stop_order(
        symbol: Symbol,
        side: Side,
        quantity: Dec,
        stop_price: Dec,
        strategy_id: String,
    ) -> (r: Order)
        requires
            0 <= quantity.m <= VAL_LIMIT,
        ensures
            r.wf(),
            r.symbol@ == symbol@,
            r.side == side,
            r.quantity == quantity,
            r.order_type == (OrderType::Stop { stop_price }),
            r.time_in_force == TimeInForce::GTC,
            r.status == OrderStatus::Pending,
            r.filled_quantity.m == 0,
            r.remaining_quantity == quantity,
            r.average_fill_price is None,
            r.strategy_id@ == strategy_id@,
    {
        Order::new(symbol, side, quantity, OrderType::Stop { stop_price }, strategy_id)
    }

    pub fn is_buy(&self) -> (r: bool)
        ensures
            r == (self.side == Side::Buy),
    {
        matches!(self.side, Side::Buy)
    }

    pub fn is_sell(&self) -> (r: bool)
        ensures
            r == (self.side == Side::Sell),
    {
        matches!(self.side, Side::Sell)
    }

    pub fn is_filled(&self) -> (r: bool)
        ensures
            r == (self.status == OrderStatus::Filled),
    {
        self.status == OrderStatus::Filled
    }

    pub fn is_active(&self) -> (r: bool)
        ensures
            r == is_active_status(self.status),
    {
        matches!(
            self.status,
            OrderStatus::Pending | OrderStatus::Submitted | OrderStatus::PartiallyFilled
        )
    }

    /// Record an execution of up to `quantity` at `price`: the filled
    /// part grows by what was still remaining (at most `quantity`), the
    /// average fill price is updated as a quantity-weighted mean, and
    /// the status becomes Filled when nothing remains, else
    /// PartiallyFilled.
    pub fn fill(&mut self, quantity: Dec, price: Dec)
        requires
            old(self).wf(),
            is_active_status(old(self).status),
            0 < quantity.m <= VAL_LIMIT,
            old(self).remaining_quantity.m > 0,
            price.val_ok(),
            match old(self).average_fill_price {
                Option::Some(avg) => avg.val_ok(),
                Option::None => true,
            },
        ensures
            final(self).wf(),
            status_advances(old(self).status, final(self).status),
            *final(self) == order_filled(*old(self), quantity, price),
    {
        let fill_quantity = quantity.min(self.remaining_quantity);

        let total_filled = self.filled_quantity.add(fill_quantity);
        proof {
            crate::decimal::lemma_mul_bound(
                price.m as int,
                fill_quantity.m as int,
                VAL_LIMIT as int,
                VAL_LIMIT as int,
            );
        }
        match self.average_fill_price {
            Some(avg_price) => {
                proof {
                    crate::decimal::lemma_mul_bound(
                        avg_price.m as int,
                        self.filled_quantity.m as int,
                        VAL_LIMIT as int,
                        VAL_LIMIT as int,
                    );
                    crate::decimal::lemma_tdiv_shrinks(
                        (avg_price.m * self.filled_quantity.m) as int,
                        crate::decimal::SCALE as int,
                    );
                    crate::decimal::lemma_tdiv_shrinks(
                        (price.m * fill_quantity.m) as int,
                        crate::decimal::SCALE as int,
                    );
                }
                self.average_fill_price = Some(
                    avg_price.mul(self.filled_quantity).add(price.mul(fill_quantity)).div(
                        total_filled,
                    ),
                );
            },
            None => {
                self.average_fill_price = Some(price);
            },
        }

        self.filled_quantity = total_filled;
        self.remaining_quantity = self.quantity.sub(total_filled);

        if self.remaining_quantity.m == 0 {
            self.status = OrderStatus::Filled;
        } else {
            self.status = OrderStatus::PartiallyFilled;
        }
    }

    /// Cancel the order if it is still active; a terminal order is left
    /// unchanged.
    pub fn cancel(&mut self)
        ensures
            status_advances(old(self).status, final(self).status),
            *final(self) == (Order {
                status: if is_active_status(old(self).status) {
                    OrderStatus::Canceled
                } else {
                    old(self).status
                },
                ..*old(self)
            }),
            old(self).wf() ==> final(self).wf(),
    {
        if self.is_active() {
            self.status = OrderStatus::Canceled;
        }
    }
}

/// Immutable record of one execution.
#[derive(Debug)]
pub struct Fill {
    pub id: u128,
    pub order_id: OrderId,
    pub symbol: Symbol,
    pub side: Side,
    pub quantity: Dec,
    pub price: Dec,
    pub commission: Dec,
    pub executed_at: i64,
    pub strategy_id: String,
}

impl Clone for Fill {
    fn clone(&self) -> (res: Fill)
        ensures
            res == *self,
    {
        Fill {
            id: self.id,
            order_id: self.order_id,
            symbol: self.symbol.clone(),
            side: self.side,
            quantity: self.quantity,
            price: self.price,
            commission: self.commission,
            executed_at: self.executed_at,
            strategy_id: self.strategy_id.clone(),
        }
    }
}

impl Fill {
    /// Bounds under which a fill's cash effect stays representable.
    pub open spec fn bounded(self) -> bool {
        &&& 0 <= self.quantity.m <= VAL_LIMIT
        &&& self.price.val_ok()
        &&& 0 <= self.commission.m <= crate::decimal::COST_LIMIT
    }

    pub fn new(
        order_id: OrderId,
        symbol: Symbol,
        side: Side,
        quantity: Dec,
        price: Dec,
        commission: Dec,
        strategy_id: String,
    ) -> (r: Fill)
        ensures
            r.order_id == order_id,
            r.symbol@ == symbol@,
            r.side == side,
            r.quantity == quantity,
            r.price == price,
            r.commission == commission,
            r.strategy_id@ == strategy_id@,
    {
        Fill {
            id: host::new_id(),
            order_id,
            symbol,
            side,
            quantity,
            price,
            commission,
            executed_at: host::now_millis(),
            strategy_id,
        }
    }

    /// Mantissa of `quantity * price`.
    pub open spec fn gross_m(self) -> int {
        mul_m(self.quantity.m as int, self.price.m as int)
    }

    /// Mantissa of the fill's signed cash effect: a buy spends the
    /// gross amount plus commission, a sell receives the gross amount
    /// less commission.
    pub open spec fn net_m(self) -> int {
        match self.side {
            Side::Buy => -(self.gross_m() + self.commission.m),
            Side::Sell => self.gross_m() - self.commission.m,
        }
    }

    pub fn gross_amount(&self) -> (r: Dec)
        requires
            self.bounded(),
        ensures
            r.m == self.gross_m(),
    {
        proof {
            crate::decimal::lemma_mul_bound(
                self.quantity.m as int,
                self.price.m as int,
                VAL_LIMIT as int,
                VAL_LIMIT as int,
            );
        }
        self.quantity.mul(self.price)
    }

    pub fn net_amount(&self) -> (r: Dec)
        requires
            self.bounded(),
        ensures
            r.m == self.net_m(),
    {
        let gross = self.gross_amount();
        proof {
            crate::decimal::lemma_tdiv_shrinks(
                (self.quantity.m * self.price.m) as int,
                crate::decimal::SCALE as int,
            );
            crate::decimal::lemma_mul_bound(
                self.quantity.m as int,
                self.price.m as int,
                VAL_LIMIT as int,
                VAL_LIMIT as int,
            );
        }
        match self.side {
            Side::Buy => gross.add(self.commission).neg(),
            Side::Sell => gross.sub(self.commission),
        }
    }
}

/// Order event for the event-driven engine.
#[derive(Debug)]
pub enum OrderEvent {
    OrderSubmitted(Order),
    OrderFilled { order_id: OrderId, fill: Fill },
    OrderCanceled { order_id: OrderId, reason: String },
    OrderRejected { order_id: OrderId, reason: String },
}

impl OrderEvent {
    pub open spec fn order_id_spec(&self) -> OrderId {
        match *self {
            OrderEvent::OrderSubmitted(ref order) => order.id,
            OrderEvent::OrderFilled { order_id, .. } => order_id,
            OrderEvent::OrderCanceled { order_id, .. } => order_id,
            OrderEvent::OrderRejected { order_id, .. } => order_id,
        }
    }

    pub fn order_id(&self) -> (r: OrderId)
        ensures
            r == self.order_id_spec(),
    {
        match self {
            OrderEvent::OrderSubmitted(order) => order.id,
            OrderEvent::OrderFilled { order_id, .. } => *order_id,
            OrderEvent::OrderCanceled { order_id, .. } => *order_id,
            OrderEvent::OrderRejected { order_id, .. } => *order_id,
        }
    }
}

} // verus!
