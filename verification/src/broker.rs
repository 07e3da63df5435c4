//! Broker abstraction for live and paper trading.

use vstd::prelude::*;
use vstd::string::StringExecFns;

use crate::decimal::Dec;
use crate::market::Symbol;
use crate::orders::{Order, OrderId, OrderStatus};

verus! {

/// Snapshot of an account balance returned by a broker.
#[derive(Debug, Clone, Copy, PartialEq, Eq, Structural)]
pub struct AccountBalance {
    pub cash: Dec,
    pub buying_power: Dec,
    pub equity: Dec,
    pub timestamp: i64,
}

/// Snapshot of a single position held at the broker.
#[derive(Debug)]
pub struct BrokerPosition {
    pub symbol: Symbol,
    pub quantity: Dec,
    pub market_value: Dec,
    pub average_cost: Dec,
    pub unrealized_pnl: Dec,
}

impl Clone for BrokerPosition {
    fn clone(&self) -> (res: BrokerPosition)
        ensures
            res == *self,
    {
        BrokerPosition {
            symbol: self.symbol.clone(),
            quantity: self.quantity,
            market_value: self.market_value,
            average_cost: self.average_cost,
            unrealized_pnl: self.unrealized_pnl,
        }
    }
}

/// Connection status of a broker adapter.
#[derive(Debug, Clone, Copy, PartialEq, Eq, Structural)]
pub enum ConnectionStatus {
    Connected,
    Disconnected,
    Reconnecting,
}

/// Errors surfaced by broker operations: a closed taxonomy that the
/// live engine maps to engine-level events.
#[derive(Debug)]
pub enum BrokerError {
    NotConnected,
    OrderRejected { reason: String },
    OrderNotFound { order_id: String },
    AuthenticationFailed { message: String },
    RateLimited { retry_after_ms: u64 },
    Internal { message: String },
}

impl BrokerError {
    /// Render the error as text.
    pub fn message(&self) -> (r: String)
        ensures
            r@ == self.message_spec(),
    {
        match self {
            BrokerError::NotConnected => "not connected to broker".to_owned(),
            BrokerError::OrderRejected { reason } => {
                "order rejected by broker: ".to_owned().concat(reason.as_str())
            },
            BrokerError::OrderNotFound { order_id } => {
                "order not found: ".to_owned().concat(order_id.as_str())
            },
            BrokerError::AuthenticationFailed { message } => {
                "authentication failed: ".to_owned().concat(message.as_str())
            },
            BrokerError::RateLimited { retry_after_ms } => {
                "rate limited - retry after ".to_owned().concat(
                    crate::text::u64_text(*retry_after_ms).as_str(),
                ).concat(" ms")
            },
            BrokerError::Internal { message } => {
                "broker internal error: ".to_owned().concat(message.as_str())
            },
        }
    }

    /// The message text of this error.
    pub open spec fn message_spec(self) -> Seq<char> {
        match self {
            BrokerError::NotConnected => "not connected to broker"@,
            BrokerError::OrderRejected { reason } => "order rejected by broker: "@ + reason@,
            BrokerError::OrderNotFound { order_id } => "order not found: "@ + order_id@,
            BrokerError::AuthenticationFailed { message } => "authentication failed: "@ + message@,
            BrokerError::RateLimited { retry_after_ms } => "rate limited - retry after "@
                + crate::risk::chars_of_u64(retry_after_ms as nat) + " ms"@,
            BrokerError::Internal { message } => "broker internal error: "@ + message@,
        }
    }
}

/// Result alias for broker operations.
pub type BrokerResult<T> = Result<T, BrokerError>;

/// Core broker interface: the seam between the live engine and any
/// execution venue. Implementations may talk to a real brokerage or
/// simulate execution locally; nothing is promised of their behaviour
/// beyond their signatures.
pub trait Broker {
    /// Connect to the broker and authenticate.
    fn connect(&mut self) -> BrokerResult<()>;

    /// Disconnect gracefully.
    fn disconnect(&mut self) -> BrokerResult<()>;

    /// Current connection status.
    fn connection_status(&self) -> ConnectionStatus;

    /// Submit a new order; returns the broker-assigned order id.
    fn submit_order(&mut self, order: Order) -> BrokerResult<OrderId>
        requires
            order.wf(),
            order.remaining_quantity.m > 0,
            match order.average_fill_price {
                Some(a) => a.val_ok(),
                None => true,
            },
    ;

    /// Cancel an open order.
    fn cancel_order(&mut self, order_id: OrderId) -> BrokerResult<()>;

    /// Query the current status of an order.
    fn get_order_status(&self, order_id: OrderId) -> BrokerResult<OrderStatus>;

    /// List all open (active) orders.
    fn get_open_orders(&self) -> BrokerResult<Vec<Order>>;

    /// Retrieve the current account balance.
    fn get_account_balance(&self) -> BrokerResult<AccountBalance>;

    /// Retrieve all positions currently held.
    fn get_positions(&self) -> BrokerResult<Vec<BrokerPosition>>;

    /// Retrieve the position for a specific symbol (if any).
    fn get_position(&self, symbol: &Symbol) -> BrokerResult<Option<BrokerPosition>>;

    /// Subscribe to market data for the given symbols.
    fn subscribe_market_data(&mut self, symbols: &Vec<Symbol>) -> BrokerResult<()>;

    /// Unsubscribe from market data.
    fn unsubscribe_market_data(&mut self, symbols: &Vec<Symbol>) -> BrokerResult<()>;

    /// The latest known price for a symbol, if any data was received.
    fn get_latest_price(&self, symbol: &Symbol) -> Option<Dec>;

    /// All latest prices.
    fn get_all_prices(&self) -> Vec<(Symbol, Dec)>;
}

} // verus!
