//! Closed error taxonomy for the platform.

use vstd::prelude::*;
use vstd::string::StringExecFns;

use crate::decimal::Dec;
use crate::text::{dec_text, dec_text_bytes};

verus! {

/// Data-related errors.
#[derive(Debug)]
pub enum DataError {
    SourceNotFound(String),
    SymbolNotFound { symbol: String },
    NoDataInRange { symbol: String, start: String, end: String },
    InvalidFormat { message: String },
    Corruption { message: String },
    InsufficientData { message: String },
    LoadingFailed { message: String },
    ParseError { message: String },
    DatabaseConnection { message: String },
    QueryFailed { query: String, error: String },
}

/// Strategy-related errors.
#[derive(Debug)]
pub enum StrategyError {
    NotFound { strategy_id: String },
    InitializationFailed { message: String },
    ExecutionError { message: String },
    InvalidConfig { message: String },
    ParameterError { parameter: String, message: String },
    StateError { message: String },
    CompilationError { message: String },
    Timeout { timeout_seconds: u64 },
}

/// Order-related errors.
#[derive(Debug)]
pub enum OrderError {
    NotFound { order_id: String },
    Invalid { message: String },
    Rejected { reason: String },
    InsufficientFunds { required: Dec, available: Dec },
    PositionLimitExceeded { message: String },
    RiskLimitViolation { message: String },
    AlreadyFilled { order_id: String },
    AlreadyCanceled { order_id: String },
    MarketClosed { symbol: String },
    UnsupportedOrderType { order_type: String },
}

impl OrderError {
    /// The message text of this error.
    pub open spec fn message_spec(self) -> Seq<char> {
        match self {
            OrderError::NotFound { order_id } => "Order not found: "@ + order_id@,
            OrderError::Invalid { message } => "Invalid order: "@ + message@,
            OrderError::Rejected { reason } => "Order rejection: "@ + reason@,
            OrderError::InsufficientFunds { required, available } => {
                "Insufficient funds: required "@ + dec_text_bytes(required.m as int).map_values(
                    |b: u8| b as char,
                ) + ", available "@ + dec_text_bytes(available.m as int).map_values(
                    |b: u8| b as char,
                )
            },
            OrderError::PositionLimitExceeded { message } => {
                "Position limit exceeded: "@ + message@
            },
            OrderError::RiskLimitViolation { message } => "Risk limit violation: "@ + message@,
            OrderError::AlreadyFilled { order_id } => "Order already filled: "@ + order_id@,
            OrderError::AlreadyCanceled { order_id } => "Order already canceled: "@ + order_id@,
            OrderError::MarketClosed { symbol } => "Market closed: cannot execute order for "@
                + symbol@,
            OrderError::UnsupportedOrderType { order_type } => "Unsupported order type: "@
                + order_type@,
        }
    }

    /// Render the error as text.
    pub fn message(&self) -> (r: String)
        requires
            match *self {
                OrderError::InsufficientFunds { required, available } => required.val_ok()
                    && available.val_ok(),
                _ => true,
            },
        ensures
            r@ == self.message_spec(),
    {
        match self {
            OrderError::NotFound { order_id } => {
                "Order not found: ".to_owned().concat(order_id.as_str())
            },
            OrderError::Invalid { message } => {
                "Invalid order: ".to_owned().concat(message.as_str())
            },
            OrderError::Rejected { reason } => {
                "Order rejection: ".to_owned().concat(reason.as_str())
            },
            OrderError::InsufficientFunds { required, available } => {
                "Insufficient funds: required ".to_owned().concat(
                    dec_text(*required).as_str(),
                ).concat(", available ").concat(dec_text(*available).as_str())
            },
            OrderError::PositionLimitExceeded { message } => {
                "Position limit exceeded: ".to_owned().concat(message.as_str())
            },
            OrderError::RiskLimitViolation { message } => {
                "Risk limit violation: ".to_owned().concat(message.as_str())
            },
            OrderError::AlreadyFilled { order_id } => {
                "Order already filled: ".to_owned().concat(order_id.as_str())
            },
            OrderError::AlreadyCanceled { order_id } => {
                "Order already canceled: ".to_owned().concat(order_id.as_str())
            },
            OrderError::MarketClosed { symbol } => {
                "Market closed: cannot execute order for ".to_owned().concat(symbol.as_str())
            },
            OrderError::UnsupportedOrderType { order_type } => {
                "Unsupported order type: ".to_owned().concat(order_type.as_str())
            },
        }
    }
}

/// Portfolio-related errors.
#[derive(Debug)]
pub enum PortfolioError {
    PositionNotFound { symbol: String },
    InsufficientPosition { requested: Dec, available: Dec },
    CalculationError { message: String },
    RiskLimitExceeded { limit_type: String, current: Dec, limit: Dec },
    StateInconsistency { message: String },
    CurrencyMismatch { expected: String, actual: String },
}

/// Backtest-related errors.
#[derive(Debug)]
pub enum BacktestError {
    NotFound { backtest_id: String },
    InvalidConfig { message: String },
    AlreadyRunning { backtest_id: String },
    ExecutionFailed { message: String },
    Canceled { backtest_id: String },
    InvalidDateRange { start: String, end: String },
    NoSymbols,
    EngineInitFailed { message: String },
    SimulationError { message: String },
    ResultsProcessingError { message: String },
}

/// Main error type for the platform.
#[derive(Debug)]
pub enum GbError {
    Data(DataError),
    Strategy(StrategyError),
    Order(OrderError),
    Portfolio(PortfolioError),
    Backtest(BacktestError),
    Config(String),
    Io(String),
    Serialization(String),
    Arrow(String),
    Parquet(String),
    Internal(String),
    Validation(String),
}

impl From<DataError> for GbError {
    fn from(e: DataError) -> (r: GbError) {
        GbError::Data(e)
    }
}

impl vstd::std_specs::convert::FromSpecImpl<DataError> for GbError {
    open spec fn obeys_from_spec() -> bool {
        true
    }

    open spec fn from_spec(e: DataError) -> GbError {
        GbError::Data(e)
    }
}

impl From<StrategyError> for GbError {
    fn from(e: StrategyError) -> (r: GbError) {
        GbError::Strategy(e)
    }
}

impl vstd::std_specs::convert::FromSpecImpl<StrategyError> for GbError {
    open spec fn obeys_from_spec() -> bool {
        true
    }

    open spec fn from_spec(e: StrategyError) -> GbError {
        GbError::Strategy(e)
    }
}

impl From<OrderError> for GbError {
    fn from(e: OrderError) -> (r: GbError) {
        GbError::Order(e)
    }
}

impl vstd::std_specs::convert::FromSpecImpl<OrderError> for GbError {
    open spec fn obeys_from_spec() -> bool {
        true
    }

    open spec fn from_spec(e: OrderError) -> GbError {
        GbError::Order(e)
    }
}

impl From<PortfolioError> for GbError {
    fn from(e: PortfolioError) -> (r: GbError) {
        GbError::Portfolio(e)
    }
}

impl vstd::std_specs::convert::FromSpecImpl<PortfolioError> for GbError {
    open spec fn obeys_from_spec() -> bool {
        true
    }

    open spec fn from_spec(e: PortfolioError) -> GbError {
        GbError::Portfolio(e)
    }
}

impl From<BacktestError> for GbError {
    fn from(e: BacktestError) -> (r: GbError) {
        GbError::Backtest(e)
    }
}

impl vstd::std_specs::convert::FromSpecImpl<BacktestError> for GbError {
    open spec fn obeys_from_spec() -> bool {
        true
    }

    open spec fn from_spec(e: BacktestError) -> GbError {
        GbError::Backtest(e)
    }
}

/// Result type alias for platform operations.
pub type GbResult<T> = Result<T, GbError>;

} // verus!
