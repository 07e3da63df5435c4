//! Quantitative trading research platform: event-driven backtesting,
//! order execution simulation, portfolio accounting, pre-trade risk
//! controls, and a paper broker for sandbox trading.

pub mod backtest;
pub mod broker;
pub mod cache;
pub mod catalog;
pub mod data;
pub mod decimal;
pub mod engine;
pub mod errors;
pub mod execution;
pub mod host;
pub mod live;
pub mod loaders;
pub mod market;
pub mod orders;
pub mod paper;
pub mod portfolio;
pub mod providers;
pub mod risk;
pub mod riskmetrics;
pub mod simulator;
pub mod sources;
pub mod storage;
pub mod strategy;
pub mod symtab;
pub mod text;
