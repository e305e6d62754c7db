use vstd::prelude::*;

pub mod backtest_engine;
pub mod metrics;
pub mod optimizer;
pub mod strategy;
pub mod types;

pub use backtest_engine::BacktestEngine;
pub use optimizer::{generate_param_grid, Optimizer};
pub use types::{BacktestResult, BarraElefanteParams, Candle, ExitReason, Metrics, Trade, TradeType};

verus! {

} // verus!
