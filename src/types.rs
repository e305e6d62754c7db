use vstd::prelude::*;

verus! {

/// Multipliers and percentages in parameters are expressed in hundredths:
/// `150` stands for `1.5`, `40` for `0.40`.
pub const SCALE: u16 = 100;

/// Trade prices (entry, exit, stop, target) and profits are in millionths of
/// a tick, fine enough to hold every stop and target exactly.
pub const PRICE_SCALE: i128 = 1_000_000;

/// One price bar. Prices and volume are whole ticks; the average true range
/// is in hundredths of a tick (see `SCALE`).
#[derive(Debug, Clone, Copy, PartialEq, Eq, Structural)]
pub struct Candle {
    pub open: u32,
    pub high: u32,
    pub low: u32,
    pub close: u32,
    pub volume: u32,
    pub atr: u32,
    pub hour: i32,
    pub minute: i32,
    pub is_warmup: bool,
}

#[derive(Debug, Clone, Copy, PartialEq, Eq, Structural)]
pub enum TradeType {
    Long,
    Short,
}

#[derive(Debug, Clone, Copy, PartialEq, Eq, Structural)]
pub enum ExitReason {
    StopLoss,
    TakeProfit,
    IntradayClose,
}

/// A closed round trip. Prices and profit are in millionths of a tick (see
/// `PRICE_SCALE`).
#[derive(Debug, Clone, Copy, PartialEq, Eq, Structural)]
pub struct Trade {
    pub entry_idx: usize,
    pub exit_idx: usize,
    pub trade_type: TradeType,
    pub entry_price: i128,
    pub exit_price: i128,
    pub sl: i128,
    pub tp: i128,
    pub pnl: i128,
    pub exit_reason: ExitReason,
}

/// Parameters of the elephant-bar rule. Multipliers are in hundredths (see `SCALE`).
#[derive(Debug, Clone, Copy, PartialEq, Eq, Structural)]
pub struct BarraElefanteParams {
    pub min_amplitude_mult: u16,
    pub min_volume_mult: u16,
    pub max_sombra_pct: u16,
    pub lookback_amplitude: usize,
    pub horario_inicio: i32,
    pub minuto_inicio: i32,
    pub horario_fim: i32,
    pub minuto_fim: i32,
    pub horario_fechamento: i32,
    pub minuto_fechamento: i32,
    pub sl_atr_mult: u16,
    pub tp_atr_mult: u16,
    pub usar_trailing: bool,
}

impl BarraElefanteParams {
    pub open spec fn spec_default() -> BarraElefanteParams {
        BarraElefanteParams {
            min_amplitude_mult: 150,
            min_volume_mult: 120,
            max_sombra_pct: 40,
            lookback_amplitude: 20,
            horario_inicio: 9,
            minuto_inicio: 15,
            horario_fim: 11,
            minuto_fim: 0,
            horario_fechamento: 12,
            minuto_fechamento: 15,
            sl_atr_mult: 200,
            tp_atr_mult: 300,
            usar_trailing: false,
        }
    }
}

impl Default for BarraElefanteParams {
    fn default() -> (r: Self)
        ensures
            r == BarraElefanteParams::spec_default(),
    {
        BarraElefanteParams {
            min_amplitude_mult: 150,
            min_volume_mult: 120,
            max_sombra_pct: 40,
            lookback_amplitude: 20,
            horario_inicio: 9,
            minuto_inicio: 15,
            horario_fim: 11,
            minuto_fim: 0,
            horario_fechamento: 12,
            minuto_fechamento: 15,
            sl_atr_mult: 200,
            tp_atr_mult: 300,
            usar_trailing: false,
        }
    }
}

/// Scorecard of a trade log, exact, with amounts in millionths of a tick. Ratios (win rate,
/// averages, profit factor, Sharpe, Sortino, drawdown percentage, expectancy)
/// follow from these fields and the individual profits.
#[derive(Debug, Clone, Copy, PartialEq, Eq, Structural)]
pub struct Metrics {
    pub total_return: i128,
    pub total_trades: usize,
    pub winning_trades: usize,
    pub losing_trades: usize,
    pub gross_profit: i128,
    pub gross_loss: i128,
    pub max_drawdown: i128,
    /// Peak equity at the point where the largest drawdown was reached.
    pub drawdown_peak: i128,
    pub max_consecutive_wins: usize,
    pub max_consecutive_losses: usize,
}

impl Metrics {
    pub open spec fn spec_zero() -> Metrics {
        Metrics {
            total_return: 0,
            total_trades: 0,
            winning_trades: 0,
            losing_trades: 0,
            gross_profit: 0,
            gross_loss: 0,
            max_drawdown: 0,
            drawdown_peak: 0,
            max_consecutive_wins: 0,
            max_consecutive_losses: 0,
        }
    }
}

impl Default for Metrics {
    fn default() -> (r: Self)
        ensures
            r == Metrics::spec_zero(),
    {
        Metrics {
            total_return: 0,
            total_trades: 0,
            winning_trades: 0,
            losing_trades: 0,
            gross_profit: 0,
            gross_loss: 0,
            max_drawdown: 0,
            drawdown_peak: 0,
            max_consecutive_wins: 0,
            max_consecutive_losses: 0,
        }
    }
}

pub struct BacktestResult {
    pub trades: Vec<Trade>,
    pub metrics: Metrics,
    pub success: bool,
    pub error_msg: Option<String>,
}

/// What a backtest result says, as plain values.
pub struct BacktestOutcome {
    pub trades: Seq<Trade>,
    pub metrics: Metrics,
    pub success: bool,
    pub error_msg: Option<Seq<char>>,
}

impl View for BacktestResult {
    type V = BacktestOutcome;

    open spec fn view(&self) -> BacktestOutcome {
        BacktestOutcome {
            trades: self.trades@,
            metrics: self.metrics,
            success: self.success,
            error_msg: match &self.error_msg {
                Some(m) => Some(m@),
                None => None,
            },
        }
    }
}

} // verus!
