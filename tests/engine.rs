use std::sync::Arc;

use engine_rust::backtest_engine::simulate_trades;
use engine_rust::metrics::calculate_metrics;
use engine_rust::strategy::{check_horario, detect_barra_elefante, detect_barra_elefante_with_cache, PrecomputedData, Signals};
use engine_rust::{
    generate_param_grid, BacktestEngine, BarraElefanteParams, Candle, ExitReason, Metrics, Optimizer, Trade,
    TradeType,
};

/// One tick in the unit of trade prices.
const M: i128 = 1_000_000;

fn bar(open: u32, high: u32, low: u32, close: u32, volume: u32, hour: i32, minute: i32) -> Candle {
    // ATR of two ticks, in hundredths of a tick.
    Candle { open, high, low, close, volume, atr: 200, hour, minute, is_warmup: false }
}

/// 100 bars five minutes apart from 06:00, flat at 100 except a bullish
/// elephant bar at 50 and a breakout above it at 51, flat at 122 after.
fn elephant_series() -> Vec<Candle> {
    let mut cs = Vec::new();
    for k in 0..100i32 {
        let t = 6 * 60 + 5 * k;
        let (h, m) = (t / 60, t % 60);
        let c = if k < 50 {
            bar(100, 101, 99, 100, 100, h, m)
        } else if k == 50 {
            bar(100, 121, 99, 120, 1000, h, m)
        } else if k == 51 {
            bar(120, 125, 119, 122, 100, h, m)
        } else {
            bar(122, 123, 121, 122, 100, h, m)
        };
        cs.push(c);
    }
    cs
}

fn flat_series(n: usize) -> Vec<Candle> {
    (0..n).map(|_| bar(100, 101, 99, 100, 100, 10, 0)).collect()
}

fn trade_with_pnl(k: usize, pnl: i128) -> Trade {
    Trade {
        entry_idx: 2 * k,
        exit_idx: 2 * k + 1,
        trade_type: TradeType::Long,
        entry_price: 100,
        exit_price: 100 + pnl,
        sl: 90,
        tp: 130,
        pnl,
        exit_reason: ExitReason::IntradayClose,
    }
}

#[test]
fn trading_window_includes_both_ends() {
    assert!(check_horario(9, 15, 9, 15, 11, 0));
    assert!(check_horario(11, 0, 9, 15, 11, 0));
    assert!(!check_horario(9, 14, 9, 15, 11, 0));
    assert!(!check_horario(11, 1, 9, 15, 11, 0));
    assert!(!check_horario(8, 59, 9, 15, 11, 0));
}

#[test]
fn default_params_match_the_documented_values() {
    let p = BarraElefanteParams::default();
    assert_eq!(p.min_amplitude_mult, 150);
    assert_eq!(p.min_volume_mult, 120);
    assert_eq!(p.max_sombra_pct, 40);
    assert_eq!(p.lookback_amplitude, 20);
    assert_eq!((p.horario_inicio, p.minuto_inicio), (9, 15));
    assert_eq!((p.horario_fim, p.minuto_fim), (11, 0));
    assert_eq!((p.horario_fechamento, p.minuto_fechamento), (12, 15));
    assert_eq!((p.sl_atr_mult, p.tp_atr_mult), (200, 300));
    assert!(!p.usar_trailing);
}

#[test]
fn cache_is_shifted_and_zero_at_first_bar() {
    let cs = vec![
        bar(10, 14, 10, 12, 5, 10, 0),
        bar(10, 13, 10, 10, 7, 10, 5),
        bar(10, 18, 10, 11, 9, 10, 10),
        bar(10, 11, 10, 11, 11, 10, 15),
    ];
    let cache = PrecomputedData::new(&cs, 2);
    assert_eq!(cache.amplitudes, vec![4, 3, 8, 1]);
    assert_eq!(cache.corpos, vec![2, 0, 1, 1]);
    assert_eq!(cache.amplitude_sums, vec![0, 4, 7, 11]);
    assert_eq!(cache.volume_sums, vec![0, 5, 12, 16]);
    assert_eq!(cache.window_lens, vec![0, 1, 2, 2]);
}

#[test]
fn cache_ignores_the_current_and_later_bars() {
    let mut cs = elephant_series();
    let before = PrecomputedData::new(&cs, 20);
    cs[60].high = 500;
    cs[60].volume = 90000;
    let after = PrecomputedData::new(&cs, 20);
    for i in 0..=60 {
        assert_eq!(before.amplitude_sums[i], after.amplitude_sums[i]);
        assert_eq!(before.volume_sums[i], after.volume_sums[i]);
    }
    assert_ne!(before.amplitude_sums[61], after.amplitude_sums[61]);
}

#[test]
fn elephant_bar_scenario_gives_one_long_signal_and_one_trade() {
    let cs = elephant_series();
    let p = BarraElefanteParams::default();
    let signals = detect_barra_elefante(&cs, &p);
    assert!(signals.entries_long[51]);
    assert_eq!(signals.entries_long.iter().filter(|b| **b).count(), 1);
    assert_eq!(signals.entries_short.iter().filter(|b| **b).count(), 0);
    assert!(signals.sl_prices.iter().all(|x| *x == 0));

    let engine = BacktestEngine::new_with_cache(Arc::new(cs), 20);
    let r = engine.run_strategy(&p);
    assert!(r.success);
    assert!(r.error_msg.is_none());
    assert_eq!(r.trades.len(), 1);
    let t = r.trades[0];
    // The signal on bar 51 is filled at the open of the following bar.
    assert_eq!(t.entry_idx, 52);
    assert_eq!(t.entry_price, 122 * M);
    assert_eq!(t.sl, 118 * M);
    assert_eq!(t.tp, 134 * M);
    // 12:15 is bar 75.
    assert_eq!(t.exit_idx, 75);
    assert_eq!(t.exit_reason, ExitReason::IntradayClose);
    assert_eq!(t.pnl, 0);
    assert_eq!(r.metrics.total_trades, 1);
}

#[test]
fn signals_never_exceed_bullish_candidates() {
    let cs = elephant_series();
    let mut p = BarraElefanteParams::default();
    p.min_amplitude_mult = 50;
    p.min_volume_mult = 50;
    p.horario_inicio = 0;
    p.horario_fim = 23;
    let signals = detect_barra_elefante(&cs, &p);
    let longs = signals.entries_long.iter().filter(|b| **b).count();
    let bullish = (p.lookback_amplitude..cs.len())
        .filter(|&i| cs[i].close > cs[i].open)
        .count();
    assert!(longs <= bullish);
    assert_eq!(longs, 1);
}

#[test]
fn bearish_breakout_gives_short_signal() {
    let mut cs = flat_series(30);
    cs[25] = bar(100, 101, 79, 80, 1000, 10, 0);
    cs[26] = bar(80, 81, 75, 78, 100, 10, 5);
    let p = BarraElefanteParams::default();
    let signals = detect_barra_elefante(&cs, &p);
    assert!(signals.entries_short[26]);
    assert!(!signals.entries_long.iter().any(|b| *b));
}

#[test]
fn breakout_outside_the_window_gives_no_signal() {
    let mut cs = flat_series(30);
    cs[25] = bar(100, 121, 99, 120, 1000, 11, 0);
    cs[26] = bar(120, 125, 119, 122, 100, 11, 5);
    let p = BarraElefanteParams::default();
    let signals = detect_barra_elefante(&cs, &p);
    assert!(!signals.entries_long.iter().any(|b| *b));
}

#[test]
fn zero_range_bar_is_no_pattern_bar() {
    let mut cs = flat_series(30);
    cs[25] = Candle { open: 100, high: 100, low: 100, close: 100, volume: 1000, atr: 200, hour: 10, minute: 0, is_warmup: false };
    let p = BarraElefanteParams { min_amplitude_mult: 0, ..BarraElefanteParams::default() };
    let signals = detect_barra_elefante(&cs, &p);
    assert!(!signals.entries_long.iter().any(|b| *b));
    assert!(!signals.entries_short.iter().any(|b| *b));
}

#[test]
fn fewer_bars_than_lookback_gives_no_signal() {
    let cs = flat_series(20);
    let p = BarraElefanteParams::default();
    let signals = detect_barra_elefante(&cs, &p);
    assert_eq!(signals.entries_long.len(), 20);
    assert!(!signals.entries_long.iter().any(|b| *b));
    let cache = PrecomputedData::new(&cs, 20);
    let s2 = detect_barra_elefante_with_cache(&cs, &p, Some(&cache));
    assert_eq!(s2.entries_long, signals.entries_long);
}

#[test]
fn no_qualifying_bar_fails_with_zero_metrics() {
    let engine = BacktestEngine::new(Arc::new(flat_series(100)));
    let r = engine.run_strategy(&BarraElefanteParams::default());
    assert!(!r.success);
    assert_eq!(r.error_msg.as_deref(), Some("no trades generated"));
    assert!(r.trades.is_empty());
    assert_eq!(r.metrics, Metrics::default());
    assert_eq!(r.metrics.total_trades, 0);
}

fn one_signal(n: usize, at: usize, long: bool) -> Signals {
    let mut entries_long = vec![false; n];
    let mut entries_short = vec![false; n];
    if long {
        entries_long[at] = true;
    } else {
        entries_short[at] = true;
    }
    Signals { entries_long, entries_short, sl_prices: vec![0; n], tp_prices: vec![0; n] }
}

#[test]
fn stop_wins_when_bar_spans_stop_and_target() {
    let mut cs = vec![bar(100, 101, 99, 100, 100, 10, 0); 3];
    cs[1] = Candle { open: 100, high: 170, low: 70, close: 100, volume: 100, atr: 1000, hour: 10, minute: 5, is_warmup: false };
    let trades = simulate_trades(&cs, &one_signal(3, 0, true), &BarraElefanteParams::default());
    assert_eq!(trades.len(), 1);
    assert_eq!(trades[0].entry_idx, 1);
    assert_eq!(trades[0].sl, 80 * M);
    assert_eq!(trades[0].tp, 160 * M);
    assert_eq!(trades[0].exit_reason, ExitReason::StopLoss);
    assert_eq!(trades[0].exit_price, 80 * M);
    assert_eq!(trades[0].pnl, -20 * M);
}

#[test]
fn short_take_profit_fills_at_target() {
    let mut cs = vec![bar(100, 101, 99, 100, 100, 10, 0); 4];
    cs[1].atr = 1000;
    cs[2] = bar(100, 101, 30, 50, 100, 10, 10);
    let trades = simulate_trades(&cs, &one_signal(4, 0, false), &BarraElefanteParams::default());
    assert_eq!(trades.len(), 1);
    assert_eq!(trades[0].trade_type, TradeType::Short);
    assert_eq!((trades[0].sl, trades[0].tp), (120 * M, 40 * M));
    assert_eq!(trades[0].exit_idx, 2);
    assert_eq!(trades[0].exit_reason, ExitReason::TakeProfit);
    assert_eq!(trades[0].exit_price, 40 * M);
    assert_eq!(trades[0].pnl, 60 * M);
}

#[test]
fn stop_and_target_are_exact() {
    let mut cs = vec![bar(100, 101, 99, 100, 100, 10, 0); 3];
    cs[1].atr = 700;
    let p = BarraElefanteParams { sl_atr_mult: 150, tp_atr_mult: 250, ..BarraElefanteParams::default() };
    cs[2].hour = 13;
    let trades = simulate_trades(&cs, &one_signal(3, 0, true), &p);
    // Stop 7 * 1.5 = 10.5 ticks below the fill; target 10.5 * 2.5 = 26.25 above.
    assert_eq!((trades[0].sl, trades[0].tp), (89_500_000, 126_250_000));
    assert_eq!(trades[0].exit_reason, ExitReason::IntradayClose);
    assert_eq!(trades[0].exit_price, 100 * M);
}

#[test]
fn fractional_stop_is_not_touched_by_a_bar_above_it() {
    // Fill at 100 with ATR 3 ticks and a stop multiplier of 1.5: stop at 95.5.
    let mut cs = vec![bar(100, 101, 99, 100, 100, 10, 0); 4];
    cs[1].atr = 300;
    cs[2] = bar(100, 101, 96, 97, 100, 10, 10);
    cs[3] = bar(97, 98, 95, 96, 100, 10, 15);
    let p = BarraElefanteParams { sl_atr_mult: 150, ..BarraElefanteParams::default() };
    let trades = simulate_trades(&cs, &one_signal(4, 0, true), &p);
    assert_eq!(trades.len(), 1);
    assert_eq!(trades[0].sl, 95_500_000);
    assert_eq!(trades[0].tp, 100 * M + 4_500_000 * 3);
    assert_eq!(trades[0].exit_idx, 3);
    assert_eq!(trades[0].exit_reason, ExitReason::StopLoss);
    assert_eq!(trades[0].pnl, -4_500_000);
}

#[test]
fn trades_never_overlap() {
    let n = 40;
    let mut cs: Vec<Candle> = (0..n).map(|k| bar(100, 101, 99, 100, 100, 10 + (k as i32) / 4, 0)).collect();
    for c in cs.iter_mut() {
        c.atr = 0;
    }
    let signals = Signals {
        entries_long: (0..n).map(|k| k % 3 == 0).collect(),
        entries_short: (0..n).map(|k| k % 5 == 0).collect(),
        sl_prices: vec![0; n],
        tp_prices: vec![0; n],
    };
    let trades = simulate_trades(&cs, &signals, &BarraElefanteParams::default());
    assert!(!trades.is_empty());
    for t in &trades {
        assert!(t.entry_idx <= t.exit_idx && t.exit_idx < n);
    }
    for w in trades.windows(2) {
        assert!(w[0].exit_idx < w[1].entry_idx);
    }
}

#[test]
fn metrics_of_a_known_log() {
    let pnls = [10i128, 20, -5, -5, -5, 30];
    let trades: Vec<Trade> = pnls.iter().enumerate().map(|(k, p)| trade_with_pnl(k, *p)).collect();
    let m = calculate_metrics(&trades);
    assert_eq!(m.total_return, 45);
    assert_eq!(m.total_trades, 6);
    assert_eq!(m.winning_trades, 3);
    assert_eq!(m.losing_trades, 3);
    assert_eq!(m.gross_profit, 60);
    assert_eq!(m.gross_loss, 15);
    assert_eq!(m.max_drawdown, 15);
    assert_eq!(m.drawdown_peak, 30);
    assert_eq!(m.max_consecutive_wins, 2);
    assert_eq!(m.max_consecutive_losses, 3);
}

#[test]
fn drawdown_starts_at_first_equity() {
    let trades: Vec<Trade> = [-10i128, -5].iter().enumerate().map(|(k, p)| trade_with_pnl(k, *p)).collect();
    let m = calculate_metrics(&trades);
    assert_eq!(m.max_drawdown, 5);
    assert_eq!(m.drawdown_peak, -10);
    assert_eq!(m.max_consecutive_wins, 0);
    assert_eq!(m.max_consecutive_losses, 2);
}

#[test]
fn zero_profit_trade_is_neither_win_nor_loss_streak() {
    let trades: Vec<Trade> = [-5i128, 0, -5, -5, 0, 3].iter().enumerate().map(|(k, p)| trade_with_pnl(k, *p)).collect();
    let m = calculate_metrics(&trades);
    assert_eq!(m.losing_trades, 3);
    assert_eq!(m.max_consecutive_losses, 2);
    assert_eq!(m.max_consecutive_wins, 1);
    let single = calculate_metrics(&[trade_with_pnl(0, 0)]);
    assert_eq!(single.max_consecutive_losses, 0);
    assert_eq!(single.max_consecutive_wins, 0);
    assert_eq!(single.losing_trades, 0);
}

#[test]
fn empty_log_gives_zero_metrics() {
    assert_eq!(calculate_metrics(&[]), Metrics::default());
}

#[test]
fn pipeline_is_deterministic() {
    let engine = BacktestEngine::new_with_cache(Arc::new(elephant_series()), 20);
    let p = BarraElefanteParams::default();
    let a = engine.run_strategy(&p);
    let b = engine.run_strategy(&p);
    assert_eq!(a.trades, b.trades);
    assert_eq!(a.metrics, b.metrics);
    assert_eq!(a.success, b.success);
    assert_eq!(a.error_msg, b.error_msg);
}

#[test]
fn grid_cell_matches_single_run() {
    let cs = elephant_series();
    let optimizer = Optimizer::new_with_cache(cs.clone(), 20);
    let p = BarraElefanteParams::default();
    let mut grid: Vec<BarraElefanteParams> = (0..1000u16)
        .map(|k| BarraElefanteParams { min_amplitude_mult: 100 + k, ..BarraElefanteParams::default() })
        .collect();
    grid[437] = p;
    let results = optimizer.optimize_parallel(grid.clone());
    assert_eq!(results.len(), 1000);
    let alone = BacktestEngine::new_with_cache(Arc::new(cs), 20).run_strategy(&p);
    assert_eq!(results[437].trades, alone.trades);
    assert_eq!(results[437].metrics, alone.metrics);
    assert_eq!(results[437].success, alone.success);
    assert!(alone.success);
    for (k, r) in results.iter().enumerate() {
        let single = optimizer.optimize_parallel(vec![grid[k]]);
        assert_eq!(r.trades, single[0].trades);
        assert_eq!(r.metrics, single[0].metrics);
    }
}

#[test]
fn single_run_without_cache_matches_cached_run_of_same_window() {
    let cs = elephant_series();
    let optimizer = Optimizer::new(cs.clone());
    let p = BarraElefanteParams::default();
    let r = optimizer.optimize_single(&p);
    let cached = BacktestEngine::new_with_cache(Arc::new(cs), 20).run_strategy(&p);
    assert_eq!(r.trades, cached.trades);
    assert_eq!(r.trades.len(), 1);
}

#[test]
fn single_run_uses_the_shared_cache_like_the_grid() {
    let cs = elephant_series();
    let optimizer = Optimizer::new_with_cache(cs, 30);
    let p = BarraElefanteParams::default();
    let single = optimizer.optimize_single(&p);
    let grid = optimizer.optimize_parallel(vec![BarraElefanteParams { min_amplitude_mult: 2000, ..p }, p]);
    assert_eq!(single.trades, grid[1].trades);
    assert_eq!(single.metrics, grid[1].metrics);
    assert_eq!(single.success, grid[1].success);
    assert_eq!(single.error_msg, grid[1].error_msg);
    assert!(!grid[0].success);
    assert_eq!(grid[0].error_msg.as_deref(), Some("no trades generated"));
}

#[test]
fn param_grid_is_the_cartesian_product() {
    let grid = generate_param_grid((150, 200, 50), (120, 120, 1), (30, 40, 10), (200, 200, 5), (100, 350, 100));
    assert_eq!(grid.len(), 2 * 1 * 2 * 1 * 3);
    let d = BarraElefanteParams::default();
    assert_eq!(grid[0], BarraElefanteParams { min_amplitude_mult: 150, min_volume_mult: 120, max_sombra_pct: 30, sl_atr_mult: 200, tp_atr_mult: 100, ..d });
    assert_eq!(grid[1].tp_atr_mult, 200);
    assert_eq!(grid[2].tp_atr_mult, 300);
    assert_eq!(grid[3].max_sombra_pct, 40);
    assert_eq!(grid[6].min_amplitude_mult, 200);
    assert_eq!(grid[11], BarraElefanteParams { min_amplitude_mult: 200, min_volume_mult: 120, max_sombra_pct: 40, sl_atr_mult: 200, tp_atr_mult: 300, ..d });
    assert!(grid.iter().all(|p| p.lookback_amplitude == 20 && p.horario_inicio == 9));
}

#[test]
fn empty_range_gives_empty_grid() {
    let grid = generate_param_grid((200, 150, 10), (120, 120, 1), (30, 40, 10), (200, 200, 5), (100, 350, 100));
    assert!(grid.is_empty());
}
