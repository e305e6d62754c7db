use vstd::prelude::*;
use std::sync::Arc;
use crate::metrics::{calculate_metrics, metrics_of, MAX_LEN, PNL_BOUND};
use crate::strategy::{detect_barra_elefante_with_cache, is_candidate, long_signal, short_signal, PrecomputedData, Signals};
use crate::types::{PRICE_SCALE, SCALE, BacktestOutcome, BacktestResult, BarraElefanteParams, Candle, ExitReason, Metrics, Trade, TradeType};

verus! {

/// An open position.
#[derive(Debug, Clone, Copy)]
pub struct Position {
    pub entry_idx: usize,
    pub trade_type: TradeType,
    pub entry_price: i128,
    pub sl: i128,
    pub tp: i128,
}

/// Simulator state after some number of bars: the direction waiting to be
/// filled at the next bar's open, the open position, and the closed trades.
pub struct SimState {
    pub pending: Option<TradeType>,
    pub position: Option<Position>,
    pub trades: Seq<Trade>,
}

/// A whole-tick price in millionths of a tick.
pub open spec fn fine(x: u32) -> int {
    x * PRICE_SCALE
}

/// Stop distance `ATR × sl_atr_mult` in millionths of a tick. ATR and the
/// multiplier are each in hundredths, so the distance is exact.
pub open spec fn stop_distance(atr: u32, mult: u16) -> int {
    atr * mult * (PRICE_SCALE as int / (SCALE as int * SCALE as int))
}

/// Target distance `risk × tp_atr_mult` in millionths of a tick; exact, as a
/// risk from `stop_distance` is a multiple of `SCALE`.
pub open spec fn target_distance(risk: int, mult: u16) -> int {
    risk * mult / (SCALE as int)
}

/// The position filled at the open of bar `c` (index `i`): the stop lies
/// `ATR × sl_atr_mult` from the fill price, using this bar's ATR, and the
/// target `risk × tp_atr_mult` on the other side, where risk is the realized
/// distance between fill and stop.
pub open spec fn open_position(t: TradeType, c: Candle, i: int, p: BarraElefanteParams) -> Position {
    let entry = fine(c.open);
    let risk = stop_distance(c.atr, p.sl_atr_mult);
    match t {
        TradeType::Long => Position {
            entry_idx: i as usize,
            trade_type: t,
            entry_price: entry as i128,
            sl: (entry - risk) as i128,
            tp: (entry + target_distance(risk, p.tp_atr_mult)) as i128,
        },
        TradeType::Short => Position {
            entry_idx: i as usize,
            trade_type: t,
            entry_price: entry as i128,
            sl: (entry + risk) as i128,
            tp: (entry - target_distance(risk, p.tp_atr_mult)) as i128,
        },
    }
}

/// Stop and target are exact: the stop lies ATR × stop multiplier from the
/// fill (both in hundredths), and the target lies the realized risk × target
/// multiplier (in hundredths) from the fill, on the other side.
pub proof fn lemma_levels_are_exact(t: TradeType, c: Candle, i: int, p: BarraElefanteParams)
    ensures
        ({
            let pos = open_position(t, c, i, p);
            let risk = match t {
                TradeType::Long => pos.entry_price - pos.sl,
                TradeType::Short => pos.sl - pos.entry_price,
            };
            let reward = match t {
                TradeType::Long => pos.tp - pos.entry_price,
                TradeType::Short => pos.entry_price - pos.tp,
            };
            &&& pos.entry_price == fine(c.open)
            &&& risk * SCALE * SCALE == c.atr * p.sl_atr_mult * PRICE_SCALE
            &&& reward * SCALE == risk * p.tp_atr_mult
        }),
{
    lemma_levels_in_range(t, c, i, p);
    let a = c.atr as int;
    let m = p.sl_atr_mult as int;
    let q = p.tp_atr_mult as int;
    assert((a * m * 100) * 100 * 100 == a * m * 1_000_000) by (nonlinear_arith);
    assert((a * m * q) * 100 == (a * m * 100) * q) by (nonlinear_arith);
}

proof fn lemma_levels_in_range(t: TradeType, c: Candle, i: int, p: BarraElefanteParams)
    ensures
        0 <= fine(c.open) <= 0xffff_ffff * PRICE_SCALE,
        0 <= stop_distance(c.atr, p.sl_atr_mult) <= 0xffff_ffff * 0xffff * 100,
        stop_distance(c.atr, p.sl_atr_mult) == c.atr * p.sl_atr_mult * 100,
        target_distance(stop_distance(c.atr, p.sl_atr_mult), p.tp_atr_mult) == c.atr * p.sl_atr_mult
            * p.tp_atr_mult,
        0 <= c.atr * p.sl_atr_mult * p.tp_atr_mult <= 0xffff_ffff * 0xffff * 0xffff,
{
    let a = c.atr as int;
    let m = p.sl_atr_mult as int;
    let q = p.tp_atr_mult as int;
    assert(0 <= a * m <= 0xffff_ffff * 0xffff) by (nonlinear_arith)
        requires
            0 <= a <= 0xffff_ffff,
            0 <= m <= 0xffff,
    ;
    assert(0 <= a * m * q <= 0xffff_ffff * 0xffff * 0xffff) by (nonlinear_arith)
        requires
            0 <= a * m <= 0xffff_ffff * 0xffff,
            0 <= q <= 0xffff,
    ;
    assert(a * m * 100 * q == (a * m * q) * 100) by (nonlinear_arith);
    assert((a * m * q) * 100 / 100 == a * m * q) by (nonlinear_arith);
}

pub open spec fn pnl_of(t: TradeType, entry: int, exit: int) -> int {
    match t {
        TradeType::Long => exit - entry,
        TradeType::Short => entry - exit,
    }
}

pub open spec fn closed_trade(pos: Position, i: int, exit_price: int, reason: ExitReason) -> Trade {
    Trade {
        entry_idx: pos.entry_idx,
        exit_idx: i as usize,
        trade_type: pos.trade_type,
        entry_price: pos.entry_price,
        exit_price: exit_price as i128,
        sl: pos.sl,
        tp: pos.tp,
        pnl: pnl_of(pos.trade_type, pos.entry_price as int, exit_price) as i128,
        exit_reason: reason,
    }
}

pub open spec fn at_or_after_close(c: Candle, p: BarraElefanteParams) -> bool {
    c.hour > p.horario_fechamento || (c.hour == p.horario_fechamento && c.minute >= p.minuto_fechamento)
}

pub open spec fn stop_hit(pos: Position, c: Candle) -> bool {
    match pos.trade_type {
        TradeType::Long => fine(c.low) <= pos.sl,
        TradeType::Short => fine(c.high) >= pos.sl,
    }
}

pub open spec fn target_hit(pos: Position, c: Candle) -> bool {
    match pos.trade_type {
        TradeType::Long => fine(c.high) >= pos.tp,
        TradeType::Short => fine(c.low) <= pos.tp,
    }
}

/// Step one: a pending entry is filled at this bar's open.
pub open spec fn fill_step(s: SimState, c: Candle, i: int, p: BarraElefanteParams) -> SimState {
    match s.pending {
        Some(t) => match s.position {
            None => SimState { pending: None, position: Some(open_position(t, c, i, p)), trades: s.trades },
            Some(_) => SimState { pending: None, ..s },
        },
        None => s,
    }
}

/// Step two: at or after the closing time the position is closed at the bar's close.
pub open spec fn close_step(s: SimState, c: Candle, i: int, p: BarraElefanteParams) -> SimState {
    match s.position {
        Some(pos) => if at_or_after_close(c, p) {
            SimState {
                pending: s.pending,
                position: None,
                trades: s.trades.push(closed_trade(pos, i, fine(c.close), ExitReason::IntradayClose)),
            }
        } else {
            s
        },
        None => s,
    }
}

/// Step three: the stop, then the target, is checked against the bar's extremes.
pub open spec fn exit_step(s: SimState, c: Candle, i: int) -> SimState {
    match s.position {
        Some(pos) => if stop_hit(pos, c) {
            SimState {
                pending: s.pending,
                position: None,
                trades: s.trades.push(closed_trade(pos, i, pos.sl as int, ExitReason::StopLoss)),
            }
        } else if target_hit(pos, c) {
            SimState {
                pending: s.pending,
                position: None,
                trades: s.trades.push(closed_trade(pos, i, pos.tp as int, ExitReason::TakeProfit)),
            }
        } else {
            s
        },
        None => s,
    }
}

/// Step four: when flat with nothing pending, this bar's signal becomes pending.
pub open spec fn signal_step(s: SimState, long: bool, short: bool) -> SimState {
    if s.position is None && s.pending is None {
        if long {
            SimState { pending: Some(TradeType::Long), ..s }
        } else if short {
            SimState { pending: Some(TradeType::Short), ..s }
        } else {
            s
        }
    } else {
        s
    }
}

pub open spec fn sim_step(
    s: SimState,
    c: Candle,
    i: int,
    long: bool,
    short: bool,
    p: BarraElefanteParams,
) -> SimState {
    signal_step(exit_step(close_step(fill_step(s, c, i, p), c, i, p), c, i), long, short)
}

pub open spec fn sim_start() -> SimState {
    SimState { pending: None, position: None, trades: Seq::empty() }
}

/// The simulator's state after the first `k` bars.
pub open spec fn simulate(
    cs: Seq<Candle>,
    longs: Seq<bool>,
    shorts: Seq<bool>,
    p: BarraElefanteParams,
    k: int,
) -> SimState
    decreases k,
{
    if k <= 0 {
        sim_start()
    } else {
        sim_step(simulate(cs, longs, shorts, p, k - 1), cs[k - 1], k - 1, longs[k - 1], shorts[k - 1], p)
    }
}

/// The trade log of a whole run.
pub open spec fn trades_of(cs: Seq<Candle>, longs: Seq<bool>, shorts: Seq<bool>, p: BarraElefanteParams) -> Seq<Trade> {
    simulate(cs, longs, shorts, p, cs.len() as int).trades
}

/// The log after `k` bars is ordered: each trade closes no earlier than it
/// opens and before bar `k`, the next opens strictly after it closed, and an
/// open or pending position starts after the last close.
pub open spec fn orderly(s: SimState, k: int) -> bool {
    let ts = s.trades;
    &&& ts.len() <= k
    &&& forall|j: int| 0 <= j < ts.len() ==> #[trigger] ts[j].entry_idx <= ts[j].exit_idx < k
    &&& forall|j: int| 0 <= j < ts.len() - 1 ==> #[trigger] ts[j].exit_idx < ts[j + 1].entry_idx
    &&& s.position matches Some(pos) ==> pos.entry_idx < k && (ts.len() > 0 ==> ts.last().exit_idx < pos.entry_idx)
    &&& forall|j: int| 0 <= j < ts.len() ==> #[trigger] ts[j].entry_idx >= j + 1
    &&& s.position matches Some(pos) ==> pos.entry_idx >= ts.len() + 1
    &&& s.pending is Some ==> s.position is None && (ts.len() > 0 ==> ts.last().exit_idx < k) && ts.len() < k
}

proof fn lemma_fill_orderly(s: SimState, c: Candle, i: int, p: BarraElefanteParams)
    requires
        0 <= i < usize::MAX,
        orderly(s, i),
    ensures
        orderly(fill_step(s, c, i, p), i + 1),
{
}

proof fn lemma_close_orderly(s: SimState, c: Candle, i: int, p: BarraElefanteParams)
    requires
        0 <= i < usize::MAX,
        orderly(s, i + 1),
    ensures
        orderly(close_step(s, c, i, p), i + 1),
{
    let s2 = close_step(s, c, i, p);
    if s.position is Some && at_or_after_close(c, p) {
        assert(s2.trades.last().exit_idx == i);
    }
}

proof fn lemma_exit_orderly(s: SimState, c: Candle, i: int)
    requires
        0 <= i < usize::MAX,
        orderly(s, i + 1),
    ensures
        orderly(exit_step(s, c, i), i + 1),
{
    let s3 = exit_step(s, c, i);
    if s.position is Some {
        assert(s3.trades.len() > 0 ==> s3.trades.last().exit_idx <= i);
    }
}

proof fn lemma_signal_orderly(s: SimState, long: bool, short: bool, k: int)
    requires
        1 <= k,
        orderly(s, k),
    ensures
        orderly(signal_step(s, long, short), k),
{
    if s.trades.len() > 0 {
        assert(s.trades.last().entry_idx >= s.trades.len());
    }
}

proof fn lemma_orderly(cs: Seq<Candle>, longs: Seq<bool>, shorts: Seq<bool>, p: BarraElefanteParams, k: int)
    requires
        0 <= k <= cs.len(),
        cs.len() <= usize::MAX,
        longs.len() == cs.len(),
        shorts.len() == cs.len(),
    ensures
        orderly(simulate(cs, longs, shorts, p, k), k),
    decreases k,
{
    if k > 0 {
        lemma_orderly(cs, longs, shorts, p, k - 1);
        let i = k - 1;
        let c = cs[i];
        let s0 = simulate(cs, longs, shorts, p, i);
        let s1 = fill_step(s0, c, i, p);
        let s2 = close_step(s1, c, i, p);
        let s3 = exit_step(s2, c, i);
        lemma_fill_orderly(s0, c, i, p);
        lemma_close_orderly(s1, c, i, p);
        lemma_exit_orderly(s2, c, i);
        lemma_signal_orderly(s3, longs[i], shorts[i], k);
    }
}

/// Trades never overlap in time: each closes at or after the bar it opened
/// on, before the end of the series, and the next trade opens strictly after
/// the previous one closed.
pub proof fn lemma_trades_do_not_overlap(
    cs: Seq<Candle>,
    longs: Seq<bool>,
    shorts: Seq<bool>,
    p: BarraElefanteParams,
)
    requires
        cs.len() <= usize::MAX,
        longs.len() == cs.len(),
        shorts.len() == cs.len(),
    ensures
        trades_of(cs, longs, shorts, p).len() <= cs.len(),
        forall|j: int|
            0 <= j < trades_of(cs, longs, shorts, p).len() ==> #[trigger] trades_of(cs, longs, shorts, p)[j].entry_idx
                <= trades_of(cs, longs, shorts, p)[j].exit_idx < cs.len(),
        forall|j: int|
            0 <= j < trades_of(cs, longs, shorts, p).len() - 1 ==> #[trigger] trades_of(cs, longs, shorts, p)[j].exit_idx
                < trades_of(cs, longs, shorts, p)[j + 1].entry_idx,
{
    lemma_orderly(cs, longs, shorts, p, cs.len() as int);
}

/// The position a trade was held as.
pub open spec fn position_of(t: Trade) -> Position {
    Position { entry_idx: t.entry_idx, trade_type: t.trade_type, entry_price: t.entry_price, sl: t.sl, tp: t.tp }
}

/// Bar `c` triggers no exit of `pos`: before the closing time, and neither
/// stop nor target touched.
pub open spec fn quiet_bar(c: Candle, pos: Position, p: BarraElefanteParams) -> bool {
    !at_or_after_close(c, p) && !stop_hit(pos, c) && !target_hit(pos, c)
}

/// Trade `t` left the market by the rules: every bar from its entry up to
/// its exit triggered nothing, and the exit bar triggered exactly the exit
/// recorded, the closing time first, then the stop, then the target, at the
/// price that rule fixes.
pub open spec fn exit_follows_rules(cs: Seq<Candle>, p: BarraElefanteParams, t: Trade) -> bool {
    let pos = position_of(t);
    let e = t.exit_idx as int;
    let c = cs[e];
    &&& t.entry_idx <= t.exit_idx < cs.len()
    &&& forall|j: int| t.entry_idx <= j < e ==> #[trigger] quiet_bar(cs[j], pos, p)
    &&& match t.exit_reason {
        ExitReason::IntradayClose => at_or_after_close(c, p) && t.exit_price == fine(c.close),
        ExitReason::StopLoss => !at_or_after_close(c, p) && stop_hit(pos, c) && t.exit_price == t.sl,
        ExitReason::TakeProfit => !at_or_after_close(c, p) && !stop_hit(pos, c) && target_hit(pos, c)
            && t.exit_price == t.tp,
    }
}

/// After `k` bars every closed trade followed the exit rules, and the open
/// position, if any, has seen only quiet bars since its entry.
pub open spec fn exits_ok(cs: Seq<Candle>, p: BarraElefanteParams, s: SimState, k: int) -> bool {
    &&& forall|j: int| 0 <= j < s.trades.len() ==> #[trigger] exit_follows_rules(cs, p, s.trades[j])
    &&& s.position matches Some(pos) ==> pos.entry_idx <= k && forall|j: int|
        pos.entry_idx <= j < k ==> #[trigger] quiet_bar(cs[j], pos, p)
}

proof fn lemma_bar_exits_ok(cs: Seq<Candle>, p: BarraElefanteParams, s0: SimState, i: int)
    requires
        0 <= i < cs.len(),
        cs.len() <= usize::MAX,
        exits_ok(cs, p, s0, i),
    ensures
        exits_ok(cs, p, exit_step(close_step(fill_step(s0, cs[i], i, p), cs[i], i, p), cs[i], i), i + 1),
{
    let c = cs[i];
    let s1 = fill_step(s0, c, i, p);
    let s2 = close_step(s1, c, i, p);
    let s3 = exit_step(s2, c, i);
    assert(exits_ok(cs, p, s1, i));
    if let Some(pos) = s1.position {
        if at_or_after_close(c, p) {
            let t = closed_trade(pos, i, fine(c.close), ExitReason::IntradayClose);
            assert(position_of(t) == pos);
            assert(exit_follows_rules(cs, p, t));
            assert(s3 == s2);
            assert(s2.trades == s1.trades.push(t));
        } else if stop_hit(pos, c) {
            let t = closed_trade(pos, i, pos.sl as int, ExitReason::StopLoss);
            assert(position_of(t) == pos);
            assert(exit_follows_rules(cs, p, t));
            assert(s3.trades == s1.trades.push(t));
        } else if target_hit(pos, c) {
            let t = closed_trade(pos, i, pos.tp as int, ExitReason::TakeProfit);
            assert(position_of(t) == pos);
            assert(exit_follows_rules(cs, p, t));
            assert(s3.trades == s1.trades.push(t));
        } else {
            assert(quiet_bar(c, pos, p));
            assert(s3 == s1);
        }
    }
}

proof fn lemma_exits_ok(cs: Seq<Candle>, longs: Seq<bool>, shorts: Seq<bool>, p: BarraElefanteParams, k: int)
    requires
        0 <= k <= cs.len(),
        cs.len() <= usize::MAX,
        longs.len() == cs.len(),
        shorts.len() == cs.len(),
    ensures
        exits_ok(cs, p, simulate(cs, longs, shorts, p, k), k),
    decreases k,
{
    if k > 0 {
        let i = k - 1;
        lemma_exits_ok(cs, longs, shorts, p, i);
        lemma_bar_exits_ok(cs, p, simulate(cs, longs, shorts, p, i), i);
    }
}

/// Every trade of a run was closed by exactly one rule, at the first bar
/// that triggered any: the closing time, else the stop, else the target. So
/// a bar that touches both stop and target closes the trade at its stop.
pub proof fn lemma_exits_follow_rules(
    cs: Seq<Candle>,
    longs: Seq<bool>,
    shorts: Seq<bool>,
    p: BarraElefanteParams,
)
    requires
        cs.len() <= usize::MAX,
        longs.len() == cs.len(),
        shorts.len() == cs.len(),
    ensures
        forall|j: int|
            0 <= j < trades_of(cs, longs, shorts, p).len() ==> #[trigger] exit_follows_rules(
                cs,
                p,
                trades_of(cs, longs, shorts, p)[j],
            ),
{
    lemma_exits_ok(cs, longs, shorts, p, cs.len() as int);
}

pub open spec fn price_ok(x: i128) -> bool {
    -0x2_0000_0000_0000_0000 <= x <= 0x2_0000_0000_0000_0000
}

pub open spec fn position_ok(pos: Position) -> bool {
    0 <= pos.entry_price <= 0xffff_ffff * PRICE_SCALE && price_ok(pos.sl) && price_ok(pos.tp)
}

#[inline]
fn calculate_pnl(trade_type: TradeType, entry: i128, exit: i128) -> (r: i128)
    requires
        price_ok(entry),
        price_ok(exit),
    ensures
        r == pnl_of(trade_type, entry as int, exit as int),
        -PNL_BOUND <= r <= PNL_BOUND,
{
    match trade_type {
        TradeType::Long => exit - entry,
        TradeType::Short => entry - exit,
    }
}

fn enter_position(trade_type: TradeType, c: Candle, i: usize, params: &BarraElefanteParams) -> (r: Position)
    ensures
        r == open_position(trade_type, c, i as int, *params),
        position_ok(r),
{
    proof {
        lemma_levels_in_range(trade_type, c, i as int, *params);
        assert(PRICE_SCALE == 1_000_000 && SCALE == 100);
    }
    let entry_price: i128 = c.open as i128 * PRICE_SCALE;
    let risk: i128 = c.atr as i128 * params.sl_atr_mult as i128 * (PRICE_SCALE / (SCALE as i128 * SCALE as i128));
    let reward: i128 = c.atr as i128 * params.sl_atr_mult as i128 * params.tp_atr_mult as i128;
    match trade_type {
        TradeType::Long => {
            let sl = entry_price - risk;
            let tp = entry_price + reward;
            Position { entry_idx: i, trade_type, entry_price, sl, tp }
        },
        TradeType::Short => {
            let sl = entry_price + risk;
            let tp = entry_price - reward;
            Position { entry_idx: i, trade_type, entry_price, sl, tp }
        },
    }
}

fn close_position(pos: Position, i: usize, exit_price: i128, exit_reason: ExitReason) -> (r: Trade)
    requires
        position_ok(pos),
        price_ok(exit_price),
    ensures
        r == closed_trade(pos, i as int, exit_price as int, exit_reason),
        -PNL_BOUND <= r.pnl <= PNL_BOUND,
{
    let pnl = calculate_pnl(pos.trade_type, pos.entry_price, exit_price);
    Trade {
        entry_idx: pos.entry_idx,
        exit_idx: i,
        trade_type: pos.trade_type,
        entry_price: pos.entry_price,
        exit_price,
        sl: pos.sl,
        tp: pos.tp,
        pnl,
        exit_reason,
    }
}

/// Turns entry signals into a trade log, one bar at a time.
pub fn simulate_trades(candles: &[Candle], signals: &Signals, params: &BarraElefanteParams) -> (r: Vec<Trade>)
    requires
        signals.entries_long@.len() == candles@.len(),
        signals.entries_short@.len() == candles@.len(),
    ensures
        r@ == trades_of(candles@, signals.entries_long@, signals.entries_short@, *params),
        forall|j: int| 0 <= j < r@.len() ==> -PNL_BOUND <= #[trigger] r@[j].pnl <= PNL_BOUND,
{
    let ghost cs = candles@;
    let ghost longs = signals.entries_long@;
    let ghost shorts = signals.entries_short@;
    let n = candles.len();
    let mut trades: Vec<Trade> = Vec::new();
    let mut position: Option<Position> = None;
    let mut pending_entry: Option<TradeType> = None;
    let mut i: usize = 0;
    while i < n
        invariant
            n == cs.len(),
            cs == candles@,
            longs == signals.entries_long@,
            shorts == signals.entries_short@,
            longs.len() == n,
            shorts.len() == n,
            i <= n,
            (SimState { pending: pending_entry, position, trades: trades@ }) == simulate(cs, longs, shorts, *params, i as int),
            position matches Some(pos) ==> position_ok(pos),
            forall|j: int| 0 <= j < trades@.len() ==> -PNL_BOUND <= #[trigger] trades@[j].pnl <= PNL_BOUND,
        decreases n - i,
    {
        let ghost s0 = simulate(cs, longs, shorts, *params, i as int);
        let c = candles[i];
        // Fill the pending entry at this bar's open.
        if let Some(t) = pending_entry {
            pending_entry = None;
            if position.is_none() {
                position = Some(enter_position(t, c, i, params));
            }
        }
        let ghost s1 = fill_step(s0, c, i as int, *params);
        assert((SimState { pending: pending_entry, position, trades: trades@ }) == s1);
        // Close at or after the closing time.
        if let Some(pos) = position {
            if c.hour > params.horario_fechamento || (c.hour == params.horario_fechamento
                && c.minute >= params.minuto_fechamento) {
                trades.push(close_position(pos, i, c.close as i128 * PRICE_SCALE, ExitReason::IntradayClose));
                position = None;
            }
        }
        let ghost s2 = close_step(s1, c, i as int, *params);
        assert((SimState { pending: pending_entry, position, trades: trades@ }) == s2);
        // Stop first, then target.
        if let Some(pos) = position {
            let stop = match pos.trade_type {
                TradeType::Long => c.low as i128 * PRICE_SCALE <= pos.sl,
                TradeType::Short => c.high as i128 * PRICE_SCALE >= pos.sl,
            };
            let target = match pos.trade_type {
                TradeType::Long => c.high as i128 * PRICE_SCALE >= pos.tp,
                TradeType::Short => c.low as i128 * PRICE_SCALE <= pos.tp,
            };
            if stop {
                trades.push(close_position(pos, i, pos.sl, ExitReason::StopLoss));
                position = None;
            } else if target {
                trades.push(close_position(pos, i, pos.tp, ExitReason::TakeProfit));
                position = None;
            }
        }
        let ghost s3 = exit_step(s2, c, i as int);
        assert((SimState { pending: pending_entry, position, trades: trades@ }) == s3);
        // A new signal waits for the next bar's open.
        if position.is_none() && pending_entry.is_none() {
            if signals.entries_long[i] {
                pending_entry = Some(TradeType::Long);
            } else if signals.entries_short[i] {
                pending_entry = Some(TradeType::Short);
            }
        }
        i = i + 1;
    }
    trades
}

/// The entry flags of the rule over `cs` with window `w`.
pub open spec fn long_entries(cs: Seq<Candle>, w: int, p: BarraElefanteParams) -> Seq<bool> {
    Seq::new(cs.len(), |j: int| long_signal(cs, w, p, j))
}

pub open spec fn short_entries(cs: Seq<Candle>, w: int, p: BarraElefanteParams) -> Seq<bool> {
    Seq::new(cs.len(), |j: int| short_signal(cs, w, p, j))
}

/// The error message of a run that made no trade.
pub const NO_TRADES_MSG: &'static str = "no trades generated";

/// What a backtest of `p` over `cs`, with rolling means over window `w`,
/// yields: the trade log and its scorecard, or failure when no trade was made.
pub open spec fn backtest_outcome(cs: Seq<Candle>, w: int, p: BarraElefanteParams) -> BacktestOutcome {
    let ts = trades_of(cs, long_entries(cs, w, p), short_entries(cs, w, p), p);
    if ts.len() == 0 {
        BacktestOutcome {
            trades: Seq::empty(),
            metrics: Metrics::spec_zero(),
            success: false,
            error_msg: Some(NO_TRADES_MSG@),
        }
    } else {
        BacktestOutcome { trades: ts, metrics: metrics_of(ts), success: true, error_msg: None }
    }
}

proof fn lemma_quiet_run(cs: Seq<Candle>, longs: Seq<bool>, shorts: Seq<bool>, p: BarraElefanteParams, k: int)
    requires
        0 <= k <= cs.len(),
        forall|j: int| 0 <= j < k ==> !(#[trigger] longs[j]) && !shorts[j],
    ensures
        simulate(cs, longs, shorts, p, k) == sim_start(),
    decreases k,
{
    if k > 0 {
        assert forall|j: int| 0 <= j < k - 1 implies !(#[trigger] longs[j]) && !shorts[j] by {
            assert(!longs[j] && !shorts[j]);
        }
        lemma_quiet_run(cs, longs, shorts, p, k - 1);
        assert(!longs[k - 1] && !shorts[k - 1]);
    }
}

/// A series on which no bar qualifies as an elephant bar yields no trade:
/// the run fails and its scorecard is all zero.
pub proof fn lemma_no_candidate_no_trade(cs: Seq<Candle>, w: int, p: BarraElefanteParams)
    requires
        forall|i: int| 0 <= i < cs.len() ==> !#[trigger] is_candidate(cs, w, p, i),
    ensures
        backtest_outcome(cs, w, p).success == false,
        backtest_outcome(cs, w, p).error_msg == Some(NO_TRADES_MSG@),
        backtest_outcome(cs, w, p).trades.len() == 0,
        backtest_outcome(cs, w, p).metrics == Metrics::spec_zero(),
{
    let longs = long_entries(cs, w, p);
    let shorts = short_entries(cs, w, p);
    assert forall|j: int| 0 <= j < cs.len() implies !(#[trigger] longs[j]) && !shorts[j] by {
        if j >= 1 {
            assert(!is_candidate(cs, w, p, j - 1));
        }
    }
    lemma_quiet_run(cs, longs, shorts, p, cs.len() as int);
}

pub struct BacktestEngine {
    pub candles: Arc<Vec<Candle>>,
    pub precomputed: Option<Arc<PrecomputedData>>,
    pub initial_capital: i128,
}

impl BacktestEngine {
    /// The cache, if any, was built from these candles, and the series is
    /// small enough to be held in memory.
    pub open spec fn wf(&self) -> bool {
        &&& self.candles@.len() < MAX_LEN
        &&& self.precomputed matches Some(cache) ==> cache.describes(self.candles@)
    }

    /// The window of the rolling means used for `p`.
    pub open spec fn lookback_for(&self, p: BarraElefanteParams) -> int {
        match self.precomputed {
            Some(cache) => cache.lookback as int,
            None => p.lookback_amplitude as int,
        }
    }

    /// Whether `p` can be run on this engine: without a cache, its own lookback is used.
    pub open spec fn accepts(&self, p: BarraElefanteParams) -> bool {
        self.precomputed is None ==> p.lookback_amplitude >= 1
    }

    pub open spec fn outcome(&self, p: BarraElefanteParams) -> BacktestOutcome {
        backtest_outcome(self.candles@, self.lookback_for(p), p)
    }

    pub fn new(candles: Arc<Vec<Candle>>) -> (r: Self)
        requires
            candles@.len() < MAX_LEN,
        ensures
            r.wf(),
            r.candles@ == candles@,
            r.precomputed is None,
            r.initial_capital == 10000,
    {
        BacktestEngine { candles, precomputed: None, initial_capital: 10000 }
    }

    pub fn new_with_cache(candles: Arc<Vec<Candle>>, lookback: usize) -> (r: Self)
        requires
            candles@.len() < MAX_LEN,
            lookback >= 1,
        ensures
            r.wf(),
            r.candles@ == candles@,
            r.precomputed matches Some(cache) && cache.lookback == lookback,
            r.initial_capital == 10000,
    {
        let precomputed = Arc::new(PrecomputedData::new(candles.as_slice(), lookback));
        BacktestEngine { candles, precomputed: Some(precomputed), initial_capital: 10000 }
    }

    pub fn new_with_precomputed(candles: Arc<Vec<Candle>>, precomputed: Arc<PrecomputedData>) -> (r: Self)
        requires
            candles@.len() < MAX_LEN,
            precomputed.describes(candles@),
        ensures
            r.wf(),
            r.candles@ == candles@,
            r.precomputed == Some(precomputed),
            r.initial_capital == 10000,
    {
        BacktestEngine { candles, precomputed: Some(precomputed), initial_capital: 10000 }
    }

    /// Detects signals, simulates the trades and scores them.
    pub fn run_strategy(&self, params: &BarraElefanteParams) -> (r: BacktestResult)
        requires
            self.wf(),
            self.accepts(*params),
        ensures
            r@ == self.outcome(*params),
    {
        let candles: &[Candle] = self.candles.as_slice();
        let signals = match &self.precomputed {
            Some(cache) => detect_barra_elefante_with_cache(candles, params, Some(&**cache)),
            None => detect_barra_elefante_with_cache(candles, params, None),
        };
        let ghost cs = candles@;
        let ghost w = self.lookback_for(*params);
        assert(signals.entries_long@ =~= long_entries(cs, w, *params));
        assert(signals.entries_short@ =~= short_entries(cs, w, *params));
        let trades = simulate_trades(candles, &signals, params);
        proof {
            lemma_trades_do_not_overlap(cs, signals.entries_long@, signals.entries_short@, *params);
        }
        if trades.len() == 0 {
            return BacktestResult {
                trades: Vec::new(),
                metrics: Metrics::default(),
                success: false,
                error_msg: Some(NO_TRADES_MSG.to_owned()),
            };
        }
        let metrics = calculate_metrics(trades.as_slice());
        BacktestResult { trades, metrics, success: true, error_msg: None }
    }
}

} // verus!
