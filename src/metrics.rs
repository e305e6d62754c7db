use vstd::prelude::*;
use crate::types::{Metrics, Trade};

verus! {

/// Bound on the length of a bar series or a trade log: each of their
/// elements takes at least 32 bytes and no allocation exceeds `isize::MAX`
/// bytes, so no such vector reaches it.
pub const MAX_LEN: u64 = 0x0400_0000_0000_0000;

/// Bound on the magnitude of a trade's profit, in millionths of a tick: no
/// simulated trade comes near it.
pub const PNL_BOUND: i128 = 0x4_0000_0000_0000_0000;

pub open spec fn pnls_bounded(ts: Seq<Trade>) -> bool {
    forall|j: int| 0 <= j < ts.len() ==> -PNL_BOUND <= #[trigger] ts[j].pnl <= PNL_BOUND
}

pub open spec fn is_win(t: Trade) -> bool {
    t.pnl > 0
}

pub open spec fn is_loss(t: Trade) -> bool {
    t.pnl < 0
}

/// Sum of the profits of the first `k` trades: the equity after `k` trades.
pub open spec fn equity(ts: Seq<Trade>, k: int) -> int
    decreases k,
{
    if k <= 0 {
        0
    } else {
        equity(ts, k - 1) + ts[k - 1].pnl
    }
}

pub open spec fn count_wins(ts: Seq<Trade>, k: int) -> int
    decreases k,
{
    if k <= 0 {
        0
    } else {
        count_wins(ts, k - 1) + if is_win(ts[k - 1]) { 1int } else { 0int }
    }
}

pub open spec fn count_losses(ts: Seq<Trade>, k: int) -> int
    decreases k,
{
    if k <= 0 {
        0
    } else {
        count_losses(ts, k - 1) + if is_loss(ts[k - 1]) { 1int } else { 0int }
    }
}

/// Sum of the winning profits among the first `k` trades.
pub open spec fn gross_profit(ts: Seq<Trade>, k: int) -> int
    decreases k,
{
    if k <= 0 {
        0
    } else {
        gross_profit(ts, k - 1) + if is_win(ts[k - 1]) { ts[k - 1].pnl as int } else { 0int }
    }
}

/// Sum of the magnitudes of the losses among the first `k` trades.
pub open spec fn gross_loss(ts: Seq<Trade>, k: int) -> int
    decreases k,
{
    if k <= 0 {
        0
    } else {
        gross_loss(ts, k - 1) + if is_loss(ts[k - 1]) { -ts[k - 1].pnl } else { 0int }
    }
}

/// Over the first `k` trades: (current streak, longest streak) of winning
/// trades when `wins`, of losing trades otherwise. A trade of the other kind,
/// or with zero profit, ends the current streak.
pub open spec fn counts_for_streak(t: Trade, wins: bool) -> bool {
    if wins {
        is_win(t)
    } else {
        is_loss(t)
    }
}

pub open spec fn streaks(ts: Seq<Trade>, k: int, wins: bool) -> (int, int)
    decreases k,
{
    if k <= 0 {
        (0, 0)
    } else {
        let (cur, best) = streaks(ts, k - 1, wins);
        if counts_for_streak(ts[k - 1], wins) {
            let c = cur + 1;
            (c, if c > best { c } else { best })
        } else {
            (0, best)
        }
    }
}

/// Over the equity curve of the first `k >= 1` trades: (peak equity, largest
/// drop from a preceding peak, peak equity where that drop was first reached).
pub open spec fn drawdown(ts: Seq<Trade>, k: int) -> (int, int, int)
    decreases k,
{
    if k <= 1 {
        (equity(ts, 1), 0, 0)
    } else {
        let (peak0, dd0, dd_peak0) = drawdown(ts, k - 1);
        let e = equity(ts, k);
        let peak = if e > peak0 { e } else { peak0 };
        if peak - e > dd0 {
            (peak, peak - e, peak)
        } else {
            (peak, dd0, dd_peak0)
        }
    }
}

/// The scorecard of a trade log; all zero for an empty log.
pub open spec fn metrics_of(ts: Seq<Trade>) -> Metrics {
    let n = ts.len() as int;
    if n == 0 {
        Metrics::spec_zero()
    } else {
        Metrics {
            total_return: equity(ts, n) as i128,
            total_trades: n as usize,
            winning_trades: count_wins(ts, n) as usize,
            losing_trades: count_losses(ts, n) as usize,
            gross_profit: gross_profit(ts, n) as i128,
            gross_loss: gross_loss(ts, n) as i128,
            max_drawdown: drawdown(ts, n).1 as i128,
            drawdown_peak: drawdown(ts, n).2 as i128,
            max_consecutive_wins: streaks(ts, n, true).1 as usize,
            max_consecutive_losses: streaks(ts, n, false).1 as usize,
        }
    }
}

proof fn lemma_bounds(ts: Seq<Trade>, k: int)
    requires
        0 <= k <= ts.len(),
        pnls_bounded(ts),
    ensures
        -k * PNL_BOUND <= equity(ts, k) <= k * PNL_BOUND,
        0 <= count_wins(ts, k) <= k,
        0 <= count_losses(ts, k) <= k,
        0 <= gross_profit(ts, k) <= k * PNL_BOUND,
        0 <= gross_loss(ts, k) <= k * PNL_BOUND,
        0 <= streaks(ts, k, true).0 <= streaks(ts, k, true).1 <= k,
        0 <= streaks(ts, k, false).0 <= streaks(ts, k, false).1 <= k,
    decreases k,
{
    if k > 0 {
        lemma_bounds(ts, k - 1);
    }
}

proof fn lemma_drawdown_bounds(ts: Seq<Trade>, k: int)
    requires
        1 <= k <= ts.len(),
        pnls_bounded(ts),
    ensures
        -k * PNL_BOUND <= drawdown(ts, k).0 <= k * PNL_BOUND,
        0 <= drawdown(ts, k).1 <= 2 * k * PNL_BOUND,
        -k * PNL_BOUND <= drawdown(ts, k).2 <= k * PNL_BOUND,
    decreases k,
{
    lemma_bounds(ts, k);
    lemma_bounds(ts, 1);
    if k > 1 {
        lemma_drawdown_bounds(ts, k - 1);
    }
}

/// Largest drop of the equity curve from a preceding peak, and the peak
/// where it was first reached.
fn calculate_max_drawdown(trades: &[Trade]) -> (r: (i128, i128))
    requires
        1 <= trades@.len() < MAX_LEN,
        pnls_bounded(trades@),
    ensures
        r.0 == drawdown(trades@, trades@.len() as int).1,
        r.1 == drawdown(trades@, trades@.len() as int).2,
{
    let ghost ts = trades@;
    let n = trades.len();
    let mut cumsum: i128 = trades[0].pnl;
    let mut max_equity: i128 = cumsum;
    let mut max_dd: i128 = 0;
    let mut dd_peak: i128 = 0;
    let mut i: usize = 1;
    assert(equity(ts, 0) == 0);
    assert(equity(ts, 1) == ts[0].pnl);
    while i < n
        invariant
            ts == trades@,
            n == ts.len(),
            1 <= i <= n,
            n < MAX_LEN,
            pnls_bounded(ts),
            cumsum == equity(ts, i as int),
            (max_equity as int, max_dd as int, dd_peak as int) == drawdown(ts, i as int),
        decreases n - i,
    {
        proof {
            lemma_bounds(ts, i as int + 1);
            lemma_drawdown_bounds(ts, i as int);
        }
        cumsum = cumsum + trades[i].pnl;
        if cumsum > max_equity {
            max_equity = cumsum;
        }
        let dd = max_equity - cumsum;
        if dd > max_dd {
            max_dd = dd;
            dd_peak = max_equity;
        }
        i = i + 1;
    }
    (max_dd, dd_peak)
}

/// Longest run of consecutive wins (`wins`) or of consecutive losses.
fn max_consecutive(trades: &[Trade], wins: bool) -> (r: usize)
    requires
        pnls_bounded(trades@),
    ensures
        r == streaks(trades@, trades@.len() as int, wins).1,
{
    let ghost ts = trades@;
    let mut max_count: usize = 0;
    let mut current_count: usize = 0;
    let mut i: usize = 0;
    while i < trades.len()
        invariant
            ts == trades@,
            i <= ts.len(),
            pnls_bounded(ts),
            (current_count as int, max_count as int) == streaks(ts, i as int, wins),
        decreases ts.len() - i,
    {
        proof {
            lemma_bounds(ts, i as int);
        }
        let pnl = trades[i].pnl;
        let counts = if wins {
            pnl > 0
        } else {
            pnl < 0
        };
        if counts {
            current_count = current_count + 1;
            if current_count > max_count {
                max_count = current_count;
            }
        } else {
            current_count = 0;
        }
        i = i + 1;
    }
    max_count
}

/// Aggregates a trade log into its scorecard.
pub fn calculate_metrics(trades: &[Trade]) -> (r: Metrics)
    requires
        trades@.len() < MAX_LEN,
        pnls_bounded(trades@),
    ensures
        r == metrics_of(trades@),
{
    if trades.len() == 0 {
        return Metrics::default();
    }
    let ghost ts = trades@;
    let n = trades.len();
    let mut total_return: i128 = 0;
    let mut winning: usize = 0;
    let mut losing: usize = 0;
    let mut profit: i128 = 0;
    let mut loss: i128 = 0;
    let mut i: usize = 0;
    while i < n
        invariant
            ts == trades@,
            n == ts.len(),
            i <= n,
            n < MAX_LEN,
            pnls_bounded(ts),
            total_return == equity(ts, i as int),
            winning == count_wins(ts, i as int),
            losing == count_losses(ts, i as int),
            profit == gross_profit(ts, i as int),
            loss == gross_loss(ts, i as int),
        decreases n - i,
    {
        proof {
            lemma_bounds(ts, i as int + 1);
        }
        let pnl = trades[i].pnl;
        total_return = total_return + pnl;
        if pnl > 0 {
            winning = winning + 1;
            profit = profit + pnl;
        }
        if pnl < 0 {
            losing = losing + 1;
            loss = loss - pnl;
        }
        i = i + 1;
    }
    let (max_drawdown, drawdown_peak) = calculate_max_drawdown(trades);
    Metrics {
        total_return,
        total_trades: n,
        winning_trades: winning,
        losing_trades: losing,
        gross_profit: profit,
        gross_loss: loss,
        max_drawdown,
        drawdown_peak,
        max_consecutive_wins: max_consecutive(trades, true),
        max_consecutive_losses: max_consecutive(trades, false),
    }
}

} // verus!
