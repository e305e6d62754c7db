use vstd::prelude::*;
use std::sync::Arc;
use rayon::iter::{IntoParallelRefIterator, ParallelIterator};
use crate::backtest_engine::{backtest_outcome, BacktestEngine};
use crate::metrics::MAX_LEN;
use crate::strategy::PrecomputedData;
use crate::types::{BacktestResult, BarraElefanteParams, Candle};
use vstd::arithmetic::div_mod::lemma_fundamental_div_mod_converse;

verus! {

/// Relies on `Arc::clone`: the new handle shares the same value.
#[verifier::external_body]
fn share<T>(a: &Arc<T>) -> (r: Arc<T>)
    ensures
        r == *a,
{
    Arc::clone(a)
}

/// Relies on rayon's `par_iter().map(..).collect::<Vec<_>>()` over a slice:
/// one result per item, collected in the order of the items, each the value
/// that the closure returned for that item.
#[verifier::external_body]
fn run_all_parallel(engine: &BacktestEngine, grid: &Vec<BarraElefanteParams>) -> (r: Vec<BacktestResult>)
    requires
        engine.wf(),
        forall|k: int| 0 <= k < grid@.len() ==> engine.accepts(#[trigger] grid@[k]),
    ensures
        r@.len() == grid@.len(),
        forall|k: int| 0 <= k < grid@.len() ==> (#[trigger] r@[k])@ == engine.outcome(grid@[k]),
{
    grid.par_iter().map(|params| engine.run_strategy(params)).collect()
}

/// Runs many parameter sets over one candle series, sharing the series and
/// its statistics between them.
pub struct Optimizer {
    pub candles: Arc<Vec<Candle>>,
    pub precomputed: Option<Arc<PrecomputedData>>,
}

impl Optimizer {
    pub open spec fn wf(&self) -> bool {
        &&& self.candles@.len() < MAX_LEN
        &&& self.precomputed matches Some(cache) ==> cache.describes(self.candles@)
    }

    pub open spec fn candles_view(&self) -> Seq<Candle> {
        self.candles@
    }

    /// The window of the rolling means used for `p`.
    pub open spec fn lookback_for(&self, p: BarraElefanteParams) -> int {
        match self.precomputed {
            Some(cache) => cache.lookback as int,
            None => p.lookback_amplitude as int,
        }
    }

    pub open spec fn accepts(&self, p: BarraElefanteParams) -> bool {
        self.precomputed is None ==> p.lookback_amplitude >= 1
    }

    pub fn new(candles: Vec<Candle>) -> (r: Self)
        requires
            candles@.len() < MAX_LEN,
        ensures
            r.wf(),
            r.candles_view() == candles@,
            r.precomputed is None,
    {
        Optimizer { candles: Arc::new(candles), precomputed: None }
    }

    /// Builds the statistics once, with window `max_lookback`, for every later run.
    pub fn new_with_cache(candles: Vec<Candle>, max_lookback: usize) -> (r: Self)
        requires
            candles@.len() < MAX_LEN,
            max_lookback >= 1,
        ensures
            r.wf(),
            r.candles_view() == candles@,
            r.precomputed matches Some(cache) && cache.lookback == max_lookback,
    {
        let precomputed = PrecomputedData::new(candles.as_slice(), max_lookback);
        Optimizer { candles: Arc::new(candles), precomputed: Some(Arc::new(precomputed)) }
    }

    fn engine(&self) -> (r: BacktestEngine)
        requires
            self.wf(),
        ensures
            r.wf(),
            r.candles@ == self.candles@,
            r.precomputed == self.precomputed,
    {
        match &self.precomputed {
            Some(cache) => BacktestEngine::new_with_precomputed(share(&self.candles), share(cache)),
            None => BacktestEngine::new(share(&self.candles)),
        }
    }

    /// One result per parameter set, in the order of the grid, each computed
    /// in parallel and exactly as a run of that parameter set alone.
    pub fn optimize_parallel(&self, param_grid: Vec<BarraElefanteParams>) -> (r: Vec<BacktestResult>)
        requires
            self.wf(),
            forall|k: int| 0 <= k < param_grid@.len() ==> self.accepts(#[trigger] param_grid@[k]),
        ensures
            r@.len() == param_grid@.len(),
            forall|k: int|
                0 <= k < param_grid@.len() ==> (#[trigger] r@[k])@ == backtest_outcome(
                    self.candles_view(),
                    self.lookback_for(param_grid@[k]),
                    param_grid@[k],
                ),
    {
        let engine = self.engine();
        run_all_parallel(&engine, &param_grid)
    }

    /// One run of a single parameter set, on the same shared statistics as
    /// the grid: the same result that parameter set gets within any grid.
    pub fn optimize_single(&self, params: &BarraElefanteParams) -> (r: BacktestResult)
        requires
            self.wf(),
            self.accepts(*params),
        ensures
            r@ == backtest_outcome(self.candles_view(), self.lookback_for(*params), *params),
    {
        let engine = self.engine();
        engine.run_strategy(params)
    }
}

/// A progress report is due after every this many completed evaluations.
pub const PROGRESS_EVERY: usize = 50;

/// Whether progress is reported after `completed` of `total` evaluations:
/// every `PROGRESS_EVERY` completions, and at the last one.
pub fn should_report_progress(completed: usize, total: usize) -> (r: bool)
    ensures
        r == (completed % PROGRESS_EVERY == 0 || completed == total),
{
    completed % PROGRESS_EVERY == 0 || completed == total
}

/// Number of values `min, min + step, ...` that do not exceed `max`.
pub open spec fn count_steps(min: int, max: int, step: int) -> nat
    decreases (if min > max { 0 } else { max - min + 1 }),
{
    if step <= 0 || min > max {
        0
    } else {
        1 + count_steps(min + step, max, step)
    }
}

/// The values `min, min + step, ...` up to `max`, both ends included.
pub open spec fn range_values(r: (u16, u16, u16)) -> Seq<u16> {
    Seq::new(count_steps(r.0 as int, r.1 as int, r.2 as int), |k: int| (r.0 + k * r.2) as u16)
}

fn range_values_exec(r: (u16, u16, u16)) -> (v: Vec<u16>)
    requires
        r.2 >= 1,
    ensures
        v@ == range_values(r),
{
    let (min, max, step) = r;
    let mut v: Vec<u16> = Vec::new();
    let mut x: u32 = min as u32;
    let ghost mut k: int = 0;
    while x <= max as u32
        invariant
            step >= 1,
            k >= 0,
            x == min + k * step,
            x <= 0xffff + step,
            v@ == Seq::new(k as nat, |i: int| (min + i * step) as u16),
            k + count_steps(x as int, max as int, step as int) == count_steps(min as int, max as int, step as int),
        decreases 0x2_0000 - x,
    {
        v.push(x as u16);
        assert(v@ =~= Seq::new((k + 1) as nat, |i: int| (min + i * step) as u16));
        x = x + step as u32;
        proof {
            k = k + 1;
            assert(x == min + k * step) by (nonlinear_arith)
                requires
                    x == min + (k - 1) * step + step,
            ;
        }
    }
    v
}

/// The fields of a parameter set that a grid varies.
pub enum GridField {
    AmplitudeMult,
    VolumeMult,
    SombraPct,
    SlMult,
    TpMult,
}

pub open spec fn with_field(p: BarraElefanteParams, f: GridField, v: u16) -> BarraElefanteParams {
    match f {
        GridField::AmplitudeMult => BarraElefanteParams { min_amplitude_mult: v, ..p },
        GridField::VolumeMult => BarraElefanteParams { min_volume_mult: v, ..p },
        GridField::SombraPct => BarraElefanteParams { max_sombra_pct: v, ..p },
        GridField::SlMult => BarraElefanteParams { sl_atr_mult: v, ..p },
        GridField::TpMult => BarraElefanteParams { tp_atr_mult: v, ..p },
    }
}

/// Each parameter set of `s`, in order, followed in turn by each value of
/// `vals` for field `f`: the last field varies fastest.
pub open spec fn expand_spec(s: Seq<BarraElefanteParams>, f: GridField, vals: Seq<u16>) -> Seq<BarraElefanteParams> {
    let m = vals.len() as int;
    Seq::new(s.len() * vals.len(), |idx: int| with_field(s[idx / m], f, vals[idx % m]))
}

/// The Cartesian product of the five ranges over the default parameters, the
/// amplitude multiplier varying slowest and the target multiplier fastest.
pub open spec fn param_grid(
    amp: (u16, u16, u16),
    vol: (u16, u16, u16),
    sombra: (u16, u16, u16),
    sl: (u16, u16, u16),
    tp: (u16, u16, u16),
) -> Seq<BarraElefanteParams> {
    let g0 = seq![BarraElefanteParams::spec_default()];
    let g1 = expand_spec(g0, GridField::AmplitudeMult, range_values(amp));
    let g2 = expand_spec(g1, GridField::VolumeMult, range_values(vol));
    let g3 = expand_spec(g2, GridField::SombraPct, range_values(sombra));
    let g4 = expand_spec(g3, GridField::SlMult, range_values(sl));
    expand_spec(g4, GridField::TpMult, range_values(tp))
}

fn set_field(p: &BarraElefanteParams, f: &GridField, v: u16) -> (r: BarraElefanteParams)
    ensures
        r == with_field(*p, *f, v),
{
    match f {
        GridField::AmplitudeMult => BarraElefanteParams { min_amplitude_mult: v, ..*p },
        GridField::VolumeMult => BarraElefanteParams { min_volume_mult: v, ..*p },
        GridField::SombraPct => BarraElefanteParams { max_sombra_pct: v, ..*p },
        GridField::SlMult => BarraElefanteParams { sl_atr_mult: v, ..*p },
        GridField::TpMult => BarraElefanteParams { tp_atr_mult: v, ..*p },
    }
}

fn expand(grid: &Vec<BarraElefanteParams>, f: GridField, vals: &Vec<u16>) -> (r: Vec<BarraElefanteParams>)
    ensures
        r@ == expand_spec(grid@, f, vals@),
{
    let n = grid.len();
    let m = vals.len();
    let mut r: Vec<BarraElefanteParams> = Vec::new();
    let mut i: usize = 0;
    while i < n
        invariant
            n == grid@.len(),
            m == vals@.len(),
            i <= n,
            r@.len() == i * m,
            forall|idx: int|
                0 <= idx < i * m ==> #[trigger] r@[idx] == with_field(grid@[idx / (m as int)], f, vals@[idx % (m as int)]),
        decreases n - i,
    {
        let mut j: usize = 0;
        while j < m
            invariant
                n == grid@.len(),
                m == vals@.len(),
                i < n,
                j <= m,
                r@.len() == i * m + j,
                forall|idx: int|
                    0 <= idx < i * m + j ==> #[trigger] r@[idx] == with_field(
                        grid@[idx / (m as int)],
                        f,
                        vals@[idx % (m as int)],
                    ),
            decreases m - j,
        {
            proof {
                lemma_fundamental_div_mod_converse((i * m + j) as int, m as int, i as int, j as int);
            }
            r.push(set_field(&grid[i], &f, vals[j]));
            j = j + 1;
        }
        assert(i * m + m == (i + 1) * m) by (nonlinear_arith);
        i = i + 1;
    }
    assert(r@ =~= expand_spec(grid@, f, vals@));
    r
}

/// Every combination of the five ranges `(min, max, step)`, each field not
/// named keeping its default value.
pub fn generate_param_grid(
    min_amplitude_mult_range: (u16, u16, u16),
    min_volume_mult_range: (u16, u16, u16),
    max_sombra_pct_range: (u16, u16, u16),
    sl_atr_mult_range: (u16, u16, u16),
    tp_atr_mult_range: (u16, u16, u16),
) -> (r: Vec<BarraElefanteParams>)
    requires
        min_amplitude_mult_range.2 >= 1,
        min_volume_mult_range.2 >= 1,
        max_sombra_pct_range.2 >= 1,
        sl_atr_mult_range.2 >= 1,
        tp_atr_mult_range.2 >= 1,
    ensures
        r@ == param_grid(
            min_amplitude_mult_range,
            min_volume_mult_range,
            max_sombra_pct_range,
            sl_atr_mult_range,
            tp_atr_mult_range,
        ),
{
    let mut g0: Vec<BarraElefanteParams> = Vec::new();
    g0.push(BarraElefanteParams::default());
    assert(g0@ =~= seq![BarraElefanteParams::spec_default()]);
    let g1 = expand(&g0, GridField::AmplitudeMult, &range_values_exec(min_amplitude_mult_range));
    let g2 = expand(&g1, GridField::VolumeMult, &range_values_exec(min_volume_mult_range));
    let g3 = expand(&g2, GridField::SombraPct, &range_values_exec(max_sombra_pct_range));
    let g4 = expand(&g3, GridField::SlMult, &range_values_exec(sl_atr_mult_range));
    expand(&g4, GridField::TpMult, &range_values_exec(tp_atr_mult_range))
}

} // verus!
