use vstd::prelude::*;
use crate::types::{BarraElefanteParams, Candle, SCALE};

verus! {

/// Bound on the magnitude of any per-bar series value (range, body, volume).
pub const VALUE_BOUND: i128 = 0x1_0000_0000;

pub open spec fn range_of(c: Candle) -> int {
    c.high - c.low
}

pub open spec fn body_of(c: Candle) -> int {
    if c.close >= c.open {
        c.close - c.open
    } else {
        c.open - c.close
    }
}

pub open spec fn ranges(cs: Seq<Candle>) -> Seq<i64> {
    cs.map_values(|c: Candle| range_of(c) as i64)
}

pub open spec fn volumes(cs: Seq<Candle>) -> Seq<i64> {
    cs.map_values(|c: Candle| c.volume as i64)
}

/// Sum of `s[lo..hi]`.
pub open spec fn sum_between(s: Seq<i64>, lo: int, hi: int) -> int
    decreases hi - lo,
{
    if hi <= lo {
        0
    } else {
        sum_between(s, lo, hi - 1) + s[hi - 1]
    }
}

/// Number of bars strictly before `i` that a window of length `w` covers.
pub open spec fn window_len(i: int, w: int) -> int {
    if i < w {
        i
    } else {
        w
    }
}

/// Sum of the values of the (at most `w`) bars strictly before `i`: the
/// numerator of the shifted rolling mean at `i`, whose denominator is
/// `window_len(i, w)`.
pub open spec fn trailing_sum(s: Seq<i64>, i: int, w: int) -> int {
    sum_between(s, i - window_len(i, w), i)
}

proof fn lemma_sum_front(s: Seq<i64>, lo: int, hi: int)
    requires
        lo < hi,
    ensures
        sum_between(s, lo, hi) == s[lo] + sum_between(s, lo + 1, hi),
    decreases hi - lo,
{
    if lo + 1 < hi {
        lemma_sum_front(s, lo, hi - 1);
    } else {
        assert(sum_between(s, lo, hi - 1) == 0);
        assert(sum_between(s, lo + 1, hi) == 0);
    }
}

proof fn lemma_sum_bound(s: Seq<i64>, lo: int, hi: int)
    requires
        0 <= lo <= hi <= s.len(),
        forall|k: int| 0 <= k < s.len() ==> -VALUE_BOUND <= #[trigger] s[k] <= VALUE_BOUND,
    ensures
        -(hi - lo) * VALUE_BOUND <= sum_between(s, lo, hi) <= (hi - lo) * VALUE_BOUND,
    decreases hi - lo,
{
    if lo < hi {
        lemma_sum_bound(s, lo, hi - 1);
    }
}

/// The sum over `[lo, hi)` reads only those positions.
proof fn lemma_sum_prefix_only(s: Seq<i64>, t: Seq<i64>, lo: int, hi: int)
    requires
        0 <= lo,
        hi <= s.len(),
        hi <= t.len(),
        forall|k: int| lo <= k < hi ==> s[k] == t[k],
    ensures
        sum_between(s, lo, hi) == sum_between(t, lo, hi),
    decreases hi - lo,
{
    if lo < hi {
        lemma_sum_prefix_only(s, t, lo, hi - 1);
    }
}

/// Whether `hour:minute` lies in `[h0:m0, h1:m1]`, both ends included.
pub open spec fn in_window(hour: i32, minute: i32, h0: i32, m0: i32, h1: i32, m1: i32) -> bool {
    !(hour < h0 || (hour == h0 && minute < m0)) && !(hour > h1 || (hour == h1 && minute > m1))
}

pub open spec fn in_trading_window(c: Candle, p: BarraElefanteParams) -> bool {
    in_window(c.hour, c.minute, p.horario_inicio, p.minuto_inicio, p.horario_fim, p.minuto_fim)
}

/// `value >= (sum / len) * (mult / SCALE)`, with a mean of zero for an empty window.
pub open spec fn reaches_mean(value: int, sum: int, len: int, mult: int) -> bool {
    value * len * SCALE >= sum * mult
}

/// The four filters of a pattern bar at `i`, with rolling means over window `w`.
pub open spec fn passes_filters(cs: Seq<Candle>, w: int, p: BarraElefanteParams, i: int) -> bool {
    let c = cs[i];
    let len = window_len(i, w);
    &&& reaches_mean(range_of(c), trailing_sum(ranges(cs), i, w), len, p.min_amplitude_mult as int)
    &&& reaches_mean(c.volume as int, trailing_sum(volumes(cs), i, w), len, p.min_volume_mult as int)
    &&& range_of(c) > 0
    &&& body_of(c) * SCALE >= (SCALE - p.max_sombra_pct) * range_of(c)
    &&& in_trading_window(c, p)
}

/// Bar `i` is an elephant bar: it passes the filters and moves in one direction.
pub open spec fn is_candidate(cs: Seq<Candle>, w: int, p: BarraElefanteParams, i: int) -> bool {
    &&& p.lookback_amplitude <= i < cs.len()
    &&& passes_filters(cs, w, p, i)
    &&& cs[i].close != cs[i].open
}

pub open spec fn is_bullish_candidate(cs: Seq<Candle>, w: int, p: BarraElefanteParams, i: int) -> bool {
    is_candidate(cs, w, p, i) && cs[i].close > cs[i].open
}

pub open spec fn is_bearish_candidate(cs: Seq<Candle>, w: int, p: BarraElefanteParams, i: int) -> bool {
    is_candidate(cs, w, p, i) && cs[i].close < cs[i].open
}

/// Bar `j` breaks above the high of a bullish elephant bar at `j - 1`, inside the window.
pub open spec fn long_signal(cs: Seq<Candle>, w: int, p: BarraElefanteParams, j: int) -> bool {
    &&& 1 <= j < cs.len()
    &&& is_bullish_candidate(cs, w, p, j - 1)
    &&& cs[j].high > cs[j - 1].high
    &&& in_trading_window(cs[j], p)
}

/// Bar `j` breaks below the low of a bearish elephant bar at `j - 1`, inside the window.
pub open spec fn short_signal(cs: Seq<Candle>, w: int, p: BarraElefanteParams, j: int) -> bool {
    &&& 1 <= j < cs.len()
    &&& is_bearish_candidate(cs, w, p, j - 1)
    &&& cs[j].low < cs[j - 1].low
    &&& in_trading_window(cs[j], p)
}

/// Rolling sums over window `window`, unshifted: entry `i` covers the (at most
/// `window`) values ending with `data[i]`. The mean at `i` is `sums[i] / lens[i]`.
fn rolling_mean(data: &Vec<i64>, window: usize) -> (r: (Vec<i128>, Vec<i128>))
    requires
        window >= 1,
        forall|k: int| 0 <= k < data@.len() ==> -VALUE_BOUND <= #[trigger] data@[k] <= VALUE_BOUND,
    ensures
        r.0@.len() == data@.len(),
        r.1@.len() == data@.len(),
        forall|i: int|
            0 <= i < data@.len() ==> #[trigger] r.0@[i] == trailing_sum(data@, i + 1, window as int),
        forall|i: int| 0 <= i < data@.len() ==> #[trigger] r.1@[i] == window_len(i + 1, window as int),
{
    let n = data.len();
    let mut sums: Vec<i128> = Vec::with_capacity(n);
    let mut lens: Vec<i128> = Vec::with_capacity(n);
    let mut sum: i128 = 0;
    let mut i: usize = 0;
    while i < n
        invariant
            n == data@.len(),
            i <= n,
            window >= 1,
            forall|k: int| 0 <= k < data@.len() ==> -VALUE_BOUND <= #[trigger] data@[k] <= VALUE_BOUND,
            sum == trailing_sum(data@, i as int, window as int),
            sums@.len() == i,
            lens@.len() == i,
            forall|k: int| 0 <= k < i ==> #[trigger] sums@[k] == trailing_sum(data@, k + 1, window as int),
            forall|k: int| 0 <= k < i ==> #[trigger] lens@[k] == window_len(k + 1, window as int),
        decreases n - i,
    {
        let ghost lo = i as int - window_len(i as int, window as int);
        proof {
            lemma_sum_bound(data@, lo, i as int + 1);
            assert(i as int + 1 - lo <= 0x1_0000_0000_0000_0000);
            assert((i as int + 1 - lo) * VALUE_BOUND <= 0x1_0000_0000_0000_0000 * VALUE_BOUND)
                by (nonlinear_arith)
                requires
                    i as int + 1 - lo <= 0x1_0000_0000_0000_0000,
            ;
        }
        sum = sum + data[i] as i128;
        let len: i128;
        if i < window {
            len = i as i128 + 1;
        } else {
            proof {
                lemma_sum_front(data@, lo, i as int + 1);
            }
            sum = sum - data[i - window] as i128;
            len = window as i128;
        }
        sums.push(sum);
        lens.push(len);
        i = i + 1;
    }
    (sums, lens)
}

/// Moves every element one place to the right and puts zero in front.
fn shift_right(data: &mut Vec<i128>)
    ensures
        final(data)@.len() == old(data)@.len(),
        final(data)@.len() > 0 ==> final(data)@[0] == 0,
        forall|i: int| 1 <= i < old(data)@.len() ==> #[trigger] final(data)@[i] == old(data)@[i - 1],
{
    let n = data.len();
    if n == 0 {
        return;
    }
    let mut i: usize = n - 1;
    while i > 0
        invariant
            data@.len() == n,
            n == old(data)@.len(),
            i < n,
            forall|k: int| 0 <= k <= i ==> #[trigger] data@[k] == old(data)@[k],
            forall|k: int| i < k < n ==> #[trigger] data@[k] == old(data)@[k - 1],
        decreases i,
    {
        let prev = data[i - 1];
        data.set(i, prev);
        i = i - 1;
    }
    data.set(0, 0);
}

/// Per-bar statistics shared by every parameter set: range, body, and the
/// shifted rolling means of range and volume, each held as a sum over the
/// bars strictly before the current one and the number of those bars.
pub struct PrecomputedData {
    pub amplitudes: Vec<i64>,
    pub corpos: Vec<i64>,
    pub amplitude_sums: Vec<i128>,
    pub volume_sums: Vec<i128>,
    pub window_lens: Vec<i128>,
    pub lookback: usize,
}

impl PrecomputedData {
    /// The cache holds the statistics of `cs` with window `self.lookback`.
    pub open spec fn describes(&self, cs: Seq<Candle>) -> bool {
        let w = self.lookback as int;
        &&& self.lookback >= 1
        &&& self.amplitudes@.len() == cs.len()
        &&& self.corpos@.len() == cs.len()
        &&& self.amplitude_sums@.len() == cs.len()
        &&& self.volume_sums@.len() == cs.len()
        &&& self.window_lens@.len() == cs.len()
        &&& forall|i: int| 0 <= i < cs.len() ==> #[trigger] self.amplitudes@[i] == range_of(cs[i])
        &&& forall|i: int| 0 <= i < cs.len() ==> #[trigger] self.corpos@[i] == body_of(cs[i])
        &&& forall|i: int|
            0 <= i < cs.len() ==> #[trigger] self.amplitude_sums@[i] == trailing_sum(ranges(cs), i, w)
        &&& forall|i: int|
            0 <= i < cs.len() ==> #[trigger] self.volume_sums@[i] == trailing_sum(volumes(cs), i, w)
        &&& forall|i: int| 0 <= i < cs.len() ==> #[trigger] self.window_lens@[i] == window_len(i, w)
    }

    pub fn new(candles: &[Candle], lookback: usize) -> (r: Self)
        requires
            lookback >= 1,
        ensures
            r.describes(candles@),
            r.lookback == lookback,
            candles@.len() > 0 ==> r.amplitude_sums@[0] == 0 && r.volume_sums@[0] == 0 && r.window_lens@[0] == 0,
    {
        let n = candles.len();
        let mut amplitudes: Vec<i64> = Vec::with_capacity(n);
        let mut corpos: Vec<i64> = Vec::with_capacity(n);
        let mut vols: Vec<i64> = Vec::with_capacity(n);
        let mut i: usize = 0;
        while i < n
            invariant
                n == candles@.len(),
                i <= n,
                amplitudes@.len() == i,
                corpos@.len() == i,
                vols@.len() == i,
                forall|k: int| 0 <= k < i ==> #[trigger] amplitudes@[k] == range_of(candles@[k]),
                forall|k: int| 0 <= k < i ==> #[trigger] corpos@[k] == body_of(candles@[k]),
                forall|k: int| 0 <= k < i ==> #[trigger] vols@[k] == candles@[k].volume,
            decreases n - i,
        {
            let c = candles[i];
            amplitudes.push(c.high as i64 - c.low as i64);
            let corpo: i64 = if c.close >= c.open {
                c.close as i64 - c.open as i64
            } else {
                c.open as i64 - c.close as i64
            };
            corpos.push(corpo);
            vols.push(c.volume as i64);
            i = i + 1;
        }
        assert(amplitudes@ =~= ranges(candles@));
        assert(vols@ =~= volumes(candles@));
        let (mut amplitude_sums, mut lens_a) = rolling_mean(&amplitudes, lookback);
        let (mut volume_sums, _lens_v) = rolling_mean(&vols, lookback);
        shift_right(&mut amplitude_sums);
        shift_right(&mut volume_sums);
        shift_right(&mut lens_a);
        let r = PrecomputedData {
            amplitudes,
            corpos,
            amplitude_sums,
            volume_sums,
            window_lens: lens_a,
            lookback,
        };
        assert forall|k: int| 0 <= k < n implies #[trigger] r.amplitude_sums@[k] == trailing_sum(
            ranges(candles@),
            k,
            lookback as int,
        ) && r.volume_sums@[k] == trailing_sum(volumes(candles@), k, lookback as int)
            && r.window_lens@[k] == window_len(k, lookback as int) by {
            if k > 0 {
                assert(r.amplitude_sums@[k] == trailing_sum(ranges(candles@), k, lookback as int));
            }
        }
        r
    }
}

#[inline]
pub fn check_horario(hora: i32, minuto: i32, hora_min: i32, min_min: i32, hora_max: i32, min_max: i32) -> (r: bool)
    ensures
        r == in_window(hora, minuto, hora_min, min_min, hora_max, min_max),
{
    if hora < hora_min || (hora == hora_min && minuto < min_min) {
        return false;
    }
    if hora > hora_max || (hora == hora_max && minuto > min_max) {
        return false;
    }
    true
}

fn reaches_mean_exec(value: i64, sum: i128, len: i128, mult: u16) -> (r: bool)
    requires
        -VALUE_BOUND <= value <= VALUE_BOUND,
        0 <= len <= 0x1_0000_0000_0000_0000,
        -len * VALUE_BOUND <= sum <= len * VALUE_BOUND,
    ensures
        r == reaches_mean(value as int, sum as int, len as int, mult as int),
{
    proof {
        assert(SCALE == 100);
        assert(-VALUE_BOUND * 0x1_0000_0000_0000_0000 <= value * len <= VALUE_BOUND * 0x1_0000_0000_0000_0000)
            by (nonlinear_arith)
            requires
                -VALUE_BOUND <= value <= VALUE_BOUND,
                0 <= len <= 0x1_0000_0000_0000_0000,
        ;
        assert(len * VALUE_BOUND <= 0x1_0000_0000_0000_0000 * VALUE_BOUND) by (nonlinear_arith)
            requires
                0 <= len <= 0x1_0000_0000_0000_0000,
        ;
        assert(-0x1_0000_0000_0000_0000 * VALUE_BOUND * 0x10000 <= sum * mult <= 0x1_0000_0000_0000_0000
            * VALUE_BOUND * 0x10000) by (nonlinear_arith)
            requires
                -0x1_0000_0000_0000_0000 * VALUE_BOUND <= sum <= 0x1_0000_0000_0000_0000 * VALUE_BOUND,
                0 <= mult <= 0x10000,
        ;
    }
    let scaled = (value as i128) * len;
    proof {
        assert(-VALUE_BOUND * 0x1_0000_0000_0000_0000 * 100 <= scaled * SCALE <= VALUE_BOUND * 0x1_0000_0000_0000_0000
            * 100) by (nonlinear_arith)
            requires
                -VALUE_BOUND * 0x1_0000_0000_0000_0000 <= scaled <= VALUE_BOUND * 0x1_0000_0000_0000_0000,
                SCALE == 100,
        ;
    }
    scaled * (SCALE as i128) >= sum * (mult as i128)
}

/// Whether bar `i` passes the four filters of a pattern bar.
fn passes_filters_exec(candles: &[Candle], params: &BarraElefanteParams, cache: &PrecomputedData, i: usize) -> (r: bool)
    requires
        cache.describes(candles@),
        i < candles@.len(),
    ensures
        r == passes_filters(candles@, cache.lookback as int, *params, i as int),
{
    let ghost cs = candles@;
    let ghost w = cache.lookback as int;
    let ghost len = window_len(i as int, w);
    proof {
        assert forall|k: int| 0 <= k < ranges(cs).len() implies -VALUE_BOUND <= #[trigger] ranges(cs)[k]
            <= VALUE_BOUND by {}
        assert forall|k: int| 0 <= k < volumes(cs).len() implies -VALUE_BOUND <= #[trigger] volumes(cs)[k]
            <= VALUE_BOUND by {}
        lemma_sum_bound(ranges(cs), i - len, i as int);
        lemma_sum_bound(volumes(cs), i - len, i as int);
    }
    let c = candles[i];
    let amplitude = cache.amplitudes[i];
    let len_e = cache.window_lens[i];
    if !reaches_mean_exec(amplitude, cache.amplitude_sums[i], len_e, params.min_amplitude_mult) {
        return false;
    }
    if !reaches_mean_exec(c.volume as i64, cache.volume_sums[i], len_e, params.min_volume_mult) {
        return false;
    }
    let corpo = cache.corpos[i];
    if amplitude <= 0 {
        return false;
    }
    proof {
        assert(0 <= corpo * SCALE <= VALUE_BOUND * SCALE) by (nonlinear_arith)
            requires
                0 <= corpo <= VALUE_BOUND,
        ;
        assert(-0x10000 * VALUE_BOUND <= (SCALE - params.max_sombra_pct) * amplitude <= SCALE * VALUE_BOUND)
            by (nonlinear_arith)
            requires
                0 < amplitude <= VALUE_BOUND,
                0 <= params.max_sombra_pct <= 0xffff,
        ;
    }
    if (corpo as i128) * (SCALE as i128) < (SCALE as i128 - params.max_sombra_pct as i128) * (amplitude as i128) {
        return false;
    }
    check_horario(
        c.hour,
        c.minute,
        params.horario_inicio,
        params.minuto_inicio,
        params.horario_fim,
        params.minuto_fim,
    )
}

fn all_false(n: usize) -> (r: Vec<bool>)
    ensures
        r@.len() == n,
        forall|j: int| 0 <= j < n ==> !(#[trigger] r@[j]),
{
    let mut r: Vec<bool> = Vec::with_capacity(n);
    let mut i: usize = 0;
    while i < n
        invariant
            i <= n,
            r@.len() == i,
            forall|j: int| 0 <= j < i ==> !(#[trigger] r@[j]),
        decreases n - i,
    {
        r.push(false);
        i = i + 1;
    }
    r
}

fn all_zero(n: usize) -> (r: Vec<i128>)
    ensures
        r@.len() == n,
        forall|j: int| 0 <= j < n ==> #[trigger] r@[j] == 0,
{
    let mut r: Vec<i128> = Vec::with_capacity(n);
    let mut i: usize = 0;
    while i < n
        invariant
            i <= n,
            r@.len() == i,
            forall|j: int| 0 <= j < i ==> #[trigger] r@[j] == 0,
        decreases n - i,
    {
        r.push(0);
        i = i + 1;
    }
    r
}

/// Detects the rule's entries, computing the statistics with the parameters'
/// own lookback.
pub fn detect_barra_elefante(candles: &[Candle], params: &BarraElefanteParams) -> (r: Signals)
    requires
        params.lookback_amplitude >= 1,
    ensures
        r.describes(candles@, params.lookback_amplitude as int, *params),
{
    detect_barra_elefante_with_cache(candles, params, None)
}

/// Detects the rule's entries. With a cache, its statistics (and its lookback)
/// are used; without one they are computed with the parameters' lookback.
pub fn detect_barra_elefante_with_cache(
    candles: &[Candle],
    params: &BarraElefanteParams,
    precomputed: Option<&PrecomputedData>,
) -> (r: Signals)
    requires
        match precomputed {
            Some(cache) => cache.describes(candles@),
            None => params.lookback_amplitude >= 1,
        },
    ensures
        r.describes(candles@, cache_lookback(precomputed, *params), *params),
{
    match precomputed {
        Some(cache) => detect_with(candles, params, cache),
        None => {
            let cache = PrecomputedData::new(candles, params.lookback_amplitude);
            detect_with(candles, params, &cache)
        },
    }
}

/// The window of the rolling means that detection uses.
pub open spec fn cache_lookback(precomputed: Option<&PrecomputedData>, params: BarraElefanteParams) -> int {
    match precomputed {
        Some(cache) => cache.lookback as int,
        None => params.lookback_amplitude as int,
    }
}

fn detect_with(candles: &[Candle], params: &BarraElefanteParams, cache: &PrecomputedData) -> (r: Signals)
    requires
        cache.describes(candles@),
    ensures
        r.describes(candles@, cache.lookback as int, *params),
{
    let ghost cs = candles@;
    let ghost w = cache.lookback as int;
    let n = candles.len();
    let lookback = params.lookback_amplitude;
    let mut entries_long = all_false(n);
    let mut entries_short = all_false(n);
    let sl_prices = all_zero(n);
    let tp_prices = all_zero(n);
    if n <= lookback {
        return Signals { entries_long, entries_short, sl_prices, tp_prices };
    }
    let mut i: usize = lookback;
    while i < n
        invariant
            n == cs.len(),
            cs == candles@,
            lookback == params.lookback_amplitude,
            lookback <= i <= n,
            cache.describes(cs),
            w == cache.lookback,
            entries_long@.len() == n,
            entries_short@.len() == n,
            forall|j: int| 0 <= j < n ==> #[trigger] entries_long@[j] == (j <= i && long_signal(cs, w, *params, j)),
            forall|j: int| 0 <= j < n ==> #[trigger] entries_short@[j] == (j <= i && short_signal(cs, w, *params, j)),
        decreases n - i,
    {
        if passes_filters_exec(candles, params, cache, i) && i + 1 < n {
            let c = candles[i];
            let next = candles[i + 1];
            let next_in_window = check_horario(
                next.hour,
                next.minute,
                params.horario_inicio,
                params.minuto_inicio,
                params.horario_fim,
                params.minuto_fim,
            );
            if c.close > c.open {
                if next.high > c.high && next_in_window {
                    entries_long.set(i + 1, true);
                }
            } else if c.close < c.open {
                if next.low < c.low && next_in_window {
                    entries_short.set(i + 1, true);
                }
            }
        }
        i = i + 1;
    }
    Signals { entries_long, entries_short, sl_prices, tp_prices }
}

/// The shifted rolling statistics are zero at the first bar, and at bar `i`
/// read only the bars before `i`: two series that agree on those bars give
/// the same sums and the same window length, whatever bar `i` and later hold.
pub proof fn lemma_cache_is_causal(cs: Seq<Candle>, ds: Seq<Candle>, w: int, i: int)
    requires
        w >= 1,
        0 <= i <= cs.len(),
        i <= ds.len(),
        forall|k: int| 0 <= k < i ==> #[trigger] cs[k] == ds[k],
    ensures
        trailing_sum(ranges(cs), 0, w) == 0,
        trailing_sum(volumes(cs), 0, w) == 0,
        window_len(0, w) == 0,
        trailing_sum(ranges(cs), i, w) == trailing_sum(ranges(ds), i, w),
        trailing_sum(volumes(cs), i, w) == trailing_sum(volumes(ds), i, w),
{
    let lo = i - window_len(i, w);
    assert forall|k: int| lo <= k < i implies #[trigger] ranges(cs)[k] == ranges(ds)[k] by {
        assert(cs[k] == ds[k]);
    }
    assert forall|k: int| lo <= k < i implies #[trigger] volumes(cs)[k] == volumes(ds)[k] by {
        assert(cs[k] == ds[k]);
    }
    lemma_sum_prefix_only(ranges(cs), ranges(ds), lo, i);
    lemma_sum_prefix_only(volumes(cs), volumes(ds), lo, i);
}

/// Number of long entry signals among bars `[0, k)`.
pub open spec fn count_long_signals(cs: Seq<Candle>, w: int, p: BarraElefanteParams, k: int) -> int
    decreases k,
{
    if k <= 0 {
        0
    } else {
        count_long_signals(cs, w, p, k - 1) + if long_signal(cs, w, p, k - 1) { 1int } else { 0int }
    }
}

/// Number of bullish elephant bars among bars `[0, k)`.
pub open spec fn count_bullish_candidates(cs: Seq<Candle>, w: int, p: BarraElefanteParams, k: int) -> int
    decreases k,
{
    if k <= 0 {
        0
    } else {
        count_bullish_candidates(cs, w, p, k - 1) + if is_bullish_candidate(cs, w, p, k - 1) {
            1int
        } else {
            0int
        }
    }
}

proof fn lemma_long_count_lags(cs: Seq<Candle>, w: int, p: BarraElefanteParams, k: int)
    requires
        1 <= k,
    ensures
        count_long_signals(cs, w, p, k) <= count_bullish_candidates(cs, w, p, k - 1),
    decreases k,
{
    if k > 1 {
        lemma_long_count_lags(cs, w, p, k - 1);
    } else {
        assert(count_long_signals(cs, w, p, 0) == 0);
    }
}

/// Long entries are a subset of the bullish elephant bars, each confirmed by
/// the bar after it: there are never more long signals than such bars.
pub proof fn lemma_long_signals_within_candidates(cs: Seq<Candle>, w: int, p: BarraElefanteParams)
    ensures
        count_long_signals(cs, w, p, cs.len() as int) <= count_bullish_candidates(cs, w, p, cs.len() as int),
{
    let n = cs.len() as int;
    if n >= 1 {
        lemma_long_count_lags(cs, w, p, n);
    }
}

pub struct Signals {
    pub entries_long: Vec<bool>,
    pub entries_short: Vec<bool>,
    /// Always zero: stops are set from the realized fill price.
    pub sl_prices: Vec<i128>,
    /// Always zero: targets are set from the realized fill price.
    pub tp_prices: Vec<i128>,
}

impl Signals {
    /// The signals of the rule over `cs`, with rolling means over window `w`.
    pub open spec fn describes(&self, cs: Seq<Candle>, w: int, p: BarraElefanteParams) -> bool {
        &&& self.entries_long@.len() == cs.len()
        &&& self.entries_short@.len() == cs.len()
        &&& self.sl_prices@.len() == cs.len()
        &&& self.tp_prices@.len() == cs.len()
        &&& forall|j: int| 0 <= j < cs.len() ==> #[trigger] self.entries_long@[j] == long_signal(cs, w, p, j)
        &&& forall|j: int| 0 <= j < cs.len() ==> #[trigger] self.entries_short@[j] == short_signal(cs, w, p, j)
        &&& forall|j: int| 0 <= j < cs.len() ==> #[trigger] self.sl_prices@[j] == 0
        &&& forall|j: int| 0 <= j < cs.len() ==> #[trigger] self.tp_prices@[j] == 0
    }
}

} // verus!
