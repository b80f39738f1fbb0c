//! The strategy engine: scan the most recent candles of every active asset
//! for a run of consecutive rising candles whose body gains meet a threshold
//! and, optionally, strictly increase; raise one alert per match.

use crate::kline::{candle_wf, klines_sorted, manager_wf, KLineData, KLineManager};
use crate::numeric::{mul_lt, MAX_PRICE_FP};
use crate::text::{spec_dec_string, u128_to_string, u64_to_string};
use vstd::prelude::*;
use vstd::string::*;

verus! {

/// One strategy alert: the asset, the strategy's name, a human-readable
/// summary, the wall-clock time it fired, and the window of candles that
/// triggered it.
#[derive(Debug)]
pub struct StrategyAlert {
    pub mint: String,
    pub strategy_name: String,
    pub message: String,
    pub timestamp: i64,
    pub klines: Vec<KLineData>,
}

/// The consecutive-rising pattern: how many candles the window holds,
/// whether the gains must strictly increase, and the minimum body gain in
/// basis points (hundredths of a percent).
#[derive(Clone, Copy, Debug, PartialEq, Eq, Structural)]
pub struct ConsecutiveRisingPattern {
    pub consecutive_count: usize,
    pub require_increasing_gains: bool,
    pub min_gain_bp: u32,
}

impl Default for ConsecutiveRisingPattern {
    /// Four candles, strictly increasing gains, one percent minimum.
    fn default() -> (r: Self)
        ensures
            r.consecutive_count == 4,
            r.require_increasing_gains == true,
            r.min_gain_bp == 100,
    {
        ConsecutiveRisingPattern {
            consecutive_count: 4,
            require_increasing_gains: true,
            min_gain_bp: 100,
        }
    }
}

/// A candle body's gain meets a threshold of `bp` basis points:
/// `(close - open) / open * 10000 >= bp`, where a zero open makes the gain
/// zero.
pub open spec fn spec_gain_at_least(open: u128, close: u128, bp: u32) -> bool {
    if open == 0 {
        bp == 0
    } else {
        (close - open) * 10000 >= bp * open
    }
}

/// The body gain of the second candle strictly exceeds the first's:
/// `(c2 - o2) / o2 > (c1 - o1) / o1`, where a zero open makes a gain zero.
pub open spec fn spec_gain_gt(o2: u128, c2: u128, o1: u128, c1: u128) -> bool {
    if o2 == 0 && o1 == 0 {
        false
    } else if o2 == 0 {
        c1 < o1
    } else if o1 == 0 {
        c2 > o2
    } else {
        (c2 - o2) * o1 > (c1 - o1) * o2
    }
}

/// Decide `spec_gain_at_least` on one candle's open and close.
pub fn gain_at_least(open: u128, close: u128, bp: u32) -> (r: bool)
    requires
        open <= MAX_PRICE_FP,
        close <= MAX_PRICE_FP,
    ensures
        r == spec_gain_at_least(open, close, bp),
{
    if open == 0 {
        bp == 0
    } else if close >= open {
        proof {
            assert((close - open) * 10000 <= MAX_PRICE_FP * 10000) by (nonlinear_arith)
                requires 0 <= close - open <= MAX_PRICE_FP;
            assert((bp as u128) * open <= 0xffff_ffffu128 * MAX_PRICE_FP) by (nonlinear_arith)
                requires 0 <= bp <= 0xffff_ffffu128, 0 <= open <= MAX_PRICE_FP;
        }
        (close - open) * 10000 >= (bp as u128) * open
    } else {
        proof {
            assert((close - open) * 10000 < 0) by (nonlinear_arith)
                requires close < open;
            assert(bp * open >= 0) by (nonlinear_arith)
                requires bp >= 0, open >= 0;
        }
        false
    }
}

/// Decide `spec_gain_gt` on two candles, exactly, with 256-bit cross
/// products.
pub fn gain_gt(o2: u128, c2: u128, o1: u128, c1: u128) -> (r: bool)
    requires
        c2 >= o2,
        c1 >= o1,
    ensures
        r == spec_gain_gt(o2, c2, o1, c1),
{
    if o2 == 0 && o1 == 0 {
        false
    } else if o2 == 0 {
        false
    } else if o1 == 0 {
        c2 > o2
    } else {
        mul_lt(c1 - o1, o2, c2 - o2, o1)
    }
}

/// One rising candle: the close strictly exceeds the open and the body gain
/// meets the threshold.
pub open spec fn spec_candle_rising(k: KLineData, bp: u32) -> bool {
    k.close > k.open && spec_gain_at_least(k.open, k.close, bp)
}

/// The consecutive-rising pattern holds of a candle window: every candle is
/// rising with a gain at or above the threshold, and, when required, each
/// candle's gain strictly exceeds the previous candle's.
pub open spec fn spec_pattern_matches(window: Seq<KLineData>, p: ConsecutiveRisingPattern) -> bool {
    &&& forall|i: int|
        0 <= i < window.len() ==> spec_candle_rising(#[trigger] window[i], p.min_gain_bp)
    &&& p.require_increasing_gains ==> forall|i: int|
        1 <= i < window.len() ==> spec_gain_gt(
            (#[trigger] window[i]).open,
            window[i].close,
            window[i - 1].open,
            window[i - 1].close,
        )
}

/// A candle's truncated body gain in basis points (hundredths of a percent):
/// `(close - open) * 10000 / open`, zero when the open is zero. Used only to
/// render gains in alert messages; the pattern decisions compare gains
/// exactly.
pub open spec fn spec_gain_cbp(open: u128, close: u128) -> int {
    if open == 0 {
        0
    } else {
        (close - open) * 10000 / (open as int)
    }
}

/// The truncated display gain of one rising candle.
fn gain_cbp(open: u128, close: u128) -> (r: u128)
    requires
        open <= MAX_PRICE_FP,
        close <= MAX_PRICE_FP,
        close >= open,
    ensures
        r == spec_gain_cbp(open, close),
{
    if open == 0 {
        0
    } else {
        proof {
            assert((close - open) * 10000 <= MAX_PRICE_FP * 10000) by (nonlinear_arith)
                requires 0 <= close - open <= MAX_PRICE_FP;
            assert((close - open) * 10000 / (open as int) >= 0) by (nonlinear_arith)
                requires close - open >= 0, open > 0;
        }
        (close - open) * 10000 / open
    }
}

/// A gain in hundredths of a percent rendered as a percentage with two
/// fractional digits, e.g. `700` as `7.00%`.
pub open spec fn spec_percent_chars(cbp: int) -> Seq<char> {
    spec_dec_string((cbp / 100) as nat) + "."@ + spec_dec_string(((cbp % 100) / 10) as nat)
        + spec_dec_string((cbp % 10) as nat) + "%"@
}

/// The display gains of a candle window, comma-separated, in window order.
pub open spec fn spec_gain_list_chars(window: Seq<KLineData>) -> Seq<char>
    decreases window.len(),
{
    if window.len() == 0 {
        Seq::empty()
    } else if window.len() == 1 {
        spec_percent_chars(spec_gain_cbp(window[0].open, window[0].close))
    } else {
        spec_gain_list_chars(window.drop_last()) + ", "@ + spec_percent_chars(
            spec_gain_cbp(window.last().open, window.last().close),
        )
    }
}

/// The total display gain of a candle window: the sum of the truncated
/// per-candle gains, saturating at the accumulator's range.
pub open spec fn spec_total_cbp(window: Seq<KLineData>) -> int
    decreases window.len(),
{
    if window.len() == 0 {
        0
    } else {
        let t = spec_total_cbp(window.drop_last());
        let g = spec_gain_cbp(window.last().open, window.last().close);
        if t + g > u128::MAX {
            u128::MAX as int
        } else {
            t + g
        }
    }
}

/// The alert message of a matched window: the window size, the total display
/// gain, and the per-candle display gains in order.
pub open spec fn spec_alert_message(window: Seq<KLineData>) -> Seq<char> {
    "Detected "@ + spec_dec_string(window.len()) + " consecutive rising candles, total gain "@
        + spec_percent_chars(spec_total_cbp(window)) + ", gains ["@ + spec_gain_list_chars(window)
        + "]"@
}

/// Render a gain in hundredths of a percent as a percentage with two
/// fractional digits.
fn percent_string(cbp: u128) -> (s: String)
    ensures
        s@ == spec_percent_chars(cbp as int),
{
    let whole = u128_to_string(cbp / 100);
    let tenth = u128_to_string((cbp % 100) / 10);
    let hundredth = u128_to_string(cbp % 10);
    let mut out = whole;
    out = out.concat(".");
    out = out.concat(tenth.as_str());
    out = out.concat(hundredth.as_str());
    out.concat("%")
}

/// The strategy engine: the pattern it scans for and, per asset, the
/// activity marker seen at its last evaluation (to skip assets with nothing
/// new).
pub struct StrategyEngine {
    pub pattern: ConsecutiveRisingPattern,
    pub last_checked: Vec<(String, u64)>,
}

/// Engine well-formedness: at most one watermark per asset.
pub open spec fn engine_wf(e: StrategyEngine) -> bool {
    forall|i: int, j: int|
        0 <= i < j < e.last_checked@.len() ==> (#[trigger] e.last_checked@[i]).0@ != (
        #[trigger] e.last_checked@[j]).0@
}

/// The watermark list after one asset's watermark moved to `act`: its entry
/// is updated in place, or appended when the asset had none.
pub open spec fn spec_watermark_moved(
    lc0: Seq<(String, u64)>,
    lc1: Seq<(String, u64)>,
    mint: Seq<char>,
    act: u64,
) -> bool {
    if exists|i: int| 0 <= i < lc0.len() && (#[trigger] lc0[i]).0@ == mint {
        let i = choose|i: int| 0 <= i < lc0.len() && (#[trigger] lc0[i]).0@ == mint;
        lc1 == lc0.update(i, (lc0[i].0, act))
    } else {
        &&& lc1.len() == lc0.len() + 1
        &&& forall|j: int| 0 <= j < lc0.len() ==> lc1[j] == lc0[j]
        &&& lc1[lc0.len() as int].0@ == mint
        &&& lc1[lc0.len() as int].1 == act
    }
}

impl StrategyEngine {
    /// An engine with the given pattern and no evaluation history.
    pub fn new(pattern: ConsecutiveRisingPattern) -> (r: Self)
        ensures
            r.pattern == pattern,
            r.last_checked@.len() == 0,
            engine_wf(r),
    {
        StrategyEngine { pattern, last_checked: Vec::new() }
    }

    /// An asset needs evaluation when its activity marker has advanced past
    /// the watermark of its last evaluation (or it was never evaluated).
    pub fn should_check(&self, mint: &String, last_activity: u64) -> (r: bool)
        ensures
            r == !(exists|i: int|
                0 <= i < self.last_checked@.len() && (#[trigger] self.last_checked@[i]).0@
                    == mint@ && last_activity <= self.last_checked@[i].1),
    {
        let mut i: usize = 0;
        while i < self.last_checked.len()
            invariant
                i <= self.last_checked@.len(),
                forall|j: int|
                    0 <= j < i ==> !((#[trigger] self.last_checked@[j]).0@ == mint@
                        && last_activity <= self.last_checked@[j].1),
            decreases self.last_checked@.len() - i,
        {
            let entry = &self.last_checked[i];
            if entry.0 == *mint && last_activity <= entry.1 {
                return false;
            }
            i += 1;
        }
        true
    }

    /// Move the asset's watermark to `last_activity`: replace its entry, or
    /// append one when the asset had none.
    pub fn mark_checked(&mut self, mint: &String, last_activity: u64)
        requires
            engine_wf(*old(self)),
        ensures
            engine_wf(*final(self)),
            final(self).pattern == old(self).pattern,
            spec_watermark_moved(
                old(self).last_checked@,
                final(self).last_checked@,
                mint@,
                last_activity,
            ),
    {
        let ghost lc0 = self.last_checked@;
        let mut i: usize = 0;
        while i < self.last_checked.len()
            invariant
                i <= self.last_checked@.len(),
                self.last_checked@ == lc0,
                lc0 == old(self).last_checked@,
                engine_wf(*self),
                self.pattern == old(self).pattern,
                forall|j: int| 0 <= j < i ==> (#[trigger] lc0[j]).0@ != mint@,
            decreases self.last_checked@.len() - i,
        {
            if self.last_checked[i].0 == *mint {
                let mut entry = self.last_checked.remove(i);
                entry.1 = last_activity;
                self.last_checked.insert(i, entry);
                proof {
                    assert(entry.0 == lc0[i as int].0);
                    assert(self.last_checked@ =~= lc0.update(
                        i as int,
                        (lc0[i as int].0, last_activity),
                    ));
                    let ci = choose|k: int| 0 <= k < lc0.len() && (#[trigger] lc0[k]).0@ == mint@;
                    if ci != i as int {
                        assert(lc0[ci].0@ != lc0[i as int].0@ || ci == i as int);
                    }
                }
                return;
            }
            i += 1;
        }
        self.last_checked.push((mint.clone(), last_activity));
        proof {
            let n = self.last_checked@.len() - 1;
            assert(self.last_checked@[n].0@ == mint@);
        }
    }

    /// Evaluate the consecutive-rising pattern on one asset's candles. The
    /// alert fires exactly when at least `consecutive_count` candles are
    /// present and the window of the most recent `consecutive_count` of them
    /// matches the pattern; the alert then carries that window.
    pub fn check_consecutive_rising_pattern(
        &self,
        mint: &String,
        klines: &Vec<KLineData>,
        now: i64,
    ) -> (r: Option<StrategyAlert>)
        requires
            klines_sorted(klines@),
            forall|i: int| 0 <= i < klines@.len() ==> candle_wf(#[trigger] klines@[i]),
        ensures
            ({
                let n = klines@.len();
                let count = self.pattern.consecutive_count;
                if n < count {
                    r is None
                } else {
                    let window = klines@.subrange(n - count, n as int);
                    if spec_pattern_matches(window, self.pattern) {
                        match r {
                            Some(a) => {
                                &&& a.mint@ == mint@
                                &&& a.strategy_name@ == "consecutive_rising"@
                                &&& a.message@ == spec_alert_message(window)
                                &&& a.timestamp == now
                                &&& a.klines@ == window
                            },
                            None => false,
                        }
                    } else {
                        r is None
                    }
                }
            }),
    {
        let count = self.pattern.consecutive_count;
        let n = klines.len();
        if n < count {
            return None;
        }
        let start = n - count;
        let ghost window = klines@.subrange(start as int, n as int);
        let mut gains: Vec<u128> = Vec::new();
        let mut recent: Vec<KLineData> = Vec::new();
        let mut j: usize = 0;
        while j < count
            invariant
                j <= count,
                count == self.pattern.consecutive_count,
                count <= n == klines@.len(),
                start == n - count,
                window == klines@.subrange(start as int, n as int),
                forall|i: int| 0 <= i < klines@.len() ==> candle_wf(#[trigger] klines@[i]),
                recent@ =~= window.subrange(0, j as int),
                gains@.len() == j,
                forall|i: int|
                    0 <= i < j ==> spec_candle_rising(#[trigger] window[i], self.pattern.min_gain_bp),
                forall|i: int|
                    0 <= i < j ==> gains@[i] == spec_gain_cbp(window[i].open, window[i].close),
            decreases count - j,
        {
            let k = klines[start + j];
            proof {
                assert(window[j as int] == klines@[start + j]);
            }
            if !(k.close > k.open) {
                proof {
                    assert(!spec_candle_rising(window[j as int], self.pattern.min_gain_bp));
                }
                return None;
            }
            if !gain_at_least(k.open, k.close, self.pattern.min_gain_bp) {
                proof {
                    assert(!spec_candle_rising(window[j as int], self.pattern.min_gain_bp));
                }
                return None;
            }
            gains.push(gain_cbp(k.open, k.close));
            recent.push(k);
            proof {
                assert(recent@ =~= window.subrange(0, j + 1));
            }
            j += 1;
        }
        proof {
            assert(window.subrange(0, count as int) =~= window);
        }
        if self.pattern.require_increasing_gains {
            let mut j: usize = 1;
            while j < count
                invariant
                    1 <= j <= count || count == 0,
                    count == self.pattern.consecutive_count,
                    self.pattern.require_increasing_gains,
                    count <= n == klines@.len(),
                    start == n - count,
                    window == klines@.subrange(start as int, n as int),
                    forall|i: int| 0 <= i < klines@.len() ==> candle_wf(#[trigger] klines@[i]),
                    forall|i: int|
                        0 <= i < count ==> spec_candle_rising(
                            #[trigger] window[i],
                            self.pattern.min_gain_bp,
                        ),
                    forall|i: int|
                        1 <= i < j ==> spec_gain_gt(
                            (#[trigger] window[i]).open,
                            window[i].close,
                            window[i - 1].open,
                            window[i - 1].close,
                        ),
                decreases count - j,
            {
                let prev = klines[start + j - 1];
                let cur = klines[start + j];
                proof {
                    assert(window[j as int] == klines@[start + j]);
                    assert(window[j - 1] == klines@[start + j - 1]);
                }
                if !gain_gt(cur.open, cur.close, prev.open, prev.close) {
                    proof {
                        assert(!spec_gain_gt(
                            (window[j as int]).open,
                            window[j as int].close,
                            window[j - 1].open,
                            window[j - 1].close,
                        ));
                    }
                    return None;
                }
                j += 1;
            }
        }
        // The window matches: assemble the alert.
        let mut total: u128 = 0;
        let mut gain_list: String = String::new();
        let mut j: usize = 0;
        while j < gains.len()
            invariant
                j <= gains@.len(),
                gains@.len() == count,
                count <= window.len(),
                window == klines@.subrange(start as int, n as int),
                start == n - count,
                count <= n == klines@.len(),
                forall|i: int|
                    0 <= i < count ==> gains@[i] == spec_gain_cbp(
                        (#[trigger] window[i]).open,
                        window[i].close,
                    ),
                total == spec_total_cbp(window.subrange(0, j as int)),
                gain_list@ == spec_gain_list_chars(window.subrange(0, j as int)),
            decreases gains@.len() - j,
        {
            proof {
                assert(window.subrange(0, j + 1).drop_last() =~= window.subrange(0, j as int));
                assert(window.subrange(0, j + 1).last() == window[j as int]);
            }
            total = match total.checked_add(gains[j]) {
                Some(t) => t,
                None => u128::MAX,
            };
            if j > 0 {
                gain_list = gain_list.concat(", ");
            }
            gain_list = gain_list.concat(percent_string(gains[j]).as_str());
            j += 1;
        }
        proof {
            assert(window.subrange(0, count as int) =~= window);
        }
        let mut message: String = "Detected ".to_owned();
        message = message.concat(u64_to_string(count as u64).as_str());
        message = message.concat(" consecutive rising candles, total gain ");
        message = message.concat(percent_string(total).as_str());
        message = message.concat(", gains [");
        message = message.concat(gain_list.as_str());
        message = message.concat("]");
        proof {
            assert(message@ == spec_alert_message(window));
        }
        Some(
            StrategyAlert {
                mint: mint.clone(),
                strategy_name: "consecutive_rising".to_owned(),
                message,
                timestamp: now,
                klines: recent,
            },
        )
    }

    /// One strategy tick: list the active assets, skip those whose activity
    /// marker has not advanced since their last evaluation, evaluate the
    /// pattern on the most recent candles of the rest, and move every
    /// evaluated asset's watermark. The whole tick evaluates some
    /// most-recently-active-first ordering of the tracked assets, one at a
    /// time, as `spec_mint_evaluated` says; every returned alert carries a
    /// window of `consecutive_count` candles that matches the pattern.
    pub fn run_strategy_check(&mut self, manager: &KLineManager, now: i64) -> (alerts: Vec<
        StrategyAlert,
    >)
        requires
            manager_wf(*manager),
            engine_wf(*old(self)),
        ensures
            final(self).pattern == old(self).pattern,
            engine_wf(*final(self)),
            forall|k: int|
                0 <= k < alerts@.len() ==> {
                    let a = #[trigger] alerts@[k];
                    &&& a.strategy_name@ == "consecutive_rising"@
                    &&& a.timestamp == now
                    &&& a.klines@.len() == old(self).pattern.consecutive_count
                    &&& spec_pattern_matches(a.klines@, old(self).pattern)
                },
            exists|order: Seq<(String, u64)>|
                {
                    &&& order.to_multiset() == crate::kline::activity_pairs(
                        manager.series@,
                    ).to_multiset()
                    &&& forall|a: int, b: int| 0 <= a < b < order.len() ==> order[a].1 >= order[b].1
                    &&& #[trigger] spec_tick_evaluated(
                        old(self).last_checked@,
                        final(self).last_checked@,
                        alerts@,
                        *manager,
                        old(self).pattern,
                        order,
                        now,
                    )
                },
    {
        let active = manager.get_active_mints();
        let mut alerts: Vec<StrategyAlert> = Vec::new();
        let ghost lc_start = self.last_checked@;
        let ghost mut chain_lc: Seq<Seq<(String, u64)>> = seq![self.last_checked@];
        let ghost mut chain_al: Seq<Seq<StrategyAlert>> = seq![alerts@];
        let mut i: usize = 0;
        while i < active.len()
            invariant
                i <= active@.len(),
                manager_wf(*manager),
                engine_wf(*self),
                self.pattern == old(self).pattern,
                lc_start == old(self).last_checked@,
                chain_lc.len() == i + 1,
                chain_al.len() == i + 1,
                chain_lc.first() == lc_start,
                chain_al.first() == Seq::<StrategyAlert>::empty(),
                chain_lc.last() == self.last_checked@,
                chain_al.last() == alerts@,
                forall|k: int|
                    0 <= k < i ==> spec_mint_evaluated(
                        #[trigger] chain_lc[k],
                        chain_lc[k + 1],
                        chain_al[k],
                        chain_al[k + 1],
                        *manager,
                        old(self).pattern,
                        active@[k],
                        now,
                    ),
                forall|k: int|
                    0 <= k < alerts@.len() ==> {
                        let a = #[trigger] alerts@[k];
                        &&& a.strategy_name@ == "consecutive_rising"@
                        &&& a.timestamp == now
                        &&& a.klines@.len() == old(self).pattern.consecutive_count
                        &&& spec_pattern_matches(a.klines@, old(self).pattern)
                    },
            decreases active@.len() - i,
        {
            let ghost lc_pre = self.last_checked@;
            let ghost al_pre = alerts@;
            let mint = active[i].0.clone();
            let last_activity = active[i].1;
            if self.should_check(&mint, last_activity) {
                let klines = manager.get_klines_for_mint(&mint, Some(10));
                proof {
                    assert(klines@ == spec_fetched_klines(*manager, mint@));
                }
                match self.check_consecutive_rising_pattern(&mint, &klines, now) {
                    Some(alert) => {
                        proof {
                            let n = klines@.len();
                            let count = self.pattern.consecutive_count;
                            assert(alert.klines@ == klines@.subrange(n - count, n as int));
                        }
                        alerts.push(alert);
                    },
                    None => {},
                }
                self.mark_checked(&mint, last_activity);
            }
            proof {
                assert(spec_mint_evaluated(
                    lc_pre,
                    self.last_checked@,
                    al_pre,
                    alerts@,
                    *manager,
                    old(self).pattern,
                    active@[i as int],
                    now,
                ));
                chain_lc = chain_lc.push(self.last_checked@);
                chain_al = chain_al.push(alerts@);
            }
            i += 1;
        }
        proof {
            assert(chain_lc.len() == active@.len() + 1);
            assert(spec_tick_evaluated(
                old(self).last_checked@,
                self.last_checked@,
                alerts@,
                *manager,
                old(self).pattern,
                active@,
                now,
            ));
        }
        alerts
    }
}

/// The candles the strategy reads for one asset: its most recent ten.
pub open spec fn spec_fetched_klines(m: KLineManager, mint: Seq<char>) -> Seq<KLineData> {
    if exists|i: int| 0 <= i < m.series@.len() && (#[trigger] m.series@[i]).mint@ == mint {
        let i = choose|i: int| 0 <= i < m.series@.len() && (#[trigger] m.series@[i]).mint@ == mint;
        let ks = m.series@[i].klines@;
        if ks.len() > 10 {
            ks.subrange(ks.len() - 10, ks.len() as int)
        } else {
            ks
        }
    } else {
        Seq::empty()
    }
}

/// One active asset evaluated in a strategy tick: one whose marker has not
/// advanced past its watermark is skipped whole; otherwise the pattern is
/// evaluated on its most recent candles, an alert is appended exactly on a
/// match, and the asset's watermark moves to its marker.
pub open spec fn spec_mint_evaluated(
    lc0: Seq<(String, u64)>,
    lc1: Seq<(String, u64)>,
    alerts0: Seq<StrategyAlert>,
    alerts1: Seq<StrategyAlert>,
    m: KLineManager,
    pattern: ConsecutiveRisingPattern,
    entry: (String, u64),
    now: i64,
) -> bool {
    let skip = exists|i: int|
        0 <= i < lc0.len() && (#[trigger] lc0[i]).0@ == entry.0@ && entry.1 <= lc0[i].1;
    if skip {
        lc1 == lc0 && alerts1 == alerts0
    } else {
        let fetched = spec_fetched_klines(m, entry.0@);
        let count = pattern.consecutive_count;
        let fired = fetched.len() >= count && spec_pattern_matches(
            fetched.subrange(fetched.len() - count, fetched.len() as int),
            pattern,
        );
        &&& spec_watermark_moved(lc0, lc1, entry.0@, entry.1)
        &&& if fired {
            &&& alerts1.len() == alerts0.len() + 1
            &&& forall|j: int| 0 <= j < alerts0.len() ==> alerts1[j] == alerts0[j]
            &&& alerts1.last().mint@ == entry.0@
            &&& alerts1.last().strategy_name@ == "consecutive_rising"@
            &&& alerts1.last().timestamp == now
            &&& alerts1.last().klines@ == fetched.subrange(
                fetched.len() - count,
                fetched.len() as int,
            )
        } else {
            alerts1 == alerts0
        }
    }
}

/// A whole strategy tick: starting from no alerts, some chain of watermark
/// and alert states steps from the tick's start to its end, evaluating the
/// given assets one at a time.
pub open spec fn spec_tick_evaluated(
    lc0: Seq<(String, u64)>,
    lc1: Seq<(String, u64)>,
    alerts: Seq<StrategyAlert>,
    m: KLineManager,
    pattern: ConsecutiveRisingPattern,
    order: Seq<(String, u64)>,
    now: i64,
) -> bool {
    exists|chain_lc: Seq<Seq<(String, u64)>>, chain_al: Seq<Seq<StrategyAlert>>|
        {
            &&& #[trigger] chain_lc.len() == order.len() + 1
            &&& #[trigger] chain_al.len() == order.len() + 1
            &&& chain_lc.first() == lc0
            &&& chain_lc.last() == lc1
            &&& chain_al.first() == Seq::<StrategyAlert>::empty()
            &&& chain_al.last() == alerts
            &&& forall|k: int|
                0 <= k < order.len() ==> spec_mint_evaluated(
                    #[trigger] chain_lc[k],
                    chain_lc[k + 1],
                    chain_al[k],
                    chain_al[k + 1],
                    m,
                    pattern,
                    order[k],
                    now,
                )
        }
}

} // verus!
