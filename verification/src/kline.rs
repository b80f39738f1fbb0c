//! The candle aggregation engine: one evolving OHLCV record per
//! (asset, minute) bucket, a last-activity marker per asset, idle eviction,
//! and the sorted read paths.

use crate::numeric::{minute_bucket, spec_minute_bucket, MAX_PRICE_FP};
use crate::text::{i64_to_string, spec_dec_string_signed};
use vstd::multiset::Multiset;
use vstd::prelude::*;
use vstd::string::*;

verus! {

/// One OHLCV candle. Prices are fixed-point with scale `10^12` (see
/// `crate::numeric`), SOL volumes are lamports, token volumes are raw token
/// units, and the net flow is signed lamports (buys positive, sells
/// negative).
#[derive(Clone, Copy, Debug, PartialEq, Eq, Structural)]
pub struct KLineData {
    /// Start of the minute this candle covers (seconds, minute-aligned).
    pub timestamp: i64,
    pub open: u128,
    pub high: u128,
    pub low: u128,
    pub close: u128,
    pub volume_sol: u128,
    pub volume_token: u128,
    pub net_flow_sol: i128,
    /// Wall-clock time of the last fold into this candle (seconds).
    pub last_update: u64,
}

/// The error of the aggregation engine: a fold whose accumulated volume or
/// net flow would no longer fit its field.
#[derive(Clone, Copy, Debug, PartialEq, Eq, Structural)]
pub enum KlineError {
    VolumeOverflow,
}

/// Candle well-formedness: extremes bracket open and close, the bucket
/// timestamp is minute-aligned, and prices are in the representable range.
pub open spec fn candle_wf(k: KLineData) -> bool {
    &&& k.low <= k.open <= k.high
    &&& k.low <= k.close <= k.high
    &&& k.timestamp as int % 60 == 0
    &&& k.high <= MAX_PRICE_FP
}

/// The candle created by the first trade of an (asset, minute) bucket.
pub open spec fn spec_new_candle(
    minute_ts: i64,
    price: u128,
    sol: u64,
    tok: u64,
    is_buy: bool,
    now: u64,
) -> KLineData {
    KLineData {
        timestamp: minute_ts,
        open: price,
        high: price,
        low: price,
        close: price,
        volume_sol: sol as u128,
        volume_token: tok as u128,
        net_flow_sol: if is_buy {
            sol as i128
        } else {
            (-(sol as int)) as i128
        },
        last_update: now,
    }
}

/// The accumulators of `k` can absorb one more trade of the given amounts
/// and direction.
pub open spec fn fold_fits(k: KLineData, sol: u64, tok: u64, is_buy: bool) -> bool {
    &&& k.volume_sol + sol <= u128::MAX
    &&& k.volume_token + tok <= u128::MAX
    &&& if is_buy {
        k.net_flow_sol + sol <= i128::MAX
    } else {
        k.net_flow_sol - sol >= i128::MIN
    }
}

/// One trade folded into an existing candle: close moves to the trade price,
/// the extremes widen, the volumes accumulate, and the net flow moves by the
/// signed SOL amount.
pub open spec fn spec_fold_candle(
    k: KLineData,
    price: u128,
    sol: u64,
    tok: u64,
    is_buy: bool,
    now: u64,
) -> KLineData {
    KLineData {
        timestamp: k.timestamp,
        open: k.open,
        high: if price > k.high {
            price
        } else {
            k.high
        },
        low: if price < k.low {
            price
        } else {
            k.low
        },
        close: price,
        volume_sol: (k.volume_sol + sol) as u128,
        volume_token: (k.volume_token + tok) as u128,
        net_flow_sol: (if is_buy {
            k.net_flow_sol + sol
        } else {
            k.net_flow_sol - sol
        }) as i128,
        last_update: now,
    }
}

/// The default surge-multiple threshold of the data-quality check.
pub const DEFAULT_SURGE_MULTIPLE: u32 = 100;

/// The data-quality signals of a candle, for warning-level diagnostics (they
/// are not errors): whether its low is exactly zero, and whether its high
/// has risen more than `surge_multiple` times above its open.
pub fn candle_quality_flags(k: &KLineData, surge_multiple: u32) -> (r: (bool, bool))
    requires
        candle_wf(*k),
    ensures
        r.0 == (k.low == 0),
        r.1 == (k.open > 0 && k.high - k.open > surge_multiple * k.open),
{
    let low_zero = k.low == 0;
    let surged = if k.open > 0 {
        proof {
            assert((surge_multiple as u128) * k.open <= 0xffff_ffffu128 * MAX_PRICE_FP)
                by (nonlinear_arith)
                requires 0 <= surge_multiple <= 0xffff_ffffu128, 0 <= k.open <= MAX_PRICE_FP;
        }
        k.high - k.open > (surge_multiple as u128) * k.open
    } else {
        false
    };
    (low_zero, surged)
}

/// Law (fold arithmetic): a fold within the accumulator ranges adds the
/// trade's amounts to the volumes exactly and moves the net flow by the
/// signed SOL amount. Together with `add_trade`'s error condition (`Err`
/// exactly when the target bucket cannot absorb the trade), every accepted
/// fold accumulates exactly.
pub proof fn lemma_fold_candle_sums(
    k: KLineData,
    price: u128,
    sol: u64,
    tok: u64,
    is_buy: bool,
    now: u64,
)
    requires
        fold_fits(k, sol, tok, is_buy),
    ensures
        spec_fold_candle(k, price, sol, tok, is_buy, now).volume_sol == k.volume_sol + sol,
        spec_fold_candle(k, price, sol, tok, is_buy, now).volume_token == k.volume_token + tok,
        spec_fold_candle(k, price, sol, tok, is_buy, now).net_flow_sol == if is_buy {
            k.net_flow_sol + sol
        } else {
            k.net_flow_sol - sol
        },
{
}

/// Candles strictly ascending by bucket timestamp.
pub open spec fn klines_sorted(ks: Seq<KLineData>) -> bool {
    forall|i: int, j: int| 0 <= i < j < ks.len() ==> ks[i].timestamp < ks[j].timestamp
}

/// All candles of one asset, sorted ascending by bucket, plus the asset's
/// activity marker.
pub struct MintSeries {
    pub mint: String,
    /// Wall-clock time of the last fold for this asset (seconds).
    pub last_activity: u64,
    pub klines: Vec<KLineData>,
}

pub open spec fn series_wf(s: MintSeries) -> bool {
    &&& klines_sorted(s.klines@)
    &&& forall|i: int| 0 <= i < s.klines@.len() ==> candle_wf(#[trigger] s.klines@[i])
}

/// The aggregation engine: the tracked assets and the idle timeout of the
/// eviction sweep. The fields are mutated only through the methods below,
/// which maintain `manager_wf`.
pub struct KLineManager {
    pub idle_timeout_secs: u64,
    pub series: Vec<MintSeries>,
}

pub open spec fn mints_distinct(ss: Seq<MintSeries>) -> bool {
    forall|i: int, j: int| 0 <= i < j < ss.len() ==> ss[i].mint@ != ss[j].mint@
}

pub open spec fn manager_wf(m: KLineManager) -> bool {
    &&& mints_distinct(m.series@)
    &&& forall|i: int| 0 <= i < m.series@.len() ==> series_wf(#[trigger] m.series@[i])
}

/// The fold of one trade into the candle list of one asset: the bucket at
/// `b` is folded in place if present, otherwise a fresh candle is inserted
/// at the position that keeps the list sorted.
pub open spec fn klines_folded(
    old_ks: Seq<KLineData>,
    new_ks: Seq<KLineData>,
    b: i64,
    price: u128,
    sol: u64,
    tok: u64,
    is_buy: bool,
    now: u64,
) -> bool {
    if exists|k: int| 0 <= k < old_ks.len() && (#[trigger] old_ks[k]).timestamp == b {
        let k = choose|k: int| 0 <= k < old_ks.len() && (#[trigger] old_ks[k]).timestamp == b;
        new_ks == old_ks.update(k, spec_fold_candle(old_ks[k], price, sol, tok, is_buy, now))
    } else {
        exists|p: int|
            0 <= p <= old_ks.len() && new_ks == #[trigger] old_ks.subrange(0, p) + seq![
                spec_new_candle(b, price, sol, tok, is_buy, now),
            ] + old_ks.subrange(p, old_ks.len() as int)
    }
}

impl KLineManager {
    /// A fresh engine tracking nothing yet.
    pub fn new(idle_timeout_secs: u64) -> (r: Self)
        ensures
            manager_wf(r),
            r.idle_timeout_secs == idle_timeout_secs,
            r.series@.len() == 0,
    {
        KLineManager { idle_timeout_secs, series: Vec::new() }
    }

    /// Kept for callers that configured a store location together with the
    /// timeout; the location is ignored by the in-memory engine.
    pub fn with_redis_url(_redis_url: &str, timeout_secs: u64) -> (r: Self)
        ensures
            manager_wf(r),
            r.idle_timeout_secs == timeout_secs,
            r.series@.len() == 0,
    {
        Self::new(timeout_secs)
    }

    /// The store key under which an asset's activity marker lives.
    pub fn get_mint_activity_key(mint: &str) -> (r: String)
        ensures
            r@ == "mint_activity:"@ + mint@,
    {
        let head: String = "mint_activity:".to_owned();
        head.concat(mint)
    }

    /// The store key under which one (asset, minute) candle lives.
    pub fn get_kline_key(mint: &str, timestamp: i64) -> (r: String)
        ensures
            r@ == "kline:"@ + mint@ + ":"@ + spec_dec_string_signed(timestamp as int),
    {
        let head: String = "kline:".to_owned();
        let with_mint = head.concat(mint);
        let with_sep = with_mint.concat(":");
        with_sep.concat(i64_to_string(timestamp).as_str())
    }

    /// The match pattern that scans all candle keys of one asset.
    pub fn get_mint_pattern(mint: &str) -> (r: String)
        ensures
            r@ == "kline:"@ + mint@ + ":*"@,
    {
        let head: String = "kline:".to_owned();
        let with_mint = head.concat(mint);
        with_mint.concat(":*")
    }

    /// Index of the series tracking `mint`, if any.
    fn find_series(&self, mint: &String) -> (r: Option<usize>)
        ensures
            match r {
                Some(i) => i < self.series@.len() && self.series@[i as int].mint@ == mint@,
                None => forall|i: int|
                    0 <= i < self.series@.len() ==> (#[trigger] self.series@[i]).mint@ != mint@,
            },
    {
        let mut i: usize = 0;
        while i < self.series.len()
            invariant
                i <= self.series@.len(),
                forall|j: int| 0 <= j < i ==> (#[trigger] self.series@[j]).mint@ != mint@,
            decreases self.series@.len() - i,
        {
            if self.series[i].mint == *mint {
                return Some(i);
            }
            i += 1;
        }
        None
    }
}

/// The one condition under which a fold fails: the asset is tracked, it
/// already has a candle at the trade's minute, and that candle's
/// accumulators cannot absorb the trade's amounts.
pub open spec fn fold_blocked(
    ss: Seq<MintSeries>,
    mint: Seq<char>,
    timestamp: i64,
    sol: u64,
    tok: u64,
    is_buy: bool,
) -> bool {
    let b = spec_minute_bucket(timestamp as int) as i64;
    exists|i: int|
        0 <= i < ss.len() && (#[trigger] ss[i]).mint@ == mint && exists|k: int|
            0 <= k < ss[i].klines@.len() && (#[trigger] ss[i].klines@[k]).timestamp == b
                && !fold_fits(ss[i].klines@[k], sol, tok, is_buy)
}

/// The effect of one successful fold on the tracked series: the asset's
/// series is extended or folded at the trade's minute and its marker moves to
/// `now`; every other series is untouched.
pub open spec fn spec_trade_added(
    ss: Seq<MintSeries>,
    ts: Seq<MintSeries>,
    mint: Seq<char>,
    timestamp: i64,
    price: u128,
    sol: u64,
    tok: u64,
    is_buy: bool,
    now: u64,
) -> bool {
    let b = spec_minute_bucket(timestamp as int) as i64;
    if exists|i: int| 0 <= i < ss.len() && (#[trigger] ss[i]).mint@ == mint {
        let i = choose|i: int| 0 <= i < ss.len() && (#[trigger] ss[i]).mint@ == mint;
        &&& ts.len() == ss.len()
        &&& forall|j: int| 0 <= j < ss.len() && j != i ==> ts[j] == ss[j]
        &&& ts[i].mint == ss[i].mint
        &&& ts[i].last_activity == now
        &&& klines_folded(ss[i].klines@, ts[i].klines@, b, price, sol, tok, is_buy, now)
    } else {
        &&& ts.len() == ss.len() + 1
        &&& forall|j: int| 0 <= j < ss.len() ==> ts[j] == ss[j]
        &&& ts[ss.len() as int].mint@ == mint
        &&& ts[ss.len() as int].last_activity == now
        &&& ts[ss.len() as int].klines@ == seq![
            spec_new_candle(b, price, sol, tok, is_buy, now),
        ]
    }
}

/// The tracked series carry the same data (markers and candles, asset by
/// asset, in order).
pub open spec fn spec_series_unchanged(ss: Seq<MintSeries>, ts: Seq<MintSeries>) -> bool {
    &&& ts.len() == ss.len()
    &&& forall|j: int|
        0 <= j < ss.len() ==> (#[trigger] ts[j]).mint == ss[j].mint && ts[j].last_activity
            == ss[j].last_activity && ts[j].klines@ == ss[j].klines@
}

impl KLineManager {
    /// Fold one trade into the candle of its asset and event minute: create
    /// the candle on the first trade of that minute, mutate it in place on
    /// every later one, and refresh the asset's activity marker to `now`.
    /// Fails only when a candle accumulator would overflow; nothing changes
    /// then.
    pub fn add_trade(
        &mut self,
        mint: &String,
        timestamp: i64,
        price: u128,
        sol_volume: u64,
        token_volume: u64,
        is_buy: bool,
        now: u64,
    ) -> (r: Result<(), KlineError>)
        requires
            manager_wf(*old(self)),
            i64::MIN + 60 < timestamp,
            price <= MAX_PRICE_FP,
        ensures
            manager_wf(*final(self)),
            final(self).idle_timeout_secs == old(self).idle_timeout_secs,
            match r {
                Ok(()) => spec_trade_added(
                    old(self).series@,
                    final(self).series@,
                    mint@,
                    timestamp,
                    price,
                    sol_volume,
                    token_volume,
                    is_buy,
                    now,
                ),
                Err(e) => e == KlineError::VolumeOverflow && spec_series_unchanged(
                    old(self).series@,
                    final(self).series@,
                ),
            },
            r is Err <==> fold_blocked(
                old(self).series@,
                mint@,
                timestamp,
                sol_volume,
                token_volume,
                is_buy,
            ),
    {
        let b = minute_bucket(timestamp);
        match self.find_series(mint) {
            Some(i) => {
                proof {
                    let ss = self.series@;
                    assert forall|k: int|
                        0 <= k < ss.len() && (#[trigger] ss[k]).mint@ == mint@ implies k
                        == i as int by {
                        if k < i as int {
                            assert(ss[k].mint@ != ss[i as int].mint@);
                        } else if k > i as int {
                            assert(ss[i as int].mint@ != ss[k].mint@);
                        }
                    }
                }
                let mut s = self.series.remove(i);
                let ghost ks0 = s.klines@;
                let res = fold_into_klines(
                    &mut s.klines,
                    b,
                    price,
                    sol_volume,
                    token_volume,
                    is_buy,
                    now,
                );
                proof {
                    let ss = old(self).series@;
                    assert(ks0 == ss[i as int].klines@);
                    if res is Err {
                        let k = choose|k: int|
                            0 <= k < ks0.len() && (#[trigger] ks0[k]).timestamp == b && !fold_fits(
                                ks0[k],
                                sol_volume,
                                token_volume,
                                is_buy,
                            );
                        assert((#[trigger] ss[i as int].klines@[k]).timestamp == b && !fold_fits(
                            ss[i as int].klines@[k],
                            sol_volume,
                            token_volume,
                            is_buy,
                        ));
                        assert(fold_blocked(ss, mint@, timestamp, sol_volume, token_volume, is_buy));
                    } else {
                        assert(!fold_blocked(ss, mint@, timestamp, sol_volume, token_volume, is_buy))
                            by {
                            if fold_blocked(ss, mint@, timestamp, sol_volume, token_volume, is_buy) {
                                let i2 = choose|i2: int|
                                    0 <= i2 < ss.len() && (#[trigger] ss[i2]).mint@ == mint@ && (
                                    exists|k: int|
                                        0 <= k < ss[i2].klines@.len() && (
                                        #[trigger] ss[i2].klines@[k]).timestamp == b && !fold_fits(
                                            ss[i2].klines@[k],
                                            sol_volume,
                                            token_volume,
                                            is_buy,
                                        ));
                                assert(i2 == i as int);
                                let k = choose|k: int|
                                    0 <= k < ss[i2].klines@.len() && (
                                    #[trigger] ss[i2].klines@[k]).timestamp == b && !fold_fits(
                                        ss[i2].klines@[k],
                                        sol_volume,
                                        token_volume,
                                        is_buy,
                                    );
                                assert((#[trigger] ks0[k]).timestamp == b && !fold_fits(
                                    ks0[k],
                                    sol_volume,
                                    token_volume,
                                    is_buy,
                                ));
                            }
                        }
                    }
                }
                match res {
                    Ok(()) => {
                        s.last_activity = now;
                        self.series.insert(i, s);
                        proof {
                            assert(final(self).series@ =~= old(self).series@.update(
                                i as int,
                                final(self).series@[i as int],
                            ));
                        }
                        Ok(())
                    },
                    Err(e) => {
                        self.series.insert(i, s);
                        proof {
                            assert(final(self).series@ =~= old(self).series@.update(
                                i as int,
                                final(self).series@[i as int],
                            ));
                        }
                        Err(e)
                    },
                }
            },
            None => {
                let cand = KLineData {
                    timestamp: b,
                    open: price,
                    high: price,
                    low: price,
                    close: price,
                    volume_sol: sol_volume as u128,
                    volume_token: token_volume as u128,
                    net_flow_sol: if is_buy {
                        sol_volume as i128
                    } else {
                        -(sol_volume as i128)
                    },
                    last_update: now,
                };
                let mut klines: Vec<KLineData> = Vec::new();
                klines.push(cand);
                let s = MintSeries { mint: mint.clone(), last_activity: now, klines };
                self.series.push(s);
                proof {
                    assert(cand == spec_new_candle(b, price, sol_volume, token_volume, is_buy, now));
                    assert(!fold_blocked(
                        old(self).series@,
                        mint@,
                        timestamp,
                        sol_volume,
                        token_volume,
                        is_buy,
                    ));
                }
                Ok(())
            },
        }
    }
}

/// The inputs of one fold: a trade's price, amounts, direction, and the wall
/// clock at fold time.
#[derive(Clone, Copy, Debug, PartialEq, Eq, Structural)]
pub struct FoldInput {
    pub price: u128,
    pub sol: u64,
    pub tok: u64,
    pub is_buy: bool,
    pub now: u64,
}

/// A candle after a whole sequence of trades has been folded into it.
pub open spec fn spec_fold_trades(c: KLineData, ts: Seq<FoldInput>) -> KLineData
    decreases ts.len(),
{
    if ts.len() == 0 {
        c
    } else {
        spec_fold_trades(
            spec_fold_candle(c, ts[0].price, ts[0].sol, ts[0].tok, ts[0].is_buy, ts[0].now),
            ts.drop_first(),
        )
    }
}

/// Every fold of the sequence stays within the accumulator ranges.
pub open spec fn folds_fit(c: KLineData, ts: Seq<FoldInput>) -> bool
    decreases ts.len(),
{
    if ts.len() == 0 {
        true
    } else {
        fold_fits(c, ts[0].sol, ts[0].tok, ts[0].is_buy) && folds_fit(
            spec_fold_candle(c, ts[0].price, ts[0].sol, ts[0].tok, ts[0].is_buy, ts[0].now),
            ts.drop_first(),
        )
    }
}

/// Sum of the SOL amounts of a trade sequence.
pub open spec fn spec_sum_sol(ts: Seq<FoldInput>) -> int
    decreases ts.len(),
{
    if ts.len() == 0 {
        0
    } else {
        ts[0].sol + spec_sum_sol(ts.drop_first())
    }
}

/// Sum of the token amounts of a trade sequence.
pub open spec fn spec_sum_tok(ts: Seq<FoldInput>) -> int
    decreases ts.len(),
{
    if ts.len() == 0 {
        0
    } else {
        ts[0].tok + spec_sum_tok(ts.drop_first())
    }
}

/// Law (candle integrity): folding any sequence of trades into a well-formed
/// candle keeps `low <= open, close <= high`, never moves the bucket
/// timestamp or the open, and accumulates the volumes to exactly the sums of
/// the folded amounts.
pub proof fn lemma_fold_trades_invariants(c: KLineData, ts: Seq<FoldInput>)
    requires
        candle_wf(c),
        forall|i: int| 0 <= i < ts.len() ==> (#[trigger] ts[i]).price <= MAX_PRICE_FP,
        folds_fit(c, ts),
    ensures
        candle_wf(spec_fold_trades(c, ts)),
        spec_fold_trades(c, ts).timestamp == c.timestamp,
        spec_fold_trades(c, ts).open == c.open,
        spec_fold_trades(c, ts).volume_sol == c.volume_sol + spec_sum_sol(ts),
        spec_fold_trades(c, ts).volume_token == c.volume_token + spec_sum_tok(ts),
    decreases ts.len(),
{
    if ts.len() > 0 {
        let c1 = spec_fold_candle(c, ts[0].price, ts[0].sol, ts[0].tok, ts[0].is_buy, ts[0].now);
        assert(candle_wf(c1));
        assert(forall|i: int|
            0 <= i < ts.drop_first().len() ==> (#[trigger] ts.drop_first()[i]).price
                <= MAX_PRICE_FP);
        lemma_fold_trades_invariants(c1, ts.drop_first());
    }
}

/// Law (bucket from its trades): a bucket created by the first trade of an
/// (asset, minute) pair and folded with every later trade of that pair is
/// well formed, keeps its minute timestamp, and its volumes are exactly the
/// sums of all folded amounts, the first trade included.
pub proof fn lemma_candle_from_trades(minute_ts: i64, first: FoldInput, rest: Seq<FoldInput>)
    requires
        minute_ts as int % 60 == 0,
        first.price <= MAX_PRICE_FP,
        forall|i: int| 0 <= i < rest.len() ==> (#[trigger] rest[i]).price <= MAX_PRICE_FP,
        folds_fit(
            spec_new_candle(minute_ts, first.price, first.sol, first.tok, first.is_buy, first.now),
            rest,
        ),
    ensures
        ({
            let c0 = spec_new_candle(
                minute_ts,
                first.price,
                first.sol,
                first.tok,
                first.is_buy,
                first.now,
            );
            let c = spec_fold_trades(c0, rest);
            &&& candle_wf(c)
            &&& c.timestamp == minute_ts
            &&& c.open == first.price
            &&& c.volume_sol == first.sol + spec_sum_sol(rest)
            &&& c.volume_token == first.tok + spec_sum_tok(rest)
        }),
{
    let c0 = spec_new_candle(minute_ts, first.price, first.sol, first.tok, first.is_buy, first.now);
    assert(candle_wf(c0));
    lemma_fold_trades_invariants(c0, rest);
}

/// Law (minute bucketing): when `t` starts a minute, every timestamp within
/// the following 59 seconds falls into the bucket at `t`; and any timestamp
/// 60 seconds later always falls into the next bucket, exactly 60 apart.
pub proof fn lemma_minute_bucketing(t: int)
    ensures
        t % 60 == 0 ==> forall|d: int| 0 <= d < 60 ==> #[trigger] spec_minute_bucket(t + d) == t,
        spec_minute_bucket(t + 60) == spec_minute_bucket(t) + 60,
{
    assert((t + 60) % 60 == t % 60) by (nonlinear_arith);
    if t % 60 == 0 {
        assert forall|d: int| 0 <= d < 60 implies #[trigger] spec_minute_bucket(t + d) == t by {
            assert((t + d) % 60 == d) by (nonlinear_arith)
                requires t % 60 == 0, 0 <= d < 60;
        }
    }
}

/// An asset's activity marker is older than the idle timeout at wall-clock
/// time `now`.
pub open spec fn series_idle(s: MintSeries, now: u64, timeout: u64) -> bool {
    s.last_activity < now && now - s.last_activity > timeout
}

proof fn lemma_filter_push(s: Seq<MintSeries>, x: MintSeries, pred: spec_fn(MintSeries) -> bool)
    ensures
        s.push(x).filter(pred) == if pred(x) {
            s.filter(pred).push(x)
        } else {
            s.filter(pred)
        },
{
    reveal(Seq::filter);
    assert(s.push(x).drop_last() =~= s);
}

impl KLineManager {
    /// Delete every asset whose activity marker age exceeds the idle
    /// timeout, with all its candles; leave every other asset untouched.
    /// This sweep is the only deletion path for candle data.
    #[verifier::rlimit(60)]
    pub fn cleanup_idle_klines(&mut self, now: u64)
        requires
            manager_wf(*old(self)),
        ensures
            manager_wf(*final(self)),
            final(self).idle_timeout_secs == old(self).idle_timeout_secs,
            final(self).series@ == old(self).series@.filter(
                |s: MintSeries| !series_idle(s, now, old(self).idle_timeout_secs),
            ),
            forall|i: int|
                0 <= i < old(self).series@.len() && !series_idle(
                    #[trigger] old(self).series@[i],
                    now,
                    old(self).idle_timeout_secs,
                ) ==> exists|j: int|
                    0 <= j < final(self).series@.len() && final(self).series@[j]
                        == old(self).series@[i],
            forall|i: int, j: int|
                0 <= i < old(self).series@.len() && series_idle(
                    old(self).series@[i],
                    now,
                    old(self).idle_timeout_secs,
                ) && 0 <= j < final(self).series@.len() ==> (#[trigger] final(self).series@[j]).mint@
                    != (#[trigger] old(self).series@[i]).mint@,
    {
        let timeout = self.idle_timeout_secs;
        let ghost orig = self.series@;
        let ghost pred = |s: MintSeries| !series_idle(s, now, timeout);
        let mut kept: Vec<MintSeries> = Vec::new();
        let ghost mut done: int = 0;
        while self.series.len() > 0
            invariant
                0 <= done <= orig.len(),
                self.idle_timeout_secs == timeout,
                forall|x: MintSeries| #[trigger] pred(x) == !series_idle(x, now, timeout),
                self.series@ =~= orig.subrange(done, orig.len() as int),
                kept@ == orig.subrange(0, done).filter(pred),
                mints_distinct(orig),
                forall|i: int| 0 <= i < orig.len() ==> series_wf(#[trigger] orig[i]),
                forall|k: int| 0 <= k < kept@.len() ==> series_wf(#[trigger] kept@[k]),
                mints_distinct(kept@),
                forall|k: int, i: int|
                    0 <= k < kept@.len() && done <= i < orig.len() ==> (#[trigger] kept@[k]).mint@
                        != (#[trigger] orig[i]).mint@,
                forall|k: int|
                    0 <= k < kept@.len() ==> exists|i: int|
                        0 <= i < done && #[trigger] kept@[k] == orig[i],
                forall|i: int|
                    0 <= i < done && pred(#[trigger] orig[i]) ==> exists|k: int|
                        0 <= k < kept@.len() && kept@[k] == orig[i],
                forall|i: int, k: int|
                    0 <= i < done && !pred(orig[i]) && 0 <= k < kept@.len() ==> (
                    #[trigger] kept@[k]).mint@ != (#[trigger] orig[i]).mint@,
            decreases self.series@.len(),
        {
            let ghost pre_done = done;
            let ghost pre_kept = kept@;
            proof {
                assert(orig.subrange(done, orig.len() as int)[0] == orig[done]);
            }
            let s = self.series.remove(0);
            let keep = !(s.last_activity < now && now - s.last_activity > timeout);
            if keep {
                kept.push(s);
            }
            proof {
                assert(s == orig[pre_done]);
                assert(orig.subrange(pre_done, orig.len() as int).remove(0) =~= orig.subrange(
                    pre_done + 1,
                    orig.len() as int,
                ));
                lemma_filter_push(orig.subrange(0, pre_done), s, pred);
                assert(orig.subrange(0, pre_done).push(s) =~= orig.subrange(0, pre_done + 1));
                assert(keep == pred(s));
                done = pre_done + 1;
                assert(kept@ == orig.subrange(0, done).filter(pred));
                assert forall|i: int|
                    0 <= i < done && pred(#[trigger] orig[i]) implies exists|k: int|
                    0 <= k < kept@.len() && #[trigger] kept@[k] == orig[i] by {
                    if i < pre_done {
                        let k = choose|k: int| 0 <= k < pre_kept.len() && pre_kept[k] == orig[i];
                        assert(kept@[k] == orig[i]);
                    } else {
                        assert(keep);
                        assert(kept@[kept@.len() - 1] == orig[i]);
                    }
                }
            }
        }
        proof {
            assert(orig.subrange(0, orig.len() as int) =~= orig);
        }
        self.series = kept;
    }

    /// All candles of one asset, sorted ascending by bucket timestamp,
    /// trimmed to the most recent `limit` when one is given. Empty for an
    /// asset that is not tracked.
    pub fn get_klines_for_mint(&self, mint: &String, limit: Option<usize>) -> (r: Vec<KLineData>)
        requires
            manager_wf(*self),
        ensures
            klines_sorted(r@),
            forall|i: int| 0 <= i < r@.len() ==> candle_wf(#[trigger] r@[i]),
            ({
                let ss = self.series@;
                if exists|i: int| 0 <= i < ss.len() && (#[trigger] ss[i]).mint@ == mint@ {
                    let i = choose|i: int| 0 <= i < ss.len() && (#[trigger] ss[i]).mint@ == mint@;
                    let ks = ss[i].klines@;
                    match limit {
                        Some(l) => r@ == if ks.len() > l {
                            ks.subrange(ks.len() - l, ks.len() as int)
                        } else {
                            ks
                        },
                        None => r@ == ks,
                    }
                } else {
                    r@ == Seq::<KLineData>::empty()
                }
            }),
    {
        match self.find_series(mint) {
            None => Vec::new(),
            Some(i) => {
                proof {
                    let ss = self.series@;
                    let ci = choose|k: int| 0 <= k < ss.len() && (#[trigger] ss[k]).mint@ == mint@;
                    if ci != i as int {
                        assert(ss[ci].mint@ != ss[i as int].mint@);
                    }
                }
                let ks = &self.series[i].klines;
                let n = ks.len();
                let start: usize = match limit {
                    Some(l) => if n > l {
                        n - l
                    } else {
                        0
                    },
                    None => 0,
                };
                let mut out: Vec<KLineData> = Vec::new();
                let mut j: usize = start;
                while j < n
                    invariant
                        start <= j <= n,
                        n == ks@.len(),
                        out@ =~= ks@.subrange(start as int, j as int),
                    decreases n - j,
                {
                    let c = ks[j];
                    out.push(c);
                    proof {
                        assert(out@ =~= ks@.subrange(start as int, j + 1));
                    }
                    j += 1;
                }
                proof {
                    if start == 0 {
                        assert(ks@.subrange(0, n as int) =~= ks@);
                    }
                }
                out
            },
        }
    }
}

/// Total number of candles over all tracked assets.
pub open spec fn spec_total_klines(ss: Seq<MintSeries>) -> int
    decreases ss.len(),
{
    if ss.len() == 0 {
        0
    } else {
        spec_total_klines(ss.drop_last()) + ss.last().klines@.len()
    }
}

/// Number of tracked assets that have at least one candle.
pub open spec fn spec_mints_with_data(ss: Seq<MintSeries>) -> int
    decreases ss.len(),
{
    if ss.len() == 0 {
        0
    } else {
        spec_mints_with_data(ss.drop_last()) + if ss.last().klines@.len() > 0 {
            1int
        } else {
            0int
        }
    }
}

/// The most recent `lim` candles of one asset, most recent first, each
/// paired with the asset's mint.
pub open spec fn spec_latest_of(s: MintSeries, lim: nat) -> Seq<(String, KLineData)> {
    let n = s.klines@.len();
    let take = if lim < n {
        lim
    } else {
        n
    };
    Seq::new(take, |j: int| (s.mint, s.klines@[n - 1 - j]))
}

/// The most recent `lim` candles of every asset, assets in tracking order.
pub open spec fn spec_latest_all(ss: Seq<MintSeries>, lim: nat) -> Seq<(String, KLineData)>
    decreases ss.len(),
{
    if ss.len() == 0 {
        Seq::empty()
    } else {
        spec_latest_all(ss.drop_last(), lim) + spec_latest_of(ss.last(), lim)
    }
}

/// The (mint, activity marker) pair of every tracked series, in tracking
/// order.
pub open spec fn activity_pairs(ss: Seq<MintSeries>) -> Seq<(String, u64)> {
    Seq::new(ss.len(), |i: int| (ss[i].mint, ss[i].last_activity))
}

proof fn lemma_insert_to_multiset(s: Seq<(String, u64)>, x: (String, u64), p: int)
    requires
        0 <= p <= s.len(),
    ensures
        s.insert(p, x).to_multiset() == s.to_multiset().insert(x),
{
    broadcast use vstd::seq_lib::group_to_multiset_ensures;

    let head = s.subrange(0, p);
    let tail = s.subrange(p, s.len() as int);
    assert(s.insert(p, x) =~= head + (seq![x] + tail));
    vstd::seq_lib::lemma_multiset_commutative(head, seq![x] + tail);
    vstd::seq_lib::lemma_multiset_commutative(seq![x], tail);
    assert(s =~= head + tail);
    vstd::seq_lib::lemma_multiset_commutative(head, tail);
    assert(seq![x] =~= Seq::<(String, u64)>::empty().push(x));
    assert(Seq::<(String, u64)>::empty().to_multiset() =~= Multiset::<(String, u64)>::empty());
    assert(seq![x].to_multiset() =~= Multiset::<(String, u64)>::empty().insert(x));
    assert(s.insert(p, x).to_multiset() =~= s.to_multiset().insert(x));
}

/// Insert one pair into a list sorted descending by the marker, keeping the
/// order and adding exactly that pair.
fn sorted_insert_desc(out: &mut Vec<(String, u64)>, x: (String, u64))
    requires
        forall|a: int, b: int| 0 <= a < b < old(out)@.len() ==> old(out)@[a].1 >= old(out)@[b].1,
    ensures
        forall|a: int, b: int|
            0 <= a < b < final(out)@.len() ==> final(out)@[a].1 >= final(out)@[b].1,
        final(out)@.to_multiset() == old(out)@.to_multiset().insert(x),
{
    let ghost pre = out@;
    let mut p: usize = 0;
    while p < out.len() && out[p].1 >= x.1
        invariant
            p <= out@.len(),
            out@ == pre,
            forall|k: int| 0 <= k < p ==> (#[trigger] out@[k]).1 >= x.1,
        decreases out@.len() - p,
    {
        p += 1;
    }
    out.insert(p, x);
    proof {
        lemma_insert_to_multiset(pre, x, p as int);
        assert(forall|k: int| 0 <= k < p ==> out@[k] == pre[k]);
        assert(forall|k: int| p < k < out@.len() ==> out@[k] == pre[k - 1]);
        assert(out@[p as int] == x);
        assert forall|a: int, b: int| 0 <= a < b < out@.len() implies out@[a].1 >= out@[b].1 by {
            if b == p {
                assert(out@[a] == pre[a]);
            } else if a == p && b > p {
                assert(pre[p as int].1 < x.1);
                assert(pre[b - 1].1 <= pre[p as int].1);
            }
        }
    }
}

impl KLineManager {
    /// Aggregate counts: how many assets have candles, and how many candles
    /// exist in all (the candle count saturates at `usize::MAX`).
    pub fn get_stats(&self) -> (r: (usize, usize))
        ensures
            r.0 == spec_mints_with_data(self.series@),
            if spec_total_klines(self.series@) <= usize::MAX {
                r.1 == spec_total_klines(self.series@)
            } else {
                r.1 == usize::MAX
            },
    {
        let mut mints: usize = 0;
        let mut total: usize = 0;
        let mut i: usize = 0;
        while i < self.series.len()
            invariant
                i <= self.series@.len(),
                mints == spec_mints_with_data(self.series@.subrange(0, i as int)),
                mints <= i,
                if spec_total_klines(self.series@.subrange(0, i as int)) <= usize::MAX {
                    total == spec_total_klines(self.series@.subrange(0, i as int))
                } else {
                    total == usize::MAX
                },
            decreases self.series@.len() - i,
        {
            proof {
                assert(self.series@.subrange(0, i + 1).drop_last() =~= self.series@.subrange(
                    0,
                    i as int,
                ));
                assert(self.series@.subrange(0, i + 1).last() == self.series@[i as int]);
            }
            let n = self.series[i].klines.len();
            if n > 0 {
                mints += 1;
            }
            total = match total.checked_add(n) {
                Some(t) => t,
                None => usize::MAX,
            };
            i += 1;
        }
        proof {
            assert(self.series@.subrange(0, self.series@.len() as int) =~= self.series@);
        }
        (mints, total)
    }

    /// Every tracked asset with its activity marker, most recently active
    /// first: the result is a reordering of the (mint, marker) pairs of the
    /// tracked series, sorted by marker descending.
    pub fn get_active_mints(&self) -> (r: Vec<(String, u64)>)
        ensures
            forall|a: int, b: int| 0 <= a < b < r@.len() ==> r@[a].1 >= r@[b].1,
            r@.to_multiset() == activity_pairs(self.series@).to_multiset(),
    {
        let ss = &self.series;
        let mut out: Vec<(String, u64)> = Vec::new();
        proof {
            assert(activity_pairs(ss@.subrange(0, 0)) =~= out@);
        }
        let mut i: usize = 0;
        while i < ss.len()
            invariant
                i <= ss@.len(),
                forall|a: int, b: int| 0 <= a < b < out@.len() ==> out@[a].1 >= out@[b].1,
                out@.to_multiset() == activity_pairs(ss@.subrange(0, i as int)).to_multiset(),
            decreases ss@.len() - i,
        {
            let pair = (ss[i].mint.clone(), ss[i].last_activity);
            proof {
                broadcast use vstd::seq_lib::group_to_multiset_ensures;

                assert(activity_pairs(ss@.subrange(0, i as int)).push(pair) =~= activity_pairs(
                    ss@.subrange(0, i + 1),
                ));
            }
            sorted_insert_desc(&mut out, pair);
            i += 1;
        }
        proof {
            assert(ss@.subrange(0, ss@.len() as int) =~= ss@);
        }
        out
    }

    /// The most recent `limit_per_mint` candles of every tracked asset, most
    /// recent first within each asset, assets in tracking order.
    pub fn get_latest_klines(&self, limit_per_mint: usize) -> (r: Vec<(String, KLineData)>)
        ensures
            r@ == spec_latest_all(self.series@, limit_per_mint as nat),
    {
        let ss = &self.series;
        let mut out: Vec<(String, KLineData)> = Vec::new();
        let mut i: usize = 0;
        while i < ss.len()
            invariant
                i <= ss@.len(),
                out@ == spec_latest_all(ss@.subrange(0, i as int), limit_per_mint as nat),
            decreases ss@.len() - i,
        {
            let ghost pre = out@;
            let s = &ss[i];
            let n = s.klines.len();
            let take: usize = if limit_per_mint < n {
                limit_per_mint
            } else {
                n
            };
            let mut j: usize = 0;
            while j < take
                invariant
                    j <= take,
                    n == s.klines@.len(),
                    take == if limit_per_mint < n {
                        limit_per_mint as int
                    } else {
                        n as int
                    },
                    out@ == pre + spec_latest_of(*s, limit_per_mint as nat).subrange(0, j as int),
                decreases take - j,
            {
                let c = s.klines[n - 1 - j];
                out.push((s.mint.clone(), c));
                proof {
                    assert(spec_latest_of(*s, limit_per_mint as nat)[j as int] == (s.mint, c));
                    assert(out@ =~= pre + spec_latest_of(*s, limit_per_mint as nat).subrange(
                        0,
                        j + 1,
                    ));
                }
                j += 1;
            }
            proof {
                assert(spec_latest_of(*s, limit_per_mint as nat).subrange(
                    0,
                    spec_latest_of(*s, limit_per_mint as nat).len() as int,
                ) =~= spec_latest_of(*s, limit_per_mint as nat));
                assert(ss@.subrange(0, i + 1).drop_last() =~= ss@.subrange(0, i as int));
                assert(ss@.subrange(0, i + 1).last() == ss@[i as int]);
            }
            i += 1;
        }
        proof {
            assert(ss@.subrange(0, ss@.len() as int) =~= ss@);
        }
        out
    }
}

/// Index of the candle with bucket `ts` (`Ok`), or the position where a
/// candle with bucket `ts` belongs (`Err`).
fn find_bucket(ks: &Vec<KLineData>, ts: i64) -> (r: Result<usize, usize>)
    requires
        klines_sorted(ks@),
    ensures
        match r {
            Ok(i) => i < ks@.len() && ks@[i as int].timestamp == ts,
            Err(p) => {
                &&& p <= ks@.len()
                &&& forall|j: int| 0 <= j < p ==> (#[trigger] ks@[j]).timestamp < ts
                &&& forall|j: int| p <= j < ks@.len() ==> (#[trigger] ks@[j]).timestamp > ts
            },
        },
{
    let mut i: usize = 0;
    while i < ks.len() && ks[i].timestamp < ts
        invariant
            i <= ks@.len(),
            klines_sorted(ks@),
            forall|j: int| 0 <= j < i ==> (#[trigger] ks@[j]).timestamp < ts,
        decreases ks@.len() - i,
    {
        i += 1;
    }
    if i < ks.len() && ks[i].timestamp == ts {
        Ok(i)
    } else {
        proof {
            assert forall|j: int| i <= j < ks@.len() implies (#[trigger] ks@[j]).timestamp > ts by {
                if j == i {
                } else {
                    assert(ks@[i as int].timestamp < ks@[j].timestamp);
                }
            }
        }
        Err(i)
    }
}

/// Fold one trade into a sorted candle list: mutate the bucket in place or
/// insert a fresh candle. Fails only when an accumulator would overflow, in
/// which case nothing changes.
fn fold_into_klines(
    ks: &mut Vec<KLineData>,
    bucket_ts: i64,
    price: u128,
    sol: u64,
    tok: u64,
    is_buy: bool,
    now: u64,
) -> (r: Result<(), KlineError>)
    requires
        klines_sorted(old(ks)@),
        forall|i: int| 0 <= i < old(ks)@.len() ==> candle_wf(#[trigger] old(ks)@[i]),
        bucket_ts as int % 60 == 0,
        price <= MAX_PRICE_FP,
    ensures
        klines_sorted(final(ks)@),
        forall|i: int| 0 <= i < final(ks)@.len() ==> candle_wf(#[trigger] final(ks)@[i]),
        match r {
            Ok(()) => klines_folded(old(ks)@, final(ks)@, bucket_ts, price, sol, tok, is_buy, now),
            Err(e) => {
                &&& e == KlineError::VolumeOverflow
                &&& final(ks)@ == old(ks)@
            },
        },
        r is Err <==> exists|k: int|
            0 <= k < old(ks)@.len() && (#[trigger] old(ks)@[k]).timestamp == bucket_ts && !fold_fits(
                old(ks)@[k],
                sol,
                tok,
                is_buy,
            ),
{
    match find_bucket(ks, bucket_ts) {
        Ok(i) => {
            proof {
                assert forall|k: int|
                    0 <= k < ks@.len() && (#[trigger] ks@[k]).timestamp == bucket_ts implies k
                    == i as int by {
                    if k < i as int {
                        assert(ks@[k].timestamp < ks@[i as int].timestamp);
                    } else if k > i as int {
                        assert(ks@[i as int].timestamp < ks@[k].timestamp);
                    }
                }
            }
            let k = ks[i];
            let vol_sol = match k.volume_sol.checked_add(sol as u128) {
                Some(v) => v,
                None => {
                    return Err(KlineError::VolumeOverflow);
                },
            };
            let vol_tok = match k.volume_token.checked_add(tok as u128) {
                Some(v) => v,
                None => {
                    return Err(KlineError::VolumeOverflow);
                },
            };
            let net = if is_buy {
                match k.net_flow_sol.checked_add(sol as i128) {
                    Some(v) => v,
                    None => {
                        return Err(KlineError::VolumeOverflow);
                    },
                }
            } else {
                match k.net_flow_sol.checked_sub(sol as i128) {
                    Some(v) => v,
                    None => {
                        return Err(KlineError::VolumeOverflow);
                    },
                }
            };
            let folded = KLineData {
                timestamp: k.timestamp,
                open: k.open,
                high: if price > k.high {
                    price
                } else {
                    k.high
                },
                low: if price < k.low {
                    price
                } else {
                    k.low
                },
                close: price,
                volume_sol: vol_sol,
                volume_token: vol_tok,
                net_flow_sol: net,
                last_update: now,
            };
            ks.set(i, folded);
            proof {
                assert(final(ks)@ == old(ks)@.update(
                    i as int,
                    spec_fold_candle(old(ks)@[i as int], price, sol, tok, is_buy, now),
                ));
                let ki = choose|k: int|
                    0 <= k < old(ks)@.len() && (#[trigger] old(ks)@[k]).timestamp == bucket_ts;
                assert(ki == i);
            }
            Ok(())
        },
        Err(p) => {
            let cand = KLineData {
                timestamp: bucket_ts,
                open: price,
                high: price,
                low: price,
                close: price,
                volume_sol: sol as u128,
                volume_token: tok as u128,
                net_flow_sol: if is_buy {
                    sol as i128
                } else {
                    -(sol as i128)
                },
                last_update: now,
            };
            ks.insert(p, cand);
            proof {
                assert(cand == spec_new_candle(bucket_ts, price, sol, tok, is_buy, now));
                assert(final(ks)@ == old(ks)@.insert(p as int, cand));
                assert(final(ks)@ =~= old(ks)@.subrange(0, p as int) + seq![cand]
                    + old(ks)@.subrange(p as int, old(ks)@.len() as int));
                assert forall|i: int, j: int|
                    0 <= i < j < final(ks)@.len() implies final(ks)@[i].timestamp
                    < final(ks)@[j].timestamp by {}
            }
            Ok(())
        },
    }
}

} // verus!
