//! Decoder and aggregation pipeline for the bonding-curve program family:
//! scan a notification's log lines for buy/sell instruction markers, decode
//! every qualifying base64 program-data payload at its fixed byte layout,
//! derive display quantities, and fold accepted trades into the candle
//! engine.

use crate::encoding::{b64_decode, base58_encoding, base64_decoding, bs58_encode};
use crate::kline::{
    fold_blocked, manager_wf, spec_series_unchanged, spec_trade_added, KLineManager, KlineError,
};
use crate::numeric::{price_fp, spec_price_fp, MAX_PRICE_FP};
use crate::text::{spec_contains, spec_starts_with, str_contains, str_starts_with};
use vstd::bytes::{spec_u64_from_le_bytes, u64_from_le_bytes};
use vstd::prelude::*;
use vstd::slice::slice_subrange;
use vstd::string::*;

verus! {

/// One notification from the log stream, reduced to the plain values the
/// decoders read: transaction signature, slot, whether the error field was
/// null, and the ordered program log lines.
pub struct LogsNotification {
    pub signature: String,
    pub slot: u64,
    pub err_is_null: bool,
    pub logs: Vec<String>,
}

/// One decoded bonding-curve trade.
#[derive(Debug)]
pub struct TradeEvent {
    pub signature: String,
    pub slot: u64,
    pub success: bool,
    pub mint: String,
    pub user: String,
    pub sol_amount: u64,
    pub token_amount: u64,
    pub is_buy: bool,
    pub timestamp: i64,
    pub virtual_sol_reserves: u64,
    pub virtual_token_reserves: u64,
    pub real_sol_reserves: u64,
    pub real_token_reserves: u64,
}

/// Display quantities derived from a trade. The `_formatted` amounts are
/// fixed-point: SOL amounts carry scale `10^9` (the raw lamports), token
/// amounts scale `10^6` (the raw units); prices and the market cap carry
/// scale `10^12`.
#[derive(Clone, Copy, Debug, PartialEq, Eq, Structural)]
pub struct TradeDetails {
    pub sol_amount_formatted: u64,
    pub token_amount_formatted: u64,
    pub virtual_sol_formatted: u64,
    pub virtual_token_formatted: u64,
    pub real_sol_formatted: u64,
    pub real_token_formatted: u64,
    pub price: u128,
    pub market_cap: u128,
}

/// The log line marking a buy instruction.
pub open spec fn buy_marker() -> Seq<char> {
    "Program log: Instruction: Buy"@
}

/// The log line marking a sell instruction.
pub open spec fn sell_marker() -> Seq<char> {
    "Program log: Instruction: Sell"@
}

/// The prefix of a program-data log line.
pub open spec fn data_prefix() -> Seq<char> {
    "Program data: "@
}

/// The marker of a failed instruction.
pub open spec fn failed_marker() -> Seq<char> {
    "failed"@
}

/// Some log line of `logs` contains `needle`.
pub open spec fn some_log_contains(logs: Seq<Seq<char>>, needle: Seq<char>) -> bool {
    exists|i: int| 0 <= i < logs.len() && spec_contains(#[trigger] logs[i], needle)
}

/// A notification mentions the buy or sell instruction of the program
/// family.
pub open spec fn spec_has_trade_instruction(logs: Seq<Seq<char>>) -> bool {
    some_log_contains(logs, buy_marker()) || some_log_contains(logs, sell_marker())
}

/// The trade direction after one log line: a buy marker sets it, a sell
/// marker clears it, any other line keeps the current direction.
pub open spec fn spec_log_direction(line: Seq<char>, cur: bool) -> bool {
    if spec_contains(line, buy_marker()) {
        true
    } else if spec_contains(line, sell_marker()) {
        false
    } else {
        cur
    }
}

/// The trade direction after scanning all of `logs` in order, starting from
/// "sell".
pub open spec fn spec_scan_direction(logs: Seq<Seq<char>>) -> bool
    decreases logs.len(),
{
    if logs.len() == 0 {
        false
    } else {
        spec_log_direction(logs.last(), spec_scan_direction(logs.drop_last()))
    }
}

/// The qualifying payloads of a log scan, in log order: for every
/// program-data line whose base64 payload decodes and is long enough, the
/// direction in force at that line paired with the decoded bytes.
pub open spec fn spec_scan_events(logs: Seq<Seq<char>>) -> Seq<(bool, Seq<u8>)>
    decreases logs.len(),
{
    if logs.len() == 0 {
        Seq::empty()
    } else {
        let pre = spec_scan_events(logs.drop_last());
        let line = logs.last();
        let dir = spec_log_direction(line, spec_scan_direction(logs.drop_last()));
        if spec_starts_with(line, data_prefix()) {
            match base64_decoding(line.subrange(14, line.len() as int)) {
                Some(bytes) => if bytes.len() >= 129 {
                    pre.push((dir, bytes))
                } else {
                    pre
                },
                None => pre,
            }
        } else {
            pre
        }
    }
}

/// The wrapping reinterpretation of a `u64` as a signed 64-bit value.
pub open spec fn spec_u64_as_i64(x: u64) -> i64 {
    if x >= 0x8000_0000_0000_0000 {
        (x - 0x1_0000_0000_0000_0000) as i64
    } else {
        x as i64
    }
}

/// Reinterpret a `u64` as the signed 64-bit value with the same bit pattern.
pub fn u64_as_i64(x: u64) -> (r: i64)
    ensures
        r == spec_u64_as_i64(x),
{
    if x >= 0x8000_0000_0000_0000 {
        ((x as i128) - 0x1_0000_0000_0000_0000i128) as i64
    } else {
        x as i64
    }
}

/// The fields of a bonding-curve trade payload stand at their fixed offsets
/// in the decoded bytes: an 8-byte discriminator, the mint key, the two
/// amounts, one direction byte (unused: the direction comes from the log
/// markers), the user key, the timestamp, and four reserve snapshots, all
/// integers little-endian.
pub open spec fn pump_payload_wf(e: TradeEvent, b: Seq<u8>) -> bool {
    &&& e.mint@ == base58_encoding(b.subrange(8, 40))
    &&& e.sol_amount == spec_u64_from_le_bytes(b.subrange(40, 48))
    &&& e.token_amount == spec_u64_from_le_bytes(b.subrange(48, 56))
    &&& e.user@ == base58_encoding(b.subrange(57, 89))
    &&& e.timestamp == spec_u64_as_i64(spec_u64_from_le_bytes(b.subrange(89, 97)))
    &&& e.virtual_sol_reserves == spec_u64_from_le_bytes(b.subrange(97, 105))
    &&& e.virtual_token_reserves == spec_u64_from_le_bytes(b.subrange(105, 113))
    &&& e.real_sol_reserves == spec_u64_from_le_bytes(b.subrange(113, 121))
    &&& e.real_token_reserves == spec_u64_from_le_bytes(b.subrange(121, 129))
}

/// A decoded event carries the notification's envelope and one scanned
/// payload.
pub open spec fn trade_event_matches(e: TradeEvent, ev: (bool, Seq<u8>), n: LogsNotification) -> bool {
    &&& e.signature@ == n.signature@
    &&& e.slot == n.slot
    &&& e.success == n.err_is_null
    &&& e.is_buy == ev.0
    &&& pump_payload_wf(e, ev.1)
}

/// Decode one payload's fixed byte layout into a trade event carrying the
/// given envelope. Yields nothing exactly when the payload is shorter than
/// the 129 bytes the layout needs.
pub fn parse_pump_payload(
    b: &[u8],
    signature: &String,
    slot: u64,
    success: bool,
    is_buy: bool,
) -> (r: Option<TradeEvent>)
    ensures
        r is Some <==> b@.len() >= 129,
        match r {
            Some(e) => {
                &&& e.signature@ == signature@
                &&& e.slot == slot
                &&& e.success == success
                &&& e.is_buy == is_buy
                &&& pump_payload_wf(e, b@)
            },
            None => true,
        },
{
    if b.len() < 129 {
        return None;
    }
    let mint = bs58_encode(slice_subrange(b, 8, 40));
    let sol_amount = u64_from_le_bytes(slice_subrange(b, 40, 48));
    let token_amount = u64_from_le_bytes(slice_subrange(b, 48, 56));
    let user = bs58_encode(slice_subrange(b, 57, 89));
    let timestamp = u64_as_i64(u64_from_le_bytes(slice_subrange(b, 89, 97)));
    let virtual_sol_reserves = u64_from_le_bytes(slice_subrange(b, 97, 105));
    let virtual_token_reserves = u64_from_le_bytes(slice_subrange(b, 105, 113));
    let real_sol_reserves = u64_from_le_bytes(slice_subrange(b, 113, 121));
    let real_token_reserves = u64_from_le_bytes(slice_subrange(b, 121, 129));
    Some(
        TradeEvent {
            signature: signature.clone(),
            slot,
            success,
            mint,
            user,
            sol_amount,
            token_amount,
            is_buy,
            timestamp,
            virtual_sol_reserves,
            virtual_token_reserves,
            real_sol_reserves,
            real_token_reserves,
        },
    )
}

/// Decode a program-data string: base64, then the fixed byte layout. The
/// tuple carries mint, user, SOL amount, token amount, timestamp, and the
/// four reserve snapshots.
pub fn decode_and_parse_program_data(program_data: &str) -> (r: Option<
    (String, String, u64, u64, i64, u64, u64, u64, u64),
>)
    ensures
        match base64_decoding(program_data@) {
            None => r is None,
            Some(bytes) => {
                if bytes.len() >= 129 {
                    match r {
                        Some(t) => {
                            &&& t.0@ == base58_encoding(bytes.subrange(8, 40))
                            &&& t.1@ == base58_encoding(bytes.subrange(57, 89))
                            &&& t.2 == spec_u64_from_le_bytes(bytes.subrange(40, 48))
                            &&& t.3 == spec_u64_from_le_bytes(bytes.subrange(48, 56))
                            &&& t.4 == spec_u64_as_i64(spec_u64_from_le_bytes(bytes.subrange(89, 97)))
                            &&& t.5 == spec_u64_from_le_bytes(bytes.subrange(97, 105))
                            &&& t.6 == spec_u64_from_le_bytes(bytes.subrange(105, 113))
                            &&& t.7 == spec_u64_from_le_bytes(bytes.subrange(113, 121))
                            &&& t.8 == spec_u64_from_le_bytes(bytes.subrange(121, 129))
                        },
                        None => false,
                    }
                } else {
                    r is None
                }
            },
        },
{
    let decoded = match b64_decode(program_data) {
        Some(v) => v,
        None => {
            return None;
        },
    };
    let sig: String = String::new();
    match parse_pump_payload(decoded.as_slice(), &sig, 0, false, false) {
        Some(e) => Some(
            (
                e.mint,
                e.user,
                e.sol_amount,
                e.token_amount,
                e.timestamp,
                e.virtual_sol_reserves,
                e.virtual_token_reserves,
                e.real_sol_reserves,
                e.real_token_reserves,
            ),
        ),
        None => None,
    }
}

/// The log lines of a notification, as character sequences.
pub open spec fn spec_log_views(n: LogsNotification) -> Seq<Seq<char>> {
    n.logs@.map_values(|l: String| l@)
}

/// Whether a notification mentions the buy or sell instruction at all.
pub fn contains_pump_instruction(response: &LogsNotification) -> (r: bool)
    ensures
        r == spec_has_trade_instruction(spec_log_views(*response)),
{
    let ghost logs = spec_log_views(*response);
    let mut i: usize = 0;
    while i < response.logs.len()
        invariant
            i <= response.logs@.len(),
            logs == spec_log_views(*response),
            logs.len() == response.logs@.len(),
            forall|j: int|
                0 <= j < i ==> !spec_contains(#[trigger] logs[j], buy_marker()) && !spec_contains(
                    logs[j],
                    sell_marker(),
                ),
        decreases response.logs@.len() - i,
    {
        proof {
            assert(logs[i as int] == response.logs@[i as int]@);
        }
        let line = &response.logs[i];
        if str_contains(line.as_str(), "Program log: Instruction: Buy") || str_contains(
            line.as_str(),
            "Program log: Instruction: Sell",
        ) {
            return true;
        }
        i += 1;
    }
    false
}

/// Whether any log line signals a failed instruction.
pub(crate) fn contains_failed(response: &LogsNotification) -> (r: bool)
    ensures
        r == some_log_contains(spec_log_views(*response), failed_marker()),
{
    let ghost logs = spec_log_views(*response);
    let mut i: usize = 0;
    while i < response.logs.len()
        invariant
            i <= response.logs@.len(),
            logs == spec_log_views(*response),
            logs.len() == response.logs@.len(),
            forall|j: int| 0 <= j < i ==> !spec_contains(#[trigger] logs[j], failed_marker()),
        decreases response.logs@.len() - i,
    {
        proof {
            assert(logs[i as int] == response.logs@[i as int]@);
        }
        if str_contains(response.logs[i].as_str(), "failed") {
            return true;
        }
        i += 1;
    }
    false
}

/// Scan a notification for bonding-curve trades: reject it whole when no
/// buy/sell marker is present or any instruction failed; otherwise decode
/// every qualifying program-data payload under the direction in force at its
/// line. `None` exactly when nothing qualifies.
pub fn parse_trade_event(response: &LogsNotification) -> (r: Option<Vec<TradeEvent>>)
    ensures
        ({
            let logs = spec_log_views(*response);
            let evs = spec_scan_events(logs);
            if !spec_has_trade_instruction(logs) || some_log_contains(logs, failed_marker())
                || evs.len() == 0 {
                r is None
            } else {
                match r {
                    Some(v) => {
                        &&& v@.len() == evs.len()
                        &&& forall|i: int|
                            0 <= i < evs.len() ==> trade_event_matches(
                                #[trigger] v@[i],
                                evs[i],
                                *response,
                            )
                    },
                    None => false,
                }
            }
        }),
{
    let ghost logs = spec_log_views(*response);
    if !contains_pump_instruction(response) {
        return None;
    }
    if contains_failed(response) {
        return None;
    }
    let mut events: Vec<TradeEvent> = Vec::new();
    let mut current_is_buy = false;
    let mut i: usize = 0;
    while i < response.logs.len()
        invariant
            i <= response.logs@.len(),
            logs == spec_log_views(*response),
            logs.len() == response.logs@.len(),
            current_is_buy == spec_scan_direction(logs.subrange(0, i as int)),
            events@.len() == spec_scan_events(logs.subrange(0, i as int)).len(),
            forall|k: int|
                0 <= k < events@.len() ==> trade_event_matches(
                    #[trigger] events@[k],
                    spec_scan_events(logs.subrange(0, i as int))[k],
                    *response,
                ),
        decreases response.logs@.len() - i,
    {
        proof {
            assert(logs[i as int] == response.logs@[i as int]@);
            assert(logs.subrange(0, i + 1).drop_last() =~= logs.subrange(0, i as int));
            assert(logs.subrange(0, i + 1).last() == logs[i as int]);
        }
        let line = &response.logs[i];
        if str_contains(line.as_str(), "Program log: Instruction: Buy") {
            current_is_buy = true;
        } else if str_contains(line.as_str(), "Program log: Instruction: Sell") {
            current_is_buy = false;
        }
        if str_starts_with(line.as_str(), "Program data: ") {
            proof {
                reveal_strlit("Program data: ");
                assert(data_prefix().len() == 14);
            }
            let n = line.as_str().unicode_len();
            let data_str = line.as_str().substring_char(14, n);
            proof {
                assert(data_str@ == logs[i as int].subrange(14, logs[i as int].len() as int));
            }
            let decoded = b64_decode(data_str);
            match decoded {
                Some(bytes) => {
                    match parse_pump_payload(
                        bytes.as_slice(),
                        &response.signature,
                        response.slot,
                        response.err_is_null,
                        current_is_buy,
                    ) {
                        Some(e) => {
                            events.push(e);
                        },
                        None => {},
                    }
                },
                None => {},
            }
        }
        i += 1;
    }
    proof {
        assert(logs.subrange(0, logs.len() as int) =~= logs);
    }
    if events.len() == 0 {
        None
    } else {
        Some(events)
    }
}

/// Derive the display quantities of a trade: the fixed-point price (SOL per
/// token, zero when the token amount is zero) and the market capitalization
/// at the fixed total supply of one billion tokens.
pub fn calculate_trade_details(trade_event: &TradeEvent) -> (r: Option<TradeDetails>)
    ensures
        match r {
            Some(d) => {
                &&& d.sol_amount_formatted == trade_event.sol_amount
                &&& d.token_amount_formatted == trade_event.token_amount
                &&& d.virtual_sol_formatted == trade_event.virtual_sol_reserves
                &&& d.virtual_token_formatted == trade_event.virtual_token_reserves
                &&& d.real_sol_formatted == trade_event.real_sol_reserves
                &&& d.real_token_formatted == trade_event.real_token_reserves
                &&& d.price == spec_price_fp(trade_event.sol_amount, trade_event.token_amount)
                &&& d.market_cap == d.price * 1_000_000_000
            },
            None => false,
        },
{
    let price = price_fp(trade_event.sol_amount, trade_event.token_amount);
    proof {
        assert(price * 1_000_000_000 <= MAX_PRICE_FP * 1_000_000_000) by (nonlinear_arith)
            requires 0 <= price <= MAX_PRICE_FP;
        assert(MAX_PRICE_FP * 1_000_000_000 < u128::MAX) by (nonlinear_arith);
    }
    let market_cap: u128 = price * 1_000_000_000u128;
    Some(
        TradeDetails {
            sol_amount_formatted: trade_event.sol_amount,
            token_amount_formatted: trade_event.token_amount,
            virtual_sol_formatted: trade_event.virtual_sol_reserves,
            virtual_token_formatted: trade_event.virtual_token_reserves,
            real_sol_formatted: trade_event.real_sol_reserves,
            real_token_formatted: trade_event.real_token_reserves,
            price,
            market_cap,
        },
    )
}

/// The effect of one decoded trade on the tracked series: a trade with zero
/// price or a SOL amount under the configured minimum is dropped, as is one
/// with a timestamp at the very bottom of the representable range; any other
/// is folded into its (asset, minute) candle — except exactly when that
/// candle's accumulators cannot absorb the trade, which leaves the data
/// unchanged.
pub open spec fn spec_trade_processed(
    ss: Seq<crate::kline::MintSeries>,
    ts: Seq<crate::kline::MintSeries>,
    e: TradeEvent,
    min_sol_lamports: u64,
    now: u64,
) -> bool {
    let price = spec_price_fp(e.sol_amount, e.token_amount);
    if price == 0 || e.sol_amount < min_sol_lamports || e.timestamp <= i64::MIN + 60 {
        ts == ss
    } else if fold_blocked(ss, e.mint@, e.timestamp, e.sol_amount, e.token_amount, e.is_buy) {
        spec_series_unchanged(ss, ts)
    } else {
        spec_trade_added(
            ss,
            ts,
            e.mint@,
            e.timestamp,
            price,
            e.sol_amount,
            e.token_amount,
            e.is_buy,
            now,
        )
    }
}

/// The tracked series after a whole list of decoded trades: some chain of
/// intermediate states leads from `ss` to `ts`, advancing by one processed
/// trade at a time, in list order.
pub open spec fn spec_trades_processed(
    ss: Seq<crate::kline::MintSeries>,
    ts: Seq<crate::kline::MintSeries>,
    evs: Seq<TradeEvent>,
    min_sol_lamports: u64,
    now: u64,
) -> bool {
    exists|chain: Seq<Seq<crate::kline::MintSeries>>|
        {
            &&& #[trigger] chain.len() == evs.len() + 1
            &&& chain.first() == ss
            &&& chain.last() == ts
            &&& forall|i: int|
                0 <= i < evs.len() ==> spec_trade_processed(
                    #[trigger] chain[i],
                    chain[i + 1],
                    evs[i],
                    min_sol_lamports,
                    now,
                )
        }
}

/// Filter one decoded trade and fold it: drop it when its price is zero (to
/// keep candle extremes meaningful), when its SOL amount is below
/// `min_sol_lamports` (the micro-trade filter), or when its timestamp is at
/// the very bottom of the range; otherwise fold it into the candle engine.
/// The fold fails — changing nothing — exactly when the trade's bucket
/// already exists and cannot absorb the amounts.
pub fn process_trade_event(
    trade_event: &TradeEvent,
    manager: &mut KLineManager,
    min_sol_lamports: u64,
    now: u64,
) -> (r: Result<(), KlineError>)
    requires
        manager_wf(*old(manager)),
    ensures
        manager_wf(*final(manager)),
        final(manager).idle_timeout_secs == old(manager).idle_timeout_secs,
        ({
            let price = spec_price_fp(trade_event.sol_amount, trade_event.token_amount);
            if price == 0 || trade_event.sol_amount < min_sol_lamports || trade_event.timestamp
                <= i64::MIN + 60 {
                r is Ok && *final(manager) == *old(manager)
            } else {
                &&& match r {
                    Ok(()) => spec_trade_added(
                        old(manager).series@,
                        final(manager).series@,
                        trade_event.mint@,
                        trade_event.timestamp,
                        price,
                        trade_event.sol_amount,
                        trade_event.token_amount,
                        trade_event.is_buy,
                        now,
                    ),
                    Err(e) => e == KlineError::VolumeOverflow && spec_series_unchanged(
                        old(manager).series@,
                        final(manager).series@,
                    ),
                }
                &&& (r is Err <==> fold_blocked(
                    old(manager).series@,
                    trade_event.mint@,
                    trade_event.timestamp,
                    trade_event.sol_amount,
                    trade_event.token_amount,
                    trade_event.is_buy,
                ))
            }
        }),
        r is Ok || r == Result::<(), KlineError>::Err(KlineError::VolumeOverflow),
{
    let price = price_fp(trade_event.sol_amount, trade_event.token_amount);
    if price == 0 {
        return Ok(());
    }
    if trade_event.sol_amount < min_sol_lamports {
        return Ok(());
    }
    if trade_event.timestamp <= i64::MIN + 60 {
        return Ok(());
    }
    manager.add_trade(
        &trade_event.mint,
        trade_event.timestamp,
        price,
        trade_event.sol_amount,
        trade_event.token_amount,
        trade_event.is_buy,
        now,
    )
}

/// Handle one notification end to end: parse it, then filter and fold every
/// decoded trade in log order. A trade whose fold overflows is dropped;
/// handling itself always succeeds.
pub fn handle_pump_message(
    response: &LogsNotification,
    manager: &mut KLineManager,
    min_sol_lamports: u64,
    now: u64,
) -> (r: Result<(), KlineError>)
    requires
        manager_wf(*old(manager)),
    ensures
        manager_wf(*final(manager)),
        final(manager).idle_timeout_secs == old(manager).idle_timeout_secs,
        r is Ok,
        ({
            let logs = spec_log_views(*response);
            let evs = spec_scan_events(logs);
            if !spec_has_trade_instruction(logs) || some_log_contains(logs, failed_marker())
                || evs.len() == 0 {
                *final(manager) == *old(manager)
            } else {
                exists|tevs: Seq<TradeEvent>|
                    {
                        &&& tevs.len() == evs.len()
                        &&& forall|i: int|
                            0 <= i < evs.len() ==> trade_event_matches(
                                #[trigger] tevs[i],
                                evs[i],
                                *response,
                            )
                        &&& #[trigger] spec_trades_processed(
                            old(manager).series@,
                            final(manager).series@,
                            tevs,
                            min_sol_lamports,
                            now,
                        )
                    }
            }
        }),
{
    match parse_trade_event(response) {
        None => Ok(()),
        Some(events) => {
            let ghost mut chain: Seq<Seq<crate::kline::MintSeries>> = seq![manager.series@];
            let mut i: usize = 0;
            while i < events.len()
                invariant
                    i <= events@.len(),
                    manager_wf(*manager),
                    manager.idle_timeout_secs == old(manager).idle_timeout_secs,
                    chain.len() == i + 1,
                    chain.first() == old(manager).series@,
                    chain.last() == manager.series@,
                    forall|k: int|
                        0 <= k < i ==> spec_trade_processed(
                            #[trigger] chain[k],
                            chain[k + 1],
                            events@[k],
                            min_sol_lamports,
                            now,
                        ),
                decreases events@.len() - i,
            {
                let ghost mid = manager.series@;
                let res = process_trade_event(&events[i], manager, min_sol_lamports, now);
                proof {
                    if res is Err {
                        assert(spec_series_unchanged(mid, manager.series@));
                    }
                    assert(spec_trade_processed(
                        mid,
                        manager.series@,
                        events@[i as int],
                        min_sol_lamports,
                        now,
                    ));
                    chain = chain.push(manager.series@);
                }
                i += 1;
            }
            proof {
                assert(chain.len() == events@.len() + 1);
                assert(spec_trades_processed(
                    old(manager).series@,
                    manager.series@,
                    events@,
                    min_sol_lamports,
                    now,
                ));
            }
            Ok(())
        },
    }
}

} // verus!
