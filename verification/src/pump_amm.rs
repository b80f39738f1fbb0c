//! Decoder and aggregation pipeline for the paired automated-market-maker
//! program family. An AMM trade references a pool, which must be resolved to
//! the tracked asset mint (the non-wrapped-SOL side of the pool) before the
//! trade can be folded.

use crate::encoding::{b64_decode, base58_encoding, base64_decoding, bs58_encode};
use crate::kline::{
    fold_blocked, manager_wf, spec_series_unchanged, spec_trade_added, KLineManager, KlineError,
};
use crate::numeric::{price_fp, spec_price_fp, MAX_PRICE_FP};
use crate::pump::{
    buy_marker, contains_failed, data_prefix, failed_marker, sell_marker, spec_log_views,
    spec_u64_as_i64, u64_as_i64, LogsNotification,
};
use crate::text::{spec_contains, spec_starts_with, str_contains, str_starts_with};
use vstd::bytes::{spec_u64_from_le_bytes, u64_from_le_bytes};
use vstd::prelude::*;
use vstd::slice::slice_subrange;
use vstd::string::*;

verus! {

/// The mint address of wrapped native SOL.
pub open spec fn wsol_mint() -> Seq<char> {
    "So11111111111111111111111111111111111111112"@
}

/// The mint address of wrapped native SOL.
pub fn wsol_mint_id() -> (r: &'static str)
    ensures
        r@ == wsol_mint(),
{
    "So11111111111111111111111111111111111111112"
}

/// The address of the bonding-curve program.
pub open spec fn pump_program() -> Seq<char> {
    "6EF8rrecthR5Dkzon8Nwu78hRvfCKubJ14M5uBEwF6P"@
}

/// The address of the bonding-curve program.
pub fn pump_program_id() -> (r: &'static str)
    ensures
        r@ == pump_program(),
{
    "6EF8rrecthR5Dkzon8Nwu78hRvfCKubJ14M5uBEwF6P"
}

/// The address of the AMM program.
pub open spec fn pump_amm_program() -> Seq<char> {
    "pAMMBay6oceH9fJKBRHGP5D4bD4sWpmSwMn52FMfXEA"@
}

/// The address of the AMM program.
pub fn pump_amm_program_id() -> (r: &'static str)
    ensures
        r@ == pump_amm_program(),
{
    "pAMMBay6oceH9fJKBRHGP5D4bD4sWpmSwMn52FMfXEA"
}

/// The log line marking an invocation of the AMM program.
pub open spec fn amm_invoke_marker() -> Seq<char> {
    "Program pAMMBay6oceH9fJKBRHGP5D4bD4sWpmSwMn52FMfXEA invoke"@
}

/// A pool's two sides, resolved from on-chain account data.
#[derive(Debug)]
pub struct AmmPoolData {
    pub base_token_mint: String,
    pub quote_token_mint: String,
}

impl AmmPoolData {
    /// The tracked asset mint of the pool: whichever side is not wrapped
    /// native SOL, and nothing when neither side is.
    pub fn get_mint(&self) -> (r: Option<String>)
        ensures
            self.base_token_mint@ == wsol_mint() ==> (r matches Some(m) && m@
                == self.quote_token_mint@),
            self.base_token_mint@ != wsol_mint() && self.quote_token_mint@ == wsol_mint() ==> (
            r matches Some(m) && m@ == self.base_token_mint@),
            self.base_token_mint@ != wsol_mint() && self.quote_token_mint@ != wsol_mint() ==> r
                is None,
    {
        let wsol: String = wsol_mint_id().to_owned();
        if self.base_token_mint == wsol {
            Some(self.quote_token_mint.clone())
        } else if self.quote_token_mint == wsol {
            Some(self.base_token_mint.clone())
        } else {
            None
        }
    }
}

/// One decoded AMM trade.
#[derive(Debug)]
pub struct AmmTradeEvent {
    pub signature: String,
    pub slot: u64,
    pub success: bool,
    pub pool: String,
    pub user: String,
    pub token_amount: u64,
    pub sol_amount: u64,
    pub is_buy: bool,
    pub timestamp: i64,
    pub pool_base_token_reserves: u64,
    pub pool_quote_token_reserves: u64,
    pub lp_fee: u64,
    pub protocol_fee: u64,
    pub coin_creator_fee: u64,
}

/// Display quantities derived from an AMM trade, fixed-point as in
/// `crate::pump::TradeDetails`: SOL-denominated amounts carry scale `10^9`,
/// token amounts scale `10^6`, the price scale `10^12`.
#[derive(Clone, Copy, Debug, PartialEq, Eq, Structural)]
pub struct AmmTradeDetails {
    pub sol_amount_formatted: u64,
    pub token_amount_formatted: u64,
    pub pool_base_formatted: u64,
    pub pool_quote_formatted: u64,
    pub lp_fee_formatted: u64,
    pub protocol_fee_formatted: u64,
    pub creator_fee_formatted: u64,
    pub price: u128,
}

/// The first buy or sell marker of the logs, scanning first to last,
/// decides the direction of the whole transaction.
pub open spec fn spec_amm_direction(logs: Seq<Seq<char>>) -> Option<bool>
    decreases logs.len(),
{
    if logs.len() == 0 {
        None
    } else if spec_contains(logs.first(), buy_marker()) {
        Some(true)
    } else if spec_contains(logs.first(), sell_marker()) {
        Some(false)
    } else {
        spec_amm_direction(logs.drop_first())
    }
}

/// The first program-data line whose payload decodes as base64 to at least
/// 200 bytes, scanning first to last.
pub open spec fn spec_first_amm_payload(logs: Seq<Seq<char>>) -> Option<Seq<u8>>
    decreases logs.len(),
{
    if logs.len() == 0 {
        None
    } else {
        let line = logs.first();
        if spec_starts_with(line, data_prefix()) && (match base64_decoding(
            line.subrange(14, line.len() as int),
        ) {
            Some(bytes) => bytes.len() >= 200,
            None => false,
        }) {
            base64_decoding(line.subrange(14, line.len() as int))
        } else {
            spec_first_amm_payload(logs.drop_first())
        }
    }
}

/// The SOL-side amount of an AMM payload: the quote-denominated amount at
/// its fixed offset. Under the buy direction it is the quote amount paid in,
/// under sell the quote amount taken out; the direction comes from the log
/// markers, never from the payload.
pub open spec fn amm_sol_amount(b: Seq<u8>) -> u64 {
    spec_u64_from_le_bytes(b.subrange(64, 72))
}

/// The token-side amount of an AMM payload: the base-denominated amount at
/// its fixed offset (bought under the buy direction, sold under sell).
pub open spec fn amm_token_amount(b: Seq<u8>) -> u64 {
    spec_u64_from_le_bytes(b.subrange(16, 24))
}

/// The fields of an AMM trade payload at their fixed offsets: timestamp,
/// the base (token) amount, pool reserves, the quote (SOL) amount, the fee
/// breakdown, and the pool and user keys, all integers little-endian. The
/// externally determined direction flag says whether the amounts were bought
/// or sold; nothing about their roles is inferred from the payload. The
/// creator fee sits past the 200-byte minimum and is zero when the payload
/// ends before it.
pub open spec fn amm_payload_wf(e: AmmTradeEvent, b: Seq<u8>) -> bool {
    &&& e.timestamp == spec_u64_as_i64(spec_u64_from_le_bytes(b.subrange(8, 16)))
    &&& e.pool_base_token_reserves == spec_u64_from_le_bytes(b.subrange(48, 56))
    &&& e.pool_quote_token_reserves == spec_u64_from_le_bytes(b.subrange(56, 64))
    &&& e.sol_amount == amm_sol_amount(b)
    &&& e.token_amount == amm_token_amount(b)
    &&& e.lp_fee == spec_u64_from_le_bytes(b.subrange(80, 88))
    &&& e.protocol_fee == spec_u64_from_le_bytes(b.subrange(96, 104))
    &&& e.pool@ == base58_encoding(b.subrange(120, 152))
    &&& e.user@ == base58_encoding(b.subrange(152, 184))
    &&& e.coin_creator_fee == if b.len() >= 360 {
        spec_u64_from_le_bytes(b.subrange(352, 360))
    } else {
        0u64
    }
}

/// Decode one AMM payload's fixed byte layout into a trade event carrying
/// the given envelope. Yields nothing exactly when the payload is shorter
/// than the 200 bytes the layout needs.
pub fn parse_amm_payload(
    b: &[u8],
    signature: &String,
    slot: u64,
    success: bool,
    is_buy: bool,
) -> (r: Option<AmmTradeEvent>)
    ensures
        r is Some <==> b@.len() >= 200,
        match r {
            Some(e) => {
                &&& e.signature@ == signature@
                &&& e.slot == slot
                &&& e.success == success
                &&& e.is_buy == is_buy
                &&& amm_payload_wf(e, b@)
            },
            None => true,
        },
{
    if b.len() < 200 {
        return None;
    }
    let timestamp = u64_as_i64(u64_from_le_bytes(slice_subrange(b, 8, 16)));
    let base_amount = u64_from_le_bytes(slice_subrange(b, 16, 24));
    let pool_base = u64_from_le_bytes(slice_subrange(b, 48, 56));
    let pool_quote = u64_from_le_bytes(slice_subrange(b, 56, 64));
    let quote_amount = u64_from_le_bytes(slice_subrange(b, 64, 72));
    let lp_fee = u64_from_le_bytes(slice_subrange(b, 80, 88));
    let protocol_fee = u64_from_le_bytes(slice_subrange(b, 96, 104));
    let pool = bs58_encode(slice_subrange(b, 120, 152));
    let user = bs58_encode(slice_subrange(b, 152, 184));
    let coin_creator_fee = if b.len() >= 360 {
        u64_from_le_bytes(slice_subrange(b, 352, 360))
    } else {
        0u64
    };
    let sol_amount = quote_amount;
    let token_amount = base_amount;
    Some(
        AmmTradeEvent {
            signature: signature.clone(),
            slot,
            success,
            pool,
            user,
            token_amount,
            sol_amount,
            is_buy,
            timestamp,
            pool_base_token_reserves: pool_base,
            pool_quote_token_reserves: pool_quote,
            lp_fee,
            protocol_fee,
            coin_creator_fee,
        },
    )
}

/// Decode an AMM program-data string: base64, then the fixed byte layout.
/// The tuple carries pool, user, token amount, SOL amount, timestamp, the
/// two pool reserves, and the fee breakdown.
pub fn decode_and_parse_amm_program_data(program_data: &str) -> (r: Option<
    (String, String, u64, u64, i64, u64, u64, u64, u64, u64),
>)
    ensures
        match base64_decoding(program_data@) {
            None => r is None,
            Some(bytes) => {
                if bytes.len() >= 200 {
                    match r {
                        Some(t) => {
                            &&& t.0@ == base58_encoding(bytes.subrange(120, 152))
                            &&& t.1@ == base58_encoding(bytes.subrange(152, 184))
                            &&& t.2 == amm_token_amount(bytes)
                            &&& t.3 == amm_sol_amount(bytes)
                            &&& t.4 == spec_u64_as_i64(spec_u64_from_le_bytes(bytes.subrange(8, 16)))
                            &&& t.5 == spec_u64_from_le_bytes(bytes.subrange(48, 56))
                            &&& t.6 == spec_u64_from_le_bytes(bytes.subrange(56, 64))
                            &&& t.7 == spec_u64_from_le_bytes(bytes.subrange(80, 88))
                            &&& t.8 == spec_u64_from_le_bytes(bytes.subrange(96, 104))
                            &&& t.9 == if bytes.len() >= 360 {
                                spec_u64_from_le_bytes(bytes.subrange(352, 360))
                            } else {
                                0u64
                            }
                        },
                        None => false,
                    }
                } else {
                    r is None
                }
            },
        },
{
    let decoded = match b64_decode(program_data) {
        Some(v) => v,
        None => {
            return None;
        },
    };
    let sig: String = String::new();
    match parse_amm_payload(decoded.as_slice(), &sig, 0, false, false) {
        Some(e) => Some(
            (
                e.pool,
                e.user,
                e.token_amount,
                e.sol_amount,
                e.timestamp,
                e.pool_base_token_reserves,
                e.pool_quote_token_reserves,
                e.lp_fee,
                e.protocol_fee,
                e.coin_creator_fee,
            ),
        ),
        None => None,
    }
}

/// Whether some log line mentions the AMM program's invocation.
fn contains_amm_program(response: &LogsNotification) -> (r: bool)
    ensures
        r == crate::pump::some_log_contains(spec_log_views(*response), amm_invoke_marker()),
{
    let ghost logs = spec_log_views(*response);
    let mut i: usize = 0;
    while i < response.logs.len()
        invariant
            i <= response.logs@.len(),
            logs == spec_log_views(*response),
            logs.len() == response.logs@.len(),
            forall|j: int|
                0 <= j < i ==> !spec_contains(#[trigger] logs[j], amm_invoke_marker()),
        decreases response.logs@.len() - i,
    {
        proof {
            assert(logs[i as int] == response.logs@[i as int]@);
        }
        if str_contains(
            response.logs[i].as_str(),
            "Program pAMMBay6oceH9fJKBRHGP5D4bD4sWpmSwMn52FMfXEA invoke",
        ) {
            return true;
        }
        i += 1;
    }
    false
}

/// Scan for the transaction's direction: the first buy or sell marker
/// decides.
fn scan_amm_direction(response: &LogsNotification) -> (r: Option<bool>)
    ensures
        r == spec_amm_direction(spec_log_views(*response)),
{
    let ghost logs = spec_log_views(*response);
    let n = response.logs.len();
    proof {
        assert(logs.subrange(0, n as int) =~= logs);
    }
    let mut i: usize = 0;
    while i < n
        invariant
            i <= n,
            logs == spec_log_views(*response),
            logs.len() == n,
            spec_amm_direction(logs) == spec_amm_direction(logs.subrange(i as int, n as int)),
        decreases n - i,
    {
        proof {
            assert(logs[i as int] == response.logs@[i as int]@);
            assert(logs.subrange(i as int, n as int).first() == logs[i as int]);
            assert(logs.subrange(i as int, n as int).drop_first() =~= logs.subrange(
                i + 1,
                n as int,
            ));
        }
        let line = &response.logs[i];
        if str_contains(line.as_str(), "Program log: Instruction: Buy") {
            return Some(true);
        }
        if str_contains(line.as_str(), "Program log: Instruction: Sell") {
            return Some(false);
        }
        i += 1;
    }
    proof {
        assert(logs.subrange(n as int, n as int) =~= Seq::<Seq<char>>::empty());
    }
    None
}

/// Scan a notification for one AMM trade: the AMM program must have been
/// invoked, no log line may signal a failed instruction, the first buy or
/// sell marker decides the direction, and the first sufficiently long
/// program-data payload is decoded. `None` when any of that is missing.
pub fn parse_amm_trade_event(response: &LogsNotification) -> (r: Option<AmmTradeEvent>)
    ensures
        ({
            let logs = spec_log_views(*response);
            if !crate::pump::some_log_contains(logs, amm_invoke_marker())
                || crate::pump::some_log_contains(logs, failed_marker()) {
                r is None
            } else {
                match spec_amm_direction(logs) {
                    Some(is_buy) => match spec_first_amm_payload(logs) {
                        Some(bytes) => match r {
                            Some(e) => {
                                &&& e.signature@ == response.signature@
                                &&& e.slot == response.slot
                                &&& e.success == response.err_is_null
                                &&& e.is_buy == is_buy
                                &&& amm_payload_wf(e, bytes)
                            },
                            None => false,
                        },
                        None => r is None,
                    },
                    None => r is None,
                }
            }
        }),
{
    let ghost logs = spec_log_views(*response);
    if !contains_amm_program(response) {
        return None;
    }
    if contains_failed(response) {
        return None;
    }
    let is_buy = match scan_amm_direction(response) {
        Some(b) => b,
        None => {
            return None;
        },
    };
    let n = response.logs.len();
    proof {
        assert(logs.subrange(0, n as int) =~= logs);
    }
    let mut i: usize = 0;
    while i < n
        invariant
            i <= n,
            logs == spec_log_views(*response),
            logs.len() == n,
            crate::pump::some_log_contains(logs, amm_invoke_marker()),
            !crate::pump::some_log_contains(logs, failed_marker()),
            spec_amm_direction(logs) == Some(is_buy),
            spec_first_amm_payload(logs) == spec_first_amm_payload(
                logs.subrange(i as int, n as int),
            ),
        decreases n - i,
    {
        proof {
            assert(logs[i as int] == response.logs@[i as int]@);
            assert(logs.subrange(i as int, n as int).first() == logs[i as int]);
            assert(logs.subrange(i as int, n as int).drop_first() =~= logs.subrange(
                i + 1,
                n as int,
            ));
        }
        let line = &response.logs[i];
        if str_starts_with(line.as_str(), "Program data: ") {
            proof {
                reveal_strlit("Program data: ");
                assert(data_prefix().len() == 14);
            }
            let ln = line.as_str().unicode_len();
            let data_str = line.as_str().substring_char(14, ln);
            proof {
                assert(data_str@ == logs[i as int].subrange(14, logs[i as int].len() as int));
            }
            match b64_decode(data_str) {
                Some(bytes) => {
                    if bytes.len() >= 200 {
                        proof {
                            assert(spec_first_amm_payload(logs.subrange(i as int, n as int))
                                == Some(bytes@));
                        }
                        return parse_amm_payload(
                            bytes.as_slice(),
                            &response.signature,
                            response.slot,
                            response.err_is_null,
                            is_buy,
                        );
                    }
                },
                None => {},
            }
        }
        i += 1;
    }
    proof {
        assert(logs.subrange(n as int, n as int) =~= Seq::<Seq<char>>::empty());
    }
    None
}

/// Whether a notification both invokes the AMM program and mentions a buy or
/// sell instruction.
pub fn contains_amm_instruction(response: &LogsNotification) -> (r: bool)
    ensures
        r == (crate::pump::some_log_contains(spec_log_views(*response), amm_invoke_marker())
            && crate::pump::spec_has_trade_instruction(spec_log_views(*response))),
{
    let has_program = contains_amm_program(response);
    if !has_program {
        return false;
    }
    crate::pump::contains_pump_instruction(response)
}

/// Derive the display quantities of an AMM trade: the fixed-point price
/// (SOL per token, zero when the token amount is zero) and the fee
/// breakdown at SOL scale.
pub fn calculate_amm_trade_details(amm_trade_event: &AmmTradeEvent) -> (r: Option<AmmTradeDetails>)
    ensures
        match r {
            Some(d) => {
                &&& d.sol_amount_formatted == amm_trade_event.sol_amount
                &&& d.token_amount_formatted == amm_trade_event.token_amount
                &&& d.pool_base_formatted == amm_trade_event.pool_base_token_reserves
                &&& d.pool_quote_formatted == amm_trade_event.pool_quote_token_reserves
                &&& d.lp_fee_formatted == amm_trade_event.lp_fee
                &&& d.protocol_fee_formatted == amm_trade_event.protocol_fee
                &&& d.creator_fee_formatted == amm_trade_event.coin_creator_fee
                &&& d.price == spec_price_fp(
                    amm_trade_event.sol_amount,
                    amm_trade_event.token_amount,
                )
            },
            None => false,
        },
{
    let price = price_fp(amm_trade_event.sol_amount, amm_trade_event.token_amount);
    Some(
        AmmTradeDetails {
            sol_amount_formatted: amm_trade_event.sol_amount,
            token_amount_formatted: amm_trade_event.token_amount,
            pool_base_formatted: amm_trade_event.pool_base_token_reserves,
            pool_quote_formatted: amm_trade_event.pool_quote_token_reserves,
            lp_fee_formatted: amm_trade_event.lp_fee,
            protocol_fee_formatted: amm_trade_event.protocol_fee,
            creator_fee_formatted: amm_trade_event.coin_creator_fee,
            price,
        },
    )
}

/// Parse one AMM notification and apply the trade filters: a trade with zero
/// price or a SOL amount under `min_sol_lamports` is dropped. The returned
/// event still references its pool; resolve the pool to the tracked asset
/// mint, then fold with `apply_amm_trade`.
pub fn amm_trade_request(response: &LogsNotification, min_sol_lamports: u64) -> (r: Option<
    AmmTradeEvent,
>)
    ensures
        ({
            let logs = spec_log_views(*response);
            if !crate::pump::some_log_contains(logs, amm_invoke_marker())
                || crate::pump::some_log_contains(logs, failed_marker()) {
                r is None
            } else {
                match spec_amm_direction(logs) {
                    Some(is_buy) => match spec_first_amm_payload(logs) {
                        Some(bytes) => {
                            if spec_price_fp(amm_sol_amount(bytes), amm_token_amount(bytes)) == 0
                                || amm_sol_amount(bytes) < min_sol_lamports {
                                r is None
                            } else {
                                match r {
                                    Some(e) => {
                                        &&& e.signature@ == response.signature@
                                        &&& e.slot == response.slot
                                        &&& e.success == response.err_is_null
                                        &&& e.is_buy == is_buy
                                        &&& amm_payload_wf(e, bytes)
                                    },
                                    None => false,
                                }
                            }
                        },
                        None => r is None,
                    },
                    None => r is None,
                }
            }
        }),
{
    let event = match parse_amm_trade_event(response) {
        Some(e) => e,
        None => {
            return None;
        },
    };
    let price = price_fp(event.sol_amount, event.token_amount);
    if price == 0 {
        return None;
    }
    if event.sol_amount < min_sol_lamports {
        return None;
    }
    Some(event)
}

/// The error of folding a resolved AMM trade.
#[derive(Clone, Copy, Debug, PartialEq, Eq, Structural)]
pub enum AmmApplyError {
    /// Neither pool side is wrapped native SOL: the trade is dropped.
    NoTrackedMint,
    /// A candle accumulator would overflow: nothing changed.
    VolumeOverflow,
}

/// Fold one filtered AMM trade into the candle engine under the tracked
/// asset mint of its resolved pool. A pool with no wrapped-SOL side yields
/// no trade; a timestamp at the very bottom of the range is dropped; the
/// fold overflows — changing nothing — exactly when the trade's bucket
/// already exists and cannot absorb the amounts.
pub fn apply_amm_trade(
    manager: &mut KLineManager,
    event: &AmmTradeEvent,
    pool_data: &AmmPoolData,
    now: u64,
) -> (r: Result<(), AmmApplyError>)
    requires
        manager_wf(*old(manager)),
    ensures
        manager_wf(*final(manager)),
        final(manager).idle_timeout_secs == old(manager).idle_timeout_secs,
        ({
            let price = spec_price_fp(event.sol_amount, event.token_amount);
            let mint = if pool_data.base_token_mint@ == wsol_mint() {
                pool_data.quote_token_mint@
            } else {
                pool_data.base_token_mint@
            };
            if pool_data.base_token_mint@ != wsol_mint() && pool_data.quote_token_mint@
                != wsol_mint() {
                r == Result::<(), AmmApplyError>::Err(AmmApplyError::NoTrackedMint)
                    && *final(manager) == *old(manager)
            } else if event.timestamp <= i64::MIN + 60 {
                r is Ok && *final(manager) == *old(manager)
            } else {
                &&& match r {
                    Ok(()) => spec_trade_added(
                        old(manager).series@,
                        final(manager).series@,
                        mint,
                        event.timestamp,
                        price,
                        event.sol_amount,
                        event.token_amount,
                        event.is_buy,
                        now,
                    ),
                    Err(e) => e == AmmApplyError::VolumeOverflow && spec_series_unchanged(
                        old(manager).series@,
                        final(manager).series@,
                    ),
                }
                &&& (r is Err <==> fold_blocked(
                    old(manager).series@,
                    mint,
                    event.timestamp,
                    event.sol_amount,
                    event.token_amount,
                    event.is_buy,
                ))
            }
        }),
{
    let mint = match pool_data.get_mint() {
        Some(m) => m,
        None => {
            return Err(AmmApplyError::NoTrackedMint);
        },
    };
    if event.timestamp <= i64::MIN + 60 {
        return Ok(());
    }
    let price = price_fp(event.sol_amount, event.token_amount);
    match manager.add_trade(
        &mint,
        event.timestamp,
        price,
        event.sol_amount,
        event.token_amount,
        event.is_buy,
        now,
    ) {
        Ok(()) => Ok(()),
        Err(KlineError::VolumeOverflow) => Err(AmmApplyError::VolumeOverflow),
    }
}

/// Parse a pool account's raw bytes: an 8-byte discriminator and a 35-byte
/// header precede the base and quote mint keys. `None` exactly when the
/// account data is shorter than the 200 bytes a pool account holds.
pub fn parse_pool_account(data: &[u8]) -> (r: Option<AmmPoolData>)
    ensures
        r is Some <==> data@.len() >= 200,
        match r {
            Some(p) => {
                &&& p.base_token_mint@ == base58_encoding(data@.subrange(43, 75))
                &&& p.quote_token_mint@ == base58_encoding(data@.subrange(75, 107))
            },
            None => true,
        },
{
    if data.len() < 200 {
        return None;
    }
    let base_token_mint = bs58_encode(slice_subrange(data, 43, 75));
    let quote_token_mint = bs58_encode(slice_subrange(data, 75, 107));
    Some(AmmPoolData { base_token_mint, quote_token_mint })
}

/// The store key under which one pool's resolved sides are cached.
pub fn get_pool_key(pool: &str) -> (r: String)
    ensures
        r@ == "pool:"@ + pool@,
{
    let head: String = "pool:".to_owned();
    head.concat(pool)
}

/// The cache entry for a resolved pool: its two sides joined by a comma.
pub fn encode_pool_cache(pool_data: &AmmPoolData) -> (r: String)
    ensures
        r@ == pool_data.base_token_mint@ + ","@ + pool_data.quote_token_mint@,
{
    let head = pool_data.base_token_mint.clone();
    let with_sep = head.concat(",");
    with_sep.concat(pool_data.quote_token_mint.as_str())
}

/// Read a cached pool entry back: the two sides around the single comma.
/// Anything but exactly one comma is not a cache entry.
pub fn decode_pool_cache(s: &str) -> (r: Option<AmmPoolData>)
    ensures
        ({
            if exists|k: int|
                0 <= k < s@.len() && s@[k] == ',' && forall|j: int|
                    0 <= j < s@.len() && j != k ==> s@[j] != ',' {
                let k = choose|k: int|
                    0 <= k < s@.len() && s@[k] == ',' && forall|j: int|
                        0 <= j < s@.len() && j != k ==> s@[j] != ',';
                match r {
                    Some(p) => {
                        &&& p.base_token_mint@ == s@.subrange(0, k)
                        &&& p.quote_token_mint@ == s@.subrange(k + 1, s@.len() as int)
                    },
                    None => false,
                }
            } else {
                r is None
            }
        }),
{
    let n = s.unicode_len();
    let mut commas: usize = 0;
    let mut first: usize = 0;
    let mut second: usize = 0;
    let mut i: usize = 0;
    while i < n
        invariant
            i <= n,
            n == s@.len(),
            commas <= i,
            commas == 0 ==> forall|j: int| 0 <= j < i ==> s@[j] != ',',
            commas > 0 ==> first < i && s@[first as int] == ',',
            commas == 1 ==> forall|j: int| 0 <= j < i && j != first ==> s@[j] != ',',
            commas >= 2 ==> first < second < i && s@[second as int] == ',',
        decreases n - i,
    {
        if s.get_char(i) == ',' {
            if commas == 0 {
                first = i;
            } else if commas == 1 {
                second = i;
            }
            commas += 1;
        }
        i += 1;
    }
    if commas != 1 {
        proof {
            if commas == 0 {
                assert(forall|k: int| 0 <= k < s@.len() ==> s@[k] != ',');
            } else {
                assert(s@[first as int] == ',' && s@[second as int] == ',' && first != second);
                assert forall|k: int|
                    0 <= k < s@.len() && s@[k] == ',' implies !(forall|j: int|
                    0 <= j < s@.len() && j != k ==> s@[j] != ',') by {
                    if k != first {
                        assert(s@[first as int] == ',');
                    } else {
                        assert(s@[second as int] == ',');
                    }
                }
            }
        }
        return None;
    }
    let base = s.substring_char(0, first);
    let quote = s.substring_char(first + 1, n);
    proof {
        let k = choose|k: int|
            0 <= k < s@.len() && s@[k] == ',' && forall|j: int|
                0 <= j < s@.len() && j != k ==> s@[j] != ',';
        assert(s@[first as int] == ',');
        assert(k == first);
    }
    Some(AmmPoolData { base_token_mint: base.to_owned(), quote_token_mint: quote.to_owned() })
}

} // verus!
