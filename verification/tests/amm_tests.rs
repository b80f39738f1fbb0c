use base64::Engine;
use pump_kmonitor::kline::KLineManager;
use pump_kmonitor::pump::LogsNotification;
use pump_kmonitor::pump_amm::{
    amm_trade_request, apply_amm_trade, calculate_amm_trade_details, contains_amm_instruction,
    decode_and_parse_amm_program_data, decode_pool_cache, encode_pool_cache, get_pool_key,
    parse_amm_trade_event, parse_pool_account, AmmPoolData,
};

const AMM_INVOKE: &str = "Program pAMMBay6oceH9fJKBRHGP5D4bD4sWpmSwMn52FMfXEA invoke [1]";
const WSOL: &str = "So11111111111111111111111111111111111111112";

fn put_u64_le(v: &mut Vec<u8>, at: usize, x: u64) {
    v[at..at + 8].copy_from_slice(&x.to_le_bytes());
}

/// An AMM payload of 360 bytes with the given fields at their fixed offsets.
fn amm_payload(
    ts: u64,
    base_amount: u64,
    pool_base: u64,
    pool_quote: u64,
    quote_amount: u64,
    lp_fee: u64,
    protocol_fee: u64,
    pool: [u8; 32],
    user: [u8; 32],
    creator_fee: u64,
) -> Vec<u8> {
    let mut b = vec![0u8; 360];
    put_u64_le(&mut b, 8, ts);
    put_u64_le(&mut b, 16, base_amount);
    put_u64_le(&mut b, 48, pool_base);
    put_u64_le(&mut b, 56, pool_quote);
    put_u64_le(&mut b, 64, quote_amount);
    put_u64_le(&mut b, 80, lp_fee);
    put_u64_le(&mut b, 96, protocol_fee);
    b[120..152].copy_from_slice(&pool);
    b[152..184].copy_from_slice(&user);
    put_u64_le(&mut b, 352, creator_fee);
    b
}

fn amm_notification(logs: Vec<&str>) -> LogsNotification {
    LogsNotification {
        signature: "amm_sig".to_string(),
        slot: 7,
        err_is_null: true,
        logs: logs.into_iter().map(|s| s.to_string()).collect(),
    }
}

#[test]
fn test_amm_decoder_round_trip() {
    let pool = [5u8; 32];
    let user = [6u8; 32];
    // The quote field carries the SOL amount, the base field the token
    // amount.
    let payload = amm_payload(
        1_700_000_123,
        4_000_000,
        900,
        100,
        2_000_000_000,
        11,
        22,
        pool,
        user,
        33,
    );
    let b64 = base64::engine::general_purpose::STANDARD.encode(&payload);
    let data_line = format!("Program data: {}", b64);
    let n = amm_notification(vec![AMM_INVOKE, "Program log: Instruction: Sell", &data_line]);
    let e = parse_amm_trade_event(&n).expect("no event parsed");
    assert_eq!(e.signature, "amm_sig");
    assert_eq!(e.slot, 7);
    assert!(e.success);
    assert!(!e.is_buy);
    assert_eq!(e.timestamp, 1_700_000_123);
    assert_eq!(e.sol_amount, 2_000_000_000);
    assert_eq!(e.token_amount, 4_000_000);
    assert_eq!(e.pool_base_token_reserves, 900);
    assert_eq!(e.pool_quote_token_reserves, 100);
    assert_eq!(e.lp_fee, 11);
    assert_eq!(e.protocol_fee, 22);
    assert_eq!(e.coin_creator_fee, 33);
    assert_eq!(e.pool, bs58::encode(&pool).into_string());
    assert_eq!(e.user, bs58::encode(&user).into_string());
}

#[test]
fn test_amm_decoder_amount_roles_fixed() {
    // The quote field carries the SOL amount and the base field the token
    // amount, whatever the reserve snapshots look like; the log marker alone
    // decides the direction.
    let payload = amm_payload(60, 7_000, 100, 900, 13_000, 0, 0, [1u8; 32], [2u8; 32], 0);
    let b64 = base64::engine::general_purpose::STANDARD.encode(&payload);
    let data_line = format!("Program data: {}", b64);
    let n = amm_notification(vec![AMM_INVOKE, "Program log: Instruction: Buy", &data_line]);
    let e = parse_amm_trade_event(&n).expect("no event parsed");
    assert!(e.is_buy);
    assert_eq!(e.sol_amount, 13_000);
    assert_eq!(e.token_amount, 7_000);
    assert_eq!(e.pool_base_token_reserves, 100);
    assert_eq!(e.pool_quote_token_reserves, 900);
}

#[test]
fn test_amm_decoder_rejects_failure_after_marker() {
    // A failure line anywhere rejects the whole transaction, also after the
    // first direction marker.
    let payload = amm_payload(60, 1, 1, 1, 20_000_000, 0, 0, [1u8; 32], [2u8; 32], 0);
    let b64 = base64::engine::general_purpose::STANDARD.encode(&payload);
    let data_line = format!("Program data: {}", b64);
    let n = amm_notification(vec![
        AMM_INVOKE,
        "Program log: Instruction: Buy",
        "Program xyz failed: busted",
        &data_line,
    ]);
    assert!(parse_amm_trade_event(&n).is_none());
    assert!(amm_trade_request(&n, 0).is_none());
}

#[test]
fn test_amm_decoder_short_payload_yields_nothing() {
    let mut payload = amm_payload(60, 1, 1, 1, 1, 0, 0, [1u8; 32], [2u8; 32], 0);
    payload.truncate(199);
    let b64 = base64::engine::general_purpose::STANDARD.encode(&payload);
    let data_line = format!("Program data: {}", b64);
    let n = amm_notification(vec![AMM_INVOKE, "Program log: Instruction: Buy", &data_line]);
    assert!(parse_amm_trade_event(&n).is_none());
}

#[test]
fn test_amm_decoder_requires_program_and_direction() {
    let payload = amm_payload(60, 1, 1, 1, 1, 0, 0, [1u8; 32], [2u8; 32], 0);
    let b64 = base64::engine::general_purpose::STANDARD.encode(&payload);
    let data_line = format!("Program data: {}", b64);
    // No AMM invoke line.
    let n1 = amm_notification(vec!["Program log: Instruction: Buy", &data_line]);
    assert!(parse_amm_trade_event(&n1).is_none());
    // No direction marker.
    let n2 = amm_notification(vec![AMM_INVOKE, &data_line]);
    assert!(parse_amm_trade_event(&n2).is_none());
    // A failure before the marker.
    let n3 = amm_notification(vec![
        AMM_INVOKE,
        "Program xyz failed: busted",
        "Program log: Instruction: Buy",
        &data_line,
    ]);
    assert!(parse_amm_trade_event(&n3).is_none());
    assert!(contains_amm_instruction(&amm_notification(vec![
        AMM_INVOKE,
        "Program log: Instruction: Buy",
    ])));
    assert!(!contains_amm_instruction(&amm_notification(vec![AMM_INVOKE])));
}

#[test]
fn test_amm_program_data_fields() {
    let pool = [5u8; 32];
    let user = [6u8; 32];
    let payload = amm_payload(111, 222, 900, 100, 333, 444, 555, pool, user, 666);
    let b64 = base64::engine::general_purpose::STANDARD.encode(&payload);
    let t = decode_and_parse_amm_program_data(&b64).expect("decode failed");
    assert_eq!(t.0, bs58::encode(&pool).into_string());
    assert_eq!(t.1, bs58::encode(&user).into_string());
    assert_eq!(t.2, 222); // token: the base side, pool_base > pool_quote
    assert_eq!(t.3, 333); // sol: the quote side
    assert_eq!(t.4, 111);
    assert_eq!(t.5, 900);
    assert_eq!(t.6, 100);
    assert_eq!(t.7, 444);
    assert_eq!(t.8, 555);
    assert_eq!(t.9, 666);
    assert!(decode_and_parse_amm_program_data("&&&bad&&&").is_none());
}

#[test]
fn test_amm_details_price() {
    let payload = amm_payload(
        60,
        4_000_000,
        900,
        100,
        2_000_000_000,
        5,
        6,
        [1u8; 32],
        [2u8; 32],
        7,
    );
    let b64 = base64::engine::general_purpose::STANDARD.encode(&payload);
    let data_line = format!("Program data: {}", b64);
    let n = amm_notification(vec![AMM_INVOKE, "Program log: Instruction: Buy", &data_line]);
    let e = parse_amm_trade_event(&n).unwrap();
    let d = calculate_amm_trade_details(&e).unwrap();
    // 2 SOL for 4 tokens: 0.5 SOL per token at scale 10^12.
    assert_eq!(d.price, 500_000_000_000);
    assert_eq!(d.lp_fee_formatted, 5);
}

#[test]
fn test_amm_request_filters_micro_trade() {
    let payload = amm_payload(60, 4_000_000, 900, 100, 9_999_999, 0, 0, [1u8; 32], [2u8; 32], 0);
    let b64 = base64::engine::general_purpose::STANDARD.encode(&payload);
    let data_line = format!("Program data: {}", b64);
    let n = amm_notification(vec![AMM_INVOKE, "Program log: Instruction: Buy", &data_line]);
    assert!(parse_amm_trade_event(&n).is_some());
    assert!(amm_trade_request(&n, 10_000_000).is_none());
    assert!(amm_trade_request(&n, 9_999_999).is_some());
}

#[test]
fn test_apply_amm_trade_resolves_mint() {
    let payload = amm_payload(
        1_700_000_123,
        4_000_000,
        900,
        100,
        2_000_000_000,
        0,
        0,
        [1u8; 32],
        [2u8; 32],
        0,
    );
    let b64 = base64::engine::general_purpose::STANDARD.encode(&payload);
    let data_line = format!("Program data: {}", b64);
    let n = amm_notification(vec![AMM_INVOKE, "Program log: Instruction: Buy", &data_line]);
    let e = amm_trade_request(&n, 10_000_000).unwrap();
    let mut m = KLineManager::new(60);
    let pool_data = AmmPoolData {
        base_token_mint: WSOL.to_string(),
        quote_token_mint: "tracked_mint".to_string(),
    };
    apply_amm_trade(&mut m, &e, &pool_data, 99).unwrap();
    let ks = m.get_klines_for_mint(&"tracked_mint".to_string(), None);
    assert_eq!(ks.len(), 1);
    assert_eq!(ks[0].volume_sol, 2_000_000_000);
    // A pool with no wrapped-SOL side folds nothing.
    let mut m2 = KLineManager::new(60);
    let no_wsol = AmmPoolData {
        base_token_mint: "a".to_string(),
        quote_token_mint: "b".to_string(),
    };
    assert!(apply_amm_trade(&mut m2, &e, &no_wsol, 99).is_err());
    assert_eq!(m2.get_stats(), (0, 0));
}

#[test]
fn test_pool_get_mint() {
    let p1 = AmmPoolData {
        base_token_mint: WSOL.to_string(),
        quote_token_mint: "q".to_string(),
    };
    assert_eq!(p1.get_mint(), Some("q".to_string()));
    let p2 = AmmPoolData {
        base_token_mint: "b".to_string(),
        quote_token_mint: WSOL.to_string(),
    };
    assert_eq!(p2.get_mint(), Some("b".to_string()));
    let p3 = AmmPoolData {
        base_token_mint: "b".to_string(),
        quote_token_mint: "q".to_string(),
    };
    assert_eq!(p3.get_mint(), None);
}

#[test]
fn test_parse_pool_account() {
    let mut data = vec![0u8; 200];
    let base = [8u8; 32];
    let quote = [9u8; 32];
    data[43..75].copy_from_slice(&base);
    data[75..107].copy_from_slice(&quote);
    let p = parse_pool_account(&data).expect("pool account too short");
    assert_eq!(p.base_token_mint, bs58::encode(&base).into_string());
    assert_eq!(p.quote_token_mint, bs58::encode(&quote).into_string());
    assert!(parse_pool_account(&data[..199]).is_none());
}

#[test]
fn test_pool_cache_round_trip() {
    let p = AmmPoolData {
        base_token_mint: "base_x".to_string(),
        quote_token_mint: "quote_y".to_string(),
    };
    let entry = encode_pool_cache(&p);
    assert_eq!(entry, "base_x,quote_y");
    let back = decode_pool_cache(&entry).expect("cache entry rejected");
    assert_eq!(back.base_token_mint, "base_x");
    assert_eq!(back.quote_token_mint, "quote_y");
    assert!(decode_pool_cache("no_comma_here").is_none());
    assert!(decode_pool_cache("a,b,c").is_none());
    assert_eq!(get_pool_key("pool1"), "pool:pool1");
}
