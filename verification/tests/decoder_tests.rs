use base64::Engine;
use pump_kmonitor::pump::{
    calculate_trade_details, contains_pump_instruction, decode_and_parse_program_data,
    handle_pump_message, parse_trade_event, LogsNotification, TradeEvent,
};
use pump_kmonitor::kline::KLineManager;

fn push_u64_le(v: &mut Vec<u8>, x: u64) {
    v.extend_from_slice(&x.to_le_bytes());
}

/// A bonding-curve payload with the given fields at their fixed offsets.
fn pump_payload(
    mint: [u8; 32],
    sol: u64,
    tok: u64,
    user: [u8; 32],
    ts: u64,
    vsol: u64,
    vtok: u64,
    rsol: u64,
    rtok: u64,
) -> Vec<u8> {
    let mut b: Vec<u8> = Vec::new();
    b.extend_from_slice(&[0u8; 8]); // discriminator
    b.extend_from_slice(&mint);
    push_u64_le(&mut b, sol);
    push_u64_le(&mut b, tok);
    b.push(1); // direction byte (ignored: the log marker is authoritative)
    b.extend_from_slice(&user);
    push_u64_le(&mut b, ts);
    push_u64_le(&mut b, vsol);
    push_u64_le(&mut b, vtok);
    push_u64_le(&mut b, rsol);
    push_u64_le(&mut b, rtok);
    assert_eq!(b.len(), 129);
    b
}

fn notification(logs: Vec<&str>) -> LogsNotification {
    LogsNotification {
        signature: "sig1".to_string(),
        slot: 42,
        err_is_null: true,
        logs: logs.into_iter().map(|s| s.to_string()).collect(),
    }
}

#[test]
fn test_pump_decoder_round_trip() {
    let mint = [7u8; 32];
    let user = [9u8; 32];
    let payload = pump_payload(mint, 2_000_000_000, 5_000_000, user, 1_700_000_099, 11, 22, 33, 44);
    let b64 = base64::engine::general_purpose::STANDARD.encode(&payload);
    let data_line = format!("Program data: {}", b64);
    let n = notification(vec!["Program log: Instruction: Buy", &data_line]);
    let events = parse_trade_event(&n).expect("no events parsed");
    assert_eq!(events.len(), 1);
    let e: &TradeEvent = &events[0];
    assert_eq!(e.signature, "sig1");
    assert_eq!(e.slot, 42);
    assert!(e.success);
    assert!(e.is_buy);
    assert_eq!(e.mint, bs58::encode(&mint).into_string());
    assert_eq!(e.user, bs58::encode(&user).into_string());
    assert_eq!(e.sol_amount, 2_000_000_000);
    assert_eq!(e.token_amount, 5_000_000);
    assert_eq!(e.timestamp, 1_700_000_099);
    assert_eq!(e.virtual_sol_reserves, 11);
    assert_eq!(e.virtual_token_reserves, 22);
    assert_eq!(e.real_sol_reserves, 33);
    assert_eq!(e.real_token_reserves, 44);
}

#[test]
fn test_pump_decoder_short_payload_yields_nothing() {
    let mint = [7u8; 32];
    let user = [9u8; 32];
    let mut payload = pump_payload(mint, 1, 1, user, 1, 1, 1, 1, 1);
    payload.truncate(128); // one byte short of the minimum
    let b64 = base64::engine::general_purpose::STANDARD.encode(&payload);
    let data_line = format!("Program data: {}", b64);
    let n = notification(vec!["Program log: Instruction: Buy", &data_line]);
    assert!(parse_trade_event(&n).is_none());
}

#[test]
fn test_pump_decoder_direction_follows_markers() {
    let payload = pump_payload([1u8; 32], 10, 20, [2u8; 32], 5, 0, 0, 0, 0);
    let b64 = base64::engine::general_purpose::STANDARD.encode(&payload);
    let data_line = format!("Program data: {}", b64);
    let n = notification(vec![
        "Program log: Instruction: Buy",
        &data_line,
        "Program log: Instruction: Sell",
        &data_line,
    ]);
    let events = parse_trade_event(&n).expect("no events parsed");
    assert_eq!(events.len(), 2);
    assert!(events[0].is_buy);
    assert!(!events[1].is_buy);
}

#[test]
fn test_pump_decoder_rejects_failed_transaction() {
    let payload = pump_payload([1u8; 32], 10, 20, [2u8; 32], 5, 0, 0, 0, 0);
    let b64 = base64::engine::general_purpose::STANDARD.encode(&payload);
    let data_line = format!("Program data: {}", b64);
    let n = notification(vec![
        "Program log: Instruction: Buy",
        "Program 6EF8 failed: custom program error",
        &data_line,
    ]);
    assert!(parse_trade_event(&n).is_none());
}

#[test]
fn test_pump_decoder_requires_instruction_marker() {
    let payload = pump_payload([1u8; 32], 10, 20, [2u8; 32], 5, 0, 0, 0, 0);
    let b64 = base64::engine::general_purpose::STANDARD.encode(&payload);
    let data_line = format!("Program data: {}", b64);
    let n = notification(vec![&data_line]);
    assert!(parse_trade_event(&n).is_none());
    assert!(!contains_pump_instruction(&n));
    let with_marker = notification(vec!["Program log: Instruction: Sell"]);
    assert!(contains_pump_instruction(&with_marker));
}

#[test]
fn test_decode_and_parse_program_data_fields() {
    let mint = [3u8; 32];
    let user = [4u8; 32];
    let payload = pump_payload(mint, 111, 222, user, 333, 444, 555, 666, 777);
    let b64 = base64::engine::general_purpose::STANDARD.encode(&payload);
    let t = decode_and_parse_program_data(&b64).expect("decode failed");
    assert_eq!(t.0, bs58::encode(&mint).into_string());
    assert_eq!(t.1, bs58::encode(&user).into_string());
    assert_eq!(t.2, 111);
    assert_eq!(t.3, 222);
    assert_eq!(t.4, 333);
    assert_eq!(t.5, 444);
    assert_eq!(t.6, 555);
    assert_eq!(t.7, 666);
    assert_eq!(t.8, 777);
    assert!(decode_and_parse_program_data("!!!not-base64!!!").is_none());
}

#[test]
fn test_base58_known_value() {
    // The base58 encoding of 32 zero bytes is 32 ones.
    let payload = pump_payload([0u8; 32], 1, 1, [0u8; 32], 1, 0, 0, 0, 0);
    let b64 = base64::engine::general_purpose::STANDARD.encode(&payload);
    let t = decode_and_parse_program_data(&b64).expect("decode failed");
    assert_eq!(t.0, "11111111111111111111111111111111");
}

#[test]
fn test_price_zero_token_amount() {
    let e = TradeEvent {
        signature: "s".to_string(),
        slot: 1,
        success: true,
        mint: "m".to_string(),
        user: "u".to_string(),
        sol_amount: 5_000_000_000,
        token_amount: 0,
        is_buy: true,
        timestamp: 0,
        virtual_sol_reserves: 0,
        virtual_token_reserves: 0,
        real_sol_reserves: 0,
        real_token_reserves: 0,
    };
    let d = calculate_trade_details(&e).unwrap();
    assert_eq!(d.price, 0);
    assert_eq!(d.market_cap, 0);
}

#[test]
fn test_price_computation_exact() {
    let e = TradeEvent {
        signature: "s".to_string(),
        slot: 1,
        success: true,
        mint: "m".to_string(),
        user: "u".to_string(),
        // 2 SOL for 4 tokens: 0.5 SOL per token = 5 * 10^11 at scale 10^12.
        sol_amount: 2_000_000_000,
        token_amount: 4_000_000,
        is_buy: true,
        timestamp: 0,
        virtual_sol_reserves: 0,
        virtual_token_reserves: 0,
        real_sol_reserves: 0,
        real_token_reserves: 0,
    };
    let d = calculate_trade_details(&e).unwrap();
    assert_eq!(d.price, 500_000_000_000);
    // Market cap at the fixed one-billion-token supply: 5 * 10^8 SOL.
    assert_eq!(d.market_cap, 500_000_000_000u128 * 1_000_000_000);
}

#[test]
fn test_handle_pump_message_folds_trade() {
    let mint = [7u8; 32];
    let payload =
        pump_payload(mint, 2_000_000_000, 5_000_000, [9u8; 32], 1_700_000_099, 0, 0, 0, 0);
    let b64 = base64::engine::general_purpose::STANDARD.encode(&payload);
    let data_line = format!("Program data: {}", b64);
    let n = notification(vec!["Program log: Instruction: Buy", &data_line]);
    let mut m = KLineManager::new(60);
    handle_pump_message(&n, &mut m, 10_000_000, 77).unwrap();
    let mint_str = bs58::encode(&mint).into_string();
    let ks = m.get_klines_for_mint(&mint_str, None);
    assert_eq!(ks.len(), 1);
    assert_eq!(ks[0].timestamp, 1_700_000_099 - (1_700_000_099 % 60));
    assert_eq!(ks[0].volume_sol, 2_000_000_000);
    assert_eq!(ks[0].last_update, 77);
}

#[test]
fn test_handle_pump_message_micro_trade_dropped() {
    let payload = pump_payload([7u8; 32], 9_999_999, 5_000_000, [9u8; 32], 60, 0, 0, 0, 0);
    let b64 = base64::engine::general_purpose::STANDARD.encode(&payload);
    let data_line = format!("Program data: {}", b64);
    let n = notification(vec!["Program log: Instruction: Buy", &data_line]);
    let mut m = KLineManager::new(60);
    handle_pump_message(&n, &mut m, 10_000_000, 77).unwrap();
    let (mints, klines) = m.get_stats();
    assert_eq!((mints, klines), (0, 0));
}
