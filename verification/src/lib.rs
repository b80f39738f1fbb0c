//! Core of a real-time trade monitor: decoders for two on-chain trade-event
//! wire layouts, a per-asset per-minute OHLCV candle aggregator with idle
//! eviction, a consecutive-rising-candle strategy engine, and the reconnect
//! policy of the streaming connection manager.

use vstd::prelude::*;

pub mod encoding;
pub mod kline;
pub mod numeric;
pub mod pump;
pub mod pump_amm;
pub mod strategy;
pub mod text;
pub mod web;
pub mod websocket;

verus! {

/// Relies on rand's thread-local generator; nothing is assumed of the value
/// drawn.
pub assume_specification<T>[ rand::random::<T> ]() -> (r: T)
    where
        rand::distr::StandardUniform: rand::distr::Distribution<T>,
;

/// Pick one endpoint URL at random from a configured list; `None` only when
/// the list is empty.
pub fn get_random_rpc_url(urls: &Vec<String>) -> (r: Option<String>)
    ensures
        r is Some <==> urls@.len() > 0,
        match r {
            Some(u) => exists|i: int| 0 <= i < urls@.len() && urls@[i]@ == u@,
            None => true,
        },
{
    if urls.len() == 0 {
        return None;
    }
    let x: u64 = rand::random();
    let idx: usize = (x % (urls.len() as u64)) as usize;
    let u = urls[idx].clone();
    Some(u)
}

} // verus!
