//! The streaming connection manager's decision core: the subscription
//! request a session opens with, the routing of inbound frames, and the
//! reconnect policy with exponential backoff.
//!
//! The network session itself (connect, send, receive, the keep-alive and
//! eviction timers) runs outside the library and drives these decisions.

use vstd::prelude::*;
use vstd::string::*;

verus! {

/// Seconds between keep-alive pings within one session.
pub const PING_INTERVAL_SECS: u64 = 30;

/// Seconds between idle-eviction sweeps within one session.
pub const EVICTION_INTERVAL_SECS: u64 = 30;

/// One logical monitor: the endpoint it subscribes to, the program
/// addresses of interest, and a name for diagnostics.
pub struct WebSocketMonitor {
    pub endpoint: String,
    pub program_addresses: Vec<String>,
    pub monitor_name: String,
}

/// The one subscription request a session opens with, as plain values.
pub struct SubscribeRequest {
    pub jsonrpc: String,
    pub id: u64,
    pub method: String,
    pub mentions: Vec<String>,
    pub commitment: String,
}

impl WebSocketMonitor {
    pub fn new(endpoint: String, program_addresses: Vec<String>, monitor_name: String) -> (r: Self)
        ensures
            r.endpoint == endpoint,
            r.program_addresses == program_addresses,
            r.monitor_name == monitor_name,
    {
        WebSocketMonitor { endpoint, program_addresses, monitor_name }
    }

    /// The subscription request: `logsSubscribe` over the monitor's program
    /// addresses at `confirmed` commitment, request id 1.
    pub fn subscription_request(&self) -> (r: SubscribeRequest)
        ensures
            r.jsonrpc@ == "2.0"@,
            r.id == 1,
            r.method@ == "logsSubscribe"@,
            r.mentions@.len() == self.program_addresses@.len(),
            forall|i: int|
                0 <= i < r.mentions@.len() ==> #[trigger] r.mentions@[i]
                    == self.program_addresses@[i],
            r.commitment@ == "confirmed"@,
    {
        let mut mentions: Vec<String> = Vec::new();
        let mut i: usize = 0;
        while i < self.program_addresses.len()
            invariant
                i <= self.program_addresses@.len(),
                mentions@.len() == i,
                forall|j: int|
                    0 <= j < i ==> #[trigger] mentions@[j] == self.program_addresses@[j],
            decreases self.program_addresses@.len() - i,
        {
            mentions.push(self.program_addresses[i].clone());
            i += 1;
        }
        SubscribeRequest {
            jsonrpc: "2.0".to_owned(),
            id: 1,
            method: "logsSubscribe".to_owned(),
            mentions,
            commitment: "confirmed".to_owned(),
        }
    }
}

/// Whether an inbound text frame's method field marks it as a log
/// notification to route into the decoder pipeline.
pub fn should_route(method: &Option<String>) -> (r: bool)
    ensures
        r == (method matches Some(m) && m@ == "logsNotification"@),
{
    match method {
        Some(m) => {
            let expected: String = "logsNotification".to_owned();
            *m == expected
        },
        None => false,
    }
}

/// One inbound frame of a streaming session, reduced to what routing reads.
pub enum FrameEvent {
    /// A text frame; the flag says whether its method marks a notification.
    Text { is_notification: bool },
    /// A protocol-level ping from the peer.
    Ping,
    /// A pong from the peer.
    Pong,
    /// A peer-initiated close.
    Close,
    /// A binary or raw frame.
    Binary,
    /// The read side reported an error.
    ReadError,
}

/// What the session does with one inbound frame.
#[derive(Clone, Copy, Debug, PartialEq, Eq, Structural)]
pub enum SessionAction {
    /// Hand the frame's notification to the decoder pipeline.
    HandleNotification,
    /// Answer with a pong carrying the ping's payload.
    SendPong,
    /// Drop the frame.
    Ignore,
    /// End the session and return to the reconnect loop.
    EndSession,
}

/// The routing of inbound frames: notifications are handled, other text and
/// binary frames and pongs are ignored, peer pings are answered, and a close
/// or read error ends the session.
pub fn session_action(event: &FrameEvent) -> (r: SessionAction)
    ensures
        r == match event {
            FrameEvent::Text { is_notification } => if *is_notification {
                SessionAction::HandleNotification
            } else {
                SessionAction::Ignore
            },
            FrameEvent::Ping => SessionAction::SendPong,
            FrameEvent::Pong => SessionAction::Ignore,
            FrameEvent::Close => SessionAction::EndSession,
            FrameEvent::Binary => SessionAction::Ignore,
            FrameEvent::ReadError => SessionAction::EndSession,
        },
{
    match event {
        FrameEvent::Text { is_notification } => {
            if *is_notification {
                SessionAction::HandleNotification
            } else {
                SessionAction::Ignore
            }
        },
        FrameEvent::Ping => SessionAction::SendPong,
        FrameEvent::Pong => SessionAction::Ignore,
        FrameEvent::Close => SessionAction::EndSession,
        FrameEvent::Binary => SessionAction::Ignore,
        FrameEvent::ReadError => SessionAction::EndSession,
    }
}

/// The delay before reconnect attempt `attempt` (counting from 1): the base
/// delay, doubled for every further consecutive failure, capped.
pub open spec fn spec_backoff_delay(base: int, cap: int, attempt: nat) -> int
    decreases attempt,
{
    if attempt <= 1 {
        if base <= cap {
            base
        } else {
            cap
        }
    } else {
        let d = spec_backoff_delay(base, cap, (attempt - 1) as nat);
        if 2 * d <= cap {
            2 * d
        } else {
            cap
        }
    }
}

/// Compute the backoff delay before reconnect attempt `attempt`.
pub fn backoff_delay(base: u64, cap: u64, attempt: u32) -> (r: u64)
    requires
        attempt >= 1,
    ensures
        r == spec_backoff_delay(base as int, cap as int, attempt as nat),
{
    let mut d: u64 = if base <= cap {
        base
    } else {
        cap
    };
    let mut k: u32 = 1;
    while k < attempt
        invariant
            1 <= k <= attempt || attempt == 0,
            d <= cap || d == base,
            d == spec_backoff_delay(base as int, cap as int, k as nat),
        decreases attempt - k,
    {
        d = if d <= cap / 2 {
            2 * d
        } else {
            cap
        };
        k += 1;
    }
    d
}

/// The reconnect policy of one monitor: base delay, cap, the bounded number
/// of consecutive failures tolerated, and the count of consecutive failures
/// so far.
#[derive(Clone, Copy, Debug, PartialEq, Eq, Structural)]
pub struct ReconnectPolicy {
    pub base_delay_secs: u64,
    pub cap_secs: u64,
    pub max_attempts: u32,
    pub attempts: u32,
}

/// What the reconnect loop does after a failed session.
#[derive(Clone, Copy, Debug, PartialEq, Eq, Structural)]
pub enum RetryDecision {
    /// Sleep this many seconds, then reconnect.
    Retry(u64),
    /// The bounded retry count is exhausted: terminate permanently.
    GiveUp,
}

impl ReconnectPolicy {
    /// A fresh policy with no failures recorded.
    pub fn new(base_delay_secs: u64, cap_secs: u64, max_attempts: u32) -> (r: Self)
        ensures
            r.base_delay_secs == base_delay_secs,
            r.cap_secs == cap_secs,
            r.max_attempts == max_attempts,
            r.attempts == 0,
    {
        ReconnectPolicy { base_delay_secs, cap_secs, max_attempts, attempts: 0 }
    }

    /// A successful session resets the consecutive-failure counter to zero.
    pub fn on_success(&mut self)
        ensures
            final(self).attempts == 0,
            final(self).base_delay_secs == old(self).base_delay_secs,
            final(self).cap_secs == old(self).cap_secs,
            final(self).max_attempts == old(self).max_attempts,
    {
        self.attempts = 0;
    }

    /// A failed session: count it, and either give up (the bounded maximum
    /// is reached) or retry after the exponential-backoff delay of this
    /// attempt.
    pub fn on_failure(&mut self) -> (r: RetryDecision)
        requires
            old(self).attempts < u32::MAX,
        ensures
            final(self).attempts == old(self).attempts + 1,
            final(self).base_delay_secs == old(self).base_delay_secs,
            final(self).cap_secs == old(self).cap_secs,
            final(self).max_attempts == old(self).max_attempts,
            if final(self).attempts >= final(self).max_attempts {
                r == RetryDecision::GiveUp
            } else {
                r == RetryDecision::Retry(
                    spec_backoff_delay(
                        old(self).base_delay_secs as int,
                        old(self).cap_secs as int,
                        (old(self).attempts + 1) as nat,
                    ) as u64,
                )
            },
    {
        self.attempts = self.attempts + 1;
        if self.attempts >= self.max_attempts {
            RetryDecision::GiveUp
        } else {
            proof {
                lemma_backoff_delay_bounded(
                    self.base_delay_secs as int,
                    self.cap_secs as int,
                    self.attempts as nat,
                );
            }
            RetryDecision::Retry(backoff_delay(self.base_delay_secs, self.cap_secs, self.attempts))
        }
    }
}

/// Law (backoff closed form): the delay before reconnect attempt `n` is the
/// base delay doubled `n - 1` times, capped at the ceiling.
pub proof fn lemma_backoff_closed_form(base: int, cap: int, attempt: nat)
    requires
        base >= 0,
        cap >= 0,
        attempt >= 1,
    ensures
        spec_backoff_delay(base, cap, attempt) == if base * vstd::arithmetic::power2::pow2(
            (attempt - 1) as nat,
        ) <= cap {
            base * vstd::arithmetic::power2::pow2((attempt - 1) as nat)
        } else {
            cap
        },
    decreases attempt,
{
    broadcast use vstd::arithmetic::power2::lemma_pow2_unfold;
    broadcast use vstd::arithmetic::power2::lemma_pow2_pos;

    if attempt <= 1 {
        let p0 = vstd::arithmetic::power2::pow2(0);
        assert(p0 == 1) by {
            vstd::arithmetic::power::lemma_pow0(2);
        }
        assert(base * p0 == base) by (nonlinear_arith)
            requires p0 == 1;
    } else {
        lemma_backoff_closed_form(base, cap, (attempt - 1) as nat);
        let p_prev = vstd::arithmetic::power2::pow2((attempt - 2) as nat);
        let p_cur = vstd::arithmetic::power2::pow2((attempt - 1) as nat);
        assert(p_cur == 2 * p_prev);
        assert(base * p_cur == 2 * (base * p_prev)) by (nonlinear_arith)
            requires p_cur == 2 * p_prev;
        assert(base * p_prev >= 0) by (nonlinear_arith)
            requires base >= 0, p_prev >= 0;
        assert(base * p_prev <= base * p_cur) by (nonlinear_arith)
            requires base >= 0, 0 <= p_prev, p_cur == 2 * p_prev;
        let d_prev = spec_backoff_delay(base, cap, (attempt - 1) as nat);
        assert(spec_backoff_delay(base, cap, attempt) == if 2 * d_prev <= cap {
            2 * d_prev
        } else {
            cap
        });
        if base * p_prev <= cap {
            assert(d_prev == base * p_prev);
            assert(2 * d_prev == base * p_cur);
        } else {
            assert(d_prev == cap);
            assert(base * p_cur > cap);
            if cap == 0 {
                assert(spec_backoff_delay(base, cap, attempt) == 0);
            } else {
                assert(2 * d_prev > cap);
            }
        }
    }
}

/// Law (backoff): every reconnect delay is at most the cap, and at most the
/// base delay when that is below the cap; and doubling stops at the cap:
/// once an attempt's delay reaches the cap, every later attempt stays there.
pub proof fn lemma_backoff_delay_bounded(base: int, cap: int, attempt: nat)
    requires
        base >= 0,
        cap >= 0,
        attempt >= 1,
    ensures
        spec_backoff_delay(base, cap, attempt) <= cap || spec_backoff_delay(base, cap, attempt)
            == base,
        spec_backoff_delay(base, cap, attempt) >= 0,
        spec_backoff_delay(base, cap, attempt) == cap ==> spec_backoff_delay(
            base,
            cap,
            attempt + 1,
        ) == cap,
    decreases attempt,
{
    if attempt > 1 {
        lemma_backoff_delay_bounded(base, cap, (attempt - 1) as nat);
    }
}

} // verus!
