//! Per-chat pacing of outgoing requests: how long to wait before a send, and whether to
//! retry after the messenger asked the bot to slow down.

use vstd::prelude::*;

verus! {

/// The least time between two requests to one chat, in milliseconds.
pub const MIN_INTERVAL_MS: u64 = 1000;

/// How many times a request is retried after a "retry after" answer.
pub const MAX_RETRIES: u32 = 2;

/// The wait before sending, given the time since the chat's last request: whatever is
/// left of the minimum interval.
pub open spec fn pre_send_delay_of(elapsed_ms: u64, min_interval_ms: u64) -> u64 {
    if elapsed_ms < min_interval_ms {
        (min_interval_ms - elapsed_ms) as u64
    } else {
        0
    }
}

/// How long to wait before the next request to a chat.
pub fn pre_send_delay_ms(elapsed_ms: u64, min_interval_ms: u64) -> (r: u64)
    ensures
        r == pre_send_delay_of(elapsed_ms, min_interval_ms),
        elapsed_ms + r >= min_interval_ms,
{
    if elapsed_ms < min_interval_ms {
        min_interval_ms - elapsed_ms
    } else {
        0
    }
}

/// The back-off after an answer: `retry_after` is the wait the messenger asked for, in
/// seconds, when it asked for one; at least one second is waited, and only `MAX_RETRIES`
/// retries are made.
pub open spec fn retry_delay_of(attempts: u32, retry_after: Option<u32>) -> Option<u64> {
    match retry_after {
        Some(sec) => if attempts < MAX_RETRIES {
            Some(if sec >= 1 { sec as u64 } else { 1 })
        } else {
            None
        },
        None => None,
    }
}

/// Whether to retry a request, and after how many seconds.
pub fn retry_delay_secs(attempts: u32, retry_after: Option<u32>) -> (r: Option<u64>)
    ensures
        r == retry_delay_of(attempts, retry_after),
{
    match retry_after {
        Some(sec) => if attempts < MAX_RETRIES {
            Some(if sec >= 1 { sec as u64 } else { 1 })
        } else {
            None
        },
        None => None,
    }
}

/// After at most `MAX_RETRIES` retries the answer is handed back as it is.
pub proof fn lemma_retries_are_bounded(attempts: u32, retry_after: Option<u32>)
    requires
        attempts >= MAX_RETRIES,
    ensures
        retry_delay_of(attempts, retry_after) is None,
{
}

} // verus!
