//! The retrying invocation policy: bounded retry with exponential backoff
//! and jitter around a flaky network call. The policy is deterministic in
//! the transport's outcomes; only the jitter draws randomness.

use vstd::prelude::*;

verus! {

/// The number of retries after the first attempt.
pub const MAX_RETRIES: usize = 3;

/// The starting backoff delay in milliseconds.
pub const BASE_DELAY_MS: u64 = 1000;

/// The backoff cap in milliseconds.
pub const DELAY_CAP_MS: u64 = 10000;

/// What one attempt of the wrapped call came back with.
#[derive(Debug)]
pub enum TransportEvent {
    /// A response arrived, with its status code and the server's
    /// retry-after delay in milliseconds when it sent one.
    Status { code: u16, retry_after: Option<u64> },
    /// The transport itself failed, with the error text.
    Failed { message: String },
}

/// A typed network error: the attempt count and the last error text.
#[derive(Debug)]
pub enum RetryError {
    Network { attempts: usize, message: String },
}

/// A rate-limit or overloaded status asks for a retry.
pub open spec fn spec_retryable_status(code: u16) -> bool {
    code == 429 || code == 529
}

/// Whether this status asks for a retry.
pub fn retryable_status(code: u16) -> (b: bool)
    ensures
        b == spec_retryable_status(code),
{
    code == 429 || code == 529
}

/// An event on which the retry loop stops early: a response whose status
/// is not retryable. Transport failures and retryable statuses are retried
/// until the attempts run out.
pub open spec fn spec_stops(e: TransportEvent) -> bool {
    match e {
        TransportEvent::Status { code, .. } => !spec_retryable_status(code),
        TransportEvent::Failed { .. } => false,
    }
}

/// The first index at or after `from` whose event stops the loop, or the
/// sequence's length if none does.
pub open spec fn spec_first_stop_from(events: Seq<TransportEvent>, from: int) -> int
    decreases events.len() - from,
{
    if from < 0 || from >= events.len() {
        events.len() as int
    } else if spec_stops(events[from]) {
        from
    } else {
        spec_first_stop_from(events, from + 1)
    }
}

/// The attempt index on which the loop stops: the first stopping event, or
/// the final allowed attempt.
pub open spec fn spec_final_attempt(events: Seq<TransportEvent>) -> int {
    let f = spec_first_stop_from(events, 0);
    if f <= MAX_RETRIES as int {
        f
    } else {
        MAX_RETRIES as int
    }
}

/// A stopping event behind only non-stopping ones pins the first stop.
proof fn lemma_first_stop_at(events: Seq<TransportEvent>, i: int)
    requires
        0 <= i <= events.len(),
        forall|j: int| 0 <= j < i ==> !spec_stops(#[trigger] events[j]),
        i < events.len() ==> spec_stops(events[i]),
    ensures
        spec_first_stop_from(events, 0) == if i < events.len() {
            i
        } else {
            events.len() as int
        },
    decreases i,
{
    lemma_first_stop_step(events, 0, i);
}

/// Nothing stops before `i`, so the search from `from <= i` passes `i`.
proof fn lemma_first_stop_step(events: Seq<TransportEvent>, from: int, i: int)
    requires
        0 <= from <= i <= events.len(),
        forall|j: int| from <= j < i ==> !spec_stops(#[trigger] events[j]),
        i < events.len() ==> spec_stops(events[i]),
    ensures
        spec_first_stop_from(events, from) == if i < events.len() {
            i
        } else {
            events.len() as int
        },
    decreases i - from,
{
    if from < i {
        lemma_first_stop_step(events, from + 1, i);
    }
}

/// Run the retry policy over the transport's outcomes, one event per
/// attempt, and report the result and the number of attempts made: a
/// non-retryable status returns at once, success or failure; a retryable
/// status or a transport failure is retried up to the bound; the last
/// attempt's response is returned as it is, and a transport failure on the
/// last attempt becomes the typed network error.
pub fn run_retry(events: &Vec<TransportEvent>) -> (r: (Result<u16, RetryError>, usize))
    requires
        events@.len() > MAX_RETRIES || exists|i: int|
            0 <= i < events@.len() && spec_stops(#[trigger] events@[i]),
    ensures
        ({
            let f = spec_final_attempt(events@);
            &&& 0 <= f < events@.len()
            &&& r.1 == f + 1
            &&& match events@[f] {
                TransportEvent::Status { code, .. } => r.0 == Ok::<u16, RetryError>(code),
                TransportEvent::Failed { message } => r.0 matches Err(
                    RetryError::Network { attempts, message: m },
                ) && attempts == f + 1 && m@ == message@,
            }
        }),
{
    let mut attempt: usize = 0;
    loop
        invariant
            attempt <= MAX_RETRIES,
            forall|j: int| 0 <= j < attempt ==> !spec_stops(#[trigger] events@[j]),
            attempt < events@.len(),
            events@.len() > MAX_RETRIES || exists|i: int|
                0 <= i < events@.len() && spec_stops(#[trigger] events@[i]),
        decreases MAX_RETRIES - attempt,
    {
        match &events[attempt] {
            TransportEvent::Status { code, retry_after: _ } => {
                if !retryable_status(*code) || attempt == MAX_RETRIES {
                    proof {
                        if !spec_retryable_status(*code) {
                            lemma_first_stop_at(events@, attempt as int);
                        } else {
                            lemma_first_stop_at_bound(events@, attempt as int);
                        }
                    }
                    return (Ok(*code), attempt + 1);
                }
            },
            TransportEvent::Failed { message } => {
                if attempt == MAX_RETRIES {
                    proof {
                        lemma_first_stop_at_bound(events@, attempt as int);
                    }
                    return (
                        (
                            Err(
                                RetryError::Network {
                                    attempts: attempt + 1,
                                    message: message.clone(),
                                },
                            ),
                            attempt + 1,
                        )
                    );
                }
            },
        }
        attempt += 1;
        proof {
            if attempt >= events@.len() {
                let i = choose|i: int|
                    0 <= i < events@.len() && spec_stops(#[trigger] events@[i]);
            }
        }
    }
}

/// With no stop below the bound, the final attempt is the bound itself.
proof fn lemma_first_stop_at_bound(events: Seq<TransportEvent>, i: int)
    requires
        0 <= i < events.len(),
        i == MAX_RETRIES as int,
        forall|j: int| 0 <= j < i ==> !spec_stops(#[trigger] events[j]),
    ensures
        spec_final_attempt(events) == i,
{
    if spec_stops(events[i]) {
        lemma_first_stop_at(events, i);
    } else {
        lemma_first_stop_min(events, 0, i + 1);
    }
}

/// Nothing stops below `i`, so the first stop is at least `i`.
proof fn lemma_first_stop_min(events: Seq<TransportEvent>, from: int, i: int)
    requires
        0 <= from <= i,
        forall|j: int| from <= j < i ==> !spec_stops(#[trigger] events[j]),
    ensures
        spec_first_stop_from(events, from) >= if i <= events.len() {
            i
        } else {
            events.len() as int
        },
    decreases i - from,
{
    if from < i && from < events.len() {
        lemma_first_stop_min(events, from + 1, i);
    } else {
        lemma_first_stop_lb(events, from);
    }
}

/// The search never stops before where it starts.
proof fn lemma_first_stop_lb(events: Seq<TransportEvent>, from: int)
    requires
        0 <= from,
    ensures
        from <= events.len() ==> spec_first_stop_from(events, from) >= from,
        spec_first_stop_from(events, from) <= events.len(),
    decreases events.len() - from,
{
    if 0 <= from < events.len() && !spec_stops(events[from]) {
        lemma_first_stop_lb(events, from + 1);
    }
}

/// What the retry loop does with one attempt's outcome: hand it back, or
/// back off and try again.
#[derive(Debug)]
pub enum RetryStep {
    /// The outcome is final for this request: a non-retryable status, or
    /// the attempts are exhausted.
    GiveBack,
    /// Wait this many milliseconds, then send the request again verbatim.
    RetryAfter { delay_ms: u64 },
}

/// Decide one attempt, so the sending host holds no retry decisions: a
/// non-retryable status is final, the last allowed attempt is final
/// whatever it got, and anything else backs off — by the server's
/// retry-after delay when it sent one, else the current backoff — plus
/// jitter.
pub fn retry_step(tries: usize, event: &TransportEvent, backoff_ms: u64) -> (r: RetryStep)
    ensures
        r is GiveBack <==> (spec_stops(*event) || tries >= MAX_RETRIES),
        r matches RetryStep::RetryAfter { delay_ms } ==> ({
            let b = match *event {
                TransportEvent::Status { retry_after: Some(v), .. } => v,
                _ => backoff_ms,
            };
            &&& b <= delay_ms
            &&& b <= u64::MAX - 500 ==> delay_ms < b + 500
        }),
{
    match event {
        TransportEvent::Status { code, retry_after } => {
            if !retryable_status(*code) || tries >= MAX_RETRIES {
                RetryStep::GiveBack
            } else {
                RetryStep::RetryAfter { delay_ms: retry_delay_ms(backoff_ms, *retry_after) }
            }
        },
        TransportEvent::Failed { .. } => {
            if tries >= MAX_RETRIES {
                RetryStep::GiveBack
            } else {
                RetryStep::RetryAfter { delay_ms: retry_delay_ms(backoff_ms, None) }
            }
        },
    }
}

/// The next backoff delay: doubled, capped.
pub fn next_delay_ms(delay_ms: u64) -> (r: u64)
    ensures
        r == if 2 * delay_ms <= DELAY_CAP_MS {
            2 * delay_ms
        } else {
            DELAY_CAP_MS as int
        },
{
    if delay_ms <= DELAY_CAP_MS / 2 {
        delay_ms * 2
    } else {
        DELAY_CAP_MS
    }
}

/// The delay before the next attempt: the server's retry-after value when
/// it sent one, else the current backoff delay, plus a uniformly random
/// jitter below half a second.
pub fn retry_delay_ms(base_ms: u64, retry_after: Option<u64>) -> (r: u64)
    ensures
        ({
            let b = match retry_after {
                Some(v) => v,
                None => base_ms,
            };
            &&& b <= r
            &&& b <= u64::MAX - 500 ==> r < b + 500
        }),
{
    let b = match retry_after {
        Some(v) => v,
        None => base_ms,
    };
    let jitter = jitter_ms();
    if jitter <= u64::MAX - b {
        b + jitter
    } else {
        u64::MAX
    }
}

/// A uniformly random jitter below half a second, in milliseconds.
pub fn jitter_ms() -> (r: u64)
    ensures
        r < 500,
{
    let raw: u64 = rand::random::<u64>();
    raw % 500
}

} // verus!
