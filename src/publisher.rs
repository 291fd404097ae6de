//! Delivery of stock events to the broker: the message derived from an
//! event, and the retry decisions made after each send attempt.
use vstd::prelude::*;
use crate::schema::StockEvent;

verus! {

/// Retry configuration, supplied from outside.
#[derive(Debug, Clone, Copy, PartialEq, Eq, Structural)]
pub struct RetryPolicy {
    /// Send attempts allowed for one event, the first included.
    pub max_attempts: u32,
    /// Delay before the first retry, in milliseconds.
    pub base_delay_ms: u64,
    /// Upper bound on any delay, in milliseconds.
    pub max_delay_ms: u64,
}

/// How the broker answered one send attempt.
#[derive(Debug, Clone, Copy, PartialEq, Eq, Structural)]
pub enum SendOutcome {
    /// The broker confirmed durable receipt.
    Acknowledged,
    /// The broker was unreachable or timed out.
    Transient,
    /// The message can never be accepted (too large, not serialisable).
    Permanent,
}

/// Why an event was not delivered.
#[derive(Debug, Clone, Copy, PartialEq, Eq, Structural)]
pub enum PublishError {
    /// A permanent error: not retried.
    Fatal,
    /// Every allowed attempt failed transiently.
    Exhausted,
}

/// What the publisher does after an attempt.
#[derive(Debug, Clone, Copy, PartialEq, Eq, Structural)]
pub enum PublishStep {
    /// The event is delivered; nothing more is sent.
    Delivered,
    /// Send again after this many milliseconds.
    RetryAfter { delay_ms: u64 },
    /// Give up with this error.
    Failed(PublishError),
}

pub open spec fn min_nat(a: nat, b: nat) -> nat {
    if a <= b { a } else { b }
}

/// Delay before retry number `retry` (counted from 0): the base delay,
/// doubled for each earlier retry, never above `cap`.
pub open spec fn backoff_spec(base: nat, cap: nat, retry: nat) -> nat
    decreases retry,
{
    if retry == 0 {
        min_nat(base, cap)
    } else {
        min_nat(2 * backoff_spec(base, cap, (retry - 1) as nat), cap)
    }
}

/// The delay `delay` with jitter drawn from `entropy`: somewhere between
/// half of it (rounded up) and all of it.
pub open spec fn jitter_spec(delay: nat, entropy: nat) -> nat {
    ((delay - delay / 2) + entropy % (delay / 2 + 1)) as nat
}

/// The publisher's decision after attempt number `attempt` (from 1).
pub open spec fn step_spec(policy: RetryPolicy, attempt: nat, outcome: SendOutcome, entropy: nat) -> PublishStep {
    match outcome {
        SendOutcome::Acknowledged => PublishStep::Delivered,
        SendOutcome::Permanent => PublishStep::Failed(PublishError::Fatal),
        SendOutcome::Transient => if attempt >= policy.max_attempts {
            PublishStep::Failed(PublishError::Exhausted)
        } else {
            PublishStep::RetryAfter {
                delay_ms: jitter_spec(
                    backoff_spec(policy.base_delay_ms as nat, policy.max_delay_ms as nat, (attempt - 1) as nat),
                    entropy,
                ) as u64,
            }
        },
    }
}

/// Exponential backoff: the delay before retry number `retry`.
pub fn backoff_delay(policy: &RetryPolicy, retry: u32) -> (r: u64)
    ensures
        r == backoff_spec(policy.base_delay_ms as nat, policy.max_delay_ms as nat, retry as nat),
        r <= policy.max_delay_ms,
{
    let cap = policy.max_delay_ms;
    let mut d: u64 = if policy.base_delay_ms <= cap { policy.base_delay_ms } else { cap };
    let mut k: u32 = 0;
    while k < retry
        invariant
            k <= retry,
            cap == policy.max_delay_ms,
            d == backoff_spec(policy.base_delay_ms as nat, cap as nat, k as nat),
            d <= cap,
        decreases retry - k,
    {
        d = if d > cap - d { cap } else { d + d };
        k = k + 1;
    }
    d
}

/// Spreads a delay so that many publishers do not retry in step.
pub fn jittered(delay: u64, entropy: u64) -> (r: u64)
    ensures
        r == jitter_spec(delay as nat, entropy as nat),
        delay - delay / 2 <= r <= delay,
{
    let half = delay / 2;
    (delay - half) + entropy % (half + 1)
}

/// Decides what follows send attempt number `attempt`: transient errors are
/// retried with backoff until `max_attempts` attempts have been made,
/// permanent ones fail at once.
pub fn next_step(policy: &RetryPolicy, attempt: u32, outcome: SendOutcome, entropy: u64) -> (r: PublishStep)
    requires
        attempt >= 1,
    ensures
        r == step_spec(*policy, attempt as nat, outcome, entropy as nat),
        r is RetryAfter ==> attempt < policy.max_attempts,
{
    match outcome {
        SendOutcome::Acknowledged => PublishStep::Delivered,
        SendOutcome::Permanent => PublishStep::Failed(PublishError::Fatal),
        SendOutcome::Transient => if attempt >= policy.max_attempts {
            PublishStep::Failed(PublishError::Exhausted)
        } else {
            let d = backoff_delay(policy, attempt - 1);
            PublishStep::RetryAfter { delay_ms: jittered(d, entropy) }
        },
    }
}

/// The addressing of one broker message. The payload is the event's
/// canonical encoding.
pub struct OutgoingMessage {
    pub topic: String,
    /// The partition key: the product's identifier, so that the events of
    /// one product stay in one ordered partition.
    pub key: String,
    /// Header value that consumers deduplicate by.
    pub event_id: String,
}

/// Sends stock events to one topic under one retry policy.
pub struct Publisher {
    pub topic: String,
    pub policy: RetryPolicy,
}

impl Publisher {
    pub fn new(topic: String, policy: RetryPolicy) -> (r: Publisher)
        ensures
            r.topic == topic,
            r.policy == policy,
    {
        Publisher { topic, policy }
    }

    /// The message that carries `e`: keyed by its product, tagged by its id.
    pub fn message_for(&self, e: &StockEvent) -> (r: OutgoingMessage)
        ensures
            r.topic@ == self.topic@,
            r.key@ == e.product_id.id@,
            r.event_id@ == e.id.id@,
    {
        OutgoingMessage {
            topic: self.topic.clone(),
            key: e.product_id.id.clone(),
            event_id: e.id.id.clone(),
        }
    }

    /// What follows send attempt number `attempt` of one event.
    pub fn after_attempt(&self, attempt: u32, outcome: SendOutcome, entropy: u64) -> (r: PublishStep)
        requires
            attempt >= 1,
        ensures
            r == step_spec(self.policy, attempt as nat, outcome, entropy as nat),
    {
        next_step(&self.policy, attempt, outcome, entropy)
    }
}

} // verus!
