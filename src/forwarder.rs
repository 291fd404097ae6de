//! The change forwarder: subscribe to the store's change feed, translate
//! each record, publish it, and resubscribe whenever the feed or the broker
//! fails. The decisions are made here; the caller performs each action and
//! reports what happened as the next event.
use vstd::prelude::*;
use crate::publisher::{backoff_delay, backoff_spec, PublishError, RetryPolicy};
use crate::schema::StockEvent;
use crate::translate::{describes, translatable, translate, ChangeRecord};

verus! {

/// Where the forwarder stands.
#[derive(Debug, Clone, Copy, PartialEq, Eq, Structural)]
pub enum ForwarderState {
    Disconnected,
    Subscribing,
    Streaming,
    Backoff,
    ShuttingDown,
}

/// What happened since the last action.
pub enum FeedEvent {
    /// The process started the forwarder.
    Start,
    /// The store accepted the subscription.
    SubscribeAcked,
    /// The subscription attempt failed.
    SubscribeFailed,
    /// The change feed closed unexpectedly.
    FeedEnded,
    /// The backoff delay is over.
    BackoffElapsed,
    /// Shutdown was requested; seen only between records.
    Cancelled,
    /// The feed delivered a change record.
    Received(ChangeRecord),
    /// Publishing the record with this sequence token finished.
    PublishFinished { sequence: u64, result: Result<(), PublishError> },
}

/// What the caller is to do next.
pub enum Action {
    /// Subscribe to the change feed, resuming after this sequence token
    /// where the store supports it.
    Subscribe { resume_after: Option<u64> },
    /// Publish this event (with retries), then report `PublishFinished`.
    Publish { sequence: u64, event: StockEvent },
    /// The record does not describe a stock change: log it and go on.
    SkipMalformed { sequence: u64 },
    /// The record was handled before the feed was resumed: drop it.
    SkipDuplicate { sequence: u64 },
    /// Release the feed, if any, and wait this long before resubscribing.
    BackOff { delay_ms: u64 },
    /// Nothing to do but wait for the next event.
    Wait,
    /// Release the feed and stop.
    Release,
}

/// The shape of an action, without the event it may carry.
#[derive(Debug, Clone, Copy, PartialEq, Eq, Structural)]
pub enum ActionKind {
    Subscribe { resume_after: Option<u64> },
    Publish { sequence: u64 },
    SkipMalformed { sequence: u64 },
    SkipDuplicate { sequence: u64 },
    BackOff { delay_ms: u64 },
    Wait,
    Release,
}

impl Action {
    pub open spec fn kind(&self) -> ActionKind {
        match *self {
            Action::Subscribe { resume_after } => ActionKind::Subscribe { resume_after },
            Action::Publish { sequence, event } => ActionKind::Publish { sequence },
            Action::SkipMalformed { sequence } => ActionKind::SkipMalformed { sequence },
            Action::SkipDuplicate { sequence } => ActionKind::SkipDuplicate { sequence },
            Action::BackOff { delay_ms } => ActionKind::BackOff { delay_ms },
            Action::Wait => ActionKind::Wait,
            Action::Release => ActionKind::Release,
        }
    }
}

/// The forwarder's state machine.
#[derive(Debug, Clone, Copy, PartialEq, Eq, Structural)]
pub struct Forwarder {
    pub state: ForwarderState,
    /// Sequence token of the last record whose handling finished (published,
    /// skipped, or dropped as fatal); a resumed feed starts after it.
    pub last_handled: Option<u64>,
    /// Consecutive subscription-level failures, for the backoff delay.
    pub failures: u32,
    /// Backoff bounds for resubscription.
    pub policy: RetryPolicy,
}

/// Whether a record with token `sequence` was handled already.
pub open spec fn already_handled(last: Option<u64>, sequence: u64) -> bool {
    match last {
        Some(a) => sequence <= a,
        None => false,
    }
}

/// The backoff delay after `failures` consecutive failures.
pub open spec fn backoff_after(f: Forwarder) -> u64 {
    backoff_spec(f.policy.base_delay_ms as nat, f.policy.max_delay_ms as nat, f.failures as nat) as u64
}

/// `f` entering backoff after one more failure.
pub open spec fn failed(f: Forwarder) -> Forwarder {
    Forwarder {
        state: ForwarderState::Backoff,
        failures: if f.failures < u32::MAX { (f.failures + 1) as u32 } else { f.failures },
        ..f
    }
}

/// `f` having finished the record with token `sequence`.
pub open spec fn handled(f: Forwarder, sequence: u64) -> Forwarder {
    Forwarder {
        last_handled: if already_handled(f.last_handled, sequence) { f.last_handled } else { Some(sequence) },
        ..f
    }
}

/// The state after event `ev`.
pub open spec fn next(f: Forwarder, ev: FeedEvent) -> Forwarder {
    match (f.state, ev) {
        (ForwarderState::ShuttingDown, _) => f,
        (_, FeedEvent::Cancelled) => Forwarder { state: ForwarderState::ShuttingDown, ..f },
        (ForwarderState::Disconnected, FeedEvent::Start) => Forwarder { state: ForwarderState::Subscribing, ..f },
        (ForwarderState::Subscribing, FeedEvent::SubscribeAcked) => Forwarder {
            state: ForwarderState::Streaming,
            failures: 0,
            ..f
        },
        (ForwarderState::Subscribing, FeedEvent::SubscribeFailed) => failed(f),
        (ForwarderState::Streaming, FeedEvent::FeedEnded) => failed(f),
        (ForwarderState::Backoff, FeedEvent::BackoffElapsed) => Forwarder { state: ForwarderState::Subscribing, ..f },
        (ForwarderState::Streaming, FeedEvent::Received(rec)) =>
            if !already_handled(f.last_handled, rec.sequence) && !translatable(rec.fields@) {
                handled(f, rec.sequence)
            } else {
                f
            },
        (ForwarderState::Streaming, FeedEvent::PublishFinished { sequence, result }) => match result {
            Err(PublishError::Exhausted) => failed(f),
            _ => handled(f, sequence),
        },
        _ => f,
    }
}

/// The action that event `ev` calls for.
pub open spec fn decision(f: Forwarder, ev: FeedEvent) -> ActionKind {
    match (f.state, ev) {
        (ForwarderState::ShuttingDown, _) => ActionKind::Release,
        (_, FeedEvent::Cancelled) => ActionKind::Release,
        (ForwarderState::Disconnected, FeedEvent::Start) => ActionKind::Subscribe { resume_after: f.last_handled },
        (ForwarderState::Subscribing, FeedEvent::SubscribeFailed) => ActionKind::BackOff { delay_ms: backoff_after(f) },
        (ForwarderState::Streaming, FeedEvent::FeedEnded) => ActionKind::BackOff { delay_ms: backoff_after(f) },
        (ForwarderState::Backoff, FeedEvent::BackoffElapsed) => ActionKind::Subscribe { resume_after: f.last_handled },
        (ForwarderState::Streaming, FeedEvent::Received(rec)) =>
            if already_handled(f.last_handled, rec.sequence) {
                ActionKind::SkipDuplicate { sequence: rec.sequence }
            } else if translatable(rec.fields@) {
                ActionKind::Publish { sequence: rec.sequence }
            } else {
                ActionKind::SkipMalformed { sequence: rec.sequence }
            },
        (ForwarderState::Streaming, FeedEvent::PublishFinished { sequence, result }) => match result {
            Err(PublishError::Exhausted) => ActionKind::BackOff { delay_ms: backoff_after(f) },
            _ => ActionKind::Wait,
        },
        _ => ActionKind::Wait,
    }
}

/// Only a cancellation stops the forwarder: feed drops, failed
/// subscriptions and exhausted publishing all lead back to resubscribing.
pub proof fn lemma_only_cancellation_stops(f: Forwarder, ev: FeedEvent)
    ensures
        next(f, ev).state == ForwarderState::ShuttingDown
            ==> f.state == ForwarderState::ShuttingDown || ev is Cancelled,
{
}

/// After the feed drops, the forwarder backs off, resubscribes from the
/// last handled record, streams again, and skips every record that it had
/// already handled when the feed resumes at or before it.
pub proof fn lemma_resume_after_feed_drop(f: Forwarder, rec: ChangeRecord)
    requires
        f.state == ForwarderState::Streaming,
    ensures
        next(f, FeedEvent::FeedEnded).state == ForwarderState::Backoff,
        decision(next(f, FeedEvent::FeedEnded), FeedEvent::BackoffElapsed)
            == (ActionKind::Subscribe { resume_after: f.last_handled }),
        ({
            let t = next(next(next(f, FeedEvent::FeedEnded), FeedEvent::BackoffElapsed), FeedEvent::SubscribeAcked);
            &&& t.state == ForwarderState::Streaming
            &&& t.last_handled == f.last_handled
            &&& already_handled(f.last_handled, rec.sequence)
                ==> decision(t, FeedEvent::Received(rec)) == (ActionKind::SkipDuplicate { sequence: rec.sequence })
        }),
{
}

/// A new record that describes a stock change is published; if publishing
/// is exhausted, the record stays unhandled, so once the feed is resumed and
/// delivers it again it is published again. Once published, it is not
/// published a second time.
pub proof fn lemma_record_delivered_at_least_once(f: Forwarder, rec: ChangeRecord)
    requires
        f.state == ForwarderState::Streaming,
        !already_handled(f.last_handled, rec.sequence),
        translatable(rec.fields@),
    ensures
        decision(f, FeedEvent::Received(rec)) == (ActionKind::Publish { sequence: rec.sequence }),
        next(f, FeedEvent::Received(rec)) == f,
        ({
            let h = next(f, FeedEvent::PublishFinished { sequence: rec.sequence, result: Err(PublishError::Exhausted) });
            let k = next(next(h, FeedEvent::BackoffElapsed), FeedEvent::SubscribeAcked);
            &&& h.state == ForwarderState::Backoff
            &&& h.last_handled == f.last_handled
            &&& decision(k, FeedEvent::Received(rec)) == (ActionKind::Publish { sequence: rec.sequence })
        }),
        ({
            let d = next(f, FeedEvent::PublishFinished { sequence: rec.sequence, result: Ok(()) });
            decision(d, FeedEvent::Received(rec)) == (ActionKind::SkipDuplicate { sequence: rec.sequence })
        }),
{
}

/// The forwarder after each of the first `n` records of `recs` has been
/// received and its publication acknowledged.
#[verifier::opaque]
pub open spec fn after_acked(f: Forwarder, recs: Seq<ChangeRecord>, n: nat) -> Forwarder
    decreases n,
{
    if n == 0 {
        f
    } else {
        let g = after_acked(f, recs, (n - 1) as nat);
        let r = recs[n - 1];
        next(
            next(g, FeedEvent::Received(r)),
            FeedEvent::PublishFinished { sequence: r.sequence, result: Ok(()) },
        )
    }
}

proof fn lemma_acked_step(g: Forwarder, r: ChangeRecord)
    requires
        g.state == ForwarderState::Streaming,
        !already_handled(g.last_handled, r.sequence),
        translatable(r.fields@),
    ensures
        decision(g, FeedEvent::Received(r)) == (ActionKind::Publish { sequence: r.sequence }),
        next(next(g, FeedEvent::Received(r)), FeedEvent::PublishFinished { sequence: r.sequence, result: Ok(()) })
            == (Forwarder { last_handled: Some(r.sequence), ..g }),
{
}

proof fn lemma_duplicate_step(g: Forwarder, r: ChangeRecord)
    requires
        g.state == ForwarderState::Streaming,
        already_handled(g.last_handled, r.sequence),
    ensures
        decision(g, FeedEvent::Received(r)) == (ActionKind::SkipDuplicate { sequence: r.sequence }),
{
}

proof fn lemma_acked_prefix(f: Forwarder, recs: Seq<ChangeRecord>, n: nat)
    requires
        f.state == ForwarderState::Streaming,
        n <= recs.len(),
        forall|i: int| 0 <= i < recs.len() ==> translatable((#[trigger] recs[i]).fields@),
        forall|i: int, j: int| 0 <= i < j < recs.len() ==> (#[trigger] recs[i]).sequence < (#[trigger] recs[j]).sequence,
        forall|i: int| 0 <= i < recs.len() ==> !already_handled(f.last_handled, (#[trigger] recs[i]).sequence),
    ensures
        after_acked(f, recs, n).state == ForwarderState::Streaming,
        after_acked(f, recs, n).last_handled == if n == 0 { f.last_handled } else { Some(recs[n - 1].sequence) },
        forall|k: int| 0 <= k < n ==> decision(after_acked(f, recs, k as nat), FeedEvent::Received(#[trigger] recs[k]))
            == (ActionKind::Publish { sequence: recs[k].sequence }),
    decreases n,
{
    reveal(after_acked);
    if n > 0 {
        let k = n - 1;
        lemma_acked_prefix(f, recs, k as nat);
        let g = after_acked(f, recs, k as nat);
        if k > 0 {
            assert(recs[k - 1].sequence < recs[k as int].sequence);
        }
        assert(!already_handled(g.last_handled, recs[k as int].sequence));
        lemma_acked_step(g, recs[k as int]);
        assert(after_acked(f, recs, n) == next(
            next(g, FeedEvent::Received(recs[k as int])),
            FeedEvent::PublishFinished { sequence: recs[k as int].sequence, result: Ok(()) },
        ));
    }
}

proof fn lemma_all_duplicates(h: Forwarder, recs: Seq<ChangeRecord>)
    requires
        h.state == ForwarderState::Streaming,
        recs.len() > 0,
        h.last_handled == Some(recs[recs.len() - 1].sequence),
        forall|i: int, j: int| 0 <= i < j < recs.len() ==> (#[trigger] recs[i]).sequence < (#[trigger] recs[j]).sequence,
    ensures
        forall|i: int| 0 <= i < recs.len() ==> decision(h, FeedEvent::Received(#[trigger] recs[i]))
            == (ActionKind::SkipDuplicate { sequence: recs[i].sequence }),
{
    let n = recs.len() as int;
    assert forall|i: int| 0 <= i < n implies decision(h, FeedEvent::Received(#[trigger] recs[i]))
        == (ActionKind::SkipDuplicate { sequence: recs[i].sequence }) by {
        if i < n - 1 {
            assert(recs[i].sequence < recs[n - 1].sequence);
        }
        lemma_duplicate_step(h, recs[i]);
    }
}

/// Over a feed of new, well-formed records with increasing sequence tokens
/// whose publications are all acknowledged, the forwarder publishes each
/// record exactly once, in the order received, keeps streaming, and treats
/// any later redelivery of one of them as a duplicate.
pub proof fn lemma_feed_published_once_each(f: Forwarder, recs: Seq<ChangeRecord>)
    requires
        f.state == ForwarderState::Streaming,
        forall|i: int| 0 <= i < recs.len() ==> translatable((#[trigger] recs[i]).fields@),
        forall|i: int, j: int| 0 <= i < j < recs.len() ==> (#[trigger] recs[i]).sequence < (#[trigger] recs[j]).sequence,
        forall|i: int| 0 <= i < recs.len() ==> !already_handled(f.last_handled, (#[trigger] recs[i]).sequence),
    ensures
        forall|k: int| 0 <= k < recs.len() ==> decision(after_acked(f, recs, k as nat), FeedEvent::Received(#[trigger] recs[k]))
            == (ActionKind::Publish { sequence: recs[k].sequence }),
        after_acked(f, recs, recs.len()).state == ForwarderState::Streaming,
        forall|i: int| 0 <= i < recs.len() ==> decision(after_acked(f, recs, recs.len()), FeedEvent::Received(#[trigger] recs[i]))
            == (ActionKind::SkipDuplicate { sequence: recs[i].sequence }),
{
    lemma_acked_prefix(f, recs, recs.len());
    if recs.len() > 0 {
        lemma_all_duplicates(after_acked(f, recs, recs.len()), recs);
    }
}

impl Forwarder {
    /// A disconnected forwarder that has handled nothing yet.
    pub fn new(policy: RetryPolicy) -> (r: Forwarder)
        ensures
            r.state == ForwarderState::Disconnected,
            r.last_handled is None,
            r.failures == 0,
            r.policy == policy,
    {
        Forwarder { state: ForwarderState::Disconnected, last_handled: None, failures: 0, policy }
    }

    fn fail(&mut self) -> (r: Action)
        ensures
            *final(self) == failed(*old(self)),
            r.kind() == (ActionKind::BackOff { delay_ms: backoff_after(*old(self)) }),
    {
        let d = backoff_delay(&self.policy, self.failures);
        self.state = ForwarderState::Backoff;
        if self.failures < u32::MAX {
            self.failures = self.failures + 1;
        }
        Action::BackOff { delay_ms: d }
    }

    fn finish(&mut self, sequence: u64)
        ensures
            *final(self) == handled(*old(self), sequence),
    {
        let done = match self.last_handled {
            Some(a) => sequence <= a,
            None => false,
        };
        if !done {
            self.last_handled = Some(sequence);
        }
    }

    /// Takes one event and returns the action it calls for. Records are
    /// handled in the order received; a malformed one is skipped, never
    /// stalling the stream; exhausted publishing drops the subscription.
    pub fn step(&mut self, ev: FeedEvent) -> (r: Action)
        ensures
            *final(self) == next(*old(self), ev),
            r.kind() == decision(*old(self), ev),
            r matches Action::Publish { sequence, event } ==> {
                &&& ev matches FeedEvent::Received(rec)
                &&& describes(rec.fields@, event)
                &&& event.wf()
            },
    {
        if self.state == ForwarderState::ShuttingDown {
            return Action::Release;
        }
        match ev {
            FeedEvent::Cancelled => {
                self.state = ForwarderState::ShuttingDown;
                Action::Release
            },
            FeedEvent::Start => if self.state == ForwarderState::Disconnected {
                self.state = ForwarderState::Subscribing;
                Action::Subscribe { resume_after: self.last_handled }
            } else {
                Action::Wait
            },
            FeedEvent::SubscribeAcked => {
                if self.state == ForwarderState::Subscribing {
                    self.state = ForwarderState::Streaming;
                    self.failures = 0;
                }
                Action::Wait
            },
            FeedEvent::SubscribeFailed => if self.state == ForwarderState::Subscribing {
                self.fail()
            } else {
                Action::Wait
            },
            FeedEvent::FeedEnded => if self.state == ForwarderState::Streaming {
                self.fail()
            } else {
                Action::Wait
            },
            FeedEvent::BackoffElapsed => if self.state == ForwarderState::Backoff {
                self.state = ForwarderState::Subscribing;
                Action::Subscribe { resume_after: self.last_handled }
            } else {
                Action::Wait
            },
            FeedEvent::Received(rec) => {
                if self.state != ForwarderState::Streaming {
                    return Action::Wait;
                }
                let seen = match self.last_handled {
                    Some(a) => rec.sequence <= a,
                    None => false,
                };
                if seen {
                    return Action::SkipDuplicate { sequence: rec.sequence };
                }
                match translate(&rec) {
                    Ok(event) => Action::Publish { sequence: rec.sequence, event },
                    Err(_) => {
                        self.finish(rec.sequence);
                        Action::SkipMalformed { sequence: rec.sequence }
                    },
                }
            },
            FeedEvent::PublishFinished { sequence, result } => {
                if self.state != ForwarderState::Streaming {
                    return Action::Wait;
                }
                match result {
                    Err(PublishError::Exhausted) => self.fail(),
                    _ => {
                        self.finish(sequence);
                        Action::Wait
                    },
                }
            },
        }
    }
}

} // verus!
