use inventory::forwarder::{Action, FeedEvent, Forwarder, ForwarderState};
use inventory::publisher::{
    backoff_delay, jittered, next_step, PublishError, PublishStep, Publisher, RetryPolicy, SendOutcome,
};
use inventory::schema::StockAction;
use inventory::translate::{translate, ChangeRecord, Field, FieldValue, TranslationError};

fn text(name: &str, v: &str) -> Field {
    Field { name: name.to_string(), value: FieldValue::Text(v.to_string()) }
}

fn num(name: &str, v: i64) -> Field {
    Field { name: name.to_string(), value: FieldValue::Number(v) }
}

fn record(sequence: u64, product: &str, before: i64, after: i64) -> ChangeRecord {
    ChangeRecord {
        sequence,
        fields: vec![
            text("id", &format!("evt-{}", sequence)),
            text("occurred_at", "2024-05-01T10:00:00Z"),
            text("action", "decrement"),
            text("product_id", product),
            num("units_before", before),
            num("units_after", after),
        ],
    }
}

fn policy() -> RetryPolicy {
    RetryPolicy { max_attempts: 3, base_delay_ms: 100, max_delay_ms: 1000 }
}

fn streaming() -> Forwarder {
    let mut f = Forwarder::new(policy());
    assert!(matches!(f.step(FeedEvent::Start), Action::Subscribe { resume_after: None }));
    assert!(matches!(f.step(FeedEvent::SubscribeAcked), Action::Wait));
    assert_eq!(f.state, ForwarderState::Streaming);
    f
}

#[test]
fn translate_builds_the_event() {
    let e = translate(&record(4, "p1", 10, 3)).unwrap();
    assert_eq!(e.id.id, "evt-4");
    assert_eq!(e.occurred_at, "2024-05-01T10:00:00Z");
    assert_eq!(e.action, StockAction::Decrement);
    assert_eq!(e.product_id.id, "p1");
    assert_eq!(e.units_before, 10);
    assert_eq!(e.units_after, 3);
}

#[test]
fn translate_ignores_extra_fields() {
    let mut r = record(1, "p1", 5, 4);
    r.fields.push(text("warehouse", "north"));
    r.fields.push(Field { name: "tags".to_string(), value: FieldValue::Other });
    assert!(translate(&r).is_ok());
}

#[test]
fn translate_reads_the_last_of_repeated_fields() {
    let mut r = record(1, "p1", 5, 2);
    r.fields.push(text("product_id", "p9"));
    assert_eq!(translate(&r).unwrap().product_id.id, "p9");
}

#[test]
fn record_without_product_id_is_unknown_shape_and_stream_goes_on() {
    let mut bad = record(1, "p1", 10, 3);
    bad.fields.retain(|f| f.name != "product_id");
    assert_eq!(translate(&bad).err(), Some(TranslationError::UnknownShape));

    let mut f = streaming();
    assert!(matches!(f.step(FeedEvent::Received(bad)), Action::SkipMalformed { sequence: 1 }));
    assert_eq!(f.state, ForwarderState::Streaming);
    match f.step(FeedEvent::Received(record(2, "p1", 10, 3))) {
        Action::Publish { sequence, event } => {
            assert_eq!(sequence, 2);
            assert_eq!(event.product_id.id, "p1");
        }
        _ => panic!("expected the next record to be published"),
    }
}

#[test]
fn translate_rejects_wrong_kinds_and_values() {
    let mut negative = record(1, "p1", 10, 3);
    negative.fields[5] = num("units_after", -1);
    assert!(translate(&negative).is_err());

    let mut too_large = record(1, "p1", 10, 3);
    too_large.fields[4] = num("units_before", 70000);
    assert!(translate(&too_large).is_err());

    let mut unknown_action = record(1, "p1", 10, 3);
    unknown_action.fields[2] = text("action", "remove");
    assert!(translate(&unknown_action).is_err());

    let mut empty_id = record(1, "p1", 10, 3);
    empty_id.fields[0] = text("id", "");
    assert!(translate(&empty_id).is_err());

    let mut numeric_product = record(1, "p1", 10, 3);
    numeric_product.fields[3] = num("product_id", 12);
    assert!(translate(&numeric_product).is_err());

    // a decrement whose count went up, or stayed, contradicts its action
    assert!(translate(&record(1, "p1", 3, 10)).is_err());
    assert_eq!(translate(&record(1, "p1", 5, 5)).err(), Some(TranslationError::UnknownShape));
    let mut unchanged_increment = record(1, "p1", 5, 5);
    unchanged_increment.fields[2] = text("action", "increment");
    assert!(translate(&unchanged_increment).is_err());
}

#[test]
fn translate_accepts_increment_and_set() {
    let mut inc = record(1, "p1", 3, 10);
    inc.fields[2] = text("action", "increment");
    assert_eq!(translate(&inc).unwrap().action, StockAction::Increment);
    let mut set = record(1, "p1", 30, 10);
    set.fields[2] = text("action", "set");
    assert_eq!(translate(&set).unwrap().action, StockAction::SetUnits);
    let mut same = record(1, "p1", 10, 10);
    same.fields[2] = text("action", "set");
    assert!(translate(&same).is_ok());
}

#[test]
fn two_transient_failures_then_success_delivers_once() {
    let publisher = Publisher::new("stock_update".to_string(), policy());
    let broker_answers = [SendOutcome::Transient, SendOutcome::Transient, SendOutcome::Acknowledged];
    let mut delivered: Vec<String> = Vec::new();
    let event = translate(&record(7, "p1", 10, 3)).unwrap();
    let message = publisher.message_for(&event);
    let mut attempt: u32 = 1;
    let result = loop {
        let outcome = broker_answers[(attempt - 1) as usize];
        if outcome == SendOutcome::Acknowledged && !delivered.contains(&message.event_id) {
            delivered.push(message.event_id.clone());
        }
        match publisher.after_attempt(attempt, outcome, 0) {
            PublishStep::Delivered => break Ok(()),
            PublishStep::RetryAfter { .. } => attempt += 1,
            PublishStep::Failed(e) => break Err(e),
        }
    };
    assert_eq!(result, Ok(()));
    assert_eq!(attempt, 3);
    assert_eq!(delivered, vec!["evt-7".to_string()]);
}

#[test]
fn retries_stop_at_the_attempt_ceiling() {
    let p = policy();
    assert!(matches!(next_step(&p, 1, SendOutcome::Transient, 0), PublishStep::RetryAfter { .. }));
    assert!(matches!(next_step(&p, 2, SendOutcome::Transient, 0), PublishStep::RetryAfter { .. }));
    assert_eq!(next_step(&p, 3, SendOutcome::Transient, 0), PublishStep::Failed(PublishError::Exhausted));
}

#[test]
fn permanent_error_fails_at_once() {
    assert_eq!(next_step(&policy(), 1, SendOutcome::Permanent, 0), PublishStep::Failed(PublishError::Fatal));
    assert_eq!(next_step(&policy(), 1, SendOutcome::Acknowledged, 0), PublishStep::Delivered);
}

#[test]
fn backoff_doubles_up_to_the_cap() {
    let p = policy();
    assert_eq!(backoff_delay(&p, 0), 100);
    assert_eq!(backoff_delay(&p, 1), 200);
    assert_eq!(backoff_delay(&p, 3), 800);
    assert_eq!(backoff_delay(&p, 4), 1000);
    assert_eq!(backoff_delay(&p, 40), 1000);
    let huge = RetryPolicy { max_attempts: 1, base_delay_ms: u64::MAX, max_delay_ms: u64::MAX };
    assert_eq!(backoff_delay(&huge, 5), u64::MAX);
}

#[test]
fn jitter_stays_between_half_and_full_delay() {
    assert_eq!(jittered(100, 0), 50);
    assert_eq!(jittered(100, 50), 100);
    assert_eq!(jittered(100, 51), 50);
    assert_eq!(jittered(101, 7), 58);
    assert_eq!(jittered(0, 12345), 0);
    // retry delay with jitter applied
    assert_eq!(next_step(&policy(), 2, SendOutcome::Transient, 30), PublishStep::RetryAfter { delay_ms: 130 });
}

#[test]
fn message_is_keyed_by_product_and_tagged_by_event() {
    let publisher = Publisher::new("stock_update".to_string(), policy());
    let m = publisher.message_for(&translate(&record(3, "p42", 8, 1)).unwrap());
    assert_eq!(m.topic, "stock_update");
    assert_eq!(m.key, "p42");
    assert_eq!(m.event_id, "evt-3");
}

#[test]
fn feed_drop_resubscribes_and_skips_handled_records() {
    let mut f = streaming();
    assert!(matches!(f.step(FeedEvent::Received(record(1, "p1", 10, 9))), Action::Publish { sequence: 1, .. }));
    assert!(matches!(f.step(FeedEvent::PublishFinished { sequence: 1, result: Ok(()) }), Action::Wait));
    assert!(matches!(f.step(FeedEvent::FeedEnded), Action::BackOff { delay_ms: 100 }));
    assert_eq!(f.state, ForwarderState::Backoff);
    assert!(matches!(f.step(FeedEvent::BackoffElapsed), Action::Subscribe { resume_after: Some(1) }));
    assert!(matches!(f.step(FeedEvent::SubscribeAcked), Action::Wait));
    assert!(matches!(f.step(FeedEvent::Received(record(1, "p1", 10, 9))), Action::SkipDuplicate { sequence: 1 }));
    assert!(matches!(f.step(FeedEvent::Received(record(2, "p1", 9, 8))), Action::Publish { sequence: 2, .. }));
}

#[test]
fn exhausted_publish_redelivers_after_resubscription() {
    let mut f = streaming();
    assert!(matches!(f.step(FeedEvent::Received(record(5, "p1", 10, 9))), Action::Publish { sequence: 5, .. }));
    let r = f.step(FeedEvent::PublishFinished { sequence: 5, result: Err(PublishError::Exhausted) });
    assert!(matches!(r, Action::BackOff { delay_ms: 100 }));
    assert!(matches!(f.step(FeedEvent::BackoffElapsed), Action::Subscribe { resume_after: None }));
    assert!(matches!(f.step(FeedEvent::SubscribeFailed), Action::BackOff { delay_ms: 200 }));
    assert!(matches!(f.step(FeedEvent::BackoffElapsed), Action::Subscribe { resume_after: None }));
    assert!(matches!(f.step(FeedEvent::SubscribeAcked), Action::Wait));
    assert_eq!(f.failures, 0);
    assert!(matches!(f.step(FeedEvent::Received(record(5, "p1", 10, 9))), Action::Publish { sequence: 5, .. }));
}

#[test]
fn fatal_publish_drops_the_record_and_continues() {
    let mut f = streaming();
    assert!(matches!(f.step(FeedEvent::Received(record(1, "p1", 10, 9))), Action::Publish { .. }));
    assert!(matches!(f.step(FeedEvent::PublishFinished { sequence: 1, result: Err(PublishError::Fatal) }), Action::Wait));
    assert_eq!(f.state, ForwarderState::Streaming);
    assert_eq!(f.last_handled, Some(1));
}

#[test]
fn cancellation_releases_and_stays_stopped() {
    let mut f = streaming();
    assert!(matches!(f.step(FeedEvent::Cancelled), Action::Release));
    assert_eq!(f.state, ForwarderState::ShuttingDown);
    assert!(matches!(f.step(FeedEvent::Start), Action::Release));
    assert!(matches!(f.step(FeedEvent::Received(record(1, "p1", 10, 9))), Action::Release));
    assert_eq!(f.state, ForwarderState::ShuttingDown);
}

#[test]
fn events_out_of_place_are_ignored() {
    let mut f = Forwarder::new(policy());
    assert!(matches!(f.step(FeedEvent::Received(record(1, "p1", 10, 9))), Action::Wait));
    assert!(matches!(f.step(FeedEvent::FeedEnded), Action::Wait));
    assert_eq!(f.state, ForwarderState::Disconnected);
    assert_eq!(f.last_handled, None);
}

#[test]
fn feed_of_acknowledged_records_is_published_once_each() {
    let mut f = streaming();
    let mut published: Vec<u64> = Vec::new();
    for (seq, before) in [(1u64, 10i64), (2, 9), (3, 8)] {
        match f.step(FeedEvent::Received(record(seq, "p1", before, before - 1))) {
            Action::Publish { sequence, event } => {
                assert_eq!(event.id.id, format!("evt-{}", seq));
                published.push(sequence);
            }
            _ => panic!("expected a publish"),
        }
        assert!(matches!(f.step(FeedEvent::PublishFinished { sequence: seq, result: Ok(()) }), Action::Wait));
    }
    assert_eq!(published, vec![1, 2, 3]);
    for seq in [1u64, 2, 3] {
        assert!(matches!(f.step(FeedEvent::Received(record(seq, "p1", 10, 9))), Action::SkipDuplicate { .. }));
    }
    assert_eq!(f.state, ForwarderState::Streaming);
}
