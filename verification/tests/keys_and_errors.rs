use queue_rs::engine::Fault;
use queue_rs::error::{
    QError, CLOCK_FAILURE, MALFORMED_RECORD, NOT_FOUND, SERIALIZATION_FAILURE, STORE_FAILURE,
};
use queue_rs::keys::{has_prefix, key_name, key_pattern, key_prefix, suffix_name, Key};
use queue_rs::queue::{request_key, Queue, DEFAULT_TTR, LOCK_SECONDS, REMOVE_RETRY_SECONDS};
use queue_rs::store::{Request, Timed};
use queue_rs::{clock_reading, timestamp};
use queue_rs::worker::{after_cycle, retires, Mode, Next, BACKOFF_MILLIS};
use queue_rs::job::Execution;

#[test]
fn keys_are_channel_dot_structure() {
    assert_eq!(key_name("test", Key::MessageId), "test.message_id");
    assert_eq!(key_name("test", Key::Messages), "test.messages");
    assert_eq!(key_name("test", Key::Waiting), "test.waiting");
    assert_eq!(key_name("test", Key::Delayed), "test.delayed");
    assert_eq!(key_name("test", Key::Reserved), "test.reserved");
    assert_eq!(key_name("test", Key::Attempts), "test.attempts");
    assert_eq!(key_name("test", Key::MovingLock), "test.moving_lock");
}

#[test]
fn keys_of_an_empty_channel_begin_with_the_dot() {
    assert_eq!(key_name("", Key::Waiting), ".waiting");
    assert_eq!(suffix_name(Key::MovingLock), "moving_lock");
}

#[test]
fn pattern_matches_every_key_of_the_channel() {
    assert_eq!(key_pattern("queue-test"), "queue-test.*");
}

#[test]
fn error_holds_kind_and_message() {
    let error = QError::new("Redis error", "connection refused".to_string());
    assert_eq!(error.kind(), "Redis error");
    assert_eq!(error.message(), "connection refused");
    assert_eq!(error.to_string(), "QueueError: Redis error connection refused");
    assert!(error.has_kind(STORE_FAILURE));
    assert!(!error.has_kind(NOT_FOUND));
}

#[test]
fn error_of_each_class_has_its_kind() {
    let clock = QError::clock("second time provided was later than self".to_string());
    assert_eq!(clock.kind(), "SystemTimeError");
    assert!(clock.has_kind(CLOCK_FAILURE));
    let json = QError::serialization("expected value at line 1 column 1".to_string());
    assert_eq!(json.kind(), "JsonConvert");
    assert!(json.has_kind(SERIALIZATION_FAILURE));
    assert_eq!(json.message(), "expected value at line 1 column 1");
}

#[test]
fn error_of_each_fault() {
    let none = QError::from_fault(Fault::NoJob);
    assert!(none.has_kind(NOT_FOUND));
    assert_eq!(none.message(), "No job found");
    let malformed = QError::from_fault(Fault::InvalidTtr);
    assert!(malformed.has_kind(MALFORMED_RECORD));
    assert_eq!(malformed.message(), "Invalid ttr");
    let clock = QError::from_fault(Fault::Clock);
    assert!(clock.has_kind(CLOCK_FAILURE));
    assert_eq!(clock.message(), "Time out of range");
    assert_ne!(none.kind(), malformed.kind());
}

#[test]
fn timestamp_is_after_the_year_2020() {
    let now = timestamp().unwrap();
    assert!(now > 1_577_836_800);
    let later = timestamp().unwrap();
    assert!(later >= now);
}

#[test]
fn builders_set_one_field_each() {
    let mut queue = Queue::new("test", redis::Client::open("redis://127.0.0.1/").unwrap());
    queue.ttl(5).delay(10).attempts(3).channel("other");
    assert_eq!(queue.channel, "other");
    assert_eq!(queue.ttr, 5);
    assert_eq!(queue.delay, 10);
    assert_eq!(queue.attempts, 3);
    queue.redis(redis::Client::open("redis://127.0.0.1:1/").unwrap());
    assert_eq!(queue.ttr, 5);
    assert_eq!(queue.channel, "other");
}

#[test]
fn store_that_cannot_be_reached_fails_every_operation() {
    let queue = Queue::new("test", redis::Client::open("redis://127.0.0.1:1/").unwrap());
    let pushed = queue.push_message("{}".to_string());
    assert!(pushed.unwrap_err().has_kind(STORE_FAILURE));
    assert!(queue.reserve(0).unwrap_err().has_kind(STORE_FAILURE));
    assert!(queue.status(1).unwrap_err().has_kind(STORE_FAILURE));
    assert!(queue.delete(1).unwrap_err().has_kind(STORE_FAILURE));
    assert!(queue.remove(1).unwrap_err().has_kind(STORE_FAILURE));
    let cleared = queue.clear().unwrap_err();
    assert!(cleared.has_kind(STORE_FAILURE));
    assert!(!cleared.message().is_empty());
}

#[test]
fn a_run_stops_at_the_first_failure() {
    assert_eq!(after_cycle(Mode::Run, true), Next::Again);
    assert_eq!(after_cycle(Mode::Run, false), Next::Stop);
}

#[test]
fn a_listener_pauses_and_goes_on() {
    assert_eq!(BACKOFF_MILLIS, 1000);
    assert_eq!(after_cycle(Mode::Listen, true), Next::Pause(1000));
    assert_eq!(after_cycle(Mode::Listen, false), Next::Pause(1000));
}

#[test]
fn only_a_job_that_succeeded_is_retired() {
    assert!(retires(&Ok(Execution::Succeeded)));
    assert!(!retires(&Ok(Execution::Failed(QError::new("job", "broken".to_string())))));
    assert!(!retires(&Err(QError::serialization("unreadable".to_string()))));
}

#[test]
fn every_request_goes_to_its_structure() {
    assert_eq!(request_key(&Request::NextId), Some(Key::MessageId));
    assert_eq!(
        request_key(&Request::PutRecord { id: 1, record: "5;x".to_string() }),
        Some(Key::Messages)
    );
    assert_eq!(request_key(&Request::GetRecord { id: 1 }), Some(Key::Messages));
    assert_eq!(request_key(&Request::DropRecord { id: 1 }), Some(Key::Messages));
    assert_eq!(request_key(&Request::HasRecord { id: 1 }), Some(Key::Messages));
    assert_eq!(request_key(&Request::CountAttempt { id: 1 }), Some(Key::Attempts));
    assert_eq!(request_key(&Request::HasAttempts { id: 1 }), Some(Key::Attempts));
    assert_eq!(request_key(&Request::DropAttempts { id: 1 }), Some(Key::Attempts));
    assert_eq!(request_key(&Request::PushHead { id: 1 }), Some(Key::Waiting));
    assert_eq!(request_key(&Request::PopTail), Some(Key::Waiting));
    assert_eq!(request_key(&Request::AwaitTail { timeout: 3 }), Some(Key::Waiting));
    assert_eq!(request_key(&Request::Unlist { id: 1 }), Some(Key::Waiting));
    assert_eq!(
        request_key(&Request::Schedule { set: Timed::Delayed, id: 1, score: 9 }),
        Some(Key::Delayed)
    );
    assert_eq!(
        request_key(&Request::Schedule { set: Timed::Reserved, id: 1, score: 9 }),
        Some(Key::Reserved)
    );
    assert_eq!(request_key(&Request::Due { set: Timed::Delayed, max: 9 }), Some(Key::Delayed));
    assert_eq!(request_key(&Request::DropDue { set: Timed::Reserved, max: 9 }), Some(Key::Reserved));
    assert_eq!(
        request_key(&Request::Unschedule { set: Timed::Reserved, id: 1 }),
        Some(Key::Reserved)
    );
    assert_eq!(request_key(&Request::Lock), Some(Key::MovingLock));
    assert_eq!(request_key(&Request::Keys), None);
    assert_eq!(request_key(&Request::DropKeys { keys: vec!["test.waiting".to_string()] }), None);
    assert_eq!(request_key(&Request::Clock), None);
}

#[test]
fn the_lock_is_held_for_one_second() {
    assert_eq!(LOCK_SECONDS, 1);
    assert!(REMOVE_RETRY_SECONDS > LOCK_SECONDS);
    assert_eq!(DEFAULT_TTR, 300);
}

#[test]
fn clock_reading_is_the_seconds_or_a_clock_failure() {
    assert_eq!(clock_reading(Ok(1_700_000_000)).unwrap(), 1_700_000_000);
    assert_eq!(clock_reading(Ok(0)).unwrap(), 0);
    let failure = clock_reading(Err("second time provided was later than self".to_string()))
        .unwrap_err();
    assert!(failure.has_kind(CLOCK_FAILURE));
    assert_eq!(failure.message(), "second time provided was later than self");
}

#[test]
fn pattern_takes_the_channel_by_the_letter() {
    assert_eq!(key_pattern("test"), "test.*");
    assert_eq!(key_pattern(""), ".*");
    assert_eq!(key_pattern("a*b"), "a\\*b.*");
    assert_eq!(key_pattern("a?[b]"), "a\\?\\[b\\].*");
    assert_eq!(key_pattern("back\\slash"), "back\\\\slash.*");
    assert_eq!(key_pattern("größe"), "größe.*");
}

#[test]
fn prefix_is_the_channel_and_a_dot() {
    assert_eq!(key_prefix("test"), "test.");
    assert_eq!(key_prefix(""), ".");
    assert!(has_prefix("test.waiting", "test."));
    assert!(has_prefix("test.", "test."));
    assert!(has_prefix("anything", ""));
    assert!(!has_prefix("test", "test."));
    assert!(!has_prefix("testx.waiting", "test."));
    assert!(!has_prefix("", "test."));
    assert!(!has_prefix("xtest.waiting", "test."));
    assert!(has_prefix("größe.waiting", "größe."));
}
