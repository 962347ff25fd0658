use std::collections::{BTreeMap, VecDeque};

use queue_rs::engine::{
    Fault, Outcome, Phase, Step, Task, STATUS_DONE, STATUS_RESERVED, STATUS_WAITING,
};
use queue_rs::error::{MALFORMED_RECORD, NOT_FOUND};
use queue_rs::keys::{key_name, Key};
use queue_rs::store::{Reply, Request, Timed};

/// A store in memory that answers each request as the primitives of a
/// key-value store do, with a clock and a lock that the test sets by hand.
struct Store {
    name: String,
    now: u64,
    counter: u64,
    messages: BTreeMap<u64, String>,
    attempts: BTreeMap<u64, u32>,
    waiting: VecDeque<u64>,
    delayed: BTreeMap<u64, u64>,
    reserved: BTreeMap<u64, u64>,
    locked: bool,
    others: Vec<String>,
    asked: Vec<String>,
}

impl Store {
    fn new(name: &str) -> Store {
        Store {
            name: name.to_string(),
            now: 1_000,
            counter: 0,
            messages: BTreeMap::new(),
            attempts: BTreeMap::new(),
            waiting: VecDeque::new(),
            delayed: BTreeMap::new(),
            reserved: BTreeMap::new(),
            locked: false,
            others: Vec::new(),
            asked: Vec::new(),
        }
    }

    fn timed(&mut self, set: Timed) -> &mut BTreeMap<u64, u64> {
        match set {
            Timed::Delayed => &mut self.delayed,
            Timed::Reserved => &mut self.reserved,
        }
    }

    fn keys(&self) -> Vec<String> {
        let mut keys = Vec::new();
        if self.counter > 0 {
            keys.push(key_name(&self.name, Key::MessageId));
        }
        if !self.messages.is_empty() {
            keys.push(key_name(&self.name, Key::Messages));
        }
        if !self.attempts.is_empty() {
            keys.push(key_name(&self.name, Key::Attempts));
        }
        if !self.waiting.is_empty() {
            keys.push(key_name(&self.name, Key::Waiting));
        }
        if !self.delayed.is_empty() {
            keys.push(key_name(&self.name, Key::Delayed));
        }
        if !self.reserved.is_empty() {
            keys.push(key_name(&self.name, Key::Reserved));
        }
        if self.locked {
            keys.push(key_name(&self.name, Key::MovingLock));
        }
        keys
    }

    fn answer(&mut self, request: &Request) -> Reply {
        self.asked.push(format!("{:?}", request));
        match request {
            Request::NextId => {
                self.counter += 1;
                Reply::Id(self.counter)
            }
            Request::PutRecord { id, record } => {
                self.messages.insert(*id, record.clone());
                Reply::Done
            }
            Request::GetRecord { id } => Reply::Record(self.messages[id].clone()),
            Request::DropRecord { id } => Reply::Flag(self.messages.remove(id).is_some()),
            Request::HasRecord { id } => Reply::Flag(self.messages.contains_key(id)),
            Request::CountAttempt { id } => {
                let count = self.attempts.entry(*id).or_insert(0);
                *count += 1;
                Reply::Attempts(*count)
            }
            Request::HasAttempts { id } => Reply::Flag(self.attempts.contains_key(id)),
            Request::DropAttempts { id } => {
                self.attempts.remove(id);
                Reply::Done
            }
            Request::PushHead { id } => {
                self.waiting.push_front(*id);
                Reply::Done
            }
            Request::PopTail | Request::AwaitTail { .. } => {
                Reply::Popped(self.waiting.pop_back())
            }
            Request::Unlist { id } => {
                self.waiting.retain(|other| other != id);
                Reply::Done
            }
            Request::Schedule { set, id, score } => {
                self.timed(*set).insert(*id, *score);
                Reply::Done
            }
            Request::Due { set, max } => {
                let mut due: Vec<(u64, u64)> = self
                    .timed(*set)
                    .iter()
                    .filter(|(_, score)| **score <= *max)
                    .map(|(id, score)| (*score, *id))
                    .collect();
                due.sort();
                due.reverse();
                Reply::Ids(due.into_iter().map(|(_, id)| id).collect())
            }
            Request::DropDue { set, max } => {
                self.timed(*set).retain(|_, score| *score > *max);
                Reply::Done
            }
            Request::Unschedule { set, id } => {
                self.timed(*set).remove(id);
                Reply::Done
            }
            Request::Lock => {
                let taken = !self.locked;
                self.locked = true;
                Reply::Flag(taken)
            }
            Request::Keys => {
                let mut listed = self.others.clone();
                listed.extend(self.keys());
                Reply::Keys(listed)
            }
            Request::DropKeys { keys } => {
                for key in keys {
                    self.others.retain(|other| other != key);
                    if *key == key_name(&self.name, Key::MessageId) {
                        self.counter = 0;
                    } else if *key == key_name(&self.name, Key::Messages) {
                        self.messages.clear();
                    } else if *key == key_name(&self.name, Key::Attempts) {
                        self.attempts.clear();
                    } else if *key == key_name(&self.name, Key::Waiting) {
                        self.waiting.clear();
                    } else if *key == key_name(&self.name, Key::Delayed) {
                        self.delayed.clear();
                    } else if *key == key_name(&self.name, Key::Reserved) {
                        self.reserved.clear();
                    } else if *key == key_name(&self.name, Key::MovingLock) {
                        self.locked = false;
                    }
                }
                Reply::Done
            }
            Request::Clock => Reply::Time(self.now),
        }
    }

    /// Drives a task to its end.
    fn run(&mut self, begun: (Task, Step)) -> Outcome {
        let (mut task, mut step) = begun;
        loop {
            match step {
                Step::Finish(outcome) => {
                    assert_eq!(task.phase, Phase::Ended);
                    return outcome;
                }
                Step::Ask(request) => {
                    let reply = self.answer(&request);
                    assert!(task.expects(&reply));
                    let next = task.resume(reply);
                    task = next.0;
                    step = next.1;
                }
            }
        }
    }

    /// Drives a task until it asks to pop, and gives it back as it stands.
    fn run_to_pop(&mut self, begun: (Task, Step)) -> (Task, Step) {
        let (mut task, mut step) = begun;
        loop {
            match step {
                Step::Ask(Request::PopTail)
                | Step::Ask(Request::AwaitTail { .. })
                | Step::Finish(_) => return (task, step),
                Step::Ask(request) => {
                    let reply = self.answer(&request);
                    let next = task.resume(reply);
                    task = next.0;
                    step = next.1;
                }
            }
        }
    }

    fn push(&mut self, payload: &str, ttr: u32, delay: u32) -> u64 {
        self.run(Task::push(payload, ttr, delay)).into_pushed().unwrap()
    }

    fn reserve(&mut self) -> Result<(u64, String, u32, u32), String> {
        self.run(Task::reserve(0)).into_reserved().map_err(|error| error.kind().to_string())
    }

    fn status(&mut self, id: u64) -> u8 {
        self.run(Task::status(id)).into_status()
    }

    fn delete(&mut self, id: u64) {
        assert!(matches!(self.run(Task::delete(id)), Outcome::Deleted));
    }

    fn remove(&mut self, id: u64) -> Option<bool> {
        self.run(Task::remove(id)).into_removed()
    }

    /// Lets the time pass: the clock goes on, and the moving lock expires.
    fn wait(&mut self, seconds: u64) {
        self.now += seconds;
        if seconds >= 1 {
            self.locked = false;
        }
    }

    fn waiting(&self) -> Vec<u64> {
        self.waiting.iter().copied().collect()
    }
}

#[test]
fn status_codes_are_one_two_three() {
    assert_eq!(STATUS_WAITING, 1);
    assert_eq!(STATUS_RESERVED, 2);
    assert_eq!(STATUS_DONE, 3);
}

#[test]
fn push_asks_for_id_record_clock_and_place() {
    let mut store = Store::new("test");
    store.now = 50;
    let outcome = store.run(Task::push("job", 300, 0));
    assert!(matches!(outcome, Outcome::Pushed(1)));
    assert_eq!(
        store.asked,
        vec![
            "NextId".to_string(),
            "PutRecord { id: 1, record: \"300;job\" }".to_string(),
            "Clock".to_string(),
            "PushHead { id: 1 }".to_string(),
        ]
    );
}

#[test]
fn pushed_job_waits_in_order_of_arrival() {
    let mut store = Store::new("test");
    let a = store.push("A", 300, 0);
    assert_eq!(store.status(a), STATUS_WAITING);
    let b = store.push("B", 300, 0);
    let c = store.push("C", 300, 0);
    assert_eq!((a, b, c), (1, 2, 3));
    assert_eq!(store.status(b), STATUS_WAITING);
    assert_eq!(store.waiting(), vec![3, 2, 1]);
    assert_eq!(store.reserve().unwrap(), (1, "A".to_string(), 300, 1));
    assert_eq!(store.reserve().unwrap(), (2, "B".to_string(), 300, 1));
    assert_eq!(store.reserve().unwrap(), (3, "C".to_string(), 300, 1));
    assert_eq!(store.reserve(), Err(NOT_FOUND.to_string()));
}

#[test]
fn delayed_job_is_kept_back_until_its_time() {
    let mut store = Store::new("test");
    store.now = 100;
    let id = store.push("later", 300, 10);
    assert_eq!(store.status(id), STATUS_WAITING);
    assert!(store.waiting().is_empty());
    assert_eq!(store.delayed.get(&id), Some(&110));
    assert_eq!(store.reserve(), Err(NOT_FOUND.to_string()));
    store.wait(9);
    assert_eq!(store.reserve(), Err(NOT_FOUND.to_string()));
    assert_eq!(store.delayed.get(&id), Some(&110));
    store.wait(1);
    let (task, step) = store.run_to_pop(Task::reserve(0));
    assert_eq!(store.waiting(), vec![id]);
    assert!(store.delayed.is_empty());
    let outcome = store.run((task, step));
    assert!(matches!(outcome, Outcome::Reserved { id: 1, ttr: 300, attempts: 1, .. }));
}

#[test]
fn sweep_is_skipped_while_the_lock_is_held() {
    let mut store = Store::new("test");
    store.now = 100;
    let id = store.push("later", 300, 10);
    store.now = 200;
    store.locked = true;
    assert_eq!(store.reserve(), Err(NOT_FOUND.to_string()));
    assert_eq!(store.delayed.get(&id), Some(&110));
    store.locked = false;
    assert_eq!(store.reserve().unwrap().0, id);
}

#[test]
fn interleaved_reservers_share_the_jobs_without_repeats() {
    let mut store = Store::new("test");
    let jobs: u64 = 20;
    for n in 0..jobs {
        store.push(&format!("job {}", n), 300, 0);
    }
    let reservers = 7;
    let mut got: Vec<u64> = Vec::new();
    let mut running: Vec<Option<(Task, Step)>> = Vec::new();
    for _ in 0..reservers {
        running.push(Some(Task::reserve(0)));
    }
    while running.iter().any(|slot| slot.is_some()) {
        for slot in running.iter_mut() {
            match slot.take() {
                Some((task, Step::Ask(request))) => {
                    let reply = store.answer(&request);
                    *slot = Some(task.resume(reply));
                }
                Some((_, Step::Finish(Outcome::Reserved { id, .. }))) => {
                    got.push(id);
                    *slot = Some(Task::reserve(0));
                }
                Some((_, Step::Finish(outcome))) => {
                    assert!(matches!(outcome, Outcome::Failed(Fault::NoJob)));
                }
                None => {}
            }
        }
    }
    let mut sorted = got.clone();
    sorted.sort();
    sorted.dedup();
    assert_eq!(got.len() as u64, jobs);
    assert_eq!(sorted, (1..=jobs).collect::<Vec<u64>>());
}

#[test]
fn status_follows_the_life_of_a_job() {
    let mut store = Store::new("test");
    let id = store.push("job", 300, 0);
    assert_eq!(store.status(id), STATUS_WAITING);
    let job = store.reserve().unwrap();
    assert_eq!(job.0, id);
    assert_eq!(store.status(id), STATUS_RESERVED);
    store.delete(id);
    assert_eq!(store.status(id), STATUS_DONE);
    assert!(store.messages.is_empty());
    assert!(store.attempts.is_empty());
    assert!(store.reserved.is_empty());
}

#[test]
fn status_of_an_id_that_was_never_pushed_is_done() {
    let mut store = Store::new("test");
    assert_eq!(store.status(42), STATUS_DONE);
}

#[test]
fn remove_finds_a_job_that_waits_and_none_that_is_done() {
    let mut store = Store::new("test");
    let id = store.push("job", 300, 0);
    let other = store.push("other", 300, 0);
    assert_eq!(store.remove(id), Some(true));
    assert_eq!(store.status(id), STATUS_DONE);
    assert_eq!(store.waiting(), vec![other]);
    store.wait(1);
    assert_eq!(store.remove(id), Some(false));
    assert_eq!(store.status(id), STATUS_DONE);
}

#[test]
fn remove_clears_a_delayed_and_a_reserved_job() {
    let mut store = Store::new("test");
    let delayed = store.push("delayed", 300, 60);
    let reserved = store.push("reserved", 300, 0);
    store.locked = true;
    assert_eq!(store.reserve().unwrap().0, reserved);
    store.locked = false;
    assert_eq!(store.remove(delayed), Some(true));
    store.wait(1);
    assert_eq!(store.remove(reserved), Some(true));
    assert!(store.delayed.is_empty());
    assert!(store.reserved.is_empty());
    assert!(store.attempts.is_empty());
    assert!(store.messages.is_empty());
    assert_eq!(store.status(reserved), STATUS_DONE);
}

#[test]
fn remove_does_nothing_while_the_lock_is_held() {
    let mut store = Store::new("test");
    let id = store.push("job", 300, 0);
    store.locked = true;
    assert_eq!(store.remove(id), None);
    assert_eq!(store.status(id), STATUS_WAITING);
    assert_eq!(store.waiting(), vec![id]);
}

#[test]
fn lapsed_reservation_is_handed_out_again_with_one_more_attempt() {
    let mut store = Store::new("test");
    let id = store.push("job", 5, 0);
    for attempt in 1..=4u32 {
        let job = store.reserve().unwrap();
        assert_eq!(job, (id, "job".to_string(), 5, attempt));
        assert_eq!(store.reserved.get(&id), Some(&(store.now + 5)));
        store.wait(4);
        assert_eq!(store.reserve(), Err(NOT_FOUND.to_string()));
        store.wait(1);
    }
}

#[test]
fn malformed_record_fails_the_reservation_and_stays() {
    let mut store = Store::new("test");
    store.counter = 1;
    store.messages.insert(1, "soon;{}".to_string());
    store.waiting.push_front(1);
    let outcome = store.run(Task::reserve(0));
    assert!(matches!(outcome, Outcome::Failed(Fault::InvalidTtr)));
    let error = outcome.into_reserved().unwrap_err();
    assert!(error.has_kind(MALFORMED_RECORD));
    assert_eq!(error.message(), "Invalid ttr");
    assert_eq!(store.messages.get(&1), Some(&"soon;{}".to_string()));
    assert!(store.attempts.is_empty());
    assert!(store.reserved.is_empty());
}

#[test]
fn empty_queue_has_no_job() {
    let mut store = Store::new("test");
    let outcome = store.run(Task::reserve(0));
    assert!(matches!(outcome, Outcome::Failed(Fault::NoJob)));
    let error = outcome.into_reserved().unwrap_err();
    assert!(error.has_kind(NOT_FOUND));
    assert_eq!(error.message(), "No job found");
}

#[test]
fn reservation_with_timeout_asks_for_a_blocking_pop() {
    let mut store = Store::new("test");
    store.locked = true;
    let outcome = store.run(Task::reserve(30));
    assert!(matches!(outcome, Outcome::Failed(Fault::NoJob)));
    assert_eq!(store.asked, vec!["Lock".to_string(), "AwaitTail { timeout: 30 }".to_string()]);
}

#[test]
fn popped_zero_is_no_job() {
    let (task, _) = Task::reserve(0);
    let (task, step) = task.resume(Reply::Flag(false));
    assert!(matches!(step, Step::Ask(Request::PopTail)));
    let (task, step) = task.resume(Reply::Popped(Some(0)));
    assert!(matches!(step, Step::Finish(Outcome::Failed(Fault::NoJob))));
    assert_eq!(task.phase, Phase::Ended);
    assert!(!task.expects(&Reply::Done));
}

#[test]
fn clock_that_is_too_late_fails_push_and_reserve() {
    let mut store = Store::new("test");
    store.now = u64::MAX - 5;
    assert!(matches!(store.run(Task::push("job", 300, 6)), Outcome::Failed(Fault::Clock)));
    assert!(matches!(store.run(Task::push("job", 5, 5)), Outcome::Pushed(2)));
    assert_eq!(store.delayed.get(&2), Some(&u64::MAX));
    assert!(matches!(store.run(Task::push("job", 6, 0)), Outcome::Pushed(3)));
    store.locked = true;
    assert!(matches!(store.run(Task::reserve(0)), Outcome::Failed(Fault::Clock)));
}

#[test]
fn sweep_puts_the_due_ids_behind_the_waiting_ones() {
    let mut store = Store::new("test");
    store.now = 10;
    let a = store.push("a", 300, 5);
    let b = store.push("b", 300, 7);
    let c = store.push("c", 300, 0);
    let d = store.push("d", 300, 50);
    store.now = 17;
    let (_, step) = store.run_to_pop(Task::reserve(0));
    assert!(matches!(step, Step::Ask(Request::PopTail)));
    assert_eq!(store.waiting(), vec![a, b, c]);
    assert_eq!(store.delayed.keys().copied().collect::<Vec<u64>>(), vec![d]);
    assert!(store.asked.contains(&"PushHead { id: 1 }".to_string()));
    assert!(store.asked.contains(&"PushHead { id: 2 }".to_string()));
}

#[test]
fn clear_deletes_every_key() {
    let mut store = Store::new("test");
    store.push("a", 300, 0);
    store.push("b", 300, 10);
    store.reserve().unwrap();
    assert_eq!(store.keys().len(), 6);
    assert!(matches!(store.run(Task::clear("test")), Outcome::Cleared));
    assert!(store.keys().is_empty());
    assert_eq!(store.counter, 0);
    store.asked.clear();
    assert!(matches!(store.run(Task::clear("test")), Outcome::Cleared));
    assert_eq!(store.asked, vec!["Keys".to_string()]);
}

#[test]
fn delete_asks_for_record_attempts_and_reserved() {
    let mut store = Store::new("test");
    store.delete(9);
    assert_eq!(
        store.asked,
        vec![
            "DropRecord { id: 9 }".to_string(),
            "DropAttempts { id: 9 }".to_string(),
            "Unschedule { set: Reserved, id: 9 }".to_string(),
        ]
    );
}

#[test]
fn job_lives_from_push_to_delete() {
    let mut store = Store::new("test");
    let id = store.push("payloadA", 5, 0);
    assert_eq!(id, 1);
    assert_eq!(store.status(1), STATUS_WAITING);
    assert_eq!(store.reserve().unwrap(), (1, "payloadA".to_string(), 5, 1));
    assert_eq!(store.status(1), STATUS_RESERVED);
    store.wait(6);
    let (task, step) = store.run_to_pop(Task::reserve(0));
    assert_eq!(store.waiting(), vec![1]);
    assert!(store.reserved.is_empty());
    let again = store.run((task, step)).into_reserved().unwrap();
    assert_eq!(again, (1, "payloadA".to_string(), 5, 2));
    store.delete(1);
    assert_eq!(store.status(1), STATUS_DONE);
}

#[test]
fn recovered_job_is_served_after_those_that_waited() {
    let mut store = Store::new("test");
    let a = store.push("A", 5, 0);
    assert_eq!(store.reserve().unwrap().0, a);
    let b = store.push("B", 5, 0);
    let c = store.push("C", 5, 0);
    store.wait(6);
    let (task, step) = store.run_to_pop(Task::reserve(0));
    assert_eq!(store.waiting(), vec![a, c, b]);
    assert_eq!(store.run((task, step)).into_reserved().unwrap(), (b, "B".to_string(), 5, 1));
    assert_eq!(store.reserve().unwrap(), (c, "C".to_string(), 5, 1));
    assert_eq!(store.reserve().unwrap(), (a, "A".to_string(), 5, 2));
}

#[test]
fn due_job_is_served_after_those_that_waited() {
    let mut store = Store::new("test");
    let late = store.push("late", 300, 3);
    let first = store.push("first", 300, 0);
    let second = store.push("second", 300, 0);
    store.wait(3);
    assert_eq!(store.reserve().unwrap().0, first);
    assert_eq!(store.reserve().unwrap().0, second);
    assert_eq!(store.reserve().unwrap().0, late);
}

#[test]
fn clear_leaves_the_keys_of_others_alone() {
    let mut store = Store::new("test");
    store.push("a", 300, 0);
    store.others = vec![
        "other.waiting".to_string(),
        "testx.messages".to_string(),
        "test".to_string(),
        "tes".to_string(),
        "".to_string(),
        "test.leftover".to_string(),
        "xtest.waiting".to_string(),
    ];
    assert!(matches!(store.run(Task::clear("test")), Outcome::Cleared));
    assert!(store.keys().is_empty());
    assert_eq!(
        store.others,
        vec![
            "other.waiting".to_string(),
            "testx.messages".to_string(),
            "test".to_string(),
            "tes".to_string(),
            "".to_string(),
            "xtest.waiting".to_string(),
        ]
    );
}

#[test]
fn clear_deletes_nothing_where_no_listed_key_is_of_the_channel() {
    let mut store = Store::new("test");
    store.others = vec!["other.waiting".to_string(), "test-2.waiting".to_string()];
    assert!(matches!(store.run(Task::clear("test")), Outcome::Cleared));
    assert_eq!(store.asked, vec!["Keys".to_string()]);
    assert_eq!(store.others.len(), 2);
}

#[test]
fn clear_asks_to_delete_the_keys_of_the_channel_only() {
    let (task, step) = Task::clear("a*");
    assert!(matches!(step, Step::Ask(Request::Keys)));
    let listed = vec![
        "ab.waiting".to_string(),
        "a*.waiting".to_string(),
        "a.messages".to_string(),
        "a*.messages".to_string(),
    ];
    let (_, step) = task.resume(Reply::Keys(listed));
    match step {
        Step::Ask(Request::DropKeys { keys }) => {
            assert_eq!(keys, vec!["a*.waiting".to_string(), "a*.messages".to_string()]);
        }
        _ => panic!("the clearing was meant to delete two keys"),
    }
}
