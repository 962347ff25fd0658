//! What the queue asks of the backing store, and a model of how a store
//! answers.
//!
//! The engine needs a handful of primitives: an atomic counter, a hash, a list
//! with pops at one end, a set sorted by score, and a lock that is taken only
//! where it is free. `Request` and `Reply` name them for one channel, and
//! `Channel` with `accepts` and `after` says what each of them means.

use vstd::prelude::*;
use crate::keys::{key_text, Key};

verus! {

/// The two sets of a channel that are sorted by a time.
#[derive(Clone, Copy, Debug, PartialEq, Eq, Structural)]
pub enum Timed {
    /// Ids that become ready at their score.
    Delayed,
    /// Ids whose reservation lapses at their score.
    Reserved,
}

/// One thing that an operation asks of its surroundings: a primitive of the
/// store on one of the channel's structures, or the time.
#[derive(Debug)]
pub enum Request {
    /// Increment the id counter by one and give its new value.
    NextId,
    /// Set the record of `id` in the message hash.
    PutRecord { id: u64, record: String },
    /// Get the record of `id` from the message hash.
    GetRecord { id: u64 },
    /// Delete the record of `id` from the message hash, and say whether there
    /// was one.
    DropRecord { id: u64 },
    /// Say whether the message hash has a record of `id`.
    HasRecord { id: u64 },
    /// Increment the attempts of `id` by one and give the new count.
    CountAttempt { id: u64 },
    /// Say whether the attempts hash has an entry for `id`.
    HasAttempts { id: u64 },
    /// Delete the entry of `id` from the attempts hash.
    DropAttempts { id: u64 },
    /// Push `id` at the head of the waiting list, the end away from the pops.
    PushHead { id: u64 },
    /// Pop the id at the tail of the waiting list, if there is one.
    PopTail,
    /// Pop the id at the tail of the waiting list, and wait up to `timeout`
    /// seconds for one where the list is empty.
    AwaitTail { timeout: u64 },
    /// Remove every occurrence of `id` from the waiting list.
    Unlist { id: u64 },
    /// Add `id` to a sorted set with the score `score`, or update its score.
    Schedule { set: Timed, id: u64, score: u64 },
    /// Give the ids of a sorted set whose score is at most `max`.
    Due { set: Timed, max: u64 },
    /// Remove from a sorted set every id whose score is at most `max`.
    DropDue { set: Timed, max: u64 },
    /// Remove `id` from a sorted set.
    Unschedule { set: Timed, id: u64 },
    /// Take the moving lock for one second if nobody holds it, and say whether
    /// it was taken.
    Lock,
    /// Give the keys of the channel that exist.
    Keys,
    /// Delete the given keys.
    DropKeys { keys: Vec<String> },
    /// Give the unix time in seconds.
    Clock,
}

/// The answer to a request.
#[derive(Debug)]
pub enum Reply {
    /// The request was carried out; it has nothing to tell.
    Done,
    /// The new value of the id counter.
    Id(u64),
    /// The answer to a question.
    Flag(bool),
    /// A message record.
    Record(String),
    /// The new number of attempts.
    Attempts(u32),
    /// The id that was popped, if there was one.
    Popped(Option<u64>),
    /// Ids of a sorted set.
    Ids(Vec<u64>),
    /// Keys of the store.
    Keys(Vec<String>),
    /// The unix time in seconds.
    Time(u64),
}

/// The texts of a list of strings.
pub open spec fn texts(list: Seq<String>) -> Seq<Seq<char>> {
    Seq::new(list.len(), |i: int| list[i]@)
}

/// A request as a mathematical value.
pub ghost enum RequestView {
    NextId,
    PutRecord { id: u64, record: Seq<char> },
    GetRecord { id: u64 },
    DropRecord { id: u64 },
    HasRecord { id: u64 },
    CountAttempt { id: u64 },
    HasAttempts { id: u64 },
    DropAttempts { id: u64 },
    PushHead { id: u64 },
    PopTail,
    AwaitTail { timeout: u64 },
    Unlist { id: u64 },
    Schedule { set: Timed, id: u64, score: u64 },
    Due { set: Timed, max: u64 },
    DropDue { set: Timed, max: u64 },
    Unschedule { set: Timed, id: u64 },
    Lock,
    Keys,
    DropKeys { keys: Seq<Seq<char>> },
    Clock,
}

/// A reply as a mathematical value.
pub ghost enum ReplyView {
    Done,
    Id(u64),
    Flag(bool),
    Record(Seq<char>),
    Attempts(u32),
    Popped(Option<u64>),
    Ids(Seq<u64>),
    Keys(Seq<Seq<char>>),
    Time(u64),
}

impl View for Request {
    type V = RequestView;

    open spec fn view(&self) -> RequestView {
        match self {
            Request::NextId => RequestView::NextId,
            Request::PutRecord { id, record } => RequestView::PutRecord { id: *id, record: record@ },
            Request::GetRecord { id } => RequestView::GetRecord { id: *id },
            Request::DropRecord { id } => RequestView::DropRecord { id: *id },
            Request::HasRecord { id } => RequestView::HasRecord { id: *id },
            Request::CountAttempt { id } => RequestView::CountAttempt { id: *id },
            Request::HasAttempts { id } => RequestView::HasAttempts { id: *id },
            Request::DropAttempts { id } => RequestView::DropAttempts { id: *id },
            Request::PushHead { id } => RequestView::PushHead { id: *id },
            Request::PopTail => RequestView::PopTail,
            Request::AwaitTail { timeout } => RequestView::AwaitTail { timeout: *timeout },
            Request::Unlist { id } => RequestView::Unlist { id: *id },
            Request::Schedule { set, id, score } => RequestView::Schedule {
                set: *set,
                id: *id,
                score: *score,
            },
            Request::Due { set, max } => RequestView::Due { set: *set, max: *max },
            Request::DropDue { set, max } => RequestView::DropDue { set: *set, max: *max },
            Request::Unschedule { set, id } => RequestView::Unschedule { set: *set, id: *id },
            Request::Lock => RequestView::Lock,
            Request::Keys => RequestView::Keys,
            Request::DropKeys { keys } => RequestView::DropKeys { keys: texts(keys@) },
            Request::Clock => RequestView::Clock,
        }
    }
}

impl View for Reply {
    type V = ReplyView;

    open spec fn view(&self) -> ReplyView {
        match self {
            Reply::Done => ReplyView::Done,
            Reply::Id(id) => ReplyView::Id(*id),
            Reply::Flag(flag) => ReplyView::Flag(*flag),
            Reply::Record(record) => ReplyView::Record(record@),
            Reply::Attempts(count) => ReplyView::Attempts(*count),
            Reply::Popped(id) => ReplyView::Popped(*id),
            Reply::Ids(ids) => ReplyView::Ids(ids@),
            Reply::Keys(keys) => ReplyView::Keys(texts(keys@)),
            Reply::Time(now) => ReplyView::Time(*now),
        }
    }
}

/// Whether a reply is of the form in which a request is answered.
pub open spec fn answers(request: RequestView, reply: ReplyView) -> bool {
    match request {
        RequestView::NextId => reply is Id,
        RequestView::GetRecord { .. } => reply is Record,
        RequestView::DropRecord { .. } | RequestView::HasRecord { .. }
        | RequestView::HasAttempts { .. } | RequestView::Lock => reply is Flag,
        RequestView::CountAttempt { .. } => reply is Attempts,
        RequestView::PopTail | RequestView::AwaitTail { .. } => reply is Popped,
        RequestView::Due { .. } => reply is Ids,
        RequestView::Keys => reply is Keys,
        RequestView::Clock => reply is Time,
        _ => reply is Done,
    }
}

/// A list of ids without every occurrence of `id`.
pub open spec fn without(list: Seq<u64>, id: u64) -> Seq<u64> {
    list.filter(|other: u64| other != id)
}

/// The state of one channel in the store.
pub ghost struct Channel {
    /// The channel's name, which leads each of its keys.
    pub name: Seq<char>,
    /// The last id that the counter issued.
    pub counter: nat,
    /// The message records, by id.
    pub messages: Map<u64, Seq<char>>,
    /// How often each id was reserved.
    pub attempts: Map<u64, nat>,
    /// The waiting list, from its head to its tail.
    pub waiting: Seq<u64>,
    /// The delayed ids, each with the time at which it becomes ready.
    pub delayed: Map<u64, u64>,
    /// The reserved ids, each with the time at which its reservation lapses.
    pub reserved: Map<u64, u64>,
    /// Whether somebody holds the moving lock.
    pub locked: bool,
}

impl Channel {
    /// One of the two sorted sets.
    pub open spec fn timed(self, set: Timed) -> Map<u64, u64> {
        match set {
            Timed::Delayed => self.delayed,
            Timed::Reserved => self.reserved,
        }
    }

    /// This channel with one of the two sorted sets replaced.
    pub open spec fn with_timed(self, set: Timed, entries: Map<u64, u64>) -> Channel {
        match set {
            Timed::Delayed => Channel { delayed: entries, ..self },
            Timed::Reserved => Channel { reserved: entries, ..self },
        }
    }

    /// How often `id` was reserved.
    pub open spec fn attempts_of(self, id: u64) -> nat {
        if self.attempts.contains_key(id) {
            self.attempts[id]
        } else {
            0
        }
    }

    /// Whether the counter has issued `id`.
    pub open spec fn issued(self, id: u64) -> bool {
        0 < id <= self.counter
    }

    /// Whether `id` stands in the waiting list, the delayed set or the
    /// reserved set.
    pub open spec fn placed(self, id: u64) -> bool {
        self.waiting.contains(id) || self.delayed.contains_key(id) || self.reserved.contains_key(
            id,
        )
    }

    /// What holds of a channel that only the queue has written to: every id
    /// in it was issued by the counter, and no id stands in more than one of
    /// the waiting list, the delayed set and the reserved set, or twice in
    /// the waiting list.
    pub open spec fn valid(self) -> bool {
        &&& forall|id: u64| #[trigger] self.messages.contains_key(id) ==> self.issued(id)
        &&& forall|id: u64| #[trigger] self.attempts.contains_key(id) ==> self.issued(id)
        &&& forall|id: u64| #[trigger] self.delayed.contains_key(id) ==> self.issued(id)
        &&& forall|id: u64| #[trigger] self.reserved.contains_key(id) ==> self.issued(id)
        &&& forall|i: int| 0 <= i < self.waiting.len() ==> self.issued(#[trigger] self.waiting[i])
        &&& self.waiting.no_duplicates()
        &&& forall|id: u64|
            !(#[trigger] self.delayed.contains_key(id) && self.reserved.contains_key(id))
        &&& forall|i: int|
            0 <= i < self.waiting.len() ==> !self.delayed.contains_key(#[trigger] self.waiting[i])
                && !self.reserved.contains_key(self.waiting[i])
    }

    /// Whether the store has the key of a structure: an empty structure has
    /// none.
    pub open spec fn has_key(self, key: Key) -> bool {
        match key {
            Key::MessageId => self.counter > 0,
            Key::Messages => exists|id: u64| self.messages.contains_key(id),
            Key::Waiting => self.waiting.len() > 0,
            Key::Delayed => exists|id: u64| self.delayed.contains_key(id),
            Key::Reserved => exists|id: u64| self.reserved.contains_key(id),
            Key::Attempts => exists|id: u64| self.attempts.contains_key(id),
            Key::MovingLock => self.locked,
        }
    }

    /// Whether the store may answer `request` with `reply` in this state. A
    /// request that no reply answers fails.
    pub open spec fn accepts(self, request: RequestView, reply: ReplyView) -> bool {
        match request {
            RequestView::NextId => reply == ReplyView::Id((self.counter + 1) as u64)
                && self.counter + 1 <= u64::MAX,
            RequestView::GetRecord { id } => self.messages.contains_key(id) && reply
                == ReplyView::Record(self.messages[id]),
            RequestView::DropRecord { id } | RequestView::HasRecord { id } => reply
                == ReplyView::Flag(self.messages.contains_key(id)),
            RequestView::HasAttempts { id } => reply == ReplyView::Flag(
                self.attempts.contains_key(id),
            ),
            RequestView::CountAttempt { id } => reply == ReplyView::Attempts(
                (self.attempts_of(id) + 1) as u32,
            ) && self.attempts_of(id) + 1 <= u32::MAX,
            RequestView::PopTail | RequestView::AwaitTail { .. } => reply == ReplyView::Popped(
                if self.waiting.len() > 0 {
                    Some(self.waiting.last())
                } else {
                    None
                },
            ),
            RequestView::Due { set, max } => match reply {
                ReplyView::Ids(ids) => ids.no_duplicates() && forall|id: u64|
                    ids.contains(id) <==> self.timed(set).contains_key(id) && self.timed(set)[id]
                        <= max,
                _ => false,
            },
            RequestView::Lock => reply == ReplyView::Flag(!self.locked),
            RequestView::Keys => match reply {
                ReplyView::Keys(keys) => forall|key: Key|
                    self.has_key(key) ==> keys.contains(#[trigger] key_text(self.name, key)),
                _ => false,
            },
            RequestView::Clock => reply is Time,
            _ => reply is Done,
        }
    }

    /// The state in which `request` leaves the store.
    pub open spec fn after(self, request: RequestView) -> Channel {
        match request {
            RequestView::NextId => Channel { counter: self.counter + 1, ..self },
            RequestView::PutRecord { id, record } => Channel {
                messages: self.messages.insert(id, record),
                ..self
            },
            RequestView::DropRecord { id } => Channel {
                messages: self.messages.remove(id),
                ..self
            },
            RequestView::CountAttempt { id } => Channel {
                attempts: self.attempts.insert(id, self.attempts_of(id) + 1),
                ..self
            },
            RequestView::DropAttempts { id } => Channel {
                attempts: self.attempts.remove(id),
                ..self
            },
            RequestView::PushHead { id } => Channel { waiting: seq![id] + self.waiting, ..self },
            RequestView::PopTail | RequestView::AwaitTail { .. } => if self.waiting.len() > 0 {
                Channel { waiting: self.waiting.drop_last(), ..self }
            } else {
                self
            },
            RequestView::Unlist { id } => Channel {
                waiting: without(self.waiting, id),
                ..self
            },
            RequestView::Schedule { set, id, score } => self.with_timed(
                set,
                self.timed(set).insert(id, score),
            ),
            RequestView::DropDue { set, max } => self.with_timed(
                set,
                self.timed(set).restrict(
                    Set::new(|id: u64| self.timed(set).contains_key(id) && self.timed(set)[id] > max),
                ),
            ),
            RequestView::Unschedule { set, id } => self.with_timed(set, self.timed(set).remove(id)),
            RequestView::Lock => Channel { locked: true, ..self },
            RequestView::DropKeys { keys } => Channel {
                name: self.name,
                counter: if keys.contains(key_text(self.name, Key::MessageId)) {
                    0
                } else {
                    self.counter
                },
                messages: if keys.contains(key_text(self.name, Key::Messages)) {
                    Map::empty()
                } else {
                    self.messages
                },
                attempts: if keys.contains(key_text(self.name, Key::Attempts)) {
                    Map::empty()
                } else {
                    self.attempts
                },
                waiting: if keys.contains(key_text(self.name, Key::Waiting)) {
                    Seq::empty()
                } else {
                    self.waiting
                },
                delayed: if keys.contains(key_text(self.name, Key::Delayed)) {
                    Map::empty()
                } else {
                    self.delayed
                },
                reserved: if keys.contains(key_text(self.name, Key::Reserved)) {
                    Map::empty()
                } else {
                    self.reserved
                },
                locked: if keys.contains(key_text(self.name, Key::MovingLock)) {
                    false
                } else {
                    self.locked
                },
            },
            _ => self,
        }
    }
}

} // verus!
