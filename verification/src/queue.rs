//! The queue of one channel: it drives the engine's tasks against the store.

use vstd::prelude::*;
use vstd::pervasive::unreached;
use vstd::string::*;
use crate::backend::{
    connect, store_brpop, store_del, store_hdel, store_hexists, store_hget, store_hincr,
    store_hset, store_incr, store_lpush, store_lrem, store_rpop, store_scan_match,
    store_set_absent, store_zadd, store_zrem, store_zrembyscore, store_zrevrangebyscore,
};
use crate::engine::{
    begin_clear_spec, begin_delete_spec, begin_push_spec, begin_remove_spec, begin_reserve_spec,
    begin_status_spec, ends_after, ends_with, fits, follows, lemma_follows_one_more,
    lemma_resume_advances, op_of, Fault, Op, Outcome, OutcomeView, Step, StepView, Task,
    STATUS_DONE, STATUS_RESERVED, STATUS_WAITING,
};
use crate::record::record_text;
use crate::error::{fault_kind, fault_message, QError, CLOCK_FAILURE, STORE_FAILURE};
use crate::job::{executes, handles, serializes, DeserializeJob, Execution, SerializeJob};
use crate::keys::{key_name, key_pattern, Key};
use crate::store::{answers, Reply, ReplyView, Request, RequestView, Timed};
use crate::{timestamp, QResult};

verus! {

/// A reserved job: its id, its payload, its time-to-reserve and the number of
/// times it was reserved.
pub type JobMessage = (u64, String, u32, u32);

/// For how many seconds the moving lock is held.
pub const LOCK_SECONDS: u64 = 1;

/// The value that is written under the moving lock's key.
pub const LOCK_VALUE: bool = true;

/// By how much the id counter grows with each push.
pub const ID_STEP: u64 = 1;

/// By how much the attempts of a job grow with each reservation.
pub const ATTEMPT_STEP: u32 = 1;

/// The count with which the store removes every occurrence of a value from
/// a list.
pub const EVERY_OCCURRENCE: isize = 0;

/// The bound that lies below every score of a sorted set.
pub const LOWEST_SCORE: &'static str = "-inf";

/// For how many seconds a removal pauses before it asks for the moving lock
/// again. The pause is longer than the lock is held, so that a lock that was
/// held at the first call has expired at the next.
pub const REMOVE_RETRY_SECONDS: u64 = 5;

/// The time-to-reserve of a new queue, in seconds.
pub const DEFAULT_TTR: u32 = 300;

/// The queue of one channel.
#[derive(Debug)]
pub struct Queue {
    /// The name of the channel, which leads every key of the queue.
    pub channel: String,
    /// The client of the store.
    pub redis: redis::Client,
    /// The seconds for which a reservation is valid.
    pub ttr: u32,
    /// The seconds by which a pushed job is delayed.
    pub delay: u32,
    /// The number of attempts that a job is meant to have.
    pub attempts: u32,
}

/// The key of one of the two sorted sets.
pub open spec fn timed_key(set: Timed) -> Key {
    match set {
        Timed::Delayed => Key::Delayed,
        Timed::Reserved => Key::Reserved,
    }
}

/// The structure that a request is about. The requests for the keys and for
/// the time are about none.
pub open spec fn key_of(request: RequestView) -> Option<Key> {
    match request {
        RequestView::NextId => Some(Key::MessageId),
        RequestView::PutRecord { .. } | RequestView::GetRecord { .. }
        | RequestView::DropRecord { .. } | RequestView::HasRecord { .. } => Some(Key::Messages),
        RequestView::CountAttempt { .. } | RequestView::HasAttempts { .. }
        | RequestView::DropAttempts { .. } => Some(Key::Attempts),
        RequestView::PushHead { .. } | RequestView::PopTail
        | RequestView::AwaitTail { .. } | RequestView::Unlist { .. } => Some(Key::Waiting),
        RequestView::Schedule { set, .. } | RequestView::Due { set, .. }
        | RequestView::DropDue { set, .. } | RequestView::Unschedule { set, .. } => Some(
            timed_key(set),
        ),
        RequestView::Lock => Some(Key::MovingLock),
        RequestView::Keys | RequestView::DropKeys { .. } | RequestView::Clock => None,
    }
}

/// The structure that a request is about.
pub fn request_key(request: &Request) -> (key: Option<Key>)
    ensures
        key == key_of(request@),
{
    match request {
        Request::NextId => Some(Key::MessageId),
        Request::PutRecord { .. } | Request::GetRecord { .. } | Request::DropRecord { .. }
        | Request::HasRecord { .. } => Some(Key::Messages),
        Request::CountAttempt { .. } | Request::HasAttempts { .. }
        | Request::DropAttempts { .. } => Some(Key::Attempts),
        Request::PushHead { .. } | Request::PopTail
        | Request::AwaitTail { .. } | Request::Unlist { .. } => Some(Key::Waiting),
        Request::Schedule { set, .. } | Request::Due { set, .. } | Request::DropDue { set, .. }
        | Request::Unschedule { set, .. } => Some(timed_key_of(*set)),
        Request::Lock => Some(Key::MovingLock),
        Request::Keys | Request::DropKeys { .. } | Request::Clock => None,
    }
}

/// The reply that stands for a write which the store carried out.
fn written(result: Result<(), redis::RedisError>) -> (reply: QResult<Reply>)
    ensures
        reply matches Ok(r) ==> r@ == ReplyView::Done,
        reply matches Err(e) ==> e.kind_spec() == STORE_FAILURE@,
        reply is Ok <==> result is Ok,
{
    match result {
        Ok(_) => Ok(Reply::Done),
        Err(error) => Err(QError::store(&error)),
    }
}

/// The reply that stands for the store's answer to a question.
fn answered(result: Result<bool, redis::RedisError>) -> (reply: QResult<Reply>)
    ensures
        reply matches Ok(r) ==> result is Ok && r@ == ReplyView::Flag(result->Ok_0),
        reply matches Err(e) ==> e.kind_spec() == STORE_FAILURE@,
        reply is Ok <==> result is Ok,
{
    match result {
        Ok(flag) => Ok(Reply::Flag(flag)),
        Err(error) => Err(QError::store(&error)),
    }
}

/// The reply that stands for the id that the store popped.
fn popped(result: Result<Option<u64>, redis::RedisError>) -> (reply: QResult<Reply>)
    ensures
        reply matches Ok(r) ==> result is Ok && r@ == ReplyView::Popped(result->Ok_0),
        reply matches Err(e) ==> e.kind_spec() == STORE_FAILURE@,
        reply is Ok <==> result is Ok,
{
    match result {
        Ok(id) => Ok(Reply::Popped(id)),
        Err(error) => Err(QError::store(&error)),
    }
}

impl Queue {
    /// A queue on the channel `channel`, with a time-to-reserve of 300
    /// seconds, no delay and one attempt.
    pub fn new(channel: &str, redis: redis::Client) -> (queue: Self)
        ensures
            queue.channel@ == channel@,
            queue.redis == redis,
            queue.ttr == DEFAULT_TTR,
            queue.delay == 0,
            queue.attempts == 1,
    {
        Queue { channel: String::from_str(channel), redis, ttr: DEFAULT_TTR, delay: 0, attempts: 1 }
    }

    /// The key of one of the channel's structures.
    fn k(&self, key: Key) -> (name: String)
        ensures
            name@ == crate::keys::key_text(self.channel@, key),
    {
        key_name(self.channel.as_str(), key)
    }

    /// Carries out one request: sends the primitive to the store, under the
    /// key of the structure that the request is about, or reads the clock,
    /// and gives the answer in the form in which the request is answered.
    /// The request for the keys goes out with the pattern that matches every
    /// key of the channel.
    fn perform(&self, conn: &mut redis::Connection, request: &Request) -> (reply: QResult<Reply>)
        ensures
            reply matches Ok(r) ==> answers(request@, r@),
            reply matches Err(e) ==> e.kind_spec() == STORE_FAILURE@ || e.kind_spec()
                == CLOCK_FAILURE@,
    {
        let key = match request_key(request) {
            Some(key) => self.k(key),
            None => key_pattern(self.channel.as_str()),
        };
        let key = key.as_str();
        match request {
            Request::NextId => match store_incr(conn, key, ID_STEP) {
                Ok(id) => Ok(Reply::Id(id)),
                Err(error) => Err(QError::store(&error)),
            },
            Request::PutRecord { id, record } => written(
                store_hset(conn, key, *id, record.as_str()),
            ),
            Request::GetRecord { id } => match store_hget(conn, key, *id) {
                Ok(record) => Ok(Reply::Record(record)),
                Err(error) => Err(QError::store(&error)),
            },
            Request::DropRecord { id } => answered(store_hdel(conn, key, *id)),
            Request::HasRecord { id } | Request::HasAttempts { id } => answered(
                store_hexists(conn, key, *id),
            ),
            Request::CountAttempt { id } => match store_hincr(conn, key, *id, ATTEMPT_STEP) {
                Ok(count) => Ok(Reply::Attempts(count)),
                Err(error) => Err(QError::store(&error)),
            },
            Request::DropAttempts { id } => match store_hdel(conn, key, *id) {
                Ok(_) => Ok(Reply::Done),
                Err(error) => Err(QError::store(&error)),
            },
            Request::PushHead { id } => written(store_lpush(conn, key, *id)),
            Request::PopTail => popped(store_rpop(conn, key)),
            Request::AwaitTail { timeout } => if *timeout == 0 {
                popped(store_rpop(conn, key))
            } else {
                popped(store_brpop(conn, key, *timeout))
            },
            Request::Unlist { id } => written(store_lrem(conn, key, EVERY_OCCURRENCE, *id)),
            Request::Schedule { set: _, id, score } => written(
                store_zadd(conn, key, *id, *score),
            ),
            Request::Due { set: _, max } => match store_zrevrangebyscore(
                conn,
                key,
                *max,
                LOWEST_SCORE,
            ) {
                Ok(ids) => Ok(Reply::Ids(ids)),
                Err(error) => Err(QError::store(&error)),
            },
            Request::DropDue { set: _, max } => written(
                store_zrembyscore(conn, key, LOWEST_SCORE, *max),
            ),
            Request::Unschedule { set: _, id } => written(store_zrem(conn, key, *id)),
            Request::Lock => answered(store_set_absent(conn, key, LOCK_VALUE, LOCK_SECONDS)),
            Request::Keys => match store_scan_match(conn, key) {
                Ok(keys) => Ok(Reply::Keys(keys)),
                Err(error) => Err(QError::store(&error)),
            },
            Request::DropKeys { keys } => written(store_del(conn, keys)),
            Request::Clock => match timestamp() {
                Ok(now) => Ok(Reply::Time(now)),
                Err(error) => Err(error),
            },
        }
    }

    /// Drives a task to its end: carries out each request that it asks and
    /// resumes it with the answer. Stops at the first request that fails.
    fn drive(&self, task: Task, step: Step) -> (end: QResult<Outcome>)
        requires
            task@.steps(step@),
            step@ is Ask,
        ensures
            end matches Ok(outcome) ==> fits(op_of(task@.phase)->0, outcome@) && ends_with(
                (task@, step@),
                outcome@,
            ),
            end matches Err(e) ==> from_outside(e),
    {
        let mut conn = match connect(&self.redis) {
            Ok(conn) => conn,
            Err(error) => {
                return Err(QError::store(&error));
            },
        };
        let ghost op = op_of(task@.phase);
        let ghost begun = (task@, step@);
        let ghost mut heard: Seq<ReplyView> = Seq::empty();
        let mut running = task;
        let mut current = step;
        loop
            invariant
                op == op_of(task@.phase),
                begun == (task@, step@),
                follows(begun.0, begun.1, heard) == Some((running@, current@)),
                running@.steps(current@),
                match current@ {
                    StepView::Ask(_) => op_of(running@.phase) == op,
                    StepView::Finish(outcome) => fits(op->0, outcome),
                },
            decreases
                    (if current@ is Ask {
                        1nat
                    } else {
                        0nat
                    }),
                    running@.stage(),
                    running@.left(),
        {
            match current {
                Step::Finish(outcome) => {
                    proof {
                        assert(ends_after(begun, heard, outcome@));
                    }
                    return Ok(outcome);
                },
                Step::Ask(request) => {
                    let reply = match self.perform(&mut conn, &request) {
                        Ok(reply) => reply,
                        Err(error) => {
                            return Err(error);
                        },
                    };
                    proof {
                        lemma_resume_advances(running@, reply@);
                        lemma_follows_one_more(begun.0, begun.1, heard, reply@);
                        heard = heard.push(reply@);
                    }
                    let next = running.resume(reply);
                    running = next.0;
                    current = next.1;
                },
            }
        }
    }
}

/// The error of a fault, or of an outcome that is no failure at all.
pub open spec fn failed_as(outcome: OutcomeView, error: QError) -> bool {
    &&& outcome is Failed
    &&& error.kind_spec() == fault_kind(outcome->Failed_0)
    &&& error.message_spec() == fault_message(outcome->Failed_0)
}

impl Outcome {
    /// The result of a push: the id of the new job, or the error of the fault.
    pub fn into_pushed(self) -> (result: QResult<u64>)
        requires
            fits(Op::Push, self@),
        ensures
            match result {
                Ok(id) => self@ == OutcomeView::Pushed(id),
                Err(error) => failed_as(self@, error),
            },
    {
        match self {
            Outcome::Pushed(id) => Ok(id),
            Outcome::Failed(fault) => Err(QError::from_fault(fault)),
            _ => unreached(),
        }
    }

    /// The result of a reservation: the reserved job, or the error of the
    /// fault.
    pub fn into_reserved(self) -> (result: QResult<JobMessage>)
        requires
            fits(Op::Reserve, self@),
        ensures
            match result {
                Ok(job) => self@ == (OutcomeView::Reserved {
                    id: job.0,
                    payload: job.1@,
                    ttr: job.2,
                    attempts: job.3,
                }) && job.0 != 0,
                Err(error) => failed_as(self@, error),
            },
    {
        match self {
            Outcome::Reserved { id, payload, ttr, attempts } => Ok((id, payload, ttr, attempts)),
            Outcome::Failed(fault) => Err(QError::from_fault(fault)),
            _ => unreached(),
        }
    }

    /// The result of a look at a job's status.
    pub fn into_status(self) -> (status: u8)
        requires
            fits(Op::Status, self@),
        ensures
            self@ == OutcomeView::Status(status),
    {
        match self {
            Outcome::Status(status) => status,
            _ => unreached(),
        }
    }

    /// The result of a removal: whether the job's record was still there, or
    /// nothing where the moving lock was held by someone else.
    pub fn into_removed(self) -> (removed: Option<bool>)
        requires
            fits(Op::Remove, self@),
        ensures
            match removed {
                Some(found) => self@ == OutcomeView::Removed(found),
                None => self@ == OutcomeView::Busy,
            },
    {
        match self {
            Outcome::Removed(found) => Some(found),
            Outcome::Busy => None,
            _ => unreached(),
        }
    }
}

/// Whether `job` is a result of a reservation that waits up to `timeout`
/// seconds: a job with which the reservation ends after some replies, whose
/// id is not zero; or the error of a fault with which it ends; or an error
/// that the store or the clock gave.
pub open spec fn reserved_as(timeout: u64, job: QResult<JobMessage>) -> bool {
    match job {
        Ok(job) => job.0 != 0 && ends_with(
            begin_reserve_spec(timeout),
            OutcomeView::Reserved { id: job.0, payload: job.1@, ttr: job.2, attempts: job.3 },
        ),
        Err(error) => from_outside(error) || (exists|fault: Fault|
            failed_as(OutcomeView::Failed(fault), error) && ends_with(
                begin_reserve_spec(timeout),
                OutcomeView::Failed(fault),
            )),
    }
}

/// Whether `done` is a result of the retirement of `id`: the end of the
/// retirement after some replies, or an error that the store or the clock
/// gave.
pub open spec fn deleted_as(id: u64, done: QResult<()>) -> bool {
    match done {
        Ok(_) => ends_with(begin_delete_spec(id), OutcomeView::Deleted),
        Err(error) => from_outside(error),
    }
}

impl Queue {
    /// Whether `id` is a result of a push of the text `message` to this
    /// queue: the id with which the push ends after some replies; or the
    /// error of the clock fault with which it ends; or an error that the
    /// store or the clock gave.
    pub open spec fn pushed_as(&self, message: Seq<char>, id: QResult<u64>) -> bool {
        match id {
            Ok(id) => ends_with(
                begin_push_spec(record_text(self.ttr, message), self.delay),
                OutcomeView::Pushed(id),
            ),
            Err(error) => from_outside(error) || (failed_as(
                OutcomeView::Failed(Fault::Clock),
                error,
            ) && ends_with(
                begin_push_spec(record_text(self.ttr, message), self.delay),
                OutcomeView::Failed(Fault::Clock),
            )),
        }
    }
}

/// Whether an error is one that the store or the clock gave.
pub open spec fn from_outside(error: QError) -> bool {
    error.kind_spec() == STORE_FAILURE@ || error.kind_spec() == CLOCK_FAILURE@
}

impl Queue {
    /// Pushes a job: serializes it and pushes the text. Fails with what the
    /// job's serialization fails with, and as `push_message` does.
    pub fn push<T: SerializeJob>(&self, job: T) -> (id: QResult<u64>)
        ensures
            exists|text: QResult<String>| #[trigger]
                serializes(job, text) && match text {
                    Ok(message) => self.pushed_as(message@, id),
                    Err(error) => id == Err::<u64, QError>(error),
                },
    {
        let text = job.serialize_job();
        proof {
            assert(serializes(job, text));
        }
        match text {
            Ok(message) => self.push_message(message),
            Err(error) => Err(error),
        }
    }

    /// Pushes a serialized job: takes the next id, writes the record with the
    /// queue's time-to-reserve, and puts the id in the delayed set where the
    /// queue has a delay, at the head of the waiting list where it has none.
    /// Fails where the store or the clock fails.
    pub fn push_message(&self, message: String) -> (id: QResult<u64>)
        ensures
            self.pushed_as(message@, id),
    {
        let (task, step) = Task::push(message.as_str(), self.ttr, self.delay);
        match self.drive(task, step) {
            Ok(outcome) => outcome.into_pushed(),
            Err(error) => Err(error),
        }
    }

    /// Executes a reserved job: reads it from its payload and executes it.
    /// Fails where the payload cannot be read, and only there: what the job
    /// reports is handed on, and the queue is left as it is.
    pub fn handle_message<T: DeserializeJob>(&self, job: JobMessage) -> (report: QResult<Execution>)
        ensures
            handles::<T>(job.1@, report),
    {
        let text = job.1.as_str();
        let decoded = T::deserialize_job(text);
        let ghost read = decoded;
        match decoded {
            Ok(job) => {
                let executed = job.execute();
                let ghost outcome = executed;
                let report = Ok(Execution::of(executed));
                proof {
                    assert(call_ensures(T::execute, (&job,), outcome));
                    assert(executes(job, report));
                    assert(call_ensures(T::deserialize_job, (text,), read));
                }
                report
            },
            Err(error) => {
                proof {
                    assert(call_ensures(T::deserialize_job, (text,), read));
                }
                Err(error)
            },
        }
    }

    /// Reserves a job. Takes the moving lock if it is free, and then moves
    /// the ids that are due in the delayed and in the reserved set to the
    /// head of the waiting list. Pops an id from the waiting list, waiting up
    /// to `timeout` seconds for one where `timeout` is above zero; marks it
    /// as reserved for the time-to-reserve of its record, and counts the
    /// attempt. Fails where nothing was popped, where the record's prefix is
    /// no valid time-to-reserve, and where the store or the clock fails.
    pub fn reserve(&self, timeout: u64) -> (job: QResult<JobMessage>)
        ensures
            reserved_as(timeout, job),
    {
        let (task, step) = Task::reserve(timeout);
        match self.drive(task, step) {
            Ok(outcome) => outcome.into_reserved(),
            Err(error) => Err(error),
        }
    }

    /// Deletes every key of the channel: asks the store for the keys that
    /// match the channel's pattern, and deletes those of them that begin with
    /// the channel's name and a dot. No other key is touched.
    pub fn clear(&self) -> (done: QResult<()>)
        ensures
            match done {
                Ok(_) => ends_with(begin_clear_spec(self.channel@), OutcomeView::Cleared),
                Err(error) => from_outside(error),
            },
    {
        let (task, step) = Task::clear(self.channel.as_str());
        match self.drive(task, step) {
            Ok(_) => Ok(()),
            Err(error) => Err(error),
        }
    }

    /// Removes a job, whatever its state: takes the moving lock, deletes the
    /// record, and where there was one takes the id out of the reserved set,
    /// the delayed set, the waiting list and the attempts. Gives whether
    /// there was a record; gives nothing, and does nothing, where someone
    /// else holds the moving lock: the caller waits and calls again.
    pub fn remove(&self, message_id: u64) -> (removed: QResult<Option<bool>>)
        ensures
            match removed {
                Ok(Some(found)) => ends_with(
                    begin_remove_spec(message_id),
                    OutcomeView::Removed(found),
                ),
                Ok(None) => ends_with(begin_remove_spec(message_id), OutcomeView::Busy),
                Err(error) => from_outside(error),
            },
    {
        let (task, step) = Task::remove(message_id);
        match self.drive(task, step) {
            Ok(outcome) => Ok(outcome.into_removed()),
            Err(error) => Err(error),
        }
    }

    /// Retires a job: deletes its record, its attempts and its entry in the
    /// reserved set.
    pub fn delete(&self, message_id: u64) -> (done: QResult<()>)
        ensures
            deleted_as(message_id, done),
    {
        let (task, step) = Task::delete(message_id);
        match self.drive(task, step) {
            Ok(_) => Ok(()),
            Err(error) => Err(error),
        }
    }

    /// The status of a job: reserved where it has attempts, else waiting
    /// where it has a record, else done.
    pub fn status(&self, message_id: u64) -> (status: QResult<u8>)
        ensures
            match status {
                Ok(status) => (status == STATUS_WAITING || status == STATUS_RESERVED || status
                    == STATUS_DONE) && ends_with(
                    begin_status_spec(message_id),
                    OutcomeView::Status(status),
                ),
                Err(error) => from_outside(error),
            },
    {
        let (task, step) = Task::status(message_id);
        match self.drive(task, step) {
            Ok(outcome) => Ok(outcome.into_status()),
            Err(error) => Err(error),
        }
    }

    /// Sets the channel of the queue.
    pub fn channel(&mut self, channel: &str) -> (queue: &mut Self)
        ensures
            queue.channel@ == channel@,
            queue.redis == old(self).redis,
            queue.ttr == old(self).ttr,
            queue.delay == old(self).delay,
            queue.attempts == old(self).attempts,
            *final(self) == *final(queue),
    {
        self.channel = String::from_str(channel);
        self
    }

    /// Sets the client of the store.
    pub fn redis(&mut self, redis: redis::Client) -> (queue: &mut Self)
        ensures
            *queue == (Queue { redis, ..*old(self) }),
            *final(self) == *final(queue),
    {
        self.redis = redis;
        self
    }

    /// Sets the time-to-reserve with which jobs are pushed.
    pub fn ttl(&mut self, ttr: u32) -> (queue: &mut Self)
        ensures
            *queue == (Queue { ttr, ..*old(self) }),
            *final(self) == *final(queue),
    {
        self.ttr = ttr;
        self
    }

    /// Sets the delay with which jobs are pushed.
    pub fn delay(&mut self, delay: u32) -> (queue: &mut Self)
        ensures
            *queue == (Queue { delay, ..*old(self) }),
            *final(self) == *final(queue),
    {
        self.delay = delay;
        self
    }

    /// Sets the number of attempts that a job is meant to have.
    pub fn attempts(&mut self, attempts: u32) -> (queue: &mut Self)
        ensures
            *queue == (Queue { attempts, ..*old(self) }),
            *final(self) == *final(queue),
    {
        self.attempts = attempts;
        self
    }
}

/// The key of one of the two sorted sets.
fn timed_key_of(set: Timed) -> (key: Key)
    ensures
        key == timed_key(set),
{
    match set {
        Timed::Delayed => Key::Delayed,
        Timed::Reserved => Key::Reserved,
    }
}

} // verus!
