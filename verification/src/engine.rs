//! The queue's operations as exchanges with the store.
//!
//! Each operation is a `Task`: it asks one request at a time, is resumed with
//! the reply, and ends with an `Outcome`. The task decides; whoever drives it
//! talks to the store and reads the clock. `begin_*_spec` and `resume_spec`
//! say, over views, what each task asks and how it ends.

use vstd::prelude::*;
use vstd::pervasive::unreached;
use crate::record::{encode_record, parse_record, parse_record_spec, record_text};
use crate::keys::{begins_with, has_prefix, key_prefix, prefix_text};
use crate::store::{answers, texts, Reply, ReplyView, Request, RequestView, Timed};

verus! {

/// The status of a job that waits to be reserved, or is delayed.
pub const STATUS_WAITING: u8 = 1;

/// The status of a job that was reserved at least once and is not done.
pub const STATUS_RESERVED: u8 = 2;

/// The status of a job that the queue holds no longer.
pub const STATUS_DONE: u8 = 3;

/// A failure that an operation finds by itself.
#[derive(Clone, Copy, Debug, PartialEq, Eq, Structural)]
pub enum Fault {
    /// Nothing was waiting, or nothing came within the timeout.
    NoJob,
    /// The record's prefix is no valid time-to-reserve.
    InvalidTtr,
    /// The time is too late for a delay or a time-to-reserve to be added.
    Clock,
}

/// How an operation ended.
#[derive(Debug)]
pub enum Outcome {
    /// A job was pushed under this id.
    Pushed(u64),
    /// A job was reserved.
    Reserved { id: u64, payload: String, ttr: u32, attempts: u32 },
    /// The status of a job.
    Status(u8),
    /// A job was retired.
    Deleted,
    /// A job was removed, if its record was still there.
    Removed(bool),
    /// The moving lock is held by someone else; nothing was done.
    Busy,
    /// The channel was cleared.
    Cleared,
    /// The operation failed.
    Failed(Fault),
}

/// What a task does next.
#[derive(Debug)]
pub enum Step {
    /// It asks this request and waits for the reply.
    Ask(Request),
    /// It has ended.
    Finish(Outcome),
}

/// Where a task stands: which reply it waits for, and to do what.
#[derive(Clone, Copy, Debug, PartialEq, Eq, Structural)]
pub enum Phase {
    /// A push has asked for the next id.
    PushId,
    /// A push has asked to write the record.
    PushRecord,
    /// A push has asked for the time.
    PushClock,
    /// A push has asked to place the id: in the delayed set, or at the head
    /// of the waiting list.
    PushPlace,
    /// A reservation has asked for the moving lock.
    ReserveLock,
    /// A sweep has asked for the time.
    SweepClock,
    /// A sweep has asked for the ids that are due.
    SweepDue,
    /// A sweep has asked to drop the due ids from their set, or to push one
    /// of them at the head of the waiting list.
    SweepMove,
    /// A reservation has asked to pop an id.
    ReservePop,
    /// A reservation has asked for the record of the id that it popped.
    ReserveRecord,
    /// A reservation has asked for the time.
    ReserveClock,
    /// A reservation has asked to put the id in the reserved set.
    ReserveMark,
    /// A reservation has asked to count the attempt.
    ReserveCount,
    /// A retirement has asked to delete the record.
    DeleteRecord,
    /// A retirement has asked to delete the attempts.
    DeleteAttempts,
    /// A retirement has asked to take the id out of the reserved set.
    DeleteReserved,
    /// A removal has asked for the moving lock.
    RemoveLock,
    /// A removal has asked to delete the record.
    RemoveRecord,
    /// A removal has asked to take the id out of the reserved set.
    RemoveReserved,
    /// A removal has asked to take the id out of the delayed set.
    RemoveDelayed,
    /// A removal has asked to take the id out of the waiting list.
    RemoveWaiting,
    /// A removal has asked to delete the attempts.
    RemoveAttempts,
    /// A look at a status has asked whether the id has attempts.
    StatusAttempts,
    /// A look at a status has asked whether the id has a record.
    StatusRecord,
    /// A clearing has asked for the keys of the channel.
    ClearKeys,
    /// A clearing has asked to delete the keys.
    ClearDrop,
    /// The task has ended.
    Ended,
}

/// An operation in progress.
#[derive(Debug)]
pub struct Task {
    /// Where the task stands.
    pub phase: Phase,
    /// The id of the job that the task is about.
    pub id: u64,
    /// The time-to-reserve of that job.
    pub ttr: u32,
    /// The delay with which a job is pushed.
    pub delay: u32,
    /// How long a reservation waits for a job.
    pub timeout: u64,
    /// The sorted set that the recovery sweep is working on.
    pub set: Timed,
    /// The time at which the sweep looked.
    pub now: u64,
    /// The record that is pushed, or the payload that was reserved.
    pub text: String,
    /// The ids that the sweep moves to the waiting list.
    pub ids: Vec<u64>,
    /// How many of them it has moved.
    pub next: usize,
}

/// The outcome of an operation as a mathematical value.
pub ghost enum OutcomeView {
    Pushed(u64),
    Reserved { id: u64, payload: Seq<char>, ttr: u32, attempts: u32 },
    Status(u8),
    Deleted,
    Removed(bool),
    Busy,
    Cleared,
    Failed(Fault),
}

/// A step as a mathematical value.
pub ghost enum StepView {
    Ask(RequestView),
    Finish(OutcomeView),
}

/// A task as a mathematical value.
pub ghost struct TaskView {
    pub phase: Phase,
    pub id: u64,
    pub ttr: u32,
    pub delay: u32,
    pub timeout: u64,
    pub set: Timed,
    pub now: u64,
    pub text: Seq<char>,
    pub ids: Seq<u64>,
    pub next: int,
}

impl View for Outcome {
    type V = OutcomeView;

    open spec fn view(&self) -> OutcomeView {
        match self {
            Outcome::Pushed(id) => OutcomeView::Pushed(*id),
            Outcome::Reserved { id, payload, ttr, attempts } => OutcomeView::Reserved {
                id: *id,
                payload: payload@,
                ttr: *ttr,
                attempts: *attempts,
            },
            Outcome::Status(status) => OutcomeView::Status(*status),
            Outcome::Deleted => OutcomeView::Deleted,
            Outcome::Removed(found) => OutcomeView::Removed(*found),
            Outcome::Busy => OutcomeView::Busy,
            Outcome::Cleared => OutcomeView::Cleared,
            Outcome::Failed(fault) => OutcomeView::Failed(*fault),
        }
    }
}

impl View for Step {
    type V = StepView;

    open spec fn view(&self) -> StepView {
        match self {
            Step::Ask(request) => StepView::Ask(request@),
            Step::Finish(outcome) => StepView::Finish(outcome@),
        }
    }
}

impl View for Task {
    type V = TaskView;

    open spec fn view(&self) -> TaskView {
        TaskView {
            phase: self.phase,
            id: self.id,
            ttr: self.ttr,
            delay: self.delay,
            timeout: self.timeout,
            set: self.set,
            now: self.now,
            text: self.text@,
            ids: self.ids@,
            next: self.next as int,
        }
    }
}

impl TaskView {
    /// A task that has not begun: every field at its zero.
    pub open spec fn idle() -> TaskView {
        TaskView {
            phase: Phase::Ended,
            id: 0,
            ttr: 0,
            delay: 0,
            timeout: 0,
            set: Timed::Delayed,
            now: 0,
            text: Seq::empty(),
            ids: Seq::empty(),
            next: 0,
        }
    }

    /// Whether the task waits for a reply of the form of `reply`.
    pub open spec fn expects(self, reply: ReplyView) -> bool {
        match self.phase {
            Phase::PushId => reply is Id,
            Phase::ReserveRecord => reply is Record,
            Phase::PushClock | Phase::SweepClock | Phase::ReserveClock => reply is Time,
            Phase::ReserveLock | Phase::DeleteRecord | Phase::RemoveLock | Phase::RemoveRecord
            | Phase::StatusAttempts | Phase::StatusRecord => reply is Flag,
            Phase::SweepDue => reply is Ids,
            Phase::ReservePop => reply is Popped,
            Phase::ReserveCount => reply is Attempts,
            Phase::ClearKeys => reply is Keys,
            Phase::Ended => false,
            _ => reply is Done,
        }
    }

    /// The task once it has ended.
    pub open spec fn ended(self) -> TaskView {
        TaskView { phase: Phase::Ended, ..self }
    }

    /// The task in another phase.
    pub open spec fn at(self, phase: Phase) -> TaskView {
        TaskView { phase, ..self }
    }
}

/// The first step of a push of `record` with the delay `delay`: it asks for
/// the next id.
pub open spec fn begin_push_spec(record: Seq<char>, delay: u32) -> (TaskView, StepView) {
    (
        TaskView { phase: Phase::PushId, text: record, delay, ..TaskView::idle() },
        StepView::Ask(RequestView::NextId),
    )
}

/// The first step of a reservation that waits up to `timeout` seconds: it
/// asks for the moving lock.
pub open spec fn begin_reserve_spec(timeout: u64) -> (TaskView, StepView) {
    (
        TaskView { phase: Phase::ReserveLock, timeout, ..TaskView::idle() },
        StepView::Ask(RequestView::Lock),
    )
}

/// The first step of the retirement of `id`: it deletes the record.
pub open spec fn begin_delete_spec(id: u64) -> (TaskView, StepView) {
    (
        TaskView { phase: Phase::DeleteRecord, id, ..TaskView::idle() },
        StepView::Ask(RequestView::DropRecord { id }),
    )
}

/// The first step of the removal of `id`: it asks for the moving lock.
pub open spec fn begin_remove_spec(id: u64) -> (TaskView, StepView) {
    (
        TaskView { phase: Phase::RemoveLock, id, ..TaskView::idle() },
        StepView::Ask(RequestView::Lock),
    )
}

/// The first step of a look at the status of `id`: it asks whether `id` has
/// attempts.
pub open spec fn begin_status_spec(id: u64) -> (TaskView, StepView) {
    (
        TaskView { phase: Phase::StatusAttempts, id, ..TaskView::idle() },
        StepView::Ask(RequestView::HasAttempts { id }),
    )
}

/// The first step of a clearing of the channel `channel`: it asks for the
/// keys, and keeps in mind what every key of the channel begins with.
pub open spec fn begin_clear_spec(channel: Seq<char>) -> (TaskView, StepView) {
    (
        TaskView { phase: Phase::ClearKeys, text: prefix_text(channel), ..TaskView::idle() },
        StepView::Ask(RequestView::Keys),
    )
}

/// Of the keys `keys`, those that begin with `prefix`, in their order.
pub open spec fn own_keys(keys: Seq<Seq<char>>, prefix: Seq<char>) -> Seq<Seq<char>> {
    keys.filter(|key: Seq<char>| begins_with(key, prefix))
}

/// The keys of `own_keys` are the listed keys that begin with the prefix.
pub proof fn lemma_own_keys(keys: Seq<Seq<char>>, prefix: Seq<char>)
    ensures
        forall|key: Seq<char>| #[trigger]
            own_keys(keys, prefix).contains(key) <==> keys.contains(key) && begins_with(
                key,
                prefix,
            ),
    decreases keys.len(),
{
    reveal(Seq::filter);
    let kept = own_keys(keys, prefix);
    if keys.len() > 0 {
        let front = keys.drop_last();
        let last = keys.last();
        let before = own_keys(front, prefix);
        lemma_own_keys(front, prefix);
        assert(kept == if begins_with(last, prefix) {
            before.push(last)
        } else {
            before
        });
        assert forall|key: Seq<char>| #[trigger] kept.contains(key) <==> keys.contains(key)
            && begins_with(key, prefix) by {
            if kept.contains(key) {
                let i = choose|i: int| 0 <= i < kept.len() && kept[i] == key;
                if i < before.len() {
                    assert(before.contains(before[i]));
                    assert(front.contains(key));
                    let j = choose|j: int| 0 <= j < front.len() && front[j] == key;
                    assert(keys[j] == key);
                } else {
                    assert(keys[keys.len() - 1] == key);
                }
            }
            if keys.contains(key) && begins_with(key, prefix) {
                let j = choose|j: int| 0 <= j < keys.len() && keys[j] == key;
                if j < front.len() {
                    assert(front[j] == key);
                    assert(front.contains(key));
                    assert(before.contains(key));
                    let i = choose|i: int| 0 <= i < before.len() && before[i] == key;
                    assert(kept[i] == key);
                } else {
                    assert(kept[kept.len() - 1] == key);
                }
            }
        }
    }
}

/// The pop with which a reservation takes an id from the waiting list: one
/// that does not wait where the timeout is zero, one that waits up to the
/// timeout where it is above.
pub open spec fn pop_spec(task: TaskView) -> (TaskView, StepView) {
    (
        task.at(Phase::ReservePop),
        StepView::Ask(
            if task.timeout == 0 {
                RequestView::PopTail
            } else {
                RequestView::AwaitTail { timeout: task.timeout }
            },
        ),
    )
}

/// The next step of a sweep that has dropped the due ids from their set: it
/// pushes the next of them at the head of the waiting list, behind every id
/// that waits already; after the last one it goes on to the reserved set,
/// and after that to the pop.
pub open spec fn sweep_spec(task: TaskView) -> (TaskView, StepView) {
    if 0 <= task.next < task.ids.len() {
        (
            TaskView { phase: Phase::SweepMove, next: task.next + 1, ..task },
            StepView::Ask(RequestView::PushHead { id: task.ids[task.next] }),
        )
    } else if task.set == Timed::Delayed {
        (
            TaskView { phase: Phase::SweepClock, set: Timed::Reserved, ..task },
            StepView::Ask(RequestView::Clock),
        )
    } else {
        pop_spec(task)
    }
}

/// What a task does with a reply: the task that it becomes, and its next step.
pub open spec fn resume_spec(task: TaskView, reply: ReplyView) -> (TaskView, StepView) {
    let id = task.id;
    match task.phase {
        Phase::PushId => (
            TaskView { phase: Phase::PushRecord, id: reply->Id_0, text: Seq::empty(), ..task },
            StepView::Ask(RequestView::PutRecord { id: reply->Id_0, record: task.text }),
        ),
        Phase::PushRecord => (task.at(Phase::PushClock), StepView::Ask(RequestView::Clock)),
        Phase::PushClock => if task.delay == 0 {
            (task.at(Phase::PushPlace), StepView::Ask(RequestView::PushHead { id }))
        } else if reply->Time_0 + task.delay > u64::MAX {
            (task.ended(), StepView::Finish(OutcomeView::Failed(Fault::Clock)))
        } else {
            (
                task.at(Phase::PushPlace),
                StepView::Ask(
                    RequestView::Schedule {
                        set: Timed::Delayed,
                        id,
                        score: (reply->Time_0 + task.delay) as u64,
                    },
                ),
            )
        },
        Phase::PushPlace => (task.ended(), StepView::Finish(OutcomeView::Pushed(id))),
        Phase::ReserveLock => if reply->Flag_0 {
            (
                TaskView { phase: Phase::SweepClock, set: Timed::Delayed, ..task },
                StepView::Ask(RequestView::Clock),
            )
        } else {
            pop_spec(task)
        },
        Phase::SweepClock => (
            TaskView { phase: Phase::SweepDue, now: reply->Time_0, ..task },
            StepView::Ask(RequestView::Due { set: task.set, max: reply->Time_0 }),
        ),
        Phase::SweepDue => (
            TaskView { phase: Phase::SweepMove, ids: reply->Ids_0, next: 0, ..task },
            StepView::Ask(RequestView::DropDue { set: task.set, max: task.now }),
        ),
        Phase::SweepMove => sweep_spec(task),
        Phase::ReservePop => match reply->Popped_0 {
            Some(popped) if popped != 0 => (
                TaskView { phase: Phase::ReserveRecord, id: popped, ..task },
                StepView::Ask(RequestView::GetRecord { id: popped }),
            ),
            _ => (task.ended(), StepView::Finish(OutcomeView::Failed(Fault::NoJob))),
        },
        Phase::ReserveRecord => match parse_record_spec(reply->Record_0) {
            Some((ttr, payload)) => (
                TaskView { phase: Phase::ReserveClock, ttr, text: payload, ..task },
                StepView::Ask(RequestView::Clock),
            ),
            None => (task.ended(), StepView::Finish(OutcomeView::Failed(Fault::InvalidTtr))),
        },
        Phase::ReserveClock => if reply->Time_0 + task.ttr > u64::MAX {
            (task.ended(), StepView::Finish(OutcomeView::Failed(Fault::Clock)))
        } else {
            (
                task.at(Phase::ReserveMark),
                StepView::Ask(
                    RequestView::Schedule {
                        set: Timed::Reserved,
                        id,
                        score: (reply->Time_0 + task.ttr) as u64,
                    },
                ),
            )
        },
        Phase::ReserveMark => (
            task.at(Phase::ReserveCount),
            StepView::Ask(RequestView::CountAttempt { id }),
        ),
        Phase::ReserveCount => (
            TaskView { phase: Phase::Ended, text: Seq::empty(), ..task },
            StepView::Finish(
                OutcomeView::Reserved {
                    id,
                    payload: task.text,
                    ttr: task.ttr,
                    attempts: reply->Attempts_0,
                },
            ),
        ),
        Phase::DeleteRecord => (
            task.at(Phase::DeleteAttempts),
            StepView::Ask(RequestView::DropAttempts { id }),
        ),
        Phase::DeleteAttempts => (
            task.at(Phase::DeleteReserved),
            StepView::Ask(RequestView::Unschedule { set: Timed::Reserved, id }),
        ),
        Phase::DeleteReserved => (task.ended(), StepView::Finish(OutcomeView::Deleted)),
        Phase::RemoveLock => if reply->Flag_0 {
            (task.at(Phase::RemoveRecord), StepView::Ask(RequestView::DropRecord { id }))
        } else {
            (task.ended(), StepView::Finish(OutcomeView::Busy))
        },
        Phase::RemoveRecord => if reply->Flag_0 {
            (
                task.at(Phase::RemoveReserved),
                StepView::Ask(RequestView::Unschedule { set: Timed::Reserved, id }),
            )
        } else {
            (task.ended(), StepView::Finish(OutcomeView::Removed(false)))
        },
        Phase::RemoveReserved => (
            task.at(Phase::RemoveDelayed),
            StepView::Ask(RequestView::Unschedule { set: Timed::Delayed, id }),
        ),
        Phase::RemoveDelayed => (
            task.at(Phase::RemoveWaiting),
            StepView::Ask(RequestView::Unlist { id }),
        ),
        Phase::RemoveWaiting => (
            task.at(Phase::RemoveAttempts),
            StepView::Ask(RequestView::DropAttempts { id }),
        ),
        Phase::RemoveAttempts => (task.ended(), StepView::Finish(OutcomeView::Removed(true))),
        Phase::StatusAttempts => if reply->Flag_0 {
            (task.ended(), StepView::Finish(OutcomeView::Status(STATUS_RESERVED)))
        } else {
            (task.at(Phase::StatusRecord), StepView::Ask(RequestView::HasRecord { id }))
        },
        Phase::StatusRecord => (
            task.ended(),
            StepView::Finish(
                OutcomeView::Status(
                    if reply->Flag_0 {
                        STATUS_WAITING
                    } else {
                        STATUS_DONE
                    },
                ),
            ),
        ),
        Phase::ClearKeys => if own_keys(reply->Keys_0, task.text).len() == 0 {
            (task.ended(), StepView::Finish(OutcomeView::Cleared))
        } else {
            (
                task.at(Phase::ClearDrop),
                StepView::Ask(RequestView::DropKeys { keys: own_keys(reply->Keys_0, task.text) }),
            )
        },
        Phase::ClearDrop => (task.ended(), StepView::Finish(OutcomeView::Cleared)),
        Phase::Ended => (task, StepView::Finish(OutcomeView::Failed(Fault::NoJob))),
    }
}

impl Task {
    /// A task that has not begun.
    fn idle(phase: Phase) -> (task: Task)
        ensures
            task@ == TaskView::idle().at(phase),
    {
        Task {
            phase,
            id: 0,
            ttr: 0,
            delay: 0,
            timeout: 0,
            set: Timed::Delayed,
            now: 0,
            text: String::new(),
            ids: Vec::new(),
            next: 0,
        }
    }

    /// Begins the push of a job with the serialized form `payload`, the
    /// time-to-reserve `ttr` and the delay `delay`.
    pub fn push(payload: &str, ttr: u32, delay: u32) -> (begun: (Task, Step))
        ensures
            (begun.0@, begun.1@) == begin_push_spec(record_text(ttr, payload@), delay),
    {
        let mut task = Task::idle(Phase::PushId);
        task.text = encode_record(ttr, payload);
        task.delay = delay;
        (task, Step::Ask(Request::NextId))
    }

    /// Begins a reservation that waits up to `timeout` seconds for a job, or
    /// not at all where `timeout` is zero.
    pub fn reserve(timeout: u64) -> (begun: (Task, Step))
        ensures
            (begun.0@, begun.1@) == begin_reserve_spec(timeout),
    {
        let mut task = Task::idle(Phase::ReserveLock);
        task.timeout = timeout;
        (task, Step::Ask(Request::Lock))
    }

    /// Begins the retirement of the job `id`.
    pub fn delete(id: u64) -> (begun: (Task, Step))
        ensures
            (begun.0@, begun.1@) == begin_delete_spec(id),
    {
        let mut task = Task::idle(Phase::DeleteRecord);
        task.id = id;
        (task, Step::Ask(Request::DropRecord { id }))
    }

    /// Begins the removal of the job `id`.
    pub fn remove(id: u64) -> (begun: (Task, Step))
        ensures
            (begun.0@, begun.1@) == begin_remove_spec(id),
    {
        let mut task = Task::idle(Phase::RemoveLock);
        task.id = id;
        (task, Step::Ask(Request::Lock))
    }

    /// Begins a look at the status of the job `id`.
    pub fn status(id: u64) -> (begun: (Task, Step))
        ensures
            (begun.0@, begun.1@) == begin_status_spec(id),
    {
        let mut task = Task::idle(Phase::StatusAttempts);
        task.id = id;
        (task, Step::Ask(Request::HasAttempts { id }))
    }

    /// Begins the clearing of the channel `channel`.
    pub fn clear(channel: &str) -> (begun: (Task, Step))
        ensures
            (begun.0@, begun.1@) == begin_clear_spec(channel@),
    {
        let mut task = Task::idle(Phase::ClearKeys);
        task.text = key_prefix(channel);
        (task, Step::Ask(Request::Keys))
    }

    /// Of the keys `keys`, those that begin with `prefix`, in their order.
    fn own(keys: Vec<String>, prefix: &str) -> (kept: Vec<String>)
        ensures
            texts(kept@) == own_keys(texts(keys@), prefix@),
    {
        let mut kept: Vec<String> = Vec::new();
        let mut i: usize = 0;
        proof {
            reveal(Seq::filter);
            assert(texts(keys@).take(0) =~= Seq::<Seq<char>>::empty());
            assert(texts(kept@) =~= own_keys(texts(keys@).take(0), prefix@));
        }
        while i < keys.len()
            invariant
                i <= keys.len(),
                texts(kept@) == own_keys(texts(keys@).take(i as int), prefix@),
            decreases keys.len() - i,
        {
            let ghost before = texts(kept@);
            let ghost longer = texts(keys@).take(i as int + 1);
            proof {
                reveal(Seq::filter);
                assert(longer.drop_last() =~= texts(keys@).take(i as int));
                assert(longer.last() == keys@[i as int]@);
            }
            if has_prefix(keys[i].as_str(), prefix) {
                kept.push(keys[i].clone());
                proof {
                    assert(texts(kept@) =~= before.push(keys@[i as int]@));
                }
            }
            proof {
                assert(texts(kept@) == own_keys(longer, prefix@));
            }
            i = i + 1;
        }
        proof {
            assert(texts(keys@).take(keys.len() as int) =~= texts(keys@));
        }
        kept
    }

    /// Whether the task waits for a reply of the form of `reply`.
    pub fn expects(&self, reply: &Reply) -> (expected: bool)
        ensures
            expected == self@.expects(reply@),
    {
        match self.phase {
            Phase::PushId => matches!(reply, Reply::Id(_)),
            Phase::ReserveRecord => matches!(reply, Reply::Record(_)),
            Phase::PushClock | Phase::SweepClock | Phase::ReserveClock => matches!(
                reply,
                Reply::Time(_)
            ),
            Phase::ReserveLock | Phase::DeleteRecord | Phase::RemoveLock | Phase::RemoveRecord
            | Phase::StatusAttempts | Phase::StatusRecord => matches!(reply, Reply::Flag(_)),
            Phase::SweepDue => matches!(reply, Reply::Ids(_)),
            Phase::ReservePop => matches!(reply, Reply::Popped(_)),
            Phase::ReserveCount => matches!(reply, Reply::Attempts(_)),
            Phase::ClearKeys => matches!(reply, Reply::Keys(_)),
            Phase::Ended => false,
            _ => matches!(reply, Reply::Done),
        }
    }

    /// The pop with which a reservation takes an id from the waiting list.
    fn pop(self) -> (next: (Task, Step))
        ensures
            (next.0@, next.1@) == pop_spec(self@),
    {
        let mut task = self;
        task.phase = Phase::ReservePop;
        let timeout = task.timeout;
        if timeout == 0 {
            (task, Step::Ask(Request::PopTail))
        } else {
            (task, Step::Ask(Request::AwaitTail { timeout }))
        }
    }

    /// The next step of a sweep that has dropped the due ids from their set.
    fn sweep(self) -> (next: (Task, Step))
        ensures
            (next.0@, next.1@) == sweep_spec(self@),
    {
        let mut task = self;
        if task.next < task.ids.len() {
            let id = task.ids[task.next];
            task.phase = Phase::SweepMove;
            task.next = task.next + 1;
            (task, Step::Ask(Request::PushHead { id }))
        } else if task.set == Timed::Delayed {
            task.phase = Phase::SweepClock;
            task.set = Timed::Reserved;
            (task, Step::Ask(Request::Clock))
        } else {
            task.pop()
        }
    }

    /// The task in the phase `phase`, with the request that it asks there.
    fn ask(self, phase: Phase, request: Request) -> (next: (Task, Step))
        ensures
            next.0@ == self@.at(phase),
            next.1@ == StepView::Ask(request@),
    {
        let mut task = self;
        task.phase = phase;
        (task, Step::Ask(request))
    }

    /// The task at its end, with its outcome.
    fn finish(self, outcome: Outcome) -> (next: (Task, Step))
        ensures
            next.0@ == self@.ended(),
            next.1@ == StepView::Finish(outcome@),
    {
        let mut task = self;
        task.phase = Phase::Ended;
        (task, Step::Finish(outcome))
    }

    /// Resumes the task with the reply to the request that it asked: gives
    /// the task as it goes on, and its next step.
    pub fn resume(self, reply: Reply) -> (next: (Task, Step))
        requires
            self@.expects(reply@),
        ensures
            (next.0@, next.1@) == resume_spec(self@, reply@),
    {
        let mut task = self;
        let id = task.id;
        match (task.phase, reply) {
            (Phase::PushId, Reply::Id(issued)) => {
                let mut record = String::new();
                std::mem::swap(&mut record, &mut task.text);
                task.id = issued;
                task.ask(Phase::PushRecord, Request::PutRecord { id: issued, record })
            },
            (Phase::PushRecord, Reply::Done) => task.ask(Phase::PushClock, Request::Clock),
            (Phase::PushClock, Reply::Time(now)) => {
                if task.delay == 0 {
                    task.ask(Phase::PushPlace, Request::PushHead { id })
                } else if now > u64::MAX - task.delay as u64 {
                    task.finish(Outcome::Failed(Fault::Clock))
                } else {
                    let score = now + task.delay as u64;
                    task.ask(Phase::PushPlace, Request::Schedule { set: Timed::Delayed, id, score })
                }
            },
            (Phase::PushPlace, Reply::Done) => task.finish(Outcome::Pushed(id)),
            (Phase::ReserveLock, Reply::Flag(taken)) => {
                if taken {
                    task.set = Timed::Delayed;
                    task.ask(Phase::SweepClock, Request::Clock)
                } else {
                    task.pop()
                }
            },
            (Phase::SweepClock, Reply::Time(now)) => {
                task.now = now;
                let set = task.set;
                task.ask(Phase::SweepDue, Request::Due { set, max: now })
            },
            (Phase::SweepDue, Reply::Ids(ids)) => {
                task.ids = ids;
                task.next = 0;
                let set = task.set;
                let max = task.now;
                task.ask(Phase::SweepMove, Request::DropDue { set, max })
            },
            (Phase::SweepMove, Reply::Done) => task.sweep(),
            (Phase::ReservePop, Reply::Popped(popped)) => {
                match popped {
                    Some(popped) if popped != 0 => {
                        task.id = popped;
                        task.ask(Phase::ReserveRecord, Request::GetRecord { id: popped })
                    },
                    _ => task.finish(Outcome::Failed(Fault::NoJob)),
                }
            },
            (Phase::ReserveRecord, Reply::Record(record)) => {
                match parse_record(record.as_str()) {
                    Some((ttr, payload)) => {
                        task.ttr = ttr;
                        task.text = payload;
                        task.ask(Phase::ReserveClock, Request::Clock)
                    },
                    None => task.finish(Outcome::Failed(Fault::InvalidTtr)),
                }
            },
            (Phase::ReserveClock, Reply::Time(now)) => {
                if now > u64::MAX - task.ttr as u64 {
                    task.finish(Outcome::Failed(Fault::Clock))
                } else {
                    let score = now + task.ttr as u64;
                    task.ask(
                        Phase::ReserveMark,
                        Request::Schedule { set: Timed::Reserved, id, score },
                    )
                }
            },
            (Phase::ReserveMark, Reply::Done) => task.ask(
                Phase::ReserveCount,
                Request::CountAttempt { id },
            ),
            (Phase::ReserveCount, Reply::Attempts(attempts)) => {
                let mut payload = String::new();
                std::mem::swap(&mut payload, &mut task.text);
                let ttr = task.ttr;
                task.finish(Outcome::Reserved { id, payload, ttr, attempts })
            },
            (Phase::DeleteRecord, Reply::Flag(_)) => task.ask(
                Phase::DeleteAttempts,
                Request::DropAttempts { id },
            ),
            (Phase::DeleteAttempts, Reply::Done) => task.ask(
                Phase::DeleteReserved,
                Request::Unschedule { set: Timed::Reserved, id },
            ),
            (Phase::DeleteReserved, Reply::Done) => task.finish(Outcome::Deleted),
            (Phase::RemoveLock, Reply::Flag(taken)) => {
                if taken {
                    task.ask(Phase::RemoveRecord, Request::DropRecord { id })
                } else {
                    task.finish(Outcome::Busy)
                }
            },
            (Phase::RemoveRecord, Reply::Flag(found)) => {
                if found {
                    task.ask(
                        Phase::RemoveReserved,
                        Request::Unschedule { set: Timed::Reserved, id },
                    )
                } else {
                    task.finish(Outcome::Removed(false))
                }
            },
            (Phase::RemoveReserved, Reply::Done) => task.ask(
                Phase::RemoveDelayed,
                Request::Unschedule { set: Timed::Delayed, id },
            ),
            (Phase::RemoveDelayed, Reply::Done) => task.ask(
                Phase::RemoveWaiting,
                Request::Unlist { id },
            ),
            (Phase::RemoveWaiting, Reply::Done) => task.ask(
                Phase::RemoveAttempts,
                Request::DropAttempts { id },
            ),
            (Phase::RemoveAttempts, Reply::Done) => task.finish(Outcome::Removed(true)),
            (Phase::StatusAttempts, Reply::Flag(reserved)) => {
                if reserved {
                    task.finish(Outcome::Status(STATUS_RESERVED))
                } else {
                    task.ask(Phase::StatusRecord, Request::HasRecord { id })
                }
            },
            (Phase::StatusRecord, Reply::Flag(found)) => {
                if found {
                    task.finish(Outcome::Status(STATUS_WAITING))
                } else {
                    task.finish(Outcome::Status(STATUS_DONE))
                }
            },
            (Phase::ClearKeys, Reply::Keys(listed)) => {
                let keys = Task::own(listed, task.text.as_str());
                if keys.len() == 0 {
                    task.finish(Outcome::Cleared)
                } else {
                    task.ask(Phase::ClearDrop, Request::DropKeys { keys })
                }
            },
            (Phase::ClearDrop, Reply::Done) => task.finish(Outcome::Cleared),
            _ => unreached(),
        }
    }
}

/// The operations of the queue.
pub ghost enum Op {
    Push,
    Reserve,
    Delete,
    Remove,
    Status,
    Clear,
}

/// The operation that a phase belongs to, if the task has not ended.
pub open spec fn op_of(phase: Phase) -> Option<Op> {
    match phase {
        Phase::PushId | Phase::PushRecord | Phase::PushClock | Phase::PushPlace => Some(Op::Push),
        Phase::ReserveLock | Phase::SweepClock | Phase::SweepDue | Phase::SweepMove
        | Phase::ReservePop | Phase::ReserveRecord | Phase::ReserveClock | Phase::ReserveMark
        | Phase::ReserveCount => Some(Op::Reserve),
        Phase::DeleteRecord | Phase::DeleteAttempts | Phase::DeleteReserved => Some(Op::Delete),
        Phase::RemoveLock | Phase::RemoveRecord | Phase::RemoveReserved | Phase::RemoveDelayed
        | Phase::RemoveWaiting | Phase::RemoveAttempts => Some(Op::Remove),
        Phase::StatusAttempts | Phase::StatusRecord => Some(Op::Status),
        Phase::ClearKeys | Phase::ClearDrop => Some(Op::Clear),
        Phase::Ended => None,
    }
}

/// The outcomes with which an operation can end.
pub open spec fn fits(op: Op, outcome: OutcomeView) -> bool {
    match op {
        Op::Push => outcome is Pushed || outcome == OutcomeView::Failed(Fault::Clock),
        Op::Reserve => (outcome is Reserved && outcome->Reserved_id != 0) || outcome is Failed,
        Op::Delete => outcome is Deleted,
        Op::Remove => outcome is Removed || outcome is Busy,
        Op::Status => outcome is Status && (outcome->Status_0 == STATUS_WAITING
            || outcome->Status_0 == STATUS_RESERVED || outcome->Status_0 == STATUS_DONE),
        Op::Clear => outcome is Cleared,
    }
}

impl TaskView {
    /// What holds of a task that was begun by one of the `begin_*_spec` and
    /// resumed by `resume_spec`: a reserved id is not zero, and the sweep has
    /// moved no more ids than it was given.
    pub open spec fn sound(self) -> bool {
        match self.phase {
            Phase::ReserveRecord | Phase::ReserveClock | Phase::ReserveMark
            | Phase::ReserveCount => self.id != 0,
            Phase::SweepMove => 0 <= self.next <= self.ids.len(),
            _ => true,
        }
    }

    /// How far the task is from its end, in phases.
    pub open spec fn stage(self) -> nat {
        match self.phase {
            Phase::Ended => 0,
            Phase::PushPlace | Phase::DeleteReserved | Phase::RemoveAttempts
            | Phase::StatusRecord | Phase::ClearDrop | Phase::ReserveCount => 1,
            Phase::PushClock | Phase::DeleteAttempts | Phase::RemoveWaiting
            | Phase::StatusAttempts | Phase::ClearKeys | Phase::ReserveMark => 2,
            Phase::PushRecord | Phase::DeleteRecord | Phase::RemoveDelayed
            | Phase::ReserveClock => 3,
            Phase::PushId | Phase::RemoveReserved | Phase::ReserveRecord => 4,
            Phase::RemoveRecord | Phase::ReservePop => 5,
            Phase::RemoveLock => 6,
            Phase::SweepMove => if self.set == Timed::Delayed {
                10
            } else {
                7
            },
            Phase::SweepDue => if self.set == Timed::Delayed {
                11
            } else {
                8
            },
            Phase::SweepClock => if self.set == Timed::Delayed {
                12
            } else {
                9
            },
            Phase::ReserveLock => 13,
        }
    }

    /// How many ids the sweep has still to move to the waiting list.
    pub open spec fn left(self) -> nat {
        if self.phase == Phase::SweepMove && 0 <= self.next <= self.ids.len() {
            (self.ids.len() - self.next) as nat
        } else {
            0
        }
    }

    /// Whether `step` is a step of the task: a request whose replies the
    /// task expects, or the end of a task that has ended.
    pub open spec fn steps(self, step: StepView) -> bool {
        &&& self.sound()
        &&& match step {
            StepView::Ask(request) => forall|reply: ReplyView| #[trigger]
                answers(request, reply) ==> self.expects(reply),
            StepView::Finish(_) => self.phase == Phase::Ended,
        }
    }
}

/// Each resumption brings a task nearer to its end, keeps it at its
/// operation, and ends it only with an outcome of that operation.
pub proof fn lemma_resume_advances(task: TaskView, reply: ReplyView)
    requires
        task.sound(),
        task.expects(reply),
    ensures
        ({
            let (next, step) = resume_spec(task, reply);
            &&& next.steps(step)
            &&& next.stage() < task.stage() || (next.stage() == task.stage() && next.left()
                < task.left())
            &&& match step {
                StepView::Ask(_) => op_of(next.phase) == op_of(task.phase),
                StepView::Finish(outcome) => fits(op_of(task.phase)->0, outcome),
            }
        }),
{
}

/// Where a task stands after it was given `replies`, one after another:
/// nothing where it had ended before the replies did, or where a reply has
/// not the form in which the request it answers is answered.
pub open spec fn follows(task: TaskView, step: StepView, replies: Seq<ReplyView>) -> Option<
    (TaskView, StepView),
>
    decreases replies.len(),
{
    if replies.len() == 0 {
        Some((task, step))
    } else {
        match step {
            StepView::Finish(_) => None,
            StepView::Ask(request) => if answers(request, replies[0]) {
                let (next, then) = resume_spec(task, replies[0]);
                follows(next, then, replies.drop_first())
            } else {
                None
            },
        }
    }
}

/// Whether the task that begins with `begun` ends with `outcome` after
/// `replies`.
pub open spec fn ends_after(
    begun: (TaskView, StepView),
    replies: Seq<ReplyView>,
    outcome: OutcomeView,
) -> bool {
    match follows(begun.0, begun.1, replies) {
        Some((_, StepView::Finish(ended))) => ended == outcome,
        _ => false,
    }
}

/// Whether `outcome` is an outcome of the task that begins with `begun`: the
/// one with which it ends after some replies.
pub open spec fn ends_with(begun: (TaskView, StepView), outcome: OutcomeView) -> bool {
    exists|replies: Seq<ReplyView>| ends_after(begun, replies, outcome)
}

/// A task that has followed some replies and asks again follows one reply
/// more as `resume_spec` says.
pub proof fn lemma_follows_one_more(
    task: TaskView,
    step: StepView,
    replies: Seq<ReplyView>,
    reply: ReplyView,
)
    requires
        follows(task, step, replies) matches Some((_, StepView::Ask(request))) && answers(
            request,
            reply,
        ),
    ensures
        follows(task, step, replies) matches Some(reached) && follows(
            task,
            step,
            replies.push(reply),
        ) == Some(resume_spec(reached.0, reply)),
    decreases replies.len(),
{
    reveal_with_fuel(follows, 2);
    let longer = replies.push(reply);
    if replies.len() == 0 {
        assert(longer.drop_first() =~= Seq::<ReplyView>::empty());
    } else {
        let (next, then) = resume_spec(task, replies[0]);
        lemma_follows_one_more(next, then, replies.drop_first(), reply);
        assert(longer.drop_first() =~= replies.drop_first().push(reply));
    }
}

} // verus!
