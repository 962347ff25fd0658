//! What the queue's operations do to a store that answers as the model says.
//!
//! An exchange is the list of replies that a task was given, in order. Where
//! every reply is one that the model's store may give to the request it
//! answers, `advance` follows the task and the store through the exchange.
//! The laws below hold of every such exchange: whatever the clock showed, and
//! in whatever order the store listed its ids.

use vstd::prelude::*;
use crate::engine::{
    begin_clear_spec, begin_delete_spec, ends_after, ends_with, follows, lemma_own_keys, own_keys, begin_push_spec, begin_remove_spec, begin_reserve_spec, begin_status_spec,
    lemma_resume_advances, pop_spec, resume_spec, sweep_spec, Fault, OutcomeView, Phase, StepView, TaskView, STATUS_DONE, STATUS_RESERVED,
    STATUS_WAITING,
};
use crate::keys::{begins_with, key_text, lemma_key_begins_with_prefix, prefix_text, Key};
use crate::record::{parse_record_spec, record_payload, record_ttr};
use crate::store::{answers, without, Channel, ReplyView, RequestView, Timed};

verus! {

/// Where a task and the store stand after an exchange: nothing where the task
/// had ended before the exchange did, or where a reply is not one that the
/// store may give.
pub open spec fn advance(task: TaskView, step: StepView, channel: Channel, replies: Seq<ReplyView>)
    -> Option<(TaskView, StepView, Channel)>
    decreases replies.len(),
{
    if replies.len() == 0 {
        Some((task, step, channel))
    } else {
        match step {
            StepView::Finish(_) => None,
            StepView::Ask(request) => if channel.accepts(request, replies[0]) {
                let (next, then) = resume_spec(task, replies[0]);
                advance(next, then, channel.after(request), replies.drop_first())
            } else {
                None
            },
        }
    }
}

/// Whether an exchange that begins with `begun` on the store `channel` ends
/// the task with `outcome` and leaves the store as `left`.
pub open spec fn completes(
    begun: (TaskView, StepView),
    channel: Channel,
    replies: Seq<ReplyView>,
    outcome: OutcomeView,
    left: Channel,
) -> bool {
    match advance(begun.0, begun.1, channel, replies) {
        Some((_, StepView::Finish(ended), end)) => ended == outcome && end == left,
        _ => false,
    }
}

/// The status of a job in a store: reserved where it has attempts, else
/// waiting where it has a record, else done.
pub open spec fn status_of(channel: Channel, id: u64) -> u8 {
    if channel.attempts.contains_key(id) {
        STATUS_RESERVED
    } else if channel.messages.contains_key(id) {
        STATUS_WAITING
    } else {
        STATUS_DONE
    }
}

/// A look at the status of a job gives `status_of`, and leaves the store as
/// it was.
pub proof fn law_status(
    channel: Channel,
    id: u64,
    replies: Seq<ReplyView>,
    outcome: OutcomeView,
    left: Channel,
)
    requires
        completes(begin_status_spec(id), channel, replies, outcome, left),
    ensures
        outcome == OutcomeView::Status(status_of(channel, id)),
        left == channel,
{
    reveal_with_fuel(advance, 4);
}

/// The store after a push has written `record` under the next id, and
/// before it has placed the id.
pub open spec fn stored(channel: Channel, record: Seq<char>) -> Channel {
    Channel {
        counter: channel.counter + 1,
        messages: channel.messages.insert((channel.counter + 1) as u64, record),
        ..channel
    }
}

/// The store after a push of `record` with the delay `delay`, at a time when
/// the clock showed `now`: the counter has issued the next id, the record
/// stands under it, and the id is at the head of the waiting list where
/// there is no delay, in the delayed set with the score `now + delay` where
/// there is one.
pub open spec fn pushed(channel: Channel, record: Seq<char>, delay: u32, now: u64) -> Channel {
    let id = (channel.counter + 1) as u64;
    let stored = stored(channel, record);
    if delay == 0 {
        Channel { waiting: seq![id] + channel.waiting, ..stored }
    } else {
        Channel { delayed: channel.delayed.insert(id, (now + delay) as u64), ..stored }
    }
}

/// A push gives the id that the counter issues and leaves the store as
/// `pushed` says, for the time that the clock showed. It fails only where a
/// delay cannot be added to that time; the record is written then, and the
/// id is placed nowhere.
pub proof fn law_push(
    channel: Channel,
    record: Seq<char>,
    delay: u32,
    replies: Seq<ReplyView>,
    outcome: OutcomeView,
    left: Channel,
)
    requires
        completes(begin_push_spec(record, delay), channel, replies, outcome, left),
    ensures
        replies.len() >= 3,
        replies[2] is Time,
        outcome is Failed <==> delay > 0 && replies[2]->Time_0 + delay > u64::MAX,
        outcome is Failed ==> outcome == OutcomeView::Failed(Fault::Clock) && left == stored(
            channel,
            record,
        ),
        !(outcome is Failed) ==> outcome == OutcomeView::Pushed((channel.counter + 1) as u64)
            && channel.counter + 1 <= u64::MAX && left == pushed(
            channel,
            record,
            delay,
            replies[2]->Time_0,
        ),
{
    reveal_with_fuel(advance, 6);
    assert(replies.len() >= 3);
}

/// The store after the retirement of `id`: its record, its attempts and its
/// entry in the reserved set are gone.
pub open spec fn deleted(channel: Channel, id: u64) -> Channel {
    Channel {
        messages: channel.messages.remove(id),
        attempts: channel.attempts.remove(id),
        reserved: channel.reserved.remove(id),
        ..channel
    }
}

/// A retirement leaves the store as `deleted` says.
pub proof fn law_delete(
    channel: Channel,
    id: u64,
    replies: Seq<ReplyView>,
    outcome: OutcomeView,
    left: Channel,
)
    requires
        completes(begin_delete_spec(id), channel, replies, outcome, left),
    ensures
        outcome == OutcomeView::Deleted,
        left == deleted(channel, id),
{
    reveal_with_fuel(advance, 5);
}

/// The store after the removal of `id` by someone who took the moving lock:
/// where `id` had a record, nothing of `id` is left.
pub open spec fn removed(channel: Channel, id: u64) -> Channel {
    if channel.messages.contains_key(id) {
        Channel {
            messages: channel.messages.remove(id),
            attempts: channel.attempts.remove(id),
            reserved: channel.reserved.remove(id),
            delayed: channel.delayed.remove(id),
            waiting: without(channel.waiting, id),
            locked: true,
            ..channel
        }
    } else {
        Channel { locked: true, ..channel }
    }
}

/// A removal does nothing where the moving lock is held. Where it is free,
/// the removal takes it, says whether `id` had a record, and leaves the
/// store as `removed` says.
pub proof fn law_remove(
    channel: Channel,
    id: u64,
    replies: Seq<ReplyView>,
    outcome: OutcomeView,
    left: Channel,
)
    requires
        completes(begin_remove_spec(id), channel, replies, outcome, left),
    ensures
        channel.locked ==> outcome == OutcomeView::Busy && left == channel,
        !channel.locked ==> outcome == OutcomeView::Removed(channel.messages.contains_key(id))
            && left == removed(channel, id),
{
    reveal_with_fuel(advance, 8);
    if channel.locked {
        assert(left =~= channel);
    } else if !channel.messages.contains_key(id) {
        assert(channel.messages.remove(id) =~= channel.messages);
    }
}

/// A list of ids from its last to its first.
pub open spec fn reversed(ids: Seq<u64>) -> Seq<u64> {
    Seq::new(ids.len(), |i: int| ids[ids.len() - 1 - i])
}

/// The store after a sweep of `set` at the time `now`, in which the store
/// listed `ids` as due: every entry with a score of at most `now` has left
/// the set, and the listed ids stand at the head of the waiting list, the
/// one that was listed first nearest to the ids that waited already. Those
/// keep their places at the end from which ids are popped.
pub open spec fn swept(channel: Channel, set: Timed, now: u64, ids: Seq<u64>) -> Channel {
    let dropped = channel.after(RequestView::DropDue { set, max: now });
    Channel { waiting: reversed(ids) + channel.waiting, ..dropped }
}

/// Whether a phase is behind the recovery sweep.
pub open spec fn past_sweep(phase: Phase) -> bool {
    phase != Phase::SweepClock && phase != Phase::SweepDue && phase != Phase::SweepMove
}

/// A sweep that has still to push the ids from `task.next - 1` on pushes
/// them one by one, and then goes on.
proof fn lemma_moves(task: TaskView, channel: Channel, replies: Seq<ReplyView>)
    requires
        task.phase == Phase::SweepMove,
        1 <= task.next <= task.ids.len(),
        advance(
            task,
            StepView::Ask(RequestView::PushHead { id: task.ids[task.next - 1] }),
            channel,
            replies,
        ) matches Some(reached) && past_sweep(reached.0.phase),
    ensures
        ({
            let count = task.ids.len() - task.next + 1;
            let moved = TaskView { next: task.ids.len() as int, ..task };
            let (next, then) = sweep_spec(moved);
            &&& replies.len() >= count
            &&& advance(
                task,
                StepView::Ask(RequestView::PushHead { id: task.ids[task.next - 1] }),
                channel,
                replies,
            ) == advance(
                next,
                then,
                Channel {
                    waiting: reversed(task.ids.skip(task.next - 1)) + channel.waiting,
                    ..channel
                },
                replies.skip(count),
            )
        }),
    decreases task.ids.len() - task.next,
{
    reveal_with_fuel(advance, 2);
    let request = RequestView::PushHead { id: task.ids[task.next - 1] };
    let after = channel.after(request);
    let rest = replies.drop_first();
    let count = task.ids.len() - task.next + 1;
    let target = Channel {
        waiting: reversed(task.ids.skip(task.next - 1)) + channel.waiting,
        ..channel
    };
    if task.next < task.ids.len() {
        let further = TaskView { next: task.next + 1, ..task };
        lemma_moves(further, after, rest);
        assert(reversed(task.ids.skip(task.next)) + after.waiting =~= target.waiting);
        assert(rest.skip(count - 1) =~= replies.skip(count));
    } else {
        assert(after.waiting =~= target.waiting);
        assert(rest =~= replies.skip(count));
    }
}

/// How many replies a sweep takes whose first reply stands at `start`: the
/// time, the due ids, the answer to the range-remove, and one answer for
/// each id that is pushed.
pub open spec fn sweep_length(replies: Seq<ReplyView>, start: int) -> int {
    3 + replies[start + 1]->Ids_0.len() as int
}

/// A sweep reads the clock, asks for the due ids, removes them from their
/// set and pushes them at the head of the waiting list, and then goes on.
proof fn lemma_sweep(task: TaskView, channel: Channel, replies: Seq<ReplyView>)
    requires
        task.phase == Phase::SweepClock,
        advance(task, StepView::Ask(RequestView::Clock), channel, replies) matches Some(reached)
            && past_sweep(reached.0.phase),
    ensures
        ({
            let now = replies[0]->Time_0;
            let ids = replies[1]->Ids_0;
            let moved = TaskView {
                phase: Phase::SweepMove,
                now,
                ids,
                next: ids.len() as int,
                ..task
            };
            let (next, then) = sweep_spec(moved);
            &&& replies.len() >= sweep_length(replies, 0)
            &&& replies[0] is Time
            &&& channel.accepts(RequestView::Due { set: task.set, max: now }, replies[1])
            &&& advance(task, StepView::Ask(RequestView::Clock), channel, replies) == advance(
                next,
                then,
                swept(channel, task.set, now, ids),
                replies.skip(sweep_length(replies, 0)),
            )
        }),
{
    reveal_with_fuel(advance, 4);
    let now = replies[0]->Time_0;
    let ids = replies[1]->Ids_0;
    let dropped = channel.after(RequestView::DropDue { set: task.set, max: now });
    let entered = TaskView { phase: Phase::SweepMove, now, ids, next: 0, ..task };
    assert(replies.len() >= 3);
    let rest = replies.skip(3);
    assert(replies.drop_first().drop_first().drop_first() =~= rest);
    if ids.len() > 0 {
        let first = TaskView { next: 1, ..entered };
        lemma_moves(first, dropped, rest);
        assert(ids.skip(0) =~= ids);
        assert(rest.skip(ids.len() as int) =~= replies.skip(sweep_length(replies, 0)));
        assert(Channel { waiting: reversed(ids) + dropped.waiting, ..dropped } == swept(
            channel,
            task.set,
            now,
            ids,
        ));
    } else {
        assert(reversed(ids) + channel.waiting =~= channel.waiting);
        assert(dropped == swept(channel, task.set, now, ids));
    }
}

/// A reply that the store may give to a request has the form in which the
/// request is answered.
pub proof fn lemma_accepted_answers(channel: Channel, request: RequestView, reply: ReplyView)
    requires
        channel.accepts(request, reply),
    ensures
        answers(request, reply),
{
}

/// Along an exchange, a task stays with its steps: it has ended where, and
/// only where, its step is an end.
pub proof fn lemma_advance_steps(
    task: TaskView,
    step: StepView,
    channel: Channel,
    replies: Seq<ReplyView>,
)
    requires
        task.steps(step),
        advance(task, step, channel, replies) is Some,
    ensures
        ({
            let reached = advance(task, step, channel, replies)->0;
            reached.0.steps(reached.1)
        }),
    decreases replies.len(),
{
    if replies.len() > 0 {
        let request = step->Ask_0;
        lemma_accepted_answers(channel, request, replies[0]);
        lemma_resume_advances(task, replies[0]);
        let (next, then) = resume_spec(task, replies[0]);
        lemma_advance_steps(next, then, channel.after(request), replies.drop_first());
    }
}

/// An exchange with a store that answers as the model says is an exchange:
/// the task stands after it where `follows` says.
pub proof fn lemma_advance_follows(
    task: TaskView,
    step: StepView,
    channel: Channel,
    replies: Seq<ReplyView>,
)
    requires
        advance(task, step, channel, replies) is Some,
    ensures
        ({
            let reached = advance(task, step, channel, replies)->0;
            follows(task, step, replies) == Some((reached.0, reached.1))
        }),
    decreases replies.len(),
{
    if replies.len() > 0 {
        let request = step->Ask_0;
        lemma_accepted_answers(channel, request, replies[0]);
        let (next, then) = resume_spec(task, replies[0]);
        lemma_advance_follows(next, then, channel.after(request), replies.drop_first());
    }
}

/// Where in an exchange of a reservation the reply to the pop stands: behind
/// the reply to the lock, and behind the two sweeps where the lock was taken.
pub open spec fn pop_index(replies: Seq<ReplyView>) -> int {
    if replies[0] == ReplyView::Flag(true) {
        let second = 1 + sweep_length(replies, 1);
        second + sweep_length(replies, second)
    } else {
        1
    }
}

/// The store at the moment at which a reservation pops: as it was where the
/// lock was held, and after the sweep of the delayed and of the reserved set
/// where the reservation took the lock.
pub open spec fn at_pop(channel: Channel, replies: Seq<ReplyView>) -> Channel {
    let locked = channel.after(RequestView::Lock);
    if replies[0] == ReplyView::Flag(true) {
        let second = 1 + sweep_length(replies, 1);
        swept(
            swept(locked, Timed::Delayed, replies[1]->Time_0, replies[2]->Ids_0),
            Timed::Reserved,
            replies[second]->Time_0,
            replies[second + 1]->Ids_0,
        )
    } else {
        locked
    }
}

/// What a pop from `channel` at the time `now` gives, and how it leaves the
/// store. The id at the tail of the waiting list leaves the list. Where there
/// is none, or it is zero, no job is found. Where its record has no valid
/// time-to-reserve, the record is malformed, and stays. Else the id enters
/// the reserved set with the score `now` plus its time-to-reserve, and its
/// attempts grow by one.
pub open spec fn reservation(channel: Channel, now: u64) -> (OutcomeView, Channel) {
    let rest = channel.after(RequestView::PopTail);
    if channel.waiting.len() == 0 || channel.waiting.last() == 0 {
        (OutcomeView::Failed(Fault::NoJob), rest)
    } else {
        let id = channel.waiting.last();
        match parse_record_spec(channel.messages[id]) {
            None => (OutcomeView::Failed(Fault::InvalidTtr), rest),
            Some((ttr, payload)) => if now + ttr > u64::MAX {
                (OutcomeView::Failed(Fault::Clock), rest)
            } else {
                (
                    OutcomeView::Reserved {
                        id,
                        payload,
                        ttr,
                        attempts: (channel.attempts_of(id) + 1) as u32,
                    },
                    Channel {
                        reserved: channel.reserved.insert(id, (now + ttr) as u64),
                        attempts: channel.attempts.insert(id, channel.attempts_of(id) + 1),
                        ..rest
                    },
                )
            },
        }
    }
}

/// Whether a reservation reads the clock a last time: it does where it has
/// popped an id whose record is valid.
pub open spec fn reads_clock(channel: Channel) -> bool {
    channel.waiting.len() > 0 && channel.waiting.last() != 0 && parse_record_spec(
        channel.messages[channel.waiting.last()],
    ) is Some
}

/// From the pop on, a reservation does what `reservation` says.
proof fn lemma_pop(
    task: TaskView,
    channel: Channel,
    replies: Seq<ReplyView>,
    outcome: OutcomeView,
    left: Channel,
)
    requires
        task.phase == Phase::ReservePop,
        completes(
            pop_spec(task),
            channel,
            replies,
            outcome,
            left,
        ),
    ensures
        reads_clock(channel) ==> replies.len() >= 3 && replies[2] is Time,
        outcome is Reserved ==> channel.attempts_of(outcome->Reserved_id) + 1 <= u32::MAX,
        (outcome, left) == reservation(channel, replies[2]->Time_0),
        channel.waiting.len() > 0 && channel.waiting.last() != 0
            ==> channel.messages.contains_key(channel.waiting.last()),
{
    reveal_with_fuel(advance, 7);
    assert(replies.len() >= 1);
    if channel.waiting.len() > 0 && channel.waiting.last() != 0 {
        assert(replies.len() >= 2);
        if reads_clock(channel) {
            assert(replies.len() >= 3);
        }
    }
}

/// A reservation takes the moving lock if it is free, and then sweeps the
/// delayed and the reserved set with the ids that the store lists as due.
/// After that it pops, and does what `reservation` says of the store as it
/// is then.
pub proof fn law_reserve(
    channel: Channel,
    timeout: u64,
    replies: Seq<ReplyView>,
    outcome: OutcomeView,
    left: Channel,
)
    requires
        completes(begin_reserve_spec(timeout), channel, replies, outcome, left),
    ensures
        replies.len() > pop_index(replies) >= 1,
        replies[0] == ReplyView::Flag(!channel.locked),
        !channel.locked ==> {
            let second = 1 + sweep_length(replies, 1);
            let locked = channel.after(RequestView::Lock);
            let first = swept(locked, Timed::Delayed, replies[1]->Time_0, replies[2]->Ids_0);
            &&& replies[1] is Time
            &&& locked.accepts(
                RequestView::Due { set: Timed::Delayed, max: replies[1]->Time_0 },
                replies[2],
            )
            &&& replies[second] is Time
            &&& first.accepts(
                RequestView::Due { set: Timed::Reserved, max: replies[second]->Time_0 },
                replies[second + 1],
            )
        },
        reads_clock(at_pop(channel, replies)) ==> replies.len() > pop_index(replies) + 2
            && replies[pop_index(replies) + 2] is Time,
        at_pop(channel, replies).waiting.len() > 0 && at_pop(channel, replies).waiting.last() != 0
            ==> channel.messages.contains_key(at_pop(channel, replies).waiting.last()),
        at_pop(channel, replies).messages == channel.messages,
        at_pop(channel, replies).attempts == channel.attempts,
        outcome is Reserved ==> channel.attempts_of(outcome->Reserved_id) + 1 <= u32::MAX,
        (outcome, left) == reservation(
            at_pop(channel, replies),
            replies[pop_index(replies) + 2]->Time_0,
        ),
{
    reveal_with_fuel(advance, 2);
    let (begun, asked) = begin_reserve_spec(timeout);
    lemma_advance_steps(begun, asked, channel, replies);
    let locked = channel.after(RequestView::Lock);
    let rest = replies.drop_first();
    let (entered, then) = resume_spec(begun, replies[0]);
    if channel.locked {
        lemma_pop(entered, locked, rest, outcome, left);
        assert(locked == channel);
    } else {
        lemma_sweep(entered, locked, rest);
        let length = sweep_length(rest, 0);
        let first = swept(locked, Timed::Delayed, rest[0]->Time_0, rest[1]->Ids_0);
        let after = rest.skip(length);
        let delayed = TaskView {
            phase: Phase::SweepMove,
            now: rest[0]->Time_0,
            ids: rest[1]->Ids_0,
            next: rest[1]->Ids_0.len() as int,
            ..entered
        };
        let (again, _) = sweep_spec(delayed);
        lemma_sweep(again, first, after);
        let second = swept(first, Timed::Reserved, after[0]->Time_0, after[1]->Ids_0);
        let tail = after.skip(sweep_length(after, 0));
        let reserved = TaskView {
            phase: Phase::SweepMove,
            now: after[0]->Time_0,
            ids: after[1]->Ids_0,
            next: after[1]->Ids_0.len() as int,
            ..again
        };
        let (popping, _) = sweep_spec(reserved);
        lemma_pop(popping, second, tail, outcome, left);
        assert(tail =~= replies.skip(pop_index(replies)));
    }
}

/// A job that is pushed without a delay waits at once: its status is
/// "waiting", and it stands at the head of the waiting list, behind every id
/// that was pushed before it, as seen from the tail from which ids are
/// popped.
pub proof fn law_push_waits(
    channel: Channel,
    record: Seq<char>,
    replies: Seq<ReplyView>,
    outcome: OutcomeView,
    left: Channel,
)
    requires
        channel.valid(),
        completes(begin_push_spec(record, 0), channel, replies, outcome, left),
    ensures
        outcome is Pushed,
        left.waiting == seq![outcome->Pushed_0] + channel.waiting,
        left.messages[outcome->Pushed_0] == record,
        status_of(left, outcome->Pushed_0) == STATUS_WAITING,
{
    law_push(channel, record, 0, replies, outcome, left);
    let id = outcome->Pushed_0;
    assert(!channel.issued(id));
}

/// A job that is pushed with a delay does not stand in the waiting list: it
/// stands in the delayed set, and its score is the time of the push plus the
/// delay. The waiting list is as it was, the id is not reserved and has no
/// attempts, and its record is there; its status is "waiting" all the same.
/// This holds of every push for which the time plus the delay is a time at
/// all; the others end with the clock's fault, and place the id nowhere.
pub proof fn law_push_delays(
    channel: Channel,
    record: Seq<char>,
    delay: u32,
    replies: Seq<ReplyView>,
    outcome: OutcomeView,
    left: Channel,
)
    requires
        channel.valid(),
        delay > 0,
        completes(begin_push_spec(record, delay), channel, replies, outcome, left),
    ensures
        replies.len() >= 3 && replies[2] is Time,
        outcome is Pushed <==> replies[2]->Time_0 + delay <= u64::MAX,
        outcome is Pushed ==> {
            let id = outcome->Pushed_0;
            &&& id == channel.counter + 1
            &&& left.waiting == channel.waiting
            &&& !left.waiting.contains(id)
            &&& left.delayed == channel.delayed.insert(id, (replies[2]->Time_0 + delay) as u64)
            &&& left.delayed[id] == replies[2]->Time_0 + delay
            &&& !left.reserved.contains_key(id)
            &&& !left.attempts.contains_key(id)
            &&& left.messages.contains_key(id)
            &&& left.messages[id] == record
            &&& status_of(left, id) == STATUS_WAITING
        },
        !(outcome is Pushed) ==> outcome == OutcomeView::Failed(Fault::Clock) && !left.placed(
            (channel.counter + 1) as u64,
        ),
{
    law_push(channel, record, delay, replies, outcome, left);
    let id = (channel.counter + 1) as u64;
    assert(!channel.issued(id));
    if channel.waiting.contains(id) {
        let i = choose|i: int| 0 <= i < channel.waiting.len() && channel.waiting[i] == id;
        assert(channel.issued(channel.waiting[i]));
    }
}

/// The time that the sweep of the delayed set read, in the exchange of a
/// reservation that took the moving lock.
pub open spec fn delayed_sweep_time(replies: Seq<ReplyView>) -> u64 {
    replies[1]->Time_0
}

/// The ids that the store listed as due in the delayed set.
pub open spec fn listed_due(replies: Seq<ReplyView>) -> Seq<u64> {
    replies[2]->Ids_0
}

/// The time that the sweep of the reserved set read.
pub open spec fn reserved_sweep_time(replies: Seq<ReplyView>) -> u64 {
    replies[1 + sweep_length(replies, 1)]->Time_0
}

/// The ids that the store listed as lapsed in the reserved set.
pub open spec fn listed_lapsed(replies: Seq<ReplyView>) -> Seq<u64> {
    replies[2 + sweep_length(replies, 1)]->Ids_0
}

/// The time that a reservation read for the id that it popped.
pub open spec fn reservation_time(replies: Seq<ReplyView>) -> u64 {
    replies[pop_index(replies) + 2]->Time_0
}

/// The waiting list after the two sweeps holds what waited, what was due and
/// what had lapsed, and nothing else.
proof fn lemma_swept_list(channel: Channel, replies: Seq<ReplyView>)
    requires
        replies[0] == ReplyView::Flag(true),
    ensures
        at_pop(channel, replies).waiting == reversed(listed_lapsed(replies)) + reversed(
            listed_due(replies),
        ) + channel.waiting,
        forall|id: u64| #[trigger]
            at_pop(channel, replies).waiting.contains(id) <==> listed_lapsed(replies).contains(id)
                || listed_due(replies).contains(id) || channel.waiting.contains(id),
{
    let due = listed_due(replies);
    let lapsed = listed_lapsed(replies);
    let list = at_pop(channel, replies).waiting;
    let waited = channel.waiting;
    assert(list =~= reversed(lapsed) + reversed(due) + waited);
    assert forall|id: u64| #[trigger] list.contains(id) <==> lapsed.contains(id) || due.contains(
        id,
    ) || waited.contains(id) by {
        if list.contains(id) {
            let i = choose|i: int| 0 <= i < list.len() && list[i] == id;
            if i < lapsed.len() {
                assert(lapsed[lapsed.len() - 1 - i] == id);
            } else if i < lapsed.len() + due.len() {
                assert(due[due.len() - 1 - (i - lapsed.len())] == id);
            } else {
                assert(waited[i - lapsed.len() - due.len()] == id);
            }
        }
        if lapsed.contains(id) {
            let i = choose|i: int| 0 <= i < lapsed.len() && lapsed[i] == id;
            assert(list[lapsed.len() - 1 - i] == id);
        }
        if due.contains(id) {
            let i = choose|i: int| 0 <= i < due.len() && due[i] == id;
            assert(list[lapsed.len() + due.len() - 1 - i] == id);
        }
        if waited.contains(id) {
            let i = choose|i: int| 0 <= i < waited.len() && waited[i] == id;
            assert(list[lapsed.len() + due.len() + i] == id);
        }
    }
}

/// The ids that a sweep recovers join the waiting list behind every id that
/// waits already: when the reservation that took the moving lock pops, the
/// ids that waited stand at the end from which ids are popped, in their
/// order, and before them the ids that were due and then those that had
/// lapsed, each in the order in which the store listed them.
pub proof fn law_sweep_appends(
    channel: Channel,
    timeout: u64,
    replies: Seq<ReplyView>,
    outcome: OutcomeView,
    left: Channel,
)
    requires
        !channel.locked,
        completes(begin_reserve_spec(timeout), channel, replies, outcome, left),
    ensures
        at_pop(channel, replies).waiting == reversed(listed_lapsed(replies)) + reversed(
            listed_due(replies),
        ) + channel.waiting,
        channel.waiting.len() > 0 ==> at_pop(channel, replies).waiting.last()
            == channel.waiting.last(),
{
    law_reserve(channel, timeout, replies, outcome, left);
    lemma_swept_list(channel, replies);
}

/// A job that waits is served before every job that a sweep recovers: the
/// reservation gives the id that stood at the pop end of the waiting list
/// before the sweep, whatever was due or had lapsed.
pub proof fn law_waiting_is_served_first(
    channel: Channel,
    timeout: u64,
    replies: Seq<ReplyView>,
    outcome: OutcomeView,
    left: Channel,
)
    requires
        channel.waiting.len() > 0,
        outcome is Reserved,
        completes(begin_reserve_spec(timeout), channel, replies, outcome, left),
    ensures
        outcome->Reserved_id == channel.waiting.last(),
{
    law_reserve(channel, timeout, replies, outcome, left);
    if !channel.locked {
        lemma_swept_list(channel, replies);
    }
}

/// A sweep leaves a delayed job where it is while its time has not come, and
/// moves it to the waiting list once it has: the reservation that takes the
/// moving lock at a time `now` finds, when it pops, every id whose score is
/// at most `now` in the waiting list and no longer in the delayed set, and
/// every other delayed id still delayed and not in the waiting list.
pub proof fn law_sweep_delayed(
    channel: Channel,
    id: u64,
    timeout: u64,
    replies: Seq<ReplyView>,
    outcome: OutcomeView,
    left: Channel,
)
    requires
        channel.valid(),
        !channel.locked,
        channel.delayed.contains_key(id),
        completes(begin_reserve_spec(timeout), channel, replies, outcome, left),
    ensures
        replies.len() >= 2 && replies[1] is Time,
        channel.delayed[id] <= delayed_sweep_time(replies) ==> at_pop(
            channel,
            replies,
        ).waiting.contains(id) && !at_pop(channel, replies).delayed.contains_key(id),
        channel.delayed[id] > delayed_sweep_time(replies) ==> !at_pop(
            channel,
            replies,
        ).waiting.contains(id) && at_pop(channel, replies).delayed.contains_key(id),
{
    law_reserve(channel, timeout, replies, outcome, left);
    lemma_swept_list(channel, replies);
    if channel.waiting.contains(id) {
        let i = choose|i: int| 0 <= i < channel.waiting.len() && channel.waiting[i] == id;
        assert(!channel.delayed.contains_key(channel.waiting[i]));
    }
}

/// A sweep leaves a reserved job where it is while its reservation holds,
/// and moves it to the waiting list once the reservation has lapsed: the
/// reservation that takes the moving lock finds, when it pops, every id
/// whose score is at most the time that the sweep read in the waiting list
/// and no longer in the reserved set, and every other reserved id still
/// reserved and not in the waiting list.
pub proof fn law_sweep_lapsed(
    channel: Channel,
    id: u64,
    timeout: u64,
    replies: Seq<ReplyView>,
    outcome: OutcomeView,
    left: Channel,
)
    requires
        channel.valid(),
        !channel.locked,
        channel.reserved.contains_key(id),
        completes(begin_reserve_spec(timeout), channel, replies, outcome, left),
    ensures
        channel.reserved[id] <= reserved_sweep_time(replies) ==> at_pop(
            channel,
            replies,
        ).waiting.contains(id) && !at_pop(channel, replies).reserved.contains_key(id),
        channel.reserved[id] > reserved_sweep_time(replies) ==> !at_pop(
            channel,
            replies,
        ).waiting.contains(id) && at_pop(channel, replies).reserved.contains_key(id),
{
    law_reserve(channel, timeout, replies, outcome, left);
    lemma_swept_list(channel, replies);
    if channel.waiting.contains(id) {
        let i = choose|i: int| 0 <= i < channel.waiting.len() && channel.waiting[i] == id;
        assert(!channel.reserved.contains_key(channel.waiting[i]));
    }
}

/// A job that was reserved has the status "reserved".
pub proof fn law_reserved_status(
    channel: Channel,
    timeout: u64,
    replies: Seq<ReplyView>,
    outcome: OutcomeView,
    left: Channel,
)
    requires
        outcome is Reserved,
        completes(begin_reserve_spec(timeout), channel, replies, outcome, left),
    ensures
        status_of(left, outcome->Reserved_id) == STATUS_RESERVED,
        left.reserved.contains_key(outcome->Reserved_id),
{
    law_reserve(channel, timeout, replies, outcome, left);
}

/// A job that was retired has the status "done".
pub proof fn law_deleted_status(
    channel: Channel,
    id: u64,
    replies: Seq<ReplyView>,
    outcome: OutcomeView,
    left: Channel,
)
    requires
        completes(begin_delete_spec(id), channel, replies, outcome, left),
    ensures
        status_of(left, id) == STATUS_DONE,
{
    law_delete(channel, id, replies, outcome, left);
}

/// A removal that takes the moving lock says that it found the job where the
/// job had a record, and the job's status is "done" then; of a job that was
/// done already it says that it found none.
pub proof fn law_removed_status(
    channel: Channel,
    id: u64,
    replies: Seq<ReplyView>,
    outcome: OutcomeView,
    left: Channel,
)
    requires
        !channel.locked,
        completes(begin_remove_spec(id), channel, replies, outcome, left),
    ensures
        channel.messages.contains_key(id) ==> outcome == OutcomeView::Removed(true) && status_of(
            left,
            id,
        ) == STATUS_DONE && !left.placed(id),
        status_of(channel, id) == STATUS_DONE ==> outcome == OutcomeView::Removed(false)
            && status_of(left, id) == STATUS_DONE,
{
    law_remove(channel, id, replies, outcome, left);
    if channel.messages.contains_key(id) {
        let kept = without(channel.waiting, id);
        if kept.contains(id) {
            channel.waiting.lemma_filter_contains_rev(|other: u64| other != id, id);
        }
    }
}

/// Every reservation counts exactly one attempt more for the id that it
/// gives, hands out the payload and the time-to-reserve of the id's record,
/// and puts the id in the reserved set until the time that it read plus the
/// time-to-reserve.
pub proof fn law_reservation_counts_one_attempt(
    channel: Channel,
    timeout: u64,
    replies: Seq<ReplyView>,
    outcome: OutcomeView,
    left: Channel,
)
    requires
        outcome is Reserved,
        completes(begin_reserve_spec(timeout), channel, replies, outcome, left),
    ensures
        ({
            let id = outcome->Reserved_id;
            &&& channel.messages.contains_key(id)
            &&& outcome->Reserved_payload == record_payload(channel.messages[id])
            &&& outcome->Reserved_ttr == record_ttr(channel.messages[id])
            &&& outcome->Reserved_attempts == channel.attempts_of(id) + 1
            &&& left.attempts_of(id) == channel.attempts_of(id) + 1
            &&& left.reserved.contains_key(id)
            &&& left.reserved[id] == reservation_time(replies) + outcome->Reserved_ttr
            &&& left.messages == channel.messages
        }),
{
    law_reserve(channel, timeout, replies, outcome, left);
}

/// A reservation that lapsed is handed out again. Where nothing waits and
/// nothing delayed is due, the reservation that takes the moving lock gives
/// the lapsed id that the store lists first: with the payload and the
/// time-to-reserve of its record, with exactly one attempt more, and
/// reserved anew until the time that it read plus the time-to-reserve. It
/// fails only where that time is too late for the time-to-reserve to be
/// added.
pub proof fn law_lapsed_is_reserved_again(
    channel: Channel,
    id: u64,
    timeout: u64,
    replies: Seq<ReplyView>,
    outcome: OutcomeView,
    left: Channel,
)
    requires
        !channel.locked,
        id != 0,
        channel.waiting.len() == 0,
        forall|other: u64| #[trigger]
            channel.delayed.contains_key(other) ==> channel.delayed[other] > delayed_sweep_time(
                replies,
            ),
        parse_record_spec(channel.messages[id]) is Some,
        completes(begin_reserve_spec(timeout), channel, replies, outcome, left),
        listed_lapsed(replies).len() > 0,
        listed_lapsed(replies)[0] == id,
    ensures
        channel.reserved.contains_key(id),
        channel.reserved[id] <= reserved_sweep_time(replies),
        outcome is Failed <==> reservation_time(replies) + record_ttr(channel.messages[id])
            > u64::MAX,
        outcome is Failed ==> outcome == OutcomeView::Failed(Fault::Clock),
        !(outcome is Failed) ==> outcome == (OutcomeView::Reserved {
            id,
            payload: record_payload(channel.messages[id]),
            ttr: record_ttr(channel.messages[id]),
            attempts: (channel.attempts_of(id) + 1) as u32,
        }) && left.attempts_of(id) == channel.attempts_of(id) + 1 && left.reserved[id]
            == reservation_time(replies) + record_ttr(channel.messages[id]),
{
    law_reserve(channel, timeout, replies, outcome, left);
    lemma_swept_list(channel, replies);
    let due = listed_due(replies);
    let lapsed = listed_lapsed(replies);
    let reached = at_pop(channel, replies);
    if due.len() > 0 {
        assert(due.contains(due[0]));
    }
    assert(lapsed.contains(lapsed[0]));
    assert(reached.waiting =~= reversed(lapsed));
    assert(reached.waiting.last() == lapsed[0]);
}

/// The one reservation that has lapsed is handed out again: where nothing
/// waits, nothing delayed is due and `id` is the only id of the reserved set
/// whose score is at most the time that the sweep read, the reservation that
/// takes the moving lock gives `id`, as `law_lapsed_is_reserved_again` says.
pub proof fn law_only_lapsed_is_reserved_again(
    channel: Channel,
    id: u64,
    timeout: u64,
    replies: Seq<ReplyView>,
    outcome: OutcomeView,
    left: Channel,
)
    requires
        !channel.locked,
        id != 0,
        channel.waiting.len() == 0,
        forall|other: u64| #[trigger]
            channel.delayed.contains_key(other) ==> channel.delayed[other] > delayed_sweep_time(
                replies,
            ),
        channel.reserved.contains_key(id),
        channel.reserved[id] <= reserved_sweep_time(replies),
        forall|other: u64|
            channel.reserved.contains_key(other) && channel.reserved[other] <= reserved_sweep_time(
                replies,
            ) ==> other == id,
        parse_record_spec(channel.messages[id]) is Some,
        completes(begin_reserve_spec(timeout), channel, replies, outcome, left),
    ensures
        outcome is Failed ==> outcome == OutcomeView::Failed(Fault::Clock),
        !(outcome is Failed) ==> outcome == (OutcomeView::Reserved {
            id,
            payload: record_payload(channel.messages[id]),
            ttr: record_ttr(channel.messages[id]),
            attempts: (channel.attempts_of(id) + 1) as u32,
        }) && left.attempts_of(id) == channel.attempts_of(id) + 1 && left.reserved[id]
            == reservation_time(replies) + record_ttr(channel.messages[id]),
{
    law_reserve(channel, timeout, replies, outcome, left);
    let lapsed = listed_lapsed(replies);
    assert(lapsed.contains(id));
    assert(lapsed.contains(lapsed[0]));
    law_lapsed_is_reserved_again(channel, lapsed[0], timeout, replies, outcome, left);
}

/// A record whose prefix is no valid time-to-reserve makes the reservation
/// that pops its id fail as malformed, and stays in the store.
pub proof fn law_malformed_record_stays(
    channel: Channel,
    id: u64,
    timeout: u64,
    replies: Seq<ReplyView>,
    outcome: OutcomeView,
    left: Channel,
)
    requires
        id != 0,
        completes(begin_reserve_spec(timeout), channel, replies, outcome, left),
        at_pop(channel, replies).waiting.len() > 0,
        at_pop(channel, replies).waiting.last() == id,
        parse_record_spec(channel.messages[id]) is None,
    ensures
        outcome == OutcomeView::Failed(Fault::InvalidTtr),
        channel.messages.contains_key(id),
        left.messages == channel.messages,
{
    law_reserve(channel, timeout, replies, outcome, left);
}

/// The ids that `count` pops give, one after another and whoever makes them:
/// each pop takes the id at the tail, until the list is empty.
pub open spec fn pops(channel: Channel, count: nat) -> Seq<u64>
    decreases count,
{
    if count == 0 || channel.waiting.len() == 0 {
        Seq::empty()
    } else {
        seq![channel.waiting.last()] + pops(
            channel.after(RequestView::PopTail),
            (count - 1) as nat,
        )
    }
}

/// No id is popped twice: the pops from a waiting list that holds no id
/// twice give ids of the list, each at most once, and all of them once there
/// were as many pops as ids.
pub proof fn law_pops_are_distinct(channel: Channel, count: nat)
    requires
        channel.waiting.no_duplicates(),
    ensures
        pops(channel, count).no_duplicates(),
        forall|id: u64| #[trigger]
            pops(channel, count).contains(id) ==> channel.waiting.contains(id),
        count >= channel.waiting.len() ==> forall|id: u64| #[trigger]
            channel.waiting.contains(id) ==> pops(channel, count).contains(id),
    decreases count,
{
    if count > 0 && channel.waiting.len() > 0 {
        let last = channel.waiting.last();
        let rest = channel.after(RequestView::PopTail);
        let later = pops(rest, (count - 1) as nat);
        let all = pops(channel, count);
        law_pops_are_distinct(rest, (count - 1) as nat);
        assert forall|id: u64| later.contains(id) implies channel.waiting.contains(id) && id
            != last by {
            assert(rest.waiting.contains(id));
            let i = choose|i: int| 0 <= i < rest.waiting.len() && rest.waiting[i] == id;
            assert(channel.waiting[i] == id);
        }
        assert forall|i: int, j: int| 0 <= i < all.len() && 0 <= j < all.len() && i != j implies all[i]
            != all[j] by {
            if i > 0 {
                assert(later.contains(later[i - 1]));
            }
            if j > 0 {
                assert(later.contains(later[j - 1]));
            }
        }
        assert forall|id: u64| all.contains(id) implies channel.waiting.contains(id) by {
            let i = choose|i: int| 0 <= i < all.len() && all[i] == id;
            if i > 0 {
                assert(later.contains(later[i - 1]));
            }
        }
        if count >= channel.waiting.len() {
            assert forall|id: u64| channel.waiting.contains(id) implies all.contains(id) by {
                if id == last {
                    assert(all[0] == id);
                } else {
                    let i = choose|i: int| 0 <= i < channel.waiting.len() && channel.waiting[i] == id;
                    assert(rest.waiting[i] == id);
                    assert(rest.waiting.contains(id));
                    assert(later.contains(id));
                    let j = choose|j: int| 0 <= j < later.len() && later[j] == id;
                    assert(all[j + 1] == id);
                }
            }
        }
    }
}

/// A list without `id` holds what the list holds but `id`, and holds nothing
/// twice where the list holds nothing twice.
pub proof fn lemma_without(list: Seq<u64>, id: u64)
    ensures
        forall|other: u64| #[trigger]
            without(list, id).contains(other) <==> list.contains(other) && other != id,
        list.no_duplicates() ==> without(list, id).no_duplicates(),
    decreases list.len(),
{
    reveal(Seq::filter);
    let kept = without(list, id);
    if list.len() > 0 {
        let front = list.drop_last();
        let last = list.last();
        let before = without(front, id);
        lemma_without(front, id);
        assert(kept == if last != id {
            before.push(last)
        } else {
            before
        });
        assert forall|other: u64| #[trigger] kept.contains(other) <==> list.contains(other)
            && other != id by {
            if kept.contains(other) {
                let i = choose|i: int| 0 <= i < kept.len() && kept[i] == other;
                if i < before.len() {
                    assert(before.contains(before[i]));
                    assert(front.contains(other));
                    let j = choose|j: int| 0 <= j < front.len() && front[j] == other;
                    assert(list[j] == other);
                } else {
                    assert(list[list.len() - 1] == other);
                }
            }
            if list.contains(other) && other != id {
                let j = choose|j: int| 0 <= j < list.len() && list[j] == other;
                if j < front.len() {
                    assert(front[j] == other);
                    assert(front.contains(other));
                    assert(before.contains(other));
                    let i = choose|i: int| 0 <= i < before.len() && before[i] == other;
                    assert(kept[i] == other);
                } else {
                    assert(kept[kept.len() - 1] == other);
                }
            }
        }
        if list.no_duplicates() {
            assert(front.no_duplicates());
            if last != id {
                assert forall|i: int, j: int|
                    0 <= i < kept.len() && 0 <= j < kept.len() && i != j implies kept[i]
                    != kept[j] by {
                    if i < before.len() && j == before.len() {
                        assert(before.contains(before[i]));
                        assert(front.contains(before[i]));
                        let k = choose|k: int| 0 <= k < front.len() && front[k] == before[i];
                        assert(list[k] != list[list.len() - 1]);
                    }
                    if j < before.len() && i == before.len() {
                        assert(before.contains(before[j]));
                        assert(front.contains(before[j]));
                        let k = choose|k: int| 0 <= k < front.len() && front[k] == before[j];
                        assert(list[k] != list[list.len() - 1]);
                    }
                }
            }
        }
    }
}

/// A push leaves a valid channel valid.
pub proof fn law_push_keeps_valid(
    channel: Channel,
    record: Seq<char>,
    delay: u32,
    replies: Seq<ReplyView>,
    outcome: OutcomeView,
    left: Channel,
)
    requires
        channel.valid(),
        completes(begin_push_spec(record, delay), channel, replies, outcome, left),
    ensures
        left.valid(),
{
    law_push(channel, record, delay, replies, outcome, left);
    let id = (channel.counter + 1) as u64;
    assert(!channel.issued(id));
    assert forall|other: u64| channel.issued(other) implies left.issued(other) by {}
    if !(outcome is Failed) && delay == 0 {
        assert forall|i: int| 0 <= i < left.waiting.len() implies left.issued(
            #[trigger] left.waiting[i],
        ) && !left.delayed.contains_key(left.waiting[i]) && !left.reserved.contains_key(
            left.waiting[i],
        ) by {
            if i > 0 {
                assert(left.waiting[i] == channel.waiting[i - 1]);
            }
        }
        assert forall|i: int, j: int|
            0 <= i < left.waiting.len() && 0 <= j < left.waiting.len() && i != j implies left.waiting[i]
            != left.waiting[j] by {
            if i > 0 {
                assert(channel.issued(channel.waiting[i - 1]));
            }
            if j > 0 {
                assert(channel.issued(channel.waiting[j - 1]));
            }
        }
    }
}

/// A retirement leaves a valid channel valid.
pub proof fn law_delete_keeps_valid(
    channel: Channel,
    id: u64,
    replies: Seq<ReplyView>,
    outcome: OutcomeView,
    left: Channel,
)
    requires
        channel.valid(),
        completes(begin_delete_spec(id), channel, replies, outcome, left),
    ensures
        left.valid(),
{
    law_delete(channel, id, replies, outcome, left);
}

/// A removal leaves a valid channel valid.
pub proof fn law_remove_keeps_valid(
    channel: Channel,
    id: u64,
    replies: Seq<ReplyView>,
    outcome: OutcomeView,
    left: Channel,
)
    requires
        channel.valid(),
        completes(begin_remove_spec(id), channel, replies, outcome, left),
    ensures
        left.valid(),
{
    law_remove(channel, id, replies, outcome, left);
    if !channel.locked && channel.messages.contains_key(id) {
        lemma_without(channel.waiting, id);
        assert forall|i: int| 0 <= i < left.waiting.len() implies left.issued(
            #[trigger] left.waiting[i],
        ) && !left.delayed.contains_key(left.waiting[i]) && !left.reserved.contains_key(
            left.waiting[i],
        ) by {
            assert(left.waiting.contains(left.waiting[i]));
            assert(channel.waiting.contains(left.waiting[i]));
            let j = choose|j: int|
                0 <= j < channel.waiting.len() && channel.waiting[j] == left.waiting[i];
            assert(channel.issued(channel.waiting[j]));
        }
    }
}

/// A sweep leaves a valid channel valid.
pub proof fn lemma_sweep_keeps_valid(channel: Channel, set: Timed, now: u64, ids: Seq<u64>)
    requires
        channel.valid(),
        channel.accepts(RequestView::Due { set, max: now }, ReplyView::Ids(ids)),
    ensures
        swept(channel, set, now, ids).valid(),
{
    let left = swept(channel, set, now, ids);
    let entries = channel.timed(set);
    let count = ids.len() as int;
    assert forall|i: int| 0 <= i < left.waiting.len() implies left.issued(
        #[trigger] left.waiting[i],
    ) && !left.delayed.contains_key(left.waiting[i]) && !left.reserved.contains_key(
        left.waiting[i],
    ) by {
        if i >= count {
            assert(left.waiting[i] == channel.waiting[i - count]);
        } else {
            let id = ids[count - 1 - i];
            assert(ids.contains(id));
            assert(entries.contains_key(id));
        }
    }
    assert forall|i: int, j: int|
        0 <= i < left.waiting.len() && 0 <= j < left.waiting.len() && i != j implies left.waiting[i]
        != left.waiting[j] by {
        if i < count {
            assert(ids.contains(ids[count - 1 - i]));
        }
        if j < count {
            assert(ids.contains(ids[count - 1 - j]));
        }
        if i >= count {
            assert(!entries.contains_key(channel.waiting[i - count]));
        }
        if j >= count {
            assert(!entries.contains_key(channel.waiting[j - count]));
        }
    }
}

/// A reservation leaves a valid channel valid.
pub proof fn law_reserve_keeps_valid(
    channel: Channel,
    timeout: u64,
    replies: Seq<ReplyView>,
    outcome: OutcomeView,
    left: Channel,
)
    requires
        channel.valid(),
        completes(begin_reserve_spec(timeout), channel, replies, outcome, left),
    ensures
        left.valid(),
{
    law_reserve(channel, timeout, replies, outcome, left);
    let locked = channel.after(RequestView::Lock);
    let reached = at_pop(channel, replies);
    assert(locked.valid());
    if !channel.locked {
        let second = 1 + sweep_length(replies, 1);
        lemma_sweep_keeps_valid(locked, Timed::Delayed, replies[1]->Time_0, replies[2]->Ids_0);
        let first = swept(locked, Timed::Delayed, replies[1]->Time_0, replies[2]->Ids_0);
        lemma_sweep_keeps_valid(
            first,
            Timed::Reserved,
            replies[second]->Time_0,
            replies[second + 1]->Ids_0,
        );
    }
    assert(reached.valid());
    let rest = reached.after(RequestView::PopTail);
    if reached.waiting.len() > 0 {
        let id = reached.waiting.last();
        assert(reached.issued(reached.waiting[reached.waiting.len() - 1]));
        assert forall|i: int| 0 <= i < rest.waiting.len() implies rest.waiting[i] != id
            && rest.issued(#[trigger] rest.waiting[i]) && !rest.delayed.contains_key(
            rest.waiting[i],
        ) && !rest.reserved.contains_key(rest.waiting[i]) by {
            assert(rest.waiting[i] == reached.waiting[i]);
        }
        assert(rest.valid());
        assert(!reached.delayed.contains_key(reached.waiting[reached.waiting.len() - 1]));
    }
}

/// A clearing of a channel leaves nothing of the channel: none of its keys
/// is there afterwards.
pub proof fn law_clear(
    channel: Channel,
    replies: Seq<ReplyView>,
    outcome: OutcomeView,
    left: Channel,
)
    requires
        completes(begin_clear_spec(channel.name), channel, replies, outcome, left),
    ensures
        outcome == OutcomeView::Cleared,
        forall|key: Key| !left.has_key(key),
{
    reveal_with_fuel(advance, 4);
    let listed = replies[0]->Keys_0;
    let keys = own_keys(listed, prefix_text(channel.name));
    lemma_own_keys(listed, prefix_text(channel.name));
    assert forall|key: Key| !left.has_key(key) by {
        if channel.has_key(key) {
            lemma_key_begins_with_prefix(channel.name, key);
            assert(listed.contains(key_text(channel.name, key)));
            assert(keys.contains(key_text(channel.name, key)));
            assert(keys.len() > 0);
        }
    }
}

/// A clearing keeps to its channel: whatever keys the store lists, the
/// clearing asks to delete those of them that begin with the channel's name
/// and a dot, and no other key; where none of them does, it ends and deletes
/// nothing.
pub proof fn law_clear_keeps_to_the_channel(name: Seq<char>, listed: Seq<Seq<char>>)
    ensures
        ({
            let (task, _) = begin_clear_spec(name);
            let (_, step) = resume_spec(task, ReplyView::Keys(listed));
            match step {
                StepView::Ask(RequestView::DropKeys { keys }) => keys.len() > 0 && forall|
                    key: Seq<char>,
                | #[trigger]
                    keys.contains(key) <==> listed.contains(key) && begins_with(
                        key,
                        prefix_text(name),
                    ),
                StepView::Finish(outcome) => outcome == OutcomeView::Cleared && forall|
                    key: Seq<char>,
                | #[trigger]
                    listed.contains(key) ==> !begins_with(key, prefix_text(name)),
                _ => false,
            }
        }),
{
    let kept = own_keys(listed, prefix_text(name));
    lemma_own_keys(listed, prefix_text(name));
    if kept.len() == 0 {
        assert forall|key: Seq<char>| #[trigger] listed.contains(key) implies !begins_with(
            key,
            prefix_text(name),
        ) by {
            if begins_with(key, prefix_text(name)) {
                assert(kept.contains(key));
            }
        }
    }
}

/// An exchange with a store that answers as the model says is one of the
/// exchanges of which the contracts of the queue's operations speak: the
/// outcome with which it ends is an outcome of the task.
pub proof fn law_completes_ends_with(
    begun: (TaskView, StepView),
    channel: Channel,
    replies: Seq<ReplyView>,
    outcome: OutcomeView,
    left: Channel,
)
    requires
        completes(begun, channel, replies, outcome, left),
    ensures
        ends_after(begun, replies, outcome),
        ends_with(begun, outcome),
{
    lemma_advance_follows(begun.0, begun.1, channel, replies);
    assert(ends_after(begun, replies, outcome));
}

/// A store whose counter has not run out answers a push to its end: at the
/// time `now`, where the delay can be added to it, the push gives the next id.
pub proof fn law_push_completes(channel: Channel, record: Seq<char>, delay: u32, now: u64)
    requires
        channel.counter < u64::MAX,
        now + delay <= u64::MAX,
    ensures
        completes(
            begin_push_spec(record, delay),
            channel,
            seq![
                ReplyView::Id((channel.counter + 1) as u64),
                ReplyView::Done,
                ReplyView::Time(now),
                ReplyView::Done,
            ],
            OutcomeView::Pushed((channel.counter + 1) as u64),
            pushed(channel, record, delay, now),
        ),
{
    reveal_with_fuel(advance, 6);
    let replies = seq![
        ReplyView::Id((channel.counter + 1) as u64),
        ReplyView::Done,
        ReplyView::Time(now),
        ReplyView::Done,
    ];
    let (begun, asked) = begin_push_spec(record, delay);
    assert(replies.drop_first().drop_first().drop_first().drop_first().len() == 0);
    assert(advance(begun, asked, channel, replies) is Some);
    let reached = advance(begun, asked, channel, replies)->0;
    lemma_advance_steps(begun, asked, channel, replies);
    law_push(channel, record, delay, replies, reached.1->Finish_0, reached.2);
}

/// Every store answers a look at a status to its end.
pub proof fn law_status_completes(channel: Channel, id: u64)
    ensures
        exists|replies: Seq<ReplyView>|
            completes(
                begin_status_spec(id),
                channel,
                replies,
                OutcomeView::Status(status_of(channel, id)),
                channel,
            ),
{
    reveal_with_fuel(advance, 4);
    let replies = if channel.attempts.contains_key(id) {
        seq![ReplyView::Flag(true)]
    } else {
        seq![ReplyView::Flag(false), ReplyView::Flag(channel.messages.contains_key(id))]
    };
    assert(replies.drop_first().len() == replies.len() - 1);
    if replies.len() == 2 {
        assert(replies.drop_first().drop_first().len() == 0);
    }
    assert(completes(
        begin_status_spec(id),
        channel,
        replies,
        OutcomeView::Status(status_of(channel, id)),
        channel,
    ));
}

/// Every store answers a retirement to its end.
pub proof fn law_delete_completes(channel: Channel, id: u64)
    ensures
        completes(
            begin_delete_spec(id),
            channel,
            seq![
                ReplyView::Flag(channel.messages.contains_key(id)),
                ReplyView::Done,
                ReplyView::Done,
            ],
            OutcomeView::Deleted,
            deleted(channel, id),
        ),
{
    reveal_with_fuel(advance, 5);
    let replies = seq![
        ReplyView::Flag(channel.messages.contains_key(id)),
        ReplyView::Done,
        ReplyView::Done,
    ];
    assert(replies.drop_first().drop_first().drop_first().len() == 0);
}

/// What a removal of `id` gives, and how it leaves the store: nothing done
/// where the moving lock is held, and as `removed` says where it is free.
pub open spec fn removal(channel: Channel, id: u64) -> (OutcomeView, Channel) {
    if channel.locked {
        (OutcomeView::Busy, channel)
    } else {
        (OutcomeView::Removed(channel.messages.contains_key(id)), removed(channel, id))
    }
}

/// Every store answers a removal to its end, as `removal` says.
pub proof fn law_remove_completes(channel: Channel, id: u64)
    ensures
        exists|replies: Seq<ReplyView>| #[trigger]
            completes(
                begin_remove_spec(id),
                channel,
                replies,
                removal(channel, id).0,
                removal(channel, id).1,
            ),
{
    reveal_with_fuel(advance, 8);
    let replies = if channel.locked {
        seq![ReplyView::Flag(false)]
    } else if channel.messages.contains_key(id) {
        seq![
            ReplyView::Flag(true),
            ReplyView::Flag(true),
            ReplyView::Done,
            ReplyView::Done,
            ReplyView::Done,
            ReplyView::Done,
        ]
    } else {
        seq![ReplyView::Flag(true), ReplyView::Flag(false)]
    };
    let (begun, asked) = begin_remove_spec(id);
    let first = replies.drop_first();
    assert(first.len() == replies.len() - 1);
    if channel.locked {
        assert(Channel { locked: true, ..channel } =~= channel);
    } else if channel.messages.contains_key(id) {
        let second = first.drop_first();
        let third = second.drop_first();
        let fourth = third.drop_first();
        let fifth = fourth.drop_first();
        assert(fifth.drop_first().len() == 0);
    } else {
        assert(first.drop_first().len() == 0);
        assert(channel.messages.remove(id) =~= channel.messages);
    }
    assert(advance(begun, asked, channel, replies) is Some);
    let reached = advance(begun, asked, channel, replies)->0;
    lemma_advance_steps(begun, asked, channel, replies);
    law_remove(channel, id, replies, reached.1->Finish_0, reached.2);
    assert(completes(
        begin_remove_spec(id),
        channel,
        replies,
        removal(channel, id).0,
        removal(channel, id).1,
    ));
}

/// The seven keys of a channel.
pub open spec fn all_keys(name: Seq<char>) -> Seq<Seq<char>> {
    seq![
        key_text(name, Key::MessageId),
        key_text(name, Key::Messages),
        key_text(name, Key::Waiting),
        key_text(name, Key::Delayed),
        key_text(name, Key::Reserved),
        key_text(name, Key::Attempts),
        key_text(name, Key::MovingLock),
    ]
}

/// Every store answers a clearing of its channel to its end.
pub proof fn law_clear_completes(channel: Channel)
    ensures
        exists|replies: Seq<ReplyView>, left: Channel| #[trigger]
            completes(
                begin_clear_spec(channel.name),
                channel,
                replies,
                OutcomeView::Cleared,
                left,
            ),
{
    reveal_with_fuel(advance, 4);
    let name = channel.name;
    let listed = all_keys(name);
    let kept = own_keys(listed, prefix_text(name));
    lemma_own_keys(listed, prefix_text(name));
    lemma_key_begins_with_prefix(name, Key::MessageId);
    assert(listed[0] == key_text(name, Key::MessageId));
    assert(listed.contains(key_text(name, Key::MessageId)));
    assert(kept.contains(key_text(name, Key::MessageId)));
    assert(kept.len() > 0);
    let replies = seq![ReplyView::Keys(listed), ReplyView::Done];
    assert forall|key: Key| channel.has_key(key) implies listed.contains(
        #[trigger] key_text(name, key),
    ) by {
        match key {
            Key::MessageId => assert(listed[0] == key_text(name, key)),
            Key::Messages => assert(listed[1] == key_text(name, key)),
            Key::Waiting => assert(listed[2] == key_text(name, key)),
            Key::Delayed => assert(listed[3] == key_text(name, key)),
            Key::Reserved => assert(listed[4] == key_text(name, key)),
            Key::Attempts => assert(listed[5] == key_text(name, key)),
            Key::MovingLock => assert(listed[6] == key_text(name, key)),
        }
    }
    assert(replies.drop_first().drop_first().len() == 0);
    let left = channel.after(RequestView::DropKeys { keys: kept });
    assert(completes(begin_clear_spec(name), channel, replies, OutcomeView::Cleared, left));
}

/// So many answers to requests that have nothing to tell.
pub open spec fn dones(count: nat) -> Seq<ReplyView> {
    Seq::new(count, |i: int| ReplyView::Done)
}

/// The replies of a sweep that reads the time `now` and is given the list
/// `ids`.
pub open spec fn sweep_exchange(now: u64, ids: Seq<u64>) -> Seq<ReplyView> {
    seq![ReplyView::Time(now), ReplyView::Ids(ids), ReplyView::Done] + dones(ids.len())
}

/// The replies that the store `channel` gives from the pop of a reservation
/// on, where the clock shows `now`.
pub open spec fn pop_exchange(channel: Channel, now: u64) -> Seq<ReplyView> {
    if channel.waiting.len() == 0 {
        seq![ReplyView::Popped(None)]
    } else {
        let id = channel.waiting.last();
        let popped = ReplyView::Popped(Some(id));
        let record = ReplyView::Record(channel.messages[id]);
        if id == 0 {
            seq![popped]
        } else if parse_record_spec(channel.messages[id]) is None {
            seq![popped, record]
        } else if now + record_ttr(channel.messages[id]) > u64::MAX {
            seq![popped, record, ReplyView::Time(now)]
        } else {
            seq![
                popped,
                record,
                ReplyView::Time(now),
                ReplyView::Done,
                ReplyView::Attempts((channel.attempts_of(id) + 1) as u32),
            ]
        }
    }
}

/// Whether the store can serve the id at the pop end of its waiting list:
/// the id has a record, and its attempts can still be counted.
pub open spec fn serves(channel: Channel) -> bool {
    channel.waiting.len() > 0 && channel.waiting.last() != 0 ==> channel.messages.contains_key(
        channel.waiting.last(),
    ) && channel.attempts_of(channel.waiting.last()) < u32::MAX
}

/// The replies of a whole reservation: to the lock, to the two sweeps where
/// the lock was free, and from the pop on.
pub open spec fn reserve_exchange(
    channel: Channel,
    first: (u64, Seq<u64>),
    second: (u64, Seq<u64>),
    now: u64,
) -> Seq<ReplyView> {
    if channel.locked {
        seq![ReplyView::Flag(false)] + pop_exchange(channel, now)
    } else {
        seq![ReplyView::Flag(true)] + (sweep_exchange(first.0, first.1) + (sweep_exchange(
            second.0,
            second.1,
        ) + pop_exchange(twice_swept(channel, first, second), now)))
    }
}

/// The store after a reservation has taken the moving lock and swept the
/// delayed set with the time and the list `first`, and the reserved set with
/// the time and the list `second`.
pub open spec fn twice_swept(channel: Channel, first: (u64, Seq<u64>), second: (u64, Seq<u64>))
    -> Channel {
    swept(
        swept(channel.after(RequestView::Lock), Timed::Delayed, first.0, first.1),
        Timed::Reserved,
        second.0,
        second.1,
    )
}

/// A sweep that has still to push the ids from `task.next - 1` on is given
/// as many answers, and goes on.
proof fn lemma_moves_on(task: TaskView, channel: Channel, rest: Seq<ReplyView>)
    requires
        task.phase == Phase::SweepMove,
        1 <= task.next <= task.ids.len(),
    ensures
        ({
            let count = (task.ids.len() - task.next + 1) as nat;
            let moved = TaskView { next: task.ids.len() as int, ..task };
            let (next, then) = sweep_spec(moved);
            advance(
                task,
                StepView::Ask(RequestView::PushHead { id: task.ids[task.next - 1] }),
                channel,
                dones(count) + rest,
            ) == advance(
                next,
                then,
                Channel {
                    waiting: reversed(task.ids.skip(task.next - 1)) + channel.waiting,
                    ..channel
                },
                rest,
            )
        }),
    decreases task.ids.len() - task.next,
{
    reveal_with_fuel(advance, 2);
    let count = (task.ids.len() - task.next + 1) as nat;
    let replies = dones(count) + rest;
    let request = RequestView::PushHead { id: task.ids[task.next - 1] };
    let after = channel.after(request);
    let target = Channel {
        waiting: reversed(task.ids.skip(task.next - 1)) + channel.waiting,
        ..channel
    };
    assert(replies[0] == ReplyView::Done);
    if task.next < task.ids.len() {
        let further = TaskView { next: task.next + 1, ..task };
        lemma_moves_on(further, after, rest);
        assert(replies.drop_first() =~= dones((count - 1) as nat) + rest);
        assert(reversed(task.ids.skip(task.next)) + after.waiting =~= target.waiting);
    } else {
        assert(replies.drop_first() =~= rest);
        assert(after.waiting =~= target.waiting);
    }
}

/// A sweep that is given the time and a list that the store may give goes
/// through them, and goes on.
proof fn lemma_sweep_on(
    task: TaskView,
    channel: Channel,
    now: u64,
    ids: Seq<u64>,
    rest: Seq<ReplyView>,
)
    requires
        task.phase == Phase::SweepClock,
        channel.accepts(RequestView::Due { set: task.set, max: now }, ReplyView::Ids(ids)),
    ensures
        ({
            let moved = TaskView {
                phase: Phase::SweepMove,
                now,
                ids,
                next: ids.len() as int,
                ..task
            };
            let (next, then) = sweep_spec(moved);
            advance(
                task,
                StepView::Ask(RequestView::Clock),
                channel,
                sweep_exchange(now, ids) + rest,
            ) == advance(next, then, swept(channel, task.set, now, ids), rest)
        }),
{
    reveal_with_fuel(advance, 4);
    let replies = sweep_exchange(now, ids) + rest;
    let dropped = channel.after(RequestView::DropDue { set: task.set, max: now });
    let entered = TaskView { phase: Phase::SweepMove, now, ids, next: 0, ..task };
    let pushes = dones(ids.len()) + rest;
    assert(replies[0] == ReplyView::Time(now));
    assert(replies[1] == ReplyView::Ids(ids));
    assert(replies[2] == ReplyView::Done);
    assert(replies.drop_first().drop_first().drop_first() =~= pushes);
    if ids.len() > 0 {
        let first = TaskView { next: 1, ..entered };
        lemma_moves_on(first, dropped, rest);
        assert(ids.skip(0) =~= ids);
        assert(Channel { waiting: reversed(ids) + dropped.waiting, ..dropped } == swept(
            channel,
            task.set,
            now,
            ids,
        ));
    } else {
        assert(pushes =~= rest);
        assert(reversed(ids) + channel.waiting =~= channel.waiting);
        assert(dropped == swept(channel, task.set, now, ids));
    }
}

/// A store that can serve the id at its pop end answers a reservation to
/// its end from the pop on, as `reservation` says.
proof fn lemma_pop_on(task: TaskView, channel: Channel, now: u64)
    requires
        serves(channel),
    ensures
        completes(
            pop_spec(task),
            channel,
            pop_exchange(channel, now),
            reservation(channel, now).0,
            reservation(channel, now).1,
        ),
{
    reveal_with_fuel(advance, 7);
    let replies = pop_exchange(channel, now);
    let first = replies.drop_first();
    assert(first.len() == replies.len() - 1);
    if first.len() > 0 {
        let second = first.drop_first();
        assert(second.len() == replies.len() - 2);
        if second.len() > 0 {
            let third = second.drop_first();
            assert(third.len() == replies.len() - 3);
            if third.len() > 0 {
                let fourth = third.drop_first();
                assert(fourth.drop_first().len() == 0);
            }
        }
    }
}

/// A store answers a reservation to its end, whatever the clock shows and
/// whatever lists of due ids it gives of those that it may give, where it
/// can serve the id that stands at the pop end after the sweeps: the
/// reservation ends as `reservation` says of the store as it is then.
pub proof fn law_reserve_completes(
    channel: Channel,
    timeout: u64,
    first: (u64, Seq<u64>),
    second: (u64, Seq<u64>),
    now: u64,
)
    requires
        !channel.locked ==> channel.after(RequestView::Lock).accepts(
            RequestView::Due { set: Timed::Delayed, max: first.0 },
            ReplyView::Ids(first.1),
        ) && swept(channel.after(RequestView::Lock), Timed::Delayed, first.0, first.1).accepts(
            RequestView::Due { set: Timed::Reserved, max: second.0 },
            ReplyView::Ids(second.1),
        ),
        channel.locked ==> serves(channel),
        !channel.locked ==> serves(twice_swept(channel, first, second)),
    ensures
        ({
            let reached = if channel.locked {
                channel
            } else {
                twice_swept(channel, first, second)
            };
            completes(
                begin_reserve_spec(timeout),
                channel,
                reserve_exchange(channel, first, second, now),
                reservation(reached, now).0,
                reservation(reached, now).1,
            )
        }),
{
    reveal_with_fuel(advance, 2);
    let (begun, asked) = begin_reserve_spec(timeout);
    let replies = reserve_exchange(channel, first, second, now);
    let locked = channel.after(RequestView::Lock);
    let (entered, then) = resume_spec(begun, replies[0]);
    if channel.locked {
        assert(locked =~= channel);
        lemma_pop_on(begun, channel, now);
        assert(replies.drop_first() =~= pop_exchange(channel, now));
        assert(pop_spec(begun) == (entered, then));
    } else {
        let reached = twice_swept(channel, first, second);
        let once = swept(locked, Timed::Delayed, first.0, first.1);
        let tail = pop_exchange(reached, now);
        let later = sweep_exchange(second.0, second.1) + tail;
        assert(replies.drop_first() =~= sweep_exchange(first.0, first.1) + later);
        lemma_sweep_on(entered, locked, first.0, first.1, later);
        let delayed = TaskView {
            phase: Phase::SweepMove,
            now: first.0,
            ids: first.1,
            next: first.1.len() as int,
            ..entered
        };
        let (again, _) = sweep_spec(delayed);
        lemma_sweep_on(again, once, second.0, second.1, tail);
        let reserved = TaskView {
            phase: Phase::SweepMove,
            now: second.0,
            ids: second.1,
            next: second.1.len() as int,
            ..again
        };
        lemma_pop_on(reserved, reached, now);
        assert(sweep_spec(reserved) == pop_spec(reserved));
    }
}

} // verus!
