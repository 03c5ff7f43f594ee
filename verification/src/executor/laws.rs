//! What holds of an executor whatever it is told.

use crate::database::Statement;
use crate::error::IndexerError;
use crate::executor::model::ExecutorView;
use crate::executor::{ExecutorAction, ExecutorEvent, Phase};
use vstd::prelude::*;

verus! {

/// A batch whose transaction was committed: its first block and how many
/// blocks it has.
pub struct Batch {
    pub first: u64,
    pub count: u64,
}

impl Batch {
    /// Whether the block at `height` is one of the batch.
    pub open spec fn holds(self, height: int) -> bool {
        self.first <= height < self.first + self.count
    }
}

/// Whether `event` answers what the executor is waiting for.
pub open spec fn answers(s: ExecutorView, event: ExecutorEvent) -> bool {
    match s.phase {
        Phase::Created | Phase::Idle => event is Flag,
        Phase::Fetching => event is Blocks || event is Failed,
        Phase::InBatch { .. } => event is Succeeded || event is Failed,
        Phase::Committing { .. } => event is Committed || event is Failed,
        Phase::RollingBack { .. } => event is RolledBack || event is Failed,
        Phase::Terminal => true,
    }
}

/// The batches that were committed over a run of events, in the order of
/// their commits.
pub open spec fn commits(start: ExecutorView, events: Seq<ExecutorEvent>) -> Seq<Batch>
    decreases events.len(),
{
    if events.len() == 0 {
        Seq::empty()
    } else {
        let before = start.run(events.drop_last());
        let earlier = commits(start, events.drop_last());
        if before.phase is Committing && events.last() is Committed {
            earlier.push(Batch { first: before.cursor, count: before.phase->Committing_count })
        } else {
            earlier
        }
    }
}

/// An executor stays well formed, whatever it is told.
pub proof fn lemma_next_keeps_wf(s: ExecutorView, event: ExecutorEvent)
    requires
        s.wf(),
    ensures
        s.next(event).0.wf(),
{
}

/// An executor stays well formed over any run of events.
pub proof fn lemma_run_keeps_wf(start: ExecutorView, events: Seq<ExecutorEvent>)
    requires
        start.wf(),
    ensures
        start.run(events).wf(),
    decreases events.len(),
{
    if events.len() > 0 {
        lemma_run_keeps_wf(start, events.drop_last());
        lemma_next_keeps_wf(start.run(events.drop_last()), events.last());
    }
}

/// Every batch is handled in one transaction of its own: a transaction is
/// opened by `Invoke` and by nothing else, it is closed by `Commit` or
/// `Rollback` and by nothing else, and the guest is at work exactly while
/// it is open.
pub proof fn lemma_one_transaction_per_batch(s: ExecutorView, event: ExecutorEvent)
    requires
        s.wf(),
    ensures
        ({
            let (t, action) = s.next(event);
            &&& t.in_transaction <==> t.phase is InBatch
            &&& action is Invoke <==> !s.in_transaction && t.in_transaction
            &&& action is Commit || action is Rollback <==> s.in_transaction && !t.in_transaction
            &&& action matches ExecutorAction::Invoke { begin, from, count } ==> {
                &&& begin == Statement::Begin
                &&& from == s.cursor
                &&& 1 <= count <= s.config.batch_size
                &&& t.phase == Phase::InBatch { count }
            }
            &&& action matches ExecutorAction::Commit { statement, height } ==> {
                &&& statement == Statement::Commit
                &&& s.phase is InBatch
                &&& height == s.cursor + s.phase->InBatch_count - 1
                &&& t.phase == Phase::Committing { count: s.phase->InBatch_count }
            }
            &&& action matches ExecutorAction::Rollback { statement, height } ==> {
                &&& statement == Statement::Rollback
                &&& height == s.cursor
                &&& s.phase is InBatch
                &&& t.phase is RollingBack
            }
        }),
{
}

/// The cursor never goes back. It passes a batch when the commit of the
/// batch is confirmed, it passes one block when a batch was rolled back for
/// a fault that a retry would meet again, and it stays where it is otherwise.
pub proof fn lemma_cursor_moves_past_what_is_done(s: ExecutorView, event: ExecutorEvent)
    requires
        s.wf(),
    ensures
        ({
            let t = s.next(event).0;
            if s.phase is Committing && event is Committed {
                t.cursor == s.cursor + s.phase->Committing_count
            } else if s.phase is RollingBack && (event is RolledBack || event is Failed) {
                t.cursor == s.cursor + s.phase->RollingBack_skip
            } else {
                t.cursor == s.cursor
            }
        }),
        s.next(event).0.cursor >= s.cursor,
{
}

/// A fault of the guest moves the executor past one block once the
/// transaction is rolled back; a transport error moves it past none.
pub proof fn lemma_fault_skips_one_block(s: ExecutorView, error: IndexerError)
    requires
        s.wf(),
        s.phase is InBatch,
    ensures
        s.next(ExecutorEvent::Failed(error)).0.phase == (Phase::RollingBack {
            skip: if error.retryable() {
                0
            } else {
                1
            },
        }),
        s.next(ExecutorEvent::Failed(error)).0.next(ExecutorEvent::RolledBack).0.cursor
            == s.cursor + (if error.retryable() {
            0int
        } else {
            1int
        }),
{
}

/// The cursor never goes back over a run of events.
pub proof fn lemma_cursor_never_goes_back(start: ExecutorView, events: Seq<ExecutorEvent>)
    requires
        start.wf(),
    ensures
        start.run(events).cursor >= start.cursor,
    decreases events.len(),
{
    if events.len() > 0 {
        lemma_cursor_never_goes_back(start, events.drop_last());
        lemma_run_keeps_wf(start, events.drop_last());
        lemma_cursor_moves_past_what_is_done(start.run(events.drop_last()), events.last());
    }
}

/// The committed batches lie one after the other, in the order of their
/// commits, between the block the executor started at and its cursor.
pub proof fn lemma_commits_in_block_order(start: ExecutorView, events: Seq<ExecutorEvent>)
    requires
        start.wf(),
    ensures
        forall|i: int|
            0 <= i < commits(start, events).len() ==> {
                &&& start.cursor <= (#[trigger] commits(start, events)[i]).first
                &&& commits(start, events)[i].count >= 1
                &&& commits(start, events)[i].first + commits(start, events)[i].count
                    <= start.run(events).cursor
            },
        forall|i: int, j: int|
            0 <= i < j < commits(start, events).len() ==> (#[trigger] commits(
                start,
                events,
            )[i]).first + commits(start, events)[i].count <= (#[trigger] commits(
                start,
                events,
            )[j]).first,
    decreases events.len(),
{
    if events.len() > 0 {
        let earlier = events.drop_last();
        let before = start.run(earlier);
        lemma_commits_in_block_order(start, earlier);
        lemma_run_keeps_wf(start, earlier);
        lemma_cursor_never_goes_back(start, earlier);
        lemma_cursor_moves_past_what_is_done(before, events.last());
        let now = commits(start, events);
        let then = commits(start, earlier);
        assert forall|i: int| 0 <= i < now.len() implies {
            &&& start.cursor <= (#[trigger] now[i]).first
            &&& now[i].count >= 1
            &&& now[i].first + now[i].count <= start.run(events).cursor
        } by {
            if i < then.len() {
                assert(now[i] == then[i]);
            }
        }
        assert forall|i: int, j: int| 0 <= i < j < now.len() implies (#[trigger] now[i]).first
            + now[i].count <= (#[trigger] now[j]).first by {
            assert(now[i] == then[i]);
            if j < then.len() {
                assert(now[j] == then[j]);
            }
        }
    }
}

/// For every committed block exactly one transaction was committed: no block
/// is in two of the committed batches.
pub proof fn lemma_block_committed_once(
    start: ExecutorView,
    events: Seq<ExecutorEvent>,
    i: int,
    j: int,
    height: int,
)
    requires
        start.wf(),
        0 <= i < commits(start, events).len(),
        0 <= j < commits(start, events).len(),
        commits(start, events)[i].holds(height),
        commits(start, events)[j].holds(height),
    ensures
        i == j,
{
    lemma_commits_in_block_order(start, events);
    if i < j {
        assert(commits(start, events)[i].first + commits(start, events)[i].count <= commits(
            start,
            events,
        )[j].first);
    }
    if j < i {
        assert(commits(start, events)[j].first + commits(start, events)[j].count <= commits(
            start,
            events,
        )[i].first);
    }
}

/// The cancellation flag, once seen set, stays set.
pub proof fn lemma_flag_never_clears(s: ExecutorView, event: ExecutorEvent)
    requires
        s.killed,
    ensures
        s.next(event).0.killed,
{
}

/// A set flag is seen whenever it is reported, whatever is under way.
pub proof fn lemma_set_flag_is_seen(s: ExecutorView)
    requires
        s.wf(),
    ensures
        s.next(ExecutorEvent::Flag(true)).0.killed || s.phase is Terminal,
        s.phase is Created || s.phase is Idle ==> s.next(ExecutorEvent::Flag(true)).0.phase
            is Terminal,
{
}

/// Once the flag has been seen the executor starts nothing new: it asks for
/// no blocks, hands the guest no batch and does not go to sleep.
pub proof fn lemma_cancelled_starts_nothing(s: ExecutorView, event: ExecutorEvent)
    requires
        s.wf(),
        s.killed,
    ensures
        ({
            let action = s.next(event).1;
            &&& !(action is Fetch)
            &&& !(action is Invoke)
            &&& !(action is Sleep)
            &&& !(action is Observe)
        }),
{
}

/// Once the flag has been seen the executor ends within the batch that is
/// under way: after the answers to at most two of its requests it is
/// terminal, with no transaction open, and there it stays.
pub proof fn lemma_cancelled_ends_within_the_batch(
    s: ExecutorView,
    first: ExecutorEvent,
    second: ExecutorEvent,
)
    requires
        s.wf(),
        s.killed,
        answers(s, first),
        answers(s.next(first).0, second),
    ensures
        !(s.phase is InBatch) ==> s.next(first).0.phase is Terminal,
        s.next(first).0.next(second).0.phase is Terminal,
        !s.next(first).0.next(second).0.in_transaction,
{
}

/// Whether `event` reports the flag as clear.
pub open spec fn reports_clear(event: ExecutorEvent) -> bool {
    event == ExecutorEvent::Flag(false)
}

/// From the moment the flag is set the executor ends within one batch and
/// one look at the flag: whatever it is doing, the answers to at most four
/// of its requests, none of which reports the flag as clear, bring it to
/// its end with no transaction open, and it hands the guest at most one
/// more batch on the way.
pub proof fn lemma_set_flag_ends_within_one_batch(
    s: ExecutorView,
    first: ExecutorEvent,
    second: ExecutorEvent,
    third: ExecutorEvent,
    fourth: ExecutorEvent,
)
    requires
        s.wf(),
        answers(s, first) && !reports_clear(first),
        answers(s.next(first).0, second) && !reports_clear(second),
        answers(s.next(first).0.next(second).0, third) && !reports_clear(third),
        answers(s.next(first).0.next(second).0.next(third).0, fourth) && !reports_clear(fourth),
    ensures
        ({
            let a = s.next(first);
            let b = a.0.next(second);
            let c = b.0.next(third);
            let d = c.0.next(fourth);
            &&& d.0.phase is Terminal
            &&& !d.0.in_transaction
            &&& !(b.1 is Invoke)
            &&& !(c.1 is Invoke)
            &&& !(d.1 is Invoke)
            &&& s.phase is Created || s.phase is Idle ==> a.0.phase is Terminal
        }),
{
}

/// An executor that stops when idle ends with the empty answer that brings
/// the count of empty answers in a row to its limit, and not before; one that
/// does not stop when idle sleeps and asks again.
pub proof fn lemma_idle_executor_stops_at_its_limit(s: ExecutorView)
    requires
        s.wf(),
        s.phase is Fetching,
        !s.killed,
        s.idle_rounds < u64::MAX,
    ensures
        ({
            let (t, action) = s.next(ExecutorEvent::Blocks(0));
            &&& t.idle_rounds == s.idle_rounds + 1
            &&& t.cursor == s.cursor
            &&& if s.config.stop_idle_indexers && s.idle_rounds + 1 >= s.config.idle_limit {
                t.phase is Terminal && action is Stop
            } else {
                t.phase is Idle && action is Sleep
            }
        }),
        forall|count: u64|
            1 <= count <= s.config.batch_size && s.cursor + count <= u64::MAX ==> (#[trigger] s.next(
                ExecutorEvent::Blocks(count),
            )).0.idle_rounds == 0,
{
}

/// An executor that has ended stays ended and keeps no transaction open.
pub proof fn lemma_terminal_is_final(s: ExecutorView, event: ExecutorEvent)
    requires
        s.wf(),
        s.phase is Terminal,
    ensures
        s.next(event) == (s, ExecutorAction::Stop),
        !s.in_transaction,
{
}

/// A transaction that is open is closed before the executor ends or takes
/// another batch: from a batch under way every answer leads to a commit or
/// a rollback, and nothing else does.
pub proof fn lemma_open_transaction_is_closed(s: ExecutorView, event: ExecutorEvent)
    requires
        s.wf(),
        s.phase is InBatch,
    ensures
        ({
            let (t, action) = s.next(event);
            if answers(s, event) {
                (action is Commit || action is Rollback) && !t.in_transaction
            } else {
                t.phase == s.phase && t.in_transaction && t.cursor == s.cursor
            }
        }),
{
}

/// Whatever answers nothing that was asked is ignored.
pub proof fn lemma_ignored_changes_nothing(s: ExecutorView, event: ExecutorEvent)
    requires
        s.next(event).1 is Ignored,
    ensures
        s.next(event).0 == s,
{
}

} // verus!
