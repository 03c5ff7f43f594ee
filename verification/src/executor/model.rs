//! The rules of an executor: what it is after each event and what it wants
//! done.

use crate::database::Statement;
use crate::executor::{ExecutorAction, ExecutorConfig, ExecutorEvent, Lifecycle, Phase};
use vstd::prelude::*;

verus! {

/// An executor as the rules see it.
pub struct ExecutorView {
    pub phase: Phase,
    /// The height of the next block to fetch.
    pub cursor: u64,
    /// Whether the cancellation flag has been seen set.
    pub killed: bool,
    /// How many times in a row the node had no blocks.
    pub idle_rounds: u64,
    /// Whether the session has a transaction open.
    pub in_transaction: bool,
    pub config: ExecutorConfig,
}

impl ExecutorView {
    /// An executor that is about to start at `start_block`.
    pub open spec fn fresh(config: ExecutorConfig, start_block: u64) -> ExecutorView {
        ExecutorView {
            phase: Phase::Created,
            cursor: start_block,
            killed: false,
            idle_rounds: 0,
            in_transaction: false,
            config,
        }
    }

    /// A transaction is open exactly while the guest handles a batch, and the
    /// blocks of the batch under way have heights that exist.
    pub open spec fn wf(self) -> bool {
        &&& self.in_transaction <==> self.phase is InBatch
        &&& self.phase matches Phase::InBatch { count } ==> 1 <= count && self.cursor + count
            <= u64::MAX
        &&& self.phase matches Phase::Committing { count } ==> 1 <= count && self.cursor + count
            <= u64::MAX
        &&& self.phase matches Phase::RollingBack { skip } ==> skip <= 1 && self.cursor + skip
            <= u64::MAX
        &&& self.phase is Created ==> !self.killed
    }

    /// The life of the executor as seen from outside.
    pub open spec fn lifecycle(self) -> Lifecycle {
        if self.phase is Terminal {
            Lifecycle::Terminal
        } else if self.killed {
            Lifecycle::Terminating
        } else if self.phase is Created {
            Lifecycle::Created
        } else {
            Lifecycle::Running
        }
    }

    /// The executor ends.
    pub open spec fn stopped(self) -> (ExecutorView, ExecutorAction) {
        (ExecutorView { phase: Phase::Terminal, ..self }, ExecutorAction::Stop)
    }

    /// The event answers nothing that was asked.
    pub open spec fn ignored(self) -> (ExecutorView, ExecutorAction) {
        (self, ExecutorAction::Ignored)
    }

    /// The flag was read while something else is under way: a set flag is
    /// remembered.
    pub open spec fn noted(self, flag: bool) -> (ExecutorView, ExecutorAction) {
        (ExecutorView { killed: self.killed || flag, ..self }, ExecutorAction::Continue)
    }

    /// A batch is over: the executor ends if the flag has been seen, else it
    /// goes on to the next batch, at once or after a pause.
    pub open spec fn rest(self, pause: bool) -> (ExecutorView, ExecutorAction) {
        if self.killed {
            self.stopped()
        } else {
            (
                ExecutorView { phase: Phase::Idle, ..self },
                if pause {
                    ExecutorAction::Sleep
                } else {
                    ExecutorAction::Observe
                },
            )
        }
    }

    /// The node had no blocks.
    pub open spec fn idle(self) -> (ExecutorView, ExecutorAction) {
        let rounds = if self.idle_rounds < u64::MAX {
            (self.idle_rounds + 1) as u64
        } else {
            self.idle_rounds
        };
        let waited = ExecutorView { idle_rounds: rounds, ..self };
        if self.config.stop_idle_indexers && rounds >= self.config.idle_limit {
            waited.stopped()
        } else {
            waited.rest(true)
        }
    }

    /// The node answered with `count` blocks.
    pub open spec fn fetched(self, count: u64) -> (ExecutorView, ExecutorAction) {
        if self.killed {
            self.stopped()
        } else if count == 0 {
            self.idle()
        } else if count > self.config.batch_size || self.cursor + count > u64::MAX {
            self.rest(true)
        } else {
            (
                ExecutorView {
                    phase: Phase::InBatch { count },
                    idle_rounds: 0,
                    in_transaction: true,
                    ..self
                },
                ExecutorAction::Invoke { begin: Statement::Begin, from: self.cursor, count },
            )
        }
    }

    /// What the executor is after `event` and what it wants done.
    pub open spec fn next(self, event: ExecutorEvent) -> (ExecutorView, ExecutorAction) {
        match self.phase {
            Phase::Created | Phase::Idle => match event {
                ExecutorEvent::Flag(flag) => if self.killed || flag {
                    ExecutorView { killed: true, ..self }.stopped()
                } else {
                    (
                        ExecutorView { phase: Phase::Fetching, ..self },
                        ExecutorAction::Fetch { from: self.cursor, limit: self.config.batch_size },
                    )
                },
                _ => self.ignored(),
            },
            Phase::Fetching => match event {
                ExecutorEvent::Flag(flag) => self.noted(flag),
                ExecutorEvent::Blocks(count) => self.fetched(count),
                ExecutorEvent::Failed(_) => self.rest(true),
                _ => self.ignored(),
            },
            Phase::InBatch { count } => match event {
                ExecutorEvent::Flag(flag) => self.noted(flag),
                ExecutorEvent::Succeeded => (
                    ExecutorView {
                        phase: Phase::Committing { count },
                        in_transaction: false,
                        ..self
                    },
                    ExecutorAction::Commit {
                        statement: Statement::Commit,
                        height: (self.cursor + count - 1) as u64,
                    },
                ),
                ExecutorEvent::Failed(error) => (
                    ExecutorView {
                        phase: Phase::RollingBack {
                            skip: if error.retryable() {
                                0
                            } else {
                                1
                            },
                        },
                        in_transaction: false,
                        ..self
                    },
                    ExecutorAction::Rollback { statement: Statement::Rollback, height: self.cursor },
                ),
                _ => self.ignored(),
            },
            Phase::Committing { count } => match event {
                ExecutorEvent::Flag(flag) => self.noted(flag),
                ExecutorEvent::Committed => ExecutorView {
                    cursor: (self.cursor + count) as u64,
                    ..self
                }.rest(false),
                ExecutorEvent::Failed(_) => self.rest(true),
                _ => self.ignored(),
            },
            Phase::RollingBack { skip } => match event {
                ExecutorEvent::Flag(flag) => self.noted(flag),
                ExecutorEvent::RolledBack | ExecutorEvent::Failed(_) => ExecutorView {
                    cursor: (self.cursor + skip) as u64,
                    ..self
                }.rest(skip == 0),
                _ => self.ignored(),
            },
            Phase::Terminal => (self, ExecutorAction::Stop),
        }
    }

    /// The executor after a run of events.
    pub open spec fn run(self, events: Seq<ExecutorEvent>) -> ExecutorView
        decreases events.len(),
    {
        if events.len() == 0 {
            self
        } else {
            self.run(events.drop_last()).next(events.last()).0
        }
    }
}

} // verus!
