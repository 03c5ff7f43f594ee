//! The executor of one index.
//!
//! An executor takes a batch of blocks from the node, has the guest handle
//! it inside one transaction, commits or rolls back, and looks at its
//! cancellation flag before it takes the next batch. It decides and never
//! waits: for each event it is handed it says what has to be done next, and
//! whoever drives it does that and hands back what came of it.

pub mod laws;
pub mod model;

use crate::database::{Database, Statement};
use crate::error::{IndexerError, IndexerResult};
use crate::executor::model::ExecutorView;
use vstd::prelude::*;

verus! {

/// Where an executor stands.
#[derive(Clone, Copy, Debug, PartialEq, Eq, Structural)]
pub enum Phase {
    /// Built and not yet scheduled; the flag is to be looked at.
    Created,
    /// Between two batches; the flag is to be looked at.
    Idle,
    /// The node has been asked for blocks.
    Fetching,
    /// The guest handles a batch of `count` blocks inside the open transaction.
    InBatch { count: u64 },
    /// The transaction of a batch of `count` blocks is being committed.
    Committing { count: u64 },
    /// The transaction of a batch is being rolled back; after that the cursor
    /// moves on by `skip` blocks.
    RollingBack { skip: u64 },
    /// The executor has ended.
    Terminal,
}

/// The life of an executor as seen from outside.
#[derive(Clone, Copy, Debug, PartialEq, Eq, Structural)]
pub enum Lifecycle {
    Created,
    Running,
    /// The cancellation flag has been seen; what is under way is brought to
    /// an end.
    Terminating,
    Terminal,
}

/// What an executor is told.
#[derive(Clone, Copy, Debug, PartialEq, Eq, Structural)]
pub enum ExecutorEvent {
    /// The cancellation flag as it was just read.
    Flag(bool),
    /// The node answered with this many blocks, the first of them at the cursor.
    Blocks(u64),
    /// The guest handled the batch.
    Succeeded,
    /// The transaction is committed.
    Committed,
    /// The transaction is rolled back.
    RolledBack,
    /// What was asked for failed.
    Failed(IndexerError),
}

/// What an executor wants done.
#[derive(Clone, Copy, Debug, PartialEq, Eq, Structural)]
pub enum ExecutorAction {
    /// Read the cancellation flag. Answer: `Flag`.
    Observe,
    /// Sleep for the idle interval, or until the flag is set, and read the
    /// flag. Answer: `Flag`.
    Sleep,
    /// Fetch up to `limit` blocks from the node, the first at height `from`.
    /// Answer: `Blocks` or `Failed`.
    Fetch { from: u64, limit: u64 },
    /// Open a transaction with `begin` and have the guest handle the `count`
    /// blocks from height `from` on. Answer: `Succeeded` or `Failed`.
    Invoke { begin: Statement, from: u64, count: u64 },
    /// Close the transaction with `statement` and record `height` as the
    /// last committed block of the index. Answer: `Committed` or `Failed`.
    Commit { statement: Statement, height: u64 },
    /// Close the transaction with `statement`; the batch that failed began at
    /// `height`. Answer: `RolledBack` or `Failed`.
    Rollback { statement: Statement, height: u64 },
    /// Go on with what is under way.
    Continue,
    /// End the task.
    Stop,
    /// The event answers nothing that was asked; nothing has changed.
    Ignored,
}

/// The settings of an executor.
#[derive(Clone, Copy, Debug, PartialEq, Eq, Structural)]
pub struct ExecutorConfig {
    /// The largest number of blocks in one batch.
    pub batch_size: u64,
    /// Whether the executor ends when the node has no blocks for too long.
    pub stop_idle_indexers: bool,
    /// After how many empty answers in a row an executor that stops when
    /// idle ends.
    pub idle_limit: u64,
}

/// The executor of one index, with the database session that it owns.
pub struct Executor {
    phase: Phase,
    cursor: u64,
    killed: bool,
    idle_rounds: u64,
    config: ExecutorConfig,
    database: Database,
}

impl View for Executor {
    type V = ExecutorView;

    closed spec fn view(&self) -> ExecutorView {
        ExecutorView {
            phase: self.phase,
            cursor: self.cursor,
            killed: self.killed,
            idle_rounds: self.idle_rounds,
            in_transaction: self.database.in_transaction(),
            config: self.config,
        }
    }
}

impl Executor {
    #[verifier::type_invariant]
    spec fn well_formed(self) -> bool {
        self@.wf()
    }

    /// The database of the executor.
    pub closed spec fn db(&self) -> Database {
        self.database
    }

    /// An executor that starts at `start_block` and writes through
    /// `database`, which must have no transaction open.
    pub fn new(config: ExecutorConfig, start_block: u64, database: Database) -> (r: IndexerResult<
        Executor,
    >)
        ensures
            database.in_transaction() ==> r is Err && r->Err_0
                == IndexerError::TransactionAlreadyOpen,
            !database.in_transaction() ==> r is Ok && r->Ok_0@ == ExecutorView::fresh(
                config,
                start_block,
            ) && r->Ok_0.db() == database,
    {
        if database.is_in_transaction() {
            Err(IndexerError::TransactionAlreadyOpen)
        } else {
            Ok(
                Executor {
                    phase: Phase::Created,
                    cursor: start_block,
                    killed: false,
                    idle_rounds: 0,
                    config,
                    database,
                },
            )
        }
    }

    /// The database of the executor: the guest writes and reads through it
    /// while it handles a batch.
    pub fn database(&self) -> (database: &Database)
        ensures
            *database == self.db(),
            database.in_transaction() == self@.in_transaction,
            database.in_transaction() == (self@.phase is InBatch),
    {
        proof {
            use_type_invariant(self);
        }
        &self.database
    }

    /// The height of the next block to fetch.
    pub fn cursor(&self) -> (cursor: u64)
        ensures
            cursor == self@.cursor,
    {
        self.cursor
    }

    /// Where the executor stands.
    pub fn phase(&self) -> (phase: Phase)
        ensures
            phase == self@.phase,
    {
        self.phase
    }

    /// The life of the executor as seen from outside.
    pub fn lifecycle(&self) -> (lifecycle: Lifecycle)
        ensures
            lifecycle == self@.lifecycle(),
    {
        match self.phase {
            Phase::Terminal => Lifecycle::Terminal,
            Phase::Created => if self.killed {
                Lifecycle::Terminating
            } else {
                Lifecycle::Created
            },
            _ => if self.killed {
                Lifecycle::Terminating
            } else {
                Lifecycle::Running
            },
        }
    }

    /// Takes the executor apart.
    fn parts(self) -> (r: (Phase, u64, bool, u64, ExecutorConfig, Database))
        ensures
            self@ == (ExecutorView {
                phase: r.0,
                cursor: r.1,
                killed: r.2,
                idle_rounds: r.3,
                in_transaction: r.5.in_transaction(),
                config: r.4,
            }),
            self.db() == r.5,
            self@.wf(),
    {
        proof {
            use_type_invariant(&self);
        }
        let Executor { phase, cursor, killed, idle_rounds, config, database } = self;
        (phase, cursor, killed, idle_rounds, config, database)
    }

    /// Puts an executor together.
    fn assemble(
        phase: Phase,
        cursor: u64,
        killed: bool,
        idle_rounds: u64,
        config: ExecutorConfig,
        database: Database,
    ) -> (r: Executor)
        requires
            (ExecutorView {
                phase,
                cursor,
                killed,
                idle_rounds,
                in_transaction: database.in_transaction(),
                config,
            }).wf(),
        ensures
            r@ == (ExecutorView {
                phase,
                cursor,
                killed,
                idle_rounds,
                in_transaction: database.in_transaction(),
                config,
            }),
            r.db() == database,
    {
        Executor { phase, cursor, killed, idle_rounds, config, database }
    }

    /// Answers one event.
    fn advance(self, event: ExecutorEvent) -> (r: (Executor, ExecutorAction))
        ensures
            r.0@ == self@.next(event).0,
            r.1 == self@.next(event).1,
            r.0.db().same_index(&self.db()),
    {
        let (phase, cursor, killed, idle_rounds, config, mut database) = self.parts();
        match phase {
            Phase::Created | Phase::Idle => match event {
                ExecutorEvent::Flag(flag) => if killed || flag {
                    (
                        Executor::assemble(
                            Phase::Terminal,
                            cursor,
                            true,
                            idle_rounds,
                            config,
                            database,
                        ),
                        ExecutorAction::Stop,
                    )
                } else {
                    (
                        Executor::assemble(
                            Phase::Fetching,
                            cursor,
                            killed,
                            idle_rounds,
                            config,
                            database,
                        ),
                        ExecutorAction::Fetch { from: cursor, limit: config.batch_size },
                    )
                },
                _ => (
                    Executor::assemble(phase, cursor, killed, idle_rounds, config, database),
                    ExecutorAction::Ignored,
                ),
            },
            Phase::Fetching => match event {
                ExecutorEvent::Flag(flag) => (
                    Executor::assemble(phase, cursor, killed || flag, idle_rounds, config, database),
                    ExecutorAction::Continue,
                ),
                ExecutorEvent::Blocks(count) => {
                    if killed {
                        (
                            Executor::assemble(
                                Phase::Terminal,
                                cursor,
                                killed,
                                idle_rounds,
                                config,
                                database,
                            ),
                            ExecutorAction::Stop,
                        )
                    } else if count == 0 {
                        let rounds = if idle_rounds < u64::MAX {
                            idle_rounds + 1
                        } else {
                            idle_rounds
                        };
                        if config.stop_idle_indexers && rounds >= config.idle_limit {
                            (
                                Executor::assemble(
                                    Phase::Terminal,
                                    cursor,
                                    killed,
                                    rounds,
                                    config,
                                    database,
                                ),
                                ExecutorAction::Stop,
                            )
                        } else {
                            (
                                Executor::assemble(
                                    Phase::Idle,
                                    cursor,
                                    killed,
                                    rounds,
                                    config,
                                    database,
                                ),
                                ExecutorAction::Sleep,
                            )
                        }
                    } else if count > config.batch_size || count > u64::MAX - cursor {
                        (
                            Executor::assemble(
                                Phase::Idle,
                                cursor,
                                killed,
                                idle_rounds,
                                config,
                                database,
                            ),
                            ExecutorAction::Sleep,
                        )
                    } else {
                        match database.start_transaction() {
                            Ok(begin) => (
                                Executor::assemble(
                                    Phase::InBatch { count },
                                    cursor,
                                    killed,
                                    0,
                                    config,
                                    database,
                                ),
                                ExecutorAction::Invoke { begin, from: cursor, count },
                            ),
                            Err(_) => vstd::pervasive::unreached(),
                        }
                    }
                },
                ExecutorEvent::Failed(_) => Executor::rest(
                    cursor,
                    killed,
                    idle_rounds,
                    config,
                    database,
                    true,
                ),
                _ => (
                    Executor::assemble(phase, cursor, killed, idle_rounds, config, database),
                    ExecutorAction::Ignored,
                ),
            },
            Phase::InBatch { count } => match event {
                ExecutorEvent::Flag(flag) => (
                    Executor::assemble(phase, cursor, killed || flag, idle_rounds, config, database),
                    ExecutorAction::Continue,
                ),
                ExecutorEvent::Succeeded => match database.commit_transaction() {
                    Ok(statement) => (
                        Executor::assemble(
                            Phase::Committing { count },
                            cursor,
                            killed,
                            idle_rounds,
                            config,
                            database,
                        ),
                        ExecutorAction::Commit { statement, height: cursor + count - 1 },
                    ),
                    Err(_) => vstd::pervasive::unreached(),
                },
                ExecutorEvent::Failed(error) => {
                    let skip: u64 = if error.is_retryable() {
                        0
                    } else {
                        1
                    };
                    match database.revert_transaction() {
                        Ok(statement) => (
                            Executor::assemble(
                                Phase::RollingBack { skip },
                                cursor,
                                killed,
                                idle_rounds,
                                config,
                                database,
                            ),
                            ExecutorAction::Rollback { statement, height: cursor },
                        ),
                        Err(_) => vstd::pervasive::unreached(),
                    }
                },
                _ => (
                    Executor::assemble(phase, cursor, killed, idle_rounds, config, database),
                    ExecutorAction::Ignored,
                ),
            },
            Phase::Committing { count } => match event {
                ExecutorEvent::Flag(flag) => (
                    Executor::assemble(phase, cursor, killed || flag, idle_rounds, config, database),
                    ExecutorAction::Continue,
                ),
                ExecutorEvent::Committed => Executor::rest(
                    cursor + count,
                    killed,
                    idle_rounds,
                    config,
                    database,
                    false,
                ),
                ExecutorEvent::Failed(_) => Executor::rest(
                    cursor,
                    killed,
                    idle_rounds,
                    config,
                    database,
                    true,
                ),
                _ => (
                    Executor::assemble(phase, cursor, killed, idle_rounds, config, database),
                    ExecutorAction::Ignored,
                ),
            },
            Phase::RollingBack { skip } => match event {
                ExecutorEvent::Flag(flag) => (
                    Executor::assemble(phase, cursor, killed || flag, idle_rounds, config, database),
                    ExecutorAction::Continue,
                ),
                ExecutorEvent::RolledBack | ExecutorEvent::Failed(_) => Executor::rest(
                    cursor + skip,
                    killed,
                    idle_rounds,
                    config,
                    database,
                    skip == 0,
                ),
                _ => (
                    Executor::assemble(phase, cursor, killed, idle_rounds, config, database),
                    ExecutorAction::Ignored,
                ),
            },
            Phase::Terminal => (
                Executor::assemble(phase, cursor, killed, idle_rounds, config, database),
                ExecutorAction::Stop,
            ),
        }
    }

    /// A batch is over.
    fn rest(
        cursor: u64,
        killed: bool,
        idle_rounds: u64,
        config: ExecutorConfig,
        database: Database,
        pause: bool,
    ) -> (r: (Executor, ExecutorAction))
        requires
            !database.in_transaction(),
        ensures
            r.0.db() == database,
            r.0@ == (ExecutorView {
                phase: Phase::Idle,
                cursor,
                killed,
                idle_rounds,
                in_transaction: false,
                config,
            }).rest(pause).0,
            r.1 == (ExecutorView {
                phase: Phase::Idle,
                cursor,
                killed,
                idle_rounds,
                in_transaction: false,
                config,
            }).rest(pause).1,
    {
        if killed {
            (
                Executor::assemble(Phase::Terminal, cursor, killed, idle_rounds, config, database),
                ExecutorAction::Stop,
            )
        } else {
            (
                Executor::assemble(Phase::Idle, cursor, killed, idle_rounds, config, database),
                if pause {
                    ExecutorAction::Sleep
                } else {
                    ExecutorAction::Observe
                },
            )
        }
    }

    /// Hands the executor one event. It answers with what it wants done next;
    /// the answer to that comes back as the next event.
    pub fn handle(&mut self, event: ExecutorEvent) -> (action: ExecutorAction)
        ensures
            final(self)@ == old(self)@.next(event).0,
            action == old(self)@.next(event).1,
            final(self)@.wf(),
            final(self).db().same_index(&old(self).db()),
    {
        let mut taken = Executor {
            phase: Phase::Terminal,
            cursor: 0,
            killed: false,
            idle_rounds: 0,
            config: self.config,
            database: Database::new(),
        };
        core::mem::swap(self, &mut taken);
        let (after, action) = taken.advance(event);
        proof {
            use_type_invariant(&after);
        }
        *self = after;
        action
    }
}

} // verus!
