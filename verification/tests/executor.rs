use fuel_indexer::{
    Database, Executor, ExecutorAction, ExecutorConfig, ExecutorEvent, IndexerError, Lifecycle,
    Phase, Statement,
};

fn config(batch_size: u64) -> ExecutorConfig {
    ExecutorConfig { batch_size, stop_idle_indexers: false, idle_limit: 3 }
}

fn executor(batch_size: u64, start_block: u64) -> Executor {
    Executor::new(config(batch_size), start_block, Database::new()).unwrap()
}

fn in_batch(batch_size: u64, start_block: u64, count: u64) -> Executor {
    let mut e = executor(batch_size, start_block);
    assert_eq!(
        e.handle(ExecutorEvent::Flag(false)),
        ExecutorAction::Fetch { from: start_block, limit: batch_size }
    );
    assert_eq!(
        e.handle(ExecutorEvent::Blocks(count)),
        ExecutorAction::Invoke { begin: Statement::Begin, from: start_block, count }
    );
    e
}

#[test]
fn new_executor_is_created_at_its_start_block() {
    let e = executor(5, 10);
    assert_eq!(e.phase(), Phase::Created);
    assert_eq!(e.lifecycle(), Lifecycle::Created);
    assert_eq!(e.cursor(), 10);
    assert!(!e.database().is_in_transaction());
}

#[test]
fn executor_refuses_a_database_with_an_open_transaction() {
    let mut db = Database::new();
    db.start_transaction().unwrap();
    assert!(matches!(
        Executor::new(config(1), 1, db),
        Err(IndexerError::TransactionAlreadyOpen)
    ));
}

#[test]
fn first_look_at_the_flag_starts_the_fetch() {
    let mut e = executor(5, 10);
    assert_eq!(e.handle(ExecutorEvent::Flag(false)), ExecutorAction::Fetch { from: 10, limit: 5 });
    assert_eq!(e.phase(), Phase::Fetching);
    assert_eq!(e.lifecycle(), Lifecycle::Running);
}

#[test]
fn set_flag_ends_an_executor_before_it_ran() {
    let mut e = executor(5, 10);
    assert_eq!(e.handle(ExecutorEvent::Flag(true)), ExecutorAction::Stop);
    assert_eq!(e.phase(), Phase::Terminal);
    assert_eq!(e.lifecycle(), Lifecycle::Terminal);
}

#[test]
fn blocks_open_a_transaction_and_go_to_the_guest() {
    let e = in_batch(5, 10, 3);
    assert_eq!(e.phase(), Phase::InBatch { count: 3 });
    assert!(e.database().is_in_transaction());
    assert_eq!(e.cursor(), 10);
}

#[test]
fn success_commits_and_records_the_last_block() {
    let mut e = in_batch(5, 10, 3);
    assert_eq!(
        e.handle(ExecutorEvent::Succeeded),
        ExecutorAction::Commit { statement: Statement::Commit, height: 12 }
    );
    assert_eq!(e.phase(), Phase::Committing { count: 3 });
    assert!(!e.database().is_in_transaction());
    assert_eq!(e.cursor(), 10);
}

#[test]
fn confirmed_commit_moves_the_cursor_past_the_batch() {
    let mut e = in_batch(5, 10, 3);
    e.handle(ExecutorEvent::Succeeded);
    assert_eq!(e.handle(ExecutorEvent::Committed), ExecutorAction::Observe);
    assert_eq!(e.cursor(), 13);
    assert_eq!(e.phase(), Phase::Idle);
    assert_eq!(e.handle(ExecutorEvent::Flag(false)), ExecutorAction::Fetch { from: 13, limit: 5 });
}

#[test]
fn failed_commit_keeps_the_cursor_and_backs_off() {
    let mut e = in_batch(5, 10, 3);
    e.handle(ExecutorEvent::Succeeded);
    assert_eq!(e.handle(ExecutorEvent::Failed(IndexerError::Transport)), ExecutorAction::Sleep);
    assert_eq!(e.cursor(), 10);
    assert_eq!(e.phase(), Phase::Idle);
}

#[test]
fn guest_fault_rolls_back_and_skips_one_block() {
    let mut e = in_batch(5, 10, 3);
    assert_eq!(
        e.handle(ExecutorEvent::Failed(IndexerError::GuestFault)),
        ExecutorAction::Rollback { statement: Statement::Rollback, height: 10 }
    );
    assert_eq!(e.phase(), Phase::RollingBack { skip: 1 });
    assert!(!e.database().is_in_transaction());
    assert_eq!(e.handle(ExecutorEvent::RolledBack), ExecutorAction::Observe);
    assert_eq!(e.cursor(), 11);
    assert_eq!(e.lifecycle(), Lifecycle::Running);
}

#[test]
fn schema_mismatch_and_session_violation_skip_one_block_too() {
    for error in [
        IndexerError::UnknownTypeId { type_id: 1 },
        IndexerError::ColumnCountMismatch { columns: 3, values: 1 },
        IndexerError::NoTransactionError,
    ] {
        let mut e = in_batch(5, 10, 3);
        assert_eq!(
            e.handle(ExecutorEvent::Failed(error)),
            ExecutorAction::Rollback { statement: Statement::Rollback, height: 10 }
        );
        e.handle(ExecutorEvent::RolledBack);
        assert_eq!(e.cursor(), 11);
    }
}

#[test]
fn transport_error_rolls_back_and_keeps_the_cursor() {
    let mut e = in_batch(5, 10, 3);
    assert_eq!(
        e.handle(ExecutorEvent::Failed(IndexerError::Transport)),
        ExecutorAction::Rollback { statement: Statement::Rollback, height: 10 }
    );
    assert_eq!(e.phase(), Phase::RollingBack { skip: 0 });
    assert_eq!(e.handle(ExecutorEvent::RolledBack), ExecutorAction::Sleep);
    assert_eq!(e.cursor(), 10);
    assert_eq!(e.handle(ExecutorEvent::Flag(false)), ExecutorAction::Fetch { from: 10, limit: 5 });
}

#[test]
fn failed_rollback_is_treated_as_a_rollback() {
    let mut e = in_batch(5, 10, 3);
    e.handle(ExecutorEvent::Failed(IndexerError::GuestFault));
    assert_eq!(e.handle(ExecutorEvent::Failed(IndexerError::Transport)), ExecutorAction::Observe);
    assert_eq!(e.cursor(), 11);
}

#[test]
fn unreachable_node_backs_off_without_moving() {
    let mut e = executor(5, 10);
    e.handle(ExecutorEvent::Flag(false));
    assert_eq!(e.handle(ExecutorEvent::Failed(IndexerError::Transport)), ExecutorAction::Sleep);
    assert_eq!(e.cursor(), 10);
    assert_eq!(e.phase(), Phase::Idle);
}

#[test]
fn no_blocks_means_sleep() {
    let mut e = executor(5, 10);
    e.handle(ExecutorEvent::Flag(false));
    assert_eq!(e.handle(ExecutorEvent::Blocks(0)), ExecutorAction::Sleep);
    assert_eq!(e.phase(), Phase::Idle);
    assert_eq!(e.cursor(), 10);
}

#[test]
fn idle_executor_goes_on_for_ever_unless_told_to_stop() {
    let mut e = executor(5, 10);
    for _ in 0..20 {
        assert_eq!(e.handle(ExecutorEvent::Flag(false)), ExecutorAction::Fetch { from: 10, limit: 5 });
        assert_eq!(e.handle(ExecutorEvent::Blocks(0)), ExecutorAction::Sleep);
    }
}

#[test]
fn idle_executor_stops_at_its_limit() {
    let settings = ExecutorConfig { batch_size: 5, stop_idle_indexers: true, idle_limit: 3 };
    let mut e = Executor::new(settings, 10, Database::new()).unwrap();
    for _ in 0..2 {
        e.handle(ExecutorEvent::Flag(false));
        assert_eq!(e.handle(ExecutorEvent::Blocks(0)), ExecutorAction::Sleep);
    }
    e.handle(ExecutorEvent::Flag(false));
    assert_eq!(e.handle(ExecutorEvent::Blocks(0)), ExecutorAction::Stop);
    assert_eq!(e.phase(), Phase::Terminal);
}

#[test]
fn a_batch_starts_the_idle_count_again() {
    let settings = ExecutorConfig { batch_size: 5, stop_idle_indexers: true, idle_limit: 2 };
    let mut e = Executor::new(settings, 10, Database::new()).unwrap();
    e.handle(ExecutorEvent::Flag(false));
    assert_eq!(e.handle(ExecutorEvent::Blocks(0)), ExecutorAction::Sleep);
    e.handle(ExecutorEvent::Flag(false));
    e.handle(ExecutorEvent::Blocks(1));
    e.handle(ExecutorEvent::Succeeded);
    e.handle(ExecutorEvent::Committed);
    e.handle(ExecutorEvent::Flag(false));
    assert_eq!(e.handle(ExecutorEvent::Blocks(0)), ExecutorAction::Sleep);
    e.handle(ExecutorEvent::Flag(false));
    assert_eq!(e.handle(ExecutorEvent::Blocks(0)), ExecutorAction::Stop);
}

#[test]
fn more_blocks_than_asked_for_are_not_taken() {
    let mut e = executor(5, 10);
    e.handle(ExecutorEvent::Flag(false));
    assert_eq!(e.handle(ExecutorEvent::Blocks(6)), ExecutorAction::Sleep);
    assert_eq!(e.phase(), Phase::Idle);
    assert!(!e.database().is_in_transaction());
}

#[test]
fn blocks_beyond_the_last_height_are_not_taken() {
    let mut e = executor(5, u64::MAX - 1);
    e.handle(ExecutorEvent::Flag(false));
    assert_eq!(e.handle(ExecutorEvent::Blocks(2)), ExecutorAction::Sleep);
    e.handle(ExecutorEvent::Flag(false));
    assert_eq!(
        e.handle(ExecutorEvent::Blocks(1)),
        ExecutorAction::Invoke { begin: Statement::Begin, from: u64::MAX - 1, count: 1 }
    );
    assert_eq!(
        e.handle(ExecutorEvent::Succeeded),
        ExecutorAction::Commit { statement: Statement::Commit, height: u64::MAX - 1 }
    );
    e.handle(ExecutorEvent::Committed);
    assert_eq!(e.cursor(), u64::MAX);
}

#[test]
fn flag_seen_between_batches_ends_the_executor() {
    let mut e = in_batch(5, 10, 3);
    e.handle(ExecutorEvent::Succeeded);
    e.handle(ExecutorEvent::Committed);
    assert_eq!(e.handle(ExecutorEvent::Flag(true)), ExecutorAction::Stop);
    assert_eq!(e.lifecycle(), Lifecycle::Terminal);
    assert_eq!(e.cursor(), 13);
}

#[test]
fn flag_seen_while_asleep_ends_the_executor() {
    let mut e = executor(5, 10);
    e.handle(ExecutorEvent::Flag(false));
    assert_eq!(e.handle(ExecutorEvent::Blocks(0)), ExecutorAction::Sleep);
    assert_eq!(e.handle(ExecutorEvent::Flag(true)), ExecutorAction::Stop);
    assert_eq!(e.phase(), Phase::Terminal);
}

#[test]
fn flag_seen_during_a_batch_lets_the_batch_commit() {
    let mut e = in_batch(5, 100, 1);
    assert_eq!(e.handle(ExecutorEvent::Flag(true)), ExecutorAction::Continue);
    assert_eq!(e.lifecycle(), Lifecycle::Terminating);
    assert_eq!(e.phase(), Phase::InBatch { count: 1 });
    assert!(e.database().is_in_transaction());
    assert_eq!(
        e.handle(ExecutorEvent::Succeeded),
        ExecutorAction::Commit { statement: Statement::Commit, height: 100 }
    );
    assert_eq!(e.handle(ExecutorEvent::Committed), ExecutorAction::Stop);
    assert_eq!(e.lifecycle(), Lifecycle::Terminal);
    assert_eq!(e.cursor(), 101);
    assert!(!e.database().is_in_transaction());
}

#[test]
fn flag_seen_during_a_batch_lets_the_batch_roll_back() {
    let mut e = in_batch(5, 100, 1);
    e.handle(ExecutorEvent::Flag(true));
    assert_eq!(
        e.handle(ExecutorEvent::Failed(IndexerError::GuestFault)),
        ExecutorAction::Rollback { statement: Statement::Rollback, height: 100 }
    );
    assert_eq!(e.handle(ExecutorEvent::RolledBack), ExecutorAction::Stop);
    assert_eq!(e.phase(), Phase::Terminal);
    assert!(!e.database().is_in_transaction());
}

#[test]
fn flag_seen_during_a_fetch_drops_the_blocks() {
    let mut e = executor(5, 10);
    e.handle(ExecutorEvent::Flag(false));
    assert_eq!(e.handle(ExecutorEvent::Flag(true)), ExecutorAction::Continue);
    assert_eq!(e.handle(ExecutorEvent::Blocks(3)), ExecutorAction::Stop);
    assert_eq!(e.phase(), Phase::Terminal);
    assert_eq!(e.cursor(), 10);
    assert!(!e.database().is_in_transaction());
}

#[test]
fn flag_once_seen_is_not_forgotten() {
    let mut e = in_batch(5, 10, 1);
    e.handle(ExecutorEvent::Flag(true));
    assert_eq!(e.handle(ExecutorEvent::Flag(false)), ExecutorAction::Continue);
    assert_eq!(e.lifecycle(), Lifecycle::Terminating);
    e.handle(ExecutorEvent::Succeeded);
    assert_eq!(e.handle(ExecutorEvent::Committed), ExecutorAction::Stop);
}

#[test]
fn clear_flag_during_a_batch_changes_nothing() {
    let mut e = in_batch(5, 10, 1);
    assert_eq!(e.handle(ExecutorEvent::Flag(false)), ExecutorAction::Continue);
    assert_eq!(e.lifecycle(), Lifecycle::Running);
    assert_eq!(e.phase(), Phase::InBatch { count: 1 });
}

#[test]
fn terminal_executor_stays_terminal() {
    let mut e = executor(5, 10);
    e.handle(ExecutorEvent::Flag(true));
    for event in [
        ExecutorEvent::Flag(false),
        ExecutorEvent::Blocks(3),
        ExecutorEvent::Succeeded,
        ExecutorEvent::Committed,
        ExecutorEvent::RolledBack,
        ExecutorEvent::Failed(IndexerError::Transport),
    ] {
        assert_eq!(e.handle(event), ExecutorAction::Stop);
        assert_eq!(e.phase(), Phase::Terminal);
        assert_eq!(e.cursor(), 10);
    }
}

#[test]
fn answers_to_nothing_are_ignored() {
    let mut e = executor(5, 10);
    for event in [
        ExecutorEvent::Blocks(3),
        ExecutorEvent::Succeeded,
        ExecutorEvent::Committed,
        ExecutorEvent::RolledBack,
        ExecutorEvent::Failed(IndexerError::Transport),
    ] {
        assert_eq!(e.handle(event), ExecutorAction::Ignored);
        assert_eq!(e.phase(), Phase::Created);
    }
    let mut e = in_batch(5, 10, 2);
    for event in [ExecutorEvent::Blocks(3), ExecutorEvent::Committed, ExecutorEvent::RolledBack] {
        assert_eq!(e.handle(event), ExecutorAction::Ignored);
        assert_eq!(e.phase(), Phase::InBatch { count: 2 });
        assert!(e.database().is_in_transaction());
    }
}

#[test]
fn guest_writes_through_the_database_of_the_executor() {
    let e = in_batch(5, 10, 1);
    assert_eq!(
        e.database().get_object(1, 1),
        Err(IndexerError::UnknownTypeId { type_id: 1 })
    );
    let idle = executor(5, 10);
    assert_eq!(idle.database().get_object(1, 1), Err(IndexerError::NoTransactionError));
}

#[test]
fn committed_batches_follow_each_other() {
    let mut e = executor(4, 1);
    let mut expected_from = 1;
    for count in [4u64, 1, 3, 2, 4] {
        assert_eq!(
            e.handle(ExecutorEvent::Flag(false)),
            ExecutorAction::Fetch { from: expected_from, limit: 4 }
        );
        assert_eq!(
            e.handle(ExecutorEvent::Blocks(count)),
            ExecutorAction::Invoke { begin: Statement::Begin, from: expected_from, count }
        );
        assert_eq!(
            e.handle(ExecutorEvent::Succeeded),
            ExecutorAction::Commit {
                statement: Statement::Commit,
                height: expected_from + count - 1
            }
        );
        assert_eq!(e.handle(ExecutorEvent::Committed), ExecutorAction::Observe);
        expected_from += count;
        assert_eq!(e.cursor(), expected_from);
    }
    assert_eq!(e.cursor(), 15);
}
