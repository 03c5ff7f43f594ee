use fuel_indexer::{
    AssetKind, AssetReloadRequest, ColumnRow, Database, Executor, ExecutorAction, ExecutorConfig,
    ExecutorEvent, ExecutorSource, GuestMetadata, IndexAssets, IndexRevertRequest,
    IndexStopRequest, IndexerConfig, IndexerError, IndexerService, Lifecycle, Manifest, Module,
    Phase, PutObject, ServiceAction, ServiceEvent, ServiceRequest, Statement,
};

const THING: i64 = 7;

fn demo(resumable: bool) -> Manifest {
    Manifest {
        namespace: "demo".to_string(),
        identifier: "v1".to_string(),
        graphql_schema: "type Thing { id: ID! account: Address! }".to_string(),
        module: Module::Wasm("demo.wasm".to_string()),
        start_block: Some(10),
        resumable: Some(resumable),
        stop_idle_indexers: None,
    }
}

fn thing_database(manifest: &Manifest) -> Database {
    let rows = vec![
        ColumnRow { type_id: THING, table_name: "thing".to_string(), column_name: "id".to_string() },
        ColumnRow {
            type_id: THING,
            table_name: "thing".to_string(),
            column_name: "account".to_string(),
        },
        ColumnRow {
            type_id: THING,
            table_name: "thing".to_string(),
            column_name: "object".to_string(),
        },
    ];
    let guest = GuestMetadata {
        namespace: manifest.namespace.clone(),
        identifier: manifest.identifier.clone(),
        version: "1".to_string(),
    };
    let mut db = Database::new();
    db.load_schema(manifest, Some(guest), String::new(), &rows).unwrap();
    db
}

fn executor_for(action: &ServiceAction) -> Executor {
    match action {
        ServiceAction::Spawn { manifest, start_block, stop_idle_indexers, .. } => Executor::new(
            ExecutorConfig {
                batch_size: 1,
                stop_idle_indexers: *stop_idle_indexers,
                idle_limit: 10,
            },
            *start_block,
            thing_database(manifest),
        )
        .unwrap(),
        other => panic!("not a spawn: {:?}", other),
    }
}

/// Drives one block through the executor. The guest writes one Thing for the
/// block, unless it traps. Returns the rows that were committed.
fn drive_block(executor: &mut Executor, height: u64, guest_traps: bool) -> Vec<PutObject> {
    assert_eq!(
        executor.handle(ExecutorEvent::Flag(false)),
        ExecutorAction::Fetch { from: height, limit: 1 }
    );
    assert_eq!(
        executor.handle(ExecutorEvent::Blocks(1)),
        ExecutorAction::Invoke { begin: Statement::Begin, from: height, count: 1 }
    );
    let put = executor
        .database()
        .put_object(THING, vec![height.to_string(), "'0xabc'".to_string()], vec![height as u8])
        .unwrap();
    if guest_traps {
        assert_eq!(
            executor.handle(ExecutorEvent::Failed(IndexerError::GuestFault)),
            ExecutorAction::Rollback { statement: Statement::Rollback, height: height }
        );
        assert_eq!(executor.handle(ExecutorEvent::RolledBack), ExecutorAction::Observe);
        Vec::new()
    } else {
        assert_eq!(
            executor.handle(ExecutorEvent::Succeeded),
            ExecutorAction::Commit { statement: Statement::Commit, height }
        );
        assert_eq!(executor.handle(ExecutorEvent::Committed), ExecutorAction::Observe);
        vec![put]
    }
}

fn register(service: &mut IndexerService, manifest: Manifest, last: Option<u64>) -> ServiceAction {
    service.register_index_from_manifest(manifest.clone());
    let mut action = service.handle(ServiceEvent::Done);
    if manifest.is_resumable() {
        assert!(matches!(action, ServiceAction::ReadHeight { .. }));
        action = service.handle(ServiceEvent::Height(last));
    }
    for kind in [AssetKind::Schema, AssetKind::Manifest, AssetKind::Module] {
        assert_eq!(action, ServiceAction::StoreAsset { manifest: manifest.clone(), kind });
        action = service.handle(ServiceEvent::Done);
    }
    let spawn = action;
    assert!(matches!(spawn, ServiceAction::Spawn { .. }));
    spawn
}

fn upsert_of(height: u64) -> String {
    format!(
        "INSERT INTO demo_v1.thing (id, account, object)\nVALUES ({}, '0xabc', $1)\nON CONFLICT (id)\nDO UPDATE SET account = '0xabc'",
        height
    )
}

#[test]
fn cold_start_commits_three_blocks() {
    let mut service = IndexerService::new(IndexerConfig { stop_idle_indexers: false, first_executor: 0 });
    let spawn = register(&mut service, demo(false), None);
    assert_eq!(
        spawn,
        ServiceAction::Spawn {
            executor: 0,
            manifest: demo(false),
            source: ExecutorSource::Manifest,
            start_block: 10,
            stop_idle_indexers: false,
        }
    );
    let mut executor = executor_for(&spawn);
    assert_eq!(service.handle(ServiceEvent::Done), ServiceAction::Completed);
    assert_eq!(service.executor_of("demo.v1"), Some(0));

    let mut rows = Vec::new();
    let mut commits = 0;
    for height in 10..=12 {
        let written = drive_block(&mut executor, height, false);
        commits += written.len();
        rows.extend(written);
    }
    assert_eq!(commits, 3);
    assert_eq!(rows.len(), 3);
    for (i, row) in rows.iter().enumerate() {
        let height = 10 + i as u64;
        assert_eq!(row.query, upsert_of(height));
        assert_eq!(row.bytes, vec![height as u8]);
    }
    assert_eq!(executor.cursor(), 13);
    assert_eq!(executor.lifecycle(), Lifecycle::Running);
}

#[test]
fn resumable_restart_goes_on_after_the_last_committed_block() {
    let mut service = IndexerService::new(IndexerConfig { stop_idle_indexers: false, first_executor: 0 });
    let spawn = register(&mut service, demo(false), None);
    let mut executor = executor_for(&spawn);
    service.handle(ServiceEvent::Done);
    let mut last_committed = None;
    for height in 10..=12 {
        drive_block(&mut executor, height, false);
        last_committed = Some(height);
    }
    assert_eq!(executor.cursor(), 13);

    let stop = ServiceEvent::Request(ServiceRequest::IndexStop(IndexStopRequest {
        namespace: "demo".to_string(),
        identifier: "v1".to_string(),
    }));
    assert_eq!(service.handle(stop), ServiceAction::Cancel { executor: 0 });
    assert_eq!(executor.handle(ExecutorEvent::Flag(true)), ExecutorAction::Stop);
    assert_eq!(executor.lifecycle(), Lifecycle::Terminal);
    assert_eq!(service.handle(ServiceEvent::Done), ServiceAction::Completed);

    let spawn = register(&mut service, demo(true), last_committed);
    assert_eq!(
        spawn,
        ServiceAction::Spawn {
            executor: 1,
            manifest: demo(true),
            source: ExecutorSource::Manifest,
            start_block: 13,
            stop_idle_indexers: false,
        }
    );
    let mut resumed = executor_for(&spawn);
    assert_eq!(resumed.cursor(), 13);
    assert_eq!(
        resumed.handle(ExecutorEvent::Flag(false)),
        ExecutorAction::Fetch { from: 13, limit: 1 }
    );
}

#[test]
fn guest_trap_on_block_eleven_is_skipped() {
    let mut service = IndexerService::new(IndexerConfig { stop_idle_indexers: false, first_executor: 0 });
    let spawn = register(&mut service, demo(false), None);
    let mut executor = executor_for(&spawn);

    let mut rows = Vec::new();
    rows.extend(drive_block(&mut executor, 10, false));
    assert_eq!(executor.cursor(), 11);
    rows.extend(drive_block(&mut executor, 11, true));
    assert_eq!(executor.cursor(), 12);
    assert_eq!(executor.lifecycle(), Lifecycle::Running);
    assert!(!executor.database().is_in_transaction());
    rows.extend(drive_block(&mut executor, 12, false));
    assert_eq!(executor.cursor(), 13);

    let queries: Vec<String> = rows.into_iter().map(|row| row.query).collect();
    assert_eq!(queries, vec![upsert_of(10), upsert_of(12)]);
    assert_eq!(executor.lifecycle(), Lifecycle::Running);
}

#[test]
fn reload_race_never_leaves_half_a_block() {
    for v1_commits in [true, false] {
        let mut service = IndexerService::new(IndexerConfig { stop_idle_indexers: false, first_executor: 0 });
        let mut first = demo(true);
        first.start_block = Some(100);
        let spawn = register(&mut service, first.clone(), None);
        let mut v1 = executor_for(&spawn);
        service.handle(ServiceEvent::Done);
        assert_eq!(v1.handle(ExecutorEvent::Flag(false)), ExecutorAction::Fetch { from: 100, limit: 1 });
        assert_eq!(
            v1.handle(ExecutorEvent::Blocks(1)),
            ExecutorAction::Invoke { begin: Statement::Begin, from: 100, count: 1 }
        );

        let reload = ServiceEvent::Request(ServiceRequest::AssetReload(AssetReloadRequest {
            namespace: "demo".to_string(),
            identifier: "v1".to_string(),
        }));
        assert!(matches!(service.handle(reload), ServiceAction::LoadAssets { .. }));
        let assets = IndexAssets { manifest: first.clone(), module: vec![2] };
        assert!(matches!(
            service.handle(ServiceEvent::Assets(assets)),
            ServiceAction::ReadHeight { .. }
        ));
        let spawn = service.handle(ServiceEvent::Height(Some(99)));
        assert_eq!(
            spawn,
            ServiceAction::Spawn {
                executor: 1,
                manifest: first,
                source: ExecutorSource::Registry(vec![2]),
                start_block: 100,
                stop_idle_indexers: false,
            }
        );
        assert_eq!(service.executor_of("demo.v1"), Some(0));
        let v2 = executor_for(&spawn);
        assert_eq!(v2.cursor(), 100);

        assert_eq!(service.handle(ServiceEvent::Done), ServiceAction::Cancel { executor: 0 });
        assert_eq!(service.executor_of("demo.v1"), Some(1));

        assert_eq!(v1.handle(ExecutorEvent::Flag(true)), ExecutorAction::Continue);
        assert_eq!(v1.lifecycle(), Lifecycle::Terminating);
        assert!(v1.database().is_in_transaction());
        if v1_commits {
            assert_eq!(
                v1.handle(ExecutorEvent::Succeeded),
                ExecutorAction::Commit { statement: Statement::Commit, height: 100 }
            );
            assert_eq!(v1.handle(ExecutorEvent::Committed), ExecutorAction::Stop);
            assert_eq!(v1.cursor(), 101);
        } else {
            assert_eq!(
                v1.handle(ExecutorEvent::Failed(IndexerError::GuestFault)),
                ExecutorAction::Rollback { statement: Statement::Rollback, height: 100 }
            );
            assert_eq!(v1.handle(ExecutorEvent::RolledBack), ExecutorAction::Stop);
        }
        assert_eq!(v1.phase(), Phase::Terminal);
        assert!(!v1.database().is_in_transaction());
        assert_eq!(service.handle(ServiceEvent::Done), ServiceAction::Completed);
    }
}

#[test]
fn revert_goes_back_to_the_penultimate_module() {
    let mut service = IndexerService::new(IndexerConfig { stop_idle_indexers: false, first_executor: 0 });
    let spawn = register(&mut service, demo(false), None);
    let v2 = executor_for(&spawn);
    service.handle(ServiceEvent::Done);
    assert_eq!(v2.lifecycle(), Lifecycle::Created);

    let penultimate = vec![0, 97, 115, 109];
    let revert = ServiceEvent::Request(ServiceRequest::IndexRevert(IndexRevertRequest {
        penultimate_asset_id: 41,
        penultimate_asset_bytes: penultimate.clone(),
        namespace: "demo".to_string(),
        identifier: "v1".to_string(),
    }));
    assert_eq!(service.handle(revert), ServiceAction::RemoveLatestModule { asset_id: 41 });
    let latest = IndexAssets { manifest: demo(false), module: vec![2] };
    assert_eq!(service.handle(ServiceEvent::Assets(latest)), ServiceAction::Commit);
    assert_eq!(service.handle(ServiceEvent::Done), ServiceAction::Cancel { executor: 0 });
    assert_eq!(
        service.handle(ServiceEvent::Done),
        ServiceAction::Spawn {
            executor: 1,
            manifest: demo(false),
            source: ExecutorSource::Registry(penultimate),
            start_block: 10,
            stop_idle_indexers: false,
        }
    );
    assert_eq!(service.handle(ServiceEvent::Done), ServiceAction::Completed);
    assert_eq!(service.executor_of("demo.v1"), Some(1));
}

#[test]
fn revert_that_cannot_remove_the_module_aborts() {
    let mut service = IndexerService::new(IndexerConfig { stop_idle_indexers: false, first_executor: 0 });
    let spawn = register(&mut service, demo(false), None);
    let mut v2 = executor_for(&spawn);
    service.handle(ServiceEvent::Done);

    let revert = ServiceEvent::Request(ServiceRequest::IndexRevert(IndexRevertRequest {
        penultimate_asset_id: 41,
        penultimate_asset_bytes: vec![1],
        namespace: "demo".to_string(),
        identifier: "v1".to_string(),
    }));
    assert_eq!(service.handle(revert), ServiceAction::RemoveLatestModule { asset_id: 41 });
    assert_eq!(service.handle(ServiceEvent::Failed(IndexerError::Transport)), ServiceAction::Rollback);
    assert_eq!(
        service.handle(ServiceEvent::Done),
        ServiceAction::Rejected(IndexerError::Transport)
    );
    assert_eq!(service.executor_of("demo.v1"), Some(0));
    assert_eq!(service.live_count(), 1);
    assert!(service.is_idle());
    assert_eq!(v2.handle(ExecutorEvent::Flag(false)), ExecutorAction::Fetch { from: 10, limit: 1 });
    assert_eq!(v2.lifecycle(), Lifecycle::Running);
}

#[test]
fn stop_of_an_unknown_index_is_a_warning() {
    let mut service = IndexerService::new(IndexerConfig { stop_idle_indexers: false, first_executor: 0 });
    let stop = ServiceEvent::Request(ServiceRequest::IndexStop(IndexStopRequest {
        namespace: "nope".to_string(),
        identifier: "nope".to_string(),
    }));
    assert_eq!(
        service.handle(stop),
        ServiceAction::Unknown { namespace: "nope".to_string(), identifier: "nope".to_string() }
    );
    assert!(service.is_idle());
    assert_eq!(service.live_count(), 0);

    let spawn = register(&mut service, demo(false), None);
    assert!(matches!(spawn, ServiceAction::Spawn { executor: 0, .. }));
    assert_eq!(service.handle(ServiceEvent::Done), ServiceAction::Completed);
    assert_eq!(service.executor_of("demo.v1"), Some(0));
}

#[test]
fn every_block_is_committed_in_one_transaction() {
    let mut executor = Executor::new(
        ExecutorConfig { batch_size: 3, stop_idle_indexers: false, idle_limit: 10 },
        1,
        Database::new(),
    )
    .unwrap();
    let answers = [
        (3u64, Ok(())),
        (2, Err(IndexerError::GuestFault)),
        (3, Ok(())),
        (1, Err(IndexerError::Transport)),
        (1, Ok(())),
        (2, Ok(())),
    ];
    let mut begun = 0;
    let mut closed = 0;
    let mut committed: Vec<u64> = Vec::new();
    for (count, outcome) in answers {
        let from = executor.cursor();
        assert_eq!(executor.handle(ExecutorEvent::Flag(false)), ExecutorAction::Fetch { from, limit: 3 });
        assert!(!executor.database().is_in_transaction());
        assert_eq!(
            executor.handle(ExecutorEvent::Blocks(count)),
            ExecutorAction::Invoke { begin: Statement::Begin, from, count }
        );
        begun += 1;
        assert!(executor.database().is_in_transaction());
        match outcome {
            Ok(()) => {
                assert!(matches!(
                    executor.handle(ExecutorEvent::Succeeded),
                    ExecutorAction::Commit { .. }
                ));
                closed += 1;
                executor.handle(ExecutorEvent::Committed);
                committed.extend(from..from + count);
            }
            Err(error) => {
                assert!(matches!(
                    executor.handle(ExecutorEvent::Failed(error)),
                    ExecutorAction::Rollback { .. }
                ));
                closed += 1;
                executor.handle(ExecutorEvent::RolledBack);
            }
        }
        assert_eq!(begun, closed);
        assert!(!executor.database().is_in_transaction());
    }
    assert_eq!(committed, vec![1, 2, 3, 5, 6, 7, 8, 9, 10]);
    assert_eq!(executor.cursor(), 11);
}

#[test]
fn cancelled_executor_ends_within_the_batch_under_way() {
    let fresh = || {
        Executor::new(
            ExecutorConfig { batch_size: 2, stop_idle_indexers: false, idle_limit: 10 },
            1,
            Database::new(),
        )
        .unwrap()
    };
    let mut created = fresh();
    assert_eq!(created.handle(ExecutorEvent::Flag(true)), ExecutorAction::Stop);

    let mut fetching = fresh();
    fetching.handle(ExecutorEvent::Flag(false));
    fetching.handle(ExecutorEvent::Flag(true));
    assert_eq!(fetching.handle(ExecutorEvent::Blocks(0)), ExecutorAction::Stop);

    let mut unreachable = fresh();
    unreachable.handle(ExecutorEvent::Flag(false));
    unreachable.handle(ExecutorEvent::Flag(true));
    assert_eq!(
        unreachable.handle(ExecutorEvent::Failed(IndexerError::Transport)),
        ExecutorAction::Stop
    );

    let mut committing = fresh();
    committing.handle(ExecutorEvent::Flag(false));
    committing.handle(ExecutorEvent::Blocks(2));
    committing.handle(ExecutorEvent::Succeeded);
    committing.handle(ExecutorEvent::Flag(true));
    assert_eq!(committing.handle(ExecutorEvent::Committed), ExecutorAction::Stop);
    assert_eq!(committing.cursor(), 3);

    let mut failing = fresh();
    failing.handle(ExecutorEvent::Flag(false));
    failing.handle(ExecutorEvent::Blocks(2));
    failing.handle(ExecutorEvent::Succeeded);
    failing.handle(ExecutorEvent::Flag(true));
    assert_eq!(
        failing.handle(ExecutorEvent::Failed(IndexerError::Transport)),
        ExecutorAction::Stop
    );
    assert_eq!(failing.cursor(), 1);

    for e in [created, fetching, unreachable, committing, failing] {
        assert_eq!(e.phase(), Phase::Terminal);
        assert!(!e.database().is_in_transaction());
    }
}
