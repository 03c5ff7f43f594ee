use fuel_indexer::manifest::uid_of;
use fuel_indexer::{
    get_fuel_status, get_start_block, IndexerError, Manifest, Module, ServiceStatus,
};

fn manifest(start_block: Option<u64>, resumable: Option<bool>) -> Manifest {
    Manifest {
        namespace: "demo".to_string(),
        identifier: "v1".to_string(),
        graphql_schema: "schema.graphql".to_string(),
        module: Module::Wasm("index.wasm".to_string()),
        start_block,
        resumable,
        stop_idle_indexers: None,
    }
}

#[test]
fn uid_is_namespace_dot_identifier() {
    assert_eq!(manifest(None, None).uid(), "demo.v1");
    assert_eq!(uid_of("nope", "nope"), "nope.nope");
}

#[test]
fn uid_of_empty_names_is_a_dot() {
    assert_eq!(uid_of("", ""), ".");
}

#[test]
fn wasm_manifest_is_not_native() {
    assert!(!manifest(None, None).is_native());
}

#[test]
fn native_manifest_is_native() {
    let mut native = manifest(None, None);
    native.module = Module::Native;
    assert!(native.is_native());
}

#[test]
fn start_block_defaults_to_one() {
    assert_eq!(get_start_block(&manifest(None, None), None), Ok(1));
}

#[test]
fn start_block_of_the_manifest_is_taken() {
    assert_eq!(get_start_block(&manifest(Some(10), None), None), Ok(10));
    assert_eq!(get_start_block(&manifest(Some(10), Some(false)), Some(12)), Ok(10));
}

#[test]
fn last_committed_height_is_ignored_without_resumable() {
    assert_eq!(get_start_block(&manifest(Some(10), None), Some(12)), Ok(10));
    assert_eq!(get_start_block(&manifest(None, Some(false)), Some(12)), Ok(1));
}

#[test]
fn resumable_starts_after_the_last_committed_block() {
    assert_eq!(get_start_block(&manifest(Some(10), Some(true)), Some(12)), Ok(13));
    assert_eq!(get_start_block(&manifest(None, Some(true)), Some(0)), Ok(1));
}

#[test]
fn resumable_without_a_committed_block_starts_like_any_other() {
    assert_eq!(get_start_block(&manifest(Some(10), Some(true)), None), Ok(10));
    assert_eq!(get_start_block(&manifest(None, Some(true)), None), Ok(1));
}

#[test]
fn resuming_after_the_last_height_there_is_overflows() {
    assert_eq!(
        get_start_block(&manifest(Some(10), Some(true)), Some(u64::MAX)),
        Err(IndexerError::HeightOverflow)
    );
    assert_eq!(
        get_start_block(&manifest(Some(10), Some(true)), Some(u64::MAX - 1)),
        Ok(u64::MAX)
    );
}

#[test]
fn manifest_decides_whether_its_executor_stops_when_idle() {
    let mut m = manifest(None, None);
    assert!(!m.stop_idle(false));
    assert!(m.stop_idle(true));
    m.stop_idle_indexers = Some(true);
    assert!(m.stop_idle(false));
    m.stop_idle_indexers = Some(false);
    assert!(!m.stop_idle(true));
}

#[test]
fn manifest_clone_is_field_equal() {
    let m = manifest(Some(3), Some(true));
    assert_eq!(m.clone(), m);
}

#[test]
fn only_a_transport_error_is_retryable() {
    assert!(IndexerError::Transport.is_retryable());
    assert!(!IndexerError::GuestFault.is_retryable());
    assert!(!IndexerError::NoTransactionError.is_retryable());
    assert!(!IndexerError::UnknownTypeId { type_id: 1 }.is_retryable());
    assert!(!IndexerError::ColumnCountMismatch { columns: 3, values: 1 }.is_retryable());
    assert!(!IndexerError::Configuration.is_retryable());
}

#[test]
fn unreachable_node_is_not_ok() {
    assert_eq!(get_fuel_status(None), ServiceStatus::NotOk);
    assert_eq!(get_fuel_status(Some(ServiceStatus::NotOk)), ServiceStatus::NotOk);
    assert_eq!(get_fuel_status(Some(ServiceStatus::OK)), ServiceStatus::OK);
}
