//! The core of an indexer runtime: the session that gates the database of an
//! index behind one transaction at a time, the schema map that turns the
//! entities of a guest into SQL, the executor that drives a guest over the
//! blocks of a chain, and the supervisor that registers, reloads, reverts and
//! retires indexers.
//!
//! Nothing in here waits, reads or sends. Executor and supervisor say what
//! has to be done; whoever holds the connections does it and reports back.

pub mod database;
pub mod error;
pub mod executor;
pub mod health;
pub mod live;
pub mod manifest;
pub mod schema;
pub mod service;
pub mod text;

pub use database::{Database, PutObject, Session, Statement};
pub use error::{IndexerError, IndexerResult};
pub use executor::{Executor, ExecutorAction, ExecutorConfig, ExecutorEvent, Lifecycle, Phase};
pub use health::{get_fuel_status, ServiceStatus};
pub use manifest::{get_start_block, Manifest, Module};
pub use schema::{ColumnRow, GuestMetadata, TableColumns};
pub use service::{
    AssetKind, AssetReloadRequest, ExecutorSource, IndexAssets, IndexRevertRequest, IndexStopRequest,
    IndexerConfig, IndexerService, ServiceAction, ServiceEvent, ServiceRequest,
};

use vstd::prelude::*;

verus! {

/// A GraphQL query as it arrives from a client: the query text and its
/// parameters.
#[derive(Debug)]
pub struct Query {
    pub query: String,
    pub params: String,
}

impl Clone for Query {
    fn clone(&self) -> (r: Self)
        ensures
            r == *self,
    {
        Query { query: self.query.clone(), params: self.params.clone() }
    }
}

} // verus!
