//! The manifest of an index and what it says about where to start.

use crate::error::{IndexerError, IndexerResult};
use vstd::prelude::*;
use vstd::string::*;

verus! {

/// Where the program of an index comes from.
#[derive(Debug, PartialEq, Eq)]
pub enum Module {
    /// A sandboxed module, by the path of its bytecode.
    Wasm(String),
    /// A handler compiled into the host.
    Native,
}

impl Clone for Module {
    fn clone(&self) -> (r: Self)
        ensures
            r == *self,
    {
        match self {
            Module::Wasm(path) => Module::Wasm(path.clone()),
            Module::Native => Module::Native,
        }
    }
}

/// The declarative configuration of one index.
#[derive(Debug, PartialEq, Eq)]
pub struct Manifest {
    pub namespace: String,
    pub identifier: String,
    /// The GraphQL schema: a path or the schema text itself.
    pub graphql_schema: String,
    pub module: Module,
    /// The first block to index; block 1 when absent.
    pub start_block: Option<u64>,
    /// Whether to go on after the last committed block.
    pub resumable: Option<bool>,
    /// Whether the executor stops once the node has had no blocks for too long.
    pub stop_idle_indexers: Option<bool>,
}

impl Clone for Manifest {
    fn clone(&self) -> (r: Self)
        ensures
            r == *self,
    {
        Manifest {
            namespace: self.namespace.clone(),
            identifier: self.identifier.clone(),
            graphql_schema: self.graphql_schema.clone(),
            module: self.module.clone(),
            start_block: self.start_block,
            resumable: self.resumable,
            stop_idle_indexers: self.stop_idle_indexers,
        }
    }
}

/// The unique name of an index: namespace, a dot, identifier.
pub open spec fn uid_text(namespace: Seq<char>, identifier: Seq<char>) -> Seq<char> {
    namespace + seq!['.'] + identifier
}

/// Builds the unique name of the index `identifier` of `namespace`.
pub fn uid_of(namespace: &str, identifier: &str) -> (uid: String)
    ensures
        uid@ == uid_text(namespace@, identifier@),
{
    proof {
        reveal_strlit(".");
    }
    let mut uid = String::from_str(namespace);
    uid.append(".");
    uid.append(identifier);
    assert("."@ =~= seq!['.']);
    uid
}

/// Where an index starts: after the last committed block when it resumes and
/// there is one, else at the block that its manifest names, else at block 1.
pub open spec fn start_block_of(manifest: Manifest, last_committed: Option<u64>) -> int {
    if manifest.resumes() && last_committed is Some {
        last_committed->0 + 1
    } else if manifest.start_block is Some {
        manifest.start_block->0 as int
    } else {
        1
    }
}

impl Manifest {
    /// The unique name of the index.
    pub open spec fn uid_view(&self) -> Seq<char> {
        uid_text(self.namespace@, self.identifier@)
    }

    /// The unique name of the index.
    pub fn uid(&self) -> (uid: String)
        ensures
            uid@ == self.uid_view(),
    {
        uid_of(self.namespace.as_str(), self.identifier.as_str())
    }

    /// Whether the index runs a handler of the host.
    pub open spec fn native(&self) -> bool {
        self.module is Native
    }

    /// Whether the index runs a handler of the host.
    pub fn is_native(&self) -> (r: bool)
        ensures
            r == self.native(),
    {
        match self.module {
            Module::Native => true,
            Module::Wasm(_) => false,
        }
    }

    /// Whether the index goes on after the last committed block.
    pub open spec fn resumes(&self) -> bool {
        self.resumable == Some(true)
    }

    /// Whether the index goes on after the last committed block.
    pub fn is_resumable(&self) -> (r: bool)
        ensures
            r == self.resumes(),
    {
        match self.resumable {
            Some(flag) => flag,
            None => false,
        }
    }

    /// Whether the executor of the index stops when idle, given the service's
    /// own setting for manifests that do not say.
    pub open spec fn stops_idle(&self, default: bool) -> bool {
        match self.stop_idle_indexers {
            Some(flag) => flag,
            None => default,
        }
    }

    /// Whether the executor of the index stops when idle.
    pub fn stop_idle(&self, default: bool) -> (r: bool)
        ensures
            r == self.stops_idle(default),
    {
        match self.stop_idle_indexers {
            Some(flag) => flag,
            None => default,
        }
    }
}

/// The block at which an executor for `manifest` starts, given the height of
/// the last block that was committed for the index, if any.
pub fn get_start_block(manifest: &Manifest, last_committed: Option<u64>) -> (r: IndexerResult<u64>)
    ensures
        start_block_of(*manifest, last_committed) <= u64::MAX ==> r == Ok::<u64, IndexerError>(
            start_block_of(*manifest, last_committed) as u64,
        ),
        start_block_of(*manifest, last_committed) > u64::MAX ==> r == Err::<u64, IndexerError>(
            IndexerError::HeightOverflow,
        ),
{
    if manifest.is_resumable() {
        if let Some(last) = last_committed {
            return if last < u64::MAX {
                Ok(last + 1)
            } else {
                Err(IndexerError::HeightOverflow)
            };
        }
    }
    match manifest.start_block {
        Some(block) => Ok(block),
        None => Ok(1),
    }
}

} // verus!
