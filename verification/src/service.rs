//! The supervisor of the live indexers.
//!
//! The supervisor decides and never waits. For each event it is handed it
//! says what has to be done next; whoever drives it does that and hands
//! back what came of it. One request is served at a time, from the event
//! that opens it to `Completed`, `Rejected` or `Unknown`.

pub mod laws;
pub mod model;

use crate::error::IndexerError;
use crate::live::LiveSet;
use crate::manifest::{get_start_block, uid_of, uid_text, Manifest};
use crate::service::model::{lemma_wf_enlisted, lemma_wf_kept, lemma_wf_spawning, ServiceView};
use vstd::prelude::*;

verus! {

/// Asks for an index to be started again from its newest assets.
#[derive(Debug, PartialEq, Eq)]
pub struct AssetReloadRequest {
    pub namespace: String,
    pub identifier: String,
}

/// Asks for an index to be stopped.
#[derive(Debug, PartialEq, Eq)]
pub struct IndexStopRequest {
    pub namespace: String,
    pub identifier: String,
}

/// Asks for an index to go back to the module before its newest one.
#[derive(Debug, PartialEq, Eq)]
pub struct IndexRevertRequest {
    pub penultimate_asset_id: i64,
    pub penultimate_asset_bytes: Vec<u8>,
    pub namespace: String,
    pub identifier: String,
}

/// What controllers outside the service may ask of it.
#[derive(Debug, PartialEq, Eq)]
pub enum ServiceRequest {
    AssetReload(AssetReloadRequest),
    IndexStop(IndexStopRequest),
    IndexRevert(IndexRevertRequest),
}

/// Where an executor takes its program from.
#[derive(Debug, PartialEq, Eq)]
pub enum ExecutorSource {
    /// From the module that the manifest names.
    Manifest,
    /// From module bytes kept in the asset registry.
    Registry(Vec<u8>),
    /// From a handler of the host.
    Native,
}

/// The assets of a registered index that an executor is built from.
#[derive(Debug, PartialEq, Eq)]
pub struct IndexAssets {
    pub manifest: Manifest,
    pub module: Vec<u8>,
}

/// The kinds of assets that an index has.
#[derive(Clone, Copy, Debug, PartialEq, Eq, Structural)]
pub enum AssetKind {
    Schema,
    Manifest,
    Module,
}

/// Why an executor is being started.
#[derive(Clone, Copy, Debug, PartialEq, Eq, Structural)]
pub enum LaunchKind {
    Register,
    Native,
    Registry,
    Reload,
    Revert,
}

/// An executor that is about to be started.
#[derive(Debug, PartialEq, Eq)]
pub struct Launch {
    pub kind: LaunchKind,
    pub manifest: Manifest,
    pub source: ExecutorSource,
    pub start_block: u64,
}

/// How far the request that is being served has come.
#[derive(Debug, PartialEq, Eq)]
pub enum Pending {
    /// No request is being served.
    Idle,
    /// The rows of the index and of its schema are being created.
    CreatingIndex { manifest: Manifest, native: bool },
    /// The height of the last committed block is being read.
    ReadingHeight { plan: Launch },
    /// The asset of this kind is being persisted for the index.
    StoringAsset { plan: Launch, kind: AssetKind },
    /// The executor is being built and started.
    Spawning { namespace: String, identifier: String, executor: u64, registry: bool },
    /// The executor that was replaced is being cancelled.
    Finishing { registry: bool },
    /// The registered indices are being listed.
    ListingRegistry,
    /// The newest assets of an index are being loaded.
    LoadingAssets,
    /// The newest module of an index is being removed, in a transaction.
    RemovingAsset { request: IndexRevertRequest },
    /// The transaction of the removal is being committed.
    Committing { manifest: Manifest, request: IndexRevertRequest },
    /// The transaction of a removal that failed is being rolled back.
    Aborting { error: IndexerError },
    /// The executor of the module that was removed is being cancelled.
    Retiring { manifest: Manifest, module: Vec<u8> },
}

/// What the supervisor is told.
#[derive(Debug, PartialEq, Eq)]
pub enum ServiceEvent {
    /// Register the index of this manifest.
    Register(Manifest),
    /// Register the index of this manifest, run by a handler of the host.
    RegisterNative(Manifest),
    /// Start every index that the asset registry holds.
    LoadRegistry,
    /// A request from the service channel.
    Request(ServiceRequest),
    /// What was asked for has been done.
    Done,
    /// What was asked for could not be done.
    Failed(IndexerError),
    /// The height of the last committed block of the index, if there is one.
    Height(Option<u64>),
    /// The assets that were asked for.
    Assets(IndexAssets),
    /// The registered indices, each with its newest assets.
    Registry(Vec<IndexAssets>),
}

/// What the supervisor wants done.
#[derive(Debug, PartialEq, Eq)]
pub enum ServiceAction {
    /// Create the rows of the index and of its schema. Answer: `Done` or `Failed`.
    CreateIndex { namespace: String, identifier: String, graphql_schema: String },
    /// Read the height of the last committed block of the index. Answer:
    /// `Height` or `Failed`.
    ReadHeight { namespace: String, identifier: String },
    /// Persist the asset of this kind as the newest of the index: the text of
    /// its schema, its manifest, or the bytes of its module. Answer: `Done` or
    /// `Failed`.
    StoreAsset { manifest: Manifest, kind: AssetKind },
    /// List the registered indices. Answer: `Registry` or `Failed`.
    ListRegistry,
    /// Load the newest assets of the index. Answer: `Assets` or `Failed`.
    LoadAssets { namespace: String, identifier: String },
    /// Open a transaction and in it remove the newest module of the index
    /// that the asset belongs to. Answer: `Assets`, with the newest manifest of
    /// that index, or `Failed`.
    RemoveLatestModule { asset_id: i64 },
    /// Commit the open transaction. Answer: `Done` or `Failed`.
    Commit,
    /// Roll the open transaction back. Answer: `Done` or `Failed`.
    Rollback,
    /// Build an executor and start its task. Answer: `Done` or `Failed`.
    Spawn {
        executor: u64,
        manifest: Manifest,
        source: ExecutorSource,
        start_block: u64,
        stop_idle_indexers: bool,
    },
    /// Set the cancellation flag of the executor. Answer: `Done`.
    Cancel { executor: u64 },
    /// The request has been served.
    Completed,
    /// The request failed and nothing more is done for it.
    Rejected(IndexerError),
    /// The index to stop is not live: worth a warning, not an error.
    Unknown { namespace: String, identifier: String },
    /// The event answers nothing that was asked; nothing has changed.
    Ignored,
}

/// The settings of the service that its decisions depend on.
#[derive(Clone, Copy, Debug, PartialEq, Eq, Structural)]
pub struct IndexerConfig {
    /// Whether executors stop when idle, for manifests that do not say.
    pub stop_idle_indexers: bool,
    /// The identifier of the first executor; those of the later ones follow
    /// it.
    pub first_executor: u64,
}

/// The supervisor: it owns the set of live indexers and gives every executor
/// its identifier.
pub struct IndexerService {
    config: IndexerConfig,
    live: LiveSet,
    next_executor: u64,
    pending: Pending,
    queue: Vec<IndexAssets>,
}

impl View for IndexerService {
    type V = ServiceView;

    closed spec fn view(&self) -> ServiceView {
        ServiceView {
            live: self.live@,
            next_executor: self.next_executor,
            pending: self.pending,
            queue: self.queue@,
            config: self.config,
        }
    }
}

impl IndexerService {
    #[verifier::type_invariant]
    spec fn well_formed(self) -> bool {
        self@.wf()
    }

    /// A supervisor with no live indexer.
    pub fn new(config: IndexerConfig) -> (service: IndexerService)
        ensures
            service@ == ServiceView::fresh(config),
            service@.wf(),
    {
        IndexerService {
            config,
            live: LiveSet::new(),
            next_executor: config.first_executor,
            pending: Pending::Idle,
            queue: Vec::new(),
        }
    }

    /// The executor of the index named `uid`, if the index is live.
    pub fn executor_of(&self, uid: &str) -> (executor: Option<u64>)
        ensures
            executor == (if self@.live.contains_key(uid@) {
                Some(self@.live[uid@])
            } else {
                None
            }),
    {
        self.live.get(uid)
    }

    /// How many indexers are live.
    pub fn live_count(&self) -> (n: usize)
        ensures
            n == self@.live.dom().len(),
    {
        self.live.len()
    }

    /// Whether no request is being served.
    pub fn is_idle(&self) -> (idle: bool)
        ensures
            idle == (self@.pending is Idle),
    {
        match self.pending {
            Pending::Idle => true,
            _ => false,
        }
    }

    /// Takes the supervisor apart.
    fn parts(self) -> (r: (IndexerConfig, LiveSet, u64, Pending, Vec<IndexAssets>))
        ensures
            self@ == (ServiceView {
                live: r.1@,
                next_executor: r.2,
                pending: r.3,
                queue: r.4@,
                config: r.0,
            }),
            self@.wf(),
    {
        proof {
            use_type_invariant(&self);
        }
        let IndexerService { config, live, next_executor, pending, queue } = self;
        (config, live, next_executor, pending, queue)
    }

    /// Puts a supervisor together.
    fn assemble(
        config: IndexerConfig,
        live: LiveSet,
        next_executor: u64,
        pending: Pending,
        queue: Vec<IndexAssets>,
    ) -> (r: IndexerService)
        requires
            (ServiceView { live: live@, next_executor, pending, queue: queue@, config }).wf(),
        ensures
            r@ == (ServiceView { live: live@, next_executor, pending, queue: queue@, config }),
    {
        IndexerService { config, live, next_executor, pending, queue }
    }

    /// The same supervisor at another point of its request.
    fn with_pending(self, pending: Pending) -> (r: IndexerService)
        requires
            !(pending is Spawning),
        ensures
            r@ == (ServiceView { pending, ..self@ }),
    {
        let ghost before = self@;
        let (config, live, next_executor, _, queue) = self.parts();
        proof {
            lemma_wf_kept(before, ServiceView { pending, ..before });
        }
        IndexerService::assemble(config, live, next_executor, pending, queue)
    }

    /// The same supervisor with other indices still to start.
    fn with_queue(self, queue: Vec<IndexAssets>) -> (r: IndexerService)
        requires
            !(self@.pending is Spawning),
        ensures
            r@ == (ServiceView { queue: queue@, ..self@ }),
    {
        let ghost before = self@;
        let (config, live, next_executor, pending, _) = self.parts();
        proof {
            lemma_wf_kept(before, ServiceView { queue: queue@, ..before });
        }
        IndexerService::assemble(config, live, next_executor, pending, queue)
    }

    /// Takes the first of the indices still to start, if there is one.
    fn pop_queue(self) -> (r: (IndexerService, Option<IndexAssets>))
        requires
            !(self@.pending is Spawning),
        ensures
            self@.queue.len() == 0 ==> r.1 is None && r.0@ == self@,
            self@.queue.len() > 0 ==> r.1 == Some(self@.queue[0]) && r.0@ == (ServiceView {
                queue: self@.queue.drop_first(),
                ..self@
            }),
    {
        let ghost before = self@;
        let (config, live, next_executor, pending, mut queue) = self.parts();
        if queue.len() == 0 {
            (IndexerService::assemble(config, live, next_executor, pending, queue), None)
        } else {
            let first = queue.remove(0);
            proof {
                assert(queue@ =~= before.queue.drop_first());
                lemma_wf_kept(before, ServiceView { queue: queue@, ..before });
            }
            (IndexerService::assemble(config, live, next_executor, pending, queue), Some(first))
        }
    }

    /// Takes the index named by `namespace` and `identifier` out of the live ones.
    fn remove_live(self, namespace: &str, identifier: &str) -> (r: (IndexerService, Option<u64>))
        requires
            !(self@.pending is Spawning),
        ensures
            ({
                let uid = uid_text(namespace@, identifier@);
                if self@.live.contains_key(uid) {
                    &&& r.1 == Some(self@.live[uid])
                    &&& r.0@ == (ServiceView { live: self@.live.remove(uid), ..self@ })
                } else {
                    &&& r.1 is None
                    &&& r.0@ == self@
                }
            }),
    {
        let ghost before = self@;
        let uid = uid_of(namespace, identifier);
        let (config, mut live, next_executor, pending, queue) = self.parts();
        let removed = live.remove(uid.as_str());
        proof {
            if removed is None {
                assert(live@ =~= before.live);
            }
            lemma_wf_kept(before, ServiceView { live: live@, ..before });
        }
        (IndexerService::assemble(config, live, next_executor, pending, queue), removed)
    }

    fn rejected(self, error: IndexerError) -> (r: (IndexerService, ServiceAction))
        ensures
            r.0@ == self@.rejected(error).0,
            r.1 == self@.rejected(error).1,
    {
        let ghost before = self@;
        let (config, live, next_executor, _, _) = self.parts();
        let queue: Vec<IndexAssets> = Vec::new();
        proof {
            lemma_wf_kept(before, ServiceView { pending: Pending::Idle, queue: queue@, ..before });
        }
        (
            IndexerService::assemble(config, live, next_executor, Pending::Idle, queue),
            ServiceAction::Rejected(error),
        )
    }

    fn spawn(self, plan: Launch) -> (r: (IndexerService, ServiceAction))
        ensures
            r.0@ == self@.spawn(plan).0,
            r.1 == self@.spawn(plan).1,
    {
        let ghost before = self@;
        if self.next_executor == u64::MAX {
            return self.rejected(IndexerError::ExecutorsExhausted);
        }
        let (config, live, next_executor, _, queue) = self.parts();
        let Launch { kind, manifest, source, start_block } = plan;
        let registry = match kind {
            LaunchKind::Registry => true,
            _ => false,
        };
        let stop_idle_indexers = manifest.stop_idle(config.stop_idle_indexers);
        let pending = Pending::Spawning {
            namespace: manifest.namespace.clone(),
            identifier: manifest.identifier.clone(),
            executor: next_executor,
            registry,
        };
        proof {
            lemma_wf_spawning(
                before,
                ServiceView { next_executor: (next_executor + 1) as u64, pending, ..before },
            );
        }
        (
            IndexerService::assemble(config, live, next_executor + 1, pending, queue),
            ServiceAction::Spawn {
                executor: next_executor,
                manifest,
                source,
                start_block,
                stop_idle_indexers,
            },
        )
    }

    fn store(self, plan: Launch, kind: AssetKind) -> (r: (IndexerService, ServiceAction))
        ensures
            r.0@ == self@.store(plan, kind).0,
            r.1 == self@.store(plan, kind).1,
    {
        let manifest = plan.manifest.clone();
        (
            self.with_pending(Pending::StoringAsset { plan, kind }),
            ServiceAction::StoreAsset { manifest, kind },
        )
    }

    fn proceed(self, plan: Launch) -> (r: (IndexerService, ServiceAction))
        ensures
            r.0@ == self@.proceed(plan).0,
            r.1 == self@.proceed(plan).1,
    {
        match plan.kind {
            LaunchKind::Register => self.store(plan, AssetKind::Schema),
            _ => self.spawn(plan),
        }
    }

    fn launch(self, plan: Launch) -> (r: (IndexerService, ServiceAction))
        ensures
            r.0@ == self@.launch(plan).0,
            r.1 == self@.launch(plan).1,
    {
        if plan.manifest.is_resumable() {
            let namespace = plan.manifest.namespace.clone();
            let identifier = plan.manifest.identifier.clone();
            (
                self.with_pending(Pending::ReadingHeight { plan }),
                ServiceAction::ReadHeight { namespace, identifier },
            )
        } else {
            let Launch { kind, manifest, source, start_block: _ } = plan;
            let start_block = match manifest.start_block {
                Some(block) => block,
                None => 1,
            };
            self.proceed(Launch { kind, manifest, source, start_block })
        }
    }

    fn place(self, plan: Launch, height: Result<Option<u64>, IndexerError>) -> (r: (
        IndexerService,
        ServiceAction,
    ))
        ensures
            r.0@ == self@.place(plan, height).0,
            r.1 == self@.place(plan, height).1,
    {
        let lenient = match plan.kind {
            LaunchKind::Native => true,
            LaunchKind::Registry => true,
            _ => false,
        };
        let found = match height {
            Ok(last) => get_start_block(&plan.manifest, last),
            Err(error) => Err(error),
        };
        let Launch { kind, manifest, source, start_block: _ } = plan;
        match found {
            Ok(start_block) => self.proceed(Launch { kind, manifest, source, start_block }),
            Err(error) => if lenient {
                self.proceed(Launch { kind, manifest, source, start_block: 1 })
            } else {
                self.rejected(error)
            },
        }
    }

    fn advance(self) -> (r: (IndexerService, ServiceAction))
        requires
            !(self@.pending is Spawning),
        ensures
            r.0@ == self@.advance().0,
            r.1 == self@.advance().1,
    {
        let (rest, first) = self.pop_queue();
        match first {
            None => (rest.with_pending(Pending::Idle), ServiceAction::Completed),
            Some(assets) => {
                let IndexAssets { manifest, module } = assets;
                rest.launch(
                    Launch {
                        kind: LaunchKind::Registry,
                        manifest,
                        source: ExecutorSource::Registry(module),
                        start_block: 0,
                    },
                )
            },
        }
    }

    fn finish(self, registry: bool) -> (r: (IndexerService, ServiceAction))
        requires
            !(self@.pending is Spawning),
        ensures
            r.0@ == self@.finish(registry).0,
            r.1 == self@.finish(registry).1,
    {
        if registry {
            self.advance()
        } else {
            (self.with_pending(Pending::Idle), ServiceAction::Completed)
        }
    }

    fn enlist(self, namespace: String, identifier: String, executor: u64, registry: bool) -> (r: (
        IndexerService,
        ServiceAction,
    ))
        requires
            self@.pending == (Pending::Spawning { namespace, identifier, executor, registry }),
        ensures
            r.0@ == self@.enlist(namespace, identifier, executor, registry).0,
            r.1 == self@.enlist(namespace, identifier, executor, registry).1,
    {
        let ghost before = self@;
        let uid = uid_of(namespace.as_str(), identifier.as_str());
        let (config, mut live, next_executor, _, queue) = self.parts();
        let replaced = live.insert(uid, executor);
        match replaced {
            Some(old) => {
                let pending = Pending::Finishing { registry };
                proof {
                    lemma_wf_enlisted(before, ServiceView { live: live@, pending, ..before }, uid@);
                }
                (
                    IndexerService::assemble(config, live, next_executor, pending, queue),
                    ServiceAction::Cancel { executor: old },
                )
            },
            None => {
                let pending = Pending::Idle;
                proof {
                    lemma_wf_enlisted(before, ServiceView { live: live@, pending, ..before }, uid@);
                }
                let enlisted = IndexerService::assemble(config, live, next_executor, pending, queue);
                enlisted.finish(registry)
            },
        }
    }

    fn accept(self, request: ServiceRequest) -> (r: (IndexerService, ServiceAction))
        requires
            self@.pending is Idle,
        ensures
            r.0@ == self@.accept(request).0,
            r.1 == self@.accept(request).1,
    {
        match request {
            ServiceRequest::AssetReload(reload) => {
                let AssetReloadRequest { namespace, identifier } = reload;
                (
                    self.with_pending(Pending::LoadingAssets),
                    ServiceAction::LoadAssets { namespace, identifier },
                )
            },
            ServiceRequest::IndexStop(stop) => {
                let IndexStopRequest { namespace, identifier } = stop;
                let (rest, removed) = self.remove_live(namespace.as_str(), identifier.as_str());
                match removed {
                    Some(executor) => (
                        rest.with_pending(Pending::Finishing { registry: false }),
                        ServiceAction::Cancel { executor },
                    ),
                    None => (rest, ServiceAction::Unknown { namespace, identifier }),
                }
            },
            ServiceRequest::IndexRevert(revert) => {
                let asset_id = revert.penultimate_asset_id;
                (
                    self.with_pending(Pending::RemovingAsset { request: revert }),
                    ServiceAction::RemoveLatestModule { asset_id },
                )
            },
        }
    }

    fn retire(self, manifest: Manifest, request: IndexRevertRequest) -> (r: (
        IndexerService,
        ServiceAction,
    ))
        requires
            self@.pending is Idle,
        ensures
            r.0@ == (ServiceView { pending: Pending::Committing { manifest, request }, ..self@ }).retire(
                manifest,
                request,
            ).0,
            r.1 == self@.retire(manifest, request).1,
    {
        let IndexRevertRequest {
            penultimate_asset_id: _,
            penultimate_asset_bytes,
            namespace,
            identifier,
        } = request;
        let (rest, removed) = self.remove_live(namespace.as_str(), identifier.as_str());
        match removed {
            Some(executor) => (
                rest.with_pending(Pending::Retiring { manifest, module: penultimate_asset_bytes }),
                ServiceAction::Cancel { executor },
            ),
            None => rest.launch(
                Launch {
                    kind: LaunchKind::Revert,
                    manifest,
                    source: ExecutorSource::Registry(penultimate_asset_bytes),
                    start_block: 0,
                },
            ),
        }
    }

    /// The supervisor with its request set aside.
    fn take_pending(self) -> (r: (IndexerService, Pending))
        ensures
            r.1 == self@.pending,
            r.0@ == (ServiceView { pending: Pending::Idle, ..self@ }),
            r.1 matches Pending::Spawning { executor, .. } ==> {
                &&& executor < self@.next_executor
                &&& forall|uid: Seq<char>| #[trigger]
                    self@.live.contains_key(uid) ==> self@.live[uid] != executor
            },
    {
        let ghost before = self@;
        let (config, live, next_executor, pending, queue) = self.parts();
        proof {
            lemma_wf_kept(before, ServiceView { pending: Pending::Idle, ..before });
        }
        (IndexerService::assemble(config, live, next_executor, Pending::Idle, queue), pending)
    }

    /// The supervisor back at the start of an executor.
    fn resume_spawning(
        self,
        namespace: String,
        identifier: String,
        executor: u64,
        registry: bool,
    ) -> (r: IndexerService)
        requires
            self@.pending is Idle,
            executor < self@.next_executor,
            forall|uid: Seq<char>| #[trigger]
                self@.live.contains_key(uid) ==> self@.live[uid] != executor,
        ensures
            r@ == (ServiceView {
                pending: Pending::Spawning { namespace, identifier, executor, registry },
                ..self@
            }),
    {
        let (config, live, next_executor, _, queue) = self.parts();
        IndexerService::assemble(
            config,
            live,
            next_executor,
            Pending::Spawning { namespace, identifier, executor, registry },
            queue,
        )
    }

    /// Answers one event: the supervisor moves on and says what it wants done.
    fn step(self, event: ServiceEvent) -> (r: (IndexerService, ServiceAction))
        ensures
            r.0@ == self@.next(event).0,
            r.1 == self@.next(event).1,
    {
        let (rest, pending) = self.take_pending();
        match pending {
            Pending::Idle => match event {
                ServiceEvent::Register(manifest) => {
                    if manifest.is_native() {
                        rest.rejected(IndexerError::Configuration)
                    } else {
                        let action = ServiceAction::CreateIndex {
                            namespace: manifest.namespace.clone(),
                            identifier: manifest.identifier.clone(),
                            graphql_schema: manifest.graphql_schema.clone(),
                        };
                        (
                            rest.with_pending(Pending::CreatingIndex { manifest, native: false }),
                            action,
                        )
                    }
                },
                ServiceEvent::RegisterNative(manifest) => {
                    let action = ServiceAction::CreateIndex {
                        namespace: manifest.namespace.clone(),
                        identifier: manifest.identifier.clone(),
                        graphql_schema: manifest.graphql_schema.clone(),
                    };
                    (rest.with_pending(Pending::CreatingIndex { manifest, native: true }), action)
                },
                ServiceEvent::LoadRegistry => (
                    rest.with_pending(Pending::ListingRegistry),
                    ServiceAction::ListRegistry,
                ),
                ServiceEvent::Request(request) => rest.accept(request),
                _ => (rest, ServiceAction::Ignored),
            },
            Pending::CreatingIndex { manifest, native } => match event {
                ServiceEvent::Done => {
                    let plan = if native {
                        Launch {
                            kind: LaunchKind::Native,
                            manifest,
                            source: ExecutorSource::Native,
                            start_block: 0,
                        }
                    } else {
                        Launch {
                            kind: LaunchKind::Register,
                            manifest,
                            source: ExecutorSource::Manifest,
                            start_block: 0,
                        }
                    };
                    rest.launch(plan)
                },
                ServiceEvent::Failed(error) => rest.rejected(error),
                _ => (
                    rest.with_pending(Pending::CreatingIndex { manifest, native }),
                    ServiceAction::Ignored,
                ),
            },
            Pending::ReadingHeight { plan } => match event {
                ServiceEvent::Height(last) => rest.place(plan, Ok(last)),
                ServiceEvent::Failed(error) => rest.place(plan, Err(error)),
                _ => (rest.with_pending(Pending::ReadingHeight { plan }), ServiceAction::Ignored),
            },
            Pending::StoringAsset { plan, kind } => match event {
                ServiceEvent::Done => match kind {
                    AssetKind::Schema => rest.store(plan, AssetKind::Manifest),
                    AssetKind::Manifest => rest.store(plan, AssetKind::Module),
                    AssetKind::Module => rest.spawn(plan),
                },
                ServiceEvent::Failed(error) => rest.rejected(error),
                _ => (
                    rest.with_pending(Pending::StoringAsset { plan, kind }),
                    ServiceAction::Ignored,
                ),
            },
            Pending::Spawning { namespace, identifier, executor, registry } => match event {
                ServiceEvent::Done => {
                    let spawning = rest.resume_spawning(
                        namespace.clone(),
                        identifier.clone(),
                        executor,
                        registry,
                    );
                    spawning.enlist(namespace, identifier, executor, registry)
                },
                ServiceEvent::Failed(error) => rest.rejected(error),
                _ => (
                    rest.resume_spawning(namespace, identifier, executor, registry),
                    ServiceAction::Ignored,
                ),
            },
            Pending::Finishing { registry } => match event {
                ServiceEvent::Done => rest.finish(registry),
                ServiceEvent::Failed(error) => rest.rejected(error),
                _ => (rest.with_pending(Pending::Finishing { registry }), ServiceAction::Ignored),
            },
            Pending::ListingRegistry => match event {
                ServiceEvent::Registry(indices) => rest.with_queue(indices).advance(),
                ServiceEvent::Failed(error) => rest.rejected(error),
                _ => (rest.with_pending(Pending::ListingRegistry), ServiceAction::Ignored),
            },
            Pending::LoadingAssets => match event {
                ServiceEvent::Assets(assets) => {
                    let IndexAssets { manifest, module } = assets;
                    rest.launch(
                        Launch {
                            kind: LaunchKind::Reload,
                            manifest,
                            source: ExecutorSource::Registry(module),
                            start_block: 0,
                        },
                    )
                },
                ServiceEvent::Failed(error) => rest.rejected(error),
                _ => (rest.with_pending(Pending::LoadingAssets), ServiceAction::Ignored),
            },
            Pending::RemovingAsset { request } => match event {
                ServiceEvent::Assets(assets) => {
                    let IndexAssets { manifest, module: _ } = assets;
                    (
                        rest.with_pending(Pending::Committing { manifest, request }),
                        ServiceAction::Commit,
                    )
                },
                ServiceEvent::Failed(error) => (
                    rest.with_pending(Pending::Aborting { error }),
                    ServiceAction::Rollback,
                ),
                _ => (rest.with_pending(Pending::RemovingAsset { request }), ServiceAction::Ignored),
            },
            Pending::Committing { manifest, request } => match event {
                ServiceEvent::Done => rest.retire(manifest, request),
                ServiceEvent::Failed(error) => rest.rejected(error),
                _ => (
                    rest.with_pending(Pending::Committing { manifest, request }),
                    ServiceAction::Ignored,
                ),
            },
            Pending::Aborting { error } => match event {
                ServiceEvent::Done => rest.rejected(error),
                ServiceEvent::Failed(_) => rest.rejected(error),
                _ => (rest.with_pending(Pending::Aborting { error }), ServiceAction::Ignored),
            },
            Pending::Retiring { manifest, module } => match event {
                ServiceEvent::Done => rest.launch(
                    Launch {
                        kind: LaunchKind::Revert,
                        manifest,
                        source: ExecutorSource::Registry(module),
                        start_block: 0,
                    },
                ),
                ServiceEvent::Failed(error) => rest.rejected(error),
                _ => (
                    rest.with_pending(Pending::Retiring { manifest, module }),
                    ServiceAction::Ignored,
                ),
            },
        }
    }

    /// Hands the supervisor one event. It answers with what it wants done
    /// next; the answer to that comes back as the next event.
    pub fn handle(&mut self, event: ServiceEvent) -> (action: ServiceAction)
        ensures
            final(self)@ == old(self)@.next(event).0,
            action == old(self)@.next(event).1,
            final(self)@.wf(),
    {
        let mut taken = IndexerService::new(self.config);
        core::mem::swap(self, &mut taken);
        let (after, action) = taken.step(event);
        proof {
            use_type_invariant(&after);
        }
        *self = after;
        action
    }

    /// Opens the registration of the index of `manifest`.
    pub fn register_index_from_manifest(&mut self, manifest: Manifest) -> (action: ServiceAction)
        ensures
            final(self)@ == old(self)@.next(ServiceEvent::Register(manifest)).0,
            action == old(self)@.next(ServiceEvent::Register(manifest)).1,
            final(self)@.wf(),
    {
        self.handle(ServiceEvent::Register(manifest))
    }

    /// Opens the start of every index that the asset registry holds.
    pub fn register_indices_from_registry(&mut self) -> (action: ServiceAction)
        ensures
            final(self)@ == old(self)@.next(ServiceEvent::LoadRegistry).0,
            action == old(self)@.next(ServiceEvent::LoadRegistry).1,
            final(self)@.wf(),
    {
        self.handle(ServiceEvent::LoadRegistry)
    }

    /// Opens the registration of the index of `manifest`, which a handler of
    /// the host runs.
    pub fn register_native_index(&mut self, manifest: Manifest) -> (action: ServiceAction)
        ensures
            final(self)@ == old(self)@.next(ServiceEvent::RegisterNative(manifest)).0,
            action == old(self)@.next(ServiceEvent::RegisterNative(manifest)).1,
            final(self)@.wf(),
    {
        self.handle(ServiceEvent::RegisterNative(manifest))
    }

    /// Serves a whole run of events and returns what the supervisor wanted
    /// done after each of them, with the supervisor as the run left it.
    pub fn run(self, events: Vec<ServiceEvent>) -> (r: (IndexerService, Vec<ServiceAction>))
        ensures
            r.0@ == self@.run(events@).0,
            r.1@ == self@.run(events@).1,
            r.0@.wf(),
    {
        let ghost start = self@;
        let ghost all = events@;
        let mut service = self;
        let mut actions: Vec<ServiceAction> = Vec::new();
        let mut events = events;
        let mut done: usize = 0;
        let total = events.len();
        proof {
            use_type_invariant(&service);
        }
        while events.len() > 0
            invariant
                done + events.len() == total,
                total == all.len(),
                events@ == all.skip(done as int),
                service@ == start.run(all.take(done as int)).0,
                actions@ == start.run(all.take(done as int)).1,
                service@.wf(),
            decreases events.len(),
        {
            let event = events.remove(0);
            proof {
                assert(event == all[done as int]);
                assert(all.take(done + 1).drop_last() =~= all.take(done as int));
                assert(all.take(done + 1).last() == all[done as int]);
                assert(events@ =~= all.skip(done + 1));
            }
            let action = service.handle(event);
            actions.push(action);
            done = done + 1;
        }
        proof {
            assert(all.take(done as int) =~= all);
        }
        (service, actions)
    }
}

} // verus!
