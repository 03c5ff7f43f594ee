//! The rules of the supervisor: what it is after each event and what it
//! wants done.

use crate::error::IndexerError;
use crate::manifest::{start_block_of, uid_text, Manifest};
use crate::service::{
    AssetKind, ExecutorSource, IndexAssets, IndexRevertRequest, IndexerConfig, Launch, LaunchKind,
    Pending, ServiceAction, ServiceEvent, ServiceRequest,
};
use vstd::prelude::*;

verus! {

/// The block a manifest starts at when nothing is resumed.
pub open spec fn first_block(manifest: Manifest) -> u64 {
    match manifest.start_block {
        Some(block) => block,
        None => 1,
    }
}

/// Whether a failure to find the start block is made up for by block 1.
pub open spec fn lenient(kind: LaunchKind) -> bool {
    kind is Native || kind is Registry
}

/// The supervisor as the rules see it.
pub struct ServiceView {
    /// The live indexers: unique name to executor.
    pub live: Map<Seq<char>, u64>,
    /// The identifier that the next executor gets.
    pub next_executor: u64,
    /// How far the request that is being served has come.
    pub pending: Pending,
    /// The registered indices that are still to be started.
    pub queue: Seq<IndexAssets>,
    pub config: IndexerConfig,
}

impl ServiceView {
    /// A supervisor with no live indexer and no request.
    pub open spec fn fresh(config: IndexerConfig) -> ServiceView {
        ServiceView {
            live: Map::empty(),
            next_executor: config.first_executor,
            pending: Pending::Idle,
            queue: Seq::empty(),
            config,
        }
    }

    /// Every executor got an identifier of its own: no two live indexers share
    /// one, and none holds one that is still to be given out or that the
    /// executor being started has.
    pub open spec fn wf(self) -> bool {
        &&& forall|uid: Seq<char>| #[trigger]
            self.live.contains_key(uid) ==> self.live[uid] < self.next_executor
        &&& forall|a: Seq<char>, b: Seq<char>|
            #![trigger self.live[a], self.live[b]]
            self.live.contains_key(a) && self.live.contains_key(b) && a != b ==> self.live[a]
                != self.live[b]
        &&& self.pending matches Pending::Spawning { executor, .. } ==> {
            &&& executor < self.next_executor
            &&& forall|uid: Seq<char>| #[trigger]
                self.live.contains_key(uid) ==> self.live[uid] != executor
        }
    }

    /// The request ends with an error.
    pub open spec fn rejected(self, error: IndexerError) -> (ServiceView, ServiceAction) {
        (
            ServiceView { pending: Pending::Idle, queue: Seq::empty(), ..self },
            ServiceAction::Rejected(error),
        )
    }

    /// Nothing was asked that the event could answer.
    pub open spec fn ignored(self) -> (ServiceView, ServiceAction) {
        (self, ServiceAction::Ignored)
    }

    /// Finds the start block of `plan`, asking for the last committed height
    /// where the manifest resumes, and goes on.
    pub open spec fn launch(self, plan: Launch) -> (ServiceView, ServiceAction) {
        if plan.manifest.resumes() {
            (
                ServiceView { pending: Pending::ReadingHeight { plan }, ..self },
                ServiceAction::ReadHeight {
                    namespace: plan.manifest.namespace,
                    identifier: plan.manifest.identifier,
                },
            )
        } else {
            self.proceed(Launch { start_block: first_block(plan.manifest), ..plan })
        }
    }

    /// Has the asset of this kind persisted for the index of `plan`.
    pub open spec fn store(self, plan: Launch, kind: AssetKind) -> (ServiceView, ServiceAction) {
        (
            ServiceView { pending: Pending::StoringAsset { plan, kind }, ..self },
            ServiceAction::StoreAsset { manifest: plan.manifest, kind },
        )
    }

    /// With the start block known: a registration persists its assets first,
    /// the schema, then the manifest, then the module; everything else starts
    /// the executor.
    pub open spec fn proceed(self, plan: Launch) -> (ServiceView, ServiceAction) {
        if plan.kind is Register {
            self.store(plan, AssetKind::Schema)
        } else {
            self.spawn(plan)
        }
    }

    /// Gives the executor of `plan` the next identifier and has it started.
    pub open spec fn spawn(self, plan: Launch) -> (ServiceView, ServiceAction) {
        if self.next_executor == u64::MAX {
            self.rejected(IndexerError::ExecutorsExhausted)
        } else {
            (
                ServiceView {
                    next_executor: (self.next_executor + 1) as u64,
                    pending: Pending::Spawning {
                        namespace: plan.manifest.namespace,
                        identifier: plan.manifest.identifier,
                        executor: self.next_executor,
                        registry: plan.kind is Registry,
                    },
                    ..self
                },
                ServiceAction::Spawn {
                    executor: self.next_executor,
                    manifest: plan.manifest,
                    source: plan.source,
                    start_block: plan.start_block,
                    stop_idle_indexers: plan.manifest.stops_idle(self.config.stop_idle_indexers),
                },
            )
        }
    }

    /// Starts the next registered index, or ends the request when none is left.
    pub open spec fn advance(self) -> (ServiceView, ServiceAction) {
        if self.queue.len() == 0 {
            (ServiceView { pending: Pending::Idle, ..self }, ServiceAction::Completed)
        } else {
            ServiceView { queue: self.queue.drop_first(), ..self }.launch(
                Launch {
                    kind: LaunchKind::Registry,
                    manifest: self.queue[0].manifest,
                    source: ExecutorSource::Registry(self.queue[0].module),
                    start_block: 0,
                },
            )
        }
    }

    /// An executor is in place: the request is served, unless it is the one
    /// that starts the registered indices, which goes on with the next.
    pub open spec fn finish(self, registry: bool) -> (ServiceView, ServiceAction) {
        if registry {
            self.advance()
        } else {
            (ServiceView { pending: Pending::Idle, ..self }, ServiceAction::Completed)
        }
    }

    /// The executor that was started takes the place of its index among the
    /// live ones; one that it replaces there is cancelled, now that the new one
    /// runs.
    pub open spec fn enlist(
        self,
        namespace: String,
        identifier: String,
        executor: u64,
        registry: bool,
    ) -> (ServiceView, ServiceAction) {
        let uid = uid_text(namespace@, identifier@);
        let enlisted = ServiceView { live: self.live.insert(uid, executor), ..self };
        if self.live.contains_key(uid) {
            (
                ServiceView { pending: Pending::Finishing { registry }, ..enlisted },
                ServiceAction::Cancel { executor: self.live[uid] },
            )
        } else {
            enlisted.finish(registry)
        }
    }

    /// Serves a request of the service channel when none is being served.
    pub open spec fn accept(self, request: ServiceRequest) -> (ServiceView, ServiceAction) {
        match request {
            ServiceRequest::AssetReload(reload) => (
                ServiceView { pending: Pending::LoadingAssets, ..self },
                ServiceAction::LoadAssets {
                    namespace: reload.namespace,
                    identifier: reload.identifier,
                },
            ),
            ServiceRequest::IndexStop(stop) => {
                let uid = uid_text(stop.namespace@, stop.identifier@);
                if self.live.contains_key(uid) {
                    (
                        ServiceView {
                            live: self.live.remove(uid),
                            pending: Pending::Finishing { registry: false },
                            ..self
                        },
                        ServiceAction::Cancel { executor: self.live[uid] },
                    )
                } else {
                    (
                        self,
                        ServiceAction::Unknown {
                            namespace: stop.namespace,
                            identifier: stop.identifier,
                        },
                    )
                }
            },
            ServiceRequest::IndexRevert(revert) => (
                ServiceView { pending: Pending::RemovingAsset { request: revert }, ..self },
                ServiceAction::RemoveLatestModule { asset_id: revert.penultimate_asset_id },
            ),
        }
    }

    /// The newest module is gone for good: the executor that ran it, if the
    /// index is live, is cancelled, and then one for the module before it is
    /// started.
    pub open spec fn retire(self, manifest: Manifest, request: IndexRevertRequest) -> (
        ServiceView,
        ServiceAction,
    ) {
        let uid = uid_text(request.namespace@, request.identifier@);
        if self.live.contains_key(uid) {
            (
                ServiceView {
                    live: self.live.remove(uid),
                    pending: Pending::Retiring { manifest, module: request.penultimate_asset_bytes },
                    ..self
                },
                ServiceAction::Cancel { executor: self.live[uid] },
            )
        } else {
            self.launch(
                Launch {
                    kind: LaunchKind::Revert,
                    manifest,
                    source: ExecutorSource::Registry(request.penultimate_asset_bytes),
                    start_block: 0,
                },
            )
        }
    }

    /// The height was read, or could not be.
    pub open spec fn place(self, plan: Launch, height: Result<Option<u64>, IndexerError>) -> (
        ServiceView,
        ServiceAction,
    ) {
        match height {
            Ok(last) => {
                let start = start_block_of(plan.manifest, last);
                if start <= u64::MAX {
                    self.proceed(Launch { start_block: start as u64, ..plan })
                } else if lenient(plan.kind) {
                    self.proceed(Launch { start_block: 1, ..plan })
                } else {
                    self.rejected(IndexerError::HeightOverflow)
                }
            },
            Err(error) => if lenient(plan.kind) {
                self.proceed(Launch { start_block: 1, ..plan })
            } else {
                self.rejected(error)
            },
        }
    }

    /// What the supervisor is after `event` and what it wants done.
    pub open spec fn next(self, event: ServiceEvent) -> (ServiceView, ServiceAction) {
        match self.pending {
            Pending::Idle => match event {
                ServiceEvent::Register(manifest) => if manifest.native() {
                    self.rejected(IndexerError::Configuration)
                } else {
                    (
                        ServiceView {
                            pending: Pending::CreatingIndex { manifest, native: false },
                            ..self
                        },
                        ServiceAction::CreateIndex {
                            namespace: manifest.namespace,
                            identifier: manifest.identifier,
                            graphql_schema: manifest.graphql_schema,
                        },
                    )
                },
                ServiceEvent::RegisterNative(manifest) => (
                    ServiceView {
                        pending: Pending::CreatingIndex { manifest, native: true },
                        ..self
                    },
                    ServiceAction::CreateIndex {
                        namespace: manifest.namespace,
                        identifier: manifest.identifier,
                        graphql_schema: manifest.graphql_schema,
                    },
                ),
                ServiceEvent::LoadRegistry => (
                    ServiceView { pending: Pending::ListingRegistry, ..self },
                    ServiceAction::ListRegistry,
                ),
                ServiceEvent::Request(request) => self.accept(request),
                _ => self.ignored(),
            },
            Pending::CreatingIndex { manifest, native } => match event {
                ServiceEvent::Done => self.launch(
                    Launch {
                        kind: if native {
                            LaunchKind::Native
                        } else {
                            LaunchKind::Register
                        },
                        manifest,
                        source: if native {
                            ExecutorSource::Native
                        } else {
                            ExecutorSource::Manifest
                        },
                        start_block: 0,
                    },
                ),
                ServiceEvent::Failed(error) => self.rejected(error),
                _ => self.ignored(),
            },
            Pending::ReadingHeight { plan } => match event {
                ServiceEvent::Height(last) => self.place(plan, Ok(last)),
                ServiceEvent::Failed(error) => self.place(plan, Err(error)),
                _ => self.ignored(),
            },
            Pending::StoringAsset { plan, kind } => match event {
                ServiceEvent::Done => match kind {
                    AssetKind::Schema => self.store(plan, AssetKind::Manifest),
                    AssetKind::Manifest => self.store(plan, AssetKind::Module),
                    AssetKind::Module => self.spawn(plan),
                },
                ServiceEvent::Failed(error) => self.rejected(error),
                _ => self.ignored(),
            },
            Pending::Spawning { namespace, identifier, executor, registry } => match event {
                ServiceEvent::Done => self.enlist(namespace, identifier, executor, registry),
                ServiceEvent::Failed(error) => self.rejected(error),
                _ => self.ignored(),
            },
            Pending::Finishing { registry } => match event {
                ServiceEvent::Done => self.finish(registry),
                ServiceEvent::Failed(error) => self.rejected(error),
                _ => self.ignored(),
            },
            Pending::ListingRegistry => match event {
                ServiceEvent::Registry(indices) => ServiceView { queue: indices@, ..self }.advance(),
                ServiceEvent::Failed(error) => self.rejected(error),
                _ => self.ignored(),
            },
            Pending::LoadingAssets => match event {
                ServiceEvent::Assets(assets) => self.launch(
                    Launch {
                        kind: LaunchKind::Reload,
                        manifest: assets.manifest,
                        source: ExecutorSource::Registry(assets.module),
                        start_block: 0,
                    },
                ),
                ServiceEvent::Failed(error) => self.rejected(error),
                _ => self.ignored(),
            },
            Pending::RemovingAsset { request } => match event {
                ServiceEvent::Assets(assets) => (
                    ServiceView {
                        pending: Pending::Committing { manifest: assets.manifest, request },
                        ..self
                    },
                    ServiceAction::Commit,
                ),
                ServiceEvent::Failed(error) => (
                    ServiceView { pending: Pending::Aborting { error }, ..self },
                    ServiceAction::Rollback,
                ),
                _ => self.ignored(),
            },
            Pending::Committing { manifest, request } => match event {
                ServiceEvent::Done => self.retire(manifest, request),
                ServiceEvent::Failed(error) => self.rejected(error),
                _ => self.ignored(),
            },
            Pending::Aborting { error } => match event {
                ServiceEvent::Done => self.rejected(error),
                ServiceEvent::Failed(_) => self.rejected(error),
                _ => self.ignored(),
            },
            Pending::Retiring { manifest, module } => match event {
                ServiceEvent::Done => self.launch(
                    Launch {
                        kind: LaunchKind::Revert,
                        manifest,
                        source: ExecutorSource::Registry(module),
                        start_block: 0,
                    },
                ),
                ServiceEvent::Failed(error) => self.rejected(error),
                _ => self.ignored(),
            },
        }
    }

    /// The supervisor after a run of events, and what it wanted done after each.
    pub open spec fn run(self, events: Seq<ServiceEvent>) -> (ServiceView, Seq<ServiceAction>)
        decreases events.len(),
    {
        if events.len() == 0 {
            (self, Seq::empty())
        } else {
            let before = self.run(events.drop_last());
            let step = before.0.next(events.last());
            (step.0, before.1.push(step.1))
        }
    }
}

/// A supervisor stays well formed when its live indexers stay, or some leave,
/// and no executor is being started.
pub proof fn lemma_wf_kept(before: ServiceView, after: ServiceView)
    requires
        before.wf(),
        after.live.submap_of(before.live),
        after.next_executor >= before.next_executor,
        !(after.pending is Spawning),
    ensures
        after.wf(),
{
    assert forall|uid: Seq<char>| #[trigger] after.live.contains_key(uid) implies after.live[uid]
        < after.next_executor by {
        assert(before.live.contains_key(uid));
    }
    assert forall|a: Seq<char>, b: Seq<char>|
        #![trigger after.live[a], after.live[b]]
        after.live.contains_key(a) && after.live.contains_key(b) && a != b implies after.live[a]
        != after.live[b] by {
        assert(before.live.contains_key(a) && before.live.contains_key(b));
        assert(before.live[a] != before.live[b]);
    }
}

/// A supervisor stays well formed when it gives the next identifier to the
/// executor that it has started.
pub proof fn lemma_wf_spawning(before: ServiceView, after: ServiceView)
    requires
        before.wf(),
        after.live == before.live,
        before.next_executor < u64::MAX,
        after.next_executor == before.next_executor + 1,
        after.pending matches Pending::Spawning { executor, .. } && executor
            == before.next_executor,
    ensures
        after.wf(),
{
    assert forall|uid: Seq<char>| #[trigger] after.live.contains_key(uid) implies after.live[uid]
        < after.next_executor && after.live[uid] != before.next_executor by {
        assert(before.live.contains_key(uid));
    }
    assert forall|a: Seq<char>, b: Seq<char>|
        #![trigger after.live[a], after.live[b]]
        after.live.contains_key(a) && after.live.contains_key(b) && a != b implies after.live[a]
        != after.live[b] by {
        assert(before.live.contains_key(a) && before.live.contains_key(b));
        assert(before.live[a] != before.live[b]);
    }
}

/// A supervisor stays well formed when the executor that was being started
/// takes the place of its index among the live ones.
pub proof fn lemma_wf_enlisted(before: ServiceView, after: ServiceView, uid: Seq<char>)
    requires
        before.wf(),
        before.pending matches Pending::Spawning { executor, .. } && after.live
            == before.live.insert(uid, executor),
        after.next_executor == before.next_executor,
        !(after.pending is Spawning),
    ensures
        after.wf(),
{
    let executor = before.pending->executor;
    assert forall|other: Seq<char>| #[trigger] after.live.contains_key(other) implies after.live[other]
        < after.next_executor by {
        if other != uid {
            assert(before.live.contains_key(other));
        }
    }
    assert forall|a: Seq<char>, b: Seq<char>|
        #![trigger after.live[a], after.live[b]]
        after.live.contains_key(a) && after.live.contains_key(b) && a != b implies after.live[a]
        != after.live[b] by {
        if a != uid {
            assert(before.live.contains_key(a));
        }
        if b != uid {
            assert(before.live.contains_key(b));
        }
        if a != uid && b != uid {
            assert(before.live[a] != before.live[b]);
        }
    }
}

} // verus!
