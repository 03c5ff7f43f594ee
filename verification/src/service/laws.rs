//! What holds of the supervisor whatever it is told.

use crate::error::IndexerError;
use crate::manifest::uid_text;
use crate::service::model::{lemma_wf_enlisted, lemma_wf_kept, lemma_wf_spawning, ServiceView};
use crate::service::{
    AssetKind, IndexStopRequest, Launch, Pending, ServiceAction, ServiceEvent, ServiceRequest,
};
use vstd::prelude::*;

verus! {

/// The executors of the live indexers.
pub open spec fn executors(live: Map<Seq<char>, u64>) -> Set<u64> {
    Set::new(|executor: u64| exists|uid: Seq<char>| serves(live, uid, executor))
}

/// Whether `executor` is the executor of the live indexer named `uid`.
pub open spec fn serves(live: Map<Seq<char>, u64>, uid: Seq<char>, executor: u64) -> bool {
    live.contains_key(uid) && live[uid] == executor
}

/// The executors that run once the supervisor has answered `event`, which it
/// was handed as `before`, with `action`, and the action has been carried out.
/// An executor runs from the moment the supervisor is told that it was started
/// until its cancellation flag is set.
pub open spec fn running_after(
    running: Set<u64>,
    before: ServiceView,
    event: ServiceEvent,
    action: ServiceAction,
) -> Set<u64> {
    let started = if before.pending is Spawning && event is Done {
        running.insert(before.pending->executor)
    } else {
        running
    };
    if action is Cancel {
        started.remove(action->Cancel_executor)
    } else {
        started
    }
}

/// The executors that run after a whole run of events.
pub open spec fn running_over(start: ServiceView, running: Set<u64>, events: Seq<ServiceEvent>) -> Set<
    u64,
>
    decreases events.len(),
{
    if events.len() == 0 {
        running
    } else {
        let before = start.run(events.drop_last()).0;
        running_after(
            running_over(start, running, events.drop_last()),
            before,
            events.last(),
            before.next(events.last()).1,
        )
    }
}

/// The supervisor stays well formed, whatever it is told.
pub proof fn lemma_next_keeps_wf(s: ServiceView, event: ServiceEvent)
    requires
        s.wf(),
    ensures
        s.next(event).0.wf(),
{
    let t = s.next(event).0;
    if s.pending is Spawning && event is Done {
        let uid = uid_text(s.pending->namespace@, s.pending->identifier@);
        if t.pending is Spawning {
            lemma_enlisted_live(s, uid);
        } else {
            lemma_wf_enlisted(s, t, uid);
        }
    } else if t.pending is Spawning && !(s.pending is Spawning) {
        lemma_wf_spawning(s, t);
    } else if !(t.pending is Spawning) {
        assert(t.live.submap_of(s.live));
        lemma_wf_kept(s, t);
    }
}

/// After the executor that was being started has taken its place, every live
/// indexer still has an executor with an identifier that was given out.
proof fn lemma_enlisted_live(s: ServiceView, uid: Seq<char>)
    requires
        s.wf(),
        s.pending is Spawning,
    ensures
        ({
            let live = s.live.insert(uid, s.pending->executor);
            &&& forall|other: Seq<char>| #[trigger]
                live.contains_key(other) ==> live[other] < s.next_executor
            &&& forall|a: Seq<char>, b: Seq<char>|
                #![trigger live[a], live[b]]
                live.contains_key(a) && live.contains_key(b) && a != b ==> live[a] != live[b]
        }),
{
    let live = s.live.insert(uid, s.pending->executor);
    assert forall|other: Seq<char>| #[trigger] live.contains_key(other) implies live[other]
        < s.next_executor by {
        if other != uid {
            assert(s.live.contains_key(other));
        }
    }
    assert forall|a: Seq<char>, b: Seq<char>|
        #![trigger live[a], live[b]]
        live.contains_key(a) && live.contains_key(b) && a != b implies live[a] != live[b] by {
        if a != uid {
            assert(s.live.contains_key(a));
        }
        if b != uid {
            assert(s.live.contains_key(b));
        }
        if a != uid && b != uid {
            assert(s.live[a] != s.live[b]);
        }
    }
}

/// Taking the indexer named `uid` out of the live ones takes its executor,
/// and no other, out of their executors.
proof fn lemma_executors_remove(s: ServiceView, uid: Seq<char>)
    requires
        s.wf(),
        s.live.contains_key(uid),
    ensures
        executors(s.live.remove(uid)) == executors(s.live).remove(s.live[uid]),
{
    let after = s.live.remove(uid);
    let gone = s.live[uid];
    assert forall|executor: u64| executors(after).contains(executor) <==> executors(s.live).remove(
        gone,
    ).contains(executor) by {
        if executors(after).contains(executor) {
            let other = choose|other: Seq<char>| serves(after, other, executor);
            assert(serves(s.live, other, executor));
            assert(s.live[other] != s.live[uid]);
        }
        if executors(s.live).remove(gone).contains(executor) {
            let other = choose|other: Seq<char>| serves(s.live, other, executor);
            assert(serves(after, other, executor));
        }
    }
    assert(executors(after) =~= executors(s.live).remove(gone));
}

/// Giving the indexer named `uid` the executor that was being started adds
/// that executor to those of the live indexers and takes out the one it
/// replaces, if there is one.
proof fn lemma_executors_insert(s: ServiceView, uid: Seq<char>)
    requires
        s.wf(),
        s.pending is Spawning,
    ensures
        executors(s.live.insert(uid, s.pending->executor)) == (if s.live.contains_key(uid) {
            executors(s.live).insert(s.pending->executor).remove(s.live[uid])
        } else {
            executors(s.live).insert(s.pending->executor)
        }),
{
    let fresh = s.pending->executor;
    let after = s.live.insert(uid, fresh);
    let want = if s.live.contains_key(uid) {
        executors(s.live).insert(fresh).remove(s.live[uid])
    } else {
        executors(s.live).insert(fresh)
    };
    assert forall|executor: u64| executors(after).contains(executor) <==> want.contains(
        executor,
    ) by {
        if executors(after).contains(executor) {
            let other = choose|other: Seq<char>| serves(after, other, executor);
            if other != uid {
                assert(serves(s.live, other, executor));
                if s.live.contains_key(uid) {
                    assert(s.live[other] != s.live[uid]);
                }
            }
        }
        if want.contains(executor) {
            if executor == fresh {
                assert(serves(after, uid, executor));
            } else {
                let other = choose|other: Seq<char>| serves(s.live, other, executor);
                assert(serves(after, other, executor));
            }
        }
    }
    assert(executors(after) =~= want);
}

/// For every live indexer exactly one executor runs: if the executors that
/// run are those of the live indexers, one each, they are so again after
/// whatever the supervisor is told and has done.
pub proof fn lemma_one_executor_per_live_indexer(
    s: ServiceView,
    running: Set<u64>,
    event: ServiceEvent,
)
    requires
        s.wf(),
        running == executors(s.live),
    ensures
        s.next(event).0.wf(),
        running_after(running, s, event, s.next(event).1) == executors(s.next(event).0.live),
{
    lemma_next_keeps_wf(s, event);
    let (t, action) = s.next(event);
    if s.pending is Spawning && event is Done {
        let uid = uid_text(s.pending->namespace@, s.pending->identifier@);
        lemma_executors_insert(s, uid);
        assert(t.live == s.live.insert(uid, s.pending->executor));
        if s.live.contains_key(uid) {
            assert(action == ServiceAction::Cancel { executor: s.live[uid] });
        } else {
            assert(!(action is Cancel));
        }
    } else if action is Cancel {
        let uid = choose|uid: Seq<char>|
            s.live.contains_key(uid) && t.live == s.live.remove(uid) && action
                == (ServiceAction::Cancel { executor: s.live[uid] });
        match s.pending {
            Pending::Idle => {
                let stop = event->Request_0->IndexStop_0;
                let named = uid_text(stop.namespace@, stop.identifier@);
                assert(s.live.contains_key(named) && t.live == s.live.remove(named));
            },
            Pending::Committing { manifest, request } => {
                let named = uid_text(request.namespace@, request.identifier@);
                assert(s.live.contains_key(named) && t.live == s.live.remove(named));
            },
            _ => {},
        }
        lemma_executors_remove(s, uid);
    } else {
        assert(t.live == s.live);
    }
}

/// After any run of events the executors that run are those of the live
/// indexers, one each, when they were so at its start.
pub proof fn lemma_one_executor_per_live_indexer_over(
    start: ServiceView,
    running: Set<u64>,
    events: Seq<ServiceEvent>,
)
    requires
        start.wf(),
        running == executors(start.live),
    ensures
        start.run(events).0.wf(),
        running_over(start, running, events) == executors(start.run(events).0.live),
    decreases events.len(),
{
    if events.len() > 0 {
        lemma_one_executor_per_live_indexer_over(start, running, events.drop_last());
        lemma_one_executor_per_live_indexer(
            start.run(events.drop_last()).0,
            running_over(start, running, events.drop_last()),
            events.last(),
        );
    }
}

/// No two live indexers share an executor.
pub proof fn lemma_executors_are_not_shared(s: ServiceView, a: Seq<char>, b: Seq<char>)
    requires
        s.wf(),
        s.live.contains_key(a),
        s.live.contains_key(b),
        a != b,
    ensures
        s.live[a] != s.live[b],
{
}

/// An executor gives way to another only when the other has been started
/// and already stands in its place among the live ones: while an executor is
/// being started, a cancellation is the answer to `Done` alone, and it names
/// the executor that served the index before.
pub proof fn lemma_new_is_live_before_old_is_cancelled(s: ServiceView, event: ServiceEvent)
    requires
        s.wf(),
        s.pending is Spawning,
        s.next(event).1 is Cancel,
    ensures
        event is Done,
        ({
            let uid = uid_text(s.pending->namespace@, s.pending->identifier@);
            &&& s.live.contains_key(uid)
            &&& s.next(event).1->Cancel_executor == s.live[uid]
            &&& s.next(event).0.live.contains_key(uid)
            &&& s.next(event).0.live[uid] == s.pending->executor
            &&& s.pending->executor != s.live[uid]
        }),
{
}

/// Until a reload has its executor started, the live indexers stay as they
/// are and nothing is cancelled; when the reload fails on the way, it is
/// rejected with the error.
pub proof fn lemma_reload_disturbs_nothing_before_start(s: ServiceView, event: ServiceEvent)
    requires
        s.pending is LoadingAssets || (s.pending matches Pending::ReadingHeight { plan }
            && plan.kind is Reload),
    ensures
        s.next(event).0.live == s.live,
        !(s.next(event).1 is Cancel),
        event matches ServiceEvent::Failed(error) ==> s.next(event).1 == ServiceAction::Rejected(
            error,
        ) && s.next(event).0.pending is Idle,
{
}

/// A reload whose executor could not be started is rejected and leaves the
/// live indexers as they are.
pub proof fn lemma_failed_start_disturbs_nothing(s: ServiceView, error: IndexerError)
    requires
        s.pending is Spawning,
    ensures
        s.next(ServiceEvent::Failed(error)).0.live == s.live,
        s.next(ServiceEvent::Failed(error)).1 == ServiceAction::Rejected(error),
        s.next(ServiceEvent::Failed(error)).0.pending is Idle,
{
}

/// A revert whose removal failed rolls the transaction back and is rejected
/// with the error of the removal: the live indexers stay as they are and no
/// executor is started or cancelled.
pub proof fn lemma_failed_revert_disturbs_nothing(
    s: ServiceView,
    error: IndexerError,
    answer: ServiceEvent,
)
    requires
        s.pending is RemovingAsset,
        answer is Done || answer is Failed,
    ensures
        ({
            let (rolling, first) = s.next(ServiceEvent::Failed(error));
            let (after, second) = rolling.next(answer);
            &&& first == ServiceAction::Rollback
            &&& second == ServiceAction::Rejected(error)
            &&& after.live == s.live
            &&& after.next_executor == s.next_executor
            &&& after.pending is Idle
        }),
{
}

/// Stopping an index that is not live changes nothing and is no error.
pub proof fn lemma_stop_unknown(s: ServiceView, stop: IndexStopRequest)
    requires
        s.pending is Idle,
        !s.live.contains_key(uid_text(stop.namespace@, stop.identifier@)),
    ensures
        s.next(ServiceEvent::Request(ServiceRequest::IndexStop(stop))) == (
            s,
            ServiceAction::Unknown { namespace: stop.namespace, identifier: stop.identifier },
        ),
{
}

/// Stopping an index twice is stopping it once: the first request takes the
/// index out of the live ones and has its executor cancelled, the second
/// finds it unknown and changes nothing.
pub proof fn lemma_stop_twice_is_stop_once(s: ServiceView, stop: IndexStopRequest)
    requires
        s.pending is Idle,
        s.live.contains_key(uid_text(stop.namespace@, stop.identifier@)),
    ensures
        ({
            let request = ServiceEvent::Request(ServiceRequest::IndexStop(stop));
            let uid = uid_text(stop.namespace@, stop.identifier@);
            let (stopping, first) = s.next(request);
            let (once, served) = stopping.next(ServiceEvent::Done);
            let (twice, second) = once.next(request);
            &&& first == ServiceAction::Cancel { executor: s.live[uid] }
            &&& served == ServiceAction::Completed
            &&& once == ServiceView { live: s.live.remove(uid), ..s }
            &&& second == ServiceAction::Unknown {
                namespace: stop.namespace,
                identifier: stop.identifier,
            }
            &&& twice == once
        }),
{
}

/// Whatever fits no request and answers nothing that was asked is ignored.
pub proof fn lemma_ignored_changes_nothing(s: ServiceView, event: ServiceEvent)
    requires
        s.next(event).1 is Ignored,
    ensures
        s.next(event).0 == s,
{
}

/// How many answers the start of the executor of `plan` may still take,
/// counted from the moment its start block is known.
pub open spec fn answers_to_start(plan: Launch) -> nat {
    if plan.kind is Register {
        5
    } else {
        2
    }
}

/// An upper bound on the answers that the request being served may still
/// take: none when no request is being served.
pub open spec fn answers_left(s: ServiceView) -> nat {
    match s.pending {
        Pending::Idle => 0,
        Pending::CreatingIndex { .. } => 7,
        Pending::ReadingHeight { plan } => if plan.kind is Registry {
            3 + 3 * s.queue.len()
        } else {
            1 + answers_to_start(plan)
        },
        Pending::StoringAsset { kind, .. } => match kind {
            AssetKind::Schema => 5,
            AssetKind::Manifest => 4,
            AssetKind::Module => 3,
        },
        Pending::Spawning { registry, .. } => if registry {
            2 + 3 * s.queue.len()
        } else {
            2
        },
        Pending::Finishing { registry } => if registry {
            1 + 3 * s.queue.len()
        } else {
            1
        },
        Pending::ListingRegistry => 1,
        Pending::LoadingAssets => 4,
        Pending::RemovingAsset { .. } => 6,
        Pending::Committing { .. } => 5,
        Pending::Aborting { .. } => 1,
        Pending::Retiring { .. } => 4,
    }
}

/// Assets are stored for registrations from a manifest and for nothing else.
pub open spec fn stores_for_registrations(s: ServiceView) -> bool {
    s.pending matches Pending::StoringAsset { plan, .. } ==> plan.kind is Register
}

/// From its start on the supervisor stores assets for registrations only.
pub proof fn lemma_stores_for_registrations(s: ServiceView, event: ServiceEvent)
    requires
        stores_for_registrations(s),
    ensures
        stores_for_registrations(s.next(event).0),
        forall|config: crate::service::IndexerConfig| #[trigger]
            stores_for_registrations(ServiceView::fresh(config)),
{
}

/// Every request is served in the end: each answer that the supervisor does
/// not ignore brings the request that is being served closer to its end, and
/// the list of the registry, once it has arrived, is worked off index by
/// index.
pub proof fn lemma_every_request_ends(s: ServiceView, event: ServiceEvent)
    requires
        stores_for_registrations(s),
        !(s.pending is Idle),
        !(s.next(event).1 is Ignored),
    ensures
        s.pending is ListingRegistry && event is Registry ==> answers_left(s.next(event).0) <= 3
            * event->Registry_0.len(),
        !(s.pending is ListingRegistry && event is Registry) ==> answers_left(s.next(event).0)
            < answers_left(s),
        answers_left(s.next(event).0) == 0 <==> s.next(event).0.pending is Idle,
{
}

/// The supervisor asks for something to be done exactly while a request is
/// being served: the answers that end a request are `Completed`, `Rejected`
/// and `Unknown`, and `Ignored` changes nothing.
pub proof fn lemma_requests_end_with_a_verdict(s: ServiceView, event: ServiceEvent)
    ensures
        ({
            let (t, action) = s.next(event);
            &&& action is Completed || action is Rejected ==> t.pending is Idle
            &&& action is Unknown ==> t == s && s.pending is Idle
            &&& action is Ignored ==> t == s
            &&& !(action is Completed || action is Rejected || action is Unknown || action
                is Ignored) ==> !(t.pending is Idle)
        }),
{
}

} // verus!
