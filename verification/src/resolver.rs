//! Resolving the pods of a workload, one remote read at a time.
//!
//! A resolution needs up to three reads from the object store, and what it
//! asks for next depends on what the last read brought. The resolver
//! decides and never reads: it hands out an `Action`, the caller performs
//! it and hands back the `Event` that came of it, until the action is
//! `Action::Finish`.

use crate::generation::{current_generation, select_current_generation};
use crate::revision::{current_revision_selector, revision_selector};
use crate::text::{copy_text, owned_text, str_view, text_view};
use crate::workload::{pod_of, Deployment, Pod, ReplicaSet, StatefulSet};
use vstd::prelude::*;

verus! {

/// Why a resolution ended without a result.
#[derive(Debug)]
pub enum Failure<E> {
    /// A read from the object store failed; the error is handed on as it
    /// came.
    Remote(E),
    /// The event does not answer the action that the resolver asked for.
    Unexpected,
}

/// What the resolver asks its caller to do next.
#[derive(Debug)]
pub enum Action<T, E> {
    /// Fetch the deployment of this name. `namespace` absent: the default
    /// namespace.
    GetDeployment { name: String, namespace: Option<String> },
    /// Fetch the stateful set of this name.
    GetStatefulSet { name: String, namespace: Option<String> },
    /// List the replica sets of the namespace.
    ListReplicaSets { namespace: Option<String> },
    /// List the pods of the namespace; with a selector, those that it
    /// selects.
    ListPods { namespace: Option<String>, selector: Option<String> },
    /// The resolution is over. `Ok(None)`: the workload does not exist, or
    /// has no current generation. `Ok(Some(pods))`: its pods.
    Finish(Result<Option<Vec<Pod<T>>>, Failure<E>>),
}

/// What an `Action` holds.
pub enum ActionView<T, E> {
    GetDeployment { name: Seq<char>, namespace: Option<Seq<char>> },
    GetStatefulSet { name: Seq<char>, namespace: Option<Seq<char>> },
    ListReplicaSets { namespace: Option<Seq<char>> },
    ListPods { namespace: Option<Seq<char>>, selector: Option<Seq<char>> },
    Finish(Result<Option<Seq<Pod<T>>>, Failure<E>>),
}

impl<T, E> View for Action<T, E> {
    type V = ActionView<T, E>;

    open spec fn view(&self) -> ActionView<T, E> {
        match *self {
            Action::GetDeployment { name, namespace } => ActionView::GetDeployment {
                name: name@,
                namespace: text_view(namespace),
            },
            Action::GetStatefulSet { name, namespace } => ActionView::GetStatefulSet {
                name: name@,
                namespace: text_view(namespace),
            },
            Action::ListReplicaSets { namespace } => ActionView::ListReplicaSets {
                namespace: text_view(namespace),
            },
            Action::ListPods { namespace, selector } => ActionView::ListPods {
                namespace: text_view(namespace),
                selector: text_view(selector),
            },
            Action::Finish(outcome) => ActionView::Finish(
                match outcome {
                    Ok(Some(pods)) => Ok(Some(pods@)),
                    Ok(None) => Ok(None),
                    Err(failure) => Err(failure),
                },
            ),
        }
    }
}

/// What a read from the object store brought.
#[derive(Debug)]
pub enum Event<T, E> {
    /// The deployment that was asked for; `None` where there is none of
    /// that name.
    Deployment(Option<Deployment>),
    /// The stateful set that was asked for; `None` where there is none of
    /// that name.
    StatefulSet(Option<StatefulSet>),
    /// The replica sets that were listed.
    ReplicaSets(Vec<ReplicaSet>),
    /// The pods that were listed.
    Pods(Vec<Pod<T>>),
    /// The read failed, for another reason than a missing object.
    Failed(E),
}

/// How far a resolution has come: what it waits for.
#[derive(Debug)]
pub enum Resolver {
    /// For the deployment that was asked for by name.
    AwaitDeployment,
    /// For the replica sets among which the deployment's current
    /// generation is to be found.
    AwaitReplicaSets { deployment: Deployment },
    /// For the pods, to pick those of the current generation.
    AwaitPodsOf { generation: ReplicaSet },
    /// For the stateful set that was asked for by name.
    AwaitStatefulSet,
    /// For the pods that carry the stateful set's current revision.
    AwaitRevisionPods,
    /// For nothing: the resolution is over.
    Finished,
}

/// With the deployment at hand, the resolver asks for the replica sets of
/// its namespace.
pub open spec fn after_deployment<T, E>(deployment: Deployment) -> (Resolver, ActionView<T, E>) {
    (
        Resolver::AwaitReplicaSets { deployment },
        ActionView::ListReplicaSets { namespace: text_view(deployment.namespace) },
    )
}

/// With the replica sets at hand, the resolver picks the current
/// generation and asks for the pods of the namespace. Without a current
/// generation the resolution ends with no result.
pub open spec fn after_replica_sets<T, E>(deployment: Deployment, candidates: Seq<ReplicaSet>) -> (
    Resolver,
    ActionView<T, E>,
) {
    match current_generation(deployment, candidates) {
        Some(i) => (
            Resolver::AwaitPodsOf { generation: candidates[i] },
            ActionView::ListPods { namespace: text_view(deployment.namespace), selector: None },
        ),
        None => (Resolver::Finished, ActionView::Finish(Ok(None))),
    }
}

/// With the stateful set at hand, the resolver asks for the pods that
/// carry its current revision. Without a current revision the resolution
/// ends with an empty set of pods, and nothing is read.
pub open spec fn after_stateful_set<T, E>(stateful_set: StatefulSet) -> (
    Resolver,
    ActionView<T, E>,
) {
    match stateful_set.current_revision {
        Some(revision) => (
            Resolver::AwaitRevisionPods,
            ActionView::ListPods {
                namespace: text_view(stateful_set.namespace),
                selector: Some(revision_selector(revision@)),
            },
        ),
        None => (Resolver::Finished, ActionView::Finish(Ok(Some(Seq::empty())))),
    }
}

/// The pods of the listing that the generation controls.
pub open spec fn controlled_pods<T>(generation: ReplicaSet, pods: Seq<Pod<T>>) -> Seq<Pod<T>> {
    pods.filter(|pod: Pod<T>| pod_of(pod, generation))
}

/// Every pod among `controlled_pods` is one of the listing, and is
/// controlled by the generation.
pub proof fn lemma_controlled_pods_belong<T>(generation: ReplicaSet, pods: Seq<Pod<T>>, i: int)
    requires
        0 <= i < controlled_pods(generation, pods).len(),
    ensures
        pods.contains(controlled_pods(generation, pods)[i]),
        pod_of(controlled_pods(generation, pods)[i], generation),
{
    let wanted = |pod: Pod<T>| pod_of(pod, generation);
    let owned = pods.filter(wanted);
    pods.lemma_filter_pred(wanted, i);
    assert(owned.contains(owned[i]));
    pods.lemma_filter_contains_rev(wanted, owned[i]);
}

/// Every pod of the listing that the generation controls is among
/// `controlled_pods`.
pub proof fn lemma_controlled_pods_complete<T>(generation: ReplicaSet, pods: Seq<Pod<T>>, i: int)
    requires
        0 <= i < pods.len(),
        pod_of(pods[i], generation),
    ensures
        controlled_pods(generation, pods).contains(pods[i]),
{
    let wanted = |pod: Pod<T>| pod_of(pod, generation);
    pods.lemma_filter_contains(wanted, i);
}

/// The resolver's next state and action, given its state and the event.
pub open spec fn next<T, E>(state: Resolver, event: Event<T, E>) -> (Resolver, ActionView<T, E>) {
    match (state, event) {
        (Resolver::Finished, _) => (Resolver::Finished, ActionView::Finish(Err(Failure::Unexpected))),
        (_, Event::Failed(error)) => (
            Resolver::Finished,
            ActionView::Finish(Err(Failure::Remote(error))),
        ),
        (Resolver::AwaitDeployment, Event::Deployment(None)) => (
            Resolver::Finished,
            ActionView::Finish(Ok(None)),
        ),
        (Resolver::AwaitDeployment, Event::Deployment(Some(deployment))) => after_deployment(
            deployment,
        ),
        (Resolver::AwaitReplicaSets { deployment }, Event::ReplicaSets(candidates)) => {
            after_replica_sets(deployment, candidates@)
        },
        (Resolver::AwaitPodsOf { generation }, Event::Pods(pods)) => (
            Resolver::Finished,
            ActionView::Finish(Ok(Some(controlled_pods(generation, pods@)))),
        ),
        (Resolver::AwaitStatefulSet, Event::StatefulSet(None)) => (
            Resolver::Finished,
            ActionView::Finish(Ok(None)),
        ),
        (Resolver::AwaitStatefulSet, Event::StatefulSet(Some(stateful_set))) => after_stateful_set(
            stateful_set,
        ),
        (Resolver::AwaitRevisionPods, Event::Pods(pods)) => (
            Resolver::Finished,
            ActionView::Finish(Ok(Some(pods@))),
        ),
        _ => (Resolver::Finished, ActionView::Finish(Err(Failure::Unexpected))),
    }
}

/// What the pods of a deployment are, given the replica sets and the pods
/// of its namespace: the pods that its current generation controls. A
/// deployment without a current generation has none to speak of.
pub open spec fn pods_of_deployment<T>(
    deployment: Deployment,
    replica_sets: Seq<ReplicaSet>,
    pods: Seq<Pod<T>>,
) -> Option<Seq<Pod<T>>> {
    match current_generation(deployment, replica_sets) {
        Some(i) => Some(controlled_pods(replica_sets[i], pods)),
        None => None,
    }
}

/// Resolving the pods of a deployment, where every read succeeds: the
/// resolver asks for the replica sets of the deployment's namespace and,
/// if one of them is the current generation, for the pods of that
/// namespace; it ends with `pods_of_deployment`. Without a current
/// generation it ends after the first read, and asks for no pods.
pub proof fn lemma_deployment_resolution<T, E>(
    deployment: Deployment,
    replica_sets: Vec<ReplicaSet>,
    pods: Vec<Pod<T>>,
)
    ensures
        ({
            let (waiting, first) = after_deployment::<T, E>(deployment);
            let (then, second) = next::<T, E>(waiting, Event::ReplicaSets(replica_sets));
            let namespace = text_view(deployment.namespace);
            &&& first == ActionView::<T, E>::ListReplicaSets { namespace }
            &&& match pods_of_deployment(deployment, replica_sets@, pods@) {
                Some(owned) => {
                    &&& second == ActionView::<T, E>::ListPods { namespace, selector: None }
                    &&& next::<T, E>(then, Event::Pods(pods)) == (
                        Resolver::Finished,
                        ActionView::<T, E>::Finish(Ok(Some(owned))),
                    )
                },
                None => {
                    &&& then == Resolver::Finished
                    &&& second == ActionView::<T, E>::Finish(Ok(None))
                },
            }
        }),
{
}

/// A deployment with no replica sets has no current generation, and its
/// resolution ends with no result.
pub proof fn lemma_no_replica_sets_no_result<T, E>(deployment: Deployment, replica_sets: Vec<ReplicaSet>)
    requires
        replica_sets.len() == 0,
    ensures
        next::<T, E>(
            after_deployment::<T, E>(deployment).0,
            Event::ReplicaSets(replica_sets),
        ) == (Resolver::Finished, ActionView::<T, E>::Finish(Ok(None))),
{
}

/// Resolving the pods of a stateful set, where the read succeeds: the
/// resolver asks for the pods that carry the current revision, and ends
/// with exactly the pods that the read brought. Without a current revision
/// it ends at once with an empty set of pods.
pub proof fn lemma_stateful_set_resolution<T, E>(stateful_set: StatefulSet, pods: Vec<Pod<T>>)
    ensures
        ({
            let (waiting, first) = after_stateful_set::<T, E>(stateful_set);
            match stateful_set.current_revision {
                Some(revision) => {
                    &&& first == ActionView::<T, E>::ListPods {
                        namespace: text_view(stateful_set.namespace),
                        selector: Some(revision_selector(revision@)),
                    }
                    &&& next::<T, E>(waiting, Event::Pods(pods)) == (
                        Resolver::Finished,
                        ActionView::<T, E>::Finish(Ok(Some(pods@))),
                    )
                },
                None => {
                    &&& waiting == Resolver::Finished
                    &&& first == ActionView::<T, E>::Finish(Ok(Some(Seq::empty())))
                },
            }
        }),
{
}

/// A workload that was asked for by name and does not exist: the
/// resolution ends with no result, and not with a failure.
pub proof fn lemma_missing_workload_no_result<T, E>()
    ensures
        next::<T, E>(Resolver::AwaitDeployment, Event::Deployment(None)) == (
            Resolver::Finished,
            ActionView::<T, E>::Finish(Ok(None)),
        ),
        next::<T, E>(Resolver::AwaitStatefulSet, Event::StatefulSet(None)) == (
            Resolver::Finished,
            ActionView::<T, E>::Finish(Ok(None)),
        ),
{
}

/// A read that fails ends the resolution, whatever it was waiting for, and
/// the error is handed on as it came.
pub proof fn lemma_failure_is_handed_on<T, E>(state: Resolver, error: E)
    requires
        state != Resolver::Finished,
    ensures
        next::<T, E>(state, Event::Failed(error)) == (
            Resolver::Finished,
            ActionView::<T, E>::Finish(Err(Failure::Remote(error))),
        ),
{
}

/// Of the listed pods, those that the generation controls, in the order of
/// the listing.
pub fn pods_controlled_by<T>(generation: &ReplicaSet, pods: Vec<Pod<T>>) -> (owned: Vec<Pod<T>>)
    ensures
        owned@ == controlled_pods(*generation, pods@),
{
    let ghost listed = pods@;
    let ghost wanted = |pod: Pod<T>| pod_of(pod, *generation);
    let mut owned: Vec<Pod<T>> = Vec::new();
    proof {
        reveal(Seq::filter);
        assert(listed.take(0).filter(wanted) =~= Seq::<Pod<T>>::empty());
    }
    for pod in it: pods
        invariant
            it.seq() == listed,
            owned@ == listed.take(it.index() as int).filter(wanted),
            wanted == |pod: Pod<T>| pod_of(pod, *generation),
    {
        proof {
            reveal(Seq::filter);
            assert(listed.take(it.index() + 1).drop_last() =~= listed.take(it.index() as int));
        }
        if pod.is_controlled_by(generation) {
            owned.push(pod);
        }
    }
    assert(listed.take(listed.len() as int) =~= listed);
    owned
}

fn with_deployment<T, E>(deployment: Deployment) -> (next: (Resolver, Action<T, E>))
    ensures
        next.0 == after_deployment::<T, E>(deployment).0,
        next.1@ == after_deployment::<T, E>(deployment).1,
{
    let namespace = copy_text(&deployment.namespace);
    (Resolver::AwaitReplicaSets { deployment }, Action::ListReplicaSets { namespace })
}

fn with_replica_sets<T, E>(deployment: Deployment, candidates: Vec<ReplicaSet>) -> (next: (
    Resolver,
    Action<T, E>,
))
    ensures
        next.0 == after_replica_sets::<T, E>(deployment, candidates@).0,
        next.1@ == after_replica_sets::<T, E>(deployment, candidates@).1,
{
    let mut candidates = candidates;
    match select_current_generation(&deployment, &candidates) {
        Some(i) => {
            let generation = candidates.swap_remove(i);
            let namespace = copy_text(&deployment.namespace);
            (Resolver::AwaitPodsOf { generation }, Action::ListPods { namespace, selector: None })
        },
        None => (Resolver::Finished, Action::Finish(Ok(None))),
    }
}

fn with_stateful_set<T, E>(stateful_set: &StatefulSet) -> (next: (Resolver, Action<T, E>))
    ensures
        next.0 == after_stateful_set::<T, E>(*stateful_set).0,
        next.1@ == after_stateful_set::<T, E>(*stateful_set).1,
{
    match current_revision_selector(stateful_set) {
        Some(selector) => {
            let namespace = copy_text(&stateful_set.namespace);
            (
                Resolver::AwaitRevisionPods,
                Action::ListPods { namespace, selector: Some(selector) },
            )
        },
        None => (Resolver::Finished, Action::Finish(Ok(Some(Vec::new())))),
    }
}

impl Resolver {
    /// Starts resolving the pods of the deployment of the given name.
    pub fn get_pods_by_deployment_name<T, E>(name: &str, namespace: Option<&str>) -> (start: (
        Resolver,
        Action<T, E>,
    ))
        ensures
            start.0 == Resolver::AwaitDeployment,
            start.1@ == (ActionView::<T, E>::GetDeployment {
                name: name@,
                namespace: str_view(namespace),
            }),
    {
        (
            Resolver::AwaitDeployment,
            Action::GetDeployment { name: String::from_str(name), namespace: owned_text(namespace) },
        )
    }

    /// Starts resolving the pods of the deployment.
    pub fn get_pods_by_deployment<T, E>(deployment: Deployment) -> (start: (Resolver, Action<T, E>))
        ensures
            start.0 == after_deployment::<T, E>(deployment).0,
            start.1@ == after_deployment::<T, E>(deployment).1,
    {
        with_deployment(deployment)
    }

    /// Starts resolving the pods of the stateful set of the given name.
    pub fn get_pods_by_statefulset_name<T, E>(name: &str, namespace: Option<&str>) -> (start: (
        Resolver,
        Action<T, E>,
    ))
        ensures
            start.0 == Resolver::AwaitStatefulSet,
            start.1@ == (ActionView::<T, E>::GetStatefulSet {
                name: name@,
                namespace: str_view(namespace),
            }),
    {
        (
            Resolver::AwaitStatefulSet,
            Action::GetStatefulSet {
                name: String::from_str(name),
                namespace: owned_text(namespace),
            },
        )
    }

    /// Starts resolving the pods of the stateful set.
    pub fn get_pod_by_statefulset<T, E>(stateful_set: &StatefulSet) -> (start: (
        Resolver,
        Action<T, E>,
    ))
        ensures
            start.0 == after_stateful_set::<T, E>(*stateful_set).0,
            start.1@ == after_stateful_set::<T, E>(*stateful_set).1,
    {
        with_stateful_set(stateful_set)
    }

    /// Takes the event that came of the last action, and says what to do
    /// next.
    pub fn step<T, E>(self, event: Event<T, E>) -> (next: (Resolver, Action<T, E>))
        ensures
            next.0 == self::next(self, event).0,
            next.1@ == self::next(self, event).1,
    {
        match (self, event) {
            (Resolver::Finished, _) => (Resolver::Finished, Action::Finish(Err(Failure::Unexpected))),
            (_, Event::Failed(error)) => (
                Resolver::Finished,
                Action::Finish(Err(Failure::Remote(error))),
            ),
            (Resolver::AwaitDeployment, Event::Deployment(None)) => (
                Resolver::Finished,
                Action::Finish(Ok(None)),
            ),
            (Resolver::AwaitDeployment, Event::Deployment(Some(deployment))) => with_deployment(
                deployment,
            ),
            (Resolver::AwaitReplicaSets { deployment }, Event::ReplicaSets(candidates)) => {
                with_replica_sets(deployment, candidates)
            },
            (Resolver::AwaitPodsOf { generation }, Event::Pods(pods)) => (
                Resolver::Finished,
                Action::Finish(Ok(Some(pods_controlled_by(&generation, pods)))),
            ),
            (Resolver::AwaitStatefulSet, Event::StatefulSet(None)) => (
                Resolver::Finished,
                Action::Finish(Ok(None)),
            ),
            (Resolver::AwaitStatefulSet, Event::StatefulSet(Some(stateful_set))) => {
                with_stateful_set(&stateful_set)
            },
            (Resolver::AwaitRevisionPods, Event::Pods(pods)) => (
                Resolver::Finished,
                Action::Finish(Ok(Some(pods))),
            ),
            _ => (Resolver::Finished, Action::Finish(Err(Failure::Unexpected))),
        }
    }
}

} // verus!
