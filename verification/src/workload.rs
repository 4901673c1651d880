//! The objects that a resolution reads: workloads, their generations, and
//! pods.

use crate::labels::Labels;
use crate::ownership::{controlled_by, is_controlled_by, OwnerReference};
use crate::template::{same_canonical, same_without_hash, template_view, PodTemplate};
use vstd::prelude::*;

verus! {

/// A deployment: a workload that manages its pods through generations.
#[derive(Debug)]
pub struct Deployment {
    pub namespace: Option<String>,
    pub name: String,
    pub template: Option<PodTemplate>,
}

/// A replica set: one generation of a deployment, tied to one revision of
/// the deployment's template.
#[derive(Debug)]
pub struct ReplicaSet {
    pub namespace: Option<String>,
    pub name: String,
    /// When the object was created, in nanoseconds since the Unix epoch.
    pub creation_timestamp: Option<i128>,
    pub owner_references: Vec<OwnerReference>,
    pub template: Option<PodTemplate>,
}

/// A stateful set: a workload that manages its pods directly and marks
/// them with the revision they were made from.
#[derive(Debug)]
pub struct StatefulSet {
    pub namespace: Option<String>,
    pub name: String,
    /// The revision that the pods are currently made from; absent until
    /// the stateful set has been reconciled for the first time.
    pub current_revision: Option<String>,
}

/// A pod. `source` is whatever the caller read the pod from; it is carried
/// along untouched.
#[derive(Debug)]
pub struct Pod<T> {
    pub namespace: Option<String>,
    pub name: String,
    pub owner_references: Vec<OwnerReference>,
    pub labels: Labels,
    pub source: T,
}

/// The kind under which owner references name a deployment.
pub open spec fn deployment_kind() -> Seq<char> {
    "Deployment"@
}

/// The kind under which owner references name a replica set.
pub open spec fn replica_set_kind() -> Seq<char> {
    "ReplicaSet"@
}

/// The replica set is controlled by the deployment.
pub open spec fn generation_of(candidate: ReplicaSet, deployment: Deployment) -> bool {
    controlled_by(candidate.owner_references@, deployment_kind(), deployment.name@)
}

/// The pod is controlled by the replica set.
pub open spec fn pod_of<T>(pod: Pod<T>, generation: ReplicaSet) -> bool {
    controlled_by(pod.owner_references@, replica_set_kind(), generation.name@)
}

/// The replica set's template and the deployment's have the same canonical
/// form.
pub open spec fn templates_match(candidate: ReplicaSet, deployment: Deployment) -> bool {
    same_canonical(template_view(candidate.template), template_view(deployment.template))
}

impl ReplicaSet {
    /// Whether the deployment controls this replica set.
    pub fn is_controlled_by(&self, deployment: &Deployment) -> (controlled: bool)
        ensures
            controlled == generation_of(*self, *deployment),
    {
        is_controlled_by(&self.owner_references, "Deployment", deployment.name.as_str())
    }
}

impl<T> Pod<T> {
    /// Whether the replica set controls this pod.
    pub fn is_controlled_by(&self, generation: &ReplicaSet) -> (controlled: bool)
        ensures
            controlled == pod_of(*self, *generation),
    {
        is_controlled_by(&self.owner_references, "ReplicaSet", generation.name.as_str())
    }
}

/// Whether the replica set's template is the deployment's, the generated
/// label apart.
pub fn match_template_spec_no_hash(candidate: &ReplicaSet, deployment: &Deployment) -> (same: bool)
    ensures
        same == templates_match(*candidate, *deployment),
{
    same_without_hash(&candidate.template, &deployment.template)
}

} // verus!
