//! The label selector that finds the pods of a stateful set's current
//! revision.

use crate::workload::StatefulSet;
use vstd::prelude::*;

verus! {

/// The key of the label under which each pod of a stateful set carries the
/// revision it was made from.
pub open spec fn revision_hash_key() -> Seq<char> {
    "controller-revision-hash"@
}

/// The constant `k8s_openapi_ext::label::CONTROLLER_REVISION_HASH_LABEL_KEY`.
/// Taken on trust: it is the text `controller-revision-hash`.
#[verifier::external_body]
fn revision_hash_label_key() -> (key: &'static str)
    ensures
        key@ == revision_hash_key(),
{
    k8s_openapi_ext::label::CONTROLLER_REVISION_HASH_LABEL_KEY
}

/// The selector that asks for the pods of the given revision: the revision
/// label's key, an equals sign, and the revision.
pub open spec fn revision_selector(revision: Seq<char>) -> Seq<char> {
    revision_hash_key() + "="@ + revision
}

/// The selector for the pods of the stateful set's current revision. A
/// stateful set that has no current revision yet has no selector.
pub fn current_revision_selector(stateful_set: &StatefulSet) -> (selector: Option<String>)
    ensures
        match stateful_set.current_revision {
            Some(revision) => selector matches Some(text) && text@ == revision_selector(revision@),
            None => selector is None,
        },
{
    match &stateful_set.current_revision {
        Some(revision) => {
            let mut selector = String::from_str(revision_hash_label_key());
            selector.append("=");
            selector.append(revision.as_str());
            Some(selector)
        },
        None => None,
    }
}

} // verus!
