//! Pod templates, and the canonical form under which two of them are
//! compared.

use crate::labels::Labels;
use crate::text::{copy_text, same_text, text_view};
use vstd::prelude::*;

verus! {

/// The metadata of a pod template: its labels, and everything else in one
/// piece.
#[derive(Debug)]
pub struct TemplateMetadata {
    /// The label set, where the metadata has one.
    pub labels: Option<Labels>,
    /// All other metadata in a canonical encoding: equal encodings stand
    /// for equal metadata.
    pub rest: String,
}

/// What a `TemplateMetadata` holds.
pub struct TemplateMetadataView {
    pub labels: Option<Map<Seq<char>, Seq<char>>>,
    pub rest: Seq<char>,
}

impl View for TemplateMetadata {
    type V = TemplateMetadataView;

    open spec fn view(&self) -> TemplateMetadataView {
        TemplateMetadataView {
            labels: match self.labels {
                Some(labels) => Some(labels@),
                None => None,
            },
            rest: self.rest@,
        }
    }
}

/// A pod template: metadata and the pod's specification.
#[derive(Debug)]
pub struct PodTemplate {
    pub metadata: Option<TemplateMetadata>,
    /// The pod's specification in a canonical encoding: equal encodings
    /// stand for equal specifications.
    pub spec: Option<String>,
}

/// What a `PodTemplate` holds.
pub struct PodTemplateView {
    pub metadata: Option<TemplateMetadataView>,
    pub spec: Option<Seq<char>>,
}

impl View for PodTemplate {
    type V = PodTemplateView;

    open spec fn view(&self) -> PodTemplateView {
        PodTemplateView {
            metadata: match self.metadata {
                Some(metadata) => Some(metadata@),
                None => None,
            },
            spec: text_view(self.spec),
        }
    }
}

/// What an optional template holds.
pub open spec fn template_view(template: Option<PodTemplate>) -> Option<PodTemplateView> {
    match template {
        Some(template) => Some(template@),
        None => None,
    }
}

/// The key of the label that a deployment stamps on the template of each
/// of its generations. Its value is generated, and says nothing about what
/// the template asks for.
pub open spec fn template_hash_key() -> Seq<char> {
    "pod-template-hash"@
}

/// The constant `k8s_openapi_ext::label::DEFAULT_DEPLOYMENT_UNIQUE_LABEL_KEY`.
/// Taken on trust: it is the text `pod-template-hash`.
#[verifier::external_body]
fn template_hash_label_key() -> (key: &'static str)
    ensures
        key@ == template_hash_key(),
{
    k8s_openapi_ext::label::DEFAULT_DEPLOYMENT_UNIQUE_LABEL_KEY
}

/// The canonical form of metadata: the same metadata without the generated
/// label. Metadata without a label set stays without one.
pub open spec fn canonical_metadata(metadata: TemplateMetadataView) -> TemplateMetadataView {
    TemplateMetadataView {
        labels: match metadata.labels {
            Some(labels) => Some(labels.remove(template_hash_key())),
            None => None,
        },
        rest: metadata.rest,
    }
}

/// The canonical form of a template: the same template without the
/// generated label in its metadata.
pub open spec fn canonical(template: PodTemplateView) -> PodTemplateView {
    PodTemplateView {
        metadata: match template.metadata {
            Some(metadata) => Some(canonical_metadata(metadata)),
            None => None,
        },
        spec: template.spec,
    }
}

/// The canonical form of an optional template.
pub open spec fn canonical_option(template: Option<PodTemplateView>) -> Option<PodTemplateView> {
    match template {
        Some(template) => Some(canonical(template)),
        None => None,
    }
}

/// Two optional templates ask for the same pods: both are absent, or both
/// are there and have the same canonical form.
pub open spec fn same_canonical(a: Option<PodTemplateView>, b: Option<PodTemplateView>) -> bool {
    canonical_option(a) == canonical_option(b)
}

impl TemplateMetadata {
    /// Whether the two hold the same metadata.
    pub fn same_as(&self, other: &TemplateMetadata) -> (same: bool)
        ensures
            same == (self@ == other@),
    {
        let same_labels = match (&self.labels, &other.labels) {
            (Some(a), Some(b)) => a.same_as(b),
            (None, None) => true,
            _ => false,
        };
        same_labels && self.rest == other.rest
    }
}

impl PodTemplate {
    /// Whether the two hold the same template.
    pub fn same_as(&self, other: &PodTemplate) -> (same: bool)
        ensures
            same == (self@ == other@),
    {
        let same_metadata = match (&self.metadata, &other.metadata) {
            (Some(a), Some(b)) => a.same_as(b),
            (None, None) => true,
            _ => false,
        };
        same_metadata && same_text(&self.spec, &other.spec)
    }
}

/// A copy of the template in canonical form: without the generated label.
/// The template itself is left as it is.
pub fn remove_hash(template: &PodTemplate) -> (copy: PodTemplate)
    ensures
        copy@ == canonical(template@),
{
    let metadata = match &template.metadata {
        Some(metadata) => {
            let labels = match &metadata.labels {
                Some(labels) => {
                    let mut labels = labels.duplicate();
                    labels.remove(template_hash_label_key());
                    Some(labels)
                },
                None => None,
            };
            Some(TemplateMetadata { labels, rest: metadata.rest.clone() })
        },
        None => None,
    };
    PodTemplate { metadata, spec: copy_text(&template.spec) }
}

/// The canonical form of an optional template, as a copy.
pub fn remove_hash_option(template: &Option<PodTemplate>) -> (copy: Option<PodTemplate>)
    ensures
        template_view(copy) == canonical_option(template_view(*template)),
{
    match template {
        Some(template) => Some(remove_hash(template)),
        None => None,
    }
}

/// Whether `wanted` is the canonical form of `template`.
pub fn has_canonical_form(template: &Option<PodTemplate>, wanted: &Option<PodTemplate>) -> (same:
    bool)
    ensures
        same == (canonical_option(template_view(*template)) == template_view(*wanted)),
{
    match (template, wanted) {
        (Some(template), Some(wanted)) => remove_hash(template).same_as(wanted),
        (None, None) => true,
        _ => false,
    }
}

/// Whether two optional templates have the same canonical form.
pub fn same_without_hash(a: &Option<PodTemplate>, b: &Option<PodTemplate>) -> (same: bool)
    ensures
        same == same_canonical(template_view(*a), template_view(*b)),
{
    match (a, b) {
        (Some(a), Some(b)) => {
            let a = remove_hash(a);
            let b = remove_hash(b);
            a.same_as(&b)
        },
        (None, None) => true,
        _ => false,
    }
}

/// Bringing a template in canonical form a second time changes nothing.
pub proof fn lemma_canonical_idempotent(template: PodTemplateView)
    ensures
        canonical(canonical(template)) == canonical(template),
{
    match template.metadata {
        Some(metadata) => {
            match metadata.labels {
                Some(labels) => {
                    let key = template_hash_key();
                    assert(labels.remove(key).remove(key) =~= labels.remove(key));
                },
                None => {},
            }
        },
        None => {},
    }
}

/// The two label sets agree on every key but the generated one.
pub open spec fn same_but_hash(a: Map<Seq<char>, Seq<char>>, b: Map<Seq<char>, Seq<char>>) -> bool {
    forall|key: Seq<char>|
        #![trigger a.contains_key(key)]
        #![trigger b.contains_key(key)]
        key != template_hash_key() ==> (a.contains_key(key) <==> b.contains_key(key)) && (
        a.contains_key(key) ==> a[key] == b[key])
}

/// The two templates differ at most in the generated label: its presence
/// or its value.
pub open spec fn differ_in_hash_only(a: PodTemplateView, b: PodTemplateView) -> bool {
    &&& a.spec == b.spec
    &&& match (a.metadata, b.metadata) {
        (Some(a), Some(b)) => a.rest == b.rest && match (a.labels, b.labels) {
            (Some(a), Some(b)) => same_but_hash(a, b),
            (None, None) => true,
            _ => false,
        },
        (None, None) => true,
        _ => false,
    }
}

/// Templates that differ at most in the generated label have the same
/// canonical form.
pub proof fn lemma_canonical_ignores_hash(a: PodTemplateView, b: PodTemplateView)
    requires
        differ_in_hash_only(a, b),
    ensures
        canonical(a) == canonical(b),
{
    match (a.metadata, b.metadata) {
        (Some(a), Some(b)) => {
            match (a.labels, b.labels) {
                (Some(a), Some(b)) => {
                    let key = template_hash_key();
                    assert forall|other: Seq<char>|
                        a.remove(key).contains_key(other) <==> b.remove(key).contains_key(
                            other,
                        ) by {
                        if other != key {
                            assert(a.contains_key(other) <==> b.contains_key(other));
                        }
                    }
                    assert(a.remove(key) =~= b.remove(key));
                },
                _ => {},
            }
        },
        _ => {},
    }
}

} // verus!
