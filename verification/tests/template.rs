use kube_client_ext::labels::Labels;
use kube_client_ext::template::{
    has_canonical_form, remove_hash, remove_hash_option, same_without_hash, PodTemplate,
    TemplateMetadata,
};

fn labels(entries: &[(&str, &str)]) -> Labels {
    let mut labels = Labels::new();
    for (key, value) in entries {
        labels.insert(key.to_string(), value.to_string());
    }
    labels
}

fn template(entries: Option<&[(&str, &str)]>, rest: &str, spec: &str) -> PodTemplate {
    PodTemplate {
        metadata: Some(TemplateMetadata { labels: entries.map(labels), rest: rest.to_string() }),
        spec: Some(spec.to_string()),
    }
}

#[test]
fn remove_hash_takes_out_the_generated_label() {
    let given = template(Some(&[("app", "web"), ("pod-template-hash", "5f8c")]), "", "nginx");
    let canonical = remove_hash(&given);
    let labels = canonical.metadata.as_ref().unwrap().labels.as_ref().unwrap();
    assert_eq!(labels.len(), 1);
    assert_eq!(labels.get("app"), Some(&"web".to_string()));
    assert_eq!(labels.get("pod-template-hash"), None);
    assert_eq!(canonical.spec, Some("nginx".to_string()));
    assert_eq!(canonical.metadata.as_ref().unwrap().rest, "");
}

#[test]
fn remove_hash_leaves_its_argument_alone() {
    let given = template(Some(&[("app", "web"), ("pod-template-hash", "5f8c")]), "", "nginx");
    let _ = remove_hash(&given);
    let labels = given.metadata.as_ref().unwrap().labels.as_ref().unwrap();
    assert_eq!(labels.len(), 2);
    assert_eq!(labels.get("pod-template-hash"), Some(&"5f8c".to_string()));
}

#[test]
fn remove_hash_without_the_label_copies() {
    let given = template(Some(&[("app", "web")]), "annotations", "nginx");
    let canonical = remove_hash(&given);
    assert!(canonical.same_as(&given));
}

#[test]
fn remove_hash_keeps_labels_with_similar_keys() {
    let given = template(
        Some(&[("pod-template-hash2", "x"), ("Pod-Template-Hash", "y"), ("pod-template-hash", "z")]),
        "",
        "nginx",
    );
    let canonical = remove_hash(&given);
    let labels = canonical.metadata.as_ref().unwrap().labels.as_ref().unwrap();
    assert_eq!(labels.len(), 2);
    assert_eq!(labels.get("pod-template-hash2"), Some(&"x".to_string()));
    assert_eq!(labels.get("Pod-Template-Hash"), Some(&"y".to_string()));
}

#[test]
fn remove_hash_without_labels_or_metadata() {
    let no_labels = template(None, "", "nginx");
    let canonical = remove_hash(&no_labels);
    assert!(canonical.metadata.as_ref().unwrap().labels.is_none());
    let bare = PodTemplate { metadata: None, spec: None };
    let canonical = remove_hash(&bare);
    assert!(canonical.metadata.is_none());
    assert!(canonical.spec.is_none());
}

#[test]
fn canonical_form_is_idempotent() {
    let given = template(Some(&[("app", "web"), ("pod-template-hash", "5f8c")]), "m", "nginx");
    let once = remove_hash(&given);
    let twice = remove_hash(&once);
    assert!(once.same_as(&twice));
}

#[test]
fn templates_that_differ_in_the_hash_value_have_one_canonical_form() {
    let a = template(Some(&[("app", "web"), ("pod-template-hash", "5f8c")]), "m", "nginx");
    let b = template(Some(&[("app", "web"), ("pod-template-hash", "77d1")]), "m", "nginx");
    assert!(!a.same_as(&b));
    assert!(remove_hash(&a).same_as(&remove_hash(&b)));
    assert!(same_without_hash(&Some(a), &Some(b)));
}

#[test]
fn templates_with_and_without_the_hash_have_one_canonical_form() {
    let a = template(Some(&[("app", "web"), ("pod-template-hash", "5f8c")]), "m", "nginx");
    let b = template(Some(&[("app", "web")]), "m", "nginx");
    assert!(same_without_hash(&Some(a), &Some(b)));
}

#[test]
fn templates_with_another_label_do_not_match() {
    let a = template(Some(&[("app", "web"), ("pod-template-hash", "5f8c")]), "m", "nginx");
    let b = template(Some(&[("app", "api"), ("pod-template-hash", "5f8c")]), "m", "nginx");
    assert!(!same_without_hash(&Some(a), &Some(b)));
}

#[test]
fn templates_with_another_spec_do_not_match() {
    let a = template(Some(&[("app", "web")]), "m", "nginx:1");
    let b = template(Some(&[("app", "web")]), "m", "nginx:2");
    assert!(!same_without_hash(&Some(a), &Some(b)));
}

#[test]
fn templates_with_other_metadata_do_not_match() {
    let a = template(Some(&[("app", "web")]), "m", "nginx");
    let b = template(Some(&[("app", "web")]), "n", "nginx");
    assert!(!same_without_hash(&Some(a), &Some(b)));
}

#[test]
fn an_emptied_label_set_is_not_an_absent_one() {
    let a = template(Some(&[("pod-template-hash", "5f8c")]), "", "nginx");
    let b = template(None, "", "nginx");
    assert!(!same_without_hash(&Some(a), &Some(b)));
}

#[test]
fn absent_templates_match_each_other_only() {
    let a = template(Some(&[("app", "web")]), "", "nginx");
    assert!(same_without_hash(&None, &None));
    assert!(!same_without_hash(&Some(a), &None));
    let a = template(Some(&[("app", "web")]), "", "nginx");
    assert!(!same_without_hash(&None, &Some(a)));
}

#[test]
fn has_canonical_form_compares_with_a_canonical_template() {
    let deployment = Some(template(Some(&[("app", "web")]), "", "nginx"));
    let wanted = remove_hash_option(&deployment);
    let same = Some(template(Some(&[("app", "web"), ("pod-template-hash", "1")]), "", "nginx"));
    let other = Some(template(Some(&[("app", "web"), ("pod-template-hash", "1")]), "", "httpd"));
    assert!(has_canonical_form(&same, &wanted));
    assert!(!has_canonical_form(&other, &wanted));
    assert!(!has_canonical_form(&None, &wanted));
    assert!(has_canonical_form(&None, &remove_hash_option(&None)));
}
