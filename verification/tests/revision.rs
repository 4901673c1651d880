use kube_client_ext::revision::current_revision_selector;
use kube_client_ext::workload::StatefulSet;

fn stateful_set(revision: Option<&str>) -> StatefulSet {
    StatefulSet {
        namespace: Some("ns1".to_string()),
        name: "db".to_string(),
        current_revision: revision.map(str::to_string),
    }
}

#[test]
fn selector_names_the_revision_label_and_the_revision() {
    let selector = current_revision_selector(&stateful_set(Some("db-5f8c")));
    assert_eq!(selector, Some("controller-revision-hash=db-5f8c".to_string()));
}

#[test]
fn selector_of_an_empty_revision() {
    let selector = current_revision_selector(&stateful_set(Some("")));
    assert_eq!(selector, Some("controller-revision-hash=".to_string()));
}

#[test]
fn no_revision_no_selector() {
    assert_eq!(current_revision_selector(&stateful_set(None)), None);
}
