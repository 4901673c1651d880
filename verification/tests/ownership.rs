use kube_client_ext::ownership::{is_controlled_by, owner_of_kind, OwnerReference};

fn reference(kind: &str, name: &str, controller: bool) -> OwnerReference {
    OwnerReference { kind: kind.to_string(), name: name.to_string(), controller }
}

#[test]
fn controller_reference_of_same_kind_and_name_controls() {
    let references = vec![reference("ReplicaSet", "web-1", true)];
    assert!(is_controlled_by(&references, "ReplicaSet", "web-1"));
}

#[test]
fn reference_without_controller_flag_does_not_control() {
    let references = vec![reference("ReplicaSet", "web-1", false)];
    assert!(!is_controlled_by(&references, "ReplicaSet", "web-1"));
}

#[test]
fn kind_is_compared_exactly() {
    let references = vec![reference("replicaset", "web-1", true)];
    assert!(!is_controlled_by(&references, "ReplicaSet", "web-1"));
}

#[test]
fn name_is_compared_exactly() {
    let references = vec![reference("ReplicaSet", "web-10", true)];
    assert!(!is_controlled_by(&references, "ReplicaSet", "web-1"));
}

#[test]
fn no_reference_no_controller() {
    let references: Vec<OwnerReference> = Vec::new();
    assert!(!is_controlled_by(&references, "ReplicaSet", "web-1"));
}

#[test]
fn any_reference_of_the_set_may_control() {
    let references = vec![
        reference("ReplicaSet", "web-1", false),
        reference("Job", "web-1", true),
        reference("ReplicaSet", "web-1", true),
    ];
    assert!(is_controlled_by(&references, "ReplicaSet", "web-1"));
}

#[test]
fn owner_of_kind_is_the_first_of_that_kind() {
    let references = vec![
        reference("Job", "a", true),
        reference("ReplicaSet", "b", false),
        reference("ReplicaSet", "c", true),
    ];
    assert_eq!(owner_of_kind(&references, "ReplicaSet"), Some(&"b".to_string()));
    assert_eq!(owner_of_kind(&references, "Job"), Some(&"a".to_string()));
    assert_eq!(owner_of_kind(&references, "Deployment"), None);
}
