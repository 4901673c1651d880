use kube_client_ext::generation::{
    controlled_candidates, select_current_generation, sort_by_creation,
};
use kube_client_ext::labels::Labels;
use kube_client_ext::ownership::OwnerReference;
use kube_client_ext::template::{PodTemplate, TemplateMetadata};
use kube_client_ext::workload::{match_template_spec_no_hash, Deployment, ReplicaSet};

fn template(image: &str, hash: Option<&str>) -> PodTemplate {
    let mut labels = Labels::new();
    labels.insert("app".to_string(), "web".to_string());
    if let Some(hash) = hash {
        labels.insert("pod-template-hash".to_string(), hash.to_string());
    }
    PodTemplate {
        metadata: Some(TemplateMetadata { labels: Some(labels), rest: String::new() }),
        spec: Some(image.to_string()),
    }
}

fn deployment(name: &str, image: &str) -> Deployment {
    Deployment {
        namespace: Some("ns1".to_string()),
        name: name.to_string(),
        template: Some(template(image, None)),
    }
}

fn replica_set(name: &str, owner: &str, created: Option<i128>, image: &str) -> ReplicaSet {
    ReplicaSet {
        namespace: Some("ns1".to_string()),
        name: name.to_string(),
        creation_timestamp: created,
        owner_references: vec![OwnerReference {
            kind: "Deployment".to_string(),
            name: owner.to_string(),
            controller: true,
        }],
        template: Some(template(image, Some(name))),
    }
}

#[test]
fn no_candidates_no_current_generation() {
    let web = deployment("web", "nginx:2");
    assert_eq!(select_current_generation(&web, &Vec::new()), None);
}

#[test]
fn the_candidate_with_the_deployments_template_is_current() {
    let web = deployment("web", "nginx:2");
    let candidates = vec![
        replica_set("web-1", "web", Some(1), "nginx:1"),
        replica_set("web-2", "web", Some(2), "nginx:2"),
        replica_set("web-3", "web", Some(3), "nginx:3"),
    ];
    assert_eq!(select_current_generation(&web, &candidates), Some(1));
}

#[test]
fn no_candidate_with_the_deployments_template() {
    let web = deployment("web", "nginx:9");
    let candidates = vec![
        replica_set("web-1", "web", Some(1), "nginx:1"),
        replica_set("web-2", "web", Some(2), "nginx:2"),
    ];
    assert_eq!(select_current_generation(&web, &candidates), None);
}

#[test]
fn of_several_matches_the_earliest_created_is_current() {
    let web = deployment("web", "nginx:2");
    let candidates = vec![
        replica_set("web-late", "web", Some(30), "nginx:2"),
        replica_set("web-other", "web", Some(5), "nginx:1"),
        replica_set("web-early", "web", Some(10), "nginx:2"),
        replica_set("web-middle", "web", Some(20), "nginx:2"),
    ];
    assert_eq!(select_current_generation(&web, &candidates), Some(2));
}

#[test]
fn matches_created_at_the_same_time_keep_the_order_of_the_listing() {
    let web = deployment("web", "nginx:2");
    let candidates = vec![
        replica_set("web-z", "web", Some(10), "nginx:2"),
        replica_set("web-a", "web", Some(10), "nginx:2"),
    ];
    assert_eq!(select_current_generation(&web, &candidates), Some(0));
}

#[test]
fn a_candidate_without_creation_time_comes_first() {
    let web = deployment("web", "nginx:2");
    let candidates = vec![
        replica_set("web-1", "web", Some(-5), "nginx:2"),
        replica_set("web-2", "web", None, "nginx:2"),
    ];
    assert_eq!(select_current_generation(&web, &candidates), Some(1));
}

#[test]
fn a_candidate_of_another_deployment_is_never_current() {
    let web = deployment("web", "nginx:2");
    let candidates = vec![
        replica_set("api-1", "api", Some(1), "nginx:2"),
        replica_set("web-1", "web", Some(2), "nginx:2"),
    ];
    assert_eq!(select_current_generation(&web, &candidates), Some(1));
    let only_other = vec![replica_set("api-1", "api", Some(1), "nginx:2")];
    assert_eq!(select_current_generation(&web, &only_other), None);
}

#[test]
fn a_candidate_that_is_owned_but_not_controlled_is_never_current() {
    let web = deployment("web", "nginx:2");
    let mut owned = replica_set("web-1", "web", Some(1), "nginx:2");
    owned.owner_references[0].controller = false;
    assert_eq!(select_current_generation(&web, &vec![owned]), None);
}

#[test]
fn the_generated_label_does_not_count_in_the_comparison() {
    let web = deployment("web", "nginx:2");
    let a = replica_set("web-1", "web", Some(1), "nginx:2");
    let b = replica_set("web-2", "web", Some(1), "nginx:1");
    assert!(match_template_spec_no_hash(&a, &web));
    assert!(!match_template_spec_no_hash(&b, &web));
}

#[test]
fn workloads_without_template_match_each_other() {
    let mut web = deployment("web", "nginx:2");
    web.template = None;
    let mut bare = replica_set("web-1", "web", Some(1), "nginx:2");
    bare.template = None;
    let full = replica_set("web-2", "web", Some(0), "nginx:2");
    assert!(match_template_spec_no_hash(&bare, &web));
    assert!(!match_template_spec_no_hash(&full, &web));
    assert_eq!(select_current_generation(&web, &vec![full, bare]), Some(1));
}

#[test]
fn controlled_candidates_keep_the_order_of_the_listing() {
    let web = deployment("web", "nginx:2");
    let candidates = vec![
        replica_set("web-1", "web", Some(3), "nginx:1"),
        replica_set("api-1", "api", Some(2), "nginx:1"),
        replica_set("web-2", "web", Some(1), "nginx:2"),
    ];
    assert_eq!(controlled_candidates(&web, &candidates), vec![0, 2]);
}

#[test]
fn sort_by_creation_is_stable() {
    let candidates = vec![
        replica_set("e", "web", Some(7), "x"),
        replica_set("d", "web", Some(3), "x"),
        replica_set("c", "web", None, "x"),
        replica_set("b", "web", Some(3), "x"),
        replica_set("a", "web", Some(-1), "x"),
        replica_set("f", "web", None, "x"),
    ];
    assert_eq!(sort_by_creation(&candidates, &vec![0, 1, 2, 3, 4, 5]), vec![2, 5, 4, 1, 3, 0]);
    assert_eq!(sort_by_creation(&candidates, &vec![0, 3, 4]), vec![4, 3, 0]);
    assert_eq!(sort_by_creation(&candidates, &Vec::new()), Vec::<usize>::new());
}
