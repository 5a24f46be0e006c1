//! Image references and pulling.

use kubelet::image::{normalize_image_name, split_image_reference};
use kubelet::pull::{
    pull_error, pull_policy, ImageAction, ImageEvent, ImagePhase, ImageReport,
};
use kubelet::runtime::ContainerRuntime;

fn runtime() -> ContainerRuntime {
    ContainerRuntime::new(
        "/volumes".to_string(),
        "10.96.0.10".to_string(),
        "cluster.local".to_string(),
        "rusternetes-network".to_string(),
        "10.96.0.1".to_string(),
        &None,
        false,
    )
}

#[test]
fn split_image_reference_defaults_tag_to_latest() {
    assert_eq!(split_image_reference("busybox"), ("busybox".to_string(), "latest".to_string()));
    assert_eq!(
        split_image_reference("docker.io/library/busybox"),
        ("docker.io/library/busybox".to_string(), "latest".to_string())
    );
}

#[test]
fn split_image_reference_preserves_explicit_tag() {
    assert_eq!(
        split_image_reference("nginx:stable-alpine"),
        ("nginx".to_string(), "stable-alpine".to_string())
    );
    assert_eq!(
        split_image_reference("registry.k8s.io/pause:3.10"),
        ("registry.k8s.io/pause".to_string(), "3.10".to_string())
    );
}

#[test]
fn split_image_reference_handles_registry_port() {
    assert_eq!(
        split_image_reference("localhost:5000/myimage"),
        ("localhost:5000/myimage".to_string(), "latest".to_string())
    );
    assert_eq!(
        split_image_reference("localhost:5000/myimage:v2"),
        ("localhost:5000/myimage".to_string(), "v2".to_string())
    );
}

#[test]
fn split_image_reference_handles_digest() {
    let (name, tag) = split_image_reference(
        "busybox@sha256:fd8d9aa63ba2f0982b5304e1ee8d3b90a210bc1ffb5314d980eb6962f1a9715d",
    );
    assert_eq!(name, "busybox");
    assert_eq!(tag, "sha256:fd8d9aa63ba2f0982b5304e1ee8d3b90a210bc1ffb5314d980eb6962f1a9715d");
}

#[test]
fn names_without_registry_get_the_default_one() {
    assert_eq!(normalize_image_name("nginx"), "docker.io/library/nginx");
    assert_eq!(normalize_image_name("nginx:1.25"), "docker.io/library/nginx:1.25");
    assert_eq!(normalize_image_name("bitnami/redis"), "docker.io/bitnami/redis");
    assert_eq!(normalize_image_name("docker.io/library/nginx"), "docker.io/library/nginx");
    assert_eq!(normalize_image_name("registry.k8s.io/pause:3.10"), "registry.k8s.io/pause:3.10");
    assert_eq!(normalize_image_name("localhost:5000/img"), "localhost:5000/img");
}

#[test]
fn an_image_that_is_there_is_remembered() {
    let mut rt = runtime();
    assert_eq!(rt.begin_image("nginx", &None), ImagePhase::Look);
    let s = rt.ensure_image("nginx", ImagePhase::Look, ImageEvent::Looked(true));
    assert_eq!(s.phase, ImagePhase::Decide(true));
    assert_eq!(s.report, None);
    assert_eq!(rt.image_cache, vec!["nginx", "docker.io/library/nginx"]);
    assert_eq!(rt.begin_image("nginx", &None), ImagePhase::Decide(true));
    assert_eq!(rt.begin_image("docker.io/library/nginx", &None), ImagePhase::Decide(true));
    assert_eq!(rt.begin_image("nginx", &Some("Always".to_string())), ImagePhase::Look);
    let _ = rt.ensure_image("nginx", ImagePhase::Look, ImageEvent::Looked(true));
    assert_eq!(rt.image_cache.len(), 2);
    let s = rt.ensure_image(
        "nginx",
        ImagePhase::Decide(true),
        ImageEvent::Decided(ImageAction::UseLocal),
    );
    assert_eq!(s.phase, ImagePhase::Local);
}

#[test]
fn a_failed_pull_is_tried_by_the_given_name() {
    let mut rt = runtime();
    let s = rt.ensure_image("nginx", ImagePhase::Look, ImageEvent::Looked(false));
    assert_eq!(s.phase, ImagePhase::Decide(false));
    assert!(rt.image_cache.is_empty());
    let s = rt.ensure_image("nginx", s.phase, ImageEvent::Decided(ImageAction::Pull));
    assert_eq!(s.phase, ImagePhase::PullFull);
    assert_eq!(s.report, Some(ImageReport::Pulling("Pulling image \"nginx\"".to_string())));
    let s = rt.ensure_image("nginx", s.phase, ImageEvent::Pulled(Some("no".to_string())));
    assert_eq!(s.phase, ImagePhase::PullGiven);
    assert_eq!(s.report, None);
    let s = rt.ensure_image("nginx", s.phase, ImageEvent::Pulled(Some("still no".to_string())));
    assert_eq!(s.phase, ImagePhase::Failed("still no".to_string()));
    assert_eq!(
        s.report,
        Some(ImageReport::FailedToPull("Failed to pull image \"nginx\": still no".to_string()))
    );
    assert!(rt.image_cache.is_empty());
}

#[test]
fn a_full_name_is_pulled_once() {
    let mut rt = runtime();
    let name = "registry.k8s.io/pause:3.10";
    let s = rt.ensure_image(name, ImagePhase::PullFull, ImageEvent::Pulled(Some("no".to_string())));
    assert_eq!(s.phase, ImagePhase::Failed("no".to_string()));
    let s = rt.ensure_image(name, ImagePhase::PullFull, ImageEvent::Pulled(None));
    assert_eq!(s.phase, ImagePhase::Pulled);
    assert_eq!(
        s.report,
        Some(ImageReport::Pulled(
            "Successfully pulled image \"registry.k8s.io/pause:3.10\"".to_string()
        ))
    );
    assert_eq!(rt.image_cache, vec![name]);
}

#[test]
fn an_image_that_must_not_be_pulled_is_refused() {
    let mut rt = runtime();
    let s = rt.ensure_image(
        "nginx",
        ImagePhase::Decide(false),
        ImageEvent::Decided(ImageAction::ErrImageNeverPull),
    );
    assert_eq!(s.phase, ImagePhase::NeverPulled);
    let same = rt.ensure_image("nginx", s.phase, ImageEvent::Looked(true));
    assert_eq!(same.phase, ImagePhase::NeverPulled);
}

#[test]
fn the_last_error_of_a_pull_counts() {
    assert_eq!(pull_error(&vec![]), None);
    assert_eq!(
        pull_error(&vec!["first".to_string(), "second".to_string()]),
        Some("Image pull failed: second".to_string())
    );
    assert_eq!(pull_policy(&None), "IfNotPresent");
    assert_eq!(pull_policy(&Some("Never".to_string())), "Never");
}
