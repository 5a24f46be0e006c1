//! Names of containers and hosts.

use kubelet::names::{
    canonical_container_name, compute_app_container_hostname, container_belongs_to_pod,
    hostname_can_be_cut, is_pause_container_name, pause_container_name, pod_container_name,
    truncate_pod_hostname,
};

#[test]
fn pod_ip_lookup_does_not_match_host_pod_by_substring() {
    assert!(is_pause_container_name("/test-container-pod_pause", "test-container-pod"));
    assert!(!is_pause_container_name("/host-test-container-pod_pause", "test-container-pod"));
    assert!(container_belongs_to_pod("/test-container-pod_webserver", "test-container-pod"));
    assert!(!container_belongs_to_pod("/host-test-container-pod_webserver", "test-container-pod"));
    assert!(is_pause_container_name("test-container-pod_pause", "test-container-pod"));
}

#[test]
fn test_pause_container_name_format() {
    let pod_name = "sonobuoy";
    let pause_name = pause_container_name(pod_name);
    assert_eq!(pause_name, "sonobuoy_pause");
    assert!(pause_name.starts_with(&format!("{}_", pod_name)));
}

#[test]
fn test_pause_container_name_format_various_pods() {
    for pod_name in &["web-0", "redis-0", "my-app-abc123", "kube-dns"] {
        let pause_name = pause_container_name(pod_name);
        assert!(pause_name.starts_with(&format!("{}_", pod_name)));
        assert!(pause_name.ends_with("_pause"));
    }
}

#[test]
fn test_pause_container_ip_is_pod_ip() {
    let pod_name = "web-0";
    let pause_name = pause_container_name(pod_name);
    assert!(container_belongs_to_pod(&pause_name, pod_name));
    assert!(container_belongs_to_pod(&pod_container_name(pod_name, "app"), pod_name));
    let filter_prefix = format!("{}_", pod_name);
    assert!(pause_name.starts_with(&filter_prefix));
    assert!(pod_container_name(pod_name, "app").starts_with(&filter_prefix));
}

#[test]
fn test_ephemeral_container_name_format() {
    assert_eq!(pod_container_name("debug-pod", "debugger"), "debug-pod_debugger");
}

#[test]
fn test_hostname_truncation_for_long_pod_names() {
    let long_name = "sample-webhook-deployment-1ea22597-ec36f15a-8ae5-4dc4-8f3b-1da2641cef30";
    assert!(long_name.len() > 63);
    let truncated = truncate_pod_hostname(long_name);
    assert!(truncated.len() <= 63);
    assert!(!truncated.ends_with('-'));

    assert_eq!(truncate_pod_hostname("web-0"), "web-0");

    let exact = "a".repeat(63);
    assert_eq!(truncate_pod_hostname(&exact).len(), 63);

    let dash_name = "abcdefghijklmnopqrstuvwxyz-abcdefghijklmnopqrstuvwxyz-1234567890-xyz";
    assert!(dash_name.len() > 63);
    let truncated = truncate_pod_hostname(dash_name);
    assert!(!truncated.ends_with('-'));
    assert!(truncated.len() <= 63);
}

#[test]
fn truncate_short_name_is_unchanged() {
    assert_eq!(truncate_pod_hostname("mypod"), "mypod");
}

#[test]
fn truncate_exact_63_is_unchanged() {
    let s = "a".repeat(63);
    assert_eq!(truncate_pod_hostname(&s), s);
}

#[test]
fn truncate_over_63_keeps_first_63() {
    let s = "a".repeat(100);
    let out = truncate_pod_hostname(&s);
    assert_eq!(out.len(), 63);
    assert!(out.chars().all(|c| c == 'a'));
}

#[test]
fn truncate_trims_trailing_dash_after_cut() {
    let mut s = "a".repeat(62);
    s.push('-');
    s.push_str(&"b".repeat(17));
    assert_eq!(truncate_pod_hostname(&s), "a".repeat(62));
}

#[test]
fn no_cni_no_netns_docker_24plus_returns_none() {
    assert_eq!(compute_app_container_hostname(false, false, false, "mypod", None), None);
}

#[test]
fn no_cni_no_netns_pre_docker24_shared_uts_returns_none() {
    assert_eq!(compute_app_container_hostname(false, false, true, "mypod", None), None);
}

#[test]
fn netns_path_present_returns_some_pod_name() {
    assert_eq!(
        compute_app_container_hostname(false, true, false, "mypod", None),
        Some("mypod".to_string()),
    );
}

#[test]
fn netns_path_present_with_shared_uts_supported_still_returns_some() {
    assert_eq!(
        compute_app_container_hostname(false, true, true, "mypod", None),
        Some("mypod".to_string()),
    );
}

#[test]
fn use_cni_no_netns_returns_some_pod_name() {
    assert_eq!(
        compute_app_container_hostname(true, false, false, "mypod", None),
        Some("mypod".to_string()),
    );
}

#[test]
fn use_cni_no_netns_with_shared_uts_capability_still_returns_some() {
    assert_eq!(
        compute_app_container_hostname(true, false, true, "mypod", None),
        Some("mypod".to_string()),
    );
}

#[test]
fn use_cni_and_netns_returns_some() {
    assert_eq!(
        compute_app_container_hostname(true, true, false, "mypod", None),
        Some("mypod".to_string()),
    );
}

#[test]
fn use_cni_and_netns_with_shared_uts_capability_returns_some() {
    assert_eq!(
        compute_app_container_hostname(true, true, true, "mypod", None),
        Some("mypod".to_string()),
    );
}

#[test]
fn pod_spec_hostname_overrides_metadata_name() {
    assert_eq!(
        compute_app_container_hostname(true, false, false, "mypod", Some("custom-host")),
        Some("custom-host".to_string()),
    );
}

#[test]
fn long_metadata_name_is_truncated_to_63() {
    let long = "a".repeat(80);
    let out = compute_app_container_hostname(true, false, false, &long, None);
    assert_eq!(out.as_deref().map(str::len), Some(63));
}

#[test]
fn long_pod_spec_hostname_is_truncated_to_63() {
    let long = "b".repeat(80);
    let out = compute_app_container_hostname(true, false, false, "mypod", Some(&long));
    assert_eq!(out.as_deref().map(str::len), Some(63));
    assert!(out.as_deref().unwrap().chars().all(|c| c == 'b'));
}

#[test]
fn no_cni_long_pod_name_still_returns_none() {
    let long = "a".repeat(80);
    assert_eq!(compute_app_container_hostname(false, false, false, &long, None), None);
}

#[test]
fn one_slash_is_taken_from_a_name() {
    assert_eq!(canonical_container_name("/web_app"), "web_app");
    assert_eq!(canonical_container_name("//web_app"), "/web_app");
    assert_eq!(canonical_container_name("web_app"), "web_app");
    assert_eq!(canonical_container_name(""), "");
}

#[test]
fn a_name_is_cut_only_between_characters() {
    assert!(hostname_can_be_cut("web-0"));
    assert!(hostname_can_be_cut(&"a".repeat(80)));
    let mut split = "a".repeat(62);
    split.push('\u{e9}');
    split.push_str("bbb");
    assert!(!hostname_can_be_cut(&split));
    let mut whole = "a".repeat(61);
    whole.push('\u{e9}');
    whole.push_str("bbb");
    assert!(hostname_can_be_cut(&whole));
}
