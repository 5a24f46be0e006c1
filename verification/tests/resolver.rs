//! Resolver files.

use kubelet::dns::{adjust_resolver_file, is_on_host_network, pod_namespace};
use kubelet::resources::{DnsConfig, DnsOption, ObjectMeta, Pod, PodSpec};
use kubelet::runtime::ContainerRuntime;

fn runtime() -> ContainerRuntime {
    ContainerRuntime::new(
        "/volumes".to_string(),
        "10.96.0.10".to_string(),
        "cluster.local".to_string(),
        "rusternetes-network".to_string(),
        "10.96.0.1".to_string(),
        &None,
        false,
    )
}

fn make_pod(name: &str, namespace: &str) -> Pod {
    Pod {
        metadata: ObjectMeta {
            name: name.to_string(),
            namespace: Some(namespace.to_string()),
            ..Default::default()
        },
        spec: Some(PodSpec::default()),
        status: None,
    }
}

fn pod_with(policy: &str, host_network: bool, config: Option<DnsConfig>) -> Pod {
    let mut pod = make_pod("p", "default");
    let spec = pod.spec.as_mut().unwrap();
    spec.dns_policy = Some(policy.to_string());
    spec.host_network = Some(host_network);
    spec.dns_config = config;
    pod
}

const CLUSTER: &str = "nameserver 10.96.0.10\nsearch default.svc.cluster.local svc.cluster.local cluster.local\noptions ndots:5\n";

#[test]
fn test_dns_policy_default_is_cluster_first() {
    let pod = make_pod("test", "default");
    let dns_policy =
        pod.spec.as_ref().and_then(|s| s.dns_policy.as_deref()).unwrap_or("ClusterFirst");
    assert_eq!(dns_policy, "ClusterFirst");
    assert_eq!(runtime().resolver_file(&pod, None), Some(CLUSTER.to_string()));
}

#[test]
fn test_dns_policy_none_produces_empty_content() {
    let file = runtime().resolver_file(&pod_with("None", false, None), None);
    assert_eq!(file, None, "an empty file is not mounted");
    let content = file.unwrap_or_default();
    assert!(content.is_empty());
}

#[test]
fn test_dns_config_nameserver_prepend() {
    let config = DnsConfig {
        nameservers: Some(vec!["8.8.8.8".to_string()]),
        searches: None,
        options: None,
    };
    assert_eq!(
        adjust_resolver_file("nameserver 10.96.0.10\n", &config),
        "nameserver 8.8.8.8\nnameserver 10.96.0.10\n"
    );
}

#[test]
fn test_dns_config_search_domains() {
    let config = DnsConfig {
        nameservers: None,
        searches: Some(vec!["custom.local".to_string()]),
        options: None,
    };
    assert_eq!(
        adjust_resolver_file("search default.svc.cluster.local\n", &config),
        "search custom.local default.svc.cluster.local\n"
    );
}

#[test]
fn test_dns_config_options_with_value() {
    let config = DnsConfig {
        nameservers: None,
        searches: None,
        options: Some(vec![DnsOption { name: "ndots".to_string(), value: Some("3".to_string()) }]),
    };
    assert_eq!(adjust_resolver_file("", &config), "options ndots:3\n");
    assert_eq!(adjust_resolver_file("options ndots:5 edns0\n", &config), "options edns0 ndots:3\n");
    assert_eq!(adjust_resolver_file("options ndots ndotsx:1\n", &config), "options ndotsx:1 ndots:3\n");
    let similar = DnsConfig {
        nameservers: None,
        searches: None,
        options: Some(vec![DnsOption { name: "ndot".to_string(), value: None }]),
    };
    assert_eq!(adjust_resolver_file("options ndots:5\n", &similar), "options ndots:5 ndot\n");
}

#[test]
fn test_dns_config_options_without_value() {
    let config = DnsConfig {
        nameservers: None,
        searches: None,
        options: Some(vec![DnsOption { name: "single-request-reopen".to_string(), value: None }]),
    };
    assert_eq!(adjust_resolver_file("", &config), "options single-request-reopen\n");
}

#[test]
fn test_resolv_conf_parsing() {
    let content = "nameserver 10.96.0.10\nsearch default.svc.cluster.local svc.cluster.local cluster.local\noptions ndots:5\n";
    assert_eq!(
        adjust_resolver_file(
            content,
            &DnsConfig { nameservers: None, searches: None, options: None }
        ),
        content
    );
    assert_eq!(runtime().resolver_file(&make_pod("test", "default"), None).unwrap(), content);
}

#[test]
fn test_cluster_first_with_host_net_uses_cluster_dns() {
    let pod = pod_with("ClusterFirstWithHostNet", true, None);
    assert!(is_on_host_network(&pod));
    assert_eq!(runtime().resolver_file(&pod, None), Some(CLUSTER.to_string()));
    assert_eq!(
        runtime().resolver_file(&pod, Some("search lan\nnameserver 1.1.1.1\n")),
        Some(format!("nameserver 1.1.1.1\n{CLUSTER}"))
    );
}

#[test]
fn test_cluster_first_with_host_network_uses_host_dns() {
    let pod = pod_with("ClusterFirst", true, None);
    assert_eq!(
        runtime().resolver_file(&pod, Some("nameserver 1.1.1.1\n")),
        Some("nameserver 1.1.1.1\n".to_string())
    );
}

#[test]
fn the_namespace_is_default_where_none_is_named() {
    let mut pod = make_pod("p", "kube-system");
    assert_eq!(pod_namespace(&pod), "kube-system");
    pod.metadata.namespace = None;
    assert_eq!(pod_namespace(&pod), "default");
}

#[test]
fn a_config_alone_makes_the_file() {
    let config = DnsConfig {
        nameservers: Some(vec!["1.2.3.4".to_string()]),
        searches: Some(vec!["a.b".to_string()]),
        options: Some(vec![DnsOption { name: "ndots".to_string(), value: Some("2".to_string()) }]),
    };
    assert_eq!(
        runtime().resolver_file(&pod_with("None", false, Some(config)), None).unwrap(),
        "nameserver 1.2.3.4\nsearch a.b\noptions ndots:2\n"
    );
}
