//! The environment of a container.

use kubelet::env::{
    env_lookup, env_pairs, env_var_name, protocol_name,
    service_links_enabled, EnvFromData, EnvLookup,
};
use kubelet::resources::{
    Container, EnvFromSource, EnvVar, EnvVarSource, FieldSelector, KeySelector, ObjectMeta, Pod,
    PodSpec, ResourceFieldSelector, Service, ServicePort,
};
use kubelet::runtime::ContainerRuntime;

fn runtime() -> ContainerRuntime {
    ContainerRuntime::new(
        "/volumes".to_string(),
        "10.96.0.10".to_string(),
        "cluster.local".to_string(),
        "rusternetes-network".to_string(),
        "10.96.0.1".to_string(),
        &None,
        false,
    )
}

fn make_pod(name: &str, namespace: &str) -> Pod {
    Pod {
        metadata: ObjectMeta {
            name: name.to_string(),
            namespace: Some(namespace.to_string()),
            ..Default::default()
        },
        spec: Some(PodSpec::default()),
        status: None,
    }
}

fn service(name: &str, ip: Option<&str>, ports: Vec<ServicePort>) -> Service {
    Service { name: name.to_string(), cluster_ip: ip.map(|s| s.to_string()), ports }
}

fn port(name: Option<&str>, port: u16, protocol: Option<&str>) -> ServicePort {
    ServicePort {
        name: name.map(|s| s.to_string()),
        port,
        protocol: protocol.map(|s| s.to_string()),
    }
}

/// The variables behind those of the API server.
fn links(services: Vec<Service>) -> Vec<String> {
    let env = runtime()
        .bounded_container_env(
            &make_pod("p", "default"),
            &Container::default(),
            &Some(services),
            &vec![],
            &vec![],
            None,
            1000,
        )
        .unwrap();
    env[8..].to_vec()
}

#[test]
fn test_service_env_var_name_formatting() {
    assert_eq!(env_var_name("my-redis-svc"), "MY_REDIS_SVC");
}

#[test]
fn test_service_env_var_host_format() {
    let env = links(vec![service("my-svc", Some("10.96.0.10"), vec![])]);
    assert_eq!(env, vec!["MY_SVC_SERVICE_HOST=10.96.0.10"]);
}

#[test]
fn test_service_env_var_port_format() {
    let env =
        links(vec![service("my-svc", Some("10.96.0.10"), vec![port(None, 8080, Some("TCP"))])]);
    assert_eq!(env[1], "MY_SVC_SERVICE_PORT=8080");
    assert_eq!(env[2], "MY_SVC_PORT=tcp://10.96.0.10:8080");
    assert_eq!(env[3], "MY_SVC_PORT_8080_TCP=tcp://10.96.0.10:8080");
    assert_eq!(
        env[4..],
        [
            "MY_SVC_PORT_8080_TCP_PROTO=tcp",
            "MY_SVC_PORT_8080_TCP_PORT=8080",
            "MY_SVC_PORT_8080_TCP_ADDR=10.96.0.10"
        ]
    );
}

#[test]
fn test_service_env_var_named_port() {
    let env =
        links(vec![service("my-svc", Some("10.96.0.10"), vec![port(Some("http-web"), 8080, None)])]);
    assert_eq!(env.last().unwrap(), "MY_SVC_SERVICE_PORT_HTTP_WEB=8080");
}

#[test]
fn test_service_env_var_skips_none_cluster_ip() {
    assert!(links(vec![service("my-svc", Some("None"), vec![port(None, 80, None)])]).is_empty());
    assert!(links(vec![service("my-svc", None, vec![port(None, 80, None)])]).is_empty());
}

#[test]
fn test_service_env_var_skips_empty_cluster_ip() {
    assert!(links(vec![service("my-svc", Some(""), vec![port(None, 80, None)])]).is_empty());
}

#[test]
fn test_enable_service_links_default_true() {
    let mut pod = make_pod("test", "default");
    assert!(service_links_enabled(&pod));
    pod.spec.as_mut().unwrap().enable_service_links = Some(false);
    assert!(!service_links_enabled(&pod));
}

#[test]
fn later_ports_come_after_the_first() {
    let env = links(vec![service(
        "s",
        Some("1.2.3.4"),
        vec![port(None, 53, Some("UDP")), port(Some("metrics"), 9153, Some("TCP"))],
    )]);
    assert_eq!(
        env,
        vec![
            "S_SERVICE_HOST=1.2.3.4",
            "S_SERVICE_PORT=53",
            "S_PORT=udp://1.2.3.4:53",
            "S_PORT_53_UDP=udp://1.2.3.4:53",
            "S_PORT_53_UDP_PROTO=udp",
            "S_PORT_53_UDP_PORT=53",
            "S_PORT_53_UDP_ADDR=1.2.3.4",
            "S_SERVICE_PORT_METRICS=9153",
            "S_PORT_9153_TCP=tcp://1.2.3.4:9153",
            "S_PORT_9153_TCP_PROTO=tcp",
            "S_PORT_9153_TCP_PORT=9153",
            "S_PORT_9153_TCP_ADDR=1.2.3.4",
        ]
    );
    assert_eq!(protocol_name(&Some("UDP".to_string())), "udp");
    assert_eq!(protocol_name(&None), "tcp");
}

#[test]
fn the_api_server_is_always_known() {
    let mut pod = make_pod("p", "default");
    pod.spec.as_mut().unwrap().enable_service_links = Some(false);
    pod.metadata.annotations = Some(vec![(
        "batch.kubernetes.io/job-completion-index".to_string(),
        "4".to_string(),
    )]);
    let services = Some(vec![service("kubernetes", Some("9.9.9.9"), vec![])]);
    let env = runtime()
        .bounded_container_env(&pod, &Container::default(), &services, &vec![], &vec![], None, 10)
        .unwrap();
    assert_eq!(
        env,
        vec![
            "KUBERNETES_SERVICE_HOST=10.96.0.1",
            "KUBERNETES_SERVICE_PORT=443",
            "KUBERNETES_SERVICE_PORT_HTTPS=443",
            "KUBERNETES_PORT=tcp://10.96.0.1:443",
            "KUBERNETES_PORT_443_TCP=tcp://10.96.0.1:443",
            "KUBERNETES_PORT_443_TCP_PROTO=tcp",
            "KUBERNETES_PORT_443_TCP_PORT=443",
            "KUBERNETES_PORT_443_TCP_ADDR=10.96.0.1",
            "JOB_COMPLETION_INDEX=4",
        ]
    );
}

fn var(name: &str, value: Option<&str>, source: Option<EnvVarSource>) -> EnvVar {
    EnvVar { name: name.to_string(), value: value.map(|s| s.to_string()), value_from: source }
}

fn no_source() -> EnvVarSource {
    EnvVarSource {
        config_map_key_ref: None,
        secret_key_ref: None,
        field_ref: None,
        resource_field_ref: None,
    }
}

fn field(path: &str) -> EnvVarSource {
    EnvVarSource { field_ref: Some(FieldSelector { field_path: path.to_string() }), ..no_source() }
}

#[test]
fn variables_are_filled_in() {
    let c = Container {
        env: Some(vec![
            var("A", Some("1"), None),
            var("B", Some("$(A)$(MISSING)-$(KUBERNETES_SERVICE_PORT)"), None),
            var("IP", None, Some(field("status.podIP"))),
            var("HOST", Some(""), Some(field("status.hostIP"))),
            var("NAME", None, Some(field("metadata.name"))),
            var("LOST", None, Some(field("metadata.uid"))),
        ]),
        ..Default::default()
    };
    let found = vec![
        None,
        None,
        Some(String::new()),
        Some(String::new()),
        Some("p".to_string()),
        None,
    ];
    let env = runtime()
        .bounded_container_env(
            &make_pod("p", "default"),
            &c,
            &None,
            &vec![],
            &found,
            Some("10.0.0.9"),
            100,
        )
        .unwrap();
    assert_eq!(env[8..], ["A=1", "B=1-443", "IP=10.0.0.9", "HOST=127.0.0.1", "NAME=p"]);
    assert!(runtime().container_env_settles(
        &make_pod("p", "default"),
        &c,
        &None,
        &vec![],
        &found,
        None,
        100
    ));
}

#[test]
fn a_value_that_names_itself_has_no_end() {
    let c = Container {
        env: Some(vec![var("A", Some("$(A)"), None), var("B", Some("$(C)"), None)]),
        ..Default::default()
    };
    let pod = make_pod("p", "default");
    let env = runtime()
        .bounded_container_env(&pod, &c, &None, &vec![], &vec![None, None], None, 100)
        .unwrap();
    assert_eq!(env[8..], ["A=", "B="]);
    let looped = Container {
        env_from: Some(vec![EnvFromSource {
            prefix: None,
            config_map_ref: Some("m".to_string()),
            secret_ref: None,
        }]),
        env: Some(vec![var("B", Some("$(A)"), None)]),
        ..Default::default()
    };
    let data = vec![EnvFromData {
        config_map: Some(vec![("A".to_string(), "x$(A)".to_string())]),
        secret: None,
    }];
    assert_eq!(
        runtime().bounded_container_env(&pod, &looped, &None, &data, &vec![None], None, 100),
        None
    );
}

#[test]
fn whole_maps_are_taken_in() {
    let c = Container {
        env_from: Some(vec![
            EnvFromSource {
                prefix: Some("P_".to_string()),
                config_map_ref: Some("m".to_string()),
                secret_ref: None,
            },
            EnvFromSource { prefix: None, config_map_ref: None, secret_ref: Some("s".to_string()) },
        ]),
        ..Default::default()
    };
    let data = vec![
        EnvFromData {
            config_map: Some(vec![("K".to_string(), "v".to_string())]),
            secret: None,
        },
        EnvFromData {
            config_map: None,
            secret: Some(vec![
                ("T".to_string(), b"text".to_vec()),
                ("R".to_string(), vec![0xff, 0xfe]),
            ]),
        },
    ];
    let env = runtime()
        .bounded_container_env(&make_pod("p", "d"), &c, &None, &data, &vec![], None, 10)
        .unwrap();
    assert_eq!(env[8..], ["P_K=v", "T=text"]);
}

#[test]
fn where_values_are_looked_up() {
    let selector = |n: &str| KeySelector { name: n.to_string(), key: "k".to_string() };
    let source = EnvVarSource {
        config_map_key_ref: Some(selector("m")),
        secret_key_ref: Some(selector("s")),
        ..no_source()
    };
    assert!(matches!(
        env_lookup(&var("A", None, Some(source))),
        EnvLookup::ConfigMap { name, key } if name == "m" && key == "k"
    ));
    let source = EnvVarSource { secret_key_ref: Some(selector("s")), ..no_source() };
    assert!(matches!(
        env_lookup(&var("A", Some(""), Some(source))),
        EnvLookup::Secret { name, .. } if name == "s"
    ));
    assert!(matches!(
        env_lookup(&var("A", None, Some(field("metadata.name")))),
        EnvLookup::Field { path } if path == "metadata.name"
    ));
    let source = EnvVarSource {
        resource_field_ref: Some(ResourceFieldSelector {
            container_name: None,
            resource: "limits.cpu".to_string(),
        }),
        ..no_source()
    };
    assert!(matches!(
        env_lookup(&var("A", None, Some(source))),
        EnvLookup::Resource { container: None, resource } if resource == "limits.cpu"
    ));
    assert!(matches!(env_lookup(&var("A", Some("x"), None)), EnvLookup::Nowhere));
}

#[test]
fn keys_that_are_missing_are_errors() {
    let map = Some(vec![("k".to_string(), "v".to_string())]);
    assert_eq!(runtime().get_configmap_value(&map, "m", "k").unwrap(), "v");
    assert_eq!(
        runtime().get_configmap_value(&map, "m", "x").unwrap_err(),
        "Key x not found in ConfigMap m"
    );
    assert_eq!(runtime().get_configmap_value(&None, "m", "k").unwrap_err(), "Key k not found in ConfigMap m");
    let secret = Some(vec![("k".to_string(), b"v".to_vec()), ("b".to_string(), vec![0xff])]);
    assert_eq!(runtime().get_secret_value(&secret, "s", "k").unwrap(), "v");
    assert_eq!(runtime().get_secret_value(&secret, "s", "x").unwrap_err(), "Key x not found in Secret s");
    assert_eq!(runtime().get_secret_value(&None, "s", "k").unwrap_err(), "Key k not found in Secret s");
    assert!(runtime().get_secret_value(&secret, "s", "b").is_err());
}

#[test]
fn entries_are_split_at_the_first_sign() {
    assert_eq!(
        env_pairs(&vec!["A=b=c".to_string(), "plain".to_string()]),
        vec![
            ("A".to_string(), "b=c".to_string()),
            ("plain".to_string(), String::new())
        ]
    );
}
