//! Access to the API server, and what the agent answers.

use kubelet::resources::{Container, ObjectMeta, Phase, Pod, PodSpec, PodStatus};
use kubelet::runtime::ContainerRuntime;
use kubelet::server::{healthz, pods_for_node, running_pods_for_node, stats_summary};
use kubelet::serviceaccount::{
    ca_certificate_path, ensure_api_access, fallback_token, service_account_claims,
    service_account_of, token_secret_name,
};
use kubelet::time::Timestamp;

fn runtime() -> ContainerRuntime {
    ContainerRuntime::new(
        "/volumes".to_string(),
        "10.96.0.10".to_string(),
        "cluster.local".to_string(),
        "rusternetes-network".to_string(),
        "10.96.0.1".to_string(),
        &None,
        false,
    )
}

fn make_pod(name: &str, node: Option<&str>, phase: Option<Phase>) -> Pod {
    Pod {
        metadata: ObjectMeta {
            name: name.to_string(),
            namespace: Some("ns".to_string()),
            uid: format!("{name}-uid"),
            ..Default::default()
        },
        spec: Some(PodSpec {
            containers: vec![Container { name: "app".to_string(), ..Default::default() }],
            node_name: node.map(|s| s.to_string()),
            service_account_name: Some("builder".to_string()),
            ..Default::default()
        }),
        status: Some(PodStatus { phase, ..Default::default() }),
    }
}

#[test]
fn a_token_is_bound_to_its_pod() {
    let pod = make_pod("web", Some("node-1"), None);
    let now = Timestamp { secs: 1000, nanos: 0 };
    let c = service_account_claims(
        &pod,
        &Some("sa-uid".to_string()),
        &Some("node-uid".to_string()),
        now,
    );
    assert_eq!(c.sub, "system:serviceaccount:ns:builder");
    assert_eq!((c.iat, c.exp), (1000, 4600));
    assert_eq!(c.iss, "https://kubernetes.default.svc.cluster.local");
    assert_eq!(c.aud, vec!["rusternetes"]);
    let k = c.kubernetes.unwrap();
    assert_eq!(k.namespace, "ns");
    assert_eq!((k.svcacct.name.as_str(), k.svcacct.uid.as_str()), ("builder", "sa-uid"));
    assert_eq!(k.pod.unwrap().uid, "web-uid");
    assert_eq!(k.node.unwrap().uid, "node-uid");
    assert_eq!(c.node_name.as_deref(), Some("node-1"));
    assert_eq!(service_account_of(&pod), "builder");
    let mut plain = make_pod("web", None, None);
    plain.spec.as_mut().unwrap().service_account_name = None;
    assert_eq!(service_account_of(&plain), "default");
}

#[test]
fn tokens_of_secrets_are_read_as_text() {
    assert_eq!(fallback_token(&None), "");
    assert_eq!(fallback_token(&Some(b"abc".to_vec())), "abc");
    assert_eq!(fallback_token(&Some(vec![b'a', 0xff])), "a\u{fffd}");
    assert_eq!(token_secret_name("builder"), "builder-token");
}

#[test]
fn where_certificates_lie() {
    let some = |s: &str| Some(s.to_string());
    assert_eq!(ca_certificate_path(&some("/ca.pem"), &some("/home/me")), "/ca.pem");
    assert_eq!(
        ca_certificate_path(&None, &some("/home/me")),
        "/home/me/.rusternetes/certs/ca.crt"
    );
    assert_eq!(ca_certificate_path(&None, &None), "/root/.rusternetes/certs/ca.crt");
}

#[test]
fn the_files_of_a_token_volume() {
    let v = runtime().create_serviceaccount_token_volume(&make_pod("web", None, None), "tok");
    assert_eq!(v.directory, "/volumes/web/serviceaccount-token");
    assert_eq!(v.token.path, "/volumes/web/serviceaccount-token/token");
    assert_eq!((v.token.content.as_str(), v.token.mode), ("tok", Some(0o600)));
    assert_eq!(v.namespace.content, "ns");
    assert_eq!(v.certificate_path, "/volumes/web/serviceaccount-token/ca.crt");
}

#[test]
fn api_access_is_settled_once() {
    let mut spec = make_pod("web", None, None).spec.unwrap();
    ensure_api_access(&mut spec);
    let first = spec.clone();
    assert_eq!(first.volumes.as_ref().unwrap().len(), 1);
    let mounts = first.containers[0].volume_mounts.as_ref().unwrap();
    assert_eq!(
        mounts[0].mount_path,
        "/var/run/secrets/kubernetes.io/serviceaccount"
    );
    ensure_api_access(&mut spec);
    assert_eq!(spec, first);
}

#[test]
fn a_node_answers_for_its_pods() {
    let all = vec![
        make_pod("a", Some("n1"), Some(Phase::Running)),
        make_pod("b", Some("n2"), Some(Phase::Running)),
        make_pod("c", Some("n1"), Some(Phase::Pending)),
        make_pod("d", None, Some(Phase::Running)),
    ];
    let names = |list: Vec<Pod>| -> Vec<String> {
        list.into_iter().map(|p| p.metadata.name).collect()
    };
    assert_eq!(names(pods_for_node(all.clone(), "n1")), vec!["a", "c"]);
    assert_eq!(names(running_pods_for_node(all.clone(), "n1")), vec!["a"]);
    let summary = stats_summary(&pods_for_node(all, "n1"));
    assert_eq!(summary.len(), 2);
    assert_eq!(summary[0].name, "a");
    assert_eq!(summary[0].namespace, "ns");
    assert_eq!(summary[0].uid, "a-uid");
}

#[test]
fn health_is_told_by_the_sync_loop() {
    assert_eq!(healthz(None), (200, "ok".to_string()));
    assert_eq!(healthz(Some(true)), (200, "ok".to_string()));
    assert_eq!(healthz(Some(false)), (500, "kubelet sync_loop is stale".to_string()));
}
