//! Kernel parameters of pods.

use kubelet::pause::pause_sysctls;
use kubelet::resources::{
    Container, ObjectMeta, Pod, PodSecurityContext, PodSpec, PodStatus, Phase, Sysctl,
};
use kubelet::runtime::ContainerRuntime;
use kubelet::sysctl::{forbidden_sysctls, sysctl_name_to_dotted};

fn sysctl(name: &str, value: &str) -> Sysctl {
    Sysctl { name: name.to_string(), value: value.to_string() }
}

fn make_pod_with_sysctls(name: &str, sysctls: Option<Vec<Sysctl>>) -> Pod {
    Pod {
        metadata: ObjectMeta {
            name: name.to_string(),
            namespace: Some("default".to_string()),
            ..Default::default()
        },
        spec: Some(PodSpec {
            containers: vec![Container { name: "app".to_string(), ..Default::default() }],
            restart_policy: Some("Always".to_string()),
            security_context: sysctls
                .map(|s| PodSecurityContext { sysctls: Some(s), ..Default::default() }),
            ..Default::default()
        }),
        status: None,
    }
}

fn value<'a>(map: &'a Vec<(String, String)>, key: &str) -> Option<&'a str> {
    map.iter().find(|p| p.0 == key).map(|p| p.1.as_str())
}

#[test]
fn sysctl_name_to_dotted_converts_slashes() {
    assert_eq!(sysctl_name_to_dotted("kernel/shm_rmid_forced"), "kernel.shm_rmid_forced");
    assert_eq!(sysctl_name_to_dotted("net/ipv4/tcp_syncookies"), "net.ipv4.tcp_syncookies");
    assert_eq!(sysctl_name_to_dotted("kernel.shm_rmid_forced"), "kernel.shm_rmid_forced");
}

#[test]
fn forbidden_sysctls_flags_unsafe_not_allowlisted() {
    let sc = |n: &str| sysctl(n, "1");
    assert_eq!(
        forbidden_sysctls(&vec![sc("kernel.msgmax")], &vec![]),
        vec!["kernel.msgmax".to_string()]
    );
    assert!(forbidden_sysctls(&vec![sc("kernel.shm_rmid_forced")], &vec![]).is_empty());
    assert!(forbidden_sysctls(&vec![sc("net.ipv4.tcp_syncookies")], &vec![]).is_empty());
    assert!(forbidden_sysctls(
        &vec![sc("kernel.msgmax")],
        &vec!["kernel.msgmax".to_string()]
    )
    .is_empty());
    assert!(forbidden_sysctls(
        &vec![sc("net.core.somaxconn")],
        &vec!["net.core.*".to_string()]
    )
    .is_empty());
    assert_eq!(
        forbidden_sysctls(&vec![sc("kernel/msgmax")], &vec![]),
        vec!["kernel.msgmax".to_string()]
    );
}

#[test]
fn test_safe_sysctls_accepted() {
    let pod = make_pod_with_sysctls(
        "safe-sysctl-pod",
        Some(vec![
            sysctl("kernel.shm_rmid_forced", "1"),
            sysctl("net.ipv4.ip_local_port_range", "1024 65535"),
            sysctl("net.ipv4.tcp_syncookies", "1"),
            sysctl("net.ipv4.ping_group_range", "0 2147483647"),
        ]),
    );
    let map = pause_sysctls(&pod).unwrap();
    assert_eq!(map.len(), 4);
    assert_eq!(value(&map, "kernel.shm_rmid_forced"), Some("1"));
    assert_eq!(value(&map, "net.ipv4.ip_local_port_range"), Some("1024 65535"));
    assert_eq!(value(&map, "net.ipv4.tcp_syncookies"), Some("1"));
    assert_eq!(value(&map, "net.ipv4.ping_group_range"), Some("0 2147483647"));
}

#[test]
fn test_unsafe_sysctls_accepted_when_explicitly_set() {
    let pod = make_pod_with_sysctls(
        "unsafe-sysctl-pod",
        Some(vec![
            sysctl("kernel.msgmax", "65536"),
            sysctl("net.core.somaxconn", "1024"),
            sysctl("kernel.shmmax", "67108864"),
        ]),
    );
    let map = pause_sysctls(&pod).unwrap();
    assert_eq!(map.len(), 3);
    assert_eq!(value(&map, "kernel.msgmax"), Some("65536"));
    assert_eq!(value(&map, "net.core.somaxconn"), Some("1024"));
    assert_eq!(value(&map, "kernel.shmmax"), Some("67108864"));
}

#[test]
fn test_sysctls_values_passed_to_docker_config() {
    let pod = make_pod_with_sysctls(
        "sysctl-docker-pod",
        Some(vec![
            sysctl("net.ipv4.ip_forward", "1"),
            sysctl("net.ipv4.conf.all.forwarding", "1"),
        ]),
    );
    let map = pause_sysctls(&pod).unwrap();
    assert_eq!(value(&map, "net.ipv4.ip_forward"), Some("1"));
    assert_eq!(value(&map, "net.ipv4.conf.all.forwarding"), Some("1"));
}

#[test]
fn test_pod_without_sysctls_has_none() {
    let pod = make_pod_with_sysctls("no-sysctl-pod", None);
    assert!(pause_sysctls(&pod).is_none(), "Pod without sysctls should return None");
}

#[test]
fn test_pod_with_empty_security_context_no_sysctls() {
    let mut pod = make_pod_with_sysctls("empty-sc-pod", None);
    pod.spec.as_mut().unwrap().security_context =
        Some(PodSecurityContext { run_as_user: Some(1000), ..Default::default() });
    assert!(
        pause_sysctls(&pod).is_none(),
        "Security context without sysctls should return None"
    );
}

#[test]
fn test_single_sysctl_produces_single_entry() {
    let pod = make_pod_with_sysctls(
        "single-sysctl-pod",
        Some(vec![sysctl("kernel.shm_rmid_forced", "0")]),
    );
    let map = pause_sysctls(&pod).unwrap();
    assert_eq!(map.len(), 1);
    assert_eq!(value(&map, "kernel.shm_rmid_forced"), Some("0"));
}

#[test]
fn a_refused_pod_says_why() {
    let rt = ContainerRuntime::new(
        "/volumes".to_string(),
        "10.96.0.10".to_string(),
        "cluster.local".to_string(),
        "rusternetes-network".to_string(),
        "10.96.0.1".to_string(),
        &None,
        false,
    );
    let pod = make_pod_with_sysctls(
        "bad",
        Some(vec![
            sysctl("kernel/msgmax", "1"),
            sysctl("net.ipv4.tcp_syncookies", "1"),
            sysctl("vm.swappiness", "1"),
        ]),
    );
    let message = rt.sysctl_rejection(&pod).unwrap();
    assert_eq!(message, "forbidden sysctl: kernel.msgmax, vm.swappiness not allowlisted");
    let mut status = PodStatus::default();
    rt.write_rejection(&pod, &mut status);
    assert_eq!(status.phase, Some(Phase::Failed));
    assert_eq!(status.reason.as_deref(), Some("SysctlForbidden"));
    assert_eq!(status.message, Some(message));
    let rt = rt.with_allowed_unsafe_sysctls(vec![
        "kernel.msg*".to_string(),
        "vm.swappiness".to_string(),
    ]);
    assert_eq!(rt.sysctl_rejection(&pod), None);
    let mut untouched = PodStatus::default();
    rt.write_rejection(&pod, &mut untouched);
    assert_eq!(untouched, PodStatus::default());
    assert_eq!(rt.sysctl_rejection(&make_pod_with_sysctls("plain", None)), None);
}
