//! How containers are created and started.

use kubelet::config::{
    add_ports, compute_group_add, container_command, container_limits, container_user,
    limits_can_be_held, ContainerConfig, CpuReadings, Limits,
};
use kubelet::engine::{runtime_supports_shared_uts, EngineStatus, EngineVersion, InspectState, Inspected};
use kubelet::resources::{
    Capabilities, Container, ContainerPort, ObjectMeta, Pod, PodSecurityContext, PodSpec,
    ResourceRequirements, SecurityContext, VolumeMount,
};
use kubelet::runtime::ContainerRuntime;
use kubelet::start_container::{
    conflicting_container, existing_container, ExistingAction, Report, StartEvent, StartPhase,
};

fn runtime(plugins: bool) -> ContainerRuntime {
    ContainerRuntime::new(
        "/volumes".to_string(),
        "10.96.0.10".to_string(),
        "cluster.local".to_string(),
        "rusternetes-network".to_string(),
        "10.96.0.1".to_string(),
        &None,
        plugins,
    )
}

fn make_container(name: &str) -> Container {
    Container { name: name.to_string(), image: "nginx:latest".to_string(), ..Default::default() }
}

fn make_pod(name: &str) -> Pod {
    Pod {
        metadata: ObjectMeta {
            name: name.to_string(),
            namespace: Some("default".to_string()),
            ..Default::default()
        },
        spec: Some(PodSpec { containers: vec![make_container("app")], ..Default::default() }),
        status: None,
    }
}

fn texts(list: &[&str]) -> Vec<String> {
    list.iter().map(|s| s.to_string()).collect()
}

fn no_limits() -> Limits {
    Limits { memory: None, cpu_period: None, cpu_quota: None, cpu_shares: None }
}

#[test]
fn test_non_cni_network_mode_uses_pause_container() {
    let c = runtime(false).container_config(
        &make_pod("my-pod"),
        &make_container("app"),
        vec![],
        vec![],
        no_limits(),
        None,
    );
    assert_eq!(c.network_mode, "container:my-pod_pause");
}

#[test]
fn test_cni_network_mode_uses_bridge_network() {
    let pod_name = "my-pod";
    let use_cni = true;
    let bridge_network = "rusternetes-network";
    let network_mode = if use_cni {
        bridge_network.to_string()
    } else {
        format!("container:{}_pause", pod_name)
    };
    assert_eq!(network_mode, "rusternetes-network");
    let rt = runtime(true);
    assert_eq!(rt.pause_config(&make_pod(pod_name), None).network_mode, network_mode);
}

#[test]
fn test_needs_umask_fix_false_without_emptydir() {
    let has_emptydir_mount = false;
    let has_shell = true;
    let needs_umask_fix = has_emptydir_mount && has_shell;
    assert!(!needs_umask_fix, "needs_umask_fix should be false without emptyDir mount");
}

#[test]
fn test_needs_umask_fix_false_without_shell() {
    let has_emptydir_mount = true;
    let has_shell = false;
    let needs_umask_fix = has_emptydir_mount && has_shell;
    assert!(!needs_umask_fix, "needs_umask_fix should be false when image has no shell");
}

#[test]
fn test_needs_umask_fix_true_only_with_both() {
    let has_emptydir_mount = true;
    let has_shell = true;
    let needs_umask_fix = has_emptydir_mount && has_shell;
    assert!(needs_umask_fix, "needs_umask_fix should be true when both conditions hold");
}

fn pod_with_security_context(sc: PodSecurityContext) -> Pod {
    let mut pod = make_pod("p");
    pod.spec.as_mut().unwrap().security_context = Some(sc);
    pod
}

#[test]
fn returns_none_when_no_security_context() {
    assert_eq!(compute_group_add(&make_pod("p")), None);
}

#[test]
fn returns_none_when_no_fs_group_or_supplemental() {
    assert_eq!(compute_group_add(&pod_with_security_context(Default::default())), None);
}

#[test]
fn includes_fs_group() {
    let pod = pod_with_security_context(PodSecurityContext {
        fs_group: Some(2000),
        ..Default::default()
    });
    assert_eq!(compute_group_add(&pod), Some(vec!["2000".to_string()]));
}

#[test]
fn includes_supplemental_groups_when_no_fs_group() {
    let pod = pod_with_security_context(PodSecurityContext {
        supplemental_groups: Some(vec![3000, 4000]),
        ..Default::default()
    });
    assert_eq!(
        compute_group_add(&pod),
        Some(vec!["3000".to_string(), "4000".to_string()])
    );
}

#[test]
fn combines_fs_group_first_then_supplemental() {
    let pod = pod_with_security_context(PodSecurityContext {
        fs_group: Some(2000),
        supplemental_groups: Some(vec![3000, 4000]),
        ..Default::default()
    });
    assert_eq!(
        compute_group_add(&pod),
        Some(vec!["2000".to_string(), "3000".to_string(), "4000".to_string()])
    );
}

#[test]
fn dedupes_fs_group_against_supplemental() {
    let pod = pod_with_security_context(PodSecurityContext {
        fs_group: Some(2000),
        supplemental_groups: Some(vec![2000, 3000]),
        ..Default::default()
    });
    assert_eq!(
        compute_group_add(&pod),
        Some(vec!["2000".to_string(), "3000".to_string()])
    );
}

fn version(ver: Option<&str>, platform: Option<&str>, components: Vec<&str>) -> EngineVersion {
    EngineVersion {
        version: ver.map(|s| s.to_string()),
        platform: platform.map(|s| s.to_string()),
        components: if components.is_empty() { None } else { Some(texts(&components)) },
    }
}

#[test]
fn podman_platform_name_is_supported() {
    let v = version(Some("4.7.0"), Some("Podman Engine"), vec![]);
    assert!(runtime_supports_shared_uts(&v));
}

#[test]
fn podman_component_name_is_supported() {
    let v = version(Some("1.41"), None, vec!["Podman Engine", "conmon"]);
    assert!(runtime_supports_shared_uts(&v));
}

#[test]
fn docker_23_is_supported() {
    let v = version(Some("23.0.6"), Some("Docker Engine - Community"), vec!["Engine"]);
    assert!(runtime_supports_shared_uts(&v));
}

#[test]
fn docker_24_is_not_supported() {
    let v = version(Some("24.0.7"), Some("Docker Engine - Community"), vec!["Engine"]);
    assert!(!runtime_supports_shared_uts(&v));
}

#[test]
fn docker_27_is_not_supported() {
    let v = version(Some("27.3.1"), Some("Docker Engine - Community"), vec![]);
    assert!(!runtime_supports_shared_uts(&v));
}

#[test]
fn unparseable_version_returns_false() {
    let v = version(Some("not-a-version"), Some("Mystery Engine"), vec![]);
    assert!(!runtime_supports_shared_uts(&v));
}

#[test]
fn empty_version_returns_false() {
    assert!(!runtime_supports_shared_uts(&version(None, None, vec![])));
}

#[test]
fn podman_lowercase_in_platform_is_supported() {
    let v = version(Some("4.7.0"), Some("podman engine"), vec![]);
    assert!(runtime_supports_shared_uts(&v));
}

#[test]
fn users_and_groups() {
    let pod = pod_with_security_context(PodSecurityContext {
        run_as_user: Some(1000),
        run_as_group: Some(3000),
        ..Default::default()
    });
    let mut c = make_container("app");
    assert_eq!(container_user(&pod, &c).as_deref(), Some("1000:3000"));
    c.security_context = Some(SecurityContext { run_as_user: Some(5), ..Default::default() });
    assert_eq!(container_user(&pod, &c).as_deref(), Some("5:3000"));
    let pod = pod_with_security_context(PodSecurityContext {
        run_as_group: Some(7),
        ..Default::default()
    });
    assert_eq!(container_user(&pod, &make_container("app")).as_deref(), Some("0:7"));
    assert_eq!(container_user(&make_pod("p"), &make_container("app")), None);
}

#[test]
fn limits_become_numbers_of_the_engine() {
    let pair = |k: &str, v: &str| (k.to_string(), v.to_string());
    let r = Some(ResourceRequirements {
        limits: Some(vec![pair("memory", "128Mi"), pair("cpu", "500m")]),
        requests: Some(vec![pair("cpu", "250m")]),
    });
    let none = CpuReadings { limit: 0, request: 0 };
    let l = container_limits(&r, none);
    assert_eq!(l.memory, Some(134217728));
    assert_eq!(l.cpu_period, Some(100000));
    assert_eq!(l.cpu_quota, Some(50000));
    assert_eq!(l.cpu_shares, Some(256));
    let r = Some(ResourceRequirements {
        limits: None,
        requests: Some(vec![pair("cpu", "1m")]),
    });
    let l = container_limits(&r, none);
    assert_eq!((l.memory, l.cpu_quota, l.cpu_shares), (None, None, Some(2)));
    let r = Some(ResourceRequirements { limits: Some(vec![pair("cpu", "1.5")]), requests: None });
    let l = container_limits(&r, CpuReadings { limit: 1500, request: 1500 });
    assert_eq!((l.cpu_quota, l.cpu_shares), (Some(150000), Some(1536)));
}

#[test]
fn limits_that_cannot_be_held() {
    let pair = |k: &str, v: &str| (k.to_string(), v.to_string());
    let none = CpuReadings { limit: 0, request: 0 };
    let limited = |k: &str, v: &str| {
        Some(ResourceRequirements { limits: Some(vec![pair(k, v)]), requests: None })
    };
    assert!(limits_can_be_held(&None, none));
    assert!(limits_can_be_held(&limited("memory", "128Mi"), none));
    assert!(!limits_can_be_held(&limited("memory", "9223372036854775807Ki"), none));
    assert!(limits_can_be_held(&limited("cpu", "92233720368547m"), none));
    assert!(!limits_can_be_held(&limited("cpu", "92233720368548m"), none));
    let r = Some(ResourceRequirements {
        limits: None,
        requests: Some(vec![pair("cpu", "9007199254740992m")]),
    });
    assert!(!limits_can_be_held(&r, none));
}

#[test]
fn updates_carry_the_swap_limit() {
    let u = runtime(false).update_container_resources(Some(1), Some(2), Some(3), Some(4));
    assert_eq!(
        (u.cpu_period, u.cpu_quota, u.cpu_shares, u.memory, u.memory_swap),
        (Some(1), Some(2), Some(3), Some(4), Some(4))
    );
    assert_eq!(
        runtime(false).update_container_resources(None, None, None, None).memory_swap,
        None
    );
}

fn port(n: u16, protocol: Option<&str>) -> ContainerPort {
    ContainerPort {
        container_port: n,
        host_port: None,
        host_ip: None,
        protocol: protocol.map(|s| s.to_string()),
        name: None,
    }
}

#[test]
fn ports_are_declared_once() {
    let mut c = make_container("app");
    c.ports = Some(vec![port(80, None), port(53, Some("UDP")), port(80, Some("TCP"))]);
    assert_eq!(add_ports(vec![], &c), vec!["80/tcp", "53/udp"]);
    assert_eq!(add_ports(texts(&["53/udp"]), &c), vec!["53/udp", "80/tcp"]);
}

#[test]
fn commands_and_arguments() {
    let env = vec![("A".to_string(), "x".to_string())];
    let mut c = make_container("app");
    assert_eq!(container_command(&c, &env), (None, None));
    c.args = Some(texts(&["-v", "$(A)"]));
    assert_eq!(container_command(&c, &env), (None, Some(texts(&["-v", "x"]))));
    c.command = Some(texts(&["run"]));
    assert_eq!(
        container_command(&c, &env),
        (Some(texts(&["run"])), Some(texts(&["-v", "x"])))
    );
    c.args = None;
    assert_eq!(container_command(&c, &env), (Some(texts(&["run"])), Some(vec![])));
}

#[test]
fn a_container_with_a_network_of_its_own() {
    let mut pod = make_pod("web-0");
    pod.spec.as_mut().unwrap().hostname = Some("web".to_string());
    pod.spec.as_mut().unwrap().share_process_namespace = Some(true);
    let mut c = make_container("app");
    c.ports = Some(vec![port(80, None)]);
    c.security_context = Some(SecurityContext {
        allow_privilege_escalation: Some(false),
        read_only_root_filesystem: Some(true),
        capabilities: Some(Capabilities {
            add: Some(texts(&["NET_ADMIN"])),
            drop: Some(texts(&["ALL"])),
        }),
        ..Default::default()
    });
    let r = runtime(true).container_config(
        &pod,
        &c,
        texts(&["A=1"]),
        texts(&["/a:/b"]),
        no_limits(),
        Some("/var/run/netns/cni-web-0"),
    );
    assert_eq!(r.name, "web-0_app");
    assert_eq!(r.image, "nginx:latest");
    assert_eq!(r.env, vec!["A=1"]);
    assert_eq!(r.hostname.as_deref(), Some("web"));
    assert_eq!(r.network_mode, "ns:/var/run/netns/cni-web-0");
    assert_eq!(r.exposed_ports, Some(texts(&["80/tcp"])));
    assert_eq!(r.binds, Some(texts(&["/a:/b"])));
    assert_eq!(r.dns, Some(texts(&["10.96.0.10"])));
    assert_eq!(
        r.dns_search,
        Some(texts(&["default.svc.cluster.local", "svc.cluster.local", "cluster.local"]))
    );
    assert_eq!(r.dns_options, Some(texts(&["ndots:5"])));
    assert_eq!(r.ipc_mode, None);
    assert_eq!(r.pid_mode.as_deref(), Some("container:web-0_pause"));
    assert_eq!(r.uts_mode, None);
    assert_eq!(r.security_opt, Some(texts(&["no-new-privileges"])));
    assert_eq!(r.readonly_rootfs, Some(true));
    assert_eq!(r.cap_add, Some(texts(&["NET_ADMIN"])));
    assert_eq!(r.cap_drop, Some(texts(&["ALL"])));
}

#[test]
fn a_container_in_the_network_of_the_pause_container() {
    let mut rt = runtime(false);
    rt.shared_uts_supported = true;
    let mut c = make_container("app");
    c.ports = Some(vec![port(80, None)]);
    let r = rt.container_config(&make_pod("p"), &c, vec![], vec![], no_limits(), None);
    assert_eq!(r.hostname, None);
    assert_eq!(r.exposed_ports, None);
    assert_eq!(r.dns, None);
    assert_eq!(r.binds, None);
    assert_eq!(r.ipc_mode.as_deref(), Some("container:p_pause"));
    assert_eq!(r.uts_mode.as_deref(), Some("container:p_pause"));
    assert_eq!(r.pid_mode, None);
}

fn inspected(status: EngineStatus, running: bool) -> Option<Inspected> {
    Some(Inspected {
        id: None,
        image: None,
        restart_count: None,
        state: Some(InspectState {
            status: Some(status),
            running: Some(running),
            exit_code: None,
            error: None,
            started_at: None,
            finished_at: None,
        }),
        network_mode: None,
        network_settings: None,
        labels: None,
    })
}

#[test]
fn containers_that_are_there_already() {
    assert_eq!(existing_container(&None, true), ExistingAction::Create);
    assert_eq!(
        existing_container(&inspected(EngineStatus::Running, true), true),
        ExistingAction::RemoveThenCreate
    );
    assert_eq!(
        existing_container(&inspected(EngineStatus::Running, true), false),
        ExistingAction::Leave
    );
    assert_eq!(
        existing_container(&inspected(EngineStatus::Exited, false), false),
        ExistingAction::RemoveThenCreate
    );
    assert_eq!(
        existing_container(&inspected(EngineStatus::Created, false), false),
        ExistingAction::Leave
    );
}

const CONFLICT: &str =
    "409: The container name \"/p_app\" is already in use by container \"abc123\". Remove it";

#[test]
fn the_container_that_has_the_name() {
    assert_eq!(conflicting_container(CONFLICT).as_deref(), Some("abc123"));
    assert_eq!(conflicting_container("no such image"), None);
}

fn made() -> ContainerConfig {
    ContainerConfig { name: "p_app".to_string(), image: "nginx".to_string(), ..Default::default() }
}

#[test]
fn a_taken_name_is_tried_once_more() {
    let rt = runtime(false);
    let step = |p, e: StartEvent, hook| rt.start_container(p, e, "p_app", "app", hook);
    let s = step(StartPhase::Creating(made()), StartEvent::CreateFailed(CONFLICT.to_string()), false);
    assert_eq!(s.phase, StartPhase::Recreating(made()));
    assert_eq!(s.remove, vec!["abc123", "p_app"]);
    assert_eq!(s.wait_millis, 200);
    assert_eq!(s.report, Report::Nothing);
    let s = step(StartPhase::Recreating(made()), StartEvent::CreateFailed(CONFLICT.to_string()), false);
    assert_eq!(s.phase, StartPhase::Failed);
    assert_eq!(s.error.unwrap(), format!("Failed to create container: {CONFLICT}"));
    let s = step(StartPhase::Recreating(made()), StartEvent::Created, false);
    assert_eq!(s.phase, StartPhase::Starting);
    assert_eq!(s.report, Report::Created("Created container app".to_string()));
    let s = step(StartPhase::Starting, StartEvent::Started, false);
    assert_eq!(s.phase, StartPhase::Running);
    assert_eq!(s.report, Report::Started("Started container app".to_string()));
}

#[test]
fn what_is_there_is_removed_or_left() {
    let rt = runtime(false);
    let step = |p, e: StartEvent| rt.start_container(p, e, "p_app", "app", false);
    let running = inspected(EngineStatus::Running, true);
    let s = step(StartPhase::Looking, StartEvent::Found(None, false));
    assert_eq!(s.phase, StartPhase::Preparing);
    let s = step(StartPhase::Looking, StartEvent::Found(running.clone(), false));
    assert_eq!(s.phase, StartPhase::Left);
    let s = step(StartPhase::Looking, StartEvent::Found(running, true));
    assert_eq!(s.phase, StartPhase::Clearing);
    assert_eq!(s.wait_millis, 0);
    let s = step(StartPhase::Clearing, StartEvent::Removed);
    assert_eq!(s.phase, StartPhase::Preparing);
    assert_eq!(s.wait_millis, 100);
    let s = step(StartPhase::Clearing, StartEvent::RemoveFailed("busy".to_string()));
    assert_eq!(s.phase, StartPhase::Failed);
    assert_eq!(s.error.as_deref(), Some("busy"));
    let s = step(StartPhase::Preparing, StartEvent::Prepared(made()));
    assert_eq!(s.phase, StartPhase::Creating(made()));
    let s = step(StartPhase::Preparing, StartEvent::PrepareFailed("bad path".to_string()));
    assert_eq!(s.phase, StartPhase::Failed);
    assert_eq!(s.error.as_deref(), Some("bad path"));
    assert_eq!(s.report, Report::Nothing);
}

#[test]
fn a_failing_hook_stops_the_container() {
    let rt = runtime(false);
    let s = rt.start_container(StartPhase::Starting, StartEvent::Started, "p_app", "app", true);
    assert_eq!(s.phase, StartPhase::Hooking);
    let s = rt.start_container(
        StartPhase::Hooking,
        StartEvent::HookFailed("exit 1".to_string()),
        "p_app",
        "app",
        true,
    );
    assert_eq!(s.phase, StartPhase::Failed);
    assert!(s.kill);
    assert_eq!(s.error.as_deref(), Some("PostStartHook failed for container app: exit 1"));
    let s = rt.start_container(
        StartPhase::Starting,
        StartEvent::StartFailed("no".to_string()),
        "p_app",
        "app",
        true,
    );
    assert_eq!(s.error.as_deref(), Some("Failed to start container p_app: no"));
    assert_eq!(
        s.report,
        Report::Failed("Error: failed to start container app: no".to_string())
    );
}

#[test]
fn the_name_server_does_not_ask_itself() {
    let rt = runtime(true);
    let cores = CpuReadings { limit: 0, request: 0 };
    let plan = |name: &str| {
        let c = make_container("dns");
        rt.plan_container(&make_pod(name), &c, vec![], &vec![], None, None, cores, None).unwrap()
    };
    let own = plan("coredns");
    assert_eq!(own.resolver, None);
    assert_eq!(own.config.dns, None);
    assert_eq!(own.config.dns_search, None);
    assert_eq!(own.config.dns_options, None);
    let other = plan("web");
    assert!(other.resolver.is_some());
    assert_eq!(other.config.dns, Some(texts(&["10.96.0.10"])));
    assert_eq!(other.config.dns_options, Some(texts(&["ndots:5"])));
}

#[test]
fn everything_that_is_made_for_a_container() {
    let rt = runtime(false);
    let pod = make_pod("p");
    let mut c = make_container("app");
    c.args = Some(texts(&["$(DIR)"]));
    c.resources = Some(ResourceRequirements {
        limits: Some(vec![("cpu".to_string(), "100m".to_string())]),
        requests: None,
    });
    c.volume_mounts = Some(vec![VolumeMount {
        name: "data".to_string(),
        mount_path: "/data".to_string(),
        sub_path_expr: Some("$(DIR)/x".to_string()),
        ..Default::default()
    }]);
    let paths = vec![("data".to_string(), "/vol".to_string())];
    let cores = CpuReadings { limit: 0, request: 0 };
    let plan = |c: &Container| {
        rt.plan_container(
            &pod,
            c,
            texts(&["DIR=logs"]),
            &paths,
            None,
            Some("/volumes/p/hosts"),
            cores,
            None,
        )
    };
    let made = plan(&c).unwrap();
    assert_eq!(made.directories, vec!["/vol/logs/x"]);
    assert!(made.resolver.unwrap().starts_with("nameserver 10.96.0.10\n"));
    assert_eq!(made.termination_file, "/volumes/p/termination/app");
    assert_eq!(
        made.config.binds,
        Some(texts(&[
            "/vol/logs/x:/data",
            "/volumes/p/resolv.conf:/etc/resolv.conf:ro",
            "/volumes/p/hosts:/etc/hosts",
            "/volumes/p/termination/app:/dev/termination-log",
        ]))
    );
    assert_eq!(made.config.cmd, Some(texts(&["logs"])));
    assert_eq!(made.config.cpu_quota, Some(10000));
    assert_eq!(made.config.env, vec!["DIR=logs"]);
    c.volume_mounts.as_mut().unwrap()[0].sub_path_expr = Some("/$(DIR)".to_string());
    assert!(plan(&c).unwrap_err().contains("absolute path"));
}
