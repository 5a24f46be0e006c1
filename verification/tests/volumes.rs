//! Directories, mounts and volumes.

use kubelet::hostpath::{check_host_path_type, plan_host_path, FileKind, HostPathCheck, HostPathPlan};
use kubelet::hosts::{atomic_temp_name, create_pod_hosts_file, hosts_exec_command, hosts_file_outdated};
use kubelet::mounts::{
    has_hosts_mount, mount_paths_settle, mount_volumes, pod_dir_key, termination_message_path,
};
use kubelet::resources::{
    Container, HostAlias, ObjectMeta, Pod, PodSpec, VolumeMount,
};
use kubelet::runtime::ContainerRuntime;
use kubelet::stop::tmpfs_options;

fn runtime(base: &str) -> ContainerRuntime {
    ContainerRuntime::new(
        base.to_string(),
        "10.96.0.10".to_string(),
        "cluster.local".to_string(),
        "rusternetes-network".to_string(),
        "10.96.0.1".to_string(),
        &None,
        false,
    )
}

fn make_container(name: &str) -> Container {
    Container {
        name: name.to_string(),
        image: "nginx:latest".to_string(),
        image_pull_policy: Some("IfNotPresent".to_string()),
        ..Default::default()
    }
}

fn make_pod(name: &str, namespace: &str, hostname: Option<&str>, subdomain: Option<&str>) -> Pod {
    Pod {
        metadata: ObjectMeta {
            name: name.to_string(),
            namespace: Some(namespace.to_string()),
            ..Default::default()
        },
        spec: Some(PodSpec {
            containers: vec![make_container("app")],
            restart_policy: Some("Always".to_string()),
            hostname: hostname.map(|s| s.to_string()),
            subdomain: subdomain.map(|s| s.to_string()),
            ..Default::default()
        }),
        status: None,
    }
}

fn mount(name: &str, path: &str) -> VolumeMount {
    VolumeMount { name: name.to_string(), mount_path: path.to_string(), ..Default::default() }
}

fn pairs(list: &[(&str, &str)]) -> Vec<(String, String)> {
    list.iter().map(|p| (p.0.to_string(), p.1.to_string())).collect()
}

#[test]
fn test_hosts_file_path_format() {
    let rt = runtime("/var/lib/rusternetes/volumes");
    assert_eq!(rt.hosts_file_path("my-pod"), "/var/lib/rusternetes/volumes/my-pod/hosts");
}

#[test]
fn test_resolv_conf_and_hosts_colocated() {
    let rt = runtime("/var/lib/rusternetes/volumes");
    let hosts_path = rt.hosts_file_path("my-pod");
    let resolv_path = rt.resolver_file_path("my-pod");
    assert_eq!(
        std::path::Path::new(&hosts_path).parent(),
        std::path::Path::new(&resolv_path).parent(),
    );
}

#[test]
fn test_podspec_subdomain_field_default_none() {
    let pod = make_pod("test", "default", None, None);
    assert!(pod.spec.as_ref().unwrap().subdomain.is_none());
}

#[test]
fn test_podspec_subdomain_field_can_be_set() {
    let pod = make_pod("web-0", "default", Some("web-0"), Some("nginx"));
    let spec = pod.spec.as_ref().unwrap();
    assert_eq!(spec.subdomain, Some("nginx".to_string()));
    assert_eq!(spec.hostname, Some("web-0".to_string()));
}

#[test]
fn test_emptydir_volume_path_format() {
    let rt = runtime("/volumes");
    let expected_path = format!("{}/{}", rt.pod_directory("test-pod-emptydir"), "test-volume");
    assert_eq!(expected_path, "/volumes/test-pod-emptydir/test-volume");
}

#[test]
fn pod_dir_key_uses_uid_when_present() {
    let mut pod = make_pod("p", "default", None, None);
    pod.metadata.uid = "abc-123".to_string();
    assert_eq!(pod_dir_key(&pod), "abc-123");
}

#[test]
fn pod_dir_key_falls_back_to_name_when_uid_empty() {
    let mut pod = make_pod("static-pod", "kube-system", None, None);
    pod.metadata.uid = String::new();
    assert_eq!(pod_dir_key(&pod), "static-pod");
}

#[test]
fn pod_dir_key_isolates_recreated_pod_with_same_name() {
    let mut a = make_pod("e2e-conformance-test", "conformance", None, None);
    let mut b = make_pod("e2e-conformance-test", "conformance", None, None);
    a.metadata.uid = "uid-a".to_string();
    b.metadata.uid = "uid-b".to_string();
    assert_ne!(pod_dir_key(&a), pod_dir_key(&b));
}

#[test]
fn test_hostpath_volume_path() {
    let path = "/tmp/test-hostpath";
    assert_eq!(path, "/tmp/test-hostpath");
}

#[test]
fn test_volume_bind_string_format() {
    let paths = pairs(&[("vol", "/tmp/test")]);
    let mut c = make_container("app");
    c.volume_mounts = Some(vec![mount("vol", "/data")]);
    let (binds, _) = mount_volumes(&c, &vec![], &paths).unwrap();
    assert_eq!(binds, vec!["/tmp/test:/data"]);

    c.volume_mounts.as_mut().unwrap()[0].read_only = Some(true);
    let (binds, _) = mount_volumes(&c, &vec![], &paths).unwrap();
    assert_eq!(binds, vec!["/tmp/test:/data:ro"]);
}

#[test]
fn test_cleanup_volume_path() {
    assert_eq!(runtime("/volumes").pod_directory("test-pod"), "/volumes/test-pod");
}

#[test]
fn test_hostpath_types() {
    let types = vec![
        "DirectoryOrCreate",
        "Directory",
        "FileOrCreate",
        "File",
        "Socket",
        "CharDevice",
        "BlockDevice",
    ];
    for hp_type in types {
        assert!(!hp_type.is_empty());
        assert_ne!(
            check_host_path_type(Some(hp_type), Some(FileKind::Other), true, true),
            HostPathCheck::UnsupportedType
        );
    }
}

#[test]
fn test_downward_api_field_paths() {
    let field_paths = vec![
        "metadata.name",
        "metadata.namespace",
        "metadata.uid",
        "spec.nodeName",
        "spec.serviceAccountName",
        "status.podIP",
        "status.hostIP",
    ];
    for path in field_paths {
        assert!(path.contains('.'));
    }
}

#[test]
fn test_downward_api_label_syntax() {
    let field_path = "metadata.labels['app']";
    assert!(field_path.starts_with("metadata.labels['"));
    assert!(field_path.ends_with("']"));
    let key = &field_path[17..field_path.len() - 2];
    assert_eq!(key, "app");
}

#[test]
fn test_downward_api_annotation_syntax() {
    let field_path = "metadata.annotations['description']";
    assert!(field_path.starts_with("metadata.annotations['"));
    assert!(field_path.ends_with("']"));
    let key = &field_path[22..field_path.len() - 2];
    assert_eq!(key, "description");
}

#[test]
fn test_ephemeral_pvc_naming() {
    let pod_name = "test-pod";
    let volume_name = "cache";
    let pvc_name = format!("{}-{}", pod_name, volume_name);
    assert_eq!(pvc_name, "test-pod-cache");
}

#[test]
fn test_csi_volume_directory_format() {
    let volume_dir = format!("{}/{}", runtime("/volumes").pod_directory("test-pod"), "csi-vol");
    assert_eq!(volume_dir, "/volumes/test-pod/csi-vol");
}

#[test]
fn test_docker_volume_sentinel_path_detection() {
    let sentinel = "docker-vol::rusternetes-emptydir-test-pod-vol1";
    assert!(sentinel.starts_with("docker-vol::"));
    let vol_name = sentinel.strip_prefix("docker-vol::").unwrap();
    assert_eq!(vol_name, "rusternetes-emptydir-test-pod-vol1");
    let regular = "/volumes/test-pod/vol1";
    assert!(!regular.starts_with("docker-vol::"));
}

#[test]
fn test_emptydir_docker_volume_name_format() {
    let docker_vol_name = format!("rusternetes-emptydir-{}-{}", "test-pod", "cache-vol");
    assert_eq!(docker_vol_name, "rusternetes-emptydir-test-pod-cache-vol");
    let rt = runtime("/volumes");
    let removed = rt
        .cleanup_pod_volumes(
            "test-pod",
            false,
            &vec![docker_vol_name.clone(), "rusternetes-emptydir-other-cache-vol".to_string()],
        )
        .unwrap();
    assert_eq!(removed, vec![docker_vol_name]);
}

#[test]
fn test_sub_path_expr_empty_string_treated_as_unset() {
    let paths = pairs(&[("vol", "/data")]);
    let env = pairs(&[("POD_NAME", "my-pod")]);
    let with_expr = |expr: Option<&str>| {
        let mut c = make_container("app");
        let mut m = mount("vol", "/x");
        m.sub_path_expr = expr.map(|s| s.to_string());
        c.volume_mounts = Some(vec![m]);
        mount_volumes(&c, &env, &paths).unwrap().0
    };
    assert_eq!(with_expr(Some("")), vec!["/data:/x"], "Some(\"\") must be treated as unset");
    assert_eq!(with_expr(None), vec!["/data:/x"], "None must be treated as unset");
    assert_eq!(
        with_expr(Some("$(POD_NAME)")),
        vec!["/data/my-pod:/x"],
        "Some(non-empty) must trigger expansion"
    );
}

#[test]
fn test_termination_message_path_empty_string_defaults() {
    let resolve = |o: Option<&str>| {
        let mut c = make_container("app");
        c.termination_message_path = o.map(|s| s.to_string());
        termination_message_path(&c).to_string()
    };
    assert_eq!(resolve(None), "/dev/termination-log");
    assert_eq!(resolve(Some("")), "/dev/termination-log");
    assert_eq!(resolve(Some("/var/log/custom")), "/var/log/custom");
}

#[test]
fn test_termination_message_path_default_yields_valid_bind_spec() {
    let rt = runtime("/var/lib/kubelet");
    let mut c = make_container("conformance-container");
    c.termination_message_path = Some(String::new());
    let binds = rt.container_binds("pod", &c, vec![], false, None);
    let bind = binds.last().unwrap();
    assert_eq!(
        bind,
        "/var/lib/kubelet/pod/termination/conformance-container:/dev/termination-log"
    );
    assert!(
        bind.ends_with(":/dev/termination-log"),
        "bind spec must have a non-empty container target, got {bind}"
    );
}

#[test]
fn test_etc_hosts_bind_mount_is_read_write() {
    let rt = runtime("/volumes");
    let c = make_container("app");
    let hosts_path = "/var/lib/kubelet/pods/abc/etc-hosts";
    let binds = rt.container_binds("p", &c, vec![], false, Some(hosts_path));
    let bind = &binds[0];
    assert!(!bind.contains(":ro"), "/etc/hosts bind mount must not be read-only, got: {}", bind);
    assert!(
        bind.ends_with(":/etc/hosts"),
        "bind mount should end with :/etc/hosts (no :ro suffix), got: {}",
        bind
    );
}

#[test]
fn test_etc_hosts_vs_resolv_conf_mount_mode() {
    let rt = runtime("/tmp");
    let c = make_container("app");
    let binds = rt.container_binds("p", &c, vec![], true, Some("/tmp/hosts"));
    assert_eq!(binds[0], "/tmp/p/resolv.conf:/etc/resolv.conf:ro");
    assert_eq!(binds[1], "/tmp/hosts:/etc/hosts");
    assert!(binds[0].contains(":ro"), "resolv.conf should be mounted read-only");
    assert!(!binds[1].contains(":ro"), "/etc/hosts should be mounted read-write");
}

#[test]
fn test_has_emptydir_mount_detection() {
    let empty_dir_volumes = vec!["cache-vol".to_string()];
    let detects = |c: &Container| {
        c.volume_mounts
            .as_ref()
            .map(|mounts| mounts.iter().any(|m| empty_dir_volumes.contains(&m.name)))
            .unwrap_or(false)
    };
    let mut container_with = make_container("app");
    container_with.volume_mounts = Some(vec![mount("cache-vol", "/cache")]);
    assert!(detects(&container_with), "should detect emptyDir mount");
    let mut container_without = make_container("sidecar");
    container_without.volume_mounts = Some(vec![mount("config-vol", "/config")]);
    assert!(
        !detects(&container_without),
        "should not detect emptyDir mount for non-emptyDir volume"
    );
    assert!(
        !detects(&make_container("plain")),
        "should not detect emptyDir mount when no volume mounts"
    );
}

#[test]
fn bad_paths_below_a_volume_are_refused() {
    let paths = pairs(&[("vol", "/data")]);
    let with_sub = |sub: &str| {
        let mut c = make_container("app");
        let mut m = mount("vol", "/x");
        m.sub_path = Some(sub.to_string());
        c.volume_mounts = Some(vec![m]);
        mount_volumes(&c, &vec![], &paths)
    };
    assert_eq!(
        with_sub("/etc").unwrap_err(),
        "CreateContainerConfigError: subPath must not be an absolute path in container app"
    );
    assert_eq!(
        with_sub("a`b").unwrap_err(),
        "CreateContainerConfigError: subPath must not contain backticks in container app"
    );
    assert_eq!(
        with_sub("a/../b").unwrap_err(),
        "CreateContainerConfigError: subPath must not contain '..' in container app"
    );
    assert_eq!(
        with_sub("a/b").unwrap(),
        (vec!["/data/a/b:/x".to_string()], vec!["/data/a/b".to_string()])
    );
    let mut c = make_container("app");
    let mut m = mount("vol", "/x");
    m.sub_path_expr = Some("$(EMPTY)".to_string());
    c.volume_mounts = Some(vec![m.clone()]);
    assert_eq!(
        mount_volumes(&c, &pairs(&[("EMPTY", "")]), &paths).unwrap_err(),
        "CreateContainerConfigError: subPathExpr '$(EMPTY)' expanded to empty string in container app"
    );
    assert_eq!(
        mount_volumes(&c, &vec![], &paths).unwrap_err(),
        "CreateContainerConfigError: subPathExpr expansion failed for container app: variable EMPTY not found"
    );
    m.sub_path_expr = Some("$(LOOP)".to_string());
    c.volume_mounts = Some(vec![m]);
    assert!(!mount_paths_settle(&c, &pairs(&[("LOOP", "$(LOOP)")]), 100));
    assert!(mount_paths_settle(&c, &pairs(&[("LOOP", "a")]), 100));
}

#[test]
fn a_container_keeps_its_own_hosts_file() {
    let rt = runtime("/volumes");
    let mut c = make_container("app");
    assert!(!has_hosts_mount(&c));
    c.volume_mounts = Some(vec![mount("hosts", "/etc/hosts")]);
    assert!(has_hosts_mount(&c));
    let binds = rt.container_binds("p", &c, vec![], false, Some("/volumes/p/hosts"));
    assert_eq!(binds, vec!["/volumes/p/termination/app:/dev/termination-log"]);
    let bound = vec!["/x:/etc/hosts".to_string(), "/y:/etc/resolv.conf".to_string()];
    let binds = rt.container_binds(
        "p",
        &make_container("app"),
        bound,
        true,
        Some("/volumes/p/hosts"),
    );
    assert_eq!(
        binds,
        vec![
            "/x:/etc/hosts",
            "/y:/etc/resolv.conf",
            "/volumes/p/termination/app:/dev/termination-log"
        ]
    );
}

#[test]
fn hosts_files_of_pods() {
    let mut pod = make_pod("p", "default", None, None);
    assert_eq!(
        create_pod_hosts_file(&pod, "node file", Some("managed".to_string())),
        Some("managed".to_string())
    );
    pod.spec.as_mut().unwrap().host_network = Some(true);
    assert_eq!(create_pod_hosts_file(&pod, "127.0.0.1\tlocalhost", None), None);
    pod.spec.as_mut().unwrap().host_aliases = Some(vec![
        HostAlias {
            ip: "1.2.3.4".to_string(),
            hostnames: Some(vec!["foo.local".to_string(), "bar.local".to_string()]),
        },
        HostAlias { ip: "5.6.7.8".to_string(), hostnames: None },
    ]);
    assert_eq!(
        create_pod_hosts_file(&pod, "127.0.0.1\tlocalhost", None),
        Some(
            "127.0.0.1\tlocalhost\n\n# Entries added by HostAliases.\n1.2.3.4\tfoo.local\tbar.local\n"
                .to_string()
        )
    );
    assert!(hosts_file_outdated(None, "x"));
    assert!(hosts_file_outdated(Some("y"), "x"));
    assert!(!hosts_file_outdated(Some("x"), "x"));
    assert_eq!(hosts_exec_command(true, "x\n"), None);
    assert_eq!(
        hosts_exec_command(false, "x\n"),
        Some(vec![
            "sh".to_string(),
            "-c".to_string(),
            "cat > /etc/hosts << 'KUBEEOF'\nx\nKUBEEOF".to_string()
        ])
    );
    assert_eq!(atomic_temp_name(&Some("hosts".to_string()), 12, 3), ".hosts.tmp.12.3");
    assert_eq!(atomic_temp_name(&None, 1, 0), ".file.tmp.1.0");
    assert_ne!(atomic_temp_name(&None, 1, 23), atomic_temp_name(&None, 12, 3));
}

#[test]
fn host_paths_are_checked_by_their_type() {
    assert_eq!(check_host_path_type(None, None, false, false), HostPathCheck::Valid);
    assert_eq!(check_host_path_type(Some(""), None, false, false), HostPathCheck::Valid);
    assert_eq!(
        check_host_path_type(Some("Directory"), Some(FileKind::Directory), true, false),
        HostPathCheck::Valid
    );
    assert_eq!(
        check_host_path_type(Some("Directory"), Some(FileKind::File), true, false),
        HostPathCheck::WrongKind
    );
    assert_eq!(
        check_host_path_type(Some("File"), None, true, false),
        HostPathCheck::Missing
    );
    assert_eq!(
        check_host_path_type(Some("Socket"), Some(FileKind::Socket), true, false),
        HostPathCheck::Valid
    );
    assert_eq!(
        check_host_path_type(Some("Elsewhere"), Some(FileKind::File), true, false),
        HostPathCheck::UnsupportedType
    );
    assert_eq!(plan_host_path(Some("DirectoryOrCreate"), None), HostPathPlan::CreateDirectory);
    assert_eq!(plan_host_path(Some("FileOrCreate"), None), HostPathPlan::CreateFile);
}

#[test]
fn memory_directories_are_mounted_with_options() {
    assert_eq!(tmpfs_options(None), "mode=0777");
    assert_eq!(tmpfs_options(Some(67108864)), "mode=0777,size=67108864");
}

#[test]
fn the_base_path_is_kept() {
    assert_eq!(runtime("/data").volumes_base_path(), "/data");
    assert_eq!(
        runtime("/data").termination_file_path("web-0", "app"),
        "/data/web-0/termination/app"
    );
}
