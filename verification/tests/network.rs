//! Networks, addresses and ports.

use kubelet::engine::{AttachedNetwork, EngineStatus, InspectState, Inspected, Listed, NetworkSettings};
use kubelet::hostport::{
    hostport_chain_hash, hostport_rules, setup_hostport_rules, teardown_hostport_rules, FilterStep,
};
use kubelet::network::{
    find_address, initialize_cni, netns_usable, network_donor, node_internal_ip, own_container_id,
    pod_netns_name, pod_netns_path, select_member, select_pause, setup_pod_network,
    setup_pod_network_via_netstack, NodeAddress,
};
use kubelet::pause::{
    name_is_taken, pause_dependents, pause_sysctls, wait_after_removal, PauseEvent, PausePhase,
};
use kubelet::resources::{
    Container, ContainerPort, ObjectMeta, Pod, PodSecurityContext, PodSpec, Sysctl,
};
use kubelet::runtime::{ContainerRuntime, PodNetworkMode};

fn runtime() -> ContainerRuntime {
    ContainerRuntime::new(
        "/volumes".to_string(),
        "10.96.0.10".to_string(),
        "cluster.local".to_string(),
        "rusternetes-network".to_string(),
        "10.96.0.1".to_string(),
        &None,
        false,
    )
}

fn on(name: &str, ip: &str) -> AttachedNetwork {
    AttachedNetwork { name: name.to_string(), ip_address: Some(ip.to_string()) }
}

fn settings(networks: Vec<AttachedNetwork>, ip: Option<&str>) -> Option<NetworkSettings> {
    Some(NetworkSettings { networks: Some(networks), ip_address: ip.map(|s| s.to_string()) })
}

fn inspected(mode: Option<&str>, s: Option<NetworkSettings>, running: bool) -> Inspected {
    Inspected {
        id: None,
        image: None,
        restart_count: None,
        state: Some(InspectState {
            status: Some(if running { EngineStatus::Running } else { EngineStatus::Exited }),
            running: Some(running),
            exit_code: None,
            error: None,
            started_at: None,
            finished_at: None,
        }),
        network_mode: mode.map(|m| m.to_string()),
        network_settings: s,
        labels: None,
    }
}

fn listed(id: &str, name: &str, mode: Option<&str>) -> Listed {
    Listed {
        id: Some(id.to_string()),
        names: Some(vec![name.to_string()]),
        labels: None,
        network_mode: mode.map(|m| m.to_string()),
        state: Some("running".to_string()),
        created: None,
    }
}

fn make_pod(name: &str, ports: Vec<ContainerPort>) -> Pod {
    Pod {
        metadata: ObjectMeta { name: name.to_string(), ..Default::default() },
        spec: Some(PodSpec {
            containers: vec![Container {
                name: "app".to_string(),
                ports: Some(ports),
                ..Default::default()
            }],
            ..Default::default()
        }),
        status: None,
    }
}

fn port(host: Option<u16>, inner: u16, ip: Option<&str>, protocol: Option<&str>) -> ContainerPort {
    ContainerPort {
        container_port: inner,
        host_port: host,
        host_ip: ip.map(|s| s.to_string()),
        protocol: protocol.map(|s| s.to_string()),
        name: None,
    }
}

#[test]
fn the_network_of_the_pods_comes_first() {
    let rt = runtime();
    let s = settings(vec![on("bridge", "172.17.0.2"), on("rusternetes-network", "10.1.0.2")], None);
    assert_eq!(rt.extract_container_ip(&s), "10.1.0.2");
    let s = settings(vec![on("rusternetes-network", "0.0.0.0"), on("bridge", "172.17.0.2")], None);
    assert_eq!(rt.extract_container_ip(&s), "172.17.0.2");
    assert_eq!(rt.extract_container_ip(&settings(vec![], Some("1.2.3.4"))), "1.2.3.4");
    assert_eq!(rt.extract_container_ip(&None), "127.0.0.1");
    assert_eq!(find_address(&vec![on("a", "1"), on("b", "2")], "b").as_deref(), Some("2"));
}

#[test]
fn a_container_has_the_address_of_its_donor() {
    let rt = runtime();
    let own = inspected(Some("container:p_pause"), settings(vec![], Some("9.9.9.9")), true);
    let pause = inspected(None, settings(vec![on("rusternetes-network", "10.1.0.7")], None), true);
    assert_eq!(network_donor(&own.network_mode).as_deref(), Some("p_pause"));
    assert_eq!(network_donor(&Some("bridge".to_string())), None);
    assert_eq!(
        rt.get_effective_container_ip(&Some(own), &Some(pause.clone())),
        "10.1.0.7"
    );
    assert_eq!(rt.get_effective_container_ip(&Some(pause), &None), "10.1.0.7");
    assert_eq!(rt.get_effective_container_ip(&None, &None), "127.0.0.1");
}

#[test]
fn pods_on_the_network_of_the_node_have_its_address() {
    let mut rt = runtime();
    let joined = Some(inspected(Some("container:kubelet"), None, true));
    assert_eq!(rt.get_pod_ip(None, &joined, "192.168.0.5").as_deref(), Some("192.168.0.5"));
    let own = Some(inspected(None, settings(vec![on("rusternetes-network", "10.1.0.7")], None), true));
    assert_eq!(
        rt.get_pod_ip(Some("10.244.0.3".to_string()), &own, "n").as_deref(),
        Some("10.1.0.7")
    );
    rt.use_cni = true;
    assert_eq!(
        rt.get_pod_ip(Some("10.244.0.3".to_string()), &own, "n").as_deref(),
        Some("10.244.0.3")
    );
    assert_eq!(rt.get_pod_ip(None, &None, "n"), None);
}

#[test]
fn the_pause_container_of_a_pod_is_selected() {
    let list = vec![
        listed("1", "/web-1_pause", None),
        listed("2", "/web_app", None),
        listed("3", "/web_pause", None),
    ];
    assert_eq!(select_pause(&list, "web"), Some(2));
    assert_eq!(select_member(&list, "web"), Some(1));
    assert_eq!(select_pause(&list, "db"), None);
}

#[test]
fn namespaces_of_pods() {
    assert_eq!(pod_netns_name("p"), "cni-p");
    assert_eq!(pod_netns_path("p"), "/var/run/netns/cni-p");
    assert!(netns_usable(Some(true), ""));
    assert!(netns_usable(Some(false), "Cannot create: File exists"));
    assert!(!netns_usable(Some(false), "Operation not permitted"));
    assert!(!netns_usable(None, ""));
    let s = setup_pod_network("p", true, true);
    assert_eq!(s.made, Some(("/var/run/netns/cni-p".to_string(), None)));
    assert!(setup_pod_network("p", true, false).delete_namespace);
    assert!(!setup_pod_network("p", false, false).delete_namespace);
    let s = setup_pod_network_via_netstack("p", true, Some("10.0.0.2".to_string()));
    assert_eq!(
        s.made,
        Some(("/var/run/netns/cni-p".to_string(), Some("10.0.0.2".to_string())))
    );
    assert!(setup_pod_network_via_netstack("p", true, None).delete_namespace);
}

#[test]
fn when_plugins_are_used() {
    assert_eq!(initialize_cni(true, Some(false), "Operation not permitted"), Ok(()));
    assert_eq!(initialize_cni(true, None, ""), Ok(()));
    assert_eq!(
        initialize_cni(false, None, "").unwrap_err(),
        "CNI plugin directory not found"
    );
    assert_eq!(
        initialize_cni(true, Some(true), "").unwrap_err(),
        "Network namespace isolation prevents CNI usage"
    );
}

#[test]
fn the_address_of_the_node() {
    let a = |ip: &str, is_v4, is_loopback| NodeAddress { ip: ip.to_string(), is_v4, is_loopback };
    assert_eq!(
        node_internal_ip(&vec![
            a("127.0.0.1", true, true),
            a("fd00::1", false, false),
            a("10.0.0.5", true, false)
        ]),
        "10.0.0.5"
    );
    assert_eq!(node_internal_ip(&vec![]), "127.0.0.1");
    assert_eq!(own_container_id(&Some("abc".to_string())).as_deref(), Some("abc"));
    assert_eq!(own_container_id(&Some(String::new())), None);
    assert_eq!(own_container_id(&None), None);
}

#[test]
fn the_embedded_network_is_active_only_when_asked_for() {
    assert!(!runtime().with_netstack().netstack_active());
    assert!(runtime()
        .with_netstack()
        .with_pod_network_mode(PodNetworkMode::NetstackActive)
        .netstack_active());
    assert!(!runtime().with_pod_network_mode(PodNetworkMode::NetstackActive).netstack_active());
}

#[test]
fn chains_are_named_by_a_hash() {
    assert_eq!(hostport_chain_hash(""), "811c9dc5");
    assert_eq!(hostport_chain_hash("a"), "e40c292c");
    assert_eq!(hostport_chain_hash("foobar"), "bf9cf968");
}

fn words(line: &str) -> Vec<String> {
    line.split(' ').map(|w| w.to_string()).collect()
}

#[test]
fn open_ports_are_redirected() {
    let pod = make_pod(
        "a",
        vec![
            port(Some(8080), 80, Some("0.0.0.0"), None),
            port(None, 81, None, None),
            port(Some(0), 82, None, None),
            port(Some(53), 5353, Some("10.0.0.1"), Some("UDP")),
        ],
    );
    assert_eq!(hostport_rules(&pod).len(), 2);
    let steps = setup_hostport_rules(&pod, "10.1.0.2");
    let expected = vec![
        FilterStep::Run(words("-t nat -N RK-HP-e40c292c")),
        FilterStep::Run(words("-t nat -F RK-HP-e40c292c")),
        FilterStep::Run(words("-t nat -N RK-MQ-e40c292c")),
        FilterStep::Run(words("-t nat -F RK-MQ-e40c292c")),
        FilterStep::Run(words(
            "-t nat -A RK-HP-e40c292c -p tcp --dport 8080 -j DNAT --to-destination 10.1.0.2:80",
        )),
        FilterStep::Run(words(
            "-t nat -A RK-MQ-e40c292c -p tcp -d 10.1.0.2 --dport 80 -j MASQUERADE",
        )),
        FilterStep::Run(words(
            "-t nat -A RK-HP-e40c292c -p udp -d 10.0.0.1 --dport 53 -j DNAT --to-destination 10.1.0.2:5353",
        )),
        FilterStep::Run(words(
            "-t nat -A RK-MQ-e40c292c -p udp -d 10.1.0.2 --dport 5353 -j MASQUERADE",
        )),
        FilterStep::Unless(
            words("-t nat -C PREROUTING -j RK-HP-e40c292c"),
            words("-t nat -A PREROUTING -j RK-HP-e40c292c"),
        ),
        FilterStep::Unless(
            words("-t nat -C OUTPUT -j RK-HP-e40c292c"),
            words("-t nat -A OUTPUT -j RK-HP-e40c292c"),
        ),
        FilterStep::Unless(
            words("-t nat -C POSTROUTING -j RK-MQ-e40c292c"),
            words("-t nat -A POSTROUTING -j RK-MQ-e40c292c"),
        ),
    ];
    assert_eq!(steps, expected);
    assert_eq!(
        teardown_hostport_rules("a"),
        vec![
            FilterStep::Run(words("-t nat -D PREROUTING -j RK-HP-e40c292c")),
            FilterStep::Run(words("-t nat -D OUTPUT -j RK-HP-e40c292c")),
            FilterStep::Run(words("-t nat -D POSTROUTING -j RK-MQ-e40c292c")),
            FilterStep::Run(words("-t nat -F RK-HP-e40c292c")),
            FilterStep::Run(words("-t nat -X RK-HP-e40c292c")),
            FilterStep::Run(words("-t nat -F RK-MQ-e40c292c")),
            FilterStep::Run(words("-t nat -X RK-MQ-e40c292c")),
        ]
    );
}

#[test]
fn without_open_ports_nothing_is_done() {
    assert!(setup_hostport_rules(&make_pod("a", vec![port(None, 80, None, None)]), "x").is_empty());
    let mut pod = make_pod("a", vec![port(Some(80), 80, None, None)]);
    pod.spec.as_mut().unwrap().host_network = Some(true);
    assert!(setup_hostport_rules(&pod, "x").is_empty());
}

fn after(pod: &Pod, joins: bool, node_ip: &str, phase: PausePhase, e: PauseEvent) -> PausePhase {
    runtime().start_pause_container(pod, joins, node_ip, phase, &e)
}

#[test]
fn pause_containers_are_used_where_they_can_be() {
    let rt = runtime();
    let mut pod = make_pod("p", vec![]);
    let good = inspected(
        Some("rusternetes-network"),
        settings(vec![on("rusternetes-network", "10.1.0.2")], None),
        true,
    );
    let look = |pod: &Pod, i: Option<Inspected>, joins| {
        after(pod, joins, "192.168.0.5", PausePhase::Looking, PauseEvent::Found(i))
    };
    assert_eq!(
        look(&pod, Some(good.clone()), false),
        PausePhase::Ready("10.1.0.2".to_string())
    );
    assert_eq!(look(&pod, Some(good.clone()), true), PausePhase::Removing);
    assert_eq!(look(&pod, None, false), PausePhase::Pulling);
    let mut stopped = good.clone();
    stopped.state.as_mut().unwrap().running = Some(false);
    assert_eq!(look(&pod, Some(stopped), false), PausePhase::Removing);
    let node = inspected(Some("container:kubelet"), None, true);
    assert_eq!(rt.reuse_pause(&good, false, false, "n").as_deref(), Some("10.1.0.2"));
    assert_eq!(rt.reuse_pause(&node, false, false, "n"), None);
    pod.spec.as_mut().unwrap().host_network = Some(true);
    assert_eq!(
        look(&pod, Some(node), true),
        PausePhase::Ready("192.168.0.5".to_string())
    );
}

#[test]
fn steps_of_starting_a_pause_container() {
    let pod = make_pod("p", vec![]);
    let step = |phase: PausePhase, e: PauseEvent| after(&pod, false, "n", phase, e);
    let fail = |m: &str| PausePhase::Failed(m.to_string());
    let conflict = || PauseEvent::CreateFailed("409 Conflict".to_string());
    assert_eq!(step(PausePhase::Removing, PauseEvent::Removed), PausePhase::Pulling);
    assert_eq!(step(PausePhase::Pulling, PauseEvent::Pulled(true)), PausePhase::Creating);
    assert_eq!(
        step(PausePhase::Pulling, PauseEvent::Pulled(false)),
        fail("Failed to ensure busybox image for pause container")
    );
    assert_eq!(step(PausePhase::Creating, PauseEvent::Created), PausePhase::Starting);
    assert_eq!(step(PausePhase::Creating, conflict()), PausePhase::Clearing);
    assert_eq!(step(PausePhase::Clearing, PauseEvent::Removed), PausePhase::CreatingAgain);
    assert_eq!(
        step(PausePhase::CreatingAgain, conflict()),
        fail("Failed to create pause container after cleanup")
    );
    assert_eq!(step(PausePhase::CreatingAgain, PauseEvent::Created), PausePhase::Starting);
    assert_eq!(
        step(PausePhase::Creating, PauseEvent::CreateFailed("no image".to_string())),
        fail("Failed to create pause container")
    );
    assert_eq!(step(PausePhase::Starting, PauseEvent::Started(true)), PausePhase::Checking);
    assert_eq!(
        step(PausePhase::Starting, PauseEvent::Started(false)),
        fail("Failed to start pause container")
    );
    let checked = |running, late| PauseEvent::Checked { running, late };
    assert_eq!(step(PausePhase::Checking, checked(true, true)), PausePhase::Reading);
    assert_eq!(step(PausePhase::Checking, checked(false, false)), PausePhase::Checking);
    assert_eq!(
        step(PausePhase::Checking, checked(false, true)),
        fail("Pause container p_pause did not reach running state within 10s")
    );
    let lost = |late| PauseEvent::CheckFailed { error: "gone".to_string(), late };
    assert_eq!(step(PausePhase::Checking, lost(false)), PausePhase::Checking);
    assert_eq!(
        step(PausePhase::Checking, lost(true)),
        fail("Pause container p_pause inspect failed after 10s: gone")
    );
    assert_eq!(step(PausePhase::Checking, PauseEvent::Created), PausePhase::Checking);
    assert_eq!(step(fail("x"), PauseEvent::Created), fail("x"));
    assert!(name_is_taken("name is already in use"));
    assert!(!name_is_taken("no image"));
    assert_eq!((wait_after_removal(true), wait_after_removal(false)), (100, 500));
}

#[test]
fn the_address_of_a_started_pause_container() {
    let mut pod = make_pod("p", vec![]);
    let up = inspected(None, settings(vec![on("rusternetes-network", "10.1.0.9")], None), true);
    let read =
        |pod: &Pod, i| after(pod, false, "n", PausePhase::Reading, PauseEvent::Found(i));
    assert_eq!(read(&pod, Some(up)), PausePhase::Ready("10.1.0.9".to_string()));
    assert_eq!(
        read(&pod, Some(inspected(None, None, true))),
        PausePhase::Failed("Pause container started but no IP address was assigned".to_string())
    );
    assert_eq!(
        read(&pod, None),
        PausePhase::Failed("Failed to inspect pause container".to_string())
    );
    pod.spec.as_mut().unwrap().host_network = Some(true);
    let e = PauseEvent::Checked { running: true, late: false };
    assert_eq!(
        after(&pod, true, "1.1.1.1", PausePhase::Checking, e),
        PausePhase::Ready("1.1.1.1".to_string())
    );
}

#[test]
fn the_pause_container_declares_everything() {
    let rt = runtime();
    let mut pod = make_pod("p", vec![port(None, 80, None, None)]);
    let spec = pod.spec.as_mut().unwrap();
    spec.containers.push(Container {
        name: "b".to_string(),
        ports: Some(vec![port(None, 80, None, None), port(None, 53, None, Some("UDP"))]),
        ..Default::default()
    });
    spec.security_context = Some(PodSecurityContext {
        sysctls: Some(vec![Sysctl {
            name: "net/ipv4/ip_forward".to_string(),
            value: "1".to_string(),
        }]),
        ..Default::default()
    });
    let c = rt.pause_config(&pod, None);
    assert_eq!(c.name, "p_pause");
    assert_eq!(c.image, "busybox:latest");
    assert_eq!(c.cmd, Some(vec!["sleep".to_string(), "infinity".to_string()]));
    assert_eq!(c.exposed_ports, Some(vec!["80/tcp".to_string(), "53/udp".to_string()]));
    assert_eq!(c.hostname.as_deref(), Some("p"));
    assert_eq!(c.network_mode, "rusternetes-network");
    assert_eq!(c.ipc_mode.as_deref(), Some("shareable"));
    assert_eq!(c.dns, Some(vec!["10.96.0.10".to_string()]));
    assert_eq!(
        c.sysctls,
        Some(vec![("net.ipv4.ip_forward".to_string(), "1".to_string())])
    );
    assert_eq!(c.sysctls, pause_sysctls(&pod));
    let c = rt.pause_config(&pod, Some("abc"));
    assert_eq!(c.network_mode, "container:abc");
    assert_eq!((c.hostname, c.exposed_ports, c.dns), (None, None, None));
}

#[test]
fn dependents_of_a_pause_container() {
    let list = vec![
        listed("1", "/p_app", Some("container:abc")),
        listed("2", "/q_app", Some("container:def")),
        listed("3", "/p_side", Some("container:abc")),
    ];
    assert_eq!(pause_dependents(&list, "abc"), vec!["1", "3"]);
}
