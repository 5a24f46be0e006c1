//! Starting, stopping and watching pods.

use kubelet::engine::{EngineStatus, InspectState, Inspected, Listed};
use kubelet::gc::{age_since, containers_removed, pod_of_container, CollectStep};
use kubelet::metrics::{add_usage, cpu_share, memory_in_use, node_memory, ContainerUsage, CpuShare};
use kubelet::resources::{
    Container, ContainerState, ContainerStatus, EmptyDir, Lifecycle, LifecycleHandler, ObjectMeta,
    Phase, Pod, PodSecurityContext, PodSpec, PodStatus, Sysctl, Volume,
};
use kubelet::runtime::{ContainerRuntime, PodNetworkMode};
use kubelet::start_pod::{
    images_to_pull, retry_backoff, retry_message, terminal_phase, wait_for_container_completion,
    write_terminal_status, InitWait, PodEvent, PodPhase, PodStart, StartResult,
};
use kubelet::stop::{
    hooks_are_of_pod, prestop_runs, sweep_stale_incarnations, watched_containers, PrestopRun, StopStep,
    StopTurn,
};
use kubelet::time::Timestamp;

fn runtime() -> ContainerRuntime {
    ContainerRuntime::new(
        "/volumes".to_string(),
        "10.96.0.10".to_string(),
        "cluster.local".to_string(),
        "rusternetes-network".to_string(),
        "10.96.0.1".to_string(),
        &None,
        false,
    )
}

fn at(secs: i64) -> Timestamp {
    Timestamp { secs, nanos: 0 }
}

fn make_container(name: &str, image: &str) -> Container {
    Container { name: name.to_string(), image: image.to_string(), ..Default::default() }
}

fn make_pod(name: &str, policy: &str) -> Pod {
    Pod {
        metadata: ObjectMeta {
            name: name.to_string(),
            uid: "uid-1".to_string(),
            ..Default::default()
        },
        spec: Some(PodSpec {
            containers: vec![make_container("app", "nginx")],
            restart_policy: Some(policy.to_string()),
            ..Default::default()
        }),
        status: None,
    }
}

fn listed(id: &str, name: &str, state: &str, created: i64) -> Listed {
    Listed {
        id: Some(id.to_string()),
        names: Some(vec![name.to_string()]),
        labels: None,
        network_mode: None,
        state: Some(state.to_string()),
        created: Some(created),
    }
}

fn texts(list: &[&str]) -> Vec<String> {
    list.iter().map(|s| s.to_string()).collect()
}

fn state(running: bool, code: Option<i64>, error: Option<&str>) -> Option<InspectState> {
    Some(InspectState {
        status: Some(if running { EngineStatus::Running } else { EngineStatus::Exited }),
        running: Some(running),
        exit_code: code,
        error: error.map(|s| s.to_string()),
        started_at: Some("2026-01-01T00:00:00Z".to_string()),
        finished_at: None,
    })
}

fn inspected(s: Option<InspectState>) -> Option<Inspected> {
    Some(Inspected {
        id: None,
        image: None,
        restart_count: None,
        state: s,
        network_mode: None,
        network_settings: None,
        labels: None,
    })
}

fn run(rt: &ContainerRuntime, pod: &Pod, events: &[PodEvent]) -> PodStart {
    let mut s = PodStart::begin();
    for e in events {
        rt.start_pod(pod, &mut s, again(e));
    }
    s
}

/// The same event once more.
fn again(e: &PodEvent) -> PodEvent {
    match e {
        PodEvent::Guarded { running } => PodEvent::Guarded { running: *running },
        PodEvent::Done => PodEvent::Done,
        PodEvent::Outcome(ok) => PodEvent::Outcome(*ok),
        PodEvent::Network(n) => PodEvent::Network(n.clone()),
        PodEvent::Namespace(n) => PodEvent::Namespace(n.clone()),
        PodEvent::Address(a) => PodEvent::Address(a.clone()),
        PodEvent::HostsFile(h) => PodEvent::HostsFile(h.clone()),
    }
}

fn go() -> PodEvent {
    PodEvent::Guarded { running: false }
}

fn address(ip: &str) -> PodEvent {
    PodEvent::Address(Some(ip.to_string()))
}

#[test]
fn test_termination_grace_period_propagation() {
    let mut pod = make_pod("graceful", "Always");
    pod.spec.as_mut().unwrap().termination_grace_period_seconds = Some(45);
    let grace =
        pod.spec.as_ref().and_then(|s| s.termination_grace_period_seconds).unwrap_or(30);
    assert_eq!(grace, 45, "spec.terminationGracePeriodSeconds must propagate");
    let steps =
        runtime().stop_pod_for(&pod, &vec![listed("1", "/graceful_app", "running", 0)], grace, 0);
    assert_eq!(steps[0], StopStep::Stop { id: "1".to_string(), grace: 45 });
}

#[test]
fn a_pod_starts_step_by_step() {
    let rt = runtime();
    let pod = make_pod("p", "Always");
    let mut events = vec![
        go(),
        PodEvent::Done,
        PodEvent::Outcome(true),
        address("10.1.0.2"),
        PodEvent::HostsFile(Ok(Some("/volumes/p/hosts".to_string()))),
        PodEvent::Outcome(true),
    ];
    let s = run(&rt, &pod, &events);
    assert_eq!(s.phase, PodPhase::AppStart(0));
    assert_eq!(s.pod_ip.as_deref(), Some("10.1.0.2"));
    assert_eq!(s.hosts_file.as_deref(), Some("/volumes/p/hosts"));
    events.push(PodEvent::Outcome(true));
    assert_eq!(run(&rt, &pod, &events).phase, PodPhase::OpenPorts);
    events.push(PodEvent::Done);
    assert_eq!(
        run(&rt, &pod, &events).phase,
        PodPhase::Finished(StartResult::Started)
    );
    let never = make_pod("p", "Never");
    assert_eq!(run(&rt, &never, &events).phase, PodPhase::Settle);
    events.push(PodEvent::Done);
    assert_eq!(
        run(&rt, &never, &events).phase,
        PodPhase::Finished(StartResult::Started)
    );
    events.push(PodEvent::Outcome(false));
    assert_eq!(run(&rt, &never, &events).phase, PodPhase::Finished(StartResult::Started));
}

#[test]
fn a_pod_that_is_refused_starts_nothing() {
    let rt = runtime();
    let mut pod = make_pod("p", "Always");
    pod.spec.as_mut().unwrap().security_context = Some(PodSecurityContext {
        sysctls: Some(vec![Sysctl { name: "kernel.msgmax".to_string(), value: "1".to_string() }]),
        ..Default::default()
    });
    assert_eq!(run(&rt, &pod, &[go()]).phase, PodPhase::Reject);
    let s = run(&rt, &pod, &[go(), PodEvent::Done, PodEvent::Done, PodEvent::Outcome(true)]);
    assert_eq!(s.phase, PodPhase::Finished(StartResult::Rejected));
    let running = PodEvent::Guarded { running: true };
    let s = run(&rt, &pod, &[running, PodEvent::Done]);
    assert_eq!(s.phase, PodPhase::Finished(StartResult::AlreadyRunning));
}

#[test]
fn init_containers_come_before_the_application() {
    let rt = runtime();
    let mut pod = make_pod("p", "Always");
    let mut side = make_container("side", "envoy");
    side.restart_policy = Some("Always".to_string());
    pod.spec.as_mut().unwrap().init_containers =
        Some(vec![make_container("first", "busybox"), side, make_container("second", "busybox")]);
    let mut events = vec![
        go(),
        PodEvent::Done,
        PodEvent::Outcome(true),
        address("10.1.0.2"),
        PodEvent::HostsFile(Ok(None)),
        PodEvent::Outcome(true),
    ];
    let phases = [
        (PodPhase::InitReport(0), PodEvent::Done),
        (PodPhase::InitStart(0, 0), PodEvent::Outcome(true)),
        (PodPhase::InitWait(0, 0), PodEvent::Outcome(false)),
        (PodPhase::InitRetry(0, 1), PodEvent::Done),
        (PodPhase::InitStart(0, 1), PodEvent::Outcome(true)),
        (PodPhase::InitWait(0, 1), PodEvent::Outcome(true)),
        (PodPhase::InitReport(2), PodEvent::Done),
        (PodPhase::InitStart(2, 0), PodEvent::Outcome(true)),
        (PodPhase::InitWait(2, 0), PodEvent::Outcome(true)),
        (PodPhase::SidecarStart(1), PodEvent::Outcome(true)),
        (PodPhase::AppStart(0), PodEvent::Outcome(true)),
    ];
    for (phase, event) in phases {
        assert_eq!(run(&rt, &pod, &events).phase, phase);
        events.push(event);
    }
    assert_eq!(run(&rt, &pod, &events).phase, PodPhase::OpenPorts);
}

#[test]
fn retries_are_limited() {
    let rt = runtime();
    let with_init = |policy: &str| {
        let mut pod = make_pod("p", policy);
        pod.spec.as_mut().unwrap().init_containers = Some(vec![make_container("i", "busybox")]);
        pod
    };
    let start = |pod: &Pod| {
        let mut s = PodStart::begin();
        for e in [
            go(),
            PodEvent::Done,
            PodEvent::Outcome(true),
            address("10.1.0.2"),
            PodEvent::HostsFile(Ok(None)),
            PodEvent::Outcome(true),
            PodEvent::Done,
        ] {
            rt.start_pod(pod, &mut s, e);
        }
        s
    };
    let pod = with_init("Always");
    let mut s = start(&pod);
    let mut attempts = 0;
    while s.phase != PodPhase::Finished(StartResult::Failed) {
        assert_eq!(s.phase, PodPhase::InitStart(0, attempts));
        rt.start_pod(&pod, &mut s, PodEvent::Outcome(true));
        rt.start_pod(&pod, &mut s, PodEvent::Outcome(false));
        rt.start_pod(&pod, &mut s, PodEvent::Done);
        attempts += 1;
    }
    assert_eq!(attempts, 4);
    let never = with_init("Never");
    let mut s = start(&never);
    rt.start_pod(&never, &mut s, PodEvent::Outcome(true));
    rt.start_pod(&never, &mut s, PodEvent::Outcome(false));
    assert_eq!(s.phase, PodPhase::Finished(StartResult::Failed));
}

#[test]
fn the_address_is_looked_for_where_it_is_missing() {
    let rt = runtime();
    let pod = make_pod("p", "Always");
    let mut events = vec![
        go(),
        PodEvent::Done,
        PodEvent::Outcome(true),
        PodEvent::Address(None),
        PodEvent::HostsFile(Ok(None)),
        PodEvent::Outcome(true),
        PodEvent::Outcome(true),
    ];
    assert_eq!(run(&rt, &pod, &events).phase, PodPhase::AppAddress(0));
    events.push(address("10.1.0.9"));
    let s = run(&rt, &pod, &events);
    assert_eq!(s.phase, PodPhase::AppHosts(0));
    assert_eq!(s.pod_ip.as_deref(), Some("10.1.0.9"));
}

#[test]
fn networks_are_made_in_their_order() {
    let pod = make_pod("p", "Always");
    let mut rt =
        runtime().with_netstack().with_pod_network_mode(PodNetworkMode::NetstackActive);
    assert_eq!(run(&rt, &pod, &[go(), PodEvent::Done]).phase, PodPhase::Netstack);
    let found = PodEvent::Network(Some(("/ns".to_string(), "10.9.0.1".to_string())));
    let s = run(&rt, &pod, &[go(), PodEvent::Done, found, PodEvent::Outcome(true)]);
    assert_eq!(s.phase, PodPhase::Hosts);
    assert_eq!(s.netns.as_deref(), Some("/ns"));
    assert_eq!(s.pod_ip.as_deref(), Some("10.9.0.1"));
    rt.use_cni = true;
    let s = run(&rt, &pod, &[go(), PodEvent::Done, PodEvent::Network(None)]);
    assert_eq!(s.phase, PodPhase::Plugins);
    let s = run(
        &rt,
        &pod,
        &[
            go(),
            PodEvent::Done,
            PodEvent::Network(None),
            PodEvent::Namespace(Some("/cni".to_string())),
            PodEvent::Outcome(true),
        ],
    );
    assert_eq!(s.phase, PodPhase::PluginAddress);
    assert_eq!(s.netns.as_deref(), Some("/cni"));
}

#[test]
fn images_are_pulled_once() {
    let mut pod = make_pod("p", "Always");
    let spec = pod.spec.as_mut().unwrap();
    spec.containers.push(make_container("b", "redis"));
    spec.containers.push(make_container("c", "nginx"));
    spec.init_containers = Some(vec![make_container("i", "redis")]);
    let list = images_to_pull(&pod);
    let mut images: Vec<&str> = list.iter().map(|n| n.image.as_str()).collect();
    images.sort();
    assert_eq!(images, vec!["nginx", "redis"]);
}

#[test]
fn waits_before_a_retry() {
    let list: Vec<u64> = (0..7).map(retry_backoff).collect();
    assert_eq!(list, vec![1, 2, 4, 8, 16, 30, 30]);
    assert_eq!(retry_message("i", 4), "Init container i failed, retrying in 4s");
}

#[test]
fn init_containers_are_waited_for() {
    let wait = |s, late| wait_for_container_completion("i", &s, late);
    assert_eq!(wait(None, false), InitWait::Again);
    assert_eq!(wait(state(true, None, None), false), InitWait::Again);
    assert_eq!(wait(state(false, Some(0), None), false), InitWait::Completed);
    assert_eq!(
        wait(state(false, Some(2), Some("oops")), false),
        InitWait::Failed("Init container i failed with exit code 2: oops".to_string())
    );
    assert_eq!(
        wait(state(false, None, None), false),
        InitWait::Failed("Init container i failed with exit code 1: Exit code: 1".to_string())
    );
    assert_eq!(
        wait(state(true, None, None), true),
        InitWait::Failed("Timeout waiting for init container i to complete".to_string())
    );
}

fn ended(code: i32) -> ContainerStatus {
    ContainerStatus {
        name: "app".to_string(),
        ready: false,
        restart_count: 0,
        state: Some(ContainerState::Terminated {
            exit_code: code,
            signal: None,
            reason: None,
            message: None,
            started_at: None,
            finished_at: None,
            container_id: None,
        }),
        last_state: None,
        image: None,
        image_id: None,
        container_id: None,
        started: None,
        resources: None,
        allocated_resources: None,
    }
}

#[test]
fn a_pod_ends_when_all_its_containers_have() {
    let mut waiting = ended(0);
    waiting.state = None;
    assert_eq!(terminal_phase(&vec![]), None);
    assert_eq!(terminal_phase(&vec![ended(0), waiting]), None);
    assert_eq!(terminal_phase(&vec![ended(0), ended(0)]), Some(Phase::Succeeded));
    assert_eq!(terminal_phase(&vec![ended(0), ended(3)]), Some(Phase::Failed));
    let mut status = PodStatus::default();
    write_terminal_status(&mut status, Phase::Succeeded, vec![ended(0)], at(9));
    assert_eq!(status.phase, Some(Phase::Succeeded));
    assert_eq!(status.container_statuses.unwrap().len(), 1);
    let conditions = status.conditions.unwrap();
    assert_eq!(conditions[0].condition_type, "Initialized");
    assert_eq!(conditions[3].reason.as_deref(), Some("PodCompleted"));
    assert_eq!(conditions[3].last_transition_time, Some(at(9)));
}

#[test]
fn the_pause_container_stops_last() {
    let mut rt = runtime();
    let list = vec![
        listed("1", "/p_pause", "running", 0),
        listed("2", "/p_app", "running", 0),
        listed("3", "/p_side", "exited", 0),
        listed("4", "/host-p_app", "running", 0),
    ];
    let stop = |id: &str, grace| StopStep::Stop { id: id.to_string(), grace };
    assert_eq!(
        rt.stop_pod("p", &list),
        vec![
            stop("2", 30),
            stop("3", 30),
            stop("1", 30),
            StopStep::ReleaseNetstack,
            StopStep::Cleanup
        ]
    );
    assert_eq!(rt.stop_pod_with_grace_period("p", &list, 7)[2], stop("1", 7));
    rt.use_cni = true;
    let mut pod = make_pod("p", "Always");
    pod.spec.as_mut().unwrap().volumes = Some(vec![
        Volume {
            name: "cache".to_string(),
            empty_dir: Some(EmptyDir { medium: Some("Memory".to_string()) }),
            projected: None,
        },
        Volume {
            name: "disk".to_string(),
            empty_dir: Some(EmptyDir { medium: None }),
            projected: None,
        },
    ]);
    assert_eq!(
        rt.stop_pod_for(&pod, &list, 8, 3),
        vec![
            stop("2", 5),
            stop("1", 5),
            StopStep::TeardownPlugins,
            StopStep::ReleaseNetstack,
            StopStep::Unmount { directory: "/volumes/uid-1/cache".to_string() },
            StopStep::Cleanup
        ]
    );
    assert_eq!(rt.stop_pod_for(&pod, &list, 8, 7)[0], stop("2", 2));
    assert_eq!(rt.stop_pod_for(&pod, &list, 8, 100)[0], stop("2", 2));
    assert_eq!(rt.stop_pod_for(&pod, &list, 0, 100)[0], stop("2", 0));
    let steps = rt.stop_and_remove_pod("p", &list);
    assert_eq!(steps[0], stop("1", 0));
    assert_eq!(steps[1], StopStep::Remove { id: "1".to_string() });
    assert!(!steps.contains(&StopStep::Remove { id: "4".to_string() }));
}

#[test]
fn only_volumes_of_the_pod_are_removed() {
    let rt = runtime();
    let all = texts(&["rusternetes-emptydir-p-a", "rusternetes-emptydir-px-a", "other"]);
    assert_eq!(
        rt.cleanup_pod_volumes("p", false, &all),
        Some(texts(&["rusternetes-emptydir-p-a"]))
    );
    assert_eq!(rt.cleanup_pod_volumes("p", true, &all), None);
}

#[test]
fn hooks_run_in_running_containers() {
    let pod = make_pod("p", "Always");
    let hooks = Lifecycle {
        post_start: None,
        pre_stop: Some(LifecycleHandler { sleep: Some(1), ..Default::default() }),
    };
    let table = vec![("p_app".to_string(), hooks)];
    let list = vec![
        listed("1", "/p_app", "running", 0),
        listed("2", "/p_other", "running", 0),
        listed("3", "/p_app", "exited", 0),
        listed("4", "/host-p_app", "running", 0),
    ];
    assert_eq!(
        prestop_runs(&pod, &list, &table, 30),
        vec![PrestopRun { container_name: "p_app".to_string(), hooks: 0, container: Some(0) }]
    );
    assert!(prestop_runs(&pod, &list, &table, 0).is_empty());
    assert!(hooks_are_of_pod(&table, "p"));
    assert!(!hooks_are_of_pod(&table, "q"));
    let mut rt = runtime();
    assert_eq!(
        rt.begin_stop(&pod, &list, &table, 30),
        StopTurn::Hooks { runs: prestop_runs(&pod, &list, &table, 30), budget: 30 }
    );
    let killed = rt.stop_pod_for(&pod, &list, 0, 0);
    assert_eq!(rt.begin_stop(&pod, &list, &table, 0), StopTurn::Steps(killed));
    let without = rt.stop_pod_for(&pod, &list, 30, 0);
    assert_eq!(rt.begin_stop(&pod, &list, &vec![], 30), StopTurn::Steps(without));
}

#[test]
fn containers_that_have_ended_are_noticed() {
    let rt = runtime();
    let over = inspected(state(false, Some(1), None));
    let up = inspected(state(true, None, None));
    assert!(rt.is_container_running(&up));
    assert!(!rt.is_container_running(&over));
    assert!(!rt.is_container_running(&None));
    assert_eq!(rt.get_container_exit_code(over.as_ref().unwrap()), 1);
    assert!(rt.has_terminated_containers(&vec![up.clone(), over.clone()]));
    assert!(!rt.has_terminated_containers(&vec![up.clone(), None]));
    let with = |status: EngineStatus, finished: Option<&str>| {
        let mut i = over.clone();
        let s = i.as_mut().unwrap().state.as_mut().unwrap();
        s.status = Some(status);
        s.exit_code = None;
        s.finished_at = finished.map(|t| t.to_string());
        rt.has_terminated_containers(&vec![i])
    };
    assert!(with(EngineStatus::Dead, None));
    assert!(with(EngineStatus::Exited, None));
    assert!(!with(EngineStatus::Created, Some("2026-01-01T00:00:00Z")));
    assert!(rt.remove_terminated_container(&over));
    assert!(!rt.remove_terminated_container(&up));
    let mut pod = make_pod("p", "Always");
    let mut side = make_container("side", "envoy");
    side.restart_policy = Some("Always".to_string());
    pod.spec.as_mut().unwrap().init_containers = Some(vec![make_container("i", "b"), side]);
    assert_eq!(watched_containers(&pod), vec!["p_app", "p_side"]);
}

#[test]
fn a_pause_container_alone_does_not_run_the_pod() {
    let rt = runtime();
    let pod = make_pod("p", "Always");
    let pause = listed("1", "/p_pause", "running", 0);
    let app = listed("2", "/p_app", "running", 0);
    assert!(!rt.is_pod_running(&pod, &vec![pause.clone()], &vec![false]));
    let monitor = listed("4", "/p_pause-monitor", "running", 0);
    assert!(rt.is_pod_running(&pod, &vec![pause.clone(), monitor], &vec![false, false]));
    let other = listed("3", "/host-p_app", "running", 0);
    assert!(!rt.is_pod_running(&pod, &vec![pause.clone(), other], &vec![false, false]));
    assert!(rt.is_pod_running(&pod, &vec![pause.clone(), app.clone()], &vec![false, false]));
    assert!(!rt.is_pod_running(&pod, &vec![pause.clone(), app.clone()], &vec![false, true]));
    assert_eq!(
        sweep_stale_incarnations(&pod, &vec![pause, app], &vec![false, true]),
        vec!["2"]
    );
}

#[test]
fn dead_containers_are_collected() {
    let rt = runtime();
    let list = vec![
        listed("old", "/web_app", "exited", 10),
        listed("new", "/web_app2", "dead", 20),
        listed("up", "/web_pause", "running", 5),
        listed("busy", "/web_main", "running", 6),
        listed("gone1", "/gone_a", "exited", 1),
        listed("gone2", "/gone_b", "exited", 2),
        listed("mine", "/rusternetes-api_x", "exited", 1),
        listed("stuck", "/late_a", "created", 100),
        listed("fresh", "/soon_a", "created", 900),
    ];
    let g = rt.garbage_collect_containers(&list, &texts(&["web"]), at(1000));
    assert_eq!(g.stuck, vec!["stuck"]);
    assert_eq!(g.pods.len(), 2);
    assert_eq!(g.pods[0].pod, "web");
    assert_eq!(g.pods[0].removals, vec!["old"]);
    assert!(!g.pods[0].orphaned);
    assert_eq!(g.pods[1].pod, "gone");
    assert_eq!(g.pods[1].removals, vec!["gone2", "gone1"]);
    assert!(g.pods[1].orphaned);
    assert_eq!(rt.list_all_pods(&list), vec!["web", "gone", "late", "soon"]);
    assert_eq!(rt.list_running_pods(&vec![list[2].clone()]), vec!["web"]);
    assert_eq!(pod_of_container("a_b_c"), "a");
}

#[test]
fn orphaned_pause_containers_are_collected() {
    let rt = runtime();
    let pause = listed("1", "/p_pause", "running", 1);
    let app = listed("2", "/p_app", "exited", 2);
    let g = rt.garbage_collect_containers(&vec![pause.clone(), app.clone()], &vec![], at(1000));
    assert_eq!(g.pods.len(), 1);
    assert_eq!(g.pods[0].pod, "p");
    assert_eq!(g.pods[0].removals, vec!["2"]);
    assert!(g.pods[0].orphaned);
    let steps = g.steps();
    assert_eq!(
        steps,
        vec![
            CollectStep::Remove("2".to_string()),
            CollectStep::RemovePause("p_pause".to_string()),
            CollectStep::Cleanup("p".to_string()),
        ]
    );
    assert_eq!(containers_removed(&steps, &vec![true, true, true]), 2);
    assert_eq!(containers_removed(&steps, &vec![true, false, true]), 1);
    let g = rt.garbage_collect_containers(&vec![pause.clone()], &vec![], at(1000));
    assert_eq!(g.pods.len(), 1);
    assert!(g.pods[0].removals.is_empty() && g.pods[0].orphaned);
    let starting = rt.garbage_collect_containers(&vec![pause.clone()], &texts(&["p"]), at(1000));
    assert!(starting.pods.is_empty());
}

#[test]
fn a_pod_that_is_still_there_keeps_its_newest_dead_container() {
    let rt = runtime();
    let pause = listed("1", "/p_pause", "running", 1);
    let app = listed("2", "/p_app", "exited", 2);
    let side = listed("3", "/p_side", "exited", 3);
    let there = texts(&["p"]);
    let g = rt.garbage_collect_containers(&vec![pause.clone(), app.clone()], &there, at(1000));
    assert_eq!(g.pods.len(), 1);
    assert!(g.pods[0].removals.is_empty() && !g.pods[0].orphaned);
    assert!(g.steps().is_empty());
    let list = vec![pause, app.clone(), side.clone()];
    let g = rt.garbage_collect_containers(&list, &there, at(1000));
    assert_eq!(g.pods[0].removals, vec!["2"]);
    assert!(!g.pods[0].orphaned);
    let g = rt.garbage_collect_containers(&vec![app, side], &there, at(1000));
    assert_eq!(g.pods[0].removals, vec!["2", "3"]);
    assert!(g.pods[0].orphaned);
}

#[test]
fn ages_are_counted_in_seconds() {
    let rt = runtime();
    let up = inspected(state(true, None, None));
    assert_eq!(rt.get_container_age(&up, at(1767225665)), 65);
    assert_eq!(rt.get_container_age(&up, at(0)), 0);
    assert_eq!(rt.get_container_age(&None, at(1767225665)), 0);
    let mut odd = up.clone();
    odd.as_mut().unwrap().state.as_mut().unwrap().started_at = Some("yesterday".to_string());
    assert_eq!(rt.get_container_age(&odd, at(1767225665)), 0);
    assert_eq!(age_since(at(5), at(9)), 4);
    assert_eq!(age_since(at(9), at(5)), 0);
}

#[test]
fn usage_is_measured_by_pod() {
    let rt = runtime();
    let list = vec![
        listed("1", "/web_app", "running", 0),
        listed("2", "/web_pause", "running", 0),
        listed("3", "/db_main", "running", 0),
        listed("4", "/other_x", "running", 0),
    ];
    let pods = texts(&["web", "db"]);
    let targets = rt.collect_pod_metrics(&list, &pods);
    let seen: Vec<(&str, &str, &str)> = targets
        .iter()
        .map(|t| (t.id.as_str(), t.pod.as_str(), t.container.as_str()))
        .collect();
    assert_eq!(seen, vec![("1", "web", "app"), ("3", "db", "main")]);
    let ids = rt.collect_node_metrics(&list, &pods);
    assert!(ids.contains(&"1".to_string()) && ids.contains(&"3".to_string()));
    assert!(!ids.contains(&"4".to_string()));
    let similar = vec![listed("5", "/web-2_app", "running", 0)];
    assert!(rt.collect_node_metrics(&similar, &texts(&["web"])).is_empty());
    assert_eq!(memory_in_use(Some(100), Some(30)), 70);
    assert_eq!(memory_in_use(Some(10), Some(30)), 0);
    assert_eq!(memory_in_use(None, None), 0);
    assert_eq!(node_memory(&vec![(Some(100), Some(30)), (Some(5), None), (None, None)]), 75);
    assert_eq!(
        cpu_share(300, 100, Some(2000), Some(1000), Some(4)),
        Some(CpuShare { used: 200, available: 1000, processors: 4 })
    );
    assert_eq!(
        cpu_share(100, 300, Some(2000), None, None),
        Some(CpuShare { used: 0, available: 2000, processors: 1 })
    );
    assert_eq!(cpu_share(300, 100, Some(1000), Some(1000), Some(4)), None);
    assert_eq!(cpu_share(300, 100, None, None, Some(4)), None);
    let mut out = vec![];
    let usage = |c: &str| ContainerUsage {
        container: c.to_string(),
        cpu_millicores: 1,
        memory_bytes: 2,
    };
    add_usage(&mut out, "web".to_string(), usage("a"));
    add_usage(&mut out, "db".to_string(), usage("b"));
    add_usage(&mut out, "web".to_string(), usage("c"));
    assert_eq!(out.len(), 2);
    assert_eq!(out[0].containers.len(), 2);
    assert_eq!(out[1].pod, "db");
}
