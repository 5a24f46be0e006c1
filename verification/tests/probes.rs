//! Probes.

use kubelet::probe::{
    check_probe, is_past_initial_delay, liveness_after_start, probe_state_key, LivenessEvent,
    LivenessStep,
    LivenessTarget, LivenessVerdict, ProbeKind, ProbeState, ProbeTable,
};
use kubelet::resources::{
    Container, ExecAction, GrpcAction, HttpGetAction, Lifecycle, LifecycleHandler, ObjectMeta, Pod,
    PodSpec, Probe, TcpSocketAction,
};
use kubelet::runtime::ContainerRuntime;
use kubelet::status::readiness_due;
use kubelet::time::Timestamp;

fn runtime() -> ContainerRuntime {
    ContainerRuntime::new(
        "/volumes".to_string(),
        "10.96.0.10".to_string(),
        "cluster.local".to_string(),
        "rusternetes-network".to_string(),
        "10.96.0.1".to_string(),
        &None,
        false,
    )
}

fn at(secs: i64) -> Timestamp {
    Timestamp { secs, nanos: 0 }
}

fn make_container(name: &str) -> Container {
    Container { name: name.to_string(), image: "nginx:latest".to_string(), ..Default::default() }
}

fn make_pod(name: &str, c: Container) -> Pod {
    Pod {
        metadata: ObjectMeta { name: name.to_string(), ..Default::default() },
        spec: Some(PodSpec { containers: vec![c], ..Default::default() }),
        status: None,
    }
}

fn command(words: &[&str]) -> ExecAction {
    ExecAction { command: words.iter().map(|w| w.to_string()).collect() }
}

#[test]
fn test_container_startup_probe_field() {
    let mut container = make_container("app");
    assert!(container.startup_probe.is_none());
    container.startup_probe = Some(Probe {
        exec_action: Some(command(&["cat", "/tmp/healthy"])),
        initial_delay_seconds: Some(5),
        period_seconds: Some(10),
        timeout_seconds: Some(1),
        success_threshold: Some(1),
        failure_threshold: Some(30),
        ..Default::default()
    });
    assert!(container.startup_probe.is_some());
    let probe = container.startup_probe.unwrap();
    assert_eq!(probe.failure_threshold, Some(30));
    assert!(probe.exec_action.is_some());
    assert_eq!(check_probe(&probe), (ProbeKind::Exec, 1));
}

#[test]
fn test_startup_probe_prevents_readiness_when_not_started() {
    let mut rt = runtime();
    let mut c = make_container("app");
    c.startup_probe = Some(Probe::default());
    c.readiness_probe = Some(Probe::default());
    let startup_passed = rt.startup_passed("p", &c, true, false);
    let ready = rt.readiness("p", &c, startup_passed, true, true);
    assert!(!ready);
    assert!(!startup_passed);
}

#[test]
fn test_startup_probe_allows_readiness_when_started() {
    let mut rt = runtime();
    let mut c = make_container("app");
    c.startup_probe = Some(Probe::default());
    c.readiness_probe = Some(Probe::default());
    let startup_passed = rt.startup_passed("p", &c, true, true);
    assert!(startup_passed);
    assert!(rt.readiness("p", &c, startup_passed, true, true));
}

#[test]
fn test_startup_probe_blocks_liveness_check() {
    let mut rt = runtime();
    let mut c = make_container("app");
    c.startup_probe = Some(Probe::default());
    c.liveness_probe = Some(Probe::default());
    let pod = make_pod("p", c.clone());
    assert_eq!(rt.begin_liveness(&pod, &c, at(1000)), LivenessStep::CheckStartup);
    assert_eq!(rt.liveness_after_startup(&pod, &c, false), LivenessStep::Done(None));
}

#[test]
fn test_no_startup_probe_does_not_block_liveness() {
    let mut rt = runtime();
    let mut c = make_container("app");
    c.liveness_probe = Some(Probe::default());
    let pod = make_pod("p", c.clone());
    assert_eq!(rt.begin_liveness(&pod, &c, at(1000)), LivenessStep::CheckLiveness);
}

#[test]
fn test_lifecycle_and_startup_probe_on_same_container() {
    let mut container = make_container("app");
    container.lifecycle = Some(Lifecycle {
        post_start: Some(LifecycleHandler {
            exec_action: Some(command(&["echo", "started"])),
            ..Default::default()
        }),
        pre_stop: Some(LifecycleHandler {
            exec_action: Some(command(&["echo", "stopping"])),
            ..Default::default()
        }),
    });
    container.startup_probe = Some(Probe {
        exec_action: Some(command(&["cat", "/tmp/ready"])),
        initial_delay_seconds: Some(0),
        period_seconds: Some(5),
        timeout_seconds: Some(1),
        success_threshold: Some(1),
        failure_threshold: Some(10),
        ..Default::default()
    });
    assert!(container.lifecycle.is_some());
    assert!(container.startup_probe.is_some());
    let lc = container.lifecycle.as_ref().unwrap();
    assert!(lc.post_start.is_some());
    assert!(lc.pre_stop.is_some());
}

#[test]
fn test_probe_state_default() {
    let state = ProbeState::default();
    assert_eq!(state.consecutive_failures, 0);
    assert_eq!(state.consecutive_successes, 0);
}

#[test]
fn test_probe_threshold_logic_single_failure_no_action() {
    let failure_threshold = 3;
    let mut state = ProbeState::default();
    state.record(false);
    assert!(state.consecutive_failures < failure_threshold);
}

#[test]
fn test_probe_threshold_logic_threshold_reached() {
    let failure_threshold = 3;
    let mut state = ProbeState::default();
    for _ in 0..3 {
        state.record(false);
    }
    assert!(state.consecutive_failures >= failure_threshold);
}

#[test]
fn test_probe_threshold_success_resets_failures() {
    let mut state = ProbeState {
        consecutive_failures: 2,
        consecutive_successes: 0,
        last_eval: None,
    };
    state.record(true);
    assert_eq!(state.consecutive_failures, 0);
    assert_eq!(state.consecutive_successes, 1);
}

#[test]
fn test_probe_threshold_failure_resets_successes() {
    let mut state = ProbeState {
        consecutive_successes: 1,
        consecutive_failures: 0,
        last_eval: None,
    };
    state.record(false);
    assert_eq!(state.consecutive_successes, 0);
    assert_eq!(state.consecutive_failures, 1);
}

#[test]
fn test_probe_threshold_readiness_needs_success_threshold() {
    let success_threshold = 3;
    let mut state = ProbeState::default();
    state.record(true);
    assert!(state.consecutive_successes < success_threshold);
    state.record(true);
    assert!(state.consecutive_successes < success_threshold);
    state.record(true);
    assert!(state.consecutive_successes >= success_threshold);
}

#[test]
fn test_probe_threshold_defaults() {
    let probe = Probe::default();
    assert_eq!(probe.failure_threshold.unwrap_or(3), 3);
    assert_eq!(probe.success_threshold.unwrap_or(1), 1);
    assert_eq!(probe.period_seconds.unwrap_or(10), 10);
    let mut rt = runtime();
    let mut c = make_container("app");
    c.liveness_probe = Some(probe);
    let pod = make_pod("p", c.clone());
    assert_eq!(rt.liveness_after_check(&pod, &c, Some(false)), None);
    assert_eq!(rt.liveness_after_check(&pod, &c, Some(false)), None);
    assert_eq!(rt.liveness_after_check(&pod, &c, Some(false)), Some(30));
}

#[test]
fn test_probe_state_map_key_format() {
    let liveness_key = probe_state_key("web-0", "nginx", "liveness");
    let readiness_key = probe_state_key("web-0", "nginx", "readiness");
    let startup_key = probe_state_key("web-0", "nginx", "startup");
    assert_eq!(liveness_key, "web-0/nginx/liveness");
    assert_eq!(readiness_key, "web-0/nginx/readiness");
    assert_eq!(startup_key, "web-0/nginx/startup");
    assert_ne!(liveness_key, readiness_key);
    assert_ne!(readiness_key, startup_key);
}

#[test]
fn test_clear_probe_states_removes_pod_entries() {
    let state = |failures: i32, successes: i32| ProbeState {
        consecutive_failures: failures,
        consecutive_successes: successes,
        last_eval: None,
    };
    let mut rt = runtime();
    rt.probe_states.set("web-0/nginx/liveness", state(2, 0));
    rt.probe_states.set("web-0/nginx/readiness", state(0, 3));
    rt.probe_states.set("redis-0/redis/liveness", state(1, 0));
    rt.clear_probe_states_for_pod("web-0");
    assert_eq!(rt.probe_states.get("web-0/nginx/liveness"), ProbeState::default());
    assert_eq!(rt.probe_states.get("web-0/nginx/readiness"), ProbeState::default());
    assert_eq!(rt.probe_states.get("redis-0/redis/liveness"), state(1, 0));
}

#[test]
fn test_probe_timeout_zero_uses_default() {
    let timeout = |t: Option<i32>| {
        check_probe(&Probe { timeout_seconds: t, ..Default::default() }).1
    };
    assert_eq!(timeout(Some(0)), 1);
    assert_eq!(timeout(None), 1);
    assert_eq!(timeout(Some(5)), 5);
}

#[test]
fn probes_are_told_apart() {
    let http = Probe { http_get: Some(HttpGetAction::default()), ..Default::default() };
    let tcp = Probe { tcp_socket: Some(TcpSocketAction::default()), ..Default::default() };
    let grpc = Probe { grpc: Some(GrpcAction::default()), ..Default::default() };
    assert_eq!(check_probe(&http).0, ProbeKind::Http);
    assert_eq!(check_probe(&tcp).0, ProbeKind::Tcp);
    assert_eq!(check_probe(&grpc).0, ProbeKind::Grpc);
    assert_eq!(check_probe(&Probe::default()).0, ProbeKind::Nothing);
}

#[test]
fn a_probe_waits_for_its_delay() {
    let p = Probe { initial_delay_seconds: Some(10), ..Default::default() };
    let start = Some("2026-01-01T00:00:00Z".to_string());
    assert!(!is_past_initial_delay(&p, &start, at(1767225609)));
    assert!(is_past_initial_delay(&p, &start, at(1767225610)));
    assert!(!is_past_initial_delay(&p, &None, at(1767225610)));
    assert!(!is_past_initial_delay(&p, &Some("soon".to_string()), at(1767225610)));
    assert!(is_past_initial_delay(&Probe::default(), &None, at(0)));
    let mut c = make_container("app");
    c.liveness_probe = Some(p.clone());
    c.readiness_probe = Some(p);
    assert_eq!(liveness_after_start(&c, &start, at(1767225609)), LivenessStep::Done(None));
    assert_eq!(liveness_after_start(&c, &start, at(1767225610)), LivenessStep::CheckLiveness);
    assert_eq!(liveness_after_start(&c, &None, at(1767225609)), LivenessStep::CheckLiveness);
    assert!(!readiness_due(&c, true, &start, at(1767225609)));
    assert!(readiness_due(&c, true, &start, at(1767225610)));
    assert!(!readiness_due(&c, false, &start, at(1767225610)));
}

#[test]
fn a_startup_probe_keeps_its_period() {
    let mut rt = runtime();
    let mut c = make_container("app");
    c.startup_probe = Some(Probe { period_seconds: Some(5), ..Default::default() });
    c.liveness_probe = Some(Probe { initial_delay_seconds: Some(3), ..Default::default() });
    let pod = make_pod("p", c.clone());
    assert_eq!(rt.begin_liveness(&pod, &c, at(1000)), LivenessStep::CheckStartup);
    assert_eq!(rt.begin_liveness(&pod, &c, at(1004)), LivenessStep::Done(None));
    assert_eq!(rt.begin_liveness(&pod, &c, at(1005)), LivenessStep::CheckStartup);
    assert_eq!(rt.liveness_after_startup(&pod, &c, true), LivenessStep::FindStart);
}

#[test]
fn too_many_failures_restart_and_count_anew() {
    let mut rt = runtime();
    let mut c = make_container("app");
    c.liveness_probe = Some(Probe {
        failure_threshold: Some(2),
        termination_grace_period_seconds: Some(7),
        ..Default::default()
    });
    let pod = make_pod("p", c.clone());
    assert_eq!(rt.liveness_after_check(&pod, &c, Some(false)), None);
    assert_eq!(rt.liveness_after_check(&pod, &c, None), None);
    assert_eq!(rt.liveness_after_check(&pod, &c, Some(false)), Some(7));
    assert_eq!(rt.liveness_after_check(&pod, &c, Some(false)), None);
    assert_eq!(rt.liveness_after_check(&pod, &c, Some(true)), None);
    assert_eq!(rt.liveness_after_check(&pod, &c, Some(false)), None);
    assert!(rt.can_record("p/app/liveness"));
}

#[test]
fn containers_that_are_watched() {
    let rt = runtime();
    let mut pod = make_pod("p", make_container("app"));
    let mut side = make_container("side");
    side.restart_policy = Some("Always".to_string());
    pod.spec.as_mut().unwrap().init_containers = Some(vec![make_container("first"), side.clone()]);
    assert_eq!(
        rt.check_liveness(&pod),
        vec![LivenessTarget::App(0), LivenessTarget::Sidecar(1)]
    );
    let app = make_container("app");
    assert_eq!(
        rt.liveness_verdict(&pod, LivenessTarget::App(0), &app, Some(9)),
        LivenessVerdict::RestartPod(9)
    );
    assert_eq!(
        rt.liveness_verdict(&pod, LivenessTarget::Sidecar(1), &side, Some(9)),
        LivenessVerdict::StopContainer("p_side".to_string())
    );
    assert_eq!(
        rt.liveness_verdict(&pod, LivenessTarget::App(0), &app, None),
        LivenessVerdict::Continue
    );
    pod.metadata.deletion_timestamp = Some(at(5));
    assert!(rt.check_liveness(&pod).is_empty());
}

#[test]
fn a_table_knows_what_it_was_told() {
    let mut t = ProbeTable::new();
    assert_eq!(t.get("a"), ProbeState::default());
    let s = ProbeState { consecutive_failures: 1, consecutive_successes: 0, last_eval: Some(at(3)) };
    t.set("a", s);
    t.set("a", s);
    assert_eq!(t.get("a"), s);
    t.remove_prefix("a");
    assert_eq!(t.get("a"), ProbeState::default());
}

#[test]
fn liveness_waits_for_the_startup_probe() {
    let mut rt = runtime();
    let mut c = make_container("app");
    c.startup_probe = Some(Probe { success_threshold: Some(2), ..Default::default() });
    c.liveness_probe = Some(Probe {
        initial_delay_seconds: Some(10),
        failure_threshold: Some(1),
        ..Default::default()
    });
    let pod = make_pod("p", c.clone());
    let mut step = |e| rt.evaluate_container_liveness(&pod, &c, e);
    assert_eq!(step(LivenessEvent::Begun(at(1000))), LivenessStep::CheckStartup);
    assert_eq!(step(LivenessEvent::StartupChecked(true)), LivenessStep::Done(None));
    assert_eq!(step(LivenessEvent::Begun(at(1001))), LivenessStep::Done(None));
    assert_eq!(step(LivenessEvent::Begun(at(1010))), LivenessStep::CheckStartup);
    assert_eq!(step(LivenessEvent::StartupChecked(true)), LivenessStep::FindStart);
    assert_eq!(
        step(LivenessEvent::StartFound(Some("1970-01-01T00:16:45Z".to_string()), at(1010))),
        LivenessStep::Done(None)
    );
    assert_eq!(
        step(LivenessEvent::StartFound(Some("1970-01-01T00:16:40Z".to_string()), at(1010))),
        LivenessStep::CheckLiveness
    );
    assert_eq!(step(LivenessEvent::LivenessChecked(None)), LivenessStep::Done(None));
    assert_eq!(step(LivenessEvent::LivenessChecked(Some(true))), LivenessStep::Done(None));
    assert_eq!(step(LivenessEvent::LivenessChecked(Some(false))), LivenessStep::Done(Some(30)));
}
