//! Init containers.

use kubelet::engine::{EngineStatus, InspectState, Inspected, Listed};
use kubelet::init::{
    decide_next_init_action, observe_init, restart_policy_is, runs_alongside, InitAction,
    InitContainerObserved,
};
use kubelet::init_status::{
    has_any_app_container, init_progress_conditions, refresh_init_container_statuses,
    InitObservation,
};
use kubelet::resources::{
    Container, ContainerState, ContainerStatus, ObjectMeta, Phase, Pod, PodSpec, PodStatus, Probe,
};
use kubelet::runtime::ContainerRuntime;
use kubelet::start_pod::waiting_statuses;
use kubelet::time::Timestamp;

fn runtime() -> ContainerRuntime {
    ContainerRuntime::new(
        "/volumes".to_string(),
        "10.96.0.10".to_string(),
        "cluster.local".to_string(),
        "rusternetes-network".to_string(),
        "10.96.0.1".to_string(),
        &None,
        false,
    )
}

fn make_container(name: &str) -> Container {
    Container { name: name.to_string(), image: "nginx:latest".to_string(), ..Default::default() }
}

fn pod_with(policy: &str, inits: &[&str]) -> Pod {
    Pod {
        metadata: ObjectMeta { name: "test-pod".to_string(), ..Default::default() },
        spec: Some(PodSpec {
            containers: vec![make_container("app")],
            init_containers: Some(inits.iter().map(|n| make_container(n)).collect()),
            restart_policy: Some(policy.to_string()),
            ..Default::default()
        }),
        status: None,
    }
}

fn exited(id: &str, code: i64) -> Inspected {
    Inspected {
        id: Some(id.to_string()),
        image: Some("sha256:abc".to_string()),
        restart_count: None,
        state: Some(InspectState {
            status: Some(EngineStatus::Exited),
            running: Some(false),
            exit_code: Some(code),
            error: None,
            started_at: Some("2026-01-01T00:00:00Z".to_string()),
            finished_at: Some("2026-01-01T00:01:00Z".to_string()),
        }),
        network_mode: None,
        network_settings: None,
        labels: None,
    }
}

fn seen(inspected: Option<Inspected>) -> InitObservation {
    InitObservation {
        inspected,
        termination_message: None,
        apps_exist: false,
        now: "2026-01-02T00:00:00Z".to_string(),
        readiness_answer: false,
    }
}

fn at(secs: i64) -> Timestamp {
    Timestamp { secs, nanos: 0 }
}

fn init_container_status(p: &Pod, c: &Container, o: &InitObservation) -> ContainerStatus {
    runtime().init_container_status(p, c, o, at(1767225600))
}

fn ended(code: i32) -> ContainerState {
    ContainerState::Terminated {
        exit_code: code,
        signal: None,
        reason: Some("Error".to_string()),
        message: None,
        started_at: None,
        finished_at: None,
        container_id: None,
    }
}

fn status(name: &str, state: Option<ContainerState>, restarts: u32) -> ContainerStatus {
    ContainerStatus {
        name: name.to_string(),
        ready: false,
        restart_count: restarts,
        state,
        last_state: None,
        image: None,
        image_id: None,
        container_id: None,
        started: None,
        resources: None,
        allocated_resources: None,
    }
}

fn reported(mut pod: Pod, list: Vec<ContainerStatus>) -> Pod {
    pod.status = Some(PodStatus { init_container_statuses: Some(list), ..Default::default() });
    pod
}

/// What the library shows of a pod whose only init container has failed.
fn simulate_init_container_failure(policy: &str) -> PodStatus {
    let pod = pod_with(policy, &["init-fail"]);
    let mut rt = runtime();
    let inits =
        rt.get_init_container_statuses(&pod, &vec![seen(Some(exited("id", 1)))], at(0)).unwrap();
    let (done, next, retry) =
        rt.compute_init_container_actions(&pod, &vec![exited("id", 1).state]);
    assert!(!done);
    let failed = next.is_none() && !retry;
    PodStatus {
        phase: Some(if failed { Phase::Failed } else { Phase::Pending }),
        reason: Some(
            if failed { "FailedToStart" } else { "InitContainerFailed" }.to_string(),
        ),
        container_statuses: Some(waiting_statuses(&pod)),
        init_container_statuses: Some(inits),
        ..Default::default()
    }
}

#[test]
fn test_init_container_failure_restart_never_pod_phase_is_failed() {
    let status = simulate_init_container_failure("Never");
    assert_eq!(
        status.phase,
        Some(Phase::Failed),
        "Pod with RestartNever and failed init container must have Failed phase"
    );
    assert_eq!(status.reason, Some("FailedToStart".to_string()));
}

#[test]
fn test_init_container_failure_restart_never_init_shows_terminated() {
    let status = simulate_init_container_failure("Never");
    let init_statuses =
        status.init_container_statuses.expect("init_container_statuses should be set");
    assert_eq!(init_statuses.len(), 1);
    let init_status = &init_statuses[0];
    assert_eq!(init_status.name, "init-fail");
    assert!(!init_status.ready, "failed init container should not be ready");
    match &init_status.state {
        Some(ContainerState::Terminated { exit_code, .. }) => {
            assert_eq!(*exit_code, 1, "init container exit code should be 1");
        }
        _ => panic!("Expected Terminated state"),
    }
}

#[test]
fn test_init_container_failure_restart_never_app_not_started() {
    let status = simulate_init_container_failure("Never");
    let app_statuses = status.container_statuses.expect("container_statuses should be set");
    assert_eq!(app_statuses.len(), 1);
    let app_status = &app_statuses[0];
    assert_eq!(app_status.name, "app");
    assert!(!app_status.ready, "app container should not be ready");
    assert_eq!(app_status.started, Some(false), "app container should not have started");
    assert!(
        app_status.container_id.is_none(),
        "app container should have no container ID (never created)"
    );
    match &app_status.state {
        Some(ContainerState::Waiting { reason, .. }) => {
            assert_eq!(
                reason.as_deref(),
                Some("PodInitializing"),
                "app container should be Waiting with reason PodInitializing"
            );
        }
        _ => panic!("Expected Waiting state for app container"),
    }
}

#[test]
fn test_init_container_failure_restart_always_pod_stays_pending() {
    let status = simulate_init_container_failure("Always");
    assert_eq!(
        status.phase,
        Some(Phase::Pending),
        "Pod with RestartAlways and failed init container must stay Pending, not Failed"
    );
    assert_eq!(status.reason, Some("InitContainerFailed".to_string()));
}

#[test]
fn test_init_container_failure_restart_always_app_not_started() {
    let status = simulate_init_container_failure("Always");
    let app_statuses = status.container_statuses.expect("container_statuses should be set");
    assert_eq!(app_statuses.len(), 1);
    let app_status = &app_statuses[0];
    assert!(!app_status.ready, "app container should not be ready");
    assert_eq!(app_status.started, Some(false));
    assert!(app_status.container_id.is_none());
    match &app_status.state {
        Some(ContainerState::Waiting { reason, .. }) => {
            assert_eq!(reason.as_deref(), Some("PodInitializing"));
        }
        _ => panic!("Expected Waiting state for app container"),
    }
}

#[test]
fn test_init_container_status_shows_crashloopbackoff_on_failure() {
    let pod = reported(pod_with("Always", &["init1"]), vec![status("init1", Some(ended(1)), 0)]);
    let s = init_container_status(&pod, &make_container("init1"), &seen(None));
    match &s.state {
        Some(ContainerState::Waiting { reason, message }) => {
            assert_eq!(reason.as_deref(), Some("CrashLoopBackOff"));
            assert_eq!(
                message.as_deref(),
                Some("back-off restarting failed container init container \"init1\" exited with 1")
            );
        }
        _ => panic!("Expected Waiting state"),
    }
}

#[test]
fn test_app_containers_show_pod_initializing_during_init() {
    let pod = pod_with("Always", &["init1"]);
    let app_status = waiting_statuses(&pod).remove(0);
    assert_eq!(app_status.name, "app");
    assert_eq!(app_status.restart_count, 0);
    assert_eq!(app_status.image.as_deref(), Some("nginx:latest"));
    match &app_status.state {
        Some(ContainerState::Waiting { reason, .. }) => {
            assert_eq!(
                reason.as_deref(),
                Some("PodInitializing"),
                "App containers must show PodInitializing while init containers run"
            );
        }
        _ => panic!("App container should be in Waiting state during init"),
    }
    assert!(!app_status.ready, "App container should not be ready during init");
    assert_eq!(
        app_status.started,
        Some(false),
        "App container should not be started during init"
    );
}

#[test]
fn test_init_container_restart_count_increments() {
    let mut pod = pod_with("Always", &["init1"]);
    let c = make_container("init1");
    let mut last = init_container_status(&pod, &c, &seen(Some(exited("a", 1))));
    for _ in 0..3 {
        pod = reported(pod, vec![last]);
        last = init_container_status(&pod, &c, &seen(None));
    }
    assert_eq!(last.restart_count, 1, "one removal is counted once");
    for id in ["b", "c"] {
        pod = reported(pod, vec![last]);
        last = init_container_status(&pod, &c, &seen(Some(exited(id, 1))));
    }
    assert!(
        last.restart_count >= 3,
        "Init container restart count should be >= 3 after multiple failures"
    );
    assert!(
        last.last_state.is_some(),
        "Init container should have lastTerminationState after restart"
    );
    match &last.last_state {
        Some(ContainerState::Terminated { exit_code, .. }) => {
            assert_ne!(*exit_code, 0, "LastTerminationState should show non-zero exit code");
        }
        _ => panic!("LastTerminationState should be Terminated"),
    }
}

#[test]
fn test_pod_stays_pending_during_init_failure() {
    let mut status = PodStatus { phase: Some(Phase::Pending), ..Default::default() };
    refresh_init_container_statuses(
        &mut status,
        &vec![make_container("init1")],
        Some(vec![self::status("init1", Some(ended(1)), 0)]),
        Some("PodInitializing"),
        None,
        Timestamp { secs: 5, nanos: 0 },
    );
    assert_eq!(
        status.phase,
        Some(Phase::Pending),
        "Pod must stay Pending during init container failures"
    );
    assert_eq!(status.reason.as_deref(), Some("PodInitializing"));
    assert_eq!(
        status.conditions.unwrap()[0].message.as_deref(),
        Some("containers with incomplete status: [init1]")
    );
}

#[test]
fn test_init_container_state_machine_no_init_containers() {
    let pod = pod_with("Always", &[]);
    assert_eq!(runtime().compute_init_container_actions(&pod, &vec![]), (true, None, false));
    let has_init = kubelet::status::has_init_containers(&pod);
    assert!(!has_init, "Pod without init containers should be considered initialized");
}

#[test]
fn test_second_init_container_waits_for_first() {
    let pod = reported(
        pod_with("Always", &["init1", "init2"]),
        vec![status("init1", Some(ended(1)), 0), status("init2", None, 0)],
    );
    let list =
        runtime().get_init_container_statuses(&pod, &vec![seen(None), seen(None)], at(0)).unwrap();
    assert_eq!(list[0].restart_count, 1);
    assert!(matches!(&list[0].state, Some(ContainerState::Waiting { reason, .. })
        if reason.as_deref() == Some("CrashLoopBackOff")));
    assert!(matches!(&list[0].last_state, Some(ContainerState::Terminated { exit_code: 1, .. })));
    assert!(matches!(&list[1].state, Some(ContainerState::Waiting { reason, .. })
        if reason.as_deref() == Some("PodInitializing")));
    assert_eq!(list[1].restart_count, 0);
    assert_eq!(
        decide_next_init_action(
            &pod,
            &vec![InitContainerObserved::Exited(1), InitContainerObserved::NotStarted]
        ),
        InitAction { all_init_done: false, next_index: Some(0), should_retry: true }
    );
}

#[test]
fn inits_run_one_after_the_other() {
    let pod = pod_with("Always", &["a", "b"]);
    let act = |o: Vec<InitContainerObserved>| decide_next_init_action(&pod, &o);
    let go = |n| InitAction { all_init_done: false, next_index: n, should_retry: false };
    assert_eq!(act(vec![InitContainerObserved::NotStarted, InitContainerObserved::NotStarted]), go(Some(0)));
    assert_eq!(act(vec![InitContainerObserved::Running, InitContainerObserved::NotStarted]), go(None));
    assert_eq!(act(vec![InitContainerObserved::Exited(0), InitContainerObserved::NotStarted]), go(Some(1)));
    assert_eq!(
        act(vec![InitContainerObserved::Exited(0), InitContainerObserved::Exited(0)]),
        InitAction { all_init_done: true, next_index: None, should_retry: false }
    );
    let never = pod_with("Never", &["a", "b"]);
    assert_eq!(decide_next_init_action(&never, &vec![InitContainerObserved::Exited(3), InitContainerObserved::NotStarted]), go(None));
    assert!(restart_policy_is(&never, "Never"));
}

#[test]
fn sidecars_hold_nothing_up() {
    let mut pod = pod_with("Always", &["side", "b"]);
    pod.spec.as_mut().unwrap().init_containers.as_mut().unwrap()[0].restart_policy =
        Some("Always".to_string());
    assert!(runs_alongside(&pod.spec.as_ref().unwrap().init_containers.as_ref().unwrap()[0]));
    assert_eq!(
        decide_next_init_action(
            &pod,
            &vec![InitContainerObserved::Running, InitContainerObserved::NotStarted]
        ),
        InitAction { all_init_done: false, next_index: Some(1), should_retry: false }
    );
}

#[test]
fn what_the_engine_says_of_an_init_container() {
    assert_eq!(observe_init(&None), InitContainerObserved::NotStarted);
    assert_eq!(observe_init(&exited("a", 2).state), InitContainerObserved::Exited(2));
    let mut running = exited("a", 0).state.unwrap();
    running.running = Some(true);
    assert_eq!(observe_init(&Some(running)), InitContainerObserved::Running);
}

#[test]
fn a_sidecar_is_ready_by_its_readiness_probe_alone() {
    let mut rt = runtime();
    let mut pod = pod_with("Always", &["side"]);
    let mut c = make_container("side");
    c.restart_policy = Some("Always".to_string());
    c.startup_probe = Some(Probe { success_threshold: Some(9), ..Default::default() });
    let mut up = exited("id", 0);
    let state = up.state.as_mut().unwrap();
    state.status = Some(EngineStatus::Running);
    state.running = Some(true);
    let mut o = seen(Some(up));
    let mut ready = |c: &Container, o: &InitObservation, secs: i64| {
        pod.spec.as_mut().unwrap().init_containers = Some(vec![c.clone()]);
        assert!(rt.sidecar_answers_can_be_counted(&pod));
        rt.get_init_container_statuses(&pod, &vec![o.clone()], at(secs)).unwrap()[0].ready
    };
    assert!(ready(&c, &o, 1767225600));
    c.readiness_probe = Some(Probe {
        initial_delay_seconds: Some(10),
        success_threshold: Some(2),
        ..Default::default()
    });
    o.readiness_answer = true;
    assert!(!ready(&c, &o, 1767225609));
    assert!(!ready(&c, &o, 1767225610));
    assert!(ready(&c, &o, 1767225611));
    o.readiness_answer = false;
    assert!(!ready(&c, &o, 1767225612));
    assert!(!ready(&make_container("side"), &o, 1767225612));
}

#[test]
fn a_success_is_kept() {
    let pod = pod_with("Always", &["a"]);
    let c = make_container("a");
    let first = init_container_status(&pod, &c, &seen(Some(exited("id", 0))));
    assert!(first.ready);
    assert_eq!(first.container_id.as_deref(), Some("docker://id"));
    assert_eq!(first.image_id.as_deref(), Some("docker-pullable://sha256:abc"));
    let pod = reported(pod, vec![first.clone()]);
    let later = init_container_status(&pod, &c, &seen(None));
    assert_eq!(later, first);
    assert!(runtime().restarts_can_be_counted(&pod));
    let full = reported(pod_with("Always", &["a"]), vec![status("a", None, u32::MAX)]);
    assert!(!runtime().restarts_can_be_counted(&full));
}

#[test]
fn one_that_ran_and_is_gone_has_completed() {
    let running = ContainerState::Running { started_at: Some("t0".to_string()) };
    let pod = reported(pod_with("Always", &["a"]), vec![status("a", Some(running), 2)]);
    let s = init_container_status(&pod, &make_container("a"), &seen(None));
    assert!(matches!(
        &s.state,
        Some(ContainerState::Terminated { exit_code: 0, started_at, finished_at, .. })
            if started_at.as_deref() == Some("t0")
                && finished_at.as_deref() == Some("2026-01-02T00:00:00Z")
    ));
    assert!(s.ready);
    assert_eq!(s.restart_count, 2);
}

#[test]
fn conditions_while_initialising() {
    let now = Timestamp { secs: 7, nanos: 0 };
    let list = init_progress_conditions(&vec!["a".to_string(), "b".to_string()], now);
    let types: Vec<&str> = list.iter().map(|c| c.condition_type.as_str()).collect();
    assert_eq!(types, vec!["Initialized", "PodScheduled", "ContainersReady", "Ready"]);
    assert_eq!(
        list[0].message.as_deref(),
        Some("containers with incomplete status: [a b]")
    );
    assert_eq!(list[1].status, "True");
    assert_eq!(list[3].reason.as_deref(), Some("ContainersNotReady"));
}

#[test]
fn application_containers_are_recognised() {
    let pod = pod_with("Always", &["init1"]);
    let listed = |name: &str| Listed {
        id: Some("1".to_string()),
        names: Some(vec![name.to_string()]),
        labels: None,
        network_mode: None,
        state: None,
        created: None,
    };
    let has = |name: &str, stale: bool| {
        has_any_app_container(&pod, &vec![listed(name)], &vec![stale])
    };
    assert!(has("/test-pod_app", false));
    assert!(!has("/test-pod_app", true));
    assert!(!has("/host-test-pod_app", false));
    assert!(!has("/test-pod_pause", false));
    assert!(!has("/test-pod_init1", false));
}
