//! Statuses of containers.

use kubelet::engine::{EngineStatus, InspectState, Inspected};
use kubelet::names::pod_container_name;
use kubelet::resources::{
    Container, ContainerState, ContainerStatus, EphemeralContainer, ObjectMeta, Pod, PodSpec,
    PodStatus, Probe,
};
use kubelet::runtime::ContainerRuntime;
use kubelet::status::{reference_image, reported_error, ContainerObservation};
use kubelet::time::Timestamp;

fn runtime() -> ContainerRuntime {
    ContainerRuntime::new(
        "/volumes".to_string(),
        "10.96.0.10".to_string(),
        "cluster.local".to_string(),
        "rusternetes-network".to_string(),
        "10.96.0.1".to_string(),
        &None,
        false,
    )
}

fn make_container(name: &str) -> Container {
    Container { name: name.to_string(), image: "nginx:latest".to_string(), ..Default::default() }
}

fn pod() -> Pod {
    Pod {
        metadata: ObjectMeta { name: "p".to_string(), ..Default::default() },
        spec: Some(PodSpec { containers: vec![make_container("app")], ..Default::default() }),
        status: None,
    }
}

fn inspected(running: bool, code: i64, started: &str, finished: Option<&str>) -> Inspected {
    Inspected {
        id: Some("abc123".to_string()),
        image: Some("sha256:abc".to_string()),
        restart_count: Some(0),
        state: Some(InspectState {
            status: Some(if running { EngineStatus::Running } else { EngineStatus::Exited }),
            running: Some(running),
            exit_code: Some(code),
            error: None,
            started_at: Some(started.to_string()),
            finished_at: finished.map(|s| s.to_string()),
        }),
        network_mode: None,
        network_settings: None,
        labels: None,
    }
}

fn seen(i: Option<Inspected>) -> ContainerObservation {
    ContainerObservation {
        inspected: i,
        termination_message: None,
        startup_answer: true,
        readiness_answer: true,
    }
}

fn at(secs: i64) -> Timestamp {
    Timestamp { secs, nanos: 0 }
}

fn container_status(p: &Pod, c: &Container, o: &ContainerObservation) -> ContainerStatus {
    runtime().container_status(p, c, o, at(1767225600))
}

fn previous(last: Option<ContainerState>, restarts: u32) -> ContainerStatus {
    ContainerStatus {
        name: "app".to_string(),
        ready: false,
        restart_count: restarts,
        state: None,
        last_state: last,
        image: Some("nginx:latest".to_string()),
        image_id: None,
        container_id: None,
        started: Some(true),
        resources: None,
        allocated_resources: None,
    }
}

fn reported(s: ContainerStatus) -> Pod {
    let mut p = pod();
    p.status = Some(PodStatus { container_statuses: Some(vec![s]), ..Default::default() });
    p
}

#[test]
fn test_container_status_terminated_has_started_at() {
    let started = "2026-01-01T00:00:00Z";
    let finished = "2026-01-01T00:01:00Z";
    let s = container_status(
        &pod(),
        &make_container("app"),
        &seen(Some(inspected(false, 0, started, Some(finished)))),
    );
    match s.state {
        Some(ContainerState::Terminated {
            exit_code, reason, started_at, finished_at, container_id, ..
        }) => {
            assert_eq!(exit_code, 0);
            assert_eq!(reason.as_deref(), Some("Completed"));
            assert_eq!(container_id.as_deref(), Some("docker://abc123"));
            assert_eq!(
                started_at.as_deref(),
                Some(started),
                "Terminated state must include started_at"
            );
            assert_eq!(
                finished_at.as_deref(),
                Some(finished),
                "Terminated state must include finished_at"
            );
        }
        _ => panic!("Expected Terminated state"),
    }
}

#[test]
fn test_container_status_last_state_preserved() {
    let prev_state = ContainerState::Terminated {
        exit_code: 1,
        signal: None,
        reason: Some("Error".to_string()),
        message: None,
        started_at: Some("2026-01-01T00:00:00Z".to_string()),
        finished_at: Some("2026-01-01T00:01:00Z".to_string()),
        container_id: Some("docker://prev123".to_string()),
    };
    let p = reported(previous(Some(prev_state.clone()), 1));
    let status = container_status(
        &p,
        &make_container("app"),
        &seen(Some(inspected(true, 0, "2026-01-01T00:02:00Z", None))),
    );
    assert!(status.last_state.is_some());
    assert_eq!(status.last_state, Some(prev_state));
    assert_eq!(status.restart_count, 1);
    assert_eq!(
        status.state,
        Some(ContainerState::Running { started_at: Some("2026-01-01T00:02:00Z".to_string()) })
    );
}

#[test]
fn test_container_status_image_id_format() {
    assert_eq!(
        reference_image(&Some("sha256:abcdef1234567890".to_string())).as_deref(),
        Some("docker-pullable://sha256:abcdef1234567890"),
        "image_id should be prefixed with docker-pullable://"
    );
    assert_eq!(reference_image(&Some("nginx".to_string())).as_deref(), Some("nginx"));
}

#[test]
fn test_last_state_terminated_carries_exit_code() {
    let prev_terminated = ContainerState::Terminated {
        exit_code: 42,
        signal: None,
        reason: Some("Error".to_string()),
        message: None,
        started_at: Some("2026-01-01T00:00:00Z".to_string()),
        finished_at: Some("2026-01-01T00:00:05Z".to_string()),
        container_id: Some("docker://prev".to_string()),
    };
    let p = reported(previous(Some(prev_terminated), 1));
    let cs = container_status(
        &p,
        &make_container("app"),
        &seen(Some(inspected(true, 0, "2026-01-01T00:00:10Z", None))),
    );
    match cs.last_state {
        Some(ContainerState::Terminated { exit_code, .. }) => {
            assert_eq!(exit_code, 42, "lastState exit_code must match previous run");
        }
        _ => panic!("lastState must be Terminated with exit_code"),
    }
}

#[test]
fn test_new_ephemeral_containers_detected() {
    let ecs = [
        EphemeralContainer {
            name: "debugger".to_string(),
            image: "busybox:latest".to_string(),
            resources: None,
        },
        EphemeralContainer {
            name: "logger".to_string(),
            image: "alpine:latest".to_string(),
            resources: None,
        },
    ];
    let existing_containers = vec![pod_container_name("my-pod", "debugger")];
    let new_ecs: Vec<&EphemeralContainer> = ecs
        .iter()
        .filter(|ec| !existing_containers.contains(&pod_container_name("my-pod", &ec.name)))
        .collect();
    assert_eq!(new_ecs.len(), 1);
    assert_eq!(new_ecs[0].name, "logger");
}

#[test]
fn restart_counts_never_drop() {
    let mut i = inspected(true, 0, "t", None);
    i.restart_count = Some(2);
    let c = make_container("app");
    assert_eq!(
        container_status(&reported(previous(None, 5)), &c, &seen(Some(i.clone()))).restart_count,
        5
    );
    assert_eq!(
        container_status(&reported(previous(None, 1)), &c, &seen(Some(i))).restart_count,
        2
    );
}

#[test]
fn readiness_waits_for_the_probes() {
    let mut rt = runtime();
    let mut c = make_container("app");
    let mut p = pod();
    let up = inspected(true, 0, "2026-01-01T00:00:00Z", None);
    let mut o = seen(Some(up));
    o.readiness_answer = false;
    let mut report = |c: &Container, o: &ContainerObservation, secs: i64| {
        p.spec.as_mut().unwrap().containers = vec![c.clone()];
        assert!(rt.answers_can_be_counted(&p));
        let s = rt.get_container_statuses(&p, &vec![o.clone()], at(secs)).remove(0);
        (s.started, s.ready)
    };
    assert_eq!(report(&c, &o, 1767225600), (Some(true), true));
    c.startup_probe = Some(Probe { success_threshold: Some(2), ..Default::default() });
    assert_eq!(report(&c, &o, 1767225600), (Some(false), false));
    assert_eq!(report(&c, &o, 1767225600), (Some(true), true));
    c.readiness_probe = Some(Probe { initial_delay_seconds: Some(10), ..Default::default() });
    assert_eq!(report(&c, &o, 1767225610), (Some(true), false));
    o.readiness_answer = true;
    assert_eq!(report(&c, &o, 1767225609), (Some(true), false));
    assert_eq!(report(&c, &o, 1767225610), (Some(true), true));
    o.startup_answer = false;
    assert_eq!(report(&c, &o, 1767225610), (Some(false), false));
    let ended = inspected(false, 0, "2026-01-01T00:00:00Z", Some("2026-01-01T00:00:05Z"));
    assert_eq!(report(&make_container("app"), &seen(Some(ended)), 1767225610), (Some(false), false));
}

#[test]
fn a_startup_probe_is_asked_without_being_counted() {
    let mut rt = runtime();
    let mut c = make_container("app");
    c.startup_probe = Some(Probe { success_threshold: Some(2), ..Default::default() });
    assert!(!rt.would_start("p", &c, true, true));
    assert!(!rt.would_start("p", &c, true, true));
    assert!(!rt.startup_passed("p", &c, true, true));
    assert!(rt.would_start("p", &c, true, true));
    assert!(!rt.would_start("p", &c, false, true));
    assert!(!rt.would_start("p", &c, true, false));
}

#[test]
fn a_vanished_container_keeps_its_status() {
    let p = previous(None, 3);
    assert_eq!(
        container_status(&reported(p.clone()), &make_container("app"), &seen(None)),
        p
    );
    let fresh = runtime().get_container_statuses(&pod(), &vec![seen(None)], at(0)).remove(0);
    assert!(matches!(&fresh.state, Some(ContainerState::Waiting { reason, .. })
        if reason.as_deref() == Some("ContainerCreating")));
    let mut with_init = pod();
    with_init.spec.as_mut().unwrap().init_containers = Some(vec![make_container("i")]);
    let fresh = container_status(&with_init, &make_container("app"), &seen(None));
    assert!(matches!(&fresh.state, Some(ContainerState::Waiting { reason, .. })
        if reason.as_deref() == Some("PodInitializing")));
}

#[test]
fn reasons_of_an_end() {
    let reason = |code: i64, error: Option<&str>| {
        let mut i = inspected(false, code, "t", Some("u"));
        i.state.as_mut().unwrap().error = error.map(|s| s.to_string());
        match container_status(&pod(), &make_container("app"), &seen(Some(i))).state {
            Some(ContainerState::Terminated { reason, exit_code, .. }) => {
                (reason.unwrap(), exit_code)
            }
            _ => panic!("not ended"),
        }
    };
    assert_eq!(reason(137, None), ("OOMKilled".to_string(), 137));
    assert_eq!(reason(2, None), ("Error".to_string(), 2));
    assert_eq!(reason(2, Some("broken")), ("broken".to_string(), 2));
    assert_eq!(reason(2, Some("")), ("Error".to_string(), 2));
    assert_eq!(reported_error(&None, "x"), "x");
}

#[test]
fn ephemeral_containers_are_reported() {
    let mut p = pod();
    assert_eq!(runtime().get_ephemeral_container_statuses(&p, &vec![]), None);
    p.spec.as_mut().unwrap().ephemeral_containers = Some(vec![EphemeralContainer {
        name: "debug".to_string(),
        image: "busybox".to_string(),
        resources: None,
    }]);
    let list = runtime()
        .get_ephemeral_container_statuses(&p, &vec![Some(inspected(false, 1, "t", Some("u")))])
        .unwrap();
    assert_eq!(list[0].name, "debug");
    assert!(!list[0].ready);
    assert!(matches!(&list[0].state, Some(ContainerState::Terminated { exit_code: 1, .. })));
    let list = runtime()
        .get_ephemeral_container_statuses(&p, &vec![Some(inspected(true, 0, "t", None))])
        .unwrap();
    assert!(list[0].ready);
    assert_eq!(list[0].started, Some(true));
}
