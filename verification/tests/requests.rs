//! Requests of probes and hooks.

use kubelet::engine::{AttachedNetwork, Inspected, NetworkSettings};
use kubelet::hook::{
    command_error, connection_error, hook_address, hook_connection, hook_host, hook_namespace,
    hook_pause, request_error, ConnectOutcome, HookEvent, HookPhase, HookRequest, RunFailure,
};
use kubelet::request::{
    check_exec_probe, check_grpc_probe, check_http_probe, check_tcp_probe, health_request,
    http_verdict, is_serving, redirect_action, redirect_warning, request_url, sendable_headers,
    socket_address, ExecOutcome, RedirectAction,
};
use kubelet::resources::{
    Container, ExecAction, GrpcAction, HttpGetAction, Lifecycle, LifecycleHandler, ObjectMeta, Pod,
    PodStatus, TcpSocketAction,
};
use kubelet::runtime::ContainerRuntime;

fn http(path: Option<&str>, port: &str, host: Option<&str>, scheme: Option<&str>) -> HttpGetAction {
    HttpGetAction {
        path: path.map(|s| s.to_string()),
        port: port.to_string(),
        host: host.map(|s| s.to_string()),
        scheme: scheme.map(|s| s.to_string()),
        http_headers: None,
    }
}

fn command(words: &[&str]) -> LifecycleHandler {
    LifecycleHandler {
        exec_action: Some(ExecAction { command: words.iter().map(|w| w.to_string()).collect() }),
        ..Default::default()
    }
}

fn runtime() -> ContainerRuntime {
    ContainerRuntime::new(
        "/volumes".to_string(),
        "10.96.0.10".to_string(),
        "cluster.local".to_string(),
        "pods".to_string(),
        "10.96.0.1".to_string(),
        &None,
        false,
    )
}

fn next(h: &LifecycleHandler, phase: HookPhase, event: HookEvent) -> HookPhase {
    runtime().execute_lifecycle_handler(h, "p_app", phase, &event)
}

fn begin(h: &LifecycleHandler, port: Option<u16>) -> HookPhase {
    next(h, HookPhase::Beginning, HookEvent::Begun(port))
}

fn running(words: &[&str]) -> HookPhase {
    HookPhase::Running(words.iter().map(|w| w.to_string()).collect())
}

fn failed(message: &str) -> HookPhase {
    HookPhase::Failed(message.to_string())
}

fn pair(k: &str, v: &str) -> (String, String) {
    (k.to_string(), v.to_string())
}

#[test]
fn test_lifecycle_handler_exec_is_recognized() {
    let lifecycle = Lifecycle {
        post_start: Some(command(&["/bin/sh", "-c", "echo hello"])),
        pre_stop: None,
    };
    assert!(lifecycle.post_start.is_some());
    let handler = lifecycle.post_start.unwrap();
    assert!(handler.exec_action.is_some());
    assert_eq!(begin(&handler, None), running(&["/bin/sh", "-c", "echo hello"]));
    assert_eq!(handler.exec_action.unwrap().command.len(), 3);
}

#[test]
fn test_lifecycle_handler_http_get_is_recognized() {
    let lifecycle = Lifecycle {
        post_start: None,
        pre_stop: Some(LifecycleHandler {
            http_get: Some(http(Some("/shutdown"), "8080", Some("localhost"), Some("HTTP"))),
            ..Default::default()
        }),
    };
    assert!(lifecycle.pre_stop.is_some());
    let handler = lifecycle.pre_stop.unwrap();
    assert_eq!(
        begin(&handler, Some(8080)),
        HookPhase::Resolving("localhost".to_string(), 8080)
    );
    assert!(handler.http_get.is_some());
    let http = handler.http_get.unwrap();
    assert_eq!(http.port, "8080");
    assert_eq!(http.path.as_deref(), Some("/shutdown"));
}

#[test]
fn test_lifecycle_handler_sleep_is_recognized() {
    let lifecycle = Lifecycle {
        post_start: None,
        pre_stop: Some(LifecycleHandler { sleep: Some(5), ..Default::default() }),
    };
    assert!(lifecycle.pre_stop.is_some());
    let handler = lifecycle.pre_stop.unwrap();
    assert!(handler.sleep.is_some());
    assert_eq!(handler.sleep.unwrap(), 5);
    assert_eq!(begin(&handler, None), HookPhase::Sleeping(5));
}

#[test]
fn test_container_lifecycle_field_present() {
    let mut container = Container { name: "app".to_string(), ..Default::default() };
    assert!(container.lifecycle.is_none());
    container.lifecycle = Some(Lifecycle {
        post_start: Some(command(&["/bin/sh", "-c", "touch /tmp/started"])),
        pre_stop: Some(command(&["/bin/sh", "-c", "touch /tmp/stopping"])),
    });
    assert!(container.lifecycle.is_some());
    let lc = container.lifecycle.unwrap();
    assert!(lc.post_start.is_some());
    assert!(lc.pre_stop.is_some());
}

#[test]
fn test_prestop_lifecycle_handler_variants() {
    let exec_hook = command(&["/bin/sh", "-c", "graceful"]);
    assert!(exec_hook.exec_action.is_some());
    assert_eq!(begin(&exec_hook, None), running(&["/bin/sh", "-c", "graceful"]));
    let http_hook = LifecycleHandler {
        http_get: Some(http(Some("/shutdown"), "8080", None, None)),
        ..Default::default()
    };
    assert!(http_hook.http_get.is_some());
    assert_eq!(begin(&http_hook, Some(8080)), HookPhase::Locating(8080));
    let tcp_hook = LifecycleHandler {
        tcp_socket: Some(TcpSocketAction { host: None, port: "9000".to_string() }),
        ..Default::default()
    };
    assert!(tcp_hook.tcp_socket.is_some());
    assert_eq!(begin(&tcp_hook, Some(9000)), HookPhase::Reaching(Some(9000)));
    let sleep_hook = LifecycleHandler { sleep: Some(5), ..Default::default() };
    assert!(sleep_hook.sleep.is_some());
    assert_eq!(begin(&sleep_hook, None), HookPhase::Sleeping(5));
    assert_eq!(begin(&LifecycleHandler::default(), None), HookPhase::Done);
}

#[test]
fn test_http_probe_url_scheme_lowercased() {
    let http_get = http(Some("/readyz"), "443", None, Some("HTTPS"));
    assert_eq!(request_url(&http_get, "172.18.0.5", 443), "https://172.18.0.5:443/readyz");
}

#[test]
fn test_http_probe_url_scheme_default_is_http() {
    let http_get = http(Some("/healthz"), "8080", None, None);
    assert_eq!(request_url(&http_get, "10.244.0.5", 8080), "http://10.244.0.5:8080/healthz");
}

#[test]
fn test_http_probe_url_with_uppercase_http_scheme() {
    let http_get = http(None, "80", Some("my-service"), Some("HTTP"));
    let request = check_http_probe(&http_get, "my-service", Some(80)).unwrap();
    assert_eq!(request.url, "http://my-service:80/");
}

#[test]
fn test_http_probe_custom_headers_parsed() {
    let mut http_get = http(Some("/readyz"), "443", None, Some("HTTPS"));
    let headers =
        vec![pair("X-Custom-Header", "test-value"), pair("Accept", "application/json")];
    http_get.http_headers = Some(headers.clone());
    for (name, value) in &headers {
        assert!(http::HeaderName::from_bytes(name.as_bytes()).is_ok());
        assert!(http::HeaderValue::from_str(value).is_ok());
    }
    let request = check_http_probe(&http_get, "10.0.0.1", Some(443)).unwrap();
    assert_eq!(request.headers, headers);
}

#[test]
fn only_valid_headers_are_sent() {
    let list = vec![
        pair("", "x"),
        pair("Bad Name", "x"),
        pair("Bad:Name", "x"),
        pair("Good", "bad\nvalue"),
        pair("Good", "bad\u{7f}"),
        pair("Good", "fine\tvalue"),
        pair("Accent", "é"),
    ];
    assert_eq!(
        sendable_headers(&Some(list)),
        vec![pair("Good", "fine\tvalue"), pair("Accent", "é")]
    );
    assert!(sendable_headers(&None).is_empty());
    let long = "n".repeat(65536);
    assert!(sendable_headers(&Some(vec![pair(&long, "x")])).is_empty());
    let just = "n".repeat(65535);
    assert_eq!(sendable_headers(&Some(vec![pair(&just, "x")])).len(), 1);
}

#[test]
fn a_port_that_is_not_known_fails_the_probe() {
    assert_eq!(check_http_probe(&http(None, "web", None, None), "10.0.0.1", None), None);
    assert_eq!(check_tcp_probe("10.0.0.1", None), None);
    assert_eq!(check_tcp_probe("10.0.0.1", Some(80)).as_deref(), Some("10.0.0.1:80"));
    assert_eq!(check_grpc_probe("10.0.0.1", None), None);
    assert_eq!(check_grpc_probe("10.0.0.1", Some(50051)).as_deref(), Some("http://10.0.0.1:50051"));
    assert_eq!(socket_address("h", 1), "h:1");
}

#[test]
fn redirects_stay_on_the_host() {
    assert_eq!(redirect_action(Some("a"), Some("a"), 1), RedirectAction::Follow);
    assert_eq!(redirect_action(Some("a"), Some("b"), 1), RedirectAction::Stop);
    assert_eq!(redirect_action(Some("a"), Some("a"), 10), RedirectAction::TooMany);
    assert_eq!(redirect_action(None, Some("b"), 9), RedirectAction::Follow);
    assert_eq!(redirect_warning("moved"), "Probe terminated redirects, Response body: moved");
}

#[test]
fn what_answers_mean() {
    let v = |c| {
        let r = http_verdict(c);
        (r.success, r.redirected)
    };
    assert_eq!(v(None), (false, false));
    assert_eq!(v(Some(199)), (false, false));
    assert_eq!(v(Some(200)), (true, false));
    assert_eq!(v(Some(302)), (true, true));
    assert_eq!(v(Some(399)), (true, true));
    assert_eq!(v(Some(400)), (false, false));
    assert_eq!(check_exec_probe(ExecOutcome::Exited(Some(0))), Ok(true));
    assert_eq!(check_exec_probe(ExecOutcome::Exited(Some(1))), Ok(false));
    assert_eq!(check_exec_probe(ExecOutcome::Exited(None)), Ok(false));
    assert_eq!(check_exec_probe(ExecOutcome::TimedOut), Ok(false));
    assert_eq!(check_exec_probe(ExecOutcome::Failed("x".to_string())), Err("x".to_string()));
    assert!(is_serving(Some(1)));
    assert!(!is_serving(Some(2)));
    assert!(!is_serving(None));
}

#[test]
fn health_services_are_asked_by_name() {
    let ask = |s: Option<&str>| {
        health_request(&GrpcAction {
            port: "1".to_string(),
            service: s.map(|x| x.to_string()),
        })
    };
    assert!(ask(None).is_empty());
    assert!(ask(Some("")).is_empty());
    assert_eq!(ask(Some("ab")), vec![10, 2, b'a', b'b']);
    let long = "x".repeat(300);
    assert_eq!(ask(Some(&long))[..3], [10, 172, 2]);
    assert_eq!(ask(Some(&long)).len(), 303);
    let longer = "x".repeat(16384);
    assert_eq!(ask(Some(&longer))[..5], [10, 128, 128, 1, b'x']);
    assert_eq!(ask(Some(&longer)).len(), 16388);
}

#[test]
fn hooks_without_a_port_are_errors() {
    let h = LifecycleHandler {
        http_get: Some(http(None, "web", None, None)),
        ..Default::default()
    };
    assert_eq!(
        begin(&h, None),
        failed("Lifecycle HTTP handler port web unresolvable for container p_app")
    );
    let tcp = TcpSocketAction { host: None, port: "db".to_string() };
    assert_eq!(
        hook_connection(&tcp, "p_app", &inspected(None, None), None).unwrap_err(),
        "Lifecycle TCP handler port db unresolvable for container p_app"
    );
    assert_eq!(
        hook_connection(&tcp, "p_app", &inspected(None, Some("10.0.0.4")), Some(5432)).unwrap(),
        "10.0.0.4:5432"
    );
    assert_eq!(
        hook_connection(&tcp, "p_app", &inspected(None, None), Some(5432)).unwrap(),
        "127.0.0.1:5432"
    );
}

fn inspected(networks: Option<Vec<AttachedNetwork>>, ip: Option<&str>) -> Inspected {
    Inspected {
        id: None,
        image: None,
        restart_count: None,
        state: None,
        network_mode: None,
        network_settings: if networks.is_none() && ip.is_none() {
            None
        } else {
            Some(NetworkSettings { networks, ip_address: ip.map(|s| s.to_string()) })
        },
        labels: None,
    }
}

#[test]
fn a_hook_finds_its_address() {
    let on = |ip: &str| {
        Some(vec![AttachedNetwork { name: "n".to_string(), ip_address: Some(ip.to_string()) }])
    };
    assert_eq!(
        hook_address(&inspected(None, Some("10.0.0.1")), &Some(inspected(on("10.0.0.2"), None))),
        "10.0.0.1"
    );
    assert_eq!(
        hook_address(&inspected(None, Some("")), &Some(inspected(on("10.0.0.2"), None))),
        "10.0.0.2"
    );
    assert_eq!(
        hook_address(&inspected(None, None), &Some(inspected(on(""), Some("10.0.0.3")))),
        "10.0.0.3"
    );
    assert_eq!(hook_address(&inspected(None, None), &None), "127.0.0.1");
    assert_eq!(hook_pause("my_pod_app"), "my_pod_pause");
}

#[test]
fn commands_of_hooks() {
    let h = command(&["true"]);
    let ran = |r| next(&h, running(&["true"]), HookEvent::Ran(r));
    assert_eq!(ran(Ok(Some(0))), HookPhase::Done);
    assert_eq!(ran(Ok(Some(2))), failed("Lifecycle exec handler exited with code 2"));
    assert_eq!(
        ran(Err(RunFailure::Create)),
        failed("Failed to create exec for lifecycle handler")
    );
    assert_eq!(ran(Err(RunFailure::Start)), failed("Failed to start exec for lifecycle handler"));
    assert_eq!(ran(Err(RunFailure::Inspect("gone".to_string()))), failed("gone"));
    assert_eq!(next(&h, HookPhase::Done, HookEvent::Ran(Ok(Some(2)))), HookPhase::Done);
}

#[test]
fn requests_of_hooks() {
    let mut action = http(Some("/x"), "80", None, None);
    action.http_headers = Some(vec![pair("a", "b")]);
    let h = LifecycleHandler { http_get: Some(action), ..Default::default() };
    let request = |url: &str| {
        HookPhase::Requesting(HookRequest { url: url.to_string(), headers: vec![pair("a", "b")] })
    };
    let found = HookEvent::Found(Ok(inspected(None, Some("10.0.0.1"))), None);
    assert_eq!(next(&h, HookPhase::Locating(80), found), request("http://10.0.0.1:80/x"));
    let lost = HookEvent::Found(Err("no such container".to_string()), None);
    assert_eq!(next(&h, HookPhase::Locating(80), lost), failed("no such container"));
    let known = HookEvent::HostFound {
        is_address: false,
        looked_up: None,
        cluster_ip: Some("10.96.0.7".to_string()),
        pods: vec![],
        namespace: "default".to_string(),
    };
    let resolving = HookPhase::Resolving("svc".to_string(), 80);
    assert_eq!(next(&h, resolving, known), request("http://10.96.0.7:80/x"));
    let sent = request("http://10.0.0.1:80/x");
    assert_eq!(next(&h, sent.clone(), HookEvent::Answered(None)), HookPhase::Done);
    assert_eq!(
        next(&h, sent, HookEvent::Answered(Some("refused".to_string()))),
        failed("Lifecycle HTTP handler failed: refused")
    );
}

#[test]
fn connections_of_hooks() {
    let h = LifecycleHandler {
        tcp_socket: Some(TcpSocketAction { host: None, port: "db".to_string() }),
        ..Default::default()
    };
    let found = || HookEvent::Found(Ok(inspected(None, Some("10.0.0.1"))), None);
    let connecting = HookPhase::Connecting("10.0.0.1:5432".to_string());
    assert_eq!(next(&h, HookPhase::Reaching(Some(5432)), found()), connecting);
    assert_eq!(
        next(&h, HookPhase::Reaching(None), found()),
        failed("Lifecycle TCP handler port db unresolvable for container p_app")
    );
    assert_eq!(
        next(&h, connecting.clone(), HookEvent::Connected(ConnectOutcome::TimedOut)),
        failed("Lifecycle TCP handler timed out")
    );
    assert_eq!(
        next(&h, connecting, HookEvent::Connected(ConnectOutcome::Connected)),
        HookPhase::Done
    );
    assert_eq!(next(&h, HookPhase::Sleeping(1), HookEvent::Slept), HookPhase::Done);
}

fn pod(name: &str, namespace: Option<&str>, ip: Option<&str>) -> Pod {
    Pod {
        metadata: ObjectMeta {
            name: name.to_string(),
            namespace: namespace.map(|s| s.to_string()),
            ..Default::default()
        },
        spec: None,
        status: Some(PodStatus { pod_ip: ip.map(|s| s.to_string()), ..Default::default() }),
    }
}

#[test]
fn a_hook_resolves_its_host() {
    let some = |s: &str| Some(s.to_string());
    let pods = vec![
        pod("db", Some("other"), Some("1.1.1.1")),
        pod("db", Some("ns"), Some("2.2.2.2")),
        pod("blank", Some("ns"), Some("")),
    ];
    assert_eq!(hook_host("9.9.9.9", true, &some("x"), &some("y"), &pods, "ns"), "9.9.9.9");
    assert_eq!(hook_host("db", false, &some("3.3.3.3"), &some("y"), &pods, "ns"), "3.3.3.3");
    assert_eq!(hook_host("db", false, &None, &some("4.4.4.4"), &pods, "ns"), "4.4.4.4");
    assert_eq!(hook_host("db", false, &None, &some("None"), &pods, "ns"), "2.2.2.2");
    assert_eq!(hook_host("blank", false, &None, &None, &pods, "ns"), "blank");
    assert_eq!(hook_host("who", false, &None, &None, &pods, "ns"), "who");
    assert_eq!(hook_namespace(&pods, "db_app"), "other");
    assert_eq!(hook_namespace(&pods, "gone_app"), "default");
}

#[test]
fn errors_of_hooks() {
    assert_eq!(command_error(Some(0)), None);
    assert_eq!(
        command_error(Some(3)).as_deref(),
        Some("Lifecycle exec handler exited with code 3")
    );
    assert_eq!(
        command_error(None).as_deref(),
        Some("Lifecycle exec handler exited with code 1")
    );
    assert_eq!(connection_error(&ConnectOutcome::Connected), None);
    assert_eq!(
        connection_error(&ConnectOutcome::Failed("refused".to_string())).as_deref(),
        Some("Lifecycle TCP handler failed: refused")
    );
    assert_eq!(
        connection_error(&ConnectOutcome::TimedOut).as_deref(),
        Some("Lifecycle TCP handler timed out")
    );
    assert_eq!(request_error(&None), None);
    assert_eq!(
        request_error(&Some("refused".to_string())).as_deref(),
        Some("Lifecycle HTTP handler failed: refused")
    );
}
