//! Streaming requests.

use kubelet::streaming_server::{
    attach_proxy, decode_simple, exec_proxy, hand_on, is_true, pod_for_resolve, streams,
    ExecParams, ExecPath3, ExecPath4, Refusal, StreamEvent, StreamPhase, StreamRequest, Streams,
};

#[test]
fn exec_params_parse_command_and_tty() {
    let q = "command=ls&command=-la&tty=true&stdin=false&stdout=true&stderr=true";
    let p = ExecParams::from_query(q);
    assert_eq!(p.command, vec!["ls", "-la"]);
    assert!(p.tty);
    assert!(!p.stdin && p.stdout && p.stderr);
}

#[test]
fn exec_params_empty_query() {
    let p = ExecParams::from_query("");
    assert!(p.command.is_empty());
    assert!(!p.stdin && !p.stdout && !p.stderr && !p.tty);
}

#[test]
fn exec_params_single_command() {
    let p = ExecParams::from_query("command=echo&stdin=1&stdout=1");
    assert_eq!(p.command, vec!["echo"]);
    assert!(p.stdin);
    assert!(p.stdout);
    assert!(!p.stderr);
}

#[test]
fn exec_params_tty_suppresses_stderr() {
    let p = ExecParams::from_query("command=bash&tty=true&stdin=true&stdout=true&stderr=false");
    assert!(p.tty);
    assert!(p.stdin);
    assert!(p.stdout);
    assert!(!p.stderr);
}

#[test]
fn values_are_decoded() {
    assert_eq!(decode_simple("plain"), "plain");
    assert_eq!(decode_simple("a+b%20c"), "a b c");
    assert_eq!(decode_simple("%2Fbin%2fsh"), "/bin/sh");
    assert_eq!(decode_simple("50%"), "50%");
    assert_eq!(decode_simple("%zz"), "%zz");
    assert_eq!(decode_simple("%+5"), "% 5");
    assert_eq!(decode_simple("\u{e9}"), "\u{e9}");
    assert_eq!(decode_simple("caf\u{e9}+%41\u{65e5}"), "caf\u{e9} A\u{65e5}");
    assert_eq!(decode_simple("%\u{e9}1"), "%\u{e9}1");
    assert!(is_true("true") && is_true("1"));
    assert!(!is_true("false") && !is_true(""));
}

#[test]
fn unknown_keys_are_passed_over() {
    let p = ExecParams::from_query("command=a&other=x&container=y&command=b&flag");
    assert_eq!(p.command, vec!["a", "b"]);
    assert!(!p.tty && !p.stdin && !p.stdout && !p.stderr);
}

fn path() -> ExecPath4 {
    ExecPath3 {
        namespace: "default".to_string(),
        pod: "web".to_string(),
        container: "app".to_string(),
    }
    .any_uid()
}

#[test]
fn a_terminal_has_no_error_stream() {
    let s = streams(&ExecParams::from_query("tty=1&stdin=1&stdout=1&stderr=1"));
    assert!(s.tty && s.stdin && s.stdout && !s.stderr);
    let s = streams(&ExecParams::from_query("stdout=1&stderr=1"));
    assert!(!s.tty && !s.stdin && s.stdout && s.stderr);
}

#[test]
fn a_pod_is_looked_for_by_its_names() {
    let p = path();
    assert_eq!(p.uid, "");
    let pod = pod_for_resolve(&p.namespace, &p.pod, "uid-1");
    assert_eq!(pod.metadata.name, "web");
    assert_eq!(pod.metadata.namespace.as_deref(), Some("default"));
    assert_eq!(pod.metadata.uid, "uid-1");
}

fn refusal(status: u16, message: &str) -> StreamPhase {
    StreamPhase::Refused(Refusal { status, message: message.to_string() })
}

#[test]
fn a_command_is_run_step_by_step() {
    let params = ExecParams::from_query("command=ls&command=-l&stdin=1");
    let step = |phase, event| exec_proxy(&path(), &params, phase, event);
    let phase = step(StreamPhase::Connect, StreamEvent::Connected(Ok(())));
    assert_eq!(phase, StreamPhase::Resolve);
    let phase = step(phase, StreamEvent::Resolved(Ok(Some("id-1".to_string()))));
    let wanted = Streams { tty: false, stdin: true, stdout: true, stderr: true };
    assert_eq!(
        phase,
        StreamPhase::Open(StreamRequest {
            container_id: "id-1".to_string(),
            command: Some(vec!["ls".to_string(), "-l".to_string()]),
            streams: wanted,
        })
    );
    let phase = step(phase, StreamEvent::Connected(Err("late".to_string())));
    let phase = step(phase, StreamEvent::Opened(Ok("http://far:1/x".to_string())));
    assert_eq!(phase, StreamPhase::Rewrite("http://far:1/x".to_string()));
    let phase = step(phase, StreamEvent::Rewritten(Ok("http://near:2/x".to_string())));
    assert_eq!(phase, StreamPhase::Proxy("http://near:2/x".to_string()));
    let phase = step(phase, StreamEvent::Connected(Err("late".to_string())));
    assert_eq!(phase, StreamPhase::Proxy("http://near:2/x".to_string()));
}

#[test]
fn attaching_brings_no_command() {
    let params = ExecParams::from_query("command=ls&tty=true");
    let found = StreamEvent::Resolved(Ok(Some("id-1".to_string())));
    assert_eq!(
        attach_proxy(&path(), &params, StreamPhase::Resolve, found),
        StreamPhase::Open(StreamRequest {
            container_id: "id-1".to_string(),
            command: None,
            streams: Streams { tty: true, stdin: false, stdout: true, stderr: false },
        })
    );
}

#[test]
fn requests_that_are_refused() {
    let params = ExecParams::from_query("");
    let step = |phase, event| exec_proxy(&path(), &params, phase, event);
    assert_eq!(
        step(StreamPhase::Connect, StreamEvent::Connected(Err("no runtime".to_string()))),
        refusal(500, "no runtime")
    );
    assert_eq!(
        step(StreamPhase::Resolve, StreamEvent::Resolved(Ok(None))),
        refusal(404, "container \"app\" not found in pod \"web\" (namespace \"default\")")
    );
    assert_eq!(
        step(StreamPhase::Resolve, StreamEvent::Resolved(Err("boom".to_string()))),
        refusal(500, "boom")
    );
    let open = StreamPhase::Open(StreamRequest {
        container_id: "id-1".to_string(),
        command: None,
        streams: streams(&params),
    });
    assert_eq!(step(open, StreamEvent::Opened(Err("shut".to_string()))), refusal(500, "shut"));
    let rewrite = StreamPhase::Rewrite("x".to_string());
    assert_eq!(
        step(rewrite.clone(), StreamEvent::Rewritten(Err("bad".to_string()))),
        refusal(500, "bad")
    );
    assert_eq!(
        step(rewrite.clone(), StreamEvent::Rewritten(Ok(String::new()))),
        refusal(500, "empty string")
    );
    assert_eq!(
        step(rewrite, StreamEvent::Rewritten(Ok("http://a b".to_string()))),
        refusal(500, "invalid uri character")
    );
    assert_eq!(
        hand_on("t".to_string(), Some("why".to_string())),
        refusal(500, "why")
    );
    assert_eq!(hand_on("t".to_string(), None), StreamPhase::Proxy("t".to_string()));
}
