//! The last messages of containers.

use kubelet::resources::Container;
use kubelet::runtime::ContainerRuntime;
use kubelet::termination::{
    archived_text, cut_message, may_hold_sparse, message_after_copy, message_after_file,
    message_can_be_cut, message_of_logs, message_of_text, pod_before_container, MessageEvent, MessageStep,
    MAX_MESSAGE,
};

fn container(policy: Option<&str>) -> Container {
    Container {
        name: "app".to_string(),
        termination_message_policy: policy.map(|s| s.to_string()),
        ..Default::default()
    }
}

fn runtime() -> ContainerRuntime {
    ContainerRuntime::new(
        "/volumes".to_string(),
        String::new(),
        String::new(),
        String::new(),
        String::new(),
        &None,
        false,
    )
}

const FALLBACK: Option<&str> = Some("FallbackToLogsOnError");

fn archive(members: &[(&str, &[u8])]) -> Vec<u8> {
    let mut builder = tar::Builder::new(Vec::new());
    for (name, content) in members {
        let mut header = tar::Header::new_gnu();
        header.set_size(content.len() as u64);
        header.set_mode(0o644);
        header.set_cksum();
        builder.append_data(&mut header, name, *content).unwrap();
    }
    builder.into_inner().unwrap()
}

#[test]
fn test_fallback_to_logs_on_error_policy_detection() {
    let empty = Some(String::new());
    assert_eq!(
        message_after_file(&container(FALLBACK), 1, true, &empty),
        MessageStep::ReadLogs,
        "FallbackToLogsOnError policy should match"
    );
    assert_eq!(
        message_after_file(&container(Some("File")), 1, true, &empty),
        MessageStep::Found(None),
        "File policy should not match FallbackToLogsOnError"
    );
    assert_eq!(
        message_after_file(&container(None), 1, true, &empty),
        MessageStep::Found(None),
        "None policy should not match FallbackToLogsOnError"
    );
}

#[test]
fn test_fallback_skipped_on_success_exit() {
    assert_eq!(
        message_after_file(&container(FALLBACK), 0, true, &None),
        MessageStep::Found(None),
        "FallbackToLogsOnError with exit_code 0 should produce no message"
    );
}

#[test]
fn test_fallback_triggered_on_error_exit() {
    assert_eq!(
        message_after_file(&container(FALLBACK), 1, false, &None),
        MessageStep::CopyFile,
        "FallbackToLogsOnError with non-zero exit should read termination message"
    );
    assert_eq!(
        message_of_text(&container(FALLBACK), 1, &None),
        MessageStep::ReadLogs
    );
}

#[test]
fn test_termination_message_truncation() {
    let long_content = "x".repeat(8192);
    assert_eq!(cut_message(&long_content).len(), 4096);
    assert_eq!(MAX_MESSAGE, 4096);
    assert_eq!(cut_message("short"), "short");
}

#[test]
fn a_message_is_cut_between_characters() {
    let odd = "é".repeat(2048) + "x";
    assert!(message_can_be_cut(&odd));
    assert_eq!(cut_message(&odd), "é".repeat(2048));
    let split = "x".to_string() + &"é".repeat(2048);
    assert!(!message_can_be_cut(&split));
    assert!(message_can_be_cut(&"é".repeat(2048)));
}

#[test]
fn the_file_on_the_node_is_the_last_word() {
    let c = container(None);
    assert_eq!(
        message_after_file(&c, 1, true, &Some("bye".to_string())),
        MessageStep::Found(Some("bye".to_string()))
    );
    assert_eq!(message_after_file(&c, 1, true, &None), MessageStep::Found(None));
    assert_eq!(message_after_file(&c, 1, false, &None), MessageStep::CopyFile);
    assert_eq!(runtime().message_file("my_pod_app", &c), "/volumes/my_pod/termination/app");
    assert_eq!(pod_before_container("my_pod_app"), "my_pod");
    assert_eq!(pod_before_container("plain"), "plain");
}

#[test]
fn the_first_text_of_an_archive_is_found() {
    let bytes = archive(&[
        ("empty", b"" as &[u8]),
        ("binary", &[0xff, 0xfe]),
        ("log", b"it failed"),
        ("later", b"no"),
    ]);
    assert_eq!(archived_text(&bytes).as_deref(), Some("it failed"));
    assert_eq!(archived_text(&vec![]), None);
    assert_eq!(archived_text(&archive(&[("empty", b"")])), None);
    assert_eq!(archived_text(&b"this is no archive".to_vec()), None);
}

#[test]
fn an_archive_with_a_sparse_file_is_not_read() {
    let mut header = tar::Header::new_gnu();
    header.set_entry_type(tar::EntryType::GNUSparse);
    header.set_size(0);
    {
        let gnu = header.as_gnu_mut().unwrap();
        gnu.isextended[0] = 1;
        gnu.size = [128, 0, 0, 0, 255, 255, 255, 255, 255, 255, 252, 0];
    }
    header.set_cksum();
    let mut bytes = header.as_bytes().to_vec();
    bytes.extend_from_slice(&[0; 512]);
    assert!(may_hold_sparse(&bytes));
    assert_eq!(archived_text(&bytes), None);
    let c = container(FALLBACK);
    assert_eq!(message_after_copy(&c, 1, &Some(bytes)), Some(MessageStep::ReadLogs));
    let letters = "S".repeat(700);
    let plain = archive(&[("termination-log", letters.as_bytes())]);
    assert!(!may_hold_sparse(&plain));
    assert_eq!(archived_text(&plain), Some(letters));
}

#[test]
fn a_copied_file_gives_the_message() {
    let c = container(FALLBACK);
    let bytes = archive(&[("termination-log", b"out of disk" as &[u8])]);
    assert_eq!(
        message_after_copy(&c, 1, &Some(bytes)),
        Some(MessageStep::Found(Some("out of disk".to_string())))
    );
    assert_eq!(message_after_copy(&c, 1, &None), Some(MessageStep::ReadLogs));
    assert_eq!(message_after_copy(&c, 0, &None), Some(MessageStep::Found(None)));
    let split = "x".to_string() + &"é".repeat(4000);
    let bytes = archive(&[("termination-log", split.as_bytes())]);
    assert_eq!(message_after_copy(&c, 1, &Some(bytes)), None);
}

#[test]
fn logs_give_a_message_unless_they_are_empty() {
    assert_eq!(message_of_logs("last words\n").as_deref(), Some("last words\n"));
    assert_eq!(message_of_logs(""), None);
    assert_eq!(message_of_logs(&"y".repeat(5000)).unwrap().len(), 4096);
}

#[test]
fn a_message_is_read_step_by_step() {
    let c = container(FALLBACK);
    let step = |e: MessageEvent| runtime().read_termination_message(&c, 1, &e);
    let found = |m: &str| Some(MessageStep::Found(Some(m.to_string())));
    assert_eq!(
        step(MessageEvent::FileRead { there: false, content: None }),
        Some(MessageStep::CopyFile)
    );
    assert_eq!(
        step(MessageEvent::FileRead { there: true, content: Some("bye".to_string()) }),
        found("bye")
    );
    assert_eq!(
        step(MessageEvent::FileRead { there: true, content: Some(String::new()) }),
        Some(MessageStep::ReadLogs)
    );
    assert_eq!(step(MessageEvent::Copied(None)), Some(MessageStep::ReadLogs));
    assert_eq!(step(MessageEvent::Copied(Some(archive(&[("f", b"copied")])))), found("copied"));
    assert_eq!(step(MessageEvent::LogsRead("log".to_string())), found("log"));
    assert_eq!(step(MessageEvent::LogsRead(String::new())), Some(MessageStep::Found(None)));
    let split = "x".to_string() + &"é".repeat(4000);
    assert_eq!(step(MessageEvent::LogsRead(split)), None);
}
