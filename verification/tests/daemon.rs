use task_notify::cli::{IpcMessage, Payload, Status};
use task_notify::daemon::{after_bind, after_peer_check, BindAttempt, FrontAction, Inbox, SocketStep};

fn payload(task: &str) -> Payload {
    Payload {
        id: Some(task.to_string()),
        status: Status::Hold,
        task: task.to_string(),
        duration: None,
        summary: Vec::new(),
        quick: None,
        session: None,
        dir: None,
        timeout: Some(0),
    }
}

fn push(task: &str) -> IpcMessage {
    IpcMessage::Push { payload: payload(task) }
}

#[test]
fn pushes_before_the_front_is_ready_are_replayed_in_order() {
    let mut inbox = Inbox::new();
    assert!(matches!(inbox.handle(push("a")), FrontAction::ShowOnly));
    assert!(matches!(inbox.handle(push("b")), FrontAction::ShowOnly));
    assert!(matches!(inbox.handle(IpcMessage::DismissAll), FrontAction::DismissAll));
    let queued = inbox.mark_front_ready();
    let tasks: Vec<&str> = queued.iter().map(|p| p.task.as_str()).collect();
    assert_eq!(tasks, vec!["a", "b"]);
    match inbox.handle(push("c")) {
        FrontAction::Display { payload } => assert_eq!(payload.task, "c"),
        _ => panic!("a ready front end displays at once"),
    }
    assert!(inbox.mark_front_ready().is_empty());
}

#[test]
fn default_inbox_waits_for_the_front() {
    let mut inbox = Inbox::default();
    assert!(matches!(inbox.handle(push("x")), FrontAction::ShowOnly));
    assert_eq!(inbox.mark_front_ready().len(), 1);
}

#[test]
fn stale_socket_is_reclaimed_and_a_live_one_kept() {
    assert!(matches!(after_bind(BindAttempt::Bound), SocketStep::Listen));
    assert!(matches!(after_bind(BindAttempt::AddressInUse), SocketStep::CheckPeer));
    assert!(matches!(after_bind(BindAttempt::OtherError), SocketStep::Fail));
    match after_peer_check(true) {
        SocketStep::Refuse { message } => assert_eq!(message, "un autre daemon écoute déjà"),
        other => panic!("{other:?}"),
    }
    assert!(matches!(after_peer_check(false), SocketStep::RemoveStaleAndRebind));
}
