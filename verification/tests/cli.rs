use task_notify::cli::{
    accept_payload, default_id, push_payload_text, id_from_millis, parse_command, Backoff, Command, IpcMessage,
    Payload, Quick, Status, EXIT_INVALID, EXIT_OK, EXIT_UNDELIVERED,
};

fn args(v: &[&str]) -> Vec<String> {
    v.iter().map(|s| s.to_string()).collect()
}

fn payload(task: &str) -> Payload {
    Payload {
        id: None,
        status: Status::Done,
        task: task.to_string(),
        duration: Some("04:12".to_string()),
        summary: args(&[
            "+ 3 écrans migrés vers Reanimated 3",
            "~ DeckScreen découpé en 2 composants",
            "! 1 snapshot de test à régénérer",
        ]),
        quick: Some(vec![
            Quick::Text("Oui".to_string()),
            Quick::Keys { label: "Refuser".to_string(), keys: args(&["Escape"]) },
        ]),
        session: Some("flipia".to_string()),
        dir: Some("/home/rdh/dev/flipia".to_string()),
        timeout: Some(6000),
    }
}

fn is_four_digits(s: &str) -> bool {
    s.chars().count() == 4 && s.chars().all(|c| c.is_ascii_digit())
}

#[test]
fn exit_codes() {
    assert_eq!(EXIT_OK, 0);
    assert_eq!(EXIT_UNDELIVERED, 1);
    assert_eq!(EXIT_INVALID, 2);
}

#[test]
fn no_argument_or_daemon_runs_the_daemon() {
    assert!(matches!(parse_command(&[]), Command::Daemon));
    assert!(matches!(parse_command(&args(&["--daemon"])), Command::Daemon));
}

#[test]
fn help_flags() {
    assert!(matches!(parse_command(&args(&["--help"])), Command::Help));
    assert!(matches!(parse_command(&args(&["-h"])), Command::Help));
}

#[test]
fn push_reads_json_or_stdin() {
    match parse_command(&args(&["push", "--json", "{\"status\":\"done\"}"])) {
        Command::PushJson { json } => assert_eq!(json, "{\"status\":\"done\"}"),
        _ => panic!(),
    }
    assert!(matches!(parse_command(&args(&["push"])), Command::PushStdin));
}

#[test]
fn push_refusals() {
    match parse_command(&args(&["push", "--json"])) {
        Command::Refused { message } => assert_eq!(message, "--json attend un argument JSON"),
        _ => panic!(),
    }
    match parse_command(&args(&["push", "--yaml"])) {
        Command::Refused { message } => assert_eq!(message, "option inconnue pour push : --yaml"),
        _ => panic!(),
    }
}

#[test]
fn dismiss_needs_all() {
    assert!(matches!(parse_command(&args(&["dismiss", "--all"])), Command::DismissAll));
    match parse_command(&args(&["dismiss"])) {
        Command::Refused { message } => assert_eq!(message, "usage : task-notify dismiss --all"),
        _ => panic!(),
    }
    match parse_command(&args(&["dismiss", "3"])) {
        Command::Refused { message } => assert_eq!(message, "usage : task-notify dismiss --all"),
        _ => panic!(),
    }
}

#[test]
fn unknown_argument_is_refused() {
    match parse_command(&args(&["status"])) {
        Command::Refused { message } => assert_eq!(message, "argument inconnu : status (voir --help)"),
        _ => panic!(),
    }
}

#[test]
fn ids_have_four_digits() {
    assert_eq!(id_from_millis(1_700_000_000_416), "0416");
    assert_eq!(id_from_millis(7), "0007");
    assert_eq!(id_from_millis(9999), "9999");
    assert_eq!(id_from_millis(10_000), "0000");
    assert!(is_four_digits(&default_id()));
}

#[test]
fn normalize_fills_id_and_cuts_task_and_summary() {
    let long: String = "é".repeat(75);
    let mut p = payload(&long);
    p.summary = args(&["+ a", "~ b", "! c", "d", "e", "f"]);
    p.normalize();
    assert!(is_four_digits(p.id.as_deref().unwrap()));
    assert_eq!(p.task, "é".repeat(60));
    assert_eq!(p.summary, args(&["+ a", "~ b", "! c", "d"]));
    assert_eq!(p.session.as_deref(), Some("flipia"));
    assert_eq!(p.timeout, Some(6000));
}

#[test]
fn normalize_keeps_a_given_id_and_short_fields() {
    let mut p = payload("Écran de deck refait");
    p.id = Some("0416".to_string());
    p.normalize();
    assert_eq!(p.id.as_deref(), Some("0416"));
    assert_eq!(p.task, "Écran de deck refait");
    assert_eq!(p.summary.len(), 3);
    let sixty = "x".repeat(60);
    let mut q = payload(&sixty);
    q.normalize();
    assert_eq!(q.task, sixty);
}

#[test]
fn normalize_twice_changes_nothing() {
    let mut p = payload(&"t".repeat(80));
    p.summary = args(&["1", "2", "3", "4", "5"]);
    p.normalize();
    let once = p.clone();
    p.normalize();
    assert_eq!(p.id, once.id);
    assert_eq!(p.task, once.task);
    assert_eq!(p.summary, once.summary);
}

#[test]
fn blank_task_is_refused() {
    match accept_payload(payload(" \t\n")) {
        Err(m) => assert_eq!(m, "payload invalide : le champ « task » est vide"),
        Ok(_) => panic!("a blank task must be refused"),
    }
    match accept_payload(payload("")) {
        Err(m) => assert_eq!(m, "payload invalide : le champ « task » est vide"),
        Ok(_) => panic!(),
    }
}

#[test]
fn accepted_payload_is_normalized() {
    match accept_payload(payload("Tâche finie")) {
        Ok(IpcMessage::Push { payload }) => {
            assert!(is_four_digits(payload.id.as_deref().unwrap()));
            assert_eq!(payload.task, "Tâche finie");
            assert!(matches!(payload.status, Status::Done));
        }
        _ => panic!(),
    }
}

#[test]
fn backoff_doubles_up_to_half_a_second_for_five_seconds() {
    let mut b = Backoff::new();
    let mut pauses = Vec::new();
    let mut elapsed: u64 = 0;
    while let Some(p) = b.after_failure(elapsed) {
        pauses.push(p);
        elapsed += p;
    }
    assert_eq!(&pauses[..5], &[50, 100, 200, 400, 500]);
    assert!(pauses.iter().all(|&p| p <= 500));
    assert!(elapsed >= 5000 && elapsed < 5500);
    assert_eq!(b.after_failure(4999), Some(500));
    assert_eq!(b.after_failure(5000), None);
}

#[test]
fn stdin_push_hands_on_the_same_text_as_json_push() {
    let text = "{\"status\":\"done\",\"task\":\"Tâche finie\"}";
    let from_stdin = parse_command(&args(&["push"]));
    assert!(from_stdin.reads_stdin());
    assert_eq!(push_payload_text(from_stdin, text.to_string()), Some(text.to_string()));
    let from_arg = parse_command(&args(&["push", "--json", text]));
    assert!(!from_arg.reads_stdin());
    assert_eq!(push_payload_text(from_arg, String::new()), Some(text.to_string()));
    assert_eq!(push_payload_text(Command::DismissAll, text.to_string()), None);
}
