use task_notify::bridge::{
    focus_terminal, open_editor, open_log, probe_passed, resume, session_type_from,
    terminal_focus_available, tmux_reply, tmux_reply_keys, Awaiting, FocusProbe,
    ProcessOutcome, RunMode, SessionType, Step,
};
use task_notify::config::TerminalFocus;

/// Runs an operation to its end, answering each call with what `answer`
/// says that the program did.
fn drive(mut step: Step, answer: impl Fn(&str, &[String]) -> ProcessOutcome) -> Result<(), String> {
    loop {
        match step {
            Step::Run { call, then } => {
                let outcome = answer(&call.program, &call.args);
                step = resume(then, outcome);
            }
            Step::Finished { result } => return result,
        }
    }
}

fn failed(status: bool, stderr: &str) -> ProcessOutcome {
    ProcessOutcome::Exited { success: status, stdout: String::new(), stderr: stderr.to_string() }
}

fn listing(text: &str) -> ProcessOutcome {
    ProcessOutcome::Exited { success: true, stdout: text.to_string(), stderr: String::new() }
}

fn strings(v: &[&str]) -> Vec<String> {
    v.iter().map(|s| s.to_string()).collect()
}

#[test]
fn session_inexistante() {
    // tmux answers `has-session` for an unknown session with a failure.
    let tmux = |program: &str, args: &[String]| {
        assert_eq!(program, "tmux");
        assert_eq!(args[0], "has-session");
        failed(false, "can't find session: session-qui-nexiste-pas-000\n")
    };
    let err = drive(tmux_reply("session-qui-nexiste-pas-000", "salut"), tmux).unwrap_err();
    assert!(err.contains("introuvable"), "erreur inattendue : {err}");
}

#[test]
fn reply_checks_the_session_then_sends_text_and_enter() {
    let piege = "réponse; $(date) && \"guillemets\"";
    let step = tmux_reply("task-notify-test", piege);
    let then = match step {
        Step::Run { call, then } => {
            assert_eq!(call.program, "tmux");
            assert_eq!(call.args, strings(&["has-session", "-t", "task-notify-test"]));
            assert_eq!(call.mode, RunMode::Capture);
            then
        }
        Step::Finished { .. } => panic!("the session must be checked first"),
    };
    match resume(then, failed(true, "")) {
        Step::Run { call, then } => {
            assert_eq!(call.program, "tmux");
            assert_eq!(
                call.args,
                strings(&["send-keys", "-t", "task-notify-test", piege, "Enter"])
            );
            assert!(matches!(then, Awaiting::KeysSent));
            match resume(then, failed(true, "")) {
                Step::Finished { result } => assert_eq!(result, Ok(())),
                Step::Run { .. } => panic!("nothing more to run"),
            }
        }
        Step::Finished { .. } => panic!("the keys must be sent"),
    }
}

#[test]
fn reply_to_a_missing_session_names_it() {
    let then = match tmux_reply("flipia", "oui") {
        Step::Run { then, .. } => then,
        Step::Finished { .. } => panic!(),
    };
    match resume(then, failed(false, "can't find session: flipia")) {
        Step::Finished { result } => {
            assert_eq!(result, Err("session tmux « flipia » introuvable".to_string()))
        }
        Step::Run { .. } => panic!("nothing may be typed"),
    }
}

#[test]
fn reply_without_tmux_reports_it() {
    let then = match tmux_reply("flipia", "oui") {
        Step::Run { then, .. } => then,
        Step::Finished { .. } => panic!(),
    };
    let outcome = ProcessOutcome::Unavailable { error: "No such file or directory (os error 2)".into() };
    match resume(then, outcome) {
        Step::Finished { result } => assert_eq!(
            result,
            Err("tmux introuvable : No such file or directory (os error 2)".to_string())
        ),
        Step::Run { .. } => panic!(),
    }
}

#[test]
fn send_keys_failure_gives_trimmed_stderr() {
    match resume(Awaiting::KeysSent, failed(false, "  no server running\n")) {
        Step::Finished { result } => assert_eq!(result, Err("no server running".to_string())),
        Step::Run { .. } => panic!(),
    }
    let outcome = ProcessOutcome::Unavailable { error: "boom".into() };
    match resume(Awaiting::KeysSent, outcome) {
        Step::Finished { result } => assert_eq!(result, Err("tmux send-keys : boom".to_string())),
        Step::Run { .. } => panic!(),
    }
}

#[test]
fn raw_keys_are_sent_without_enter() {
    let keys = strings(&["1"]);
    let then = match tmux_reply_keys("agent", &keys) {
        Step::Run { then, .. } => then,
        Step::Finished { .. } => panic!(),
    };
    match resume(then, failed(true, "")) {
        Step::Run { call, .. } => assert_eq!(call.args, strings(&["send-keys", "-t", "agent", "1"])),
        Step::Finished { .. } => panic!(),
    }
}

#[test]
fn no_keys_is_an_error() {
    match tmux_reply_keys("agent", &[]) {
        Step::Finished { result } => assert_eq!(result, Err("aucune touche à envoyer".to_string())),
        Step::Run { .. } => panic!("nothing to run"),
    }
}

#[test]
fn editor_needs_a_directory() {
    match open_editor("zed", "   ") {
        Step::Finished { result } => assert_eq!(result, Err("aucun dossier fourni".to_string())),
        Step::Run { .. } => panic!(),
    }
    match open_editor("zed", "/home/rdh/dev/flipia") {
        Step::Run { call, then } => {
            assert_eq!(call.program, "zed");
            assert_eq!(call.args, strings(&["/home/rdh/dev/flipia"]));
            assert_eq!(call.mode, RunMode::Detach);
            match resume(then, ProcessOutcome::Launched) {
                Step::Finished { result } => assert_eq!(result, Ok(())),
                Step::Run { .. } => panic!(),
            }
        }
        Step::Finished { .. } => panic!(),
    }
}

#[test]
fn missing_editor_is_reported() {
    let then = match open_editor("zed", "/tmp") {
        Step::Run { then, .. } => then,
        Step::Finished { .. } => panic!(),
    };
    match resume(then, ProcessOutcome::Unavailable { error: "not found".into() }) {
        Step::Finished { result } => assert_eq!(result, Err("zed introuvable : not found".to_string())),
        Step::Run { .. } => panic!(),
    }
}

#[test]
fn log_needs_a_path() {
    match open_log("") {
        Step::Finished { result } => assert_eq!(result, Err("aucun fichier de log fourni".to_string())),
        Step::Run { .. } => panic!(),
    }
    match open_log("/tmp/x.log") {
        Step::Run { call, .. } => {
            assert_eq!(call.program, "xdg-open");
            assert_eq!(call.args, strings(&["/tmp/x.log"]));
        }
        Step::Finished { .. } => panic!(),
    }
}

#[test]
fn focus_without_method_fails() {
    match focus_terminal(TerminalFocus::Disabled, SessionType::X11, "agent", "") {
        Step::Finished { result } => {
            assert_eq!(result, Err("aucune méthode de focus configurée".to_string()))
        }
        Step::Run { .. } => panic!(),
    }
    match focus_terminal(TerminalFocus::Wmctrl, SessionType::Wayland, "agent", "") {
        Step::Finished { result } => {
            assert_eq!(result, Err("wmctrl indisponible sous Wayland".to_string()))
        }
        Step::Run { .. } => panic!(),
    }
}

#[test]
fn focus_through_kitty_and_wezterm() {
    match focus_terminal(TerminalFocus::Kitty, SessionType::Wayland, "agent", "") {
        Step::Run { call, then } => {
            assert_eq!(call.program, "kitty");
            assert_eq!(call.args, strings(&["@", "focus-window"]));
            match resume(then, failed(false, " no window\n")) {
                Step::Finished { result } => assert_eq!(result, Err("no window".to_string())),
                Step::Run { .. } => panic!(),
            }
        }
        Step::Finished { .. } => panic!(),
    }
    match focus_terminal(TerminalFocus::Wezterm, SessionType::X11, "agent", "") {
        Step::Run { call, .. } => {
            assert_eq!(call.program, "wezterm");
            assert_eq!(call.args, strings(&["cli", "activate-pane"]));
        }
        Step::Finished { .. } => panic!(),
    }
}

const LISTING: &str = "0x01 0 task-notify.Task-notify host task-notify\n\
0x02 0 zed.Zed host flipia — main.rs\n\
0x03 0 gnome-terminal-server.Gnome-terminal host rdh@box: ~\n\
0x04 1 firefox.Firefox host Mozilla Firefox\n\
short line\n";

fn focus_with(listing_text: &str, tmux: &str, class: &str) -> Step {
    let then = match focus_terminal(TerminalFocus::Wmctrl, SessionType::X11, tmux, class) {
        Step::Run { call, then } => {
            assert_eq!(call.program, "wmctrl");
            assert_eq!(call.args, strings(&["-lx"]));
            then
        }
        Step::Finished { .. } => panic!("wmctrl must list the windows"),
    };
    resume(then, listing(listing_text))
}

fn activated(step: Step) -> String {
    match step {
        Step::Run { call, then } => {
            assert_eq!(call.program, "wmctrl");
            assert_eq!(call.args[0], "-ia");
            assert!(matches!(then, Awaiting::Activation { .. }));
            call.args[1].clone()
        }
        Step::Finished { result } => panic!("no window activated: {result:?}"),
    }
}

#[test]
fn configured_class_comes_first() {
    assert_eq!(activated(focus_with(LISTING, "agent", "  FireFox ")), "0x04");
}

#[test]
fn known_terminal_comes_second() {
    assert_eq!(activated(focus_with(LISTING, "flipia", "")), "0x03");
    assert_eq!(activated(focus_with(LISTING, "flipia", "nothing-like-it")), "0x03");
}

#[test]
fn session_title_comes_last() {
    let without_terminal = "0x01 0 task-notify.Task-notify host task-notify\n\
0x02 0 zed.Zed host FLIPIA — main.rs\n";
    assert_eq!(activated(focus_with(without_terminal, "flipia", "")), "0x02");
}

#[test]
fn own_window_is_never_focused() {
    let only_ours = "0x01 0 task-notify.Task-notify host xterm flipia\n";
    match focus_with(only_ours, "flipia", "agent") {
        Step::Finished { result } => {
            assert_eq!(result, Err("aucune fenêtre de terminal trouvée".to_string()))
        }
        Step::Run { .. } => panic!("the notification window must not be focused"),
    }
}

#[test]
fn missing_wmctrl_is_reported() {
    let then = match focus_terminal(TerminalFocus::Wmctrl, SessionType::X11, "agent", "") {
        Step::Run { then, .. } => then,
        Step::Finished { .. } => panic!(),
    };
    match resume(then, ProcessOutcome::Unavailable { error: "absent".into() }) {
        Step::Finished { result } => assert_eq!(result, Err("wmctrl introuvable : absent".to_string())),
        Step::Run { .. } => panic!(),
    }
}

#[test]
fn focus_probe_depends_on_method_and_session() {
    assert!(matches!(
        terminal_focus_available(TerminalFocus::Disabled, SessionType::X11),
        FocusProbe::Known { available: false }
    ));
    assert!(matches!(
        terminal_focus_available(TerminalFocus::Wmctrl, SessionType::Wayland),
        FocusProbe::Known { available: false }
    ));
    match terminal_focus_available(TerminalFocus::Wmctrl, SessionType::X11) {
        FocusProbe::Check { call } => {
            assert_eq!(call.program, "wmctrl");
            assert_eq!(call.args, strings(&["--version"]));
            assert_eq!(call.mode, RunMode::Quiet);
        }
        FocusProbe::Known { .. } => panic!(),
    }
    match terminal_focus_available(TerminalFocus::Kitty, SessionType::Wayland) {
        FocusProbe::Check { call } => assert_eq!(call.program, "kitty"),
        FocusProbe::Known { .. } => panic!(),
    }
    assert!(probe_passed(&failed(true, "")));
    assert!(!probe_passed(&failed(false, "")));
    assert!(!probe_passed(&ProcessOutcome::Unavailable { error: "x".into() }));
}

#[test]
fn session_type_comes_from_the_environment_value() {
    assert_eq!(session_type_from(Some("wayland")), SessionType::Wayland);
    assert_eq!(session_type_from(Some("x11")), SessionType::X11);
    assert_eq!(session_type_from(Some("Wayland")), SessionType::X11);
    assert_eq!(session_type_from(None), SessionType::X11);
    assert_eq!(SessionType::X11.label(), "x11");
    assert_eq!(SessionType::Wayland.label(), "wayland");
}

#[test]
fn configured_class_is_compared_in_lower_case() {
    let editors = "0x07 0 éditeur.Éditeur host notes\n0x08 0 xterm.XTerm host shell\n";
    assert_eq!(activated(focus_with(editors, "", " ÉDITEUR ")), "0x07");
    assert_eq!(activated(focus_with(editors, "", "")), "0x08");
}

#[test]
fn postman_is_no_terminal() {
    let postman = "0x0a 0 postman.Postman host Postman\n";
    match focus_with(postman, "agent", "") {
        Step::Finished { result } => {
            assert_eq!(result, Err("aucune fenêtre de terminal trouvée".to_string()))
        }
        Step::Run { .. } => panic!("postman.postman is not a terminal class"),
    }
}

#[test]
fn terminal_variants_and_dotted_classes_are_terminals() {
    let st = "0x0b 0 postman.Postman host api\n0x0c 0 st-256color.st-256color host shell\n";
    assert_eq!(activated(focus_with(st, "", "")), "0x0c");
    let wez = "0x0d 0 org.wezfurlong.wezterm.org.wezfurlong.wezterm host shell\n";
    assert_eq!(activated(focus_with(wez, "", "")), "0x0d");
}
