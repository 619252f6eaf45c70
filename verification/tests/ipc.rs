use task_notify::bridge::{SessionType, Step};
use task_notify::config::{Config, TerminalFocus};
use task_notify::ipc::{open_target, reply, reply_keys, reply_session};

fn config() -> Config {
    let mut c = Config::default();
    c.tmux_session = "agent".to_string();
    c.terminal_class = "kitty".to_string();
    c
}

fn first_call(step: Step) -> (String, Vec<String>) {
    match step {
        Step::Run { call, .. } => (call.program, call.args),
        Step::Finished { result } => panic!("finished at once: {result:?}"),
    }
}

#[test]
fn reply_goes_to_the_payload_session_unless_blank() {
    let c = config();
    assert_eq!(reply_session(Some("flipia".into()), &c), "flipia");
    assert_eq!(reply_session(Some("  ".into()), &c), "agent");
    assert_eq!(reply_session(None, &c), "agent");
    let (program, args) = first_call(reply("oui", Some("".into()), &c));
    assert_eq!(program, "tmux");
    assert_eq!(args, vec!["has-session", "-t", "agent"]);
    let (_, args) = first_call(reply_keys(&["Escape".to_string()], Some("flipia".into()), &c));
    assert_eq!(args, vec!["has-session", "-t", "flipia"]);
}

#[test]
fn action_buttons() {
    let c = config();
    let (program, args) = first_call(open_target("zed", "/home/rdh/dev/flipia", None, &c, SessionType::X11));
    assert_eq!(program, "zed");
    assert_eq!(args, vec!["/home/rdh/dev/flipia"]);
    let (program, args) = first_call(open_target("log", "/tmp/a.log", None, &c, SessionType::X11));
    assert_eq!(program, "xdg-open");
    assert_eq!(args, vec!["/tmp/a.log"]);
    let (program, args) = first_call(open_target("terminal", "", Some("flipia".into()), &c, SessionType::X11));
    assert_eq!(program, "wmctrl");
    assert_eq!(args, vec!["-lx"]);
    match open_target("slack", "", None, &c, SessionType::X11) {
        Step::Finished { result } => assert_eq!(result, Err("cible inconnue : slack".to_string())),
        Step::Run { .. } => panic!(),
    }
    let mut k = config();
    k.terminal_focus = TerminalFocus::Disabled;
    match open_target("terminal", "", None, &k, SessionType::X11) {
        Step::Finished { result } => {
            assert_eq!(result, Err("aucune méthode de focus configurée".to_string()))
        }
        Step::Run { .. } => panic!(),
    }
}
