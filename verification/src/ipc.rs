//! What the commands invoked by the front end decide: which tmux session a
//! reply goes to, and which program an action button opens.

use vstd::prelude::*;

use crate::bridge::{
    SessionType, Step, StepView, editor_plan, failed_with, focus_plan, focus_terminal, keys_plan,
    log_plan, open_editor, open_log, reply_plan, texts, tmux_reply, tmux_reply_keys,
};
use crate::config::Config;
use crate::text::{all_white, chars_of, concat, is_blank, same_chars};

verus! {

/// The session a reply goes to: the one the notification names, unless it
/// is missing or blank, in which case the configured one.
pub open spec fn reply_session_of(session: Option<String>, configured: Seq<char>) -> Seq<char> {
    match session {
        Some(s) => if all_white(s@) {
            configured
        } else {
            s@
        },
        None => configured,
    }
}

/// The session a reply goes to.
pub fn reply_session(session: Option<String>, config: &Config) -> (s: String)
    ensures
        s@ == reply_session_of(session, config.tmux_session@),
{
    match session {
        Some(s) => {
            if is_blank(s.as_str()) {
                config.tmux_session.clone()
            } else {
                s
            }
        },
        None => config.tmux_session.clone(),
    }
}

/// Type the reply into the session, then Enter. An unknown session is an
/// error that goes back to the card.
pub fn reply(text: &str, session: Option<String>, config: &Config) -> (s: Step)
    ensures
        s@ == reply_plan(reply_session_of(session, config.tmux_session@), text@),
{
    let target = reply_session(session, config);
    tmux_reply(target.as_str(), text)
}

/// Send raw keys to the session (answers mapped on a dialog of the terminal
/// UI: `1` accepts, `Escape` refuses).
pub fn reply_keys(keys: &[String], session: Option<String>, config: &Config) -> (s: Step)
    ensures
        s@ == keys_plan(reply_session_of(session, config.tmux_session@), texts(keys@)),
{
    let target = reply_session(session, config);
    tmux_reply_keys(target.as_str(), keys)
}

/// What an action button of a card opens.
pub open spec fn target_plan(
    target: Seq<char>,
    dir: Seq<char>,
    tmux: Option<String>,
    config: Config,
    session: SessionType,
) -> StepView {
    if target == "terminal"@ {
        focus_plan(
            config.terminal_focus,
            session,
            match tmux {
                Some(t) => t@,
                None => config.tmux_session@,
            },
            config.terminal_class@,
        )
    } else if target == "zed"@ {
        editor_plan(config.editor@, dir)
    } else if target == "log"@ {
        log_plan(dir)
    } else {
        failed_with("cible inconnue : "@ + target)
    }
}

fn is_word(s: &str, expected: &str) -> (b: bool)
    ensures
        b == (s@ == expected@),
{
    let a = chars_of(s);
    let e = chars_of(expected);
    same_chars(a.as_slice(), e.as_slice())
}

/// Open what an action button asks for: `terminal` focuses the terminal,
/// `zed` opens the directory in the editor, `log` opens the log file.
pub fn open_target(target: &str, dir: &str, tmux: Option<String>, config: &Config, session: SessionType) -> (s: Step)
    ensures
        s@ == target_plan(target@, dir@, tmux, *config, session),
{
    if is_word(target, "terminal") {
        let tmux_session = match tmux {
            Some(t) => t,
            None => config.tmux_session.clone(),
        };
        focus_terminal(config.terminal_focus, session, tmux_session.as_str(), config.terminal_class.as_str())
    } else if is_word(target, "zed") {
        open_editor(config.editor.as_str(), dir)
    } else if is_word(target, "log") {
        open_log(dir)
    } else {
        Step::Finished { result: Err(concat("cible inconnue : ", target)) }
    }
}

} // verus!
