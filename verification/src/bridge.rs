//! Bridges to the outside world: replies typed into a tmux session, the
//! editor, the log viewer, and the window manager that brings the terminal
//! back to the front.
//!
//! The library never starts a process itself. Each operation is a small
//! machine: it hands out the next program to run (a `ProcessCall`, always a
//! program and separate arguments, never a shell command line), together with
//! what it is waiting for; the caller runs the program, reports how it went
//! (`ProcessOutcome`), and `resume` says what comes next, until the operation
//! is `Finished` with its result.

use vstd::prelude::*;

use crate::config::TerminalFocus;
use crate::text::{
    all_white, chars_of, concat, is_blank, joined, lemma_chars_deep_view, lines, lowered, lower_text, all_ascii, same_up_to_case, lemma_words_ascii,
    lemma_joined_ascii, law_lowering_keeps_occurrences, law_lowering_ignores_case,
    occurs, occurs_in, pieces, same_chars, split_lines, split_on, split_words, string_from, join_words_from,
    trim, trim_chars, trimmed, words,
};

verus! {

/// The kind of graphical session, found once at start-up.
#[derive(Debug, Clone, Copy, PartialEq, Eq, Structural)]
pub enum SessionType {
    X11,
    Wayland,
}

/// The session kind that `$XDG_SESSION_TYPE` names: Wayland when it is set to
/// `wayland`, X11 in every other case (unset or unreadable included).
pub fn session_type_from(value: Option<&str>) -> (s: SessionType)
    ensures
        s == (if value is Some && value->0@ == "wayland"@ {
            SessionType::Wayland
        } else {
            SessionType::X11
        }),
{
    match value {
        Some(v) => {
            let found = chars_of(v);
            let wayland = chars_of("wayland");
            if same_chars(found.as_slice(), wayland.as_slice()) {
                SessionType::Wayland
            } else {
                SessionType::X11
            }
        },
        None => SessionType::X11,
    }
}

impl SessionType {
    /// The name the front end receives for this session kind.
    pub fn label(&self) -> (s: String)
        ensures
            s@ == (match self {
                SessionType::X11 => "x11"@,
                SessionType::Wayland => "wayland"@,
            }),
    {
        match self {
            SessionType::X11 => "x11".to_owned(),
            SessionType::Wayland => "wayland".to_owned(),
        }
    }
}

/// How a program is run.
#[derive(Debug, Clone, Copy, PartialEq, Eq, Structural)]
pub enum RunMode {
    /// Wait for it, and collect its exit status and its output.
    Capture,
    /// Wait for it, with its output discarded; only the exit status counts.
    Quiet,
    /// Start it detached, with its output discarded, and do not wait.
    Detach,
}

/// A program to run, with its arguments passed one by one.
pub struct ProcessCall {
    pub program: String,
    pub args: Vec<String>,
    pub mode: RunMode,
}

/// How running a `ProcessCall` went.
pub enum ProcessOutcome {
    /// The program could not be started; `error` says why.
    Unavailable { error: String },
    /// The program ran to its end (`Capture` and `Quiet`); the output is
    /// decoded as text, and empty in `Quiet` mode.
    Exited { success: bool, stdout: String, stderr: String },
    /// The program was started and left running (`Detach`).
    Launched,
}

/// What an operation waits for after its last `ProcessCall`.
pub enum Awaiting {
    /// `tmux has-session`: does the session exist? If so, `keys` go to it.
    SessionCheck { session: String, keys: Vec<String> },
    /// `tmux send-keys`.
    KeysSent,
    /// `wmctrl -lx`: the list of windows, searched for the terminal.
    WindowList { tmux_session: String, terminal_class: String },
    /// A short program that brings a window to the front.
    Activation { program: String },
    /// A detached program (the editor, the log viewer).
    Launch { program: String },
}

/// The next step of an operation: run a program, or stop with the result.
pub enum Step {
    Run { call: ProcessCall, then: Awaiting },
    Finished { result: Result<(), String> },
}

/// Is the terminal focus possible? Either the answer is known at once, or it
/// is whether the program of `Check` runs successfully.
pub enum FocusProbe {
    Known { available: bool },
    Check { call: ProcessCall },
}

pub ghost struct CallView {
    pub program: Seq<char>,
    pub args: Seq<Seq<char>>,
    pub mode: RunMode,
}

pub ghost enum OutcomeView {
    Unavailable { error: Seq<char> },
    Exited { success: bool, stdout: Seq<char>, stderr: Seq<char> },
    Launched,
}

pub ghost enum AwaitingView {
    SessionCheck { session: Seq<char>, keys: Seq<Seq<char>> },
    KeysSent,
    WindowList { tmux_session: Seq<char>, terminal_class: Seq<char> },
    Activation { program: Seq<char> },
    Launch { program: Seq<char> },
}

pub ghost enum StepView {
    Run { call: CallView, then: AwaitingView },
    Finished { result: Result<(), Seq<char>> },
}

pub ghost enum ProbeView {
    Known { available: bool },
    Check { call: CallView },
}

/// The texts of a sequence of strings.
pub open spec fn texts(v: Seq<String>) -> Seq<Seq<char>> {
    v.map_values(|s: String| s@)
}

impl View for ProcessCall {
    type V = CallView;

    open spec fn view(&self) -> CallView {
        CallView { program: self.program@, args: texts(self.args@), mode: self.mode }
    }
}

impl View for ProcessOutcome {
    type V = OutcomeView;

    open spec fn view(&self) -> OutcomeView {
        match self {
            ProcessOutcome::Unavailable { error } => OutcomeView::Unavailable { error: error@ },
            ProcessOutcome::Exited { success, stdout, stderr } => OutcomeView::Exited {
                success: *success,
                stdout: stdout@,
                stderr: stderr@,
            },
            ProcessOutcome::Launched => OutcomeView::Launched,
        }
    }
}

impl View for Awaiting {
    type V = AwaitingView;

    open spec fn view(&self) -> AwaitingView {
        match self {
            Awaiting::SessionCheck { session, keys } => AwaitingView::SessionCheck {
                session: session@,
                keys: texts(keys@),
            },
            Awaiting::KeysSent => AwaitingView::KeysSent,
            Awaiting::WindowList { tmux_session, terminal_class } => AwaitingView::WindowList {
                tmux_session: tmux_session@,
                terminal_class: terminal_class@,
            },
            Awaiting::Activation { program } => AwaitingView::Activation { program: program@ },
            Awaiting::Launch { program } => AwaitingView::Launch { program: program@ },
        }
    }
}

impl View for Step {
    type V = StepView;

    open spec fn view(&self) -> StepView {
        match self {
            Step::Run { call, then } => StepView::Run { call: call@, then: then@ },
            Step::Finished { result } => StepView::Finished {
                result: match result {
                    Ok(()) => Ok(()),
                    Err(e) => Err(e@),
                },
            },
        }
    }
}

impl View for FocusProbe {
    type V = ProbeView;

    open spec fn view(&self) -> ProbeView {
        match self {
            FocusProbe::Known { available } => ProbeView::Known { available: *available },
            FocusProbe::Check { call } => ProbeView::Check { call: call@ },
        }
    }
}

pub open spec fn call_of(program: Seq<char>, args: Seq<Seq<char>>, mode: RunMode) -> CallView {
    CallView { program, args, mode }
}

pub open spec fn failed_with(message: Seq<char>) -> StepView {
    StepView::Finished { result: Err(message) }
}

pub open spec fn succeeded() -> StepView {
    StepView::Finished { result: Ok(()) }
}

/// The call exits with a failure status.
pub open spec fn exited_badly(o: OutcomeView) -> bool {
    o matches OutcomeView::Exited { success, .. } && !success
}

/// The standard output a call left (nothing when it did not run to its end).
pub open spec fn stdout_of(o: OutcomeView) -> Seq<char> {
    match o {
        OutcomeView::Exited { stdout, .. } => stdout,
        _ => Seq::empty(),
    }
}

/// The standard error a call left (nothing when it did not run to its end).
pub open spec fn stderr_of(o: OutcomeView) -> Seq<char> {
    match o {
        OutcomeView::Exited { stderr, .. } => stderr,
        _ => Seq::empty(),
    }
}

// ---------------------------------------------------------------------------
// Windows listed by `wmctrl -lx`
// ---------------------------------------------------------------------------

/// A window of the `wmctrl -lx` listing: its id, and its class and title in
/// lower case.
pub ghost struct WindowView {
    pub id: Seq<char>,
    pub class: Seq<char>,
    pub title: Seq<char>,
}

/// The class of the notification window itself, never to be focused.
pub open spec fn own_class() -> Seq<char> {
    "task-notify"@
}

/// The X11 classes of common terminal emulators.
pub open spec fn terminal_classes() -> Seq<Seq<char>> {
    seq![
        "gnome-terminal"@,
        "kitty"@,
        "alacritty"@,
        "wezterm"@,
        "konsole"@,
        "ghostty"@,
        "xterm"@,
        "terminator"@,
        "tilix"@,
        "st"@,
    ]
}

/// The window that a line of `wmctrl -lx` describes: the columns are the id,
/// the desktop, the class, the host and then the title, which may hold
/// spaces. A line with fewer than four columns, or the notification window
/// itself, gives none.
pub open spec fn window_of(line: Seq<char>) -> Option<WindowView> {
    let w = words(line);
    if w.len() < 4 {
        None
    } else {
        let class = lowered(w[2]);
        if occurs_in(class, own_class()) {
            None
        } else {
            Some(WindowView { id: w[0], class, title: lowered(joined(w.skip(4))) })
        }
    }
}

/// The windows that the lines `ls` describe, in order.
pub open spec fn windows_in(ls: Seq<Seq<char>>) -> Seq<WindowView>
    decreases ls.len(),
{
    if ls.len() == 0 {
        seq![]
    } else {
        let rest = windows_in(ls.drop_last());
        match window_of(ls.last()) {
            Some(w) => rest.push(w),
            None => rest,
        }
    }
}

/// The windows of a whole `wmctrl -lx` listing.
pub open spec fn listed_windows(listing: Seq<char>) -> Seq<WindowView> {
    windows_in(lines(listing))
}

/// `component` is the terminal `name` itself, or the name followed by a dash
/// and a variant (`gnome-terminal-server`, `st-256color`).
pub open spec fn names_terminal(component: Seq<char>, name: Seq<char>) -> bool {
    ||| component == name
    ||| (component.len() > name.len() && component.take(name.len() as int) == name
        && component[name.len() as int] == '-')
}

/// `component` names one of the known terminal emulators.
pub open spec fn names_a_terminal(component: Seq<char>) -> bool {
    exists|t: int| 0 <= t < terminal_classes().len() && names_terminal(component, #[trigger] terminal_classes()[t])
}

/// The class (`instance.Class` as `wmctrl -lx` prints it, in lower case) is
/// that of a known terminal emulator: one of its dot-separated components
/// names one. `postman.postman` is no terminal, though it holds `st`.
pub open spec fn is_known_terminal_class(class: Seq<char>) -> bool {
    exists|k: int| 0 <= k < pieces(class, '.').len() && names_a_terminal(#[trigger] pieces(class, '.')[k])
}

/// The three ways, by priority, in which a window is recognised as the one
/// to focus.
#[derive(Debug, Clone, Copy, PartialEq, Eq, Structural)]
pub enum Criterion {
    /// Its class or title holds the configured terminal class.
    Named,
    /// Its class is that of a known terminal emulator.
    KnownTerminal,
    /// Its title holds the name of the tmux session (terminals built into an
    /// editor show the project there).
    SessionTitle,
}

pub open spec fn meets(w: WindowView, c: Criterion, needle: Seq<char>) -> bool {
    match c {
        Criterion::Named => occurs_in(w.class, needle) || occurs_in(w.title, needle),
        Criterion::KnownTerminal => is_known_terminal_class(w.class),
        Criterion::SessionTitle => occurs_in(w.title, needle),
    }
}

/// The first window of `ws` from index `i` on that meets `c`.
pub open spec fn first_from(ws: Seq<WindowView>, c: Criterion, needle: Seq<char>, i: int) -> Option<WindowView>
    decreases ws.len() - i,
{
    if i < 0 || i >= ws.len() {
        None
    } else if meets(ws[i], c, needle) {
        Some(ws[i])
    } else {
        first_from(ws, c, needle, i + 1)
    }
}

/// The window to focus: the first whose class or title holds `wanted` (when
/// it is not empty); failing that, the first known terminal; failing that,
/// the first whose title holds `tmux` (when it is not empty).
pub open spec fn chosen_window(ws: Seq<WindowView>, wanted: Seq<char>, tmux: Seq<char>) -> Option<WindowView> {
    let named = if wanted.len() > 0 {
        first_from(ws, Criterion::Named, wanted, 0)
    } else {
        None
    };
    let known = first_from(ws, Criterion::KnownTerminal, Seq::empty(), 0);
    if named is Some {
        named
    } else if known is Some {
        known
    } else if tmux.len() > 0 {
        first_from(ws, Criterion::SessionTitle, tmux, 0)
    } else {
        None
    }
}

// ---------------------------------------------------------------------------
// The operations and what each step leads to
// ---------------------------------------------------------------------------

pub open spec fn session_check_call(session: Seq<char>) -> CallView {
    call_of("tmux"@, seq!["has-session"@, "-t"@, session], RunMode::Capture)
}

pub open spec fn send_keys_call(session: Seq<char>, keys: Seq<Seq<char>>) -> CallView {
    call_of("tmux"@, seq!["send-keys"@, "-t"@, session] + keys, RunMode::Capture)
}

/// `tmux_reply`: check that the session exists, then type `text` followed by
/// Enter into it.
pub open spec fn reply_plan(session: Seq<char>, text: Seq<char>) -> StepView {
    StepView::Run {
        call: session_check_call(session),
        then: AwaitingView::SessionCheck { session, keys: seq![text, "Enter"@] },
    }
}

/// `tmux_reply_keys`: the same with raw keys and no Enter added; nothing to
/// send is an error.
pub open spec fn keys_plan(session: Seq<char>, keys: Seq<Seq<char>>) -> StepView {
    if keys.len() == 0 {
        failed_with("aucune touche à envoyer"@)
    } else {
        StepView::Run {
            call: session_check_call(session),
            then: AwaitingView::SessionCheck { session, keys },
        }
    }
}

/// `focus_terminal`: bring the terminal to the front in the configured way.
pub open spec fn focus_plan(
    method: TerminalFocus,
    session: SessionType,
    tmux_session: Seq<char>,
    terminal_class: Seq<char>,
) -> StepView {
    match method {
        TerminalFocus::Disabled => failed_with("aucune méthode de focus configurée"@),
        TerminalFocus::Wmctrl => if session != SessionType::X11 {
            failed_with("wmctrl indisponible sous Wayland"@)
        } else {
            StepView::Run {
                call: call_of("wmctrl"@, seq!["-lx"@], RunMode::Capture),
                then: AwaitingView::WindowList { tmux_session, terminal_class },
            }
        },
        TerminalFocus::Kitty => StepView::Run {
            call: call_of("kitty"@, seq!["@"@, "focus-window"@], RunMode::Capture),
            then: AwaitingView::Activation { program: "kitty"@ },
        },
        TerminalFocus::Wezterm => StepView::Run {
            call: call_of("wezterm"@, seq!["cli"@, "activate-pane"@], RunMode::Capture),
            then: AwaitingView::Activation { program: "wezterm"@ },
        },
    }
}

/// `open_editor`: start the editor on the directory, which must not be blank.
pub open spec fn editor_plan(editor: Seq<char>, dir: Seq<char>) -> StepView {
    if all_white(dir) {
        failed_with("aucun dossier fourni"@)
    } else {
        StepView::Run {
            call: call_of(editor, seq![dir], RunMode::Detach),
            then: AwaitingView::Launch { program: editor },
        }
    }
}

/// `open_log`: open the file with `xdg-open`; the path must not be blank.
pub open spec fn log_plan(path: Seq<char>) -> StepView {
    if all_white(path) {
        failed_with("aucun fichier de log fourni"@)
    } else {
        StepView::Run {
            call: call_of("xdg-open"@, seq![path], RunMode::Detach),
            then: AwaitingView::Launch { program: "xdg-open"@ },
        }
    }
}

/// The error of a program that could not be started.
pub open spec fn not_found(program: Seq<char>, error: Seq<char>) -> Seq<char> {
    program + " introuvable : "@ + error
}

/// Once `wmctrl -lx` has listed the windows: activate the chosen one, or
/// fail when there is none.
pub open spec fn window_step(listing: Seq<char>, tmux_session: Seq<char>, terminal_class: Seq<char>) -> StepView {
    match chosen_window(
        listed_windows(listing),
        lowered(trimmed(terminal_class)),
        lowered(trimmed(tmux_session)),
    ) {
        Some(w) => StepView::Run {
            call: call_of("wmctrl"@, seq!["-ia"@, w.id], RunMode::Capture),
            then: AwaitingView::Activation { program: "wmctrl"@ },
        },
        None => failed_with("aucune fenêtre de terminal trouvée"@),
    }
}

/// What follows `o`, the outcome of the call that `a` was waiting for.
pub open spec fn after(a: AwaitingView, o: OutcomeView) -> StepView {
    match a {
        AwaitingView::SessionCheck { session, keys } => match o {
            OutcomeView::Unavailable { error } => failed_with(not_found("tmux"@, error)),
            _ => if exited_badly(o) {
                failed_with("session tmux « "@ + session + " » introuvable"@)
            } else {
                StepView::Run { call: send_keys_call(session, keys), then: AwaitingView::KeysSent }
            },
        },
        AwaitingView::KeysSent => match o {
            OutcomeView::Unavailable { error } => failed_with("tmux send-keys : "@ + error),
            _ => if exited_badly(o) {
                failed_with(trimmed(stderr_of(o)))
            } else {
                succeeded()
            },
        },
        AwaitingView::WindowList { tmux_session, terminal_class } => match o {
            OutcomeView::Unavailable { error } => failed_with(not_found("wmctrl"@, error)),
            _ => window_step(stdout_of(o), tmux_session, terminal_class),
        },
        AwaitingView::Activation { program } => match o {
            OutcomeView::Unavailable { error } => failed_with(not_found(program, error)),
            _ => if exited_badly(o) {
                failed_with(trimmed(stderr_of(o)))
            } else {
                succeeded()
            },
        },
        AwaitingView::Launch { program } => match o {
            OutcomeView::Unavailable { error } => failed_with(not_found(program, error)),
            _ => succeeded(),
        },
    }
}

/// `terminal_focus_available`: the Terminal button is hidden rather than
/// useless. No method, or wmctrl outside X11, is known to be unavailable;
/// otherwise the method's program must answer `--version`.
pub open spec fn probe_plan(method: TerminalFocus, session: SessionType) -> ProbeView {
    match method {
        TerminalFocus::Disabled => ProbeView::Known { available: false },
        TerminalFocus::Wmctrl => if session == SessionType::X11 {
            ProbeView::Check { call: call_of("wmctrl"@, seq!["--version"@], RunMode::Quiet) }
        } else {
            ProbeView::Known { available: false }
        },
        TerminalFocus::Kitty => ProbeView::Check {
            call: call_of("kitty"@, seq!["--version"@], RunMode::Quiet),
        },
        TerminalFocus::Wezterm => ProbeView::Check {
            call: call_of("wezterm"@, seq!["--version"@], RunMode::Quiet),
        },
    }
}

// ---------------------------------------------------------------------------
// Executable code
// ---------------------------------------------------------------------------

fn owned(s: &str) -> (r: String)
    ensures
        r@ == s@,
{
    s.to_owned()
}

fn finish_err(message: String) -> (s: Step)
    ensures
        s@ == failed_with(message@),
{
    Step::Finished { result: Err(message) }
}

fn finish_ok() -> (s: Step)
    ensures
        s@ == succeeded(),
{
    Step::Finished { result: Ok(()) }
}

/// A call with its arguments, as strings.
fn make_call(program: String, args: Vec<String>, mode: RunMode) -> (c: ProcessCall)
    ensures
        c@ == call_of(program@, texts(args@), mode),
{
    ProcessCall { program, args, mode }
}

fn args1(a: &str) -> (v: Vec<String>)
    ensures
        texts(v@) == seq![a@],
{
    let mut v: Vec<String> = Vec::new();
    v.push(owned(a));
    assert(texts(v@) =~= seq![a@]);
    v
}

fn args2(a: &str, b: &str) -> (v: Vec<String>)
    ensures
        texts(v@) == seq![a@, b@],
{
    let mut v: Vec<String> = Vec::new();
    v.push(owned(a));
    v.push(owned(b));
    assert(texts(v@) =~= seq![a@, b@]);
    v
}

fn args3(a: &str, b: &str, c: &str) -> (v: Vec<String>)
    ensures
        texts(v@) == seq![a@, b@, c@],
{
    let mut v: Vec<String> = Vec::new();
    v.push(owned(a));
    v.push(owned(b));
    v.push(owned(c));
    assert(texts(v@) =~= seq![a@, b@, c@]);
    v
}

/// A copy of the strings of `v`.
fn copy_strings(v: &[String]) -> (r: Vec<String>)
    ensures
        texts(r@) == texts(v@),
{
    let mut r: Vec<String> = Vec::new();
    let mut i: usize = 0;
    while i < v.len()
        invariant
            i <= v@.len(),
            r@.len() == i,
            forall|k: int| 0 <= k < i ==> #[trigger] r@[k]@ == v@[k]@,
        decreases v@.len() - i,
    {
        let c: String = v[i].clone();
        r.push(c);
        i = i + 1;
    }
    assert(texts(r@) =~= texts(v@));
    r
}

/// The error of a program that could not be started.
fn not_found_message(program: &str, error: &str) -> (s: Step)
    ensures
        s@ == failed_with(not_found(program@, error@)),
{
    let m = concat(program, " introuvable : ");
    finish_err(concat(m.as_str(), error))
}

fn session_check(session: &str, keys: Vec<String>) -> (s: Step)
    ensures
        s@ == (StepView::Run {
            call: session_check_call(session@),
            then: AwaitingView::SessionCheck { session: session@, keys: texts(keys@) },
        }),
{
    let call = make_call(owned("tmux"), args3("has-session", "-t", session), RunMode::Capture);
    Step::Run { call, then: Awaiting::SessionCheck { session: owned(session), keys } }
}

/// Type `text` into the tmux session, then Enter. The text is handed to tmux
/// as one argument of its own and never goes through a shell.
pub fn tmux_reply(session: &str, text: &str) -> (s: Step)
    ensures
        s@ == reply_plan(session@, text@),
{
    let keys = args2(text, "Enter");
    session_check(session, keys)
}

/// Send raw keys (`1`, `Escape`, ...) to the tmux session, with no Enter
/// added: this is what answers the permission dialogs of the terminal UI.
pub fn tmux_reply_keys(session: &str, keys: &[String]) -> (s: Step)
    ensures
        s@ == keys_plan(session@, texts(keys@)),
{
    if keys.len() == 0 {
        return finish_err(owned("aucune touche à envoyer"));
    }
    let keys = copy_strings(keys);
    session_check(session, keys)
}

/// Bring the terminal to the front in the configured way.
pub fn focus_terminal(method: TerminalFocus, session: SessionType, tmux_session: &str, terminal_class: &str) -> (s: Step)
    ensures
        s@ == focus_plan(method, session, tmux_session@, terminal_class@),
{
    match method {
        TerminalFocus::Disabled => finish_err(owned("aucune méthode de focus configurée")),
        TerminalFocus::Wmctrl => {
            if session != SessionType::X11 {
                finish_err(owned("wmctrl indisponible sous Wayland"))
            } else {
                let call = make_call(owned("wmctrl"), args1("-lx"), RunMode::Capture);
                Step::Run {
                    call,
                    then: Awaiting::WindowList {
                        tmux_session: owned(tmux_session),
                        terminal_class: owned(terminal_class),
                    },
                }
            }
        },
        TerminalFocus::Kitty => {
            let call = make_call(owned("kitty"), args2("@", "focus-window"), RunMode::Capture);
            Step::Run { call, then: Awaiting::Activation { program: owned("kitty") } }
        },
        TerminalFocus::Wezterm => {
            let call = make_call(owned("wezterm"), args2("cli", "activate-pane"), RunMode::Capture);
            Step::Run { call, then: Awaiting::Activation { program: owned("wezterm") } }
        },
    }
}

/// Open the directory in the editor (started detached).
pub fn open_editor(editor: &str, dir: &str) -> (s: Step)
    ensures
        s@ == editor_plan(editor@, dir@),
{
    if is_blank(dir) {
        return finish_err(owned("aucun dossier fourni"));
    }
    let call = make_call(owned(editor), args1(dir), RunMode::Detach);
    Step::Run { call, then: Awaiting::Launch { program: owned(editor) } }
}

/// Open the log file with `xdg-open` (started detached).
pub fn open_log(path: &str) -> (s: Step)
    ensures
        s@ == log_plan(path@),
{
    if is_blank(path) {
        return finish_err(owned("aucun fichier de log fourni"));
    }
    let call = make_call(owned("xdg-open"), args1(path), RunMode::Detach);
    Step::Run { call, then: Awaiting::Launch { program: owned("xdg-open") } }
}

/// Whether the Terminal button can work with this method and session.
pub fn terminal_focus_available(method: TerminalFocus, session: SessionType) -> (p: FocusProbe)
    ensures
        p@ == probe_plan(method, session),
{
    match method {
        TerminalFocus::Disabled => FocusProbe::Known { available: false },
        TerminalFocus::Wmctrl => {
            if session == SessionType::X11 {
                FocusProbe::Check {
                    call: make_call(owned("wmctrl"), args1("--version"), RunMode::Quiet),
                }
            } else {
                FocusProbe::Known { available: false }
            }
        },
        TerminalFocus::Kitty => FocusProbe::Check {
            call: make_call(owned("kitty"), args1("--version"), RunMode::Quiet),
        },
        TerminalFocus::Wezterm => FocusProbe::Check {
            call: make_call(owned("wezterm"), args1("--version"), RunMode::Quiet),
        },
    }
}

/// The answer of a `FocusProbe::Check`: the program ran and succeeded.
pub fn probe_passed(outcome: &ProcessOutcome) -> (b: bool)
    ensures
        b == (outcome@ matches OutcomeView::Exited { success, .. } && success),
{
    match outcome {
        ProcessOutcome::Exited { success, .. } => *success,
        _ => false,
    }
}

/// The trimmed standard error of a call that failed, as its error message.
fn stderr_message(stderr: &str) -> (s: Step)
    ensures
        s@ == failed_with(trimmed(stderr@)),
{
    finish_err(trim(stderr))
}

fn after_session_check(session: String, keys: Vec<String>, outcome: ProcessOutcome) -> (s: Step)
    ensures
        s@ == after(AwaitingView::SessionCheck { session: session@, keys: texts(keys@) }, outcome@),
{
    match outcome {
        ProcessOutcome::Unavailable { error } => not_found_message("tmux", error.as_str()),
        ProcessOutcome::Exited { success: false, .. } => {
            let m = concat("session tmux « ", session.as_str());
            finish_err(concat(m.as_str(), " » introuvable"))
        },
        _ => {
            let ghost kv = texts(keys@);
            let mut args = args3("send-keys", "-t", session.as_str());
            let ghost head = texts(args@);
            let mut keys = keys;
            args.append(&mut keys);
            assert(texts(args@) =~= head + kv);
            let call = make_call(owned("tmux"), args, RunMode::Capture);
            Step::Run { call, then: Awaiting::KeysSent }
        },
    }
}

fn after_keys_sent(outcome: ProcessOutcome) -> (s: Step)
    ensures
        s@ == after(AwaitingView::KeysSent, outcome@),
{
    match outcome {
        ProcessOutcome::Unavailable { error } => finish_err(concat("tmux send-keys : ", error.as_str())),
        ProcessOutcome::Exited { success: false, stderr, .. } => stderr_message(stderr.as_str()),
        _ => finish_ok(),
    }
}

fn after_window_list(tmux_session: String, terminal_class: String, outcome: ProcessOutcome) -> (s: Step)
    ensures
        s@ == after(
            AwaitingView::WindowList { tmux_session: tmux_session@, terminal_class: terminal_class@ },
            outcome@,
        ),
{
    match outcome {
        ProcessOutcome::Unavailable { error } => not_found_message("wmctrl", error.as_str()),
        ProcessOutcome::Exited { stdout, .. } => focus_listed(
            stdout.as_str(),
            tmux_session.as_str(),
            terminal_class.as_str(),
        ),
        ProcessOutcome::Launched => {
            let nothing = String::new();
            focus_listed(nothing.as_str(), tmux_session.as_str(), terminal_class.as_str())
        },
    }
}

fn after_activation(program: String, outcome: ProcessOutcome) -> (s: Step)
    ensures
        s@ == after(AwaitingView::Activation { program: program@ }, outcome@),
{
    match outcome {
        ProcessOutcome::Unavailable { error } => not_found_message(program.as_str(), error.as_str()),
        ProcessOutcome::Exited { success: false, stderr, .. } => stderr_message(stderr.as_str()),
        _ => finish_ok(),
    }
}

fn after_launch(program: String, outcome: ProcessOutcome) -> (s: Step)
    ensures
        s@ == after(AwaitingView::Launch { program: program@ }, outcome@),
{
    match outcome {
        ProcessOutcome::Unavailable { error } => not_found_message(program.as_str(), error.as_str()),
        _ => finish_ok(),
    }
}

/// What comes after the call that `awaiting` waited for went as `outcome`
/// says.
pub fn resume(awaiting: Awaiting, outcome: ProcessOutcome) -> (s: Step)
    ensures
        s@ == after(awaiting@, outcome@),
{
    match awaiting {
        Awaiting::SessionCheck { session, keys } => after_session_check(session, keys, outcome),
        Awaiting::KeysSent => after_keys_sent(outcome),
        Awaiting::WindowList { tmux_session, terminal_class } => after_window_list(
            tmux_session,
            terminal_class,
            outcome,
        ),
        Awaiting::Activation { program } => after_activation(program, outcome),
        Awaiting::Launch { program } => after_launch(program, outcome),
    }
}

// ---------------------------------------------------------------------------
// Reading the window list
// ---------------------------------------------------------------------------

struct ListedWindow {
    id: Vec<char>,
    class: Vec<char>,
    title: Vec<char>,
}

impl View for ListedWindow {
    type V = WindowView;

    closed spec fn view(&self) -> WindowView {
        WindowView { id: self.id@, class: self.class@, title: self.title@ }
    }
}

spec fn windows_view(v: Seq<ListedWindow>) -> Seq<WindowView> {
    v.map_values(|w: ListedWindow| w@)
}

/// The window that one line of the listing describes, if any.
fn parse_window(line: &[char], own: &[char]) -> (r: Option<ListedWindow>)
    requires
        own@ == own_class(),
    ensures
        match r {
            Some(w) => window_of(line@) == Some(w@),
            None => window_of(line@) is None,
        },
{
    let cols = split_words(line);
    if cols.len() < 4 {
        return None;
    }
    proof {
        lemma_chars_deep_view(&cols@[0]);
        lemma_chars_deep_view(&cols@[2]);
    }
    let class = lower_text(cols[2].as_slice());
    if occurs(class.as_slice(), own) {
        return None;
    }
    let id = copy_chars(cols[0].as_slice());
    let rest = join_words_from(cols.as_slice(), 4);
    let title = lower_text(rest.as_slice());
    Some(ListedWindow { id, class, title })
}

fn copy_chars(v: &[char]) -> (r: Vec<char>)
    ensures
        r@ == v@,
{
    let mut r: Vec<char> = Vec::new();
    let mut i: usize = 0;
    while i < v.len()
        invariant
            i <= v@.len(),
            r@ == v@.take(i as int),
        decreases v@.len() - i,
    {
        r.push(v[i]);
        i = i + 1;
        assert(r@ =~= v@.take(i as int));
    }
    assert(r@ =~= v@);
    r
}

/// The windows of a `wmctrl -lx` listing, in order.
fn parse_windows(listing: &str) -> (r: Vec<ListedWindow>)
    ensures
        windows_view(r@) == listed_windows(listing@),
{
    let chars = chars_of(listing);
    let ls = split_lines(chars.as_slice());
    let own = chars_of("task-notify");
    let ghost lv = ls.deep_view();
    let mut r: Vec<ListedWindow> = Vec::new();
    let mut i: usize = 0;
    assert(lv.take(0) =~= seq![]);
    while i < ls.len()
        invariant
            lv == ls.deep_view(),
            lv == lines(listing@),
            own@ == own_class(),
            i <= ls@.len(),
            windows_view(r@) == windows_in(lv.take(i as int)),
        decreases ls@.len() - i,
    {
        proof {
            lemma_chars_deep_view(&ls@[i as int]);
            assert(lv.take(i + 1).drop_last() =~= lv.take(i as int));
            assert(lv.take(i + 1).last() == ls@[i as int]@);
        }
        let ghost before = r@;
        match parse_window(ls[i].as_slice(), own.as_slice()) {
            Some(w) => {
                r.push(w);
                assert(windows_view(r@) =~= windows_view(before).push(r@.last()@));
            },
            None => {},
        }
        i = i + 1;
    }
    assert(lv.take(ls@.len() as int) =~= lv);
    r
}

fn known_terminal_classes() -> (v: Vec<Vec<char>>)
    ensures
        v.deep_view() == terminal_classes(),
{
    let mut v: Vec<Vec<char>> = Vec::new();
    let names: [&str; 10] = [
        "gnome-terminal",
        "kitty",
        "alacritty",
        "wezterm",
        "konsole",
        "ghostty",
        "xterm",
        "terminator",
        "tilix",
        "st",
    ];
    let ghost expected = terminal_classes();
    let mut i: usize = 0;
    while i < 10
        invariant
            i <= 10,
            names@.len() == 10,
            forall|k: int| 0 <= k < 10 ==> #[trigger] names@[k]@ == expected[k],
            expected == terminal_classes(),
            v.deep_view() == expected.take(i as int),
        decreases 10 - i,
    {
        let c = chars_of(names[i]);
        proof {
            lemma_chars_deep_view(&c);
        }
        let ghost before = v.deep_view();
        v.push(c);
        assert(v.deep_view() =~= before.push(c@));
        assert(expected.take(i + 1) =~= expected.take(i as int).push(expected[i as int]));
        i = i + 1;
    }
    assert(expected.take(10) =~= expected);
    v
}

/// Does the window meet the criterion?
fn window_meets(w: &ListedWindow, c: Criterion, needle: &[char], classes: &Vec<Vec<char>>) -> (b: bool)
    requires
        classes.deep_view() == terminal_classes(),
    ensures
        b == meets(w@, c, needle@),
{
    match c {
        Criterion::Named => occurs(w.class.as_slice(), needle) || occurs(w.title.as_slice(), needle),
        Criterion::SessionTitle => occurs(w.title.as_slice(), needle),
        Criterion::KnownTerminal => {
            let comps = split_on(w.class.as_slice(), '.');
            let ghost cv = comps.deep_view();
            let mut k: usize = 0;
            while k < comps.len()
                invariant
                    c == Criterion::KnownTerminal,
                    classes.deep_view() == terminal_classes(),
                    cv == comps.deep_view(),
                    cv == pieces(w@.class, '.'),
                    k <= comps@.len(),
                    forall|j: int| 0 <= j < k ==> !names_a_terminal(#[trigger] cv[j]),
                decreases comps@.len() - k,
            {
                proof {
                    lemma_chars_deep_view(&comps@[k as int]);
                }
                if names_known_terminal(comps[k].as_slice(), classes) {
                    assert(names_a_terminal(cv[k as int]));
                    return true;
                }
                k = k + 1;
            }
            false
        },
    }
}

/// Does `comp` name the terminal `name` (alone or with a dash variant)?
fn names_terminal_exec(comp: &[char], name: &[char]) -> (b: bool)
    ensures
        b == names_terminal(comp@, name@),
{
    if same_chars(comp, name) {
        return true;
    }
    let n = name.len();
    if comp.len() <= n {
        return false;
    }
    let mut i: usize = 0;
    while i < n
        invariant
            n == name@.len(),
            n < comp@.len(),
            i <= n,
            forall|j: int| 0 <= j < i ==> comp@[j] == name@[j],
        decreases n - i,
    {
        if comp[i] != name[i] {
            assert(comp@.take(n as int)[i as int] != name@[i as int]);
            return false;
        }
        i = i + 1;
    }
    assert(comp@.take(n as int) =~= name@);
    comp[n] == '-'
}

/// Does `comp` name one of the known terminals?
fn names_known_terminal(comp: &[char], classes: &Vec<Vec<char>>) -> (b: bool)
    requires
        classes.deep_view() == terminal_classes(),
    ensures
        b == names_a_terminal(comp@),
{
    let mut t: usize = 0;
    while t < classes.len()
        invariant
            classes.deep_view() == terminal_classes(),
            t <= classes@.len(),
            forall|j: int| 0 <= j < t ==> !names_terminal(comp@, #[trigger] terminal_classes()[j]),
        decreases classes@.len() - t,
    {
        proof {
            lemma_chars_deep_view(&classes@[t as int]);
            assert(classes.deep_view()[t as int] == classes@[t as int].deep_view());
        }
        if names_terminal_exec(comp, classes[t].as_slice()) {
            assert(names_terminal(comp@, terminal_classes()[t as int]));
            return true;
        }
        t = t + 1;
    }
    false
}

/// The index of the first window that meets the criterion.
fn first_meeting(ws: &Vec<ListedWindow>, c: Criterion, needle: &[char], classes: &Vec<Vec<char>>) -> (r: Option<usize>)
    requires
        classes.deep_view() == terminal_classes(),
    ensures
        match r {
            Some(i) => i < ws@.len() && first_from(windows_view(ws@), c, needle@, 0) == Some(ws@[i as int]@),
            None => first_from(windows_view(ws@), c, needle@, 0) is None,
        },
{
    let ghost wv = windows_view(ws@);
    let mut i: usize = 0;
    while i < ws.len()
        invariant
            wv == windows_view(ws@),
            classes.deep_view() == terminal_classes(),
            i <= ws@.len(),
            first_from(wv, c, needle@, 0) == first_from(wv, c, needle@, i as int),
        decreases ws@.len() - i,
    {
        assert(wv[i as int] == ws@[i as int]@);
        if window_meets(&ws[i], c, needle, classes) {
            return Some(i);
        }
        i = i + 1;
    }
    None
}

/// Search the listing for the window to focus, then activate it.
fn focus_listed(listing: &str, tmux_session: &str, terminal_class: &str) -> (s: Step)
    ensures
        s@ == window_step(listing@, tmux_session@, terminal_class@),
{
    let ws = parse_windows(listing);
    let classes = known_terminal_classes();
    let class_chars = chars_of(terminal_class);
    let wanted = lower_text(trim_chars(class_chars.as_slice()).as_slice());
    let tmux_chars = chars_of(tmux_session);
    let tmux = lower_text(trim_chars(tmux_chars.as_slice()).as_slice());
    let mut found: Option<usize> = None;
    if wanted.len() > 0 {
        found = first_meeting(&ws, Criterion::Named, wanted.as_slice(), &classes);
    }
    if found.is_none() {
        let nothing: Vec<char> = Vec::new();
        assert(nothing@ =~= Seq::<char>::empty());
        found = first_meeting(&ws, Criterion::KnownTerminal, nothing.as_slice(), &classes);
    }
    if found.is_none() && tmux.len() > 0 {
        found = first_meeting(&ws, Criterion::SessionTitle, tmux.as_slice(), &classes);
    }
    match found {
        Some(i) => {
            let id = string_from(ws[i].id.as_slice());
            let call = make_call(owned("wmctrl"), args2("-ia", id.as_str()), RunMode::Capture);
            Step::Run { call, then: Awaiting::Activation { program: owned("wmctrl") } }
        },
        None => finish_err(owned("aucune fenêtre de terminal trouvée")),
    }
}

} // verus!

verus! {

// ---------------------------------------------------------------------------
// Laws
// ---------------------------------------------------------------------------

/// A reply reaches tmux literally: once the session is known to exist, the
/// text is handed to `tmux send-keys` as one argument of its own, followed by
/// `Enter`, and no shell ever sees it.
pub proof fn law_reply_text_is_one_argument(session: Seq<char>, text: Seq<char>, o: OutcomeView)
    requires
        !(o is Unavailable),
        !exited_badly(o),
    ensures
        reply_plan(session, text) matches StepView::Run { call, then } && call == session_check_call(session)
            && after(then, o) == (StepView::Run {
                call: call_of(
                    "tmux"@,
                    seq!["send-keys"@, "-t"@, session, text, "Enter"@],
                    RunMode::Capture,
                ),
                then: AwaitingView::KeysSent,
            }),
{
    let then = AwaitingView::SessionCheck { session, keys: seq![text, "Enter"@] };
    assert(seq!["send-keys"@, "-t"@, session] + seq![text, "Enter"@] =~= seq![
        "send-keys"@,
        "-t"@,
        session,
        text,
        "Enter"@,
    ]);
}

/// A reply to a session that does not exist, or with tmux missing, fails
/// with a message saying what could not be found ("introuvable"), and nothing
/// is typed anywhere.
pub proof fn law_missing_session_is_reported(session: Seq<char>, keys: Seq<Seq<char>>, o: OutcomeView)
    requires
        o is Unavailable || exited_badly(o),
    ensures
        after(AwaitingView::SessionCheck { session, keys }, o) matches StepView::Finished { result }
            && result matches Err(m) && occurs_in(m, "introuvable"@),
{
    reveal_strlit("introuvable");
    reveal_strlit(" introuvable : ");
    reveal_strlit(" » introuvable");
    let needle = "introuvable"@;
    match o {
        OutcomeView::Unavailable { error } => {
            let m = not_found("tmux"@, error);
            let k: int = "tmux"@.len() as int + 1;
            assert(m.subrange(k, k + needle.len()) =~= needle);
        },
        _ => {
            let m = "session tmux « "@ + session + " » introuvable"@;
            let k: int = m.len() as int - needle.len() as int;
            assert(m.subrange(k, k + needle.len()) =~= needle);
        },
    }
}

proof fn lemma_windows_in_exclude_own(ls: Seq<Seq<char>>)
    ensures
        forall|j: int| 0 <= j < windows_in(ls).len() ==> !occurs_in(#[trigger] windows_in(ls)[j].class, own_class()),
    decreases ls.len(),
{
    if ls.len() > 0 {
        let rest = windows_in(ls.drop_last());
        lemma_windows_in_exclude_own(ls.drop_last());
        assert forall|j: int| 0 <= j < windows_in(ls).len() implies !occurs_in(
            #[trigger] windows_in(ls)[j].class,
            own_class(),
        ) by {
            if j < rest.len() {
                assert(windows_in(ls)[j] == rest[j]);
                assert(!occurs_in(rest[j].class, own_class()));
            }
        }
    }
}

proof fn lemma_first_from_member(ws: Seq<WindowView>, c: Criterion, needle: Seq<char>, i: int)
    ensures
        first_from(ws, c, needle, i) matches Some(w) ==> exists|j: int| 0 <= j < ws.len() && ws[j] == w,
    decreases ws.len() - i,
{
    if 0 <= i < ws.len() && !meets(ws[i], c, needle) {
        lemma_first_from_member(ws, c, needle, i + 1);
    }
}

/// The notification window itself is never the one brought to the front:
/// whenever the window search activates a window, that window is in the
/// listing and its class is not the notifier's.
pub proof fn law_own_window_never_focused(listing: Seq<char>, tmux_session: Seq<char>, terminal_class: Seq<char>)
    ensures
        window_step(listing, tmux_session, terminal_class) matches StepView::Run { call, .. } ==> exists|j: int|
            0 <= j < listed_windows(listing).len() && call.args == seq!["-ia"@, #[trigger] listed_windows(listing)[j].id]
                && !occurs_in(listed_windows(listing)[j].class, own_class()),
{
    let ws = listed_windows(listing);
    lemma_windows_in_exclude_own(lines(listing));
    lemma_first_from_member(ws, Criterion::Named, lowered(trimmed(terminal_class)), 0);
    lemma_first_from_member(ws, Criterion::KnownTerminal, Seq::empty(), 0);
    lemma_first_from_member(ws, Criterion::SessionTitle, lowered(trimmed(tmux_session)), 0);
}

/// What `first_from` finds: nothing exactly when no window from `i` on
/// meets the criterion; otherwise the first window from `i` on that does.
proof fn lemma_first_from_finds(ws: Seq<WindowView>, c: Criterion, needle: Seq<char>, i: int)
    requires
        0 <= i,
    ensures
        (first_from(ws, c, needle, i) is None) <==> (forall|j: int| i <= j < ws.len() ==> !meets(#[trigger] ws[j], c, needle)),
        first_from(ws, c, needle, i) matches Some(w) ==> exists|k: int|
            i <= k < ws.len() && ws[k] == w && meets(ws[k], c, needle)
                && forall|j: int| i <= j < k ==> !meets(#[trigger] ws[j], c, needle),
    decreases ws.len() - i,
{
    if i < ws.len() {
        lemma_first_from_finds(ws, c, needle, i + 1);
        if !meets(ws[i], c, needle) {
            if let Some(w) = first_from(ws, c, needle, i) {
                let k = choose|k: int|
                    i + 1 <= k < ws.len() && ws[k] == w && meets(ws[k], c, needle)
                        && forall|j: int| i + 1 <= j < k ==> !meets(#[trigger] ws[j], c, needle);
                assert(forall|j: int| i <= j < k ==> !meets(#[trigger] ws[j], c, needle));
            }
        }
    }
}

/// A window is found by its title: with no class configured and no terminal
/// emulator listed, the window brought to the front is the first whose title
/// holds the tmux session's name, whenever one does.
pub proof fn law_session_title_search(ws: Seq<WindowView>, tmux: Seq<char>)
    requires
        tmux.len() > 0,
        forall|j: int| 0 <= j < ws.len() ==> !is_known_terminal_class(#[trigger] ws[j].class),
        exists|i: int| 0 <= i < ws.len() && occurs_in(#[trigger] ws[i].title, tmux),
    ensures
        chosen_window(ws, Seq::empty(), tmux) matches Some(w) && occurs_in(w.title, tmux) && exists|k: int|
            0 <= k < ws.len() && ws[k] == w && forall|j: int| 0 <= j < k ==> !occurs_in(#[trigger] ws[j].title, tmux),
{
    lemma_first_from_finds(ws, Criterion::KnownTerminal, Seq::empty(), 0);
    lemma_first_from_finds(ws, Criterion::SessionTitle, tmux, 0);
    assert forall|j: int| 0 <= j < ws.len() implies !meets(#[trigger] ws[j], Criterion::KnownTerminal, Seq::empty()) by {
        assert(!is_known_terminal_class(ws[j].class));
    }
    let i = choose|i: int| 0 <= i < ws.len() && occurs_in(#[trigger] ws[i].title, tmux);
    assert(meets(ws[i], Criterion::SessionTitle, tmux));
}

/// A window's title keeps every column after the host: whatever occurs in
/// those columns, joined by spaces, occurs in the lower-case title the search
/// looks at (an editor's title `main.rs - flipia - Visual Studio Code` is
/// found by `flipia`).
pub proof fn law_window_title_keeps_every_column(line: Seq<char>, t: Seq<char>)
    requires
        all_ascii(line),
        all_ascii(t),
        window_of(line) is Some,
        occurs_in(joined(words(line).skip(4)), t),
    ensures
        window_of(line) matches Some(w) && occurs_in(w.title, lowered(t)),
{
    lemma_words_ascii(line);
    let parts = words(line).skip(4);
    assert forall|i: int| 0 <= i < parts.len() implies all_ascii(#[trigger] parts[i]) by {
        assert(parts[i] == words(line)[i + 4]);
    }
    lemma_joined_ascii(parts);
    law_lowering_keeps_occurrences(joined(parts), t);
}

/// The class is compared in lower case: two classes that differ only in the
/// case of their letters (`Alacritty.Alacritty`, `alacritty.alacritty`) are
/// equally known terminals or not, and name the same configured class.
pub proof fn law_class_case_does_not_matter(c1: Seq<char>, c2: Seq<char>, needle: Seq<char>)
    requires
        all_ascii(c1),
        all_ascii(c2),
        c1.len() == c2.len(),
        forall|i: int| 0 <= i < c1.len() ==> same_up_to_case(#[trigger] c1[i], c2[i]),
    ensures
        is_known_terminal_class(lowered(c1)) == is_known_terminal_class(lowered(c2)),
        occurs_in(lowered(c1), needle) == occurs_in(lowered(c2), needle),
{
    law_lowering_ignores_case(c1, c2);
}

} // verus!
