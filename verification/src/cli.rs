//! The command line: what the arguments ask for, the notification payload
//! and its validation, the messages sent to the daemon over the socket, and
//! how long the client waits for a daemon it has just started.

use vstd::prelude::*;

use crate::text::{all_white, concat, is_blank, chars_of, string_from};

verus! {

/// What `main` does next: start the daemon, or leave with an exit code.
pub enum Route {
    Daemon,
    Exit(u8),
}

/// Exit code of a successful command.
pub const EXIT_OK: u8 = 0;

/// Exit code when the message could not be delivered to the daemon.
pub const EXIT_UNDELIVERED: u8 = 1;

/// Exit code of an invalid command line or payload.
pub const EXIT_INVALID: u8 = 2;

/// The state that a notification reports.
#[derive(Debug, Clone, Copy, PartialEq, Eq, Structural)]
pub enum Status {
    Done,
    Hold,
    Fault,
}

/// A one-click answer: plain text (typed at the prompt, then Enter), or raw
/// keys for a dialog of the terminal UI (`"1"`, `"Escape"`...).
#[derive(Debug, Clone)]
pub enum Quick {
    Text(String),
    Keys { label: String, keys: Vec<String> },
}

/// A notification. `status` and `task` are required; every other field is
/// optional.
#[derive(Debug, Clone)]
pub struct Payload {
    pub id: Option<String>,
    pub status: Status,
    pub task: String,
    pub duration: Option<String>,
    pub summary: Vec<String>,
    pub quick: Option<Vec<Quick>>,
    pub session: Option<String>,
    pub dir: Option<String>,
    pub timeout: Option<u32>,
}

/// A message on the socket between the command line and the daemon.
#[derive(Debug)]
pub enum IpcMessage {
    Push { payload: Payload },
    DismissAll,
}

/// The longest title, in characters.
pub open spec fn task_limit() -> nat {
    60
}

/// The most summary lines.
pub open spec fn summary_limit() -> nat {
    4
}

/// The title cut to its first 60 characters (characters, never bytes).
pub open spec fn clipped_task(t: Seq<char>) -> Seq<char> {
    if t.len() > task_limit() {
        t.take(task_limit() as int)
    } else {
        t
    }
}

/// The summary cut to its first 4 lines.
pub open spec fn clipped_summary<T>(s: Seq<T>) -> Seq<T> {
    if s.len() > summary_limit() {
        s.take(summary_limit() as int)
    } else {
        s
    }
}

pub open spec fn decimal_digit(d: int) -> char {
    seq!['0', '1', '2', '3', '4', '5', '6', '7', '8', '9'][d]
}

/// `n`, below 10000, written with exactly four decimal digits (`{:04}`).
pub open spec fn four_digits(n: int) -> Seq<char> {
    seq![
        decimal_digit((n / 1000) % 10),
        decimal_digit((n / 100) % 10),
        decimal_digit((n / 10) % 10),
        decimal_digit(n % 10),
    ]
}

/// A generated identifier: four decimal digits.
pub open spec fn is_generated_id(id: Seq<char>) -> bool {
    exists|n: int| 0 <= n < 10000 && id == #[trigger] four_digits(n)
}

/// `after` is `before` normalized: the same notification with an identifier
/// (the given one, or a generated one), its title cut to 60 characters and
/// its summary to 4 lines.
pub open spec fn normalizes_to(before: Payload, after: Payload) -> bool {
    &&& (before.id matches Some(i) ==> after.id == Some(i))
    &&& (before.id is None ==> (after.id matches Some(i) && is_generated_id(i@)))
    &&& after.status == before.status
    &&& after.task@ == clipped_task(before.task@)
    &&& after.duration == before.duration
    &&& after.summary@ == clipped_summary(before.summary@)
    &&& after.quick == before.quick
    &&& after.session == before.session
    &&& after.dir == before.dir
    &&& after.timeout == before.timeout
}

/// A point in time of the system clock.
#[verifier::external_type_specification]
#[verifier::external_body]
pub struct ExSystemTime(std::time::SystemTime);

/// Why a point in time cannot be measured from a later one.
#[verifier::external_type_specification]
#[verifier::external_body]
pub struct ExSystemTimeError(std::time::SystemTimeError);

/// Calls `SystemTime::now`. The result is whatever the clock reads, so
/// nothing is claimed of it.
#[verifier::external_body]
fn clock_now() -> std::time::SystemTime {
    std::time::SystemTime::now()
}

/// Calls `SystemTime::duration_since` with the Unix epoch: the time elapsed
/// since then, or an error when `t` is earlier. It depends on the clock's
/// reading, so nothing is claimed of it.
#[verifier::external_body]
fn since_unix_epoch(t: &std::time::SystemTime) -> Result<std::time::Duration, std::time::SystemTimeError> {
    t.duration_since(std::time::UNIX_EPOCH)
}

/// Calls `Duration::as_millis`: the whole milliseconds of `d`. The duration
/// is opaque here, so nothing is claimed of the number.
#[verifier::external_body]
fn whole_millis(d: &std::time::Duration) -> u128 {
    d.as_millis()
}

/// The milliseconds since the Unix epoch, or 0 when the clock is set before
/// it.
fn clock_millis() -> u128 {
    let now = clock_now();
    match since_unix_epoch(&now) {
        Ok(d) => whole_millis(&d),
        Err(_) => 0,
    }
}

/// The identifier made of the last four decimal digits of `millis`.
pub fn id_from_millis(millis: u128) -> (id: String)
    ensures
        id@ == four_digits((millis % 10000) as int),
{
    let digits: [char; 10] = ['0', '1', '2', '3', '4', '5', '6', '7', '8', '9'];
    let n = millis % 10000;
    let mut v: Vec<char> = Vec::new();
    v.push(digits[((n / 1000) % 10) as usize]);
    v.push(digits[((n / 100) % 10) as usize]);
    v.push(digits[((n / 10) % 10) as usize]);
    v.push(digits[(n % 10) as usize]);
    assert(digits@ =~= seq!['0', '1', '2', '3', '4', '5', '6', '7', '8', '9']);
    assert(v@ =~= four_digits(n as int));
    string_from(v.as_slice())
}

/// A fresh identifier, made from the clock: four decimal digits.
pub fn default_id() -> (id: String)
    ensures
        is_generated_id(id@),
{
    let millis = clock_millis();
    let id = id_from_millis(millis);
    id
}

/// The value of a decimal digit character.
pub open spec fn digit_value(c: char) -> int {
    (c as u32) as int - ('0' as u32) as int
}

proof fn lemma_decimal_digit(d: int)
    requires
        0 <= d < 10,
    ensures
        digit_value(decimal_digit(d)) == d,
        '0' <= decimal_digit(d) && decimal_digit(d) <= '9',
{
    let ds = seq!['0', '1', '2', '3', '4', '5', '6', '7', '8', '9'];
    assert(decimal_digit(d) == ds[d]);
}

/// An identifier made from a clock reading holds exactly four decimal
/// digits, and read as a number it is the reading's last four decimal
/// digits: `1_700_000_000_416` ms gives `0416`.
pub proof fn law_id_is_last_four_digits(millis: u128)
    ensures
        four_digits((millis % 10000) as int).len() == 4,
        forall|i: int| 0 <= i < 4 ==> '0' <= #[trigger] four_digits((millis % 10000) as int)[i]
            && four_digits((millis % 10000) as int)[i] <= '9',
        ({
            let id = four_digits((millis % 10000) as int);
            1000 * digit_value(id[0]) + 100 * digit_value(id[1]) + 10 * digit_value(id[2]) + digit_value(id[3])
                == (millis % 10000) as int
        }),
{
    let n = (millis % 10000) as int;
    lemma_decimal_digit((n / 1000) % 10);
    lemma_decimal_digit((n / 100) % 10);
    lemma_decimal_digit((n / 10) % 10);
    lemma_decimal_digit(n % 10);
    let id = four_digits(n);
    assert forall|i: int| 0 <= i < 4 implies '0' <= #[trigger] id[i] && id[i] <= '9' by {}
    assert(1000 * ((n / 1000) % 10) + 100 * ((n / 100) % 10) + 10 * ((n / 10) % 10) + n % 10 == n)
        by (nonlinear_arith)
        requires
            0 <= n < 10000,
    ;
}

/// Two clock readings less than ten seconds apart give different
/// identifiers: notifications pushed 2.4 s apart get `0416` and `2816`.
pub proof fn law_close_readings_give_distinct_ids(m1: u128, m2: u128)
    requires
        m1 < m2,
        m2 - m1 < 10000,
    ensures
        four_digits((m1 % 10000) as int) != four_digits((m2 % 10000) as int),
{
    law_id_is_last_four_digits(m1);
    law_id_is_last_four_digits(m2);
    let a = four_digits((m1 % 10000) as int);
    let b = four_digits((m2 % 10000) as int);
    if a == b {
        assert(a[0] == b[0] && a[1] == b[1] && a[2] == b[2] && a[3] == b[3]);
        assert((m1 % 10000) as int == (m2 % 10000) as int);
        assert(false) by (nonlinear_arith)
            requires
                m1 < m2,
                m2 - m1 < 10000,
                m1 % 10000 == m2 % 10000,
        ;
    }
}

impl Payload {
    /// Give the notification an identifier when it has none, cut its title
    /// to 60 characters (on character boundaries) and its summary to 4 lines.
    pub fn normalize(&mut self)
        ensures
            normalizes_to(*old(self), *final(self)),
    {
        if self.id.is_none() {
            self.id = Some(default_id());
        }
        let chars = chars_of(self.task.as_str());
        if chars.len() > 60 {
            let mut head: Vec<char> = Vec::new();
            let mut i: usize = 0;
            while i < 60
                invariant
                    i <= 60,
                    chars@.len() > 60,
                    head@ == chars@.take(i as int),
                decreases 60 - i,
            {
                head.push(chars[i]);
                i = i + 1;
                assert(head@ =~= chars@.take(i as int));
            }
            self.task = string_from(head.as_slice());
        }
        self.summary.truncate(4);
        assert(self.summary@ =~= clipped_summary(old(self).summary@));
        assert(self.task@ == clipped_task(old(self).task@));
        assert(old(self).id is None ==> (self.id matches Some(i) && is_generated_id(i@)));
    }
}

/// A normalized payload is left as it is by a second normalization.
pub proof fn law_normalize_idempotent(a: Payload, b: Payload, c: Payload)
    requires
        normalizes_to(a, b),
        normalizes_to(b, c),
    ensures
        c.id == b.id,
        c.task@ == b.task@,
        c.summary@ == b.summary@,
        c.status == b.status,
        c.duration == b.duration,
        c.quick == b.quick,
        c.session == b.session,
        c.dir == b.dir,
        c.timeout == b.timeout,
{
    assert(clipped_task(b.task@) =~= b.task@);
    assert(clipped_summary(b.summary@) =~= b.summary@);
}

/// What a payload is refused for: a blank title.
pub open spec fn blank_task_message() -> Seq<char> {
    "payload invalide : le champ « task » est vide"@
}

/// The message that pushes `payload` to the daemon, normalized; a payload
/// whose title is blank is refused.
pub fn accept_payload(payload: Payload) -> (r: Result<IpcMessage, String>)
    ensures
        all_white(payload.task@) ==> (r matches Err(m) && m@ == blank_task_message()),
        !all_white(payload.task@) ==> (r matches Ok(IpcMessage::Push { payload: p }) && normalizes_to(
            payload,
            p,
        )),
{
    if is_blank(payload.task.as_str()) {
        return Err("payload invalide : le champ « task » est vide".to_owned());
    }
    let mut p = payload;
    p.normalize();
    Ok(IpcMessage::Push { payload: p })
}

// ---------------------------------------------------------------------------
// The arguments
// ---------------------------------------------------------------------------

/// What the command line asks for.
pub enum Command {
    /// Run the daemon (no argument, or `--daemon`).
    Daemon,
    /// Print the help (`--help`, `-h`).
    Help,
    /// Push the payload given after `--json`.
    PushJson { json: String },
    /// Push the payload read from standard input.
    PushStdin,
    /// Remove every card (`dismiss --all`).
    DismissAll,
    /// The arguments make no sense: `message` goes to standard error and the
    /// exit code is `EXIT_INVALID`.
    Refused { message: String },
}

pub ghost enum CommandView {
    Daemon,
    Help,
    PushJson { json: Seq<char> },
    PushStdin,
    DismissAll,
    Refused { message: Seq<char> },
}

impl View for Command {
    type V = CommandView;

    open spec fn view(&self) -> CommandView {
        match self {
            Command::Daemon => CommandView::Daemon,
            Command::Help => CommandView::Help,
            Command::PushJson { json } => CommandView::PushJson { json: json@ },
            Command::PushStdin => CommandView::PushStdin,
            Command::DismissAll => CommandView::DismissAll,
            Command::Refused { message } => CommandView::Refused { message: message@ },
        }
    }
}

/// What the arguments after `push` ask for.
pub open spec fn push_command(rest: Seq<Seq<char>>) -> CommandView {
    if rest.len() == 0 {
        CommandView::PushStdin
    } else if rest[0] == "--json"@ {
        if rest.len() > 1 {
            CommandView::PushJson { json: rest[1] }
        } else {
            CommandView::Refused { message: "--json attend un argument JSON"@ }
        }
    } else {
        CommandView::Refused { message: "option inconnue pour push : "@ + rest[0] }
    }
}

/// What the arguments after `dismiss` ask for.
pub open spec fn dismiss_command(rest: Seq<Seq<char>>) -> CommandView {
    if rest.len() > 0 && rest[0] == "--all"@ {
        CommandView::DismissAll
    } else {
        CommandView::Refused { message: "usage : task-notify dismiss --all"@ }
    }
}

/// What the arguments (the program's name left out) ask for.
pub open spec fn command_of(args: Seq<Seq<char>>) -> CommandView {
    if args.len() == 0 || args[0] == "--daemon"@ {
        CommandView::Daemon
    } else if args[0] == "--help"@ || args[0] == "-h"@ {
        CommandView::Help
    } else if args[0] == "push"@ {
        push_command(args.skip(1))
    } else if args[0] == "dismiss"@ {
        dismiss_command(args.skip(1))
    } else {
        CommandView::Refused { message: "argument inconnu : "@ + args[0] + " (voir --help)"@ }
    }
}

pub open spec fn arg_texts(v: Seq<String>) -> Seq<Seq<char>> {
    v.map_values(|s: String| s@)
}

fn text_is(s: &String, expected: &str) -> (b: bool)
    ensures
        b == (s@ == expected@),
{
    let a = chars_of(s.as_str());
    let e = chars_of(expected);
    crate::text::same_chars(a.as_slice(), e.as_slice())
}

/// What the arguments (the program's name left out) ask for.
pub fn parse_command(args: &[String]) -> (c: Command)
    ensures
        c@ == command_of(arg_texts(args@)),
{
    let ghost a = arg_texts(args@);
    if args.len() == 0 {
        return Command::Daemon;
    }
    assert(a[0] == args@[0]@);
    let first = &args[0];
    if text_is(first, "--daemon") {
        Command::Daemon
    } else if text_is(first, "--help") || text_is(first, "-h") {
        Command::Help
    } else if text_is(first, "push") {
        assert(a.skip(1).len() == args@.len() - 1);
        if args.len() == 1 {
            assert(a.skip(1).len() == 0);
            Command::PushStdin
        } else {
            assert(a.skip(1)[0] == args@[1]@);
            if text_is(&args[1], "--json") {
                if args.len() > 2 {
                    assert(a.skip(1)[1] == args@[2]@);
                    Command::PushJson { json: args[2].clone() }
                } else {
                    Command::Refused { message: "--json attend un argument JSON".to_owned() }
                }
            } else {
                Command::Refused { message: concat("option inconnue pour push : ", args[1].as_str()) }
            }
        }
    } else if text_is(first, "dismiss") {
        if args.len() > 1 && text_is(&args[1], "--all") {
            assert(a.skip(1)[0] == args@[1]@);
            Command::DismissAll
        } else {
            proof {
                if args.len() > 1 {
                    assert(a.skip(1)[0] == args@[1]@);
                }
            }
            Command::Refused { message: "usage : task-notify dismiss --all".to_owned() }
        }
    } else {
        let m = concat("argument inconnu : ", first.as_str());
        Command::Refused { message: concat(m.as_str(), " (voir --help)") }
    }
}

/// The payload text that a push command hands on: the text after `--json`,
/// or what standard input held; no other command pushes anything.
pub open spec fn push_text(c: CommandView, stdin: Seq<char>) -> Option<Seq<char>> {
    match c {
        CommandView::PushJson { json } => Some(json),
        CommandView::PushStdin => Some(stdin),
        _ => None,
    }
}

impl Command {
    /// Does the command read its payload from standard input?
    pub fn reads_stdin(&self) -> (b: bool)
        ensures
            b == (self@ is PushStdin),
    {
        match self {
            Command::PushStdin => true,
            _ => false,
        }
    }
}

/// The payload text that `command` pushes, given what standard input held
/// (only read for `push` with no option).
pub fn push_payload_text(command: Command, stdin: String) -> (r: Option<String>)
    ensures
        match r {
            Some(t) => push_text(command@, stdin@) == Some(t@),
            None => push_text(command@, stdin@) is None,
        },
{
    match command {
        Command::PushJson { json } => Some(json),
        Command::PushStdin => Some(stdin),
        _ => None,
    }
}

/// `push` with the payload on standard input pushes the same text as
/// `push --json` with that text as its argument; what follows (decoding,
/// validation, sending) is then the same.
pub proof fn law_stdin_push_is_json_push(s: Seq<char>, unread: Seq<char>)
    ensures
        push_text(command_of(seq!["push"@]), s) == Some(s),
        push_text(command_of(seq!["push"@, "--json"@, s]), unread) == Some(s),
{
    reveal_strlit("push");
    reveal_strlit("--daemon");
    reveal_strlit("--help");
    reveal_strlit("-h");
    reveal_strlit("--json");
    let one = seq!["push"@];
    let three = seq!["push"@, "--json"@, s];
    assert(one.skip(1) =~= Seq::<Seq<char>>::empty());
    assert(three.skip(1) =~= seq!["--json"@, s]);
    assert("push"@[0] != "--daemon"@[0]);
    assert("push"@[0] != "--help"@[0]);
    assert("push"@[0] != "-h"@[0]);
}

// ---------------------------------------------------------------------------
// Waiting for a daemon that was just started
// ---------------------------------------------------------------------------

/// The first pause before connecting again, in milliseconds.
pub open spec fn first_wait_ms() -> u64 {
    50
}

/// The longest pause between two attempts, in milliseconds.
pub open spec fn max_wait_ms() -> u64 {
    500
}

/// How long the client keeps trying after starting the daemon, in milliseconds.
pub open spec fn deadline_ms() -> u64 {
    5000
}

/// The pauses between the attempts to reach a daemon that was just started:
/// 50 ms, then twice as long each time but never more than 500 ms; after
/// 5 s the client gives up.
pub struct Backoff {
    wait_ms: u64,
}

impl Backoff {
    /// The pause that the next failed attempt is followed by.
    pub closed spec fn next_wait(&self) -> u64 {
        self.wait_ms
    }

    pub closed spec fn well_formed(&self) -> bool {
        first_wait_ms() <= self.wait_ms <= max_wait_ms()
    }

    pub fn new() -> (b: Backoff)
        ensures
            b.well_formed(),
            b.next_wait() == first_wait_ms(),
    {
        Backoff { wait_ms: 50 }
    }

    /// After a failed attempt, `elapsed_ms` after the daemon was started: the
    /// pause before the next attempt, or `None` once the deadline is reached.
    pub fn after_failure(&mut self, elapsed_ms: u64) -> (pause: Option<u64>)
        requires
            old(self).well_formed(),
        ensures
            final(self).well_formed(),
            elapsed_ms >= deadline_ms() ==> pause is None && final(self).next_wait() == old(self).next_wait(),
            elapsed_ms < deadline_ms() ==> pause == Some(old(self).next_wait()),
            elapsed_ms < deadline_ms() ==> final(self).next_wait() == (if 2 * old(self).next_wait()
                < max_wait_ms() {
                2 * old(self).next_wait()
            } else {
                max_wait_ms() as int
            }),
    {
        if elapsed_ms >= 5000 {
            return None;
        }
        let w = self.wait_ms;
        self.wait_ms = if w < 250 {
            w * 2
        } else {
            500
        };
        Some(w)
    }
}

} // verus!
