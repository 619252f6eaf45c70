# task_notify

Desktop notifications for coding-agent sessions run in tmux: a card that
says a task is done (or waits for an answer), with a short summary, a reply
field typed straight into the tmux session, and buttons that bring the
terminal or the editor back.

- `src/` is the verified library (Verus):
  - `text.rs`: whitespace, trimming, substring search, word and line
    splitting, on characters.
  - `config.rs`: the settings, their defaults, and how a configuration file
    overrides them field by field.
  - `cli.rs`: the command line, the notification payload and its
    normalization, the socket messages, the retry pauses.
  - `bridge.rs`: tmux replies, the editor, the log viewer and the terminal
    focus, as small machines that hand out programs to run (never a shell)
    and decide from their outcome.
  - `daemon.rs`: the inbox that keeps notifications until the front end
    listens, so that none is lost.
  - `ipc.rs`: what the commands of the front end decide.
- `app/` is the program around it: argument reading, the Unix socket, the
  processes, the TOML and JSON formats, and the Tauri window.
- `tests/` exercises the library.

Names: the program, its socket (`task-notify.sock`), its configuration
directory and its own window class are `task-notify`; the default tmux
session is `agent`.
