//! The application's configuration: its defaults, field by field, and how
//! the values read from the configuration file override them.
//!
//! The daemon must always start: whatever the file holds or lacks, a
//! complete configuration comes out.

use vstd::prelude::*;

verus! {

/// How the terminal is brought to the front when a notification asks for it.
#[derive(Debug, Clone, Copy, PartialEq, Eq, Structural)]
pub enum TerminalFocus {
    /// Through `wmctrl` (X11 only); the default.
    Wmctrl,
    /// Through Kitty's remote control protocol.
    Kitty,
    /// Through WezTerm's command line.
    Wezterm,
    /// No attempt at all (`none` in the configuration file).
    Disabled,
}

impl Default for TerminalFocus {
    fn default() -> (f: TerminalFocus)
        ensures
            f == TerminalFocus::Wmctrl,
    {
        TerminalFocus::Wmctrl
    }
}

/// The application's settings.
#[derive(Debug, Clone)]
pub struct Config {
    /// tmux session that replies go to when the notification names none.
    pub tmux_session: String,
    /// Editor command opened on a notification's directory.
    pub editor: String,
    /// How the terminal is focused.
    pub terminal_focus: TerminalFocus,
    /// Window class or title to focus first (empty: automatic).
    pub terminal_class: String,
    /// Where the stack of notifications stands (`bottom-right` or `top-right`).
    pub position: String,
    /// Gap between the card and the bottom of the screen (bottom-right).
    pub margin_bottom: u32,
    /// Gap between the card and the top of the screen (top-right).
    pub margin_top: u32,
    /// How long a card stays, in milliseconds.
    pub default_timeout: u32,
    /// How many cards are shown at most.
    pub max_stack: usize,
}

/// The values that a configuration file sets; a field it leaves out is `None`.
#[derive(Debug, Clone)]
pub struct ConfigOverrides {
    pub tmux_session: Option<String>,
    pub editor: Option<String>,
    pub terminal_focus: Option<TerminalFocus>,
    pub terminal_class: Option<String>,
    pub position: Option<String>,
    pub margin_bottom: Option<u32>,
    pub margin_top: Option<u32>,
    pub default_timeout: Option<u32>,
    pub max_stack: Option<usize>,
}

pub open spec fn default_tmux_session_text() -> Seq<char> {
    "agent"@
}

pub open spec fn default_editor_text() -> Seq<char> {
    "zed"@
}

pub open spec fn default_position_text() -> Seq<char> {
    "bottom-right"@
}

pub fn default_tmux_session() -> (s: String)
    ensures
        s@ == default_tmux_session_text(),
{
    "agent".to_owned()
}

pub fn default_editor() -> (s: String)
    ensures
        s@ == default_editor_text(),
{
    "zed".to_owned()
}

pub fn default_position() -> (s: String)
    ensures
        s@ == default_position_text(),
{
    "bottom-right".to_owned()
}

pub fn default_margin_bottom() -> (m: u32)
    ensures
        m == 48,
{
    48
}

pub fn default_margin_top() -> (m: u32)
    ensures
        m == 48,
{
    48
}

pub fn default_timeout() -> (t: u32)
    ensures
        t == 6000,
{
    6000
}

pub fn default_max_stack() -> (n: usize)
    ensures
        n == 3,
{
    3
}

impl Config {
    /// Every field holds its own default value.
    pub open spec fn is_default(&self) -> bool {
        &&& self.tmux_session@ == default_tmux_session_text()
        &&& self.editor@ == default_editor_text()
        &&& self.terminal_focus == TerminalFocus::Wmctrl
        &&& self.terminal_class@ == Seq::<char>::empty()
        &&& self.position@ == default_position_text()
        &&& self.margin_bottom == 48
        &&& self.margin_top == 48
        &&& self.default_timeout == 6000
        &&& self.max_stack == 3
    }

    /// `self` is what `o` gives: each field the file sets, and the default
    /// of each field it leaves out.
    pub open spec fn overridden_by(&self, o: ConfigOverrides) -> bool {
        &&& self.tmux_session@ == (match o.tmux_session {
            Some(s) => s@,
            None => default_tmux_session_text(),
        })
        &&& self.editor@ == (match o.editor {
            Some(s) => s@,
            None => default_editor_text(),
        })
        &&& self.terminal_focus == (match o.terminal_focus {
            Some(f) => f,
            None => TerminalFocus::Wmctrl,
        })
        &&& self.terminal_class@ == (match o.terminal_class {
            Some(s) => s@,
            None => Seq::<char>::empty(),
        })
        &&& self.position@ == (match o.position {
            Some(s) => s@,
            None => default_position_text(),
        })
        &&& self.margin_bottom == (match o.margin_bottom {
            Some(m) => m,
            None => 48,
        })
        &&& self.margin_top == (match o.margin_top {
            Some(m) => m,
            None => 48,
        })
        &&& self.default_timeout == (match o.default_timeout {
            Some(t) => t,
            None => 6000,
        })
        &&& self.max_stack == (match o.max_stack {
            Some(n) => n,
            None => 3,
        })
    }

    /// The configuration that a file setting the fields of `o` describes:
    /// each field it sets replaces the default of that field alone.
    pub fn from_overrides(o: ConfigOverrides) -> (c: Config)
        ensures
            c.overridden_by(o),
    {
        Config {
            tmux_session: match o.tmux_session {
                Some(s) => s,
                None => default_tmux_session(),
            },
            editor: match o.editor {
                Some(s) => s,
                None => default_editor(),
            },
            terminal_focus: match o.terminal_focus {
                Some(f) => f,
                None => TerminalFocus::default(),
            },
            terminal_class: match o.terminal_class {
                Some(s) => s,
                None => String::new(),
            },
            position: match o.position {
                Some(s) => s,
                None => default_position(),
            },
            margin_bottom: match o.margin_bottom {
                Some(m) => m,
                None => default_margin_bottom(),
            },
            margin_top: match o.margin_top {
                Some(m) => m,
                None => default_margin_top(),
            },
            default_timeout: match o.default_timeout {
                Some(t) => t,
                None => default_timeout(),
            },
            max_stack: match o.max_stack {
                Some(n) => n,
                None => default_max_stack(),
            },
        }
    }
}

impl ConfigOverrides {
    /// `self` sets no field at all.
    pub open spec fn sets_nothing(&self) -> bool {
        &&& self.tmux_session is None
        &&& self.editor is None
        &&& self.terminal_focus is None
        &&& self.terminal_class is None
        &&& self.position is None
        &&& self.margin_bottom is None
        &&& self.margin_top is None
        &&& self.default_timeout is None
        &&& self.max_stack is None
    }

    /// An override that sets no field (what a missing, unreadable or
    /// invalid configuration file amounts to).
    pub fn none() -> (o: ConfigOverrides)
        ensures
            o.sets_nothing(),
    {
        ConfigOverrides {
            tmux_session: None,
            editor: None,
            terminal_focus: None,
            terminal_class: None,
            position: None,
            margin_bottom: None,
            margin_top: None,
            default_timeout: None,
            max_stack: None,
        }
    }
}

impl Default for Config {
    fn default() -> (c: Config)
        ensures
            c.is_default(),
    {
        Config {
            tmux_session: default_tmux_session(),
            editor: default_editor(),
            terminal_focus: TerminalFocus::default(),
            terminal_class: String::new(),
            position: default_position(),
            margin_bottom: default_margin_bottom(),
            margin_top: default_margin_top(),
            default_timeout: default_timeout(),
            max_stack: default_max_stack(),
        }
    }
}

/// A file that sets no field gives the default configuration.
pub proof fn law_empty_file_gives_defaults(o: ConfigOverrides, c: Config)
    requires
        o.sets_nothing(),
        c.overridden_by(o),
    ensures
        c.is_default(),
{
}

/// Each field is defaulted on its own: setting one field in the file
/// changes that field and leaves every other at its default.
pub proof fn law_fields_default_independently(o: ConfigOverrides, c: Config)
    requires
        c.overridden_by(o),
    ensures
        o.tmux_session is None ==> c.tmux_session@ == default_tmux_session_text(),
        o.editor is None ==> c.editor@ == default_editor_text(),
        o.terminal_focus is None ==> c.terminal_focus == TerminalFocus::Wmctrl,
        o.terminal_class is None ==> c.terminal_class@.len() == 0,
        o.position is None ==> c.position@ == default_position_text(),
        o.margin_bottom is None ==> c.margin_bottom == 48,
        o.margin_top is None ==> c.margin_top == 48,
        o.default_timeout is None ==> c.default_timeout == 6000,
        o.max_stack is None ==> c.max_stack == 3,
{
}

/// Where the window of the stack is anchored, as `position` says.
#[derive(Debug, Clone, Copy, PartialEq, Eq, Structural)]
pub enum Anchor {
    /// `top-right`: the window grows downwards from a fixed top edge.
    TopRight,
    /// `bottom-right`: the window grows upwards from a fixed bottom edge.
    BottomRight,
    /// Any other value: the window is resized and not moved.
    Unanchored,
}

impl Config {
    /// Where the window is anchored.
    pub fn anchor(&self) -> (a: Anchor)
        ensures
            a == (if self.position@ == "top-right"@ {
                Anchor::TopRight
            } else if self.position@ == "bottom-right"@ {
                Anchor::BottomRight
            } else {
                Anchor::Unanchored
            }),
    {
        let p = crate::text::chars_of(self.position.as_str());
        let top = crate::text::chars_of("top-right");
        let bottom = crate::text::chars_of("bottom-right");
        if crate::text::same_chars(p.as_slice(), top.as_slice()) {
            Anchor::TopRight
        } else if crate::text::same_chars(p.as_slice(), bottom.as_slice()) {
            Anchor::BottomRight
        } else {
            Anchor::Unanchored
        }
    }
}

/// `$XDG_CONFIG_HOME` is used only when it is set to an absolute path: the
/// XDG specification says that relative paths are ignored.
pub open spec fn xdg_dir_usable_spec(dir: Seq<char>) -> bool {
    dir.len() > 0 && dir[0] == '/'
}

pub fn xdg_dir_usable(dir: &str) -> (b: bool)
    ensures
        b == xdg_dir_usable_spec(dir@),
{
    if dir.is_empty() {
        false
    } else {
        dir.get_char(0) == '/'
    }
}

} // verus!
