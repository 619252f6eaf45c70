use task_notify::config::{
    Anchor,
    default_editor, default_margin_bottom, default_margin_top, default_max_stack,
    default_position, default_timeout, default_tmux_session, xdg_dir_usable, Config,
    ConfigOverrides, TerminalFocus,
};

#[test]
fn defaults_field_by_field() {
    assert_eq!(default_tmux_session(), "agent");
    assert_eq!(default_editor(), "zed");
    assert_eq!(default_position(), "bottom-right");
    assert_eq!(default_margin_bottom(), 48);
    assert_eq!(default_margin_top(), 48);
    assert_eq!(default_timeout(), 6000);
    assert_eq!(default_max_stack(), 3);
    assert_eq!(TerminalFocus::default(), TerminalFocus::Wmctrl);
}

#[test]
fn default_config() {
    let c = Config::default();
    assert_eq!(c.tmux_session, "agent");
    assert_eq!(c.editor, "zed");
    assert_eq!(c.terminal_focus, TerminalFocus::Wmctrl);
    assert_eq!(c.terminal_class, "");
    assert_eq!(c.position, "bottom-right");
    assert_eq!((c.margin_bottom, c.margin_top, c.default_timeout, c.max_stack), (48, 48, 6000, 3));
}

#[test]
fn empty_file_gives_defaults() {
    let c = Config::from_overrides(ConfigOverrides::none());
    let d = Config::default();
    assert_eq!(c.tmux_session, d.tmux_session);
    assert_eq!(c.editor, d.editor);
    assert_eq!(c.terminal_focus, d.terminal_focus);
    assert_eq!(c.terminal_class, d.terminal_class);
    assert_eq!(c.position, d.position);
    assert_eq!(c.max_stack, d.max_stack);
}

#[test]
fn partial_file_keeps_other_defaults() {
    let mut o = ConfigOverrides::none();
    o.tmux_session = Some("flipia".to_string());
    o.terminal_focus = Some(TerminalFocus::Kitty);
    o.max_stack = Some(5);
    let c = Config::from_overrides(o);
    assert_eq!(c.tmux_session, "flipia");
    assert_eq!(c.terminal_focus, TerminalFocus::Kitty);
    assert_eq!(c.max_stack, 5);
    assert_eq!(c.editor, "zed");
    assert_eq!(c.position, "bottom-right");
    assert_eq!(c.margin_bottom, 48);
    assert_eq!(c.default_timeout, 6000);
}

#[test]
fn xdg_config_home_must_be_absolute() {
    assert!(xdg_dir_usable("/home/rdh/.config"));
    assert!(!xdg_dir_usable("relative/.config"));
    assert!(!xdg_dir_usable(""));
}

#[test]
fn anchor_follows_position() {
    let mut c = Config::default();
    assert_eq!(c.anchor(), Anchor::BottomRight);
    c.position = "top-right".to_string();
    assert_eq!(c.anchor(), Anchor::TopRight);
    c.position = "center".to_string();
    assert_eq!(c.anchor(), Anchor::Unanchored);
}
