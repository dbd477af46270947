use zjstatus_hints::actions::{Action, InputMode};
use zjstatus_hints::keys::{BareKey, Key, ModifierStyle, Modifiers};
use zjstatus_hints::plugin::{
    compose_status, decide_update, finish_status, initialized_after, pipe_payload, Config,
    HostEvent, HostUpdate, PluginState,
};
use zellij_tile::prelude::{InputMode as HostMode, ModeInfo};

fn entries(pairs: &[(&str, &str)]) -> Vec<(String, String)> {
    let mut v: Vec<(String, String)> =
        pairs.iter().map(|(k, v)| (k.to_string(), v.to_string())).collect();
    v.sort();
    v
}

fn ctrl(c: char) -> Key {
    Key {
        bare: BareKey::Char(c),
        modifiers: Modifiers { ctrl: true, alt: false, shift: false, super_key: false },
    }
}

fn normal_keymap() -> Vec<(Key, Vec<Action>)> {
    vec![
        (ctrl('p'), vec![Action::SwitchToMode { input_mode: InputMode::Pane }]),
        (ctrl('q'), vec![Action::Quit]),
    ]
}

#[test]
fn defaults_when_nothing_is_set() {
    let c = Config::load(&entries(&[]));
    assert_eq!(c.max_length, 0);
    assert_eq!(c.overflow_str, "...");
    assert_eq!(c.pipe_name, "zjstatus_hints");
    assert!(!c.hide_in_base_mode);
    assert_eq!(c.modifier_style, ModifierStyle::Long);
    assert_eq!(c.hint_format, "{key} {action}");
    assert_eq!(c.separator, "");
    assert_eq!(c.max_keys, 0);
    assert!(c.action_aliases.entries.is_empty());
    assert!(c.key_aliases.entries.is_empty());
    assert!(c.colour_settings.entries.is_empty());
    assert!(!c.transparent_bg);
}

#[test]
fn settings_are_read() {
    let c = Config::load(&entries(&[
        ("max_length", "40"),
        ("overflow_str", "…"),
        ("pipe_name", "hints"),
        ("hide_in_base_mode", "TRUE"),
        ("modifier_style", "symbol"),
        ("hint_format", "{key}:{action}"),
        ("separator", " | "),
        ("max_keys", "+2"),
        ("transparent_bg", "True"),
    ]));
    assert!(c.transparent_bg);
    assert_eq!(c.colour_settings.get("pipe_name"), Some("hints".to_string()));
    assert_eq!(c.max_length, 40);
    assert_eq!(c.overflow_str, "…");
    assert_eq!(c.pipe_name, "hints");
    assert!(c.hide_in_base_mode);
    assert_eq!(c.modifier_style, ModifierStyle::Symbol);
    assert_eq!(c.hint_format, "{key}:{action}");
    assert_eq!(c.separator, " | ");
    assert_eq!(c.max_keys, 2);
}

#[test]
fn unreadable_settings_fall_back() {
    let c = Config::load(&entries(&[
        ("max_length", "-3"),
        ("max_keys", "many"),
        ("hide_in_base_mode", "yes"),
        ("modifier_style", "tiny"),
    ]));
    assert_eq!(c.max_length, 0);
    assert_eq!(c.max_keys, 0);
    assert!(!c.hide_in_base_mode);
    assert_eq!(c.modifier_style, ModifierStyle::Long);
}

#[test]
fn label_aliases_read_underscores_as_spaces() {
    let c = Config::load(&entries(&[
        ("alias_split_right", "S→"),
        ("alias_select", "sel"),
        ("key_alias_Enter", "⏎"),
        ("other", "x"),
    ]));
    assert_eq!(c.action_aliases.get("split right"), Some("S→".to_string()));
    assert_eq!(c.action_aliases.get("select"), Some("sel".to_string()));
    assert_eq!(c.action_aliases.get("split_right"), None);
    assert_eq!(c.key_aliases.get("enter"), Some("⏎".to_string()));
    assert_eq!(c.key_aliases.get("Enter"), None);
}

#[test]
fn later_key_alias_wins() {
    let c = Config::load(&entries(&[("key_alias_ENTER", "a"), ("key_alias_enter", "b")]));
    assert_eq!(c.key_aliases.get("enter"), Some("b".to_string()));
}

#[test]
fn status_of_normal_mode() {
    let c = Config::load(&entries(&[]));
    let s = compose_status(&c, InputMode::Normal, Some(InputMode::Normal), &normal_keymap());
    assert_eq!(s, " Ctrl + p paneCtrl + q quit");
    let c = Config::load(&entries(&[("hint_format", "#[bold]{key}#[] {action}"), ("separator", "  ")]));
    let s = compose_status(&c, InputMode::Normal, None, &normal_keymap());
    assert_eq!(s, " \x1b[1mCtrl + p\x1b[0m pane  \x1b[1mCtrl + q\x1b[0m quit");
}

#[test]
fn key_colour_from_settings() {
    let c = Config::load(&entries(&[("key_fg", "#ffffff")]));
    let s = compose_status(&c, InputMode::Normal, None, &normal_keymap());
    assert_eq!(
        s,
        " \x1b[38;2;255;255;255mCtrl + p\x1b[0m pane\x1b[38;2;255;255;255mCtrl + q\x1b[0m quit"
    );
}

#[test]
fn status_with_colours() {
    let c = Config::load(&entries(&[
        ("hint_format", "#[fg=#ff0000]{key}#[fg=2,bold]{action}"),
        ("separator", "  "),
    ]));
    let s = compose_status(&c, InputMode::Normal, None, &normal_keymap());
    assert_eq!(
        s,
        " \x1b[38;2;255;0;0mCtrl + p\x1b[1;38;5;2mpane\x1b[0m  \x1b[38;2;255;0;0mCtrl + q\x1b[1;38;5;2mquit\x1b[0m"
    );
}

#[test]
fn hidden_in_base_mode() {
    let c = Config::load(&entries(&[("hide_in_base_mode", "true")]));
    assert_eq!(compose_status(&c, InputMode::Normal, Some(InputMode::Normal), &normal_keymap()), "");
    assert_ne!(compose_status(&c, InputMode::Normal, Some(InputMode::Locked), &normal_keymap()), "");
    assert_ne!(compose_status(&c, InputMode::Normal, None, &normal_keymap()), "");
}

#[test]
fn status_is_cut_to_max_length() {
    let c = Config::load(&entries(&[("max_length", "12")]));
    let s = compose_status(&c, InputMode::Normal, None, &normal_keymap());
    assert_eq!(s, " Ctrl + p...");
    assert!(zjstatus_hints::ansi::calculate_visible_length(&s) <= 12);
    let c = Config::load(&entries(&[("max_length", "2"), ("overflow_str", "…")]));
    assert_eq!(compose_status(&c, InputMode::Normal, None, &normal_keymap()), "…");
    let c = Config::load(&entries(&[("max_length", "100")]));
    let s = compose_status(&c, InputMode::Normal, None, &normal_keymap());
    assert_eq!(s, " Ctrl + p paneCtrl + q quit");
    let c = Config::load(&entries(&[("max_length", "2")]));
    assert_eq!(compose_status(&c, InputMode::Normal, None, &normal_keymap()), "..");
}

#[test]
fn status_without_bound_keys_is_a_space() {
    let c = Config::load(&entries(&[]));
    assert_eq!(compose_status(&c, InputMode::Normal, None, &vec![]), " ");
}

#[test]
fn bad_template_colour_is_ignored() {
    let c = Config::load(&entries(&[("hint_format", "#[fg=#aébcd]{key}")]));
    assert_eq!(compose_status(&c, InputMode::Normal, None, &normal_keymap()), " Ctrl + pCtrl + q");
}

#[test]
fn finishing_the_status_text() {
    assert_eq!(finish_status("abc", 0, "..."), " abc");
    assert_eq!(finish_status("abc", 4, "..."), " abc");
    assert_eq!(finish_status("abcdef", 5, "..."), " a...");
    assert_eq!(finish_status("\x1b[1mabcdef\x1b[0m", 5, "..."), " \x1b[1ma\x1b[0m...");
    assert_eq!(finish_status("", 3, "..."), " ");
}

#[test]
fn loading_resets_and_updates_decide_rendering() {
    let mut s = PluginState::load(&entries(&[]));
    assert!(!s.initialized);
    let d = s.update(HostUpdate::Mode(ModeInfo::default()));
    assert!(d.should_render && !d.set_unselectable);
    s.rendered("");
    assert!(!s.initialized);
    s.rendered(" x");
    assert!(s.initialized);
    let d = s.update(HostUpdate::Mode(ModeInfo::default()));
    assert!(!d.should_render);
    let mut pane = ModeInfo::default();
    pane.mode = HostMode::Pane;
    let d = s.update(HostUpdate::Mode(pane.clone()));
    assert!(d.should_render);
    assert_eq!(s.mode_info, pane);
    let d = s.update(HostUpdate::Mode(pane));
    assert!(!d.should_render);
    let d = s.update(HostUpdate::PermissionResolved);
    assert!(!d.should_render && d.set_unselectable);
    let d = s.update(HostUpdate::Other);
    assert!(!d.should_render && !d.set_unselectable);
}

#[test]
fn update_decisions() {
    let d = decide_update(false, HostEvent::Other);
    assert!(d.should_render && !d.set_unselectable);
    let d = decide_update(true, HostEvent::Other);
    assert!(!d.should_render && !d.set_unselectable);
    let d = decide_update(true, HostEvent::ModeChanged);
    assert!(d.should_render && !d.set_unselectable);
    let d = decide_update(true, HostEvent::ModeUnchanged);
    assert!(!d.should_render && !d.set_unselectable);
    let d = decide_update(true, HostEvent::PermissionResolved);
    assert!(!d.should_render && d.set_unselectable);
    let d = decide_update(false, HostEvent::PermissionResolved);
    assert!(d.should_render && d.set_unselectable);
}

#[test]
fn pipe_message() {
    assert_eq!(pipe_payload("zjstatus_hints", " x"), "zjstatus::pipe::pipe_zjstatus_hints:: x");
    assert_eq!(pipe_payload("p", ""), "zjstatus::pipe::pipe_p::");
}

#[test]
fn initialized_once_something_was_shown() {
    assert!(!initialized_after(false, ""));
    assert!(initialized_after(false, " x"));
    assert!(initialized_after(true, ""));
}
