use zjstatus_hints::actions::{
    find_keys_for_action_groups, find_keys_for_actions, get_select_key, plugin_key, Action,
    Direction, InputMode,
};
use zjstatus_hints::keys::{bare_key_name, BareKey, Key, Modifiers};

fn ch(c: char) -> Key {
    Key { bare: BareKey::Char(c), modifiers: Modifiers::none() }
}

fn ctrl(c: char) -> Key {
    Key {
        bare: BareKey::Char(c),
        modifiers: Modifiers { ctrl: true, alt: false, shift: false, super_key: false },
    }
}

fn enter() -> Key {
    Key { bare: BareKey::Enter, modifiers: Modifiers::none() }
}

fn to_normal() -> Action {
    Action::SwitchToMode { input_mode: InputMode::Normal }
}

fn names(keys: &[Key]) -> Vec<String> {
    keys.iter().map(|k| bare_key_name(k.bare)).collect()
}

#[test]
fn exact_match_needs_every_action() {
    let keymap = vec![
        (ch('x'), vec![Action::CloseFocus, to_normal()]),
        (ch('y'), vec![Action::CloseFocus]),
        (ch('z'), vec![Action::CloseFocus, to_normal(), Action::Quit]),
        (ch('w'), vec![Action::CloseFocus, to_normal()]),
    ];
    let found = find_keys_for_actions(&keymap, &vec![Action::CloseFocus, to_normal()], true);
    assert_eq!(names(&found), vec!["x", "w"]);
}

#[test]
fn loose_match_compares_first_actions() {
    let keymap = vec![
        (ch('r'), vec![Action::SwitchToMode { input_mode: InputMode::RenamePane }, Action::Other]),
        (ch('s'), vec![Action::SwitchToMode { input_mode: InputMode::RenameTab }]),
        (ch('t'), vec![]),
    ];
    let targets = vec![
        Action::SwitchToMode { input_mode: InputMode::RenamePane },
        Action::PaneNameInput { input: vec![0] },
    ];
    assert_eq!(names(&find_keys_for_actions(&keymap, &targets, false)), vec!["r"]);
    assert_eq!(names(&find_keys_for_actions(&keymap, &vec![], false)), vec!["t"]);
}

#[test]
fn new_tab_and_plugin_launches_match_shallowly() {
    let keymap = vec![
        (ch('n'), vec![Action::NewTab, to_normal()]),
        (ch('p'), vec![Action::LaunchOrFocusPlugin { location: "a".to_string() }]),
    ];
    assert_eq!(names(&find_keys_for_actions(&keymap, &vec![Action::NewTab, to_normal()], true)), vec!["n"]);
    let launch = vec![Action::LaunchOrFocusPlugin { location: "b".to_string() }];
    assert_eq!(names(&find_keys_for_actions(&keymap, &launch, true)), vec!["p"]);
}

#[test]
fn new_pane_matches_every_field() {
    let keymap = vec![
        (ch('n'), vec![Action::NewPane { direction: None, pane_name: None, start_suppressed: false }]),
        (ch('r'), vec![Action::NewPane { direction: Some(Direction::Right), pane_name: None, start_suppressed: false }]),
    ];
    let right = vec![Action::NewPane { direction: Some(Direction::Right), pane_name: None, start_suppressed: false }];
    assert_eq!(names(&find_keys_for_actions(&keymap, &right, true)), vec!["r"]);
}

#[test]
fn groups_collect_keys_group_by_group() {
    let keymap = vec![
        (ch('k'), vec![Action::ScrollUp]),
        (ch('j'), vec![Action::ScrollDown]),
        (ch('u'), vec![Action::ScrollUp]),
    ];
    let groups = vec![vec![Action::ScrollDown], vec![Action::ScrollUp]];
    assert_eq!(names(&find_keys_for_action_groups(&keymap, &groups)), vec!["j", "k", "u"]);
}

#[test]
fn plugin_key_finds_first_launcher() {
    let keymap = vec![
        (ch('a'), vec![Action::Detach]),
        (ch('w'), vec![Action::LaunchOrFocusPlugin { location: "session-manager".to_string() }, to_normal()]),
        (ch('v'), vec![Action::LaunchPlugin { location: "session-manager".to_string() }]),
    ];
    assert_eq!(plugin_key(&keymap, "session-manager").map(|k| bare_key_name(k.bare)), Some("w".to_string()));
    assert!(plugin_key(&keymap, "configuration").is_none());
}

#[test]
fn select_prefers_plain_enter() {
    let keymap = vec![
        (ctrl('g'), vec![to_normal()]),
        (enter(), vec![to_normal()]),
        (ch('q'), vec![to_normal()]),
    ];
    assert_eq!(names(&get_select_key(&keymap)), vec!["ENTER"]);
}

#[test]
fn select_falls_back_to_first_key() {
    let keymap = vec![(ctrl('g'), vec![to_normal()]), (ch('q'), vec![to_normal()])];
    assert_eq!(names(&get_select_key(&keymap)), vec!["g"]);
    let keymap = vec![(ch('q'), vec![Action::Quit])];
    assert!(get_select_key(&keymap).is_empty());
}

#[test]
fn action_equality() {
    assert!(Action::Quit.equals(&Action::Quit));
    assert!(!Action::Quit.equals(&Action::Detach));
    assert!(!Action::PaneNameInput { input: vec![0] }.equals(&Action::PaneNameInput { input: vec![1] }));
    assert!(Action::NewTab.shallow_eq(&Action::NewTab));
    assert!(Action::LaunchPlugin { location: "a".to_string() }
        .shallow_eq(&Action::LaunchPlugin { location: "b".to_string() }));
    assert!(!Action::LaunchPlugin { location: "a".to_string() }
        .equals(&Action::LaunchPlugin { location: "b".to_string() }));
    assert!(Action::LaunchPlugin { location: "a".to_string() }.launches_plugin("a"));
    assert!(!Action::Quit.launches_plugin("a"));
}
