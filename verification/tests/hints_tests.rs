use zjstatus_hints::actions::{Action, Direction, InputMode, ResizeKind, SearchDirection};
use zjstatus_hints::hints::{add_hint, colour_setting_exec, render_hints_for_mode};
use zjstatus_hints::keys::{Aliases, BareKey, Key, ModifierStyle, Modifiers};
use zjstatus_hints::style::{Colour, Segment, Style};

fn ch(c: char) -> Key {
    Key { bare: BareKey::Char(c), modifiers: Modifiers::none() }
}

fn ctrl(c: char) -> Key {
    Key {
        bare: BareKey::Char(c),
        modifiers: Modifiers { ctrl: true, alt: false, shift: false, super_key: false },
    }
}

fn named(bare: BareKey) -> Key {
    Key { bare, modifiers: Modifiers::none() }
}

fn to_normal() -> Action {
    Action::SwitchToMode { input_mode: InputMode::Normal }
}

fn aliases(pairs: &[(&str, &str)]) -> Aliases {
    let mut a = Aliases::new();
    for (k, v) in pairs {
        a.insert(k.to_string(), v.to_string());
    }
    a
}

fn text(parts: &[Segment]) -> String {
    parts.iter().map(|p| p.text.as_str()).collect::<Vec<&str>>().join("")
}

fn render(mode: InputMode, keymap: &Vec<(Key, Vec<Action>)>, style: ModifierStyle, fmt: &str, sep: &str) -> Vec<Segment> {
    render_hints_for_mode(mode, keymap, style, fmt, sep, 0, &Aliases::new(), &Aliases::new(), &Aliases::new(), false)
}

fn pane_keymap() -> Vec<(Key, Vec<Action>)> {
    vec![
        (ch('n'), vec![Action::NewPane { direction: None, pane_name: None, start_suppressed: false }, to_normal()]),
        (ch('x'), vec![Action::CloseFocus, to_normal()]),
        (ch('f'), vec![Action::ToggleFocusFullscreen, to_normal()]),
        (ch('w'), vec![Action::ToggleFloatingPanes, to_normal()]),
        (ch('e'), vec![Action::TogglePaneEmbedOrFloating, to_normal()]),
        (ch('r'), vec![Action::NewPane { direction: Some(Direction::Right), pane_name: None, start_suppressed: false }, to_normal()]),
        (ch('d'), vec![Action::NewPane { direction: Some(Direction::Down), pane_name: None, start_suppressed: false }, to_normal()]),
        (ch('h'), vec![Action::MoveFocus { direction: Direction::Left }]),
        (named(BareKey::Left), vec![Action::MoveFocus { direction: Direction::Left }]),
        (ch('l'), vec![Action::MoveFocus { direction: Direction::Right }]),
        (named(BareKey::Right), vec![Action::MoveFocus { direction: Direction::Right }]),
        (ch('j'), vec![Action::MoveFocus { direction: Direction::Down }]),
        (ch('k'), vec![Action::MoveFocus { direction: Direction::Up }]),
        (named(BareKey::Enter), vec![to_normal()]),
        (ctrl('p'), vec![to_normal()]),
    ]
}

#[test]
fn normal_mode_with_default_template() {
    let keymap = vec![
        (ctrl('p'), vec![Action::SwitchToMode { input_mode: InputMode::Pane }]),
        (ctrl('q'), vec![Action::Quit]),
    ];
    let parts = render(InputMode::Normal, &keymap, ModifierStyle::Long, "#[bold]{key}#[] {action}", "  ");
    let got: Vec<(Style, String)> = parts.into_iter().map(|p| (p.style, p.text)).collect();
    assert_eq!(
        got,
        vec![
            (Style::new().bold(), "Ctrl + p".to_string()),
            (Style::new(), " pane".to_string()),
            (Style::new(), "  ".to_string()),
            (Style::new().bold(), "Ctrl + q".to_string()),
            (Style::new(), " quit".to_string()),
        ]
    );
}

#[test]
fn compact_template_from_the_readme() {
    let keymap = vec![(ctrl('n'), vec![Action::SwitchToMode { input_mode: InputMode::Pane }])];
    let parts = render(InputMode::Normal, &keymap, ModifierStyle::Symbol, "{key}:{action}", "");
    assert_eq!(text(&parts), "^n:pane");
    let parts = render(InputMode::Normal, &keymap, ModifierStyle::Symbol, "{action}[{key}]", "");
    assert_eq!(text(&parts), "pane[^n]");
}

#[test]
fn compact_recipe_from_the_readme() {
    let action_aliases = aliases(&[
        ("split right", "S→"),
        ("split down", "S↓"),
        ("fullscreen", "full"),
        ("rename", "ren"),
        ("half page", "½pg"),
        ("increase", "inc"),
        ("decrease", "dec"),
        ("select", "sel"),
        ("break pane", "break"),
    ]);
    let key_aliases = aliases(&[("enter", "⏎"), ("space", "␣")]);
    let parts = render_hints_for_mode(
        InputMode::Pane,
        &pane_keymap(),
        ModifierStyle::Symbol,
        " {key} {action} ",
        "·",
        2,
        &action_aliases,
        &key_aliases,
        &Aliases::new(),
        false,
    );
    assert_eq!(
        text(&parts),
        " n new · x close · f full · w float · e embed · r S→ · d S↓ · ←→ move · ⏎ sel "
    );
}

#[test]
fn move_hint_lists_all_focus_keys_without_both_arrows() {
    let keymap = vec![
        (ch('h'), vec![Action::MoveFocus { direction: Direction::Left }]),
        (ch('l'), vec![Action::MoveFocus { direction: Direction::Right }]),
        (ch('j'), vec![Action::MoveFocus { direction: Direction::Down }]),
        (ch('k'), vec![Action::MoveFocus { direction: Direction::Up }]),
    ];
    let parts = render(InputMode::Pane, &keymap, ModifierStyle::Long, "{key} {action}", "");
    assert_eq!(text(&parts), "hjkl move");
}

#[test]
fn max_keys_keeps_the_first_keys() {
    let keymap = vec![
        (ch('j'), vec![Action::ScrollDown]),
        (named(BareKey::Down), vec![Action::ScrollDown]),
        (ch('k'), vec![Action::ScrollUp]),
        (named(BareKey::Up), vec![Action::ScrollUp]),
    ];
    let all = render_hints_for_mode(InputMode::Scroll, &keymap, ModifierStyle::Long, "{key} {action}", "", 0, &Aliases::new(), &Aliases::new(), &Aliases::new(), false);
    assert_eq!(text(&all), "j|↓|k|↑ scroll");
    let two = render_hints_for_mode(InputMode::Scroll, &keymap, ModifierStyle::Long, "{key} {action}", "", 2, &Aliases::new(), &Aliases::new(), &Aliases::new(), false);
    assert_eq!(text(&two), "j|↓ scroll");
}

#[test]
fn other_modes_show_the_way_back() {
    let keymap = vec![(ctrl('g'), vec![to_normal()])];
    let parts = render(InputMode::Locked, &keymap, ModifierStyle::Long, "{key} {action}", "");
    assert_eq!(text(&parts), "Ctrl + g normal");
    assert_eq!(text(&render(InputMode::Locked, &vec![], ModifierStyle::Long, "{key} {action}", "")), "");
}

#[test]
fn tab_mode_hints() {
    let keymap = vec![
        (ch('n'), vec![Action::NewTab, to_normal()]),
        (ch('x'), vec![Action::CloseTab, to_normal()]),
        (ch('b'), vec![Action::BreakPane, to_normal()]),
        (ch('s'), vec![Action::ToggleActiveSyncTab, to_normal()]),
        (named(BareKey::Left), vec![Action::GoToPreviousTab]),
        (named(BareKey::Right), vec![Action::GoToNextTab]),
        (ch('h'), vec![Action::GoToPreviousTab]),
        (ch('r'), vec![Action::SwitchToMode { input_mode: InputMode::RenameTab }, Action::TabNameInput { input: vec![0] }]),
        (named(BareKey::Enter), vec![to_normal()]),
    ];
    let parts = render(InputMode::Tab, &keymap, ModifierStyle::Long, "{key} {action}", ", ");
    assert_eq!(text(&parts), "n new, x close, b break pane, s sync, ←→ move, r rename, ENTER select");
}

#[test]
fn resize_and_move_mode_hints() {
    let keymap = vec![
        (ch('+'), vec![Action::Resize { resize: ResizeKind::Increase, direction: None }]),
        (ch('-'), vec![Action::Resize { resize: ResizeKind::Decrease, direction: None }]),
        (ch('H'), vec![Action::Resize { resize: ResizeKind::Increase, direction: Some(Direction::Left) }]),
        (ch('J'), vec![Action::Resize { resize: ResizeKind::Increase, direction: Some(Direction::Down) }]),
        (ch('K'), vec![Action::Resize { resize: ResizeKind::Increase, direction: Some(Direction::Up) }]),
        (ch('L'), vec![Action::Resize { resize: ResizeKind::Increase, direction: Some(Direction::Right) }]),
        (ch('h'), vec![Action::Resize { resize: ResizeKind::Decrease, direction: Some(Direction::Left) }]),
    ];
    let parts = render(InputMode::Resize, &keymap, ModifierStyle::Long, "{key} {action}", " ");
    assert_eq!(text(&parts), "+|- resize HJKL increase h decrease");
    let keymap = vec![
        (ch('h'), vec![Action::MovePane { direction: Some(Direction::Left) }]),
        (ch('n'), vec![Action::MovePane { direction: None }]),
    ];
    assert_eq!(text(&render(InputMode::Move, &keymap, ModifierStyle::Long, "{key} {action}", " ")), "h move");
}

#[test]
fn search_and_scroll_mode_hints() {
    let keymap = vec![
        (ch('s'), vec![Action::SwitchToMode { input_mode: InputMode::EnterSearch }, Action::SearchInput { input: vec![0] }]),
        (ch('n'), vec![Action::Search { direction: SearchDirection::Down }]),
        (ch('p'), vec![Action::Search { direction: SearchDirection::Up }]),
        (ch('e'), vec![Action::EditScrollback { ansi: false }, to_normal()]),
        (ch('d'), vec![Action::HalfPageScrollDown]),
        (ch('u'), vec![Action::HalfPageScrollUp]),
    ];
    let search = render(InputMode::Search, &keymap, ModifierStyle::Long, "{key} {action}", " ");
    assert_eq!(text(&search), "s search d|u half page n down p up");
    let scroll = render(InputMode::Scroll, &keymap, ModifierStyle::Long, "{key} {action}", " ");
    assert_eq!(text(&scroll), "s search d|u half page e edit");
}

#[test]
fn session_mode_hints() {
    let keymap = vec![
        (ch('d'), vec![Action::Detach]),
        (ch('w'), vec![Action::LaunchOrFocusPlugin { location: "session-manager".to_string() }, to_normal()]),
        (ch('c'), vec![Action::LaunchOrFocusPlugin { location: "configuration".to_string() }]),
        (ch('p'), vec![Action::LaunchOrFocusPlugin { location: "plugin-manager".to_string() }]),
        (ch('a'), vec![Action::LaunchOrFocusPlugin { location: "zellij:about".to_string() }]),
        (ctrl('o'), vec![to_normal()]),
    ];
    let parts = render(InputMode::Session, &keymap, ModifierStyle::Long, "{key} {action}", " ");
    assert_eq!(text(&parts), "d detach w manager c config p plugins a about Ctrl + o select");
}

#[test]
fn add_hint_without_keys_adds_nothing() {
    let mut parts: Vec<Segment> = Vec::new();
    add_hint(&mut parts, &vec![], "new", ModifierStyle::Long, "{key} {action}", " | ", 0, &Aliases::new(), &Aliases::new(), InputMode::Pane, &Aliases::new(), false);
    assert!(parts.is_empty());
}

#[test]
fn add_hint_separates_and_renames() {
    let mut parts: Vec<Segment> = Vec::new();
    let a = aliases(&[("fullscreen", "full")]);
    add_hint(&mut parts, &vec![ch('f')], "fullscreen", ModifierStyle::Long, "{key} {action}", " | ", 0, &a, &Aliases::new(), InputMode::Pane, &Aliases::new(), false);
    add_hint(&mut parts, &vec![ch('x')], "close", ModifierStyle::Long, "{key} {action}", " | ", 0, &a, &Aliases::new(), InputMode::Pane, &Aliases::new(), false);
    assert_eq!(text(&parts), "f full | x close");
    assert_eq!(parts[1].style, Style::new());
    assert_eq!(parts[1].text, " | ");
}

#[test]
fn colour_lookup_order() {
    let settings = aliases(&[
        ("key_fg", "#ffffff"),
        ("quit_key_fg", "red"),
        ("normal.quit_key_fg", "2"),
        ("split_right_key_bg", "#0066ff"),
        ("label_bg", "nope"),
    ]);
    assert_eq!(colour_setting_exec(&settings, InputMode::Normal, "quit", "key_fg"), Some(Colour::Fixed(2)));
    assert_eq!(colour_setting_exec(&settings, InputMode::Pane, "quit", "key_fg"), Some(Colour::Fixed(1)));
    assert_eq!(colour_setting_exec(&settings, InputMode::Locked, "quit", "key_fg"), Some(Colour::Fixed(1)));
    assert_eq!(colour_setting_exec(&settings, InputMode::Normal, "pane", "key_fg"), Some(Colour::Rgb(255, 255, 255)));
    assert_eq!(colour_setting_exec(&settings, InputMode::Pane, "split right", "key_bg"), Some(Colour::Rgb(0, 0x66, 0xff)));
    assert_eq!(colour_setting_exec(&settings, InputMode::Pane, "new", "key_bg"), None);
    assert_eq!(colour_setting_exec(&settings, InputMode::Pane, "new", "label_bg"), None);
}

#[test]
fn key_and_label_take_their_colours() {
    let keymap = vec![(ctrl('p'), vec![Action::SwitchToMode { input_mode: InputMode::Pane }])];
    let settings = aliases(&[("key_fg", "#ffffff"), ("pane_label_fg", "red")]);
    let parts = render_hints_for_mode(InputMode::Normal, &keymap, ModifierStyle::Long, "{key} {action}", "", 0, &Aliases::new(), &Aliases::new(), &settings, false);
    let got: Vec<(Style, String)> = parts.into_iter().map(|p| (p.style, p.text)).collect();
    assert_eq!(
        got,
        vec![
            (Style::new().fg(Colour::Rgb(255, 255, 255)), "Ctrl + p".to_string()),
            (Style::new(), " ".to_string()),
            (Style::new().fg(Colour::Fixed(1)), "pane".to_string()),
        ]
    );
}

#[test]
fn transparent_background_drops_key_and_label_backgrounds() {
    let keymap = vec![(ctrl('p'), vec![Action::SwitchToMode { input_mode: InputMode::Pane }])];
    let settings = aliases(&[("key_bg", "blue")]);
    let with_bg = render_hints_for_mode(InputMode::Normal, &keymap, ModifierStyle::Long, "#[bg=2]{key}", "", 0, &Aliases::new(), &Aliases::new(), &settings, false);
    assert_eq!(with_bg[0].style, Style::new().on(Colour::Fixed(4)));
    let clear = render_hints_for_mode(InputMode::Normal, &keymap, ModifierStyle::Long, "#[bg=2]{key}", "", 0, &Aliases::new(), &Aliases::new(), &settings, true);
    assert_eq!(clear[0].style, Style::new());
    assert_eq!(clear[0].text, "Ctrl + p");
}
