use zjstatus_hints::keys::{
    bare_key_display, bare_key_name, format_key_display, format_key_plain, format_modifier_string,
    get_common_modifiers, get_key_separator, modifier_name, modifier_separator, Aliases, BareKey,
    Key, KeyModifier, ModifierStyle, Modifiers,
};

fn mods(ctrl: bool, alt: bool, shift: bool) -> Modifiers {
    Modifiers { ctrl, alt, shift, super_key: false }
}

fn ch(c: char, m: Modifiers) -> Key {
    Key { bare: BareKey::Char(c), modifiers: m }
}

fn named(bare: BareKey) -> Key {
    Key { bare, modifiers: Modifiers::none() }
}

fn aliases(pairs: &[(&str, &str)]) -> Aliases {
    let mut a = Aliases::new();
    for (k, v) in pairs {
        a.insert(k.to_string(), v.to_string());
    }
    a
}

#[test]
fn long_style_writes_ctrl_plus() {
    let keys = vec![ch('n', mods(true, false, false))];
    assert_eq!(format_key_plain(&keys, ModifierStyle::Long, &Aliases::new()), "Ctrl + n");
    let keys = vec![ch('h', mods(false, true, false))];
    assert_eq!(format_key_plain(&keys, ModifierStyle::Long, &Aliases::new()), "Alt + h");
}

#[test]
fn short_style_writes_letter_and_dash() {
    let keys = vec![ch('n', mods(true, false, false))];
    assert_eq!(format_key_plain(&keys, ModifierStyle::Short, &Aliases::new()), "C-n");
    let keys = vec![ch('h', mods(false, true, false))];
    assert_eq!(format_key_plain(&keys, ModifierStyle::Short, &Aliases::new()), "A-h");
}

#[test]
fn symbol_style_writes_caret_and_meta() {
    let keys = vec![ch('n', mods(true, false, false))];
    assert_eq!(format_key_plain(&keys, ModifierStyle::Symbol, &Aliases::new()), "^n");
    let keys = vec![ch('h', mods(false, true, false))];
    assert_eq!(format_key_plain(&keys, ModifierStyle::Symbol, &Aliases::new()), "M-h");
}

#[test]
fn no_keys_give_empty_text() {
    assert_eq!(format_key_plain(&vec![], ModifierStyle::Long, &Aliases::new()), "");
}

#[test]
fn shared_modifiers_are_written_once() {
    let keys = vec![ch('a', mods(true, false, false)), ch('b', mods(true, false, false))];
    assert_eq!(format_key_plain(&keys, ModifierStyle::Long, &Aliases::new()), "Ctrl + a|b");
    assert_eq!(format_key_plain(&keys, ModifierStyle::Short, &Aliases::new()), "C-a|b");
    assert_eq!(format_key_plain(&keys, ModifierStyle::Symbol, &Aliases::new()), "^a|b");
}

#[test]
fn modifiers_not_shared_stay_with_their_key() {
    let keys = vec![ch('a', mods(true, false, false)), ch('b', mods(true, false, true))];
    assert_eq!(format_key_plain(&keys, ModifierStyle::Long, &Aliases::new()), "Ctrl + a|Shift b");
    let keys = vec![ch('a', mods(true, false, false)), ch('b', mods(false, true, false))];
    assert_eq!(format_key_plain(&keys, ModifierStyle::Symbol, &Aliases::new()), "Ctrl a|Alt b");
}

#[test]
fn several_shared_modifiers_join_with_dash() {
    let keys = vec![ch('x', mods(true, true, false))];
    assert_eq!(format_key_plain(&keys, ModifierStyle::Long, &Aliases::new()), "Ctrl-Alt + x");
    assert_eq!(format_key_plain(&keys, ModifierStyle::Short, &Aliases::new()), "C-A-x");
    assert_eq!(format_key_plain(&keys, ModifierStyle::Symbol, &Aliases::new()), "^-M-x");
}

#[test]
fn word_like_key_groups_have_no_separator() {
    let hjkl = vec![
        ch('h', Modifiers::none()),
        ch('j', Modifiers::none()),
        ch('k', Modifiers::none()),
        ch('l', Modifiers::none()),
    ];
    assert_eq!(format_key_plain(&hjkl, ModifierStyle::Long, &Aliases::new()), "hjkl");
    let arrows = vec![
        named(BareKey::Left),
        named(BareKey::Down),
        named(BareKey::Up),
        named(BareKey::Right),
    ];
    assert_eq!(format_key_plain(&arrows, ModifierStyle::Long, &Aliases::new()), "←↓↑→");
    let lr = vec![named(BareKey::Left), named(BareKey::Right)];
    assert_eq!(format_key_plain(&lr, ModifierStyle::Long, &Aliases::new()), "←→");
    let other = vec![ch('h', Modifiers::none()), ch('x', Modifiers::none())];
    assert_eq!(format_key_plain(&other, ModifierStyle::Long, &Aliases::new()), "h|x");
}

#[test]
fn key_separator_cases() {
    let v = |xs: &[&str]| xs.iter().map(|s| s.to_string()).collect::<Vec<String>>();
    assert_eq!(get_key_separator(&v(&["H", "J", "K", "L"])), "");
    assert_eq!(get_key_separator(&v(&["↓", "↑"])), "");
    assert_eq!(get_key_separator(&v(&["[", "]"])), "");
    assert_eq!(get_key_separator(&v(&["a", "b"])), "|");
    assert_eq!(get_key_separator(&v(&[])), "|");
}

#[test]
fn common_modifiers_of_a_group() {
    assert_eq!(get_common_modifiers(&vec![]), vec![]);
    let keys = vec![ch('a', mods(true, true, false)), ch('b', mods(true, false, true))];
    assert_eq!(get_common_modifiers(&keys), vec![KeyModifier::Ctrl]);
    let keys = vec![ch('a', mods(true, true, true))];
    assert_eq!(
        get_common_modifiers(&keys),
        vec![KeyModifier::Ctrl, KeyModifier::Alt, KeyModifier::Shift]
    );
}

#[test]
fn modifier_names_in_each_style() {
    assert_eq!(modifier_name(&KeyModifier::Ctrl, ModifierStyle::Long), "Ctrl");
    assert_eq!(modifier_name(&KeyModifier::Super, ModifierStyle::Short), "Super");
    assert_eq!(modifier_name(&KeyModifier::Shift, ModifierStyle::Short), "S");
    assert_eq!(modifier_name(&KeyModifier::Shift, ModifierStyle::Symbol), "S-");
    assert_eq!(modifier_name(&KeyModifier::Super, ModifierStyle::Symbol), "Super");
    assert_eq!(
        format_modifier_string(&vec![KeyModifier::Ctrl, KeyModifier::Alt], ModifierStyle::Short),
        "C-A"
    );
    assert_eq!(format_modifier_string(&vec![], ModifierStyle::Long), "");
    assert_eq!(modifier_separator(ModifierStyle::Long), " + ");
    assert_eq!(modifier_separator(ModifierStyle::Short), "-");
    assert_eq!(modifier_separator(ModifierStyle::Symbol), "");
}

#[test]
fn modifier_style_names() {
    assert_eq!(ModifierStyle::from_str("short"), ModifierStyle::Short);
    assert_eq!(ModifierStyle::from_str("symbol"), ModifierStyle::Symbol);
    assert_eq!(ModifierStyle::from_str("long"), ModifierStyle::Long);
    assert_eq!(ModifierStyle::from_str("SHORT"), ModifierStyle::Long);
    assert_eq!(ModifierStyle::from_str(""), ModifierStyle::Long);
}

#[test]
fn key_alias_replaces_bare_key_by_lowercased_name() {
    let a = aliases(&[("enter", "⏎"), ("space", "␣")]);
    assert_eq!(bare_key_display(&named(BareKey::Enter), &a), "⏎");
    assert_eq!(bare_key_display(&ch(' ', Modifiers::none()), &a), "␣");
    assert_eq!(bare_key_display(&ch('x', Modifiers::none()), &a), "x");
    assert_eq!(bare_key_display(&named(BareKey::Esc), &a), "ESC");
    let keys = vec![named(BareKey::Enter)];
    assert_eq!(format_key_plain(&keys, ModifierStyle::Symbol, &a), "⏎");
}

#[test]
fn later_alias_replaces_earlier() {
    let a = aliases(&[("enter", "1"), ("enter", "2")]);
    assert_eq!(a.get("enter"), Some("2".to_string()));
    assert_eq!(a.get("tab"), None);
}

#[test]
fn key_display_keeps_unique_modifiers() {
    let keys = vec![ch('a', mods(true, false, false)), ch('b', mods(true, true, false))];
    let common = vec![KeyModifier::Ctrl];
    assert_eq!(format_key_display(&keys, &common, &Aliases::new()), vec!["a", "Alt b"]);
    let none: Vec<KeyModifier> = vec![];
    assert_eq!(format_key_display(&keys, &none, &Aliases::new()), vec!["Ctrl a", "Ctrl Alt b"]);
}

#[test]
fn plain_key_check() {
    let enter = named(BareKey::Enter);
    assert!(enter.is_plain_key(BareKey::Enter));
    let ctrl_enter = Key { bare: BareKey::Enter, modifiers: mods(true, false, false) };
    assert!(!ctrl_enter.is_plain_key(BareKey::Enter));
    assert!(!enter.is_plain_key(BareKey::Esc));
    assert!(Modifiers::none().contains(KeyModifier::Ctrl) == false);
    assert!(mods(false, true, false).contains(KeyModifier::Alt));
}

#[test]
fn bare_key_names_as_the_host_shows_them() {
    assert_eq!(bare_key_name(BareKey::Char('x')), "x");
    assert_eq!(bare_key_name(BareKey::Char(' ')), "SPACE");
    assert_eq!(bare_key_name(BareKey::F(5)), "F5");
    assert_eq!(bare_key_name(BareKey::F(12)), "F12");
    assert_eq!(bare_key_name(BareKey::F(255)), "F255");
    assert_eq!(bare_key_name(BareKey::PageDown), "PgDn");
    assert_eq!(bare_key_name(BareKey::Left), "←");
    assert_eq!(bare_key_name(BareKey::Enter), "ENTER");
    assert_eq!(bare_key_name(BareKey::CapsLock), "CAPSlOCK");
}
