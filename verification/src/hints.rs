//! Assembling the hints of a mode: which keys are shown under which label,
//! and how each hint is painted with the user's template, separator and aliases.
use vstd::prelude::*;
use crate::actions::{
    Action, ActionView, Direction, InputMode, ResizeKind, SearchDirection, action_seq,
    find_keys_for_action_groups, find_keys_for_actions, find_plain, first_plain, get_select_key,
    group_views, keys_for, keys_for_groups, plugin_key, plugin_key_of, select_keys,
    actions_match, shallow_same,
};
use crate::keys::{format_key_plain, key_plain, lookup_last, Aliases, BareKey, Key, ModifierStyle};
use crate::style::{
    colour_of, parse_color_token, plain_style, render_hint_format_inline, segment_views,
    template_segments, Colour, HintPaint, Overlay, Segment, Style,
};
use crate::text::{chars_of, extend, replace, replace_exec, string_of};

verus! {

// ---------------------------------------------------------------------------
// One hint
// ---------------------------------------------------------------------------
/// The keys shown for an action: the first `max_keys` of them when `max_keys`
/// is positive, else all.
pub open spec fn shown_keys(keys: Seq<Key>, max_keys: nat) -> Seq<Key> {
    if max_keys > 0 && keys.len() > max_keys {
        keys.subrange(0, max_keys as int)
    } else {
        keys
    }
}

/// The label shown: its alias when one is set, else the label itself.
pub open spec fn display_label(label: Seq<char>, aliases: Seq<(Seq<char>, Seq<char>)>) -> Seq<char> {
    match lookup_last(aliases, label) {
        Some(a) => a,
        None => label,
    }
}

/// The settings that shape every hint.
pub struct HintSettings {
    pub modifier_style: ModifierStyle,
    pub hint_format: Seq<char>,
    pub separator: Seq<char>,
    pub max_keys: nat,
    pub action_aliases: Seq<(Seq<char>, Seq<char>)>,
    pub key_aliases: Seq<(Seq<char>, Seq<char>)>,
    pub colour_settings: Seq<(Seq<char>, Seq<char>)>,
    pub transparent_bg: bool,
}

// ---------------------------------------------------------------------------
// Colours of keys and labels
// ---------------------------------------------------------------------------
/// The name of a mode in colour settings, for the modes with hints of their own.
pub open spec fn mode_name(m: InputMode) -> Option<Seq<char>> {
    match m {
        InputMode::Normal => Some("normal"@),
        InputMode::Pane => Some("pane"@),
        InputMode::Tab => Some("tab"@),
        InputMode::Resize => Some("resize"@),
        InputMode::Move => Some("move"@),
        InputMode::Scroll => Some("scroll"@),
        InputMode::Search => Some("search"@),
        InputMode::Session => Some("session"@),
        _ => None,
    }
}

/// A label as setting names write it: each space as `_`.
pub open spec fn setting_label(label: Seq<char>) -> Seq<char> {
    replace(label, " "@, "_"@)
}

/// The colour a hint's `field` (`key_fg`, `key_bg`, `label_fg` or `label_bg`)
/// takes: the first of `<mode>.<label>_<field>`, `<label>_<field>` and `<field>`
/// that is set decides, by the colour its value names (none when it names none);
/// when none is set, the field takes no colour of its own.
pub open spec fn colour_setting(
    settings: Seq<(Seq<char>, Seq<char>)>,
    mode: InputMode,
    label: Seq<char>,
    field: Seq<char>,
) -> Option<Colour> {
    let suffix = setting_label(label) + "_"@ + field;
    let specific = match mode_name(mode) {
        Some(m) => lookup_last(settings, m + "."@ + suffix),
        None => None,
    };
    let chosen = match specific {
        Some(v) => Some(v),
        None => match lookup_last(settings, suffix) {
            Some(v) => Some(v),
            None => lookup_last(settings, field),
        },
    };
    match chosen {
        Some(v) => colour_of(v),
        None => None,
    }
}

/// The colours laid over a hint's key and label; `transparent_bg` takes every
/// background of both away.
pub open spec fn hint_paint(
    settings: Seq<(Seq<char>, Seq<char>)>,
    transparent_bg: bool,
    mode: InputMode,
    label: Seq<char>,
) -> HintPaint {
    HintPaint {
        key: Overlay {
            fg: colour_setting(settings, mode, label, "key_fg"@),
            bg: colour_setting(settings, mode, label, "key_bg"@),
            clear_bg: transparent_bg,
        },
        label: Overlay {
            fg: colour_setting(settings, mode, label, "label_fg"@),
            bg: colour_setting(settings, mode, label, "label_bg"@),
            clear_bg: transparent_bg,
        },
    }
}

fn mode_name_exec(m: InputMode) -> (r: Option<&'static str>)
    ensures
        r matches Some(n) ==> mode_name(m) == Some(n@),
        r is None ==> mode_name(m) is None,
{
    match m {
        InputMode::Normal => Some("normal"),
        InputMode::Pane => Some("pane"),
        InputMode::Tab => Some("tab"),
        InputMode::Resize => Some("resize"),
        InputMode::Move => Some("move"),
        InputMode::Scroll => Some("scroll"),
        InputMode::Search => Some("search"),
        InputMode::Session => Some("session"),
        _ => None,
    }
}

/// The colour a hint's `field` takes (see `colour_setting`).
pub fn colour_setting_exec(settings: &Aliases, mode: InputMode, label: &str, field: &str) -> (r:
    Option<Colour>)
    ensures
        r == colour_setting(settings@, mode, label@, field@),
{
    let space = chars_of(" ");
    proof {
        reveal_strlit(" ");
    }
    let mut suffix = replace_exec(&chars_of(label), &space, &chars_of("_"));
    extend(&mut suffix, &chars_of("_"));
    extend(&mut suffix, &chars_of(field));
    let specific = match mode_name_exec(mode) {
        Some(m) => {
            let mut n = chars_of(m);
            extend(&mut n, &chars_of("."));
            extend(&mut n, &suffix);
            let name = string_of(&n);
            settings.get(name.as_str())
        },
        None => None,
    };
    let chosen = match specific {
        Some(v) => Some(v),
        None => {
            let name = string_of(&suffix);
            match settings.get(name.as_str()) {
                Some(v) => Some(v),
                None => settings.get(field),
            }
        },
    };
    match chosen {
        Some(v) => parse_color_token(v.as_str()),
        None => None,
    }
}

/// The colours laid over a hint's key and label (see `hint_paint`).
pub fn hint_paint_exec(settings: &Aliases, transparent_bg: bool, mode: InputMode, label: &str) -> (p:
    HintPaint)
    ensures
        p == hint_paint(settings@, transparent_bg, mode, label@),
{
    HintPaint {
        key: Overlay {
            fg: colour_setting_exec(settings, mode, label, "key_fg"),
            bg: colour_setting_exec(settings, mode, label, "key_bg"),
            clear_bg: transparent_bg,
        },
        label: Overlay {
            fg: colour_setting_exec(settings, mode, label, "label_fg"),
            bg: colour_setting_exec(settings, mode, label, "label_bg"),
            clear_bg: transparent_bg,
        },
    }
}

/// `parts` after the hint for `keys` under `label` in `mode`: nothing for no
/// keys; else the separator (when there is one and something before it), then
/// the template painted with the shown keys and the displayed label, the key and
/// the label in the colours the settings give the label in the mode.
pub open spec fn hint_added(
    parts: Seq<(Style, Seq<char>)>,
    keys: Seq<Key>,
    label: Seq<char>,
    mode: InputMode,
    cfg: HintSettings,
) -> Seq<(Style, Seq<char>)> {
    if keys.len() == 0 {
        parts
    } else {
        let with_sep = if cfg.separator.len() > 0 && parts.len() > 0 {
            parts.push((plain_style(), cfg.separator))
        } else {
            parts
        };
        with_sep + template_segments(
            cfg.hint_format,
            key_plain(shown_keys(keys, cfg.max_keys), cfg.modifier_style, cfg.key_aliases),
            display_label(label, cfg.action_aliases),
            hint_paint(cfg.colour_settings, cfg.transparent_bg, mode, label),
        )
    }
}

pub open spec fn settings(
    modifier_style: ModifierStyle,
    hint_format: &str,
    separator: &str,
    max_keys: usize,
    action_aliases: &Aliases,
    key_aliases: &Aliases,
    colour_settings: &Aliases,
    transparent_bg: bool,
) -> HintSettings {
    HintSettings {
        modifier_style,
        hint_format: hint_format@,
        separator: separator@,
        max_keys: max_keys as nat,
        action_aliases: action_aliases@,
        key_aliases: key_aliases@,
        colour_settings: colour_settings@,
        transparent_bg,
    }
}

fn first_keys(keys: &Vec<Key>, n: usize) -> (r: Vec<Key>)
    requires
        n <= keys.len(),
    ensures
        r@ == keys@.subrange(0, n as int),
{
    let mut r: Vec<Key> = Vec::new();
    let mut i: usize = 0;
    while i < n
        invariant
            n <= keys.len(),
            i <= n,
            r@ == keys@.subrange(0, i as int),
        decreases n - i,
    {
        r.push(keys[i].clone());
        i = i + 1;
        assert(r@ =~= keys@.subrange(0, i as int));
    }
    r
}

/// Appends the hint for `keys` under `description` to `parts`.
pub fn add_hint(
    parts: &mut Vec<Segment>,
    keys: &Vec<Key>,
    description: &str,
    modifier_style: ModifierStyle,
    hint_format: &str,
    separator: &str,
    max_keys: usize,
    action_aliases: &Aliases,
    key_aliases: &Aliases,
    mode: InputMode,
    colour_settings: &Aliases,
    transparent_bg: bool,
)
    ensures
        segment_views(final(parts)@) == hint_added(
            segment_views(old(parts)@),
            keys@,
            description@,
            mode,
            settings(
                modifier_style,
                hint_format,
                separator,
                max_keys,
                action_aliases,
                key_aliases,
                colour_settings,
                transparent_bg,
            ),
        ),
{
    if keys.len() == 0 {
        return;
    }
    let shown = if max_keys > 0 && keys.len() > max_keys {
        first_keys(keys, max_keys)
    } else {
        first_keys(keys, keys.len())
    };
    assert(keys@.subrange(0, keys@.len() as int) =~= keys@);
    let display_label = match action_aliases.get(description) {
        Some(a) => a,
        None => description.to_owned(),
    };
    if !separator.is_empty() && parts.len() > 0 {
        let ghost before = parts@;
        parts.push(Segment { style: Style::new(), text: separator.to_owned() });
        assert(segment_views(parts@) =~= segment_views(before).push((plain_style(), separator@)));
    }
    let key_plain_text = format_key_plain(&shown, modifier_style, key_aliases);
    let paint = hint_paint_exec(colour_settings, transparent_bg, mode, description);
    render_hint_format_inline(
        parts,
        hint_format,
        key_plain_text.as_str(),
        display_label.as_str(),
        paint,
    );
}

// ---------------------------------------------------------------------------
// The hints of each mode
// ---------------------------------------------------------------------------
pub open spec fn switch_to(m: InputMode) -> ActionView {
    ActionView::SwitchToMode { input_mode: m }
}

pub open spec fn to_normal() -> ActionView {
    switch_to(InputMode::Normal)
}

pub open spec fn exact(keymap: Seq<(Key, Vec<Action>)>, targets: Seq<ActionView>) -> Seq<Key> {
    keys_for(keymap, targets, true)
}

/// The plain Left and Right keys when both are among `full`, else `full`.
pub open spec fn left_right_or(full: Seq<Key>) -> Seq<Key> {
    match (first_plain(full, BareKey::Left), first_plain(full, BareKey::Right)) {
        (Some(l), Some(r)) => seq![full[l], full[r]],
        _ => full,
    }
}

pub open spec fn plugin_keys(keymap: Seq<(Key, Vec<Action>)>, location: Seq<char>) -> Seq<Key> {
    match plugin_key_of(keymap, location) {
        Some(k) => seq![k],
        None => seq![],
    }
}

pub open spec fn new_pane(direction: Option<Direction>) -> ActionView {
    ActionView::NewPane { direction, pane_name: None, start_suppressed: false }
}

pub open spec fn focus_groups() -> Seq<Seq<ActionView>> {
    seq![
        seq![ActionView::MoveFocusOrTab { direction: Direction::Left }],
        seq![ActionView::MoveFocusOrTab { direction: Direction::Right }],
        seq![ActionView::MoveFocus { direction: Direction::Left }],
        seq![ActionView::MoveFocus { direction: Direction::Down }],
        seq![ActionView::MoveFocus { direction: Direction::Up }],
        seq![ActionView::MoveFocus { direction: Direction::Right }],
    ]
}

pub open spec fn tab_groups() -> Seq<Seq<ActionView>> {
    seq![seq![ActionView::GoToPreviousTab], seq![ActionView::GoToNextTab]]
}

pub open spec fn resize_groups() -> Seq<Seq<ActionView>> {
    seq![
        seq![ActionView::Resize { resize: ResizeKind::Increase, direction: None }],
        seq![ActionView::Resize { resize: ResizeKind::Decrease, direction: None }],
    ]
}

pub open spec fn move_groups() -> Seq<Seq<ActionView>> {
    seq![
        seq![ActionView::MovePane { direction: Some(Direction::Left) }],
        seq![ActionView::MovePane { direction: Some(Direction::Down) }],
        seq![ActionView::MovePane { direction: Some(Direction::Up) }],
        seq![ActionView::MovePane { direction: Some(Direction::Right) }],
    ]
}

pub open spec fn scroll_groups() -> Seq<Seq<ActionView>> {
    seq![seq![ActionView::ScrollDown], seq![ActionView::ScrollUp]]
}

pub open spec fn page_groups() -> Seq<Seq<ActionView>> {
    seq![seq![ActionView::PageScrollDown], seq![ActionView::PageScrollUp]]
}

pub open spec fn half_page_groups() -> Seq<Seq<ActionView>> {
    seq![seq![ActionView::HalfPageScrollDown], seq![ActionView::HalfPageScrollUp]]
}

pub open spec fn search_targets() -> Seq<ActionView> {
    seq![switch_to(InputMode::EnterSearch), ActionView::SearchInput { input: seq![0u8] }]
}

pub open spec fn resize_dirs(r: ResizeKind) -> Seq<Seq<ActionView>> {
    seq![
        seq![ActionView::Resize { resize: r, direction: Some(Direction::Left) }],
        seq![ActionView::Resize { resize: r, direction: Some(Direction::Down) }],
        seq![ActionView::Resize { resize: r, direction: Some(Direction::Up) }],
        seq![ActionView::Resize { resize: r, direction: Some(Direction::Right) }],
    ]
}

pub open spec fn rename_keys(km: Seq<(Key, Vec<Action>)>, rename_mode: InputMode, name_input: ActionView) -> Seq<Key> {
    keys_for(km, seq![switch_to(rename_mode), name_input], false)
}

pub open spec fn normal_hints(km: Seq<(Key, Vec<Action>)>) -> Seq<(Seq<Key>, Seq<char>)> {
    seq![
            (exact(km, seq![switch_to(InputMode::Pane)]), "pane"@),
            (exact(km, seq![switch_to(InputMode::Tab)]), "tab"@),
            (exact(km, seq![switch_to(InputMode::Resize)]), "resize"@),
            (exact(km, seq![switch_to(InputMode::Move)]), "move"@),
            (exact(km, seq![switch_to(InputMode::Scroll)]), "scroll"@),
            (exact(km, seq![switch_to(InputMode::Search)]), "search"@),
            (exact(km, seq![switch_to(InputMode::Session)]), "session"@),
            (exact(km, seq![ActionView::Quit]), "quit"@),
        ]
}

pub open spec fn pane_hints(km: Seq<(Key, Vec<Action>)>) -> Seq<(Seq<Key>, Seq<char>)> {
    seq![
            (exact(km, seq![new_pane(None), to_normal()]), "new"@),
            (exact(km, seq![ActionView::CloseFocus, to_normal()]), "close"@),
            (exact(km, seq![ActionView::ToggleFocusFullscreen, to_normal()]), "fullscreen"@),
            (exact(km, seq![ActionView::ToggleFloatingPanes, to_normal()]), "float"@),
            (exact(km, seq![ActionView::TogglePaneEmbedOrFloating, to_normal()]), "embed"@),
            (exact(km, seq![new_pane(Some(Direction::Right)), to_normal()]), "split right"@),
            (exact(km, seq![new_pane(Some(Direction::Down)), to_normal()]), "split down"@),
            (
                left_right_or(
                    keys_for_groups(
                        km,
                        focus_groups(),
                    ),
                ),
                "move"@,
            ),
            (
                rename_keys(km, InputMode::RenamePane, ActionView::PaneNameInput { input: seq![0u8] }),
                "rename"@,
            ),
            (select_keys(km), "select"@),
        ]
}

pub open spec fn tab_hints(km: Seq<(Key, Vec<Action>)>) -> Seq<(Seq<Key>, Seq<char>)> {
    seq![
            (
                exact(
                    km,
                    seq![
                        ActionView::NewTab,
                        to_normal(),
                    ],
                ),
                "new"@,
            ),
            (exact(km, seq![ActionView::CloseTab, to_normal()]), "close"@),
            (exact(km, seq![ActionView::BreakPane, to_normal()]), "break pane"@),
            (exact(km, seq![ActionView::ToggleActiveSyncTab, to_normal()]), "sync"@),
            (
                left_right_or(
                    keys_for_groups(
                        km,
                        tab_groups(),
                    ),
                ),
                "move"@,
            ),
            (
                rename_keys(km, InputMode::RenameTab, ActionView::TabNameInput { input: seq![0u8] }),
                "rename"@,
            ),
            (select_keys(km), "select"@),
        ]
}

pub open spec fn resize_hints(km: Seq<(Key, Vec<Action>)>) -> Seq<(Seq<Key>, Seq<char>)> {
    seq![
            (
                keys_for_groups(
                    km,
                    resize_groups(),
                ),
                "resize"@,
            ),
            (keys_for_groups(km, resize_dirs(ResizeKind::Increase)), "increase"@),
            (keys_for_groups(km, resize_dirs(ResizeKind::Decrease)), "decrease"@),
            (select_keys(km), "select"@),
        ]
}

pub open spec fn move_hints(km: Seq<(Key, Vec<Action>)>) -> Seq<(Seq<Key>, Seq<char>)> {
    seq![
            (
                keys_for_groups(
                    km,
                    move_groups(),
                ),
                "move"@,
            ),
            (select_keys(km), "select"@),
        ]
}

pub open spec fn scroll_hints(km: Seq<(Key, Vec<Action>)>) -> Seq<(Seq<Key>, Seq<char>)> {
    seq![
            (exact(km, search_targets()), "search"@),
            (keys_for_groups(km, scroll_groups()), "scroll"@),
            (keys_for_groups(km, page_groups()), "page"@),
            (keys_for_groups(km, half_page_groups()), "half page"@),
            (
                keys_for(km, seq![ActionView::EditScrollback { ansi: false }, to_normal()], false),
                "edit"@,
            ),
            (select_keys(km), "select"@),
        ]
}

pub open spec fn search_hints(km: Seq<(Key, Vec<Action>)>) -> Seq<(Seq<Key>, Seq<char>)> {
    seq![
            (exact(km, search_targets()), "search"@),
            (keys_for_groups(km, scroll_groups()), "scroll"@),
            (keys_for_groups(km, page_groups()), "page"@),
            (keys_for_groups(km, half_page_groups()), "half page"@),
            (exact(km, seq![ActionView::Search { direction: SearchDirection::Down }]), "down"@),
            (exact(km, seq![ActionView::Search { direction: SearchDirection::Up }]), "up"@),
            (select_keys(km), "select"@),
        ]
}

pub open spec fn session_hints(km: Seq<(Key, Vec<Action>)>) -> Seq<(Seq<Key>, Seq<char>)> {
    seq![
            (exact(km, seq![ActionView::Detach]), "detach"@),
            (plugin_keys(km, "session-manager"@), "manager"@),
            (plugin_keys(km, "configuration"@), "config"@),
            (plugin_keys(km, "plugin-manager"@), "plugins"@),
            (plugin_keys(km, "zellij:about"@), "about"@),
            (select_keys(km), "select"@),
        ]
}

/// The keys and label of every hint of a mode, in the order they are shown.
pub open spec fn hint_plan(mode: InputMode, km: Seq<(Key, Vec<Action>)>) -> Seq<
    (Seq<Key>, Seq<char>),
> {
    match mode {
        InputMode::Normal => normal_hints(km),
        InputMode::Pane => pane_hints(km),
        InputMode::Tab => tab_hints(km),
        InputMode::Resize => resize_hints(km),
        InputMode::Move => move_hints(km),
        InputMode::Scroll => scroll_hints(km),
        InputMode::Search => search_hints(km),
        InputMode::Session => session_hints(km),
        _ => seq![(exact(km, seq![to_normal()]), "normal"@)],
    }
}

/// `parts` after every hint of the plan, in order.
pub open spec fn plan_added(
    parts: Seq<(Style, Seq<char>)>,
    plan: Seq<(Seq<Key>, Seq<char>)>,
    mode: InputMode,
    cfg: HintSettings,
) -> Seq<(Style, Seq<char>)>
    decreases plan.len(),
{
    if plan.len() == 0 {
        parts
    } else {
        hint_added(
            plan_added(parts, plan.drop_last(), mode, cfg),
            plan.last().0,
            plan.last().1,
            mode,
            cfg,
        )
    }
}

/// The painted hints of a mode.
pub open spec fn mode_hints(
    mode: InputMode,
    keymap: Seq<(Key, Vec<Action>)>,
    cfg: HintSettings,
) -> Seq<(Style, Seq<char>)> {
    plan_added(seq![], hint_plan(mode, keymap), mode, cfg)
}

pub open spec fn plan_view(p: Seq<(Vec<Key>, &'static str)>) -> Seq<(Seq<Key>, Seq<char>)> {
    p.map_values(|e: (Vec<Key>, &'static str)| (e.0@, e.1@))
}

fn push_entry(plan: &mut Vec<(Vec<Key>, &'static str)>, keys: Vec<Key>, label: &'static str)
    ensures
        plan_view(final(plan)@) == plan_view(old(plan)@).push((keys@, label@)),
{
    let ghost before = plan@;
    plan.push((keys, label));
    assert(plan_view(plan@) =~= plan_view(before).push((keys@, label@)));
}

fn one(a: Action) -> (v: Vec<Action>)
    ensures
        action_seq(v@) == seq![a@],
{
    let mut v: Vec<Action> = Vec::new();
    v.push(a);
    assert(action_seq(v@) =~= seq![a@]);
    v
}

fn two(a: Action, b: Action) -> (v: Vec<Action>)
    ensures
        action_seq(v@) == seq![a@, b@],
{
    let mut v: Vec<Action> = Vec::new();
    v.push(a);
    v.push(b);
    assert(action_seq(v@) =~= seq![a@, b@]);
    v
}

fn zero_input() -> (v: Vec<u8>)
    ensures
        v@ == seq![0u8],
{
    let mut v: Vec<u8> = Vec::new();
    v.push(0);
    assert(v@ =~= seq![0u8]);
    v
}

fn to_normal_action() -> (a: Action)
    ensures
        a@ == to_normal(),
{
    Action::SwitchToMode { input_mode: InputMode::Normal }
}

fn exact_keys(keymap: &Vec<(Key, Vec<Action>)>, targets: Vec<Action>) -> (r: Vec<Key>)
    ensures
        r@ == exact(keymap@, action_seq(targets@)),
{
    find_keys_for_actions(keymap, &targets, true)
}

fn groups_of(gs: Vec<Vec<Action>>, keymap: &Vec<(Key, Vec<Action>)>) -> (r: Vec<Key>)
    ensures
        r@ == keys_for_groups(keymap@, group_views(gs@)),
{
    find_keys_for_action_groups(keymap, &gs)
}

fn push_group(gs: &mut Vec<Vec<Action>>, g: Vec<Action>)
    ensures
        group_views(final(gs)@) == group_views(old(gs)@).push(action_seq(g@)),
{
    let ghost before = gs@;
    gs.push(g);
    assert(group_views(gs@) =~= group_views(before).push(action_seq(g@)));
}

fn left_right_or_exec(full: Vec<Key>) -> (r: Vec<Key>)
    ensures
        r@ == left_right_or(full@),
{
    match (find_plain(&full, BareKey::Left), find_plain(&full, BareKey::Right)) {
        (Some(l), Some(r)) => {
            let mut v: Vec<Key> = Vec::new();
            v.push(full[l].clone());
            v.push(full[r].clone());
            assert(v@ =~= seq![full@[l as int], full@[r as int]]);
            v
        },
        _ => full,
    }
}

fn plugin_keys_exec(keymap: &Vec<(Key, Vec<Action>)>, location: &str) -> (r: Vec<Key>)
    ensures
        r@ == plugin_keys(keymap@, location@),
{
    let mut v: Vec<Key> = Vec::new();
    match plugin_key(keymap, location) {
        Some(k) => {
            v.push(k);
            assert(v@ =~= seq![k]);
        },
        None => {},
    }
    v
}

fn focus_group_list() -> (gs: Vec<Vec<Action>>)
    ensures
        group_views(gs@) == focus_groups(),
{
    let mut gs: Vec<Vec<Action>> = Vec::new();
    push_group(&mut gs, one(Action::MoveFocusOrTab { direction: Direction::Left }));
    push_group(&mut gs, one(Action::MoveFocusOrTab { direction: Direction::Right }));
    push_group(&mut gs, one(Action::MoveFocus { direction: Direction::Left }));
    push_group(&mut gs, one(Action::MoveFocus { direction: Direction::Down }));
    push_group(&mut gs, one(Action::MoveFocus { direction: Direction::Up }));
    push_group(&mut gs, one(Action::MoveFocus { direction: Direction::Right }));
    assert(group_views(gs@) =~= focus_groups());
    gs
}

fn tab_group_list() -> (gs: Vec<Vec<Action>>)
    ensures
        group_views(gs@) == tab_groups(),
{
    let mut gs: Vec<Vec<Action>> = Vec::new();
    push_group(&mut gs, one(Action::GoToPreviousTab));
    push_group(&mut gs, one(Action::GoToNextTab));
    assert(group_views(gs@) =~= tab_groups());
    gs
}

fn resize_group_list() -> (gs: Vec<Vec<Action>>)
    ensures
        group_views(gs@) == resize_groups(),
{
    let mut gs: Vec<Vec<Action>> = Vec::new();
    push_group(&mut gs, one(Action::Resize { resize: ResizeKind::Increase, direction: None }));
    push_group(&mut gs, one(Action::Resize { resize: ResizeKind::Decrease, direction: None }));
    assert(group_views(gs@) =~= resize_groups());
    gs
}

fn move_group_list() -> (gs: Vec<Vec<Action>>)
    ensures
        group_views(gs@) == move_groups(),
{
    let mut gs: Vec<Vec<Action>> = Vec::new();
    push_group(&mut gs, one(Action::MovePane { direction: Some(Direction::Left) }));
    push_group(&mut gs, one(Action::MovePane { direction: Some(Direction::Down) }));
    push_group(&mut gs, one(Action::MovePane { direction: Some(Direction::Up) }));
    push_group(&mut gs, one(Action::MovePane { direction: Some(Direction::Right) }));
    assert(group_views(gs@) =~= move_groups());
    gs
}

fn scroll_group_list() -> (gs: Vec<Vec<Action>>)
    ensures
        group_views(gs@) == scroll_groups(),
{
    let mut gs: Vec<Vec<Action>> = Vec::new();
    push_group(&mut gs, one(Action::ScrollDown));
    push_group(&mut gs, one(Action::ScrollUp));
    assert(group_views(gs@) =~= scroll_groups());
    gs
}

fn page_group_list() -> (gs: Vec<Vec<Action>>)
    ensures
        group_views(gs@) == page_groups(),
{
    let mut gs: Vec<Vec<Action>> = Vec::new();
    push_group(&mut gs, one(Action::PageScrollDown));
    push_group(&mut gs, one(Action::PageScrollUp));
    assert(group_views(gs@) =~= page_groups());
    gs
}

fn half_page_group_list() -> (gs: Vec<Vec<Action>>)
    ensures
        group_views(gs@) == half_page_groups(),
{
    let mut gs: Vec<Vec<Action>> = Vec::new();
    push_group(&mut gs, one(Action::HalfPageScrollDown));
    push_group(&mut gs, one(Action::HalfPageScrollUp));
    assert(group_views(gs@) =~= half_page_groups());
    gs
}

fn search_target_list() -> (v: Vec<Action>)
    ensures
        action_seq(v@) == search_targets(),
{
    let v = two(
        Action::SwitchToMode { input_mode: InputMode::EnterSearch },
        Action::SearchInput { input: zero_input() },
    );
    assert(action_seq(v@) =~= search_targets());
    v
}

fn resize_dir_list(r: ResizeKind) -> (gs: Vec<Vec<Action>>)
    ensures
        group_views(gs@) == resize_dirs(r),
{
    let mut gs: Vec<Vec<Action>> = Vec::new();
    push_group(&mut gs, one(Action::Resize { resize: r, direction: Some(Direction::Left) }));
    push_group(&mut gs, one(Action::Resize { resize: r, direction: Some(Direction::Down) }));
    push_group(&mut gs, one(Action::Resize { resize: r, direction: Some(Direction::Up) }));
    push_group(&mut gs, one(Action::Resize { resize: r, direction: Some(Direction::Right) }));
    assert(group_views(gs@) =~= resize_dirs(r));
    gs
}

fn switch_keys(keymap: &Vec<(Key, Vec<Action>)>, mode: InputMode) -> (r: Vec<Key>)
    ensures
        r@ == exact(keymap@, seq![switch_to(mode)]),
{
    exact_keys(keymap, one(Action::SwitchToMode { input_mode: mode }))
}

fn pane_rename_keys(keymap: &Vec<(Key, Vec<Action>)>) -> (r: Vec<Key>)
    ensures
        r@ == rename_keys(keymap@, InputMode::RenamePane, ActionView::PaneNameInput { input: seq![0u8] }),
{
    let targets = two(
        Action::SwitchToMode { input_mode: InputMode::RenamePane },
        Action::PaneNameInput { input: zero_input() },
    );
    assert(action_seq(targets@) =~= seq![
        switch_to(InputMode::RenamePane),
        ActionView::PaneNameInput { input: seq![0u8] },
    ]);
    find_keys_for_actions(keymap, &targets, false)
}

fn tab_rename_keys(keymap: &Vec<(Key, Vec<Action>)>) -> (r: Vec<Key>)
    ensures
        r@ == rename_keys(keymap@, InputMode::RenameTab, ActionView::TabNameInput { input: seq![0u8] }),
{
    let targets = two(
        Action::SwitchToMode { input_mode: InputMode::RenameTab },
        Action::TabNameInput { input: zero_input() },
    );
    assert(action_seq(targets@) =~= seq![
        switch_to(InputMode::RenameTab),
        ActionView::TabNameInput { input: seq![0u8] },
    ]);
    find_keys_for_actions(keymap, &targets, false)
}

fn normal_plan(keymap: &Vec<(Key, Vec<Action>)>) -> (p: Vec<(Vec<Key>, &'static str)>)
    ensures
        plan_view(p@) == normal_hints(keymap@),
{
    let mut p: Vec<(Vec<Key>, &'static str)> = Vec::new();
    push_entry(
        &mut p,
        switch_keys(keymap, InputMode::Pane),
        "pane",
    );
    push_entry(
        &mut p,
        switch_keys(keymap, InputMode::Tab),
        "tab",
    );
    push_entry(
        &mut p,
        switch_keys(keymap, InputMode::Resize),
        "resize",
    );
    push_entry(
        &mut p,
        switch_keys(keymap, InputMode::Move),
        "move",
    );
    push_entry(
        &mut p,
        switch_keys(keymap, InputMode::Scroll),
        "scroll",
    );
    push_entry(
        &mut p,
        switch_keys(keymap, InputMode::Search),
        "search",
    );
    push_entry(
        &mut p,
        switch_keys(keymap, InputMode::Session),
        "session",
    );
    push_entry(&mut p, exact_keys(keymap, one(Action::Quit)), "quit");
    assert(plan_view(p@) =~= normal_hints(keymap@));
    p
}

fn pane_plan(keymap: &Vec<(Key, Vec<Action>)>) -> (p: Vec<(Vec<Key>, &'static str)>)
    ensures
        plan_view(p@) == pane_hints(keymap@),
{
    let mut p: Vec<(Vec<Key>, &'static str)> = Vec::new();
    push_entry(
        &mut p,
        exact_keys(
            keymap,
            two(
                Action::NewPane { direction: None, pane_name: None, start_suppressed: false },
                to_normal_action(),
            ),
        ),
        "new",
    );
    push_entry(&mut p, exact_keys(keymap, two(Action::CloseFocus, to_normal_action())), "close");
    push_entry(
        &mut p,
        exact_keys(keymap, two(Action::ToggleFocusFullscreen, to_normal_action())),
        "fullscreen",
    );
    push_entry(
        &mut p,
        exact_keys(keymap, two(Action::ToggleFloatingPanes, to_normal_action())),
        "float",
    );
    push_entry(
        &mut p,
        exact_keys(keymap, two(Action::TogglePaneEmbedOrFloating, to_normal_action())),
        "embed",
    );
    push_entry(
        &mut p,
        exact_keys(
            keymap,
            two(
                Action::NewPane {
                    direction: Some(Direction::Right),
                    pane_name: None,
                    start_suppressed: false,
                },
                to_normal_action(),
            ),
        ),
        "split right",
    );
    push_entry(
        &mut p,
        exact_keys(
            keymap,
            two(
                Action::NewPane {
                    direction: Some(Direction::Down),
                    pane_name: None,
                    start_suppressed: false,
                },
                to_normal_action(),
            ),
        ),
        "split down",
    );
    push_entry(&mut p, left_right_or_exec(groups_of(focus_group_list(), keymap)), "move");
    push_entry(&mut p, pane_rename_keys(keymap), "rename");
    push_entry(&mut p, get_select_key(keymap), "select");
    assert(plan_view(p@) =~= pane_hints(keymap@));
    p
}

fn tab_plan(keymap: &Vec<(Key, Vec<Action>)>) -> (p: Vec<(Vec<Key>, &'static str)>)
    ensures
        plan_view(p@) == tab_hints(keymap@),
{
    let mut p: Vec<(Vec<Key>, &'static str)> = Vec::new();
    push_entry(&mut p, exact_keys(keymap, two(Action::NewTab, to_normal_action())), "new");
    push_entry(&mut p, exact_keys(keymap, two(Action::CloseTab, to_normal_action())), "close");
    push_entry(
        &mut p,
        exact_keys(keymap, two(Action::BreakPane, to_normal_action())),
        "break pane",
    );
    push_entry(
        &mut p,
        exact_keys(keymap, two(Action::ToggleActiveSyncTab, to_normal_action())),
        "sync",
    );
    push_entry(&mut p, left_right_or_exec(groups_of(tab_group_list(), keymap)), "move");
    push_entry(&mut p, tab_rename_keys(keymap), "rename");
    push_entry(&mut p, get_select_key(keymap), "select");
    assert(plan_view(p@) =~= tab_hints(keymap@));
    p
}

fn resize_plan(keymap: &Vec<(Key, Vec<Action>)>) -> (p: Vec<(Vec<Key>, &'static str)>)
    ensures
        plan_view(p@) == resize_hints(keymap@),
{
    let mut p: Vec<(Vec<Key>, &'static str)> = Vec::new();
    let gs = resize_group_list();
    push_entry(&mut p, groups_of(gs, keymap), "resize");
    push_entry(&mut p, groups_of(resize_dir_list(ResizeKind::Increase), keymap), "increase");
    push_entry(&mut p, groups_of(resize_dir_list(ResizeKind::Decrease), keymap), "decrease");
    push_entry(&mut p, get_select_key(keymap), "select");
    assert(plan_view(p@) =~= resize_hints(keymap@));
    p
}

fn move_plan(keymap: &Vec<(Key, Vec<Action>)>) -> (p: Vec<(Vec<Key>, &'static str)>)
    ensures
        plan_view(p@) == move_hints(keymap@),
{
    let mut p: Vec<(Vec<Key>, &'static str)> = Vec::new();
    let gs = move_group_list();
    push_entry(&mut p, groups_of(gs, keymap), "move");
    push_entry(&mut p, get_select_key(keymap), "select");
    assert(plan_view(p@) =~= move_hints(keymap@));
    p
}

fn scroll_plan(keymap: &Vec<(Key, Vec<Action>)>) -> (p: Vec<(Vec<Key>, &'static str)>)
    ensures
        plan_view(p@) == scroll_hints(keymap@),
{
    let mut p: Vec<(Vec<Key>, &'static str)> = Vec::new();
    push_entry(&mut p, exact_keys(keymap, search_target_list()), "search");
    push_entry(&mut p, groups_of(scroll_group_list(), keymap), "scroll");
    push_entry(&mut p, groups_of(page_group_list(), keymap), "page");
    push_entry(&mut p, groups_of(half_page_group_list(), keymap), "half page");
    let edit_targets = two(Action::EditScrollback { ansi: false }, to_normal_action());
    push_entry(&mut p, find_keys_for_actions(keymap, &edit_targets, false), "edit");
    push_entry(&mut p, get_select_key(keymap), "select");
    assert(plan_view(p@) =~= scroll_hints(keymap@));
    p
}

fn search_plan(keymap: &Vec<(Key, Vec<Action>)>) -> (p: Vec<(Vec<Key>, &'static str)>)
    ensures
        plan_view(p@) == search_hints(keymap@),
{
    let mut p: Vec<(Vec<Key>, &'static str)> = Vec::new();
    push_entry(&mut p, exact_keys(keymap, search_target_list()), "search");
    push_entry(&mut p, groups_of(scroll_group_list(), keymap), "scroll");
    push_entry(&mut p, groups_of(page_group_list(), keymap), "page");
    push_entry(&mut p, groups_of(half_page_group_list(), keymap), "half page");
    push_entry(
        &mut p,
        exact_keys(keymap, one(Action::Search { direction: SearchDirection::Down })),
        "down",
    );
    push_entry(
        &mut p,
        exact_keys(keymap, one(Action::Search { direction: SearchDirection::Up })),
        "up",
    );
    push_entry(&mut p, get_select_key(keymap), "select");
    assert(plan_view(p@) =~= search_hints(keymap@));
    p
}

fn session_plan(keymap: &Vec<(Key, Vec<Action>)>) -> (p: Vec<(Vec<Key>, &'static str)>)
    ensures
        plan_view(p@) == session_hints(keymap@),
{
    let mut p: Vec<(Vec<Key>, &'static str)> = Vec::new();
    push_entry(&mut p, exact_keys(keymap, one(Action::Detach)), "detach");
    push_entry(&mut p, plugin_keys_exec(keymap, "session-manager"), "manager");
    push_entry(&mut p, plugin_keys_exec(keymap, "configuration"), "config");
    push_entry(&mut p, plugin_keys_exec(keymap, "plugin-manager"), "plugins");
    push_entry(&mut p, plugin_keys_exec(keymap, "zellij:about"), "about");
    push_entry(&mut p, get_select_key(keymap), "select");
    assert(plan_view(p@) =~= session_hints(keymap@));
    p
}

fn other_plan(mode: InputMode, keymap: &Vec<(Key, Vec<Action>)>) -> (p: Vec<(Vec<Key>, &'static str)>)
    requires
        mode != InputMode::Normal && mode != InputMode::Pane && mode != InputMode::Tab && mode
            != InputMode::Resize && mode != InputMode::Move && mode != InputMode::Scroll && mode
            != InputMode::Search && mode != InputMode::Session,
    ensures
        plan_view(p@) == hint_plan(mode, keymap@),
{
    let mut p: Vec<(Vec<Key>, &'static str)> = Vec::new();
    push_entry(&mut p, exact_keys(keymap, one(to_normal_action())), "normal");
    assert(plan_view(p@) =~= hint_plan(mode, keymap@));
    p
}

/// The keys and label of every hint of `mode`, in the order they are shown.
pub fn hints_plan(mode: InputMode, keymap: &Vec<(Key, Vec<Action>)>) -> (p: Vec<(Vec<Key>, &'static str)>)
    ensures
        plan_view(p@) == hint_plan(mode, keymap@),
{
    match mode {
        InputMode::Normal => normal_plan(keymap),
        InputMode::Pane => pane_plan(keymap),
        InputMode::Tab => tab_plan(keymap),
        InputMode::Resize => resize_plan(keymap),
        InputMode::Move => move_plan(keymap),
        InputMode::Scroll => scroll_plan(keymap),
        InputMode::Search => search_plan(keymap),
        InputMode::Session => session_plan(keymap),
        _ => other_plan(mode, keymap),
    }
}

/// The painted hints for `mode`, given the keys bound in it.
pub fn render_hints_for_mode(
    mode: InputMode,
    keymap: &Vec<(Key, Vec<Action>)>,
    modifier_style: ModifierStyle,
    hint_format: &str,
    separator: &str,
    max_keys: usize,
    action_aliases: &Aliases,
    key_aliases: &Aliases,
    colour_settings: &Aliases,
    transparent_bg: bool,
) -> (parts: Vec<Segment>)
    ensures
        segment_views(parts@) == mode_hints(
            mode,
            keymap@,
            settings(
                modifier_style,
                hint_format,
                separator,
                max_keys,
                action_aliases,
                key_aliases,
                colour_settings,
                transparent_bg,
            ),
        ),
{
    let ghost cfg = settings(
        modifier_style,
        hint_format,
        separator,
        max_keys,
        action_aliases,
        key_aliases,
        colour_settings,
        transparent_bg,
    );
    let plan = hints_plan(mode, keymap);
    let ghost pv = plan_view(plan@);
    let mut parts: Vec<Segment> = Vec::new();
    let mut i: usize = 0;
    assert(segment_views(parts@) =~= Seq::<(Style, Seq<char>)>::empty());
    while i < plan.len()
        invariant
            pv == plan_view(plan@),
            pv == hint_plan(mode, keymap@),
            cfg == settings(
                modifier_style,
                hint_format,
                separator,
                max_keys,
                action_aliases,
                key_aliases,
                colour_settings,
                transparent_bg,
            ),
            i <= plan.len(),
            segment_views(parts@) == plan_added(seq![], pv.subrange(0, i as int), mode, cfg),
        decreases plan.len() - i,
    {
        assert(pv.subrange(0, i + 1).drop_last() =~= pv.subrange(0, i as int));
        assert(pv[i as int].0 == plan@[i as int].0@);
        add_hint(
            &mut parts,
            &plan[i].0,
            plan[i].1,
            modifier_style,
            hint_format,
            separator,
            max_keys,
            action_aliases,
            key_aliases,
            mode,
            colour_settings,
            transparent_bg,
        );
        i = i + 1;
    }
    assert(pv.subrange(0, i as int) =~= pv);
    parts
}

// ---------------------------------------------------------------------------
// Laws
// ---------------------------------------------------------------------------
/// A hint with more keys than `max_keys` (when positive) is painted as if only
/// its first `max_keys` keys were bound.
pub proof fn law_max_keys_keeps_first_keys(
    parts: Seq<(Style, Seq<char>)>,
    keys: Seq<Key>,
    label: Seq<char>,
    mode: InputMode,
    cfg: HintSettings,
)
    requires
        cfg.max_keys > 0,
        keys.len() > cfg.max_keys,
    ensures
        hint_added(parts, keys, label, mode, cfg) == hint_added(
            parts,
            keys.subrange(0, cfg.max_keys as int),
            label,
            mode,
            cfg,
        ),
{
}

/// A `max_keys` of 0 shows every key.
pub proof fn law_zero_max_keys_shows_all(keys: Seq<Key>)
    ensures
        shown_keys(keys, 0) == keys,
{
}

/// Without a separator, each hint is painted right after what came before it.
pub proof fn law_hints_concatenate_without_separator(
    parts: Seq<(Style, Seq<char>)>,
    keys: Seq<Key>,
    label: Seq<char>,
    mode: InputMode,
    cfg: HintSettings,
)
    requires
        cfg.separator.len() == 0,
    ensures
        hint_added(parts, keys, label, mode, cfg) == parts + hint_added(seq![], keys, label, mode, cfg),
{
    if keys.len() == 0 {
        assert(parts + Seq::<(Style, Seq<char>)>::empty() =~= parts);
    } else {
        let t = template_segments(
            cfg.hint_format,
            key_plain(shown_keys(keys, cfg.max_keys), cfg.modifier_style, cfg.key_aliases),
            display_label(label, cfg.action_aliases),
            hint_paint(cfg.colour_settings, cfg.transparent_bg, mode, label),
        );
        assert(Seq::<(Style, Seq<char>)>::empty() + t =~= t);
    }
}

/// The separator stands only between hints: the first hint painted has none
/// before it, and every later hint with keys has exactly one, in the plain style.
pub proof fn law_separator_between_hints(
    parts: Seq<(Style, Seq<char>)>,
    keys: Seq<Key>,
    label: Seq<char>,
    mode: InputMode,
    cfg: HintSettings,
)
    requires
        cfg.separator.len() > 0,
        keys.len() > 0,
    ensures
        hint_added(seq![], keys, label, mode, cfg) == template_segments(
            cfg.hint_format,
            key_plain(shown_keys(keys, cfg.max_keys), cfg.modifier_style, cfg.key_aliases),
            display_label(label, cfg.action_aliases),
            hint_paint(cfg.colour_settings, cfg.transparent_bg, mode, label),
        ),
        parts.len() > 0 ==> hint_added(parts, keys, label, mode, cfg) == parts.push(
            (plain_style(), cfg.separator),
        ) + hint_added(seq![], keys, label, mode, cfg),
{
    let t = template_segments(
        cfg.hint_format,
        key_plain(shown_keys(keys, cfg.max_keys), cfg.modifier_style, cfg.key_aliases),
        display_label(label, cfg.action_aliases),
        hint_paint(cfg.colour_settings, cfg.transparent_bg, mode, label),
    );
    assert(Seq::<(Style, Seq<char>)>::empty() + t =~= t);
}

/// A colour field is decided first by the mode-specific label setting
/// `<mode>.<label>_<field>`, when that is set.
pub proof fn law_mode_label_colour_first(
    settings: Seq<(Seq<char>, Seq<char>)>,
    mode: InputMode,
    m: Seq<char>,
    label: Seq<char>,
    field: Seq<char>,
    v: Seq<char>,
)
    requires
        mode_name(mode) == Some(m),
        lookup_last(settings, m + "."@ + (setting_label(label) + "_"@ + field)) == Some(v),
    ensures
        colour_setting(settings, mode, label, field) == colour_of(v),
{
}

/// Without a mode-specific label setting, the label setting `<label>_<field>`
/// decides, when that is set.
pub proof fn law_label_colour_second(
    settings: Seq<(Seq<char>, Seq<char>)>,
    mode: InputMode,
    label: Seq<char>,
    field: Seq<char>,
    v: Seq<char>,
)
    requires
        mode_name(mode) is None || lookup_last(
            settings,
            mode_name(mode).unwrap() + "."@ + (setting_label(label) + "_"@ + field),
        ) is None,
        lookup_last(settings, setting_label(label) + "_"@ + field) == Some(v),
    ensures
        colour_setting(settings, mode, label, field) == colour_of(v),
{
}

/// Without either label setting, the global setting `<field>` decides; when it
/// is not set either, the field takes no colour of its own.
pub proof fn law_global_colour_last(
    settings: Seq<(Seq<char>, Seq<char>)>,
    mode: InputMode,
    label: Seq<char>,
    field: Seq<char>,
)
    requires
        mode_name(mode) is None || lookup_last(
            settings,
            mode_name(mode).unwrap() + "."@ + (setting_label(label) + "_"@ + field),
        ) is None,
        lookup_last(settings, setting_label(label) + "_"@ + field) is None,
    ensures
        colour_setting(settings, mode, label, field) == match lookup_last(settings, field) {
            Some(v) => colour_of(v),
            None => None,
        },
{
}

/// With `transparent_bg`, neither a hint's key nor its label keeps a background.
pub proof fn law_transparent_background(
    settings: Seq<(Seq<char>, Seq<char>)>,
    mode: InputMode,
    label: Seq<char>,
    st: Style,
)
    ensures
        crate::style::overlaid(st, hint_paint(settings, true, mode, label).key).bg is None,
        crate::style::overlaid(st, hint_paint(settings, true, mode, label).label).bg is None,
{
}

/// The keys the keymap binds to exactly the one action `a`, in keymap order.
pub open spec fn keys_bound_to(km: Seq<(Key, Vec<Action>)>, a: ActionView) -> Seq<Key> {
    km.filter(|e: (Key, Vec<Action>)| e.1@.len() == 1 && e.1@[0]@ == a).map_values(
        |e: (Key, Vec<Action>)| e.0,
    )
}

proof fn lemma_exact_single(km: Seq<(Key, Vec<Action>)>, a: ActionView)
    requires
        !(a is NewTab || a is LaunchOrFocusPlugin || a is LaunchPlugin || a is OverrideLayout),
    ensures
        keys_for(km, seq![a], true) == keys_bound_to(km, a),
    decreases km.len(),
{
    let g = |e: (Key, Vec<Action>)| e.1@.len() == 1 && e.1@[0]@ == a;
    let h = |e: (Key, Vec<Action>)| e.0;
    reveal_with_fuel(Seq::<_>::filter, 1);
    if km.len() == 0 {
        assert(km.filter(g).map_values(h) =~= Seq::<Key>::empty());
    } else {
        lemma_exact_single(km.drop_last(), a);
        let e = km.last();
        let acts = action_seq(e.1@);
        let matched = actions_match(acts, seq![a], true);
        assert(acts.len() == e.1@.len());
        if e.1@.len() == 1 {
            assert(acts[0] == e.1@[0]@);
            assert(seq![a][0] == a);
            if g(e) {
                assert forall|i: int| 0 <= i < acts.len() implies #[trigger] shallow_same(
                    acts[i],
                    seq![a][i],
                ) by {
                    assert(i == 0);
                }
            }
            if matched {
                assert(shallow_same(acts[0], seq![a][0]));
            }
        }
        assert(matched == g(e));
        let sub = km.drop_last().filter(g);
        if g(e) {
            assert(sub.push(e).map_values(h) =~= sub.map_values(h).push(e.0));
        }
    }
}

/// In normal mode the hints are, in order, the keys that switch to the pane,
/// tab, resize, move, scroll, search and session modes, each under that mode's
/// name, and the keys that quit: each hint holds exactly the keys the keymap
/// binds to that one action.
pub proof fn law_normal_hints_switch_modes(km: Seq<(Key, Vec<Action>)>)
    ensures
        hint_plan(InputMode::Normal, km).len() == 8,
        hint_plan(InputMode::Normal, km)[0] == (
            keys_bound_to(km, ActionView::SwitchToMode { input_mode: InputMode::Pane }),
            "pane"@,
        ),
        hint_plan(InputMode::Normal, km)[1] == (
            keys_bound_to(km, ActionView::SwitchToMode { input_mode: InputMode::Tab }),
            "tab"@,
        ),
        hint_plan(InputMode::Normal, km)[2] == (
            keys_bound_to(km, ActionView::SwitchToMode { input_mode: InputMode::Resize }),
            "resize"@,
        ),
        hint_plan(InputMode::Normal, km)[3] == (
            keys_bound_to(km, ActionView::SwitchToMode { input_mode: InputMode::Move }),
            "move"@,
        ),
        hint_plan(InputMode::Normal, km)[4] == (
            keys_bound_to(km, ActionView::SwitchToMode { input_mode: InputMode::Scroll }),
            "scroll"@,
        ),
        hint_plan(InputMode::Normal, km)[5] == (
            keys_bound_to(km, ActionView::SwitchToMode { input_mode: InputMode::Search }),
            "search"@,
        ),
        hint_plan(InputMode::Normal, km)[6] == (
            keys_bound_to(km, ActionView::SwitchToMode { input_mode: InputMode::Session }),
            "session"@,
        ),
        hint_plan(InputMode::Normal, km)[7] == (keys_bound_to(km, ActionView::Quit), "quit"@),
{
    lemma_exact_single(km, ActionView::SwitchToMode { input_mode: InputMode::Pane });
    lemma_exact_single(km, ActionView::SwitchToMode { input_mode: InputMode::Tab });
    lemma_exact_single(km, ActionView::SwitchToMode { input_mode: InputMode::Resize });
    lemma_exact_single(km, ActionView::SwitchToMode { input_mode: InputMode::Move });
    lemma_exact_single(km, ActionView::SwitchToMode { input_mode: InputMode::Scroll });
    lemma_exact_single(km, ActionView::SwitchToMode { input_mode: InputMode::Search });
    lemma_exact_single(km, ActionView::SwitchToMode { input_mode: InputMode::Session });
    lemma_exact_single(km, ActionView::Quit);
}

/// A mode-specific setting `<name>.<label>_<field>` decides a field's colour in
/// the mode called `name`.
pub open spec fn override_decides(
    settings: Seq<(Seq<char>, Seq<char>)>,
    mode: InputMode,
    name: Seq<char>,
    label: Seq<char>,
    field: Seq<char>,
) -> bool {
    forall|v: Seq<char>|
        lookup_last(settings, name + "."@ + (setting_label(label) + "_"@ + field)) == Some(v)
            ==> #[trigger] colour_of(v) == colour_setting(settings, mode, label, field)
}

/// Each of the eight modes with hints of their own reads mode-specific colour
/// settings under its name: `normal`, `pane`, `tab`, `resize`, `move`,
/// `scroll`, `search`, `session`.
pub proof fn law_mode_overrides_by_name(
    settings: Seq<(Seq<char>, Seq<char>)>,
    label: Seq<char>,
    field: Seq<char>,
)
    ensures
        override_decides(settings, InputMode::Normal, "normal"@, label, field),
        override_decides(settings, InputMode::Pane, "pane"@, label, field),
        override_decides(settings, InputMode::Tab, "tab"@, label, field),
        override_decides(settings, InputMode::Resize, "resize"@, label, field),
        override_decides(settings, InputMode::Move, "move"@, label, field),
        override_decides(settings, InputMode::Scroll, "scroll"@, label, field),
        override_decides(settings, InputMode::Search, "search"@, label, field),
        override_decides(settings, InputMode::Session, "session"@, label, field),
{
}

/// Exactly the modes with hints of their own (more than the way back to normal
/// mode) have a name for mode-specific colour settings.
pub proof fn law_named_modes_have_own_hints(m: InputMode, km: Seq<(Key, Vec<Action>)>)
    ensures
        mode_name(m) is Some <==> hint_plan(m, km).len() > 1,
{
}

} // verus!
