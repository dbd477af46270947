//! Actions bound to keys, and finding the keys bound to given actions.
use vstd::prelude::*;
use crate::keys::{BareKey, Key};
use crate::text::{chars_of, chars_equal};

verus! {

/// An input mode of the host.
#[derive(Clone, Copy, PartialEq, Eq, Structural, Debug)]
pub enum InputMode {
    Normal,
    Locked,
    Resize,
    Pane,
    Tab,
    Scroll,
    EnterSearch,
    Search,
    RenameTab,
    RenamePane,
    Session,
    Move,
    Prompt,
    Tmux,
}

#[derive(Clone, Copy, PartialEq, Eq, Structural, Debug)]
pub enum Direction {
    Left,
    Right,
    Up,
    Down,
}

#[derive(Clone, Copy, PartialEq, Eq, Structural, Debug)]
pub enum ResizeKind {
    Increase,
    Decrease,
}

#[derive(Clone, Copy, PartialEq, Eq, Structural, Debug)]
pub enum SearchDirection {
    Down,
    Up,
}

/// An action a key can be bound to. The actions the hints look for are kept
/// with the fields that decide whether two of them are equal; a plugin launch
/// keeps the plugin's location; every other action is `Other`. So two actions
/// that are both `Other`, or two new tabs with different settings, are equal
/// here though the host tells them apart; no action the hints look for is one
/// of them, so which keys the hints find is the same.
pub enum Action {
    Quit,
    SwitchToMode { input_mode: InputMode },
    Resize { resize: ResizeKind, direction: Option<Direction> },
    MoveFocus { direction: Direction },
    MoveFocusOrTab { direction: Direction },
    MovePane { direction: Option<Direction> },
    EditScrollback { ansi: bool },
    ScrollUp,
    ScrollDown,
    PageScrollUp,
    PageScrollDown,
    HalfPageScrollUp,
    HalfPageScrollDown,
    ToggleFocusFullscreen,
    ToggleActiveSyncTab,
    NewPane { direction: Option<Direction>, pane_name: Option<String>, start_suppressed: bool },
    TogglePaneEmbedOrFloating,
    ToggleFloatingPanes,
    CloseFocus,
    PaneNameInput { input: Vec<u8> },
    NewTab,
    GoToNextTab,
    GoToPreviousTab,
    CloseTab,
    TabNameInput { input: Vec<u8> },
    BreakPane,
    Detach,
    Search { direction: SearchDirection },
    SearchInput { input: Vec<u8> },
    LaunchOrFocusPlugin { location: String },
    LaunchPlugin { location: String },
    OverrideLayout,
    Other,
}

/// An action as a mathematical value.
pub enum ActionView {
    Quit,
    SwitchToMode { input_mode: InputMode },
    Resize { resize: ResizeKind, direction: Option<Direction> },
    MoveFocus { direction: Direction },
    MoveFocusOrTab { direction: Direction },
    MovePane { direction: Option<Direction> },
    EditScrollback { ansi: bool },
    ScrollUp,
    ScrollDown,
    PageScrollUp,
    PageScrollDown,
    HalfPageScrollUp,
    HalfPageScrollDown,
    ToggleFocusFullscreen,
    ToggleActiveSyncTab,
    NewPane { direction: Option<Direction>, pane_name: Option<Seq<char>>, start_suppressed: bool },
    TogglePaneEmbedOrFloating,
    ToggleFloatingPanes,
    CloseFocus,
    PaneNameInput { input: Seq<u8> },
    NewTab,
    GoToNextTab,
    GoToPreviousTab,
    CloseTab,
    TabNameInput { input: Seq<u8> },
    BreakPane,
    Detach,
    Search { direction: SearchDirection },
    SearchInput { input: Seq<u8> },
    LaunchOrFocusPlugin { location: Seq<char> },
    LaunchPlugin { location: Seq<char> },
    OverrideLayout,
    Other,
}

impl View for Action {
    type V = ActionView;

    open spec fn view(&self) -> ActionView {
        match self {
            Action::Quit => ActionView::Quit,
            Action::SwitchToMode { input_mode } => ActionView::SwitchToMode {
                input_mode: *input_mode,
            },
            Action::Resize { resize, direction } => ActionView::Resize {
                resize: *resize,
                direction: *direction,
            },
            Action::MoveFocus { direction } => ActionView::MoveFocus { direction: *direction },
            Action::MoveFocusOrTab { direction } => ActionView::MoveFocusOrTab {
                direction: *direction,
            },
            Action::MovePane { direction } => ActionView::MovePane { direction: *direction },
            Action::EditScrollback { ansi } => ActionView::EditScrollback { ansi: *ansi },
            Action::ScrollUp => ActionView::ScrollUp,
            Action::ScrollDown => ActionView::ScrollDown,
            Action::PageScrollUp => ActionView::PageScrollUp,
            Action::PageScrollDown => ActionView::PageScrollDown,
            Action::HalfPageScrollUp => ActionView::HalfPageScrollUp,
            Action::HalfPageScrollDown => ActionView::HalfPageScrollDown,
            Action::ToggleFocusFullscreen => ActionView::ToggleFocusFullscreen,
            Action::ToggleActiveSyncTab => ActionView::ToggleActiveSyncTab,
            Action::NewPane { direction, pane_name, start_suppressed } => ActionView::NewPane {
                direction: *direction,
                pane_name: match pane_name {
                    Some(n) => Some(n@),
                    None => None,
                },
                start_suppressed: *start_suppressed,
            },
            Action::TogglePaneEmbedOrFloating => ActionView::TogglePaneEmbedOrFloating,
            Action::ToggleFloatingPanes => ActionView::ToggleFloatingPanes,
            Action::CloseFocus => ActionView::CloseFocus,
            Action::PaneNameInput { input } => ActionView::PaneNameInput { input: input@ },
            Action::NewTab => ActionView::NewTab,
            Action::GoToNextTab => ActionView::GoToNextTab,
            Action::GoToPreviousTab => ActionView::GoToPreviousTab,
            Action::CloseTab => ActionView::CloseTab,
            Action::TabNameInput { input } => ActionView::TabNameInput { input: input@ },
            Action::BreakPane => ActionView::BreakPane,
            Action::Detach => ActionView::Detach,
            Action::Search { direction } => ActionView::Search { direction: *direction },
            Action::SearchInput { input } => ActionView::SearchInput { input: input@ },
            Action::LaunchOrFocusPlugin { location } => ActionView::LaunchOrFocusPlugin {
                location: location@,
            },
            Action::LaunchPlugin { location } => ActionView::LaunchPlugin { location: location@ },
            Action::OverrideLayout => ActionView::OverrideLayout,
            Action::Other => ActionView::Other,
        }
    }
}

/// Equality that ignores the settings of new tabs, plugin launches and layout overrides.
pub open spec fn shallow_same(a: ActionView, b: ActionView) -> bool {
    match (a, b) {
        (ActionView::NewTab, ActionView::NewTab) => true,
        (ActionView::LaunchOrFocusPlugin { .. }, ActionView::LaunchOrFocusPlugin { .. }) => true,
        (ActionView::LaunchPlugin { .. }, ActionView::LaunchPlugin { .. }) => true,
        (ActionView::OverrideLayout, ActionView::OverrideLayout) => true,
        _ => a == b,
    }
}

/// The action launches (or focuses) the plugin at `location`.
pub open spec fn launches(a: ActionView, location: Seq<char>) -> bool {
    match a {
        ActionView::LaunchPlugin { location: l } => l == location,
        ActionView::LaunchOrFocusPlugin { location: l } => l == location,
        _ => false,
    }
}

pub open spec fn action_seq(v: Seq<Action>) -> Seq<ActionView> {
    v.map_values(|a: Action| a@)
}

fn bytes_equal(a: &Vec<u8>, b: &Vec<u8>) -> (r: bool)
    ensures
        r == (a@ == b@),
{
    if a.len() != b.len() {
        return false;
    }
    let mut i: usize = 0;
    while i < a.len()
        invariant
            a.len() == b.len(),
            i <= a.len(),
            forall|j: int| 0 <= j < i ==> a@[j] == b@[j],
        decreases a.len() - i,
    {
        if a[i] != b[i] {
            return false;
        }
        i = i + 1;
    }
    assert(a@ =~= b@);
    true
}

fn strings_equal(a: &String, b: &String) -> (r: bool)
    ensures
        r == (a@ == b@),
{
    let x = chars_of(a.as_str());
    let y = chars_of(b.as_str());
    chars_equal(&x, &y)
}

impl Action {
    /// Field-by-field equality.
    pub fn equals(&self, other: &Action) -> (r: bool)
        ensures
            r == (self@ == other@),
    {
        match (self, other) {
            (Action::Quit, Action::Quit) => true,
            (Action::SwitchToMode { input_mode: x }, Action::SwitchToMode { input_mode: y }) => *x
                == *y,
            (
                Action::Resize { resize: r1, direction: d1 },
                Action::Resize { resize: r2, direction: d2 },
            ) => *r1 == *r2 && *d1 == *d2,
            (Action::MoveFocus { direction: x }, Action::MoveFocus { direction: y }) => *x == *y,
            (Action::MoveFocusOrTab { direction: x }, Action::MoveFocusOrTab { direction: y }) => *x
                == *y,
            (Action::MovePane { direction: x }, Action::MovePane { direction: y }) => *x == *y,
            (Action::EditScrollback { ansi: x }, Action::EditScrollback { ansi: y }) => *x == *y,
            (Action::ScrollUp, Action::ScrollUp) => true,
            (Action::ScrollDown, Action::ScrollDown) => true,
            (Action::PageScrollUp, Action::PageScrollUp) => true,
            (Action::PageScrollDown, Action::PageScrollDown) => true,
            (Action::HalfPageScrollUp, Action::HalfPageScrollUp) => true,
            (Action::HalfPageScrollDown, Action::HalfPageScrollDown) => true,
            (Action::ToggleFocusFullscreen, Action::ToggleFocusFullscreen) => true,
            (Action::ToggleActiveSyncTab, Action::ToggleActiveSyncTab) => true,
            (
                Action::NewPane { direction: d1, pane_name: n1, start_suppressed: s1 },
                Action::NewPane { direction: d2, pane_name: n2, start_suppressed: s2 },
            ) => {
                let names = match (n1, n2) {
                    (None, None) => true,
                    (Some(x), Some(y)) => strings_equal(x, y),
                    _ => false,
                };
                *d1 == *d2 && names && *s1 == *s2
            },
            (Action::TogglePaneEmbedOrFloating, Action::TogglePaneEmbedOrFloating) => true,
            (Action::ToggleFloatingPanes, Action::ToggleFloatingPanes) => true,
            (Action::CloseFocus, Action::CloseFocus) => true,
            (Action::PaneNameInput { input: x }, Action::PaneNameInput { input: y }) => bytes_equal(
                x,
                y,
            ),
            (Action::NewTab, Action::NewTab) => true,
            (Action::GoToNextTab, Action::GoToNextTab) => true,
            (Action::GoToPreviousTab, Action::GoToPreviousTab) => true,
            (Action::CloseTab, Action::CloseTab) => true,
            (Action::TabNameInput { input: x }, Action::TabNameInput { input: y }) => bytes_equal(
                x,
                y,
            ),
            (Action::BreakPane, Action::BreakPane) => true,
            (Action::Detach, Action::Detach) => true,
            (Action::Search { direction: x }, Action::Search { direction: y }) => *x == *y,
            (Action::SearchInput { input: x }, Action::SearchInput { input: y }) => bytes_equal(x, y),
            (
                Action::LaunchOrFocusPlugin { location: x },
                Action::LaunchOrFocusPlugin { location: y },
            ) => strings_equal(x, y),
            (Action::LaunchPlugin { location: x }, Action::LaunchPlugin { location: y }) => {
                strings_equal(x, y)
            },
            (Action::OverrideLayout, Action::OverrideLayout) => true,
            (Action::Other, Action::Other) => true,
            _ => false,
        }
    }

    /// Equality that ignores the settings of new tabs, plugin launches and layout overrides.
    pub fn shallow_eq(&self, other: &Action) -> (r: bool)
        ensures
            r == shallow_same(self@, other@),
    {
        match (self, other) {
            (Action::NewTab, Action::NewTab) => true,
            (Action::LaunchOrFocusPlugin { .. }, Action::LaunchOrFocusPlugin { .. }) => true,
            (Action::LaunchPlugin { .. }, Action::LaunchPlugin { .. }) => true,
            (Action::OverrideLayout, Action::OverrideLayout) => true,
            _ => self.equals(other),
        }
    }

    /// Whether the action launches (or focuses) the plugin at `plugin_url`.
    pub fn launches_plugin(&self, plugin_url: &str) -> (r: bool)
        ensures
            r == launches(self@, plugin_url@),
    {
        match self {
            Action::LaunchPlugin { location } => {
                let a = chars_of(location.as_str());
                let b = chars_of(plugin_url);
                chars_equal(&a, &b)
            },
            Action::LaunchOrFocusPlugin { location } => {
                let a = chars_of(location.as_str());
                let b = chars_of(plugin_url);
                chars_equal(&a, &b)
            },
            _ => false,
        }
    }
}

// ---------------------------------------------------------------------------
// Finding keys
// ---------------------------------------------------------------------------
/// A key's actions match the target actions: all of them, pairwise and shallowly
/// (`exact`), or just the first of each (both absent counts as a match).
pub open spec fn actions_match(actions: Seq<ActionView>, targets: Seq<ActionView>, exact: bool) -> bool {
    if exact {
        actions.len() == targets.len() && forall|i: int|
            0 <= i < actions.len() ==> #[trigger] shallow_same(actions[i], targets[i])
    } else {
        if actions.len() == 0 || targets.len() == 0 {
            actions.len() == 0 && targets.len() == 0
        } else {
            actions[0] == targets[0]
        }
    }
}

/// The keys, in keymap order, whose actions match the targets.
pub open spec fn keys_for(keymap: Seq<(Key, Vec<Action>)>, targets: Seq<ActionView>, exact: bool) -> Seq<
    Key,
>
    decreases keymap.len(),
{
    if keymap.len() == 0 {
        seq![]
    } else {
        let prev = keys_for(keymap.drop_last(), targets, exact);
        if actions_match(action_seq(keymap.last().1@), targets, exact) {
            prev.push(keymap.last().0)
        } else {
            prev
        }
    }
}

fn actions_match_exec(actions: &Vec<Action>, targets: &Vec<Action>, exact: bool) -> (r: bool)
    ensures
        r == actions_match(action_seq(actions@), action_seq(targets@), exact),
{
    if exact {
        if actions.len() != targets.len() {
            return false;
        }
        let mut i: usize = 0;
        while i < actions.len()
            invariant
                exact,
                actions.len() == targets.len(),
                i <= actions.len(),
                forall|j: int| 0 <= j < i ==> #[trigger] shallow_same(actions@[j]@, targets@[j]@),
            decreases actions.len() - i,
        {
            if !actions[i].shallow_eq(&targets[i]) {
                assert(!shallow_same(actions@[i as int]@, targets@[i as int]@));
                assert(action_seq(actions@)[i as int] == actions@[i as int]@);
                assert(action_seq(targets@)[i as int] == targets@[i as int]@);
                return false;
            }
            i = i + 1;
        }
        assert(forall|j: int|
            0 <= j < actions@.len() ==> #[trigger] action_seq(actions@)[j] == actions@[j]@);
        true
    } else {
        if actions.len() == 0 || targets.len() == 0 {
            actions.len() == 0 && targets.len() == 0
        } else {
            actions[0].equals(&targets[0])
        }
    }
}

/// The keys bound to the target actions (see `actions_match`).
pub fn find_keys_for_actions(
    keymap: &Vec<(Key, Vec<Action>)>,
    target_actions: &Vec<Action>,
    exact_match: bool,
) -> (r: Vec<Key>)
    ensures
        r@ == keys_for(keymap@, action_seq(target_actions@), exact_match),
{
    let mut r: Vec<Key> = Vec::new();
    let mut i: usize = 0;
    while i < keymap.len()
        invariant
            i <= keymap.len(),
            r@ == keys_for(keymap@.subrange(0, i as int), action_seq(target_actions@), exact_match),
        decreases keymap.len() - i,
    {
        assert(keymap@.subrange(0, i + 1).drop_last() =~= keymap@.subrange(0, i as int));
        if actions_match_exec(&keymap[i].1, target_actions, exact_match) {
            r.push(keymap[i].0.clone());
        }
        i = i + 1;
    }
    assert(keymap@.subrange(0, i as int) =~= keymap@);
    r
}

pub open spec fn group_views(groups: Seq<Vec<Action>>) -> Seq<Seq<ActionView>> {
    groups.map_values(|g: Vec<Action>| action_seq(g@))
}

/// The keys bound exactly to each group, group after group.
pub open spec fn keys_for_groups(keymap: Seq<(Key, Vec<Action>)>, groups: Seq<Seq<ActionView>>) -> Seq<
    Key,
>
    decreases groups.len(),
{
    if groups.len() == 0 {
        seq![]
    } else {
        keys_for_groups(keymap, groups.drop_last()) + keys_for(keymap, groups.last(), true)
    }
}

pub fn find_keys_for_action_groups(
    keymap: &Vec<(Key, Vec<Action>)>,
    action_groups: &Vec<Vec<Action>>,
) -> (r: Vec<Key>)
    ensures
        r@ == keys_for_groups(keymap@, group_views(action_groups@)),
{
    let ghost gs = group_views(action_groups@);
    let mut r: Vec<Key> = Vec::new();
    let mut i: usize = 0;
    while i < action_groups.len()
        invariant
            gs == group_views(action_groups@),
            i <= action_groups.len(),
            r@ == keys_for_groups(keymap@, gs.subrange(0, i as int)),
        decreases action_groups.len() - i,
    {
        assert(gs.subrange(0, i + 1).drop_last() =~= gs.subrange(0, i as int));
        let mut found = find_keys_for_actions(keymap, &action_groups[i], true);
        let ghost before = r@;
        r.append(&mut found);
        i = i + 1;
    }
    assert(gs.subrange(0, i as int) =~= gs);
    r
}

/// The first key, in keymap order, with an action that launches the plugin.
pub open spec fn plugin_key_of(keymap: Seq<(Key, Vec<Action>)>, location: Seq<char>) -> Option<Key>
    decreases keymap.len(),
{
    if keymap.len() == 0 {
        None
    } else if exists|j: int|
        0 <= j < keymap[0].1@.len() && launches(#[trigger] keymap[0].1@[j]@, location) {
        Some(keymap[0].0)
    } else {
        plugin_key_of(keymap.drop_first(), location)
    }
}

pub fn plugin_key(keymap: &Vec<(Key, Vec<Action>)>, plugin_name: &str) -> (r: Option<Key>)
    ensures
        r == plugin_key_of(keymap@, plugin_name@),
{
    let mut i: usize = 0;
    assert(keymap@.subrange(0, keymap@.len() as int) =~= keymap@);
    while i < keymap.len()
        invariant
            i <= keymap.len(),
            plugin_key_of(keymap@, plugin_name@) == plugin_key_of(
                keymap@.subrange(i as int, keymap@.len() as int),
                plugin_name@,
            ),
        decreases keymap.len() - i,
    {
        let ghost rest = keymap@.subrange(i as int, keymap@.len() as int);
        assert(rest.drop_first() =~= keymap@.subrange(i + 1, keymap@.len() as int));
        assert(rest[0] == keymap@[i as int]);
        let actions = &keymap[i].1;
        let mut j: usize = 0;
        while j < actions.len()
            invariant
                i < keymap.len(),
                actions == keymap@[i as int].1,
                rest == keymap@.subrange(i as int, keymap@.len() as int),
                rest[0] == keymap@[i as int],
                plugin_key_of(keymap@, plugin_name@) == plugin_key_of(rest, plugin_name@),
                j <= actions.len(),
                forall|k: int| 0 <= k < j ==> !launches(#[trigger] actions@[k]@, plugin_name@),
            decreases actions.len() - j,
        {
            if actions[j].launches_plugin(plugin_name) {
                assert(launches(rest[0].1@[j as int]@, plugin_name@));
                return Some(keymap[i].0.clone());
            }
            j = j + 1;
        }
        assert(!exists|k: int|
            0 <= k < rest[0].1@.len() && launches(#[trigger] rest[0].1@[k]@, plugin_name@));
        i = i + 1;
    }
    assert(keymap@.subrange(i as int, keymap@.len() as int).len() == 0);
    None
}

/// The keys that lead back to normal mode: the plain Enter key when it is one
/// of them, else the first of them (or none).
pub open spec fn select_keys(keymap: Seq<(Key, Vec<Action>)>) -> Seq<Key> {
    let to_normal = keys_for(
        keymap,
        seq![ActionView::SwitchToMode { input_mode: InputMode::Normal }],
        true,
    );
    match first_plain(to_normal, BareKey::Enter) {
        Some(i) => seq![to_normal[i]],
        None => if to_normal.len() > 0 {
            to_normal.subrange(0, 1)
        } else {
            seq![]
        },
    }
}

/// The index of the first plain `bare` key.
pub open spec fn first_plain(keys: Seq<Key>, bare: BareKey) -> Option<int>
    decreases keys.len(),
{
    if keys.len() == 0 {
        None
    } else {
        match first_plain(keys.drop_last(), bare) {
            Some(i) => Some(i),
            None => if keys.last().is_plain(bare) {
                Some(keys.len() - 1)
            } else {
                None
            },
        }
    }
}

pub proof fn lemma_first_plain(keys: Seq<Key>, bare: BareKey)
    ensures
        first_plain(keys, bare) matches Some(i) ==> 0 <= i < keys.len() && keys[i].is_plain(bare),
    decreases keys.len(),
{
    if keys.len() > 0 {
        lemma_first_plain(keys.drop_last(), bare);
    }
}

/// Finds the first plain `bare` key.
pub fn find_plain(keys: &Vec<Key>, bare: BareKey) -> (r: Option<usize>)
    ensures
        r matches Some(i) ==> first_plain(keys@, bare) == Some(i as int) && i < keys@.len(),
        r is None ==> first_plain(keys@, bare) is None,
{
    let mut i: usize = 0;
    while i < keys.len()
        invariant
            i <= keys.len(),
            first_plain(keys@.subrange(0, i as int), bare) is None,
        decreases keys.len() - i,
    {
        assert(keys@.subrange(0, i + 1).drop_last() =~= keys@.subrange(0, i as int));
        if keys[i].is_plain_key(bare) {
            proof {
                lemma_first_plain_prefix(keys@, bare, i + 1);
            }
            return Some(i);
        }
        i = i + 1;
    }
    assert(keys@.subrange(0, i as int) =~= keys@);
    None
}

/// Once a prefix holds a plain `bare` key, so does the whole, at the same index.
pub proof fn lemma_first_plain_prefix(keys: Seq<Key>, bare: BareKey, n: int)
    requires
        0 <= n <= keys.len(),
        first_plain(keys.subrange(0, n), bare) is Some,
    ensures
        first_plain(keys, bare) == first_plain(keys.subrange(0, n), bare),
    decreases keys.len() - n,
{
    if n < keys.len() {
        assert(keys.subrange(0, n + 1).drop_last() =~= keys.subrange(0, n));
        lemma_first_plain_prefix(keys, bare, n + 1);
    } else {
        assert(keys.subrange(0, n) =~= keys);
    }
}

pub fn get_select_key(keymap: &Vec<(Key, Vec<Action>)>) -> (r: Vec<Key>)
    ensures
        r@ == select_keys(keymap@),
{
    let targets = vec![Action::SwitchToMode { input_mode: InputMode::Normal }];
    let to_normal_keys = find_keys_for_actions(keymap, &targets, true);
    let ghost tn = to_normal_keys@;
    assert(action_seq(targets@) =~= seq![ActionView::SwitchToMode { input_mode: InputMode::Normal }]);
    match find_plain(&to_normal_keys, BareKey::Enter) {
        Some(i) => {
            let mut r: Vec<Key> = Vec::new();
            r.push(to_normal_keys[i].clone());
            assert(r@ =~= seq![tn[i as int]]);
            r
        },
        None => {
            let mut r: Vec<Key> = Vec::new();
            if to_normal_keys.len() > 0 {
                r.push(to_normal_keys[0].clone());
            }
            assert(r@ =~= select_keys(keymap@));
            r
        },
    }
}

// ---------------------------------------------------------------------------
// Laws
// ---------------------------------------------------------------------------
/// The keys found for target actions are exactly the keys whose actions match
/// them, in the order the host lists its bindings.
pub proof fn law_keys_in_keymap_order(
    keymap: Seq<(Key, Vec<Action>)>,
    targets: Seq<ActionView>,
    exact: bool,
)
    ensures
        keys_for(keymap, targets, exact) == keymap.filter(
            |e: (Key, Vec<Action>)| actions_match(action_seq(e.1@), targets, exact),
        ).map_values(|e: (Key, Vec<Action>)| e.0),
    decreases keymap.len(),
{
    let f = |e: (Key, Vec<Action>)| actions_match(action_seq(e.1@), targets, exact);
    let g = |e: (Key, Vec<Action>)| e.0;
    reveal_with_fuel(Seq::<_>::filter, 1);
    if keymap.len() > 0 {
        law_keys_in_keymap_order(keymap.drop_last(), targets, exact);
        let sub = keymap.drop_last().filter(f);
        if f(keymap.last()) {
            assert(sub.push(keymap.last()).map_values(g) =~= sub.map_values(g).push(keymap.last().0));
        }
    } else {
        assert(keymap.filter(f).map_values(g) =~= Seq::<Key>::empty());
    }
}

} // verus!
