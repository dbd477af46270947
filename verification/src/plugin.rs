//! The plugin's own decisions: reading its configuration, reacting to host
//! events, and composing the status text it sends to the status bar.
use vstd::prelude::*;
use crate::actions::{Action, InputMode};
use crate::ansi::{
    calculate_visible_length, law_truncate_fits, truncate_ansi_string, truncated, visible_len,
};
use crate::hints::{display_label, mode_hints, render_hints_for_mode};
use crate::keys::{bare_key_text, lookup_last, Aliases, Key, ModifierStyle};
use crate::style::{ansi_rendering, render_segments};
use zellij_tile::prelude::ModeInfo;
use crate::text::{
    chars_equal, chars_of, equals_str, extend, lowercase, parse_unsigned, parse_unsigned_exec,
    replace, replace_exec, string_of, strip_prefix, strip_prefix_exec, to_lowercase,
};

verus! {

// ---------------------------------------------------------------------------
// Configuration
// ---------------------------------------------------------------------------
/// The plugin's settings.
pub struct Config {
    pub max_length: usize,
    pub overflow_str: String,
    pub pipe_name: String,
    pub hide_in_base_mode: bool,
    pub modifier_style: ModifierStyle,
    pub hint_format: String,
    pub separator: String,
    pub max_keys: usize,
    pub action_aliases: Aliases,
    pub key_aliases: Aliases,
    /// Every setting, for the colour lookups of keys and labels.
    pub colour_settings: Aliases,
    pub transparent_bg: bool,
}

pub open spec fn entry_views(v: Seq<(String, String)>) -> Seq<(Seq<char>, Seq<char>)> {
    v.map_values(|p: (String, String)| (p.0@, p.1@))
}

/// The value of the first entry named `k`.
pub open spec fn config_get(entries: Seq<(Seq<char>, Seq<char>)>, k: Seq<char>) -> Option<Seq<char>>
    decreases entries.len(),
{
    if entries.len() == 0 {
        None
    } else if entries[0].0 == k {
        Some(entries[0].1)
    } else {
        config_get(entries.drop_first(), k)
    }
}

/// A count setting: its decimal value, or 0 when absent or unreadable.
pub open spec fn count_setting(v: Option<Seq<char>>) -> nat {
    match v {
        Some(s) => match parse_unsigned(s, 10, usize::MAX as nat) {
            Some(n) => n,
            None => 0,
        },
        None => 0,
    }
}

pub open spec fn text_setting(v: Option<Seq<char>>, default: Seq<char>) -> Seq<char> {
    match v {
        Some(s) => s,
        None => default,
    }
}

/// A flag is set when its value reads `true` in any case.
pub open spec fn flag_setting(v: Option<Seq<char>>) -> bool {
    match v {
        Some(s) => lowercase(s) == "true"@,
        None => false,
    }
}

pub open spec fn style_setting(v: Option<Seq<char>>) -> ModifierStyle {
    match v {
        Some(s) => if s == "short"@ {
            ModifierStyle::Short
        } else if s == "symbol"@ {
            ModifierStyle::Symbol
        } else {
            ModifierStyle::Long
        },
        None => ModifierStyle::Long,
    }
}

/// The label aliases: each `alias_<name>` entry, `_` in the name read as a space.
pub open spec fn action_alias_entries(entries: Seq<(Seq<char>, Seq<char>)>) -> Seq<
    (Seq<char>, Seq<char>),
>
    decreases entries.len(),
{
    if entries.len() == 0 {
        seq![]
    } else {
        let prev = action_alias_entries(entries.drop_last());
        match strip_prefix(entries.last().0, "alias_"@) {
            Some(raw) => prev.push((replace(raw, "_"@, " "@), entries.last().1)),
            None => prev,
        }
    }
}

/// The key aliases: each `key_alias_<name>` entry, by the lowercased name.
pub open spec fn key_alias_entries(entries: Seq<(Seq<char>, Seq<char>)>) -> Seq<
    (Seq<char>, Seq<char>),
>
    decreases entries.len(),
{
    if entries.len() == 0 {
        seq![]
    } else {
        let prev = key_alias_entries(entries.drop_last());
        match strip_prefix(entries.last().0, "key_alias_"@) {
            Some(raw) => prev.push((lowercase(raw), entries.last().1)),
            None => prev,
        }
    }
}

/// The settings the entries give, each missing or unreadable one at its default.
pub open spec fn config_from(c: Config, entries: Seq<(Seq<char>, Seq<char>)>) -> bool {
    &&& c.max_length == count_setting(config_get(entries, "max_length"@))
    &&& c.overflow_str@ == text_setting(config_get(entries, "overflow_str"@), "..."@)
    &&& c.pipe_name@ == text_setting(config_get(entries, "pipe_name"@), "zjstatus_hints"@)
    &&& c.hide_in_base_mode == flag_setting(config_get(entries, "hide_in_base_mode"@))
    &&& c.modifier_style == style_setting(config_get(entries, "modifier_style"@))
    &&& c.hint_format@ == text_setting(
        config_get(entries, "hint_format"@),
        "{key} {action}"@,
    )
    &&& c.separator@ == text_setting(config_get(entries, "separator"@), ""@)
    &&& c.max_keys == count_setting(config_get(entries, "max_keys"@))
    &&& c.action_aliases@ == action_alias_entries(entries)
    &&& c.key_aliases@ == key_alias_entries(entries)
    &&& c.colour_settings@ == entries
    &&& c.transparent_bg == flag_setting(config_get(entries, "transparent_bg"@))
}

fn get_entry(entries: &Vec<(String, String)>, k: &str) -> (r: Option<String>)
    ensures
        r matches Some(v) ==> config_get(entry_views(entries@), k@) == Some(v@),
        r is None ==> config_get(entry_views(entries@), k@) is None,
{
    let kv = chars_of(k);
    let ghost all = entry_views(entries@);
    assert(all.subrange(0, all.len() as int) =~= all);
    let mut i: usize = 0;
    while i < entries.len()
        invariant
            i <= entries.len(),
            kv@ == k@,
            all == entry_views(entries@),
            config_get(all, k@) == config_get(all.subrange(i as int, all.len() as int), k@),
        decreases entries.len() - i,
    {
        let ghost rest = all.subrange(i as int, all.len() as int);
        assert(rest.drop_first() =~= all.subrange(i + 1, all.len() as int));
        assert(rest[0] == (entries@[i as int].0@, entries@[i as int].1@));
        let ek = chars_of(entries[i].0.as_str());
        if chars_equal(&ek, &kv) {
            return Some(entries[i].1.clone());
        }
        i = i + 1;
    }
    None
}

fn count_of(v: Option<String>) -> (r: usize)
    ensures
        r == count_setting(match v {
            Some(s) => Some(s@),
            None => None,
        }),
{
    match v {
        Some(s) => {
            let c = chars_of(s.as_str());
            match parse_unsigned_exec(&c, 10, usize::MAX as u64) {
                Some(n) => n as usize,
                None => 0,
            }
        },
        None => 0,
    }
}

fn text_of(v: Option<String>, default: &str) -> (r: String)
    ensures
        r@ == text_setting(
            match v {
                Some(s) => Some(s@),
                None => None,
            },
            default@,
        ),
{
    match v {
        Some(s) => s,
        None => default.to_owned(),
    }
}

fn flag_of(v: Option<String>) -> (r: bool)
    ensures
        r == flag_setting(
            match v {
                Some(s) => Some(s@),
                None => None,
            },
        ),
{
    match v {
        Some(s) => {
            let l = to_lowercase(s.as_str());
            let lc = chars_of(l.as_str());
            equals_str(&lc, "true")
        },
        None => false,
    }
}

impl Config {
    /// Reads the settings from the configuration entries (in key order).
    pub fn load(configuration: &Vec<(String, String)>) -> (c: Config)
        ensures
            config_from(c, entry_views(configuration@)),
    {
        let ghost es = entry_views(configuration@);
        let max_length = count_of(get_entry(configuration, "max_length"));
        let overflow_str = text_of(get_entry(configuration, "overflow_str"), "...");
        let pipe_name = text_of(get_entry(configuration, "pipe_name"), "zjstatus_hints");
        let hide_in_base_mode = flag_of(get_entry(configuration, "hide_in_base_mode"));
        let modifier_style = match get_entry(configuration, "modifier_style") {
            Some(s) => ModifierStyle::from_str(s.as_str()),
            None => ModifierStyle::Long,
        };
        let hint_format = text_of(get_entry(configuration, "hint_format"), "{key} {action}");
        let separator = text_of(get_entry(configuration, "separator"), "");
        let max_keys = count_of(get_entry(configuration, "max_keys"));
        let action_aliases = collect_action_aliases(configuration);
        let key_aliases = collect_key_aliases(configuration);
        let colour_settings = collect_settings(configuration);
        let transparent_bg = flag_of(get_entry(configuration, "transparent_bg"));
        Config {
            max_length,
            overflow_str,
            pipe_name,
            hide_in_base_mode,
            modifier_style,
            hint_format,
            separator,
            max_keys,
            action_aliases,
            key_aliases,
            colour_settings,
            transparent_bg,
        }
    }
}

fn collect_settings(entries: &Vec<(String, String)>) -> (a: Aliases)
    ensures
        a@ == entry_views(entries@),
{
    let ghost all = entry_views(entries@);
    let mut a = Aliases::new();
    let mut i: usize = 0;
    while i < entries.len()
        invariant
            i <= entries.len(),
            all == entry_views(entries@),
            a@ == all.subrange(0, i as int),
        decreases entries.len() - i,
    {
        assert(all[i as int] == (entries@[i as int].0@, entries@[i as int].1@));
        a.insert(entries[i].0.clone(), entries[i].1.clone());
        assert(all.subrange(0, i + 1) =~= all.subrange(0, i as int).push(all[i as int]));
        i = i + 1;
    }
    assert(all.subrange(0, i as int) =~= all);
    a
}

fn collect_action_aliases(entries: &Vec<(String, String)>) -> (a: Aliases)
    ensures
        a@ == action_alias_entries(entry_views(entries@)),
{
    let ghost all = entry_views(entries@);
    let prefix = chars_of("alias_");
    let underscore = chars_of("_");
    let space = chars_of(" ");
    proof {
        reveal_strlit("_");
    }
    let mut a = Aliases::new();
    let mut i: usize = 0;
    while i < entries.len()
        invariant
            i <= entries.len(),
            all == entry_views(entries@),
            prefix@ == "alias_"@,
            underscore@ == "_"@,
            underscore@.len() > 0,
            space@ == " "@,
            a@ == action_alias_entries(all.subrange(0, i as int)),
        decreases entries.len() - i,
    {
        assert(all.subrange(0, i + 1).drop_last() =~= all.subrange(0, i as int));
        assert(all[i as int] == (entries@[i as int].0@, entries@[i as int].1@));
        let k = chars_of(entries[i].0.as_str());
        match strip_prefix_exec(&k, &prefix) {
            Some(raw) => {
                let label = replace_exec(&raw, &underscore, &space);
                a.insert(string_of(&label), entries[i].1.clone());
            },
            None => {},
        }
        i = i + 1;
    }
    assert(all.subrange(0, i as int) =~= all);
    a
}

fn collect_key_aliases(entries: &Vec<(String, String)>) -> (a: Aliases)
    ensures
        a@ == key_alias_entries(entry_views(entries@)),
{
    let ghost all = entry_views(entries@);
    let prefix = chars_of("key_alias_");
    let mut a = Aliases::new();
    let mut i: usize = 0;
    while i < entries.len()
        invariant
            i <= entries.len(),
            all == entry_views(entries@),
            prefix@ == "key_alias_"@,
            a@ == key_alias_entries(all.subrange(0, i as int)),
        decreases entries.len() - i,
    {
        assert(all.subrange(0, i + 1).drop_last() =~= all.subrange(0, i as int));
        assert(all[i as int] == (entries@[i as int].0@, entries@[i as int].1@));
        let k = chars_of(entries[i].0.as_str());
        match strip_prefix_exec(&k, &prefix) {
            Some(raw) => {
                let raw_s = string_of(&raw);
                let name = to_lowercase(raw_s.as_str());
                a.insert(name, entries[i].1.clone());
            },
            None => {},
        }
        i = i + 1;
    }
    assert(all.subrange(0, i as int) =~= all);
    a
}

// ---------------------------------------------------------------------------
// Key bindings of a mode
// ---------------------------------------------------------------------------
/// The bindings of `mode`: those of the first group the host lists for it, or none.
pub open spec fn mode_bindings(
    keybinds: Seq<(InputMode, Vec<(Key, Vec<Action>)>)>,
    mode: InputMode,
) -> Seq<(Key, Vec<Action>)>
    decreases keybinds.len(),
{
    if keybinds.len() == 0 {
        seq![]
    } else if keybinds[0].0 == mode {
        keybinds[0].1@
    } else {
        mode_bindings(keybinds.drop_first(), mode)
    }
}

/// The keys bound in the current mode, taken from the host's key bindings of all modes.
pub fn get_keymap_for_mode(
    mode: InputMode,
    keybinds: Vec<(InputMode, Vec<(Key, Vec<Action>)>)>,
) -> (r: Vec<(Key, Vec<Action>)>)
    ensures
        r@ == mode_bindings(keybinds@, mode),
{
    let mut groups = keybinds;
    let ghost all = groups@;
    assert(all.subrange(0, all.len() as int) =~= all);
    let mut i: usize = 0;
    while i < groups.len()
        invariant
            groups@ == all,
            all == keybinds@,
            i <= groups.len(),
            mode_bindings(all, mode) == mode_bindings(all.subrange(i as int, all.len() as int), mode),
        decreases groups.len() - i,
    {
        let ghost rest = all.subrange(i as int, all.len() as int);
        assert(rest.drop_first() =~= all.subrange(i + 1, all.len() as int));
        assert(rest[0] == all[i as int]);
        if groups[i].0 == mode {
            let (_, bindings) = groups.remove(i);
            return bindings;
        }
        i = i + 1;
    }
    Vec::new()
}

// ---------------------------------------------------------------------------
// Host events
// ---------------------------------------------------------------------------
/// What happened, as far as the plugin's decisions go.
#[derive(Clone, Copy, PartialEq, Eq, Structural, Debug)]
pub enum HostEvent {
    /// The host reported its mode information, different from the last report.
    ModeChanged,
    /// The host reported its mode information, the same as the last report.
    ModeUnchanged,
    /// The user granted or denied the plugin's permissions.
    PermissionResolved,
    /// Any other event.
    Other,
}

/// What the plugin does about an event.
pub struct UpdateDecision {
    /// The status text must be composed and sent again.
    pub should_render: bool,
    /// The plugin's pane must stop taking focus.
    pub set_unselectable: bool,
}

/// The plugin renders until it has shown something, and whenever the mode
/// information changes; it leaves the pane selectable until the permission
/// dialog there has been answered.
pub fn decide_update(initialized: bool, event: HostEvent) -> (d: UpdateDecision)
    ensures
        d.should_render == (!initialized || event == HostEvent::ModeChanged),
        d.set_unselectable == (event == HostEvent::PermissionResolved),
{
    let mut should_render = !initialized;
    let mut set_unselectable = false;
    match event {
        HostEvent::ModeChanged => {
            should_render = true;
        },
        HostEvent::PermissionResolved => {
            set_unselectable = true;
        },
        _ => {},
    }
    UpdateDecision { should_render, set_unselectable }
}

// ---------------------------------------------------------------------------
// Output
// ---------------------------------------------------------------------------
/// The hints are hidden: the setting is on and the mode is the base mode.
pub open spec fn hidden(config: Config, mode: InputMode, base_mode: Option<InputMode>) -> bool {
    config.hide_in_base_mode && base_mode == Some(mode)
}

pub open spec fn config_settings(config: Config) -> crate::hints::HintSettings {
    crate::hints::HintSettings {
        modifier_style: config.modifier_style,
        hint_format: config.hint_format@,
        separator: config.separator@,
        max_keys: config.max_keys as nat,
        action_aliases: config.action_aliases@,
        key_aliases: config.key_aliases@,
        colour_settings: config.colour_settings@,
        transparent_bg: config.transparent_bg,
    }
}

/// The status text made of the rendered hints: a space and the hints, cut to
/// `max_length` visible characters when that is set and exceeded.
pub open spec fn finished(rendered: Seq<char>, max_length: nat, overflow: Seq<char>) -> Seq<char> {
    let formatted = " "@ + rendered;
    if max_length > 0 && visible_len(formatted) > max_length {
        truncated(formatted, overflow, max_length)
    } else {
        formatted
    }
}

/// The status text: nothing when hidden; else the rendered hints, finished.
pub open spec fn status_text(
    config: Config,
    mode: InputMode,
    base_mode: Option<InputMode>,
    keymap: Seq<(Key, Vec<Action>)>,
) -> Seq<char> {
    if hidden(config, mode, base_mode) {
        seq![]
    } else {
        finished(
            ansi_rendering(mode_hints(mode, keymap, config_settings(config))),
            config.max_length as nat,
            config.overflow_str@,
        )
    }
}

/// Finishes the status text from the rendered hints (see `finished`).
pub fn finish_status(rendered: &str, max_length: usize, overflow: &str) -> (r: String)
    ensures
        r@ == finished(rendered@, max_length as nat, overflow@),
{
    let mut f = chars_of(" ");
    let rc = chars_of(rendered);
    extend(&mut f, &rc);
    let formatted = string_of(&f);
    let visible_len = calculate_visible_length(formatted.as_str());
    if max_length > 0 && visible_len > max_length {
        truncate_ansi_string(formatted.as_str(), overflow, max_length)
    } else {
        formatted
    }
}

/// The status text for the current mode.
pub fn compose_status(
    config: &Config,
    mode: InputMode,
    base_mode: Option<InputMode>,
    keymap: &Vec<(Key, Vec<Action>)>,
) -> (r: String)
    ensures
        r@ == status_text(*config, mode, base_mode, keymap@),
{
    let hide = config.hide_in_base_mode && match base_mode {
        Some(b) => b == mode,
        None => false,
    };
    if hide {
        return String::new();
    }
    let parts = render_hints_for_mode(
        mode,
        keymap,
        config.modifier_style,
        config.hint_format.as_str(),
        config.separator.as_str(),
        config.max_keys,
        &config.action_aliases,
        &config.key_aliases,
        &config.colour_settings,
        config.transparent_bg,
    );
    let rendered = render_segments(&parts);
    finish_status(rendered.as_str(), config.max_length, config.overflow_str.as_str())
}

/// The message that hands `output` to the status bar through the pipe `pipe_name`.
pub fn pipe_payload(pipe_name: &str, output: &str) -> (r: String)
    ensures
        r@ == "zjstatus::pipe::pipe_"@ + pipe_name@ + "::"@ + output@,
{
    let mut r = chars_of("zjstatus::pipe::pipe_");
    let p = chars_of(pipe_name);
    extend(&mut r, &p);
    let sep = chars_of("::");
    extend(&mut r, &sep);
    let o = chars_of(output);
    extend(&mut r, &o);
    string_of(&r)
}

/// The plugin has shown something once it has sent a non-empty status text.
pub fn initialized_after(initialized: bool, output: &str) -> (r: bool)
    ensures
        r == (initialized || output@.len() > 0),
{
    initialized || !output.is_empty()
}

// ---------------------------------------------------------------------------
// The plugin's state
// ---------------------------------------------------------------------------
/// The host's mode information (`zellij_tile::prelude::ModeInfo`), carried as it is.
#[verifier::external_type_specification]
#[verifier::external_body]
pub struct ExModeInfo(ModeInfo);

/// `ModeInfo::default()`: the mode information the plugin holds before the host
/// reports any. Nothing is stated of it.
#[verifier::external_body]
fn default_mode_info() -> ModeInfo {
    ModeInfo::default()
}

/// What `==` on two `ModeInfo` values gives (its derived `PartialEq`, which
/// depends on the two values alone; keys written `A` and `Shift a` compare equal).
pub uninterp spec fn mode_infos_equal(a: ModeInfo, b: ModeInfo) -> bool;

/// `==` on `ModeInfo` (its derived `PartialEq`): its result is named
/// `mode_infos_equal`, and it holds of equal values.
#[verifier::external_body]
fn same_mode_info(a: &ModeInfo, b: &ModeInfo) -> (r: bool)
    ensures
        r == mode_infos_equal(*a, *b),
        *a == *b ==> r,
{
    a == b
}

/// What the plugin keeps between events.
pub struct PluginState {
    /// A non-empty status text has been sent.
    pub initialized: bool,
    pub config: Config,
    /// The mode information the host reported last.
    pub mode_info: ModeInfo,
}

/// An event from the host, as far as the plugin's state goes.
pub enum HostUpdate {
    /// The host reported its mode information.
    Mode(ModeInfo),
    /// The user granted or denied the plugin's permissions.
    PermissionResolved,
    /// Any other event.
    Other,
}

/// The state after an update: a mode report is kept; nothing else changes.
pub open spec fn updated(s: PluginState, u: HostUpdate) -> PluginState {
    match u {
        HostUpdate::Mode(mi) => PluginState { mode_info: mi, ..s },
        _ => s,
    }
}

/// An update that needs no new rendering: the plugin has shown something and
/// the update repeats the mode information it holds, or is no mode report.
pub open spec fn quiet_update(s: PluginState, u: HostUpdate) -> bool {
    s.initialized && match u {
        HostUpdate::Mode(mi) => s.mode_info == mi,
        _ => true,
    }
}

impl PluginState {
    /// The state after loading: the settings read, nothing shown yet.
    pub fn load(configuration: &Vec<(String, String)>) -> (s: PluginState)
        ensures
            !s.initialized,
            config_from(s.config, entry_views(configuration@)),
    {
        PluginState {
            initialized: false,
            config: Config::load(configuration),
            mode_info: default_mode_info(),
        }
    }

    /// Takes an update from the host: renders until something was shown and
    /// whenever the mode information changes; stops the pane taking focus once
    /// the permission dialog shown there was answered.
    pub fn update(&mut self, update: HostUpdate) -> (d: UpdateDecision)
        ensures
            *final(self) == updated(*old(self), update),
            match update {
                HostUpdate::Mode(mi) => d.should_render == (!old(self).initialized
                    || !mode_infos_equal(old(self).mode_info, mi)),
                _ => d.should_render == !old(self).initialized,
            },
            !old(self).initialized ==> d.should_render,
            quiet_update(*old(self), update) ==> !d.should_render,
            d.set_unselectable == (update is PermissionResolved),
    {
        match update {
            HostUpdate::Mode(mi) => {
                let same = same_mode_info(&self.mode_info, &mi);
                self.mode_info = mi;
                let event = if same {
                    HostEvent::ModeUnchanged
                } else {
                    HostEvent::ModeChanged
                };
                decide_update(self.initialized, event)
            },
            HostUpdate::PermissionResolved => decide_update(
                self.initialized,
                HostEvent::PermissionResolved,
            ),
            HostUpdate::Other => decide_update(self.initialized, HostEvent::Other),
        }
    }

    /// Notes that `output` was sent as the status text.
    pub fn rendered(&mut self, output: &str)
        ensures
            final(self).initialized == initialized_spec(old(self).initialized, output@),
            final(self).config == old(self).config,
            final(self).mode_info == old(self).mode_info,
    {
        self.initialized = initialized_after(self.initialized, output);
    }
}

/// Whether something has been shown after sending `output`.
pub open spec fn initialized_spec(initialized: bool, output: Seq<char>) -> bool {
    initialized || output.len() > 0
}

// ---------------------------------------------------------------------------
// Laws
// ---------------------------------------------------------------------------
proof fn lemma_strip_own_prefix(p: Seq<char>, rest: Seq<char>)
    ensures
        strip_prefix(p + rest, p) == Some(rest),
{
    assert((p + rest).subrange(0, p.len() as int) =~= p);
    assert((p + rest).subrange(p.len() as int, (p + rest).len() as int) =~= rest);
}

proof fn lemma_action_alias_lookup(entries: Seq<(Seq<char>, Seq<char>)>, i: int, name: Seq<char>)
    requires
        0 <= i < entries.len(),
        entries[i].0 == "alias_"@ + name,
        forall|j: int|
            i < j < entries.len() ==> match strip_prefix(#[trigger] entries[j].0, "alias_"@) {
                Some(raw) => replace(raw, "_"@, " "@) != replace(name, "_"@, " "@),
                None => true,
            },
    ensures
        lookup_last(action_alias_entries(entries), replace(name, "_"@, " "@)) == Some(entries[i].1),
    decreases entries.len(),
{
    let label = replace(name, "_"@, " "@);
    let prev = action_alias_entries(entries.drop_last());
    if i == entries.len() - 1 {
        lemma_strip_own_prefix("alias_"@, name);
        assert(action_alias_entries(entries) == prev.push((label, entries[i].1)));
        assert(prev.push((label, entries[i].1)).drop_last() =~= prev);
    } else {
        let rest = entries.drop_last();
        assert forall|j: int| i < j < rest.len() implies match strip_prefix(
            #[trigger] rest[j].0,
            "alias_"@,
        ) {
            Some(raw) => replace(raw, "_"@, " "@) != label,
            None => true,
        } by {
            assert(rest[j] == entries[j]);
        }
        lemma_action_alias_lookup(rest, i, name);
        let last = entries[entries.len() - 1];
        match strip_prefix(last.0, "alias_"@) {
            Some(raw) => {
                let e = (replace(raw, "_"@, " "@), last.1);
                assert(action_alias_entries(entries) == prev.push(e));
                assert(prev.push(e).drop_last() =~= prev);
            },
            None => {},
        }
    }
}

/// An `alias_<name>` setting renames the label `<name>` (each `_` of it read as
/// a space) to its value, unless a later setting renames the same label.
pub proof fn law_alias_renames_label(
    c: Config,
    entries: Seq<(Seq<char>, Seq<char>)>,
    i: int,
    name: Seq<char>,
)
    requires
        config_from(c, entries),
        0 <= i < entries.len(),
        entries[i].0 == "alias_"@ + name,
        forall|j: int|
            i < j < entries.len() ==> match strip_prefix(#[trigger] entries[j].0, "alias_"@) {
                Some(raw) => replace(raw, "_"@, " "@) != replace(name, "_"@, " "@),
                None => true,
            },
    ensures
        display_label(replace(name, "_"@, " "@), c.action_aliases@) == entries[i].1,
{
    lemma_action_alias_lookup(entries, i, name);
}

proof fn lemma_key_alias_lookup(entries: Seq<(Seq<char>, Seq<char>)>, i: int, name: Seq<char>)
    requires
        0 <= i < entries.len(),
        entries[i].0 == "key_alias_"@ + name,
        forall|j: int|
            i < j < entries.len() ==> match strip_prefix(#[trigger] entries[j].0, "key_alias_"@) {
                Some(raw) => lowercase(raw) != lowercase(name),
                None => true,
            },
    ensures
        lookup_last(key_alias_entries(entries), lowercase(name)) == Some(entries[i].1),
    decreases entries.len(),
{
    let prev = key_alias_entries(entries.drop_last());
    if i == entries.len() - 1 {
        lemma_strip_own_prefix("key_alias_"@, name);
        let e = (lowercase(name), entries[i].1);
        assert(key_alias_entries(entries) == prev.push(e));
        assert(prev.push(e).drop_last() =~= prev);
    } else {
        let rest = entries.drop_last();
        assert forall|j: int| i < j < rest.len() implies match strip_prefix(
            #[trigger] rest[j].0,
            "key_alias_"@,
        ) {
            Some(raw) => lowercase(raw) != lowercase(name),
            None => true,
        } by {
            assert(rest[j] == entries[j]);
        }
        lemma_key_alias_lookup(rest, i, name);
        let last = entries[entries.len() - 1];
        match strip_prefix(last.0, "key_alias_"@) {
            Some(raw) => {
                let e = (lowercase(raw), last.1);
                assert(key_alias_entries(entries) == prev.push(e));
                assert(prev.push(e).drop_last() =~= prev);
            },
            None => {},
        }
    }
}

/// A `key_alias_<name>` setting renames every key whose name lowercases as
/// `<name>` does, unless a later setting renames the same lowercased name.
pub proof fn law_key_alias_renames_key(
    c: Config,
    entries: Seq<(Seq<char>, Seq<char>)>,
    i: int,
    name: Seq<char>,
    key_name: Seq<char>,
)
    requires
        config_from(c, entries),
        0 <= i < entries.len(),
        entries[i].0 == "key_alias_"@ + name,
        lowercase(key_name) == lowercase(name),
        forall|j: int|
            i < j < entries.len() ==> match strip_prefix(#[trigger] entries[j].0, "key_alias_"@) {
                Some(raw) => lowercase(raw) != lowercase(name),
                None => true,
            },
    ensures
        bare_key_text(key_name, c.key_aliases@) == entries[i].1,
{
    lemma_key_alias_lookup(entries, i, name);
}

/// Hidden hints send nothing to the status bar.
pub proof fn law_hidden_in_base_mode(
    config: Config,
    mode: InputMode,
    keymap: Seq<(Key, Vec<Action>)>,
)
    requires
        config.hide_in_base_mode,
    ensures
        status_text(config, mode, Some(mode), keymap) == Seq::<char>::empty(),
{
}

/// With a `max_length` set, the status text never shows more than
/// `max_length` characters.
pub proof fn law_status_fits(
    config: Config,
    mode: InputMode,
    base_mode: Option<InputMode>,
    keymap: Seq<(Key, Vec<Action>)>,
)
    requires
        config.max_length > 0,
    ensures
        visible_len(status_text(config, mode, base_mode, keymap)) <= config.max_length,
{
    if hidden(config, mode, base_mode) {
        assert(visible_len(Seq::<char>::empty()) == 0);
    } else {
        let formatted = " "@ + ansi_rendering(mode_hints(mode, keymap, config_settings(config)));
        if visible_len(formatted) > config.max_length {
            law_truncate_fits(formatted, config.overflow_str@, config.max_length as nat);
        }
    }
}

/// Once the plugin has shown something, a mode report that repeats the one
/// before needs no rendering and leaves the state as it was.
pub proof fn law_repeated_mode_update(s: PluginState, mi: ModeInfo)
    requires
        s.initialized,
    ensures
        quiet_update(updated(s, HostUpdate::Mode(mi)), HostUpdate::Mode(mi)),
        updated(updated(s, HostUpdate::Mode(mi)), HostUpdate::Mode(mi)) == updated(
            s,
            HostUpdate::Mode(mi),
        ),
{
}

/// The style the user names is the style loaded: `short` gives the short style
/// (`C-n`), `symbol` the symbol style (`^n`), and any other value, or none, the
/// long style (`Ctrl + n`).
pub proof fn law_modifier_style_setting(c: Config, entries: Seq<(Seq<char>, Seq<char>)>)
    requires
        config_from(c, entries),
    ensures
        (c.modifier_style == ModifierStyle::Short) == (config_get(entries, "modifier_style"@)
            == Some("short"@)),
        (c.modifier_style == ModifierStyle::Symbol) == (config_get(entries, "modifier_style"@)
            == Some("symbol"@)),
        (c.modifier_style == ModifierStyle::Long) == (config_get(entries, "modifier_style"@)
            != Some("short"@) && config_get(entries, "modifier_style"@) != Some("symbol"@)),
{
    reveal_strlit("short");
    reveal_strlit("symbol");
    assert("short"@ != "symbol"@) by {
        assert("short"@.len() != "symbol"@.len());
    }
}

} // verus!
