//! Keys as the host reports them, and how a group of keys bound to one action
//! is written in a hint (`Ctrl + n`, `C-n`, `^n`, `←→`, `h|j|k|l`, ...).
use vstd::prelude::*;
use crate::text::{
    chars_equal, chars_of, equals_str, extend, join, join_exec, lowercase, string_of, to_lowercase,
    views,
};

verus! {

/// A modifier key.
#[derive(Clone, Copy, PartialEq, Eq, Structural, Debug)]
pub enum KeyModifier {
    Ctrl,
    Alt,
    Shift,
    Super,
}

/// The set of modifiers held with a key.
#[derive(Clone, Copy, PartialEq, Eq, Structural, Debug)]
pub struct Modifiers {
    pub ctrl: bool,
    pub alt: bool,
    pub shift: bool,
    pub super_key: bool,
}

impl Modifiers {
    pub open spec fn has(self, m: KeyModifier) -> bool {
        match m {
            KeyModifier::Ctrl => self.ctrl,
            KeyModifier::Alt => self.alt,
            KeyModifier::Shift => self.shift,
            KeyModifier::Super => self.super_key,
        }
    }

    pub open spec fn is_empty(self) -> bool {
        !self.ctrl && !self.alt && !self.shift && !self.super_key
    }

    /// No modifier.
    pub fn none() -> (m: Modifiers)
        ensures
            m.is_empty(),
    {
        Modifiers { ctrl: false, alt: false, shift: false, super_key: false }
    }

    pub fn contains(&self, m: KeyModifier) -> (r: bool)
        ensures
            r == self.has(m),
    {
        match m {
            KeyModifier::Ctrl => self.ctrl,
            KeyModifier::Alt => self.alt,
            KeyModifier::Shift => self.shift,
            KeyModifier::Super => self.super_key,
        }
    }
}

/// The modifiers of a set, in the order Ctrl, Alt, Shift, Super.
pub open spec fn modifier_list(m: Modifiers) -> Seq<KeyModifier> {
    (if m.ctrl {
        seq![KeyModifier::Ctrl]
    } else {
        seq![]
    }) + (if m.alt {
        seq![KeyModifier::Alt]
    } else {
        seq![]
    }) + (if m.shift {
        seq![KeyModifier::Shift]
    } else {
        seq![]
    }) + (if m.super_key {
        seq![KeyModifier::Super]
    } else {
        seq![]
    })
}

/// A key without modifiers.
#[derive(Clone, Copy, PartialEq, Eq, Structural, Debug)]
pub enum BareKey {
    PageDown,
    PageUp,
    Left,
    Down,
    Up,
    Right,
    Home,
    End,
    Backspace,
    Delete,
    Insert,
    F(u8),
    Char(char),
    Tab,
    Esc,
    Enter,
    CapsLock,
    ScrollLock,
    NumLock,
    PrintScreen,
    Pause,
    Menu,
}

/// The character of the decimal digit `d`.
pub open spec fn digit_char(d: nat) -> char {
    (48 + d) as char
}

/// The decimal digits of `n`.
pub open spec fn decimal(n: nat) -> Seq<char>
    decreases n,
{
    if n < 10 {
        seq![digit_char(n)]
    } else {
        decimal(n / 10).push(digit_char(n % 10))
    }
}

/// The text the host shows for a bare key.
pub open spec fn bare_name(b: BareKey) -> Seq<char> {
    match b {
        BareKey::PageDown => "PgDn"@,
        BareKey::PageUp => "PgUp"@,
        BareKey::Left => "←"@,
        BareKey::Down => "↓"@,
        BareKey::Up => "↑"@,
        BareKey::Right => "→"@,
        BareKey::Home => "HOME"@,
        BareKey::End => "END"@,
        BareKey::Backspace => "BACKSPACE"@,
        BareKey::Delete => "DEL"@,
        BareKey::Insert => "INS"@,
        BareKey::F(n) => "F"@ + decimal(n as nat),
        BareKey::Char(c) => if c == ' ' {
            "SPACE"@
        } else {
            seq![c]
        },
        BareKey::Tab => "TAB"@,
        BareKey::Esc => "ESC"@,
        BareKey::Enter => "ENTER"@,
        BareKey::CapsLock => "CAPSlOCK"@,
        BareKey::ScrollLock => "SCROLLlOCK"@,
        BareKey::NumLock => "NUMLOCK"@,
        BareKey::PrintScreen => "PRINTSCREEN"@,
        BareKey::Pause => "PAUSE"@,
        BareKey::Menu => "MENU"@,
    }
}

fn digit(d: u8) -> (c: char)
    requires
        d < 10,
    ensures
        c == digit_char(d as nat),
{
    (48u8 + d) as char
}

fn decimal_u8(n: u8) -> (v: Vec<char>)
    ensures
        v@ == decimal(n as nat),
{
    let mut v: Vec<char> = Vec::new();
    let ghost m = n as nat;
    if n >= 100 {
        v.push(digit(n / 100));
        v.push(digit((n / 10) % 10));
        v.push(digit(n % 10));
        assert(m / 10 / 10 == m / 100);
        assert(decimal(m / 100) == seq![digit_char(m / 100)]);
        assert(decimal(m / 10) == decimal(m / 100).push(digit_char((m / 10) % 10)));
        assert(decimal(m) == decimal(m / 10).push(digit_char(m % 10)));
    } else if n >= 10 {
        v.push(digit(n / 10));
        v.push(digit(n % 10));
        assert(decimal(m / 10) == seq![digit_char(m / 10)]);
        assert(decimal(m) == decimal(m / 10).push(digit_char(m % 10)));
    } else {
        v.push(digit(n));
    }
    assert(v@ =~= decimal(m));
    v
}

/// The text the host shows for a bare key.
pub fn bare_key_name(b: BareKey) -> (s: String)
    ensures
        s@ == bare_name(b),
{
    match b {
        BareKey::PageDown => "PgDn".to_owned(),
        BareKey::PageUp => "PgUp".to_owned(),
        BareKey::Left => "←".to_owned(),
        BareKey::Down => "↓".to_owned(),
        BareKey::Up => "↑".to_owned(),
        BareKey::Right => "→".to_owned(),
        BareKey::Home => "HOME".to_owned(),
        BareKey::End => "END".to_owned(),
        BareKey::Backspace => "BACKSPACE".to_owned(),
        BareKey::Delete => "DEL".to_owned(),
        BareKey::Insert => "INS".to_owned(),
        BareKey::F(n) => {
            let mut v = chars_of("F");
            let d = decimal_u8(n);
            extend(&mut v, &d);
            string_of(&v)
        },
        BareKey::Char(c) => if c == ' ' {
            "SPACE".to_owned()
        } else {
            let mut v: Vec<char> = Vec::new();
            v.push(c);
            assert(v@ =~= seq![c]);
            string_of(&v)
        },
        BareKey::Tab => "TAB".to_owned(),
        BareKey::Esc => "ESC".to_owned(),
        BareKey::Enter => "ENTER".to_owned(),
        BareKey::CapsLock => "CAPSlOCK".to_owned(),
        BareKey::ScrollLock => "SCROLLlOCK".to_owned(),
        BareKey::NumLock => "NUMLOCK".to_owned(),
        BareKey::PrintScreen => "PRINTSCREEN".to_owned(),
        BareKey::Pause => "PAUSE".to_owned(),
        BareKey::Menu => "MENU".to_owned(),
    }
}

/// A key with its modifiers.
#[derive(Clone, Copy, PartialEq, Eq, Structural, Debug)]
pub struct Key {
    pub bare: BareKey,
    pub modifiers: Modifiers,
}

impl Key {
    /// The key is `bare` pressed alone.
    pub open spec fn is_plain(self, bare: BareKey) -> bool {
        self.bare == bare && self.modifiers.is_empty()
    }

    pub fn is_plain_key(&self, bare: BareKey) -> (r: bool)
        ensures
            r == self.is_plain(bare),
    {
        self.bare == bare && !self.modifiers.ctrl && !self.modifiers.alt && !self.modifiers.shift
            && !self.modifiers.super_key
    }
}

/// How modifier keys are written in hints.
#[derive(Clone, Copy, PartialEq, Eq, Structural, Debug)]
pub enum ModifierStyle {
    /// `Ctrl + n`
    Long,
    /// `C-n`
    Short,
    /// `^n`
    Symbol,
}

impl ModifierStyle {
    /// `"short"` and `"symbol"` name their styles; anything else is `Long`.
    pub fn from_str(s: &str) -> (r: ModifierStyle)
        ensures
            r == (if s@ == "short"@ {
                ModifierStyle::Short
            } else if s@ == "symbol"@ {
                ModifierStyle::Symbol
            } else {
                ModifierStyle::Long
            }),
    {
        let v = chars_of(s);
        if equals_str(&v, "short") {
            ModifierStyle::Short
        } else if equals_str(&v, "symbol") {
            ModifierStyle::Symbol
        } else {
            ModifierStyle::Long
        }
    }
}

// ---------------------------------------------------------------------------
// Aliases
// ---------------------------------------------------------------------------
/// A map from names to display texts; a later entry for a name replaces an earlier one.
pub struct Aliases {
    pub entries: Vec<(String, String)>,
}

pub open spec fn lookup_last(m: Seq<(Seq<char>, Seq<char>)>, k: Seq<char>) -> Option<Seq<char>>
    decreases m.len(),
{
    if m.len() == 0 {
        None
    } else if m.last().0 == k {
        Some(m.last().1)
    } else {
        lookup_last(m.drop_last(), k)
    }
}

pub open spec fn pair_views(v: Seq<(String, String)>) -> Seq<(Seq<char>, Seq<char>)> {
    v.map_values(|p: (String, String)| (p.0@, p.1@))
}

impl View for Aliases {
    type V = Seq<(Seq<char>, Seq<char>)>;

    open spec fn view(&self) -> Seq<(Seq<char>, Seq<char>)> {
        pair_views(self.entries@)
    }
}

impl Aliases {
    pub fn new() -> (a: Aliases)
        ensures
            a@ == Seq::<(Seq<char>, Seq<char>)>::empty(),
    {
        let a = Aliases { entries: Vec::new() };
        assert(a@ =~= Seq::<(Seq<char>, Seq<char>)>::empty());
        a
    }

    /// Adds an entry, replacing any earlier one for the same name.
    pub fn insert(&mut self, k: String, v: String)
        ensures
            final(self)@ == old(self)@.push((k@, v@)),
    {
        let ghost before = self@;
        self.entries.push((k, v));
        assert(self@ =~= before.push((k@, v@)));
    }

    /// The text for `k`, if any.
    pub fn get(&self, k: &str) -> (r: Option<String>)
        ensures
            r matches Some(v) ==> lookup_last(self@, k@) == Some(v@),
            r is None ==> lookup_last(self@, k@) is None,
    {
        let kv = chars_of(k);
        let mut i: usize = self.entries.len();
        assert(self@.subrange(0, i as int) =~= self@);
        while i > 0
            invariant
                i <= self.entries.len(),
                kv@ == k@,
                lookup_last(self@, k@) == lookup_last(self@.subrange(0, i as int), k@),
            decreases i,
        {
            let ghost pre = self@.subrange(0, i as int);
            assert(pre.drop_last() =~= self@.subrange(0, i - 1));
            assert(pre.last() == (self.entries@[i - 1].0@, self.entries@[i - 1].1@));
            let ek = chars_of(self.entries[i - 1].0.as_str());
            if chars_equal(&ek, &kv) {
                return Some(self.entries[i - 1].1.clone());
            }
            i = i - 1;
        }
        assert(self@.subrange(0, 0) =~= Seq::<(Seq<char>, Seq<char>)>::empty());
        None
    }
}

// ---------------------------------------------------------------------------
// Modifier rendering
// ---------------------------------------------------------------------------
/// The modifiers every key of `keys` holds, in order; none when there is no key.
pub open spec fn common_modifiers(keys: Seq<Key>) -> Seq<KeyModifier> {
    if keys.len() == 0 {
        seq![]
    } else {
        modifier_list(
            Modifiers {
                ctrl: forall|i: int| 0 <= i < keys.len() ==> #[trigger] keys[i].modifiers.ctrl,
                alt: forall|i: int| 0 <= i < keys.len() ==> #[trigger] keys[i].modifiers.alt,
                shift: forall|i: int| 0 <= i < keys.len() ==> #[trigger] keys[i].modifiers.shift,
                super_key: forall|i: int|
                    0 <= i < keys.len() ==> #[trigger] keys[i].modifiers.super_key,
            },
        )
    }
}

fn list_of(m: Modifiers) -> (r: Vec<KeyModifier>)
    ensures
        r@ == modifier_list(m),
{
    let mut r: Vec<KeyModifier> = Vec::new();
    if m.ctrl {
        r.push(KeyModifier::Ctrl);
    }
    if m.alt {
        r.push(KeyModifier::Alt);
    }
    if m.shift {
        r.push(KeyModifier::Shift);
    }
    if m.super_key {
        r.push(KeyModifier::Super);
    }
    assert(r@ =~= modifier_list(m));
    r
}

/// The modifiers that all of `key_bindings` hold, in the order Ctrl, Alt, Shift, Super.
pub fn get_common_modifiers(key_bindings: &Vec<Key>) -> (r: Vec<KeyModifier>)
    ensures
        r@ == common_modifiers(key_bindings@),
{
    if key_bindings.len() == 0 {
        return Vec::new();
    }
    let mut common = key_bindings[key_bindings.len() - 1].modifiers;
    let mut i: usize = 0;
    while i < key_bindings.len()
        invariant
            i <= key_bindings.len(),
            key_bindings.len() > 0,
            common.ctrl == forall|j: int|
                (0 <= j < i || j == key_bindings.len() - 1) ==> #[trigger] key_bindings@[j].modifiers.ctrl,
            common.alt == forall|j: int|
                (0 <= j < i || j == key_bindings.len() - 1) ==> #[trigger] key_bindings@[j].modifiers.alt,
            common.shift == forall|j: int|
                (0 <= j < i || j == key_bindings.len() - 1) ==> #[trigger] key_bindings@[j].modifiers.shift,
            common.super_key == forall|j: int|
                (0 <= j < i || j == key_bindings.len() - 1)
                    ==> #[trigger] key_bindings@[j].modifiers.super_key,
        decreases key_bindings.len() - i,
    {
        let m = key_bindings[i].modifiers;
        common = Modifiers {
            ctrl: common.ctrl && m.ctrl,
            alt: common.alt && m.alt,
            shift: common.shift && m.shift,
            super_key: common.super_key && m.super_key,
        };
        i = i + 1;
    }
    let r = list_of(common);
    assert(r@ =~= common_modifiers(key_bindings@));
    r
}

/// The text of a modifier in the long style: its name.
pub open spec fn modifier_text(m: KeyModifier) -> Seq<char> {
    match m {
        KeyModifier::Ctrl => "Ctrl"@,
        KeyModifier::Alt => "Alt"@,
        KeyModifier::Shift => "Shift"@,
        KeyModifier::Super => "Super"@,
    }
}

/// The text of a modifier in a style.
pub open spec fn modifier_name_spec(m: KeyModifier, style: ModifierStyle) -> Seq<char> {
    match style {
        ModifierStyle::Long => modifier_text(m),
        ModifierStyle::Short => match m {
            KeyModifier::Ctrl => "C"@,
            KeyModifier::Alt => "A"@,
            KeyModifier::Shift => "S"@,
            KeyModifier::Super => modifier_text(m),
        },
        ModifierStyle::Symbol => match m {
            KeyModifier::Ctrl => "^"@,
            KeyModifier::Alt => "M-"@,
            KeyModifier::Shift => "S-"@,
            KeyModifier::Super => modifier_text(m),
        },
    }
}

fn modifier_text_exec(m: KeyModifier) -> (s: String)
    ensures
        s@ == modifier_text(m),
{
    match m {
        KeyModifier::Ctrl => "Ctrl".to_owned(),
        KeyModifier::Alt => "Alt".to_owned(),
        KeyModifier::Shift => "Shift".to_owned(),
        KeyModifier::Super => "Super".to_owned(),
    }
}

/// How a modifier is written in a style.
pub fn modifier_name(modifier: &KeyModifier, style: ModifierStyle) -> (s: String)
    ensures
        s@ == modifier_name_spec(*modifier, style),
{
    match style {
        ModifierStyle::Long => modifier_text_exec(*modifier),
        ModifierStyle::Short => match modifier {
            KeyModifier::Ctrl => "C".to_owned(),
            KeyModifier::Alt => "A".to_owned(),
            KeyModifier::Shift => "S".to_owned(),
            _ => modifier_text_exec(*modifier),
        },
        ModifierStyle::Symbol => match modifier {
            KeyModifier::Ctrl => "^".to_owned(),
            KeyModifier::Alt => "M-".to_owned(),
            KeyModifier::Shift => "S-".to_owned(),
            _ => modifier_text_exec(*modifier),
        },
    }
}

pub open spec fn names_in_style(mods: Seq<KeyModifier>, style: ModifierStyle) -> Seq<Seq<char>> {
    mods.map_values(|m: KeyModifier| modifier_name_spec(m, style))
}

/// The shared modifiers written in a style, joined by `-`.
pub open spec fn modifier_string(mods: Seq<KeyModifier>, style: ModifierStyle) -> Seq<char> {
    join(names_in_style(mods, style), "-"@)
}

pub fn format_modifier_string(modifiers: &Vec<KeyModifier>, style: ModifierStyle) -> (s: String)
    ensures
        s@ == modifier_string(modifiers@, style),
{
    let mut names: Vec<Vec<char>> = Vec::new();
    let mut i: usize = 0;
    while i < modifiers.len()
        invariant
            i <= modifiers.len(),
            views(names@) == names_in_style(modifiers@.subrange(0, i as int), style),
        decreases modifiers.len() - i,
    {
        let n = modifier_name(&modifiers[i], style);
        let nv = chars_of(n.as_str());
        let ghost before = names@;
        names.push(nv);
        assert(views(names@) =~= views(before).push(nv@));
        assert(names_in_style(modifiers@.subrange(0, i + 1), style) =~= names_in_style(
            modifiers@.subrange(0, i as int),
            style,
        ).push(modifier_name_spec(modifiers@[i as int], style)));
        i = i + 1;
    }
    assert(modifiers@.subrange(0, i as int) =~= modifiers@);
    let dash = chars_of("-");
    let r = join_exec(&names, &dash);
    string_of(&r)
}

pub open spec fn modifier_separator_spec(style: ModifierStyle) -> Seq<char> {
    match style {
        ModifierStyle::Long => " + "@,
        ModifierStyle::Short => "-"@,
        ModifierStyle::Symbol => ""@,
    }
}

/// What stands between the shared modifiers and the keys.
pub fn modifier_separator(style: ModifierStyle) -> (s: &'static str)
    ensures
        s@ == modifier_separator_spec(style),
{
    match style {
        ModifierStyle::Long => " + ",
        ModifierStyle::Short => "-",
        ModifierStyle::Symbol => "",
    }
}

// ---------------------------------------------------------------------------
// Key display
// ---------------------------------------------------------------------------
/// The text shown for a bare key named `name`: its alias (looked up by the
/// lowercased name) when one is set, else its name.
pub open spec fn bare_key_text(name: Seq<char>, aliases: Seq<(Seq<char>, Seq<char>)>) -> Seq<char> {
    match lookup_last(aliases, lowercase(name)) {
        Some(a) => a,
        None => name,
    }
}

pub fn bare_key_display(key: &Key, key_aliases: &Aliases) -> (s: String)
    ensures
        s@ == bare_key_text(bare_name(key.bare), key_aliases@),
{
    let name = bare_key_name(key.bare);
    let lower = to_lowercase(name.as_str());
    match key_aliases.get(lower.as_str()) {
        Some(a) => a,
        None => name,
    }
}

/// The modifiers of `m` outside `common`, in order.
pub open spec fn unique_modifiers(m: Modifiers, common: Seq<KeyModifier>) -> Seq<KeyModifier> {
    modifier_list(m).filter(|x: KeyModifier| !common.contains(x))
}

/// The text for one key: its modifiers not shared by the group (long names,
/// space-separated), a space, and its bare-key text.
pub open spec fn key_text(
    k: Key,
    common: Seq<KeyModifier>,
    aliases: Seq<(Seq<char>, Seq<char>)>,
) -> Seq<char> {
    let u = unique_modifiers(k.modifiers, common);
    let bare = bare_key_text(bare_name(k.bare), aliases);
    if u.len() == 0 {
        bare
    } else {
        join(u.map_values(|m: KeyModifier| modifier_text(m)), " "@) + " "@ + bare
    }
}

pub open spec fn key_texts(
    keys: Seq<Key>,
    common: Seq<KeyModifier>,
    aliases: Seq<(Seq<char>, Seq<char>)>,
) -> Seq<Seq<char>> {
    keys.map_values(|k: Key| key_text(k, common, aliases))
}

fn contains_modifier(common: &Vec<KeyModifier>, m: KeyModifier) -> (r: bool)
    ensures
        r == common@.contains(m),
{
    let mut i: usize = 0;
    while i < common.len()
        invariant
            i <= common.len(),
            forall|j: int| 0 <= j < i ==> common@[j] != m,
        decreases common.len() - i,
    {
        if common[i] == m {
            return true;
        }
        i = i + 1;
    }
    false
}

fn unique_modifiers_exec(m: Modifiers, common: &Vec<KeyModifier>) -> (r: Vec<KeyModifier>)
    ensures
        r@ == unique_modifiers(m, common@),
{
    let all = list_of(m);
    let mut r: Vec<KeyModifier> = Vec::new();
    let mut i: usize = 0;
    let ghost f = |x: KeyModifier| !common@.contains(x);
    while i < all.len()
        invariant
            i <= all.len(),
            all@ == modifier_list(m),
            f == (|x: KeyModifier| !common@.contains(x)),
            r@ == all@.subrange(0, i as int).filter(f),
        decreases all.len() - i,
    {
        assert(all@.subrange(0, i + 1).drop_last() =~= all@.subrange(0, i as int));
        reveal_with_fuel(Seq::<_>::filter, 1);
        if !contains_modifier(common, all[i]) {
            r.push(all[i]);
        }
        i = i + 1;
    }
    assert(all@.subrange(0, i as int) =~= all@);
    r
}

fn key_text_exec(key: &Key, common: &Vec<KeyModifier>, key_aliases: &Aliases) -> (s: Vec<char>)
    ensures
        s@ == key_text(*key, common@, key_aliases@),
{
    let u = unique_modifiers_exec(key.modifiers, common);
    let bare_s = bare_key_display(key, key_aliases);
    let bare = chars_of(bare_s.as_str());
    if u.len() == 0 {
        return bare;
    }
    let mut names: Vec<Vec<char>> = Vec::new();
    let mut i: usize = 0;
    while i < u.len()
        invariant
            i <= u.len(),
            views(names@) == u@.subrange(0, i as int).map_values(
                |m: KeyModifier| modifier_text(m),
            ),
        decreases u.len() - i,
    {
        let t = modifier_text_exec(u[i]);
        let tv = chars_of(t.as_str());
        let ghost before = names@;
        names.push(tv);
        assert(views(names@) =~= views(before).push(tv@));
        assert(u@.subrange(0, i + 1).map_values(|m: KeyModifier| modifier_text(m))
            =~= u@.subrange(0, i as int).map_values(|m: KeyModifier| modifier_text(m)).push(
            modifier_text(u@[i as int]),
        ));
        i = i + 1;
    }
    assert(u@.subrange(0, i as int) =~= u@);
    let space = chars_of(" ");
    let mut r = join_exec(&names, &space);
    extend(&mut r, &space);
    extend(&mut r, &bare);
    r
}

/// The text of each key of a group whose shared modifiers are `common_modifiers`.
pub fn format_key_display(
    key_bindings: &Vec<Key>,
    common_modifiers: &Vec<KeyModifier>,
    key_aliases: &Aliases,
) -> (r: Vec<String>)
    ensures
        r@.len() == key_bindings@.len(),
        forall|i: int|
            0 <= i < r@.len() ==> #[trigger] r@[i]@ == key_text(
                key_bindings@[i],
                common_modifiers@,
                key_aliases@,
            ),
{
    let mut r: Vec<String> = Vec::new();
    let mut i: usize = 0;
    while i < key_bindings.len()
        invariant
            i <= key_bindings.len(),
            r@.len() == i,
            forall|j: int|
                0 <= j < i ==> #[trigger] r@[j]@ == key_text(
                    key_bindings@[j],
                    common_modifiers@,
                    key_aliases@,
                ),
        decreases key_bindings.len() - i,
    {
        let t = key_text_exec(&key_bindings[i], common_modifiers, key_aliases);
        r.push(string_of(&t));
        i = i + 1;
    }
    r
}

pub open spec fn string_views(v: Seq<String>) -> Seq<Seq<char>> {
    v.map_values(|s: String| s@)
}

/// Key groups written without a separator between keys.
pub open spec fn joins_without_separator(s: Seq<char>) -> bool {
    s == "HJKL"@ || s == "hjkl"@ || s == "←↓↑→"@ || s == "←→"@ || s == "↓↑"@ || s == "[]"@
}

pub open spec fn key_separator(texts: Seq<Seq<char>>) -> Seq<char> {
    if joins_without_separator(join(texts, ""@)) {
        ""@
    } else {
        "|"@
    }
}

fn to_char_vecs(v: &Vec<String>) -> (r: Vec<Vec<char>>)
    ensures
        views(r@) == string_views(v@),
{
    let mut r: Vec<Vec<char>> = Vec::new();
    let mut i: usize = 0;
    while i < v.len()
        invariant
            i <= v.len(),
            views(r@) == string_views(v@.subrange(0, i as int)),
        decreases v.len() - i,
    {
        let c = chars_of(v[i].as_str());
        let ghost before = r@;
        r.push(c);
        assert(views(r@) =~= views(before).push(c@));
        assert(string_views(v@.subrange(0, i + 1)) =~= string_views(v@.subrange(0, i as int)).push(
            v@[i as int]@,
        ));
        i = i + 1;
    }
    assert(v@.subrange(0, i as int) =~= v@);
    r
}

/// `""` when the keys read as one word (`hjkl`, `←→`, ...), else `"|"`.
pub fn get_key_separator(key_display: &Vec<String>) -> (s: &'static str)
    ensures
        s@ == key_separator(string_views(key_display@)),
{
    let texts = to_char_vecs(key_display);
    let empty = chars_of("");
    let k = join_exec(&texts, &empty);
    if equals_str(&k, "HJKL") || equals_str(&k, "hjkl") || equals_str(&k, "←↓↑→") || equals_str(
        &k,
        "←→",
    ) || equals_str(&k, "↓↑") || equals_str(&k, "[]") {
        ""
    } else {
        "|"
    }
}

/// The text of a group of keys bound to one action: the shared modifiers in
/// the style, the style's separator, and the keys; empty for no keys.
pub open spec fn key_plain(
    keys: Seq<Key>,
    style: ModifierStyle,
    aliases: Seq<(Seq<char>, Seq<char>)>,
) -> Seq<char> {
    if keys.len() == 0 {
        seq![]
    } else {
        let common = common_modifiers(keys);
        let mods = modifier_string(common, style);
        let texts = key_texts(keys, common, aliases);
        let keys_str = join(texts, key_separator(texts));
        if mods.len() == 0 {
            keys_str
        } else {
            mods + modifier_separator_spec(style) + keys_str
        }
    }
}

pub fn format_key_plain(key_bindings: &Vec<Key>, modifier_style: ModifierStyle, key_aliases: &Aliases) -> (s:
    String)
    ensures
        s@ == key_plain(key_bindings@, modifier_style, key_aliases@),
{
    if key_bindings.len() == 0 {
        return String::new();
    }
    let common = get_common_modifiers(key_bindings);
    let modifier_str = format_modifier_string(&common, modifier_style);
    let key_display = format_key_display(key_bindings, &common, key_aliases);
    let ghost texts = key_texts(key_bindings@, common@, key_aliases@);
    assert(string_views(key_display@) =~= texts);
    let key_separator = get_key_separator(&key_display);
    let display_chars = to_char_vecs(&key_display);
    let sep = chars_of(key_separator);
    let keys_str = join_exec(&display_chars, &sep);
    let ms = chars_of(modifier_str.as_str());
    if ms.len() == 0 {
        string_of(&keys_str)
    } else {
        let mut r = ms;
        let s2 = chars_of(modifier_separator(modifier_style));
        extend(&mut r, &s2);
        extend(&mut r, &keys_str);
        string_of(&r)
    }
}

proof fn lemma_decimal_shape(n: nat)
    ensures
        decimal(n).len() >= 1,
        (decimal(n).len() == 1) == (n < 10),
        forall|i: int| 0 <= i < decimal(n).len() ==> '0' <= #[trigger] decimal(n)[i] <= '9',
    decreases n,
{
    if n >= 10 {
        lemma_decimal_shape(n / 10);
        let p = decimal(n / 10);
        assert(decimal(n) == p.push(digit_char(n % 10)));
        assert forall|i: int| 0 <= i < decimal(n).len() implies '0' <= #[trigger] decimal(n)[i] <= '9' by {
            if i < p.len() {
                assert(decimal(n)[i] == p[i]);
            }
        }
    }
}

proof fn lemma_decimal_injective(n: nat, m: nat)
    requires
        decimal(n) == decimal(m),
    ensures
        n == m,
    decreases n,
{
    lemma_decimal_shape(n);
    lemma_decimal_shape(m);
    if n < 10 {
        assert(decimal(n)[0] == digit_char(n));
        assert(decimal(m)[0] == digit_char(m));
        assert((digit_char(n) as u32) == 48 + n);
        assert((digit_char(m) as u32) == 48 + m);
    } else {
        assert(decimal(n).len() != 1);
        assert(m >= 10);
        let p = decimal(n / 10);
        let q = decimal(m / 10);
        assert(decimal(n) == p.push(digit_char(n % 10)));
        assert(decimal(m) == q.push(digit_char(m % 10)));
        assert(decimal(n).drop_last() =~= p);
        assert(decimal(m).drop_last() =~= q);
        assert(decimal(n)[decimal(n).len() - 1] == digit_char(n % 10));
        assert(decimal(m)[decimal(m).len() - 1] == digit_char(m % 10));
        assert((digit_char(n % 10) as u32) == 48 + n % 10);
        assert((digit_char(m % 10) as u32) == 48 + m % 10);
        assert(n % 10 == m % 10);
        assert(p == q);
        lemma_decimal_injective(n / 10, m / 10);
    }
}

proof fn literal_names_distinct(b1: BareKey, b2: BareKey)
    requires
        !(b1 is F || b1 is Char),
        !(b2 is F || b2 is Char),
        bare_name(b1) == bare_name(b2),
    ensures
        b1 == b2,
{
    reveal_strlit("PgDn");
    reveal_strlit("PgUp");
    reveal_strlit("←");
    reveal_strlit("↓");
    reveal_strlit("↑");
    reveal_strlit("→");
    reveal_strlit("HOME");
    reveal_strlit("END");
    reveal_strlit("BACKSPACE");
    reveal_strlit("DEL");
    reveal_strlit("INS");
    reveal_strlit("TAB");
    reveal_strlit("ESC");
    reveal_strlit("ENTER");
    reveal_strlit("CAPSlOCK");
    reveal_strlit("SCROLLlOCK");
    reveal_strlit("NUMLOCK");
    reveal_strlit("PRINTSCREEN");
    reveal_strlit("PAUSE");
    reveal_strlit("MENU");
    let n = bare_name(b1);
    assert(n.len() == bare_name(b2).len());
    assert(n[0] == bare_name(b2)[0]);
    if n.len() >= 3 {
        assert(n[1] == bare_name(b2)[1]);
        assert(n[2] == bare_name(b2)[2]);
    }
    if n.len() >= 2 {
        assert(n[1] == bare_name(b2)[1]);
    }
}

/// Two different bare keys are shown differently, unless one is a character
/// and the other is not (the character `←` is shown as the Left key is).
pub proof fn law_bare_names_distinct(b1: BareKey, b2: BareKey)
    requires
        (b1 is Char) == (b2 is Char),
        bare_name(b1) == bare_name(b2),
    ensures
        b1 == b2,
{
    reveal_strlit("PgDn");
    reveal_strlit("PgUp");
    reveal_strlit("←");
    reveal_strlit("↓");
    reveal_strlit("↑");
    reveal_strlit("→");
    reveal_strlit("HOME");
    reveal_strlit("END");
    reveal_strlit("BACKSPACE");
    reveal_strlit("DEL");
    reveal_strlit("INS");
    reveal_strlit("F");
    reveal_strlit("SPACE");
    reveal_strlit("TAB");
    reveal_strlit("ESC");
    reveal_strlit("ENTER");
    reveal_strlit("CAPSlOCK");
    reveal_strlit("SCROLLlOCK");
    reveal_strlit("NUMLOCK");
    reveal_strlit("PRINTSCREEN");
    reveal_strlit("PAUSE");
    reveal_strlit("MENU");
    let n1 = bare_name(b1);
    match b1 {
        BareKey::F(x) => {
            lemma_decimal_shape(x as nat);
            assert(n1[0] == 'F');
            assert(n1.len() >= 2);
            match b2 {
                BareKey::F(y) => {
                    let n2 = bare_name(b2);
                    assert(n1 == "F"@ + decimal(x as nat));
                    assert(n2 == "F"@ + decimal(y as nat));
                    assert(n1.subrange(1, n1.len() as int) =~= decimal(x as nat));
                    assert(n2.subrange(1, n2.len() as int) =~= decimal(y as nat));
                    lemma_decimal_injective(x as nat, y as nat);
                },
                _ => {
                    assert(bare_name(b2)[0] != 'F');
                },
            }
        },
        BareKey::Char(c) => {
            match b2 {
                BareKey::Char(d) => {
                    if c != ' ' && d != ' ' {
                        assert(seq![c][0] == c);
                        assert(seq![d][0] == d);
                    }
                },
                _ => {},
            }
        },
        _ => {
            match b2 {
                BareKey::F(y) => {
                    lemma_decimal_shape(y as nat);
                    assert(bare_name(b2)[0] == 'F');
                },
                _ => {
                    literal_names_distinct(b1, b2);
                },
            }
        },
    }
}

} // verus!
