//! Text styles and the inline style syntax of hint templates
//! (`#[fg=#RRGGBB,bg=red,bold]...`), and the rendering of styled text to ANSI.
use vstd::prelude::*;
use ansi_term::ANSIStrings;
use ansi_term::Colour as AnsiColour;
use ansi_term::Style as AnsiStyle;
use crate::text::{
    ascii_lower, ascii_lower_exec, chars_of, equals_str, find, find_from_exec, parse_unsigned,
    parse_unsigned_exec, replace, replace_exec, split, split_exec,
    starts_with, starts_with_exec, strip_prefix, strip_prefix_exec, string_of, subrange, trim,
    trim_exec, views, join,
    lemma_find_from, lemma_find_from_is, lemma_find_from_none, matches_at, split_from, digit_value,
    trim_start, trim_end, ascii_lower_char, all_digits, is_whitespace,
    digit_value_exec,
};

verus! {

/// A terminal colour: an index into the 256-colour palette, or a 24-bit colour.
#[derive(Clone, Copy, PartialEq, Eq, Structural, Debug)]
pub enum Colour {
    Fixed(u8),
    Rgb(u8, u8, u8),
}

/// A text style: optional foreground and background colours and attribute flags.
#[derive(Clone, Copy, PartialEq, Eq, Structural, Debug)]
pub struct Style {
    pub fg: Option<Colour>,
    pub bg: Option<Colour>,
    pub bold: bool,
    pub dimmed: bool,
    pub italic: bool,
    pub underline: bool,
    pub blink: bool,
    pub reverse: bool,
    pub hidden: bool,
    pub strikethrough: bool,
}

/// The style with no colour and no attribute set.
pub open spec fn plain_style() -> Style {
    Style {
        fg: None,
        bg: None,
        bold: false,
        dimmed: false,
        italic: false,
        underline: false,
        blink: false,
        reverse: false,
        hidden: false,
        strikethrough: false,
    }
}

impl Style {
    /// The style with nothing set.
    pub fn new() -> (s: Style)
        ensures
            s == plain_style(),
    {
        Style {
            fg: None,
            bg: None,
            bold: false,
            dimmed: false,
            italic: false,
            underline: false,
            blink: false,
            reverse: false,
            hidden: false,
            strikethrough: false,
        }
    }

    pub fn fg(&self, c: Colour) -> (s: Style)
        ensures
            s == (Style { fg: Some(c), ..*self }),
    {
        Style { fg: Some(c), ..*self }
    }

    pub fn on(&self, c: Colour) -> (s: Style)
        ensures
            s == (Style { bg: Some(c), ..*self }),
    {
        Style { bg: Some(c), ..*self }
    }

    pub fn bold(&self) -> (s: Style)
        ensures
            s == (Style { bold: true, ..*self }),
    {
        Style { bold: true, ..*self }
    }

    pub fn dimmed(&self) -> (s: Style)
        ensures
            s == (Style { dimmed: true, ..*self }),
    {
        Style { dimmed: true, ..*self }
    }

    pub fn italic(&self) -> (s: Style)
        ensures
            s == (Style { italic: true, ..*self }),
    {
        Style { italic: true, ..*self }
    }

    pub fn underline(&self) -> (s: Style)
        ensures
            s == (Style { underline: true, ..*self }),
    {
        Style { underline: true, ..*self }
    }

    pub fn blink(&self) -> (s: Style)
        ensures
            s == (Style { blink: true, ..*self }),
    {
        Style { blink: true, ..*self }
    }

    pub fn reverse(&self) -> (s: Style)
        ensures
            s == (Style { reverse: true, ..*self }),
    {
        Style { reverse: true, ..*self }
    }

    pub fn hidden(&self) -> (s: Style)
        ensures
            s == (Style { hidden: true, ..*self }),
    {
        Style { hidden: true, ..*self }
    }

    pub fn strikethrough(&self) -> (s: Style)
        ensures
            s == (Style { strikethrough: true, ..*self }),
    {
        Style { strikethrough: true, ..*self }
    }
}

// ---------------------------------------------------------------------------
// Colour tokens
// ---------------------------------------------------------------------------
/// The byte two hexadecimal digits denote.
pub open spec fn hex_byte(p: Seq<char>) -> Option<u8> {
    if p.len() == 2 && digit_value(p[0], 16) is Some && digit_value(p[1], 16) is Some {
        Some((digit_value(p[0], 16).unwrap() * 16 + digit_value(p[1], 16).unwrap()) as u8)
    } else {
        None
    }
}

/// The colours known by name.
pub open spec fn named_colour(w: Seq<char>) -> Option<Colour> {
    if w == "black"@ {
        Some(Colour::Fixed(0))
    } else if w == "red"@ {
        Some(Colour::Fixed(1))
    } else if w == "green"@ {
        Some(Colour::Fixed(2))
    } else if w == "yellow"@ {
        Some(Colour::Fixed(3))
    } else if w == "blue"@ {
        Some(Colour::Fixed(4))
    } else if w == "magenta"@ || w == "purple"@ {
        Some(Colour::Fixed(5))
    } else if w == "cyan"@ {
        Some(Colour::Fixed(6))
    } else if w == "white"@ {
        Some(Colour::Fixed(7))
    } else if w == "bright_black"@ || w == "gray"@ || w == "grey"@ {
        Some(Colour::Fixed(8))
    } else if w == "bright_red"@ {
        Some(Colour::Fixed(9))
    } else if w == "bright_green"@ {
        Some(Colour::Fixed(10))
    } else if w == "bright_yellow"@ {
        Some(Colour::Fixed(11))
    } else if w == "bright_blue"@ {
        Some(Colour::Fixed(12))
    } else if w == "bright_magenta"@ || w == "bright_purple"@ {
        Some(Colour::Fixed(13))
    } else if w == "bright_cyan"@ {
        Some(Colour::Fixed(14))
    } else if w == "bright_white"@ {
        Some(Colour::Fixed(15))
    } else {
        None
    }
}

/// The colour a token names: `#RRGGBB` (six hexadecimal digits), a palette index
/// `0..=255`, or a colour name (any ASCII case), after surrounding white space is
/// removed. Anything else names no colour.
pub open spec fn colour_of(s: Seq<char>) -> Option<Colour> {
    let t = trim(s);
    match strip_prefix(t, seq!['#']) {
        Some(hex) => if hex.len() == 6 {
            match (
                hex_byte(hex.subrange(0, 2)),
                hex_byte(hex.subrange(2, 4)),
                hex_byte(hex.subrange(4, 6)),
            ) {
                (Some(r), Some(g), Some(b)) => Some(Colour::Rgb(r, g, b)),
                _ => None,
            }
        } else {
            None
        },
        None => match parse_unsigned(t, 10, 255) {
            Some(n) => Some(Colour::Fixed(n as u8)),
            None => named_colour(ascii_lower(t)),
        },
    }
}

fn hex_byte_exec(v: &Vec<char>, from: usize) -> (r: Option<u8>)
    requires
        from + 2 <= v.len(),
    ensures
        r == hex_byte(v@.subrange(from as int, from + 2)),
{
    let ghost p = v@.subrange(from as int, from + 2);
    assert(p[0] == v@[from as int] && p[1] == v@[from + 1]);
    match (digit_value_exec(v[from], 16), digit_value_exec(v[from + 1], 16)) {
        (Some(h), Some(l)) => {
            assert(h < 16 && l < 16);
            Some((h * 16 + l) as u8)
        },
        _ => None,
    }
}

fn named_colour_exec(w: &Vec<char>) -> (r: Option<Colour>)
    ensures
        r == named_colour(w@),
{
    if equals_str(w, "black") {
        Some(Colour::Fixed(0))
    } else if equals_str(w, "red") {
        Some(Colour::Fixed(1))
    } else if equals_str(w, "green") {
        Some(Colour::Fixed(2))
    } else if equals_str(w, "yellow") {
        Some(Colour::Fixed(3))
    } else if equals_str(w, "blue") {
        Some(Colour::Fixed(4))
    } else if equals_str(w, "magenta") || equals_str(w, "purple") {
        Some(Colour::Fixed(5))
    } else if equals_str(w, "cyan") {
        Some(Colour::Fixed(6))
    } else if equals_str(w, "white") {
        Some(Colour::Fixed(7))
    } else if equals_str(w, "bright_black") || equals_str(w, "gray") || equals_str(w, "grey") {
        Some(Colour::Fixed(8))
    } else if equals_str(w, "bright_red") {
        Some(Colour::Fixed(9))
    } else if equals_str(w, "bright_green") {
        Some(Colour::Fixed(10))
    } else if equals_str(w, "bright_yellow") {
        Some(Colour::Fixed(11))
    } else if equals_str(w, "bright_blue") {
        Some(Colour::Fixed(12))
    } else if equals_str(w, "bright_magenta") || equals_str(w, "bright_purple") {
        Some(Colour::Fixed(13))
    } else if equals_str(w, "bright_cyan") {
        Some(Colour::Fixed(14))
    } else if equals_str(w, "bright_white") {
        Some(Colour::Fixed(15))
    } else {
        None
    }
}

fn colour_of_chars(s: &Vec<char>) -> (r: Option<Colour>)
    ensures
        r == colour_of(s@),
{
    let t = trim_exec(s);
    let hash = chars_of("#");
    proof {
        reveal_strlit("#");
        assert(hash@ =~= seq!['#']);
    }
    match strip_prefix_exec(&t, &hash) {
        Some(hex) => {
            if hex.len() == 6 {
                let r = hex_byte_exec(&hex, 0);
                let g = hex_byte_exec(&hex, 2);
                let b = hex_byte_exec(&hex, 4);
                match (r, g, b) {
                    (Some(r), Some(g), Some(b)) => Some(Colour::Rgb(r, g, b)),
                    _ => None,
                }
            } else {
                None
            }
        },
        None => match parse_unsigned_exec(&t, 10, 255) {
            Some(n) => Some(Colour::Fixed(n as u8)),
            None => {
                let w = ascii_lower_exec(&t);
                named_colour_exec(&w)
            },
        },
    }
}

/// The colour a token names (`#RRGGBB`, a palette index or a name), if any.
pub fn parse_color_token(s: &str) -> (r: Option<Colour>)
    ensures
        r == colour_of(s@),
{
    let v = chars_of(s);
    colour_of_chars(&v)
}

// ---------------------------------------------------------------------------
// Style directives
// ---------------------------------------------------------------------------
/// The style after one flag word of a directive (unknown words change nothing).
pub open spec fn apply_flag(st: Style, w: Seq<char>) -> Style {
    if w == "bold"@ {
        Style { bold: true, ..st }
    } else if w == "italic"@ || w == "italics"@ {
        Style { italic: true, ..st }
    } else if w == "underscore"@ || w == "underline"@ || w == "double-underscore"@ || w
        == "curly-underscore"@ || w == "dotted-underscore"@ || w == "dashed-underscore"@ {
        Style { underline: true, ..st }
    } else if w == "blink"@ {
        Style { blink: true, ..st }
    } else if w == "hidden"@ {
        Style { hidden: true, ..st }
    } else if w == "reverse"@ {
        Style { reverse: true, ..st }
    } else if w == "strikethrough"@ {
        Style { strikethrough: true, ..st }
    } else if w == "dim"@ {
        Style { dimmed: true, ..st }
    } else {
        st
    }
}

/// The style after one comma-separated token of a directive.
pub open spec fn apply_token(st: Style, raw: Seq<char>) -> Style {
    let t = trim(raw);
    if t.len() == 0 {
        st
    } else {
        match strip_prefix(t, "fg="@) {
            Some(rest) => match colour_of(rest) {
                Some(c) => Style { fg: Some(c), ..st },
                None => st,
            },
            None => match strip_prefix(t, "bg="@) {
                Some(rest) => match colour_of(rest) {
                    Some(c) => Style { bg: Some(c), ..st },
                    None => st,
                },
                None => apply_flag(st, ascii_lower(t)),
            },
        }
    }
}

/// The style the tokens set, applied left to right to the plain style.
pub open spec fn tokens_style(tokens: Seq<Seq<char>>) -> Style
    decreases tokens.len(),
{
    if tokens.len() == 0 {
        plain_style()
    } else {
        apply_token(tokens_style(tokens.drop_last()), tokens.last())
    }
}

/// The style a directive body (the text inside `#[...]`) sets.
pub open spec fn directive_style(body: Seq<char>) -> Style {
    tokens_style(split(body, seq![',']))
}

fn apply_flag_exec(st: Style, w: &Vec<char>) -> (r: Style)
    ensures
        r == apply_flag(st, w@),
{
    if equals_str(w, "bold") {
        st.bold()
    } else if equals_str(w, "italic") || equals_str(w, "italics") {
        st.italic()
    } else if equals_str(w, "underscore") || equals_str(w, "underline") || equals_str(
        w,
        "double-underscore",
    ) || equals_str(w, "curly-underscore") || equals_str(w, "dotted-underscore") || equals_str(
        w,
        "dashed-underscore",
    ) {
        st.underline()
    } else if equals_str(w, "blink") {
        st.blink()
    } else if equals_str(w, "hidden") {
        st.hidden()
    } else if equals_str(w, "reverse") {
        st.reverse()
    } else if equals_str(w, "strikethrough") {
        st.strikethrough()
    } else if equals_str(w, "dim") {
        st.dimmed()
    } else {
        st
    }
}

fn apply_token_exec(st: Style, raw: &Vec<char>) -> (r: Style)
    ensures
        r == apply_token(st, raw@),
{
    let t = trim_exec(raw);
    if t.len() == 0 {
        return st;
    }
    let fg = chars_of("fg=");
    if let Some(rest) = strip_prefix_exec(&t, &fg) {
        return match colour_of_chars(&rest) {
            Some(c) => st.fg(c),
            None => st,
        };
    }
    let bg = chars_of("bg=");
    if let Some(rest) = strip_prefix_exec(&t, &bg) {
        return match colour_of_chars(&rest) {
            Some(c) => st.on(c),
            None => st,
        };
    }
    let w = ascii_lower_exec(&t);
    apply_flag_exec(st, &w)
}

fn directive_style_chars(body: &Vec<char>) -> (r: Style)
    ensures
        r == directive_style(body@),
{
    let comma = chars_of(",");
    proof {
        reveal_strlit(",");
        assert(comma@ =~= seq![',']);
    }
    let tokens = split_exec(body, &comma);
    let ghost toks = split(body@, seq![',']);
    let mut style = Style::new();
    let mut i: usize = 0;
    while i < tokens.len()
        invariant
            views(tokens@) == toks,
            i <= tokens.len(),
            style == tokens_style(toks.subrange(0, i as int)),
        decreases tokens.len() - i,
    {
        assert(toks.subrange(0, i + 1).drop_last() =~= toks.subrange(0, i as int));
        assert(toks[i as int] == tokens@[i as int]@);
        style = apply_token_exec(style, &tokens[i]);
        i = i + 1;
    }
    assert(toks.subrange(0, i as int) =~= toks);
    style
}

/// The style a directive body sets: comma-separated tokens `fg=<colour>`,
/// `bg=<colour>` and attribute words, applied in order; unknown tokens and
/// unreadable colours change nothing.
pub fn parse_inline_directive(body: &str) -> (r: Style)
    ensures
        r == directive_style(body@),
{
    let b = chars_of(body);
    directive_style_chars(&b)
}

// ---------------------------------------------------------------------------
// Styled text and hint templates
// ---------------------------------------------------------------------------
/// A run of text painted in one style.
pub struct Segment {
    pub style: Style,
    pub text: String,
}

impl View for Segment {
    type V = (Style, Seq<char>);

    open spec fn view(&self) -> (Style, Seq<char>) {
        (self.style, self.text@)
    }
}

pub open spec fn segment_views(v: Seq<Segment>) -> Seq<(Style, Seq<char>)> {
    v.map_values(|s: Segment| s@)
}

/// The text of one template piece with `{key}` and then `{action}` filled in.
pub open spec fn expand(content: Seq<char>, key: Seq<char>, action: Seq<char>) -> Seq<char> {
    replace(replace(content, "{key}"@, key), "{action}"@, action)
}

/// The style and text of one piece of a template split on `#[`: the piece
/// before the first `#[` is unstyled; any other reads `<directive>]<content>`,
/// or is all content in the plain style when it holds no `]`.
pub open spec fn piece_style_content(seg: Seq<char>, unstyled: bool) -> (Style, Seq<char>) {
    if unstyled {
        (plain_style(), seg)
    } else {
        match find(seg, seq![']']) {
            Some(e) => (directive_style(seg.subrange(0, e)), seg.subrange(e + 1, seg.len() as int)),
            None => (plain_style(), seg),
        }
    }
}

/// What a piece paints in a style: its text, unless that is empty.
pub open spec fn painted(st: Style, text: Seq<char>) -> Seq<(Style, Seq<char>)> {
    if text.len() > 0 {
        seq![(st, text)]
    } else {
        seq![]
    }
}

/// Colours laid over the style a template gives a hint's key or label: a colour
/// that is set replaces the template's, and `clear_bg` takes any background away.
#[derive(Clone, Copy, PartialEq, Eq, Structural, Debug)]
pub struct Overlay {
    pub fg: Option<Colour>,
    pub bg: Option<Colour>,
    pub clear_bg: bool,
}

/// The overlays of a hint's key and of its label.
#[derive(Clone, Copy, PartialEq, Eq, Structural, Debug)]
pub struct HintPaint {
    pub key: Overlay,
    pub label: Overlay,
}

/// `st` with the overlay's colours laid over it.
pub open spec fn overlaid(st: Style, o: Overlay) -> Style {
    Style {
        fg: if o.fg is Some {
            o.fg
        } else {
            st.fg
        },
        bg: if o.clear_bg {
            None
        } else if o.bg is Some {
            o.bg
        } else {
            st.bg
        },
        ..st
    }
}

/// The paint that changes nothing.
pub open spec fn no_paint() -> HintPaint {
    HintPaint {
        key: Overlay { fg: None, bg: None, clear_bg: false },
        label: Overlay { fg: None, bg: None, clear_bg: false },
    }
}

/// Lays an overlay over a style.
pub fn overlay(st: Style, o: Overlay) -> (r: Style)
    ensures
        r == overlaid(st, o),
{
    let fg = match o.fg {
        Some(c) => Some(c),
        None => st.fg,
    };
    let bg = if o.clear_bg {
        None
    } else {
        match o.bg {
            Some(c) => Some(c),
            None => st.bg,
        }
    };
    Style { fg, bg, ..st }
}

/// The groups of runs in order, with the runs `sep` between consecutive groups.
pub open spec fn runs_join(
    groups: Seq<Seq<(Style, Seq<char>)>>,
    sep: Seq<(Style, Seq<char>)>,
) -> Seq<(Style, Seq<char>)>
    decreases groups.len(),
{
    if groups.len() == 0 {
        seq![]
    } else if groups.len() == 1 {
        groups[0]
    } else {
        runs_join(groups.drop_last(), sep) + sep + groups.last()
    }
}

/// Text in the style `st`, with each `{action}` replaced by `action` in the style `ls`.
pub open spec fn label_runs(text: Seq<char>, st: Style, action: Seq<char>, ls: Style) -> Seq<
    (Style, Seq<char>),
> {
    runs_join(
        split(text, "{action}"@).map_values(|t: Seq<char>| painted(st, t)),
        painted(ls, action),
    )
}

/// What the content of a piece in the style `st` paints. When the paint changes
/// neither the key's style nor the label's, the content is one run with `{key}`
/// and then `{action}` filled in; otherwise the key and the label are runs of
/// their own, in the overlaid styles, between runs of the content's own text.
pub open spec fn content_runs(
    content: Seq<char>,
    st: Style,
    key: Seq<char>,
    action: Seq<char>,
    paint: HintPaint,
) -> Seq<(Style, Seq<char>)> {
    let ks = overlaid(st, paint.key);
    let ls = overlaid(st, paint.label);
    if ks == st && ls == st {
        painted(st, expand(content, key, action))
    } else {
        runs_join(
            split(content, "{key}"@).map_values(|p: Seq<char>| label_runs(p, st, action, ls)),
            painted(ks, key),
        )
    }
}

/// What one template piece paints: nothing when the piece is empty.
pub open spec fn piece_segments(
    seg: Seq<char>,
    unstyled: bool,
    key: Seq<char>,
    action: Seq<char>,
    paint: HintPaint,
) -> Seq<(Style, Seq<char>)> {
    if seg.len() == 0 {
        seq![]
    } else {
        let (st, content) = piece_style_content(seg, unstyled);
        content_runs(content, st, key, action, paint)
    }
}

pub open spec fn pieces_segments(
    pieces: Seq<Seq<char>>,
    lead: bool,
    key: Seq<char>,
    action: Seq<char>,
    paint: HintPaint,
) -> Seq<(Style, Seq<char>)>
    decreases pieces.len(),
{
    if pieces.len() == 0 {
        seq![]
    } else {
        pieces_segments(pieces.drop_last(), lead, key, action, paint) + piece_segments(
            pieces.last(),
            pieces.len() == 1 && !lead,
            key,
            action,
            paint,
        )
    }
}

/// What a hint template paints for a key text and an action text.
pub open spec fn template_segments(
    fmt: Seq<char>,
    key: Seq<char>,
    action: Seq<char>,
    paint: HintPaint,
) -> Seq<(Style, Seq<char>)> {
    pieces_segments(split(fmt, "#["@), starts_with(fmt, "#["@), key, action, paint)
}

proof fn lemma_runs_join_push(
    groups: Seq<Seq<(Style, Seq<char>)>>,
    sep: Seq<(Style, Seq<char>)>,
    x: Seq<(Style, Seq<char>)>,
)
    ensures
        runs_join(groups.push(x), sep) == if groups.len() == 0 {
            x
        } else {
            runs_join(groups, sep) + sep + x
        },
{
    assert(groups.push(x).drop_last() =~= groups);
}

fn push_painted(parts: &mut Vec<Segment>, st: Style, text: &Vec<char>)
    ensures
        segment_views(final(parts)@) == segment_views(old(parts)@) + painted(st, text@),
{
    let ghost before = parts@;
    if text.len() > 0 {
        parts.push(Segment { style: st, text: string_of(text) });
        assert(segment_views(parts@) =~= segment_views(before) + painted(st, text@));
    } else {
        assert(segment_views(parts@) =~= segment_views(before) + painted(st, text@));
    }
}

fn push_label_runs(
    parts: &mut Vec<Segment>,
    text: &Vec<char>,
    st: Style,
    action: &Vec<char>,
    ls: Style,
)
    ensures
        segment_views(final(parts)@) == segment_views(old(parts)@) + label_runs(
            text@,
            st,
            action@,
            ls,
        ),
{
    let var = chars_of("{action}");
    proof {
        reveal_strlit("{action}");
    }
    let pieces = split_exec(text, &var);
    let ghost ps = split(text@, "{action}"@);
    let ghost f = |t: Seq<char>| painted(st, t);
    let ghost groups = ps.map_values(f);
    let ghost start = segment_views(parts@);
    let mut i: usize = 0;
    while i < pieces.len()
        invariant
            views(pieces@) == ps,
            groups == ps.map_values(f),
            f == (|t: Seq<char>| painted(st, t)),
            i <= pieces.len(),
            segment_views(parts@) == start + runs_join(
                groups.subrange(0, i as int),
                painted(ls, action@),
            ),
        decreases pieces.len() - i,
    {
        proof {
            lemma_runs_join_push(groups.subrange(0, i as int), painted(ls, action@), groups[i as int]);
            assert(groups.subrange(0, i + 1) =~= groups.subrange(0, i as int).push(groups[i as int]));
            assert(pieces@[i as int]@ == ps[i as int]);
        }
        let ghost mid = segment_views(parts@);
        if i > 0 {
            push_painted(parts, ls, action);
        }
        push_painted(parts, st, &pieces[i]);
        proof {
            if i > 0 {
                assert(segment_views(parts@) =~= mid + painted(ls, action@) + groups[i as int]);
            } else {
                assert(segment_views(parts@) =~= mid + groups[i as int]);
            }
        }
        i = i + 1;
    }
    assert(groups.subrange(0, i as int) =~= groups);
}

fn push_content_runs(
    parts: &mut Vec<Segment>,
    content: &Vec<char>,
    st: Style,
    key: &Vec<char>,
    action: &Vec<char>,
    paint: HintPaint,
)
    ensures
        segment_views(final(parts)@) == segment_views(old(parts)@) + content_runs(
            content@,
            st,
            key@,
            action@,
            paint,
        ),
{
    let key_var = chars_of("{key}");
    let action_var = chars_of("{action}");
    proof {
        reveal_strlit("{key}");
        reveal_strlit("{action}");
    }
    let ks = overlay(st, paint.key);
    let ls = overlay(st, paint.label);
    if ks == st && ls == st {
        let expanded_key = replace_exec(content, &key_var, key);
        let expanded = replace_exec(&expanded_key, &action_var, action);
        push_painted(parts, st, &expanded);
        return;
    }
    let pieces = split_exec(content, &key_var);
    let ghost ps = split(content@, "{key}"@);
    let ghost f = |p: Seq<char>| label_runs(p, st, action@, ls);
    let ghost groups = ps.map_values(f);
    let ghost start = segment_views(parts@);
    let mut i: usize = 0;
    while i < pieces.len()
        invariant
            views(pieces@) == ps,
            groups == ps.map_values(f),
            f == (|p: Seq<char>| label_runs(p, st, action@, ls)),
            i <= pieces.len(),
            segment_views(parts@) == start + runs_join(
                groups.subrange(0, i as int),
                painted(ks, key@),
            ),
        decreases pieces.len() - i,
    {
        proof {
            lemma_runs_join_push(groups.subrange(0, i as int), painted(ks, key@), groups[i as int]);
            assert(groups.subrange(0, i + 1) =~= groups.subrange(0, i as int).push(groups[i as int]));
            assert(pieces@[i as int]@ == ps[i as int]);
        }
        let ghost mid = segment_views(parts@);
        if i > 0 {
            push_painted(parts, ks, key);
        }
        push_label_runs(parts, &pieces[i], st, action, ls);
        proof {
            if i > 0 {
                assert(segment_views(parts@) =~= mid + painted(ks, key@) + groups[i as int]);
            } else {
                assert(segment_views(parts@) =~= mid + groups[i as int]);
            }
        }
        i = i + 1;
    }
    assert(groups.subrange(0, i as int) =~= groups);
}

/// Paints `hint_format` with `{key}` and `{action}` filled in, appending one
/// segment per non-empty piece to `parts`. Each `#[...]` directive sets the
/// style of the text after it on its own; directives do not inherit.
pub fn render_hint_format_inline(
    parts: &mut Vec<Segment>,
    hint_format: &str,
    key_plain: &str,
    action_text: &str,
    paint: HintPaint,
)
    ensures
        segment_views(final(parts)@) == segment_views(old(parts)@) + template_segments(
            hint_format@,
            key_plain@,
            action_text@,
            paint,
        ),
{
    let fmt = chars_of(hint_format);
    let key = chars_of(key_plain);
    let action = chars_of(action_text);
    let open = chars_of("#[");
    let close = chars_of("]");
    proof {
        reveal_strlit("#[");
        reveal_strlit("]");
        assert(close@ =~= seq![']']);
    }
    let leads_with_directive = starts_with_exec(&fmt, &open);
    let pieces = split_exec(&fmt, &open);
    let ghost ps = split(fmt@, "#["@);
    let ghost start = segment_views(parts@);
    let mut idx: usize = 0;
    while idx < pieces.len()
        invariant
            views(pieces@) == ps,
            ps == split(hint_format@, "#["@),
            leads_with_directive == starts_with(hint_format@, "#["@),
            close@ == seq![']'],
            key@ == key_plain@,
            action@ == action_text@,
            idx <= pieces.len(),
            segment_views(parts@) == start + pieces_segments(
                ps.subrange(0, idx as int),
                leads_with_directive,
                key_plain@,
                action_text@,
                paint,
            ),
        decreases pieces.len() - idx,
    {
        let ghost before = parts@;
        let ghost seg = ps[idx as int];
        assert(ps.subrange(0, idx + 1).drop_last() =~= ps.subrange(0, idx as int));
        assert(ps.subrange(0, idx + 1).last() == seg);
        assert(pieces@[idx as int]@ == seg);
        let segment = &pieces[idx];
        if segment.len() > 0 {
            let unstyled = idx == 0 && !leads_with_directive;
            let (style, content) = if unstyled {
                (Style::new(), subrange(segment, 0, segment.len()))
            } else {
                match find_from_exec(segment, &close, 0) {
                    Some(end) => {
                        proof {
                            crate::text::lemma_find_from(seg, seq![']'], 0);
                        }
                        let body = subrange(segment, 0, end);
                        let st = directive_style_chars(&body);
                        (st, subrange(segment, end + 1, segment.len()))
                    },
                    None => (Style::new(), subrange(segment, 0, segment.len())),
                }
            };
            assert(content@ =~= piece_style_content(seg, unstyled).1);
            push_content_runs(parts, &content, style, &key, &action, paint);
        } else {
            assert(segment_views(parts@) =~= segment_views(before) + Seq::<(Style, Seq<char>)>::empty());
        }
        idx = idx + 1;
    }
    assert(ps.subrange(0, idx as int) =~= ps);
}

// ---------------------------------------------------------------------------
// Laws of templates
// ---------------------------------------------------------------------------
proof fn lemma_expand_empty(key: Seq<char>, action: Seq<char>)
    ensures
        expand(Seq::<char>::empty(), key, action) == Seq::<char>::empty(),
{
    reveal_strlit("{key}");
    reveal_strlit("{action}");
    let e = Seq::<char>::empty();
    assert(e.subrange(0, 0) =~= e);
    assert(split(e, "{key}"@) =~= seq![e]);
    assert(join(seq![e], key) == e);
    assert(split(e, "{action}"@) =~= seq![e]);
    assert(join(seq![e], action) == e);
}

proof fn lemma_content_runs_empty(st: Style, key: Seq<char>, action: Seq<char>, paint: HintPaint)
    ensures
        content_runs(Seq::<char>::empty(), st, key, action, paint) == Seq::<
            (Style, Seq<char>),
        >::empty(),
{
    reveal_strlit("{key}");
    reveal_strlit("{action}");
    let e = Seq::<char>::empty();
    lemma_expand_empty(key, action);
    assert(e.subrange(0, 0) =~= e);
    assert(split(e, "{key}"@) =~= seq![e]);
    assert(split(e, "{action}"@) =~= seq![e]);
    let ls = overlaid(st, paint.label);
    assert(split(e, "{action}"@).map_values(|t: Seq<char>| painted(st, t)) =~= seq![painted(st, e)]);
    assert(label_runs(e, st, action, ls) == painted(st, e));
    assert(split(e, "{key}"@).map_values(|p: Seq<char>| label_runs(p, st, action, ls)) =~= seq![
        label_runs(e, st, action, ls),
    ]);
}

/// A template without directives paints its content in the plain style, with
/// the key and the label in their paint; with no paint, that is its text with
/// `{key}` and `{action}` filled in, in the plain style.
pub proof fn law_template_without_directives(
    fmt: Seq<char>,
    key: Seq<char>,
    action: Seq<char>,
    paint: HintPaint,
)
    requires
        find(fmt, "#["@) is None,
    ensures
        template_segments(fmt, key, action, paint) == content_runs(
            fmt,
            plain_style(),
            key,
            action,
            paint,
        ),
        paint == no_paint() ==> template_segments(fmt, key, action, paint) == painted(
            plain_style(),
            expand(fmt, key, action),
        ),
{
    reveal_strlit("#[");
    let p = "#["@;
    lemma_find_from(fmt, p, 0);
    assert(fmt.subrange(0, fmt.len() as int) =~= fmt);
    assert(split(fmt, p) =~= seq![fmt]);
    assert(!starts_with(fmt, p)) by {
        if starts_with(fmt, p) {
            assert(matches_at(fmt, p, 0));
        }
    }
    let none = Seq::<Seq<char>>::empty();
    assert(seq![fmt].drop_last() =~= none);
    assert(pieces_segments(none, false, key, action, paint) == Seq::<(Style, Seq<char>)>::empty());
    assert(pieces_segments(seq![fmt], false, key, action, paint) =~= piece_segments(
        fmt,
        true,
        key,
        action,
        paint,
    ));
    if fmt.len() == 0 {
        lemma_content_runs_empty(plain_style(), key, action, paint);
        assert(fmt =~= Seq::<char>::empty());
    }
    assert(overlaid(plain_style(), no_paint().key) == plain_style());
}

/// The piece `a]x` after a `#[` is painted in the style `a` sets.
proof fn lemma_directive_piece(
    a: Seq<char>,
    x: Seq<char>,
    key: Seq<char>,
    action: Seq<char>,
    paint: HintPaint,
)
    requires
        find(a, seq![']']) is None,
    ensures
        piece_segments(a + "]"@ + x, false, key, action, paint) == content_runs(
            x,
            directive_style(a),
            key,
            action,
            paint,
        ),
{
    reveal_strlit("]");
    let c = seq![']'];
    let s = a + "]"@ + x;
    lemma_find_from(a, c, 0);
    assert(s.subrange(a.len() as int, a.len() + 1int) =~= c);
    assert forall|k: int| 0 <= k < a.len() implies !#[trigger] matches_at(s, c, k) by {
        if matches_at(s, c, k) {
            assert(a.subrange(k, k + 1) =~= s.subrange(k, k + 1));
            assert(matches_at(a, c, k));
        }
    }
    lemma_find_from_is(s, c, 0, a.len() as int);
    assert(s.subrange(0, a.len() as int) =~= a);
    assert(s.subrange(a.len() + 1int, s.len() as int) =~= x);
}

/// Each directive sets the style of the text after it on its own: in
/// `#[a]x#[b]y`, `x` takes the style `a` sets and `y` the style `b` sets,
/// whatever `a` set.
pub proof fn law_directives_do_not_inherit(
    a: Seq<char>,
    x: Seq<char>,
    b: Seq<char>,
    y: Seq<char>,
    key: Seq<char>,
    action: Seq<char>,
    paint: HintPaint,
)
    requires
        find(a, seq![']']) is None,
        find(b, seq![']']) is None,
        find(a + "]"@ + x, "#["@) is None,
        find(b + "]"@ + y, "#["@) is None,
    ensures
        template_segments("#["@ + a + "]"@ + x + "#["@ + b + "]"@ + y, key, action, paint)
            == content_runs(x, directive_style(a), key, action, paint) + content_runs(
            y,
            directive_style(b),
            key,
            action,
            paint,
        ),
{
    reveal_strlit("#[");
    reveal_strlit("]");
    let p = "#["@;
    let pa = a + "]"@ + x;
    let pb = b + "]"@ + y;
    let s = p + pa + p + pb;
    assert(s =~= "#["@ + a + "]"@ + x + "#["@ + b + "]"@ + y);
    let n = pa.len() as int;
    lemma_find_from(pa, p, 0);
    lemma_find_from(pb, p, 0);
    // the first `#[` opens the text
    assert(s.subrange(0, 2) =~= p);
    assert(matches_at(s, p, 0));
    assert(starts_with(s, p));
    // the second one follows the first piece
    assert(s.subrange(2 + n, 4 + n) =~= p);
    assert forall|k: int| 2 <= k < 2 + n implies !#[trigger] matches_at(s, p, k) by {
        if matches_at(s, p, k) {
            assert(s.subrange(k, k + 2)[1] == '[');
            if k + 1 < 2 + n {
                assert(pa.subrange(k - 2, k) =~= s.subrange(k, k + 2));
                assert(matches_at(pa, p, k - 2));
            } else {
                assert(s[k + 1] == '#');
            }
        }
    }
    lemma_find_from_is(s, p, 2, 2 + n);
    // and no other follows
    assert forall|k: int| 4 + n <= k implies !#[trigger] matches_at(s, p, k) by {
        if matches_at(s, p, k) {
            assert(pb.subrange(k - 4 - n, k - 2 - n) =~= s.subrange(k, k + 2));
            assert(matches_at(pb, p, k - 4 - n));
        }
    }
    lemma_find_from_none(s, p, 4 + n);
    assert(s.subrange(0, 0) =~= Seq::<char>::empty());
    assert(s.subrange(2, 2 + n) =~= pa);
    assert(s.subrange(4 + n, s.len() as int) =~= pb);
    assert(split_from(s, p, 4 + n) =~= seq![pb]);
    assert(split_from(s, p, 2) =~= seq![pa, pb]);
    let e = Seq::<char>::empty();
    assert(split(s, p) =~= seq![e, pa, pb]);
    lemma_directive_piece(a, x, key, action, paint);
    lemma_directive_piece(b, y, key, action, paint);
    assert(seq![e, pa, pb].drop_last() =~= seq![e, pa]);
    assert(seq![e, pa].drop_last() =~= seq![e]);
    let none = Seq::<Seq<char>>::empty();
    assert(seq![e].drop_last() =~= none);
    assert(pieces_segments(none, true, key, action, paint) == Seq::<(Style, Seq<char>)>::empty());
    assert(pieces_segments(seq![e], true, key, action, paint) =~= Seq::<(Style, Seq<char>)>::empty());
    assert(pieces_segments(seq![e, pa], true, key, action, paint) =~= content_runs(
        x,
        directive_style(a),
        key,
        action,
        paint,
    ));
    assert(pieces_segments(seq![e, pa, pb], true, key, action, paint) =~= content_runs(
        x,
        directive_style(a),
        key,
        action,
        paint,
    ) + content_runs(y, directive_style(b), key, action, paint));
}

/// A word of lowercase letters and `_` names the colour of its name, if any:
/// surrounding space, `#`, digits and case play no part in it.
proof fn lemma_word_colour(w: Seq<char>)
    requires
        w.len() > 0,
        forall|i: int| 0 <= i < w.len() ==> ('a' <= #[trigger] w[i] <= 'z' || w[i] == '_'),
    ensures
        colour_of(w) == named_colour(w),
{
    assert(!is_whitespace(w[0]));
    assert(trim_start(w) == w);
    assert(!is_whitespace(w[w.len() - 1]));
    assert(trim_end(w) == w);
    assert(trim(w) == w);
    assert(!starts_with(w, seq!['#'])) by {
        if starts_with(w, seq!['#']) {
            assert(w.subrange(0, 1)[0] == w[0]);
        }
    }
    assert(digit_value(w[0], 10) is None);
    assert(!all_digits(w, 10));
    assert(parse_unsigned(w, 10, 255) is None);
    assert(ascii_lower(w) =~= w);
}

proof fn colour_name_black()
    ensures
        colour_of("black"@) == Some(Colour::Fixed(0)),
{
    reveal_strlit("black");
    reveal_strlit("red");
    reveal_strlit("green");
    reveal_strlit("yellow");
    reveal_strlit("blue");
    reveal_strlit("magenta");
    reveal_strlit("purple");
    reveal_strlit("cyan");
    reveal_strlit("white");
    reveal_strlit("bright_black");
    reveal_strlit("gray");
    reveal_strlit("grey");
    reveal_strlit("bright_red");
    reveal_strlit("bright_green");
    reveal_strlit("bright_yellow");
    reveal_strlit("bright_blue");
    reveal_strlit("bright_magenta");
    reveal_strlit("bright_purple");
    reveal_strlit("bright_cyan");
    reveal_strlit("bright_white");
    lemma_word_colour("black"@);
}

proof fn colour_name_bright_black()
    ensures
        colour_of("bright_black"@) == Some(Colour::Fixed(8)),
{
    reveal_strlit("black");
    reveal_strlit("red");
    reveal_strlit("green");
    reveal_strlit("yellow");
    reveal_strlit("blue");
    reveal_strlit("magenta");
    reveal_strlit("purple");
    reveal_strlit("cyan");
    reveal_strlit("white");
    reveal_strlit("bright_black");
    reveal_strlit("gray");
    reveal_strlit("grey");
    reveal_strlit("bright_red");
    reveal_strlit("bright_green");
    reveal_strlit("bright_yellow");
    reveal_strlit("bright_blue");
    reveal_strlit("bright_magenta");
    reveal_strlit("bright_purple");
    reveal_strlit("bright_cyan");
    reveal_strlit("bright_white");
    lemma_word_colour("bright_black"@);
}

proof fn colour_name_red()
    ensures
        colour_of("red"@) == Some(Colour::Fixed(1)),
{
    reveal_strlit("black");
    reveal_strlit("red");
    reveal_strlit("green");
    reveal_strlit("yellow");
    reveal_strlit("blue");
    reveal_strlit("magenta");
    reveal_strlit("purple");
    reveal_strlit("cyan");
    reveal_strlit("white");
    reveal_strlit("bright_black");
    reveal_strlit("gray");
    reveal_strlit("grey");
    reveal_strlit("bright_red");
    reveal_strlit("bright_green");
    reveal_strlit("bright_yellow");
    reveal_strlit("bright_blue");
    reveal_strlit("bright_magenta");
    reveal_strlit("bright_purple");
    reveal_strlit("bright_cyan");
    reveal_strlit("bright_white");
    lemma_word_colour("red"@);
}

proof fn colour_name_bright_red()
    ensures
        colour_of("bright_red"@) == Some(Colour::Fixed(9)),
{
    reveal_strlit("black");
    reveal_strlit("red");
    reveal_strlit("green");
    reveal_strlit("yellow");
    reveal_strlit("blue");
    reveal_strlit("magenta");
    reveal_strlit("purple");
    reveal_strlit("cyan");
    reveal_strlit("white");
    reveal_strlit("bright_black");
    reveal_strlit("gray");
    reveal_strlit("grey");
    reveal_strlit("bright_red");
    reveal_strlit("bright_green");
    reveal_strlit("bright_yellow");
    reveal_strlit("bright_blue");
    reveal_strlit("bright_magenta");
    reveal_strlit("bright_purple");
    reveal_strlit("bright_cyan");
    reveal_strlit("bright_white");
    lemma_word_colour("bright_red"@);
}

proof fn colour_name_green()
    ensures
        colour_of("green"@) == Some(Colour::Fixed(2)),
{
    reveal_strlit("black");
    reveal_strlit("red");
    reveal_strlit("green");
    reveal_strlit("yellow");
    reveal_strlit("blue");
    reveal_strlit("magenta");
    reveal_strlit("purple");
    reveal_strlit("cyan");
    reveal_strlit("white");
    reveal_strlit("bright_black");
    reveal_strlit("gray");
    reveal_strlit("grey");
    reveal_strlit("bright_red");
    reveal_strlit("bright_green");
    reveal_strlit("bright_yellow");
    reveal_strlit("bright_blue");
    reveal_strlit("bright_magenta");
    reveal_strlit("bright_purple");
    reveal_strlit("bright_cyan");
    reveal_strlit("bright_white");
    lemma_word_colour("green"@);
}

proof fn colour_name_bright_green()
    ensures
        colour_of("bright_green"@) == Some(Colour::Fixed(10)),
{
    reveal_strlit("black");
    reveal_strlit("red");
    reveal_strlit("green");
    reveal_strlit("yellow");
    reveal_strlit("blue");
    reveal_strlit("magenta");
    reveal_strlit("purple");
    reveal_strlit("cyan");
    reveal_strlit("white");
    reveal_strlit("bright_black");
    reveal_strlit("gray");
    reveal_strlit("grey");
    reveal_strlit("bright_red");
    reveal_strlit("bright_green");
    reveal_strlit("bright_yellow");
    reveal_strlit("bright_blue");
    reveal_strlit("bright_magenta");
    reveal_strlit("bright_purple");
    reveal_strlit("bright_cyan");
    reveal_strlit("bright_white");
    lemma_word_colour("bright_green"@);
}

proof fn colour_name_yellow()
    ensures
        colour_of("yellow"@) == Some(Colour::Fixed(3)),
{
    reveal_strlit("black");
    reveal_strlit("red");
    reveal_strlit("green");
    reveal_strlit("yellow");
    reveal_strlit("blue");
    reveal_strlit("magenta");
    reveal_strlit("purple");
    reveal_strlit("cyan");
    reveal_strlit("white");
    reveal_strlit("bright_black");
    reveal_strlit("gray");
    reveal_strlit("grey");
    reveal_strlit("bright_red");
    reveal_strlit("bright_green");
    reveal_strlit("bright_yellow");
    reveal_strlit("bright_blue");
    reveal_strlit("bright_magenta");
    reveal_strlit("bright_purple");
    reveal_strlit("bright_cyan");
    reveal_strlit("bright_white");
    lemma_word_colour("yellow"@);
}

proof fn colour_name_bright_yellow()
    ensures
        colour_of("bright_yellow"@) == Some(Colour::Fixed(11)),
{
    reveal_strlit("black");
    reveal_strlit("red");
    reveal_strlit("green");
    reveal_strlit("yellow");
    reveal_strlit("blue");
    reveal_strlit("magenta");
    reveal_strlit("purple");
    reveal_strlit("cyan");
    reveal_strlit("white");
    reveal_strlit("bright_black");
    reveal_strlit("gray");
    reveal_strlit("grey");
    reveal_strlit("bright_red");
    reveal_strlit("bright_green");
    reveal_strlit("bright_yellow");
    reveal_strlit("bright_blue");
    reveal_strlit("bright_magenta");
    reveal_strlit("bright_purple");
    reveal_strlit("bright_cyan");
    reveal_strlit("bright_white");
    lemma_word_colour("bright_yellow"@);
}

proof fn colour_name_blue()
    ensures
        colour_of("blue"@) == Some(Colour::Fixed(4)),
{
    reveal_strlit("black");
    reveal_strlit("red");
    reveal_strlit("green");
    reveal_strlit("yellow");
    reveal_strlit("blue");
    reveal_strlit("magenta");
    reveal_strlit("purple");
    reveal_strlit("cyan");
    reveal_strlit("white");
    reveal_strlit("bright_black");
    reveal_strlit("gray");
    reveal_strlit("grey");
    reveal_strlit("bright_red");
    reveal_strlit("bright_green");
    reveal_strlit("bright_yellow");
    reveal_strlit("bright_blue");
    reveal_strlit("bright_magenta");
    reveal_strlit("bright_purple");
    reveal_strlit("bright_cyan");
    reveal_strlit("bright_white");
    lemma_word_colour("blue"@);
}

proof fn colour_name_bright_blue()
    ensures
        colour_of("bright_blue"@) == Some(Colour::Fixed(12)),
{
    reveal_strlit("black");
    reveal_strlit("red");
    reveal_strlit("green");
    reveal_strlit("yellow");
    reveal_strlit("blue");
    reveal_strlit("magenta");
    reveal_strlit("purple");
    reveal_strlit("cyan");
    reveal_strlit("white");
    reveal_strlit("bright_black");
    reveal_strlit("gray");
    reveal_strlit("grey");
    reveal_strlit("bright_red");
    reveal_strlit("bright_green");
    reveal_strlit("bright_yellow");
    reveal_strlit("bright_blue");
    reveal_strlit("bright_magenta");
    reveal_strlit("bright_purple");
    reveal_strlit("bright_cyan");
    reveal_strlit("bright_white");
    lemma_word_colour("bright_blue"@);
}

proof fn colour_name_magenta()
    ensures
        colour_of("magenta"@) == Some(Colour::Fixed(5)),
{
    reveal_strlit("black");
    reveal_strlit("red");
    reveal_strlit("green");
    reveal_strlit("yellow");
    reveal_strlit("blue");
    reveal_strlit("magenta");
    reveal_strlit("purple");
    reveal_strlit("cyan");
    reveal_strlit("white");
    reveal_strlit("bright_black");
    reveal_strlit("gray");
    reveal_strlit("grey");
    reveal_strlit("bright_red");
    reveal_strlit("bright_green");
    reveal_strlit("bright_yellow");
    reveal_strlit("bright_blue");
    reveal_strlit("bright_magenta");
    reveal_strlit("bright_purple");
    reveal_strlit("bright_cyan");
    reveal_strlit("bright_white");
    lemma_word_colour("magenta"@);
}

proof fn colour_name_bright_magenta()
    ensures
        colour_of("bright_magenta"@) == Some(Colour::Fixed(13)),
{
    reveal_strlit("black");
    reveal_strlit("red");
    reveal_strlit("green");
    reveal_strlit("yellow");
    reveal_strlit("blue");
    reveal_strlit("magenta");
    reveal_strlit("purple");
    reveal_strlit("cyan");
    reveal_strlit("white");
    reveal_strlit("bright_black");
    reveal_strlit("gray");
    reveal_strlit("grey");
    reveal_strlit("bright_red");
    reveal_strlit("bright_green");
    reveal_strlit("bright_yellow");
    reveal_strlit("bright_blue");
    reveal_strlit("bright_magenta");
    reveal_strlit("bright_purple");
    reveal_strlit("bright_cyan");
    reveal_strlit("bright_white");
    lemma_word_colour("bright_magenta"@);
}

proof fn colour_name_cyan()
    ensures
        colour_of("cyan"@) == Some(Colour::Fixed(6)),
{
    reveal_strlit("black");
    reveal_strlit("red");
    reveal_strlit("green");
    reveal_strlit("yellow");
    reveal_strlit("blue");
    reveal_strlit("magenta");
    reveal_strlit("purple");
    reveal_strlit("cyan");
    reveal_strlit("white");
    reveal_strlit("bright_black");
    reveal_strlit("gray");
    reveal_strlit("grey");
    reveal_strlit("bright_red");
    reveal_strlit("bright_green");
    reveal_strlit("bright_yellow");
    reveal_strlit("bright_blue");
    reveal_strlit("bright_magenta");
    reveal_strlit("bright_purple");
    reveal_strlit("bright_cyan");
    reveal_strlit("bright_white");
    lemma_word_colour("cyan"@);
}

proof fn colour_name_bright_cyan()
    ensures
        colour_of("bright_cyan"@) == Some(Colour::Fixed(14)),
{
    reveal_strlit("black");
    reveal_strlit("red");
    reveal_strlit("green");
    reveal_strlit("yellow");
    reveal_strlit("blue");
    reveal_strlit("magenta");
    reveal_strlit("purple");
    reveal_strlit("cyan");
    reveal_strlit("white");
    reveal_strlit("bright_black");
    reveal_strlit("gray");
    reveal_strlit("grey");
    reveal_strlit("bright_red");
    reveal_strlit("bright_green");
    reveal_strlit("bright_yellow");
    reveal_strlit("bright_blue");
    reveal_strlit("bright_magenta");
    reveal_strlit("bright_purple");
    reveal_strlit("bright_cyan");
    reveal_strlit("bright_white");
    lemma_word_colour("bright_cyan"@);
}

proof fn colour_name_white()
    ensures
        colour_of("white"@) == Some(Colour::Fixed(7)),
{
    reveal_strlit("black");
    reveal_strlit("red");
    reveal_strlit("green");
    reveal_strlit("yellow");
    reveal_strlit("blue");
    reveal_strlit("magenta");
    reveal_strlit("purple");
    reveal_strlit("cyan");
    reveal_strlit("white");
    reveal_strlit("bright_black");
    reveal_strlit("gray");
    reveal_strlit("grey");
    reveal_strlit("bright_red");
    reveal_strlit("bright_green");
    reveal_strlit("bright_yellow");
    reveal_strlit("bright_blue");
    reveal_strlit("bright_magenta");
    reveal_strlit("bright_purple");
    reveal_strlit("bright_cyan");
    reveal_strlit("bright_white");
    lemma_word_colour("white"@);
}

proof fn colour_name_bright_white()
    ensures
        colour_of("bright_white"@) == Some(Colour::Fixed(15)),
{
    reveal_strlit("black");
    reveal_strlit("red");
    reveal_strlit("green");
    reveal_strlit("yellow");
    reveal_strlit("blue");
    reveal_strlit("magenta");
    reveal_strlit("purple");
    reveal_strlit("cyan");
    reveal_strlit("white");
    reveal_strlit("bright_black");
    reveal_strlit("gray");
    reveal_strlit("grey");
    reveal_strlit("bright_red");
    reveal_strlit("bright_green");
    reveal_strlit("bright_yellow");
    reveal_strlit("bright_blue");
    reveal_strlit("bright_magenta");
    reveal_strlit("bright_purple");
    reveal_strlit("bright_cyan");
    reveal_strlit("bright_white");
    lemma_word_colour("bright_white"@);
}

proof fn colour_name_purple()
    ensures
        colour_of("purple"@) == Some(Colour::Fixed(5)),
{
    reveal_strlit("black");
    reveal_strlit("red");
    reveal_strlit("green");
    reveal_strlit("yellow");
    reveal_strlit("blue");
    reveal_strlit("magenta");
    reveal_strlit("purple");
    reveal_strlit("cyan");
    reveal_strlit("white");
    reveal_strlit("bright_black");
    reveal_strlit("gray");
    reveal_strlit("grey");
    reveal_strlit("bright_red");
    reveal_strlit("bright_green");
    reveal_strlit("bright_yellow");
    reveal_strlit("bright_blue");
    reveal_strlit("bright_magenta");
    reveal_strlit("bright_purple");
    reveal_strlit("bright_cyan");
    reveal_strlit("bright_white");
    lemma_word_colour("purple"@);
}

proof fn colour_name_bright_purple()
    ensures
        colour_of("bright_purple"@) == Some(Colour::Fixed(13)),
{
    reveal_strlit("black");
    reveal_strlit("red");
    reveal_strlit("green");
    reveal_strlit("yellow");
    reveal_strlit("blue");
    reveal_strlit("magenta");
    reveal_strlit("purple");
    reveal_strlit("cyan");
    reveal_strlit("white");
    reveal_strlit("bright_black");
    reveal_strlit("gray");
    reveal_strlit("grey");
    reveal_strlit("bright_red");
    reveal_strlit("bright_green");
    reveal_strlit("bright_yellow");
    reveal_strlit("bright_blue");
    reveal_strlit("bright_magenta");
    reveal_strlit("bright_purple");
    reveal_strlit("bright_cyan");
    reveal_strlit("bright_white");
    lemma_word_colour("bright_purple"@);
}

proof fn colour_name_gray()
    ensures
        colour_of("gray"@) == Some(Colour::Fixed(8)),
{
    reveal_strlit("black");
    reveal_strlit("red");
    reveal_strlit("green");
    reveal_strlit("yellow");
    reveal_strlit("blue");
    reveal_strlit("magenta");
    reveal_strlit("purple");
    reveal_strlit("cyan");
    reveal_strlit("white");
    reveal_strlit("bright_black");
    reveal_strlit("gray");
    reveal_strlit("grey");
    reveal_strlit("bright_red");
    reveal_strlit("bright_green");
    reveal_strlit("bright_yellow");
    reveal_strlit("bright_blue");
    reveal_strlit("bright_magenta");
    reveal_strlit("bright_purple");
    reveal_strlit("bright_cyan");
    reveal_strlit("bright_white");
    lemma_word_colour("gray"@);
}

proof fn colour_name_grey()
    ensures
        colour_of("grey"@) == Some(Colour::Fixed(8)),
{
    reveal_strlit("black");
    reveal_strlit("red");
    reveal_strlit("green");
    reveal_strlit("yellow");
    reveal_strlit("blue");
    reveal_strlit("magenta");
    reveal_strlit("purple");
    reveal_strlit("cyan");
    reveal_strlit("white");
    reveal_strlit("bright_black");
    reveal_strlit("gray");
    reveal_strlit("grey");
    reveal_strlit("bright_red");
    reveal_strlit("bright_green");
    reveal_strlit("bright_yellow");
    reveal_strlit("bright_blue");
    reveal_strlit("bright_magenta");
    reveal_strlit("bright_purple");
    reveal_strlit("bright_cyan");
    reveal_strlit("bright_white");
    lemma_word_colour("grey"@);
}

/// The sixteen colour names give the palette's first sixteen colours: the
/// eight base colours black, red, green, yellow, blue, magenta (or purple),
/// cyan and white in order from 0, and each `bright_` name eight further on
/// (`gray` and `grey` name bright black).
pub proof fn law_colour_names()
    ensures
        colour_of("black"@) == Some(Colour::Fixed(0)),
        colour_of("bright_black"@) == Some(Colour::Fixed(8)),
        colour_of("red"@) == Some(Colour::Fixed(1)),
        colour_of("bright_red"@) == Some(Colour::Fixed(9)),
        colour_of("green"@) == Some(Colour::Fixed(2)),
        colour_of("bright_green"@) == Some(Colour::Fixed(10)),
        colour_of("yellow"@) == Some(Colour::Fixed(3)),
        colour_of("bright_yellow"@) == Some(Colour::Fixed(11)),
        colour_of("blue"@) == Some(Colour::Fixed(4)),
        colour_of("bright_blue"@) == Some(Colour::Fixed(12)),
        colour_of("magenta"@) == Some(Colour::Fixed(5)),
        colour_of("bright_magenta"@) == Some(Colour::Fixed(13)),
        colour_of("cyan"@) == Some(Colour::Fixed(6)),
        colour_of("bright_cyan"@) == Some(Colour::Fixed(14)),
        colour_of("white"@) == Some(Colour::Fixed(7)),
        colour_of("bright_white"@) == Some(Colour::Fixed(15)),
        colour_of("purple"@) == Some(Colour::Fixed(5)),
        colour_of("bright_purple"@) == Some(Colour::Fixed(13)),
        colour_of("gray"@) == Some(Colour::Fixed(8)),
        colour_of("grey"@) == Some(Colour::Fixed(8)),
{
    colour_name_black();
    colour_name_bright_black();
    colour_name_red();
    colour_name_bright_red();
    colour_name_green();
    colour_name_bright_green();
    colour_name_yellow();
    colour_name_bright_yellow();
    colour_name_blue();
    colour_name_bright_blue();
    colour_name_magenta();
    colour_name_bright_magenta();
    colour_name_cyan();
    colour_name_bright_cyan();
    colour_name_white();
    colour_name_bright_white();
    colour_name_purple();
    colour_name_bright_purple();
    colour_name_gray();
    colour_name_grey();
}

// ---------------------------------------------------------------------------
// ANSI rendering
// ---------------------------------------------------------------------------
/// The text with ANSI escape sequences that the `ansi_term` crate writes for a
/// list of styled runs.
pub uninterp spec fn ansi_rendering(parts: Seq<(Style, Seq<char>)>) -> Seq<char>;

/// Writes the styled runs as one ANSI string (`ansi_term::ANSIStrings`, shown with `{}`).
#[verifier::external_body]
pub(crate) fn render_segments(parts: &Vec<Segment>) -> (r: String)
    ensures
        r@ == ansi_rendering(segment_views(parts@)),
{
    let colour = |c: Colour| match c {
        Colour::Fixed(n) => AnsiColour::Fixed(n),
        Colour::Rgb(r, g, b) => AnsiColour::RGB(r, g, b),
    };
    let painted = parts.iter().map(|p| AnsiStyle {
        foreground: p.style.fg.map(colour), background: p.style.bg.map(colour),
        is_bold: p.style.bold, is_dimmed: p.style.dimmed, is_italic: p.style.italic,
        is_underline: p.style.underline, is_blink: p.style.blink, is_reverse: p.style.reverse,
        is_hidden: p.style.hidden, is_strikethrough: p.style.strikethrough,
    }.paint(p.text.clone())).collect::<Vec<_>>();
    format!("{}", ANSIStrings(&painted))
}

} // verus!
