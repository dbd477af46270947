//! Reading text that holds ANSI escape sequences: what a terminal shows of it
//! (its visible length) and how to cut it to a number of visible characters.
use vstd::prelude::*;
use crate::text::{
    chars_of, extend, find_from, lemma_find_from, lemma_find_from_is, lemma_find_from_none,
    lemma_utf8_len_at_least, matches_at, string_of, subrange,
    utf8_len, utf8_len_at_most,
};

verus! {

/// The escape character that opens an ANSI sequence.
pub open spec fn esc() -> char {
    '\x1b'
}

/// The length of the escape sequence at the start of `s` (which starts with ESC):
/// up to and including the first `m` after it, or the whole of `s`.
pub open spec fn escape_len(s: Seq<char>) -> int {
    match find_from(s, seq!['m'], 1) {
        Some(j) => j + 1,
        None => s.len() as int,
    }
}

/// A piece of text as the parser sees it.
pub enum Piece {
    Escape(Seq<char>),
    Visible(char),
}

/// The first piece of the non-empty `s` and its length.
pub open spec fn first_piece(s: Seq<char>) -> (Piece, int) {
    if s[0] == esc() {
        (Piece::Escape(s.subrange(0, escape_len(s))), escape_len(s))
    } else {
        (Piece::Visible(s[0]), 1)
    }
}

/// The text a piece stands for.
pub open spec fn piece_text(p: Piece) -> Seq<char> {
    match p {
        Piece::Escape(e) => e,
        Piece::Visible(c) => seq![c],
    }
}

/// The pieces of `s`, in order, as the parser reads them.
pub open spec fn pieces(s: Seq<char>) -> Seq<Piece>
    decreases s.len(),
{
    if s.len() == 0 {
        seq![]
    } else {
        let n = first_piece(s).1;
        if 1 <= n <= s.len() {
            seq![first_piece(s).0] + pieces(s.subrange(n, s.len() as int))
        } else {
            seq![]
        }
    }
}

/// The texts of the pieces, concatenated.
pub open spec fn pieces_text(ps: Seq<Piece>) -> Seq<char>
    decreases ps.len(),
{
    if ps.len() == 0 {
        seq![]
    } else {
        piece_text(ps[0]) + pieces_text(ps.drop_first())
    }
}

/// A piece is well formed: an escape sequence starts with ESC and holds `m`
/// at most as its last character, ending with `m` unless `last`; a visible
/// character is not ESC.
pub open spec fn piece_well_formed(p: Piece, last: bool) -> bool {
    match p {
        Piece::Escape(e) => e.len() >= 1 && e[0] == esc() && (forall|k: int|
            1 <= k < e.len() - 1 ==> e[k] != 'm') && ((e.len() >= 2 && e[e.len() - 1] == 'm')
            || last),
        Piece::Visible(c) => c != esc(),
    }
}

/// The number of characters of `s` that lie outside escape sequences.
pub open spec fn visible_len(s: Seq<char>) -> nat
    decreases s.len(),
{
    if s.len() == 0 {
        0
    } else if s[0] == esc() {
        let e = escape_len(s);
        if 1 <= e <= s.len() {
            visible_len(s.subrange(e, s.len() as int))
        } else {
            0
        }
    } else {
        1 + visible_len(s.drop_first())
    }
}

/// `s` with every escape sequence kept and only its first `n` visible characters.
pub open spec fn keep_visible(s: Seq<char>, n: nat) -> Seq<char>
    decreases s.len(),
{
    if s.len() == 0 {
        seq![]
    } else if s[0] == esc() {
        let e = escape_len(s);
        if 1 <= e <= s.len() {
            s.subrange(0, e) + keep_visible(s.subrange(e, s.len() as int), n)
        } else {
            seq![]
        }
    } else if n > 0 {
        seq![s[0]] + keep_visible(s.drop_first(), (n - 1) as nat)
    } else {
        keep_visible(s.drop_first(), 0)
    }
}

/// The first `n` characters of the overflow marker (all of it when it is shorter).
pub open spec fn marker_prefix(overflow: Seq<char>, n: nat) -> Seq<char> {
    if n < overflow.len() {
        overflow.subrange(0, n as int)
    } else {
        overflow
    }
}

/// `text` cut to at most `max_len` visible characters, `overflow` marking the cut.
/// The room the marker takes is counted in bytes; when the marker leaves no room
/// for text, the marker alone is shown, cut to `max_len` characters.
pub open spec fn truncated(text: Seq<char>, overflow: Seq<char>, max_len: nat) -> Seq<char> {
    if visible_len(text) <= max_len {
        text
    } else if max_len <= utf8_len(overflow) {
        marker_prefix(overflow, max_len)
    } else {
        keep_visible(text, (max_len - utf8_len(overflow)) as nat) + overflow
    }
}

pub proof fn lemma_escape_len(s: Seq<char>)
    requires
        s.len() > 0,
    ensures
        1 <= escape_len(s) <= s.len(),
        forall|k: int| 1 <= k < escape_len(s) - 1 ==> s[k] != 'm',
        (escape_len(s) >= 2 && s[escape_len(s) - 1] == 'm') || (escape_len(s) == s.len() && forall|
            k: int,
        |
            1 <= k < s.len() ==> s[k] != 'm'),
{
    lemma_find_from(s, seq!['m'], 1);
    assert forall|k: int| 1 <= k < s.len() && s[k] == 'm' implies matches_at(s, seq!['m'], k) by {
        assert(s.subrange(k, k + 1) =~= seq!['m']);
    }
    match find_from(s, seq!['m'], 1) {
        Some(j) => {
            assert(s.subrange(j, j + 1)[0] == 'm');
        },
        None => {},
    }
}

// ---------------------------------------------------------------------------
// Parser
// ---------------------------------------------------------------------------
/// One piece of parsed text.
pub enum AnsiSegment {
    EscapeSequence(String),
    VisibleChar(char),
}

impl AnsiSegment {
    pub open spec fn piece(&self) -> Piece {
        match self {
            AnsiSegment::EscapeSequence(s) => Piece::Escape(s@),
            AnsiSegment::VisibleChar(c) => Piece::Visible(*c),
        }
    }
}

/// Walks text piece by piece: an escape sequence or one visible character.
pub struct AnsiParser {
    chars: Vec<char>,
    pos: usize,
}

impl AnsiParser {
    #[verifier::type_invariant]
    spec fn inv(self) -> bool {
        self.pos <= self.chars.len()
    }

    /// The text not read yet.
    pub closed spec fn rest(self) -> Seq<char> {
        self.chars@.subrange(self.pos as int, self.chars@.len() as int)
    }

    pub fn new(text: &str) -> (p: Self)
        ensures
            p.rest() == text@,
            text@.len() <= usize::MAX,
    {
        let chars = chars_of(text);
        let p = AnsiParser { chars, pos: 0 };
        assert(p.rest() =~= text@);
        p
    }

    /// The next piece, or `None` at the end of the text.
    pub fn next_segment(&mut self) -> (r: Option<AnsiSegment>)
        ensures
            old(self).rest().len() == 0 ==> r is None && final(self).rest() == old(self).rest(),
            old(self).rest().len() > 0 ==> (r matches Some(seg) && seg.piece() == first_piece(
                old(self).rest(),
            ).0 && final(self).rest() == old(self).rest().subrange(
                first_piece(old(self).rest()).1,
                old(self).rest().len() as int,
            ) && pieces(old(self).rest()) == seq![seg.piece()] + pieces(final(self).rest())),
    {
        proof {
            use_type_invariant(&*self);
            if self.rest().len() > 0 {
                lemma_pieces_step(self.rest());
            }
        }
        let ghost rest = self.rest();
        if self.pos >= self.chars.len() {
            return None;
        }
        let ch = self.chars[self.pos];
        proof {
            lemma_escape_len(rest);
            assert(rest[0] == ch);
        }
        if ch == '\x1b' {
            let mut seq_chars: Vec<char> = Vec::new();
            seq_chars.push(ch);
            let start = self.pos;
            self.pos = self.pos + 1;
            let ghost e = escape_len(rest);
            while self.pos < self.chars.len()
                invariant_except_break
                    start < self.pos <= self.chars.len(),
                    rest == self.chars@.subrange(start as int, self.chars@.len() as int),
                    rest[0] == esc(),
                    e == escape_len(rest),
                    1 <= e <= rest.len(),
                    forall|k: int| 1 <= k < e - 1 ==> rest[k] != 'm',
                    (e >= 2 && rest[e - 1] == 'm') || (e == rest.len() && forall|k: int|
                        1 <= k < rest.len() ==> rest[k] != 'm'),
                    forall|k: int| 1 <= k < self.pos - start ==> rest[k] != 'm',
                    seq_chars@ == rest.subrange(0, self.pos - start),
                ensures
                    start < self.pos <= self.chars.len(),
                    rest == self.chars@.subrange(start as int, self.chars@.len() as int),
                    self.pos - start == e,
                    seq_chars@ == rest.subrange(0, e),
                decreases self.chars.len() - self.pos,
            {
                let c = self.chars[self.pos];
                assert(c == rest[self.pos - start]);
                seq_chars.push(c);
                self.pos = self.pos + 1;
                assert(seq_chars@ =~= rest.subrange(0, self.pos - start));
                if c == 'm' {
                    assert(rest[self.pos - start - 1] == 'm');
                    break;
                }
            }
            let s = string_of(&seq_chars);
            assert(self.rest() =~= rest.subrange(e, rest.len() as int));
            Some(AnsiSegment::EscapeSequence(s))
        } else {
            self.pos = self.pos + 1;
            assert(self.rest() =~= rest.subrange(1, rest.len() as int));
            Some(AnsiSegment::VisibleChar(ch))
        }
    }
}

/// The number of characters of `text` a terminal shows.
pub fn calculate_visible_length(text: &str) -> (n: usize)
    ensures
        n == visible_len(text@),
{
    let mut parser = AnsiParser::new(text);
    let mut len: usize = 0;
    loop
        invariant
            len + visible_len(parser.rest()) == visible_len(text@),
            len + parser.rest().len() <= text@.len(),
            text@.len() <= usize::MAX,
        decreases parser.rest().len(),
    {
        let ghost rest = parser.rest();
        proof {
            if rest.len() > 0 {
                lemma_escape_len(rest);
                lemma_visible_len_bound(rest.subrange(escape_len(rest), rest.len() as int));
            }
        }
        match parser.next_segment() {
            None => {
                return len;
            },
            Some(AnsiSegment::VisibleChar(_)) => {
                assert(rest.drop_first() =~= rest.subrange(1, rest.len() as int));
                len = len + 1;
            },
            Some(AnsiSegment::EscapeSequence(_)) => {},
        }
    }
}

pub proof fn lemma_visible_len_bound(s: Seq<char>)
    ensures
        visible_len(s) <= s.len(),
    decreases s.len(),
{
    if s.len() > 0 {
        lemma_escape_len(s);
        if s[0] == esc() {
            lemma_visible_len_bound(s.subrange(escape_len(s), s.len() as int));
        } else {
            lemma_visible_len_bound(s.drop_first());
        }
    }
}

fn cut_marker(overflow: &Vec<char>, n: usize) -> (r: String)
    ensures
        r@ == marker_prefix(overflow@, n as nat),
{
    if n < overflow.len() {
        let p = subrange(overflow, 0, n);
        string_of(&p)
    } else {
        string_of(overflow)
    }
}

/// `text` cut to at most `max_len` visible characters: escape sequences are all
/// kept, visible characters past the room left by `overflow_str` are dropped, and
/// `overflow_str` is appended. Text that already fits is returned unchanged; when
/// `overflow_str` leaves no room, its first `max_len` characters are returned.
pub fn truncate_ansi_string(text: &str, overflow_str: &str, max_len: usize) -> (r: String)
    ensures
        r@ == truncated(text@, overflow_str@, max_len as nat),
{
    let visible_len = calculate_visible_length(text);
    if visible_len <= max_len {
        return text.to_owned();
    }
    let overflow = chars_of(overflow_str);
    let overflow_len = match utf8_len_at_most(&overflow, max_len) {
        Some(n) => n,
        None => {
            return cut_marker(&overflow, max_len);
        },
    };
    if max_len <= overflow_len {
        return cut_marker(&overflow, max_len);
    }
    let target_len = max_len - overflow_len;
    let mut result: Vec<char> = Vec::new();
    let mut visible_count: usize = 0;
    let mut parser = AnsiParser::new(text);
    let mut add_printable_chrs = true;
    let ghost target = target_len as nat;
    loop
        invariant
            target >= 1,
            target == target_len,
            visible_count <= target,
            add_printable_chrs == (visible_count < target),
            result@ + keep_visible(parser.rest(), (target - visible_count) as nat)
                == keep_visible(text@, target),
        ensures
            result@ == keep_visible(text@, target),
        decreases parser.rest().len(),
    {
        let ghost rest = parser.rest();
        proof {
            if rest.len() > 0 {
                lemma_escape_len(rest);
            }
        }
        match parser.next_segment() {
            None => {
                assert(keep_visible(parser.rest(), (target - visible_count) as nat) =~= seq![]);
                assert(result@ =~= keep_visible(text@, target));
                break;
            },
            Some(AnsiSegment::EscapeSequence(seq)) => {
                let sc = chars_of(seq.as_str());
                extend(&mut result, &sc);
                assert(result@ + keep_visible(parser.rest(), (target - visible_count) as nat)
                    =~= keep_visible(text@, target));
            },
            Some(AnsiSegment::VisibleChar(ch)) => {
                assert(rest.drop_first() =~= rest.subrange(1, rest.len() as int));
                if add_printable_chrs {
                    result.push(ch);
                    visible_count = visible_count + 1;
                    add_printable_chrs = visible_count < target_len;
                    assert(result@ + keep_visible(parser.rest(), (target - visible_count) as nat)
                        =~= keep_visible(text@, target));
                }
            },
        }
    }
    extend(&mut result, &overflow);
    string_of(&result)
}

// ---------------------------------------------------------------------------
// Laws
// ---------------------------------------------------------------------------
/// Text without escape characters shows every one of its characters.
pub proof fn lemma_plain_text_visible_len(s: Seq<char>)
    requires
        forall|i: int| 0 <= i < s.len() ==> s[i] != esc(),
    ensures
        visible_len(s) == s.len(),
    decreases s.len(),
{
    if s.len() > 0 {
        assert(s[0] != esc());
        let t = s.drop_first();
        assert forall|i: int| 0 <= i < t.len() implies t[i] != esc() by {
            assert(t[i] == s[i + 1]);
        }
        lemma_plain_text_visible_len(t);
    }
}

/// Reading a text piece by piece gives back the text: the pieces concatenate to
/// it, there are no more pieces than characters (so a run of the parser ends),
/// and each piece is well formed.
pub proof fn law_pieces_cover_text(s: Seq<char>)
    ensures
        pieces_text(pieces(s)) == s,
        pieces(s).len() <= s.len(),
        forall|i: int|
            0 <= i < pieces(s).len() ==> piece_well_formed(
                #[trigger] pieces(s)[i],
                i == pieces(s).len() - 1,
            ),
    decreases s.len(),
{
    if s.len() > 0 {
        lemma_escape_len(s);
        let (p, n) = first_piece(s);
        let rest = s.subrange(n, s.len() as int);
        law_pieces_cover_text(rest);
        let ps = pieces(s);
        assert(ps == seq![p] + pieces(rest));
        assert(ps.drop_first() =~= pieces(rest));
        assert(s =~= s.subrange(0, n) + rest);
        if s[0] == esc() {
            assert(piece_text(p) == s.subrange(0, n));
        } else {
            assert(piece_text(p) =~= s.subrange(0, n));
        }
        assert forall|i: int| 0 <= i < ps.len() implies piece_well_formed(
            #[trigger] ps[i],
            i == ps.len() - 1,
        ) by {
            if i > 0 {
                assert(ps[i] == pieces(rest)[i - 1]);
            } else if s[0] == esc() {
                let e = s.subrange(0, n);
                assert(e[0] == esc());
                if !(e.len() >= 2 && e[e.len() - 1] == 'm') {
                    assert(n == s.len());
                    assert(rest.len() == 0);
                }
            }
        }
    }
}

/// What the parser hands out next is the first piece of what it has not read yet.
pub proof fn lemma_pieces_step(s: Seq<char>)
    requires
        s.len() > 0,
    ensures
        pieces(s) == seq![first_piece(s).0] + pieces(s.subrange(first_piece(s).1, s.len() as int)),
{
    lemma_escape_len(s);
}

/// Dropping the text up to and including the first `m` never shows more.
proof fn lemma_visible_len_skip_to_m(b: Seq<char>, k: int)
    requires
        0 <= k <= b.len(),
        forall|i: int| 0 <= i < k - 1 ==> b[i] != 'm',
        k > 0 ==> b[k - 1] == 'm',
    ensures
        visible_len(b.subrange(k, b.len() as int)) <= visible_len(b),
    decreases k,
{
    if k == 0 {
        assert(b.subrange(0, b.len() as int) =~= b);
    } else if b[0] == esc() {
        lemma_escape_len(b);
        let e = escape_len(b);
        // the first `m` after the escape character is the one at k - 1
        lemma_find_from(b, seq!['m'], 1);
        if k - 1 >= 1 {
            assert(b.subrange(k - 1, k) =~= seq!['m']);
            assert(matches_at(b, seq!['m'], k - 1));
        }
        assert(e == k);
    } else if k == 1 {
        assert(b.drop_first() =~= b.subrange(1, b.len() as int));
    } else {
        let t = b.drop_first();
        assert forall|i: int| 0 <= i < k - 2 implies t[i] != 'm' by {
            assert(t[i] == b[i + 1]);
        }
        lemma_visible_len_skip_to_m(t, k - 1);
        assert(t.subrange(k - 1, t.len() as int) =~= b.subrange(k, b.len() as int));
    }
}

/// Joining two texts shows no more than the two show apart.
pub proof fn lemma_visible_len_concat(a: Seq<char>, b: Seq<char>)
    ensures
        visible_len(a + b) <= visible_len(a) + visible_len(b),
    decreases a.len(),
{
    let ab = a + b;
    let m = seq!['m'];
    if a.len() == 0 {
        assert(ab =~= b);
    } else if a[0] == esc() {
        lemma_escape_len(a);
        lemma_escape_len(ab);
        assert(ab[0] == esc());
        lemma_find_from(a, m, 1);
        let ea = escape_len(a);
        match find_from(a, m, 1) {
            Some(j) => {
                // the sequence ends inside `a`
                assert(ab.subrange(j, j + 1) =~= a.subrange(j, j + 1));
                assert forall|k: int| 1 <= k < j implies !#[trigger] matches_at(ab, m, k) by {
                    if matches_at(ab, m, k) {
                        assert(ab.subrange(k, k + 1) =~= a.subrange(k, k + 1));
                        assert(matches_at(a, m, k));
                    }
                }
                lemma_find_from_is(ab, m, 1, j);
                assert(escape_len(ab) == ea);
                let a2 = a.subrange(ea, a.len() as int);
                lemma_visible_len_concat(a2, b);
                assert(ab.subrange(ea, ab.len() as int) =~= a2 + b);
                assert(visible_len(ab) == visible_len(a2 + b));
                assert(visible_len(a) == visible_len(a2));
            },
            None => {
                // the sequence runs over all of `a` and on into `b`
                assert(ea == a.len());
                assert(a.subrange(ea, a.len() as int) =~= Seq::<char>::empty());
                assert(visible_len(Seq::<char>::empty()) == 0);
                assert(visible_len(a) == 0);
                lemma_find_from(b, m, 0);
                assert forall|k: int| 1 <= k < a.len() implies !#[trigger] matches_at(ab, m, k) by {
                    if matches_at(ab, m, k) {
                        assert(ab.subrange(k, k + 1) =~= a.subrange(k, k + 1));
                        assert(matches_at(a, m, k));
                    }
                }
                match find_from(b, m, 0) {
                    Some(jb) => {
                        assert(ab.subrange(a.len() + jb, a.len() + jb + 1) =~= b.subrange(
                            jb,
                            jb + 1,
                        ));
                        assert forall|k: int| 1 <= k < a.len() + jb implies !#[trigger] matches_at(
                            ab,
                            m,
                            k,
                        ) by {
                            if k >= a.len() && matches_at(ab, m, k) {
                                assert(ab.subrange(k, k + 1) =~= b.subrange(
                                    k - a.len(),
                                    k - a.len() + 1,
                                ));
                                assert(matches_at(b, m, k - a.len()));
                            }
                        }
                        lemma_find_from_is(ab, m, 1, a.len() + jb);
                        let k = jb + 1;
                        assert(b.subrange(jb, jb + 1)[0] == 'm');
                        assert forall|i: int| 0 <= i < k - 1 implies b[i] != 'm' by {
                            if b[i] == 'm' {
                                assert(b.subrange(i, i + 1) =~= m);
                                assert(matches_at(b, m, i));
                            }
                        }
                        lemma_visible_len_skip_to_m(b, k);
                        assert(ab.subrange(a.len() + k, ab.len() as int) =~= b.subrange(
                            k,
                            b.len() as int,
                        ));
                    },
                    None => {
                        assert forall|k: int| 1 <= k implies !#[trigger] matches_at(ab, m, k) by {
                            if k >= a.len() && matches_at(ab, m, k) {
                                assert(ab.subrange(k, k + 1) =~= b.subrange(
                                    k - a.len(),
                                    k - a.len() + 1,
                                ));
                                assert(matches_at(b, m, k - a.len()));
                            }
                        }
                        lemma_find_from_none(ab, m, 1);
                        assert(escape_len(ab) == ab.len());
                        assert(ab.subrange(ab.len() as int, ab.len() as int)
                            =~= Seq::<char>::empty());
                    },
                }
            },
        }
    } else {
        lemma_visible_len_concat(a.drop_first(), b);
        assert(ab.drop_first() =~= a.drop_first() + b);
    }
}

/// An escape sequence on its own shows nothing.
proof fn lemma_escape_prefix_invisible(s: Seq<char>)
    requires
        s.len() > 0,
        s[0] == esc(),
    ensures
        visible_len(s.subrange(0, escape_len(s))) == 0,
{
    lemma_escape_len(s);
    let e = escape_len(s);
    let p = s.subrange(0, e);
    lemma_escape_len(p);
    lemma_find_from(p, seq!['m'], 1);
    lemma_find_from(s, seq!['m'], 1);
    if escape_len(p) < e {
        let j = escape_len(p) - 1;
        assert(p.subrange(j, j + 1) =~= s.subrange(j, j + 1));
        assert(matches_at(s, seq!['m'], j));
    }
    assert(escape_len(p) == e);
    assert(p.subrange(e, p.len() as int) =~= Seq::<char>::empty());
    assert(visible_len(Seq::<char>::empty()) == 0);
}

/// Keeping `n` visible characters shows at most `n`.
pub proof fn lemma_keep_visible_bound(s: Seq<char>, n: nat)
    ensures
        visible_len(keep_visible(s, n)) <= n,
    decreases s.len(),
{
    if s.len() > 0 {
        lemma_escape_len(s);
        if s[0] == esc() {
            let e = escape_len(s);
            let rest = s.subrange(e, s.len() as int);
            lemma_keep_visible_bound(rest, n);
            lemma_escape_prefix_invisible(s);
            lemma_visible_len_concat(s.subrange(0, e), keep_visible(rest, n));
        } else if n > 0 {
            lemma_keep_visible_bound(s.drop_first(), (n - 1) as nat);
            let k = keep_visible(s.drop_first(), (n - 1) as nat);
            assert((seq![s[0]] + k).drop_first() =~= k);
        } else {
            lemma_keep_visible_bound(s.drop_first(), 0);
        }
    }
}

/// Text that fits is left as it is.
pub proof fn law_truncate_keeps_fitting_text(text: Seq<char>, overflow: Seq<char>, max_len: nat)
    requires
        visible_len(text) <= max_len,
    ensures
        truncated(text, overflow, max_len) == text,
{
}

/// A cut text shows at most `max_len` characters; when the marker leaves room
/// for text, it ends with the marker.
pub proof fn law_truncate_fits(text: Seq<char>, overflow: Seq<char>, max_len: nat)
    requires
        visible_len(text) > max_len,
    ensures
        visible_len(truncated(text, overflow, max_len)) <= max_len,
        max_len > utf8_len(overflow) ==> truncated(text, overflow, max_len).subrange(
            truncated(text, overflow, max_len).len() - overflow.len(),
            truncated(text, overflow, max_len).len() as int,
        ) == overflow,
{
    if max_len <= utf8_len(overflow) {
        lemma_visible_len_bound(marker_prefix(overflow, max_len));
    } else {
        let n = (max_len - utf8_len(overflow)) as nat;
        let k = keep_visible(text, n);
        lemma_keep_visible_bound(text, n);
        lemma_visible_len_concat(k, overflow);
        lemma_visible_len_bound(overflow);
        lemma_utf8_len_at_least(overflow);
        assert((k + overflow).subrange(k.len() as int, (k + overflow).len() as int) =~= overflow);
    }
}

/// Cutting a cut text again changes nothing.
pub proof fn law_truncate_is_idempotent(text: Seq<char>, overflow: Seq<char>, max_len: nat)
    ensures
        truncated(truncated(text, overflow, max_len), overflow, max_len) == truncated(
            text,
            overflow,
            max_len,
        ),
{
    if visible_len(text) > max_len {
        law_truncate_fits(text, overflow, max_len);
    }
}

} // verus!
