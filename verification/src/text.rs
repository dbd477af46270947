//! Character-sequence operations used by the parsers and renderers:
//! searching, splitting, joining, replacing, trimming and number parsing,
//! each stated over `Seq<char>` and implemented on `Vec<char>`.
use vstd::prelude::*;
use vstd::string::*;
use vstd::utf8::encode_utf8;

verus! {

// ---------------------------------------------------------------------------
// Specifications
// ---------------------------------------------------------------------------
/// `p` occurs in `s` starting at index `i`.
pub open spec fn matches_at(s: Seq<char>, p: Seq<char>, i: int) -> bool {
    0 <= i && i + p.len() <= s.len() && s.subrange(i, i + p.len()) == p
}

/// The first index `j >= i` at which `p` occurs in `s`.
pub open spec fn find_from(s: Seq<char>, p: Seq<char>, i: int) -> Option<int>
    decreases s.len() + 1 - i,
{
    if i < 0 || i + p.len() > s.len() {
        None
    } else if matches_at(s, p, i) {
        Some(i)
    } else {
        find_from(s, p, i + 1)
    }
}

/// The first index at which `p` occurs in `s`.
pub open spec fn find(s: Seq<char>, p: Seq<char>) -> Option<int> {
    find_from(s, p, 0)
}

/// The pieces of `s[start..]` between the non-overlapping, leftmost occurrences
/// of the non-empty pattern `p` (the behaviour of `str::split`).
pub open spec fn split_from(s: Seq<char>, p: Seq<char>, start: int) -> Seq<Seq<char>>
    decreases s.len() - start,
{
    if p.len() == 0 || start < 0 || start > s.len() {
        seq![s.subrange(start, s.len() as int)]
    } else {
        match find_from(s, p, start) {
            Some(j) => if start <= j && j + p.len() <= s.len() {
                seq![s.subrange(start, j)] + split_from(s, p, j + p.len())
            } else {
                seq![]
            },
            None => seq![s.subrange(start, s.len() as int)],
        }
    }
}

/// `s` split on every occurrence of the non-empty pattern `p`.
pub open spec fn split(s: Seq<char>, p: Seq<char>) -> Seq<Seq<char>> {
    split_from(s, p, 0)
}

/// The parts concatenated with `sep` between consecutive parts.
pub open spec fn join(parts: Seq<Seq<char>>, sep: Seq<char>) -> Seq<char>
    decreases parts.len(),
{
    if parts.len() == 0 {
        seq![]
    } else if parts.len() == 1 {
        parts[0]
    } else {
        join(parts.drop_last(), sep) + sep + parts.last()
    }
}

/// Every occurrence of `from` in `s` replaced by `to` (the behaviour of `str::replace`).
pub open spec fn replace(s: Seq<char>, from: Seq<char>, to: Seq<char>) -> Seq<char> {
    join(split(s, from), to)
}

pub open spec fn starts_with(s: Seq<char>, p: Seq<char>) -> bool {
    p.len() <= s.len() && s.subrange(0, p.len() as int) == p
}

/// `s` without the prefix `p`, when it starts with it.
pub open spec fn strip_prefix(s: Seq<char>, p: Seq<char>) -> Option<Seq<char>> {
    if starts_with(s, p) {
        Some(s.subrange(p.len() as int, s.len() as int))
    } else {
        None
    }
}

/// The Unicode `White_Space` property, as `char::is_whitespace` decides it.
pub open spec fn is_whitespace(c: char) -> bool {
    let u = c as u32;
    ||| 0x9 <= u <= 0xD
    ||| u == 0x20
    ||| u == 0x85
    ||| u == 0xA0
    ||| u == 0x1680
    ||| 0x2000 <= u <= 0x200A
    ||| u == 0x2028
    ||| u == 0x2029
    ||| u == 0x202F
    ||| u == 0x205F
    ||| u == 0x3000
}

pub open spec fn trim_start(s: Seq<char>) -> Seq<char>
    decreases s.len(),
{
    if s.len() > 0 && is_whitespace(s[0]) {
        trim_start(s.drop_first())
    } else {
        s
    }
}

pub open spec fn trim_end(s: Seq<char>) -> Seq<char>
    decreases s.len(),
{
    if s.len() > 0 && is_whitespace(s.last()) {
        trim_end(s.drop_last())
    } else {
        s
    }
}

/// `s` without leading and trailing white space (the behaviour of `str::trim`).
pub open spec fn trim(s: Seq<char>) -> Seq<char> {
    trim_end(trim_start(s))
}

pub open spec fn ascii_lower_char(c: char) -> char {
    if 'A' <= c && c <= 'Z' {
        (((c as u8) + 32) as u8) as char
    } else {
        c
    }
}

/// ASCII letters lowered, every other character kept (`str::to_ascii_lowercase`).
pub open spec fn ascii_lower(s: Seq<char>) -> Seq<char> {
    s.map_values(|c: char| ascii_lower_char(c))
}

/// The value of `c` as a digit in base `radix` (`char::to_digit`), for radix up to 36.
pub open spec fn digit_value(c: char, radix: u32) -> Option<nat> {
    let u = c as u32;
    let d: int = if '0' <= c && c <= '9' {
        u - ('0' as u32)
    } else if 'a' <= c && c <= 'z' {
        u - ('a' as u32) + 10
    } else if 'A' <= c && c <= 'Z' {
        u - ('A' as u32) + 10
    } else {
        radix as int
    };
    if d < radix {
        Some(d as nat)
    } else {
        None
    }
}

pub open spec fn all_digits(s: Seq<char>, radix: u32) -> bool {
    forall|i: int| 0 <= i < s.len() ==> #[trigger] digit_value(s[i], radix) is Some
}

/// The number that the digits `s` denote in base `radix`.
pub open spec fn digits_value(s: Seq<char>, radix: u32) -> nat
    decreases s.len(),
{
    if s.len() == 0 {
        0
    } else {
        (digits_value(s.drop_last(), radix) * (radix as nat) + digit_value(s.last(), radix).unwrap_or(0)) as nat
    }
}

/// The unsigned number `s` denotes in base `radix`, with an optional leading `+`,
/// when it is at most `limit` (the behaviour of `from_str_radix` on unsigned types).
pub open spec fn parse_unsigned(s: Seq<char>, radix: u32, limit: nat) -> Option<nat> {
    let digits = if s.len() > 0 && s[0] == '+' {
        s.drop_first()
    } else {
        s
    };
    if digits.len() > 0 && all_digits(digits, radix) && digits_value(digits, radix) <= limit {
        Some(digits_value(digits, radix))
    } else {
        None
    }
}

/// The number of bytes in the UTF-8 encoding of `s` (what `str::len` returns).
pub open spec fn utf8_len(s: Seq<char>) -> nat {
    encode_utf8(s).len()
}

/// The Unicode lowercase of `s`, as `str::to_lowercase` computes it.
pub uninterp spec fn lowercase(s: Seq<char>) -> Seq<char>;

// ---------------------------------------------------------------------------
// Lemmas
// ---------------------------------------------------------------------------
pub proof fn lemma_find_from(s: Seq<char>, p: Seq<char>, i: int)
    requires
        0 <= i,
    ensures
        find_from(s, p, i) matches Some(j) ==> i <= j && matches_at(s, p, j) && forall|k: int|
            i <= k < j ==> !#[trigger] matches_at(s, p, k),
        find_from(s, p, i) is None ==> forall|k: int| i <= k ==> !#[trigger] matches_at(s, p, k),
    decreases s.len() + 1 - i,
{
    if i < 0 || i + p.len() > s.len() {
    } else if matches_at(s, p, i) {
    } else {
        lemma_find_from(s, p, i + 1);
    }
}

/// The first occurrence at or after `i` is at `j` when `p` occurs at `j` and not before.
pub proof fn lemma_find_from_is(s: Seq<char>, p: Seq<char>, i: int, j: int)
    requires
        0 <= i <= j,
        matches_at(s, p, j),
        forall|k: int| i <= k < j ==> !#[trigger] matches_at(s, p, k),
    ensures
        find_from(s, p, i) == Some(j),
    decreases j - i,
{
    if i < j {
        lemma_find_from_is(s, p, i + 1, j);
    }
}

/// There is no occurrence at or after `i` when `p` occurs nowhere there.
pub proof fn lemma_find_from_none(s: Seq<char>, p: Seq<char>, i: int)
    requires
        0 <= i,
        forall|k: int| i <= k ==> !#[trigger] matches_at(s, p, k),
    ensures
        find_from(s, p, i) is None,
    decreases s.len() + 1 - i,
{
    if i + p.len() <= s.len() {
        lemma_find_from_none(s, p, i + 1);
    }
}

pub proof fn lemma_join_push(parts: Seq<Seq<char>>, sep: Seq<char>, x: Seq<char>)
    ensures
        join(parts.push(x), sep) == if parts.len() == 0 {
            x
        } else {
            join(parts, sep) + sep + x
        },
{
    assert(parts.push(x).drop_last() =~= parts);
}

pub proof fn lemma_split_nonempty(s: Seq<char>, p: Seq<char>, start: int)
    requires
        p.len() > 0,
        0 <= start <= s.len(),
    ensures
        split_from(s, p, start).len() > 0,
    decreases s.len() - start,
{
    lemma_find_from(s, p, start);
    match find_from(s, p, start) {
        Some(j) => {
            lemma_split_nonempty(s, p, j + p.len());
        },
        None => {},
    }
}

pub proof fn lemma_digits_value_push(s: Seq<char>, c: char, radix: u32)
    ensures
        digits_value(s.push(c), radix) == digits_value(s, radix) * radix + digit_value(
            c,
            radix,
        ).unwrap_or(0),
{
    assert(s.push(c).drop_last() =~= s);
}

pub proof fn lemma_digits_value_mono(s: Seq<char>, i: int, radix: u32)
    requires
        0 <= i <= s.len(),
        radix >= 1,
    ensures
        digits_value(s.subrange(0, i), radix) <= digits_value(s, radix),
    decreases s.len() - i,
{
    if i < s.len() {
        lemma_digits_value_mono(s, i + 1, radix);
        assert(s.subrange(0, i + 1).drop_last() =~= s.subrange(0, i));
        let a = digits_value(s.subrange(0, i), radix);
        assert(a * radix >= a) by (nonlinear_arith)
            requires
                radix >= 1,
        ;
    } else {
        assert(s.subrange(0, i) =~= s);
    }
}

pub proof fn lemma_encode_utf8_append(a: Seq<char>, b: Seq<char>)
    ensures
        encode_utf8(a + b) == encode_utf8(a) + encode_utf8(b),
    decreases a.len(),
{
    if a.len() == 0 {
        assert(a + b =~= b);
        assert(encode_utf8(a) =~= Seq::<u8>::empty());
        assert(encode_utf8(a) + encode_utf8(b) =~= encode_utf8(b));
    } else {
        assert((a + b).drop_first() =~= a.drop_first() + b);
        lemma_encode_utf8_append(a.drop_first(), b);
        assert(encode_utf8(a + b) =~= encode_utf8(a) + encode_utf8(b));
    }
}

/// Every character takes at least one byte.
pub proof fn lemma_utf8_len_at_least(s: Seq<char>)
    ensures
        utf8_len(s) >= s.len(),
        utf8_len(s) == s.len() ==> forall|i: int| 0 <= i < s.len() ==> (#[trigger] s[i]
            as u32) < 0x80,
    decreases s.len(),
{
    if s.len() > 0 {
        lemma_utf8_len_at_least(s.drop_first());
        let c = s[0] as u32;
        vstd::utf8::char_is_scalar(s[0]);
        assert(vstd::utf8::encode_scalar(c).len() >= 1);
        assert forall|i: int| 0 <= i < s.len() && utf8_len(s) == s.len() implies (#[trigger] s[i]
            as u32) < 0x80 by {
            if i > 0 {
                assert(s[i] == s.drop_first()[i - 1]);
            }
        }
    }
}

// ---------------------------------------------------------------------------
// Executable operations
// ---------------------------------------------------------------------------
/// Appends a character to a `String` (`String::push`).
#[verifier::external_body]
pub(crate) fn push_char(s: &mut String, c: char)
    ensures
        final(s)@ == old(s)@.push(c),
{
    s.push(c);
}

/// `str::to_lowercase`.
#[verifier::external_body]
pub(crate) fn to_lowercase(s: &str) -> (r: String)
    ensures
        r@ == lowercase(s@),
{
    s.to_lowercase()
}

/// The characters of `s`.
pub fn chars_of(s: &str) -> (v: Vec<char>)
    ensures
        v@ == s@,
{
    let n: usize = s.unicode_len();
    let mut v: Vec<char> = Vec::new();
    let mut i: usize = 0;
    while i < n
        invariant
            n == s@.len(),
            i <= n,
            v@ == s@.subrange(0, i as int),
        decreases n - i,
    {
        v.push(s.get_char(i));
        i = i + 1;
    }
    assert(v@ =~= s@);
    v
}

/// The `String` holding the characters `v`.
pub fn string_of(v: &Vec<char>) -> (s: String)
    ensures
        s@ == v@,
{
    let mut s = String::new();
    let mut i: usize = 0;
    while i < v.len()
        invariant
            i <= v.len(),
            s@ == v@.subrange(0, i as int),
        decreases v.len() - i,
    {
        push_char(&mut s, v[i]);
        i = i + 1;
        assert(s@ =~= v@.subrange(0, i as int));
    }
    assert(s@ =~= v@);
    s
}

/// Appends the characters `src` to `dst`.
pub fn extend(dst: &mut Vec<char>, src: &Vec<char>)
    ensures
        final(dst)@ == old(dst)@ + src@,
{
    let mut i: usize = 0;
    while i < src.len()
        invariant
            i <= src.len(),
            dst@ == old(dst)@ + src@.subrange(0, i as int),
        decreases src.len() - i,
    {
        dst.push(src[i]);
        i = i + 1;
        assert(dst@ =~= old(dst)@ + src@.subrange(0, i as int));
    }
    assert(src@.subrange(0, i as int) =~= src@);
}

/// The characters `s[from..to]`.
pub fn subrange(s: &Vec<char>, from: usize, to: usize) -> (r: Vec<char>)
    requires
        from <= to <= s.len(),
    ensures
        r@ == s@.subrange(from as int, to as int),
{
    let mut r: Vec<char> = Vec::new();
    let mut i = from;
    while i < to
        invariant
            from <= i <= to <= s.len(),
            r@ == s@.subrange(from as int, i as int),
        decreases to - i,
    {
        r.push(s[i]);
        i = i + 1;
        assert(r@ =~= s@.subrange(from as int, i as int));
    }
    r
}

pub fn chars_equal(a: &Vec<char>, b: &Vec<char>) -> (r: bool)
    ensures
        r == (a@ == b@),
{
    if a.len() != b.len() {
        return false;
    }
    let mut i: usize = 0;
    while i < a.len()
        invariant
            a.len() == b.len(),
            i <= a.len(),
            a@.subrange(0, i as int) == b@.subrange(0, i as int),
        decreases a.len() - i,
    {
        if a[i] != b[i] {
            assert(a@[i as int] != b@[i as int]);
            return false;
        }
        assert(a@.subrange(0, i + 1) =~= a@.subrange(0, i as int).push(a@[i as int]));
        assert(b@.subrange(0, i + 1) =~= b@.subrange(0, i as int).push(b@[i as int]));
        i = i + 1;
    }
    assert(a@ =~= a@.subrange(0, i as int));
    assert(b@ =~= b@.subrange(0, i as int));
    true
}

/// Whether the characters `s` spell the text `lit`.
pub fn equals_str(s: &Vec<char>, lit: &str) -> (r: bool)
    ensures
        r == (s@ == lit@),
{
    let l = chars_of(lit);
    chars_equal(s, &l)
}

pub fn matches_at_exec(s: &Vec<char>, p: &Vec<char>, i: usize) -> (r: bool)
    ensures
        r == matches_at(s@, p@, i as int),
{
    if i > s.len() || p.len() > s.len() - i {
        return false;
    }
    let mut k: usize = 0;
    while k < p.len()
        invariant
            i + p.len() <= s.len(),
            k <= p.len(),
            s@.subrange(i as int, i + k) == p@.subrange(0, k as int),
        decreases p.len() - k,
    {
        if s[i + k] != p[k] {
            assert(s@.subrange(i as int, i + p.len())[k as int] != p@[k as int]);
            return false;
        }
        assert(s@.subrange(i as int, i + k + 1) =~= s@.subrange(i as int, i + k).push(
            s@[i + k],
        ));
        assert(p@.subrange(0, k + 1) =~= p@.subrange(0, k as int).push(p@[k as int]));
        k = k + 1;
    }
    assert(p@.subrange(0, k as int) =~= p@);
    true
}

pub fn starts_with_exec(s: &Vec<char>, p: &Vec<char>) -> (r: bool)
    ensures
        r == starts_with(s@, p@),
{
    matches_at_exec(s, p, 0)
}

pub fn strip_prefix_exec(s: &Vec<char>, p: &Vec<char>) -> (r: Option<Vec<char>>)
    ensures
        r matches Some(v) ==> strip_prefix(s@, p@) == Some(v@),
        r is None ==> strip_prefix(s@, p@) is None,
{
    if starts_with_exec(s, p) {
        Some(subrange(s, p.len(), s.len()))
    } else {
        None
    }
}

/// The first index at or after `i` where `p` occurs in `s`.
pub fn find_from_exec(s: &Vec<char>, p: &Vec<char>, i: usize) -> (r: Option<usize>)
    requires
        p.len() > 0,
    ensures
        r matches Some(j) ==> find_from(s@, p@, i as int) == Some(j as int),
        r is None ==> find_from(s@, p@, i as int) is None,
{
    let mut k = i;
    while k <= s.len() && p.len() <= s.len() - k
        invariant
            i <= k,
            p.len() > 0,
            find_from(s@, p@, i as int) == find_from(s@, p@, k as int),
        decreases s.len() + 1 - k,
    {
        if matches_at_exec(s, p, k) {
            return Some(k);
        }
        k = k + 1;
    }
    None
}

pub open spec fn views(v: Seq<Vec<char>>) -> Seq<Seq<char>> {
    v.map_values(|x: Vec<char>| x@)
}

/// `s` split on every occurrence of the non-empty pattern `p`.
pub fn split_exec(s: &Vec<char>, p: &Vec<char>) -> (r: Vec<Vec<char>>)
    requires
        p.len() > 0,
    ensures
        views(r@) == split(s@, p@),
{
    let mut out: Vec<Vec<char>> = Vec::new();
    let mut start: usize = 0;
    loop
        invariant
            p.len() > 0,
            start <= s.len(),
            views(out@) + split_from(s@, p@, start as int) == split(s@, p@),
        decreases s.len() - start,
    {
        let ghost old_out = out@;
        proof {
            lemma_find_from(s@, p@, start as int);
        }
        match find_from_exec(s, p, start) {
            Some(j) => {
                let piece = subrange(s, start, j);
                out.push(piece);
                assert(views(out@) =~= views(old_out).push(piece@));
                assert(split_from(s@, p@, start as int) == seq![s@.subrange(start as int, j as int)]
                    + split_from(s@, p@, j + p.len()));
                assert(views(out@) + split_from(s@, p@, j + p.len()) =~= views(old_out)
                    + split_from(s@, p@, start as int));
                start = j + p.len();
            },
            None => {
                let piece = subrange(s, start, s.len());
                out.push(piece);
                assert(views(out@) =~= views(old_out).push(piece@));
                assert(views(out@) =~= views(old_out) + split_from(s@, p@, start as int));
                return out;
            },
        }
    }
}

/// The parts concatenated with `sep` between consecutive parts.
pub fn join_exec(parts: &Vec<Vec<char>>, sep: &Vec<char>) -> (r: Vec<char>)
    ensures
        r@ == join(views(parts@), sep@),
{
    let mut r: Vec<char> = Vec::new();
    let mut i: usize = 0;
    while i < parts.len()
        invariant
            i <= parts.len(),
            r@ == join(views(parts@.subrange(0, i as int)), sep@),
        decreases parts.len() - i,
    {
        proof {
            lemma_join_push(views(parts@.subrange(0, i as int)), sep@, parts@[i as int]@);
            assert(views(parts@.subrange(0, i + 1)) =~= views(parts@.subrange(0, i as int)).push(
                parts@[i as int]@,
            ));
        }
        if i > 0 {
            extend(&mut r, sep);
        }
        extend(&mut r, &parts[i]);
        i = i + 1;
    }
    assert(parts@.subrange(0, i as int) =~= parts@);
    r
}

/// Every occurrence of the non-empty `from` in `s` replaced by `to`.
pub fn replace_exec(s: &Vec<char>, from: &Vec<char>, to: &Vec<char>) -> (r: Vec<char>)
    requires
        from.len() > 0,
    ensures
        r@ == replace(s@, from@, to@),
{
    let pieces = split_exec(s, from);
    join_exec(&pieces, to)
}

pub fn is_whitespace_exec(c: char) -> (r: bool)
    ensures
        r == is_whitespace(c),
{
    let u = c as u32;
    (0x9 <= u && u <= 0xD) || u == 0x20 || u == 0x85 || u == 0xA0 || u == 0x1680 || (0x2000 <= u
        && u <= 0x200A) || u == 0x2028 || u == 0x2029 || u == 0x202F || u == 0x205F || u == 0x3000
}

proof fn lemma_trim_start_skip(s: Seq<char>, i: int)
    requires
        0 <= i <= s.len(),
        forall|k: int| 0 <= k < i ==> is_whitespace(#[trigger] s[k]),
    ensures
        trim_start(s) == trim_start(s.subrange(i, s.len() as int)),
    decreases i,
{
    if i > 0 {
        assert(is_whitespace(s[0]));
        let t = s.drop_first();
        assert forall|k: int| 0 <= k < i - 1 implies is_whitespace(#[trigger] t[k]) by {
            assert(t[k] == s[k + 1]);
        }
        lemma_trim_start_skip(t, i - 1);
        assert(t.subrange(i - 1, t.len() as int) =~= s.subrange(i, s.len() as int));
    } else {
        assert(s.subrange(0, s.len() as int) =~= s);
    }
}

proof fn lemma_trim_end_take(s: Seq<char>, j: int)
    requires
        0 <= j <= s.len(),
        forall|k: int| j <= k < s.len() ==> is_whitespace(#[trigger] s[k]),
    ensures
        trim_end(s) == trim_end(s.subrange(0, j)),
    decreases s.len() - j,
{
    if j < s.len() {
        assert(is_whitespace(s.last()));
        let t = s.drop_last();
        assert forall|k: int| j <= k < t.len() implies is_whitespace(#[trigger] t[k]) by {
            assert(t[k] == s[k]);
        }
        lemma_trim_end_take(t, j);
        assert(t.subrange(0, j) =~= s.subrange(0, j));
    } else {
        assert(s.subrange(0, j) =~= s);
    }
}

/// `s` without leading and trailing white space.
pub fn trim_exec(s: &Vec<char>) -> (r: Vec<char>)
    ensures
        r@ == trim(s@),
{
    let mut i: usize = 0;
    while i < s.len() && is_whitespace_exec(s[i])
        invariant
            i <= s.len(),
            forall|k: int| 0 <= k < i ==> is_whitespace(#[trigger] s@[k]),
        decreases s.len() - i,
    {
        i = i + 1;
    }
    proof {
        lemma_trim_start_skip(s@, i as int);
    }
    let ghost t = s@.subrange(i as int, s@.len() as int);
    assert(trim_start(t) == t);
    let mut j: usize = s.len();
    while j > i && is_whitespace_exec(s[j - 1])
        invariant
            i <= j <= s.len(),
            t == s@.subrange(i as int, s@.len() as int),
            forall|k: int| j <= k < s.len() ==> is_whitespace(#[trigger] s@[k]),
        decreases j,
    {
        j = j - 1;
    }
    proof {
        assert forall|k: int| (j - i) <= k < t.len() implies is_whitespace(#[trigger] t[k]) by {
            assert(t[k] == s@[k + i]);
        }
        lemma_trim_end_take(t, j - i);
        let u = t.subrange(0, j - i);
        assert(u =~= s@.subrange(i as int, j as int));
        if u.len() > 0 {
            assert(u.last() == s@[j - 1]);
        }
        assert(trim_end(u) == u);
    }
    subrange(s, i, j)
}

pub fn ascii_lower_exec(s: &Vec<char>) -> (r: Vec<char>)
    ensures
        r@ == ascii_lower(s@),
{
    let mut r: Vec<char> = Vec::new();
    let mut i: usize = 0;
    while i < s.len()
        invariant
            i <= s.len(),
            r@ == ascii_lower(s@.subrange(0, i as int)),
        decreases s.len() - i,
    {
        let c = s[i];
        let l = if 'A' <= c && c <= 'Z' {
            ((c as u8) + 32) as char
        } else {
            c
        };
        r.push(l);
        i = i + 1;
        assert(r@ =~= ascii_lower(s@.subrange(0, i as int)));
    }
    assert(s@.subrange(0, i as int) =~= s@);
    r
}

pub fn digit_value_exec(c: char, radix: u32) -> (r: Option<u32>)
    requires
        2 <= radix <= 36,
    ensures
        r matches Some(d) ==> digit_value(c, radix) == Some(d as nat),
        r is None ==> digit_value(c, radix) is None,
{
    let u = c as u32;
    let d: u32 = if '0' <= c && c <= '9' {
        u - ('0' as u32)
    } else if 'a' <= c && c <= 'z' {
        u - ('a' as u32) + 10
    } else if 'A' <= c && c <= 'Z' {
        u - ('A' as u32) + 10
    } else {
        radix
    };
    if d < radix {
        Some(d)
    } else {
        None
    }
}

/// The unsigned number `s` denotes in base `radix` (optional leading `+`), when at most `limit`.
pub fn parse_unsigned_exec(s: &Vec<char>, radix: u32, limit: u64) -> (r: Option<u64>)
    requires
        2 <= radix <= 36,
    ensures
        r matches Some(v) ==> parse_unsigned(s@, radix, limit as nat) == Some(v as nat),
        r is None ==> parse_unsigned(s@, radix, limit as nat) is None,
{
    let start: usize = if s.len() > 0 && s[0] == '+' {
        1
    } else {
        0
    };
    let ghost digits = if s@.len() > 0 && s@[0] == '+' {
        s@.drop_first()
    } else {
        s@
    };
    assert(digits =~= s@.subrange(start as int, s@.len() as int));
    if start >= s.len() {
        return None;
    }
    let mut v: u64 = 0;
    let mut i = start;
    while i < s.len()
        invariant
            start <= i <= s.len(),
            digits == s@.subrange(start as int, s@.len() as int),
            digits == (if s@.len() > 0 && s@[0] == '+' {
                s@.drop_first()
            } else {
                s@
            }),
            2 <= radix <= 36,
            all_digits(s@.subrange(start as int, i as int), radix),
            v as nat == digits_value(s@.subrange(start as int, i as int), radix),
            v <= limit,
        decreases s.len() - i,
    {
        let ghost pre = s@.subrange(start as int, i as int);
        assert(s@.subrange(start as int, i + 1) =~= pre.push(s@[i as int]));
        match digit_value_exec(s[i], radix) {
            None => {
                assert(digit_value(digits[i - start], radix) is None);
                assert(!all_digits(digits, radix));
                return None;
            },
            Some(d) => {
                proof {
                    lemma_digits_value_push(pre, s@[i as int], radix);
                }
                assert((v as u128) * (radix as u128) <= 0xffff_ffff_ffff_ffffu128 * 36) by (
                nonlinear_arith)
                    requires
                        v <= 0xffff_ffff_ffff_ffffu64,
                        radix <= 36,
                ;
                let w: u128 = (v as u128) * (radix as u128) + (d as u128);
                if w > limit as u128 {
                    proof {
                        lemma_digits_value_mono(digits, i + 1 - start, radix);
                        assert(digits.subrange(0, i + 1 - start) =~= pre.push(s@[i as int]));
                    }
                    return None;
                }
                v = w as u64;
                i = i + 1;
            },
        }
    }
    assert(s@.subrange(start as int, i as int) =~= digits);
    Some(v)
}

/// The number of bytes `c` takes in UTF-8.
pub fn char_width(c: char) -> (w: usize)
    ensures
        w == utf8_len(seq![c]),
        1 <= w <= 4,
{
    proof {
        vstd::utf8::char_is_scalar(c);
        assert(seq![c].drop_first() =~= Seq::<char>::empty());
        reveal_with_fuel(encode_utf8, 2);
        assert(encode_utf8(seq![c]) =~= vstd::utf8::encode_scalar(c as u32));
    }
    let u = c as u32;
    if u <= 0x7F {
        1
    } else if u <= 0x7FF {
        2
    } else if u <= 0xFFFF {
        3
    } else {
        4
    }
}

/// The byte length of the UTF-8 encoding of `v` when it is at most `cap`.
pub fn utf8_len_at_most(v: &Vec<char>, cap: usize) -> (r: Option<usize>)
    ensures
        r matches Some(n) ==> n == utf8_len(v@) && n <= cap,
        r is None ==> utf8_len(v@) > cap,
{
    let mut total: usize = 0;
    let mut i: usize = 0;
    while i < v.len()
        invariant
            i <= v.len(),
            total == utf8_len(v@.subrange(0, i as int)),
            total <= cap,
        decreases v.len() - i,
    {
        let w = char_width(v[i]);
        proof {
            lemma_encode_utf8_append(v@.subrange(0, i as int), seq![v@[i as int]]);
            assert(v@.subrange(0, i + 1) =~= v@.subrange(0, i as int) + seq![v@[i as int]]);
        }
        if w > cap - total {
            proof {
                lemma_encode_utf8_append(v@.subrange(0, i + 1), v@.subrange(i + 1, v@.len() as int));
                assert(v@ =~= v@.subrange(0, i + 1) + v@.subrange(i + 1, v@.len() as int));
            }
            return None;
        }
        total = total + w;
        i = i + 1;
    }
    assert(v@.subrange(0, i as int) =~= v@);
    Some(total)
}

} // verus!
