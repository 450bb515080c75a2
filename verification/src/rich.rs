//! Discord message markup tokenizer.
//!
//! Discord sends message content as a flat string with markdown (`**bold**`,
//! `*italic*` / `_italic_`), bare URLs, and custom-emoji tokens (`<:name:id>`,
//! animated `<a:name:id>`). [`tokenize`] splits it into [`Piece`]s; plain runs
//! (Unicode emoji included) accumulate into unstyled text pieces.
//!
//! All delimiters are ASCII, so the tokenizer works on characters; the
//! "consumed" counts returned by the `match_*` functions are character counts.

use vstd::prelude::*;

use crate::text::{chars_of, decimal_value, is_digit, parse_decimal_u64, string_of};
use crate::types::TextStyle;

verus! {

/// A token produced by [`tokenize`], before image resolution. Custom emoji
/// carry their id so the CDN image can be fetched afterwards.
#[derive(Debug, PartialEq)]
pub enum Piece {
    Text { text: String, style: TextStyle },
    Emoji { name: String, id: u64, animated: bool },
    Link { text: String, href: String },
}

/// The mathematical content of a [`Piece`].
pub enum PieceView {
    Text { text: Seq<char>, style: TextStyle },
    Emoji { name: Seq<char>, id: u64, animated: bool },
    Link { text: Seq<char>, href: Seq<char> },
}

impl View for Piece {
    type V = PieceView;

    open spec fn view(&self) -> PieceView {
        match self {
            Piece::Text { text, style } => PieceView::Text { text: text@, style: *style },
            Piece::Emoji { name, id, animated } => PieceView::Emoji {
                name: name@,
                id: *id,
                animated: *animated,
            },
            Piece::Link { text, href } => PieceView::Link { text: text@, href: href@ },
        }
    }
}

// ---------------------------------------------------------------------------
// Character classes and searches
// ---------------------------------------------------------------------------

pub open spec fn is_ascii_alnum(c: char) -> bool {
    ('0' <= c && c <= '9') || ('a' <= c && c <= 'z') || ('A' <= c && c <= 'Z')
}

/// Characters allowed in a bare URL: ASCII alphanumerics and
/// `-._~:/?#[]@!$&'()*+,;=%`.
pub open spec fn url_char(c: char) -> bool {
    is_ascii_alnum(c) || c == '-' || c == '.' || c == '_' || c == '~' || c == ':' || c == '/'
        || c == '?' || c == '#' || c == '[' || c == ']' || c == '@' || c == '!' || c == '$'
        || c == '&' || c == '\'' || c == '(' || c == ')' || c == '*' || c == '+' || c == ','
        || c == ';' || c == '=' || c == '%'
}

/// Characters allowed in a custom-emoji name.
pub open spec fn emoji_name_char(c: char) -> bool {
    is_ascii_alnum(c) || c == '_'
}

/// ASCII case folding, as a code point.
pub open spec fn fold_ascii(c: char) -> u32 {
    if 'A' <= c && c <= 'Z' {
        (c as u32 + 32) as u32
    } else {
        c as u32
    }
}

/// `s` starts with `p`.
pub open spec fn starts_with(s: Seq<char>, p: Seq<char>) -> bool {
    p.len() <= s.len() && s.take(p.len() as int) == p
}

/// `s` starts with `p`, ignoring ASCII case.
pub open spec fn starts_with_ci(s: Seq<char>, p: Seq<char>) -> bool {
    p.len() <= s.len() && forall|i: int| 0 <= i < p.len() ==> fold_ascii(#[trigger] s[i]) == fold_ascii(p[i])
}

/// `k` is the first position of `c` in `s`.
pub open spec fn first_char_at(s: Seq<char>, c: char, k: int) -> bool {
    0 <= k < s.len() && s[k] == c && forall|j: int| 0 <= j < k ==> s[j] != c
}

/// The first position of `c` in `s` (`str::find` with a char pattern).
pub open spec fn find_char(s: Seq<char>, c: char) -> Option<int> {
    if exists|k: int| first_char_at(s, c, k) {
        Some(choose|k: int| first_char_at(s, c, k))
    } else {
        None
    }
}

/// `s[j..j+2]` is `**`.
pub open spec fn double_star_at(s: Seq<char>, j: int) -> bool {
    0 <= j && j + 1 < s.len() && s[j] == '*' && s[j + 1] == '*'
}

/// `k` is the first position of `**` in `s`.
pub open spec fn first_double_star_at(s: Seq<char>, k: int) -> bool {
    double_star_at(s, k) && forall|j: int| 0 <= j < k ==> !double_star_at(s, j)
}

/// The first position of `**` in `s` (`str::find("**")`).
pub open spec fn find_double_star(s: Seq<char>) -> Option<int> {
    if exists|k: int| first_double_star_at(s, k) {
        Some(choose|k: int| first_double_star_at(s, k))
    } else {
        None
    }
}

/// The length of the longest prefix of URL characters.
pub open spec fn url_run_len(s: Seq<char>, k: int) -> bool {
    0 <= k <= s.len() && (forall|j: int| 0 <= j < k ==> url_char(#[trigger] s[j])) && (k < s.len()
        ==> !url_char(s[k]))
}

pub open spec fn url_prefix_len(s: Seq<char>) -> int {
    choose|k: int| url_run_len(s, k)
}

proof fn lemma_first_char_unique(s: Seq<char>, c: char, k: int)
    requires
        first_char_at(s, c, k),
    ensures
        find_char(s, c) == Some(k),
{
    let k2 = choose|k2: int| first_char_at(s, c, k2);
    assert(first_char_at(s, c, k2));
    if k2 < k {
        assert(s[k2] != c);
    }
    if k < k2 {
        assert(s[k] != c);
    }
}

proof fn lemma_first_double_star_unique(s: Seq<char>, k: int)
    requires
        first_double_star_at(s, k),
    ensures
        find_double_star(s) == Some(k),
{
    let k2 = choose|k2: int| first_double_star_at(s, k2);
    assert(first_double_star_at(s, k2));
    if k2 < k {
        assert(!double_star_at(s, k2));
    }
    if k < k2 {
        assert(!double_star_at(s, k));
    }
}

proof fn lemma_url_run_unique(s: Seq<char>, k: int)
    requires
        url_run_len(s, k),
    ensures
        url_prefix_len(s) == k,
{
    let k2 = choose|k2: int| url_run_len(s, k2);
    assert(url_run_len(s, k2));
    if k2 < k {
        assert(url_char(s[k2]));
    }
    if k < k2 {
        assert(url_char(s[k]));
    }
}

// ---------------------------------------------------------------------------
// Token matchers (specification)
// ---------------------------------------------------------------------------

pub open spec fn all_name_chars(s: Seq<char>) -> bool {
    forall|i: int| 0 <= i < s.len() ==> emoji_name_char(#[trigger] s[i])
}

pub open spec fn all_digits(s: Seq<char>) -> bool {
    forall|i: int| 0 <= i < s.len() ==> is_digit(#[trigger] s[i])
}

/// `<:name:id>` or `<a:name:id>`: characters consumed and the emoji piece.
pub open spec fn emoji_match(rest: Seq<char>) -> Option<(int, PieceView)> {
    let animated = starts_with(rest, seq!['<', 'a', ':']);
    if !animated && !starts_with(rest, seq!['<', ':']) {
        None
    } else {
        let start: int = if animated { 3 } else { 2 };
        let after = rest.skip(start);
        match find_char(after, ':') {
            None => None,
            Some(colon) => {
                let name = after.take(colon);
                if name.len() == 0 || !all_name_chars(name) {
                    None
                } else {
                    let after_name = after.skip(colon + 1);
                    match find_char(after_name, '>') {
                        None => None,
                        Some(gt) => {
                            let id_str = after_name.take(gt);
                            if id_str.len() == 0 || !all_digits(id_str) || decimal_value(id_str)
                                > u64::MAX {
                                None
                            } else {
                                Some(
                                    (
                                        start + colon + 1 + gt + 1,
                                        PieceView::Emoji {
                                            name,
                                            id: decimal_value(id_str) as u64,
                                            animated,
                                        },
                                    ),
                                )
                            }
                        },
                    }
                }
            },
        }
    }
}

/// `**bold**`; an empty `****` is not bold.
pub open spec fn bold_match(rest: Seq<char>) -> Option<(int, PieceView)> {
    if !starts_with(rest, seq!['*', '*']) {
        None
    } else {
        let inner = rest.skip(2);
        match find_double_star(inner) {
            None => None,
            Some(end) => if end == 0 {
                None
            } else {
                Some(
                    (
                        2 + end + 2,
                        PieceView::Text {
                            text: inner.take(end),
                            style: TextStyle { bold: true, italic: false },
                        },
                    ),
                )
            },
        }
    }
}

/// The italic delimiter `rest` opens with, if any: `_`, or a single `*`
/// (a leading `**` is left for bold).
pub open spec fn italic_delim(rest: Seq<char>) -> Option<char> {
    if rest.len() == 0 {
        None
    } else if rest[0] == '*' && !starts_with(rest, seq!['*', '*']) {
        Some('*')
    } else if rest[0] == '_' {
        Some('_')
    } else {
        None
    }
}

/// `*italic*` or `_italic_`.
pub open spec fn italic_match(rest: Seq<char>) -> Option<(int, PieceView)> {
    match italic_delim(rest) {
        None => None,
        Some(delim) => {
            let inner = rest.skip(1);
            match find_char(inner, delim) {
                None => None,
                Some(end) => if end == 0 {
                    None
                } else {
                    Some(
                        (
                            1 + end + 1,
                            PieceView::Text {
                                text: inner.take(end),
                                style: TextStyle { bold: false, italic: true },
                            },
                        ),
                    )
                },
            }
        },
    }
}

/// A bare `http://` / `https://` URL (scheme matched case-insensitively) with
/// at least one character after `http://`.
pub open spec fn url_match(rest: Seq<char>) -> Option<(int, PieceView)> {
    if !starts_with_ci(rest, seq!['h', 't', 't', 'p', ':', '/', '/']) && !starts_with_ci(
        rest,
        seq!['h', 't', 't', 'p', 's', ':', '/', '/'],
    ) {
        None
    } else {
        let end = url_prefix_len(rest);
        if end <= 7 {
            None
        } else {
            Some((end, PieceView::Link { text: rest.take(end), href: rest.take(end) }))
        }
    }
}

/// The first matching token at the start of `rest`: emoji, then bold, then
/// italic, then URL.
pub open spec fn special_match(rest: Seq<char>) -> Option<(int, PieceView)> {
    match emoji_match(rest) {
        Some(m) => Some(m),
        None => match bold_match(rest) {
            Some(m) => Some(m),
            None => match italic_match(rest) {
                Some(m) => Some(m),
                None => url_match(rest),
            },
        },
    }
}

/// A finished plain-text run, dropped when empty.
pub open spec fn flush(text: Seq<char>) -> Seq<PieceView> {
    if text.len() == 0 {
        Seq::empty()
    } else {
        seq![PieceView::Text { text, style: TextStyle::plain_spec() }]
    }
}

/// Tokenization of `rest` when `text` is the plain run accumulated so far:
/// at each position the first matching token wins; otherwise one character
/// joins the plain run.
pub open spec fn tokens(rest: Seq<char>, text: Seq<char>) -> Seq<PieceView>
    decreases rest.len(),
{
    if rest.len() == 0 {
        flush(text)
    } else {
        match special_match(rest) {
            Some((n, piece)) => if 0 < n <= rest.len() {
                flush(text) + seq![piece] + tokens(rest.skip(n), Seq::empty())
            } else {
                Seq::empty()
            },
            None => tokens(rest.skip(1), text.push(rest[0])),
        }
    }
}

// ---------------------------------------------------------------------------
// Executable searches
// ---------------------------------------------------------------------------

/// Case-insensitive (ASCII) prefix test.
pub fn bytes_ci_prefix(s: &str, prefix: &str) -> (r: bool)
    ensures
        r == starts_with_ci(s@, prefix@),
{
    let sv = chars_of(s);
    let pv = chars_of(prefix);
    assert(sv@.skip(0) =~= sv@);
    ci_prefix_at(&sv, 0, &pv)
}

fn fold_exec(c: char) -> (r: u32)
    ensures
        r == fold_ascii(c),
{
    if 'A' <= c && c <= 'Z' {
        c as u32 + 32
    } else {
        c as u32
    }
}

fn ci_prefix_at(s: &Vec<char>, pos: usize, p: &Vec<char>) -> (r: bool)
    requires
        pos <= s@.len(),
    ensures
        r == starts_with_ci(s@.skip(pos as int), p@),
{
    let n = s.len();
    if p.len() > n - pos {
        return false;
    }
    let mut i: usize = 0;
    while i < p.len()
        invariant
            n == s@.len(),
            pos <= s@.len(),
            p@.len() <= s@.len() - pos,
            0 <= i <= p@.len(),
            forall|j: int| 0 <= j < i ==> fold_ascii(#[trigger] s@.skip(pos as int)[j]) == fold_ascii(p@[j]),
        decreases p@.len() - i,
    {
        if fold_exec(s[pos + i]) != fold_exec(p[i]) {
            assert(s@.skip(pos as int)[i as int] == s@[pos + i]);
            return false;
        }
        assert(s@.skip(pos as int)[i as int] == s@[pos + i]);
        i += 1;
    }
    true
}

/// Whether `c` may appear in a bare URL.
pub fn is_url_char(c: char) -> (r: bool)
    ensures
        r == url_char(c),
{
    ('0' <= c && c <= '9') || ('a' <= c && c <= 'z') || ('A' <= c && c <= 'Z') || c == '-' || c
        == '.' || c == '_' || c == '~' || c == ':' || c == '/' || c == '?' || c == '#' || c == '['
        || c == ']' || c == '@' || c == '!' || c == '$' || c == '&' || c == '\'' || c == '(' || c
        == ')' || c == '*' || c == '+' || c == ',' || c == ';' || c == '=' || c == '%'
}

/// First position of `c` in `s[from..to]`, relative to `from`.
fn find_char_in(s: &Vec<char>, from: usize, to: usize, c: char) -> (r: Option<usize>)
    requires
        from <= to <= s@.len(),
    ensures
        match r {
            Some(k) => find_char(s@.subrange(from as int, to as int), c) == Some(k as int)
                && from + k < to,
            None => find_char(s@.subrange(from as int, to as int), c) is None,
        },
{
    let ghost t = s@.subrange(from as int, to as int);
    let mut i = from;
    while i < to
        invariant
            from <= i <= to <= s@.len(),
            t == s@.subrange(from as int, to as int),
            forall|j: int| 0 <= j < i - from ==> t[j] != c,
        decreases to - i,
    {
        if s[i] == c {
            proof {
                assert(t[i - from] == c);
                assert(first_char_at(t, c, i - from));
                lemma_first_char_unique(t, c, i - from);
            }
            return Some(i - from);
        }
        assert(t[i - from] == s@[i as int]);
        i += 1;
    }
    proof {
        assert forall|k: int| !first_char_at(t, c, k) by {
            if 0 <= k < t.len() {
                assert(t[k] != c);
            }
        }
    }
    None
}

/// First position of `**` in `s[from..]`, relative to `from`.
fn find_double_star_from(s: &Vec<char>, from: usize) -> (r: Option<usize>)
    requires
        from <= s@.len(),
    ensures
        match r {
            Some(k) => find_double_star(s@.skip(from as int)) == Some(k as int) && from + k + 1
                < s@.len(),
            None => find_double_star(s@.skip(from as int)) is None,
        },
{
    let ghost t = s@.skip(from as int);
    let n = s.len();
    let mut i = from;
    while i < n && i + 1 < n
        invariant
            n == s@.len(),
            from <= i <= s@.len(),
            t == s@.skip(from as int),
            forall|j: int| 0 <= j < i - from ==> !double_star_at(t, j),
        decreases s@.len() - i,
    {
        if s[i] == '*' && s[i + 1] == '*' {
            proof {
                assert(t[i - from] == s@[i as int]);
                assert(t[i - from + 1] == s@[i + 1]);
                assert(double_star_at(t, i - from));
                lemma_first_double_star_unique(t, i - from);
            }
            return Some(i - from);
        }
        assert(t[i - from] == s@[i as int]);
        assert(t[i - from + 1] == s@[i + 1]);
        i += 1;
    }
    proof {
        assert forall|k: int| !first_double_star_at(t, k) by {
            if 0 <= k && k < i - from {
                assert(!double_star_at(t, k));
            }
        }
    }
    None
}

/// Length of the run of URL characters starting at `from`.
fn url_run_from(s: &Vec<char>, from: usize) -> (r: usize)
    requires
        from <= s@.len(),
    ensures
        r == url_prefix_len(s@.skip(from as int)),
        from + r <= s@.len(),
{
    let ghost t = s@.skip(from as int);
    let mut i = from;
    while i < s.len()
        invariant
            from <= i <= s@.len(),
            t == s@.skip(from as int),
            forall|j: int| 0 <= j < i - from ==> url_char(#[trigger] t[j]),
        decreases s@.len() - i,
    {
        if !is_url_char(s[i]) {
            proof {
                assert(t[i - from] == s@[i as int]);
                lemma_url_run_unique(t, i - from);
            }
            return i - from;
        }
        assert(t[i - from] == s@[i as int]);
        i += 1;
    }
    proof {
        lemma_url_run_unique(t, i - from);
    }
    i - from
}

fn starts_with_at(s: &Vec<char>, pos: usize, p: &[char]) -> (r: bool)
    requires
        pos <= s@.len(),
    ensures
        r == starts_with(s@.skip(pos as int), p@),
{
    let n = s.len();
    if p.len() > n - pos {
        return false;
    }
    let mut i: usize = 0;
    while i < p.len()
        invariant
            n == s@.len(),
            pos <= s@.len(),
            p@.len() <= s@.len() - pos,
            0 <= i <= p@.len(),
            forall|j: int| 0 <= j < i ==> s@.skip(pos as int)[j] == p@[j],
        decreases p@.len() - i,
    {
        if s[pos + i] != p[i] {
            proof {
                assert(s@.skip(pos as int)[i as int] == s@[pos + i]);
                assert(s@.skip(pos as int).take(p@.len() as int)[i as int] != p@[i as int]);
            }
            return false;
        }
        assert(s@.skip(pos as int)[i as int] == s@[pos + i]);
        i += 1;
    }
    assert(s@.skip(pos as int).take(p@.len() as int) =~= p@);
    true
}

// ---------------------------------------------------------------------------
// Executable matchers
// ---------------------------------------------------------------------------

/// `<:name:id>` or `<a:name:id>` at `pos`: characters consumed and the
/// emoji piece.
#[verifier::loop_isolation(false)]
#[verifier::spinoff_prover]
#[verifier::rlimit(50)]
fn emoji_at(s: &Vec<char>, pos: usize) -> (r: Option<(usize, Piece)>)
    requires
        pos <= s@.len(),
    ensures
        match r {
            Some((n, p)) => emoji_match(s@.skip(pos as int)) == Some((n as int, p@)),
            None => emoji_match(s@.skip(pos as int)) is None,
        },
{
    let n_chars = s.len();
    let ghost rest = s@.skip(pos as int);
    let animated = starts_with_at(s, pos, &['<', 'a', ':']);
    let plain = starts_with_at(s, pos, &['<', ':']);
    proof {
        assert(seq!['<', 'a', ':'] =~= ['<', 'a', ':']@);
        assert(seq!['<', ':'] =~= ['<', ':']@);
    }
    if !animated && !plain {
        return None;
    }
    let start: usize = if animated { 3 } else { 2 };
    assert(start <= rest.len());
    let a0 = pos + start;
    let ghost after = rest.skip(start as int);
    assert(after =~= s@.subrange(a0 as int, s@.len() as int));
    let colon = match find_char_in(s, a0, s.len(), ':') {
        None => return None,
        Some(k) => k,
    };
    let ghost name = after.take(colon as int);
    assert(name =~= s@.subrange(a0 as int, (a0 + colon) as int));
    if colon == 0 {
        return None;
    }
    let mut i = a0;
    while i < a0 + colon
        invariant
            a0 <= i <= a0 + colon < s@.len(),
            name =~= s@.subrange(a0 as int, (a0 + colon) as int),
            forall|j: int| 0 <= j < i - a0 ==> emoji_name_char(#[trigger] name[j]),
        decreases a0 + colon - i,
    {
        let c = s[i];
        assert(name[i - a0] == c);
        if !(('0' <= c && c <= '9') || ('a' <= c && c <= 'z') || ('A' <= c && c <= 'Z') || c
            == '_') {
            proof {
                assert(!emoji_name_char(name[i - a0]));
                assert(!all_name_chars(name));
                assert(find_char(after, ':') == Some(colon as int));
            }
            return None;
        }
        i += 1;
    }
    let b0 = a0 + colon + 1;
    let ghost after_name = after.skip(colon + 1);
    assert(after_name =~= s@.subrange(b0 as int, s@.len() as int));
    let gt = match find_char_in(s, b0, s.len(), '>') {
        None => return None,
        Some(k) => k,
    };
    let ghost id_str = after_name.take(gt as int);
    assert(id_str =~= s@.subrange(b0 as int, (b0 + gt) as int));
    if gt == 0 {
        return None;
    }
    let mut digits: Vec<char> = Vec::new();
    let mut i = b0;
    while i < b0 + gt
        invariant
            b0 <= i <= b0 + gt < s@.len(),
            id_str =~= s@.subrange(b0 as int, (b0 + gt) as int),
            digits@ =~= id_str.take(i - b0),
            forall|j: int| 0 <= j < i - b0 ==> is_digit(#[trigger] id_str[j]),
        decreases b0 + gt - i,
    {
        let c = s[i];
        assert(id_str[i - b0] == c);
        if !('0' <= c && c <= '9') {
            proof {
                assert(!is_digit(id_str[i - b0]));
                assert(!all_digits(id_str));
                assert(find_char(after, ':') == Some(colon as int));
                assert(all_name_chars(name));
                assert(find_char(after_name, '>') == Some(gt as int));
            }
            return None;
        }
        digits.push(c);
        assert(id_str.take(i - b0 + 1) =~= id_str.take(i - b0).push(c));
        i += 1;
    }
    assert(digits@ =~= id_str);
    let id = match parse_decimal_u64(&digits) {
        None => return None,
        Some(v) => v,
    };
    let name_str = string_of(s, a0, a0 + colon);
    Some((start + colon + 1 + gt + 1, Piece::Emoji { name: name_str, id, animated }))
}

/// `**bold**` at `pos`; empty `****` is literal text (`None`).
fn bold_at(s: &Vec<char>, pos: usize) -> (r: Option<(usize, Piece)>)
    requires
        pos <= s@.len(),
    ensures
        match r {
            Some((n, p)) => bold_match(s@.skip(pos as int)) == Some((n as int, p@)),
            None => bold_match(s@.skip(pos as int)) is None,
        },
{
    let n_chars = s.len();
    let ghost rest = s@.skip(pos as int);
    let opens = starts_with_at(s, pos, &['*', '*']);
    proof {
        assert(seq!['*', '*'] =~= ['*', '*']@);
    }
    if !opens {
        return None;
    }
    assert(2 <= rest.len());
    assert(rest.skip(2) =~= s@.skip(pos + 2));
    let end = match find_double_star_from(s, pos + 2) {
        None => return None,
        Some(k) => k,
    };
    if end == 0 {
        return None;
    }
    let text = string_of(s, pos + 2, pos + 2 + end);
    assert(rest.skip(2).take(end as int) =~= s@.subrange(pos + 2, pos + 2 + end));
    Some((2 + end + 2, Piece::Text { text, style: TextStyle { bold: true, italic: false } }))
}

/// `*italic*` or `_italic_` at `pos`; a leading `**` is left for bold.
fn italic_at(s: &Vec<char>, pos: usize) -> (r: Option<(usize, Piece)>)
    requires
        pos <= s@.len(),
    ensures
        match r {
            Some((n, p)) => italic_match(s@.skip(pos as int)) == Some((n as int, p@)),
            None => italic_match(s@.skip(pos as int)) is None,
        },
{
    let n_chars = s.len();
    let ghost rest = s@.skip(pos as int);
    if pos >= s.len() {
        return None;
    }
    let first = s[pos];
    assert(rest[0] == first);
    let double = starts_with_at(s, pos, &['*', '*']);
    proof {
        assert(seq!['*', '*'] =~= ['*', '*']@);
    }
    let delim = if first == '*' && !double {
        '*'
    } else if first == '_' {
        '_'
    } else {
        return None;
    };
    assert(rest.skip(1) =~= s@.subrange(pos + 1, s@.len() as int));
    let end = match find_char_in(s, pos + 1, s.len(), delim) {
        None => return None,
        Some(k) => k,
    };
    if end == 0 {
        return None;
    }
    let text = string_of(s, pos + 1, pos + 1 + end);
    assert(rest.skip(1).take(end as int) =~= s@.subrange(pos + 1, pos + 1 + end));
    Some((1 + end + 1, Piece::Text { text, style: TextStyle { bold: false, italic: true } }))
}

/// A bare `http(s)://…` URL at `pos`.
fn url_at(s: &Vec<char>, pos: usize) -> (r: Option<(usize, Piece)>)
    requires
        pos <= s@.len(),
    ensures
        match r {
            Some((n, p)) => url_match(s@.skip(pos as int)) == Some((n as int, p@)),
            None => url_match(s@.skip(pos as int)) is None,
        },
{
    let n_chars = s.len();
    let http = vec!['h', 't', 't', 'p', ':', '/', '/'];
    let https = vec!['h', 't', 't', 'p', 's', ':', '/', '/'];
    proof {
        assert(http@ =~= seq!['h', 't', 't', 'p', ':', '/', '/']);
        assert(https@ =~= seq!['h', 't', 't', 'p', 's', ':', '/', '/']);
    }
    if !ci_prefix_at(s, pos, &http) && !ci_prefix_at(s, pos, &https) {
        return None;
    }
    let end = url_run_from(s, pos);
    assert(pos + end <= s@.len());
    if end <= 7 {
        return None;
    }
    let text = string_of(s, pos, pos + end);
    let href = string_of(s, pos, pos + end);
    assert(s@.skip(pos as int).take(end as int) =~= s@.subrange(pos as int, pos + end));
    Some((end, Piece::Link { text, href }))
}

/// The first token matching at `pos`: emoji, bold, italic, URL, in that
/// order.
fn special_at(s: &Vec<char>, pos: usize) -> (r: Option<(usize, Piece)>)
    requires
        pos <= s@.len(),
    ensures
        match r {
            Some((n, p)) => special_match(s@.skip(pos as int)) == Some((n as int, p@)),
            None => special_match(s@.skip(pos as int)) is None,
        },
{
    if let Some(m) = emoji_at(s, pos) {
        return Some(m);
    }
    if let Some(m) = bold_at(s, pos) {
        return Some(m);
    }
    if let Some(m) = italic_at(s, pos) {
        return Some(m);
    }
    url_at(s, pos)
}

/// Every token consumes at least one character and no more than remain.
pub proof fn lemma_special_match_progress(rest: Seq<char>)
    ensures
        special_match(rest) matches Some((n, _)) ==> 0 < n <= rest.len(),
{
    if let Some((n, _)) = emoji_match(rest) {
        let animated = starts_with(rest, seq!['<', 'a', ':']);
        let start: int = if animated { 3 } else { 2 };
        let after = rest.skip(start);
        let colon = find_char(after, ':').unwrap();
        assert(first_char_at(after, ':', choose|k: int| first_char_at(after, ':', k)));
        let after_name = after.skip(colon + 1);
        let gt = find_char(after_name, '>').unwrap();
        assert(first_char_at(after_name, '>', choose|k: int| first_char_at(after_name, '>', k)));
    } else if let Some((n, _)) = bold_match(rest) {
        let inner = rest.skip(2);
        assert(first_double_star_at(inner, choose|k: int| first_double_star_at(inner, k)));
    } else if let Some((n, _)) = italic_match(rest) {
        let inner = rest.skip(1);
        let delim = italic_delim(rest).unwrap();
        assert(first_char_at(inner, delim, choose|k: int| first_char_at(inner, delim, k)));
    } else if let Some((n, _)) = url_match(rest) {
        assert(url_run_len(rest, choose|k: int| url_run_len(rest, k))) by {
            lemma_url_run_exists(rest, 0);
        }
    }
}

/// The italic style.
pub open spec fn italic_style() -> TextStyle {
    TextStyle { bold: false, italic: true }
}

/// An italic run consumes both of its delimiters: `d inner d tail`, with
/// `d` one of `*` and `_` and a non-empty `inner` free of `d`, tokenizes
/// to the italic text `inner` followed by the tokens of `tail`.
pub proof fn law_italic_consumes_both_delimiters(d: char, inner: Seq<char>, tail: Seq<char>)
    requires
        d == '*' || d == '_',
        inner.len() > 0,
        forall|i: int| 0 <= i < inner.len() ==> #[trigger] inner[i] != d,
    ensures
        tokens(seq![d] + inner + seq![d] + tail, Seq::empty()) == seq![
            PieceView::Text { text: inner, style: italic_style() },
        ] + tokens(tail, Seq::empty()),
{
    let rest = seq![d] + inner + seq![d] + tail;
    let n = inner.len() as int;
    assert(rest[0] == d);
    assert(rest[1] == inner[0]);
    assert(!starts_with(rest, seq!['<', 'a', ':'])) by {
        if starts_with(rest, seq!['<', 'a', ':']) {
            assert(rest.take(3)[0] == rest[0]);
        }
    }
    assert(!starts_with(rest, seq!['<', ':'])) by {
        if starts_with(rest, seq!['<', ':']) {
            assert(rest.take(2)[0] == rest[0]);
        }
    }
    assert(emoji_match(rest) is None);
    assert(!starts_with(rest, seq!['*', '*'])) by {
        if starts_with(rest, seq!['*', '*']) {
            assert(rest.take(2)[0] == rest[0]);
            assert(rest.take(2)[1] == rest[1]);
        }
    }
    assert(bold_match(rest) is None);
    assert(italic_delim(rest) == Some(d));
    let after = rest.skip(1);
    assert(after =~= inner + seq![d] + tail);
    assert(first_char_at(after, d, n)) by {
        assert forall|j: int| 0 <= j < n implies after[j] != d by {
            assert(after[j] == inner[j]);
        }
        assert(after[n] == d);
    }
    lemma_first_char_unique(after, d, n);
    assert(after.take(n) =~= inner);
    assert(italic_match(rest) == Some((1 + n + 1, PieceView::Text { text: inner, style: italic_style() })));
    assert(special_match(rest) == italic_match(rest));
    assert(rest.skip(1 + n + 1) =~= tail);
    assert(flush(Seq::<char>::empty()) =~= Seq::<PieceView>::empty());
    assert(tokens(rest, Seq::empty()) == flush(Seq::empty()) + seq![
        PieceView::Text { text: inner, style: italic_style() },
    ] + tokens(tail, Seq::empty()));
}

/// A bold run consumes both of its delimiters: `** inner ** tail`, with a
/// non-empty `inner` free of `*`, tokenizes to the bold text `inner`
/// followed by the tokens of `tail`.
pub proof fn law_bold_consumes_both_delimiters(inner: Seq<char>, tail: Seq<char>)
    requires
        inner.len() > 0,
        forall|i: int| 0 <= i < inner.len() ==> #[trigger] inner[i] != '*',
    ensures
        tokens(seq!['*', '*'] + inner + seq!['*', '*'] + tail, Seq::empty()) == seq![
            PieceView::Text { text: inner, style: TextStyle { bold: true, italic: false } },
        ] + tokens(tail, Seq::empty()),
{
    let rest = seq!['*', '*'] + inner + seq!['*', '*'] + tail;
    let n = inner.len() as int;
    let piece = PieceView::Text { text: inner, style: TextStyle { bold: true, italic: false } };
    assert(rest[0] == '*' && rest[1] == '*');
    assert(!starts_with(rest, seq!['<', 'a', ':'])) by {
        if starts_with(rest, seq!['<', 'a', ':']) {
            assert(rest.take(3)[0] == rest[0]);
        }
    }
    assert(!starts_with(rest, seq!['<', ':'])) by {
        if starts_with(rest, seq!['<', ':']) {
            assert(rest.take(2)[0] == rest[0]);
        }
    }
    assert(emoji_match(rest) is None);
    assert(rest.take(2) =~= seq!['*', '*']);
    let after = rest.skip(2);
    assert(after =~= inner + seq!['*', '*'] + tail);
    assert(first_double_star_at(after, n)) by {
        assert(after[n] == '*' && after[n + 1] == '*');
        assert forall|j: int| 0 <= j < n implies !double_star_at(after, j) by {
            assert(after[j] == inner[j]);
        }
    }
    lemma_first_double_star_unique(after, n);
    assert(after.take(n) =~= inner);
    assert(bold_match(rest) == Some((2 + n + 2, piece)));
    assert(special_match(rest) == bold_match(rest));
    assert(rest.skip(2 + n + 2) =~= tail);
    assert(flush(Seq::<char>::empty()) =~= Seq::<PieceView>::empty());
    assert(tokens(rest, Seq::empty()) == flush(Seq::empty()) + seq![piece] + tokens(tail, Seq::empty()));
}

proof fn lemma_fold_is_h(c: char)
    requires
        fold_ascii(c) == 104,
    ensures
        c == 'h' || c == 'H',
{
    let u = c as u32;
    if 'A' <= c && c <= 'Z' {
        assert(u + 32 == 104);
        assert(u == 72);
    } else {
        assert(u == 104);
    }
}

/// A custom emoji `<:name:id>` (animated: `<a:name:id>`) with a non-empty
/// name of name characters and a non-empty decimal id that fits in a `u64`
/// tokenizes to that emoji followed by the tokens of what comes after.
pub proof fn law_emoji_token(animated: bool, name: Seq<char>, id: Seq<char>, tail: Seq<char>)
    requires
        name.len() > 0,
        all_name_chars(name),
        id.len() > 0,
        all_digits(id),
        decimal_value(id) <= u64::MAX,
    ensures
        tokens(
            (if animated {
                seq!['<', 'a', ':']
            } else {
                seq!['<', ':']
            }) + name + seq![':'] + id + seq!['>'] + tail,
            Seq::empty(),
        ) == seq![PieceView::Emoji { name, id: decimal_value(id) as u64, animated }] + tokens(tail, Seq::empty()),
{
    let open: Seq<char> = if animated {
        seq!['<', 'a', ':']
    } else {
        seq!['<', ':']
    };
    let rest = open + name + seq![':'] + id + seq!['>'] + tail;
    let start: int = open.len() as int;
    let piece = PieceView::Emoji { name, id: decimal_value(id) as u64, animated };
    assert(rest.take(start) =~= open);
    if animated {
        assert(starts_with(rest, seq!['<', 'a', ':']));
    } else {
        assert(!starts_with(rest, seq!['<', 'a', ':'])) by {
            if starts_with(rest, seq!['<', 'a', ':']) {
                assert(rest.take(3)[1] == rest[1]);
                assert(rest[1] == ':');
            }
        }
        assert(starts_with(rest, seq!['<', ':']));
    }
    let after = rest.skip(start);
    assert(after =~= name + seq![':'] + id + seq!['>'] + tail);
    let nl = name.len() as int;
    assert(first_char_at(after, ':', nl)) by {
        assert forall|j: int| 0 <= j < nl implies after[j] != ':' by {
            assert(after[j] == name[j]);
            assert(emoji_name_char(name[j]));
        }
    }
    lemma_first_char_unique(after, ':', nl);
    assert(after.take(nl) =~= name);
    let after_name = after.skip(nl + 1);
    assert(after_name =~= id + seq!['>'] + tail);
    let il = id.len() as int;
    assert(first_char_at(after_name, '>', il)) by {
        assert forall|j: int| 0 <= j < il implies after_name[j] != '>' by {
            assert(after_name[j] == id[j]);
            assert(is_digit(id[j]));
        }
    }
    lemma_first_char_unique(after_name, '>', il);
    assert(after_name.take(il) =~= id);
    assert(emoji_match(rest) == Some((start + nl + 1 + il + 1, piece)));
    assert(special_match(rest) == emoji_match(rest));
    assert(rest.skip(start + nl + 1 + il + 1) =~= tail);
    assert(flush(Seq::<char>::empty()) =~= Seq::<PieceView>::empty());
    assert(tokens(rest, Seq::empty()) == flush(Seq::empty()) + seq![piece] + tokens(tail, Seq::empty()));
}

/// A bare `https://` URL tokenizes to a link over its whole run of URL
/// characters (text and target alike), followed by the tokens of what
/// comes after the run.
pub proof fn law_url_token(body: Seq<char>, tail: Seq<char>)
    requires
        forall|i: int| 0 <= i < body.len() ==> url_char(#[trigger] body[i]),
        tail.len() > 0 ==> !url_char(tail[0]),
    ensures
        ({
            let url = seq!['h', 't', 't', 'p', 's', ':', '/', '/'] + body;
            tokens(url + tail, Seq::empty()) == seq![PieceView::Link { text: url, href: url }] + tokens(
                tail,
                Seq::empty(),
            )
        }),
{
    let scheme = seq!['h', 't', 't', 'p', 's', ':', '/', '/'];
    let url = scheme + body;
    let rest = url + tail;
    let piece = PieceView::Link { text: url, href: url };
    assert(rest[0] == 'h');
    assert(!starts_with(rest, seq!['<', 'a', ':'])) by {
        if starts_with(rest, seq!['<', 'a', ':']) {
            assert(rest.take(3)[0] == rest[0]);
        }
    }
    assert(!starts_with(rest, seq!['<', ':'])) by {
        if starts_with(rest, seq!['<', ':']) {
            assert(rest.take(2)[0] == rest[0]);
        }
    }
    assert(!starts_with(rest, seq!['*', '*'])) by {
        if starts_with(rest, seq!['*', '*']) {
            assert(rest.take(2)[0] == rest[0]);
        }
    }
    assert(italic_delim(rest) is None);
    assert(starts_with_ci(rest, scheme)) by {
        assert forall|i: int| 0 <= i < scheme.len() implies fold_ascii(#[trigger] rest[i]) == fold_ascii(scheme[i]) by {
            assert(rest[i] == scheme[i]);
        }
    }
    let n = url.len() as int;
    assert(url_run_len(rest, n)) by {
        assert forall|j: int| 0 <= j < n implies url_char(#[trigger] rest[j]) by {
            assert(rest[j] == url[j]);
            if j >= 8 {
                assert(url[j] == body[j - 8]);
            }
        }
        if n < rest.len() {
            assert(rest[n] == tail[0]);
        }
    }
    lemma_url_run_unique(rest, n);
    assert(rest.take(n) =~= url);
    assert(url_match(rest) == Some((n, piece)));
    assert(emoji_match(rest) is None);
    assert(bold_match(rest) is None);
    assert(italic_match(rest) is None);
    assert(special_match(rest) == url_match(rest));
    assert(rest.skip(n) =~= tail);
    assert(flush(Seq::<char>::empty()) =~= Seq::<PieceView>::empty());
    assert(tokens(rest, Seq::empty()) == flush(Seq::empty()) + seq![piece] + tokens(tail, Seq::empty()));
}

/// A character that can start no token.
pub open spec fn inert_char(c: char) -> bool {
    c != '<' && c != '*' && c != '_' && c != 'h' && c != 'H'
}

/// Text in which no token can start is one plain piece holding all of it
/// (none when empty), after any plain text already accumulated.
pub proof fn law_plain_text_is_one_piece(s: Seq<char>, acc: Seq<char>)
    requires
        forall|i: int| 0 <= i < s.len() ==> inert_char(#[trigger] s[i]),
    ensures
        tokens(s, acc) == flush(acc + s),
    decreases s.len(),
{
    if s.len() == 0 {
        assert(acc + s =~= acc);
    } else {
        let c = s[0];
        assert(inert_char(c));
        assert(!starts_with(s, seq!['<', 'a', ':'])) by {
            if starts_with(s, seq!['<', 'a', ':']) {
                assert(s.take(3)[0] == s[0]);
            }
        }
        assert(!starts_with(s, seq!['<', ':'])) by {
            if starts_with(s, seq!['<', ':']) {
                assert(s.take(2)[0] == s[0]);
            }
        }
        assert(!starts_with(s, seq!['*', '*'])) by {
            if starts_with(s, seq!['*', '*']) {
                assert(s.take(2)[0] == s[0]);
            }
        }
        assert(italic_delim(s) is None);
        assert(!starts_with_ci(s, seq!['h', 't', 't', 'p', ':', '/', '/'])) by {
            if starts_with_ci(s, seq!['h', 't', 't', 'p', ':', '/', '/']) {
                assert(seq!['h', 't', 't', 'p', ':', '/', '/'][0] == 'h');
                assert(fold_ascii(s[0]) == fold_ascii('h'));
                assert(fold_ascii('h') == 104);
                lemma_fold_is_h(s[0]);
            }
        }
        assert(!starts_with_ci(s, seq!['h', 't', 't', 'p', 's', ':', '/', '/'])) by {
            if starts_with_ci(s, seq!['h', 't', 't', 'p', 's', ':', '/', '/']) {
                assert(seq!['h', 't', 't', 'p', 's', ':', '/', '/'][0] == 'h');
                assert(fold_ascii(s[0]) == fold_ascii('h'));
                assert(fold_ascii('h') == 104);
                lemma_fold_is_h(s[0]);
            }
        }
        assert(special_match(s) is None);
        let rest = s.skip(1);
        assert forall|i: int| 0 <= i < rest.len() implies inert_char(#[trigger] rest[i]) by {
            assert(rest[i] == s[i + 1]);
        }
        law_plain_text_is_one_piece(rest, acc.push(c));
        assert(acc.push(c) + rest =~= acc + s);
    }
}

/// Characters that start no token join the plain run as they are: the
/// tokens of `p + rest` after the run `acc` are those of `rest` after the
/// run `acc + p`.
pub proof fn law_inert_prefix_joins_plain_run(p: Seq<char>, rest: Seq<char>, acc: Seq<char>)
    requires
        forall|i: int| 0 <= i < p.len() ==> inert_char(#[trigger] p[i]),
    ensures
        tokens(p + rest, acc) == tokens(rest, acc + p),
    decreases p.len(),
{
    if p.len() == 0 {
        assert(p + rest =~= rest);
        assert(acc + p =~= acc);
    } else {
        let s = p + rest;
        assert(s[0] == p[0]);
        assert(!starts_with(s, seq!['<', 'a', ':'])) by {
            if starts_with(s, seq!['<', 'a', ':']) {
                assert(s.take(3)[0] == s[0]);
            }
        }
        assert(!starts_with(s, seq!['<', ':'])) by {
            if starts_with(s, seq!['<', ':']) {
                assert(s.take(2)[0] == s[0]);
            }
        }
        assert(!starts_with(s, seq!['*', '*'])) by {
            if starts_with(s, seq!['*', '*']) {
                assert(s.take(2)[0] == s[0]);
            }
        }
        assert(!starts_with_ci(s, seq!['h', 't', 't', 'p', ':', '/', '/'])) by {
            if starts_with_ci(s, seq!['h', 't', 't', 'p', ':', '/', '/']) {
                assert(seq!['h', 't', 't', 'p', ':', '/', '/'][0] == 'h');
                assert(fold_ascii(s[0]) == fold_ascii('h'));
                lemma_fold_is_h(s[0]);
            }
        }
        assert(!starts_with_ci(s, seq!['h', 't', 't', 'p', 's', ':', '/', '/'])) by {
            if starts_with_ci(s, seq!['h', 't', 't', 'p', 's', ':', '/', '/']) {
                assert(seq!['h', 't', 't', 'p', 's', ':', '/', '/'][0] == 'h');
                assert(fold_ascii(s[0]) == fold_ascii('h'));
                lemma_fold_is_h(s[0]);
            }
        }
        assert(special_match(s) is None);
        let p1 = p.skip(1);
        assert forall|i: int| 0 <= i < p1.len() implies inert_char(#[trigger] p1[i]) by {
            assert(p1[i] == p[i + 1]);
        }
        assert(s.skip(1) =~= p1 + rest);
        law_inert_prefix_joins_plain_run(p1, rest, acc.push(p[0]));
        assert(acc.push(p[0]) + p1 =~= acc + p);
    }
}

proof fn lemma_url_run_exists(s: Seq<char>, i: int)
    requires
        0 <= i <= s.len(),
        forall|j: int| 0 <= j < i ==> url_char(#[trigger] s[j]),
    ensures
        exists|k: int| url_run_len(s, k),
    decreases s.len() - i,
{
    if i == s.len() {
        assert(url_run_len(s, i));
    } else if !url_char(s[i]) {
        assert(url_run_len(s, i));
    } else {
        lemma_url_run_exists(s, i + 1);
    }
}

/// Split `content` into [`Piece`]s: recognized markdown / emoji / link tokens,
/// with the plain runs between them collected into unstyled text pieces.
pub fn tokenize(content: &str) -> (r: Vec<Piece>)
    ensures
        r@.map_values(|p: Piece| p@) == tokens(content@, Seq::empty()),
{
    let s = chars_of(content);
    let mut pieces: Vec<Piece> = Vec::new();
    let mut text = String::new();
    let mut pos: usize = 0;
    assert(s@.skip(0) =~= s@);
    while pos < s.len()
        invariant
            pos <= s@.len(),
            s@ == content@,
            pieces@.map_values(|p: Piece| p@) + tokens(s@.skip(pos as int), text@) == tokens(
                content@,
                Seq::empty(),
            ),
        decreases s@.len() - pos,
    {
        let ghost rest = s@.skip(pos as int);
        let ghost before = pieces@.map_values(|p: Piece| p@);
        proof {
            lemma_special_match_progress(rest);
        }
        match special_at(&s, pos) {
            Some((consumed, piece)) => {
                let ghost pv = piece@;
                let ghost acc = text@;
                if !text.as_str().is_empty() {
                    let run = text;
                    text = String::new();
                    pieces.push(Piece::Text { text: run, style: TextStyle { bold: false, italic: false } });
                    proof {
                        assert(pieces@.map_values(|p: Piece| p@) =~= before + flush(acc));
                    }
                } else {
                    assert(pieces@.map_values(|p: Piece| p@) =~= before + flush(acc));
                }
                let ghost mid = pieces@.map_values(|p: Piece| p@);
                pieces.push(piece);
                proof {
                    assert(pieces@.map_values(|p: Piece| p@) =~= mid.push(pv));
                    assert(rest.skip(consumed as int) =~= s@.skip(pos + consumed));
                    assert(text@ =~= Seq::<char>::empty());
                    assert(tokens(rest, acc) == flush(acc) + seq![pv] + tokens(
                        rest.skip(consumed as int),
                        Seq::empty(),
                    ));
                    assert(pieces@.map_values(|p: Piece| p@) + tokens(
                        s@.skip(pos + consumed),
                        text@,
                    ) =~= before + (flush(acc) + seq![pv] + tokens(
                        rest.skip(consumed as int),
                        Seq::empty(),
                    )));
                }
                pos = pos + consumed;
            },
            None => {
                let c = s[pos];
                crate::text::push_char(&mut text, c);
                proof {
                    assert(rest[0] == c);
                    assert(rest.skip(1) =~= s@.skip(pos + 1));
                }
                pos = pos + 1;
            },
        }
    }
    proof {
        assert(s@.skip(pos as int) =~= Seq::<char>::empty());
    }
    let ghost fin = pieces@.map_values(|p: Piece| p@);
    if !text.as_str().is_empty() {
        pieces.push(Piece::Text { text, style: TextStyle { bold: false, italic: false } });
        assert(pieces@.map_values(|p: Piece| p@) =~= fin + tokens(Seq::<char>::empty(), text@));
    } else {
        assert(fin + tokens(Seq::<char>::empty(), text@) =~= fin);
    }
    pieces
}

} // verus!
