//! Custom style sheets: the scanner that finds the `@import` rules and the
//! `url(...)` references of a style sheet, skipping comments and strings,
//! and the rules that decide what becomes of each of them.
//!
//! Reading files and adding resources to the book are the caller's part:
//! the scanner hands back the pieces of the sheet in order, and the rules
//! below say which references are refused, how packaged resources are
//! named and how a reference is rewritten.

use vstd::prelude::*;
use crate::error::KafError;
use crate::text::{
    ascii_lower_seq, ascii_lowercase, byte_len, byte_len_exec, char_width_exec, chars_eq, chars_eq_str, chars_of, contains_char,
    dec, decimal, has_prefix, push_chars,
    occurs_at, occurs_at_exec, push_str, starts_with_str, string_of, sub_chars, trim, trim_chars, trim_start,
    trim_start_chars,
};
use crate::utils::encoding::utf8_string;
use crate::config::loader::{opt_str, probed};
use crate::utils::file::{extension_of, join_path, path_extension, path_joined};
use vstd::utf8::{decode_utf8, encode_utf8, valid_utf8};

verus! {

/// How deep `@import` rules may nest.
pub const MAX_IMPORT_DEPTH: usize = 8;

/// ASCII white space (`u8::is_ascii_whitespace`).
pub open spec fn is_ascii_ws(c: char) -> bool {
    c == ' ' || c == '\t' || c == '\n' || c == '\x0C' || c == '\r'
}

/// The lower-case text `p` occurs at `i` in `c`, ignoring ASCII case.
pub open spec fn at_ci(c: Seq<char>, i: int, p: Seq<char>) -> bool {
    0 <= i && i + p.len() <= c.len() && ascii_lower_seq(c.subrange(i, i + p.len())) == p
}

/// How many ASCII white-space characters follow from `j` on.
pub open spec fn ws_run(c: Seq<char>, j: int) -> int
    decreases c.len() - j,
{
    if 0 <= j < c.len() && is_ascii_ws(c[j]) {
        1 + ws_run(c, j + 1)
    } else {
        0
    }
}

/// The end of a string literal closed by `q`, scanning from `j`: just
/// after the closing quote; a backslash hides the character after it; the
/// end of the text when the string is not closed.
pub open spec fn string_close(c: Seq<char>, q: char, j: int) -> int
    decreases c.len() - j,
{
    if j >= c.len() {
        c.len() as int
    } else if c[j] == '\\' {
        if j + 2 >= c.len() {
            c.len() as int
        } else {
            string_close(c, q, j + 2)
        }
    } else if c[j] == q {
        j + 1
    } else {
        string_close(c, q, j + 1)
    }
}

/// The end of the string literal whose opening quote is at `start`.
pub open spec fn string_end(c: Seq<char>, start: int) -> int {
    string_close(c, c[start], start + 1)
}

/// The end of a comment, scanning from `j`: just after the first `*/`, or
/// the end of the text.
pub open spec fn comment_close(c: Seq<char>, j: int) -> int
    decreases c.len() - j,
{
    if j + 2 > c.len() {
        c.len() as int
    } else if c[j] == '*' && c[j + 1] == '/' {
        j + 2
    } else {
        comment_close(c, j + 1)
    }
}

/// The position of the first `)` from `j` on, or the end of the text.
pub open spec fn paren_close(c: Seq<char>, j: int) -> int
    decreases c.len() - j,
{
    if j >= c.len() {
        c.len() as int
    } else if c[j] == ')' {
        j
    } else {
        paren_close(c, j + 1)
    }
}

/// The text of a CSS string without its escapes: `\X` stands for `X`, and
/// a backslash at the end is dropped.
pub open spec fn unquote(s: Seq<char>) -> Seq<char>
    decreases s.len(),
{
    if s.len() == 0 {
        s
    } else if s[0] == '\\' {
        if s.len() == 1 {
            Seq::empty()
        } else {
            seq![s[1]] + unquote(s.skip(2))
        }
    } else {
        seq![s[0]] + unquote(s.drop_first())
    }
}

/// A quote character.
pub open spec fn is_quote(c: char) -> bool {
    c == '"' || c == '\''
}

/// A quote that ends the text just after `url(` or `@import`: the string it
/// opens has no room for its contents.
pub open spec fn dangling_quote(c: Seq<char>, cur: int) -> bool {
    cur < c.len() && is_quote(c[cur]) && string_end(c, cur) == cur + 1
}

/// The `url(` token at `at`: its value, whether it was quoted, and its end
/// (after the `)`, or the end of the text).
pub open spec fn url_token(c: Seq<char>, at: int) -> (Seq<char>, bool, int) {
    let cur = at + 4 + ws_run(c, at + 4);
    if cur < c.len() && is_quote(c[cur]) {
        let e = string_end(c, cur);
        let after = e + ws_run(c, e);
        let end = if after < c.len() && c[after] == ')' { after + 1 } else { c.len() as int };
        (unquote(c.subrange(cur + 1, e - 1)), true, end)
    } else {
        let close = paren_close(c, cur);
        let end = if close + 1 <= c.len() { close + 1 } else { c.len() as int };
        (trim(c.subrange(cur, close)), false, end)
    }
}

/// The position after `url(` and the white space that follows it.
pub open spec fn url_value_start(c: Seq<char>, at: int) -> int {
    at + 4 + ws_run(c, at + 4)
}

/// What follows `@import` may start the rule: white space or a quote.
pub open spec fn import_delimiter(c: char) -> bool {
    c == ' ' || c == '\t' || c == '\r' || c == '\n' || c == '"' || c == '\''
}

/// One piece of a style sheet.
pub enum CssToken {
    /// Text kept as it is: a comment, a string, or one other character.
    Text(Seq<char>),
    /// A `url(...)` reference: its text, its value, and whether the value
    /// was quoted.
    Url(Seq<char>, Seq<char>, bool),
    /// An unconditional `@import` of the given target.
    Import(Seq<char>),
    /// An `@import` whose target is neither a string nor a `url(...)`.
    BadImportSyntax,
    /// An `@import` followed by a condition (media, layer, supports).
    ConditionalImport,
    /// A quote that ends the text just after `url(` or `@import`; nothing
    /// can be read from it.
    DanglingQuote,
}

/// The `@import` rule at `i`, and where the scan goes on.
pub open spec fn import_step(c: Seq<char>, i: int) -> (CssToken, int) {
    let cur = i + 7 + ws_run(c, i + 7);
    let target: Option<(Seq<char>, int)> = if at_ci(c, cur, "url("@) {
        if dangling_quote(c, url_value_start(c, cur)) {
            None
        } else {
            let (v, q, e) = url_token(c, cur);
            Some((v, e))
        }
    } else if cur < c.len() && is_quote(c[cur]) {
        if dangling_quote(c, cur) {
            None
        } else {
            let e = string_end(c, cur);
            Some((unquote(c.subrange(cur + 1, e - 1)), e))
        }
    } else {
        Some((Seq::empty(), -1))
    };
    match target {
        None => (CssToken::DanglingQuote, c.len() as int),
        Some((t, e)) => if e < 0 {
            (CssToken::BadImportSyntax, c.len() as int)
        } else {
            let after = e + ws_run(c, e);
            if after >= c.len() {
                (CssToken::Import(t), after)
            } else if c[after] == ';' {
                (CssToken::Import(t), after + 1)
            } else {
                (CssToken::ConditionalImport, c.len() as int)
            }
        },
    }
}

/// The piece that starts at `i`, and where the next one starts.
pub open spec fn css_step(c: Seq<char>, i: int) -> (CssToken, int) {
    if occurs_at(c, "/*"@, i) {
        let e = comment_close(c, i + 2);
        (CssToken::Text(c.subrange(i, e)), e)
    } else if is_quote(c[i]) {
        let e = string_end(c, i);
        (CssToken::Text(c.subrange(i, e)), e)
    } else if at_ci(c, i, "@import"@) && i + 7 < c.len() && import_delimiter(c[i + 7]) {
        import_step(c, i)
    } else if at_ci(c, i, "url("@) {
        if dangling_quote(c, url_value_start(c, i)) {
            (CssToken::DanglingQuote, c.len() as int)
        } else {
            let (v, q, e) = url_token(c, i);
            (CssToken::Url(c.subrange(i, e), v, q), e)
        }
    } else {
        (CssToken::Text(seq![c[i]]), i + 1)
    }
}

/// The pieces of `c` from `i` on. (Every step moves forward, so the
/// second branch is never taken.)
pub open spec fn css_tokens(c: Seq<char>, i: int) -> Seq<CssToken>
    decreases c.len() - i,
{
    if i < 0 || i >= c.len() {
        Seq::empty()
    } else {
        let (t, j) = css_step(c, i);
        if j <= i || j > c.len() {
            seq![t]
        } else {
            seq![t] + css_tokens(c, j)
        }
    }
}

/// One piece of a style sheet, as the scanner hands it back.
#[derive(Debug, Clone, PartialEq, Eq)]
pub enum CssPiece {
    /// Text kept as it is.
    Text(String),
    /// A `url(...)` reference: its text, its value, and whether the value
    /// was quoted.
    Url { raw: String, value: String, quoted: bool },
    /// An unconditional `@import` of the given target.
    Import(String),
    /// An `@import` whose target is neither a string nor a `url(...)`.
    BadImportSyntax,
    /// An `@import` followed by a condition.
    ConditionalImport,
    /// A quote that ends the text just after `url(` or `@import`.
    DanglingQuote,
}

/// The view of a piece.
pub open spec fn piece_view(p: CssPiece) -> CssToken {
    match p {
        CssPiece::Text(s) => CssToken::Text(s@),
        CssPiece::Url { raw, value, quoted } => CssToken::Url(raw@, value@, quoted),
        CssPiece::Import(t) => CssToken::Import(t@),
        CssPiece::BadImportSyntax => CssToken::BadImportSyntax,
        CssPiece::ConditionalImport => CssToken::ConditionalImport,
        CssPiece::DanglingQuote => CssToken::DanglingQuote,
    }
}

/// Whether `c` is ASCII white space.
fn is_ascii_ws_exec(c: char) -> (r: bool)
    ensures
        r == is_ascii_ws(c),
{
    c == ' ' || c == '\t' || c == '\n' || c == '\x0C' || c == '\r'
}

proof fn lemma_ws_run_bounds(c: Seq<char>, j: int)
    requires
        0 <= j <= c.len(),
    ensures
        0 <= ws_run(c, j) <= c.len() - j,
    decreases c.len() - j,
{
    if j < c.len() && is_ascii_ws(c[j]) {
        lemma_ws_run_bounds(c, j + 1);
    }
}

/// How many ASCII white-space characters follow from `j` on.
fn ws_run_exec(c: &[char], j: usize) -> (r: usize)
    requires
        j <= c.len(),
    ensures
        r == ws_run(c@, j as int),
        j + r <= c.len(),
{
    let mut k = j;
    while k < c.len() && is_ascii_ws_exec(c[k])
        invariant
            j <= k <= c.len(),
            ws_run(c@, j as int) == (k - j) + ws_run(c@, k as int),
        decreases c.len() - k,
    {
        k = k + 1;
    }
    k - j
}

proof fn lemma_string_close_bounds(c: Seq<char>, q: char, j: int)
    requires
        0 <= j,
    ensures
        j <= c.len() ==> j <= string_close(c, q, j),
        string_close(c, q, j) <= c.len(),
        j > c.len() ==> string_close(c, q, j) == c.len(),
    decreases c.len() - j,
{
    if j < c.len() {
        if c[j] == '\\' {
            if j + 2 < c.len() {
                lemma_string_close_bounds(c, q, j + 2);
            }
        } else if c[j] != q {
            lemma_string_close_bounds(c, q, j + 1);
        }
    }
}

/// The end of the string literal whose opening quote is at `start`.
fn string_end_exec(c: &[char], start: usize) -> (r: usize)
    requires
        start < c.len(),
    ensures
        r == string_end(c@, start as int),
        start < r <= c.len(),
{
    proof { lemma_string_close_bounds(c@, c@[start as int], start + 1); }
    let q = c[start];
    let mut j = start + 1;
    while j < c.len()
        invariant
            start < j <= c.len(),
            q == c@[start as int],
            string_end(c@, start as int) == string_close(c@, q, j as int),
        decreases c.len() - j,
    {
        if c[j] == '\\' {
            if c.len() - j <= 2 {
                return c.len();
            }
            j = j + 2;
        } else if c[j] == q {
            return j + 1;
        } else {
            j = j + 1;
        }
    }
    c.len()
}

proof fn lemma_comment_close_bounds(c: Seq<char>, j: int)
    requires
        0 <= j <= c.len(),
    ensures
        j <= comment_close(c, j) <= c.len(),
    decreases c.len() - j,
{
    if j + 2 <= c.len() && !(c[j] == '*' && c[j + 1] == '/') {
        lemma_comment_close_bounds(c, j + 1);
    }
}

/// The end of the comment whose text starts at `j`.
fn comment_close_exec(c: &[char], j: usize) -> (r: usize)
    requires
        j <= c.len(),
    ensures
        r == comment_close(c@, j as int),
        j <= r <= c.len(),
{
    proof { lemma_comment_close_bounds(c@, j as int); }
    let mut k = j;
    while k < c.len() && c.len() - k >= 2
        invariant
            j <= k <= c.len(),
            comment_close(c@, j as int) == comment_close(c@, k as int),
        decreases c.len() - k,
    {
        if c[k] == '*' && c[k + 1] == '/' {
            return k + 2;
        }
        k = k + 1;
    }
    c.len()
}

proof fn lemma_paren_close_bounds(c: Seq<char>, j: int)
    requires
        0 <= j <= c.len(),
    ensures
        j <= paren_close(c, j) <= c.len(),
    decreases c.len() - j,
{
    if j < c.len() && c[j] != ')' {
        lemma_paren_close_bounds(c, j + 1);
    }
}

/// The position of the first `)` from `j` on, or the end of the text.
fn paren_close_exec(c: &[char], j: usize) -> (r: usize)
    requires
        j <= c.len(),
    ensures
        r == paren_close(c@, j as int),
        j <= r <= c.len(),
{
    proof { lemma_paren_close_bounds(c@, j as int); }
    let mut k = j;
    while k < c.len() && c[k] != ')'
        invariant
            j <= k <= c.len(),
            paren_close(c@, j as int) == paren_close(c@, k as int),
        decreases c.len() - k,
    {
        k = k + 1;
    }
    k
}

/// The text of a CSS string without its escapes.
pub fn unquote_css_string(s: &[char]) -> (r: Vec<char>)
    ensures
        r@ == unquote(s@),
{
    let mut r: Vec<char> = Vec::new();
    let mut i: usize = 0;
    assert(s@.skip(0) == s@);
    while i < s.len()
        invariant
            i <= s.len(),
            unquote(s@) == r@ + unquote(s@.skip(i as int)),
        decreases s.len() - i,
    {
        let ghost rest = s@.skip(i as int);
        if s[i] == '\\' {
            if i + 1 == s.len() {
                assert(unquote(rest) == Seq::<char>::empty());
                i = i + 1;
            } else {
                r.push(s[i + 1]);
                assert(rest.skip(2) == s@.skip(i + 2));
                assert(unquote(s@) == r@ + unquote(s@.skip(i + 2)));
                i = i + 2;
            }
        } else {
            r.push(s[i]);
            assert(rest.drop_first() == s@.skip(i + 1));
            assert(unquote(s@) == r@ + unquote(s@.skip(i + 1)));
            i = i + 1;
        }
    }
    assert(s@.skip(i as int) == Seq::<char>::empty());
    assert(r@ + Seq::<char>::empty() == r@);
    r
}

/// Whether `p` (lower case) occurs at `i` in `c`, ignoring ASCII case.
fn at_ci_exec(c: &[char], i: usize, p: &str) -> (r: bool)
    ensures
        r == at_ci(c@, i as int, p@),
{
    let pv = chars_of(p);
    if i > c.len() || pv.len() > c.len() - i {
        return false;
    }
    let part = sub_chars(c, i, i + pv.len());
    let lower = ascii_lowercase(&part);
    crate::text::chars_eq(&lower, &pv)
}

/// Whether `c` is a quote.
fn is_quote_exec(c: char) -> (r: bool)
    ensures
        r == is_quote(c),
{
    c == '"' || c == '\''
}

/// The `url(` token at `at`, read as [`url_token`] says, unless its quote
/// is dangling.
fn url_token_exec(c: &[char], at: usize) -> (r: Option<(Vec<char>, bool, usize)>)
    requires
        at_ci(c@, at as int, "url("@),
    ensures
        match r {
            None => dangling_quote(c@, url_value_start(c@, at as int)),
            Some((v, q, e)) => !dangling_quote(c@, url_value_start(c@, at as int)) && (v@, q, e as int)
                == url_token(c@, at as int) && at < e <= c.len(),
        },
{
    proof { reveal_strlit("url("); }
    let cur = at + 4 + ws_run_exec(c, at + 4);
    if cur < c.len() && is_quote_exec(c[cur]) {
        let e = string_end_exec(c, cur);
        if e == cur + 1 {
            return None;
        }
        let w = ws_run_exec(c, e);
        let after = e + w;
        let end = if after < c.len() && c[after] == ')' { after + 1 } else { c.len() };
        let inner = sub_chars(c, cur + 1, e - 1);
        Some((unquote_css_string(&inner), true, end))
    } else {
        let close = paren_close_exec(c, cur);
        let end = if close < c.len() { close + 1 } else { c.len() };
        let inner = sub_chars(c, cur, close);
        Some((trim_chars(&inner), false, end))
    }
}

/// The `@import` rule at `i`, read as [`import_step`] says.
fn import_step_exec(c: &[char], i: usize) -> (r: (CssPiece, usize))
    requires
        at_ci(c@, i as int, "@import"@),
        i + 7 < c.len(),
    ensures
        (piece_view(r.0), r.1 as int) == import_step(c@, i as int),
        i < r.1 <= c.len(),
{
    proof { reveal_strlit("@import"); }
    let cur = i + 7 + ws_run_exec(c, i + 7);
    let target: Option<(Vec<char>, usize)>;
    if at_ci_exec(c, cur, "url(") {
        match url_token_exec(c, cur) {
            None => {
                return (CssPiece::DanglingQuote, c.len());
            },
            Some((v, _q, e)) => {
                target = Some((v, e));
            },
        }
    } else if cur < c.len() && is_quote_exec(c[cur]) {
        let e = string_end_exec(c, cur);
        if e == cur + 1 {
            return (CssPiece::DanglingQuote, c.len());
        }
        let inner = sub_chars(c, cur + 1, e - 1);
        target = Some((unquote_css_string(&inner), e));
    } else {
        return (CssPiece::BadImportSyntax, c.len());
    }
    match target {
        Some((t, e)) => {
            let after = e + ws_run_exec(c, e);
            if after >= c.len() {
                (CssPiece::Import(string_of(&t)), after)
            } else if c[after] == ';' {
                (CssPiece::Import(string_of(&t)), after + 1)
            } else {
                (CssPiece::ConditionalImport, c.len())
            }
        },
        None => (CssPiece::BadImportSyntax, c.len()),
    }
}

/// The piece that starts at `i`, and where the next one starts.
fn css_step_exec(c: &[char], i: usize) -> (r: (CssPiece, usize))
    requires
        i < c.len(),
    ensures
        (piece_view(r.0), r.1 as int) == css_step(c@, i as int),
        i < r.1 <= c.len(),
{
    let open_comment: [char; 2] = ['/', '*'];
    if occurs_at_exec(c, &open_comment, i) {
        assert(open_comment@ == "/*"@) by {
            reveal_strlit("/*");
        }
        let e = comment_close_exec(c, i + 2);
        return (CssPiece::Text(string_of(&sub_chars(c, i, e))), e);
    }
    proof { reveal_strlit("/*"); }
    assert(!occurs_at(c@, "/*"@, i as int)) by {
        assert(open_comment@ =~= "/*"@);
    }
    if is_quote_exec(c[i]) {
        let e = string_end_exec(c, i);
        return (CssPiece::Text(string_of(&sub_chars(c, i, e))), e);
    }
    proof { reveal_strlit("@import"); }
    if at_ci_exec(c, i, "@import") && c.len() - i > 7 {
        let d = c[i + 7];
        if d == ' ' || d == '\t' || d == '\r' || d == '\n' || d == '"' || d == '\'' {
            return import_step_exec(c, i);
        }
    }
    if at_ci_exec(c, i, "url(") {
        match url_token_exec(c, i) {
            None => {
                return (CssPiece::DanglingQuote, c.len());
            },
            Some((v, q, e)) => {
                let raw = string_of(&sub_chars(c, i, e));
                return (CssPiece::Url { raw, value: string_of(&v), quoted: q }, e);
            },
        }
    }
    let mut one = String::new();
    one.push(c[i]);
    assert(one@ =~= seq![c@[i as int]]);
    (CssPiece::Text(one), i + 1)
}

/// The pieces of a style sheet in order: comments, strings and other text
/// kept as they are, each `url(...)` reference and each `@import` rule.
/// The scan stops at a refused or unreadable `@import` and at a dangling
/// quote.
pub fn scan_css(css: &str) -> (r: Vec<CssPiece>)
    ensures
        r@.map_values(|p: CssPiece| piece_view(p)) == css_tokens(css@, 0),
{
    let c = chars_of(css);
    let mut r: Vec<CssPiece> = Vec::new();
    let mut i: usize = 0;
    while i < c.len()
        invariant
            i <= c@.len(),
            c@ == css@,
            css_tokens(c@, 0) == r@.map_values(|p: CssPiece| piece_view(p)) + css_tokens(c@, i as int),
        decreases c.len() - i,
    {
        let (p, j) = css_step_exec(&c, i);
        let ghost before = r@;
        proof {
            assert(css_tokens(c@, i as int) == seq![piece_view(p)] + css_tokens(c@, j as int));
        }
        r.push(p);
        assert(r@.map_values(|p: CssPiece| piece_view(p)) =~= before.map_values(|p: CssPiece| piece_view(p)).push(
            piece_view(p)));
        i = j;
    }
    assert(r@.map_values(|p: CssPiece| piece_view(p)) + Seq::<CssToken>::empty() =~= r@.map_values(
        |p: CssPiece| piece_view(p)));
    r
}

/// `a`, `b` and `c` one after the other.
fn join3(a: &str, b: &str, c: &str) -> (r: String)
    ensures
        r@ == a@ + b@ + c@,
{
    let mut r = String::new();
    push_str(&mut r, a);
    assert(r@ =~= a@);
    push_str(&mut r, b);
    push_str(&mut r, c);
    r
}

/// `a` to `d` one after the other.
fn join4(a: &str, b: &str, c: &str, d: &str) -> (r: String)
    ensures
        r@ == a@ + b@ + c@ + d@,
{
    let mut r = join3(a, b, c);
    push_str(&mut r, d);
    r
}

/// `a` to `e` one after the other.
fn join5(a: &str, b: &str, c: &str, d: &str, e: &str) -> (r: String)
    ensures
        r@ == a@ + b@ + c@ + d@ + e@,
{
    let mut r = join3(a, b, c);
    push_str(&mut r, d);
    push_str(&mut r, e);
    r
}

/// The error for a piece that the scan refused (an `@import` it cannot
/// read, or a quote that closes nothing), if it is one.
pub open spec fn import_error_message(t: CssToken, label: Seq<char>) -> Option<Seq<char>> {
    match t {
        CssToken::BadImportSyntax => Some("不支持的 @import 语法（"@ + label
            + "）：目标必须是本地 CSS 文件的字符串或 url() 引用"@),
        CssToken::ConditionalImport => Some("不支持的 @import 语法（"@ + label
            + "）：EPUB 生成不支持带 media/layer/supports 条件的 @import，请直接合并 CSS 文件"@),
        CssToken::DanglingQuote => Some("自定义 CSS 中的引号没有闭合（"@ + label + "）"@),
        _ => None,
    }
}

/// The error a refused piece stands for; none for other pieces.
pub fn import_error(piece: &CssPiece, label: &str) -> (r: Option<KafError>)
    ensures
        match import_error_message(piece_view(*piece), label@) {
            Some(m) => r matches Some(KafError::ParseError(x)) && x@ == m,
            None => r is None,
        },
{
    match piece {
        CssPiece::BadImportSyntax => Some(KafError::ParseError(join3("不支持的 @import 语法（", label,
            "）：目标必须是本地 CSS 文件的字符串或 url() 引用"))),
        CssPiece::ConditionalImport => Some(KafError::ParseError(join3("不支持的 @import 语法（", label,
            "）：EPUB 生成不支持带 media/layer/supports 条件的 @import，请直接合并 CSS 文件"))),
        CssPiece::DanglingQuote => Some(KafError::ParseError(join3("自定义 CSS 中的引号没有闭合（", label, "）"))),
        _ => None,
    }
}

/// Refuses an `@import` nested `depth` rules deep when the limit is
/// reached.
pub fn check_import_depth(depth: usize, label: &str) -> (r: Result<(), KafError>)
    ensures
        depth < MAX_IMPORT_DEPTH <==> r is Ok,
        r matches Err(KafError::ParseError(m)) ==> m@ == "@import 嵌套超过 8 层（"@ + label@ + "）：存在过深的导入链"@,
        r is Err ==> r matches Err(KafError::ParseError(_)),
{
    if depth >= MAX_IMPORT_DEPTH {
        Err(KafError::ParseError(join3("@import 嵌套超过 8 层（", label, "）：存在过深的导入链")))
    } else {
        Ok(())
    }
}

/// The path names a `.css` file (extension compared without ASCII case).
pub open spec fn is_css_path(path: Seq<char>) -> bool {
    match path_extension(path) {
        Some(e) => ascii_lower_seq(e) == "css"@,
        None => false,
    }
}

/// Refuses an `@import` whose file is not a `.css` file.
pub fn check_import_css(resolved: &str, target: &str, label: &str) -> (r: Result<(), KafError>)
    ensures
        is_css_path(resolved@) <==> r is Ok,
        r is Err ==> (r matches Err(KafError::ParseError(m)) && m@ == "@import 目标不是 .css 文件（"@ + label@ + "）: "@
            + target@),
{
    let ok = match extension_of(resolved) {
        Some(e) => {
            let lower = ascii_lowercase(&chars_of(e.as_str()));
            chars_eq_str(&lower, "css")
        },
        None => false,
    };
    if ok {
        Ok(())
    } else {
        Err(KafError::ParseError(join4("@import 目标不是 .css 文件（", label, "）: ", target)))
    }
}

/// Refuses an `@import` of a file that is already being imported.
pub fn check_import_cycle(stack: &[String], canonical: &str, label: &str) -> (r: Result<(), KafError>)
    ensures
        !stack@.map_values(|s: String| s@).contains(canonical@) <==> r is Ok,
        r is Err ==> (r matches Err(KafError::ParseError(m)) && m@ == "检测到循环 @import（"@ + label@ + "）: "@
            + canonical@),
{
    let cv = chars_of(canonical);
    let mut i: usize = 0;
    while i < stack.len()
        invariant
            i <= stack@.len(),
            cv@ == canonical@,
            forall|k: int| 0 <= k < i ==> stack@[k]@ != canonical@,
        decreases stack.len() - i,
    {
        if chars_eq(&chars_of(stack[i].as_str()), &cv) {
            assert(stack@.map_values(|s: String| s@)[i as int] == canonical@);
            return Err(KafError::ParseError(join4("检测到循环 @import（", label, "）: ", canonical)));
        }
        i = i + 1;
    }
    let ghost views = stack@.map_values(|s: String| s@);
    assert(!views.contains(canonical@)) by {
        if views.contains(canonical@) {
            let k = choose|k: int| 0 <= k < views.len() && #[trigger] views[k] == canonical@;
            assert(stack@[k]@ == canonical@);
        }
    }
    Ok(())
}

/// The text an inlined `@import` becomes: a comment naming the file, the
/// processed sheet, and a line break.
pub fn inline_import(resolved: &str, inlined: &str) -> (r: String)
    ensures
        r@ == "/* 内联 @import: "@ + resolved@ + " */\n"@ + inlined@ + "\n"@,
{
    join5("/* 内联 @import: ", resolved, " */\n", inlined, "\n")
}

/// A URI scheme comes first: a `:` before any `/`, `?`, `#` or `\`.
pub open spec fn has_scheme(v: Seq<char>) -> bool
    decreases v.len(),
{
    if v.len() == 0 {
        false
    } else if v[0] == ':' {
        true
    } else if v[0] == '/' || v[0] == '?' || v[0] == '#' || v[0] == '\\' {
        false
    } else {
        has_scheme(v.drop_first())
    }
}

/// Whether a URI scheme comes first in `v`.
pub fn has_uri_scheme(v: &[char]) -> (r: bool)
    ensures
        r == has_scheme(v@),
{
    let mut i: usize = 0;
    assert(v@.skip(0) == v@);
    while i < v.len()
        invariant
            i <= v@.len(),
            has_scheme(v@) == has_scheme(v@.skip(i as int)),
        decreases v.len() - i,
    {
        assert(v@.skip(i as int)[0] == v@[i as int]);
        assert(v@.skip(i as int).drop_first() == v@.skip(i + 1));
        let c = v[i];
        if c == ':' {
            return true;
        }
        if c == '/' || c == '?' || c == '#' || c == '\\' {
            return false;
        }
        i = i + 1;
    }
    false
}

/// Some first characters of `v` take exactly five bytes.
pub open spec fn five_byte_prefix(v: Seq<char>) -> bool {
    exists|k: int| 0 <= k <= v.len() && byte_len(#[trigger] v.take(k)) == 5
}

/// What becomes of a `url(...)` value.
#[derive(Debug, Clone, PartialEq, Eq)]
pub enum UrlTarget {
    /// The reference stays as written (a `data:` URI).
    Keep,
    /// A local file to package: its path and the fragment after `#`.
    Local { path: String, fragment: Option<String> },
}

/// The path and fragment of a local reference: split at its first `#`.
pub open spec fn split_fragment(v: Seq<char>) -> (Seq<char>, Option<Seq<char>>) {
    if v.contains('#') {
        let k = choose|k: int| 0 <= k < v.len() && v[k] == '#' && !v.take(k).contains('#');
        (v.take(k), Some(v.skip(k + 1)))
    } else {
        (v, None)
    }
}

/// What becomes of the value `v` of a `url(...)` in the sheet `label`:
/// `Ok` with the target, or the message of the error.
pub open spec fn url_decision(v: Seq<char>, label: Seq<char>) -> Result<(u8, Seq<char>, Option<Seq<char>>), Seq<char>> {
    if v.len() == 0 {
        Err("自定义 CSS 中出现空的 url() 引用（"@ + label + "）"@)
    } else if at_ci(v, 0, "data:"@) {
        Ok((0u8, Seq::empty(), None))
    } else if byte_len(trim_start(v)) >= 5 && !five_byte_prefix(v) {
        Err("自定义 CSS 的 url("@ + v + ") 开头五个字节落在字符中间（"@ + label + "）"@)
    } else if v[0] == '#' {
        Err("自定义 CSS 不支持片段引用 url("@ + v + ")（"@ + label + "）：EPUB 样式表中没有可引用的文档内元素"@)
    } else if has_scheme(v) || has_prefix(v, "//"@) || has_prefix(v, "\\\\"@) {
        Err("自定义 CSS 不支持远程或带协议的 url("@ + v + ")（"@ + label + "）：请使用本地资源，由转换器打包进 EPUB"@)
    } else {
        Ok((1u8, split_fragment(v).0, split_fragment(v).1))
    }
}

/// The view of a target: 0 to keep, 1 for a local file with its path and
/// fragment.
pub open spec fn target_view(t: UrlTarget) -> (u8, Seq<char>, Option<Seq<char>>) {
    match t {
        UrlTarget::Keep => (0u8, Seq::empty(), None),
        UrlTarget::Local { path, fragment } => (1u8, path@, match fragment {
            Some(f) => Some(f@),
            None => None,
        }),
    }
}

/// Whether some first characters of `v` take exactly five bytes.
fn has_five_byte_prefix(v: &[char]) -> (r: bool)
    ensures
        r == five_byte_prefix(v@),
{
    let mut k: usize = 0;
    let mut n: usize = 0;
    while k < v.len() && n < 5
        invariant
            k <= v@.len(),
            n == byte_len(v@.take(k as int)),
            n <= 8,
            forall|j: int| 0 <= j < k ==> byte_len(#[trigger] v@.take(j)) < 5,
        decreases v.len() - k,
    {
        assert(v@.take(k + 1).drop_last() == v@.take(k as int));
        n = n + char_width_exec(v[k]);
        k = k + 1;
    }
    proof {
        if n != 5 {
            assert forall|j: int| 0 <= j <= v@.len() implies byte_len(#[trigger] v@.take(j)) != 5 by {
                if j > k {
                    lemma_byte_len_monotone(v@, k as int, j);
                }
            }
        }
    }
    n == 5
}

/// Byte lengths of prefixes grow with the prefix.
proof fn lemma_byte_len_monotone(v: Seq<char>, a: int, b: int)
    requires
        0 <= a <= b <= v.len(),
    ensures
        byte_len(v.take(a)) <= byte_len(v.take(b)),
    decreases b - a,
{
    if a < b {
        lemma_byte_len_monotone(v, a, b - 1);
        assert(v.take(b).drop_last() == v.take(b - 1));
    }
}

/// Decides what becomes of the value of a `url(...)` in the sheet `label`:
/// a `data:` URI stays; an empty value, a fragment of the document, and a
/// remote or scheme-qualified reference are refused; anything else is a
/// local file, split at its first `#`.
pub fn classify_url(value: &str, label: &str) -> (r: Result<UrlTarget, KafError>)
    ensures
        match url_decision(value@, label@) {
            Ok(t) => r matches Ok(x) && target_view(x) == t,
            Err(m) => r matches Err(KafError::ParseError(x)) && x@ == m,
        },
{
    let v = chars_of(value);
    if v.len() == 0 {
        return Err(KafError::ParseError(join3("自定义 CSS 中出现空的 url() 引用（", label, "）")));
    }
    if at_ci_exec(&v, 0, "data:") {
        return Ok(UrlTarget::Keep);
    }
    let trimmed_start = trim_start_chars(&v);
    if byte_len_exec(&trimmed_start) >= 5 && !has_five_byte_prefix(&v) {
        return Err(KafError::ParseError(join5("自定义 CSS 的 url(", value, ") 开头五个字节落在字符中间（", label, "）")));
    }
    if v[0] == '#' {
        return Err(KafError::ParseError(join5("自定义 CSS 不支持片段引用 url(", value, ")（", label,
            "）：EPUB 样式表中没有可引用的文档内元素")));
    }
    if has_uri_scheme(&v) || starts_with_str(&v, "//") || starts_with_str(&v, "\\\\") {
        return Err(KafError::ParseError(join5("自定义 CSS 不支持远程或带协议的 url(", value, ")（", label,
            "）：请使用本地资源，由转换器打包进 EPUB")));
    }
    let mut k: usize = 0;
    while k < v.len() && v[k] != '#'
        invariant
            k <= v@.len(),
            !v@.take(k as int).contains('#'),
        decreases v.len() - k,
    {
        assert(v@.take(k + 1) == v@.take(k as int).push(v@[k as int]));
        k = k + 1;
    }
    if k == v.len() {
        assert(v@.take(k as int) == v@);
        Ok(UrlTarget::Local { path: string_of(&v), fragment: None })
    } else {
        proof {
            assert(v@.contains('#'));
            let c = choose|c: int| 0 <= c < v@.len() && v@[c] == '#' && !v@.take(c).contains('#');
            if c < k {
                assert(v@.take(k as int)[c] == '#');
            } else if c > k {
                assert(v@.take(c)[k as int] == '#');
            }
        }
        let path = string_of(&sub_chars(&v, 0, k));
        let fragment = string_of(&sub_chars(&v, k + 1, v.len()));
        assert(v@.subrange(0, k as int) == v@.take(k as int));
        assert(v@.subrange(k + 1, v@.len() as int) == v@.skip(k + 1));
        Ok(UrlTarget::Local { path, fragment: Some(fragment) })
    }
}

/// The reference to a packaged resource with its fragment, if any.
pub open spec fn reference_of(resource: Seq<char>, fragment: Option<Seq<char>>) -> Seq<char> {
    match fragment {
        Some(f) => resource + "#"@ + f,
        None => resource,
    }
}

/// The `url(...)` that points at a packaged resource, quoted when the
/// original value was.
pub fn rewrite_url(resource: &str, fragment: &Option<String>, quoted: bool) -> (r: String)
    ensures
        r@ == (if quoted { "url(\""@ } else { "url("@ }) + reference_of(resource@, match fragment {
            Some(f) => Some(f@),
            None => None,
        }) + (if quoted { "\")"@ } else { ")"@ }),
{
    let mut reference = String::new();
    push_str(&mut reference, resource);
    assert(reference@ =~= resource@);
    if let Some(f) = fragment {
        push_str(&mut reference, "#");
        push_str(&mut reference, f.as_str());
    }
    if quoted {
        join3("url(\"", reference.as_str(), "\")")
    } else {
        join3("url(", reference.as_str(), ")")
    }
}

/// The MIME type of a resource extension that style sheets may use.
pub open spec fn asset_mime(ext: Seq<char>) -> Option<Seq<char>> {
    if ext == "png"@ {
        Some("image/png"@)
    } else if ext == "jpg"@ || ext == "jpeg"@ {
        Some("image/jpeg"@)
    } else if ext == "gif"@ {
        Some("image/gif"@)
    } else if ext == "svg"@ {
        Some("image/svg+xml"@)
    } else if ext == "webp"@ {
        Some("image/webp"@)
    } else if ext == "bmp"@ {
        Some("image/bmp"@)
    } else if ext == "ttf"@ {
        Some("font/ttf"@)
    } else if ext == "otf"@ {
        Some("font/otf"@)
    } else if ext == "woff"@ {
        Some("font/woff"@)
    } else if ext == "woff2"@ {
        Some("font/woff2"@)
    } else {
        None
    }
}

/// The MIME type of a resource extension that style sheets may use.
pub fn css_asset_mime(ext: &str) -> (r: Option<&'static str>)
    ensures
        match asset_mime(ext@) {
            Some(m) => r matches Some(x) && x@ == m,
            None => r is None,
        },
{
    let e = chars_of(ext);
    if chars_eq_str(&e, "png") {
        Some("image/png")
    } else if chars_eq_str(&e, "jpg") || chars_eq_str(&e, "jpeg") {
        Some("image/jpeg")
    } else if chars_eq_str(&e, "gif") {
        Some("image/gif")
    } else if chars_eq_str(&e, "svg") {
        Some("image/svg+xml")
    } else if chars_eq_str(&e, "webp") {
        Some("image/webp")
    } else if chars_eq_str(&e, "bmp") {
        Some("image/bmp")
    } else if chars_eq_str(&e, "ttf") {
        Some("font/ttf")
    } else if chars_eq_str(&e, "otf") {
        Some("font/otf")
    } else if chars_eq_str(&e, "woff") {
        Some("font/woff")
    } else if chars_eq_str(&e, "woff2") {
        Some("font/woff2")
    } else {
        None
    }
}

/// The MIME type of the resource at `resolved`, whose lower-case extension
/// is `ext`, or the error that refuses it.
pub fn asset_type(ext: &str, resolved: &str) -> (r: Result<&'static str, KafError>)
    ensures
        match asset_mime(ext@) {
            Some(m) => r matches Ok(x) && x@ == m,
            None => r matches Err(KafError::ParseError(x)) && x@ == "自定义 CSS 引用了不支持的资源类型 ."@ + ext@
                + "（支持: [\"png\", \"jpg\", \"jpeg\", \"gif\", \"svg\", \"webp\", \"bmp\", \"ttf\", \"otf\", \"woff\", \"woff2\"]）: "@
                + resolved@,
        },
{
    match css_asset_mime(ext) {
        Some(m) => Ok(m),
        None => Err(KafError::ParseError(join4("自定义 CSS 引用了不支持的资源类型 .", ext,
            "（支持: [\"png\", \"jpg\", \"jpeg\", \"gif\", \"svg\", \"webp\", \"bmp\", \"ttf\", \"otf\", \"woff\", \"woff2\"]）: ",
            resolved))),
    }
}

/// An ASCII hexadecimal digit.
pub open spec fn is_hex_digit(b: u8) -> bool {
    (0x30 <= b <= 0x39) || (0x41 <= b <= 0x46) || (0x61 <= b <= 0x66)
}

/// The value of an ASCII hexadecimal digit.
pub open spec fn hex_value(b: u8) -> int {
    if 0x30 <= b <= 0x39 {
        b - 0x30
    } else if 0x41 <= b <= 0x46 {
        b - 0x41 + 10
    } else {
        b - 0x61 + 10
    }
}

/// The bytes of `b` from `i` on with every `%XX` escape of two hexadecimal
/// digits replaced by the byte it stands for; any other `%` stays.
pub open spec fn percent_decoded(b: Seq<u8>, i: int) -> Seq<u8>
    decreases b.len() - i,
{
    if i < 0 || i >= b.len() {
        Seq::empty()
    } else if b[i] == 0x25 && i + 2 < b.len() && is_hex_digit(b[i + 1]) && is_hex_digit(b[i + 2]) {
        seq![(hex_value(b[i + 1]) * 16 + hex_value(b[i + 2])) as u8] + percent_decoded(b, i + 3)
    } else {
        seq![b[i]] + percent_decoded(b, i + 1)
    }
}

/// What percent-decoding gives for `v`: nothing when `v` has no `%` or the
/// decoded bytes are not UTF-8, else the decoded text.
pub open spec fn percent_decode_spec(v: Seq<char>) -> Option<Seq<char>> {
    let d = percent_decoded(encode_utf8(v), 0);
    if !v.contains('%') {
        None
    } else if valid_utf8(d) {
        Some(decode_utf8(d))
    } else {
        None
    }
}

/// The value of a hexadecimal digit, if `b` is one.
fn hex_digit(b: u8) -> (r: Option<u8>)
    ensures
        is_hex_digit(b) <==> r is Some,
        r matches Some(v) ==> v == hex_value(b) && v < 16,
{
    if 0x30 <= b && b <= 0x39 {
        Some(b - 0x30)
    } else if 0x41 <= b && b <= 0x46 {
        Some(b - 0x41 + 10)
    } else if 0x61 <= b && b <= 0x66 {
        Some(b - 0x61 + 10)
    } else {
        None
    }
}

/// Percent-decodes a reference: `None` when it has no `%` or the decoded
/// bytes are not UTF-8.
pub fn percent_decode_uri(value: &str) -> (r: Option<String>)
    ensures
        match percent_decode_spec(value@) {
            Some(d) => r matches Some(x) && x@ == d,
            None => r is None,
        },
{
    let v = chars_of(value);
    if !contains_char(&v, '%') {
        return None;
    }
    let b = value.as_bytes();
    let mut out: Vec<u8> = Vec::new();
    let mut i: usize = 0;
    assert(b@ == encode_utf8(value@));
    while i < b.len()
        invariant
            i <= b@.len(),
            percent_decoded(b@, 0) == out@ + percent_decoded(b@, i as int),
        decreases b.len() - i,
    {
        if b[i] == 0x25 && b.len() - i > 2 {
            match (hex_digit(b[i + 1]), hex_digit(b[i + 2])) {
                (Some(h), Some(l)) => {
                    let byte: u8 = h * 16 + l;
                    assert(byte == (hex_value(b@[i + 1]) * 16 + hex_value(b@[i + 2])) as u8);
                    out.push(byte);
                    assert(percent_decoded(b@, 0) == out@ + percent_decoded(b@, i + 3));
                    i = i + 3;
                    continue;
                },
                _ => {},
            }
        }
        out.push(b[i]);
        assert(percent_decoded(b@, 0) == out@ + percent_decoded(b@, i + 1));
        i = i + 1;
    }
    assert(out@ + percent_decoded(b@, i as int) == out@);
    let ghost d = out@;
    match utf8_string(out) {
        Some(s) => {
            proof { vstd::utf8::encode_utf8_decode_utf8(s@); }
            Some(s)
        },
        None => None,
    }
}

/// The references tried for a resource: as written, then percent-decoded
/// when that differs.
pub fn asset_candidates(reference: &str) -> (r: Vec<String>)
    ensures
        r@.map_values(|s: String| s@) == match percent_decode_spec(reference@) {
            Some(d) => if d != reference@ { seq![reference@, d] } else { seq![reference@] },
            None => seq![reference@],
        },
{
    let mut r: Vec<String> = Vec::new();
    r.push(string_of(&chars_of(reference)));
    if let Some(d) = percent_decode_uri(reference) {
        if !chars_eq(&chars_of(d.as_str()), &chars_of(reference)) {
            r.push(d);
        }
    }
    assert(r@.map_values(|s: String| s@) =~= match percent_decode_spec(reference@) {
        Some(d) => if d != reference@ { seq![reference@, d] } else { seq![reference@] },
        None => seq![reference@],
    });
    r
}

/// The name of the `k`-th packaged resource (from 0) with extension `ext`.
pub open spec fn resource_name(k: nat, ext: Seq<char>) -> Seq<char> {
    "css-assets/"@ + dec(k) + "."@ + ext
}

/// The map from source paths to resource names that `e` lists.
pub open spec fn entries_map(e: Seq<(String, String)>) -> Map<Seq<char>, Seq<char>>
    decreases e.len(),
{
    if e.len() == 0 {
        Map::empty()
    } else {
        entries_map(e.drop_last()).insert(e.last().0@, e.last().1@)
    }
}

/// No source path is listed twice.
pub open spec fn distinct_paths(e: Seq<(String, String)>) -> bool {
    forall|a: int, b: int| 0 <= a < b < e.len() ==> (#[trigger] e[a]).0@ != (#[trigger] e[b]).0@
}

pub proof fn lemma_entries_map(e: Seq<(String, String)>)
    requires
        distinct_paths(e),
    ensures
        forall|k: int| 0 <= k < e.len() ==> #[trigger] entries_map(e).dom().contains(e[k].0@)
            && entries_map(e)[e[k].0@] == e[k].1@,
        forall|p: Seq<char>| #[trigger] entries_map(e).dom().contains(p) ==> exists|k: int|
            0 <= k < e.len() && (#[trigger] e[k]).0@ == p,
    decreases e.len(),
{
    if e.len() > 0 {
        let d = e.drop_last();
        assert(distinct_paths(d)) by {
            assert forall|a: int, b: int| 0 <= a < b < d.len() implies (#[trigger] d[a]).0@ != (#[trigger] d[b]).0@ by {
                assert(d[a] == e[a] && d[b] == e[b]);
            }
        }
        lemma_entries_map(d);
        assert forall|k: int| 0 <= k < e.len() implies #[trigger] entries_map(e).dom().contains(e[k].0@)
            && entries_map(e)[e[k].0@] == e[k].1@ by {
            if k < e.len() - 1 {
                assert(d[k] == e[k]);
                assert(entries_map(d).dom().contains(d[k].0@));
                assert(e[k].0@ != e[e.len() - 1].0@);
            }
        }
        assert forall|p: Seq<char>| #[trigger] entries_map(e).dom().contains(p) implies exists|k: int|
            0 <= k < e.len() && (#[trigger] e[k]).0@ == p by {
            if p != e.last().0@ {
                assert(entries_map(d).dom().contains(p));
                let k = choose|k: int| 0 <= k < d.len() && (#[trigger] d[k]).0@ == p;
                assert(e[k] == d[k]);
            } else {
                assert(e[e.len() - 1].0@ == p);
            }
        }
    }
}

/// The resources packaged from style sheets: each source file once, named
/// in the order of first use.
pub struct AssetRegistry {
    entries: Vec<(String, String)>,
}

impl AssetRegistry {
    /// The resource name of every packaged source path.
    pub closed spec fn view(&self) -> Map<Seq<char>, Seq<char>> {
        entries_map(self.entries@)
    }

    /// How many resources have been packaged.
    pub closed spec fn count(&self) -> nat {
        self.entries@.len()
    }

    /// No path twice.
    pub closed spec fn wf(&self) -> bool {
        distinct_paths(self.entries@)
    }

    /// A registry with nothing packaged.
    pub fn new() -> (r: Self)
        ensures
            r.wf(),
            r.view() == Map::<Seq<char>, Seq<char>>::empty(),
            r.count() == 0,
    {
        AssetRegistry { entries: Vec::new() }
    }

    /// The resource name of `path`, if it was packaged.
    pub fn lookup(&self, path: &str) -> (r: Option<String>)
        requires
            self.wf(),
        ensures
            match r {
                Some(x) => self.view().dom().contains(path@) && self.view()[path@] == x@,
                None => !self.view().dom().contains(path@),
            },
    {
        proof { lemma_entries_map(self.entries@); }
        let pv = chars_of(path);
        let mut i: usize = 0;
        while i < self.entries.len()
            invariant
                i <= self.entries@.len(),
                pv@ == path@,
                self.wf(),
                forall|k: int| 0 <= k < i ==> (#[trigger] self.entries@[k]).0@ != path@,
            decreases self.entries.len() - i,
        {
            if chars_eq(&chars_of(self.entries[i].0.as_str()), &pv) {
                assert(self.entries@[i as int].0@ == path@);
                proof { lemma_entries_map(self.entries@); }
                assert(entries_map(self.entries@).dom().contains(self.entries@[i as int].0@));
                return Some(string_of(&chars_of(self.entries[i].1.as_str())));
            }
            i = i + 1;
        }
        proof {
            if self.view().dom().contains(path@) {
                let k = choose|k: int| 0 <= k < self.entries@.len() && (#[trigger] self.entries@[k]).0@ == path@;
            }
        }
        None
    }

    /// Packages `path`, which has not been packaged yet, under the next
    /// resource name with extension `ext`, and returns that name.
    pub fn add(&mut self, path: &str, ext: &str) -> (r: String)
        requires
            old(self).wf(),
            !old(self).view().dom().contains(path@),
            old(self).count() < u64::MAX,
        ensures
            final(self).wf(),
            r@ == resource_name(old(self).count(), ext@),
            final(self).view() == old(self).view().insert(path@, r@),
            final(self).count() == old(self).count() + 1,
    {
        proof { lemma_entries_map(self.entries@); }
        let n = self.entries.len();
        let mut name = String::new();
        push_str(&mut name, "css-assets/");
        assert(name@ =~= "css-assets/"@);
        push_chars(&mut name, &decimal(n as u64));
        push_str(&mut name, ".");
        push_str(&mut name, ext);
        let key = string_of(&chars_of(path));
        let result = string_of(&chars_of(name.as_str()));
        let ghost before = self.entries@;
        self.entries.push((key, name));
        proof {
            assert(self.entries@.drop_last() == before);
            assert forall|a: int, b: int| 0 <= a < b < self.entries@.len() implies (#[trigger] self.entries@[a]).0@
                != (#[trigger] self.entries@[b]).0@ by {
                if b == self.entries@.len() - 1 {
                    assert(self.entries@[a] == before[a]);
                    if before[a].0@ == path@ {
                        assert(entries_map(before).dom().contains(before[a].0@));
                    }
                } else {
                    assert(self.entries@[a] == before[a] && self.entries@[b] == before[b]);
                }
            }
        }
        result
    }
}


/// The places a spelling of a reference is looked for: below each folder
/// of `dirs` in order, then below the working folder when it is known.
pub open spec fn places_for(c: Seq<char>, dirs: Seq<Seq<char>>, cwd: Option<Seq<char>>) -> Seq<Seq<char>> {
    dirs.map_values(|d: Seq<char>| path_joined(d, c)) + match cwd {
        Some(w) => seq![path_joined(w, c)],
        None => Seq::<Seq<char>>::empty(),
    }
}

/// The places of all the spellings `cands`, in order.
pub open spec fn asset_places(cands: Seq<Seq<char>>, dirs: Seq<Seq<char>>, cwd: Option<Seq<char>>) -> Seq<Seq<char>>
    decreases cands.len(),
{
    if cands.len() == 0 {
        Seq::empty()
    } else {
        asset_places(cands.drop_last(), dirs, cwd) + places_for(cands.last(), dirs, cwd)
    }
}

/// The spellings under which a style sheet's reference is looked for: as
/// written, then percent-decoded when that differs.
pub open spec fn asset_spellings(reference: Seq<char>) -> Seq<Seq<char>> {
    match percent_decode_spec(reference) {
        Some(d) => if d != reference { seq![reference, d] } else { seq![reference] },
        None => seq![reference],
    }
}

/// The views of some strings.
pub open spec fn string_views(v: Seq<String>) -> Seq<Seq<char>> {
    v.map_values(|s: String| s@)
}

/// The file a style sheet's reference names: the first place, over the
/// spellings of [`asset_candidates`], where `is_file` finds a file; an
/// error naming the sheet `label` when there is none.
pub fn find_asset<F: Fn(&str) -> bool>(reference: &str, dirs: &[String], cwd: Option<&str>, label: &str, is_file: &F)
    -> (r: Result<String, KafError>)
    requires
        forall|s: &str| is_file.requires((s,)),
    ensures
        ({
            let places = asset_places(asset_spellings(reference@), string_views(dirs@), opt_str(cwd));
            match r {
                Ok(p) => exists|k: int| 0 <= k < places.len() && places[k] == p@ && probed(*is_file, p@, true)
                    && forall|j: int| 0 <= j < k ==> probed(*is_file, #[trigger] places[j], false),
                Err(e) => (forall|j: int| 0 <= j < places.len() ==> probed(*is_file, #[trigger] places[j], false))
                    && (e matches KafError::FileNotFound(m) && m@ == "自定义 CSS 引用的资源不存在（"@ + label@ + "）: "@
                    + reference@),
            }
        }),
{
    let cands = asset_candidates(reference);
    assert(string_views(cands@) == asset_spellings(reference@));
    let ghost dv = string_views(dirs@);
    let ghost wv = opt_str(cwd);
    let mut places: Vec<String> = Vec::new();
    let mut c: usize = 0;
    while c < cands.len()
        invariant
            c <= cands@.len(),
            dv == string_views(dirs@),
            wv == opt_str(cwd),
            string_views(places@) == asset_places(string_views(cands@).take(c as int), dv, wv),
        decreases cands.len() - c,
    {
        let ghost before = places@;
        assert(string_views(cands@).take(c + 1).drop_last() == string_views(cands@).take(c as int));
        assert(string_views(cands@).take(c + 1).last() == cands@[c as int]@);
        let mut d: usize = 0;
        while d < dirs.len()
            invariant
                d <= dirs@.len(),
                c < cands@.len(),
                dv == string_views(dirs@),
                places@.len() == before.len() + d,
                forall|k: int| 0 <= k < before.len() ==> places@[k] == before[k],
                forall|k: int| 0 <= k < d ==> places@[before.len() + k]@ == path_joined(dv[k], cands@[c as int]@),
            decreases dirs.len() - d,
        {
            places.push(join_path(dirs[d].as_str(), cands[c].as_str()));
            d = d + 1;
        }
        if let Some(w) = cwd {
            places.push(join_path(w, cands[c].as_str()));
        }
        assert(string_views(places@) =~= string_views(before) + places_for(cands@[c as int]@, dv, wv));
        c = c + 1;
    }
    assert(string_views(cands@).take(cands@.len() as int) == string_views(cands@));
    let ghost pv = string_views(places@);
    assert(pv == asset_places(asset_spellings(reference@), string_views(dirs@), opt_str(cwd)));
    let mut i: usize = 0;
    while i < places.len()
        invariant
            i <= places@.len(),
            pv == string_views(places@),
            pv == asset_places(asset_spellings(reference@), string_views(dirs@), opt_str(cwd)),
            forall|s: &str| is_file.requires((s,)),
            forall|j: int| 0 <= j < i ==> probed(*is_file, #[trigger] pv[j], false),
        decreases places.len() - i,
    {
        if is_file(places[i].as_str()) {
            assert(probed(*is_file, pv[i as int], true));
            let found = string_of(&chars_of(places[i].as_str()));
            assert(found@ == pv[i as int]);
            assert(exists|k: int| 0 <= k < pv.len() && pv[k] == found@ && probed(*is_file, found@, true)
                && forall|j: int| 0 <= j < k ==> probed(*is_file, #[trigger] pv[j], false));
            return Ok(found);
        }
        assert(probed(*is_file, pv[i as int], false));
        i = i + 1;
    }
    Err(KafError::FileNotFound(join4("自定义 CSS 引用的资源不存在（", label, "）: ", reference)))
}

} // verus!
