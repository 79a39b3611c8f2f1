//! Character references in XML attribute values, and image references
//! that cannot be packaged.

use vstd::prelude::*;
use crate::text::{
    ascii_lower_seq, ascii_lowercase, byte_len, byte_len_exec, chars_eq_str, chars_of, has_prefix, parse_unsigned,
    sat_len, starts_with_str, string_of, sub_chars, trim, trim_chars, unsigned_value,
};
use crate::utils::encoding::strip_bom;
use crate::utils::html::{escape_char, escape_seq, escaped};

verus! {

/// Whether `v` is a Unicode scalar value.
pub open spec fn scalar(v: nat) -> bool {
    v < 0xD800 || (0xE000 <= v && v < 0x110000)
}

/// Calls `char::from_u32`, which gives the character of a Unicode scalar
/// value and nothing for any other number.
#[verifier::external_body]
fn char_from_code(v: u32) -> (r: Option<char>)
    ensures
        r is Some <==> scalar(v as nat),
        r matches Some(c) ==> c == v as char,
{
    char::from_u32(v)
}

/// The character an entity (without `&` and `;`) stands for: a numeric
/// reference (`#N`, `#xH`, `#XH`) to a scalar value, or one of the five
/// predefined XML entities.
pub open spec fn entity_char(e: Seq<char>) -> Option<char> {
    if has_prefix(e, "#x"@) || has_prefix(e, "#X"@) {
        match unsigned_value(e.skip(2), 16, u32::MAX as nat) {
            Some(v) => if scalar(v) { Some(v as char) } else { None },
            None => None,
        }
    } else if has_prefix(e, "#"@) {
        match unsigned_value(e.skip(1), 10, u32::MAX as nat) {
            Some(v) => if scalar(v) { Some(v as char) } else { None },
            None => None,
        }
    } else if e == "amp"@ {
        Some('&')
    } else if e == "lt"@ {
        Some('<')
    } else if e == "gt"@ {
        Some('>')
    } else if e == "apos"@ {
        Some('\'')
    } else if e == "quot"@ {
        Some('"')
    } else {
        None
    }
}

/// The position of the first `c` in `s`, or -1.
pub open spec fn first_index(s: Seq<char>, c: char) -> int
    decreases s.len(),
{
    if s.len() == 0 {
        -1
    } else if s[0] == c {
        0
    } else {
        let r = first_index(s.drop_first(), c);
        if r < 0 { -1 } else { r + 1 }
    }
}

pub proof fn lemma_first_index(s: Seq<char>, c: char)
    ensures
        -1 <= first_index(s, c) < s.len(),
        first_index(s, c) >= 0 ==> s[first_index(s, c)] == c,
        forall|k: int| 0 <= k < first_index(s, c) ==> s[k] != c,
        first_index(s, c) < 0 ==> forall|k: int| 0 <= k < s.len() ==> s[k] != c,
    decreases s.len(),
{
    if s.len() > 0 && s[0] != c {
        lemma_first_index(s.drop_first(), c);
        assert forall|k: int| 0 < k < s.len() implies s[k] == s.drop_first()[k - 1] by {}
    }
}

/// The longest entity name, in bytes.
pub const MAX_ENTITY_LENGTH: usize = 32;

/// The attribute value with its character references decoded, in one pass
/// from left to right; an `&` that starts no known reference of at most
/// 32 bytes stays as it is.
pub open spec fn decode_attr(s: Seq<char>) -> Seq<char>
    decreases s.len(),
{
    let a = first_index(s, '&');
    if a < 0 {
        s
    } else {
        proof { lemma_first_index(s, '&'); }
        let after = s.skip(a + 1);
        let j = first_index(after, ';');
        proof { lemma_first_index(after, ';'); }
        if j >= 0 && byte_len(after.take(j)) <= MAX_ENTITY_LENGTH && entity_char(after.take(j)) is Some {
            s.take(a).push(entity_char(after.take(j))->0) + decode_attr(after.skip(j + 1))
        } else {
            s.take(a).push('&') + decode_attr(after)
        }
    }
}

/// The position of the first `c` in `s` from `from` on.
fn find_from(s: &[char], from: usize, c: char) -> (r: Option<usize>)
    requires
        from <= s.len(),
    ensures
        match r {
            Some(i) => from <= i < s.len() && first_index(s@.skip(from as int), c) == i - from,
            None => first_index(s@.skip(from as int), c) < 0,
        },
{
    let mut i = from;
    while i < s.len()
        invariant
            from <= i <= s.len(),
            forall|k: int| from <= k < i ==> s@[k] != c,
        decreases s.len() - i,
    {
        if s[i] == c {
            proof { lemma_first_of(s@.skip(from as int), c, i - from); }
            return Some(i);
        }
        i = i + 1;
    }
    proof {
        lemma_first_index(s@.skip(from as int), c);
        let t = s@.skip(from as int);
        if first_index(t, c) >= 0 {
            assert(t[first_index(t, c)] == s@[from + first_index(t, c)]);
        }
    }
    None
}

/// The first position holding `c` is `first_index`.
proof fn lemma_first_of(t: Seq<char>, c: char, i: int)
    requires
        0 <= i < t.len(),
        t[i] == c,
        forall|k: int| 0 <= k < i ==> t[k] != c,
    ensures
        first_index(t, c) == i,
    decreases i,
{
    if i > 0 {
        assert forall|k: int| 0 <= k < i - 1 implies t.drop_first()[k] != c by {
            assert(t.drop_first()[k] == t[k + 1]);
        }
        lemma_first_of(t.drop_first(), c, i - 1);
    }
}

/// The character of an entity, if it is a known one.
pub fn decode_entity(entity: &str) -> (r: Option<String>)
    ensures
        match entity_char(entity@) {
            Some(c) => r matches Some(s) && s@ == seq![c],
            None => r is None,
        },
{
    let e = chars_of(entity);
    proof {
        reveal_strlit("#x");
        reveal_strlit("#X");
        reveal_strlit("#");
    }
    let code: Option<Option<u64>> = if starts_with_str(&e, "#x") || starts_with_str(&e, "#X") {
        Some(parse_unsigned(&sub_chars(&e, 2, e.len()), 16, 0xFFFF_FFFF))
    } else if starts_with_str(&e, "#") {
        Some(parse_unsigned(&sub_chars(&e, 1, e.len()), 10, 0xFFFF_FFFF))
    } else {
        None
    };
    proof {
        if has_prefix(e@, "#x"@) || has_prefix(e@, "#X"@) {
            assert(e@.subrange(2, e@.len() as int) == e@.skip(2));
        } else if has_prefix(e@, "#"@) {
            assert(e@.subrange(1, e@.len() as int) == e@.skip(1));
        }
    }
    let c: Option<char> = match code {
        Some(Some(v)) => char_from_code(v as u32),
        Some(None) => None,
        None => {
            if chars_eq_str(&e, "amp") {
                Some('&')
            } else if chars_eq_str(&e, "lt") {
                Some('<')
            } else if chars_eq_str(&e, "gt") {
                Some('>')
            } else if chars_eq_str(&e, "apos") {
                Some('\'')
            } else if chars_eq_str(&e, "quot") {
                Some('"')
            } else {
                None
            }
        },
    };
    assert(c == entity_char(e@)) by {
        if let Some(Some(v)) = code {
            if scalar(v as nat) {
                assert(c->0 == v as char);
            }
        }
    }
    match c {
        Some(ch) => {
            let mut s = String::new();
            s.push(ch);
            assert(s@ =~= seq![ch]);
            Some(s)
        },
        None => None,
    }
}

/// Decodes from `pos` up to and including the first reference (or the
/// first `&` that starts none); nothing when no `&` is left.
fn decode_one(s: &[char], pos: usize) -> (r: Option<(Vec<char>, usize)>)
    requires
        pos <= s.len(),
    ensures
        match r {
            None => first_index(s@.skip(pos as int), '&') < 0,
            Some((piece, next)) => pos < next <= s.len()
                && piece@ + decode_attr(s@.skip(next as int)) == decode_attr(s@.skip(pos as int)),
        },
{
    let ghost rest = s@.skip(pos as int);
    let a = match find_from(s, pos, '&') {
        None => return None,
        Some(a) => a,
    };
    proof { lemma_first_index(rest, '&'); }
    let ghost ai = (a - pos) as int;
    let ghost after = rest.skip(ai + 1);
    assert(rest.take(ai) == s@.subrange(pos as int, a as int));
    assert(after == s@.skip(a + 1));
    let mut piece = sub_chars(s, pos, a);
    let semi = find_from(s, a + 1, ';');
    proof { lemma_first_index(after, ';'); }
    if let Some(j) = semi {
        let name = sub_chars(s, a + 1, j);
        let ghost jj = (j - a - 1) as int;
        assert(after.take(jj) == name@);
        assert(after.skip(jj + 1) == s@.skip(j + 1));
        let n = byte_len_exec(&name);
        proof { crate::text::lemma_sat_len(name@); }
        if n <= MAX_ENTITY_LENGTH {
            if let Some(d) = decode_entity(string_of(&name).as_str()) {
                crate::text::extend_chars(&mut piece, &chars_of(d.as_str()));
                assert(piece@ == rest.take(ai).push(entity_char(after.take(jj))->0));
                assert(piece@ + decode_attr(s@.skip(j + 1)) == decode_attr(rest));
                return Some((piece, j + 1));
            }
        }
    }
    piece.push('&');
    assert(piece@ + decode_attr(s@.skip(a + 1)) == decode_attr(rest));
    Some((piece, a + 1))
}

/// The attribute value with its character references decoded.
pub fn decode_xml_attribute(value: &str) -> (r: String)
    ensures
        r@ == decode_attr(value@),
{
    let s = chars_of(value);
    let mut out: Vec<char> = Vec::new();
    let mut pos: usize = 0;
    assert(s@.skip(0) == s@);
    loop
        invariant
            pos <= s@.len(),
            s@ == value@,
            out@ + decode_attr(s@.skip(pos as int)) == decode_attr(s@),
        decreases s@.len() - pos,
    {
        match decode_one(&s, pos) {
            None => {
                let tail = sub_chars(&s, pos, s.len());
                assert(tail@ == s@.skip(pos as int));
                assert(decode_attr(s@.skip(pos as int)) == s@.skip(pos as int));
                crate::text::extend_chars(&mut out, &tail);
                return string_of(&out);
            },
            Some((piece, next)) => {
                let ghost before = out@;
                crate::text::extend_chars(&mut out, &piece);
                assert(out@ + decode_attr(s@.skip(next as int)) == before + (piece@ + decode_attr(s@.skip(next as int))));
                pos = next;
            },
        }
    }
}

/// The text up to the first `/`, `?` or `#`.
pub open spec fn before_separator(s: Seq<char>) -> Seq<char>
    decreases s.len(),
{
    if s.len() == 0 {
        s
    } else if s.last() == '/' || s.last() == '?' || s.last() == '#' {
        before_separator(s.drop_last())
    } else if before_separator(s.drop_last()).len() < s.len() - 1 {
        before_separator(s.drop_last())
    } else {
        s
    }
}

/// An image reference that is no local file: empty, remote (`http:`,
/// `https:`), `data:`, a fragment, protocol-relative, a network share, or
/// any other scheme.
pub open spec fn external_image(source: Seq<char>) -> bool {
    let l = ascii_lower_seq(trim(source));
    l.len() == 0 || has_prefix(l, "http://"@) || has_prefix(l, "https://"@) || has_prefix(l, "data:"@)
        || has_prefix(l, "#"@) || has_prefix(l, "//"@) || has_prefix(l, "\\\\"@)
        || before_separator(l).contains(':')
}

/// The text up to the first `/`, `?` or `#`.
pub fn before_separator_exec(s: &[char]) -> (r: Vec<char>)
    ensures
        r@ == before_separator(s@),
{
    let mut i: usize = 0;
    while i < s.len() && s[i] != '/' && s[i] != '?' && s[i] != '#'
        invariant
            i <= s@.len(),
            forall|k: int| 0 <= k < i ==> s@[k] != '/' && s@[k] != '?' && s@[k] != '#',
        decreases s.len() - i,
    {
        i = i + 1;
    }
    proof { lemma_before_separator(s@, i as int); }
    sub_chars(s, 0, i)
}

/// `before_separator` stops at the first separator.
proof fn lemma_before_separator(s: Seq<char>, i: int)
    requires
        0 <= i <= s.len(),
        forall|k: int| 0 <= k < i ==> s[k] != '/' && s[k] != '?' && s[k] != '#',
        i < s.len() ==> (s[i] == '/' || s[i] == '?' || s[i] == '#'),
    ensures
        before_separator(s) == s.take(i),
    decreases s.len(),
{
    if s.len() > 0 {
        if i == s.len() {
            assert forall|k: int| 0 <= k < i - 1 implies s.drop_last()[k] != '/' && s.drop_last()[k] != '?'
                && s.drop_last()[k] != '#' by {}
            lemma_before_separator(s.drop_last(), i - 1);
            assert(s.drop_last().take(i - 1) == s.drop_last());
            assert(s.take(i) == s);
        } else if i == s.len() - 1 {
            assert(s.drop_last().take(i) == s.drop_last());
            lemma_before_separator(s.drop_last(), i);
            assert(s.take(i) == s.drop_last());
        } else {
            lemma_before_separator(s.drop_last(), i);
            assert(s.drop_last().take(i) == s.take(i));
        }
    }
}

/// Whether an image reference is no local file.
pub fn is_external_image(source: &str) -> (r: bool)
    ensures
        r == external_image(source@),
{
    let l = ascii_lowercase(&trim_chars(&chars_of(source)));
    l.len() == 0 || starts_with_str(&l, "http://") || starts_with_str(&l, "https://")
        || starts_with_str(&l, "data:") || starts_with_str(&l, "#") || starts_with_str(&l, "//")
        || starts_with_str(&l, "\\\\") || crate::text::contains_char(&before_separator_exec(&l), ':')
}


/// Escaping a text works character by character from its front.
proof fn lemma_escape_front(c: char, t: Seq<char>)
    ensures
        escape_seq(seq![c] + t) == escape_char(c) + escape_seq(t),
    decreases t.len(),
{
    let s = seq![c] + t;
    assert(escape_seq(s) == escape_seq(s.drop_last()) + escape_char(s.last()));
    if t.len() == 0 {
        assert(s =~= seq![c]);
        assert(s.drop_last() =~= Seq::<char>::empty());
        assert(escape_seq(Seq::<char>::empty()) == Seq::<char>::empty());
        assert(escape_seq(s) =~= escape_char(c) + escape_seq(t));
    } else {
        assert(s.drop_last() =~= seq![c] + t.drop_last());
        assert(s.last() == t.last());
        lemma_escape_front(c, t.drop_last());
        assert(escape_seq(t) == escape_seq(t.drop_last()) + escape_char(t.last()));
        assert(escape_seq(s) =~= escape_char(c) + escape_seq(t));
    }
}

/// A character other than `&` comes out of decoding unchanged.
proof fn lemma_decode_plain(c: char, x: Seq<char>)
    requires
        c != '&',
    ensures
        decode_attr(seq![c] + x) == seq![c] + decode_attr(x),
{
    let s = seq![c] + x;
    assert(s[0] == c);
    assert(s.drop_first() == x);
    lemma_first_index(x, '&');
    let r = first_index(x, '&');
    if r >= 0 {
        assert(first_index(s, '&') == r + 1);
        assert(s.skip(r + 2) == x.skip(r + 1));
        assert(s.take(r + 1) == seq![c] + x.take(r));
        let after = x.skip(r + 1);
        let j = first_index(after, ';');
        if j >= 0 && byte_len(after.take(j)) <= MAX_ENTITY_LENGTH && entity_char(after.take(j)) is Some {
            assert((seq![c] + x.take(r)).push(entity_char(after.take(j))->0) == seq![c] + x.take(r).push(
                entity_char(after.take(j))->0));
        } else {
            assert((seq![c] + x.take(r)).push('&') == seq![c] + x.take(r).push('&'));
        }
    } else {
        assert(first_index(s, '&') == -1);
    }
}

/// The escape of a special character decodes back to it.
proof fn lemma_decode_escape(c: char, rest: Seq<char>)
    requires
        c == '&' || c == '<' || c == '>' || c == '"' || c == '\'',
    ensures
        decode_attr(escape_char(c) + rest) == seq![c] + decode_attr(rest),
{
    reveal_strlit("&amp;");
    reveal_strlit("&lt;");
    reveal_strlit("&gt;");
    reveal_strlit("&quot;");
    reveal_strlit("&apos;");
    reveal_strlit("amp");
    reveal_strlit("lt");
    reveal_strlit("gt");
    reveal_strlit("quot");
    reveal_strlit("apos");
    reveal_strlit("#x");
    reveal_strlit("#X");
    reveal_strlit("#");
    let name: Seq<char> = if c == '&' {
        "amp"@
    } else if c == '<' {
        "lt"@
    } else if c == '>' {
        "gt"@
    } else if c == '"' {
        "quot"@
    } else {
        "apos"@
    };
    assert(escape_char(c) =~= seq!['&'] + name + seq![';']);
    let s = escape_char(c) + rest;
    assert(s[0] == '&');
    assert(first_index(s, '&') == 0);
    let after = s.skip(1);
    assert(after =~= name + seq![';'] + rest);
    let n = name.len() as int;
    assert(after[n] == ';');
    assert(forall|k: int| 0 <= k < n ==> after[k] == name[k] && name[k] != ';');
    lemma_first_index(after, ';');
    assert(first_index(after, ';') == n);
    assert(after.take(n) =~= name);
    assert(byte_len(name) <= MAX_ENTITY_LENGTH) by {
        reveal_with_fuel(byte_len, 5);
    }
    assert(name[0] != '#');
    assert(!has_prefix(name, "#x"@)) by {
        if has_prefix(name, "#x"@) {
            assert(name.take(2)[0] == "#x"@[0]);
        }
    }
    assert(!has_prefix(name, "#X"@)) by {
        if has_prefix(name, "#X"@) {
            assert(name.take(2)[0] == "#X"@[0]);
        }
    }
    assert(!has_prefix(name, "#"@)) by {
        if has_prefix(name, "#"@) {
            assert(name.take(1)[0] == "#"@[0]);
        }
    }
    assert(entity_char(name) == Some(c));
    assert(after.skip(n + 1) =~= rest);
    assert(s.take(0).push(c) =~= seq![c]);
}

/// Decoding an escaped text gives it back.
proof fn lemma_decode_escape_seq(s: Seq<char>)
    ensures
        decode_attr(escape_seq(s)) == s,
    decreases s.len(),
{
    if s.len() > 0 {
        let c = s[0];
        let t = s.drop_first();
        assert(s == seq![c] + t);
        lemma_escape_front(c, t);
        lemma_decode_escape_seq(t);
        if c == '&' || c == '<' || c == '>' || c == '"' || c == '\'' {
            lemma_decode_escape(c, escape_seq(t));
        } else {
            assert(escape_char(c) == seq![c]);
            lemma_decode_plain(c, escape_seq(t));
        }
    }
}

/// Law: decoding undoes escaping. The character references that escaping
/// writes decode back to the characters they stand for, so decoding an
/// escaped text gives the text back (without its leading byte-order marks,
/// which escaping drops): `decode_xml_attribute(&escape_xml(s))` is `s`
/// without them, in one left-to-right pass (`&amp;lt;` decodes to `&lt;`).
pub proof fn lemma_decode_undoes_escape(s: Seq<char>)
    ensures
        decode_attr(escape_seq(s)) == s,
        decode_attr(escaped(s)) == strip_bom(s),
        decode_attr(escape_seq(strip_bom(s))) == strip_bom(s),
{
    lemma_decode_escape_seq(s);
    lemma_decode_escape_seq(strip_bom(s));
}

} // verus!
