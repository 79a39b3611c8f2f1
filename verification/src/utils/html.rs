//! Escaping of XML text and the filtering of HTML tags.

use vstd::prelude::*;
use crate::text::{chars_of, contains_char, push_str, string_of};
use vstd::string::StringSliceAdditionalSpecFns;
use crate::utils::regex::{compile, regex_find_spans, regex_valid, span_within, spans_ordered};
use vstd::utf8::{
    decode_utf8, encode_utf8, encode_utf8_decode_utf8, encode_utf8_valid_utf8, is_char_boundary,
    is_char_boundary_iff_not_is_continuation_byte, is_char_boundary_start_end_of_seq, valid_utf8,
    valid_utf8_split,
};
use crate::utils::encoding::{strip_bom, strip_bom_chars};

verus! {

/// A character allowed in XML 1.0 documents (the `Char` production).
pub open spec fn is_xml_char(c: char) -> bool {
    let u = c as u32;
    u == 0x9 || u == 0xA || u == 0xD || (0x20 <= u && u <= 0xD7FF) || (0xE000 <= u && u <= 0xFFFD)
        || 0x10000 <= u
}

/// `s` without the characters XML does not allow.
pub open spec fn xml_clean(s: Seq<char>) -> Seq<char> {
    s.filter(|c: char| is_xml_char(c))
}

/// The XML escape of one character.
pub open spec fn escape_char(c: char) -> Seq<char> {
    if c == '&' {
        "&amp;"@
    } else if c == '<' {
        "&lt;"@
    } else if c == '>' {
        "&gt;"@
    } else if c == '"' {
        "&quot;"@
    } else if c == '\'' {
        "&apos;"@
    } else {
        seq![c]
    }
}

/// Every character of `s` escaped.
pub open spec fn escape_seq(s: Seq<char>) -> Seq<char>
    decreases s.len(),
{
    if s.len() == 0 {
        Seq::<char>::empty()
    } else {
        escape_seq(s.drop_last()) + escape_char(s.last())
    }
}

/// Whether `c` is allowed in XML.
fn xml_char(c: char) -> (r: bool)
    ensures
        r == is_xml_char(c),
{
    let u = c as u32;
    u == 0x9 || u == 0xA || u == 0xD || (0x20 <= u && u <= 0xD7FF) || (0xE000 <= u && u <= 0xFFFD)
        || 0x10000 <= u
}

/// `s` without the characters XML does not allow.
pub fn remove_invalid_xml_chars_chars(s: &[char]) -> (r: Vec<char>)
    ensures
        r@ == xml_clean(s@),
{
    let mut r: Vec<char> = Vec::new();
    let mut i: usize = 0;
    while i < s.len()
        invariant
            i <= s.len(),
            r@ == xml_clean(s@.take(i as int)),
        decreases s.len() - i,
    {
        proof {
            reveal(Seq::filter);
            assert(s@.take(i + 1).drop_last() == s@.take(i as int));
        }
        if xml_char(s[i]) {
            r.push(s[i]);
        }
        i = i + 1;
    }
    assert(s@.take(s.len() as int) == s@);
    r
}

/// `text` without the characters XML does not allow.
pub fn remove_invalid_xml_chars(text: &str) -> (r: String)
    ensures
        r@ == xml_clean(text@),
{
    let v = chars_of(text);
    string_of(&remove_invalid_xml_chars_chars(&v))
}

/// Appends the escape of every character of `s` to `out`.
pub fn push_escaped(out: &mut Vec<char>, s: &[char])
    ensures
        final(out)@ == old(out)@ + escape_seq(s@),
{
    let mut i: usize = 0;
    while i < s.len()
        invariant
            i <= s.len(),
            out@ == old(out)@ + escape_seq(s@.take(i as int)),
        decreases s.len() - i,
    {
        assert(s@.take(i + 1).drop_last() == s@.take(i as int));
        let c = s[i];
        proof {
            reveal_strlit("&amp;");
            reveal_strlit("&lt;");
            reveal_strlit("&gt;");
            reveal_strlit("&quot;");
            reveal_strlit("&apos;");
        }
        if c == '&' {
            crate::text::extend_chars(out, &chars_of("&amp;"));
        } else if c == '<' {
            crate::text::extend_chars(out, &chars_of("&lt;"));
        } else if c == '>' {
            crate::text::extend_chars(out, &chars_of("&gt;"));
        } else if c == '"' {
            crate::text::extend_chars(out, &chars_of("&quot;"));
        } else if c == '\'' {
            crate::text::extend_chars(out, &chars_of("&apos;"));
        } else {
            out.push(c);
        }
        i = i + 1;
        assert(out@ == old(out)@ + escape_seq(s@.take(i as int)));
    }
    assert(s@.take(s.len() as int) == s@);
}

/// Escapes the XML special characters of `input`, after removing its
/// leading byte-order marks.
pub fn escape_xml(input: &str) -> (r: String)
    ensures
        r@ == escape_seq(strip_bom(input@)),
{
    let v = chars_of(input);
    let s = strip_bom_chars(&v);
    let mut out: Vec<char> = Vec::new();
    push_escaped(&mut out, &s);
    assert(out@ == escape_seq(s@));
    string_of(&out)
}

/// The HTML tags kept by [`sanitize_html_tags`] (`img`, `br`, `hr`, `p`,
/// `span`, `div`, `b`, `i`, `u`, `s`, `strong`, `em`, `a`, `table`, `tr`,
/// `td`, `th`), each as a closing tag, an opening tag with optional
/// attributes, or a self-closing tag, tried in that order.
pub const ALLOWED_TAG_PATTERN: &'static str = r"</img>|<img(?:\s+[^>]*)?>|<img(?:\s+[^>]*)?/>|</br>|<br(?:\s+[^>]*)?>|<br(?:\s+[^>]*)?/>|</hr>|<hr(?:\s+[^>]*)?>|<hr(?:\s+[^>]*)?/>|</p>|<p(?:\s+[^>]*)?>|<p(?:\s+[^>]*)?/>|</span>|<span(?:\s+[^>]*)?>|<span(?:\s+[^>]*)?/>|</div>|<div(?:\s+[^>]*)?>|<div(?:\s+[^>]*)?/>|</b>|<b(?:\s+[^>]*)?>|<b(?:\s+[^>]*)?/>|</i>|<i(?:\s+[^>]*)?>|<i(?:\s+[^>]*)?/>|</u>|<u(?:\s+[^>]*)?>|<u(?:\s+[^>]*)?/>|</s>|<s(?:\s+[^>]*)?>|<s(?:\s+[^>]*)?/>|</strong>|<strong(?:\s+[^>]*)?>|<strong(?:\s+[^>]*)?/>|</em>|<em(?:\s+[^>]*)?>|<em(?:\s+[^>]*)?/>|</a>|<a(?:\s+[^>]*)?>|<a(?:\s+[^>]*)?/>|</table>|<table(?:\s+[^>]*)?>|<table(?:\s+[^>]*)?/>|</tr>|<tr(?:\s+[^>]*)?>|<tr(?:\s+[^>]*)?/>|</td>|<td(?:\s+[^>]*)?>|<td(?:\s+[^>]*)?/>|</th>|<th(?:\s+[^>]*)?>|<th(?:\s+[^>]*)?/>";

/// The position just after the last of `spans`; 0 when there is none.
pub open spec fn spans_end(spans: Seq<(usize, usize)>) -> int {
    if spans.len() == 0 {
        0
    } else {
        spans.last().1 as int
    }
}

/// The text that the bytes of `bytes` from `a` to `b` encode.
pub open spec fn text_between(bytes: Seq<u8>, a: int, b: int) -> Seq<char> {
    decode_utf8(bytes.subrange(a, b))
}

/// What [`escape_xml`] makes of `s`.
pub open spec fn escaped(s: Seq<char>) -> Seq<char> {
    escape_seq(strip_bom(s))
}

/// The text up to the end of the last of `spans`: each stretch between
/// two ranges escaped, each range kept as it is.
pub open spec fn kept_ranges(bytes: Seq<u8>, spans: Seq<(usize, usize)>) -> Seq<char>
    decreases spans.len(),
{
    if spans.len() == 0 {
        Seq::<char>::empty()
    } else {
        let before = spans.drop_last();
        let last = spans.last();
        kept_ranges(bytes, before) + escaped(text_between(bytes, spans_end(before), last.0 as int))
            + text_between(bytes, last.0 as int, last.1 as int)
    }
}

/// `text` with the byte ranges `spans` kept verbatim and everything else
/// escaped.
pub open spec fn keep_ranges(text: Seq<char>, spans: Seq<(usize, usize)>) -> Seq<char> {
    let bytes = encode_utf8(text);
    kept_ranges(bytes, spans) + escaped(text_between(bytes, spans_end(spans), bytes.len() as int))
}

/// The allowed tags found in `text`: the matches of
/// [`ALLOWED_TAG_PATTERN`], none when it does not compile.
pub open spec fn allowed_tag_spans(text: Seq<char>) -> Seq<(usize, usize)> {
    if regex_valid(ALLOWED_TAG_PATTERN@) {
        regex_find_spans(ALLOWED_TAG_PATTERN@, text)
    } else {
        Seq::empty()
    }
}

/// What [`sanitize_html_tags`] makes of `text`: text without `<` stays as it
/// is; otherwise the allowed tags are kept and the rest is escaped.
pub open spec fn sanitized(text: Seq<char>) -> Seq<char> {
    if !text.contains('<') {
        text
    } else {
        keep_ranges(text, allowed_tag_spans(text))
    }
}

/// The part of `s` from byte `a` to byte `b`.
pub(crate) fn str_slice<'a>(s: &'a str, a: usize, b: usize) -> (r: &'a str)
    requires
        span_within(s.spec_bytes(), (a, b)),
    ensures
        r@ == text_between(s.spec_bytes(), a as int, b as int),
{
    let ghost bytes = s.spec_bytes();
    proof {
        encode_utf8_valid_utf8(s@);
        valid_utf8_split(bytes, a as int);
    }
    let (_, rest) = s.split_at(a);
    proof {
        let tail = bytes.subrange(a as int, bytes.len() as int);
        assert(rest.spec_bytes() == tail);
        if b as int == bytes.len() {
            is_char_boundary_start_end_of_seq(tail);
        } else {
            is_char_boundary_iff_not_is_continuation_byte(bytes, b as int);
            is_char_boundary_iff_not_is_continuation_byte(tail, b - a);
            assert(tail[b - a] == bytes[b as int]);
        }
    }
    let (mid, _) = rest.split_at(b - a);
    proof {
        assert(mid.spec_bytes() == bytes.subrange(a as int, b as int));
        encode_utf8_decode_utf8(mid@);
    }
    mid
}

/// `input` with the byte ranges `spans` kept verbatim and the text around
/// them escaped.
pub fn keep_ranges_escaping_rest(input: &str, spans: &[(usize, usize)]) -> (r: String)
    requires
        spans_ordered(input.spec_bytes(), spans@),
    ensures
        r@ == keep_ranges(input@, spans@),
{
    let ghost bytes = input.spec_bytes();
    proof {
        encode_utf8_valid_utf8(input@);
        is_char_boundary_start_end_of_seq(bytes);
    }
    let mut result = String::new();
    let mut last: usize = 0;
    let mut i: usize = 0;
    while i < spans.len()
        invariant
            i <= spans@.len(),
            bytes == input.spec_bytes(),
            valid_utf8(bytes),
            spans_ordered(bytes, spans@),
            last as int == spans_end(spans@.take(i as int)),
            last <= bytes.len(),
            is_char_boundary(bytes, last as int),
            is_char_boundary(bytes, bytes.len() as int),
            i < spans@.len() ==> last <= spans@[i as int].0,
            result@ == kept_ranges(bytes, spans@.take(i as int)),
        decreases spans.len() - i,
    {
        let (a, b) = spans[i];
        assert(span_within(bytes, spans@[i as int]));
        let before = str_slice(input, last, a);
        let esc = escape_xml(before);
        push_str(&mut result, esc.as_str());
        let tag = str_slice(input, a, b);
        push_str(&mut result, tag);
        proof {
            assert(spans@.take(i + 1).drop_last() == spans@.take(i as int));
            if i + 1 < spans@.len() {
                assert(spans@[i as int].1 <= spans@[i + 1].0);
            }
        }
        last = b;
        i = i + 1;
    }
    assert(spans@.take(i as int) == spans@);
    let n = input.as_bytes().len();
    let tail = str_slice(input, last, n);
    let esc = escape_xml(tail);
    push_str(&mut result, esc.as_str());
    result
}

/// Keeps the allowed HTML tags of `input` and escapes the rest; text
/// without `<` is returned as it is.
pub fn sanitize_html_tags(input: &str) -> (r: String)
    ensures
        r@ == sanitized(input@),
{
    let v = chars_of(input);
    if !contains_char(&v, '<') {
        return string_of(&v);
    }
    match compile(ALLOWED_TAG_PATTERN) {
        Ok(re) => {
            let spans = re.find_spans(input);
            keep_ranges_escaping_rest(input, spans.as_slice())
        },
        Err(_) => {
            let none: Vec<(usize, usize)> = Vec::new();
            keep_ranges_escaping_rest(input, none.as_slice())
        },
    }
}

} // verus!
