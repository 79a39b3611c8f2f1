//! Images referenced by chapter content: finding the `src` of each `<img>`
//! tag, deciding which local file it names, and writing the content back
//! with each source replaced by the resource packaged in the book.

use vstd::prelude::*;
use vstd::string::StringSliceAdditionalSpecFns;
use vstd::utf8::{encode_utf8, encode_utf8_valid_utf8, is_char_boundary, is_char_boundary_start_end_of_seq};
use crate::config::loader::probed;
use crate::converter::css_resources::{percent_decode_spec, percent_decode_uri};
use crate::converter::entities::{decode_attr, decode_xml_attribute, external_image, is_external_image};
use crate::error::KafError;
use crate::text::{chars_eq, chars_of, dec, decimal, push_chars, push_str, string_of, sub_chars};
use crate::utils::file::{resolve_resource_path, resource_path};
use crate::utils::html::{escape_xml, escaped, spans_end, str_slice, text_between};
use crate::utils::regex::{compile, regex_find_spans, regex_valid, spans_ordered};

verus! {

/// The `src` attribute of an `<img>` tag: the start of the tag up to the
/// opening quote, the value, and the closing quote.
pub const IMAGE_SRC_PATTERN: &'static str = r#"(?is)(<img\b[^>]*?\bsrc\s*=\s*")([^"]*)(")"#;

/// The part of an image reference before its query or fragment: the text
/// up to the first `?` or `#`.
pub open spec fn path_part(s: Seq<char>) -> Seq<char>
    decreases s.len(),
{
    if s.len() == 0 {
        s
    } else if s[0] == '?' || s[0] == '#' {
        Seq::empty()
    } else {
        seq![s[0]] + path_part(s.drop_first())
    }
}

/// `path_part` stops at the first `?` or `#`.
proof fn lemma_path_part(s: Seq<char>, i: int)
    requires
        0 <= i <= s.len(),
        forall|k: int| 0 <= k < i ==> s[k] != '?' && s[k] != '#',
        i < s.len() ==> (s[i] == '?' || s[i] == '#'),
    ensures
        path_part(s) == s.take(i),
    decreases s.len(),
{
    if s.len() > 0 && i > 0 {
        assert forall|k: int| 0 <= k < i - 1 implies s.drop_first()[k] != '?' && s.drop_first()[k] != '#' by {
            assert(s.drop_first()[k] == s[k + 1]);
        }
        lemma_path_part(s.drop_first(), i - 1);
        assert(s.take(i) =~= seq![s[0]] + s.drop_first().take(i - 1));
    }
}

/// The part of an image reference before its query or fragment.
pub fn image_path_part(s: &[char]) -> (r: Vec<char>)
    ensures
        r@ == path_part(s@),
{
    let mut i: usize = 0;
    while i < s.len() && s[i] != '?' && s[i] != '#'
        invariant
            i <= s@.len(),
            forall|k: int| 0 <= k < i ==> s@[k] != '?' && s@[k] != '#',
        decreases s.len() - i,
    {
        i = i + 1;
    }
    proof { lemma_path_part(s@, i as int); }
    sub_chars(s, 0, i)
}

/// The spellings under which a local image is looked for: percent-decoded
/// when that differs, then as written.
pub open spec fn image_candidates(p: Seq<char>) -> Seq<Seq<char>> {
    match percent_decode_spec(p) {
        Some(d) => if d != p { seq![d, p] } else { seq![p] },
        None => seq![p],
    }
}

/// The message refusing a reference that is no local file.
pub open spec fn external_message(source: Seq<char>) -> Seq<char> {
    "EPUB 不支持未打包的远程或危险图片引用: "@ + source
}

/// The message refusing a reference whose decoded spelling is no local
/// file.
pub open spec fn decoded_external_message(original: Seq<char>, candidate: Seq<char>) -> Seq<char> {
    "EPUB 不支持未打包的远程或危险图片引用: "@ + original + "（解码后: "@ + candidate + "）"@
}

/// The message of an image that is not found.
pub open spec fn missing_image_message(path: Seq<char>, original: Seq<char>) -> Seq<char> {
    "正文图片不存在: "@ + path + "（源引用: "@ + original + "）"@
}

/// The candidates before `k` were local and, resolved, not found.
pub open spec fn candidates_missed<F: Fn(&str) -> bool>(
    exists_at: F,
    c: Seq<Seq<char>>,
    base: Option<Seq<char>>,
    k: int,
) -> bool {
    forall|j: int| 0 <= j < k ==> !external_image(#[trigger] c[j]) && probed(exists_at, resource_path(c[j], base), false)
}

/// The local file that the `src` value `source` names, looked for with
/// `exists_at` relative to `base` (the folder of the book's file). The
/// value is decoded first; a value that names no local file is refused;
/// the part before any query or fragment is tried percent-decoded, then as
/// written, each spelling refused when it names no local file.
pub fn locate_image<F: Fn(&str) -> bool>(source: &str, base: Option<&str>, exists_at: &F) -> (r: Result<String, KafError>)
    requires
        forall|s: &str| exists_at.requires((s,)),
    ensures
        ({
            let decoded = decode_attr(source@);
            let b = match base { Some(x) => Some(x@), None => None };
            let p = path_part(decoded);
            let c = image_candidates(p);
            if external_image(decoded) {
                r matches Err(KafError::ParseError(m)) && m@ == external_message(decoded)
            } else {
                match r {
                    Ok(x) => exists|k: int| 0 <= k < c.len() && candidates_missed(*exists_at, c, b, k)
                        && !external_image(#[trigger] c[k]) && x@ == resource_path(c[k], b) && probed(*exists_at, x@, true),
                    Err(KafError::ParseError(m)) => exists|k: int| 0 <= k < c.len() && candidates_missed(*exists_at, c, b, k)
                        && external_image(#[trigger] c[k]) && m@ == decoded_external_message(source@, c[k]),
                    Err(KafError::FileNotFound(m)) => candidates_missed(*exists_at, c, b, c.len() as int)
                        && m@ == missing_image_message(p, source@),
                    _ => false,
                }
            }
        }),
{
    let decoded = decode_xml_attribute(source);
    let external = is_external_image(decoded.as_str());
    assert(external == external_image(decode_attr(source@)));
    if external {
        let mut m = "EPUB 不支持未打包的远程或危险图片引用: ".to_string();
        push_str(&mut m, decoded.as_str());
        return Err(KafError::ParseError(m));
    }
    let p = string_of(&image_path_part(&chars_of(decoded.as_str())));
    let mut candidates: Vec<String> = Vec::new();
    match percent_decode_uri(p.as_str()) {
        Some(d) => {
            if !chars_eq(&chars_of(d.as_str()), &chars_of(p.as_str())) {
                candidates.push(d);
            }
        },
        None => {},
    }
    candidates.push(string_of(&chars_of(p.as_str())));
    assert(p@ == path_part(decode_attr(source@)));
    let ghost c = image_candidates(p@);
    let ghost b = match base { Some(x) => Some(x@), None => None };
    assert(candidates@.map_values(|s: String| s@) =~= c);
    let mut i: usize = 0;
    while i < candidates.len()
        invariant
            i <= candidates@.len(),
            candidates@.map_values(|s: String| s@) == c,
            forall|s: &str| exists_at.requires((s,)),
            candidates_missed(*exists_at, c, b, i as int),
            b == match base { Some(x) => Some(x@), None => None },
            c == image_candidates(path_part(decode_attr(source@))),
            !external_image(decode_attr(source@)),
        decreases candidates.len() - i,
    {
        assert(candidates@[i as int]@ == c[i as int]);
        let candidate = candidates[i].as_str();
        if is_external_image(candidate) {
            let mut m = "EPUB 不支持未打包的远程或危险图片引用: ".to_string();
            push_str(&mut m, source);
            push_str(&mut m, "（解码后: ");
            push_str(&mut m, candidate);
            push_str(&mut m, "）");
            assert(m@ =~= decoded_external_message(source@, c[i as int]));
            assert(external_image(c[i as int]));
            assert(exists|k: int| 0 <= k < c.len() && candidates_missed(*exists_at, c, b, k)
                && external_image(#[trigger] c[k]) && m@ == decoded_external_message(source@, c[k]));
            return Err(KafError::ParseError(m));
        }
        let resolved = resolve_resource_path(candidate, base);
        if exists_at(resolved.as_str()) {
            assert(probed(*exists_at, resolved@, true));
            assert(!external_image(c[i as int]));
            assert(exists|k: int| 0 <= k < c.len() && candidates_missed(*exists_at, c, b, k)
                && !external_image(#[trigger] c[k]) && resolved@ == resource_path(c[k], b) && probed(*exists_at, resolved@, true));
            return Ok(resolved);
        }
        assert(probed(*exists_at, resource_path(c[i as int], b), false));
        i = i + 1;
    }
    let mut m = "正文图片不存在: ".to_string();
    push_str(&mut m, p.as_str());
    push_str(&mut m, "（源引用: ");
    push_str(&mut m, source);
    push_str(&mut m, "）");
    assert(m@ =~= missing_image_message(p@, source@));
    Err(KafError::FileNotFound(m))
}


/// The spans of the image sources of `content`: the matches of
/// [`IMAGE_SRC_PATTERN`], none when it does not compile.
pub open spec fn source_spans(content: Seq<char>) -> Seq<(usize, usize)> {
    if regex_valid(IMAGE_SRC_PATTERN@) {
        regex_find_spans(IMAGE_SRC_PATTERN@, content)
    } else {
        Seq::empty()
    }
}

/// The last position of `c` in `s`; -1 when it does not occur.
pub open spec fn last_index(s: Seq<char>, c: char) -> int
    decreases s.len(),
{
    if s.len() == 0 {
        -1
    } else if s.last() == c {
        s.len() - 1
    } else {
        last_index(s.drop_last(), c)
    }
}

/// `k` is the last position of `c` in `s`.
proof fn lemma_last_index(s: Seq<char>, c: char, k: int)
    requires
        -1 <= k < s.len(),
        k >= 0 ==> s[k] == c,
        forall|t: int| k < t < s.len() ==> s[t] != c,
    ensures
        last_index(s, c) == k,
    decreases s.len(),
{
    if s.len() > 0 && s.last() != c {
        assert forall|t: int| k < t < s.len() - 1 implies s.drop_last()[t] != c by {
            assert(s.drop_last()[t] == s[t]);
        }
        lemma_last_index(s.drop_last(), c, k);
    }
}

/// A matched tag cut into the text up to the opening quote, the value,
/// and the closing character.
pub open spec fn split_source(m: Seq<char>) -> (Seq<char>, Seq<char>, Seq<char>) {
    if m.len() == 0 {
        (m, m, m)
    } else {
        let body = m.drop_last();
        let k = last_index(body, '"');
        (body.take(k + 1), body.skip(k + 1), seq![m.last()])
    }
}

/// An image source of chapter content: the text since the previous
/// source, the tag up to the opening quote, the value, and the closing
/// quote.
#[derive(Debug, Clone)]
pub struct ImageSource {
    pub before: String,
    pub prefix: String,
    pub value: String,
    pub suffix: String,
}

/// The view of an image source.
pub open spec fn source_view(s: ImageSource) -> (Seq<char>, Seq<char>, Seq<char>, Seq<char>) {
    (s.before@, s.prefix@, s.value@, s.suffix@)
}

/// The image sources of `content`, each with the text before it.
pub open spec fn sources_of(content: Seq<char>) -> Seq<(Seq<char>, Seq<char>, Seq<char>, Seq<char>)> {
    let bytes = encode_utf8(content);
    let spans = source_spans(content);
    Seq::new(
        spans.len(),
        |i: int|
            {
                let parts = split_source(text_between(bytes, spans[i].0 as int, spans[i].1 as int));
                (text_between(bytes, spans_end(spans.take(i)), spans[i].0 as int), parts.0, parts.1, parts.2)
            },
    )
}

/// The text of `content` after its last image source.
pub open spec fn tail_of(content: Seq<char>) -> Seq<char> {
    let bytes = encode_utf8(content);
    text_between(bytes, spans_end(source_spans(content)), bytes.len() as int)
}

/// Cuts a matched tag into its parts, as [`split_source`] says.
fn split_match(m: &str) -> (r: (String, String, String))
    ensures
        (r.0@, r.1@, r.2@) == split_source(m@),
{
    let v = chars_of(m);
    if v.len() == 0 {
        return (String::new(), String::new(), String::new());
    }
    let n = v.len() - 1;
    let ghost body = v@.take(n as int);
    let mut j: usize = n;
    while j > 0 && v[j - 1] != '"'
        invariant
            j <= n,
            n == v@.len() - 1,
            body == v@.take(n as int),
            forall|t: int| j <= t < n ==> body[t] != '"',
        decreases j,
    {
        j = j - 1;
    }
    proof {
        lemma_last_index(body, '"', j - 1);
        assert(body.take(j as int) == v@.subrange(0, j as int));
        assert(body.skip(j as int) == v@.subrange(j as int, n as int));
        assert(seq![v@.last()] == v@.subrange(n as int, n + 1));
    }
    (string_of(&sub_chars(&v, 0, j)), string_of(&sub_chars(&v, j, n)), string_of(&sub_chars(&v, n, n + 1)))
}

/// The image sources of `content` and the text after the last one, as
/// [`sources_of`] and [`tail_of`] say.
pub fn find_image_sources(content: &str) -> (r: (Vec<ImageSource>, String))
    ensures
        r.0@.map_values(|s: ImageSource| source_view(s)) == sources_of(content@),
        r.1@ == tail_of(content@),
{
    let spans: Vec<(usize, usize)> = match compile(IMAGE_SRC_PATTERN) {
        Ok(re) => re.find_spans(content),
        Err(_) => Vec::new(),
    };
    let ghost bytes = content.spec_bytes();
    let ghost all = sources_of(content@);
    proof {
        encode_utf8_valid_utf8(content@);
        is_char_boundary_start_end_of_seq(bytes);
    }
    assert(spans@ == source_spans(content@));
    let mut out: Vec<ImageSource> = Vec::new();
    let mut last: usize = 0;
    let mut i: usize = 0;
    while i < spans.len()
        invariant
            i <= spans@.len(),
            bytes == content.spec_bytes(),
            bytes == encode_utf8(content@),
            spans@ == source_spans(content@),
            all == sources_of(content@),
            spans_ordered(bytes, spans@),
            last as int == spans_end(spans@.take(i as int)),
            last <= bytes.len(),
            is_char_boundary(bytes, last as int),
            is_char_boundary(bytes, bytes.len() as int),
            i < spans@.len() ==> last <= spans@[i as int].0,
            out@.map_values(|s: ImageSource| source_view(s)) == all.take(i as int),
        decreases spans.len() - i,
    {
        let (a, b) = spans[i];
        let before = str_slice(content, last, a);
        let m = str_slice(content, a, b);
        let (p, v, s) = split_match(m);
        let src = ImageSource { before: string_of(&chars_of(before)), prefix: p, value: v, suffix: s };
        let ghost prev = out@;
        out.push(src);
        proof {
            assert(spans@.take(i + 1).last() == spans@[i as int]);
            assert(spans@.take(i + 1).drop_last() == spans@.take(i as int));
            assert(source_view(src) == all[i as int]);
            assert(all.len() == spans@.len());
            assert(prev.map_values(|s: ImageSource| source_view(s)).len() == prev.len());
            assert(prev.len() == i);
            assert(out@ == prev.push(src));
            let ghost mapped = out@.map_values(|s: ImageSource| source_view(s));
            assert forall|k: int| 0 <= k < i + 1 implies #[trigger] mapped[k] == all.take(i + 1)[k] by {
                if k < i {
                    assert(out@[k] == prev[k]);
                    assert(prev.map_values(|s: ImageSource| source_view(s))[k] == all.take(i as int)[k]);
                }
            }
            assert(mapped =~= all.take(i + 1));
            if i + 1 < spans@.len() {
            }
        }
        last = b;
        i = i + 1;
    }
    assert(spans@.take(i as int) == spans@);
    let n = content.as_bytes().len();
    let tail = str_slice(content, last, n);
    (out, string_of(&chars_of(tail)))
}

/// The content up to the end of the last source, each source replaced by
/// its resource (escaped).
pub open spec fn rewritten_sources(
    sources: Seq<(Seq<char>, Seq<char>, Seq<char>, Seq<char>)>,
    resources: Seq<Seq<char>>,
) -> Seq<char>
    decreases sources.len(),
{
    if sources.len() == 0 {
        Seq::empty()
    } else {
        let n = sources.len() - 1;
        rewritten_sources(sources.drop_last(), resources) + sources[n].0 + sources[n].1 + escaped(resources[n])
            + sources[n].3
    }
}

/// Writes the content back with each image source replaced by the
/// resource at the same position of `resources`.
pub fn rewrite_image_sources(sources: &[ImageSource], resources: &[String], tail: &str) -> (r: String)
    requires
        resources@.len() == sources@.len(),
    ensures
        r@ == rewritten_sources(
            sources@.map_values(|s: ImageSource| source_view(s)),
            resources@.map_values(|s: String| s@),
        ) + tail@,
{
    let ghost sv = sources@.map_values(|s: ImageSource| source_view(s));
    let ghost rv = resources@.map_values(|s: String| s@);
    let mut out = String::new();
    let mut i: usize = 0;
    while i < sources.len()
        invariant
            i <= sources@.len(),
            resources@.len() == sources@.len(),
            sv == sources@.map_values(|s: ImageSource| source_view(s)),
            rv == resources@.map_values(|s: String| s@),
            out@ == rewritten_sources(sv.take(i as int), rv),
        decreases sources.len() - i,
    {
        assert(sv.take(i + 1).drop_last() == sv.take(i as int));
        assert(sv.take(i + 1)[i as int] == sv[i as int]);
        push_str(&mut out, sources[i].before.as_str());
        push_str(&mut out, sources[i].prefix.as_str());
        push_str(&mut out, escape_xml(resources[i].as_str()).as_str());
        push_str(&mut out, sources[i].suffix.as_str());
        i = i + 1;
    }
    assert(sv.take(i as int) == sv);
    push_str(&mut out, tail);
    out
}

/// The name of the `n`-th content image packaged in the book.
pub fn content_resource_name(n: u64, ext: &str) -> (r: String)
    ensures
        r@ == "images/content-"@ + dec(n as nat) + "."@ + ext@,
{
    let mut r = "images/content-".to_string();
    push_chars(&mut r, &decimal(n));
    push_str(&mut r, ".");
    push_str(&mut r, ext);
    r
}

/// The name of the `n`-th header image packaged in the book.
pub fn header_resource_name(n: u64, ext: &str) -> (r: String)
    ensures
        r@ == "images/header-"@ + dec(n as nat) + "."@ + ext@,
{
    let mut r = "images/header-".to_string();
    push_chars(&mut r, &decimal(n));
    push_str(&mut r, ".");
    push_str(&mut r, ext);
    r
}

} // verus!
