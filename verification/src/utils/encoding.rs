//! Byte-order marks and the clean-up of text for XML output.

use vstd::prelude::*;
use crate::error::KafError;
use crate::text::{chars_of, push_str, string_of};
use vstd::utf8::{decode_utf8, encode_utf8, valid_utf8};
use crate::utils::html::{remove_invalid_xml_chars_chars, xml_clean};

verus! {

/// The Unicode byte-order mark.
pub const BOM: char = '\u{FEFF}';

/// `s` without its leading byte-order marks (`trim_start_matches('\u{FEFF}')`).
pub open spec fn strip_bom(s: Seq<char>) -> Seq<char>
    decreases s.len(),
{
    if s.len() > 0 && s[0] == BOM {
        strip_bom(s.drop_first())
    } else {
        s
    }
}

/// Law: removing the byte-order marks twice is removing them once; the
/// result starts with no mark.
pub proof fn lemma_strip_bom_idempotent(s: Seq<char>)
    ensures
        strip_bom(strip_bom(s)) == strip_bom(s),
        strip_bom(s).len() == 0 || strip_bom(s)[0] != BOM,
    decreases s.len(),
{
    if s.len() > 0 && s[0] == BOM {
        lemma_strip_bom_idempotent(s.drop_first());
    }
}

/// `s` without its leading byte-order marks.
pub fn strip_bom_chars(s: &[char]) -> (r: Vec<char>)
    ensures
        r@ == strip_bom(s@),
{
    let mut a: usize = 0;
    assert(s@.skip(0) == s@);
    while a < s.len() && s[a] == BOM
        invariant
            a <= s.len(),
            strip_bom(s@) == strip_bom(s@.skip(a as int)),
        decreases s.len() - a,
    {
        assert(s@.skip(a as int).drop_first() == s@.skip(a + 1));
        a = a + 1;
    }
    let mut r: Vec<char> = Vec::new();
    let mut i: usize = a;
    while i < s.len()
        invariant
            a <= i <= s.len(),
            r@ == s@.subrange(a as int, i as int),
        decreases s.len() - i,
    {
        r.push(s[i]);
        i = i + 1;
        assert(s@.subrange(a as int, i as int) == s@.subrange(a as int, i - 1).push(s@[i - 1]));
    }
    assert(s@.skip(a as int) == s@.subrange(a as int, s.len() as int));
    r
}

/// The text without its leading byte-order marks.
pub fn ensure_no_bom(text: &str) -> (r: String)
    ensures
        r@ == strip_bom(text@),
{
    let v = chars_of(text);
    string_of(&strip_bom_chars(&v))
}

/// The text without leading byte-order marks and without the characters
/// XML does not allow.
pub fn clean_utf8_output(text: &str) -> (r: String)
    ensures
        r@ == xml_clean(strip_bom(text@)),
{
    let v = chars_of(text);
    let s = strip_bom_chars(&v);
    string_of(&remove_invalid_xml_chars_chars(&s))
}

/// The name of the encoding `chardetng` guesses for `content` (the whole
/// input fed at once, UTF-8 allowed, no top-level domain).
pub uninterp spec fn guessed_encoding(content: Seq<u8>) -> Seq<char>;

/// What `encoding_rs` decodes `content` to in the encoding labelled
/// `encoding`, without byte-order-mark handling and without replacement:
/// none when a byte sequence is invalid or the label is unknown.
pub uninterp spec fn strict_decoding(encoding: Seq<char>, content: Seq<u8>) -> Option<Seq<char>>;

/// Calls `chardetng::EncodingDetector` on the whole of `content` and
/// returns the name of the encoding it guesses; the name is given the
/// name `guessed_encoding`.
#[verifier::external_body]
fn guess_legacy_encoding(content: &[u8]) -> (r: String)
    ensures
        r@ == guessed_encoding(content@),
{
    let mut detector = chardetng::EncodingDetector::new();
    detector.feed(content, true);
    detector.guess(None, true).name().to_string()
}

/// Calls `encoding_rs::Encoding::for_label` with `encoding`, then
/// `decode_without_bom_handling_and_without_replacement` on `content`;
/// the result is given the name `strict_decoding`.
#[verifier::external_body]
fn decode_strict(encoding: &str, content: &[u8]) -> (r: Option<String>)
    ensures
        match r {
            Some(s) => strict_decoding(encoding@, content@) == Some(s@),
            None => strict_decoding(encoding@, content@) is None,
        },
{
    encoding_rs::Encoding::for_label(encoding.as_bytes())
        .and_then(|e| e.decode_without_bom_handling_and_without_replacement(content))
        .map(|text| text.into_owned())
}

/// Calls `String::from_utf8`, which accepts exactly the byte sequences that
/// are valid UTF-8 and keeps their bytes.
#[verifier::external_body]
pub(crate) fn utf8_string(bytes: Vec<u8>) -> (r: Option<String>)
    ensures
        r is Some <==> valid_utf8(bytes@),
        r matches Some(s) ==> encode_utf8(s@) == bytes@,
{
    String::from_utf8(bytes).ok()
}

/// How a file's bytes are read: by a byte-order mark (UTF-8, UTF-16LE,
/// UTF-16BE, the mark left out), as UTF-8 when they are valid UTF-8, and
/// otherwise in the encoding guessed for them. `Err` holds the name of
/// the encoding whose decoding failed.
pub open spec fn decoded_text(content: Seq<u8>) -> Result<Seq<char>, Seq<char>> {
    let (name, rest): (Seq<char>, Option<Seq<u8>>) = if content.len() >= 3 && content.take(3) == seq![0xEFu8, 0xBB, 0xBF] {
        ("UTF-8"@, Some(content.skip(3)))
    } else if content.len() >= 2 && content.take(2) == seq![0xFFu8, 0xFE] {
        ("UTF-16LE"@, Some(content.skip(2)))
    } else if content.len() >= 2 && content.take(2) == seq![0xFEu8, 0xFF] {
        ("UTF-16BE"@, Some(content.skip(2)))
    } else {
        (guessed_encoding(content), None)
    };
    match rest {
        Some(r) => match strict_decoding(name, r) {
            Some(t) => Ok(t),
            None => Err(name),
        },
        None => if valid_utf8(content) {
            Ok(decode_utf8(content))
        } else {
            match strict_decoding(name, content) {
                Some(t) => Ok(t),
                None => Err(name),
            }
        },
    }
}

/// The bytes of `content` from `a` on.
fn tail_bytes(content: &[u8], a: usize) -> (r: Vec<u8>)
    requires
        a <= content.len(),
    ensures
        r@ == content@.skip(a as int),
{
    let mut r: Vec<u8> = Vec::new();
    let mut i = a;
    while i < content.len()
        invariant
            a <= i <= content.len(),
            r@ == content@.subrange(a as int, i as int),
        decreases content.len() - i,
    {
        r.push(content[i]);
        assert(content@.subrange(a as int, i + 1) == content@.subrange(a as int, i as int).push(content@[i as int]));
        i = i + 1;
    }
    r
}

/// The error for bytes that are not valid in `encoding`.
fn invalid_bytes(encoding: &str) -> (r: KafError)
    ensures
        r matches KafError::Encoding(m) && m@ == "无效的 "@ + encoding@ + " 字节序列"@,
{
    let mut m = String::new();
    push_str(&mut m, "无效的 ");
    assert(m@ =~= "无效的 "@);
    push_str(&mut m, encoding);
    push_str(&mut m, " 字节序列");
    KafError::Encoding(m)
}

/// Reads a file's bytes as text, as [`decoded_text`] says; bytes that are
/// not valid in the chosen encoding are an encoding error naming it.
pub fn detect_and_convert(content: &[u8]) -> (r: Result<String, KafError>)
    ensures
        match decoded_text(content@) {
            Ok(t) => r matches Ok(s) && s@ == t,
            Err(name) => r matches Err(KafError::Encoding(m)) && m@ == "无效的 "@ + name + " 字节序列"@,
        },
{
    let n = content.len();
    if n >= 3 && content[0] == 0xEF && content[1] == 0xBB && content[2] == 0xBF {
        assert(content@.take(3) =~= seq![0xEFu8, 0xBB, 0xBF]);
        let rest = tail_bytes(content, 3);
        return match decode_strict("UTF-8", rest.as_slice()) {
            Some(t) => Ok(t),
            None => Err(invalid_bytes("UTF-8")),
        };
    }
    assert(!(content@.len() >= 3 && content@.take(3) == seq![0xEFu8, 0xBB, 0xBF])) by {
        if content@.len() >= 3 && content@.take(3) == seq![0xEFu8, 0xBB, 0xBF] {
            assert(content@.take(3)[0] == content@[0]);
            assert(content@.take(3)[1] == content@[1]);
            assert(content@.take(3)[2] == content@[2]);
        }
    }
    if n >= 2 && content[0] == 0xFF && content[1] == 0xFE {
        assert(content@.take(2) =~= seq![0xFFu8, 0xFE]);
        let rest = tail_bytes(content, 2);
        return match decode_strict("UTF-16LE", rest.as_slice()) {
            Some(t) => Ok(t),
            None => Err(invalid_bytes("UTF-16LE")),
        };
    }
    assert(!(content@.len() >= 2 && content@.take(2) == seq![0xFFu8, 0xFE])) by {
        if content@.len() >= 2 && content@.take(2) == seq![0xFFu8, 0xFE] {
            assert(content@.take(2)[0] == content@[0]);
            assert(content@.take(2)[1] == content@[1]);
        }
    }
    if n >= 2 && content[0] == 0xFE && content[1] == 0xFF {
        assert(content@.take(2) =~= seq![0xFEu8, 0xFF]);
        let rest = tail_bytes(content, 2);
        return match decode_strict("UTF-16BE", rest.as_slice()) {
            Some(t) => Ok(t),
            None => Err(invalid_bytes("UTF-16BE")),
        };
    }
    assert(!(content@.len() >= 2 && content@.take(2) == seq![0xFEu8, 0xFF])) by {
        if content@.len() >= 2 && content@.take(2) == seq![0xFEu8, 0xFF] {
            assert(content@.take(2)[0] == content@[0]);
            assert(content@.take(2)[1] == content@[1]);
        }
    }
    let all = tail_bytes(content, 0);
    assert(all@ == content@);
    match utf8_string(all) {
        Some(s) => {
            proof { vstd::utf8::encode_utf8_decode_utf8(s@); }
            Ok(s)
        },
        None => {
            let name = guess_legacy_encoding(content);
            match decode_strict(name.as_str(), content) {
                Some(t) => Ok(t),
                None => Err(invalid_bytes(name.as_str())),
            }
        },
    }
}

} // verus!
