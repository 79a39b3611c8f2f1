//! Paths and file names. Paths are strings; what `std::path` computes on
//! them is named here.

use vstd::prelude::*;
use crate::error::KafError;
use crate::text::{chars_of, string_of};
use crate::utils::regex::{compile, regex_captures, regex_valid};

verus! {

/// The extension of the path (`Path::extension`): the part of the file
/// name after its last `.`, if any.
pub uninterp spec fn path_extension(path: Seq<char>) -> Option<Seq<char>>;

/// The file stem of the path (`Path::file_stem`): the file name without
/// its extension, if there is a file name.
pub uninterp spec fn path_file_stem(path: Seq<char>) -> Option<Seq<char>>;

/// Whether the path is absolute (`Path::is_absolute`).
pub uninterp spec fn path_absolute(path: Seq<char>) -> bool;

/// `base` joined with `path` (`Path::join`).
pub uninterp spec fn path_joined(base: Seq<char>, path: Seq<char>) -> Seq<char>;

/// The parent of the path (`Path::parent`), if any.
pub uninterp spec fn path_parent(path: Seq<char>) -> Option<Seq<char>>;

/// Calls `Path::extension` on `path`.
#[verifier::external_body]
pub(crate) fn extension_of(path: &str) -> (r: Option<String>)
    ensures
        match r {
            Some(e) => path_extension(path@) == Some(e@),
            None => path_extension(path@) is None,
        },
{
    std::path::Path::new(path).extension().map(|e| e.to_string_lossy().into_owned())
}

/// Calls `Path::file_stem` on `path`.
#[verifier::external_body]
pub(crate) fn file_stem_of(path: &str) -> (r: Option<String>)
    ensures
        match r {
            Some(e) => path_file_stem(path@) == Some(e@),
            None => path_file_stem(path@) is None,
        },
{
    std::path::Path::new(path).file_stem().map(|e| e.to_string_lossy().into_owned())
}

/// Calls `Path::is_absolute` on `path`.
#[verifier::external_body]
pub(crate) fn is_absolute_path(path: &str) -> (r: bool)
    ensures
        r == path_absolute(path@),
{
    std::path::Path::new(path).is_absolute()
}

/// Calls `Path::join`: `path` below `base`, or `path` itself when absolute.
#[verifier::external_body]
pub(crate) fn join_path(base: &str, path: &str) -> (r: String)
    ensures
        r@ == path_joined(base@, path@),
{
    std::path::Path::new(base).join(path).to_string_lossy().into_owned()
}

/// Calls `Path::parent` on `path`.
#[verifier::external_body]
pub(crate) fn parent_of(path: &str) -> (r: Option<String>)
    ensures
        match r {
            Some(e) => path_parent(path@) == Some(e@),
            None => path_parent(path@) is None,
        },
{
    std::path::Path::new(path).parent().map(|e| e.to_string_lossy().into_owned())
}

/// A resource path resolved against `base` (the input file's folder)
/// unless absolute or without a base.
pub open spec fn resource_path(path: Seq<char>, base: Option<Seq<char>>) -> Seq<char> {
    if path_absolute(path) {
        path
    } else {
        match base {
            Some(b) => path_joined(b, path),
            None => path,
        }
    }
}

/// A resource path resolved against `base` unless absolute.
pub fn resolve_resource_path(path: &str, base: Option<&str>) -> (r: String)
    ensures
        r@ == resource_path(path@, match base { Some(b) => Some(b@), None => None }),
{
    if is_absolute_path(path) {
        path.to_string()
    } else {
        match base {
            Some(b) => join_path(b, path),
            None => path.to_string(),
        }
    }
}

/// `s` without its leading `@` characters.
pub open spec fn strip_at(s: Seq<char>) -> Seq<char>
    decreases s.len(),
{
    if s.len() > 0 && s[0] == '@' {
        strip_at(s.drop_first())
    } else {
        s
    }
}

/// The pattern of file names such as `《书名》（校对版）作者：某人`.
pub const BOOKNAME_AUTHOR_PATTERN: &'static str = r"《(.*?)》.*作者[：:](.*?)$";

/// The book name and author read from a file stem.
pub open spec fn bookname_of(stem: Seq<char>) -> (Seq<char>, Option<Seq<char>>) {
    let name = strip_at(stem);
    if !regex_valid(BOOKNAME_AUTHOR_PATTERN@) {
        (name, None)
    } else {
        match regex_captures(BOOKNAME_AUTHOR_PATTERN@, name) {
            Some(groups) if groups.len() > 1 && groups[1] is Some => (
                groups[1]->0,
                if groups.len() > 2 { groups[2] } else { None },
            ),
            _ => (name, None),
        }
    }
}

/// `s` without its leading `@` characters.
fn strip_at_chars(s: &[char]) -> (r: Vec<char>)
    ensures
        r@ == strip_at(s@),
{
    let mut a: usize = 0;
    assert(s@.skip(0) == s@);
    while a < s.len() && s[a] == '@'
        invariant
            a <= s.len(),
            strip_at(s@) == strip_at(s@.skip(a as int)),
        decreases s.len() - a,
    {
        assert(s@.skip(a as int).drop_first() == s@.skip(a + 1));
        a = a + 1;
    }
    let mut r: Vec<char> = Vec::new();
    let mut i: usize = a;
    while i < s.len()
        invariant
            a <= i <= s.len(),
            r@ == s@.subrange(a as int, i as int),
        decreases s.len() - i,
    {
        r.push(s[i]);
        i = i + 1;
        assert(s@.subrange(a as int, i as int) == s@.subrange(a as int, i - 1).push(s@[i - 1]));
    }
    assert(s@.skip(a as int) == s@.subrange(a as int, s.len() as int));
    r
}

/// The book name and author in a file name: `《书名》……作者：某人` gives
/// both (a leading `@` is dropped); any other stem is the book name alone.
/// A path without a file stem is an error.
pub fn extract_bookname_from_filename(path: &str) -> (r: Result<(String, Option<String>), KafError>)
    ensures
        match path_file_stem(path@) {
            None => r matches Err(KafError::ParseError(m)) && m@ == "Invalid filename"@,
            Some(stem) => r matches Ok((name, author)) && (name@, match author { Some(a) => Some(a@), None => None })
                == bookname_of(stem),
        },
{
    let stem = match file_stem_of(path) {
        Some(s) => s,
        None => return Err(KafError::ParseError("Invalid filename".to_string())),
    };
    let name = string_of(&strip_at_chars(&chars_of(stem.as_str())));
    let re = match compile(BOOKNAME_AUTHOR_PATTERN) {
        Ok(c) => c,
        Err(_) => return Ok((name, None)),
    };
    match re.captures(name.as_str()) {
        Some(groups) => {
            if groups.len() > 1 {
                match &groups[1] {
                    Some(b) => {
                        let author = if groups.len() > 2 {
                            match &groups[2] {
                                Some(a) => Some(a.clone()),
                                None => None,
                            }
                        } else {
                            None
                        };
                        return Ok((b.clone(), author));
                    },
                    None => {},
                }
            }
            Ok((name, None))
        },
        None => Ok((name, None)),
    }
}

} // verus!
