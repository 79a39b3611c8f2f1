//! Chapter header images: which files of the header folder are images, and
//! which image goes with which chapter title.

use vstd::prelude::*;
use vstd::string::StringSliceAdditionalSpecFns;
use vstd::utf8::encode_utf8;
use crate::converter::numerals::{chapter_number_of, stem_number, stem_value, title_number};
use crate::text::{ascii_lower_seq, ascii_lowercase, chars_eq, chars_eq_str, chars_of, string_of, text_less, text_less_exec, trim, trim_chars};
use crate::text::{lemma_text_less_irreflexive, lemma_text_less_total, lemma_text_less_transitive};
use crate::config::validator::{answered, Query};
use crate::error::KafError;
use crate::model::{Book, HeaderMode};
use crate::text::push_str;
use crate::utils::file::{extension_of, file_stem_of, parent_of, path_extension, path_file_stem, path_parent};
use crate::utils::file::{resolve_resource_path, resource_path};

verus! {

/// The extensions of header images, in lower case.
pub open spec fn header_image_extension(e: Seq<char>) -> bool {
    e == "jpg"@ || e == "jpeg"@ || e == "png"@ || e == "gif"@ || e == "webp"@ || e == "bmp"@ || e == "tif"@
        || e == "tiff"@
}

/// The file at `path` counts as a header image by its extension, compared
/// without ASCII case.
pub open spec fn is_header_image_path(path: Seq<char>) -> bool {
    match path_extension(path) {
        Some(e) => header_image_extension(ascii_lower_seq(e)),
        None => false,
    }
}

/// Whether the file at `path` counts as a header image by its extension.
pub fn is_header_image(path: &str) -> (r: bool)
    ensures
        r == is_header_image_path(path@),
{
    match extension_of(path) {
        Some(e) => {
            let l = ascii_lowercase(&chars_of(e.as_str()));
            chars_eq_str(&l, "jpg") || chars_eq_str(&l, "jpeg") || chars_eq_str(&l, "png") || chars_eq_str(&l, "gif")
                || chars_eq_str(&l, "webp") || chars_eq_str(&l, "bmp") || chars_eq_str(&l, "tif")
                || chars_eq_str(&l, "tiff")
        },
        None => false,
    }
}

/// The name of image `i` without extension is `title`.
pub open spec fn named_like(a: Seq<String>, i: int, title: Seq<char>) -> bool {
    path_file_stem(a[i]@) == Some(title)
}

/// The name of image `i` without extension carries the chapter number `n`.
pub open spec fn numbered(a: Seq<String>, i: int, n: nat) -> bool {
    match path_file_stem(a[i]@) {
        Some(s) => stem_value(s) == Some(n),
        None => false,
    }
}

/// `x` ranks before `y`: fewer bytes, or as many and earlier in the order
/// of `str`.
pub open spec fn ranks_before(x: Seq<char>, y: Seq<char>) -> bool {
    encode_utf8(x).len() < encode_utf8(y).len() || (encode_utf8(x).len() == encode_utf8(y).len() && text_less(x, y))
}

/// The name of image `i` ranks before that of image `j`.
pub open spec fn image_before(a: Seq<String>, i: int, j: int) -> bool {
    match (path_file_stem(a[i]@), path_file_stem(a[j]@)) {
        (Some(x), Some(y)) => ranks_before(x, y),
        _ => false,
    }
}

/// `r` is the header image for the (trimmed) title `title` among the
/// images `a`: the first whose name is the title; failing that, among the
/// images whose name carries the title's chapter number, the first of
/// those whose name ranks first; none when neither exists.
pub open spec fn is_header_choice(title: Seq<char>, a: Seq<String>, r: Option<usize>) -> bool {
    if exists|i: int| 0 <= i < a.len() && named_like(a, i, title) {
        r matches Some(i) && i < a.len() && named_like(a, i as int, title) && forall|j: int|
            0 <= j < i ==> !named_like(a, j, title)
    } else {
        match title_number(title) {
            None => r is None,
            Some(n) => if exists|i: int| 0 <= i < a.len() && numbered(a, i, n) {
                r matches Some(i) && i < a.len() && numbered(a, i as int, n) && (forall|j: int|
                    0 <= j < a.len() && numbered(a, j, n) ==> !image_before(a, j, i as int)) && (forall|j: int|
                    0 <= j < i && numbered(a, j, n) ==> image_before(a, i as int, j))
            } else {
                r is None
            },
        }
    }
}

/// Whether `x` ranks before `y`.
fn ranks_before_exec(x: &str, y: &str) -> (r: bool)
    ensures
        r == ranks_before(x@, y@),
{
    let lx = x.as_bytes().len();
    let ly = y.as_bytes().len();
    lx < ly || (lx == ly && text_less_exec(&chars_of(x), &chars_of(y)))
}

/// The header image for the trimmed, non-empty title `title` among the
/// images `available` (listed in order), as [`is_header_choice`] says.
pub fn match_header_image(title: &str, available: &[String]) -> (r: Option<usize>)
    ensures
        is_header_choice(title@, available@, r),
{
    let tv = chars_of(title);
    let mut i: usize = 0;
    while i < available.len()
        invariant
            i <= available@.len(),
            tv@ == title@,
            forall|j: int| 0 <= j < i ==> !named_like(available@, j, title@),
        decreases available.len() - i,
    {
        if let Some(s) = file_stem_of(available[i].as_str()) {
            if chars_eq(&chars_of(s.as_str()), &tv) {
                return Some(i);
            }
        }
        i = i + 1;
    }
    let n = match chapter_number_of(title) {
        Some(n) => n,
        None => return None,
    };
    let mut best: Option<(usize, String)> = None;
    let mut k: usize = 0;
    while k < available.len()
        invariant
            k <= available@.len(),
            title_number(title@) == Some(n as nat),
            forall|j: int| 0 <= j < available@.len() ==> !named_like(available@, j, title@),
            match best {
                None => forall|j: int| 0 <= j < k ==> !numbered(available@, j, n as nat),
                Some((b, s)) => b < k && numbered(available@, b as int, n as nat) && path_file_stem(available@[b as int]@)
                    == Some(s@) && (forall|j: int| 0 <= j < k && numbered(available@, j, n as nat) ==> !image_before(
                    available@, j, b as int)) && (forall|j: int| 0 <= j < b && numbered(available@, j, n as nat)
                    ==> image_before(available@, b as int, j)),
            },
        decreases available.len() - k,
    {
        if let Some(s) = file_stem_of(available[k].as_str()) {
            if stem_number(s.as_str()) == Some(n) {
                let replace = match &best {
                    None => true,
                    Some((_, bs)) => ranks_before_exec(s.as_str(), bs.as_str()),
                };
                let ghost bst = best;
                proof {
                    if let Some((b, bs)) = bst {
                        lemma_text_less_total(s@, bs@);
                        if !replace {
                            // The current best stays: it ranks no later than image k.
                            assert(!image_before(available@, k as int, b as int));
                        } else {
                            assert forall|j: int| 0 <= j < k && numbered(available@, j, n as nat) implies !image_before(
                                available@, j, k as int) by {
                                let sj = path_file_stem(available@[j]@)->0;
                                assert(!image_before(available@, j, b as int));
                                lemma_text_less_total(sj, bs@);
                                if text_less(sj, s@) && text_less(s@, bs@) {
                                    lemma_text_less_transitive(sj, s@, bs@);
                                }
                            }
                            assert forall|j: int| 0 <= j < k && numbered(available@, j, n as nat) implies image_before(
                                available@, k as int, j) by {
                                let sj = path_file_stem(available@[j]@)->0;
                                assert(!image_before(available@, j, b as int));
                                lemma_text_less_total(sj, bs@);
                                if text_less(s@, bs@) && text_less(bs@, sj) {
                                    lemma_text_less_transitive(s@, bs@, sj);
                                }
                            }
                        }
                    }
                }
                if replace {
                    proof { lemma_text_less_irreflexive(s@); }
                    best = Some((k, s));
                } else {
                    proof {
                        let (b, bs) = bst->0;
                        assert forall|j: int| 0 <= j < k + 1 && numbered(available@, j, n as nat) implies !image_before(
                            available@, j, b as int) by {
                            if j == k {
                                lemma_text_less_total(s@, bs@);
                            }
                        }
                    }
                }
            }
        }
        k = k + 1;
    }
    match best {
        Some((b, _)) => Some(b),
        None => None,
    }
}

/// The header image of each chapter title among the images `available`:
/// none for a title that is empty once trimmed, else the choice of
/// [`match_header_image`] for the trimmed title.
pub fn assign_header_images(titles: &[String], available: &[String]) -> (r: Vec<Option<usize>>)
    ensures
        r@.len() == titles@.len(),
        forall|k: int| 0 <= k < titles@.len() ==> (if trim(titles@[k]@).len() == 0 {
            r@[k] is None
        } else {
            is_header_choice(trim(titles@[k]@), available@, #[trigger] r@[k])
        }),
{
    let mut r: Vec<Option<usize>> = Vec::new();
    let mut k: usize = 0;
    while k < titles.len()
        invariant
            k <= titles@.len(),
            r@.len() == k,
            forall|j: int| 0 <= j < k ==> (if trim(titles@[j]@).len() == 0 {
                r@[j] is None
            } else {
                is_header_choice(trim(titles@[j]@), available@, #[trigger] r@[j])
            }),
        decreases titles.len() - k,
    {
        let t = trim_chars(&chars_of(titles[k].as_str()));
        if t.len() == 0 {
            r.push(None);
        } else {
            let ts = string_of(&t);
            r.push(match_header_image(ts.as_str(), available));
        }
        k = k + 1;
    }
    r
}


/// Where the chapter header images of a book come from.
#[derive(Debug, Clone, PartialEq, Eq)]
pub enum HeaderSource {
    /// A folder of images, matched to chapters by their titles.
    Folder(String),
    /// One image for every chapter, or none.
    Single(Option<String>),
}

/// A header path of `book`, resolved against the folder of its file.
pub open spec fn header_path(book: Book, path: Seq<char>) -> Seq<char> {
    resource_path(path, path_parent(book.filename@))
}

/// Where the header images of `book` come from: in folder mode the folder
/// (an error when none is set, or when `probe` says it is not a folder),
/// else the single image if one is set. Paths are resolved against the
/// folder of the book's file.
pub fn header_source<F: Fn(&Query) -> bool>(book: &Book, probe: &F) -> (r: Result<HeaderSource, KafError>)
    requires
        forall|q: &Query| probe.requires((q,)),
    ensures
        book.chapter_header.mode == HeaderMode::Single ==> (r matches Ok(HeaderSource::Single(p)) && match (
            book.chapter_header.image,
            p,
        ) {
            (Some(i), Some(x)) => x@ == header_path(*book, i@),
            (None, None) => true,
            _ => false,
        }),
        book.chapter_header.mode == HeaderMode::Folder ==> match book.chapter_header.image_folder {
            None => r matches Err(KafError::ParseError(m)) && m@ == "页眉模式为 folder 时必须设置 image_folder"@,
            Some(f) => match r {
                Ok(HeaderSource::Folder(x)) => x@ == header_path(*book, f@) && answered(*probe, Query::IsDir(x), true),
                Err(KafError::ParseError(m)) => m@ == "章节页眉路径不是目录: "@ + header_path(*book, f@)
                    && exists|x: String| x@ == header_path(*book, f@) && answered(*probe, Query::IsDir(x), false),
                _ => false,
            },
        },
{
    let base = parent_of(book.filename.as_str());
    let base_ref: Option<&str> = match &base {
        Some(b) => Some(b.as_str()),
        None => None,
    };
    match book.chapter_header.mode {
        HeaderMode::Single => match &book.chapter_header.image {
            Some(image) => Ok(HeaderSource::Single(Some(resolve_resource_path(image.as_str(), base_ref)))),
            None => Ok(HeaderSource::Single(None)),
        },
        HeaderMode::Folder => {
            let folder = match &book.chapter_header.image_folder {
                Some(f) => f,
                None => return Err(KafError::ParseError("页眉模式为 folder 时必须设置 image_folder".to_string())),
            };
            let resolved = resolve_resource_path(folder.as_str(), base_ref);
            let q = Query::IsDir(resolved.clone());
            if probe(&q) {
                Ok(HeaderSource::Folder(resolved))
            } else {
                let mut m = "章节页眉路径不是目录: ".to_string();
                push_str(&mut m, resolved.as_str());
                Err(KafError::ParseError(m))
            }
        },
    }
}

} // verus!
