//! What a single conversion prints and where it writes the book.

use vstd::prelude::*;
use crate::batch::enhanced::{candidate_name, sanitized_name, EnhancedBatchConverter};
use crate::config::loader::probed;
use crate::error::KafError;
use crate::text::{dec, decimal, push_chars, push_str};
use crate::model::Book;
use crate::text::{chars_eq_str, chars_of, string_of};
use crate::utils::file::{bookname_of, extract_bookname_from_filename, join_path, path_file_stem, path_joined};

verus! {

/// How many chapter titles a listing shows.
pub const LISTED_CHAPTERS: usize = 20;

/// The lines of the first `n` titles, numbered from 1.
pub open spec fn title_lines(titles: Seq<String>, n: int) -> Seq<char>
    decreases n,
{
    if n <= 0 {
        Seq::empty()
    } else {
        title_lines(titles, n - 1) + dec(n as nat) + ". "@ + titles[n - 1]@ + "\n"@
    }
}

/// The listing of the chapters found in `title`: the first twenty titles,
/// how many more there are, and the total.
pub open spec fn chapter_listing_text(title: Seq<char>, titles: Seq<String>) -> Seq<char> {
    let shown = if titles.len() < 20 { titles.len() as int } else { 20 };
    "\n=== "@ + title + " 章节识别结果 ===\n"@ + title_lines(titles, shown) + (if titles.len() > 20 {
        "... 还有 "@ + dec((titles.len() - 20) as nat) + " 个章节\n"@
    } else {
        Seq::empty()
    }) + "总计: "@ + dec(titles.len()) + " 个章节\n\n"@
}

/// The listing of the chapters found in the book `title`.
pub fn chapter_listing(title: &str, titles: &[String]) -> (r: String)
    ensures
        r@ == chapter_listing_text(title@, titles@),
{
    let mut out = String::new();
    push_str(&mut out, "\n=== ");
    assert(out@ =~= "\n=== "@);
    push_str(&mut out, title);
    push_str(&mut out, " 章节识别结果 ===\n");
    let shown: usize = if titles.len() < LISTED_CHAPTERS { titles.len() } else { LISTED_CHAPTERS };
    let ghost head = out@;
    let mut i: usize = 0;
    while i < shown
        invariant
            i <= shown <= titles@.len(),
            out@ == head + title_lines(titles@, i as int),
        decreases shown - i,
    {
        push_chars(&mut out, &decimal((i + 1) as u64));
        push_str(&mut out, ". ");
        push_str(&mut out, titles[i].as_str());
        push_str(&mut out, "\n");
        i = i + 1;
    }
    let ghost mid = out@;
    if titles.len() > LISTED_CHAPTERS {
        push_str(&mut out, "... 还有 ");
        push_chars(&mut out, &decimal((titles.len() - LISTED_CHAPTERS) as u64));
        push_str(&mut out, " 个章节\n");
    }
    assert(out@ =~= mid + (if titles@.len() > 20 {
        "... 还有 "@ + dec((titles@.len() - 20) as nat) + " 个章节\n"@
    } else {
        Seq::<char>::empty()
    }));
    push_str(&mut out, "总计: ");
    push_chars(&mut out, &decimal(titles.len() as u64));
    push_str(&mut out, " 个章节\n\n");
    out
}

/// The `k`-th output path tried for `requested` in `directory`.
pub open spec fn output_candidate(directory: Seq<char>, requested: Seq<char>, k: nat) -> Seq<char> {
    path_joined(directory, candidate_name(sanitized_name(requested), k))
}

/// The first output path in `directory` for the book name `requested`
/// where nothing exists (as `exists_at` tells): `name.epub`, then
/// `name (1).epub` up to `name (10000).epub`.
pub fn choose_output_path<F: Fn(&str) -> bool>(directory: &str, requested: &str, exists_at: &F) -> (r: Result<String, KafError>)
    requires
        forall|s: &str| exists_at.requires((s,)),
    ensures
        r matches Ok(p) ==> exists|k: nat| k <= 10000 && p@ == #[trigger] output_candidate(directory@, requested@, k)
            && probed(*exists_at, p@, false) && forall|j: nat| j < k ==> probed(
            *exists_at,
            #[trigger] output_candidate(directory@, requested@, j),
            true,
        ),
        r is Err ==> forall|j: nat| j <= 10000 ==> probed(*exists_at, #[trigger] output_candidate(directory@, requested@, j), true),
        r matches Err(e) ==> e matches KafError::ParseError(m) && m@ == "无法为 "@ + requested@ + " 分配唯一输出文件名"@,
{
    let base = EnhancedBatchConverter::sanitize_output_name(requested);
    let mut k: usize = 0;
    while k <= 10000
        invariant
            k <= 10001,
            base@ == sanitized_name(requested@),
            forall|s: &str| exists_at.requires((s,)),
            forall|j: nat| j < k ==> probed(*exists_at, #[trigger] output_candidate(directory@, requested@, j), true),
        decreases 10001 - k,
    {
        let candidate = join_path(directory, EnhancedBatchConverter::candidate(base.as_str(), k).as_str());
        assert(candidate@ == output_candidate(directory@, requested@, k as nat));
        if !exists_at(candidate.as_str()) {
            assert(probed(*exists_at, candidate@, false));
            return Ok(candidate);
        }
        assert(probed(*exists_at, candidate@, true));
        k = k + 1;
    }
    let mut m = String::new();
    push_str(&mut m, "无法为 ");
    assert(m@ =~= "无法为 "@);
    push_str(&mut m, requested);
    push_str(&mut m, " 分配唯一输出文件名");
    Err(KafError::ParseError(m))
}


/// The book needs the metadata of its file name: it has no title, or the
/// author is still the default one.
pub open spec fn needs_filename_metadata(book: Book) -> bool {
    book.bookname is None || book.author@ == "YSTYLE"@
}

/// Fills in the title and author that the file name gives: the title when
/// the book has none, the author when it is still the default one and the
/// file name names one. A book that needs them and whose file name has no
/// stem is an error, and is left as it was.
pub fn apply_filename_metadata(book: &mut Book) -> (r: Result<(), KafError>)
    ensures
        !needs_filename_metadata(*old(book)) ==> r is Ok && *final(book) == *old(book),
        needs_filename_metadata(*old(book)) ==> match path_file_stem(old(book).filename@) {
            None => (r matches Err(KafError::ParseError(m)) && m@ == "Invalid filename"@) && *final(book) == *old(book),
            Some(stem) => r is Ok && {
                let (name, author) = bookname_of(stem);
                &&& final(book).bookname == (if old(book).bookname is None {
                    Some(final(book).bookname->0)
                } else {
                    old(book).bookname
                })
                &&& (old(book).bookname is None ==> final(book).bookname->0@ == name)
                &&& (if old(book).author@ == "YSTYLE"@ && author is Some {
                    final(book).author@ == author->0
                } else {
                    final(book).author == old(book).author
                })
                &&& *final(book) == (Book { bookname: final(book).bookname, author: final(book).author, ..*old(book) })
            },
        },
{
    let default_author = chars_eq_str(&chars_of(book.author.as_str()), "YSTYLE");
    proof { reveal_strlit("YSTYLE"); }
    if book.bookname.is_some() && !default_author {
        return Ok(());
    }
    let (name, author) = extract_bookname_from_filename(book.filename.as_str())?;
    if book.bookname.is_none() {
        book.bookname = Some(name);
    }
    if default_author {
        if let Some(a) = author {
            book.author = a;
        }
    }
    Ok(())
}


/// The title a single conversion shows: the book's, or `Unknown`.
pub open spec fn shown_title(book: Book) -> Seq<char> {
    match book.bookname {
        Some(b) => b@,
        None => "Unknown"@,
    }
}

/// The title a single conversion shows.
pub fn display_title(book: &Book) -> (r: String)
    ensures
        r@ == shown_title(*book),
{
    match &book.bookname {
        Some(b) => string_of(&chars_of(b.as_str())),
        None => "Unknown".to_string(),
    }
}

/// The name of the output file of a single conversion, without extension:
/// the configured output name, else the shown title.
pub fn output_stem(book: &Book) -> (r: String)
    ensures
        r@ == match book.output_name {
            Some(o) => o@,
            None => shown_title(*book),
        },
{
    match &book.output_name {
        Some(o) => string_of(&chars_of(o.as_str())),
        None => display_title(book),
    }
}

/// A single conversion needs an input file.
pub fn require_filename(book: &Book) -> (r: Result<(), KafError>)
    ensures
        r is Ok <==> book.filename@.len() > 0,
        r is Err ==> (r matches Err(KafError::ParseError(m)) && m@ == "未指定文件名，请使用 --filename"@),
{
    if chars_of(book.filename.as_str()).len() == 0 {
        Err(KafError::ParseError("未指定文件名，请使用 --filename".to_string()))
    } else {
        Ok(())
    }
}

} // verus!
