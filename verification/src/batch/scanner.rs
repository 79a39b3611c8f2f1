//! Batch inputs: which files of a folder are converted, and the settings
//! of each book. The folder itself is listed by the caller.

use vstd::prelude::*;
use crate::batch::enhanced::BatchInput;
use crate::batch::report::REPORT_MARKER;
use crate::cli::{string_seqs, Cli};
use crate::config::loader::{author_source_of, cli_error, load_error, loaded, probed, FileConfig};
use crate::config::validator::{answered, answered_on, Query};
use crate::config::{apply_filename_author, load_config_tracked, AuthorSource};
use crate::error::{message_of, KafError};
use crate::model::{is_default_book, Book, ChapterHeader, CoverSource, HeaderMode};
use crate::text::{ascii_lower_seq, ascii_lowercase, chars_eq_str, chars_of, has_prefix, has_suffix, string_of, trim};
use crate::utils::file::{
    bookname_of, extension_of, extract_bookname_from_filename, file_stem_of, join_path, parent_of, path_extension,
    path_file_stem, path_joined, path_parent,
};

verus! {

/// The files found in a folder, and the problems met while listing it.
#[derive(Debug)]
pub struct ScanOutcome {
    pub files: Vec<String>,
    pub issues: Vec<(String, String)>,
}

/// A supported input extension, in lower case.
pub open spec fn supported_extension(e: Seq<char>) -> bool {
    e == "txt"@ || e == "md"@ || e == "markdown"@ || e == "mkd"@
}

/// Law: the inputs a batch converts are the text and Markdown files. A
/// path is a supported input exactly when its extension, in ASCII lower
/// case, is `txt`, `md`, `markdown` or `mkd`.
pub proof fn lemma_supported_inputs(path: Seq<char>)
    ensures
        (path_extension(path) matches Some(e) && supported_extension(ascii_lower_seq(e))) <==> (path_extension(path)
            matches Some(e) && {
            let l = ascii_lower_seq(e);
            l == seq!['t', 'x', 't'] || l == seq!['m', 'd'] || l == seq!['m', 'a', 'r', 'k', 'd', 'o', 'w', 'n']
                || l == seq!['m', 'k', 'd']
        }),
{
    reveal_strlit("txt");
    reveal_strlit("md");
    reveal_strlit("markdown");
    reveal_strlit("mkd");
    assert("txt"@ =~= seq!['t', 'x', 't']);
    assert("md"@ =~= seq!['m', 'd']);
    assert("markdown"@ =~= seq!['m', 'a', 'r', 'k', 'd', 'o', 'w', 'n']);
    assert("mkd"@ =~= seq!['m', 'k', 'd']);
}

/// An ASCII digit.
pub open spec fn ascii_digit(c: char) -> bool {
    '0' <= c && c <= '9'
}

/// The stem of a generated report: `batch_report_YYYYMMDD_HHMMSS`,
/// optionally followed by ` (N)`.
pub open spec fn report_stem(stem: Seq<char>) -> bool {
    has_prefix(stem, "batch_report_"@) && {
        let rest = stem.skip(13);
        &&& rest.len() >= 15
        &&& forall|i: int| 0 <= i < 8 ==> ascii_digit(#[trigger] rest[i])
        &&& rest[8] == '_'
        &&& forall|i: int| 9 <= i < 15 ==> ascii_digit(#[trigger] rest[i])
        &&& {
            let tail = rest.skip(15);
            tail.len() == 0 || (has_prefix(tail, " ("@) && has_suffix(tail, ")"@) && tail.len() > 3
                && forall|i: int| 2 <= i < tail.len() - 1 ==> ascii_digit(#[trigger] tail[i]))
        }
    }
}


/// The cover file names looked for next to a book, in order.
pub open spec fn cover_names() -> Seq<Seq<char>> {
    seq!["cover.jpg"@, "cover.jpeg"@, "cover.png"@, "封面.jpg"@, "封面.png"@]
}

/// The folder where the resources of the file at `file_path` are looked
/// for: its parent, or `.`.
pub open spec fn resource_dir(file_path: Seq<char>) -> Seq<char> {
    match path_parent(file_path) {
        Some(p) => p,
        None => "."@,
    }
}

/// The `k`-th cover looked for next to the file at `file_path`.
pub open spec fn cover_candidate(file_path: Seq<char>, k: int) -> Seq<char> {
    path_joined(resource_dir(file_path), cover_names()[k])
}

/// `after` is `before` with the metadata of its file name: the title from
/// the file name when it has none, and the author from the file name
/// (trimmed) when nobody set one and the file name names one that is not
/// blank.
pub open spec fn metadata_applied(before: Book, source: AuthorSource, after: Book) -> bool {
    match path_file_stem(before.filename@) {
        None => false,
        Some(stem) => {
            let (name, author) = bookname_of(stem);
            &&& (before.bookname is None ==> (after.bookname matches Some(n) && n@ == name))
            &&& (before.bookname is Some ==> after.bookname == before.bookname)
            &&& (if source == AuthorSource::Default && (author matches Some(a) && trim(a).len() > 0) {
                after.author@ == trim(author->0)
            } else {
                after.author == before.author
            })
            &&& after == (Book { bookname: after.bookname, author: after.author, ..before })
        },
    }
}

/// The cover `new` chosen for a book whose cover was `old`: kept when set,
/// else the first cover file next to the book that `probe` finds, else
/// none.
pub open spec fn cover_chosen<F: Fn(&Query) -> bool>(probe: F, old: Option<CoverSource>, file_path: Seq<char>,
    new: Option<CoverSource>) -> bool {
    if old is Some {
        new == old
    } else {
        match new {
            Some(c) => c matches CoverSource::Local { path } && exists|k: int| 0 <= k < 5 && path@ == cover_candidate(
                file_path,
                k,
            ) && answered(probe, Query::IsFile(path), true) && forall|j: int| 0 <= j < k ==> answered_on(
                probe,
                0u8,
                #[trigger] cover_candidate(file_path, j),
                false,
            ),
            None => forall|j: int| 0 <= j < 5 ==> answered_on(probe, 0u8, #[trigger] cover_candidate(file_path, j), false),
        }
    }
}

/// The header settings `new` of a book whose settings were `old`: when no
/// header image or folder is set and `probe` finds a `headers` folder next
/// to the book, that folder in folder mode; else unchanged.
pub open spec fn header_chosen<F: Fn(&Query) -> bool>(probe: F, old: ChapterHeader, file_path: Seq<char>,
    new: ChapterHeader) -> bool {
    if old.image is None && old.image_folder is None {
        let folder = path_joined(resource_dir(file_path), "headers"@);
        ||| (new.image_folder matches Some(f) && f@ == folder && answered(probe, Query::IsDir(f), true)
            && new == (ChapterHeader { image_folder: new.image_folder, mode: HeaderMode::Folder, ..old }))
        ||| (answered_on(probe, 1u8, folder, false) && new == old)
    } else {
        new == old
    }
}

/// `after` is `before` with the resources found next to the file at
/// `file_path`.
pub open spec fn resources_applied<F: Fn(&Query) -> bool>(probe: F, before: Book, file_path: Seq<char>, after: Book)
    -> bool {
    &&& cover_chosen(probe, before.cover, file_path, after.cover)
    &&& header_chosen(probe, before.chapter_header, file_path, after.chapter_header)
    &&& after == (Book { cover: after.cover, chapter_header: after.chapter_header, ..before })
}

/// `book` holds the settings of the file at `path` with the defaults: the
/// default book for the file, its file-name metadata, then its resources.
pub open spec fn default_created<F: Fn(&Query) -> bool>(probe: F, path: Seq<char>, book: Book) -> bool {
    exists|d: Book, m: Book|
        #![trigger metadata_applied(d, AuthorSource::Default, m)]
        d.filename@ == path && (exists|d0: Book| is_default_book(d0) && d == (Book { filename: d.filename, ..d0 }))
            && metadata_applied(d, AuthorSource::Default, m) && resources_applied(probe, m, path, book)
}

/// Law: a book made with the defaults for a scanned file takes its book
/// name from the file name, and its author from the file name (trimmed)
/// when the file name names one that is not blank, else the default
/// author.
pub proof fn lemma_default_book_names<F: Fn(&Query) -> bool>(probe: F, path: Seq<char>, book: Book)
    requires
        default_created(probe, path, book),
    ensures
        book.filename@ == path,
        path_file_stem(path) is Some,
        ({
            let (name, author) = bookname_of(path_file_stem(path)->0);
            &&& book.bookname matches Some(n) && n@ == name
            &&& book.author@ == if author matches Some(a) && trim(a).len() > 0 {
                trim(author->0)
            } else {
                "YSTYLE"@
            }
        }),
{
}

/// `c` is the command line `cli` with the file at `path` as input and no
/// batch folder.
pub open spec fn input_cli(cli: Cli, path: Seq<char>, c: Cli) -> bool {
    &&& c.filename matches Some(f) && f@ == path
    &&& c.batch is None
    &&& c == (Cli { filename: c.filename, batch: None, explicit: c.explicit, ..cli })
    &&& string_seqs(c.explicit@) == string_seqs(cli.explicit@)
}

/// `r` is the outcome of the settings of the file at `path` layered as for
/// one file: the command line with that input, the configuration file
/// `file`, the file-name metadata, then the resources; a loading error, or
/// a file name without stem, is the error.
pub open spec fn created<F: Fn(&Query) -> bool>(cli: Cli, path: Seq<char>, file: Option<(FileConfig, Option<String>)>,
    cwd: Seq<char>, probe: F, r: Result<Book, KafError>) -> bool {
    exists|c: Cli|
        #[trigger] input_cli(cli, path, c) && match r {
            Ok(b) => exists|l: Book, m: Book|
                #![trigger metadata_applied(l, author_source_of(c, file), m)]
                loaded(c, file, cwd, Ok(l)) && metadata_applied(l, author_source_of(c, file), m)
                    && resources_applied(probe, m, path, b),
            Err(e) => loaded(c, file, cwd, Err(e)) || exists|l: Book|
                #[trigger] loaded(c, file, cwd, Ok(l)) && path_file_stem(l.filename@) is None
                    && (e matches KafError::ParseError(x) && x@ == "Invalid filename"@),
        }
}

/// The message of the error that the settings of the file at `path` give,
/// if any: the loading error, else a file name without stem.
pub open spec fn creation_error(cli: Cli, path: Seq<char>, file: Option<(FileConfig, Option<String>)>) -> Option<
    Seq<char>,
> {
    match load_error(cli, file) {
        Some(m) => Some(m),
        None => if path_file_stem(path) is None {
            Some("Invalid filename"@)
        } else {
            None
        },
    }
}

/// The batch input `x` for the file at `path`, whose configuration file
/// was `loaded`: a loading error fails the file with its message; else the
/// book created from the file's settings, or the failure with the message
/// of the creation error.
pub open spec fn input_outcome<F: Fn(&Query) -> bool>(cli: Cli, path: Seq<char>,
    loaded: Result<Option<(FileConfig, Option<String>)>, KafError>, cwd: Seq<char>, probe: F, x: BatchInput) -> bool {
    match loaded {
        Err(e) => x matches BatchInput::Failed { input, error } && input@ == path && (message_of(e) matches Some(m)
            ==> error@ == m),
        Ok(f) => match x {
            BatchInput::Book(b) => creation_error(cli, path, f) is None && created(cli, path, f, cwd, probe, Ok(*b)),
            BatchInput::Failed { input, error } => input@ == path && (creation_error(cli, path, f) matches Some(m)
                && error@ == "章节解析失败: "@ + m),
        },
    }
}

/// Lists input files of a folder.
pub struct FolderScanner {
    root: String,
    recursive: bool,
}

impl FolderScanner {
    /// The folder and whether its subfolders are listed too.
    pub closed spec fn view(&self) -> (Seq<char>, bool) {
        (self.root@, self.recursive)
    }

    /// A scanner of `root`.
    pub fn new(root: String, recursive: bool) -> (r: Self)
        ensures
            r.view() == (root@, recursive),
    {
        FolderScanner { root, recursive }
    }

    /// The folder listed.
    pub fn root(&self) -> (r: &str)
        ensures
            r@ == self.view().0,
    {
        self.root.as_str()
    }

    /// Whether subfolders are listed.
    pub fn recursive(&self) -> (r: bool)
        ensures
            r == self.view().1,
    {
        self.recursive
    }

    /// Whether the path has a supported input extension (`txt`, `md`,
    /// `markdown`, `mkd`, in any ASCII case).
    pub fn is_supported_input(path: &str) -> (r: bool)
        ensures
            r == (path_extension(path@) matches Some(e) && supported_extension(ascii_lower_seq(e))),
    {
        match extension_of(path) {
            Some(e) => {
                let l = ascii_lowercase(&chars_of(e.as_str()));
                chars_eq_str(&l, "txt") || chars_eq_str(&l, "md") || chars_eq_str(&l, "markdown")
                    || chars_eq_str(&l, "mkd")
            },
            None => false,
        }
    }

    /// Whether `stem` is the stem of a generated report.
    pub fn matches_generated_report_stem(stem: &str) -> (r: bool)
        ensures
            r == report_stem(stem@),
    {
        let s = chars_of(stem);
        proof { reveal_strlit("batch_report_"); reveal_strlit(" ("); reveal_strlit(")"); }
        if !crate::text::starts_with_str(&s, "batch_report_") {
            return false;
        }
        let ghost rest = stem@.skip(13);
        if s.len() < 13 + 15 {
            return false;
        }
        let mut i: usize = 0;
        while i < 8
            invariant
                i <= 8,
                s@ == stem@,
                s@.len() >= 28,
                rest == stem@.skip(13),
                forall|k: int| 0 <= k < i ==> ascii_digit(#[trigger] rest[k]),
            decreases 8 - i,
        {
            if !('0' <= s[13 + i] && s[13 + i] <= '9') {
                assert(!ascii_digit(rest[i as int]));
                return false;
            }
            i = i + 1;
        }
        if s[13 + 8] != '_' {
            return false;
        }
        let mut j: usize = 9;
        while j < 15
            invariant
                9 <= j <= 15,
                s@ == stem@,
                s@.len() >= 28,
                rest == stem@.skip(13),
                forall|k: int| 9 <= k < j ==> ascii_digit(#[trigger] rest[k]),
            decreases 15 - j,
        {
            if !('0' <= s[13 + j] && s[13 + j] <= '9') {
                assert(!ascii_digit(rest[j as int]));
                return false;
            }
            j = j + 1;
        }
        let ghost tail = rest.skip(15);
        assert(tail =~= stem@.skip(28));
        let n = s.len();
        if n == 28 {
            assert(tail.len() == 0);
            return true;
        }
        if !(n > 28 + 3 && s[28] == ' ' && s[29] == '(' && s[n - 1] == ')') {
            proof {
                assert(tail =~= s@.skip(28));
                if has_prefix(tail, " ("@) && has_suffix(tail, ")"@) && tail.len() > 3 {
                    assert(tail.take(2)[0] == s@[28]);
                    assert(tail.take(2)[1] == s@[29]);
                    assert(tail.skip(tail.len() - 1)[0] == s@[n - 1]);
                }
            }
            return false;
        }
        let mut k: usize = 30;
        while k < n - 1
            invariant
                30 <= k <= n - 1,
                n == s@.len(),
                n > 31,
                s@ == stem@,
                tail == stem@.skip(28),
                rest == stem@.skip(13),
                forall|x: int| 2 <= x < k - 28 ==> ascii_digit(#[trigger] tail[x]),
            decreases n - 1 - k,
        {
            if !('0' <= s[k] && s[k] <= '9') {
                assert(!ascii_digit(tail[k - 28]));
                assert(rest.skip(15) =~= tail);
                return false;
            }
            k = k + 1;
        }
        proof {
            assert(tail =~= s@.skip(28));
            assert(rest.skip(15) =~= tail);
            assert(tail.take(2) =~= " ("@);
            assert(tail.skip(tail.len() - 1) =~= ")"@);
        }
        true
    }

    /// Whether the path is a report this tool wrote: its stem is a report
    /// stem and its first line, as `first_line_is_marker` tells, is the
    /// report marker.
    pub fn is_own_generated_report<F: Fn(&str) -> bool>(path: &str, first_line_is_marker: &F) -> (r: bool)
        requires
            forall|s: &str| first_line_is_marker.requires((s,)),
        ensures
            r ==> (path_file_stem(path@) matches Some(st) && report_stem(st)),
            r ==> exists|s: &str| s@ == path@ && #[trigger] first_line_is_marker.ensures((s,), true),
            !r ==> !(path_file_stem(path@) matches Some(st) && report_stem(st)) || probed(
                *first_line_is_marker,
                path@,
                false,
            ),
    {
        let stem_matches = match file_stem_of(path) {
            Some(st) => Self::matches_generated_report_stem(st.as_str()),
            None => false,
        };
        if !stem_matches {
            return false;
        }
        let marked = first_line_is_marker(path);
        assert(probed(*first_line_is_marker, path@, marked));
        marked
    }

    /// The settings of `book`'s file name: the title from the file name
    /// when none is set, the author from the file name when nobody set one.
    fn apply_filename_metadata(book: &mut Book, author_source: AuthorSource) -> (r: Result<(), KafError>)
        ensures
            r is Ok <==> path_file_stem(old(book).filename@) is Some,
            r is Ok ==> final(book).bookname is Some && final(book).filename == old(book).filename,
            r is Ok && old(book).bookname is Some ==> final(book).bookname == old(book).bookname,
            r is Ok ==> metadata_applied(*old(book), author_source, *final(book)),
            r is Err ==> *final(book) == *old(book) && (r matches Err(KafError::ParseError(m)) && m@ == "Invalid filename"@),
    {
        let (bookname, author) = extract_bookname_from_filename(book.filename.as_str())?;
        if book.bookname.is_none() {
            book.bookname = Some(bookname);
        }
        apply_filename_author(book, author_source, author);
        Ok(())
    }

    /// Resources found next to the input file: the first cover image
    /// (`cover.jpg`, `cover.jpeg`, `cover.png`, `封面.jpg`, `封面.png`) when no
    /// cover is set, and a `headers` folder of chapter images when no
    /// header image is set.
    fn apply_resources<F: Fn(&Query) -> bool>(book: &mut Book, file_path: &str, probe: &F)
        requires
            forall|q: &Query| probe.requires((q,)),
        ensures
            final(book).filename == old(book).filename,
            final(book).bookname == old(book).bookname,
            final(book).author == old(book).author,
            old(book).cover is Some ==> final(book).cover == old(book).cover,
            old(book).cover is None && final(book).cover is Some ==> (final(book).cover matches Some(
                CoverSource::Local { path }) && answered(*probe, Query::IsFile(path), true)),
            resources_applied(*probe, *old(book), file_path@, *final(book)),
    {
        let dir = match parent_of(file_path) {
            Some(p) => p,
            None => ".".to_string(),
        };
        assert(dir@ == resource_dir(file_path@));
        let ghost before = *book;
        if book.cover.is_none() {
            let names: [&str; 5] = ["cover.jpg", "cover.jpeg", "cover.png", "封面.jpg", "封面.png"];
            proof {
                reveal_strlit("cover.jpg");
                reveal_strlit("cover.jpeg");
                reveal_strlit("cover.png");
                reveal_strlit("封面.jpg");
                reveal_strlit("封面.png");
            }
            assert(forall|k: int| 0 <= k < 5 ==> names@[k]@ == cover_names()[k]);
            let mut chosen: Option<String> = None;
            let mut i: usize = 0;
            while i < 5 && chosen.is_none()
                invariant
                    i <= 5,
                    dir@ == resource_dir(file_path@),
                    forall|k: int| 0 <= k < 5 ==> names@[k]@ == cover_names()[k],
                    chosen matches Some(p) ==> answered(*probe, Query::IsFile(p), true) && i > 0 && p@
                        == cover_candidate(file_path@, i - 1),
                    forall|j: int| 0 <= j < (if chosen is Some { i - 1 } else { i as int }) ==> answered_on(
                        *probe,
                        0u8,
                        #[trigger] cover_candidate(file_path@, j),
                        false,
                    ),
                    forall|q: &Query| probe.requires((q,)),
                decreases 5 - i,
            {
                let p = join_path(dir.as_str(), names[i]);
                assert(p@ == cover_candidate(file_path@, i as int));
                let q = Query::IsFile(p.clone());
                let found = probe(&q);
                assert(crate::config::validator::query_view(q) == (0u8, p@));
                if found {
                    chosen = Some(p);
                } else {
                    assert(answered_on(*probe, 0u8, cover_candidate(file_path@, i as int), false));
                }
                i = i + 1;
            }
            if let Some(p) = chosen {
                book.cover = Some(CoverSource::Local { path: p });
            }
        }
        let ghost mid = *book;
        assert(cover_chosen(*probe, before.cover, file_path@, mid.cover));
        if book.chapter_header.image.is_none() && book.chapter_header.image_folder.is_none() {
            let folder = join_path(dir.as_str(), "headers");
            let q = Query::IsDir(folder.clone());
            let found = probe(&q);
            assert(crate::config::validator::query_view(q) == (1u8, folder@));
            if found {
                book.chapter_header.image_folder = Some(folder);
                book.chapter_header.mode = HeaderMode::Folder;
            } else {
                assert(answered_on(*probe, 1u8, folder@, false));
            }
        }
    }

    /// The settings of one file found in the folder: the default book for
    /// it, with the file-name metadata and the resources next to it.
    pub fn create_default_book_config<F: Fn(&Query) -> bool>(&self, file_path: &str, probe: &F)
        -> (r: Result<Book, KafError>)
        requires
            forall|q: &Query| probe.requires((q,)),
        ensures
            r is Ok <==> path_file_stem(file_path@) is Some,
            r matches Ok(b) ==> b.filename@ == file_path@ && b.bookname is Some,
            r matches Ok(b) ==> default_created(*probe, file_path@, b),
            r is Err ==> (r matches Err(KafError::ParseError(m)) && m@ == "Invalid filename"@),
    {
        let mut book = Book::default();
        let ghost d0 = book;
        book.filename = string_of(&chars_of(file_path));
        let ghost d = book;
        assert(d == (Book { filename: d.filename, ..d0 }));
        Self::apply_filename_metadata(&mut book, AuthorSource::Default)?;
        let ghost m = book;
        Self::apply_resources(&mut book, file_path, probe);
        assert(metadata_applied(d, AuthorSource::Default, m));
        assert(default_created(*probe, file_path@, book));
        Ok(book)
    }

    /// The settings of one file with the layering of a single conversion:
    /// defaults, the configuration file `file`, the command line (with the
    /// file as input), then the file-name metadata and the resources.
    pub fn create_book_from_cli<F: Fn(&Query) -> bool>(&self, cli: &Cli, path: &str,
        file: Option<(FileConfig, Option<String>)>, cwd: &str, probe: &F) -> (r: Result<Book, KafError>)
        requires
            forall|q: &Query| probe.requires((q,)),
        ensures
            r matches Ok(b) ==> b.filename@ == path@ && b.bookname is Some,
            r is Ok <==> creation_error(*cli, path@, file) is None,
            r matches Err(e) ==> (e matches KafError::ParseError(m) && creation_error(*cli, path@, file) == Some(m@)),
            created(*cli, path@, file, cwd@, *probe, r),
    {
        let file_cli = cli.for_input(path);
        assert(input_cli(*cli, path@, file_cli));
        assert(cli_error(file_cli) == cli_error(*cli));
        assert(load_error(file_cli, file) == load_error(*cli, file));
        let loaded_config = match load_config_tracked(&file_cli, file, cwd) {
            Ok(l) => l,
            Err(e) => {
                assert(loaded(file_cli, file, cwd@, Err(e)));
                return Err(e);
            },
        };
        let ghost l = loaded_config.book;
        assert(loaded(file_cli, file, cwd@, Ok(l)));
        let mut book = loaded_config.book;
        match Self::apply_filename_metadata(&mut book, loaded_config.author_source) {
            Ok(()) => {},
            Err(e) => {
                assert(path_file_stem(l.filename@) is None);
                return Err(e);
            },
        }
        let ghost m = book;
        Self::apply_resources(&mut book, path, probe);
        proof {
            let c = file_cli;
            assert(metadata_applied(l, author_source_of(c, file), m));
            assert(resources_applied(*probe, m, path@, book));
        }
        Ok(book)
    }

    /// The settings of every file found, with the defaults.
    pub fn scan_with_config<F: Fn(&Query) -> bool>(&self, files: &[String], probe: &F)
        -> (r: Result<Vec<Book>, KafError>)
        requires
            forall|q: &Query| probe.requires((q,)),
        ensures
            r matches Ok(v) ==> v@.len() == files@.len()
                && forall|k: int| 0 <= k < v@.len() ==> (#[trigger] v@[k]).filename@ == files@[k]@,
            r is Ok <==> forall|k: int| 0 <= k < files@.len() ==> path_file_stem((#[trigger] files@[k])@) is Some,
            r matches Ok(v) ==> forall|k: int| 0 <= k < v@.len() ==> default_created(*probe, files@[k]@, #[trigger] v@[k]),
            r is Err ==> (r matches Err(KafError::ParseError(m)) && m@ == "Invalid filename"@),
    {
        let mut books: Vec<Book> = Vec::new();
        let mut i: usize = 0;
        while i < files.len()
            invariant
                i <= files@.len(),
                books@.len() == i,
                forall|q: &Query| probe.requires((q,)),
                forall|k: int| 0 <= k < i ==> (#[trigger] books@[k]).filename@ == files@[k]@,
                forall|k: int| 0 <= k < i ==> path_file_stem((#[trigger] files@[k])@) is Some,
                forall|k: int| 0 <= k < i ==> default_created(*probe, files@[k]@, #[trigger] books@[k]),
            decreases files.len() - i,
        {
            let b = match self.create_default_book_config(files[i].as_str(), probe) {
                Ok(b) => b,
                Err(e) => {
                    assert(path_file_stem(files@[i as int]@) is None);
                    return Err(e);
                },
            };
            books.push(b);
            i = i + 1;
        }
        Ok(books)
    }

    /// The settings of every file found, layered as for one file; each
    /// file comes with its decoded configuration file.
    pub fn scan_with_cli<F: Fn(&Query) -> bool>(&self, cli: &Cli,
        files: Vec<(String, Option<(FileConfig, Option<String>)>)>, cwd: &str, probe: &F)
        -> (r: Result<Vec<Book>, KafError>)
        requires
            forall|q: &Query| probe.requires((q,)),
        ensures
            r matches Ok(v) ==> v@.len() == files@.len()
                && forall|k: int| 0 <= k < v@.len() ==> (#[trigger] v@[k]).filename@ == files@[k].0@,
            r matches Ok(v) ==> forall|k: int| 0 <= k < v@.len() ==> created(*cli, files@[k].0@, files@[k].1, cwd@, *probe,
                Ok(#[trigger] v@[k])),
            r is Ok <==> forall|k: int| 0 <= k < files@.len() ==> creation_error(*cli, (#[trigger] files@[k]).0@,
                files@[k].1) is None,
            r matches Err(e) ==> exists|k: int| 0 <= k < files@.len() && (e matches KafError::ParseError(m)
                && creation_error(*cli, (#[trigger] files@[k]).0@, files@[k].1) == Some(m@)) && (forall|j: int| 0 <= j < k
                ==> creation_error(*cli, (#[trigger] files@[j]).0@, files@[j].1) is None),
    {
        let mut books: Vec<Book> = Vec::new();
        let mut rest = files;
        let ghost all = rest@;
        while rest.len() > 0
            invariant
                all == files@,
                books@.len() + rest@.len() == all.len(),
                rest@ == all.skip(books@.len() as int),
                forall|q: &Query| probe.requires((q,)),
                forall|k: int| 0 <= k < books@.len() ==> (#[trigger] books@[k]).filename@ == all[k].0@,
                forall|k: int| 0 <= k < books@.len() ==> created(*cli, all[k].0@, all[k].1, cwd@, *probe,
                    Ok(#[trigger] books@[k])),
                forall|k: int| 0 <= k < books@.len() ==> creation_error(*cli, (#[trigger] all[k]).0@, all[k].1) is None,
            decreases rest.len(),
        {
            let ghost k = books@.len();
            assert(rest@[0] == all[k as int]);
            let (path, cfg) = rest.remove(0);
            assert(rest@ =~= all.skip((k + 1) as int));
            let b = match self.create_book_from_cli(cli, path.as_str(), cfg, cwd, probe) {
                Ok(b) => b,
                Err(e) => {
                    assert(creation_error(*cli, all[k as int].0@, all[k as int].1) is Some);
                    return Err(e);
                },
            };
            books.push(b);
        }
        Ok(books)
    }

    /// The batch inputs of a listing: one per file (its settings, or the
    /// failure to load them), then one failure per listing problem.
    pub fn scan_with_cli_inputs<F: Fn(&Query) -> bool>(&self, cli: &Cli,
        files: Vec<(String, Result<Option<(FileConfig, Option<String>)>, KafError>)>, issues: Vec<(String, String)>,
        cwd: &str, probe: &F) -> (r: Vec<BatchInput>)
        requires
            forall|q: &Query| probe.requires((q,)),
        ensures
            r@.len() == files@.len() + issues@.len(),
            forall|k: int| 0 <= k < files@.len() ==> crate::batch::enhanced::batch_input_path(#[trigger] r@[k])
                == files@[k].0@,
            forall|k: int| 0 <= k < files@.len() ==> input_outcome(*cli, files@[k].0@, files@[k].1, cwd@, *probe,
                #[trigger] r@[k]),
            forall|k: int| 0 <= k < issues@.len() ==> (#[trigger] r@[files@.len() + k] matches BatchInput::Failed {
                input, error } && input == issues@[k].0 && error@ == "扫描失败: "@ + issues@[k].1@),
    {
        let mut inputs: Vec<BatchInput> = Vec::new();
        let mut rest = files;
        let ghost all = rest@;
        while rest.len() > 0
            invariant
                all == files@,
                inputs@.len() + rest@.len() == all.len(),
                rest@ == all.skip(inputs@.len() as int),
                forall|q: &Query| probe.requires((q,)),
                forall|k: int| 0 <= k < inputs@.len() ==> crate::batch::enhanced::batch_input_path(#[trigger] inputs@[k])
                    == all[k].0@,
                forall|k: int| 0 <= k < inputs@.len() ==> input_outcome(*cli, all[k].0@, all[k].1, cwd@, *probe,
                    #[trigger] inputs@[k]),
            decreases rest.len(),
        {
            let ghost k = inputs@.len();
            assert(rest@[0] == all[k as int]);
            let (path, loaded) = rest.remove(0);
            assert(rest@ =~= all.skip((k + 1) as int));
            match loaded {
                Ok(cfg) => match self.create_book_from_cli(cli, path.as_str(), cfg, cwd, probe) {
                    Ok(book) => inputs.push(BatchInput::book(book)),
                    Err(e) => inputs.push(BatchInput::failed(path, e.message())),
                },
                Err(e) => inputs.push(BatchInput::failed(path, e.message())),
            }
        }
        let n = inputs.len();
        let mut issues = issues;
        let ghost all_issues = issues@;
        let mut j: usize = 0;
        let total = issues.len();
        assert(all_issues.skip(0) =~= all_issues);
        while issues.len() > 0
            invariant
                inputs@.len() == n + j,
                j + issues@.len() == all_issues.len(),
                total == all_issues.len(),
                n == all.len(),
                all == files@,
                issues@ == all_issues.skip(j as int),
                forall|k: int| 0 <= k < n ==> crate::batch::enhanced::batch_input_path(#[trigger] inputs@[k]) == all[k].0@,
                forall|k: int| 0 <= k < n ==> input_outcome(*cli, all[k].0@, all[k].1, cwd@, *probe, #[trigger] inputs@[k]),
                forall|k: int| 0 <= k < j ==> (#[trigger] inputs@[n + k] matches BatchInput::Failed {
                    input, error } && input == all_issues[k].0 && error@ == "扫描失败: "@ + all_issues[k].1@),
            decreases issues.len(),
        {
            let ghost before = inputs@;
            let (path, message) = issues.remove(0);
            assert(issues@ =~= all_issues.skip(j + 1));
            let mut m = "扫描失败: ".to_string();
            crate::text::push_str(&mut m, message.as_str());
            inputs.push(BatchInput::failed(path, m));
            assert(forall|k: int| 0 <= k < n ==> inputs@[k] == before[k]);
            j = j + 1;
        }
        inputs
    }
}

} // verus!
