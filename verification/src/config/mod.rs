//! Configuration: loading, merging, validation and example files.

pub mod loader;
pub mod parsers;
pub mod presets;
pub mod validator;

pub use loader::{AuthorSource, ConfigLoader, LoadedConfig};
pub use parsers::{parse_align, parse_format, parse_input_format, parse_lang, parse_theme};
pub use presets::generate_config_examples;
pub use validator::ConfigValidator;

use vstd::prelude::*;
use crate::cli::Cli;
use crate::error::KafError;
use crate::model::Book;
use crate::text::{chars_of, string_of, trim, trim_chars};
use loader::{author_source_of, config_candidates, loaded, opt_seq, probed, same_outcome, FileConfig};
use validator::{always_yes, answered, passes_when_found, validation_outcome, Query};

verus! {

/// The configuration of the command line and the decoded configuration
/// file, as `ConfigLoader::load_from_cli` loads it.
pub fn load_config(cli: &Cli, file: Option<(FileConfig, Option<String>)>, cwd: &str) -> (r: Result<Book, KafError>)
    ensures
        loaded(*cli, file, cwd@, r),
{
    let loader = ConfigLoader::new();
    loader.load_from_cli(cli, file, cwd)
}

/// Like `load_config`, also telling who set the author.
pub fn load_config_tracked(cli: &Cli, file: Option<(FileConfig, Option<String>)>, cwd: &str)
    -> (r: Result<LoadedConfig, KafError>)
    ensures
        loaded(*cli, file, cwd@, match r { Ok(l) => Ok(l.book), Err(e) => Err(e) }),
        r matches Ok(l) ==> l.author_source == author_source_of(*cli, file),
{
    let loader = ConfigLoader::new();
    loader.load_from_cli_tracked(cli, file, cwd)
}

/// The book of a loading that also tells who set the author.
pub open spec fn tracked_book(t: Result<LoadedConfig, KafError>) -> Result<Book, KafError> {
    match t {
        Ok(l) => Ok(l.book),
        Err(e) => Err(e),
    }
}

/// Law: loading that tells who set the author agrees with the plain
/// loading. For the same command line, configuration file and working
/// folder, `load_config` and `load_config_tracked` succeed or fail
/// together, with the same settings or the same error; and the author
/// source is
/// `Default` exactly when the author was set neither by an explicit
/// `--author` nor by the configuration file.
pub proof fn lemma_tracked_loading_agrees(
    cli: Cli,
    file: Option<(FileConfig, Option<String>)>,
    cwd: Seq<char>,
    plain: Result<Book, KafError>,
    sourced: Result<LoadedConfig, KafError>,
)
    requires
        loaded(cli, file, cwd, plain),
        loaded(cli, file, cwd, tracked_book(sourced)),
        sourced matches Ok(l) ==> l.author_source == author_source_of(cli, file),
    ensures
        same_outcome(plain, tracked_book(sourced)),
        sourced matches Ok(l) ==> (l.author_source == AuthorSource::Default <==> !cli.explicitly("author"@) && !(
        file matches Some((c, _)) && c.author is Some)),
{
    loader::lemma_loading_is_determined(cli, file, cwd, plain, tracked_book(sourced));
}

/// Nobody set the author, and the file name gives one that is not blank.
pub open spec fn filename_author_applies(source: AuthorSource, filename_author: Option<String>) -> bool {
    source == AuthorSource::Default && (filename_author matches Some(a) && trim(a@).len() > 0)
}

/// Uses the author found in the file name, trimmed, when nobody set the
/// author and it is not blank; an author that was set is kept.
pub fn apply_filename_author(book: &mut Book, source: AuthorSource, filename_author: Option<String>)
    ensures
        filename_author_applies(source, filename_author) ==> final(book).author@ == trim(filename_author->0@),
        !filename_author_applies(source, filename_author) ==> final(book).author == old(book).author,
        *final(book) == (Book { author: final(book).author, ..*old(book) }),
{
    if source != AuthorSource::Default {
        return;
    }
    if let Some(author) = filename_author {
        let trimmed = trim_chars(&chars_of(author.as_str()));
        if trimmed.len() > 0 {
            book.author = string_of(&trimmed);
        }
    }
}

/// Validates `book` with the default limits; `probe` answers the questions
/// about files and numbers.
pub fn validate_config<F: Fn(&Query) -> bool>(book: &Book, probe: F) -> (r: Result<(), KafError>)
    requires
        forall|q: &Query| probe.requires((q,)),
    ensures
        validation_outcome((5usize, 100usize, 10usize), probe, *book, r),
        always_yes(probe) ==> (r is Ok <==> passes_when_found((5usize, 100usize, 10usize), *book)),
        book.filename@.len() == 0 ==> (r matches Err(KafError::ParseError(m)) && m@ == "缺少必需字段: "@ + "filename"@),
        r is Ok ==> book.filename@.len() > 0 && answered(probe, Query::IsFile(book.filename), true),
        r is Ok ==> ConfigValidator::new_limits_range_ok(*book),
{
    let validator = ConfigValidator::new();
    validator.validate(book, probe)
}

/// The configuration file for an input file, as `ConfigLoader::find_config`
/// finds it.
pub fn find_config_file<F: Fn(&str) -> bool>(filename: &Option<String>, is_file: F) -> (r: Option<String>)
    requires
        forall|s: &str| is_file.requires((s,)),
    ensures
        ({
            let c = config_candidates(opt_seq(*filename));
            match r {
                Some(p) => exists|k: int| 0 <= k < c.len() && c[k] == p@ && probed(is_file, p@, true)
                    && forall|j: int| 0 <= j < k ==> probed(is_file, #[trigger] c[j], false),
                None => forall|j: int| 0 <= j < c.len() ==> probed(is_file, #[trigger] c[j], false),
            }
        }),
{
    ConfigLoader::find_config(filename, is_file)
}

} // verus!
