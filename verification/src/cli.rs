//! Command-line arguments as plain values, and the validation of the
//! numeric options.

use vstd::prelude::*;
use crate::text::{chars_eq_str, chars_of, parse_usize, usize_value};

verus! {

/// The command-line arguments. `explicit` names the tracked options that
/// were given on the command line rather than taken from their defaults.
#[derive(Debug, Clone)]
pub struct Cli {
    pub filename: Option<String>,
    pub output_name: Option<String>,
    pub bookname: Option<String>,
    pub author: String,
    pub chapter_match: Option<String>,
    pub volume_match: Option<String>,
    pub exclude: Option<String>,
    pub max_title_length: usize,
    pub indent: usize,
    pub align: String,
    pub cover: Option<String>,
    pub format: String,
    pub batch: Option<String>,
    pub example_config: bool,
    pub config: Option<String>,
    pub lang: String,
    pub separate_chapter_number: bool,
    pub custom_css: Option<String>,
    pub extended_css: Option<String>,
    pub font: Option<String>,
    pub line_height: Option<String>,
    pub paragraph_spacing: Option<String>,
    pub theme: String,
    pub output_dir: Option<String>,
    pub continue_on_error: bool,
    pub report: Option<String>,
    pub dry_run: bool,
    pub max_errors: usize,
    pub show_chapters: bool,
    pub input_format: String,
    pub concurrency: u16,
    pub explicit: Vec<String>,
}

/// The views of some strings.
pub open spec fn string_seqs(v: Seq<String>) -> Seq<Seq<char>> {
    v.map_values(|s: String| s@)
}

impl Cli {
    /// The option `name` was given on the command line.
    pub open spec fn explicitly(&self, name: Seq<char>) -> bool {
        string_seqs(self.explicit@).contains(name)
    }

    /// Whether the option `name` was given on the command line.
    pub fn is_explicit(&self, name: &str) -> (r: bool)
        ensures
            r == self.explicitly(name@),
    {
        let mut i: usize = 0;
        while i < self.explicit.len()
            invariant
                i <= self.explicit@.len(),
                forall|k: int| 0 <= k < i ==> self.explicit@[k]@ != name@,
            decreases self.explicit.len() - i,
        {
            if chars_eq_str(&chars_of(self.explicit[i].as_str()), name) {
                assert(string_seqs(self.explicit@)[i as int] == name@);
                return true;
            }
            i = i + 1;
        }
        assert(!string_seqs(self.explicit@).contains(name@)) by {
            if string_seqs(self.explicit@).contains(name@) {
                let k = choose|k: int| 0 <= k < string_seqs(self.explicit@).len()
                    && string_seqs(self.explicit@)[k] == name@;
                assert(self.explicit@[k]@ == name@);
            }
        }
        false
    }
}

/// A copy of an optional string.
fn copy_opt(o: &Option<String>) -> (r: Option<String>)
    ensures
        r == *o,
{
    match o {
        Some(s) => Some(s.clone()),
        None => None,
    }
}

impl Cli {
    /// The same arguments with `path` as the input file and no batch
    /// folder.
    pub fn for_input(&self, path: &str) -> (r: Cli)
        ensures
            r.filename matches Some(f) && f@ == path@,
            r.batch is None,
            r == (Cli { filename: r.filename, batch: None, explicit: r.explicit, ..*self }),
            string_seqs(r.explicit@) == string_seqs(self.explicit@),
    {
        let mut explicit: Vec<String> = Vec::new();
        let mut i: usize = 0;
        while i < self.explicit.len()
            invariant
                i <= self.explicit@.len(),
                explicit@ == self.explicit@.take(i as int),
            decreases self.explicit.len() - i,
        {
            explicit.push(self.explicit[i].clone());
            i = i + 1;
            assert(explicit@ =~= self.explicit@.take(i as int));
        }
        assert(self.explicit@.take(self.explicit@.len() as int) == self.explicit@);
        Cli {
            filename: Some(path.to_string()),
            output_name: copy_opt(&self.output_name),
            bookname: copy_opt(&self.bookname),
            author: self.author.clone(),
            chapter_match: copy_opt(&self.chapter_match),
            volume_match: copy_opt(&self.volume_match),
            exclude: copy_opt(&self.exclude),
            max_title_length: self.max_title_length,
            indent: self.indent,
            align: self.align.clone(),
            cover: copy_opt(&self.cover),
            format: self.format.clone(),
            batch: None,
            example_config: self.example_config,
            config: copy_opt(&self.config),
            lang: self.lang.clone(),
            separate_chapter_number: self.separate_chapter_number,
            custom_css: copy_opt(&self.custom_css),
            extended_css: copy_opt(&self.extended_css),
            font: copy_opt(&self.font),
            line_height: copy_opt(&self.line_height),
            paragraph_spacing: copy_opt(&self.paragraph_spacing),
            theme: self.theme.clone(),
            output_dir: copy_opt(&self.output_dir),
            continue_on_error: self.continue_on_error,
            report: copy_opt(&self.report),
            dry_run: self.dry_run,
            max_errors: self.max_errors,
            show_chapters: self.show_chapters,
            input_format: self.input_format.clone(),
            concurrency: self.concurrency,
            explicit,
        }
    }
}

impl Default for Cli {
    /// The arguments when none is given: the defaults of every option.
    fn default() -> (r: Self)
        ensures
            r.filename is None && r.output_name is None && r.bookname is None,
            r.author@ == "YSTYLE"@,
            r.chapter_match is None && r.volume_match is None && r.exclude is None,
            r.max_title_length == 35 && r.indent == 2,
            r.align@ == "center"@ && r.format@ == "all"@ && r.lang@ == "zh"@ && r.theme@ == "light"@,
            r.input_format@ == "auto"@,
            r.cover is None && r.batch is None && r.config is None,
            !r.example_config && !r.separate_chapter_number && !r.continue_on_error && !r.dry_run
                && !r.show_chapters,
            r.custom_css is None && r.extended_css is None && r.font is None,
            r.line_height is None && r.paragraph_spacing is None,
            r.output_dir is None && r.report is None,
            r.max_errors == 0 && r.concurrency == 4,
            r.explicit@.len() == 0,
    {
        Cli {
            filename: None,
            output_name: None,
            bookname: None,
            author: "YSTYLE".to_string(),
            chapter_match: None,
            volume_match: None,
            exclude: None,
            max_title_length: 35,
            indent: 2,
            align: "center".to_string(),
            cover: None,
            format: "all".to_string(),
            batch: None,
            example_config: false,
            config: None,
            lang: "zh".to_string(),
            separate_chapter_number: false,
            custom_css: None,
            extended_css: None,
            font: None,
            line_height: None,
            paragraph_spacing: None,
            theme: "light".to_string(),
            output_dir: None,
            continue_on_error: false,
            report: None,
            dry_run: false,
            max_errors: 0,
            show_chapters: false,
            input_format: "auto".to_string(),
            concurrency: 4,
            explicit: Vec::new(),
        }
    }
}

/// The options whose explicit use is tracked, so that a configuration
/// file can override their defaults but not an explicit value.
pub fn tracked_options() -> (r: Vec<&'static str>)
    ensures
        r@.len() == 9,
        r@[0]@ == "author"@ && r@[1]@ == "max_title_length"@ && r@[2]@ == "indent"@,
        r@[3]@ == "align"@ && r@[4]@ == "format"@ && r@[5]@ == "lang"@,
        r@[6]@ == "separate_chapter_number"@ && r@[7]@ == "theme"@ && r@[8]@ == "input_format"@,
{
    let mut v: Vec<&'static str> = Vec::new();
    v.push("author");
    v.push("max_title_length");
    v.push("indent");
    v.push("align");
    v.push("format");
    v.push("lang");
    v.push("separate_chapter_number");
    v.push("theme");
    v.push("input_format");
    v
}

/// The longest title given on the command line: an integer from 5 to 100.
pub fn parse_title_length(value: &str) -> (r: Result<usize, String>)
    ensures
        match usize_value(value@) {
            None => r matches Err(m) && m@ == "标题最大字数必须是整数"@,
            Some(n) => if 5 <= n <= 100 {
                r == Ok::<usize, String>(n as usize)
            } else {
                r matches Err(m) && m@ == "标题最大字数必须在 5 到 100 之间"@
            },
        },
{
    let n = match parse_usize(&chars_of(value)) {
        Some(n) => n,
        None => return Err("标题最大字数必须是整数".to_string()),
    };
    if 5 <= n && n <= 100 {
        Ok(n)
    } else {
        Err("标题最大字数必须在 5 到 100 之间".to_string())
    }
}

/// The paragraph indent given on the command line: an integer up to 10.
pub fn parse_indent(value: &str) -> (r: Result<usize, String>)
    ensures
        match usize_value(value@) {
            None => r matches Err(m) && m@ == "段落缩进必须是整数"@,
            Some(n) => if n <= 10 {
                r == Ok::<usize, String>(n as usize)
            } else {
                r matches Err(m) && m@ == "段落缩进必须在 0 到 10 之间"@
            },
        },
{
    let n = match parse_usize(&chars_of(value)) {
        Some(n) => n,
        None => return Err("段落缩进必须是整数".to_string()),
    };
    if n <= 10 {
        Ok(n)
    } else {
        Err("段落缩进必须在 0 到 10 之间".to_string())
    }
}

} // verus!
