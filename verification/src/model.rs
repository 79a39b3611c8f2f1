//! Data model: the book configuration, sections and the enumerations of
//! the configuration.

use vstd::prelude::*;

verus! {

/// Default chapter title pattern.
pub const DEFAULT_CHAPTER_MATCH: &'static str = r"^第[0-9一二三四五六七八九十零〇百千万两 ]+[章回节集幕卷部]|^[Ss]ection.{1,20}$|^[Cc]hapter.{1,20}$|^[Pp]age.{1,20}$|^\d{1,4}$|^\d+、$|^引子$|^楔子$|^章节目录|^章节|^序章|^最终章 \w{1,20}$|^番外\d?\w{0,20}|^完本感言.{0,4}$";

/// Default volume title pattern.
pub const DEFAULT_VOLUME_MATCH: &'static str = r"^第[0-9一二三四五六七八九十零〇百千万两 ]+[卷部]";

/// Default exclusion pattern: lines that look like titles but are not.
pub const DEFAULT_EXCLUSION: &'static str = r"^第[0-9一二三四五六七八九十零〇百千两 ]+(部门|部队|部属|部分|部件|部落|部.*：$)";

/// Book configuration. Paths are held as strings.
#[derive(Debug, Clone)]
pub struct Book {
    /// Input file path.
    pub filename: String,
    /// Title (taken from the file name when absent).
    pub bookname: Option<String>,
    /// Author.
    pub author: String,
    /// Chapter title pattern.
    pub chapter_match: Option<String>,
    /// Volume title pattern.
    pub volume_match: Option<String>,
    /// Exclusion pattern.
    pub exclusion_pattern: Option<String>,
    /// Longest title, in characters.
    pub max_title_length: usize,
    /// Paragraph indent, in characters.
    pub indent: usize,
    /// Title alignment.
    pub align: TextAlignment,
    /// Name of a section without a title.
    pub unknown_title: String,
    /// Cover image.
    pub cover: Option<CoverSource>,
    /// Embedded font path.
    pub font: Option<String>,
    /// Paragraph spacing.
    pub paragraph_spacing: String,
    /// Line height.
    pub line_height: Option<String>,
    /// Add usage tips.
    pub add_tips: bool,
    /// Book language.
    pub lang: Language,
    /// Output format.
    pub format: OutputFormat,
    /// Output file name, without extension.
    pub output_name: Option<String>,
    /// Render chapter numbers apart from titles.
    pub separate_chapter_number: bool,
    /// Custom CSS file.
    pub custom_css: Option<String>,
    /// Inline CSS.
    pub extended_css: Option<String>,
    /// CSS variables, name and value.
    pub css_variables: Vec<(String, String)>,
    /// Chapter header image.
    pub chapter_header: ChapterHeader,
    /// Theme preset.
    pub theme: ThemePreset,
    /// Input format.
    pub input_format: InputFormat,
    /// Lines looked ahead when reading a file in pieces.
    pub lookahead_lines: usize,
}

/// Where the cover image comes from.
#[derive(Debug, Clone)]
pub enum CoverSource {
    /// A local image file.
    Local { path: String },
    /// Image data in memory.
    Data {
        /// Image bytes.
        data: Vec<u8>,
        /// MIME type, such as `image/jpeg`.
        format: String,
    },
}

/// Chapter header image configuration.
#[derive(Debug, Clone)]
pub struct ChapterHeader {
    /// Header image path.
    pub image: Option<String>,
    /// Folder of header images.
    pub image_folder: Option<String>,
    /// Image position.
    pub position: ImagePosition,
    /// Image height.
    pub height: Option<String>,
    /// Image width.
    pub width: Option<String>,
    /// How images are chosen.
    pub mode: HeaderMode,
}

/// A section of the book.
#[derive(Debug)]
pub struct Section {
    /// Title.
    pub title: String,
    /// Content (HTML).
    pub content: String,
    /// Subsections (of a volume).
    pub subsections: Vec<Section>,
}

/// Text alignment.
#[derive(Debug, Clone, Copy, PartialEq, Eq, Structural)]
pub enum TextAlignment {
    Left,
    Center,
    Right,
}

/// Theme presets.
#[derive(Debug, Clone, Copy, PartialEq, Eq, Structural)]
pub enum ThemePreset {
    /// Light (default).
    Light,
    /// Dark.
    Dark,
    /// Sepia, easy on the eyes.
    Sepia,
    /// High contrast.
    HighContrast,
    /// Modern.
    Modern,
    /// Traditional.
    Traditional,
}

/// Book language.
#[derive(Debug, Clone, Copy, PartialEq, Eq, Structural)]
pub enum Language {
    Zh,
    En,
    De,
    Fr,
    It,
    Es,
    Ja,
    Pt,
    Ru,
    Nl,
}

/// Output format.
#[derive(Debug, Clone, Copy, PartialEq, Eq, Structural)]
pub enum OutputFormat {
    All,
    Epub,
}

/// Input format.
#[derive(Debug, Clone, Copy, PartialEq, Eq, Structural)]
pub enum InputFormat {
    /// Detect (default).
    Auto,
    /// Plain text.
    Txt,
    /// Markdown.
    Markdown,
}

/// Image position.
#[derive(Debug, Clone, Copy, PartialEq, Eq, Structural)]
pub enum ImagePosition {
    Center,
    Left,
    Right,
}

/// How header images are chosen.
#[derive(Debug, Clone, Copy, PartialEq, Eq, Structural)]
pub enum HeaderMode {
    /// One image for every chapter.
    Single,
    /// Images matched by chapter from a folder.
    Folder,
}

impl Default for TextAlignment {
    fn default() -> (r: Self)
        ensures
            r == TextAlignment::Center,
    {
        TextAlignment::Center
    }
}

impl Default for ThemePreset {
    fn default() -> (r: Self)
        ensures
            r == ThemePreset::Light,
    {
        ThemePreset::Light
    }
}

impl Default for Language {
    fn default() -> (r: Self)
        ensures
            r == Language::Zh,
    {
        Language::Zh
    }
}

impl Default for OutputFormat {
    fn default() -> (r: Self)
        ensures
            r == OutputFormat::All,
    {
        OutputFormat::All
    }
}

impl Default for InputFormat {
    fn default() -> (r: Self)
        ensures
            r == InputFormat::Auto,
    {
        InputFormat::Auto
    }
}

impl Default for ImagePosition {
    fn default() -> (r: Self)
        ensures
            r == ImagePosition::Center,
    {
        ImagePosition::Center
    }
}

impl Default for HeaderMode {
    fn default() -> (r: Self)
        ensures
            r == HeaderMode::Single,
    {
        HeaderMode::Single
    }
}

impl Default for ChapterHeader {
    fn default() -> (r: Self)
        ensures
            r.image is None,
            r.image_folder is None,
            r.position == ImagePosition::Center,
            r.height is None,
            r.width is None,
            r.mode == HeaderMode::Single,
    {
        ChapterHeader {
            image: None,
            image_folder: None,
            position: ImagePosition::Center,
            height: None,
            width: None,
            mode: HeaderMode::Single,
        }
    }
}

impl Default for Section {
    fn default() -> (r: Self)
        ensures
            r.title@ == Seq::<char>::empty(),
            r.content@ == Seq::<char>::empty(),
            r.subsections@.len() == 0,
    {
        Section { title: String::new(), content: String::new(), subsections: Vec::new() }
    }
}

impl ThemePreset {
    /// Every preset, in declaration order.
    pub fn all() -> (r: Vec<Self>)
        ensures
            r@ == seq![
                ThemePreset::Light,
                ThemePreset::Dark,
                ThemePreset::Sepia,
                ThemePreset::HighContrast,
                ThemePreset::Modern,
                ThemePreset::Traditional,
            ],
    {
        let mut v = Vec::new();
        v.push(ThemePreset::Light);
        v.push(ThemePreset::Dark);
        v.push(ThemePreset::Sepia);
        v.push(ThemePreset::HighContrast);
        v.push(ThemePreset::Modern);
        v.push(ThemePreset::Traditional);
        v
    }

    /// The display name of the preset.
    pub open spec fn spec_name(self) -> Seq<char> {
        match self {
            ThemePreset::Light => "浅色主题"@,
            ThemePreset::Dark => "深色主题"@,
            ThemePreset::Sepia => "护眼模式"@,
            ThemePreset::HighContrast => "高对比度"@,
            ThemePreset::Modern => "现代简约"@,
            ThemePreset::Traditional => "传统文学"@,
        }
    }

    /// Law: every preset has a name of its own.
    pub proof fn lemma_names_distinct(a: ThemePreset, b: ThemePreset)
        ensures
            a != b ==> a.spec_name() != b.spec_name(),
    {
        reveal_strlit("浅色主题");
        reveal_strlit("深色主题");
        reveal_strlit("护眼模式");
        reveal_strlit("高对比度");
        reveal_strlit("现代简约");
        reveal_strlit("传统文学");
        if a != b {
            assert(a.spec_name()[0] != b.spec_name()[0]);
        }
    }

    /// The display name of the preset.
    pub fn name(&self) -> (r: &'static str)
        ensures
            r@ == self.spec_name(),
    {
        match self {
            ThemePreset::Light => "浅色主题",
            ThemePreset::Dark => "深色主题",
            ThemePreset::Sepia => "护眼模式",
            ThemePreset::HighContrast => "高对比度",
            ThemePreset::Modern => "现代简约",
            ThemePreset::Traditional => "传统文学",
        }
    }
}

/// Default author.
fn default_author() -> (r: String)
    ensures
        r@ == "YSTYLE"@,
{
    "YSTYLE".to_owned()
}

/// Default longest title.
fn default_max_title_length() -> (r: usize)
    ensures
        r == 35,
{
    35
}

/// Default indent.
fn default_indent() -> (r: usize)
    ensures
        r == 2,
{
    2
}

/// Default name of a section without a title.
fn default_unknown_title() -> (r: String)
    ensures
        r@ == "未知章节"@,
{
    "未知章节".to_owned()
}

/// Default paragraph spacing.
fn default_paragraph_spacing() -> (r: String)
    ensures
        r@ == "0.5em"@,
{
    "0.5em".to_owned()
}

/// Two books hold the same settings.
pub open spec fn same_book(a: Book, b: Book) -> bool {
    &&& a == Book { css_variables: a.css_variables, cover: a.cover, ..b }
    &&& a.css_variables@ == b.css_variables@
    &&& match (a.cover, b.cover) {
        (None, None) => true,
        (Some(CoverSource::Local { path: p }), Some(CoverSource::Local { path: q })) => p == q,
        (Some(CoverSource::Data { data: d, format: f }), Some(CoverSource::Data { data: e, format: g })) => d@ == e@
            && f == g,
        _ => false,
    }
}

/// A copy of optional text.
fn copy_text(o: &Option<String>) -> (r: Option<String>)
    ensures
        r == *o,
{
    match o {
        Some(s) => Some(s.clone()),
        None => None,
    }
}

impl Book {
    /// A copy of the book.
    pub fn duplicate(&self) -> (r: Book)
        ensures
            same_book(r, *self),
    {
        let mut vars: Vec<(String, String)> = Vec::new();
        let mut i: usize = 0;
        while i < self.css_variables.len()
            invariant
                i <= self.css_variables@.len(),
                vars@ == self.css_variables@.take(i as int),
            decreases self.css_variables.len() - i,
        {
            let (a, b) = &self.css_variables[i];
            vars.push((a.clone(), b.clone()));
            i = i + 1;
            assert(vars@ =~= self.css_variables@.take(i as int));
        }
        assert(self.css_variables@.take(self.css_variables@.len() as int) == self.css_variables@);
        let cover = match &self.cover {
            None => None,
            Some(CoverSource::Local { path }) => Some(CoverSource::Local { path: path.clone() }),
            Some(CoverSource::Data { data, format }) => {
                let mut d: Vec<u8> = Vec::new();
                let mut j: usize = 0;
                while j < data.len()
                    invariant
                        j <= data@.len(),
                        d@ == data@.take(j as int),
                    decreases data.len() - j,
                {
                    d.push(data[j]);
                    j = j + 1;
                    assert(d@ =~= data@.take(j as int));
                }
                assert(data@.take(data@.len() as int) == data@);
                Some(CoverSource::Data { data: d, format: format.clone() })
            },
        };
        Book {
            filename: self.filename.clone(),
            bookname: copy_text(&self.bookname),
            author: self.author.clone(),
            chapter_match: copy_text(&self.chapter_match),
            volume_match: copy_text(&self.volume_match),
            exclusion_pattern: copy_text(&self.exclusion_pattern),
            max_title_length: self.max_title_length,
            indent: self.indent,
            align: self.align,
            unknown_title: self.unknown_title.clone(),
            cover,
            font: copy_text(&self.font),
            paragraph_spacing: self.paragraph_spacing.clone(),
            line_height: copy_text(&self.line_height),
            add_tips: self.add_tips,
            lang: self.lang,
            format: self.format,
            output_name: copy_text(&self.output_name),
            separate_chapter_number: self.separate_chapter_number,
            custom_css: copy_text(&self.custom_css),
            extended_css: copy_text(&self.extended_css),
            css_variables: vars,
            chapter_header: ChapterHeader {
                image: copy_text(&self.chapter_header.image),
                image_folder: copy_text(&self.chapter_header.image_folder),
                position: self.chapter_header.position,
                height: copy_text(&self.chapter_header.height),
                width: copy_text(&self.chapter_header.width),
                mode: self.chapter_header.mode,
            },
            theme: self.theme,
            input_format: self.input_format,
            lookahead_lines: self.lookahead_lines,
        }
    }
}

/// The settings of `Book::default`.
pub open spec fn is_default_book(b: Book) -> bool {
    &&& b.filename@ == Seq::<char>::empty()
    &&& b.bookname is None
    &&& b.author@ == "YSTYLE"@
    &&& b.chapter_match is None
    &&& b.volume_match is None
    &&& b.exclusion_pattern is None
    &&& b.max_title_length == 35
    &&& b.indent == 2
    &&& b.align == TextAlignment::Center
    &&& b.unknown_title@ == "未知章节"@
    &&& b.cover is None
    &&& b.font is None
    &&& b.paragraph_spacing@ == "0.5em"@
    &&& b.line_height is None
    &&& !b.add_tips
    &&& b.lang == Language::Zh
    &&& b.format == OutputFormat::All
    &&& b.output_name is None
    &&& !b.separate_chapter_number
    &&& b.custom_css is None
    &&& b.extended_css is None
    &&& b.css_variables@.len() == 0
    &&& b.chapter_header.image is None
    &&& b.chapter_header.image_folder is None
    &&& b.chapter_header.position == ImagePosition::Center
    &&& b.chapter_header.height is None
    &&& b.chapter_header.width is None
    &&& b.chapter_header.mode == HeaderMode::Single
    &&& b.theme == ThemePreset::Light
    &&& b.input_format == InputFormat::Auto
    &&& b.lookahead_lines == 10
}

impl Default for Book {
    fn default() -> (r: Self)
        ensures
            is_default_book(r),
    {
        Book {
            filename: String::new(),
            bookname: None,
            author: default_author(),
            chapter_match: None,
            volume_match: None,
            exclusion_pattern: None,
            max_title_length: default_max_title_length(),
            indent: default_indent(),
            align: TextAlignment::default(),
            unknown_title: default_unknown_title(),
            cover: None,
            font: None,
            paragraph_spacing: default_paragraph_spacing(),
            line_height: None,
            add_tips: false,
            lang: Language::default(),
            format: OutputFormat::default(),
            output_name: None,
            separate_chapter_number: false,
            custom_css: None,
            extended_css: None,
            css_variables: Vec::new(),
            chapter_header: ChapterHeader::default(),
            theme: ThemePreset::default(),
            input_format: InputFormat::default(),
            lookahead_lines: 10,
        }
    }
}


impl Language {
    /// The language code of the book's metadata.
    pub open spec fn spec_code(self) -> Seq<char> {
        match self {
            Language::Zh => "zh"@,
            Language::En => "en"@,
            Language::De => "de"@,
            Language::Fr => "fr"@,
            Language::It => "it"@,
            Language::Es => "es"@,
            Language::Ja => "ja"@,
            Language::Pt => "pt"@,
            Language::Ru => "ru"@,
            Language::Nl => "nl"@,
        }
    }

    /// The language code of the book's metadata.
    pub fn code(&self) -> (r: &'static str)
        ensures
            r@ == self.spec_code(),
    {
        match self {
            Language::Zh => "zh",
            Language::En => "en",
            Language::De => "de",
            Language::Fr => "fr",
            Language::It => "it",
            Language::Es => "es",
            Language::Ja => "ja",
            Language::Pt => "pt",
            Language::Ru => "ru",
            Language::Nl => "nl",
        }
    }
}

} // verus!
