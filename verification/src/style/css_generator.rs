//! Style sheets that do not depend on a theme.

use vstd::prelude::*;
use crate::model::{Book, TextAlignment};
use crate::style::theme::{css_variables_text, Theme};
use crate::text::{chars_of, dec, decimal, extend_chars, push_str, string_of};

verus! {

/// The base rules of every style sheet.
pub const BASE_STYLES: &'static str = r#"/* 基础样式 */
* {
    margin: 0;
    padding: 0;
    box-sizing: border-box;
}

body {
    font-family: var(--body-font);
    font-size: var(--base-size);
    line-height: var(--line-height);
    color: var(--text-color);
    background-color: var(--bg-color);
    padding: var(--page-padding);
    text-align: justify;
    word-wrap: break-word;
    overflow-wrap: break-word;
}

/* 链接样式 */
a {
    color: var(--accent-color);
    text-decoration: none;
}

a:hover {
    text-decoration: underline;
}

/* 图片样式 */
img {
    max-width: 100%;
    height: auto;
    display: block;
    margin: 1em auto;
}
"#;

/// The minimal style sheet up to the paragraph indent.
pub const MINIMAL_HEAD: &'static str = r#"body {
    font-family: system-ui, -apple-system, sans-serif;
    font-size: 18px;
    line-height: 1.8;
    color: #333;
    background: #fff;
    padding: 2rem;
    text-align: justify;
}

h1, h2, h3 {
    text-align: center;
    margin: 1.5em 0 1em;
}

p {
    text-indent: "#;

/// The minimal style sheet after the paragraph indent.
pub const MINIMAL_TAIL: &'static str = r#"em;
    margin-bottom: 1em;
}

img {
    max-width: 100%;
}"#;

/// The chapter rules up to the alignment of headings.
pub const CHAPTER_STYLES_HEAD: &'static str = r#"/* 章节样式 */
.chapter {
    margin-bottom: var(--chapter-margin);
}

h1, h2, h3, h4, h5, h6 {
    font-family: var(--heading-font);
    font-weight: var(--heading-weight);
    color: var(--chapter-text);
    margin-top: 1.5em;
    margin-bottom: 1em;
    line-height: 1.3;
    text-align: "#;

/// The chapter rules after the alignment of headings.
pub const CHAPTER_STYLES_TAIL: &'static str = r#";
    page-break-after: avoid;
}

h1 {
    font-size: 1.8em;
    background-color: var(--chapter-bg);
    padding: 0.8em;
    border-radius: 4px;
    margin-bottom: 1.5em;
}

h2 {
    font-size: 1.5em;
    border-bottom: 1px solid var(--border-color);
    padding-bottom: 0.3em;
}

h3, h3.chapter-title {
    font-size: 1.3em;
}

h4 {
    font-size: 1.1em;
}

h5, h6 {
    font-size: 1em;
}
"#;

/// The paragraph rules.
pub const PARAGRAPH_STYLES: &'static str = r#"/* 段落样式 */
p {
    margin-bottom: var(--paragraph-spacing);
    text-indent: var(--paragraph-indent);
    orphans: 2;
    widows: 2;
}

p.no-indent {
    text-indent: 0;
}

/* 首字下沉（可选） */
.drop-cap::first-letter {
    float: left;
    font-size: 3em;
    line-height: 0.8;
    padding-right: 0.1em;
    font-weight: bold;
    color: var(--accent-color);
}
"#;

/// The rules of quotes, code, tables, lists, marks, the cover, the table
/// of contents and page breaks.
pub const SPECIAL_STYLES: &'static str = r#"/* 特殊元素样式 */

/* 引用块 */
blockquote {
    margin: 1.5em 2em;
    padding: 0.5em 1em;
    border-left: 3px solid var(--accent-color);
    background-color: var(--chapter-bg);
    color: var(--text-secondary);
    font-style: italic;
}

/* 代码块 */
pre, code {
    font-family: 'Consolas', 'Monaco', 'Courier New', monospace;
    background-color: var(--chapter-bg);
    border-radius: 3px;
}

code {
    padding: 0.2em 0.4em;
    font-size: 0.9em;
}

pre {
    padding: 1em;
    overflow-x: auto;
    margin: 1em 0;
    line-height: 1.5;
}

pre code {
    padding: 0;
    background: none;
}

/* 表格 */
table {
    width: 100%;
    border-collapse: collapse;
    margin: 1em 0;
}

th, td {
    padding: 0.5em;
    border: 1px solid var(--border-color);
    text-align: left;
}

th {
    background-color: var(--chapter-bg);
    font-weight: bold;
}

/* 列表 */
ul, ol {
    margin: 1em 0;
    padding-left: 2em;
}

li {
    margin-bottom: 0.3em;
}

/* 强调 */
em, i {
    font-style: italic;
}

strong, b {
    font-weight: bold;
}

mark {
    background-color: var(--highlight-color);
    padding: 0.1em 0.2em;
}

/* 分隔线 */
hr {
    border: none;
    border-top: 1px solid var(--border-color);
    margin: 2em 0;
}

/* 注释/脚注 */
.footnote {
    font-size: 0.85em;
    color: var(--text-secondary);
    vertical-align: super;
}

/* 封面 */
.cover {
    text-align: center;
    padding: 3em 0;
}

.cover img {
    max-width: 80%;
    box-shadow: 0 4px 8px rgba(0,0,0,0.1);
}

/* 目录 */
.toc {
    margin: 2em 0;
}

.toc ul {
    list-style: none;
    padding: 0;
}

.toc li {
    margin: 0.5em 0;
    padding-left: 1em;
}

.toc a {
    color: var(--text-color);
    text-decoration: none;
}

.toc a:hover {
    color: var(--accent-color);
}

/* 分页控制 */
.page-break {
    page-break-before: always;
}

.no-break {
    page-break-inside: avoid;
}

/* 竖排支持（传统中文） */
.vertical {
    writing-mode: vertical-rl;
    text-orientation: mixed;
}

/*  night mode 适配（保留，用于阅读器覆盖） */
@media (prefers-color-scheme: dark) {
    /* 阅读器可能使用此媒体查询 */
}
"#;

/// The CSS name of an alignment.
pub open spec fn align_name(a: TextAlignment) -> Seq<char> {
    match a {
        TextAlignment::Left => "left"@,
        TextAlignment::Center => "center"@,
        TextAlignment::Right => "right"@,
    }
}

/// The style sheet of `book` in `theme`: the theme's variables, the base,
/// chapter (headings aligned as the book says), paragraph and special
/// rules.
pub open spec fn style_sheet(book: Book, theme: Theme) -> Seq<char> {
    css_variables_text(theme) + "\n\n"@ + BASE_STYLES@ + CHAPTER_STYLES_HEAD@ + align_name(book.align)
        + CHAPTER_STYLES_TAIL@ + PARAGRAPH_STYLES@ + SPECIAL_STYLES@
}

/// `s` is `mid` between `pre` and `post`.
pub open spec fn surrounds(s: Seq<char>, pre: Seq<char>, mid: Seq<char>, post: Seq<char>) -> bool {
    s == pre + mid + post
}

/// Law: the headings are aligned as the book says. The style sheet holds
/// the heading rule (`h1, h2, h3, h4, h5, h6 { ... text-align: `) followed
/// by `left` for a book aligned left, `center` for one centred and `right`
/// for one aligned right, then the rest of the rule.
pub proof fn lemma_headings_aligned_as_book(book: Book, theme: Theme)
    ensures
        book.align == TextAlignment::Left ==> exists|pre: Seq<char>, post: Seq<char>|
            #[trigger] surrounds(style_sheet(book, theme), pre, CHAPTER_STYLES_HEAD@ + "left"@ + CHAPTER_STYLES_TAIL@, post),
        book.align == TextAlignment::Center ==> exists|pre: Seq<char>, post: Seq<char>|
            #[trigger] surrounds(style_sheet(book, theme), pre, CHAPTER_STYLES_HEAD@ + "center"@ + CHAPTER_STYLES_TAIL@,
            post),
        book.align == TextAlignment::Right ==> exists|pre: Seq<char>, post: Seq<char>|
            #[trigger] surrounds(style_sheet(book, theme), pre, CHAPTER_STYLES_HEAD@ + "right"@ + CHAPTER_STYLES_TAIL@, post),
{
    let pre = css_variables_text(theme) + "\n\n"@ + BASE_STYLES@;
    let post = PARAGRAPH_STYLES@ + SPECIAL_STYLES@;
    let name = match book.align {
        TextAlignment::Left => "left"@,
        TextAlignment::Center => "center"@,
        TextAlignment::Right => "right"@,
    };
    assert(style_sheet(book, theme) =~= pre + (CHAPTER_STYLES_HEAD@ + name + CHAPTER_STYLES_TAIL@) + post);
    assert(surrounds(style_sheet(book, theme), pre, CHAPTER_STYLES_HEAD@ + name + CHAPTER_STYLES_TAIL@, post));
}

/// Colors of a theme.
#[derive(Debug, Clone)]
pub struct ColorScheme {
    pub background: String,
    pub text: String,
    pub text_secondary: String,
    pub accent: String,
    pub border: String,
    pub chapter_bg: String,
    pub chapter_text: String,
    pub highlight: String,
}

/// Spacing of a theme.
#[derive(Debug, Clone)]
pub struct Spacing {
    pub page_padding: String,
    pub chapter_margin: String,
    pub paragraph_indent: String,
    pub line_padding: String,
}

/// Writes style sheets.
pub struct CssGenerator;

impl CssGenerator {
    /// A generator.
    pub fn new() -> (r: Self) {
        CssGenerator
    }

    /// The base rules of every style sheet.
    pub fn generate_base_styles(&self) -> (r: String)
        ensures
            r@ == BASE_STYLES@,
    {
        BASE_STYLES.to_string()
    }

    /// The style sheet of `book` in `theme`.
    pub fn generate(&self, book: &Book, theme: &Theme) -> (r: String)
        ensures
            r@ == style_sheet(*book, *theme),
    {
        let mut css = theme.to_css_variables();
        push_str(&mut css, "\n\n");
        push_str(&mut css, BASE_STYLES);
        push_str(&mut css, CHAPTER_STYLES_HEAD);
        let align = match book.align {
            TextAlignment::Left => "left",
            TextAlignment::Center => "center",
            TextAlignment::Right => "right",
        };
        push_str(&mut css, align);
        push_str(&mut css, CHAPTER_STYLES_TAIL);
        push_str(&mut css, PARAGRAPH_STYLES);
        push_str(&mut css, SPECIAL_STYLES);
        css
    }

    /// A minimal style sheet: body, headings, paragraphs indented by the
    /// book's indent in `em`, and images.
    pub fn generate_minimal(&self, book: &Book) -> (r: String)
        ensures
            r@ == MINIMAL_HEAD@ + dec(book.indent as nat) + MINIMAL_TAIL@,
    {
        let mut out = chars_of(MINIMAL_HEAD);
        extend_chars(&mut out, &decimal(book.indent as u64));
        extend_chars(&mut out, &chars_of(MINIMAL_TAIL));
        string_of(&out)
    }
}

impl Default for CssGenerator {
    fn default() -> (r: Self) {
        CssGenerator
    }
}

} // verus!
