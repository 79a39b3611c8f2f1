//! The EPUB 3 documents of a book: chapter pages, the table of contents,
//! header images, fonts and CSS variable names.

use vstd::prelude::*;
use crate::error::KafError;
use crate::model::{Book, ImagePosition, Section};
use crate::text::{
    ascii_lower_seq, ascii_lowercase, chars_eq_str, chars_of, dec, decimal, extend_chars, has_prefix, occurs_at, push_chars,
    push_str, string_of, trim, trim_chars,
};
use crate::utils::encoding::{strip_bom, strip_bom_chars};
use crate::utils::file::{extension_of, path_extension};
use crate::utils::html::{escape_seq, push_escaped, remove_invalid_xml_chars_chars, xml_clean};
use crate::utils::regex::{compile, pattern_matches, regex_captures, regex_valid};

verus! {

/// A chapter title split into its number and the rest.
pub const CHAPTER_NUMBER_PATTERN: &'static str = r"^(第[0-9一二三四五六七八九十零〇百千万两 ]+[章回])(?:\s*(.+))?$";

/// CSS lengths allowed for header images.
pub const CSS_DIMENSION_PATTERN: &'static str = r"^\d+(?:\.\d+)?(?:px|em|rem|%|vh|vw)$";

/// The start of a chapter page, up to its title.
pub const PAGE_HEAD: &'static str = "<?xml version=\"1.0\" encoding=\"UTF-8\"?>\n<!DOCTYPE html>\n<html xmlns=\"http://www.w3.org/1999/xhtml\">\n<head>\n  <meta charset=\"utf-8\"/>\n  <title>";

/// Between the title of a chapter page and its body.
pub const PAGE_AFTER_TITLE: &'static str = "</title>\n  <link rel=\"stylesheet\" type=\"text/css\" href=\"stylesheet.css\"/>\n</head>\n<body>\n";

/// The start of the table of contents, up to its items.
pub const TOC_HEAD: &'static str = "<?xml version=\"1.0\" encoding=\"UTF-8\"?>\n<!DOCTYPE html>\n<html xmlns=\"http://www.w3.org/1999/xhtml\" xmlns:epub=\"http://www.idpf.org/2007/ops\">\n<head><meta charset=\"utf-8\"/><title>目录</title><link rel=\"stylesheet\" type=\"text/css\" href=\"stylesheet.css\"/></head>\n<body><nav epub:type=\"toc\" id=\"toc\"><h1>目录</h1><ol>\n";

/// The end of the table of contents.
pub const TOC_TAIL: &'static str = "    </ol></nav></body>\n</html>";

/// The XML escape of `s` without leading byte-order marks.
pub open spec fn esc(s: Seq<char>) -> Seq<char> {
    escape_seq(strip_bom(s))
}

/// The label of a section in navigation: its title, or the book's name for
/// untitled sections when the title is blank.
pub open spec fn nav_label_of(unknown: Seq<char>, title: Seq<char>) -> Seq<char> {
    if trim(title).len() == 0 { unknown } else { title }
}

/// The number and the rest of a title, when it starts with `第N章` or `第N回`.
pub open spec fn chapter_split(title: Seq<char>) -> Option<(Seq<char>, Seq<char>)> {
    if !regex_valid(CHAPTER_NUMBER_PATTERN@) {
        None
    } else {
        match regex_captures(CHAPTER_NUMBER_PATTERN@, title) {
            Some(g) if g.len() > 1 && g[1] is Some => Some((g[1]->0, if g.len() > 2 && g[2] is Some {
                g[2]->0
            } else {
                Seq::empty()
            })),
            _ => None,
        }
    }
}

/// The heading of a chapter page.
pub open spec fn heading_of(separate: bool, title: Seq<char>) -> Seq<char> {
    if separate && chapter_split(title) is Some {
        let (n, t) = chapter_split(title)->0;
        "<span class=\"chapter-number\">"@ + esc(n) + "</span><br/>"@ + esc(t)
    } else {
        esc(title)
    }
}

/// A chapter page.
pub open spec fn chapter_page(book: Book, title: Seq<char>, content: Seq<char>, header: Option<Seq<char>>)
    -> Seq<char> {
    PAGE_HEAD@ + esc(nav_label_of(book.unknown_title@, title)) + PAGE_AFTER_TITLE@
        + (match header { Some(h) => h + "\n"@, None => Seq::empty() })
        + "<h3 class=\"chapter-title\">"@ + heading_of(book.separate_chapter_number, title)
        + "</h3><div class=\"chapter-content\">"@ + xml_clean(content) + "</div>\n</body>\n</html>"@
}

/// `page` is `with` placed between `before` and `after`.
pub open spec fn placed_between(page: Seq<char>, before: Seq<char>, with: Seq<char>, after: Seq<char>) -> bool {
    page == before + with + after
}

/// Law: a header image goes on the chapter page, right before the chapter
/// heading. The page with the header markup `h` is the page without it,
/// with `h` and a newline inserted after the page's head and before the
/// `<h3 class="chapter-title">` heading; nothing else changes.
pub proof fn lemma_header_before_heading(book: Book, title: Seq<char>, content: Seq<char>, h: Seq<char>)
    ensures
        exists|before: Seq<char>, after: Seq<char>|
            #[trigger] placed_between(chapter_page(book, title, content, None), before, Seq::empty(), after)
                && placed_between(chapter_page(book, title, content, Some(h)), before, h + seq!['\n'], after)
                && has_prefix(before, PAGE_HEAD@) && has_prefix(after, "<h3 class=\"chapter-title\">"@),
{
    let before = PAGE_HEAD@ + esc(nav_label_of(book.unknown_title@, title)) + PAGE_AFTER_TITLE@;
    let after = "<h3 class=\"chapter-title\">"@ + heading_of(book.separate_chapter_number, title)
        + "</h3><div class=\"chapter-content\">"@ + xml_clean(content) + "</div>\n</body>\n</html>"@;
    reveal_strlit("\n");
    assert(chapter_page(book, title, content, None) =~= before + Seq::<char>::empty() + after);
    assert(chapter_page(book, title, content, Some(h)) =~= before + (h + seq!['\n']) + after);
    assert(before.take(PAGE_HEAD@.len() as int) =~= PAGE_HEAD@);
    assert(after.take("<h3 class=\"chapter-title\">"@.len() as int) =~= "<h3 class=\"chapter-title\">"@);
    assert(placed_between(chapter_page(book, title, content, None), before, Seq::empty(), after));
}

/// The table-of-contents items of the first `n` sections.
pub open spec fn toc_items(book: Book, titles: Seq<Seq<char>>) -> Seq<char>
    decreases titles.len(),
{
    if titles.len() == 0 {
        Seq::empty()
    } else {
        let k = (titles.len() - 1) as nat;
        toc_items(book, titles.drop_last()) + "      <li><a href=\"chapter_"@ + dec(k) + ".xhtml\">"@
            + esc(nav_label_of(book.unknown_title@, titles.last())) + "</a></li>\n"@
    }
}

/// The titles of sections.
pub open spec fn titles_of(s: Seq<Section>) -> Seq<Seq<char>> {
    s.map_values(|x: Section| x.title@)
}

/// A header-image length: `auto` (when allowed, any ASCII case), `0`, or
/// a number with a unit.
pub open spec fn dimension_ok(value: Seq<char>, allow_auto: bool) -> bool {
    let v = trim(value);
    (allow_auto && ascii_lower_seq(v) == "auto"@) || v == "0"@ || pattern_matches(CSS_DIMENSION_PATTERN@, v)
}

/// The resource path, MIME type and CSS format of an embedded font, by
/// the file's extension.
pub open spec fn font_kind(ext: Seq<char>) -> Option<(Seq<char>, Seq<char>, Seq<char>)> {
    if ext == "ttf"@ {
        Some(("fonts/custom-font.ttf"@, "font/ttf"@, "truetype"@))
    } else if ext == "otf"@ {
        Some(("fonts/custom-font.otf"@, "font/otf"@, "opentype"@))
    } else if ext == "woff"@ {
        Some(("fonts/custom-font.woff"@, "font/woff"@, "woff"@))
    } else if ext == "woff2"@ {
        Some(("fonts/custom-font.woff2"@, "font/woff2"@, "woff2"@))
    } else if ext == "ttc"@ {
        Some(("fonts/custom-font.ttc"@, "font/collection"@, "opentype"@))
    } else {
        None
    }
}

/// The lower-case extension of a path, empty when it has none.
pub open spec fn lower_extension(path: Seq<char>) -> Seq<char> {
    match path_extension(path) {
        Some(e) => ascii_lower_seq(e),
        None => Seq::empty(),
    }
}

/// The current name of a CSS variable that has an older alias.
pub open spec fn canonical_variable(name: Seq<char>) -> Seq<char> {
    if name == "background-color"@ {
        "bg-color"@
    } else if name == "link-color"@ || name == "primary-color"@ {
        "accent-color"@
    } else if name == "font-size"@ {
        "base-size"@
    } else {
        name
    }
}

/// The CSS class and margins of a header image position.
pub open spec fn position_css(p: ImagePosition) -> (Seq<char>, Seq<char>) {
    match p {
        ImagePosition::Left => ("left"@, "margin-left: 0; margin-right: auto"@),
        ImagePosition::Center => ("center"@, "margin-left: auto; margin-right: auto"@),
        ImagePosition::Right => ("right"@, "margin-left: auto; margin-right: 0"@),
    }
}

/// The style of a header image: the margins, then the height and width
/// when set, joined by `; `.
pub open spec fn header_style(book: Book) -> Seq<char> {
    position_css(book.chapter_header.position).1
        + (match book.chapter_header.height { Some(h) => "; height: "@ + h@, None => Seq::empty() })
        + (match book.chapter_header.width { Some(w) => "; width: "@ + w@, None => Seq::empty() })
}

/// The markup of a header image at `resource`.
pub open spec fn header_markup(book: Book, resource: Seq<char>) -> Seq<char> {
    "<div class=\"chapter-header "@ + position_css(book.chapter_header.position).0 + "\"><img src=\""@ + esc(resource)
        + "\" alt=\"chapter header\" style=\""@ + esc(header_style(book)) + ";\"/></div>"@
}

/// The first header-image length that is not allowed: the height (no
/// `auto`), then the width.
pub open spec fn header_dimension_error(book: Book) -> Option<Seq<char>> {
    if book.chapter_header.height matches Some(h) && !dimension_ok(h@, false) {
        Some(trim(book.chapter_header.height->0@))
    } else if book.chapter_header.width matches Some(w) && !dimension_ok(w@, true) {
        Some(trim(book.chapter_header.width->0@))
    } else {
        None
    }
}

/// Builds the documents of a book.
pub struct EpubConverter3 {
    book: Book,
}

impl EpubConverter3 {
    /// The book converted.
    pub closed spec fn book(&self) -> Book {
        self.book
    }

    /// A converter for `book`.
    pub fn new(book: Book) -> (r: Self)
        ensures
            r.book() == book,
    {
        EpubConverter3 { book }
    }

    /// The label of a section in navigation.
    pub fn nav_label<'a>(&'a self, title: &'a str) -> (r: &'a str)
        ensures
            r@ == nav_label_of(self.book().unknown_title@, title@),
    {
        if trim_chars(&chars_of(title)).len() == 0 {
            self.book.unknown_title.as_str()
        } else {
            title
        }
    }

    /// The number and the rest of a title starting with `第N章` or `第N回`.
    pub fn split_chapter_number(&self, title: &str) -> (r: Option<(String, String)>)
        ensures
            match chapter_split(title@) {
                Some((n, t)) => r matches Some((a, b)) && a@ == n && b@ == t,
                None => r is None,
            },
    {
        let re = match compile(CHAPTER_NUMBER_PATTERN) {
            Ok(c) => c,
            Err(_) => return None,
        };
        match re.captures(title) {
            Some(g) => {
                if g.len() > 1 {
                    match &g[1] {
                        Some(n) => {
                            let rest = if g.len() > 2 {
                                match &g[2] {
                                    Some(t) => t.clone(),
                                    None => String::new(),
                                }
                            } else {
                                String::new()
                            };
                            Some((n.clone(), rest))
                        },
                        None => None,
                    }
                } else {
                    None
                }
            },
            None => None,
        }
    }

    /// A chapter page: the title (its navigation label), the header image
    /// markup when given, the heading (number apart when the book asks),
    /// and the content without characters XML does not allow.
    pub fn generate_chapter_html(&self, section: &Section, index: usize, header_image: Option<String>) -> (r: String)
        ensures
            r@ == chapter_page(self.book(), section.title@, section.content@, match header_image {
                Some(h) => Some(h@),
                None => None,
            }),
    {
        let mut out: Vec<char> = chars_of(PAGE_HEAD);
        push_escaped(&mut out, &strip_bom_chars(&chars_of(self.nav_label(section.title.as_str()))));
        extend_chars(&mut out, &chars_of(PAGE_AFTER_TITLE));
        let ghost head = out@;
        if let Some(image) = &header_image {
            extend_chars(&mut out, &chars_of(image.as_str()));
            out.push('\n');
            proof { reveal_strlit("\n"); }
            assert(out@ == head + (image@ + "\n"@));
        } else {
            assert(out@ == head + Seq::<char>::empty());
        }
        let ghost with_header = out@;
        extend_chars(&mut out, &chars_of("<h3 class=\"chapter-title\">"));
        let ghost before_heading = out@;
        let split = if self.book.separate_chapter_number {
            self.split_chapter_number(section.title.as_str())
        } else {
            None
        };
        match split {
            Some((number, title)) => {
                extend_chars(&mut out, &chars_of("<span class=\"chapter-number\">"));
                push_escaped(&mut out, &strip_bom_chars(&chars_of(number.as_str())));
                extend_chars(&mut out, &chars_of("</span><br/>"));
                push_escaped(&mut out, &strip_bom_chars(&chars_of(title.as_str())));
                assert(out@ == before_heading + heading_of(self.book().separate_chapter_number, section.title@));
            },
            None => {
                push_escaped(&mut out, &strip_bom_chars(&chars_of(section.title.as_str())));
                assert(out@ == before_heading + heading_of(self.book().separate_chapter_number, section.title@));
            },
        }
        extend_chars(&mut out, &chars_of("</h3><div class=\"chapter-content\">"));
        extend_chars(&mut out, &remove_invalid_xml_chars_chars(&chars_of(section.content.as_str())));
        extend_chars(&mut out, &chars_of("</div>\n</body>\n</html>"));
        string_of(&out)
    }

    /// The table of contents: one item per section, linking
    /// `chapter_N.xhtml` under its navigation label.
    pub fn generate_toc_content(&self, sections: &[Section]) -> (r: String)
        ensures
            r@ == TOC_HEAD@ + toc_items(self.book(), titles_of(sections@)) + TOC_TAIL@,
    {
        let mut items: Vec<char> = Vec::new();
        let mut i: usize = 0;
        while i < sections.len()
            invariant
                i <= sections@.len(),
                items@ == toc_items(self.book(), titles_of(sections@).take(i as int)),
            decreases sections.len() - i,
        {
            assert(titles_of(sections@).take(i + 1).drop_last() == titles_of(sections@).take(i as int));
            assert(titles_of(sections@).take(i + 1).last() == sections@[i as int].title@);
            extend_chars(&mut items, &chars_of("      <li><a href=\"chapter_"));
            extend_chars(&mut items, &decimal(i as u64));
            extend_chars(&mut items, &chars_of(".xhtml\">"));
            push_escaped(&mut items, &strip_bom_chars(&chars_of(self.nav_label(sections[i].title.as_str()))));
            extend_chars(&mut items, &chars_of("</a></li>\n"));
            i = i + 1;
        }
        assert(titles_of(sections@).take(sections@.len() as int) == titles_of(sections@));
        let mut out = chars_of(TOC_HEAD);
        extend_chars(&mut out, &items);
        extend_chars(&mut out, &chars_of(TOC_TAIL));
        string_of(&out)
    }

    /// Checks a header-image length.
    pub fn validate_css_dimension(value: &str, allow_auto: bool) -> (r: Result<(), KafError>)
        ensures
            dimension_ok(value@, allow_auto) ==> r is Ok,
            !dimension_ok(value@, allow_auto) && regex_valid(CSS_DIMENSION_PATTERN@) ==> (r matches Err(
                KafError::ParseError(m)) && m@ == "无效的页眉图片尺寸: "@ + trim(value@)),
            !dimension_ok(value@, allow_auto) && !regex_valid(CSS_DIMENSION_PATTERN@) ==> r matches Err(
                KafError::Regex(_)),
    {
        let v = trim_chars(&chars_of(value));
        if allow_auto && chars_eq_str(&ascii_lowercase(&v), "auto") {
            return Ok(());
        }
        if chars_eq_str(&v, "0") {
            return Ok(());
        }
        let re = match compile(CSS_DIMENSION_PATTERN) {
            Ok(c) => c,
            Err(e) => return Err(KafError::Regex(e)),
        };
        if re.is_match(string_of(&v).as_str()) {
            Ok(())
        } else {
            let mut m = "无效的页眉图片尺寸: ".to_string();
            push_chars(&mut m, &v);
            Err(KafError::ParseError(m))
        }
    }

    /// The markup of the header image at `resource`; a length that is not
    /// allowed is an error.
    pub fn generate_header_html(&self, resource: &str) -> (r: Result<String, KafError>)
        ensures
            header_dimension_error(self.book()) is None && regex_valid(CSS_DIMENSION_PATTERN@) ==> (r matches Ok(h)
                && h@ == header_markup(self.book(), resource@)),
            header_dimension_error(self.book()) is Some && regex_valid(CSS_DIMENSION_PATTERN@) ==> (r matches Err(
                KafError::ParseError(m)) && m@ == "无效的页眉图片尺寸: "@ + header_dimension_error(self.book())->0),
    {
        let (position, margins): (&str, &str) = match self.book.chapter_header.position {
            ImagePosition::Left => ("left", "margin-left: 0; margin-right: auto"),
            ImagePosition::Center => ("center", "margin-left: auto; margin-right: auto"),
            ImagePosition::Right => ("right", "margin-left: auto; margin-right: 0"),
        };
        let mut style: Vec<char> = chars_of(margins);
        if let Some(h) = &self.book.chapter_header.height {
            Self::validate_css_dimension(h.as_str(), false)?;
            extend_chars(&mut style, &chars_of("; height: "));
            extend_chars(&mut style, &chars_of(h.as_str()));
        }
        if let Some(w) = &self.book.chapter_header.width {
            Self::validate_css_dimension(w.as_str(), true)?;
            extend_chars(&mut style, &chars_of("; width: "));
            extend_chars(&mut style, &chars_of(w.as_str()));
        }
        assert(style@ == header_style(self.book()));
        let mut out: Vec<char> = chars_of("<div class=\"chapter-header ");
        extend_chars(&mut out, &chars_of(position));
        extend_chars(&mut out, &chars_of("\"><img src=\""));
        push_escaped(&mut out, &strip_bom_chars(&chars_of(resource)));
        extend_chars(&mut out, &chars_of("\" alt=\"chapter header\" style=\""));
        push_escaped(&mut out, &strip_bom_chars(&style));
        extend_chars(&mut out, &chars_of(";\"/></div>"));
        Ok(string_of(&out))
    }

    /// The resource path, MIME type and CSS format of the font at `path`;
    /// an unsupported extension is an error.
    pub fn font_resource(&self, path: &str) -> (r: Result<(&'static str, &'static str, &'static str), KafError>)
        ensures
            match font_kind(lower_extension(path@)) {
                Some((a, b, c)) => r matches Ok((x, y, z)) && x@ == a && y@ == b && z@ == c,
                None => r matches Err(KafError::ParseError(m)) && m@ == "不支持的字体格式: "@ + path@,
            },
    {
        let ext = match extension_of(path) {
            Some(e) => ascii_lowercase(&chars_of(e.as_str())),
            None => Vec::new(),
        };
        if chars_eq_str(&ext, "ttf") {
            Ok(("fonts/custom-font.ttf", "font/ttf", "truetype"))
        } else if chars_eq_str(&ext, "otf") {
            Ok(("fonts/custom-font.otf", "font/otf", "opentype"))
        } else if chars_eq_str(&ext, "woff") {
            Ok(("fonts/custom-font.woff", "font/woff", "woff"))
        } else if chars_eq_str(&ext, "woff2") {
            Ok(("fonts/custom-font.woff2", "font/woff2", "woff2"))
        } else if chars_eq_str(&ext, "ttc") {
            Ok(("fonts/custom-font.ttc", "font/collection", "opentype"))
        } else {
            let mut m = "不支持的字体格式: ".to_string();
            push_str(&mut m, path);
            Err(KafError::ParseError(m))
        }
    }

    /// The current name of a CSS variable that has an older alias.
    pub fn canonical_css_variable(name: &str) -> (r: &str)
        ensures
            r@ == canonical_variable(name@),
    {
        let n = chars_of(name);
        if chars_eq_str(&n, "background-color") {
            "bg-color"
        } else if chars_eq_str(&n, "link-color") || chars_eq_str(&n, "primary-color") {
            "accent-color"
        } else if chars_eq_str(&n, "font-size") {
            "base-size"
        } else {
            name
        }
    }
}

/// A converter for `book`.
pub fn get_converter(book: &Book) -> (r: EpubConverter3)
    ensures
        crate::model::same_book(r.book(), *book),
{
    EpubConverter3::new(book.duplicate())
}


/// The rules that make the embedded font the font of the book.
pub open spec fn font_face_css(resource: Seq<char>, format: Seq<char>) -> Seq<char> {
    "\n@font-face { font-family: 'CustomFont'; src: url('"@ + resource + "') format('"@ + format
        + "'); }\nbody { font-family: 'CustomFont', serif; }\n"@
}

/// The declarations of CSS variables, one line each.
pub open spec fn variable_lines(vars: Seq<(String, String)>) -> Seq<char>
    decreases vars.len(),
{
    if vars.len() == 0 {
        Seq::empty()
    } else {
        variable_lines(vars.drop_last()) + "  --"@ + vars.last().0@ + ": "@ + vars.last().1@ + ";\n"@
    }
}

/// The font part of the style sheet.
pub open spec fn font_part(font: Option<(Seq<char>, Seq<char>)>) -> Seq<char> {
    match font {
        Some((r, f)) => font_face_css(r, f),
        None => Seq::empty(),
    }
}

/// A processed sheet under its heading comment.
pub open spec fn sheet_part(heading: Seq<char>, sheet: Option<Seq<char>>) -> Seq<char> {
    match sheet {
        Some(c) => heading + c + "\n"@,
        None => Seq::empty(),
    }
}

/// The `:root` block of the variables, when there are any.
pub open spec fn variables_part(vars: Seq<(String, String)>) -> Seq<char> {
    if vars.len() > 0 {
        "\n:root {\n"@ + variable_lines(vars) + "}\n"@
    } else {
        Seq::empty()
    }
}

/// The book's style sheet: the generated rules `base`, the font rules when
/// a font is embedded (its resource and format), the custom sheet, the
/// inline sheet, and the `:root` block of the variables when there are
/// any, each as processed.
pub open spec fn style_sheet_text(
    base: Seq<char>,
    font: Option<(Seq<char>, Seq<char>)>,
    custom: Option<Seq<char>>,
    extended: Option<Seq<char>>,
    vars: Seq<(String, String)>,
) -> Seq<char> {
    base + font_part(font) + sheet_part("\n/* 用户自定义 CSS */\n"@, custom) + sheet_part(
        "\n/* 扩展 CSS */\n"@,
        extended,
    ) + variables_part(vars)
}

/// The rules that make the embedded font the font of the book.
fn font_face_rules(resource: &str, format: &str) -> (r: String)
    ensures
        r@ == font_face_css(resource@, format@),
{
    let mut css = String::new();
    push_str(&mut css, "\n@font-face { font-family: 'CustomFont'; src: url('");
    push_str(&mut css, resource);
    push_str(&mut css, "') format('");
    push_str(&mut css, format);
    push_str(&mut css, "'); }\nbody { font-family: 'CustomFont', serif; }\n");
    assert(css@ =~= font_face_css(resource@, format@));
    css
}

/// A processed sheet under its heading comment.
fn sheet_block(heading: &str, sheet: &str) -> (r: String)
    ensures
        r@ == heading@ + sheet@ + "\n"@,
{
    let mut css = heading.to_string();
    push_str(&mut css, sheet);
    push_str(&mut css, "\n");
    css
}

/// The `:root` block of non-empty variables.
fn variables_block(vars: &[(String, String)]) -> (r: String)
    ensures
        r@ == "\n:root {\n"@ + variable_lines(vars@) + "}\n"@,
{
    let mut css = String::new();
    push_str(&mut css, "\n:root {\n");
    let ghost head = css@;
    let mut i: usize = 0;
    while i < vars.len()
        invariant
            i <= vars@.len(),
            head == "\n:root {\n"@,
            css@ == head + variable_lines(vars@.take(i as int)),
        decreases vars.len() - i,
    {
        assert(vars@.take(i + 1).drop_last() == vars@.take(i as int));
        assert(vars@.take(i + 1).last() == vars@[i as int]);
        push_str(&mut css, "  --");
        push_str(&mut css, vars[i].0.as_str());
        push_str(&mut css, ": ");
        push_str(&mut css, vars[i].1.as_str());
        push_str(&mut css, ";\n");
        i = i + 1;
        assert(css@ =~= head + variable_lines(vars@.take(i as int)));
    }
    assert(vars@.take(i as int) == vars@);
    push_str(&mut css, "}\n");
    css
}

/// Assembles the book's style sheet from its parts, as
/// [`style_sheet_text`] says.
pub fn assemble_style_sheet(
    base: &str,
    font: Option<(&str, &str)>,
    custom: Option<&str>,
    extended: Option<&str>,
    vars: &[(String, String)],
) -> (r: String)
    ensures
        r@ == style_sheet_text(
            base@,
            match font { Some((a, b)) => Some((a@, b@)), None => None },
            match custom { Some(c) => Some(c@), None => None },
            match extended { Some(e) => Some(e@), None => None },
            vars@,
        ),
{
    let ghost fv = match font { Some((a, b)) => Some((a@, b@)), None => None };
    let ghost cv = match custom { Some(c) => Some(c@), None => None };
    let ghost ev = match extended { Some(e) => Some(e@), None => None };
    let mut css = base.to_string();
    if let Some((resource, format)) = font {
        push_str(&mut css, font_face_rules(resource, format).as_str());
    }
    assert(css@ =~= base@ + font_part(fv));
    if let Some(c) = custom {
        push_str(&mut css, sheet_block("\n/* 用户自定义 CSS */\n", c).as_str());
    }
    assert(css@ =~= base@ + font_part(fv) + sheet_part("\n/* 用户自定义 CSS */\n"@, cv));
    if let Some(e) = extended {
        push_str(&mut css, sheet_block("\n/* 扩展 CSS */\n", e).as_str());
    }
    assert(css@ =~= base@ + font_part(fv) + sheet_part("\n/* 用户自定义 CSS */\n"@, cv) + sheet_part(
        "\n/* 扩展 CSS */\n"@, ev));
    if vars.len() > 0 {
        push_str(&mut css, variables_block(vars).as_str());
    }
    css
}


/// The name of the page of the `k`-th chapter.
pub open spec fn chapter_file(k: nat) -> Seq<char> {
    "chapter_"@ + dec(k) + ".xhtml"@
}

/// The name of the page of the `index`-th chapter.
pub fn chapter_file_name(index: usize) -> (r: String)
    ensures
        r@ == chapter_file(index as nat),
{
    let mut r = "chapter_".to_string();
    push_chars(&mut r, &decimal(index as u64));
    push_str(&mut r, ".xhtml");
    r
}

/// Law: the table of contents links the page of every chapter: the name
/// of the `k`-th chapter's page occurs in its items.
pub proof fn lemma_toc_links_every_page(book: Book, titles: Seq<Seq<char>>, k: nat)
    requires
        k < titles.len(),
    ensures
        exists|i: int| occurs_at(toc_items(book, titles), chapter_file(k), i),
    decreases titles.len(),
{
    let n = (titles.len() - 1) as nat;
    let a = toc_items(book, titles.drop_last());
    let tail = esc(nav_label_of(book.unknown_title@, titles.last())) + "</a></li>\n"@;
    let l1 = "      <li><a href=\"chapter_"@;
    let l2 = ".xhtml\">"@;
    let s = toc_items(book, titles);
    assert(s == a + l1 + dec(n) + l2 + tail);
    if k == n {
        reveal_strlit("      <li><a href=\"chapter_");
        reveal_strlit(".xhtml\">");
        reveal_strlit("chapter_");
        reveal_strlit(".xhtml");
        let f = chapter_file(k);
        let i = a.len() + l1.len() - 8;
        assert(l1.subrange(l1.len() - 8, l1.len() as int) =~= "chapter_"@);
        assert(l2.subrange(0, 6) =~= ".xhtml"@);
        assert(s.subrange(i, i + f.len()) =~= f);
        assert(occurs_at(s, f, i));
    } else {
        lemma_toc_links_every_page(book, titles.drop_last(), k);
        let i = choose|i: int| occurs_at(a, chapter_file(k), i);
        assert(s.subrange(i, i + chapter_file(k).len()) =~= a.subrange(i, i + chapter_file(k).len()));
        assert(occurs_at(s, chapter_file(k), i));
    }
}

} // verus!
