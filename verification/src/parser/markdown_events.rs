//! The events of a CommonMark document as the library reads them, and how
//! they are made safe and written out.
//!
//! The document is read by pulldown-cmark; each event is described by an
//! [`MdEvent`]. Raw HTML never reaches the output as markup: it is written
//! out as text (and so escaped), and link and image targets go through
//! the URI filter of the parser.

use vstd::prelude::*;
use crate::parser::footnotes::{extract_sections, footnotes_resolved, kind_at, MdItem};
use crate::parser::markdown_parser::{safe_uri_of, MarkdownImage, MarkdownParser};
use crate::parser::markdown_sections::{image_scan, lemma_section_titles_within, split_sections, MdKind};
use crate::text::trim;
use pulldown_cmark::{html, Event, Options, Parser as CommonMarkParser, Tag, TagEnd};

verus! {

/// The CommonMark extensions read: tables, footnotes, strike-through,
/// task lists and YAML metadata blocks.
pub const MARKDOWN_OPTIONS: u32 = 158;

/// An inline span of text.
#[derive(Debug, Clone, Copy, PartialEq, Eq, Structural)]
pub enum SpanKind {
    Emphasis,
    Strong,
    Strikethrough,
    Superscript,
    Subscript,
    Link,
}

/// One event of a CommonMark document.
#[derive(Debug, Clone)]
pub enum MdEvent {
    HeadingStart,
    HeadingEnd,
    /// The start of an image, with its target as written.
    ImageStart(String),
    ImageEnd,
    /// The start of a link, with its target as written.
    LinkStart(String),
    /// The start of another inline span.
    SpanStart(SpanKind),
    /// The end of an inline span (links included).
    SpanEnd(SpanKind),
    FootnoteStart(String),
    FootnoteEnd,
    /// The start of any other container (paragraph, list, quote, table...).
    BlockStart,
    /// The end of any other container.
    BlockEnd,
    FootnoteRef(String),
    Text(String),
    Code(String),
    /// Raw HTML: a block of it, or inline.
    Html(String),
    SoftBreak,
    HardBreak,
    /// Any other event (rules, task markers, math).
    Other,
}

/// The start of a container or a span.
pub open spec fn is_start_event(e: MdEvent) -> bool {
    e is HeadingStart || e is ImageStart || e is LinkStart || e is SpanStart || e is FootnoteStart || e is BlockStart
}

/// The end of a container or a span.
pub open spec fn is_end_event(e: MdEvent) -> bool {
    e is HeadingEnd || e is ImageEnd || e is SpanEnd || e is FootnoteEnd || e is BlockEnd
}

/// The events pulldown-cmark reads in `content` with the extensions
/// `options`.
pub uninterp spec fn markdown_events_of(content: Seq<char>, options: u32) -> Seq<MdEvent>;

/// The span kind of the starts of spans among the events of `content`
/// (`pulldown_cmark::Parser`), links left out.
#[verifier::external_body]
fn markdown_span_starts(content: &str, options: u32) -> (r: Vec<Option<SpanKind>>)
    ensures
        r@.len() == markdown_events_of(content@, options).len(),
        forall|i: int| 0 <= i < r@.len() ==> match #[trigger] r@[i] {
            Some(k) => markdown_events_of(content@, options)[i] == MdEvent::SpanStart(k),
            None => !(markdown_events_of(content@, options)[i] is SpanStart),
        },
{
    CommonMarkParser::new_ext(content, Options::from_bits_truncate(options)).map(|e| match e {
        Event::Start(Tag::Emphasis) => Some(SpanKind::Emphasis),
        Event::Start(Tag::Strong) => Some(SpanKind::Strong),
        Event::Start(Tag::Strikethrough) => Some(SpanKind::Strikethrough),
        Event::Start(Tag::Superscript) => Some(SpanKind::Superscript),
        Event::Start(Tag::Subscript) => Some(SpanKind::Subscript),
        _ => None,
    }).collect()
}

/// The span kind of the ends of spans among the events of `content`
/// (`pulldown_cmark::Parser`), links included.
#[verifier::external_body]
fn markdown_span_ends(content: &str, options: u32) -> (r: Vec<Option<SpanKind>>)
    ensures
        r@.len() == markdown_events_of(content@, options).len(),
        forall|i: int| 0 <= i < r@.len() ==> match #[trigger] r@[i] {
            Some(k) => markdown_events_of(content@, options)[i] == MdEvent::SpanEnd(k),
            None => !(markdown_events_of(content@, options)[i] is SpanEnd),
        },
{
    CommonMarkParser::new_ext(content, Options::from_bits_truncate(options)).map(|e| match e {
        Event::End(TagEnd::Emphasis) => Some(SpanKind::Emphasis),
        Event::End(TagEnd::Strong) => Some(SpanKind::Strong),
        Event::End(TagEnd::Strikethrough) => Some(SpanKind::Strikethrough),
        Event::End(TagEnd::Superscript) => Some(SpanKind::Superscript),
        Event::End(TagEnd::Subscript) => Some(SpanKind::Subscript),
        Event::End(TagEnd::Link) => Some(SpanKind::Link),
        _ => None,
    }).collect()
}

/// The other starts among the events of `content`
/// (`pulldown_cmark::Parser`), spans other than links left out.
#[verifier::external_body]
fn markdown_starts(content: &str, options: u32) -> (r: Vec<Option<MdEvent>>)
    ensures
        r@.len() == markdown_events_of(content@, options).len(),
        forall|i: int| 0 <= i < r@.len() ==> match #[trigger] r@[i] {
            Some(e) => e == markdown_events_of(content@, options)[i],
            None => !is_start_event(markdown_events_of(content@, options)[i]) || markdown_events_of(
                content@,
                options,
            )[i] is SpanStart,
        },
{
    CommonMarkParser::new_ext(content, Options::from_bits_truncate(options)).map(|e| match e {
        Event::Start(Tag::Heading { .. }) => Some(MdEvent::HeadingStart),
        Event::Start(Tag::Image { dest_url, .. }) => Some(MdEvent::ImageStart(dest_url.to_string())),
        Event::Start(Tag::Link { dest_url, .. }) => Some(MdEvent::LinkStart(dest_url.to_string())),
        Event::Start(Tag::FootnoteDefinition(l)) => Some(MdEvent::FootnoteStart(l.to_string())),
        Event::Start(Tag::Emphasis | Tag::Strong | Tag::Strikethrough | Tag::Superscript | Tag::Subscript) => None,
        Event::Start(_) => Some(MdEvent::BlockStart),
        _ => None,
    }).collect()
}

/// The other ends among the events of `content` (`pulldown_cmark::Parser`),
/// ends of spans left out.
#[verifier::external_body]
fn markdown_ends(content: &str, options: u32) -> (r: Vec<Option<MdEvent>>)
    ensures
        r@.len() == markdown_events_of(content@, options).len(),
        forall|i: int| 0 <= i < r@.len() ==> match #[trigger] r@[i] {
            Some(e) => e == markdown_events_of(content@, options)[i],
            None => !is_end_event(markdown_events_of(content@, options)[i]) || markdown_events_of(
                content@,
                options,
            )[i] is SpanEnd,
        },
{
    CommonMarkParser::new_ext(content, Options::from_bits_truncate(options)).map(|e| match e {
        Event::End(TagEnd::Heading(_)) => Some(MdEvent::HeadingEnd),
        Event::End(TagEnd::Image) => Some(MdEvent::ImageEnd),
        Event::End(TagEnd::FootnoteDefinition) => Some(MdEvent::FootnoteEnd),
        Event::End(TagEnd::Emphasis | TagEnd::Strong | TagEnd::Strikethrough | TagEnd::Superscript) => None,
        Event::End(TagEnd::Subscript | TagEnd::Link) => None,
        Event::End(_) => Some(MdEvent::BlockEnd),
        _ => None,
    }).collect()
}

/// The events of `content` (`pulldown_cmark::Parser`) that are neither
/// starts nor ends, others left out.
#[verifier::external_body]
fn markdown_leaves(content: &str, options: u32) -> (r: Vec<Option<MdEvent>>)
    ensures
        r@.len() == markdown_events_of(content@, options).len(),
        forall|i: int| 0 <= i < r@.len() ==> match #[trigger] r@[i] {
            Some(e) => e == markdown_events_of(content@, options)[i],
            None => is_start_event(markdown_events_of(content@, options)[i]) || is_end_event(
                markdown_events_of(content@, options)[i],
            ),
        },
{
    CommonMarkParser::new_ext(content, Options::from_bits_truncate(options)).map(|e| match e {
        Event::Start(_) | Event::End(_) => None,
        Event::Text(t) => Some(MdEvent::Text(t.to_string())),
        Event::Code(t) => Some(MdEvent::Code(t.to_string())),
        Event::Html(t) | Event::InlineHtml(t) => Some(MdEvent::Html(t.to_string())),
        Event::FootnoteReference(l) => Some(MdEvent::FootnoteRef(l.to_string())),
        Event::SoftBreak => Some(MdEvent::SoftBreak),
        Event::HardBreak => Some(MdEvent::HardBreak),
        _ => Some(MdEvent::Other),
    }).collect()
}

/// A copy of an event.
fn copy_event(e: &MdEvent) -> (r: MdEvent)
    ensures
        r == *e,
{
    match e {
        MdEvent::HeadingStart => MdEvent::HeadingStart,
        MdEvent::HeadingEnd => MdEvent::HeadingEnd,
        MdEvent::ImageStart(s) => MdEvent::ImageStart(s.clone()),
        MdEvent::ImageEnd => MdEvent::ImageEnd,
        MdEvent::LinkStart(s) => MdEvent::LinkStart(s.clone()),
        MdEvent::SpanStart(k) => MdEvent::SpanStart(*k),
        MdEvent::SpanEnd(k) => MdEvent::SpanEnd(*k),
        MdEvent::FootnoteStart(s) => MdEvent::FootnoteStart(s.clone()),
        MdEvent::FootnoteEnd => MdEvent::FootnoteEnd,
        MdEvent::BlockStart => MdEvent::BlockStart,
        MdEvent::BlockEnd => MdEvent::BlockEnd,
        MdEvent::FootnoteRef(s) => MdEvent::FootnoteRef(s.clone()),
        MdEvent::Text(s) => MdEvent::Text(s.clone()),
        MdEvent::Code(s) => MdEvent::Code(s.clone()),
        MdEvent::Html(s) => MdEvent::Html(s.clone()),
        MdEvent::SoftBreak => MdEvent::SoftBreak,
        MdEvent::HardBreak => MdEvent::HardBreak,
        MdEvent::Other => MdEvent::Other,
    }
}

/// The events of `content`, read with the extensions `options`.
pub fn markdown_events(content: &str, options: u32) -> (r: Vec<MdEvent>)
    ensures
        r@ == markdown_events_of(content@, options),
{
    let span_starts = markdown_span_starts(content, options);
    let span_ends = markdown_span_ends(content, options);
    let starts = markdown_starts(content, options);
    let ends = markdown_ends(content, options);
    let leaves = markdown_leaves(content, options);
    let ghost doc = markdown_events_of(content@, options);
    let mut r: Vec<MdEvent> = Vec::new();
    let mut i: usize = 0;
    while i < starts.len()
        invariant
            i <= starts@.len(),
            starts@.len() == doc.len() && ends@.len() == doc.len() && leaves@.len() == doc.len(),
            span_starts@.len() == doc.len() && span_ends@.len() == doc.len(),
            forall|k: int| 0 <= k < span_starts@.len() ==> match #[trigger] span_starts@[k] {
                Some(s) => doc[k] == MdEvent::SpanStart(s),
                None => !(doc[k] is SpanStart),
            },
            forall|k: int| 0 <= k < span_ends@.len() ==> match #[trigger] span_ends@[k] {
                Some(s) => doc[k] == MdEvent::SpanEnd(s),
                None => !(doc[k] is SpanEnd),
            },
            forall|k: int| 0 <= k < starts@.len() ==> match #[trigger] starts@[k] {
                Some(e) => e == doc[k],
                None => !is_start_event(doc[k]) || doc[k] is SpanStart,
            },
            forall|k: int| 0 <= k < ends@.len() ==> match #[trigger] ends@[k] {
                Some(e) => e == doc[k],
                None => !is_end_event(doc[k]) || doc[k] is SpanEnd,
            },
            forall|k: int| 0 <= k < leaves@.len() ==> match #[trigger] leaves@[k] {
                Some(e) => e == doc[k],
                None => is_start_event(doc[k]) || is_end_event(doc[k]),
            },
            r@ == doc.take(i as int),
        decreases starts.len() - i,
    {
        let e = if let Some(k) = span_starts[i] {
            MdEvent::SpanStart(k)
        } else if let Some(k) = span_ends[i] {
            MdEvent::SpanEnd(k)
        } else {
            match &starts[i] {
                Some(e) => copy_event(e),
                None => match &ends[i] {
                    Some(e) => copy_event(e),
                    None => match &leaves[i] {
                        Some(e) => copy_event(e),
                        None => MdEvent::Other,
                    },
                },
            }
        };
        assert(e == doc[i as int]);
        r.push(e);
        i = i + 1;
        assert(r@ =~= doc.take(i as int));
    }
    assert(doc.take(i as int) == doc);
    r
}

/// What the cutting of sections reads of an event, once made safe: raw
/// HTML and code are text, links are spans.
pub open spec fn sanitized_kind(e: MdEvent) -> MdKind {
    match e {
        MdEvent::HeadingStart => MdKind::HeadingStart,
        MdEvent::HeadingEnd => MdKind::HeadingEnd,
        MdEvent::ImageStart(u) => MdKind::ImageStart(u),
        MdEvent::ImageEnd => MdKind::ImageEnd,
        MdEvent::LinkStart(_) => MdKind::InlineStart,
        MdEvent::SpanStart(_) => MdKind::InlineStart,
        MdEvent::SpanEnd(_) => MdKind::InlineEnd,
        MdEvent::FootnoteStart(l) => MdKind::FootnoteStart(l),
        MdEvent::FootnoteEnd => MdKind::FootnoteEnd,
        MdEvent::BlockStart => MdKind::BlockStart,
        MdEvent::BlockEnd => MdKind::BlockEnd,
        MdEvent::FootnoteRef(l) => MdKind::FootnoteRef(l),
        MdEvent::Text(s) => MdKind::Text(s),
        MdEvent::Code(s) => MdKind::Text(s),
        MdEvent::Html(s) => MdKind::Text(s),
        MdEvent::SoftBreak => MdKind::Break,
        MdEvent::HardBreak => MdKind::Break,
        MdEvent::Other => MdKind::Other,
    }
}

/// The kind of every event, once made safe.
pub fn sanitized_kinds(es: &[MdEvent]) -> (r: Vec<MdKind>)
    ensures
        r@ == es@.map_values(|e: MdEvent| sanitized_kind(e)),
{
    let mut r: Vec<MdKind> = Vec::new();
    let mut i: usize = 0;
    while i < es.len()
        invariant
            i <= es@.len(),
            r@ == es@.take(i as int).map_values(|e: MdEvent| sanitized_kind(e)),
        decreases es.len() - i,
    {
        let k = match &es[i] {
            MdEvent::HeadingStart => MdKind::HeadingStart,
            MdEvent::HeadingEnd => MdKind::HeadingEnd,
            MdEvent::ImageStart(u) => MdKind::ImageStart(u.clone()),
            MdEvent::ImageEnd => MdKind::ImageEnd,
            MdEvent::LinkStart(_) => MdKind::InlineStart,
            MdEvent::SpanStart(_) => MdKind::InlineStart,
            MdEvent::SpanEnd(_) => MdKind::InlineEnd,
            MdEvent::FootnoteStart(l) => MdKind::FootnoteStart(l.clone()),
            MdEvent::FootnoteEnd => MdKind::FootnoteEnd,
            MdEvent::BlockStart => MdKind::BlockStart,
            MdEvent::BlockEnd => MdKind::BlockEnd,
            MdEvent::FootnoteRef(l) => MdKind::FootnoteRef(l.clone()),
            MdEvent::Text(s) => MdKind::Text(s.clone()),
            MdEvent::Code(s) => MdKind::Text(s.clone()),
            MdEvent::Html(s) => MdKind::Text(s.clone()),
            MdEvent::SoftBreak => MdKind::Break,
            MdEvent::HardBreak => MdKind::Break,
            MdEvent::Other => MdKind::Other,
        };
        r.push(k);
        i = i + 1;
        assert(es@.take(i as int) == es@.take(i - 1).push(es@[i - 1]));
        assert(r@ =~= es@.take(i as int).map_values(|e: MdEvent| sanitized_kind(e)));
    }
    assert(es@.take(i as int) == es@);
    r
}

/// What is written out for one item of a section.
pub enum Piece {
    /// The event at this position, as read.
    Event(usize),
    /// This text, escaped.
    Text(Seq<char>),
    /// The link or image that starts at this position, with this target.
    Target(usize, Seq<char>),
    /// The end of a footnote definition.
    DefinitionEnd,
}

/// What is written out for one item of a section.
#[derive(Debug, Clone)]
pub enum RenderPiece {
    Event(usize),
    Text(String),
    Target(usize, String),
    DefinitionEnd,
}

/// The view of a piece.
pub open spec fn piece_view(p: RenderPiece) -> Piece {
    match p {
        RenderPiece::Event(i) => Piece::Event(i),
        RenderPiece::Text(s) => Piece::Text(s@),
        RenderPiece::Target(i, s) => Piece::Target(i, s@),
        RenderPiece::DefinitionEnd => Piece::DefinitionEnd,
    }
}

/// The views of pieces.
pub open spec fn piece_views(v: Seq<RenderPiece>) -> Seq<Piece> {
    v.map_values(|p: RenderPiece| piece_view(p))
}

/// What is written out for the event `e` at position `i`: raw HTML as
/// text, links and images with their filtered targets, anything else as
/// read.
pub open spec fn safe_piece(e: MdEvent, i: usize) -> Piece {
    match e {
        MdEvent::Html(s) => Piece::Text(s@),
        MdEvent::LinkStart(u) => Piece::Target(i, safe_uri_of(u@, false)),
        MdEvent::ImageStart(u) => Piece::Target(i, safe_uri_of(u@, true)),
        _ => Piece::Event(i),
    }
}

/// The piece written out for event `i` of `es`.
pub fn safe_render_piece(es: &[MdEvent], i: usize) -> (r: RenderPiece)
    requires
        i < es@.len(),
    ensures
        piece_view(r) == safe_piece(es@[i as int], i),
{
    match &es[i] {
        MdEvent::Html(s) => RenderPiece::Text(s.clone()),
        MdEvent::LinkStart(u) => RenderPiece::Target(i, MarkdownParser::safe_uri(u.as_str(), false)),
        MdEvent::ImageStart(u) => RenderPiece::Target(i, MarkdownParser::safe_uri(u.as_str(), true)),
        _ => RenderPiece::Event(i),
    }
}

/// The XHTML that `pulldown_cmark::html::push_html` writes for the events
/// that `pieces` stand for, in the document `content` read with
/// `options`: `Event(i)` is the document's event `i`; `Text(t)` is a text
/// event of `t`; `Target(i, u)` is the document's event `i`, the start of
/// a link or an image, with its target `u`; `DefinitionEnd` is the end of
/// a footnote definition.
pub uninterp spec fn rendered_markdown(content: Seq<char>, options: u32, pieces: Seq<Piece>) -> Seq<char>;

/// Every position a piece names is an event of `es`, and a target is
/// given only to the start of a link or an image.
pub open spec fn pieces_within(pieces: Seq<RenderPiece>, es: Seq<MdEvent>) -> bool {
    forall|k: int| 0 <= k < pieces.len() ==> match #[trigger] pieces[k] {
        RenderPiece::Event(i) => i < es.len(),
        RenderPiece::Target(i, _) => i < es.len() && (es[i as int] is LinkStart || es[i as int] is ImageStart),
        _ => true,
    }
}

/// Writes out `pieces` of the document `content` as XHTML
/// (`pulldown_cmark::html::push_html`, which escapes text). Each piece is
/// turned into the pulldown-cmark event it stands for, as
/// `rendered_markdown` says: an event by its position, a text as a text
/// event, a link or image start (which `requires` guarantees it is) with
/// its target field set, the end of a footnote definition.
#[verifier::external_body]
pub(crate) fn render_markdown(content: &str, options: u32, pieces: &[RenderPiece]) -> (r: String)
    requires
        pieces_within(pieces@, markdown_events_of(content@, options)),
    ensures
        r@ == rendered_markdown(content@, options, piece_views(pieces@)),
{
    let events: Vec<Event> = CommonMarkParser::new_ext(content, Options::from_bits_truncate(options)).collect();
    let mut out = String::new();
    html::push_html(&mut out, pieces.iter().map(|p| match p {
        RenderPiece::Event(i) => events[*i].clone(),
        RenderPiece::Text(t) => Event::Text(t.clone().into()),
        RenderPiece::Target(i, u) => {
            let mut e = events[*i].clone();
            if let Event::Start(Tag::Link { dest_url, .. } | Tag::Image { dest_url, .. }) = &mut e {
                *dest_url = u.clone().into();
            }
            e
        },
        RenderPiece::DefinitionEnd => Event::End(TagEnd::FootnoteDefinition),
    }));
    out
}

/// The items naming the positions `ps` that lie within a document of `n`
/// events.
pub open spec fn position_items(ps: Seq<usize>, n: int) -> Seq<MdItem>
    decreases ps.len(),
{
    if ps.len() == 0 {
        Seq::empty()
    } else {
        let r = position_items(ps.drop_last(), n);
        if ps.last() < n {
            r.push(MdItem::Event(ps.last()))
        } else {
            r
        }
    }
}

/// The pieces written out for the items of a section of the document
/// `es` (items naming no event are left out).
pub open spec fn section_pieces(es: Seq<MdEvent>, items: Seq<MdItem>) -> Seq<Piece>
    decreases items.len(),
{
    if items.len() == 0 {
        Seq::empty()
    } else {
        let r = section_pieces(es, items.drop_last());
        match items.last() {
            MdItem::Event(p) => if p < es.len() {
                r.push(safe_piece(es[p as int], p))
            } else {
                r
            },
            MdItem::DefinitionEnd => r.push(Piece::DefinitionEnd),
        }
    }
}

/// What the items of a section are.
pub open spec fn section_kinds(ks: Seq<MdKind>, items: Seq<MdItem>) -> Seq<MdKind> {
    items.map_values(|it: MdItem| kind_at(ks, it))
}

/// The sections written out so far and the images found so far (target,
/// alternative text, index of the section).
#[verifier::ext_equal]
pub struct MdOutput {
    pub sections: Seq<(Seq<char>, Seq<char>)>,
    pub images: Seq<(Seq<char>, Seq<char>, int)>,
}

/// The images of a section (filtered targets and alternative texts),
/// marked with the index `index`.
pub open spec fn section_image_views(ks: Seq<MdKind>, items: Seq<MdItem>, index: int) -> Seq<(Seq<char>, Seq<char>, int)> {
    image_scan(section_kinds(ks, items)).1.map_values(
        |pa: (Seq<char>, Seq<char>)| (safe_uri_of(pa.0, true), pa.1, index),
    )
}

/// The first `k` sections of the document `content` (events `es`, kinds
/// `ks`), titled `titles` and holding the items `resolved`, written out:
/// each section is rendered, its images are collected (when `collect`)
/// under the index it would have, and it is kept when it has a title or
/// some content besides white space.
pub open spec fn assemble(
    content: Seq<char>,
    es: Seq<MdEvent>,
    ks: Seq<MdKind>,
    titles: Seq<Seq<char>>,
    resolved: Seq<Seq<MdItem>>,
    collect: bool,
    k: int,
) -> MdOutput
    decreases k,
{
    if k <= 0 {
        MdOutput { sections: Seq::empty(), images: Seq::empty() }
    } else {
        let out = assemble(content, es, ks, titles, resolved, collect, k - 1);
        let items = resolved[k - 1];
        let html = rendered_markdown(content, MARKDOWN_OPTIONS, section_pieces(es, items));
        let title = titles[k - 1];
        let images = if collect {
            out.images + section_image_views(ks, items, out.sections.len() as int)
        } else {
            out.images
        };
        let sections = if title.len() > 0 || trim(html).len() > 0 {
            out.sections.push((title, html))
        } else {
            out.sections
        };
        MdOutput { sections, images }
    }
}

/// The sections and images of the Markdown document `content`: its events
/// made safe, cut into sections at headings up to `max` characters, with
/// their footnotes resolved, then written out.
pub open spec fn markdown_output(content: Seq<char>, collect: bool, max: usize) -> MdOutput {
    let es = markdown_events_of(content, MARKDOWN_OPTIONS);
    let ks = es.map_values(|e: MdEvent| sanitized_kind(e));
    let secs = split_sections(ks, max as nat);
    let resolved = footnotes_resolved(
        ks,
        secs.map_values(|s: (Seq<char>, Seq<usize>)| position_items(s.1, ks.len() as int)),
    );
    assemble(content, es, ks, secs.map_values(|s: (Seq<char>, Seq<usize>)| s.0), resolved, collect, resolved.len() as int)
}

/// Taking the definitions out keeps one flow per section.
proof fn lemma_extract_len(ks: Seq<MdKind>, secs: Seq<Seq<MdItem>>)
    ensures
        extract_sections(ks, secs).0.len() == secs.len(),
    decreases secs.len(),
{
    if secs.len() > 0 {
        lemma_extract_len(ks, secs.drop_last());
    }
}

/// Resolving footnotes keeps one list of items per section.
pub proof fn lemma_resolved_len(ks: Seq<MdKind>, secs: Seq<Seq<MdItem>>)
    ensures
        footnotes_resolved(ks, secs).len() == secs.len(),
{
    lemma_extract_len(ks, secs);
}

/// The items naming the positions `ps` within a document of `n` events.
pub fn items_of_positions(ps: &[usize], n: usize) -> (r: Vec<MdItem>)
    ensures
        r@ == position_items(ps@, n as int),
        forall|k: int| 0 <= k < r@.len() ==> (#[trigger] r@[k] matches MdItem::Event(p) && p < n),
{
    let mut r: Vec<MdItem> = Vec::new();
    let mut i: usize = 0;
    while i < ps.len()
        invariant
            i <= ps@.len(),
            r@ == position_items(ps@.take(i as int), n as int),
            forall|k: int| 0 <= k < r@.len() ==> (#[trigger] r@[k] matches MdItem::Event(p) && p < n),
        decreases ps.len() - i,
    {
        assert(ps@.take(i + 1).drop_last() == ps@.take(i as int));
        if ps[i] < n {
            r.push(MdItem::Event(ps[i]));
        }
        i = i + 1;
    }
    assert(ps@.take(i as int) == ps@);
    r
}

/// A copy of a kind.
fn copy_kind(k: &MdKind) -> (r: MdKind)
    ensures
        r == *k,
{
    match k {
        MdKind::HeadingStart => MdKind::HeadingStart,
        MdKind::HeadingEnd => MdKind::HeadingEnd,
        MdKind::BlockStart => MdKind::BlockStart,
        MdKind::BlockEnd => MdKind::BlockEnd,
        MdKind::InlineStart => MdKind::InlineStart,
        MdKind::InlineEnd => MdKind::InlineEnd,
        MdKind::ImageStart(s) => MdKind::ImageStart(s.clone()),
        MdKind::ImageEnd => MdKind::ImageEnd,
        MdKind::FootnoteStart(s) => MdKind::FootnoteStart(s.clone()),
        MdKind::FootnoteEnd => MdKind::FootnoteEnd,
        MdKind::FootnoteRef(s) => MdKind::FootnoteRef(s.clone()),
        MdKind::Text(s) => MdKind::Text(s.clone()),
        MdKind::Break => MdKind::Break,
        MdKind::Other => MdKind::Other,
    }
}

/// What the items of a section are.
pub fn kinds_of_items(ks: &[MdKind], items: &[MdItem]) -> (r: Vec<MdKind>)
    ensures
        r@ == section_kinds(ks@, items@),
{
    let mut r: Vec<MdKind> = Vec::new();
    let mut i: usize = 0;
    while i < items.len()
        invariant
            i <= items@.len(),
            r@ == section_kinds(ks@, items@.take(i as int)),
        decreases items.len() - i,
    {
        let k = match items[i] {
            MdItem::Event(p) => if p < ks.len() { copy_kind(&ks[p]) } else { MdKind::Other },
            MdItem::DefinitionEnd => MdKind::FootnoteEnd,
        };
        r.push(k);
        i = i + 1;
        assert(r@ =~= section_kinds(ks@, items@.take(i as int)));
    }
    assert(items@.take(i as int) == items@);
    r
}

/// The pieces written out for the items of a section of the document
/// `es`.
pub fn pieces_of_items(es: &[MdEvent], items: &[MdItem]) -> (r: Vec<RenderPiece>)
    ensures
        piece_views(r@) == section_pieces(es@, items@),
        pieces_within(r@, es@),
{
    let mut r: Vec<RenderPiece> = Vec::new();
    let mut i: usize = 0;
    while i < items.len()
        invariant
            i <= items@.len(),
            piece_views(r@) == section_pieces(es@, items@.take(i as int)),
            pieces_within(r@, es@),
        decreases items.len() - i,
    {
        assert(items@.take(i + 1).drop_last() == items@.take(i as int));
        let ghost before = r@;
        match items[i] {
            MdItem::Event(p) => {
                if p < es.len() {
                    let piece = safe_render_piece(es, p);
                    r.push(piece);
                    assert(piece_views(r@) =~= piece_views(before).push(piece_view(piece)));
                }
            },
            MdItem::DefinitionEnd => {
                r.push(RenderPiece::DefinitionEnd);
                assert(piece_views(r@) =~= piece_views(before).push(Piece::DefinitionEnd));
            },
        }
        i = i + 1;
    }
    assert(items@.take(i as int) == items@);
    r
}

/// The images of a section, their targets filtered, marked with `index`.
pub fn images_of_section(ks: &[MdKind], items: &[MdItem], index: usize) -> (r: Vec<MarkdownImage>)
    ensures
        r@.map_values(|m: MarkdownImage| (m.path@, m.alt@, m.chapter_index as int)) == section_image_views(
            ks@,
            items@,
            index as int,
        ),
{
    let kinds = kinds_of_items(ks, items);
    let found = crate::parser::markdown_sections::section_images(&kinds, index);
    let ghost fv = found@.map_values(|m: MarkdownImage| (m.path@, m.alt@));
    let mut r: Vec<MarkdownImage> = Vec::new();
    let mut i: usize = 0;
    while i < found.len()
        invariant
            i <= found@.len(),
            fv == found@.map_values(|m: MarkdownImage| (m.path@, m.alt@)),
            forall|k: int| 0 <= k < found@.len() ==> (#[trigger] found@[k]).chapter_index == index,
            r@.map_values(|m: MarkdownImage| (m.path@, m.alt@, m.chapter_index as int)) == fv.take(i as int).map_values(
                |pa: (Seq<char>, Seq<char>)| (safe_uri_of(pa.0, true), pa.1, index as int),
            ),
        decreases found.len() - i,
    {
        let ghost before = r@;
        let img = MarkdownImage {
            path: MarkdownParser::safe_uri(found[i].path.as_str(), true),
            alt: found[i].alt.clone(),
            chapter_index: index,
        };
        assert(fv[i as int] == (found@[i as int].path@, found@[i as int].alt@));
        r.push(img);
        assert(r@.map_values(|m: MarkdownImage| (m.path@, m.alt@, m.chapter_index as int)) =~= before.map_values(
            |m: MarkdownImage| (m.path@, m.alt@, m.chapter_index as int)).push((img.path@, img.alt@, index as int)));
        i = i + 1;
        assert(fv.take(i as int) == fv.take(i - 1).push(fv[i - 1]));
        assert(r@.map_values(|m: MarkdownImage| (m.path@, m.alt@, m.chapter_index as int)) =~= fv.take(i as int).map_values(
            |pa: (Seq<char>, Seq<char>)| (safe_uri_of(pa.0, true), pa.1, index as int),
        ));
    }
    assert(fv.take(i as int) == fv);
    r
}


proof fn lemma_assemble_bounds(
    content: Seq<char>,
    es: Seq<MdEvent>,
    ks: Seq<MdKind>,
    titles: Seq<Seq<char>>,
    resolved: Seq<Seq<MdItem>>,
    collect: bool,
    k: int,
    max: nat,
)
    requires
        k <= titles.len(),
        forall|j: int| 0 <= j < titles.len() ==> (#[trigger] titles[j]).len() <= max,
    ensures
        ({
            let out = assemble(content, es, ks, titles, resolved, collect, k);
            &&& !collect ==> out.images.len() == 0
            &&& forall|x: int| 0 <= x < out.images.len() ==> 0 <= (#[trigger] out.images[x]).2 <= out.sections.len()
            &&& forall|x: int| 0 <= x < out.sections.len() ==> (#[trigger] out.sections[x]).0.len() <= max
        }),
    decreases k,
{
    if k > 0 {
        lemma_assemble_bounds(content, es, ks, titles, resolved, collect, k - 1, max);
        let out = assemble(content, es, ks, titles, resolved, collect, k - 1);
        let next = assemble(content, es, ks, titles, resolved, collect, k);
        let items = resolved[k - 1];
        let added = section_image_views(ks, items, out.sections.len() as int);
        if collect {
            assert forall|x: int| 0 <= x < next.images.len() implies 0 <= (#[trigger] next.images[x]).2
                <= next.sections.len() by {
                if x >= out.images.len() {
                    assert(next.images[x] == added[x - out.images.len()]);
                }
            }
        }
        assert forall|x: int| 0 <= x < next.sections.len() implies (#[trigger] next.sections[x]).0.len() <= max by {
            if x < out.sections.len() {
                assert(next.sections[x] == out.sections[x]);
            }
        }
    }
}

/// Law: which headings become section titles, and where images go. Every
/// section title has at most `max` characters (longer headings stay in
/// the text of a section); no image is collected when collection is off;
/// and each collected image is marked with the index its section has
/// among the sections written out, so no index exceeds their number (a
/// section without title whose written content is blank is dropped, and
/// the images found in it then carry the index of the next section).
pub proof fn lemma_markdown_output_bounds(content: Seq<char>, collect: bool, max: usize)
    ensures
        ({
            let out = markdown_output(content, collect, max);
            &&& forall|x: int| 0 <= x < out.sections.len() ==> (#[trigger] out.sections[x]).0.len() <= max
            &&& !collect ==> out.images.len() == 0
            &&& forall|x: int| 0 <= x < out.images.len() ==> 0 <= (#[trigger] out.images[x]).2 <= out.sections.len()
        }),
{
    let es = markdown_events_of(content, MARKDOWN_OPTIONS);
    let ks = es.map_values(|e: MdEvent| sanitized_kind(e));
    let secs = split_sections(ks, max as nat);
    let items = secs.map_values(|s: (Seq<char>, Seq<usize>)| position_items(s.1, ks.len() as int));
    let resolved = footnotes_resolved(ks, items);
    let titles = secs.map_values(|s: (Seq<char>, Seq<usize>)| s.0);
    lemma_section_titles_within(ks, max as nat);
    lemma_resolved_len(ks, items);
    assert forall|j: int| 0 <= j < titles.len() implies (#[trigger] titles[j]).len() <= max by {
        assert(titles[j] == secs[j].0);
    }
    lemma_assemble_bounds(content, es, ks, titles, resolved, collect, resolved.len() as int, max as nat);
}

} // verus!
