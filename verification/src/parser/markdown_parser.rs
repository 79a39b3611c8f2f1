//! The settings and results of Markdown parsing, and the links it keeps.

use vstd::prelude::*;
use crate::converter::entities::{before_separator, before_separator_exec};
use crate::error::KafError;
use crate::model::Section;
use crate::parser::footnotes::{footnotes_resolved, resolve_footnotes, section_items, MdItem};
use crate::parser::markdown_events::{
    assemble, images_of_section, items_of_positions, lemma_resolved_len, markdown_events, markdown_output,
    pieces_of_items, position_items, render_markdown, sanitized_kind, sanitized_kinds, MdEvent, MARKDOWN_OPTIONS,
};
use crate::parser::markdown_sections::{keeps_section, section_view, split_sections, split_sections_exec, MdKind};
use crate::text::{ascii_lower_seq, ascii_lowercase, chars_of, contains_char, has_prefix, starts_with_str, string_of, trim,
    trim_chars};
use crate::utils::encoding::strip_bom;
use crate::utils::html::{escape_seq, escape_xml};

verus! {

/// An image found in Markdown content.
#[derive(Debug, Clone, PartialEq, Eq)]
pub struct MarkdownImage {
    pub path: String,
    pub alt: String,
    /// The index of the section it was found in.
    pub chapter_index: usize,
}

/// A link or image target kept as it is: remote (`http:`, `https:`, and
/// `mailto:` for links), or without a scheme.
pub open spec fn uri_kept(value: Seq<char>, image: bool) -> bool {
    let t = trim(value);
    let l = ascii_lower_seq(t);
    has_prefix(l, "http://"@) || has_prefix(l, "https://"@) || (!image && has_prefix(l, "mailto:"@))
        || !before_separator(t).contains(':')
}

/// The target used in the output: the trimmed target when kept, else `#`.
pub open spec fn safe_uri_of(value: Seq<char>, image: bool) -> Seq<char> {
    if uri_kept(value, image) { trim(value) } else { "#"@ }
}

/// The titles and contents of sections.
pub open spec fn section_pairs(v: Seq<Section>) -> Seq<(Seq<char>, Seq<char>)> {
    v.map_values(|s: Section| (s.title@, s.content@))
}

/// The targets, alternative texts and section indices of images.
pub open spec fn image_views(v: Seq<MarkdownImage>) -> Seq<(Seq<char>, Seq<char>, int)> {
    v.map_values(|m: MarkdownImage| (m.path@, m.alt@, m.chapter_index as int))
}

/// Parses Markdown into sections.
pub struct MarkdownParser {
    collect_images: bool,
    images: Vec<MarkdownImage>,
    max_title_length: usize,
}

impl MarkdownParser {
    /// Whether images are collected, the images collected, and the longest
    /// heading that starts a section (in characters).
    pub closed spec fn view(&self) -> (bool, Seq<MarkdownImage>, usize) {
        (self.collect_images, self.images@, self.max_title_length)
    }

    /// A parser collecting images, with no limit on headings.
    pub fn new() -> (r: Self)
        ensures
            r.view() == (true, Seq::<MarkdownImage>::empty(), usize::MAX),
    {
        MarkdownParser { collect_images: true, images: Vec::new(), max_title_length: usize::MAX }
    }

    /// The same parser with another longest heading.
    pub fn with_max_title_length(self, max_title_length: usize) -> (r: Self)
        ensures
            r.view() == (self.view().0, self.view().1, max_title_length),
    {
        MarkdownParser { max_title_length, ..self }
    }

    /// The same parser collecting images or not.
    pub fn with_image_collection(self, collect: bool) -> (r: Self)
        ensures
            r.view() == (collect, self.view().1, self.view().2),
    {
        MarkdownParser { collect_images: collect, ..self }
    }

    /// Whether images are collected.
    pub fn collects_images(&self) -> (r: bool)
        ensures
            r == self.view().0,
    {
        self.collect_images
    }

    /// The longest heading that starts a section.
    pub fn max_title_length(&self) -> (r: usize)
        ensures
            r == self.view().2,
    {
        self.max_title_length
    }

    /// The sections of the Markdown document `content`: each top-level
    /// heading not longer than the limit opens a section, content before
    /// the first one forms a section without title, and sections with
    /// neither title nor content are dropped. Raw HTML is written out as
    /// text, link and image targets are filtered, and footnote definitions
    /// go with the sections that refer to them. The images found replace
    /// those collected before, when images are collected.
    pub fn parse(&mut self, content: &str) -> (r: Result<Vec<Section>, KafError>)
        ensures
            r is Ok,
            r matches Ok(v) ==> section_pairs(v@) == markdown_output(content@, old(self).view().0, old(self).view().2).sections
                && forall|k: int| 0 <= k < v@.len() ==> (#[trigger] v@[k]).subsections@.len() == 0,
            final(self).view().0 == old(self).view().0,
            final(self).view().2 == old(self).view().2,
            image_views(final(self).view().1) == markdown_output(content@, old(self).view().0, old(self).view().2).images,
    {
        self.images.clear();
        let es = markdown_events(content, MARKDOWN_OPTIONS);
        let ks = sanitized_kinds(es.as_slice());
        let secs = split_sections_exec(ks.as_slice(), self.max_title_length);
        let ghost sv = secs@.map_values(|s: (String, Vec<usize>)| section_view(s));
        let mut items: Vec<Vec<MdItem>> = Vec::new();
        let mut j: usize = 0;
        while j < secs.len()
            invariant
                j <= secs@.len(),
                sv == secs@.map_values(|s: (String, Vec<usize>)| section_view(s)),
                section_items(items@) == sv.take(j as int).map_values(
                    |s: (Seq<char>, Seq<usize>)| position_items(s.1, ks@.len() as int),
                ),
                forall|k: int| 0 <= k < items@.len() ==> crate::parser::footnotes::items_valid(ks@, #[trigger] items@[k]@),
            decreases secs.len() - j,
        {
            let its = items_of_positions(secs[j].1.as_slice(), ks.len());
            let ghost before = section_items(items@);
            items.push(its);
            assert(section_items(items@) =~= before.push(its@));
            j = j + 1;
            assert(sv.take(j as int) == sv.take(j - 1).push(sv[j - 1]));
            assert(section_items(items@) =~= sv.take(j as int).map_values(
                |s: (Seq<char>, Seq<usize>)| position_items(s.1, ks@.len() as int),
            ));
        }
        assert(sv.take(j as int) == sv);
        let resolved = resolve_footnotes(ks.as_slice(), &items);
        let ghost doc = es@;
        let ghost kinds = ks@;
        let ghost titles = sv.map_values(|s: (Seq<char>, Seq<usize>)| s.0);
        let ghost res = footnotes_resolved(kinds, section_items(items@));
        proof { lemma_resolved_len(kinds, section_items(items@)); }
        let collect = self.collect_images;
        let mut sections: Vec<Section> = Vec::new();
        let mut k: usize = 0;
        while k < resolved.len()
            invariant
                k <= resolved@.len(),
                resolved@.len() == secs@.len(),
                section_items(resolved@) == res,
                res.len() == sv.len(),
                sv == secs@.map_values(|s: (String, Vec<usize>)| section_view(s)),
                titles == sv.map_values(|s: (Seq<char>, Seq<usize>)| s.0),
                doc == es@,
                kinds == ks@,
                doc == crate::parser::markdown_events::markdown_events_of(content@, MARKDOWN_OPTIONS),
                kinds == doc.map_values(|e: MdEvent| sanitized_kind(e)),
                collect == self.collect_images,
                self.collect_images == old(self).collect_images,
                self.max_title_length == old(self).max_title_length,
                ({
                    let out = assemble(content@, doc, kinds, titles, res, collect, k as int);
                    &&& section_pairs(sections@) == out.sections
                    &&& image_views(self.images@) == out.images
                }),
                forall|x: int| 0 <= x < sections@.len() ==> (#[trigger] sections@[x]).subsections@.len() == 0,
            decreases resolved.len() - k,
        {
            let ghost out = assemble(content@, doc, kinds, titles, res, collect, k as int);
            assert(res[k as int] == resolved@[k as int]@);
            if self.collect_images {
                let found = images_of_section(ks.as_slice(), resolved[k].as_slice(), sections.len());
                let mut f: usize = 0;
                let ghost im0 = image_views(self.images@);
                while f < found.len()
                    invariant
                        f <= found@.len(),
                        image_views(self.images@) == im0 + image_views(found@.take(f as int)),
                        self.collect_images == old(self).collect_images,
                        self.max_title_length == old(self).max_title_length,
                    decreases found.len() - f,
                {
                    let ghost before = self.images@;
                    let m = MarkdownImage {
                        path: found[f].path.clone(),
                        alt: found[f].alt.clone(),
                        chapter_index: found[f].chapter_index,
                    };
                    self.images.push(m);
                    assert(image_views(self.images@) =~= image_views(before).push((m.path@, m.alt@, m.chapter_index as int)));
                    f = f + 1;
                    assert(found@.take(f as int) == found@.take(f - 1).push(found@[f - 1]));
                    assert(image_views(found@.take(f as int)) =~= image_views(found@.take(f - 1)).push(
                        (found@[f - 1].path@, found@[f - 1].alt@, found@[f - 1].chapter_index as int)));
                }
                assert(found@.take(f as int) == found@);
            }
            let pieces = pieces_of_items(es.as_slice(), resolved[k].as_slice());
            let html = render_markdown(content, MARKDOWN_OPTIONS, pieces.as_slice());
            let title = secs[k].0.clone();
            assert(title@ == titles[k as int]);
            if keeps_section(title.as_str(), html.as_str()) {
                let ghost before = sections@;
                sections.push(Section { title, content: html, subsections: Vec::new() });
                assert(section_pairs(sections@) =~= section_pairs(before).push((titles[k as int], html@)));
            }
            k = k + 1;
        }
        Ok(sections)
    }

    /// The XML escape of `text` (leading byte-order marks removed).
    pub fn escape_html(text: &str) -> (r: String)
        ensures
            r@ == escape_seq(strip_bom(text@)),
    {
        escape_xml(text)
    }

    /// The images collected.
    pub fn images(&self) -> (r: &[MarkdownImage])
        ensures
            r@ == self.view().1,
    {
        self.images.as_slice()
    }

    /// Forgets the images collected.
    pub fn clear_images(&mut self)
        ensures
            final(self).view() == (old(self).view().0, Seq::<MarkdownImage>::empty(), old(self).view().2),
    {
        self.images.clear();
    }

    /// The target of a link (or an image) as written out: targets with
    /// another scheme than the web's become `#`.
    pub fn safe_uri(value: &str, image: bool) -> (r: String)
        ensures
            r@ == safe_uri_of(value@, image),
    {
        let t = trim_chars(&chars_of(value));
        let l = ascii_lowercase(&t);
        let allowed = starts_with_str(&l, "http://") || starts_with_str(&l, "https://")
            || (!image && starts_with_str(&l, "mailto:"));
        let has_scheme = contains_char(&before_separator_exec(&t), ':');
        if allowed || !has_scheme {
            string_of(&t)
        } else {
            "#".to_string()
        }
    }
}

} // verus!
