//! How Markdown events are cut into sections: each top-level heading that
//! is not too long opens a section; over-long headings stay in the text;
//! content before the first heading forms a section without title.
//!
//! The events are those of a CommonMark parser, described here by what the
//! cutting reads of them ([`MdKind`]); a section lists the positions of its
//! events.

use vstd::prelude::*;
use crate::parser::markdown_parser::MarkdownImage;
use crate::text::{chars_of, push_str, string_of, trim, trim_chars};

verus! {

/// What the cutting of sections reads of one Markdown event.
#[derive(Debug, Clone, PartialEq, Eq)]
pub enum MdKind {
    /// The start of a heading.
    HeadingStart,
    /// The end of a heading.
    HeadingEnd,
    /// The start of a block container (paragraph, list, quote, table, ...).
    BlockStart,
    /// The end of a block container.
    BlockEnd,
    /// The start of an inline span (emphasis, strong, strike-through,
    /// super- or subscript, link).
    InlineStart,
    /// The end of an inline span.
    InlineEnd,
    /// The start of an image, with its target.
    ImageStart(String),
    /// The end of an image.
    ImageEnd,
    /// The start of a footnote definition (a block container), with its
    /// label.
    FootnoteStart(String),
    /// The end of a footnote definition.
    FootnoteEnd,
    /// A footnote reference, with its label.
    FootnoteRef(String),
    /// Text or inline code.
    Text(String),
    /// A soft or hard line break.
    Break,
    /// Any other event.
    Other,
}

/// The text an event contributes to a heading's title.
pub open spec fn text_piece(k: MdKind) -> Seq<char> {
    match k {
        MdKind::Text(s) => s@,
        MdKind::Break => seq![' '],
        _ => Seq::empty(),
    }
}

/// The text of a run of events: texts and code as written, a space for
/// each line break.
pub open spec fn raw_text(ks: Seq<MdKind>) -> Seq<char>
    decreases ks.len(),
{
    if ks.len() == 0 {
        Seq::empty()
    } else {
        raw_text(ks.drop_last()) + text_piece(ks.last())
    }
}

/// The position of the first heading end from `j` on, or the end.
pub open spec fn heading_close(ks: Seq<MdKind>, j: int) -> int
    decreases ks.len() - j,
{
    if j >= ks.len() {
        ks.len() as int
    } else if ks[j] is HeadingEnd {
        j
    } else {
        heading_close(ks, j + 1)
    }
}

/// The state of the cutting: the sections closed so far, the content seen
/// before any title, the open section's title and content, and how deep
/// in block containers the scan is.
#[verifier::ext_equal]
pub struct SplitState {
    pub sections: Seq<(Seq<char>, Seq<usize>)>,
    pub pending: Seq<usize>,
    pub title: Seq<char>,
    pub current: Seq<usize>,
    pub depth: nat,
}

/// No title and no section yet: content goes to the untitled start.
pub open spec fn in_preamble(st: SplitState) -> bool {
    st.title.len() == 0 && st.sections.len() == 0
}

/// The positions `a` up to `b` (excluded).
pub open spec fn positions(a: int, b: int) -> Seq<usize> {
    Seq::new((b - a) as nat, |k: int| (a + k) as usize)
}

/// Adds the events `a` up to `b` (excluded) to the content.
pub open spec fn add_events(st: SplitState, a: int, b: int) -> SplitState {
    if in_preamble(st) {
        SplitState { pending: st.pending + positions(a, b), ..st }
    } else {
        SplitState { current: st.current + positions(a, b), ..st }
    }
}

/// Opens a section titled `title`, closing the open one (or the untitled
/// start) when it holds anything.
pub open spec fn open_section(st: SplitState, title: Seq<char>) -> SplitState {
    if st.title.len() > 0 || st.current.len() > 0 {
        SplitState { sections: st.sections.push((st.title, st.current)), title, current: Seq::empty(), ..st }
    } else if st.pending.len() > 0 {
        SplitState { sections: st.sections.push((Seq::empty(), st.pending)), pending: Seq::empty(), title, ..st }
    } else {
        SplitState { title, ..st }
    }
}

/// One step of the cutting at event `i`: the new state and the next event.
pub open spec fn split_step(ks: Seq<MdKind>, max: nat, st: SplitState, i: int) -> (SplitState, int) {
    if st.depth == 0 && ks[i] is HeadingStart {
        let e = heading_close(ks, i + 1);
        let title = trim(raw_text(ks.subrange(i + 1, e)));
        if title.len() > max {
            let last = if e < ks.len() { e } else { ks.len() - 1 };
            (add_events(st, i, last + 1), e + 1)
        } else {
            (open_section(st, title), e + 1)
        }
    } else {
        let st2 = add_events(st, i, i + 1);
        let depth: nat = match ks[i] {
            MdKind::BlockStart | MdKind::FootnoteStart(_) => st.depth + 1,
            MdKind::BlockEnd | MdKind::FootnoteEnd => if st.depth > 0 { (st.depth - 1) as nat } else { 0 },
            _ => st.depth,
        };
        (SplitState { depth, ..st2 }, i + 1)
    }
}

/// The cutting from event `i` on. (Every step moves forward; a step past
/// the end ends the cutting.)
pub open spec fn split_run(ks: Seq<MdKind>, max: nat, st: SplitState, i: int) -> SplitState
    decreases ks.len() - i,
{
    if i < 0 || i >= ks.len() {
        st
    } else {
        let (st2, j) = split_step(ks, max, st, i);
        if j <= i || j > ks.len() {
            st2
        } else {
            split_run(ks, max, st2, j)
        }
    }
}

/// The sections once every event is read: the open section, or else the
/// untitled start, is closed when it holds anything.
pub open spec fn split_finish(st: SplitState) -> Seq<(Seq<char>, Seq<usize>)> {
    if st.title.len() > 0 || st.current.len() > 0 {
        st.sections.push((st.title, st.current))
    } else if st.pending.len() > 0 {
        st.sections.push((Seq::empty(), st.pending))
    } else {
        st.sections
    }
}

/// The sections of the events `ks`, headings longer than `max` characters
/// kept as text: each a title and the positions of its events.
pub open spec fn split_sections(ks: Seq<MdKind>, max: nat) -> Seq<(Seq<char>, Seq<usize>)> {
    let init = SplitState {
        sections: Seq::empty(),
        pending: Seq::empty(),
        title: Seq::empty(),
        current: Seq::empty(),
        depth: 0,
    };
    split_finish(split_run(ks, max, init, 0))
}

/// The view of a section as the cutting builds it.
pub open spec fn section_view(s: (String, Vec<usize>)) -> (Seq<char>, Seq<usize>) {
    (s.0@, s.1@)
}

/// The text of the events `a` up to `b` (excluded).
fn raw_text_exec(ks: &[MdKind], a: usize, b: usize) -> (r: Vec<char>)
    requires
        a <= b <= ks.len(),
    ensures
        r@ == raw_text(ks@.subrange(a as int, b as int)),
{
    let mut r: Vec<char> = Vec::new();
    let mut k = a;
    assert(ks@.subrange(a as int, a as int) =~= Seq::<MdKind>::empty());
    while k < b
        invariant
            a <= k <= b,
            b <= ks.len(),
            r@ == raw_text(ks@.subrange(a as int, k as int)),
        decreases b - k,
    {
        assert(ks@.subrange(a as int, k + 1).drop_last() == ks@.subrange(a as int, k as int));
        match &ks[k] {
            MdKind::Text(s) => {
                let v = chars_of(s.as_str());
                let mut j: usize = 0;
                let ghost start = r@;
                while j < v.len()
                    invariant
                        j <= v@.len(),
                        r@ == start + v@.take(j as int),
                    decreases v.len() - j,
                {
                    r.push(v[j]);
                    assert(v@.take(j + 1) == v@.take(j as int).push(v@[j as int]));
                    j = j + 1;
                }
                assert(v@.take(j as int) == v@);
            },
            MdKind::Break => {
                r.push(' ');
            },
            _ => {},
        }
        k = k + 1;
    }
    r
}

/// The position of the first heading end from `j` on, or the end.
fn heading_close_exec(ks: &[MdKind], j: usize) -> (r: usize)
    requires
        j <= ks.len(),
    ensures
        r == heading_close(ks@, j as int),
        j <= r <= ks.len(),
{
    let mut k = j;
    while k < ks.len()
        invariant
            j <= k <= ks.len(),
            heading_close(ks@, j as int) == heading_close(ks@, k as int),
        decreases ks.len() - k,
    {
        if let MdKind::HeadingEnd = ks[k] {
            return k;
        }
        k = k + 1;
    }
    k
}

/// Appends the positions `a` up to `b` (excluded).
fn push_positions(v: &mut Vec<usize>, a: usize, b: usize)
    requires
        a <= b,
    ensures
        final(v)@ == old(v)@ + positions(a as int, b as int),
{
    let mut k = a;
    while k < b
        invariant
            a <= k <= b,
            v@ == old(v)@ + positions(a as int, k as int),
        decreases b - k,
    {
        v.push(k);
        assert(positions(a as int, k + 1) =~= positions(a as int, k as int).push(k));
        k = k + 1;
    }
}

/// The events `ks` cut into sections, headings longer than `max`
/// characters kept as text, as [`split_sections`] says.
pub fn split_sections_exec(ks: &[MdKind], max: usize) -> (r: Vec<(String, Vec<usize>)>)
    ensures
        r@.map_values(|s: (String, Vec<usize>)| section_view(s)) == split_sections(ks@, max as nat),
{
    let mut sections: Vec<(String, Vec<usize>)> = Vec::new();
    let mut pending: Vec<usize> = Vec::new();
    let mut title = String::new();
    let mut title_len: usize = 0;
    let mut current: Vec<usize> = Vec::new();
    let mut depth: usize = 0;
    let mut i: usize = 0;
    let ghost init = SplitState {
        sections: Seq::empty(),
        pending: Seq::empty(),
        title: Seq::empty(),
        current: Seq::empty(),
        depth: 0,
    };
    assert(sections@.map_values(|s: (String, Vec<usize>)| section_view(s)) =~= Seq::<(Seq<char>, Seq<usize>)>::empty());
    while i < ks.len()
        invariant
            i <= ks@.len() + 1,
            title_len == title@.len(),
            depth <= i,
            split_run(ks@, max as nat, init, 0) == split_run(
                ks@,
                max as nat,
                SplitState {
                    sections: sections@.map_values(|s: (String, Vec<usize>)| section_view(s)),
                    pending: pending@,
                    title: title@,
                    current: current@,
                    depth: depth as nat,
                },
                i as int,
            ),
        decreases ks.len() + 1 - i,
    {
        let ghost old_i = i;
        let ghost st = SplitState {
            sections: sections@.map_values(|s: (String, Vec<usize>)| section_view(s)),
            pending: pending@,
            title: title@,
            current: current@,
            depth: depth as nat,
        };
        let ghost next = split_step(ks@, max as nat, st, i as int);
        let is_heading = match ks[i] {
            MdKind::HeadingStart => true,
            _ => false,
        };
        if depth == 0 && is_heading {
            let e = heading_close_exec(ks, i + 1);
            let t = trim_chars(&raw_text_exec(ks, i + 1, e));
            if t.len() > max {
                let last = if e < ks.len() { e } else { ks.len() - 1 };
                if title_len == 0 && sections.len() == 0 {
                    push_positions(&mut pending, i, last + 1);
                } else {
                    push_positions(&mut current, i, last + 1);
                }
            } else {
                if title_len > 0 || current.len() > 0 {
                    let closed_title = title;
                    let closed = current;
                    sections.push((closed_title, closed));
                    assert(sections@.map_values(|s: (String, Vec<usize>)| section_view(s)) =~= st.sections.push(
                        (st.title, st.current)));
                    current = Vec::new();
                } else if pending.len() > 0 {
                    let closed = pending;
                    sections.push((String::new(), closed));
                    assert(sections@.map_values(|s: (String, Vec<usize>)| section_view(s)) =~= st.sections.push(
                        (Seq::<char>::empty(), st.pending)));
                    pending = Vec::new();
                }
                title = string_of(&t);
                title_len = t.len();
            }
            i = if e < ks.len() { e + 1 } else { ks.len() };
        } else {
            if title_len == 0 && sections.len() == 0 {
                pending.push(i);
            } else {
                current.push(i);
            }
            assert(positions(i as int, i + 1) =~= seq![i]);
            match ks[i] {
                MdKind::BlockStart | MdKind::FootnoteStart(_) => {
                    depth = depth + 1;
                },
                MdKind::BlockEnd | MdKind::FootnoteEnd => {
                    if depth > 0 {
                        depth = depth - 1;
                    }
                },
                _ => {},
            }
            i = i + 1;
        }
        proof {
            let now = SplitState {
                sections: sections@.map_values(|s: (String, Vec<usize>)| section_view(s)),
                pending: pending@,
                title: title@,
                current: current@,
                depth: depth as nat,
            };
            assert(now =~= next.0);
            assert(split_run(ks@, max as nat, st, (old_i) as int) == split_run(ks@, max as nat, now, i as int));
        }
    }
    let ghost fin = SplitState {
        sections: sections@.map_values(|s: (String, Vec<usize>)| section_view(s)),
        pending: pending@,
        title: title@,
        current: current@,
        depth: depth as nat,
    };
    assert(split_run(ks@, max as nat, init, 0) == fin);
    if title_len > 0 || current.len() > 0 {
        sections.push((title, current));
        assert(sections@.map_values(|s: (String, Vec<usize>)| section_view(s)) =~= fin.sections.push(
            (fin.title, fin.current)));
    } else if pending.len() > 0 {
        sections.push((String::new(), pending));
        assert(sections@.map_values(|s: (String, Vec<usize>)| section_view(s)) =~= fin.sections.push(
            (Seq::<char>::empty(), fin.pending)));
    }
    sections
}

/// The images found in a run of events: at the end, an image being read
/// (target and alternative text so far) and the images read, in order.
/// The alternative text gathers the text and code inside the image.
pub open spec fn image_scan(ks: Seq<MdKind>) -> (Option<(Seq<char>, Seq<char>)>, Seq<(Seq<char>, Seq<char>)>)
    decreases ks.len(),
{
    if ks.len() == 0 {
        (None, Seq::empty())
    } else {
        let (open, found) = image_scan(ks.drop_last());
        match ks.last() {
            MdKind::ImageStart(d) => (Some((d@, Seq::empty())), found),
            MdKind::Text(t) => match open {
                Some((p, a)) => (Some((p, a + t@)), found),
                None => (None, found),
            },
            MdKind::ImageEnd => match open {
                Some((p, a)) => (None, found.push((p, a))),
                None => (None, found),
            },
            _ => (open, found),
        }
    }
}

/// The images of a section's events (target and alternative text), each
/// marked with the section's index.
pub fn section_images(ks: &[MdKind], chapter_index: usize) -> (r: Vec<MarkdownImage>)
    ensures
        r@.map_values(|m: MarkdownImage| (m.path@, m.alt@)) == image_scan(ks@).1,
        forall|k: int| 0 <= k < r@.len() ==> (#[trigger] r@[k]).chapter_index == chapter_index,
{
    let mut open: Option<(String, String)> = None;
    let mut found: Vec<MarkdownImage> = Vec::new();
    let mut i: usize = 0;
    while i < ks.len()
        invariant
            i <= ks@.len(),
            (match open {
                Some((p, a)) => Some((p@, a@)),
                None => None,
            }, found@.map_values(|m: MarkdownImage| (m.path@, m.alt@))) == image_scan(ks@.take(i as int)),
            forall|k: int| 0 <= k < found@.len() ==> (#[trigger] found@[k]).chapter_index == chapter_index,
        decreases ks.len() - i,
    {
        assert(ks@.take(i + 1).drop_last() == ks@.take(i as int));
        let ghost fv = found@.map_values(|m: MarkdownImage| (m.path@, m.alt@));
        match &ks[i] {
            MdKind::ImageStart(d) => {
                open = Some((string_of(&chars_of(d.as_str())), String::new()));
            },
            MdKind::Text(t) => {
                if let Some((p, a)) = open {
                    let mut a2 = a;
                    push_str(&mut a2, t.as_str());
                    open = Some((p, a2));
                }
            },
            MdKind::ImageEnd => {
                if let Some((p, a)) = open {
                    found.push(MarkdownImage { path: p, alt: a, chapter_index });
                    assert(found@.map_values(|m: MarkdownImage| (m.path@, m.alt@)) =~= fv.push((p@, a@)));
                    open = None;
                }
            },
            _ => {},
        }
        i = i + 1;
    }
    assert(ks@.take(i as int) == ks@);
    found
}

/// A section is kept when it has a title or some content besides white
/// space.
pub fn keeps_section(title: &str, content: &str) -> (r: bool)
    ensures
        r == (title@.len() > 0 || trim(content@).len() > 0),
{
    chars_of(title).len() > 0 || trim_chars(&chars_of(content)).len() > 0
}


/// The positions of sections, one section after the other.
pub open spec fn flat_positions(secs: Seq<(Seq<char>, Seq<usize>)>) -> Seq<usize>
    decreases secs.len(),
{
    if secs.len() == 0 {
        Seq::empty()
    } else {
        flat_positions(secs.drop_last()) + secs.last().1
    }
}

/// Positions that increase strictly and lie below `n`.
pub open spec fn ordered_below(s: Seq<usize>, n: int) -> bool {
    &&& forall|a: int, b: int| 0 <= a < b < s.len() ==> s[a] < s[b]
    &&& forall|a: int| 0 <= a < s.len() ==> s[a] < n
}

/// Every position the cutting has placed so far, in order.
spec fn state_positions(st: SplitState) -> Seq<usize> {
    flat_positions(st.sections) + st.pending + st.current
}

/// What the cutting keeps true before event `i`.
spec fn split_inv(st: SplitState, i: int) -> bool {
    &&& ordered_below(state_positions(st), i)
    &&& in_preamble(st) ==> st.current.len() == 0
    &&& !in_preamble(st) ==> st.pending.len() == 0
}

/// Two ordered runs, the second above the bound of the first, make one.
proof fn lemma_ordered_concat(x: Seq<usize>, y: Seq<usize>, n: int, m: int)
    requires
        ordered_below(x, n),
        ordered_below(y, m),
        n <= m,
        forall|b: int| 0 <= b < y.len() ==> y[b] >= n,
    ensures
        ordered_below(x + y, m),
{
    assert forall|a: int, b: int| 0 <= a < b < (x + y).len() implies (x + y)[a] < (x + y)[b] by {
        if b < x.len() {
        } else if a < x.len() {
            assert(y[b - x.len()] >= n);
        } else {
        }
    }
}

/// The positions `a` up to `b` are ordered, below `b`, and from `a` on.
proof fn lemma_positions(a: int, b: int)
    requires
        0 <= a <= b,
        b <= usize::MAX + 1,
    ensures
        ordered_below(positions(a, b), b),
        forall|k: int| 0 <= k < positions(a, b).len() ==> positions(a, b)[k] >= a,
{
}

/// Adding events `a` up to `b` appends their positions.
proof fn lemma_add_events(st: SplitState, i: int, a: int, b: int)
    requires
        split_inv(st, i),
        0 <= i <= a <= b,
        b <= usize::MAX + 1,
    ensures
        split_inv(add_events(st, a, b), b),
        in_preamble(add_events(st, a, b)) == in_preamble(st),
{
    let st2 = add_events(st, a, b);
    lemma_positions(a, b);
    if in_preamble(st) {
        assert(state_positions(st2) =~= state_positions(st) + positions(a, b));
    } else {
        assert(state_positions(st2) =~= state_positions(st) + positions(a, b));
    }
    lemma_ordered_concat(state_positions(st), positions(a, b), i, b);
}

/// Opening a section keeps every position where it was.
proof fn lemma_open_section(st: SplitState, title: Seq<char>, i: int)
    requires
        split_inv(st, i),
    ensures
        split_inv(open_section(st, title), i),
{
    let st2 = open_section(st, title);
    if st.title.len() > 0 || st.current.len() > 0 {
        assert(st.sections.push((st.title, st.current)).drop_last() == st.sections);
        assert(state_positions(st2) =~= state_positions(st));
    } else if st.pending.len() > 0 {
        assert(st.sections.push((Seq::empty(), st.pending)).drop_last() == st.sections);
        assert(state_positions(st2) =~= state_positions(st));
    } else {
        assert(state_positions(st2) =~= state_positions(st));
    }
}

/// The first heading end from `j` on lies between `j` and the end.
proof fn lemma_heading_close(ks: Seq<MdKind>, j: int)
    requires
        0 <= j <= ks.len(),
    ensures
        j <= heading_close(ks, j) <= ks.len(),
    decreases ks.len() - j,
{
    if j < ks.len() && !(ks[j] is HeadingEnd) {
        lemma_heading_close(ks, j + 1);
    }
}

/// The cutting from event `i` on keeps every position in order and within
/// the events.
proof fn lemma_split_run(ks: Seq<MdKind>, max: nat, st: SplitState, i: int)
    requires
        0 <= i <= ks.len(),
        ks.len() <= usize::MAX,
        split_inv(st, i),
    ensures
        split_inv(split_run(ks, max, st, i), ks.len() as int),
    decreases ks.len() - i,
{
    if i < ks.len() {
        let (st2, j) = split_step(ks, max, st, i);
        if st.depth == 0 && ks[i] is HeadingStart {
            lemma_heading_close(ks, i + 1);
            let e = heading_close(ks, i + 1);
            let title = trim(raw_text(ks.subrange(i + 1, e)));
            if title.len() > max {
                let last = if e < ks.len() { e } else { ks.len() - 1 };
                lemma_add_events(st, i, i, last + 1);
                if j <= ks.len() {
                    lemma_split_run(ks, max, st2, j);
                }
            } else {
                lemma_open_section(st, title, i);
                if j <= ks.len() {
                    lemma_split_run(ks, max, st2, j);
                } else {
                    assert(split_inv(st2, ks.len() as int));
                }
            }
        } else {
            lemma_add_events(st, i, i, i + 1);
            assert(state_positions(st2) == state_positions(add_events(st, i, i + 1)));
            lemma_split_run(ks, max, st2, j);
        }
    }
}

/// Law: cutting keeps the document in order. One section after the other,
/// the positions of the events of all sections increase strictly and lie
/// within the document, so no event is in two sections and no section
/// holds an event that is not in the document.
pub proof fn lemma_sections_keep_order(ks: Seq<MdKind>, max: nat)
    requires
        ks.len() <= usize::MAX,
    ensures
        ordered_below(flat_positions(split_sections(ks, max)), ks.len() as int),
{
    let init = SplitState {
        sections: Seq::empty(),
        pending: Seq::empty(),
        title: Seq::empty(),
        current: Seq::empty(),
        depth: 0,
    };
    assert(state_positions(init) =~= Seq::<usize>::empty());
    lemma_split_run(ks, max, init, 0);
    let st = split_run(ks, max, init, 0);
    if st.title.len() > 0 || st.current.len() > 0 {
        assert(st.sections.push((st.title, st.current)).drop_last() == st.sections);
        assert(flat_positions(split_finish(st)) =~= state_positions(st));
    } else if st.pending.len() > 0 {
        assert(st.sections.push((Seq::empty(), st.pending)).drop_last() == st.sections);
        assert(flat_positions(split_finish(st)) =~= state_positions(st));
    } else {
        assert(flat_positions(split_finish(st)) =~= state_positions(st));
    }
}


/// Every title of the state is at most `max` characters long.
pub open spec fn titles_within(st: SplitState, max: nat) -> bool {
    &&& st.title.len() <= max
    &&& forall|k: int| 0 <= k < st.sections.len() ==> (#[trigger] st.sections[k]).0.len() <= max
}

proof fn lemma_run_titles_within(ks: Seq<MdKind>, max: nat, st: SplitState, i: int)
    requires
        titles_within(st, max),
    ensures
        titles_within(split_run(ks, max, st, i), max),
    decreases ks.len() - i,
{
    if 0 <= i < ks.len() {
        let (st2, j) = split_step(ks, max, st, i);
        assert(titles_within(st2, max)) by {
            if st.depth == 0 && ks[i] is HeadingStart {
                let e = heading_close(ks, i + 1);
                let title = trim(raw_text(ks.subrange(i + 1, e)));
                if title.len() <= max {
                    let o = open_section(st, title);
                    assert forall|k: int| 0 <= k < o.sections.len() implies (#[trigger] o.sections[k]).0.len() <= max by {
                        if k < st.sections.len() {
                            assert(o.sections[k] == st.sections[k]);
                        }
                    }
                }
            }
        }
        if j > i && j <= ks.len() {
            lemma_run_titles_within(ks, max, st2, j);
        }
    }
}

/// Law: a heading becomes the title of a section only when its text is at
/// most `max` characters long; longer headings stay in the text. So every
/// section title is at most `max` characters long.
pub proof fn lemma_section_titles_within(ks: Seq<MdKind>, max: nat)
    ensures
        forall|k: int| 0 <= k < split_sections(ks, max).len() ==> (#[trigger] split_sections(ks, max)[k]).0.len() <= max,
{
    let init = SplitState {
        sections: Seq::empty(),
        pending: Seq::empty(),
        title: Seq::empty(),
        current: Seq::empty(),
        depth: 0,
    };
    lemma_run_titles_within(ks, max, init, 0);
    let st = split_run(ks, max, init, 0);
    let fin = split_finish(st);
    assert forall|k: int| 0 <= k < fin.len() implies (#[trigger] fin[k]).0.len() <= max by {
        if k < st.sections.len() {
            assert(fin[k] == st.sections[k]);
        }
    }
}

} // verus!
