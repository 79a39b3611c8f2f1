//! Footnotes of Markdown sections.
//!
//! Definitions are taken out of the section they stand in; a second
//! definition of a label in the same section is kept as plain content.
//! A reference is resolved to the definition in its own section when
//! there is one, else to the first definition of the document; the
//! definitions a section refers to, and those they refer to in turn, are
//! appended to the section, each label once. Definitions nobody refers to
//! end up in the last section.
//!
//! Sections are lists of items: an event of the document by its position,
//! or the end of a definition appended here.

use vstd::prelude::*;
use crate::parser::markdown_sections::MdKind;
use crate::text::{chars_eq, chars_of, string_of};

verus! {

/// An item of a section: the event at a position of the document, or the
/// end of a definition.
#[derive(Debug, Clone, Copy, PartialEq, Eq, Structural)]
pub enum MdItem {
    Event(usize),
    DefinitionEnd,
}

/// A footnote definition: the section it was found in, the position of
/// its start event (which names the label), and its content.
#[derive(Debug, Clone)]
pub struct FootnoteDef {
    pub section: usize,
    pub start: usize,
    pub items: Vec<MdItem>,
}

/// What an item is.
pub open spec fn kind_at(ks: Seq<MdKind>, it: MdItem) -> MdKind {
    match it {
        MdItem::Event(i) => if i < ks.len() { ks[i as int] } else { MdKind::Other },
        MdItem::DefinitionEnd => MdKind::FootnoteEnd,
    }
}

/// The label of a definition start.
pub open spec fn start_label(ks: Seq<MdKind>, it: MdItem) -> Option<Seq<char>> {
    match kind_at(ks, it) {
        MdKind::FootnoteStart(l) => Some(l@),
        _ => None,
    }
}

/// The label of a reference.
pub open spec fn ref_label(ks: Seq<MdKind>, it: MdItem) -> Option<Seq<char>> {
    match kind_at(ks, it) {
        MdKind::FootnoteRef(l) => Some(l@),
        _ => None,
    }
}

/// Every event item names an event of the document.
pub open spec fn items_valid(ks: Seq<MdKind>, items: Seq<MdItem>) -> bool {
    forall|k: int| 0 <= k < items.len() ==> match #[trigger] items[k] {
        MdItem::Event(i) => i < ks.len(),
        MdItem::DefinitionEnd => true,
    }
}

/// The position where a definition opened before `j` closes: nesting
/// counted from `d`, the position of the end that brings it to zero, or
/// the end of the items.
pub open spec fn def_close(ks: Seq<MdKind>, items: Seq<MdItem>, j: int, d: int) -> int
    decreases items.len() - j,
{
    if j < 0 || j >= items.len() {
        items.len() as int
    } else {
        let d2 = match kind_at(ks, items[j]) {
            MdKind::FootnoteStart(_) => d + 1,
            MdKind::FootnoteEnd => d - 1,
            _ => d,
        };
        if d2 == 0 {
            j
        } else {
            def_close(ks, items, j + 1, d2)
        }
    }
}

pub proof fn lemma_def_close_bounds(ks: Seq<MdKind>, items: Seq<MdItem>, j: int, d: int)
    requires
        0 <= j <= items.len(),
    ensures
        j <= def_close(ks, items, j, d) <= items.len(),
    decreases items.len() - j,
{
    if j < items.len() {
        let d2 = match kind_at(ks, items[j]) {
            MdKind::FootnoteStart(_) => d + 1,
            MdKind::FootnoteEnd => d - 1,
            _ => d,
        };
        if d2 != 0 {
            lemma_def_close_bounds(ks, items, j + 1, d2);
        }
    }
}

/// What taking definitions out gives: the items left in place, the labels
/// met in the section so far, and the definitions (section, start,
/// content) in the order they were taken.
#[verifier::ext_equal]
pub struct Extraction {
    pub flow: Seq<MdItem>,
    pub seen: Seq<Seq<char>>,
    pub defs: Seq<(usize, usize, Seq<MdItem>)>,
}

/// The position of the event an item names.
pub open spec fn item_position(it: MdItem) -> usize {
    match it {
        MdItem::Event(i) => i,
        MdItem::DefinitionEnd => 0,
    }
}

/// Takes the definitions out of `items` from `idx` on, in section
/// `section`. A definition's own content is handled first (definitions
/// nested in it are taken out too); then the definition is kept when its
/// label is new in the section, and otherwise its content stays in place.
pub open spec fn extract_from(ks: Seq<MdKind>, items: Seq<MdItem>, idx: int, section: usize, acc: Extraction) -> Extraction
    decreases items.len(), items.len() - idx,
{
    if idx < 0 || idx >= items.len() {
        acc
    } else {
        match start_label(ks, items[idx]) {
            None => extract_from(ks, items, idx + 1, section, Extraction { flow: acc.flow.push(items[idx]), ..acc }),
            Some(label) => {
                let end = def_close(ks, items, idx + 1, 1);
                proof {
                    lemma_def_close_bounds(ks, items, idx + 1, 1);
                }
                let inner = extract_from(
                    ks,
                    items.subrange(idx + 1, end),
                    0,
                    section,
                    Extraction { flow: Seq::empty(), seen: acc.seen, defs: acc.defs },
                );
                let next = if !inner.seen.contains(label) {
                    Extraction {
                        flow: acc.flow,
                        seen: inner.seen.push(label),
                        defs: inner.defs.push((section, item_position(items[idx]), inner.flow)),
                    }
                } else {
                    Extraction { flow: acc.flow + inner.flow, seen: inner.seen, defs: inner.defs }
                };
                if end + 1 >= items.len() {
                    next
                } else {
                    extract_from(ks, items, end + 1, section, next)
                }
            },
        }
    }
}

/// The views of labels.
pub open spec fn label_views(v: Seq<String>) -> Seq<Seq<char>> {
    v.map_values(|s: String| s@)
}

/// The views of definitions.
pub open spec fn def_views(v: Seq<FootnoteDef>) -> Seq<(usize, usize, Seq<MdItem>)> {
    v.map_values(|d: FootnoteDef| (d.section, d.start, d.items@))
}

/// What an item is.
fn kind_of<'a>(ks: &'a [MdKind], it: MdItem) -> (r: &'a MdKind)
    requires
        it matches MdItem::Event(i) ==> i < ks.len(),
    ensures
        *r == kind_at(ks@, it),
{
    match it {
        MdItem::Event(i) => &ks[i],
        MdItem::DefinitionEnd => &MdKind::FootnoteEnd,
    }
}

/// The position where the definition opened before `j` closes.
fn def_close_exec(ks: &[MdKind], items: &[MdItem], j: usize) -> (r: usize)
    requires
        1 <= j <= items.len(),
        items_valid(ks@, items@),
    ensures
        r == def_close(ks@, items@, j as int, 1),
        j <= r <= items.len(),
{
    proof { lemma_def_close_bounds(ks@, items@, j as int, 1); }
    let mut depth: usize = 1;
    let mut end = j;
    while end < items.len()
        invariant
            1 <= j <= end <= items.len(),
            depth >= 1,
            depth <= 1 + end - j,
            items_valid(ks@, items@),
            def_close(ks@, items@, j as int, 1) == def_close(ks@, items@, end as int, depth as int),
        decreases items.len() - end,
    {
        assert(items@[end as int] matches MdItem::Event(i) ==> i < ks.len());
        match kind_of(ks, items[end]) {
            MdKind::FootnoteStart(_) => {
                depth = depth + 1;
            },
            MdKind::FootnoteEnd => {
                depth = depth - 1;
            },
            _ => {},
        }
        if depth == 0 {
            return end;
        }
        end = end + 1;
    }
    end
}

/// The items `a` up to `b` (excluded).
fn sub_items(items: &[MdItem], a: usize, b: usize) -> (r: Vec<MdItem>)
    requires
        a <= b <= items.len(),
    ensures
        r@ == items@.subrange(a as int, b as int),
{
    let mut r: Vec<MdItem> = Vec::new();
    let mut k = a;
    while k < b
        invariant
            a <= k <= b,
            b <= items.len(),
            r@ == items@.subrange(a as int, k as int),
        decreases b - k,
    {
        r.push(items[k]);
        assert(items@.subrange(a as int, k + 1) == items@.subrange(a as int, k as int).push(items@[k as int]));
        k = k + 1;
    }
    r
}

/// Whether `label` is among `seen`.
fn has_label(seen: &Vec<String>, label: &str) -> (r: bool)
    ensures
        r == label_views(seen@).contains(label@),
{
    let lv = chars_of(label);
    let mut i: usize = 0;
    while i < seen.len()
        invariant
            i <= seen@.len(),
            lv@ == label@,
            forall|k: int| 0 <= k < i ==> seen@[k]@ != label@,
        decreases seen.len() - i,
    {
        if chars_eq(&chars_of(seen[i].as_str()), &lv) {
            assert(label_views(seen@)[i as int] == label@);
            return true;
        }
        i = i + 1;
    }
    proof {
        if label_views(seen@).contains(label@) {
            let k = choose|k: int| 0 <= k < label_views(seen@).len() && label_views(seen@)[k] == label@;
            assert(seen@[k]@ == label@);
        }
    }
    false
}

/// Takes the definitions out of the items of section `section`, as
/// [`extract_from`] says: `seen` gathers the labels met, `defs` the
/// definitions taken; the items left in place are returned.
pub fn extract_definitions(
    ks: &[MdKind],
    items: &[MdItem],
    section: usize,
    seen: &mut Vec<String>,
    defs: &mut Vec<FootnoteDef>,
) -> (flow: Vec<MdItem>)
    requires
        items_valid(ks@, items@),
        defs_valid(ks@, def_views(old(defs)@)),
    ensures
        items_valid(ks@, flow@),
        defs_valid(ks@, def_views(final(defs)@)),
        (Extraction { flow: flow@, seen: label_views(final(seen)@), defs: def_views(final(defs)@) }) == extract_from(
            ks@,
            items@,
            0,
            section,
            Extraction { flow: Seq::empty(), seen: label_views(old(seen)@), defs: def_views(old(defs)@) },
        ),
    decreases items.len(),
{
    let ghost init = Extraction { flow: Seq::empty(), seen: label_views(seen@), defs: def_views(defs@) };
    let mut flow: Vec<MdItem> = Vec::new();
    let mut idx: usize = 0;
    while idx < items.len()
        invariant
            idx <= items@.len(),
            items_valid(ks@, items@),
            items_valid(ks@, flow@),
            defs_valid(ks@, def_views(defs@)),
            extract_from(ks@, items@, 0, section, init) == extract_from(
                ks@,
                items@,
                idx as int,
                section,
                Extraction { flow: flow@, seen: label_views(seen@), defs: def_views(defs@) },
            ),
        decreases items.len() - idx,
    {
        let ghost acc = Extraction { flow: flow@, seen: label_views(seen@), defs: def_views(defs@) };
        assert(items@[idx as int] matches MdItem::Event(i) ==> i < ks.len());
        let label: Option<String> = match kind_of(ks, items[idx]) {
            MdKind::FootnoteStart(l) => Some(string_of(&chars_of(l.as_str()))),
            _ => None,
        };
        match label {
            None => {
                let ghost fv = flow@;
                flow.push(items[idx]);
                assert(items_valid(ks@, flow@)) by {
                    assert forall|x: int| 0 <= x < flow@.len() implies match #[trigger] flow@[x] {
                        MdItem::Event(i) => i < ks.len(),
                        MdItem::DefinitionEnd => true,
                    } by {
                        if x < fv.len() {
                            assert(flow@[x] == fv[x]);
                        }
                    }
                }
                idx = idx + 1;
            },
            Some(label) => {
                let end = def_close_exec(ks, items, idx + 1);
                let inner_items = sub_items(items, idx + 1, end);
                assert(items_valid(ks@, inner_items@)) by {
                    assert forall|k: int| 0 <= k < inner_items@.len() implies match #[trigger] inner_items@[k] {
                        MdItem::Event(i) => i < ks.len(),
                        MdItem::DefinitionEnd => true,
                    } by {
                        assert(inner_items@[k] == items@[idx + 1 + k]);
                    }
                }
                let ghost seen_before = seen@;
                let inner = extract_definitions(ks, &inner_items, section, seen, defs);
                if !has_label(seen, label.as_str()) {
                    let start = match items[idx] {
                        MdItem::Event(i) => i,
                        MdItem::DefinitionEnd => 0,
                    };
                    let ghost dv = def_views(defs@);
                    let ghost sv = label_views(seen@);
                    seen.push(label);
                    defs.push(FootnoteDef { section, start, items: inner });
                    assert(label_views(seen@) =~= sv.push(label@));
                    assert(def_views(defs@) =~= dv.push((section, start, inner@)));
                    assert(defs_valid(ks@, def_views(defs@))) by {
                        assert forall|k: int| 0 <= k < def_views(defs@).len() implies (#[trigger] def_views(defs@)[k]).1
                            < ks.len() && items_valid(ks@, def_views(defs@)[k].2) by {
                            if k < dv.len() {
                                assert(def_views(defs@)[k] == dv[k]);
                            }
                        }
                    }
                } else {
                    let ghost fv = flow@;
                    let mut k: usize = 0;
                    while k < inner.len()
                        invariant
                            k <= inner@.len(),
                            flow@ == fv + inner@.take(k as int),
                            items_valid(ks@, fv),
                            items_valid(ks@, inner@),
                        decreases inner.len() - k,
                    {
                        flow.push(inner[k]);
                        assert(inner@.take(k + 1) == inner@.take(k as int).push(inner@[k as int]));
                        assert(items_valid(ks@, flow@)) by {
                            assert forall|x: int| 0 <= x < flow@.len() implies match #[trigger] flow@[x] {
                                MdItem::Event(i) => i < ks.len(),
                                MdItem::DefinitionEnd => true,
                            } by {
                                if x < fv.len() + k {
                                    if x < fv.len() {
                                        assert(flow@[x] == fv[x]);
                                    } else {
                                        assert(flow@[x] == inner@[x - fv.len()]);
                                    }
                                } else {
                                    assert(flow@[x] == inner@[k as int]);
                                }
                            }
                        }
                        k = k + 1;
                    }
                    assert(inner@.take(k as int) == inner@);
                }
                if end >= items.len() - 1 {
                    idx = items.len();
                } else {
                    idx = end + 1;
                }
            },
        }
    }
    flow
}

/// The labels a run of items refers to, in order, each once.
pub open spec fn refs_of(ks: Seq<MdKind>, items: Seq<MdItem>) -> Seq<Seq<char>>
    decreases items.len(),
{
    if items.len() == 0 {
        Seq::empty()
    } else {
        let r = refs_of(ks, items.drop_last());
        match ref_label(ks, items.last()) {
            Some(l) => if r.contains(l) { r } else { r.push(l) },
            None => r,
        }
    }
}

proof fn lemma_refs_no_duplicates(ks: Seq<MdKind>, items: Seq<MdItem>)
    ensures
        refs_of(ks, items).no_duplicates(),
    decreases items.len(),
{
    if items.len() > 0 {
        lemma_refs_no_duplicates(ks, items.drop_last());
    }
}

/// The labels a run of items refers to, in order, each once.
pub fn refs_in(ks: &[MdKind], items: &[MdItem]) -> (r: Vec<String>)
    requires
        items_valid(ks@, items@),
    ensures
        label_views(r@) == refs_of(ks@, items@),
{
    let mut r: Vec<String> = Vec::new();
    let mut i: usize = 0;
    while i < items.len()
        invariant
            i <= items@.len(),
            items_valid(ks@, items@),
            label_views(r@) == refs_of(ks@, items@.take(i as int)),
        decreases items.len() - i,
    {
        assert(items@.take(i + 1).drop_last() == items@.take(i as int));
        assert(items@[i as int] matches MdItem::Event(j) ==> j < ks.len());
        if let MdKind::FootnoteRef(l) = kind_of(ks, items[i]) {
            if !has_label(&r, l.as_str()) {
                let ghost before = label_views(r@);
                r.push(string_of(&chars_of(l.as_str())));
                assert(label_views(r@) =~= before.push(l@));
            }
        }
        i = i + 1;
    }
    assert(items@.take(i as int) == items@);
    r
}

/// The label of a definition.
pub open spec fn def_label(ks: Seq<MdKind>, d: (usize, usize, Seq<MdItem>)) -> Seq<char> {
    match start_label(ks, MdItem::Event(d.1)) {
        Some(l) => l,
        None => Seq::empty(),
    }
}

/// The first definition of `label` from `i` on, in section `section` when
/// one is given.
pub open spec fn find_def(
    ks: Seq<MdKind>,
    defs: Seq<(usize, usize, Seq<MdItem>)>,
    label: Seq<char>,
    section: Option<usize>,
    i: int,
) -> Option<int>
    decreases defs.len() - i,
{
    if i < 0 || i >= defs.len() {
        None
    } else if def_label(ks, defs[i]) == label && (section matches Some(s) ==> defs[i].0 == s) {
        Some(i)
    } else {
        find_def(ks, defs, label, section, i + 1)
    }
}

/// The definition a reference to `label` in section `section` stands for:
/// the first one in that section, else the first one anywhere.
pub open spec fn resolve_def(ks: Seq<MdKind>, defs: Seq<(usize, usize, Seq<MdItem>)>, section: usize, label: Seq<char>) -> Option<int> {
    match find_def(ks, defs, label, Some(section), 0) {
        Some(i) => Some(i),
        None => find_def(ks, defs, label, None, 0),
    }
}

proof fn lemma_find_def_bounds(
    ks: Seq<MdKind>,
    defs: Seq<(usize, usize, Seq<MdItem>)>,
    label: Seq<char>,
    section: Option<usize>,
    i: int,
)
    ensures
        find_def(ks, defs, label, section, i) matches Some(k) ==> 0 <= k < defs.len() && def_label(ks, defs[k])
            == label,
    decreases defs.len() - i,
{
    if 0 <= i < defs.len() {
        lemma_find_def_bounds(ks, defs, label, section, i + 1);
    }
}

/// The label of definition `d`.
fn def_label_exec(ks: &[MdKind], d: &FootnoteDef) -> (r: String)
    requires
        d.start < ks.len(),
    ensures
        r@ == def_label(ks@, (d.section, d.start, d.items@)),
{
    match &ks[d.start] {
        MdKind::FootnoteStart(l) => string_of(&chars_of(l.as_str())),
        _ => String::new(),
    }
}

/// Every definition starts at an event of the document and holds valid
/// items.
pub open spec fn defs_valid(ks: Seq<MdKind>, defs: Seq<(usize, usize, Seq<MdItem>)>) -> bool {
    forall|k: int| 0 <= k < defs.len() ==> (#[trigger] defs[k]).1 < ks.len() && items_valid(ks, defs[k].2)
}

/// The definition a reference to `label` in section `section` stands for.
fn resolve_def_exec(ks: &[MdKind], defs: &[FootnoteDef], section: usize, label: &str) -> (r: Option<usize>)
    requires
        defs_valid(ks@, def_views(defs@)),
    ensures
        match resolve_def(ks@, def_views(defs@), section, label@) {
            Some(k) => r == Some(k as usize),
            None => r is None,
        },
{
    let ghost dv = def_views(defs@);
    let lv = chars_of(label);
    let mut first: Option<usize> = None;
    let mut i: usize = 0;
    while i < defs.len()
        invariant
            i <= defs@.len(),
            dv == def_views(defs@),
            defs_valid(ks@, dv),
            lv@ == label@,
            find_def(ks@, dv, label@, Some(section), 0) == find_def(ks@, dv, label@, Some(section), i as int),
            match first {
                None => find_def(ks@, dv, label@, None, 0) == find_def(ks@, dv, label@, None, i as int),
                Some(f) => find_def(ks@, dv, label@, None, 0) == Some(f as int),
            },
        decreases defs.len() - i,
    {
        assert(dv[i as int] == (defs@[i as int].section, defs@[i as int].start, defs@[i as int].items@));
        let l = def_label_exec(ks, &defs[i]);
        if chars_eq(&chars_of(l.as_str()), &lv) {
            if defs[i].section == section {
                return Some(i);
            }
            if first.is_none() {
                first = Some(i);
            }
        }
        i = i + 1;
    }
    first
}

/// Puts the labels of `refs` not queued yet at the end of the queue.
pub open spec fn enqueue(pending: Seq<Seq<char>>, queued: Seq<Seq<char>>, refs: Seq<Seq<char>>) -> (Seq<Seq<char>>, Seq<Seq<char>>)
    decreases refs.len(),
{
    if refs.len() == 0 {
        (pending, queued)
    } else {
        let (p, q) = enqueue(pending, queued, refs.drop_last());
        let r = refs.last();
        if q.contains(r) {
            (p, q)
        } else {
            (p.push(r), q.push(r))
        }
    }
}

/// The definitions a section takes in: the labels of the queue are taken
/// in turn; a label with a definition adds that definition, and queues
/// the labels it refers to that were never queued. `fuel` bounds the
/// number of turns (it is always enough: see [`gather_definitions`]).
pub open spec fn gather(
    ks: Seq<MdKind>,
    defs: Seq<(usize, usize, Seq<MdItem>)>,
    section: usize,
    pending: Seq<Seq<char>>,
    queued: Seq<Seq<char>>,
    adds: Seq<(Seq<char>, int)>,
    fuel: nat,
) -> Seq<(Seq<char>, int)>
    decreases fuel,
{
    if fuel == 0 || pending.len() == 0 {
        adds
    } else {
        let l = pending[0];
        match resolve_def(ks, defs, section, l) {
            None => gather(ks, defs, section, pending.drop_first(), queued, adds, (fuel - 1) as nat),
            Some(i) => {
                let (p2, q2) = enqueue(pending.drop_first(), queued, refs_of(ks, defs[i].2));
                gather(ks, defs, section, p2, q2, adds.push((l, i)), (fuel - 1) as nat)
            },
        }
    }
}

proof fn lemma_gather_bounds(
    ks: Seq<MdKind>,
    defs: Seq<(usize, usize, Seq<MdItem>)>,
    section: usize,
    pending: Seq<Seq<char>>,
    queued: Seq<Seq<char>>,
    adds: Seq<(Seq<char>, int)>,
    fuel: nat,
)
    requires
        forall|x: int| 0 <= x < adds.len() ==> 0 <= (#[trigger] adds[x]).1 < defs.len(),
    ensures
        forall|x: int| 0 <= x < gather(ks, defs, section, pending, queued, adds, fuel).len() ==> 0 <= (
        #[trigger] gather(ks, defs, section, pending, queued, adds, fuel)[x]).1 < defs.len(),
    decreases fuel,
{
    if fuel > 0 && pending.len() > 0 {
        let l = pending[0];
        lemma_find_def_bounds(ks, defs, l, Some(section), 0);
        lemma_find_def_bounds(ks, defs, l, None, 0);
        match resolve_def(ks, defs, section, l) {
            None => {
                assert(gather(ks, defs, section, pending, queued, adds, fuel) == gather(ks, defs, section,
                    pending.drop_first(), queued, adds, (fuel - 1) as nat));
                lemma_gather_bounds(ks, defs, section, pending.drop_first(), queued, adds, (fuel - 1) as nat);
            },
            Some(i) => {
                let (p2, q2) = enqueue(pending.drop_first(), queued, refs_of(ks, defs[i].2));
                let a2 = adds.push((l, i));
                assert forall|x: int| 0 <= x < a2.len() implies 0 <= (#[trigger] a2[x]).1 < defs.len() by {
                    if x < adds.len() {
                        assert(a2[x] == adds[x]);
                    }
                }
                assert(gather(ks, defs, section, pending, queued, adds, fuel) == gather(ks, defs, section, p2, q2, a2,
                    (fuel - 1) as nat));
                lemma_gather_bounds(ks, defs, section, p2, q2, a2, (fuel - 1) as nat);
            },
        }
    }
}

/// The labels every definition refers to, one definition after another.
pub open spec fn all_refs(ks: Seq<MdKind>, defs: Seq<(usize, usize, Seq<MdItem>)>) -> Seq<Seq<char>>
    decreases defs.len(),
{
    if defs.len() == 0 {
        Seq::empty()
    } else {
        all_refs(ks, defs.drop_last()) + refs_of(ks, defs.last().2)
    }
}

proof fn lemma_all_refs_contains(ks: Seq<MdKind>, defs: Seq<(usize, usize, Seq<MdItem>)>, i: int, l: Seq<char>)
    requires
        0 <= i < defs.len(),
        refs_of(ks, defs[i].2).contains(l),
    ensures
        all_refs(ks, defs).contains(l),
    decreases defs.len(),
{
    let a = all_refs(ks, defs.drop_last());
    let b = refs_of(ks, defs.last().2);
    if i < defs.len() - 1 {
        assert(defs.drop_last()[i] == defs[i]);
        lemma_all_refs_contains(ks, defs.drop_last(), i, l);
        let k = choose|k: int| 0 <= k < a.len() && a[k] == l;
        assert((a + b)[k] == l);
    } else {
        let k = choose|k: int| 0 <= k < b.len() && b[k] == l;
        assert((a + b)[a.len() + k] == l);
    }
}

/// A list without repeats whose elements all occur in `s` is no longer
/// than `s`.
proof fn lemma_distinct_within(q: Seq<Seq<char>>, s: Seq<Seq<char>>)
    requires
        q.no_duplicates(),
        forall|k: int| 0 <= k < q.len() ==> s.contains(#[trigger] q[k]),
    ensures
        q.len() <= s.len(),
{
    q.unique_seq_to_set();
    s.lemma_cardinality_of_set();
    assert(q.to_set().subset_of(s.to_set())) by {
        assert forall|x: Seq<char>| q.to_set().contains(x) implies s.to_set().contains(x) by {
            let k = choose|k: int| 0 <= k < q.len() && q[k] == x;
            assert(s.contains(q[k]));
        }
    }
    vstd::set_lib::lemma_len_subset(q.to_set(), s.to_set());
}

/// The views of the definitions a section takes in.
pub open spec fn add_views(v: Seq<(String, usize)>) -> Seq<(Seq<char>, int)> {
    v.map_values(|a: (String, usize)| (a.0@, a.1 as int))
}

/// The definitions section `section` takes in, for the references of its
/// items `initial` (in order, each once): the labels and the definitions,
/// as [`gather`] says with fuel for one turn per label that can ever be
/// queued.
fn gather_definitions(ks: &[MdKind], defs: &[FootnoteDef], section: usize, initial: Vec<String>) -> (r: Vec<(String, usize)>)
    requires
        defs_valid(ks@, def_views(defs@)),
        label_views(initial@).no_duplicates(),
    ensures
        add_views(r@) == gather(
            ks@,
            def_views(defs@),
            section,
            label_views(initial@),
            label_views(initial@),
            Seq::empty(),
            (initial@.len() + all_refs(ks@, def_views(defs@)).len()) as nat,
        ),
{
    let ghost dv = def_views(defs@);
    let ghost total = label_views(initial@) + all_refs(ks@, dv);
    let ghost n: nat = (initial@.len() + all_refs(ks@, dv).len()) as nat;
    let mut pending: Vec<String> = Vec::new();
    let mut queued: Vec<String> = Vec::new();
    let mut k: usize = 0;
    while k < initial.len()
        invariant
            k <= initial@.len(),
            label_views(pending@) == label_views(initial@).take(k as int),
            label_views(queued@) == label_views(initial@).take(k as int),
        decreases initial.len() - k,
    {
        let ghost pv = label_views(pending@);
        let ghost qv = label_views(queued@);
        pending.push(string_of(&chars_of(initial[k].as_str())));
        queued.push(string_of(&chars_of(initial[k].as_str())));
        assert(label_views(initial@).take(k + 1) =~= label_views(initial@).take(k as int).push(initial@[k as int]@));
        assert(label_views(pending@) =~= pv.push(initial@[k as int]@));
        assert(label_views(queued@) =~= qv.push(initial@[k as int]@));
        k = k + 1;
    }
    assert(label_views(initial@).take(k as int) == label_views(initial@));
    let mut adds: Vec<(String, usize)> = Vec::new();
    let mut h: usize = 0;
    let ghost mut fuel: nat = n;
    assert(label_views(pending@).skip(0) =~= label_views(pending@));
    assert(add_views(adds@) =~= Seq::<(Seq<char>, int)>::empty());
    assert(label_views(initial@).len() == initial@.len());
    proof {
        assert forall|j: int| 0 <= j < label_views(queued@).len() implies total.contains(
            #[trigger] label_views(queued@)[j]) by {
            assert(total[j] == label_views(queued@)[j]);
        }
    }
    while h < pending.len()
        invariant
            dv == def_views(defs@),
            defs_valid(ks@, dv),
            h <= pending@.len(),
            label_views(queued@).no_duplicates(),
            forall|j: int| 0 <= j < label_views(queued@).len() ==> total.contains(#[trigger] label_views(queued@)[j]),
            total.len() == n,
            total == label_views(initial@) + all_refs(ks@, dv),
            label_views(initial@).len() == initial@.len(),
            pending@.len() - h + n - queued@.len() == fuel,
            gather(ks@, dv, section, label_views(initial@), label_views(initial@), Seq::empty(), n) == gather(
                ks@,
                dv,
                section,
                label_views(pending@).skip(h as int),
                label_views(queued@),
                add_views(adds@),
                fuel,
            ),
        decreases fuel,
    {
        proof {
            lemma_distinct_within(label_views(queued@), total);
        }
        let ghost pend = label_views(pending@).skip(h as int);
        let ghost qv = label_views(queued@);
        let ghost av = add_views(adds@);
        assert(pend[0] == pending@[h as int]@);
        assert(pend.drop_first() == label_views(pending@).skip(h + 1));
        let label = string_of(&chars_of(pending[h].as_str()));
        h = h + 1;
        match resolve_def_exec(ks, defs, section, label.as_str()) {
            None => {},
            Some(i) => {
                proof {
                    lemma_find_def_bounds(ks@, dv, label@, Some(section), 0);
                    lemma_find_def_bounds(ks@, dv, label@, None, 0);
                }
                assert(dv[i as int] == (defs@[i as int].section, defs@[i as int].start, defs@[i as int].items@));
                let refs = refs_in(ks, defs[i].items.as_slice());
                proof {
                    assert(label_views(initial@).len() == initial@.len());
                    assert forall|x: int| 0 <= x < label_views(refs@).len() implies total.contains(
                        #[trigger] label_views(refs@)[x]) by {
                        assert(refs_of(ks@, dv[i as int].2).contains(label_views(refs@)[x]));
                        lemma_all_refs_contains(ks@, dv, i as int, label_views(refs@)[x]);
                        let y = choose|y: int| 0 <= y < all_refs(ks@, dv).len() && all_refs(ks@, dv)[y] == label_views(
                            refs@)[x];
                        assert(total[label_views(initial@).len() + y] == label_views(refs@)[x]);
                    }
                }
                let ghost pv0 = label_views(pending@);
                let mut j: usize = 0;
                while j < refs.len()
                    invariant
                        j <= refs@.len(),
                        h <= pending@.len(),
                        pv0.skip(h as int) == pend.drop_first(),
                        (label_views(pending@).skip(h as int), label_views(queued@)) == enqueue(
                            pend.drop_first(),
                            qv,
                            label_views(refs@).take(j as int),
                        ),
                        label_views(pending@).len() == pv0.len() + (queued@.len() - qv.len()),
                        label_views(queued@).no_duplicates(),
                        forall|x: int| 0 <= x < label_views(queued@).len() ==> total.contains(
                            #[trigger] label_views(queued@)[x]),
                        forall|x: int| 0 <= x < label_views(refs@).len() ==> total.contains(#[trigger] label_views(refs@)[x]),
                    decreases refs.len() - j,
                {
                    assert(label_views(refs@).take(j + 1).drop_last() == label_views(refs@).take(j as int));
                    assert(label_views(refs@).take(j + 1).last() == refs@[j as int]@);
                    if !has_label(&queued, refs[j].as_str()) {
                        let ghost pb = label_views(pending@);
                        let ghost qb = label_views(queued@);
                        pending.push(string_of(&chars_of(refs[j].as_str())));
                        queued.push(string_of(&chars_of(refs[j].as_str())));
                        assert(label_views(pending@) =~= pb.push(refs@[j as int]@));
                        assert(label_views(queued@) =~= qb.push(refs@[j as int]@));
                        assert(label_views(pending@).skip(h as int) =~= pb.skip(h as int).push(refs@[j as int]@));
                        assert(total.contains(label_views(refs@)[j as int]));
                        assert forall|x: int| 0 <= x < label_views(queued@).len() implies total.contains(
                            #[trigger] label_views(queued@)[x]) by {
                            if x < qb.len() {
                                assert(label_views(queued@)[x] == qb[x]);
                            }
                        }
                    }
                    j = j + 1;
                }
                assert(label_views(refs@).take(j as int) == label_views(refs@));
                let ghost dl = dv[i as int].2;
                adds.push((label, i));
                assert(add_views(adds@) =~= av.push((pend[0], i as int)));
            },
        }
        proof {
            fuel = (fuel - 1) as nat;
        }
    }
    adds
}

/// Queues the labels of `refs` that were never queued: the queue and the
/// labels ever queued, as [`enqueue`] says.
fn enqueue_exec(pending: &mut Vec<String>, queued: &mut Vec<String>, refs: &Vec<String>)
    requires
        label_views(old(queued)@).no_duplicates(),
    ensures
        (label_views(final(pending)@), label_views(final(queued)@)) == enqueue(
            label_views(old(pending)@),
            label_views(old(queued)@),
            label_views(refs@),
        ),
        label_views(final(queued)@).no_duplicates(),
        final(queued)@.len() - old(queued)@.len() == final(pending)@.len() - old(pending)@.len(),
        forall|x: int| 0 <= x < label_views(final(queued)@).len() ==> label_views(old(queued)@).contains(
            #[trigger] label_views(final(queued)@)[x]) || label_views(refs@).contains(label_views(final(queued)@)[x]),
{
    let ghost p0 = label_views(pending@);
    let ghost q0 = label_views(queued@);
    let mut j: usize = 0;
    while j < refs.len()
        invariant
            j <= refs@.len(),
            (label_views(pending@), label_views(queued@)) == enqueue(p0, q0, label_views(refs@).take(j as int)),
            label_views(queued@).no_duplicates(),
            queued@.len() - q0.len() == pending@.len() - p0.len(),
            p0.len() <= pending@.len(),
            forall|x: int| 0 <= x < label_views(queued@).len() ==> q0.contains(#[trigger] label_views(queued@)[x])
                || label_views(refs@).contains(label_views(queued@)[x]),
        decreases refs.len() - j,
    {
        assert(label_views(refs@).take(j + 1).drop_last() == label_views(refs@).take(j as int));
        assert(label_views(refs@).take(j + 1).last() == refs@[j as int]@);
        if !has_label(queued, refs[j].as_str()) {
            let ghost pb = label_views(pending@);
            let ghost qb = label_views(queued@);
            pending.push(string_of(&chars_of(refs[j].as_str())));
            queued.push(string_of(&chars_of(refs[j].as_str())));
            assert(label_views(pending@) =~= pb.push(refs@[j as int]@));
            assert(label_views(queued@) =~= qb.push(refs@[j as int]@));
            assert(label_views(refs@)[j as int] == refs@[j as int]@);
            assert forall|x: int| 0 <= x < label_views(queued@).len() implies q0.contains(
                #[trigger] label_views(queued@)[x]) || label_views(refs@).contains(label_views(queued@)[x]) by {
                if x < qb.len() {
                    assert(label_views(queued@)[x] == qb[x]);
                }
            }
        }
        j = j + 1;
    }
    assert(label_views(refs@).take(j as int) == label_views(refs@));
}

/// `s` with each label kept at its first place only.
pub open spec fn dedup_labels(s: Seq<Seq<char>>) -> Seq<Seq<char>>
    decreases s.len(),
{
    if s.len() == 0 {
        s
    } else {
        let d = dedup_labels(s.drop_last());
        if d.contains(s.last()) {
            d
        } else {
            d.push(s.last())
        }
    }
}

/// The items that append definition `d`: its start, its content, its end.
pub open spec fn definition_block(d: (usize, usize, Seq<MdItem>)) -> Seq<MdItem> {
    seq![MdItem::Event(d.1)] + d.2 + seq![MdItem::DefinitionEnd]
}

/// Appends definition `d` to `items`.
fn push_definition(items: &mut Vec<MdItem>, d: &FootnoteDef)
    ensures
        final(items)@ == old(items)@ + definition_block((d.section, d.start, d.items@)),
{
    let ghost before = items@;
    items.push(MdItem::Event(d.start));
    let mut k: usize = 0;
    while k < d.items.len()
        invariant
            k <= d.items@.len(),
            items@ == before.push(MdItem::Event(d.start)) + d.items@.take(k as int),
        decreases d.items.len() - k,
    {
        items.push(d.items[k]);
        assert(d.items@.take(k + 1) == d.items@.take(k as int).push(d.items@[k as int]));
        k = k + 1;
    }
    assert(d.items@.take(k as int) == d.items@);
    items.push(MdItem::DefinitionEnd);
    assert(items@ =~= before + definition_block((d.section, d.start, d.items@)));
}

/// The state of the last section while unused definitions are added: its
/// items, the labels with a definition in it, the queue of labels and the
/// labels ever queued.
#[verifier::ext_equal]
pub struct OrphanState {
    pub items: Seq<MdItem>,
    pub anchored: Seq<Seq<char>>,
    pub pending: Seq<Seq<char>>,
    pub queued: Seq<Seq<char>>,
}

/// Adds the definitions from `i` on that no section used: a label new to
/// the section brings its definition, one already there only its content;
/// the labels they refer to are queued.
pub open spec fn orphan_pass(ks: Seq<MdKind>, defs: Seq<(usize, usize, Seq<MdItem>)>, used: Seq<bool>, i: int, st: OrphanState) -> OrphanState
    decreases defs.len() - i,
{
    if i < 0 || i >= defs.len() {
        st
    } else if i < used.len() && used[i] {
        orphan_pass(ks, defs, used, i + 1, st)
    } else {
        let label = def_label(ks, defs[i]);
        let (p, q) = enqueue(st.pending, st.queued, refs_of(ks, defs[i].2));
        let st2 = if !st.anchored.contains(label) {
            OrphanState { items: st.items + definition_block(defs[i]), anchored: st.anchored.push(label), pending: p, queued: q }
        } else {
            OrphanState { items: st.items + defs[i].2, anchored: st.anchored, pending: p, queued: q }
        };
        orphan_pass(ks, defs, used, i + 1, st2)
    }
}

/// Then the queue is worked off: a label without a definition in the
/// section yet brings the definition it resolves to, and queues the labels
/// that one refers to. `fuel` bounds the turns (always enough).
pub open spec fn orphan_queue(ks: Seq<MdKind>, defs: Seq<(usize, usize, Seq<MdItem>)>, section: usize, st: OrphanState, fuel: nat) -> OrphanState
    decreases fuel,
{
    if fuel == 0 || st.pending.len() == 0 {
        st
    } else {
        let l = st.pending[0];
        let rest = st.pending.drop_first();
        if st.anchored.contains(l) {
            orphan_queue(ks, defs, section, OrphanState { pending: rest, ..st }, (fuel - 1) as nat)
        } else {
            match resolve_def(ks, defs, section, l) {
                None => orphan_queue(ks, defs, section, OrphanState { pending: rest, ..st }, (fuel - 1) as nat),
                Some(i) => {
                    let (p, q) = enqueue(rest, st.queued, refs_of(ks, defs[i].2));
                    orphan_queue(
                        ks,
                        defs,
                        section,
                        OrphanState { items: st.items + definition_block(defs[i]), anchored: st.anchored.push(l), pending: p, queued: q },
                        (fuel - 1) as nat,
                    )
                },
            }
        }
    }
}

/// The view of the orphan state.
pub open spec fn orphan_view(items: Seq<MdItem>, anchored: Seq<String>, pending: Seq<String>, h: int, queued: Seq<String>) -> OrphanState {
    OrphanState { items, anchored: label_views(anchored), pending: label_views(pending).skip(h), queued: label_views(queued) }
}

/// Adds to the last section (`section`, with items `items` and the labels
/// `anchored` already defined in it, without repeats) every definition no
/// section used, then the definitions those refer to, as [`orphan_pass`]
/// and [`orphan_queue`] say.
fn append_orphans(
    ks: &[MdKind],
    defs: &[FootnoteDef],
    used: &Vec<bool>,
    section: usize,
    items: &mut Vec<MdItem>,
    anchored: Vec<String>,
)
    requires
        defs_valid(ks@, def_views(defs@)),
    ensures
        final(items)@ == orphan_queue(
            ks@,
            def_views(defs@),
            section,
            orphan_pass(
                ks@,
                def_views(defs@),
                used@,
                0,
                OrphanState {
                    items: old(items)@,
                    anchored: label_views(anchored@),
                    pending: Seq::empty(),
                    queued: dedup_labels(label_views(anchored@)),
                },
            ),
            all_refs(ks@, def_views(defs@)).len(),
        ).items,
{
    let ghost dv = def_views(defs@);
    let ghost dq = dedup_labels(label_views(anchored@));
    let ghost total = dq + all_refs(ks@, dv);
    let ghost init = OrphanState {
        items: items@,
        anchored: label_views(anchored@),
        pending: Seq::empty(),
        queued: dq,
    };
    let mut anchored = anchored;
    let mut queued: Vec<String> = Vec::new();
    let mut k: usize = 0;
    while k < anchored.len()
        invariant
            k <= anchored@.len(),
            label_views(queued@) == dedup_labels(label_views(anchored@).take(k as int)),
            label_views(queued@).no_duplicates(),
        decreases anchored.len() - k,
    {
        let ghost qv = label_views(queued@);
        assert(label_views(anchored@).take(k + 1).drop_last() == label_views(anchored@).take(k as int));
        assert(label_views(anchored@).take(k + 1).last() == anchored@[k as int]@);
        if !has_label(&queued, anchored[k].as_str()) {
            queued.push(string_of(&chars_of(anchored[k].as_str())));
            assert(label_views(queued@) =~= qv.push(anchored@[k as int]@));
        }
        k = k + 1;
    }
    assert(label_views(anchored@).take(k as int) == label_views(anchored@));
    let ghost n: nat = (dq.len() + all_refs(ks@, dv).len()) as nat;
    let mut pending: Vec<String> = Vec::new();
    assert(label_views(pending@).skip(0) =~= Seq::<Seq<char>>::empty());
    assert forall|j: int| 0 <= j < label_views(queued@).len() implies total.contains(#[trigger] label_views(queued@)[j]) by {
        assert(total[j] == label_views(queued@)[j]);
    }
    let mut i: usize = 0;
    while i < defs.len()
        invariant
            i <= defs@.len(),
            dv == def_views(defs@),
            defs_valid(ks@, dv),
            total == init.queued + all_refs(ks@, dv),
            init.queued.len() <= queued@.len(),
            pending@.len() == queued@.len() - init.queued.len(),
            label_views(queued@).no_duplicates(),
            forall|j: int| 0 <= j < label_views(queued@).len() ==> total.contains(#[trigger] label_views(queued@)[j]),
            orphan_pass(ks@, dv, used@, 0, init) == orphan_pass(
                ks@,
                dv,
                used@,
                i as int,
                orphan_view(items@, anchored@, pending@, 0, queued@),
            ),
        decreases defs.len() - i,
    {
        assert(dv[i as int] == (defs@[i as int].section, defs@[i as int].start, defs@[i as int].items@));
        let ghost st = orphan_view(items@, anchored@, pending@, 0, queued@);
        if i < used.len() && used[i] {
            i = i + 1;
        } else {
            let label = def_label_exec(ks, &defs[i]);
            let refs = refs_in(ks, defs[i].items.as_slice());
            proof {
                assert forall|x: int| 0 <= x < label_views(refs@).len() implies total.contains(
                    #[trigger] label_views(refs@)[x]) by {
                    assert(refs_of(ks@, dv[i as int].2).contains(label_views(refs@)[x]));
                    lemma_all_refs_contains(ks@, dv, i as int, label_views(refs@)[x]);
                    let y = choose|y: int| 0 <= y < all_refs(ks@, dv).len() && all_refs(ks@, dv)[y] == label_views(
                        refs@)[x];
                    assert(total[init.queued.len() + y] == label_views(refs@)[x]);
                }
            }
            assert(label_views(pending@).skip(0) == label_views(pending@));
            assert(st.pending == label_views(pending@));
            assert(label_views(refs@) == refs_of(ks@, dv[i as int].2));
            enqueue_exec(&mut pending, &mut queued, &refs);
            assert(label_views(pending@).skip(0) == label_views(pending@));
            if !has_label(&anchored, label.as_str()) {
                let ghost av = label_views(anchored@);
                anchored.push(label);
                assert(label_views(anchored@) =~= av.push(def_label(ks@, dv[i as int])));
                push_definition(items, &defs[i]);
            } else {
                let ghost iv = items@;
                let mut j: usize = 0;
                while j < defs[i].items.len()
                    invariant
                        j <= defs@[i as int].items@.len(),
                        i < defs@.len(),
                        items@ == iv + defs@[i as int].items@.take(j as int),
                    decreases defs@[i as int].items@.len() - j,
                {
                    items.push(defs[i].items[j]);
                    assert(defs@[i as int].items@.take(j + 1) == defs@[i as int].items@.take(j as int).push(
                        defs@[i as int].items@[j as int]));
                    j = j + 1;
                }
                assert(defs@[i as int].items@.take(j as int) == defs@[i as int].items@);
            }
            proof {
                assert forall|j: int| 0 <= j < label_views(queued@).len() implies total.contains(
                    #[trigger] label_views(queued@)[j]) by {
                }
            }
            i = i + 1;
        }
    }
    let mut h: usize = 0;
    let ghost mut fuel: nat = all_refs(ks@, dv).len();
    let ghost mid = orphan_view(items@, anchored@, pending@, 0, queued@);
    assert(orphan_pass(ks@, dv, used@, i as int, mid) == mid);
    while h < pending.len()
        invariant
            dv == def_views(defs@),
            defs_valid(ks@, dv),
            h <= pending@.len(),
            total == init.queued + all_refs(ks@, dv),
            total.len() == n,
            label_views(queued@).no_duplicates(),
            forall|j: int| 0 <= j < label_views(queued@).len() ==> total.contains(#[trigger] label_views(queued@)[j]),
            pending@.len() - h + n - queued@.len() == fuel,
            orphan_queue(ks@, dv, section, mid, all_refs(ks@, dv).len()) == orphan_queue(
                ks@,
                dv,
                section,
                orphan_view(items@, anchored@, pending@, h as int, queued@),
                fuel,
            ),
        decreases fuel,
    {
        proof {
            lemma_distinct_within(label_views(queued@), total);
        }
        let ghost st = orphan_view(items@, anchored@, pending@, h as int, queued@);
        assert(st.pending[0] == pending@[h as int]@);
        assert(st.pending.drop_first() == label_views(pending@).skip(h + 1));
        let label = string_of(&chars_of(pending[h].as_str()));
        h = h + 1;
        if has_label(&anchored, label.as_str()) {
        } else {
            match resolve_def_exec(ks, defs, section, label.as_str()) {
                None => {},
                Some(i) => {
                    proof {
                        lemma_find_def_bounds(ks@, dv, label@, Some(section), 0);
                        lemma_find_def_bounds(ks@, dv, label@, None, 0);
                    }
                    assert(dv[i as int] == (defs@[i as int].section, defs@[i as int].start, defs@[i as int].items@));
                    let refs = refs_in(ks, defs[i].items.as_slice());
                    proof {
                        assert forall|x: int| 0 <= x < label_views(refs@).len() implies total.contains(
                            #[trigger] label_views(refs@)[x]) by {
                            assert(refs_of(ks@, dv[i as int].2).contains(label_views(refs@)[x]));
                            lemma_all_refs_contains(ks@, dv, i as int, label_views(refs@)[x]);
                            let y = choose|y: int| 0 <= y < all_refs(ks@, dv).len() && all_refs(ks@, dv)[y]
                                == label_views(refs@)[x];
                            assert(total[init.queued.len() + y] == label_views(refs@)[x]);
                        }
                    }
                    let ghost pb = pending@;
                    let ghost qb = queued@;
                    let mut tail: Vec<String> = Vec::new();
                    let mut t = h;
                    while t < pending.len()
                        invariant
                            h <= t <= pending@.len(),
                            label_views(tail@) == label_views(pending@).subrange(h as int, t as int),
                        decreases pending.len() - t,
                    {
                        let ghost tv = label_views(tail@);
                        tail.push(string_of(&chars_of(pending[t].as_str())));
                        assert(label_views(pending@).subrange(h as int, t + 1) =~= label_views(pending@).subrange(
                            h as int,
                            t as int,
                        ).push(pending@[t as int]@));
                        assert(label_views(tail@) =~= tv.push(pending@[t as int]@));
                        t = t + 1;
                    }
                    assert(label_views(tail@) =~= st.pending.drop_first());
                    let ghost tail0 = tail@;
                    enqueue_exec(&mut tail, &mut queued, &refs);
                    // The queue is now the tail: continue from its start.
                    pending = tail;
                    h = 0;
                    assert(label_views(pending@).skip(0) == label_views(pending@));
                    let ghost av = label_views(anchored@);
                    anchored.push(label);
                    assert(label_views(anchored@) =~= av.push(st.pending[0]));
                    push_definition(items, &defs[i]);
                    proof {
                        assert forall|j: int| 0 <= j < label_views(queued@).len() implies total.contains(
                            #[trigger] label_views(queued@)[j]) by {
                        }
                    }
                },
            }
        }
        proof {
            fuel = (fuel - 1) as nat;
        }
    }
}

/// Definitions taken out of every section, in order: the items left in
/// each section, and all definitions.
pub open spec fn extract_sections(ks: Seq<MdKind>, secs: Seq<Seq<MdItem>>) -> (Seq<Seq<MdItem>>, Seq<(usize, usize, Seq<MdItem>)>)
    decreases secs.len(),
{
    if secs.len() == 0 {
        (Seq::empty(), Seq::empty())
    } else {
        let (flows, defs) = extract_sections(ks, secs.drop_last());
        let e = extract_from(
            ks,
            secs.last(),
            0,
            (secs.len() - 1) as usize,
            Extraction { flow: Seq::empty(), seen: Seq::empty(), defs },
        );
        (flows.push(e.flow), e.defs)
    }
}

/// The definitions section `k` takes in.
pub open spec fn section_adds(ks: Seq<MdKind>, defs: Seq<(usize, usize, Seq<MdItem>)>, flow: Seq<MdItem>, k: int) -> Seq<(Seq<char>, int)> {
    let r = refs_of(ks, flow);
    gather(ks, defs, k as usize, r, r, Seq::empty(), (r.len() + all_refs(ks, defs).len()) as nat)
}

/// The items of the definitions `adds`, one after another.
pub open spec fn definitions_of(defs: Seq<(usize, usize, Seq<MdItem>)>, adds: Seq<(Seq<char>, int)>) -> Seq<MdItem>
    decreases adds.len(),
{
    if adds.len() == 0 {
        Seq::empty()
    } else {
        definitions_of(defs, adds.drop_last()) + definition_block(defs[adds.last().1])
    }
}

/// `used` with the definitions of `adds` marked.
pub open spec fn mark_used(used: Seq<bool>, adds: Seq<(Seq<char>, int)>) -> Seq<bool>
    decreases adds.len(),
{
    if adds.len() == 0 {
        used
    } else {
        let u = mark_used(used, adds.drop_last());
        if 0 <= adds.last().1 < u.len() {
            u.update(adds.last().1, true)
        } else {
            u
        }
    }
}

/// The definitions used by the first `k` sections.
pub open spec fn used_upto(ks: Seq<MdKind>, defs: Seq<(usize, usize, Seq<MdItem>)>, flows: Seq<Seq<MdItem>>, k: int) -> Seq<bool>
    decreases k,
{
    if k <= 0 {
        Seq::new(defs.len(), |i: int| false)
    } else {
        mark_used(used_upto(ks, defs, flows, k - 1), section_adds(ks, defs, flows[k - 1], k - 1))
    }
}

/// The sections with their footnotes resolved: each section keeps its
/// items without definitions and takes in the definitions it refers to;
/// the last one also takes the definitions no section used.
pub open spec fn footnotes_resolved(ks: Seq<MdKind>, secs: Seq<Seq<MdItem>>) -> Seq<Seq<MdItem>> {
    let (flows, defs) = extract_sections(ks, secs);
    let n = flows.len();
    let res = Seq::new(n, |k: int| flows[k] + definitions_of(defs, section_adds(ks, defs, flows[k], k)));
    if n == 0 {
        res
    } else {
        let last = n - 1;
        let anchored = section_adds(ks, defs, flows[last], last).map_values(|a: (Seq<char>, int)| a.0);
        let st = OrphanState {
            items: res[last],
            anchored,
            pending: Seq::empty(),
            queued: dedup_labels(anchored),
        };
        let used = used_upto(ks, defs, flows, n as int);
        res.update(last, orphan_queue(ks, defs, last as usize, orphan_pass(ks, defs, used, 0, st), all_refs(ks, defs).len()).items)
    }
}

/// The views of sections.
pub open spec fn section_items(v: Seq<Vec<MdItem>>) -> Seq<Seq<MdItem>> {
    v.map_values(|s: Vec<MdItem>| s@)
}

/// Resolves the footnotes of the sections `sections` of a document whose
/// events are `ks`, as [`footnotes_resolved`] says.
pub fn resolve_footnotes(ks: &[MdKind], sections: &Vec<Vec<MdItem>>) -> (r: Vec<Vec<MdItem>>)
    requires
        forall|k: int| 0 <= k < sections@.len() ==> items_valid(ks@, #[trigger] sections@[k]@),
    ensures
        section_items(r@) == footnotes_resolved(ks@, section_items(sections@)),
{
    let ghost secs = section_items(sections@);
    let mut defs: Vec<FootnoteDef> = Vec::new();
    let mut flows: Vec<Vec<MdItem>> = Vec::new();
    let mut k: usize = 0;
    assert(defs_valid(ks@, def_views(defs@)));
    while k < sections.len()
        invariant
            k <= sections@.len(),
            secs == section_items(sections@),
            forall|j: int| 0 <= j < sections@.len() ==> items_valid(ks@, #[trigger] sections@[j]@),
            defs_valid(ks@, def_views(defs@)),
            forall|j: int| 0 <= j < flows@.len() ==> items_valid(ks@, #[trigger] flows@[j]@),
            (section_items(flows@), def_views(defs@)) == extract_sections(ks@, secs.take(k as int)),
        decreases sections.len() - k,
    {
        assert(secs.take(k + 1).drop_last() == secs.take(k as int));
        assert(secs.take(k + 1).last() == sections@[k as int]@);
        let mut seen: Vec<String> = Vec::new();
        assert(label_views(seen@) =~= Seq::<Seq<char>>::empty());
        let ghost fv = section_items(flows@);
        let flow = extract_definitions(ks, sections[k].as_slice(), k, &mut seen, &mut defs);
        flows.push(flow);
        assert(section_items(flows@) =~= fv.push(flow@));
        k = k + 1;
    }
    assert(secs.take(k as int) == secs);
    let ghost dv = def_views(defs@);
    let ghost fl = section_items(flows@);
    let n = flows.len();
    let mut used: Vec<bool> = Vec::new();
    let mut d: usize = 0;
    while d < defs.len()
        invariant
            d <= defs@.len(),
            used@ == Seq::new(d as nat, |i: int| false),
        decreases defs.len() - d,
    {
        used.push(false);
        assert(used@ =~= Seq::new((d + 1) as nat, |i: int| false));
        d = d + 1;
    }
    assert(used@ =~= used_upto(ks@, dv, fl, 0));
    let mut out: Vec<Vec<MdItem>> = Vec::new();
    let mut last_anchored: Vec<String> = Vec::new();
    let mut s: usize = 0;
    while s < n
        invariant
            s <= n,
            n == flows@.len(),
            fl == section_items(flows@),
            dv == def_views(defs@),
            defs_valid(ks@, dv),
            forall|j: int| 0 <= j < flows@.len() ==> items_valid(ks@, #[trigger] flows@[j]@),
            used@ == used_upto(ks@, dv, fl, s as int),
            out@.len() == s,
            forall|j: int| 0 <= j < s ==> (#[trigger] out@[j])@ == fl[j] + definitions_of(dv, section_adds(ks@, dv, fl[j], j)),
            s > 0 ==> label_views(last_anchored@) == section_adds(ks@, dv, fl[s - 1], s - 1).map_values(
                |a: (Seq<char>, int)| a.0),
        decreases n - s,
    {
        assert(fl[s as int] == flows@[s as int]@);
        let initial = refs_in(ks, flows[s].as_slice());
        proof { lemma_refs_no_duplicates(ks@, flows@[s as int]@); }
        assert(label_views(initial@).len() == initial@.len());
        let adds = gather_definitions(ks, defs.as_slice(), s, initial);
        let ghost av = add_views(adds@);
        assert(av == section_adds(ks@, dv, fl[s as int], s as int));
        proof {
            let r = refs_of(ks@, fl[s as int]);
            lemma_gather_bounds(ks@, dv, s, r, r, Seq::empty(), (r.len() + all_refs(ks@, dv).len()) as nat);
        }
        let mut items: Vec<MdItem> = Vec::new();
        let mut t: usize = 0;
        while t < flows[s].len()
            invariant
                s < flows@.len(),
                t <= flows@[s as int]@.len(),
                items@ == flows@[s as int]@.take(t as int),
            decreases flows@[s as int]@.len() - t,
        {
            items.push(flows[s][t]);
            assert(flows@[s as int]@.take(t + 1) == flows@[s as int]@.take(t as int).push(flows@[s as int]@[t as int]));
            t = t + 1;
        }
        assert(flows@[s as int]@.take(t as int) == flows@[s as int]@);
        let ghost u0 = used@;
        let mut anchored: Vec<String> = Vec::new();
        let mut a: usize = 0;
        while a < adds.len()
            invariant
                a <= adds@.len(),
                av == add_views(adds@),
                dv == def_views(defs@),
                forall|x: int| 0 <= x < av.len() ==> 0 <= (#[trigger] av[x]).1 < dv.len(),
                items@ == fl[s as int] + definitions_of(dv, av.take(a as int)),
                used@ == mark_used(u0, av.take(a as int)),
                used@.len() == u0.len(),
                label_views(anchored@) == av.take(a as int).map_values(|x: (Seq<char>, int)| x.0),
            decreases adds.len() - a,
        {
            let idx = adds[a].1;
            assert(av.take(a + 1).drop_last() == av.take(a as int));
            assert(av.take(a + 1).last() == av[a as int]);
            assert(dv[idx as int] == (defs@[idx as int].section, defs@[idx as int].start, defs@[idx as int].items@));
            let ghost ib = items@;
            push_definition(&mut items, &defs[idx]);
            assert(items@ =~= fl[s as int] + definitions_of(dv, av.take(a + 1)));
            if idx < used.len() {
                used.set(idx, true);
            }
            let ghost an = label_views(anchored@);
            assert(av[a as int] == (adds@[a as int].0@, adds@[a as int].1 as int));
            anchored.push(string_of(&chars_of(adds[a].0.as_str())));
            assert(label_views(anchored@) =~= an.push(av[a as int].0));
            assert(av.take(a + 1) == av.take(a as int).push(av[a as int]));
            assert(av.take(a + 1).map_values(|x: (Seq<char>, int)| x.0) =~= av.take(a as int).map_values(
                |x: (Seq<char>, int)| x.0).push(av[a as int].0));
            a = a + 1;
        }
        assert(av.take(a as int) == av);
        out.push(items);
        last_anchored = anchored;
        s = s + 1;
    }
    if n > 0 {
        let last = n - 1;
        let mut items = out.pop().unwrap();
        append_orphans(ks, defs.as_slice(), &used, last, &mut items, last_anchored);
        out.push(items);
    }
    proof {
        let res = Seq::new(n as nat, |k: int| fl[k] + definitions_of(dv, section_adds(ks@, dv, fl[k], k)));
        assert(section_items(out@) =~= footnotes_resolved(ks@, secs));
    }
    out
}

} // verus!
