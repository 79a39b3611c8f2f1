//! Texts in order of their characters, as `String`'s own order puts them
//! (character by character, by code point; a prefix first).

use vstd::prelude::*;
use crate::text::{chars_of, lemma_text_less_irreflexive, lemma_text_less_total, lemma_text_less_transitive, text_less,
    text_less_exec};

verus! {

broadcast use {vstd::seq_lib::group_to_multiset_ensures, vstd::seq_lib::group_seq_properties};

/// The views of some texts.
pub open spec fn text_views(v: Seq<String>) -> Seq<Seq<char>> {
    v.map_values(|s: String| s@)
}

/// No text comes after a later one.
pub open spec fn in_text_order(s: Seq<Seq<char>>) -> bool {
    forall|a: int, b: int| 0 <= a < b < s.len() ==> !text_less(#[trigger] s[b], #[trigger] s[a])
}

/// Each text comes strictly before every later one.
pub open spec fn strictly_in_text_order(s: Seq<Seq<char>>) -> bool {
    forall|a: int, b: int| 0 <= a < b < s.len() ==> text_less(#[trigger] s[a], #[trigger] s[b])
}

/// The first position of `r` whose text comes after `x`, or the end.
fn insertion_point(r: &Vec<String>, x: &str) -> (p: usize)
    ensures
        p <= r@.len(),
        forall|i: int| 0 <= i < p ==> !text_less(x@, (#[trigger] r@[i])@),
        p < r@.len() ==> text_less(x@, r@[p as int]@),
{
    let xc = chars_of(x);
    let mut p: usize = 0;
    while p < r.len() && !text_less_exec(&xc, &chars_of(r[p].as_str()))
        invariant
            p <= r@.len(),
            xc@ == x@,
            forall|i: int| 0 <= i < p ==> !text_less(x@, (#[trigger] r@[i])@),
        decreases r.len() - p,
    {
        p = p + 1;
    }
    p
}

/// The texts `v` in order: the same texts, each as often, none after a
/// later one.
pub fn sorted_texts(v: Vec<String>) -> (r: Vec<String>)
    ensures
        text_views(r@).to_multiset() == text_views(v@).to_multiset(),
        in_text_order(text_views(r@)),
{
    let mut r: Vec<String> = Vec::new();
    let mut i: usize = 0;
    assert(text_views(r@) =~= text_views(v@.take(0)));
    while i < v.len()
        invariant
            i <= v@.len(),
            text_views(r@).to_multiset() == text_views(v@.take(i as int)).to_multiset(),
            in_text_order(text_views(r@)),
        decreases v.len() - i,
    {
        let x = v[i].clone();
        let p = insertion_point(&r, x.as_str());
        let ghost before = text_views(r@);
        r.insert(p, x);
        proof {
            let after = text_views(r@);
            assert(after =~= before.insert(p as int, x@));
            assert(text_views(v@.take(i + 1)) =~= text_views(v@.take(i as int)).push(x@));
            assert(before.insert(p as int, x@).to_multiset() == before.to_multiset().insert(x@));
            assert forall|a: int, b: int| 0 <= a < b < after.len() implies !text_less(#[trigger] after[b], #[trigger] after[a])
                by {
                if a < p && b == p {
                } else if a == p && b > p {
                    let c = before[b - 1];
                    if text_less(c, x@) {
                        lemma_text_less_transitive(c, x@, before[p as int]);
                        lemma_text_less_irreflexive(c);
                        if b - 1 > p {
                            assert(!text_less(before[b - 1], before[p as int]));
                        }
                    }
                } else if a < p && b > p {
                    assert(!text_less(before[b - 1], before[a]));
                } else if b < p {
                    assert(!text_less(before[b], before[a]));
                } else {
                    assert(!text_less(before[b - 1], before[a - 1]));
                }
            }
        }
        i = i + 1;
    }
    assert(v@.take(i as int) == v@);
    r
}

/// The texts `v` in order, each once: the same texts, each before every
/// later one.
pub fn sorted_distinct_texts(v: Vec<String>) -> (r: Vec<String>)
    ensures
        forall|x: Seq<char>| text_views(r@).contains(x) <==> text_views(v@).contains(x),
        strictly_in_text_order(text_views(r@)),
{
    let mut r: Vec<String> = Vec::new();
    let mut i: usize = 0;
    assert(text_views(r@) =~= text_views(v@.take(0)));
    while i < v.len()
        invariant
            i <= v@.len(),
            forall|x: Seq<char>| text_views(r@).contains(x) <==> text_views(v@.take(i as int)).contains(x),
            strictly_in_text_order(text_views(r@)),
        decreases v.len() - i,
    {
        let x = v[i].clone();
        let p = insertion_point(&r, x.as_str());
        let ghost before = text_views(r@);
        assert(text_views(v@.take(i + 1)) =~= text_views(v@.take(i as int)).push(x@));
        let duplicate = p > 0 && crate::text::chars_eq(&chars_of(r[p - 1].as_str()), &chars_of(x.as_str()));
        if !duplicate {
            r.insert(p, x);
            proof {
                let after = text_views(r@);
                assert(after =~= before.insert(p as int, x@));
                if p > 0 {
                    lemma_text_less_total(before[p - 1], x@);
                }
                let pre = text_views(v@.take(i as int));
                assert forall|y: Seq<char>| after.contains(y) <==> text_views(v@.take(i + 1)).contains(y) by {
                    assert(text_views(v@.take(i + 1)).contains(y) <==> pre.contains(y) || y == x@) by {
                        if text_views(v@.take(i + 1)).contains(y) {
                            let w = choose|w: int| 0 <= w < i + 1 && #[trigger] text_views(v@.take(i + 1))[w] == y;
                            if w < i {
                                assert(pre[w] == y);
                            }
                        }
                        if pre.contains(y) {
                            let w = choose|w: int| 0 <= w < i && #[trigger] pre[w] == y;
                            assert(text_views(v@.take(i + 1))[w] == y);
                        }
                        if y == x@ {
                            assert(text_views(v@.take(i + 1))[i as int] == y);
                        }
                    }
                    if after.contains(y) {
                        let w = choose|w: int| 0 <= w < after.len() && after[w] == y;
                        if w < p {
                            assert(before[w] == y);
                        } else if w > p {
                            assert(before[w - 1] == y);
                        }
                    }
                    if before.contains(y) {
                        let w = choose|w: int| 0 <= w < before.len() && before[w] == y;
                        if w < p {
                            assert(after[w] == y);
                        } else {
                            assert(after[w + 1] == y);
                        }
                    }
                    if y == x@ {
                        assert(after[p as int] == y);
                    }
                }
                assert forall|a: int, b: int| 0 <= a < b < after.len() implies text_less(#[trigger] after[a], #[trigger] after[b])
                    by {
                    if a < p && b == p {
                        if a < p - 1 {
                            lemma_text_less_transitive(before[a], before[p - 1], x@);
                        }
                    } else if a == p && b > p {
                        if b - 1 > p {
                            lemma_text_less_transitive(x@, before[p as int], before[b - 1]);
                        }
                    } else if a < p && b > p {
                        assert(text_less(before[a], before[b - 1]));
                    } else if b < p {
                        assert(text_less(before[a], before[b]));
                    } else {
                        assert(text_less(before[a - 1], before[b - 1]));
                    }
                }
            }
        } else {
            proof {
                let pre = text_views(v@.take(i as int));
                assert forall|y: Seq<char>| before.contains(y) <==> text_views(v@.take(i + 1)).contains(y) by {
                    assert(text_views(v@.take(i + 1)).contains(y) <==> pre.contains(y) || y == x@) by {
                        if text_views(v@.take(i + 1)).contains(y) {
                            let w = choose|w: int| 0 <= w < i + 1 && #[trigger] text_views(v@.take(i + 1))[w] == y;
                            if w < i {
                                assert(pre[w] == y);
                            }
                        }
                        if pre.contains(y) {
                            let w = choose|w: int| 0 <= w < i && #[trigger] pre[w] == y;
                            assert(text_views(v@.take(i + 1))[w] == y);
                        }
                        if y == x@ {
                            assert(text_views(v@.take(i + 1))[i as int] == y);
                        }
                    }
                    if y == x@ {
                        assert(before[p - 1] == y);
                    }
                }
            }
        }
        i = i + 1;
    }
    assert(v@.take(i as int) == v@);
    r
}

} // verus!
