//! The CSS variables of a book: older aliases mapped to current names, the
//! current name winning over an alias, listed in name order.

use vstd::prelude::*;
use crate::converter::css_resources::{distinct_paths, entries_map, lemma_entries_map};
use crate::converter::epub3::{canonical_variable, EpubConverter3};
use crate::text::{
    chars_eq, chars_of, has_prefix, lemma_text_less_irreflexive, lemma_text_less_total, lemma_text_less_transitive,
    starts_with_str, string_of, sub_chars, text_less, text_less_exec,
};

verus! {

/// A variable name without its leading `--`.
pub open spec fn strip_dashes(k: Seq<char>) -> Seq<char> {
    if has_prefix(k, "--"@) { k.skip(2) } else { k }
}

/// The variables of `vars` (first `n`) given by their current name; a
/// later one of the same name replaces an earlier one.
pub open spec fn current_names(vars: Seq<(String, String)>, n: int) -> Map<Seq<char>, Seq<char>>
    decreases n,
{
    if n <= 0 {
        Map::empty()
    } else {
        let m = current_names(vars, n - 1);
        let s = strip_dashes(vars[n - 1].0@);
        if canonical_variable(s) == s {
            m.insert(s, vars[n - 1].1@)
        } else {
            m
        }
    }
}

/// `base` with the variables of `vars` (first `n`) added under their
/// current name where that name has no value yet.
pub open spec fn alias_fill(vars: Seq<(String, String)>, n: int, base: Map<Seq<char>, Seq<char>>) -> Map<Seq<char>, Seq<char>>
    decreases n,
{
    if n <= 0 {
        base
    } else {
        let m = alias_fill(vars, n - 1, base);
        let c = canonical_variable(strip_dashes(vars[n - 1].0@));
        if m.dom().contains(c) {
            m
        } else {
            m.insert(c, vars[n - 1].1@)
        }
    }
}

/// The variables a book's style sheet sets: by current name, the value
/// given under that name if any, else the first value given under an
/// alias.
pub open spec fn merged_variables(vars: Seq<(String, String)>) -> Map<Seq<char>, Seq<char>> {
    alias_fill(vars, vars.len() as int, current_names(vars, vars.len() as int))
}

/// The names of `e` are in strictly increasing order.
pub open spec fn names_ascending(e: Seq<(String, String)>) -> bool {
    forall|a: int, b: int| 0 <= a < b < e.len() ==> text_less((#[trigger] e[a]).0@, (#[trigger] e[b]).0@)
}

proof fn lemma_ascending_distinct(e: Seq<(String, String)>)
    requires
        names_ascending(e),
    ensures
        distinct_paths(e),
{
    assert forall|a: int, b: int| 0 <= a < b < e.len() implies (#[trigger] e[a]).0@ != (#[trigger] e[b]).0@ by {
        if e[a].0@ == e[b].0@ {
            lemma_text_less_irreflexive(e[a].0@);
        }
    }
}

/// Two lists with distinct names that pair every name with the same value
/// describe the same map.
proof fn lemma_same_map(e: Seq<(String, String)>, m: Map<Seq<char>, Seq<char>>)
    requires
        distinct_paths(e),
        forall|k: int| 0 <= k < e.len() ==> m.dom().contains((#[trigger] e[k]).0@) && m[e[k].0@] == e[k].1@,
        forall|x: Seq<char>| #[trigger] m.dom().contains(x) ==> exists|k: int| 0 <= k < e.len() && (#[trigger] e[k]).0@ == x,
    ensures
        entries_map(e) == m,
{
    lemma_entries_map(e);
    assert forall|x: Seq<char>| entries_map(e).dom().contains(x) <==> m.dom().contains(x) by {
        if entries_map(e).dom().contains(x) {
            let k = choose|k: int| 0 <= k < e.len() && (#[trigger] e[k]).0@ == x;
        }
        if m.dom().contains(x) {
            let k = choose|k: int| 0 <= k < e.len() && (#[trigger] e[k]).0@ == x;
            assert(entries_map(e).dom().contains(e[k].0@));
        }
    }
    assert forall|x: Seq<char>| #[trigger] entries_map(e).dom().contains(x) implies entries_map(e)[x] == m[x] by {
        let k = choose|k: int| 0 <= k < e.len() && (#[trigger] e[k]).0@ == x;
        assert(entries_map(e).dom().contains(e[k].0@));
    }
    assert(entries_map(e) =~= m);
}

/// The position where `key` stands or would stand in the ascending `e`,
/// and whether it is there.
fn locate(e: &Vec<(String, String)>, key: &[char]) -> (r: (usize, bool))
    requires
        names_ascending(e@),
    ensures
        r.0 <= e@.len(),
        forall|k: int| 0 <= k < r.0 ==> text_less((#[trigger] e@[k]).0@, key@),
        r.1 ==> r.0 < e@.len() && e@[r.0 as int].0@ == key@,
        !r.1 ==> r.0 < e@.len() ==> text_less(key@, e@[r.0 as int].0@),
{
    let mut j: usize = 0;
    while j < e.len() && text_less_exec(&chars_of(e[j].0.as_str()), key)
        invariant
            j <= e@.len(),
            forall|k: int| 0 <= k < j ==> text_less((#[trigger] e@[k]).0@, key@),
        decreases e.len() - j,
    {
        j = j + 1;
    }
    if j < e.len() {
        let found = chars_eq(&chars_of(e[j].0.as_str()), key);
        proof { lemma_text_less_total(e@[j as int].0@, key@); }
        (j, found)
    } else {
        (j, false)
    }
}

/// Inserting at a position that keeps names ascending keeps them
/// ascending.
proof fn lemma_insert_ascending(e: Seq<(String, String)>, j: int, x: (String, String))
    requires
        0 <= j <= e.len(),
        names_ascending(e),
        forall|k: int| 0 <= k < j ==> text_less((#[trigger] e[k]).0@, x.0@),
        j < e.len() ==> text_less(x.0@, e[j].0@),
    ensures
        names_ascending(e.insert(j, x)),
{
    let w = e.insert(j, x);
    assert forall|a: int, b: int| 0 <= a < b < w.len() implies text_less((#[trigger] w[a]).0@, (#[trigger] w[b]).0@) by {
        if a < j && b == j {
        } else if a == j && b > j {
            assert(w[b] == e[b - 1]);
            if b - 1 > j {
                assert(text_less(e[j].0@, e[b - 1].0@));
                lemma_text_less_transitive(x.0@, e[j].0@, e[b - 1].0@);
            }
        } else if a < j && b > j {
            assert(w[a] == e[a] && w[b] == e[b - 1]);
            assert(text_less(e[a].0@, e[b - 1].0@));
        } else if b < j {
            assert(w[a] == e[a] && w[b] == e[b]);
        } else {
            assert(w[a] == e[a - 1] && w[b] == e[b - 1]);
        }
    }
}

/// Puts `key` = `value` into the ascending `e`: replacing the value of
/// `key` when `replace`, else only when `key` is missing.
fn put(e: &mut Vec<(String, String)>, key: &[char], value: &str, replace: bool)
    requires
        names_ascending(old(e)@),
    ensures
        names_ascending(final(e)@),
        entries_map(final(e)@) == (if replace || !entries_map(old(e)@).dom().contains(key@) {
            entries_map(old(e)@).insert(key@, value@)
        } else {
            entries_map(old(e)@)
        }),
{
    proof {
        lemma_ascending_distinct(e@);
        lemma_entries_map(e@);
    }
    let ghost before = e@;
    let ghost m = entries_map(before);
    let (j, found) = locate(e, key);
    if found {
        assert(m.dom().contains(key@));
        if replace {
            let entry = (string_of(key), string_of(&chars_of(value)));
            e.set(j, entry);
            proof {
                assert(names_ascending(e@)) by {
                    assert forall|a: int, b: int| 0 <= a < b < e@.len() implies text_less(
                        (#[trigger] e@[a]).0@,
                        (#[trigger] e@[b]).0@,
                    ) by {
                        assert(before[a].0@ == e@[a].0@ || a == j);
                        assert(before[b].0@ == e@[b].0@ || b == j);
                    }
                }
                lemma_ascending_distinct(e@);
                let target = m.insert(key@, value@);
                assert forall|k: int| 0 <= k < e@.len() implies target.dom().contains((#[trigger] e@[k]).0@)
                    && target[e@[k].0@] == e@[k].1@ by {
                    if k != j {
                        assert(e@[k] == before[k]);
                        assert(m.dom().contains(before[k].0@));
                    }
                }
                assert forall|x: Seq<char>| #[trigger] target.dom().contains(x) implies exists|k: int|
                    0 <= k < e@.len() && (#[trigger] e@[k]).0@ == x by {
                    if x == key@ {
                        assert(e@[j as int].0@ == x);
                    } else {
                        assert(m.dom().contains(x));
                        let k = choose|k: int| 0 <= k < before.len() && (#[trigger] before[k]).0@ == x;
                        assert(e@[k] == before[k]);
                    }
                }
                lemma_same_map(e@, target);
            }
        }
    } else {
        proof {
            assert(!m.dom().contains(key@)) by {
                if m.dom().contains(key@) {
                    let k = choose|k: int| 0 <= k < before.len() && (#[trigger] before[k]).0@ == key@;
                    if k < j {
                        lemma_text_less_irreflexive(key@);
                    } else if k > j {
                        lemma_text_less_transitive(key@, before[j as int].0@, before[k].0@);
                        lemma_text_less_irreflexive(key@);
                    } else {
                        lemma_text_less_irreflexive(key@);
                    }
                }
            }
        }
        let entry = (string_of(key), string_of(&chars_of(value)));
        proof { lemma_insert_ascending(before, j as int, entry); }
        e.insert(j, entry);
        proof {
            assert(e@ == before.insert(j as int, entry));
            lemma_ascending_distinct(e@);
            let target = m.insert(key@, value@);
            assert forall|k: int| 0 <= k < e@.len() implies target.dom().contains((#[trigger] e@[k]).0@)
                && target[e@[k].0@] == e@[k].1@ by {
                if k < j {
                    assert(e@[k] == before[k]);
                    assert(m.dom().contains(before[k].0@));
                } else if k > j {
                    assert(e@[k] == before[k - 1]);
                    assert(m.dom().contains(before[k - 1].0@));
                }
            }
            assert forall|x: Seq<char>| #[trigger] target.dom().contains(x) implies exists|k: int|
                0 <= k < e@.len() && (#[trigger] e@[k]).0@ == x by {
                if x == key@ {
                    assert(e@[j as int].0@ == x);
                } else {
                    let k = choose|k: int| 0 <= k < before.len() && (#[trigger] before[k]).0@ == x;
                    if k < j {
                        assert(e@[k] == before[k]);
                    } else {
                        assert(e@[k + 1] == before[k]);
                    }
                }
            }
            lemma_same_map(e@, target);
        }
    }
}

/// A variable name without its leading `--`.
fn strip_dashes_exec(k: &str) -> (r: Vec<char>)
    ensures
        r@ == strip_dashes(k@),
{
    let v = chars_of(k);
    if starts_with_str(&v, "--") {
        proof { reveal_strlit("--"); }
        let r = sub_chars(&v, 2, v.len());
        assert(r@ == v@.skip(2));
        r
    } else {
        v
    }
}

/// The variables a book's style sheet sets, as [`merged_variables`] says,
/// in ascending order of name.
pub fn merge_css_variables(vars: &[(String, String)]) -> (r: Vec<(String, String)>)
    ensures
        names_ascending(r@),
        entries_map(r@) == merged_variables(vars@),
{
    let mut e: Vec<(String, String)> = Vec::new();
    let mut i: usize = 0;
    while i < vars.len()
        invariant
            i <= vars@.len(),
            names_ascending(e@),
            entries_map(e@) == current_names(vars@, i as int),
        decreases vars.len() - i,
    {
        let s = strip_dashes_exec(vars[i].0.as_str());
        let ss = string_of(&s);
        let c = chars_of(EpubConverter3::canonical_css_variable(ss.as_str()));
        if chars_eq(&c, &s) {
            put(&mut e, &s, vars[i].1.as_str(), true);
        }
        i = i + 1;
    }
    let ghost base = current_names(vars@, vars@.len() as int);
    let mut i: usize = 0;
    while i < vars.len()
        invariant
            i <= vars@.len(),
            names_ascending(e@),
            base == current_names(vars@, vars@.len() as int),
            entries_map(e@) == alias_fill(vars@, i as int, base),
        decreases vars.len() - i,
    {
        let s = strip_dashes_exec(vars[i].0.as_str());
        let ss = string_of(&s);
        let c = chars_of(EpubConverter3::canonical_css_variable(ss.as_str()));
        put(&mut e, &c, vars[i].1.as_str(), false);
        i = i + 1;
    }
    e
}

} // verus!
