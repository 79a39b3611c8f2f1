//! Chapter numbers: Arabic and Chinese numerals in titles and in the file
//! names of header images.

use vstd::prelude::*;
use crate::text::{chars_of, only_digits_in, parse_unsigned, trim, trim_chars, unsigned_value};
use crate::utils::regex::{compile, regex_captures, regex_valid};

verus! {

/// The value of a Chinese digit (`零`/`〇` to `九`, `两` for two).
pub open spec fn cn_digit(c: char) -> Option<nat> {
    if c == '零' || c == '〇' {
        Some(0)
    } else if c == '一' {
        Some(1)
    } else if c == '二' || c == '两' {
        Some(2)
    } else if c == '三' {
        Some(3)
    } else if c == '四' {
        Some(4)
    } else if c == '五' {
        Some(5)
    } else if c == '六' {
        Some(6)
    } else if c == '七' {
        Some(7)
    } else if c == '八' {
        Some(8)
    } else if c == '九' {
        Some(9)
    } else {
        None
    }
}

/// The value of a Chinese unit below ten thousand.
pub open spec fn cn_unit(c: char) -> Option<nat> {
    if c == '十' {
        Some(10)
    } else if c == '百' {
        Some(100)
    } else if c == '千' {
        Some(1000)
    } else {
        None
    }
}

/// Reading state: the total of finished groups of ten thousand, the
/// group being read, the pending digit.
pub type NumeralState = (nat, nat, nat);

/// The state after one more character; `None` for a character that is no
/// numeral, or a value that does not fit in `u64`.
pub open spec fn numeral_step(st: NumeralState, c: char) -> Option<NumeralState> {
    let (t, s, d) = st;
    match cn_digit(c) {
        Some(v) => Some((t, s, v)),
        None => match cn_unit(c) {
            Some(u) => {
                let add = (if d == 0 { 1 } else { d }) * u;
                if s + add > u64::MAX { None } else { Some((t, (s + add) as nat, 0)) }
            },
            None => if c == '万' {
                let grown = (t + s + d) * 10000;
                if s + d > u64::MAX || t + s + d > u64::MAX || grown > u64::MAX { None } else { Some((grown as nat, 0, 0)) }
            } else {
                None
            },
        },
    }
}

/// The state after reading `s`.
pub open spec fn numeral_fold(s: Seq<char>) -> Option<NumeralState>
    decreases s.len(),
{
    if s.len() == 0 {
        Some((0, 0, 0))
    } else {
        match numeral_fold(s.drop_last()) {
            None => None,
            Some(st) => numeral_step(st, s.last()),
        }
    }
}

/// The value of a Chinese numeral such as `十`, `二十一`, `一百零三` or
/// `十万`; `None` for an empty text, another character, or a value beyond
/// `u64`.
pub open spec fn chinese_value(s: Seq<char>) -> Option<nat> {
    if s.len() == 0 {
        None
    } else {
        match numeral_fold(s) {
            None => None,
            Some((t, g, d)) => if t + g + d > u64::MAX { None } else { Some((t + g + d) as nat) },
        }
    }
}

/// The value of a numeral: ASCII digits (leading zeros allowed), else a
/// Chinese numeral.
pub open spec fn numeral_value(s: Seq<char>) -> Option<nat> {
    if s.len() == 0 {
        None
    } else if only_digits_in(s, 10) {
        unsigned_value(s, 10, u64::MAX as nat)
    } else {
        chinese_value(s)
    }
}

/// Chapter numbers in titles: `第N章` (and 回, 节, 卷, 部, 幕, 集),
/// `Chapter N`, `Section N`, `Page N`, or a leading number.
pub const TITLE_NUMBER_PATTERN: &'static str =
    r"(?i)(?:第\s*([0-9]+|[零〇一二三四五六七八九十百千万两]+)\s*[章回节卷部幕集]|(?:chapter|section|page)\s*([0-9]+)|^([0-9]+))";

/// Chapter numbers in image names: `第N章` and its kin, the whole name.
pub const STEM_NUMBER_PATTERN: &'static str =
    r"^第\s*([0-9]+|[零〇一二三四五六七八九十百千万两]+)\s*[章回节卷部幕集]$";

/// The first group after group 0 that took part in a match.
pub open spec fn first_group(groups: Seq<Option<Seq<char>>>) -> Option<Seq<char>>
    decreases groups.len(),
{
    if groups.len() <= 1 {
        None
    } else {
        match first_group(groups.drop_last()) {
            Some(g) => Some(g),
            None => groups.last(),
        }
    }
}

/// The chapter number of a title.
pub open spec fn title_number(title: Seq<char>) -> Option<nat> {
    let t = trim(title);
    if t.len() == 0 || !regex_valid(TITLE_NUMBER_PATTERN@) {
        None
    } else {
        match regex_captures(TITLE_NUMBER_PATTERN@, t) {
            None => None,
            Some(groups) => match first_group(groups) {
                None => None,
                Some(token) => numeral_value(token),
            },
        }
    }
}

/// The chapter number of the name of a header image.
pub open spec fn stem_value(stem: Seq<char>) -> Option<nat> {
    let t = trim(stem);
    if t.len() == 0 {
        None
    } else if numeral_value(t) is Some {
        numeral_value(t)
    } else if !regex_valid(STEM_NUMBER_PATTERN@) {
        None
    } else {
        match regex_captures(STEM_NUMBER_PATTERN@, t) {
            Some(groups) if groups.len() > 1 && groups[1] is Some => numeral_value(groups[1]->0),
            _ => None,
        }
    }
}

/// The value of a Chinese digit.
fn cn_digit_exec(c: char) -> (r: Option<u64>)
    ensures
        match cn_digit(c) {
            Some(v) => r == Some(v as u64),
            None => r is None,
        },
{
    if c == '零' || c == '〇' {
        Some(0)
    } else if c == '一' {
        Some(1)
    } else if c == '二' || c == '两' {
        Some(2)
    } else if c == '三' {
        Some(3)
    } else if c == '四' {
        Some(4)
    } else if c == '五' {
        Some(5)
    } else if c == '六' {
        Some(6)
    } else if c == '七' {
        Some(7)
    } else if c == '八' {
        Some(8)
    } else if c == '九' {
        Some(9)
    } else {
        None
    }
}

/// The value of a Chinese numeral (see `chinese_value`).
pub fn chinese_numeral_value(token: &str) -> (r: Option<u64>)
    ensures
        match chinese_value(token@) {
            Some(v) => r == Some(v as u64),
            None => r is None,
        },
{
    let cs = chars_of(token);
    if cs.len() == 0 {
        return None;
    }
    let mut total: u64 = 0;
    let mut section: u64 = 0;
    let mut digit: u64 = 0;
    let mut i: usize = 0;
    while i < cs.len()
        invariant
            i <= cs@.len(),
            cs@ == token@,
            numeral_fold(cs@.take(i as int)) == Some((total as nat, section as nat, digit as nat)),
            digit <= 9,
        decreases cs.len() - i,
    {
        let c = cs[i];
        assert(cs@.take(i + 1).drop_last() == cs@.take(i as int));
        assert(cs@.take(i + 1).last() == c);
        match cn_digit_exec(c) {
            Some(v) => {
                digit = v;
            },
            None => {
                let unit: u64 = if c == '十' { 10 } else if c == '百' { 100 } else if c == '千' { 1000 } else { 0 };
                if unit > 0 {
                    let base: u64 = if digit == 0 { 1 } else { digit };
                    let add = base * unit;
                    match section.checked_add(add) {
                        Some(x) => {
                            section = x;
                        },
                        None => {
                            proof { lemma_fold_fails(cs@, i as int); }
                            return None;
                        },
                    }
                    digit = 0;
                } else if c == '万' {
                    let group = match section.checked_add(digit) {
                        Some(x) => x,
                        None => {
                            proof { lemma_fold_fails(cs@, i as int); }
                            return None;
                        },
                    };
                    let sum = match total.checked_add(group) {
                        Some(x) => x,
                        None => {
                            proof { lemma_fold_fails(cs@, i as int); }
                            return None;
                        },
                    };
                    total = match sum.checked_mul(10000) {
                        Some(x) => x,
                        None => {
                            proof { lemma_fold_fails(cs@, i as int); }
                            return None;
                        },
                    };
                    section = 0;
                    digit = 0;
                } else {
                    proof { lemma_fold_fails(cs@, i as int); }
                    return None;
                }
            },
        }
        i = i + 1;
    }
    assert(cs@.take(cs@.len() as int) == cs@);
    match total.checked_add(section) {
        Some(x) => match x.checked_add(digit) {
            Some(y) => Some(y),
            None => None,
        },
        None => None,
    }
}

/// A failed step makes the whole reading fail.
proof fn lemma_fold_fails(s: Seq<char>, i: int)
    requires
        0 <= i < s.len(),
        numeral_fold(s.take(i)) is Some,
        numeral_step(numeral_fold(s.take(i))->0, s[i]) is None,
    ensures
        numeral_fold(s) is None,
{
    assert(s.take(i + 1).drop_last() == s.take(i));
    lemma_fold_none_persists(s, i + 1, s.len() as int);
    assert(s.take(s.len() as int) == s);
}

proof fn lemma_fold_none_persists(s: Seq<char>, j: int, k: int)
    requires
        0 <= j <= k <= s.len(),
        numeral_fold(s.take(j)) is None,
    ensures
        numeral_fold(s.take(k)) is None,
    decreases k - j,
{
    if j < k {
        lemma_fold_none_persists(s, j, k - 1);
        assert(s.take(k).drop_last() == s.take(k - 1));
    }
}

/// Whether every character is an ASCII digit.
fn all_digits(s: &[char]) -> (r: bool)
    ensures
        r == only_digits_in(s@, 10),
{
    let mut i: usize = 0;
    while i < s.len()
        invariant
            i <= s@.len(),
            forall|k: int| 0 <= k < i ==> #[trigger] crate::text::digit_in(s@[k], 10) is Some,
        decreases s.len() - i,
    {
        if !('0' <= s[i] && s[i] <= '9') {
            assert(crate::text::digit_in(s@[i as int], 10) is None);
            return false;
        }
        i = i + 1;
    }
    true
}

/// The value of a numeral (see `numeral_value`).
pub fn parse_numeral(token: &str) -> (r: Option<u64>)
    ensures
        match numeral_value(token@) {
            Some(v) => r == Some(v as u64),
            None => r is None,
        },
{
    let cs = chars_of(token);
    if cs.len() == 0 {
        return None;
    }
    if all_digits(&cs) {
        return parse_unsigned(&cs, 10, u64::MAX);
    }
    chinese_numeral_value(token)
}

/// The chapter number of a title.
pub fn chapter_number_of(title: &str) -> (r: Option<u64>)
    ensures
        match title_number(title@) {
            Some(v) => r == Some(v as u64),
            None => r is None,
        },
{
    let t = crate::text::string_of(&trim_chars(&chars_of(title)));
    if chars_of(t.as_str()).len() == 0 {
        return None;
    }
    let re = match compile(TITLE_NUMBER_PATTERN) {
        Ok(c) => c,
        Err(_) => return None,
    };
    let groups = match re.captures(t.as_str()) {
        Some(g) => g,
        None => return None,
    };
    let ghost gv = groups@.map_values(|g: Option<String>| match g { Some(s) => Some(s@), None => None });
    if groups.len() == 0 {
        return None;
    }
    let mut i: usize = 1;
    assert(first_group(gv.take(1)) is None);
    while i < groups.len()
        invariant
            1 <= i <= groups@.len(),
            gv == groups@.map_values(|g: Option<String>| match g { Some(s) => Some(s@), None => None }),
            first_group(gv.take(i as int)) is None,
            t@ == trim(title@),
            t@.len() > 0,
            regex_valid(TITLE_NUMBER_PATTERN@),
            regex_captures(TITLE_NUMBER_PATTERN@, t@) == Some(gv),
        decreases groups.len() - i,
    {
        assert(gv.take(i + 1).drop_last() == gv.take(i as int));
        if let Some(token) = &groups[i] {
            assert(gv[i as int] == Some(token@));
            assert(gv.take(i + 1).last() == gv[i as int]);
            assert(first_group(gv.take(i + 1)) == Some(token@));
            proof { lemma_first_group_prefix(gv, i as int + 1); }
            return parse_numeral(token.as_str());
        }
        i = i + 1;
    }
    assert(gv.take(gv.len() as int) == gv);
    None
}

/// Once found among a prefix, the first group stays the same.
proof fn lemma_first_group_prefix(g: Seq<Option<Seq<char>>>, k: int)
    requires
        1 <= k <= g.len(),
        first_group(g.take(k)) is Some,
    ensures
        first_group(g) == first_group(g.take(k)),
    decreases g.len() - k,
{
    if k < g.len() {
        assert(g.drop_last().take(k) == g.take(k));
        lemma_first_group_prefix(g.drop_last(), k);
    } else {
        assert(g.take(k) == g);
    }
}

/// The chapter number of the name of a header image.
pub fn stem_number(stem: &str) -> (r: Option<u64>)
    ensures
        match stem_value(stem@) {
            Some(v) => r == Some(v as u64),
            None => r is None,
        },
{
    let tc = trim_chars(&chars_of(stem));
    if tc.len() == 0 {
        return None;
    }
    let t = crate::text::string_of(&tc);
    if let Some(v) = parse_numeral(t.as_str()) {
        return Some(v);
    }
    let re = match compile(STEM_NUMBER_PATTERN) {
        Ok(c) => c,
        Err(_) => return None,
    };
    match re.captures(t.as_str()) {
        Some(groups) => {
            if groups.len() > 1 {
                match &groups[1] {
                    Some(token) => parse_numeral(token.as_str()),
                    None => None,
                }
            } else {
                None
            }
        },
        None => None,
    }
}

} // verus!
