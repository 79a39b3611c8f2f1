//! Character-level text utilities shared by the whole library.
//!
//! Text is handled as sequences of `char`; the specifications below state
//! what the corresponding `str` operations of the standard library compute.

use vstd::prelude::*;

verus! {

/// `String::push` appends one character to the end of the string.
pub assume_specification[ String::push ](s: &mut String, ch: char)
    ensures
        final(s)@ == old(s)@.push(ch),
;

/// Unicode `White_Space`, the property that `char::is_whitespace` tests.
pub open spec fn is_ws(c: char) -> bool {
    let u = c as u32;
    (0x09 <= u && u <= 0x0D) || u == 0x20 || u == 0x85 || u == 0xA0 || u == 0x1680
        || (0x2000 <= u && u <= 0x200A) || u == 0x2028 || u == 0x2029 || u == 0x202F
        || u == 0x205F || u == 0x3000
}

/// `s` without its leading white space (`str::trim_start`).
pub open spec fn trim_start(s: Seq<char>) -> Seq<char>
    decreases s.len(),
{
    if s.len() > 0 && is_ws(s[0]) {
        trim_start(s.drop_first())
    } else {
        s
    }
}

/// `s` without its trailing white space (`str::trim_end`).
pub open spec fn trim_end(s: Seq<char>) -> Seq<char>
    decreases s.len(),
{
    if s.len() > 0 && is_ws(s.last()) {
        trim_end(s.drop_last())
    } else {
        s
    }
}

/// `s` without leading and trailing white space (`str::trim`).
pub open spec fn trim(s: Seq<char>) -> Seq<char> {
    trim_end(trim_start(s))
}

/// Number of bytes of the UTF-8 encoding of `c`.
pub open spec fn char_width(c: char) -> nat {
    let u = c as u32;
    if u <= 0x7F {
        1
    } else if u <= 0x7FF {
        2
    } else if u <= 0xFFFF {
        3
    } else {
        4
    }
}

/// Number of bytes of the UTF-8 encoding of `s` (`str::len`).
pub open spec fn byte_len(s: Seq<char>) -> nat
    decreases s.len(),
{
    if s.len() == 0 {
        0
    } else {
        byte_len(s.drop_last()) + char_width(s.last())
    }
}

/// `byte_len`, saturated at `usize::MAX`.
pub open spec fn sat_len(s: Seq<char>) -> nat {
    if byte_len(s) <= usize::MAX {
        byte_len(s)
    } else {
        usize::MAX as nat
    }
}

/// `p` is a prefix of `s` (`str::starts_with`).
pub open spec fn has_prefix(s: Seq<char>, p: Seq<char>) -> bool {
    p.len() <= s.len() && s.take(p.len() as int) == p
}

/// `p` is a suffix of `s` (`str::ends_with`).
pub open spec fn has_suffix(s: Seq<char>, p: Seq<char>) -> bool {
    p.len() <= s.len() && s.skip(s.len() - p.len()) == p
}

/// `p` occurs in `s` at position `i`.
pub open spec fn occurs_at(s: Seq<char>, p: Seq<char>, i: int) -> bool {
    0 <= i && i + p.len() <= s.len() && s.subrange(i, i + p.len()) == p
}

/// `p` occurs somewhere in `s` (`str::contains`).
pub open spec fn contains_seq(s: Seq<char>, p: Seq<char>) -> bool {
    exists|i: int| occurs_at(s, p, i)
}

/// The pieces of `s` between `'\n'` characters; there is always at least one.
pub open spec fn split_nl(s: Seq<char>) -> Seq<Seq<char>>
    decreases s.len(),
{
    if s.len() == 0 {
        seq![Seq::<char>::empty()]
    } else {
        let r = split_nl(s.drop_last());
        if s.last() == '\n' {
            r.push(Seq::<char>::empty())
        } else {
            r.update(r.len() - 1, r.last().push(s.last()))
        }
    }
}

/// A line that was ended by `'\n'`, without a final `'\r'`.
pub open spec fn strip_cr(l: Seq<char>) -> Seq<char> {
    if l.len() > 0 && l.last() == '\r' {
        l.drop_last()
    } else {
        l
    }
}

/// The lines of `s` as `str::lines` gives them: split at `"\n"` or `"\r\n"`,
/// terminators removed, a final empty piece after the last terminator dropped.
pub open spec fn lines(s: Seq<char>) -> Seq<Seq<char>> {
    let p = split_nl(s);
    let ended = p.drop_last().map_values(|l: Seq<char>| strip_cr(l));
    if p.last().len() == 0 {
        ended
    } else {
        ended.push(p.last())
    }
}

/// The view of each vector of characters.
pub open spec fn views(v: Seq<Vec<char>>) -> Seq<Seq<char>> {
    v.map_values(|x: Vec<char>| x@)
}

pub proof fn lemma_split_nl_nonempty(s: Seq<char>)
    ensures
        split_nl(s).len() >= 1,
    decreases s.len(),
{
    if s.len() > 0 {
        lemma_split_nl_nonempty(s.drop_last());
    }
}

proof fn lemma_trim_start_shape(s: Seq<char>)
    ensures
        trim_start(s).len() > 0 ==> !is_ws(trim_start(s)[0]),
        trim_start(s).len() <= s.len(),
        s.len() > 0 && !is_ws(s[0]) ==> trim_start(s) == s,
    decreases s.len(),
{
    if s.len() > 0 && is_ws(s[0]) {
        lemma_trim_start_shape(s.drop_first());
    }
}

proof fn lemma_trim_end_shape(s: Seq<char>)
    ensures
        trim_end(s).len() > 0 ==> !is_ws(trim_end(s).last()) && trim_end(s)[0] == s[0],
        trim_end(s).len() <= s.len(),
        s.len() > 0 && !is_ws(s.last()) ==> trim_end(s) == s,
        s.len() > 0 && !is_ws(s[0]) ==> trim_end(s).len() > 0,
    decreases s.len(),
{
    if s.len() > 0 && is_ws(s.last()) {
        lemma_trim_end_shape(s.drop_last());
        if s.drop_last().len() > 0 {
            assert(s.drop_last()[0] == s[0]);
        }
    }
}

/// Trimming twice is trimming once.
pub proof fn lemma_trim_idempotent(s: Seq<char>)
    ensures
        trim(trim(s)) == trim(s),
{
    let a = trim_start(s);
    lemma_trim_start_shape(s);
    let b = trim_end(a);
    lemma_trim_end_shape(a);
    if b.len() > 0 {
        lemma_trim_start_shape(b);
        lemma_trim_end_shape(b);
    }
}

/// The ASCII digit of `d` (below ten).
pub open spec fn digit_char(d: nat) -> char {
    ((d + 48) as u32) as char
}

/// Decimal representation of `i`, as `format!("{}", i)` gives it.
pub open spec fn dec(i: nat) -> Seq<char>
    decreases i,
{
    if i < 10 {
        seq![digit_char(i)]
    } else {
        dec(i / 10).push(digit_char(i % 10))
    }
}

/// Decimal digits of `i`.
pub fn decimal(i: u64) -> (r: Vec<char>)
    ensures
        r@ == dec(i as nat),
    decreases i,
{
    if i < 10 {
        let mut v = Vec::new();
        v.push(((i + 48) as u8) as char);
        v
    } else {
        let mut v = decimal(i / 10);
        let d = i % 10;
        v.push(((d + 48) as u8) as char);
        v
    }
}

/// The value of an ASCII digit in `radix` (at most 16), if it is one.
pub open spec fn digit_in(c: char, radix: nat) -> Option<nat> {
    let v: int = if '0' <= c && c <= '9' {
        c as u32 - 48
    } else if 'a' <= c && c <= 'f' {
        c as u32 - 87
    } else if 'A' <= c && c <= 'F' {
        c as u32 - 55
    } else {
        99
    };
    if v < radix { Some(v as nat) } else { None }
}

/// Every character is a digit in `radix`.
pub open spec fn only_digits_in(s: Seq<char>, radix: nat) -> bool {
    forall|i: int| 0 <= i < s.len() ==> #[trigger] digit_in(s[i], radix) is Some
}

/// The value of a string of digits in `radix`.
pub open spec fn radix_value(s: Seq<char>, radix: nat) -> nat
    decreases s.len(),
{
    if s.len() == 0 {
        0
    } else {
        radix_value(s.drop_last(), radix) * radix + match digit_in(s.last(), radix) {
            Some(d) => d,
            None => 0,
        }
    }
}

/// What parsing an unsigned integer of at most `max` in `radix` gives
/// (`str::parse`, `from_str_radix`): an optional `+` and at least one
/// digit, with a value that fits.
pub open spec fn unsigned_value(s: Seq<char>, radix: nat, max: nat) -> Option<nat> {
    let d = if s.len() > 0 && s[0] == '+' { s.drop_first() } else { s };
    if d.len() > 0 && only_digits_in(d, radix) && radix_value(d, radix) <= max {
        Some(radix_value(d, radix))
    } else {
        None
    }
}

/// What `str::parse::<usize>` gives.
pub open spec fn usize_value(s: Seq<char>) -> Option<nat> {
    unsigned_value(s, 10, usize::MAX as nat)
}

proof fn lemma_radix_value_grows(s: Seq<char>, radix: nat, j: int, k: int)
    requires
        0 <= j <= k <= s.len(),
        radix >= 1,
    ensures
        radix_value(s.take(j), radix) <= radix_value(s.take(k), radix),
    decreases k - j,
{
    if j < k {
        lemma_radix_value_grows(s, radix, j, k - 1);
        assert(s.take(k).drop_last() == s.take(k - 1));
        let v = radix_value(s.take(k - 1), radix);
        assert(v <= v * radix) by (nonlinear_arith)
            requires radix >= 1;
    }
}

/// A prefix whose value is too large makes the whole too large.
proof fn lemma_over(d: Seq<char>, radix: nat, max: nat, k: int)
    requires
        0 < k <= d.len(),
        radix >= 1,
        radix_value(d.take(k), radix) > max,
    ensures
        radix_value(d, radix) > max,
{
    lemma_radix_value_grows(d, radix, k, d.len() as int);
    assert(d.take(d.len() as int) == d);
}

/// The value of digit `c` in `radix`.
fn digit_exec(c: char, radix: u64) -> (r: Option<u64>)
    requires
        2 <= radix <= 16,
    ensures
        match digit_in(c, radix as nat) {
            Some(v) => r == Some(v as u64),
            None => r is None,
        },
{
    let v: u64 = if '0' <= c && c <= '9' {
        (c as u32 - 48) as u64
    } else if 'a' <= c && c <= 'f' {
        (c as u32 - 87) as u64
    } else if 'A' <= c && c <= 'F' {
        (c as u32 - 55) as u64
    } else {
        99
    };
    if v < radix { Some(v) } else { None }
}

/// Parses an unsigned integer of at most `max` in `radix`.
pub fn parse_unsigned(s: &[char], radix: u64, max: u64) -> (r: Option<u64>)
    requires
        2 <= radix <= 16,
    ensures
        match unsigned_value(s@, radix as nat, max as nat) {
            Some(v) => r == Some(v as u64),
            None => r is None,
        },
{
    let start: usize = if s.len() > 0 && s[0] == '+' { 1 } else { 0 };
    let ghost d = if s@.len() > 0 && s@[0] == '+' { s@.drop_first() } else { s@ };
    assert(d == s@.skip(start as int));
    if start >= s.len() {
        return None;
    }
    let mut acc: u64 = 0;
    let mut i: usize = start;
    while i < s.len()
        invariant
            start <= i <= s.len(),
            2 <= radix <= 16,
            d == s@.skip(start as int),
            d == (if s@.len() > 0 && s@[0] == '+' { s@.drop_first() } else { s@ }),
            d.len() > 0,
            acc == radix_value(d.take(i - start), radix as nat),
            acc <= max,
            only_digits_in(d.take(i - start), radix as nat),
        decreases s.len() - i,
    {
        let c = s[i];
        assert(d.take(i - start + 1).drop_last() == d.take(i - start));
        assert(d.take(i - start + 1).last() == c);
        assert(d[i - start] == c);
        let digit = match digit_exec(c, radix) {
            Some(v) => v,
            None => {
                return None;
            },
        };
        assert(only_digits_in(d.take(i - start + 1), radix as nat));
        match acc.checked_mul(radix) {
            Some(m) => match m.checked_add(digit) {
                Some(n) => {
                    if n > max {
                        proof { lemma_over(d, radix as nat, max as nat, (i - start + 1) as int); }
                        return None;
                    }
                    acc = n;
                },
                None => {
                    proof { lemma_over(d, radix as nat, max as nat, (i - start + 1) as int); }
                    return None;
                },
            },
            None => {
                proof {
                    assert(acc * radix > u64::MAX);
                    lemma_over(d, radix as nat, max as nat, (i - start + 1) as int);
                }
                return None;
            },
        }
        i = i + 1;
    }
    assert(d.take(i - start) == d);
    Some(acc)
}

/// Parses an unsigned integer as `str::parse::<usize>` does.
pub fn parse_usize(s: &[char]) -> (r: Option<usize>)
    ensures
        match usize_value(s@) {
            Some(v) => r == Some(v as usize),
            None => r is None,
        },
{
    match parse_unsigned(s, 10, usize::MAX as u64) {
        Some(v) => Some(v as usize),
        None => None,
    }
}

/// The saturated length is the length whenever either is small.
pub proof fn lemma_sat_len(s: Seq<char>)
    ensures
        sat_len(s) <= 32 ==> byte_len(s) <= 32,
        byte_len(s) <= 32 ==> sat_len(s) == byte_len(s),
{
}

/// `a` is a prefix of `a + b`.
pub proof fn lemma_prefix_of_concat(a: Seq<char>, b: Seq<char>)
    ensures
        has_prefix(a + b, a),
{
    assert((a + b).take(a.len() as int) =~= a);
}

pub proof fn lemma_byte_len_concat(a: Seq<char>, b: Seq<char>)
    ensures
        byte_len(a + b) == byte_len(a) + byte_len(b),
    decreases b.len(),
{
    if b.len() == 0 {
        assert(a + b == a);
    } else {
        assert((a + b).drop_last() == a + b.drop_last());
        lemma_byte_len_concat(a, b.drop_last());
    }
}

/// The characters of `s`, in order.
pub fn chars_of(s: &str) -> (v: Vec<char>)
    ensures
        v@ == s@,
{
    let mut v: Vec<char> = Vec::new();
    for c in it: s.chars()
        invariant
            v@ == it.seq().take(it.index() as int),
            it.seq() == s@,
    {
        v.push(c);
    }
    v
}

/// A string holding exactly the characters of `v`.
pub fn string_of(v: &[char]) -> (s: String)
    ensures
        s@ == v@,
{
    let mut s = String::new();
    let mut i: usize = 0;
    while i < v.len()
        invariant
            i <= v.len(),
            s@ == v@.take(i as int),
        decreases v.len() - i,
    {
        s.push(v[i]);
        i = i + 1;
        assert(v@.take(i as int) == v@.take((i - 1) as int).push(v@[i - 1]));
    }
    assert(v@.take(v.len() as int) == v@);
    s
}

/// The characters of `s` from `a` up to `b` (excluded).
pub fn sub_chars(s: &[char], a: usize, b: usize) -> (r: Vec<char>)
    requires
        a <= b <= s.len(),
    ensures
        r@ == s@.subrange(a as int, b as int),
{
    let mut r: Vec<char> = Vec::new();
    let mut i: usize = a;
    while i < b
        invariant
            a <= i <= b,
            b <= s.len(),
            r@ == s@.subrange(a as int, i as int),
        decreases b - i,
    {
        r.push(s[i]);
        i = i + 1;
        assert(s@.subrange(a as int, i as int) == s@.subrange(a as int, i - 1).push(s@[i - 1]));
    }
    r
}

/// Appends the characters of `p` to `s`.
pub fn push_chars(s: &mut String, p: &[char])
    ensures
        final(s)@ == old(s)@ + p@,
{
    let mut i: usize = 0;
    while i < p.len()
        invariant
            i <= p.len(),
            s@ == old(s)@ + p@.take(i as int),
        decreases p.len() - i,
    {
        s.push(p[i]);
        i = i + 1;
        assert(p@.take(i as int) == p@.take((i - 1) as int).push(p@[i - 1]));
    }
    assert(p@.take(p.len() as int) == p@);
}

/// Appends the characters of `p` to `s`.
pub fn push_str(s: &mut String, p: &str)
    ensures
        final(s)@ == old(s)@ + p@,
{
    let v = chars_of(p);
    push_chars(s, &v);
}

/// Appends the characters of `p` to `v`.
pub fn extend_chars(v: &mut Vec<char>, p: &[char])
    ensures
        final(v)@ == old(v)@ + p@,
{
    let mut i: usize = 0;
    while i < p.len()
        invariant
            i <= p.len(),
            v@ == old(v)@ + p@.take(i as int),
        decreases p.len() - i,
    {
        v.push(p[i]);
        i = i + 1;
        assert(p@.take(i as int) == p@.take((i - 1) as int).push(p@[i - 1]));
    }
    assert(p@.take(p.len() as int) == p@);
}

/// Whether `c` is white space (`char::is_whitespace`).
pub fn is_whitespace(c: char) -> (r: bool)
    ensures
        r == is_ws(c),
{
    let u = c as u32;
    (0x09 <= u && u <= 0x0D) || u == 0x20 || u == 0x85 || u == 0xA0 || u == 0x1680
        || (0x2000 <= u && u <= 0x200A) || u == 0x2028 || u == 0x2029 || u == 0x202F
        || u == 0x205F || u == 0x3000
}

/// `s` without leading and trailing white space.
pub fn trim_chars(s: &[char]) -> (r: Vec<char>)
    ensures
        r@ == trim(s@),
{
    let mut a: usize = 0;
    assert(s@.skip(0) == s@);
    while a < s.len() && is_whitespace(s[a])
        invariant
            a <= s.len(),
            trim_start(s@) == trim_start(s@.skip(a as int)),
        decreases s.len() - a,
    {
        assert(s@.skip(a as int).drop_first() == s@.skip(a + 1));
        a = a + 1;
    }
    let ghost t = s@.skip(a as int);
    assert(trim_start(s@) == t);
    let mut b: usize = s.len();
    while b > a && is_whitespace(s[b - 1])
        invariant
            a <= b <= s.len(),
            t == s@.skip(a as int),
            trim_end(t) == trim_end(s@.subrange(a as int, b as int)),
        decreases b,
    {
        assert(s@.subrange(a as int, b as int).drop_last() == s@.subrange(a as int, b - 1));
        b = b - 1;
    }
    let mut r: Vec<char> = Vec::new();
    let mut i: usize = a;
    while i < b
        invariant
            a <= i <= b,
            b <= s.len(),
            r@ == s@.subrange(a as int, i as int),
        decreases b - i,
    {
        r.push(s[i]);
        i = i + 1;
        assert(s@.subrange(a as int, i as int) == s@.subrange(a as int, i - 1).push(s@[i - 1]));
    }
    r
}

/// `s` without leading white space.
pub fn trim_start_chars(s: &[char]) -> (r: Vec<char>)
    ensures
        r@ == trim_start(s@),
{
    let mut a: usize = 0;
    assert(s@.skip(0) == s@);
    while a < s.len() && is_whitespace(s[a])
        invariant
            a <= s.len(),
            trim_start(s@) == trim_start(s@.skip(a as int)),
        decreases s.len() - a,
    {
        assert(s@.skip(a as int).drop_first() == s@.skip(a + 1));
        a = a + 1;
    }
    let r = sub_chars(s, a, s.len());
    assert(r@ == s@.skip(a as int));
    r
}

/// Whether `a` and `b` hold the same characters.
pub fn chars_eq(a: &[char], b: &[char]) -> (r: bool)
    ensures
        r == (a@ == b@),
{
    if a.len() != b.len() {
        return false;
    }
    let mut i: usize = 0;
    while i < a.len()
        invariant
            i <= a.len(),
            a.len() == b.len(),
            forall|j: int| 0 <= j < i ==> a@[j] == b@[j],
        decreases a.len() - i,
    {
        if a[i] != b[i] {
            return false;
        }
        i = i + 1;
    }
    assert(a@ =~= b@);
    true
}

/// Whether `a` holds exactly the characters of the string `b`.
pub fn chars_eq_str(a: &[char], b: &str) -> (r: bool)
    ensures
        r == (a@ == b@),
{
    let bv = chars_of(b);
    chars_eq(a, &bv)
}

/// Whether `p` occurs in `s` at position `i`.
pub fn occurs_at_exec(s: &[char], p: &[char], i: usize) -> (r: bool)
    ensures
        r == occurs_at(s@, p@, i as int),
{
    if i > s.len() || p.len() > s.len() - i {
        return false;
    }
    let mut j: usize = 0;
    while j < p.len()
        invariant
            j <= p.len(),
            i + p.len() <= s.len(),
            forall|k: int| 0 <= k < j ==> s@[i + k] == p@[k],
        decreases p.len() - j,
    {
        if s[i + j] != p[j] {
            assert(s@.subrange(i as int, i + p.len())[j as int] != p@[j as int]);
            return false;
        }
        j = j + 1;
    }
    assert(s@.subrange(i as int, i + p.len()) =~= p@);
    true
}

/// Whether `s` begins with `p`.
pub fn starts_with(s: &[char], p: &[char]) -> (r: bool)
    ensures
        r == has_prefix(s@, p@),
{
    let r = occurs_at_exec(s, p, 0);
    assert(s@.subrange(0, p@.len() as int) == s@.take(p@.len() as int));
    r
}

/// Whether `s` begins with the characters of `p`.
pub fn starts_with_str(s: &[char], p: &str) -> (r: bool)
    ensures
        r == has_prefix(s@, p@),
{
    let pv = chars_of(p);
    starts_with(s, &pv)
}

/// Whether `s` ends with `p`.
pub fn ends_with(s: &[char], p: &[char]) -> (r: bool)
    ensures
        r == has_suffix(s@, p@),
{
    if p.len() > s.len() {
        return false;
    }
    let r = occurs_at_exec(s, p, s.len() - p.len());
    assert(s@.subrange(s.len() - p.len(), s@.len() as int) == s@.skip(s.len() - p.len()));
    r
}

/// Whether `s` ends with the characters of `p`.
pub fn ends_with_str(s: &[char], p: &str) -> (r: bool)
    ensures
        r == has_suffix(s@, p@),
{
    let pv = chars_of(p);
    ends_with(s, &pv)
}

/// Whether `p` occurs in `s`.
pub fn contains_chars(s: &[char], p: &[char]) -> (r: bool)
    ensures
        r == contains_seq(s@, p@),
{
    if p.len() > s.len() {
        assert(forall|i: int| !occurs_at(s@, p@, i));
        return false;
    }
    let last = s.len() - p.len();
    let mut i: usize = 0;
    loop
        invariant
            p.len() <= s.len(),
            last == s.len() - p.len(),
            i <= last,
            forall|k: int| 0 <= k < i ==> !occurs_at(s@, p@, k),
        ensures
            forall|k: int| 0 <= k <= last ==> !occurs_at(s@, p@, k),
        decreases last - i,
    {
        if occurs_at_exec(s, p, i) {
            return true;
        }
        if i == last {
            break;
        }
        i = i + 1;
    }
    assert(forall|k: int| !occurs_at(s@, p@, k));
    false
}

/// Whether the characters of `p` occur in `s`.
pub fn contains_str(s: &[char], p: &str) -> (r: bool)
    ensures
        r == contains_seq(s@, p@),
{
    let pv = chars_of(p);
    contains_chars(s, &pv)
}

/// Whether the character `c` occurs in `s`.
pub fn contains_char(s: &[char], c: char) -> (r: bool)
    ensures
        r == s@.contains(c),
{
    let mut i: usize = 0;
    while i < s.len()
        invariant
            i <= s.len(),
            forall|k: int| 0 <= k < i ==> s@[k] != c,
        decreases s.len() - i,
    {
        if s[i] == c {
            return true;
        }
        i = i + 1;
    }
    false
}

/// Number of bytes of the UTF-8 encoding of `c`.
pub fn char_width_exec(c: char) -> (n: usize)
    ensures
        n == char_width(c),
{
    let u = c as u32;
    if u <= 0x7F {
        1
    } else if u <= 0x7FF {
        2
    } else if u <= 0xFFFF {
        3
    } else {
        4
    }
}

/// UTF-8 length of `s` in bytes, saturated at `usize::MAX`.
pub fn byte_len_exec(s: &[char]) -> (n: usize)
    ensures
        n == sat_len(s@),
{
    let mut n: usize = 0;
    let mut i: usize = 0;
    while i < s.len()
        invariant
            i <= s.len(),
            n == sat_len(s@.take(i as int)),
        decreases s.len() - i,
    {
        assert(s@.take(i + 1).drop_last() == s@.take(i as int));
        let w = char_width_exec(s[i]);
        n = n.saturating_add(w);
        i = i + 1;
    }
    assert(s@.take(s.len() as int) == s@);
    n
}

/// The lines of `s` (`str::lines`).
pub fn split_lines(s: &[char]) -> (r: Vec<Vec<char>>)
    ensures
        views(r@) == lines(s@),
{
    let mut done: Vec<Vec<char>> = Vec::new();
    let mut cur: Vec<char> = Vec::new();
    let mut i: usize = 0;
    while i < s.len()
        invariant
            i <= s.len(),
            split_nl(s@.take(i as int)).len() == done@.len() + 1,
            split_nl(s@.take(i as int)).last() == cur@,
            forall|k: int|
                0 <= k < done@.len() ==> #[trigger] done@[k]@ == strip_cr(
                    split_nl(s@.take(i as int))[k],
                ),
        decreases s.len() - i,
    {
        let ghost prev = split_nl(s@.take(i as int));
        assert(s@.take(i + 1).drop_last() == s@.take(i as int));
        assert(s@.take(i + 1).last() == s@[i as int]);
        if s[i] == '\n' {
            let mut line = cur;
            if line.len() > 0 && line[line.len() - 1] == '\r' {
                line.pop();
            }
            done.push(line);
            cur = Vec::new();
        } else {
            cur.push(s[i]);
        }
        i = i + 1;
    }
    assert(s@.take(s.len() as int) == s@);
    let ghost p = split_nl(s@);
    assert(views(done@) =~= p.drop_last().map_values(|l: Seq<char>| strip_cr(l)));
    if cur.len() > 0 {
        done.push(cur);
        assert(views(done@) =~= lines(s@));
    }
    done
}

/// `s` in lower case (`str::to_lowercase`).
pub uninterp spec fn lowercase(s: Seq<char>) -> Seq<char>;

/// Calls `str::to_lowercase`, which maps every character to its Unicode
/// lower-case form; the result is given the name `lowercase`.
#[verifier::external_body]
pub(crate) fn to_lowercase(s: &str) -> (r: String)
    ensures
        r@ == lowercase(s@),
{
    s.to_lowercase()
}

/// ASCII lower case of one character (`char::to_ascii_lowercase`).
pub open spec fn ascii_lower(c: char) -> char {
    if 'A' <= c && c <= 'Z' {
        (((c as u8) + 32) as u8) as char
    } else {
        c
    }
}

/// ASCII lower case of a sequence (`str::to_ascii_lowercase`).
pub open spec fn ascii_lower_seq(s: Seq<char>) -> Seq<char> {
    s.map_values(|c: char| ascii_lower(c))
}

/// The ASCII lower case of `c`.
pub fn ascii_lower_exec(c: char) -> (r: char)
    ensures
        r == ascii_lower(c),
{
    if 'A' <= c && c <= 'Z' {
        ((c as u8) + 32) as char
    } else {
        c
    }
}

/// `s` with ASCII letters lowered.
pub fn ascii_lowercase(s: &[char]) -> (r: Vec<char>)
    ensures
        r@ == ascii_lower_seq(s@),
{
    let mut r: Vec<char> = Vec::new();
    let mut i: usize = 0;
    while i < s.len()
        invariant
            i <= s.len(),
            r@ == ascii_lower_seq(s@.take(i as int)),
        decreases s.len() - i,
    {
        r.push(ascii_lower_exec(s[i]));
        i = i + 1;
        assert(ascii_lower_seq(s@.take(i as int)) =~= ascii_lower_seq(s@.take(i - 1)).push(
            ascii_lower(s@[i - 1]),
        ));
    }
    assert(s@.take(s.len() as int) == s@);
    r
}

/// `a` comes before `b` in the order of `str`: code point by code point,
/// a proper prefix first.
pub open spec fn text_less(a: Seq<char>, b: Seq<char>) -> bool
    decreases a.len(),
{
    if a.len() == 0 {
        b.len() > 0
    } else if b.len() == 0 {
        false
    } else if a[0] != b[0] {
        a[0] < b[0]
    } else {
        text_less(a.drop_first(), b.drop_first())
    }
}

pub proof fn lemma_text_less_irreflexive(a: Seq<char>)
    ensures
        !text_less(a, a),
    decreases a.len(),
{
    if a.len() > 0 {
        lemma_text_less_irreflexive(a.drop_first());
    }
}

pub proof fn lemma_text_less_total(a: Seq<char>, b: Seq<char>)
    ensures
        a == b || text_less(a, b) || text_less(b, a),
        !(text_less(a, b) && text_less(b, a)),
    decreases a.len(),
{
    if a.len() > 0 && b.len() > 0 {
        lemma_text_less_total(a.drop_first(), b.drop_first());
        if a[0] == b[0] && a.drop_first() == b.drop_first() {
            assert(a =~= seq![a[0]] + a.drop_first());
            assert(b =~= seq![b[0]] + b.drop_first());
        }
    } else if a.len() == 0 && b.len() == 0 {
        assert(a =~= b);
    }
}

pub proof fn lemma_text_less_transitive(a: Seq<char>, b: Seq<char>, c: Seq<char>)
    requires
        text_less(a, b),
        text_less(b, c),
    ensures
        text_less(a, c),
    decreases a.len(),
{
    if a.len() > 0 && b.len() > 0 && c.len() > 0 {
        if a[0] == b[0] && b[0] == c[0] {
            lemma_text_less_transitive(a.drop_first(), b.drop_first(), c.drop_first());
        }
    }
}

/// `a` comes before `b`, code point by code point.
pub fn text_less_exec(a: &[char], b: &[char]) -> (r: bool)
    ensures
        r == text_less(a@, b@),
{
    let mut i: usize = 0;
    assert(a@.skip(0) == a@ && b@.skip(0) == b@);
    while i < a.len() && i < b.len() && a[i] == b[i]
        invariant
            i <= a@.len(),
            i <= b@.len(),
            text_less(a@, b@) == text_less(a@.skip(i as int), b@.skip(i as int)),
        decreases a.len() - i,
    {
        assert(a@.skip(i + 1) == a@.skip(i as int).drop_first());
        assert(b@.skip(i + 1) == b@.skip(i as int).drop_first());
        i = i + 1;
    }
    if i == a.len() {
        i < b.len()
    } else if i == b.len() {
        false
    } else {
        a[i] < b[i]
    }
}

} // verus!
