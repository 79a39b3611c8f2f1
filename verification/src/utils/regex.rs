//! Regular expressions: the bridge to the `regex` crate and a cache of
//! compiled patterns.

use vstd::prelude::*;
use vstd::string::StringSliceAdditionalSpecFns;
use vstd::utf8::is_char_boundary;
use crate::error::KafError;
use crate::model::{DEFAULT_CHAPTER_MATCH, DEFAULT_EXCLUSION, DEFAULT_VOLUME_MATCH};

verus! {

/// `regex::Regex`, a compiled regular expression.
#[verifier::external_type_specification]
#[verifier::external_body]
pub struct ExRegex(::regex::Regex);

/// `regex::Error`, the reason a pattern does not compile.
#[verifier::external_type_specification]
#[verifier::external_body]
pub struct ExRegexError(::regex::Error);

/// Whether `regex::Regex::new` accepts `pattern`.
pub uninterp spec fn regex_valid(pattern: Seq<char>) -> bool;

/// What `regex::Regex::is_match` answers for the regex compiled from
/// `pattern` on `text`: whether a match exists anywhere in `text`.
pub uninterp spec fn regex_matches(pattern: Seq<char>, text: Seq<char>) -> bool;

/// What `regex::Regex::captures` gives for the regex compiled from
/// `pattern` on `text`: `None` when nothing matches, else the text of every
/// group of the leftmost-first match, group 0 first, `None` for a group that
/// took no part in it.
pub uninterp spec fn regex_captures(pattern: Seq<char>, text: Seq<char>) -> Option<Seq<Option<Seq<char>>>>;

/// What `regex::Regex::find_iter` yields for the regex compiled from
/// `pattern` on `text`: the byte ranges (start, end) of its successive
/// non-overlapping matches.
pub uninterp spec fn regex_find_spans(pattern: Seq<char>, text: Seq<char>) -> Seq<(usize, usize)>;

/// A byte range of `bytes` that starts and ends on character boundaries.
pub open spec fn span_within(bytes: Seq<u8>, span: (usize, usize)) -> bool {
    &&& span.0 <= span.1 <= bytes.len()
    &&& is_char_boundary(bytes, span.0 as int)
    &&& is_char_boundary(bytes, span.1 as int)
}

/// Byte ranges of `bytes` on character boundaries, in order and not
/// overlapping.
pub open spec fn spans_ordered(bytes: Seq<u8>, spans: Seq<(usize, usize)>) -> bool {
    &&& forall|i: int| 0 <= i < spans.len() ==> span_within(bytes, #[trigger] spans[i])
    &&& forall|i: int, j: int| 0 <= i < j < spans.len() ==> (#[trigger] spans[i]).1 <= (#[trigger] spans[j]).0
}

/// `pattern` compiles and matches somewhere in `text`.
pub open spec fn pattern_matches(pattern: Seq<char>, text: Seq<char>) -> bool {
    regex_valid(pattern) && regex_matches(pattern, text)
}

/// A regular expression together with the pattern it was compiled from.
pub struct CompiledPattern {
    pattern: String,
    regex: ::regex::Regex,
}

impl CompiledPattern {
    /// The pattern this regular expression was compiled from.
    pub closed spec fn pattern(&self) -> Seq<char> {
        self.pattern@
    }

    /// Whether the regular expression matches somewhere in `text`.
    #[verifier::external_body]
    pub fn is_match(&self, text: &str) -> (r: bool)
        ensures
            r == regex_matches(self.pattern(), text@),
    {
        self.regex.is_match(text)
    }

    /// The groups of the first match in `text`, if any.
    #[verifier::external_body]
    pub(crate) fn captures(&self, text: &str) -> (r: Option<Vec<Option<String>>>)
        ensures
            match r {
                None => regex_captures(self.pattern(), text@) is None,
                Some(v) => regex_captures(self.pattern(), text@) == Some(
                    v@.map_values(|g: Option<String>| match g { Some(s) => Some(s@), None => None })),
            },
    {
        self.regex.captures(text).map(|caps| caps.iter().map(|m| m.map(|m| m.as_str().to_string())).collect())
    }

    /// The byte ranges of the successive non-overlapping matches in `text`,
    /// which the `regex` documentation promises to lie on character
    /// boundaries, in order.
    #[verifier::external_body]
    pub(crate) fn find_spans(&self, text: &str) -> (r: Vec<(usize, usize)>)
        ensures
            r@ == regex_find_spans(self.pattern(), text@),
            spans_ordered(text.spec_bytes(), r@),
    {
        self.regex.find_iter(text).map(|m| (m.start(), m.end())).collect()
    }

    /// A second handle on the same regular expression.
    #[verifier::external_body]
    pub(crate) fn duplicate(&self) -> (r: CompiledPattern)
        ensures
            r.pattern() == self.pattern(),
    {
        CompiledPattern { pattern: self.pattern.clone(), regex: self.regex.clone() }
    }
}

/// Calls `regex::Regex::new`, which compiles `pattern` or reports why it
/// cannot; success is given the name `regex_valid`, and the compiled value
/// remembers its pattern.
#[verifier::external_body]
pub(crate) fn compile(pattern: &str) -> (r: Result<CompiledPattern, ::regex::Error>)
    ensures
        r is Ok <==> regex_valid(pattern@),
        r matches Ok(c) ==> c.pattern() == pattern@,
{
    ::regex::Regex::new(pattern).map(|regex| CompiledPattern { pattern: pattern.to_string(), regex })
}

/// Compiles `pattern` and tests it on `text`; a pattern that does not
/// compile matches nothing.
pub fn matches_pattern(pattern: &str, text: &str) -> (r: bool)
    ensures
        r == pattern_matches(pattern@, text@),
{
    match compile(pattern) {
        Ok(c) => c.is_match(text),
        Err(_) => false,
    }
}

/// Cache of compiled regular expressions, keyed by their pattern.
pub struct RegexCache {
    cache: Vec<CompiledPattern>,
}

impl RegexCache {
    /// The patterns held, in the order they were first compiled.
    pub closed spec fn patterns(&self) -> Seq<Seq<char>> {
        self.cache@.map_values(|c: CompiledPattern| c.pattern())
    }

    /// Every cached pattern compiles, and none is held twice.
    pub closed spec fn wf(&self) -> bool {
        &&& forall|i: int| 0 <= i < self.cache@.len() ==> regex_valid(#[trigger] self.cache@[i].pattern())
        &&& forall|i: int, j: int|
            0 <= i < j < self.cache@.len() ==> #[trigger] self.cache@[i].pattern() != #[trigger] self.cache@[j].pattern()
    }

    /// Adds `pattern` when it compiles and is not held yet.
    fn insert_pattern(&mut self, pattern: &str)
        requires
            old(self).wf(),
        ensures
            final(self).wf(),
            final(self).patterns() == (if regex_valid(pattern@) && !old(self).patterns().contains(pattern@) {
                old(self).patterns().push(pattern@)
            } else {
                old(self).patterns()
            }),
    {
        if self.find(pattern).is_some() {
            return;
        }
        if let Ok(c) = compile(pattern) {
            proof { self.lemma_absent(pattern@); }
            self.cache.push(c);
            assert(self.patterns() =~= old(self).patterns().push(pattern@));
        }
    }

    proof fn lemma_absent(&self, p: Seq<char>)
        requires
            !self.patterns().contains(p),
        ensures
            forall|i: int| 0 <= i < self.cache@.len() ==> #[trigger] self.cache@[i].pattern() != p,
    {
        assert forall|i: int| 0 <= i < self.cache@.len() implies #[trigger] self.cache@[i].pattern() != p by {
            assert(self.patterns()[i] == self.cache@[i].pattern());
        }
    }

    /// Index of the cached regular expression for `pattern`, if any.
    fn find(&self, pattern: &str) -> (r: Option<usize>)
        ensures
            r is None <==> !self.patterns().contains(pattern@),
            r matches Some(i) ==> i < self.cache@.len() && self.cache@[i as int].pattern() == pattern@,
    {
        let mut i: usize = 0;
        while i < self.cache.len()
            invariant
                i <= self.cache@.len(),
                forall|k: int| 0 <= k < i ==> self.cache@[k].pattern() != pattern@,
            decreases self.cache.len() - i,
        {
            if crate::text::chars_eq_str(&crate::text::chars_of(&self.cache[i].pattern), pattern) {
                assert(self.patterns()[i as int] == pattern@);
                return Some(i);
            }
            i = i + 1;
        }
        assert(!self.patterns().contains(pattern@)) by {
            if self.patterns().contains(pattern@) {
                let k = choose|k: int| 0 <= k < self.patterns().len() && self.patterns()[k] == pattern@;
                assert(self.cache@[k].pattern() == pattern@);
            }
        }
        None
    }

    /// A cache holding the three default patterns (chapter, volume,
    /// exclusion), each when it compiles.
    pub fn new() -> (r: RegexCache)
        ensures
            r.wf(),
            forall|p: Seq<char>| #[trigger] r.patterns().contains(p) <==> regex_valid(p) && (
                p == DEFAULT_CHAPTER_MATCH@ || p == DEFAULT_VOLUME_MATCH@ || p == DEFAULT_EXCLUSION@),
    {
        let mut r = RegexCache { cache: Vec::new() };
        assert(r.patterns() =~= Seq::<Seq<char>>::empty());
        r.insert_pattern(DEFAULT_CHAPTER_MATCH);
        let ghost p1 = r.patterns();
        r.insert_pattern(DEFAULT_VOLUME_MATCH);
        let ghost p2 = r.patterns();
        r.insert_pattern(DEFAULT_EXCLUSION);
        assert forall|p: Seq<char>| #[trigger] r.patterns().contains(p) <==> regex_valid(p) && (
            p == DEFAULT_CHAPTER_MATCH@ || p == DEFAULT_VOLUME_MATCH@ || p == DEFAULT_EXCLUSION@) by {
            if regex_valid(DEFAULT_CHAPTER_MATCH@) {
                assert(p1 == seq![DEFAULT_CHAPTER_MATCH@]);
                assert(p1[0] == DEFAULT_CHAPTER_MATCH@);
            } else {
                assert(p1 =~= Seq::<Seq<char>>::empty());
            }
            assert(p2.contains(p) <==> p1.contains(p) || (regex_valid(p) && p == DEFAULT_VOLUME_MATCH@)) by {
                if regex_valid(DEFAULT_VOLUME_MATCH@) && !p1.contains(DEFAULT_VOLUME_MATCH@) {
                    assert(p2[p2.len() - 1] == DEFAULT_VOLUME_MATCH@);
                    if p2.contains(p) {
                        let k = choose|k: int| 0 <= k < p2.len() && p2[k] == p;
                        if k < p1.len() { assert(p1[k] == p); }
                    }
                    if p1.contains(p) {
                        let k = choose|k: int| 0 <= k < p1.len() && p1[k] == p;
                        assert(p2[k] == p);
                    }
                }
            }
            let p3 = r.patterns();
            assert(p3.contains(p) <==> p2.contains(p) || (regex_valid(p) && p == DEFAULT_EXCLUSION@)) by {
                if regex_valid(DEFAULT_EXCLUSION@) && !p2.contains(DEFAULT_EXCLUSION@) {
                    assert(p3[p3.len() - 1] == DEFAULT_EXCLUSION@);
                    if p3.contains(p) {
                        let k = choose|k: int| 0 <= k < p3.len() && p3[k] == p;
                        if k < p2.len() { assert(p2[k] == p); }
                    }
                    if p2.contains(p) {
                        let k = choose|k: int| 0 <= k < p2.len() && p2[k] == p;
                        assert(p3[k] == p);
                    }
                }
            }
        }
        r
    }

    /// The compiled regular expression for `pattern`, compiling and caching
    /// it on first use; a pattern that does not compile is an error and is
    /// not cached.
    pub fn get_or_compile(&mut self, pattern: &str) -> (r: Result<CompiledPattern, KafError>)
        requires
            old(self).wf(),
        ensures
            final(self).wf(),
            r is Ok <==> regex_valid(pattern@),
            r matches Ok(c) ==> c.pattern() == pattern@,
            r matches Err(e) ==> e is Regex,
            final(self).patterns() == (if regex_valid(pattern@) && !old(self).patterns().contains(pattern@) {
                old(self).patterns().push(pattern@)
            } else {
                old(self).patterns()
            }),
    {
        if let Some(i) = self.find(pattern) {
            return Ok(self.cache[i].duplicate());
        }
        match compile(pattern) {
            Ok(c) => {
                let d = c.duplicate();
                proof { self.lemma_absent(pattern@); }
                self.cache.push(c);
                assert(self.patterns() =~= old(self).patterns().push(pattern@));
                Ok(d)
            },
            Err(e) => Err(KafError::Regex(e)),
        }
    }

    /// Tests `text` against `pattern`, or the default pattern `default`.
    fn test(&mut self, text: &str, custom_pattern: Option<&str>, default: &str) -> (r: Result<bool, KafError>)
        requires
            old(self).wf(),
        ensures
            final(self).wf(),
            ({
                let p = match custom_pattern {
                    Some(c) => c@,
                    None => default@,
                };
                &&& r is Ok <==> regex_valid(p)
                &&& r matches Ok(b) ==> b == regex_matches(p, text@)
                &&& r matches Err(e) ==> e is Regex
            }),
    {
        let pattern = match custom_pattern {
            Some(c) => c,
            None => default,
        };
        let c = self.get_or_compile(pattern)?;
        Ok(c.is_match(text))
    }

    /// Whether `text` is a chapter title by `custom_pattern`, or by the
    /// default chapter pattern when none is given.
    pub fn is_chapter(&mut self, text: &str, custom_pattern: Option<&str>) -> (r: Result<bool, KafError>)
        requires
            old(self).wf(),
        ensures
            final(self).wf(),
            ({
                let p = match custom_pattern {
                    Some(c) => c@,
                    None => DEFAULT_CHAPTER_MATCH@,
                };
                &&& r is Ok <==> regex_valid(p)
                &&& r matches Ok(b) ==> b == regex_matches(p, text@)
                &&& r matches Err(e) ==> e is Regex
            }),
    {
        self.test(text, custom_pattern, DEFAULT_CHAPTER_MATCH)
    }

    /// Whether `text` is a volume title by `custom_pattern`, or by the
    /// default volume pattern when none is given.
    pub fn is_volume(&mut self, text: &str, custom_pattern: Option<&str>) -> (r: Result<bool, KafError>)
        requires
            old(self).wf(),
        ensures
            final(self).wf(),
            ({
                let p = match custom_pattern {
                    Some(c) => c@,
                    None => DEFAULT_VOLUME_MATCH@,
                };
                &&& r is Ok <==> regex_valid(p)
                &&& r matches Ok(b) ==> b == regex_matches(p, text@)
                &&& r matches Err(e) ==> e is Regex
            }),
    {
        self.test(text, custom_pattern, DEFAULT_VOLUME_MATCH)
    }

    /// Whether `text` is excluded from being a title by `custom_pattern`, or
    /// by the default exclusion pattern when none is given.
    pub fn is_excluded(&mut self, text: &str, custom_pattern: Option<&str>) -> (r: Result<bool, KafError>)
        requires
            old(self).wf(),
        ensures
            final(self).wf(),
            ({
                let p = match custom_pattern {
                    Some(c) => c@,
                    None => DEFAULT_EXCLUSION@,
                };
                &&& r is Ok <==> regex_valid(p)
                &&& r matches Ok(b) ==> b == regex_matches(p, text@)
                &&& r matches Err(e) ==> e is Regex
            }),
    {
        self.test(text, custom_pattern, DEFAULT_EXCLUSION)
    }
}

} // verus!
