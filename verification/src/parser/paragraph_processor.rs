//! Paragraphs: the HTML of a line, and the grouping of lines into
//! paragraphs in three modes.

use vstd::prelude::*;
use crate::model::Book;
use crate::text::{
    byte_len_exec, chars_of, contains_char, extend_chars, has_prefix, has_suffix, push_chars, sat_len, string_of,
    trim, trim_chars,
};
use crate::utils::encoding::{strip_bom, strip_bom_chars};

verus! {

/// How lines are grouped into paragraphs.
#[derive(Debug, Clone, Copy, PartialEq, Eq, Structural)]
pub enum ParagraphMode {
    /// Every line is a paragraph.
    Line,
    /// Blank lines separate paragraphs.
    BlankLine,
    /// Lines are grouped by length, punctuation and dialogue.
    Smart,
}

impl Default for ParagraphMode {
    fn default() -> (r: Self)
        ensures
            r == ParagraphMode::Smart,
    {
        ParagraphMode::Smart
    }
}

/// `n` spaces.
pub open spec fn spaces(n: nat) -> Seq<char> {
    Seq::new(n, |i: int| ' ')
}

/// The HTML paragraph of `text`: empty for a blank line, else the trimmed
/// text without leading byte-order marks, indented, in a `<p>` element.
pub open spec fn paragraph(indent: nat, text: Seq<char>) -> Seq<char> {
    let t = trim(text);
    if t.len() == 0 {
        Seq::<char>::empty()
    } else {
        "<p>"@ + spaces(indent) + strip_bom(t) + "</p>"@
    }
}

/// The settings of a processor.
pub struct ParagraphSettings {
    pub indent: usize,
    pub mode: ParagraphMode,
    pub max_paragraph_length: usize,
    pub dialogue_detection: bool,
    pub merge_threshold: usize,
}

/// The line ends with a sentence-ending mark.
pub open spec fn ends_with_punctuation(t: Seq<char>) -> bool {
    t.len() > 0 && (t.last() == '。' || t.last() == '！' || t.last() == '？' || t.last() == '.' || t.last() == '!'
        || t.last() == '?')
}

/// The line starts with an opening quotation mark.
pub open spec fn starts_with_quote(t: Seq<char>) -> bool {
    t.len() > 0 && (t[0] == '「' || t[0] == '『' || t[0] == '"')
}

/// The line holds a quotation mark.
pub open spec fn has_quotes(t: Seq<char>) -> bool {
    t.contains('「') || t.contains('』') || t.contains('"')
}

/// The line is dialogue: it opens with a quotation mark, or it is short
/// (under 50 bytes) and holds one.
pub open spec fn dialogue(t: Seq<char>) -> bool {
    starts_with_quote(t) || (has_quotes(t) && sat_len(t) < 50)
}

/// Whether the line `t` (of `line_len` bytes) starts a new paragraph
/// after `cur`.
pub open spec fn starts_new(s: ParagraphSettings, t: Seq<char>, line_len: nat, cur: Seq<char>, prev_short: bool,
    is_dialogue: bool) -> bool {
    if is_dialogue {
        true
    } else if cur.len() == 0 {
        false
    } else if line_len < s.merge_threshold && prev_short {
        false
    } else if line_len < s.merge_threshold && sat_len(cur) < 100 {
        false
    } else if sat_len(cur) > s.max_paragraph_length {
        true
    } else if ends_with_punctuation(t) && sat_len(cur) > 50 {
        true
    } else {
        starts_with_quote(t)
    }
}

/// `a` and `b` joined by one space, or `b` alone when `a` is empty.
pub open spec fn join(a: Seq<char>, b: Seq<char>) -> Seq<char> {
    if a.len() == 0 {
        b
    } else {
        a + seq![' '] + b
    }
}

/// Line mode: the paragraph of every non-blank line.
pub open spec fn line_mode(indent: nat, ls: Seq<Seq<char>>) -> Seq<Seq<char>>
    decreases ls.len(),
{
    if ls.len() == 0 {
        Seq::empty()
    } else {
        let r = line_mode(indent, ls.drop_last());
        if trim(ls.last()).len() == 0 {
            r
        } else {
            r.push(paragraph(indent, ls.last()))
        }
    }
}

/// Blank-line mode after the lines `ls`: the finished paragraphs and the
/// text gathered since the last blank line.
pub open spec fn blank_fold(indent: nat, ls: Seq<Seq<char>>) -> (Seq<Seq<char>>, Seq<char>)
    decreases ls.len(),
{
    if ls.len() == 0 {
        (Seq::empty(), Seq::empty())
    } else {
        let (ps, cur) = blank_fold(indent, ls.drop_last());
        let t = trim(ls.last());
        if t.len() == 0 {
            if cur.len() > 0 {
                (ps.push(paragraph(indent, cur)), Seq::empty())
            } else {
                (ps, cur)
            }
        } else {
            (ps, join(cur, t))
        }
    }
}

/// Blank-line mode: lines between blank lines form one paragraph.
pub open spec fn blank_mode(indent: nat, ls: Seq<Seq<char>>) -> Seq<Seq<char>> {
    let (ps, cur) = blank_fold(indent, ls);
    if cur.len() > 0 {
        ps.push(paragraph(indent, cur))
    } else {
        ps
    }
}

/// Smart mode after the lines `ls`: the finished paragraphs, the text
/// gathered, and whether the last line was short.
pub open spec fn smart_fold(s: ParagraphSettings, ls: Seq<Seq<char>>) -> (Seq<Seq<char>>, Seq<char>, bool)
    decreases ls.len(),
{
    if ls.len() == 0 {
        (Seq::empty(), Seq::empty(), false)
    } else {
        let (ps, cur, prev) = smart_fold(s, ls.drop_last());
        let t = trim(ls.last());
        if t.len() == 0 {
            if cur.len() > 0 {
                (ps.push(paragraph(s.indent as nat, cur)), Seq::empty(), false)
            } else {
                (ps, cur, prev)
            }
        } else {
            let n = sat_len(t);
            let d = s.dialogue_detection && dialogue(t);
            let short = n < s.merge_threshold;
            if starts_new(s, t, n, cur, prev, d) {
                (if cur.len() > 0 { ps.push(paragraph(s.indent as nat, cur)) } else { ps }, t, short)
            } else {
                (ps, join(cur, t), short)
            }
        }
    }
}

/// Law: in smart mode a sentence that is not short ends the paragraph
/// before it. When the paragraph gathered so far holds more than 50 bytes
/// and the next line, trimmed, is at least the merge threshold long and
/// ends with `。`, `！`, `？`, `.`, `!` or `?`, the gathered paragraph is
/// finished and the line starts the next one.
pub proof fn lemma_sentence_starts_paragraph(s: ParagraphSettings, ls: Seq<Seq<char>>, line: Seq<char>)
    requires
        sat_len(smart_fold(s, ls).1) > 50,
        sat_len(trim(line)) >= s.merge_threshold,
        trim(line).len() > 0,
        ({
            let c = trim(line).last();
            c == '。' || c == '！' || c == '？' || c == '.' || c == '!' || c == '?'
        }),
    ensures
        smart_fold(s, ls.push(line)) == (smart_fold(s, ls).0.push(paragraph(s.indent as nat, smart_fold(s, ls).1)), trim(
            line,
        ), false),
{
    assert(ls.push(line).drop_last() == ls);
    assert(ls.push(line).last() == line);
    let cur = smart_fold(s, ls).1;
    assert(cur.len() > 0) by {
        if cur.len() == 0 {
            assert(crate::text::byte_len(cur) == 0);
        }
    }
}

/// Smart mode: lines grouped by length, punctuation and dialogue.
pub open spec fn smart_mode(s: ParagraphSettings, ls: Seq<Seq<char>>) -> Seq<Seq<char>> {
    let (ps, cur, _) = smart_fold(s, ls);
    if cur.len() > 0 {
        ps.push(paragraph(s.indent as nat, cur))
    } else {
        ps
    }
}

/// The paragraphs of `ls` in the processor's mode.
pub open spec fn paragraphs_of(s: ParagraphSettings, ls: Seq<Seq<char>>) -> Seq<Seq<char>> {
    match s.mode {
        ParagraphMode::Line => line_mode(s.indent as nat, ls),
        ParagraphMode::BlankLine => blank_mode(s.indent as nat, ls),
        ParagraphMode::Smart => smart_mode(s, ls),
    }
}

/// Merging of short lines after `ls`: the merged lines and the buffer.
pub open spec fn merge_fold(threshold: nat, ls: Seq<Seq<char>>) -> (Seq<Seq<char>>, Seq<char>)
    decreases ls.len(),
{
    if ls.len() == 0 {
        (Seq::empty(), Seq::empty())
    } else {
        let (ms, buf) = merge_fold(threshold, ls.drop_last());
        let t = trim(ls.last());
        if t.len() == 0 {
            if buf.len() > 0 {
                (ms.push(buf), Seq::empty())
            } else {
                (ms, buf)
            }
        } else if sat_len(t) < threshold && buf.len() > 0 {
            (ms, buf + seq![' '] + t)
        } else {
            (if buf.len() > 0 { ms.push(buf) } else { ms }, t)
        }
    }
}

/// Short lines (under the threshold, in bytes) joined to the line before
/// them; blank lines end a group.
pub open spec fn merged_lines(threshold: nat, ls: Seq<Seq<char>>) -> Seq<Seq<char>> {
    let (ms, buf) = merge_fold(threshold, ls);
    if buf.len() > 0 {
        ms.push(buf)
    } else {
        ms
    }
}

/// The lines `ls` trimmed, blank ones left out.
pub open spec fn trimmed_nonblank(ls: Seq<Seq<char>>) -> Seq<Seq<char>>
    decreases ls.len(),
{
    if ls.len() == 0 {
        Seq::empty()
    } else if trim(ls.last()).len() > 0 {
        trimmed_nonblank(ls.drop_last()).push(trim(ls.last()))
    } else {
        trimmed_nonblank(ls.drop_last())
    }
}

/// Law: with a merge threshold of zero no line is short, so merging gives
/// the trimmed non-blank lines, one by one. (The threshold is the one the
/// processor holds, as `set_merge_threshold` sets it.)
pub proof fn lemma_zero_threshold_keeps_lines(ls: Seq<Seq<char>>)
    ensures
        merged_lines(0, ls) == trimmed_nonblank(ls),
    decreases ls.len(),
{
    if ls.len() > 0 {
        lemma_zero_threshold_keeps_lines(ls.drop_last());
    }
}

/// The view of each string.
pub open spec fn string_views(v: Seq<String>) -> Seq<Seq<char>> {
    v.map_values(|s: String| s@)
}

/// The view of each line.
pub open spec fn line_views(v: Seq<&str>) -> Seq<Seq<char>> {
    v.map_values(|s: &str| s@)
}

/// Turns lines into HTML paragraphs.
pub struct ParagraphProcessor {
    indent: usize,
    mode: ParagraphMode,
    max_paragraph_length: usize,
    enable_dialogue_detection: bool,
    merge_threshold: usize,
    cached_indent: Vec<char>,
}

impl ParagraphProcessor {
    /// The settings of the processor.
    pub closed spec fn settings(&self) -> ParagraphSettings {
        ParagraphSettings {
            indent: self.indent,
            mode: self.mode,
            max_paragraph_length: self.max_paragraph_length,
            dialogue_detection: self.enable_dialogue_detection,
            merge_threshold: self.merge_threshold,
        }
    }

    /// The indent held is as long as the book asks.
    pub closed spec fn wf(&self) -> bool {
        self.cached_indent@ == spaces(self.indent as nat)
    }

    /// A processor for `book`: smart mode, paragraphs of at most 500
    /// bytes, dialogue detection on, short lines under 30 bytes.
    pub fn new(book: Book) -> (r: Self)
        ensures
            r.wf(),
            r.settings() == (ParagraphSettings {
                indent: book.indent,
                mode: ParagraphMode::Smart,
                max_paragraph_length: 500,
                dialogue_detection: true,
                merge_threshold: 30,
            }),
    {
        Self::new_indented(book.indent)
    }

    /// A processor like `new` for a book indented by `indent`.
    pub fn new_indented(indent: usize) -> (r: Self)
        ensures
            r.wf(),
            r.settings() == (ParagraphSettings {
                indent,
                mode: ParagraphMode::Smart,
                max_paragraph_length: 500,
                dialogue_detection: true,
                merge_threshold: 30,
            }),
    {
        let mut cached: Vec<char> = Vec::new();
        let mut i: usize = 0;
        while i < indent
            invariant
                i <= indent,
                cached@ == spaces(i as nat),
            decreases indent - i,
        {
            cached.push(' ');
            i = i + 1;
            assert(cached@ =~= spaces(i as nat));
        }
        ParagraphProcessor {
            indent,
            mode: ParagraphMode::Smart,
            max_paragraph_length: 500,
            enable_dialogue_detection: true,
            merge_threshold: 30,
            cached_indent: cached,
        }
    }

    /// Sets the mode.
    pub fn set_mode(&mut self, mode: ParagraphMode)
        requires
            old(self).wf(),
        ensures
            final(self).wf(),
            final(self).settings() == (ParagraphSettings { mode, ..old(self).settings() }),
    {
        self.mode = mode;
    }

    /// The paragraph of the characters `text`.
    pub fn process_chars(&self, text: &[char]) -> (r: Vec<char>)
        requires
            self.wf(),
        ensures
            r@ == paragraph(self.settings().indent as nat, text@),
    {
        let t = trim_chars(text);
        if t.len() == 0 {
            return Vec::new();
        }
        let cleaned = strip_bom_chars(&t);
        let mut out = chars_of("<p>");
        extend_chars(&mut out, &self.cached_indent);
        extend_chars(&mut out, &cleaned);
        extend_chars(&mut out, &chars_of("</p>"));
        out
    }

    /// The HTML paragraph of one line; empty for a blank line.
    pub fn process(&self, text: &str) -> (r: String)
        requires
            self.wf(),
        ensures
            r@ == paragraph(self.settings().indent as nat, text@),
    {
        let v = chars_of(text);
        string_of(&self.process_chars(&v))
    }

    /// The paragraphs of `lines`, in the processor's mode.
    pub fn process_lines(&self, lines: &[&str]) -> (r: Vec<String>)
        requires
            self.wf(),
        ensures
            string_views(r@) == paragraphs_of(self.settings(), line_views(lines@)),
    {
        match self.mode {
            ParagraphMode::Line => self.process_line_mode(lines),
            ParagraphMode::BlankLine => self.process_blank_line_mode(lines),
            ParagraphMode::Smart => self.process_smart_mode(lines),
        }
    }

    /// Line mode: every non-blank line is a paragraph.
    fn process_line_mode(&self, lines: &[&str]) -> (r: Vec<String>)
        requires
            self.wf(),
        ensures
            string_views(r@) == line_mode(self.settings().indent as nat, line_views(lines@)),
    {
        let ghost ls = line_views(lines@);
        let ghost ind = self.settings().indent as nat;
        let mut r: Vec<String> = Vec::new();
        let mut i: usize = 0;
        while i < lines.len()
            invariant
                i <= lines.len(),
                self.wf(),
                ls == line_views(lines@),
                ind == self.settings().indent as nat,
                string_views(r@) == line_mode(ind, ls.take(i as int)),
            decreases lines.len() - i,
        {
            assert(ls.take(i + 1).drop_last() == ls.take(i as int));
            assert(ls.take(i + 1).last() == lines@[i as int]@);
            let t = trim_chars(&chars_of(lines[i]));
            if t.len() > 0 {
                let p = self.process(lines[i]);
                r.push(p);
            }
            i = i + 1;
            assert(string_views(r@) =~= line_mode(ind, ls.take(i as int)));
        }
        assert(ls.take(lines.len() as int) == ls);
        r
    }

    /// Blank-line mode: lines between blank lines form one paragraph.
    fn process_blank_line_mode(&self, lines: &[&str]) -> (r: Vec<String>)
        requires
            self.wf(),
        ensures
            string_views(r@) == blank_mode(self.settings().indent as nat, line_views(lines@)),
    {
        let ghost ls = line_views(lines@);
        let ghost ind = self.settings().indent as nat;
        let mut r: Vec<String> = Vec::new();
        let mut cur: Vec<char> = Vec::new();
        let mut i: usize = 0;
        while i < lines.len()
            invariant
                i <= lines.len(),
                self.wf(),
                ls == line_views(lines@),
                ind == self.settings().indent as nat,
                (string_views(r@), cur@) == blank_fold(ind, ls.take(i as int)),
            decreases lines.len() - i,
        {
            assert(ls.take(i + 1).drop_last() == ls.take(i as int));
            assert(ls.take(i + 1).last() == lines@[i as int]@);
            let t = trim_chars(&chars_of(lines[i]));
            if t.len() == 0 {
                if cur.len() > 0 {
                    let p = self.process_chars(&cur);
                    r.push(string_of(&p));
                    cur = Vec::new();
                }
            } else {
                if cur.len() > 0 {
                    cur.push(' ');
                }
                extend_chars(&mut cur, &t);
            }
            i = i + 1;
            assert(string_views(r@) =~= blank_fold(ind, ls.take(i as int)).0);
            assert(cur@ =~= blank_fold(ind, ls.take(i as int)).1);
        }
        assert(ls.take(lines.len() as int) == ls);
        if cur.len() > 0 {
            let p = self.process_chars(&cur);
            r.push(string_of(&p));
        }
        assert(string_views(r@) =~= blank_mode(ind, ls));
        r
    }

    /// Smart mode: lines grouped by length, punctuation and dialogue.
    fn process_smart_mode(&self, lines: &[&str]) -> (r: Vec<String>)
        requires
            self.wf(),
        ensures
            string_views(r@) == smart_mode(self.settings(), line_views(lines@)),
    {
        let ghost ls = line_views(lines@);
        let ghost st = self.settings();
        let mut r: Vec<String> = Vec::new();
        let mut cur: Vec<char> = Vec::new();
        let mut prev_short = false;
        let mut i: usize = 0;
        while i < lines.len()
            invariant
                i <= lines.len(),
                self.wf(),
                ls == line_views(lines@),
                st == self.settings(),
                (string_views(r@), cur@, prev_short) == smart_fold(st, ls.take(i as int)),
            decreases lines.len() - i,
        {
            assert(ls.take(i + 1).drop_last() == ls.take(i as int));
            assert(ls.take(i + 1).last() == lines@[i as int]@);
            let t = trim_chars(&chars_of(lines[i]));
            if t.len() == 0 {
                if cur.len() > 0 {
                    let p = self.process_chars(&cur);
                    r.push(string_of(&p));
                    cur = Vec::new();
                    prev_short = false;
                }
            } else {
                let n = byte_len_exec(&t);
                let d = self.enable_dialogue_detection && self.dialogue_chars(&t);
                let cur_len = byte_len_exec(&cur);
                if self.should_start_new_paragraph(&t, n, &cur, cur_len, prev_short, d) {
                    if cur.len() > 0 {
                        let p = self.process_chars(&cur);
                        r.push(string_of(&p));
                    }
                    cur = t;
                } else {
                    if cur.len() > 0 {
                        cur.push(' ');
                    }
                    extend_chars(&mut cur, &t);
                }
                prev_short = n < self.merge_threshold;
            }
            i = i + 1;
            assert(string_views(r@) =~= smart_fold(st, ls.take(i as int)).0);
            assert(cur@ =~= smart_fold(st, ls.take(i as int)).1);
        }
        assert(ls.take(lines.len() as int) == ls);
        if cur.len() > 0 {
            let p = self.process_chars(&cur);
            r.push(string_of(&p));
        }
        assert(string_views(r@) =~= smart_mode(st, ls));
        r
    }

    /// Whether the line `line` of `line_len` bytes starts a new paragraph
    /// after `cur` of `cur_len` bytes.
    fn should_start_new_paragraph(&self, line: &[char], line_len: usize, cur: &[char], cur_len: usize,
        previous_line_was_short: bool, is_dialogue: bool) -> (r: bool)
        requires
            cur_len == sat_len(cur@),
        ensures
            r == starts_new(self.settings(), line@, line_len as nat, cur@, previous_line_was_short, is_dialogue),
    {
        if is_dialogue {
            return true;
        }
        if cur.len() == 0 {
            return false;
        }
        if line_len < self.merge_threshold && previous_line_was_short {
            return false;
        }
        if line_len < self.merge_threshold && cur_len < 100 {
            return false;
        }
        let ends = line.len() > 0 && {
            let c = line[line.len() - 1];
            c == '。' || c == '！' || c == '？' || c == '.' || c == '!' || c == '?'
        };
        if cur_len > self.max_paragraph_length {
            return true;
        }
        if ends && cur_len > 50 {
            return true;
        }
        line.len() > 0 && (line[0] == '「' || line[0] == '『' || line[0] == '"')
    }

    /// The mode.
    pub fn mode(&self) -> (r: ParagraphMode)
        ensures
            r == self.settings().mode,
    {
        self.mode
    }

    /// Whether the line is dialogue: it opens with `「`, `『` or `"`, or it
    /// is under 50 bytes and holds `「`, `』` or `"`.
    pub fn is_dialogue(&self, line: &str) -> (r: bool)
        ensures
            r == dialogue(line@),
    {
        self.dialogue_chars(&chars_of(line))
    }

    /// Whether the line is dialogue.
    fn dialogue_chars(&self, line: &[char]) -> (r: bool)
        ensures
            r == dialogue(line@),
    {
        let starts = line.len() > 0 && (line[0] == '「' || line[0] == '『' || line[0] == '"');
        let has = contains_char(line, '「') || contains_char(line, '』') || contains_char(line, '"');
        starts || (has && byte_len_exec(line) < 50)
    }

    /// Short lines joined to the line before them (with a space); blank
    /// lines end a group. There are never more merged lines than lines.
    pub fn merge_short_lines(&self, lines: &[&str]) -> (r: Vec<String>)
        ensures
            string_views(r@) == merged_lines(self.settings().merge_threshold as nat, line_views(lines@)),
            r@.len() <= lines@.len(),
    {
        let ghost ls = line_views(lines@);
        let ghost th = self.settings().merge_threshold as nat;
        let mut r: Vec<String> = Vec::new();
        let mut buf: Vec<char> = Vec::new();
        let mut i: usize = 0;
        while i < lines.len()
            invariant
                i <= lines.len(),
                ls == line_views(lines@),
                th == self.settings().merge_threshold as nat,
                (string_views(r@), buf@) == merge_fold(th, ls.take(i as int)),
                r@.len() + (if buf@.len() > 0 { 1int } else { 0int }) <= i,
            decreases lines.len() - i,
        {
            assert(ls.take(i + 1).drop_last() == ls.take(i as int));
            assert(ls.take(i + 1).last() == lines@[i as int]@);
            let t = trim_chars(&chars_of(lines[i]));
            if t.len() == 0 {
                if buf.len() > 0 {
                    r.push(string_of(&buf));
                    buf = Vec::new();
                }
            } else {
                let short = byte_len_exec(&t) < self.merge_threshold;
                if short && buf.len() > 0 {
                    buf.push(' ');
                    extend_chars(&mut buf, &t);
                } else {
                    if buf.len() > 0 {
                        r.push(string_of(&buf));
                    }
                    buf = t;
                }
            }
            i = i + 1;
            assert(string_views(r@) =~= merge_fold(th, ls.take(i as int)).0);
            assert(buf@ =~= merge_fold(th, ls.take(i as int)).1);
        }
        assert(ls.take(lines.len() as int) == ls);
        if buf.len() > 0 {
            r.push(string_of(&buf));
        }
        assert(string_views(r@) =~= merged_lines(th, ls));
        r
    }

    /// Sets the longest paragraph, in bytes.
    pub fn set_max_paragraph_length(&mut self, max_length: usize)
        requires
            old(self).wf(),
        ensures
            final(self).wf(),
            final(self).settings() == (ParagraphSettings { max_paragraph_length: max_length, ..old(self).settings() }),
    {
        self.max_paragraph_length = max_length;
    }

    /// Sets the length under which a line is short, in bytes.
    pub fn set_merge_threshold(&mut self, threshold: usize)
        requires
            old(self).wf(),
        ensures
            final(self).wf(),
            final(self).settings() == (ParagraphSettings { merge_threshold: threshold, ..old(self).settings() }),
    {
        self.merge_threshold = threshold;
    }

    /// Turns dialogue detection on or off.
    pub fn set_dialogue_detection(&mut self, enabled: bool)
        requires
            old(self).wf(),
        ensures
            final(self).wf(),
            final(self).settings() == (ParagraphSettings { dialogue_detection: enabled, ..old(self).settings() }),
    {
        self.enable_dialogue_detection = enabled;
    }
}

} // verus!
