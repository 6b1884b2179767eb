//! Streaming sentence splitter and the markdown stripper for speech.
//!
//! The splitter turns streamed chunks into sentences as soon as a boundary is
//! seen, so that speech can start before the response is complete.

use vstd::prelude::*;

use crate::text;
use crate::text::{
    append, chars_of, copy_range, count, count_leading_space, lines, starts_with, string_of, trim,
    trim_start,
};

verus! {

/// A completed sentence. `ends_paragraph` is true when the white space after it
/// holds a blank line, or when it ends a list item: speech then pauses longer.
#[derive(Debug, Clone, PartialEq, Eq)]
pub struct Sentence {
    pub text: String,
    pub ends_paragraph: bool,
}

/// What a sentence holds.
#[verifier::ext_equal]
pub struct SentenceModel {
    pub text: Seq<char>,
    pub ends_paragraph: bool,
}

impl View for Sentence {
    type V = SentenceModel;

    open spec fn view(&self) -> SentenceModel {
        SentenceModel { text: self.text@, ends_paragraph: self.ends_paragraph }
    }
}

/// The models of a sequence of sentences.
pub open spec fn models(s: Seq<Sentence>) -> Seq<SentenceModel> {
    s.map_values(|x: Sentence| x@)
}

/// The line that the splitter's buffer starts in.
#[derive(Debug, Clone, Copy, PartialEq, Eq, Structural)]
pub enum Line {
    /// The buffer starts at the beginning of a line.
    Fresh,
    /// It starts in the middle of a list item.
    Item,
    /// It starts in the middle of any other line.
    Plain,
}

/// Streaming sentence splitter. Feed it chunks with `push`; it returns each
/// sentence as soon as its boundary lands. Decimal numbers do not split.
pub struct SentenceSplitter {
    buf: Vec<char>,
    line: Line,
}

/// The state of a splitter.
#[verifier::ext_equal]
pub struct SplitterModel {
    pub buf: Seq<char>,
    pub line: Line,
}

impl View for SentenceSplitter {
    type V = SplitterModel;

    closed spec fn view(&self) -> SplitterModel {
        SplitterModel { buf: self.buf@, line: self.line }
    }
}

/// The white space of ASCII.
pub open spec fn is_ascii_space(c: char) -> bool {
    c == ' ' || c == '\t' || c == '\n' || c == '\x0c' || c == '\r'
}

/// Whether a sentence ends with the character at `i`: a full stop, exclamation
/// or question mark before white space or the end of the text.
pub open spec fn is_boundary(s: Seq<char>, i: int) -> bool {
    &&& s[i] == '.' || s[i] == '!' || s[i] == '?'
    &&& i + 1 == s.len() || is_ascii_space(s[i + 1])
}

/// The first boundary from `i` on, or the end of `s`.
pub open spec fn boundary_from(s: Seq<char>, i: int) -> int {
    text::first_from(s.len() as int, |k: int| is_boundary(s, k), i)
}

pub proof fn lemma_boundary_from(s: Seq<char>, i: int)
    requires
        0 <= i <= s.len(),
    ensures
        i <= boundary_from(s, i) <= s.len(),
        boundary_from(s, i) < s.len() ==> is_boundary(s, boundary_from(s, i)),
        forall|k: int| i <= k < boundary_from(s, i) ==> !is_boundary(s, k),
{
    let p = |k: int| is_boundary(s, k);
    text::lemma_first_from(s.len() as int, p, i);
    assert forall|k: int| i <= k < boundary_from(s, i) implies !is_boundary(s, k) by {
        assert(!p(k));
    }
}

/// The index of the first sentence boundary.
pub fn find_sentence_boundary(s: &[char]) -> (r: Option<usize>)
    ensures
        r matches Some(i) ==> i < s@.len() && i == boundary_from(s@, 0),
        r is None ==> boundary_from(s@, 0) == s@.len(),
{
    let mut i: usize = 0;
    while i < s.len()
        invariant
            i <= s@.len(),
            boundary_from(s@, 0) == boundary_from(s@, i as int),
        decreases s@.len() - i,
    {
        let c = s[i];
        if c == '.' || c == '!' || c == '?' {
            if i + 1 == s.len() {
                return Some(i);
            }
            let n = s[i + 1];
            if n == ' ' || n == '\t' || n == '\n' || n == '\x0c' || n == '\r' {
                return Some(i);
            }
        }
        i += 1;
    }
    None
}

/// What kind of line `l`, which starts one, belongs to.
pub open spec fn line_kind(l: Seq<char>) -> Line {
    let t = text::trim_start_spec(l);
    if "- "@.is_prefix_of(t) || "* "@.is_prefix_of(t) {
        Line::Item
    } else {
        Line::Plain
    }
}

/// The line that `head` ends in, when it starts in `line`.
pub open spec fn line_after(line: Line, head: Seq<char>) -> Line {
    if text::occurrences(head, '\n') == 0 && line != Line::Fresh {
        line
    } else {
        line_kind(text::after_last(head, |c: char| c == '\n'))
    }
}

/// A sentence that was split off, and the state after it.
pub struct Step {
    pub sentence: SentenceModel,
    pub rest: SplitterModel,
}

/// Splits off the sentence that ends at `b`.
pub open spec fn step_at(s: SplitterModel, b: int) -> Step {
    let head = s.buf.take(b + 1);
    let rest = s.buf.skip(b + 1);
    let w = text::leading_space(rest) as int;
    let breaks = text::occurrences(rest.take(w), '\n');
    let line = line_after(s.line, head);
    Step {
        sentence: SentenceModel {
            text: text::trim_spec(head),
            ends_paragraph: breaks >= 2 || (breaks >= 1 && line == Line::Item),
        },
        rest: SplitterModel {
            buf: rest.skip(w),
            line: if breaks >= 1 {
                Line::Fresh
            } else {
                line
            },
        },
    }
}

/// Everything that can be split off a state.
pub struct Split {
    pub sentences: Seq<SentenceModel>,
    pub rest: SplitterModel,
}

/// Splits off sentences until no boundary is left.
pub open spec fn split(s: SplitterModel) -> Split
    decreases s.buf.len(),
    via split_decreases
{
    let b = boundary_from(s.buf, 0);
    if b >= s.buf.len() {
        Split { sentences: Seq::empty(), rest: s }
    } else {
        let st = step_at(s, b);
        let r = split(st.rest);
        Split { sentences: seq![st.sentence] + r.sentences, rest: r.rest }
    }
}

#[via_fn]
proof fn split_decreases(s: SplitterModel) {
    lemma_step_shrinks(s);
}

proof fn lemma_step_shrinks(s: SplitterModel)
    ensures
        ({
            let b = boundary_from(s.buf, 0);
            b < s.buf.len() ==> 0 <= b && step_at(s, b).rest.buf.len() < s.buf.len()
        }),
{
    lemma_boundary_from(s.buf, 0);
    let b = boundary_from(s.buf, 0);
    if b < s.buf.len() {
        text::lemma_prefix_len(s.buf.skip(b + 1), |c: char| text::is_space_spec(c));
    }
}

fn is_line_feed(c: char) -> (r: bool)
    ensures
        r == (c == '\n'),
{
    c == '\n'
}

/// What follows the last line feed in `v`.
fn last_line(v: &[char]) -> (r: &[char])
    ensures
        r@ == text::after_last(v@, |c: char| c == '\n'),
{
    text::tail_after(v, is_line_feed, Ghost(|c: char| c == '\n'))
}

impl SentenceSplitter {
    /// An empty splitter.
    pub fn new() -> (s: Self)
        ensures
            s@ == (SplitterModel { buf: Seq::empty(), line: Line::Fresh }),
    {
        SentenceSplitter { buf: Vec::new(), line: Line::Fresh }
    }

    /// Splits the sentence that ends at `b` off the buffer.
    fn take_sentence(&mut self, b: usize) -> (s: Sentence)
        requires
            b < old(self)@.buf.len(),
        ensures
            s@ == step_at(old(self)@, b as int).sentence,
            final(self)@ == step_at(old(self)@, b as int).rest,
    {
        let n: usize = self.buf.len();
        let head = copy_range(self.buf.as_slice(), 0, b + 1);
        let rest = copy_range(self.buf.as_slice(), b + 1, n);
        assert(head@ =~= self@.buf.take(b + 1));
        assert(rest@ =~= self@.buf.skip(b + 1));
        let w: usize = count_leading_space(rest.as_slice());
        let ws = vstd::slice::slice_subrange(rest.as_slice(), 0, w);
        assert(ws@ =~= rest@.take(w as int));
        let breaks: usize = count(ws, '\n');
        let line = if count(head.as_slice(), '\n') == 0 && self.line != Line::Fresh {
            self.line
        } else {
            let t = trim_start(last_line(head.as_slice()));
            if starts_with(t, "- ") || starts_with(t, "* ") {
                Line::Item
            } else {
                Line::Plain
            }
        };
        let text = string_of(trim(head.as_slice()));
        let tail = copy_range(rest.as_slice(), w, rest.len());
        assert(tail@ =~= rest@.skip(w as int));
        self.buf = tail;
        self.line = if breaks >= 1 {
            Line::Fresh
        } else {
            line
        };
        Sentence { text, ends_paragraph: breaks >= 2 || (breaks >= 1 && line == Line::Item) }
    }

    /// Appends `chunk` and returns the sentences that it completes.
    pub fn push(&mut self, chunk: &str) -> (out: Vec<Sentence>)
        ensures
            ({
                let s = SplitterModel { buf: old(self)@.buf + chunk@, line: old(self)@.line };
                &&& models(out@) == split(s).sentences
                &&& final(self)@ == split(s).rest
            }),
            ({
                let b = final(self)@.buf;
                forall|i: int|
                    0 <= i < b.len() && (#[trigger] b[i] == '.' || b[i] == '!' || b[i] == '?')
                        ==> i + 1 < b.len() && b[i + 1] != ' ' && b[i + 1] != '\t' && b[i + 1]
                        != '\n' && b[i + 1] != '\x0c' && b[i + 1] != '\r'
            }),
            forall|j: int|
                0 <= j < out@.len() ==> {
                    let t = (#[trigger] out@[j]).text@;
                    t.len() > 0 && (t.last() == '.' || t.last() == '!' || t.last() == '?')
                },
    {
        let added = chars_of(chunk);
        append(&mut self.buf, added.as_slice());
        let ghost s = self@;
        let mut out: Vec<Sentence> = Vec::new();
        assert(models(out@) =~= Seq::<SentenceModel>::empty());
        assert(models(out@) + split(s).sentences =~= split(s).sentences);
        loop
            invariant
                models(out@) + split(self@).sentences == split(s).sentences,
                split(self@).rest == split(s).rest,
            ensures
                models(out@) == split(s).sentences,
                self@ == split(s).rest,
            decreases self@.buf.len(),
        {
            proof {
                lemma_step_shrinks(self@);
            }
            match find_sentence_boundary(self.buf.as_slice()) {
                None => {
                    assert(models(out@) + Seq::<SentenceModel>::empty() =~= models(out@));
                    break ;
                },
                Some(b) => {
                    let ghost before = self@;
                    let ghost done = out@;
                    let sentence = self.take_sentence(b);
                    out.push(sentence);
                    assert(models(out@) =~= models(done).push(sentence@));
                    assert(models(out@) + split(self@).sentences =~= models(done) + (
                    seq![sentence@] + split(self@).sentences));
                },
            }
        }
        proof {
            law_sentences_end_at_the_first_mark(s);
            law_sentences_end_with_a_mark(s);
            assert forall|j: int| 0 <= j < out@.len() implies {
                let t = (#[trigger] out@[j]).text@;
                t.len() > 0 && (t.last() == '.' || t.last() == '!' || t.last() == '?')
            } by {
                assert(models(out@)[j] == split(s).sentences[j]);
            }
        }
        out
    }

    /// Hands out what is left as a last sentence, which ends a paragraph.
    pub fn finish(&mut self) -> (r: Option<Sentence>)
        ensures
            final(self)@ == (SplitterModel { buf: Seq::empty(), line: Line::Fresh }),
            r is None <==> text::trim_spec(old(self)@.buf).len() == 0,
            r matches Some(s) ==> s@ == (SentenceModel {
                text: text::trim_spec(old(self)@.buf),
                ends_paragraph: true,
            }),
    {
        let s = string_of(trim(self.buf.as_slice()));
        self.buf = Vec::new();
        self.line = Line::Fresh;
        if s.as_str().is_empty() {
            None
        } else {
            Some(Sentence { text: s, ends_paragraph: true })
        }
    }

    /// Forgets the sentence in progress.
    pub fn reset(&mut self)
        ensures
            final(self)@ == (SplitterModel { buf: Seq::empty(), line: Line::Fresh }),
    {
        self.buf = Vec::new();
        self.line = Line::Fresh;
    }
}

/// The ink of all the sentences, in order.
pub open spec fn spoken_ink(s: Seq<SentenceModel>) -> Seq<char>
    decreases s.len(),
{
    if s.len() == 0 {
        Seq::empty()
    } else {
        text::ink(s[0].text) + spoken_ink(s.drop_first())
    }
}

/// Splitting loses nothing but white space: what comes out as sentences and
/// what stays in the buffer is, in order, what was there before.
pub proof fn law_splitting_keeps_ink(s: SplitterModel)
    ensures
        spoken_ink(split(s).sentences) + text::ink(split(s).rest.buf) == text::ink(s.buf),
    decreases s.buf.len(),
{
    let b = boundary_from(s.buf, 0);
    lemma_step_shrinks(s);
    if b >= s.buf.len() {
        assert(spoken_ink(split(s).sentences) + text::ink(s.buf) =~= text::ink(s.buf));
    } else {
        let st = step_at(s, b);
        let head = s.buf.take(b + 1);
        let rest = s.buf.skip(b + 1);
        let w = text::leading_space(rest) as int;
        let r = split(st.rest);
        law_splitting_keeps_ink(st.rest);
        text::lemma_trim_keeps_ink(head);
        text::lemma_prefix_len(rest, |c: char| text::is_space_spec(c));
        text::lemma_ink_of_space(rest.take(w));
        text::lemma_ink_concat(head, rest);
        text::lemma_ink_concat(rest.take(w), rest.skip(w));
        assert(s.buf =~= head + rest);
        assert(rest =~= rest.take(w) + rest.skip(w));
        assert(text::ink(rest) =~= text::ink(rest.skip(w)));
        assert(split(s).sentences.drop_first() =~= r.sentences);
        assert(spoken_ink(split(s).sentences) + text::ink(r.rest.buf) =~= text::ink(head) + (
        spoken_ink(r.sentences) + text::ink(r.rest.buf)));
    }
}

/// Nothing more can be split off what `push` leaves in the buffer.
pub proof fn law_no_boundary_is_left(s: SplitterModel)
    ensures
        forall|i: int| 0 <= i < split(s).rest.buf.len() ==> !is_boundary(split(s).rest.buf, i),
    decreases s.buf.len(),
{
    lemma_step_shrinks(s);
    lemma_boundary_from(s.buf, 0);
    if boundary_from(s.buf, 0) < s.buf.len() {
        law_no_boundary_is_left(step_at(s, boundary_from(s.buf, 0)).rest);
    }
}

/// Every sentence that is split off ends with the mark that ended it.
pub proof fn law_sentences_end_with_a_mark(s: SplitterModel)
    ensures
        forall|i: int|
            0 <= i < split(s).sentences.len() ==> {
                let t = (#[trigger] split(s).sentences[i]).text;
                t.len() > 0 && (t.last() == '.' || t.last() == '!' || t.last() == '?')
            },
    decreases s.buf.len(),
{
    let b = boundary_from(s.buf, 0);
    lemma_step_shrinks(s);
    lemma_boundary_from(s.buf, 0);
    if b < s.buf.len() {
        let st = step_at(s, b);
        law_sentences_end_with_a_mark(st.rest);
        let head = s.buf.take(b + 1);
        assert(head.last() == s.buf[b]);
        text::lemma_trim_keeps_last(head);
        assert forall|i: int| 0 <= i < split(s).sentences.len() implies {
            let t = (#[trigger] split(s).sentences[i]).text;
            t.len() > 0 && (t.last() == '.' || t.last() == '!' || t.last() == '?')
        } by {
            if i > 0 {
                assert(split(s).sentences[i] == split(st.rest).sentences[i - 1]);
            }
        }
    }
}

/// A decimal point is never a sentence boundary.
pub proof fn law_decimals_do_not_split(s: Seq<char>, i: int)
    requires
        0 <= i,
        i + 1 < s.len(),
        text::is_digit_spec(s[i + 1]),
    ensures
        !is_boundary(s, i),
{
}

/// A line without its header or bullet marker.
pub open spec fn unmarked_line(line: Seq<char>) -> Seq<char> {
    let t = text::trim_start_spec(line);
    if "# "@.is_prefix_of(t) {
        t.skip(2)
    } else if "## "@.is_prefix_of(t) {
        t.skip(3)
    } else if "### "@.is_prefix_of(t) {
        t.skip(4)
    } else if "- "@.is_prefix_of(t) || "* "@.is_prefix_of(t) {
        t.skip(2)
    } else {
        t
    }
}

/// Whether `c` is kept when inline markers are removed.
pub open spec fn is_spoken(c: char) -> bool {
    !(c == '*' || c == '_' || c == '`')
}

/// What is spoken of `lines` from `i` on: fenced code is left out, of every
/// other line the text without its markers, each line ended by a line feed.
pub open spec fn spoken_lines(lines: Seq<Seq<char>>, i: int, in_code: bool) -> Seq<char>
    decreases lines.len() - i,
{
    if i < 0 || i >= lines.len() {
        Seq::empty()
    } else if "```"@.is_prefix_of(lines[i]) {
        spoken_lines(lines, i + 1, !in_code)
    } else if in_code {
        spoken_lines(lines, i + 1, in_code)
    } else {
        unmarked_line(lines[i]).filter(|c: char| is_spoken(c)).push('\n') + spoken_lines(
            lines,
            i + 1,
            in_code,
        )
    }
}

/// Drops the header or bullet marker of a line.
fn unmark(line: &[char]) -> (r: &[char])
    ensures
        r@ == unmarked_line(line@),
{
    proof {
        reveal_strlit("# ");
        reveal_strlit("## ");
        reveal_strlit("### ");
        reveal_strlit("- ");
        reveal_strlit("* ");
    }
    let t = trim_start(line);
    let n: usize = t.len();
    let k: usize = if starts_with(t, "# ") {
        2
    } else if starts_with(t, "## ") {
        3
    } else if starts_with(t, "### ") {
        4
    } else if starts_with(t, "- ") || starts_with(t, "* ") {
        2
    } else {
        0
    };
    let r = vstd::slice::slice_subrange(t, k, n);
    assert(r@ =~= t@.skip(k as int));
    assert(t@.skip(0) =~= t@);
    r
}

/// Appends `line` without inline markers.
fn push_spoken(out: &mut Vec<char>, line: &[char])
    ensures
        final(out)@ == old(out)@ + line@.filter(|c: char| is_spoken(c)),
{
    let ghost p = |c: char| is_spoken(c);
    let mut i: usize = 0;
    proof {
        reveal(Seq::filter);
        assert(line@.take(0).filter(p) =~= Seq::<char>::empty());
        assert(out@ + line@.take(0).filter(p) =~= out@);
    }
    while i < line.len()
        invariant
            i <= line@.len(),
            p == |c: char| is_spoken(c),
            out@ == old(out)@ + line@.take(i as int).filter(p),
        decreases line@.len() - i,
    {
        let c = line[i];
        proof {
            reveal(Seq::filter);
            assert(line@.take(i + 1).drop_last() =~= line@.take(i as int));
        }
        let ghost before = out@;
        if !(c == '*' || c == '_' || c == '`') {
            out.push(c);
            assert(out@ =~= old(out)@ + line@.take(i as int).filter(p).push(c));
        }
        i += 1;
    }
    assert(line@.take(i as int) =~= line@);
}

/// Strips the markers that speech should not read aloud: fenced code goes
/// entirely, and so do leading header and bullet markers and the inline
/// markers for bold, italic and code.
pub fn strip_markdown(s: &str) -> (out: String)
    ensures
        out@ == spoken_lines(text::lines_spec(s@), 0, false),
{
    let chars = chars_of(s);
    let ls = lines(chars.as_slice());
    let ghost all = text::views(ls@);
    let mut out: Vec<char> = Vec::new();
    let mut in_code = false;
    let mut i: usize = 0;
    assert(out@ + spoken_lines(all, 0, false) =~= spoken_lines(all, 0, false));
    while i < ls.len()
        invariant
            i <= ls@.len(),
            all == text::views(ls@),
            out@ + spoken_lines(all, i as int, in_code) == spoken_lines(all, 0, false),
        decreases ls@.len() - i,
    {
        let line = ls[i].as_slice();
        assert(all[i as int] == line@);
        let ghost before = out@;
        if starts_with(line, "```") {
            in_code = !in_code;
        } else if !in_code {
            let kept = unmark(line);
            push_spoken(&mut out, kept);
            out.push('\n');
            assert(out@ + spoken_lines(all, i + 1, in_code) =~= before + (kept@.filter(
                |c: char| is_spoken(c),
            ).push('\n') + spoken_lines(all, i + 1, in_code)));
        }
        i += 1;
    }
    assert(out@ =~= out@ + spoken_lines(all, i as int, in_code));
    string_of(out.as_slice())
}

proof fn lemma_spoken_lines(lines: Seq<Seq<char>>, i: int, in_code: bool)
    requires
        0 <= i <= lines.len(),
    ensures
        forall|k: int|
            0 <= k < spoken_lines(lines, i, in_code).len() ==> is_spoken(
                #[trigger] spoken_lines(lines, i, in_code)[k],
            ),
        spoken_lines(lines, i, in_code).len() > 0 ==> spoken_lines(lines, i, in_code).last()
            == '\n',
    decreases lines.len() - i,
{
    if i < lines.len() {
        lemma_spoken_lines(lines, i + 1, !in_code);
        lemma_spoken_lines(lines, i + 1, in_code);
        let p = |c: char| is_spoken(c);
        let f = unmarked_line(lines[i]).filter(p);
        let all = spoken_lines(lines, i, in_code);
        if !"```"@.is_prefix_of(lines[i]) && !in_code {
            let rest = spoken_lines(lines, i + 1, in_code);
            assert(all == f.push('\n') + rest);
            assert forall|k: int| 0 <= k < all.len() implies is_spoken(#[trigger] all[k]) by {
                if k < f.len() {
                    unmarked_line(lines[i]).lemma_filter_pred(p, k);
                    assert(all[k] == f[k]);
                } else if k == f.len() {
                    assert(all[k] == '\n');
                } else {
                    assert(all[k] == rest[k - f.len() - 1]);
                }
            }
        } else if "```"@.is_prefix_of(lines[i]) {
            assert(all == spoken_lines(lines, i + 1, !in_code));
        } else {
            assert(all == spoken_lines(lines, i + 1, in_code));
        }
    }
}

/// No inline marker is ever read aloud, and what is read consists of whole
/// lines.
pub proof fn law_markers_are_not_spoken(s: Seq<char>)
    ensures
        ({
            let r = spoken_lines(text::lines_spec(s), 0, false);
            &&& forall|k: int| 0 <= k < r.len() ==> r[k] != '*' && r[k] != '_' && r[k] != '`'
            &&& r.len() == 0 || r.last() == '\n'
        }),
{
    lemma_spoken_lines(text::lines_spec(s), 0, false);
    let r = spoken_lines(text::lines_spec(s), 0, false);
    assert forall|k: int| 0 <= k < r.len() implies r[k] != '*' && r[k] != '_' && r[k] != '`' by {
        assert(is_spoken(r[k]));
    }
}

/// How many of `lines` from `i` on open or close fenced code.
pub open spec fn fences_from(lines: Seq<Seq<char>>, i: int) -> int
    decreases lines.len() - i,
{
    if i < 0 || i >= lines.len() {
        0
    } else if "```"@.is_prefix_of(lines[i]) {
        1 + fences_from(lines, i + 1)
    } else {
        fences_from(lines, i + 1)
    }
}

proof fn lemma_spoken_after(a: Seq<Seq<char>>, b: Seq<Seq<char>>, i: int, in_code: bool)
    requires
        0 <= i <= b.len(),
    ensures
        spoken_lines(a + b, a.len() + i, in_code) == spoken_lines(b, i, in_code),
    decreases b.len() - i,
{
    if i < b.len() {
        assert((a + b)[a.len() + i] == b[i]);
        lemma_spoken_after(a, b, i + 1, in_code);
        lemma_spoken_after(a, b, i + 1, !in_code);
    }
}

proof fn lemma_spoken_concat(a: Seq<Seq<char>>, b: Seq<Seq<char>>, i: int, in_code: bool)
    requires
        0 <= i <= a.len(),
    ensures
        spoken_lines(a + b, i, in_code) == spoken_lines(a, i, in_code) + spoken_lines(
            b,
            0,
            in_code != (fences_from(a, i) % 2 == 1),
        ),
    decreases a.len() - i,
{
    let after = spoken_lines(b, 0, in_code != (fences_from(a, i) % 2 == 1));
    if i < a.len() {
        assert((a + b)[i] == a[i]);
        if "```"@.is_prefix_of(a[i]) {
            lemma_spoken_concat(a, b, i + 1, !in_code);
        } else {
            lemma_spoken_concat(a, b, i + 1, in_code);
            if !in_code {
                let first = unmarked_line(a[i]).filter(|c: char| is_spoken(c)).push('\n');
                assert(first + (spoken_lines(a, i + 1, in_code) + after) =~= first + spoken_lines(
                    a,
                    i + 1,
                    in_code,
                ) + after);
            }
        }
    } else {
        lemma_spoken_after(a, b, 0, in_code);
        assert(Seq::<char>::empty() + after =~= after);
    }
}

/// Lines are read one by one: of two texts on lines of their own, the first of
/// which leaves no code open, the first is read and then the second.
pub proof fn law_lines_are_read_in_turn(a: Seq<char>, b: Seq<char>)
    requires
        a.len() > 0,
        a.last() != '\n',
        a.last() != '\r',
        fences_from(text::lines_spec(a), 0) % 2 == 0,
    ensures
        spoken_lines(text::lines_spec(a + "\n"@ + b), 0, false) == spoken_lines(
            text::lines_spec(a),
            0,
            false,
        ) + spoken_lines(text::lines_spec(b), 0, false),
{
    reveal_strlit("\n");
    assert(a + "\n"@ + b =~= a.push('\n') + b);
    text::lemma_lines_concat(a, b);
    text::lemma_lines_final_break(a);
    lemma_spoken_concat(text::lines_spec(a), text::lines_spec(b), 0, false);
}

/// After a split no full stop, exclamation or question mark is left in the
/// buffer at its end or before white space, and no sentence that was handed out
/// holds one before white space: each ends at the first such mark.
pub proof fn law_sentences_end_at_the_first_mark(s: SplitterModel)
    ensures
        ({
            let b = split(s).rest.buf;
            forall|i: int|
                0 <= i < b.len() && (#[trigger] b[i] == '.' || b[i] == '!' || b[i] == '?') ==> i + 1
                    < b.len() && b[i + 1] != ' ' && b[i + 1] != '\t' && b[i + 1] != '\n' && b[i + 1]
                    != '\x0c' && b[i + 1] != '\r'
        }),
        forall|j: int, i: int|
            #![trigger split(s).sentences[j].text[i]]
            {
                let t = split(s).sentences[j].text;
                0 <= j < split(s).sentences.len() && 0 <= i < t.len() - 1 && (t[i] == '.' || t[i]
                    == '!' || t[i] == '?') ==> t[i + 1] != ' ' && t[i + 1] != '\t' && t[i + 1]
                    != '\n' && t[i + 1] != '\x0c' && t[i + 1] != '\r'
            },
    decreases s.buf.len(),
{
    let b = boundary_from(s.buf, 0);
    lemma_step_shrinks(s);
    lemma_boundary_from(s.buf, 0);
    if b < s.buf.len() {
        let st = step_at(s, b);
        law_sentences_end_at_the_first_mark(st.rest);
        let head = s.buf.take(b + 1);
        let (x, y) = text::lemma_trim_range(head);
        assert forall|j: int, i: int|
            #![trigger split(s).sentences[j].text[i]]
            {
                let t = split(s).sentences[j].text;
                0 <= j < split(s).sentences.len() && 0 <= i < t.len() - 1 && (t[i] == '.' || t[i]
                    == '!' || t[i] == '?')
            } implies {
            let t = split(s).sentences[j].text;
            t[i + 1] != ' ' && t[i + 1] != '\t' && t[i + 1] != '\n' && t[i + 1] != '\x0c' && t[i
                + 1] != '\r'
        } by {
            if j > 0 {
                assert(split(s).sentences[j] == split(st.rest).sentences[j - 1]);
                let t = split(st.rest).sentences[j - 1].text;
                assert(t[i] == split(s).sentences[j].text[i]);
            } else {
                let t = split(s).sentences[0].text;
                assert(t[i] == s.buf[x + i] && t[i + 1] == s.buf[x + i + 1]);
                assert(!is_boundary(s.buf, x + i));
            }
        }
    } else {
        assert forall|i: int|
            0 <= i < s.buf.len() && (#[trigger] s.buf[i] == '.' || s.buf[i] == '!' || s.buf[i]
                == '?') implies i + 1 < s.buf.len() && s.buf[i + 1] != ' ' && s.buf[i + 1] != '\t'
            && s.buf[i + 1] != '\n' && s.buf[i + 1] != '\x0c' && s.buf[i + 1] != '\r' by {
            assert(!is_boundary(s.buf, i));
        }
    }
}

/// Whether `head` is a sentence: it ends with a mark, and no mark in it comes
/// before white space.
pub open spec fn is_sentence(head: Seq<char>) -> bool {
    &&& head.len() > 0
    &&& head.last() == '.' || head.last() == '!' || head.last() == '?'
    &&& forall|i: int|
        0 <= i < head.len() - 1 && (#[trigger] head[i] == '.' || head[i] == '!' || head[i] == '?')
            ==> head[i + 1] != ' ' && head[i + 1] != '\t' && head[i + 1] != '\n' && head[i + 1]
            != '\x0c' && head[i + 1] != '\r'
}

proof fn lemma_first_boundary(head: Seq<char>, tail: Seq<char>)
    requires
        is_sentence(head),
        tail.len() > 0 ==> tail[0] == ' ' || tail[0] == '\t' || tail[0] == '\n' || tail[0] == '\x0c'
            || tail[0] == '\r',
    ensures
        boundary_from(head + tail, 0) == head.len() - 1,
{
    let s = head + tail;
    let b = head.len() - 1;
    lemma_boundary_from(s, 0);
    assert(is_boundary(s, b)) by {
        assert(s[b] == head[b]);
        if tail.len() > 0 {
            assert(s[b + 1] == tail[0]);
        }
    }
    assert forall|k: int| 0 <= k < b implies !is_boundary(s, k) by {
        assert(s[k] == head[k] && s[k + 1] == head[k + 1]);
    }
}

/// A sentence in front of the buffer is handed out without the white space
/// around it, and what follows that white space is split next. The sentence ends
/// a paragraph where two line feeds follow it, and does not where none does.
/// Where one does, it ends one only as a list item: one that the buffer is in
/// already, or that the sentence starts on a fresh line.
pub proof fn law_first_sentence(line: Line, head: Seq<char>, gap: Seq<char>, tail: Seq<char>)
    requires
        is_sentence(head),
        gap.len() > 0,
        gap[0] == ' ' || gap[0] == '\t' || gap[0] == '\n' || gap[0] == '\x0c' || gap[0] == '\r',
        forall|k: int| 0 <= k < gap.len() ==> text::is_space_spec(#[trigger] gap[k]),
        tail.len() > 0 ==> !text::is_space_spec(tail[0]),
    ensures
        ({
            let r = split(SplitterModel { buf: head + gap + tail, line });
            let n = text::occurrences(gap, '\n');
            let first = r.sentences[0];
            &&& r.sentences.len() > 0
            &&& first.text == text::trim_spec(head)
            &&& n == 0 ==> !first.ends_paragraph
            &&& n >= 2 ==> first.ends_paragraph
            &&& n == 1 && text::unbroken(head) ==> {
                &&& line == Line::Item ==> first.ends_paragraph
                &&& line == Line::Plain ==> !first.ends_paragraph
                &&& line == Line::Fresh && ("- "@.is_prefix_of(head) || "* "@.is_prefix_of(head))
                    ==> first.ends_paragraph
                &&& line == Line::Fresh && head[0] != '-' && head[0] != '*'
                    && !text::is_space_spec(head[0]) ==> !first.ends_paragraph
            }
            &&& exists|next: Line|
                ({
                    let q = #[trigger] split(SplitterModel { buf: tail, line: next });
                    &&& r.sentences.drop_first() == q.sentences
                    &&& r.rest == q.rest
                    &&& n > 0 ==> next == Line::Fresh
                    &&& n == 0 && text::unbroken(head) && line != Line::Fresh ==> next == line
                })
        }),
{
    reveal_strlit("- ");
    reveal_strlit("* ");
    let s = SplitterModel { buf: head + gap + tail, line };
    let b = head.len() - 1;
    assert(s.buf =~= head + (gap + tail));
    assert((gap + tail)[0] == gap[0]);
    lemma_first_boundary(head, gap + tail);
    assert(boundary_from(s.buf, 0) == b);
    let st = step_at(s, b);
    assert(s.buf.take(b + 1) =~= head);
    assert(s.buf.skip(b + 1) =~= gap + tail);
    let w = gap.len();
    let space = |c: char| text::is_space_spec(c);
    assert forall|j: int| 0 <= j < w implies space(#[trigger] (gap + tail)[j]) by {
        assert((gap + tail)[j] == gap[j]);
    }
    if tail.len() > 0 {
        assert((gap + tail)[w as int] == tail[0]);
    }
    text::lemma_prefix_len_unique(gap + tail, space, w);
    assert((gap + tail).take(w as int) =~= gap);
    assert((gap + tail).skip(w as int) =~= tail);
    let q = split(st.rest);
    assert(st.rest == SplitterModel { buf: tail, line: st.rest.line });
    assert(split(s).sentences.drop_first() =~= q.sentences);
    assert(q == split(SplitterModel { buf: tail, line: st.rest.line }));
    if text::unbroken(head) {
        text::lemma_no_occurrence(head, '\n');
        lemma_whole_line(head);
        if !text::is_space_spec(head[0]) {
            assert(text::trim_start_spec(head) == head);
        }
        if "- "@.is_prefix_of(head) {
            assert(head[0] == "- "@[0]);
            text::law_white_space(head[0]);
        }
        if "* "@.is_prefix_of(head) {
            assert(head[0] == "* "@[0]);
            text::law_white_space(head[0]);
        }
    }
}

proof fn lemma_whole_line(s: Seq<char>)
    requires
        text::unbroken(s),
    ensures
        text::after_last(s, |c: char| c == '\n') == s,
    decreases s.len(),
{
    if s.len() > 0 {
        lemma_whole_line(s.drop_last());
        assert(s.drop_last().push(s.last()) =~= s);
    }
}

/// A text without a mark before white space or at its end stays in the buffer as
/// it is, and nothing is handed out.
pub proof fn law_unfinished_text_waits(s: SplitterModel)
    requires
        forall|i: int|
            0 <= i < s.buf.len() && (#[trigger] s.buf[i] == '.' || s.buf[i] == '!' || s.buf[i]
                == '?') ==> i + 1 < s.buf.len() && s.buf[i + 1] != ' ' && s.buf[i + 1] != '\t'
                && s.buf[i + 1] != '\n' && s.buf[i + 1] != '\x0c' && s.buf[i + 1] != '\r',
    ensures
        split(s).sentences.len() == 0,
        split(s).rest == s,
{
    lemma_boundary_from(s.buf, 0);
    let b = boundary_from(s.buf, 0);
    if b < s.buf.len() {
        assert(is_boundary(s.buf, b));
        assert(s.buf[b] == '.' || s.buf[b] == '!' || s.buf[b] == '?');
    }
}

proof fn lemma_spoken_line(l: Seq<char>)
    requires
        l.len() > 0,
        text::is_line(l),
        !"```"@.is_prefix_of(l),
    ensures
        spoken_lines(text::lines_spec(l), 0, false) == unmarked_line(l).filter(
            |c: char| c != '*' && c != '_' && c != '`',
        ).push('\n'),
{
    text::lemma_index_is(l, '\n', l.len() as int);
    let ls = seq![l];
    assert(text::lines_spec(l) =~= ls);
    assert(ls[0] == l);
    let p = |c: char| is_spoken(c);
    let q = |c: char| c != '*' && c != '_' && c != '`';
    assert(p =~= q);
    assert(spoken_lines(ls, 1, false) =~= Seq::<char>::empty());
    let f = unmarked_line(l).filter(p).push('\n');
    assert(spoken_lines(ls, 0, false) =~= f);
}

/// Of a line with a header or bullet marker the rest of the line is read, and of
/// any other line what follows its leading white space: every character of it in
/// order, but for asterisks, underscores and backquotes.
pub proof fn law_lines_are_read_without_markers(lead: Seq<char>, mark: Seq<char>, x: Seq<char>)
    requires
        forall|k: int| 0 <= k < lead.len() ==> text::is_space_spec(#[trigger] lead[k]),
        mark == "# "@ || mark == "## "@ || mark == "### "@ || mark == "- "@ || mark == "* "@,
        text::is_line(lead + mark + x),
    ensures
        spoken_lines(text::lines_spec(lead + mark + x), 0, false) == x.filter(
            |c: char| c != '*' && c != '_' && c != '`',
        ).push('\n'),
{
    reveal_strlit("```");
    reveal_strlit("### ");
    reveal_strlit("## ");
    reveal_strlit("# ");
    reveal_strlit("- ");
    reveal_strlit("* ");
    let t = mark + x;
    let n = mark.len() as int;
    let l = lead + mark + x;
    assert(l =~= lead + t);
    assert(t[0] == mark[0] && t[1] == mark[1]);
    if n > 2 {
        assert(t[2] == mark[2]);
    }
    if n > 3 {
        assert(t[3] == mark[3]);
    }
    text::law_white_space(t[0]);
    text::lemma_trim_start_after(lead, t);
    assert(mark.is_prefix_of(t)) by {
        assert(mark =~= t.subrange(0, n));
    }
    assert(!"```"@.is_prefix_of(l)) by {
        if "```"@.is_prefix_of(l) {
            assert("```"@[0] == l[0]);
            if lead.len() > 0 {
                text::law_white_space(lead[0]);
                assert(l[0] == lead[0]);
            } else {
                assert(l[0] == t[0]);
            }
        }
    }
    if "# "@.is_prefix_of(t) {
        assert("# "@[1] == t[1]);
    }
    if "## "@.is_prefix_of(t) {
        assert("## "@[1] == t[1] && "## "@[2] == t[2]);
    }
    if "### "@.is_prefix_of(t) {
        assert("### "@[1] == t[1] && "### "@[2] == t[2]);
    }
    assert(t.skip(n) =~= x);
    lemma_spoken_line(l);
}

/// A line that is no fence and has no header or bullet marker is read from its
/// first character on, every character in order but for asterisks, underscores
/// and backquotes; where it has none of these it is read as it is.
pub proof fn law_plain_lines_are_read_whole(lead: Seq<char>, x: Seq<char>)
    requires
        forall|k: int| 0 <= k < lead.len() ==> text::is_space_spec(#[trigger] lead[k]),
        x.len() > 0,
        !text::is_space_spec(x[0]),
        text::is_line(lead + x),
        !("```"@.is_prefix_of(lead + x)),
        !("# "@.is_prefix_of(x) || "## "@.is_prefix_of(x) || "### "@.is_prefix_of(x)
            || "- "@.is_prefix_of(x) || "* "@.is_prefix_of(x)),
    ensures
        spoken_lines(text::lines_spec(lead + x), 0, false) == x.filter(
            |c: char| c != '*' && c != '_' && c != '`',
        ).push('\n'),
        (forall|k: int| 0 <= k < x.len() ==> #[trigger] x[k] != '*' && x[k] != '_' && x[k] != '`')
            ==> spoken_lines(text::lines_spec(lead + x), 0, false) == x.push('\n'),
{
    text::lemma_trim_start_after(lead, x);
    lemma_spoken_line(lead + x);
    let q = |c: char| c != '*' && c != '_' && c != '`';
    if forall|k: int| 0 <= k < x.len() ==> #[trigger] x[k] != '*' && x[k] != '_' && x[k] != '`' {
        text::lemma_filter_all(x, q);
    }
}

proof fn lemma_code_is_skipped(ls: Seq<Seq<char>>, i: int, n: int)
    requires
        0 <= i <= n < ls.len(),
        forall|k: int| i <= k < n ==> !"```"@.is_prefix_of(#[trigger] ls[k]),
        "```"@.is_prefix_of(ls[n]),
    ensures
        spoken_lines(ls, i, true) == spoken_lines(ls, n + 1, false),
    decreases n - i,
{
    if i < n {
        assert(!"```"@.is_prefix_of(ls[i]));
        lemma_code_is_skipped(ls, i + 1, n);
    }
}

/// Fenced code is not read: of a line that opens a fence, lines of code and the
/// line that closes it nothing is spoken, and what follows is read.
pub proof fn law_fenced_code_is_not_read(open: Seq<char>, code: Seq<Seq<char>>, after: Seq<char>)
    requires
        text::is_line(open) && "```"@.is_prefix_of(open),
        forall|i: int|
            0 <= i < code.len() ==> text::is_line(#[trigger] code[i]) && !"```"@.is_prefix_of(
                code[i],
            ),
        text::is_line(after),
        after.len() > 0,
    ensures
        spoken_lines(
            text::lines_spec(text::join_spec(seq![open] + code + seq!["```"@, after], "\n"@)),
            0,
            false,
        ) == spoken_lines(text::lines_spec(after), 0, false),
{
    reveal_strlit("```");
    let ls = seq![open] + code + seq!["```"@, after];
    let n = code.len() as int + 1;
    assert(ls[0] == open && ls[n] == "```"@ && ls[n + 1] == after);
    assert forall|k: int| 1 <= k < n implies !"```"@.is_prefix_of(#[trigger] ls[k]) by {
        assert(ls[k] == code[k - 1]);
    }
    assert forall|i: int| 0 <= i < ls.len() implies text::is_line(#[trigger] ls[i]) by {
        if 1 <= i < n {
            assert(ls[i] == code[i - 1]);
        } else if i == n {
            assert("```"@.last() == '`');
        }
    }
    assert(ls.last() == after);
    text::lemma_lines_of_text(ls);
    assert("```"@.is_prefix_of("```"@));
    lemma_code_is_skipped(ls, 1, n);
    text::lemma_index_is(after, '\n', after.len() as int);
    assert(text::lines_spec(after) =~= seq![after]);
    lemma_spoken_after(ls.take(n + 1), seq![after], 0, false);
    assert(ls.take(n + 1) + seq![after] =~= ls);
}

/// Sentences are what their models say, one by one.
pub proof fn law_models_are_the_sentences(s: Seq<Sentence>, i: int)
    requires
        0 <= i < s.len(),
    ensures
        models(s).len() == s.len(),
        models(s)[i].text == s[i].text@,
        models(s)[i].ends_paragraph == s[i].ends_paragraph,
{
}

/// A line without markers is read aloud as it is.
pub proof fn law_stripping_a_plain_line(s: &str, out: String)
    requires
        call_ensures(strip_markdown, (s,), out),
        s@.len() > 0,
        text::is_line(s@),
        !text::is_space_spec(s@[0]),
        !("```"@.is_prefix_of(s@) || "# "@.is_prefix_of(s@) || "## "@.is_prefix_of(s@)
            || "### "@.is_prefix_of(s@) || "- "@.is_prefix_of(s@) || "* "@.is_prefix_of(s@)),
        forall|k: int|
            0 <= k < s@.len() ==> #[trigger] s@[k] != '*' && s@[k] != '_' && s@[k] != '`',
    ensures
        out@ == s@.push('\n'),
{
    let none = Seq::<char>::empty();
    assert(none + s@ =~= s@);
    law_plain_lines_are_read_whole(none, s@);
}

} // verus!
