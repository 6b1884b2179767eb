//! Voice plumbing of the dashboard: the sentence splitter that feeds speech,
//! the text that is spoken, the microphone's state machine and the schedule of
//! the audio that is played.

use vstd::prelude::*;

use crate::text;
use crate::text::{
    append, chars_of, copy_range, find_from, is_space, join, spells, string_of, trim, trim_start,
    words,
};

verus! {

/// Streams text chunks and hands out each sentence once its mark is followed by
/// white space. Abbreviations and decimals do not split.
pub struct SentenceSplitter {
    buf: Vec<char>,
}

impl View for SentenceSplitter {
    type V = Seq<char>;

    closed spec fn view(&self) -> Seq<char> {
        self.buf@
    }
}

/// What follows the last white space in `s`.
pub open spec fn last_word(s: Seq<char>) -> Seq<char> {
    text::after_last(s, |c: char| text::is_space_spec(c))
}

/// The words after which a full stop does not end a sentence.
pub open spec fn is_abbreviation(w: Seq<char>) -> bool {
    ||| w == "Mr"@
    ||| w == "Mrs"@
    ||| w == "Ms"@
    ||| w == "Dr"@
    ||| w == "Prof"@
    ||| w == "Sr"@
    ||| w == "Jr"@
    ||| w == "vs"@
    ||| w == "etc"@
    ||| w == "Inc"@
    ||| w == "Co"@
    ||| w == "Ltd"@
    ||| w == "Corp"@
    ||| w == "St"@
    ||| w == "Ave"@
    ||| w == "e.g"@
    ||| w == "i.e"@
}

/// Whether a sentence ends with the character at `i`: a mark before a blank,
/// other than the full stop of an abbreviation. A mark at the end of the text
/// is none yet: a digit may follow it.
pub open spec fn is_boundary(s: Seq<char>, i: int) -> bool {
    &&& s[i] == '.' || s[i] == '!' || s[i] == '?'
    &&& i + 1 < s.len()
    &&& s[i + 1] == ' ' || s[i + 1] == '\n' || s[i + 1] == '\t' || s[i + 1] == '\r'
    &&& s[i] == '.' ==> !is_abbreviation(last_word(s.take(i)))
}

/// The first boundary from `i` on, or the end of `s`.
pub open spec fn boundary_from(s: Seq<char>, i: int) -> int {
    text::first_from(s.len() as int, |k: int| is_boundary(s, k), i)
}

pub proof fn lemma_boundary_from(s: Seq<char>, i: int)
    requires
        0 <= i <= s.len(),
    ensures
        i <= boundary_from(s, i) <= s.len(),
        boundary_from(s, i) < s.len() ==> is_boundary(s, boundary_from(s, i)),
        forall|k: int| i <= k < boundary_from(s, i) ==> !is_boundary(s, k),
{
    let p = |k: int| is_boundary(s, k);
    text::lemma_first_from(s.len() as int, p, i);
    assert forall|k: int| i <= k < boundary_from(s, i) implies !is_boundary(s, k) by {
        assert(!p(k));
    }
}

/// The sentences that can be split off a buffer, and what stays in it.
pub struct Split {
    pub sentences: Seq<Seq<char>>,
    pub rest: Seq<char>,
}

/// Splits off sentences until no boundary is left.
pub open spec fn split(s: Seq<char>) -> Split
    decreases s.len(),
    via split_decreases
{
    let b = boundary_from(s, 0);
    if b >= s.len() {
        Split { sentences: Seq::empty(), rest: s }
    } else {
        let r = split(text::trim_start_spec(s.skip(b + 1)));
        Split { sentences: seq![text::trim_spec(s.take(b + 1))] + r.sentences, rest: r.rest }
    }
}

#[via_fn]
proof fn split_decreases(s: Seq<char>) {
    lemma_split_shrinks(s);
}

proof fn lemma_trim_start_len(s: Seq<char>)
    ensures
        text::trim_start_spec(s).len() <= s.len(),
    decreases s.len(),
{
    if s.len() > 0 && text::is_space_spec(s[0]) {
        lemma_trim_start_len(s.drop_first());
    }
}

proof fn lemma_split_shrinks(s: Seq<char>)
    ensures
        boundary_from(s, 0) < s.len() ==> 0 <= boundary_from(s, 0) && text::trim_start_spec(
            s.skip(boundary_from(s, 0) + 1),
        ).len() < s.len(),
{
    lemma_boundary_from(s, 0);
    if boundary_from(s, 0) < s.len() {
        lemma_trim_start_len(s.skip(boundary_from(s, 0) + 1));
    }
}

/// What follows the last white space in `v`.
fn find_last_word(v: &[char]) -> (r: &[char])
    ensures
        r@ == last_word(v@),
{
    text::tail_after(v, is_space, Ghost(|c: char| text::is_space_spec(c)))
}

/// Whether a full stop after `w` belongs to it.
fn abbreviates(w: &[char]) -> (r: bool)
    ensures
        r == is_abbreviation(w@),
{
    spells(w, "Mr") || spells(w, "Mrs") || spells(w, "Ms") || spells(w, "Dr") || spells(w, "Prof")
        || spells(w, "Sr") || spells(w, "Jr") || spells(w, "vs") || spells(w, "etc") || spells(
        w,
        "Inc",
    ) || spells(w, "Co") || spells(w, "Ltd") || spells(w, "Corp") || spells(w, "St") || spells(
        w,
        "Ave",
    ) || spells(w, "e.g") || spells(w, "i.e")
}

fn is_blank(c: char) -> (r: bool)
    ensures
        r == (c == ' ' || c == '\n' || c == '\t' || c == '\r'),
{
    c == ' ' || c == '\n' || c == '\t' || c == '\r'
}

/// The index of the first sentence boundary.
pub fn find_sentence_boundary(s: &[char]) -> (r: Option<usize>)
    ensures
        r matches Some(i) ==> i < s@.len() && i == boundary_from(s@, 0),
        r is None ==> boundary_from(s@, 0) == s@.len(),
{
    let mut i: usize = 0;
    while i < s.len()
        invariant
            i <= s@.len(),
            boundary_from(s@, 0) == boundary_from(s@, i as int),
        decreases s@.len() - i,
    {
        let c = s[i];
        if c == '.' || c == '!' || c == '?' {
            if i + 1 < s.len() && is_blank(s[i + 1]) {
                let head = vstd::slice::slice_subrange(s, 0, i);
                assert(head@ =~= s@.take(i as int));
                if !(c == '.' && abbreviates(find_last_word(head))) {
                    return Some(i);
                }
            }
        }
        i += 1;
    }
    None
}

impl SentenceSplitter {
    /// An empty splitter.
    pub fn new() -> (s: Self)
        ensures
            s@ == Seq::<char>::empty(),
    {
        SentenceSplitter { buf: Vec::new() }
    }

    /// Appends text and returns the sentences that it completes. What is left
    /// stays for the next call.
    pub fn push(&mut self, chunk: &str) -> (out: Vec<String>)
        ensures
            text::texts(out@) == split(old(self)@ + chunk@).sentences,
            final(self)@ == split(old(self)@ + chunk@).rest,
    {
        let added = chars_of(chunk);
        append(&mut self.buf, added.as_slice());
        let ghost s = self@;
        let mut out: Vec<String> = Vec::new();
        assert(text::texts(out@) =~= Seq::<Seq<char>>::empty());
        assert(text::texts(out@) + split(s).sentences =~= split(s).sentences);
        loop
            invariant
                text::texts(out@) + split(self@).sentences == split(s).sentences,
                split(self@).rest == split(s).rest,
            ensures
                text::texts(out@) == split(s).sentences,
                self@ == split(s).rest,
            decreases self@.len(),
        {
            proof {
                lemma_split_shrinks(self@);
                lemma_boundary_from(self@, 0);
            }
            let n: usize = self.buf.len();
            match find_sentence_boundary(self.buf.as_slice()) {
                None => {
                    assert(text::texts(out@) + Seq::<Seq<char>>::empty() =~= text::texts(out@));
                    break ;
                },
                Some(b) => {
                    let ghost before = self@;
                    let ghost done = out@;
                    let head = copy_range(self.buf.as_slice(), 0, b + 1);
                    let rest = copy_range(self.buf.as_slice(), b + 1, n);
                    assert(head@ =~= before.take(b + 1));
                    assert(rest@ =~= before.skip(b + 1));
                    let sentence = string_of(trim(head.as_slice()));
                    let tail = trim_start(rest.as_slice());
                    let kept = copy_range(tail, 0, tail.len());
                    assert(kept@ =~= tail@);
                    proof {
                        lemma_sentence_is_not_empty(before, b as int);
                    }
                    out.push(sentence);
                    self.buf = kept;
                    assert(text::texts(out@) =~= text::texts(done).push(sentence@));
                    assert(text::texts(out@) + split(self@).sentences =~= text::texts(done) + (
                    seq![sentence@] + split(self@).sentences));
                },
            }
        }
        out
    }

    /// Hands out what is left as a last sentence.
    pub fn finish(&mut self) -> (r: Option<String>)
        ensures
            final(self)@ == Seq::<char>::empty(),
            r is None <==> text::trim_spec(old(self)@).len() == 0,
            r matches Some(s) ==> s@ == text::trim_spec(old(self)@),
    {
        let s = string_of(trim(self.buf.as_slice()));
        self.buf = Vec::new();
        if s.as_str().is_empty() {
            None
        } else {
            Some(s)
        }
    }
}

proof fn lemma_sentence_is_not_empty(s: Seq<char>, b: int)
    requires
        0 <= b < s.len(),
        is_boundary(s, b),
    ensures
        text::trim_spec(s.take(b + 1)).len() > 0,
        text::trim_spec(s.take(b + 1)).last() == s[b],
{
    assert(s.take(b + 1).last() == s[b]);
    text::lemma_trim_keeps_last(s.take(b + 1));
}

/// The ink of all the sentences, in order.
pub open spec fn spoken_ink(s: Seq<Seq<char>>) -> Seq<char>
    decreases s.len(),
{
    if s.len() == 0 {
        Seq::empty()
    } else {
        text::ink(s[0]) + spoken_ink(s.drop_first())
    }
}

/// Splitting loses nothing but white space: what comes out as sentences and
/// what stays in the buffer is, in order, what was there before.
pub proof fn law_splitting_keeps_ink(s: Seq<char>)
    ensures
        spoken_ink(split(s).sentences) + text::ink(split(s).rest) == text::ink(s),
    decreases s.len(),
{
    let b = boundary_from(s, 0);
    lemma_split_shrinks(s);
    if b >= s.len() {
        assert(spoken_ink(split(s).sentences) + text::ink(s) =~= text::ink(s));
    } else {
        let head = s.take(b + 1);
        let rest = s.skip(b + 1);
        let r = split(text::trim_start_spec(rest));
        law_splitting_keeps_ink(text::trim_start_spec(rest));
        text::lemma_trim_keeps_ink(head);
        text::lemma_trim_keeps_ink(rest);
        text::lemma_ink_concat(head, rest);
        assert(s =~= head + rest);
        assert(split(s).sentences.drop_first() =~= r.sentences);
        assert(spoken_ink(split(s).sentences) + text::ink(r.rest) =~= text::ink(head) + (spoken_ink(
            r.sentences,
        ) + text::ink(r.rest)));
    }
}

/// Nothing more can be split off what `push` leaves in the buffer.
pub proof fn law_no_boundary_is_left(s: Seq<char>)
    ensures
        forall|i: int| 0 <= i < split(s).rest.len() ==> !is_boundary(split(s).rest, i),
    decreases s.len(),
{
    lemma_split_shrinks(s);
    lemma_boundary_from(s, 0);
    if boundary_from(s, 0) < s.len() {
        let t = text::trim_start_spec(s.skip(boundary_from(s, 0) + 1));
        law_no_boundary_is_left(t);
        assert(split(s).rest == split(t).rest);
    } else {
        assert(split(s).rest == s);
        assert forall|i: int| 0 <= i < s.len() implies !is_boundary(s, i) by {}
    }
}

/// Neither a decimal point nor the full stop of an abbreviation ends a
/// sentence.
pub proof fn law_decimals_and_abbreviations_do_not_split(s: Seq<char>, i: int)
    requires
        0 <= i < s.len(),
        s[i] == '.',
        (i + 1 < s.len() && text::is_digit_spec(s[i + 1])) || is_abbreviation(last_word(s.take(i))),
    ensures
        !is_boundary(s, i),
{
}

proof fn lemma_last_word_after_space(c: char, s: Seq<char>)
    requires
        text::is_space_spec(c),
    ensures
        last_word(seq![c] + s) == last_word(s),
    decreases s.len(),
{
    let t = seq![c] + s;
    if s.len() == 0 {
        assert(t.last() == c);
    } else {
        assert(t.last() == s.last());
        assert(t.drop_last() =~= seq![c] + s.drop_last());
        lemma_last_word_after_space(c, s.drop_last());
    }
}

/// White space at the start of a buffer moves its boundaries and no more.
proof fn lemma_boundary_after_space(s: Seq<char>, k: int)
    requires
        s.len() > 0,
        text::is_space_spec(s[0]),
        0 <= k <= s.len() - 1,
    ensures
        boundary_from(s, k + 1) == boundary_from(s.drop_first(), k) + 1,
    decreases s.len() - k,
{
    let t = s.drop_first();
    if k < t.len() {
        assert(s.take(k + 1) =~= seq![s[0]] + t.take(k));
        lemma_last_word_after_space(s[0], t.take(k));
        assert(is_boundary(s, k + 1) == is_boundary(t, k));
        if !is_boundary(t, k) {
            lemma_boundary_after_space(s, k + 1);
        }
    }
}

proof fn lemma_leading_space(s: Seq<char>)
    ensures
        split(text::trim_start_spec(s)).sentences == split(s).sentences,
        text::trim_start_spec(split(text::trim_start_spec(s)).rest) == text::trim_start_spec(
            split(s).rest,
        ),
    decreases s.len(),
{
    if s.len() > 0 && text::is_space_spec(s[0]) {
        let t = s.drop_first();
        lemma_leading_space(t);
        lemma_boundary_after_space(s, 0);
        lemma_boundary_from(t, 0);
        let b = boundary_from(t, 0);
        assert(!is_boundary(s, 0));
        assert(boundary_from(s, 0) == b + 1);
        if b < t.len() {
            assert(s.take(b + 2).drop_first() =~= t.take(b + 1));
            assert(s.take(b + 2)[0] == s[0]);
            assert(text::trim_spec(s.take(b + 2)) == text::trim_spec(t.take(b + 1)));
            assert(s.skip(b + 2) =~= t.skip(b + 1));
        }
    }
}

proof fn lemma_trim_start_concat(a: Seq<char>, b: Seq<char>)
    ensures
        text::trim_start_spec(a + b) == if text::trim_start_spec(a).len() > 0 {
            text::trim_start_spec(a) + b
        } else {
            text::trim_start_spec(b)
        },
    decreases a.len(),
{
    if a.len() == 0 {
        assert(a + b =~= b);
    } else {
        assert((a + b)[0] == a[0]);
        if text::is_space_spec(a[0]) {
            assert((a + b).drop_first() =~= a.drop_first() + b);
            lemma_trim_start_concat(a.drop_first(), b);
        }
    }
}

/// A boundary is one whatever follows: only the next character matters.
proof fn lemma_boundary_before(a: Seq<char>, b: Seq<char>, i: int)
    requires
        0 <= i <= a.len(),
        boundary_from(a, i) < a.len(),
    ensures
        boundary_from(a + b, i) == boundary_from(a, i),
    decreases a.len() - i,
{
    let s = a + b;
    lemma_boundary_from(a, i);
    if i < a.len() {
        assert(s.take(i) =~= a.take(i));
        assert(s[i] == a[i]);
        assert(i + 1 < a.len() ==> s[i + 1] == a[i + 1]);
        if !is_boundary(a, i) {
            assert(i + 1 < a.len());
            lemma_boundary_before(a, b, i + 1);
        }
    }
}

/// It does not matter how a text is cut into chunks: the sentences are those of
/// the whole text, and so is what is left but for white space before it.
pub proof fn law_chunks_do_not_matter(a: Seq<char>, b: Seq<char>)
    ensures
        split(a + b).sentences == split(a).sentences + split(split(a).rest + b).sentences,
        text::trim_start_spec(split(a + b).rest) == text::trim_start_spec(
            split(split(a).rest + b).rest,
        ),
    decreases a.len(),
{
    lemma_boundary_from(a, 0);
    let e = boundary_from(a, 0);
    if e < a.len() {
        lemma_boundary_before(a, b, 0);
        lemma_split_shrinks(a);
        let rest = a.skip(e + 1);
        let t = text::trim_start_spec(rest);
        assert((a + b).take(e + 1) =~= a.take(e + 1));
        assert((a + b).skip(e + 1) =~= rest + b);
        lemma_trim_start_concat(rest, b);
        let first = seq![text::trim_spec(a.take(e + 1))];
        if t.len() > 0 {
            law_chunks_do_not_matter(t, b);
            assert(first + (split(t).sentences + split(split(t).rest + b).sentences) =~= first
                + split(t).sentences + split(split(t).rest + b).sentences);
        } else {
            lemma_leading_space(b);
            assert(t =~= Seq::<char>::empty());
            assert(split(t).rest + b =~= b);
            assert(first + split(t).sentences =~= first);
        }
    } else {
        assert(split(a).sentences + split(a + b).sentences =~= split(a + b).sentences);
    }
}

/// The least index from `i` on at which `s` does not hold `c`, or its end.
pub open spec fn past_all(s: Seq<char>, c: char, i: int) -> int
    decreases s.len() - i,
{
    if 0 <= i < s.len() && s[i] == c {
        past_all(s, c, i + 1)
    } else {
        i
    }
}

/// The least index from `i` on at which `s` does not hold a digit, or its end.
pub open spec fn past_digits(s: Seq<char>, i: int) -> int
    decreases s.len() - i,
{
    if 0 <= i < s.len() && text::is_digit_spec(s[i]) {
        past_digits(s, i + 1)
    } else {
        i
    }
}

proof fn lemma_past_all(s: Seq<char>, c: char, i: int)
    requires
        0 <= i <= s.len(),
    ensures
        i <= past_all(s, c, i) <= s.len(),
        i < s.len() && s[i] == c ==> i < past_all(s, c, i),
    decreases s.len() - i,
{
    if i < s.len() && s[i] == c {
        lemma_past_all(s, c, i + 1);
    }
}

proof fn lemma_past_digits(s: Seq<char>, i: int)
    requires
        0 <= i <= s.len(),
    ensures
        i <= past_digits(s, i) <= s.len(),
    decreases s.len() - i,
{
    if i < s.len() && text::is_digit_spec(s[i]) {
        lemma_past_digits(s, i + 1);
    }
}

/// One step of reading marked-up text: what is spoken of it, where the text
/// goes on, and whether that is still the start of a line.
#[verifier::ext_equal]
pub struct Piece {
    pub spoken: Seq<char>,
    pub next: int,
    pub at_start: bool,
}

/// Where the text goes on after the heading marker that starts at `i`, if there
/// is one: one to three hashes with a space after them.
pub open spec fn past_heading(s: Seq<char>, i: int) -> Option<int> {
    let j = past_all(s, '#', i);
    if 1 <= j - i <= 3 && j < s.len() && s[j] == ' ' {
        Some(past_all(s, ' ', j))
    } else {
        None
    }
}

/// Where the text goes on after the heading or list marker or indentation that
/// starts at `i`, if there is one.
pub open spec fn past_line_marker(s: Seq<char>, i: int) -> Option<int> {
    let j = past_digits(s, i);
    if past_heading(s, i) is Some {
        past_heading(s, i)
    } else if (s[i] == '-' || s[i] == '+') && i + 1 < s.len() && s[i + 1] == ' ' {
        Some(i + 2)
    } else if j > i && j + 1 < s.len() && (s[j] == '.' || s[j] == ')') && s[j + 1] == ' ' {
        Some(j + 2)
    } else if s[i] == ' ' || s[i] == '\t' {
        Some(i + 1)
    } else {
        None
    }
}

/// The label of the link `[label](url)` that starts at `i`, and where the text
/// goes on after it.
pub open spec fn link_at(s: Seq<char>, i: int) -> Option<Piece> {
    let close = text::index_from(s, ']', i + 1);
    if s[i] == '[' && close + 1 < s.len() && s[close + 1] == '(' && text::index_from(
        s,
        ')',
        close + 2,
    ) < s.len() {
        Some(
            Piece {
                spoken: s.subrange(i + 1, close),
                next: text::index_from(s, ')', close + 2) + 1,
                at_start: false,
            },
        )
    } else {
        None
    }
}

/// Reads on from `i`. Emphasis markers are silent everywhere, heading and list
/// markers and indentation at the start of a line; a link is read as its label.
pub open spec fn piece_at(s: Seq<char>, i: int, at_start: bool) -> Piece {
    if i + 1 < s.len() && s[i] == s[i + 1] && (s[i] == '*' || s[i] == '_' || s[i] == '~') {
        Piece { spoken: Seq::empty(), next: i + 2, at_start }
    } else if s[i] == '*' || s[i] == '_' || s[i] == '`' {
        Piece { spoken: Seq::empty(), next: i + 1, at_start }
    } else if at_start && past_line_marker(s, i) is Some {
        Piece { spoken: Seq::empty(), next: past_line_marker(s, i)->0, at_start }
    } else if link_at(s, i) is Some {
        link_at(s, i)->0
    } else {
        Piece { spoken: seq![s[i]], next: i + 1, at_start: s[i] == '\n' }
    }
}

proof fn lemma_piece_at(s: Seq<char>, i: int, at_start: bool)
    requires
        0 <= i < s.len(),
    ensures
        i < piece_at(s, i, at_start).next <= s.len(),
{
    lemma_past_digits(s, i);
    lemma_past_all(s, '#', i);
    lemma_past_all(s, ' ', past_all(s, '#', i));
    text::lemma_index_from(s, ']', i + 1);
    let close = text::index_from(s, ']', i + 1);
    if close + 1 < s.len() {
        text::lemma_index_from(s, ')', close + 2);
    }
}

/// What is spoken of `s` from `i` on, white space as it stands.
pub open spec fn unmarked_from(s: Seq<char>, i: int, at_start: bool) -> Seq<char>
    decreases s.len() - i,
    when 0 <= i
    via unmarked_from_decreases
{
    if i >= s.len() {
        Seq::empty()
    } else {
        let p = piece_at(s, i, at_start);
        p.spoken + unmarked_from(s, p.next, p.at_start)
    }
}

#[via_fn]
proof fn unmarked_from_decreases(s: Seq<char>, i: int, at_start: bool) {
    if i < s.len() {
        lemma_piece_at(s, i, at_start);
    }
}

/// What is spoken of marked-up text: its words without markers, one space
/// between each two.
pub open spec fn spoken(s: Seq<char>) -> Seq<char> {
    text::join_spec(text::words_spec(unmarked_from(s, 0, true)), " "@)
}

fn skip_all(v: &[char], c: char, from: usize) -> (r: usize)
    requires
        from <= v@.len(),
    ensures
        r == past_all(v@, c, from as int),
        from <= r <= v@.len(),
{
    let mut i: usize = from;
    while i < v.len() && v[i] == c
        invariant
            from <= i <= v@.len(),
            past_all(v@, c, from as int) == past_all(v@, c, i as int),
        decreases v@.len() - i,
    {
        i += 1;
    }
    i
}

fn skip_digits(v: &[char], from: usize) -> (r: usize)
    requires
        from <= v@.len(),
    ensures
        r == past_digits(v@, from as int),
        from <= r <= v@.len(),
{
    let mut i: usize = from;
    while i < v.len() && 0x30 <= v[i] as u32 && v[i] as u32 <= 0x39
        invariant
            from <= i <= v@.len(),
            past_digits(v@, from as int) == past_digits(v@, i as int),
        decreases v@.len() - i,
    {
        i += 1;
    }
    i
}

/// Where the text goes on after the line marker at `i`, if there is one.
fn skip_line_marker(v: &[char], i: usize) -> (r: Option<usize>)
    requires
        i < v@.len(),
    ensures
        r is Some <==> past_line_marker(v@, i as int) is Some,
        r matches Some(k) ==> k == past_line_marker(v@, i as int)->0 && k <= v@.len(),
{
    let c = v[i];
    let n: usize = v.len();
    let h: usize = skip_all(v, '#', i);
    let j: usize = skip_digits(v, i);
    if i < h && h - i <= 3 && h < n && v[h] == ' ' {
        Some(skip_all(v, ' ', h))
    } else if (c == '-' || c == '+') && i + 1 < n && v[i + 1] == ' ' {
        Some(i + 2)
    } else if j > i && j < n && j + 1 < n && (v[j] == '.' || v[j] == ')') && v[j + 1] == ' ' {
        Some(j + 2)
    } else if c == ' ' || c == '\t' {
        Some(i + 1)
    } else {
        None
    }
}

/// The end of the label of the link at `i` and of the link itself, if one
/// starts there.
fn find_link(v: &[char], i: usize) -> (r: Option<(usize, usize)>)
    requires
        i < v@.len(),
    ensures
        r is Some <==> link_at(v@, i as int) is Some,
        r matches Some((close, next)) ==> i < close < next <= v@.len() && link_at(v@, i as int)
            == Some(
            (Piece {
                spoken: v@.subrange(i + 1, close as int),
                next: next as int,
                at_start: false,
            }),
        ),
{
    let n: usize = v.len();
    if v[i] != '[' {
        return None;
    }
    let close: usize = find_from(v, ']', i + 1);
    if close >= n || close + 1 >= n || v[close + 1] != '(' {
        return None;
    }
    let paren: usize = find_from(v, ')', close + 2);
    if paren >= n {
        return None;
    }
    Some((close, paren + 1))
}

/// Strips the markdown out of a text so that speech reads natural prose:
/// emphasis, heading and list markers go, a link leaves its label, and white
/// space becomes single spaces.
pub fn strip_markdown_for_tts(s: &str) -> (out: String)
    ensures
        out@ == spoken(s@),
{
    let chars = chars_of(s);
    let v = chars.as_slice();
    let n: usize = v.len();
    let mut out: Vec<char> = Vec::new();
    let mut i: usize = 0;
    let mut at_start = true;
    assert(out@ + unmarked_from(s@, 0, true) =~= unmarked_from(s@, 0, true));
    while i < n
        invariant
            i <= n == v@.len(),
            v@ == s@,
            out@ + unmarked_from(s@, i as int, at_start) == unmarked_from(s@, 0, true),
        decreases n - i,
    {
        let ghost before = out@;
        let ghost p = piece_at(s@, i as int, at_start);
        proof {
            lemma_piece_at(s@, i as int, at_start);
        }
        let c = v[i];
        if i + 1 < n && c == v[i + 1] && (c == '*' || c == '_' || c == '~') {
            i += 2;
        } else if c == '*' || c == '_' || c == '`' {
            i += 1;
        } else {
            let marker = if at_start {
                skip_line_marker(v, i)
            } else {
                None
            };
            match marker {
                Some(k) => {
                    i = k;
                },
                None => {
                    match find_link(v, i) {
                        Some((close, next)) => {
                            append(&mut out, vstd::slice::slice_subrange(v, i + 1, close));
                            i = next;
                            at_start = false;
                        },
                        None => {
                            out.push(c);
                            at_start = c == '\n';
                            i += 1;
                        },
                    }
                },
            }
        }
        assert(out@ =~= before + p.spoken);
        assert(out@ + unmarked_from(s@, p.next, p.at_start) =~= before + (p.spoken + unmarked_from(
            s@,
            p.next,
            p.at_start,
        )));
    }
    assert(out@ =~= out@ + unmarked_from(s@, i as int, at_start));
    let ws = words(out.as_slice());
    string_of(join(&ws, " ").as_slice())
}

/// Whether `c` can be spoken.
pub open spec fn is_spoken(c: char) -> bool {
    !(c == '*' || c == '_' || c == '`')
}

proof fn lemma_unmarked_only(s: Seq<char>, i: int, at_start: bool)
    requires
        0 <= i <= s.len(),
        forall|k: int| 0 <= k < s.len() ==> s[k] != '[',
    ensures
        text::only(unmarked_from(s, i, at_start), |c: char| is_spoken(c)),
    decreases s.len() - i,
{
    if i < s.len() {
        lemma_piece_at(s, i, at_start);
        let p = piece_at(s, i, at_start);
        lemma_unmarked_only(s, p.next, p.at_start);
        assert(text::only(p.spoken, |c: char| is_spoken(c)));
    }
}

/// No emphasis marker is read aloud. The label of a link is read as it stands,
/// so the law is of text without a bracket.
pub proof fn law_markers_are_not_spoken(s: Seq<char>)
    requires
        forall|k: int| 0 <= k < s.len() ==> s[k] != '[',
    ensures
        forall|k: int|
            0 <= k < spoken(s).len() ==> spoken(s)[k] != '*' && spoken(s)[k] != '_' && spoken(
                s,
            )[k] != '`',
{
    let q = |c: char| is_spoken(c);
    let u = unmarked_from(s, 0, true);
    lemma_unmarked_only(s, 0, true);
    text::lemma_runs_only(u, |c: char| !text::is_space_spec(c), q);
    reveal_strlit(" ");
    assert(text::only(" "@, q));
    text::lemma_join_only(text::words_spec(u), " "@, q);
    assert forall|k: int| 0 <= k < spoken(s).len() implies spoken(s)[k] != '*' && spoken(s)[k]
        != '_' && spoken(s)[k] != '`' by {
        assert(q(spoken(s)[k]));
    }
}

/// The words whose full stop ends no sentence.
pub open spec fn abbreviations() -> Seq<Seq<char>> {
    seq![
        "Mr"@,
        "Mrs"@,
        "Ms"@,
        "Dr"@,
        "Prof"@,
        "Sr"@,
        "Jr"@,
        "vs"@,
        "etc"@,
        "Inc"@,
        "Co"@,
        "Ltd"@,
        "Corp"@,
        "St"@,
        "Ave"@,
        "e.g"@,
        "i.e"@,
    ]
}

/// Whether `w` is the last word of `s`: it ends `s`, and starts it or follows
/// white space.
pub open spec fn ends_in_word(s: Seq<char>, w: Seq<char>) -> bool {
    let n = s.len() - w.len();
    &&& n >= 0
    &&& s.skip(n) == w
    &&& n == 0 || text::is_space_spec(s[n - 1])
}

/// Whether `s` ends in an abbreviation.
pub open spec fn is_abbreviated(s: Seq<char>) -> bool {
    exists|k: int| 0 <= k < abbreviations().len() && ends_in_word(s, #[trigger] abbreviations()[k])
}

proof fn lemma_last_word(s: Seq<char>)
    ensures
        ({
            let w = last_word(s);
            &&& ends_in_word(s, w)
            &&& forall|k: int| 0 <= k < w.len() ==> !text::is_space_spec(#[trigger] w[k])
        }),
    decreases s.len(),
{
    let w = last_word(s);
    if s.len() > 0 && !text::is_space_spec(s.last()) {
        lemma_last_word(s.drop_last());
        let v = last_word(s.drop_last());
        let n = s.drop_last().len() - v.len();
        assert(s.skip(n) =~= v.push(s.last())) by {
            assert(s.drop_last().skip(n) =~= v);
            assert forall|k: int| 0 <= k < v.len() implies s.skip(n)[k] == v[k] by {
                assert(s.drop_last().skip(n)[k] == v[k]);
            }
        }
        assert forall|k: int| 0 <= k < w.len() implies !text::is_space_spec(#[trigger] w[k]) by {
            if k < v.len() {
                assert(w[k] == v[k]);
            }
        }
    } else {
        assert(s.skip(s.len() as int) =~= w);
    }
}

proof fn lemma_last_word_is(s: Seq<char>, w: Seq<char>)
    requires
        ends_in_word(s, w),
        forall|k: int| 0 <= k < w.len() ==> !text::is_space_spec(#[trigger] w[k]),
    ensures
        last_word(s) == w,
{
    lemma_last_word(s);
    let v = last_word(s);
    let (n, m) = (s.len() - w.len(), s.len() - v.len());
    if n < m {
        assert(s.skip(n)[m - 1 - n] == w[m - 1 - n]);
    }
    if m < n {
        assert(s.skip(m)[n - 1 - m] == v[n - 1 - m]);
    }
}

proof fn lemma_abbreviated(s: Seq<char>)
    ensures
        is_abbreviation(last_word(s)) <==> is_abbreviated(s),
{
    reveal_strlit("Mr");
    reveal_strlit("Mrs");
    reveal_strlit("Ms");
    reveal_strlit("Dr");
    reveal_strlit("Prof");
    reveal_strlit("Sr");
    reveal_strlit("Jr");
    reveal_strlit("vs");
    reveal_strlit("etc");
    reveal_strlit("Inc");
    reveal_strlit("Co");
    reveal_strlit("Ltd");
    reveal_strlit("Corp");
    reveal_strlit("St");
    reveal_strlit("Ave");
    reveal_strlit("e.g");
    reveal_strlit("i.e");
    let l = abbreviations();
    assert(l[0] == "Mr"@);
    assert(l[1] == "Mrs"@);
    assert(l[2] == "Ms"@);
    assert(l[3] == "Dr"@);
    assert(l[4] == "Prof"@);
    assert(l[5] == "Sr"@);
    assert(l[6] == "Jr"@);
    assert(l[7] == "vs"@);
    assert(l[8] == "etc"@);
    assert(l[9] == "Inc"@);
    assert(l[10] == "Co"@);
    assert(l[11] == "Ltd"@);
    assert(l[12] == "Corp"@);
    assert(l[13] == "St"@);
    assert(l[14] == "Ave"@);
    assert(l[15] == "e.g"@);
    assert(l[16] == "i.e"@);
    lemma_last_word(s);
    if is_abbreviation(last_word(s)) {
        let k = choose|k: int| 0 <= k < l.len() && #[trigger] l[k] == last_word(s);
        assert(ends_in_word(s, l[k]));
    }
    if is_abbreviated(s) {
        let k = choose|k: int| 0 <= k < l.len() && ends_in_word(s, #[trigger] l[k]);
        let w = l[k];
        assert forall|j: int| 0 <= j < w.len() implies !text::is_space_spec(#[trigger] w[j]) by {
            text::law_white_space(w[j]);
        }
        lemma_last_word_is(s, w);
        assert(is_abbreviation(w));
    }
}

/// A sentence ends with an exclamation or question mark before a blank, and with
/// a full stop before one unless that belongs to an abbreviation; the first such
/// mark is the one that is found.
pub proof fn law_first_boundary(s: Seq<char>)
    ensures
        ({
            let b = boundary_from(s, 0);
            &&& 0 <= b <= s.len()
            &&& b < s.len() ==> {
                &&& s[b] == '.' || s[b] == '!' || s[b] == '?'
                &&& b + 1 < s.len()
                &&& s[b + 1] == ' ' || s[b + 1] == '\n' || s[b + 1] == '\t' || s[b + 1] == '\r'
                &&& s[b] == '.' ==> !is_abbreviated(s.take(b))
            }
            &&& forall|i: int|
                0 <= i < b && i + 1 < s.len() && (s[i + 1] == ' ' || s[i + 1] == '\n' || s[i + 1]
                    == '\t' || s[i + 1] == '\r') ==> #[trigger] s[i] != '!' && s[i] != '?' && (s[i]
                    == '.' ==> is_abbreviated(s.take(i)))
        }),
{
    lemma_boundary_from(s, 0);
    let b = boundary_from(s, 0);
    if b < s.len() {
        lemma_abbreviated(s.take(b));
    }
    assert forall|i: int|
        0 <= i < b && i + 1 < s.len() && (s[i + 1] == ' ' || s[i + 1] == '\n' || s[i + 1] == '\t'
            || s[i + 1] == '\r') implies #[trigger] s[i] != '!' && s[i] != '?' && (s[i] == '.'
        ==> is_abbreviated(s.take(i))) by {
        assert(!is_boundary(s, i));
        lemma_abbreviated(s.take(i));
    }
}

/// What stays in the buffer holds no exclamation or question mark before a
/// blank, and no full stop before one but that of an abbreviation.
pub proof fn law_no_sentence_is_left(s: Seq<char>)
    ensures
        ({
            let r = split(s).rest;
            forall|i: int|
                0 <= i < r.len() - 1 && (r[i + 1] == ' ' || r[i + 1] == '\n' || r[i + 1] == '\t'
                    || r[i + 1] == '\r') ==> #[trigger] r[i] != '!' && r[i] != '?' && (r[i] == '.'
                    ==> is_abbreviated(r.take(i)))
        }),
{
    law_no_boundary_is_left(s);
    let r = split(s).rest;
    assert forall|i: int|
        0 <= i < r.len() - 1 && (r[i + 1] == ' ' || r[i + 1] == '\n' || r[i + 1] == '\t' || r[i
            + 1] == '\r') implies #[trigger] r[i] != '!' && r[i] != '?' && (r[i] == '.'
        ==> is_abbreviated(r.take(i))) by {
        assert(!is_boundary(r, i));
        lemma_abbreviated(r.take(i));
    }
}

/// A sentence in front of a blank is handed out without the white space around
/// it, and what follows that white space is split next.
pub proof fn law_first_sentence(head: Seq<char>, gap: Seq<char>, tail: Seq<char>)
    requires
        head.len() > 0,
        head.last() == '!' || head.last() == '?' || (head.last() == '.' && !is_abbreviated(
            head.drop_last(),
        )),
        forall|i: int|
            0 <= i < head.len() - 1 && (#[trigger] head[i] == '.' || head[i] == '!' || head[i]
                == '?') ==> head[i + 1] != ' ' && head[i + 1] != '\n' && head[i + 1] != '\t'
                && head[i + 1] != '\r',
        gap.len() > 0,
        gap[0] == ' ' || gap[0] == '\n' || gap[0] == '\t' || gap[0] == '\r',
        forall|k: int| 0 <= k < gap.len() ==> text::is_space_spec(#[trigger] gap[k]),
        tail.len() > 0 ==> !text::is_space_spec(tail[0]),
    ensures
        split(head + gap + tail).sentences == seq![text::trim_spec(head)] + split(tail).sentences,
        split(head + gap + tail).rest == split(tail).rest,
{
    let s = head + gap + tail;
    let b = head.len() - 1;
    lemma_boundary_from(s, 0);
    assert(s.take(b) =~= head.drop_last());
    lemma_abbreviated(s.take(b));
    assert(s[b] == head[b] && s[b + 1] == gap[0]);
    assert(is_boundary(s, b));
    assert forall|k: int| 0 <= k < b implies !is_boundary(s, k) by {
        assert(s[k] == head[k] && s[k + 1] == head[k + 1]);
    }
    assert(boundary_from(s, 0) == b);
    assert(s.take(b + 1) =~= head);
    assert(s.skip(b + 1) =~= gap + tail);
    text::lemma_trim_start_after(gap, tail);
}

/// Whether `c` is read as it stands wherever it is on a line.
pub open spec fn is_prose_char(c: char) -> bool {
    c != '*' && c != '_' && c != '`' && c != '~' && c != '[' && c != '\n'
}

proof fn lemma_prose_from(s: Seq<char>, i: int, j: int)
    requires
        0 <= i <= j <= s.len(),
        forall|k: int| i <= k < j ==> is_prose_char(#[trigger] s[k]),
    ensures
        unmarked_from(s, i, false) == s.subrange(i, j) + unmarked_from(s, j, false),
    decreases j - i,
{
    if i < j {
        assert(is_prose_char(s[i]));
        lemma_prose_from(s, i + 1, j);
        assert(piece_at(s, i, false).spoken =~= seq![s[i]]);
        assert(seq![s[i]] + (s.subrange(i + 1, j) + unmarked_from(s, j, false)) =~= s.subrange(i, j)
            + unmarked_from(s, j, false));
    } else {
        assert(s.subrange(i, j) + unmarked_from(s, j, false) =~= unmarked_from(s, j, false));
    }
}

/// Whether `a` can start a line without being taken for a marker: it starts with
/// no white space, hash, hyphen, plus sign or digit.
pub open spec fn starts_prose(a: Seq<char>) -> bool {
    &&& a.len() > 0
    &&& a[0] != ' ' && a[0] != '\t' && a[0] != '#' && a[0] != '-' && a[0] != '+'
    &&& !('0' <= a[0] <= '9')
}

proof fn lemma_prose_start(s: Seq<char>, j: int)
    requires
        starts_prose(s),
        0 < j <= s.len(),
        forall|k: int| 0 <= k < j ==> is_prose_char(#[trigger] s[k]),
    ensures
        unmarked_from(s, 0, true) == s.take(j) + unmarked_from(s, j, false),
{
    assert(is_prose_char(s[0]));
    text::law_digits_and_letters(s[0]);
    lemma_prose_from(s, 1, j);
    assert(piece_at(s, 0, true).spoken =~= seq![s[0]]);
    assert(seq![s[0]] + (s.subrange(1, j) + unmarked_from(s, j, false)) =~= s.take(j)
        + unmarked_from(s, j, false));
}

/// Plain prose is spoken as it is, one space between each two words.
pub proof fn law_prose_is_spoken(ws: Seq<Seq<char>>)
    requires
        ws.len() > 0,
        starts_prose(ws[0]),
        forall|i: int| 0 <= i < ws.len() ==> (#[trigger] ws[i]).len() > 0,
        forall|i: int, k: int|
            0 <= i < ws.len() && 0 <= k < ws[i].len() ==> is_prose_char(#[trigger] ws[i][k])
                && !text::is_space_spec(ws[i][k]),
    ensures
        spoken(text::join_spec(ws, " "@)) == text::join_spec(ws, " "@),
{
    reveal_strlit(" ");
    let s = text::join_spec(ws, " "@);
    let q = |c: char| is_prose_char(c);
    let word = |c: char| !text::is_space_spec(c);
    assert forall|i: int| 0 <= i < ws.len() implies text::only(#[trigger] ws[i], q) by {
        assert forall|k: int| 0 <= k < ws[i].len() implies q(#[trigger] ws[i][k]) by {}
    }
    assert(text::only(" "@, q));
    text::lemma_join_only(ws, " "@, q);
    assert forall|k: int| 0 <= k < s.len() implies is_prose_char(#[trigger] s[k]) by {
        assert(q(s[k]));
    }
    lemma_join_starts(ws);
    lemma_prose_start(s, s.len() as int);
    assert(unmarked_from(s, 0, true) =~= s);
    assert forall|i: int, k: int| 0 <= i < ws.len() && 0 <= k < ws[i].len() implies word(
        #[trigger] ws[i][k],
    ) by {}
    text::law_runs_of_joined_words(ws, word);
}

proof fn lemma_join_starts(ws: Seq<Seq<char>>)
    requires
        ws.len() > 0,
        ws[0].len() > 0,
    ensures
        text::join_spec(ws, " "@).len() > 0,
        text::join_spec(ws, " "@)[0] == ws[0][0],
    decreases ws.len(),
{
    if ws.len() > 1 {
        lemma_join_starts(ws.drop_last());
    }
}

/// Emphasis changes nothing in what is spoken: a stretch of prose between two
/// markers for bold, italic, struck out or code is read like any other.
pub proof fn law_emphasis_is_silent(a: Seq<char>, m: Seq<char>, b: Seq<char>, c: Seq<char>)
    requires
        starts_prose(a) && b.len() > 0,
        text::only(a, |x: char| is_prose_char(x)),
        text::only(b, |x: char| is_prose_char(x)),
        text::only(c, |x: char| is_prose_char(x)),
        m == "**"@ || m == "__"@ || m == "~~"@ || m == "*"@ || m == "_"@ || m == "`"@,
    ensures
        spoken(a + m + b + m + c) == spoken(a + b + c),
{
    reveal_strlit("**");
    reveal_strlit("__");
    reveal_strlit("~~");
    reveal_strlit("*");
    reveal_strlit("_");
    reveal_strlit("`");
    let s = a + m + b + m + c;
    let (x, y, n) = (a.len() as int, b.len() as int, m.len() as int);
    let q = |x: char| is_prose_char(x);
    assert forall|k: int| 0 <= k < x implies is_prose_char(#[trigger] s[k]) by {
        assert(s[k] == a[k]);
        assert(q(a[k]));
    }
    assert forall|k: int| x + n <= k < x + n + y implies is_prose_char(#[trigger] s[k]) by {
        assert(s[k] == b[k - x - n]);
        assert(q(b[k - x - n]));
    }
    assert forall|k: int| x + n + y + n <= k < s.len() implies is_prose_char(#[trigger] s[k]) by {
        assert(s[k] == c[k - x - n - y - n]);
        assert(q(c[k - x - n - y - n]));
    }
    assert(s[x] == m[0] && s[x + n - 1] == m[n - 1]);
    assert(s[x + n + y] == m[0] && s[x + n + y + n - 1] == m[n - 1]);
    assert(s[x + n] == b[0]);
    assert(q(b[0]));
    let end = x + n + y + n;
    if c.len() > 0 {
        assert(s[end] == c[0]);
        assert(q(c[0]));
    }
    lemma_prose_start(s, x);
    assert(unmarked_from(s, x, false) =~= unmarked_from(s, x + n, false));
    lemma_prose_from(s, x + n, x + n + y);
    assert(unmarked_from(s, x + n + y, false) =~= unmarked_from(s, end, false));
    lemma_prose_from(s, end, s.len() as int);
    assert(unmarked_from(s, s.len() as int, false) =~= Seq::<char>::empty());
    assert(s.take(x) =~= a && s.subrange(x + n, x + n + y) =~= b);
    assert(s.subrange(end, s.len() as int) =~= c);
    assert(unmarked_from(s, 0, true) =~= a + b + c);
    lemma_plain_text(a, b, c);
}

proof fn lemma_plain_text(a: Seq<char>, b: Seq<char>, c: Seq<char>)
    requires
        starts_prose(a),
        text::only(a, |x: char| is_prose_char(x)),
        text::only(b, |x: char| is_prose_char(x)),
        text::only(c, |x: char| is_prose_char(x)),
    ensures
        unmarked_from(a + b + c, 0, true) == a + b + c,
{
    let t = a + b + c;
    let q = |x: char| is_prose_char(x);
    assert forall|k: int| 0 <= k < t.len() implies is_prose_char(#[trigger] t[k]) by {
        if k < a.len() {
            assert(q(a[k]));
        } else if k < a.len() + b.len() {
            assert(t[k] == b[k - a.len()]);
            assert(q(b[k - a.len()]));
        } else {
            assert(t[k] == c[k - a.len() - b.len()]);
            assert(q(c[k - a.len() - b.len()]));
        }
    }
    assert(t[0] == a[0]);
    lemma_prose_start(t, t.len() as int);
    assert(unmarked_from(t, t.len() as int, false) =~= Seq::<char>::empty());
    assert(t.take(t.len() as int) =~= t);
}

proof fn lemma_index_at(s: Seq<char>, c: char, i: int, e: int)
    requires
        0 <= i <= e < s.len(),
        forall|k: int| i <= k < e ==> s[k] != c,
        s[e] == c,
    ensures
        text::index_from(s, c, i) == e,
    decreases e - i,
{
    if i < e {
        lemma_index_at(s, c, i + 1, e);
    }
}

/// A link is spoken as its label, and its address is not.
pub proof fn law_links_are_spoken_as_their_label(
    a: Seq<char>,
    label: Seq<char>,
    url: Seq<char>,
    c: Seq<char>,
)
    requires
        starts_prose(a),
        text::only(a, |x: char| is_prose_char(x)),
        text::only(label, |x: char| is_prose_char(x)),
        text::only(c, |x: char| is_prose_char(x)),
        forall|k: int| 0 <= k < label.len() ==> label[k] != ']',
        forall|k: int| 0 <= k < url.len() ==> url[k] != ')',
    ensures
        spoken(a + "["@ + label + "]("@ + url + ")"@ + c) == spoken(a + label + c),
{
    reveal_strlit("[");
    reveal_strlit("](");
    reveal_strlit(")");
    let s = a + "["@ + label + "]("@ + url + ")"@ + c;
    let (x, y, z) = (a.len() as int, label.len() as int, url.len() as int);
    let q = |x: char| is_prose_char(x);
    assert forall|k: int| 0 <= k < x implies is_prose_char(#[trigger] s[k]) by {
        assert(s[k] == a[k]);
        assert(q(a[k]));
    }
    let close = x + 1 + y;
    assert forall|k: int| x + 1 <= k < close implies s[k] != ']' by {
        assert(s[k] == label[k - x - 1]);
    }
    lemma_index_at(s, ']', x + 1, close);
    assert forall|k: int| close + 2 <= k < close + 2 + z implies s[k] != ')' by {
        assert(s[k] == url[k - close - 2]);
    }
    lemma_index_at(s, ')', close + 2, close + 2 + z);
    let end = close + 3 + z;
    assert forall|k: int| end <= k < s.len() implies is_prose_char(#[trigger] s[k]) by {
        assert(s[k] == c[k - end]);
        assert(q(c[k - end]));
    }
    lemma_prose_start(s, x);
    assert(s[x] == '[');
    assert(s[close + 1] == '(');
    let p = piece_at(s, x, false);
    assert(p.next == end && !p.at_start);
    assert(p.spoken =~= label);
    lemma_prose_from(s, end, s.len() as int);
    assert(unmarked_from(s, s.len() as int, false) =~= Seq::<char>::empty());
    assert(s.take(x) =~= a);
    assert(s.subrange(end, s.len() as int) =~= c);
    assert(unmarked_from(s, 0, true) =~= a + label + c);
    lemma_plain_text(a, label, c);
}

/// Heading and list markers and indentation at the start of a line are silent:
/// the line is spoken like the prose that follows them.
pub proof fn law_line_markers_are_silent(m: Seq<char>, x: Seq<char>)
    requires
        starts_prose(x),
        text::only(x, |c: char| is_prose_char(c)),
        m == "# "@ || m == "## "@ || m == "### "@ || m == "- "@ || m == "+ "@ || m == " "@ || m
            == "\t"@ || (m.len() == 3 && '0' <= m[0] <= '9' && (m[1] == '.' || m[1] == ')') && m[2]
            == ' '),
    ensures
        spoken(m + x) == spoken(x),
{
    reveal_strlit("# ");
    reveal_strlit("## ");
    reveal_strlit("### ");
    reveal_strlit("- ");
    reveal_strlit("+ ");
    reveal_strlit(" ");
    reveal_strlit("\t");
    reveal_with_fuel(past_all, 5);
    reveal_with_fuel(past_digits, 3);
    let s = m + x;
    let n = m.len() as int;
    let q = |c: char| is_prose_char(c);
    assert(s[0] == m[0] && s[n] == x[0]);
    if n > 1 {
        assert(s[1] == m[1]);
    }
    if n > 2 {
        assert(s[2] == m[2]);
    }
    if n > 3 {
        assert(s[3] == m[3]);
    }
    text::law_digits_and_letters(s[0]);
    text::law_digits_and_letters(s[1]);
    assert(q(x[0]));
    let p = piece_at(s, 0, true);
    assert(p.next == n && p.at_start);
    assert(p.spoken =~= Seq::<char>::empty());
    text::law_digits_and_letters(s[n]);
    assert(piece_at(s, n, true).spoken =~= seq![x[0]]);
    assert forall|k: int| n + 1 <= k < s.len() implies is_prose_char(#[trigger] s[k]) by {
        assert(s[k] == x[k - n]);
        assert(q(x[k - n]));
    }
    lemma_prose_from(s, n + 1, s.len() as int);
    assert(unmarked_from(s, s.len() as int, false) =~= Seq::<char>::empty());
    assert(unmarked_from(s, n, true) =~= x);
    assert(unmarked_from(s, 0, true) =~= x);
    let e = Seq::<char>::empty();
    lemma_plain_text(x, e, e);
    assert(x + e + e =~= x);
}

} // verus!
