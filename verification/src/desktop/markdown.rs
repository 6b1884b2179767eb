//! Markdown to transcript blocks.
//!
//! Block level: headers (`#`, `##`, `###`), bullets (`- `, `* `), fenced code,
//! whole-paragraph bold and plain paragraphs. Inside a paragraph the inline
//! markers `**bold**`, `` `code` `` and `[text](url)` delimit runs.
//!
//! `parse_runs` keeps the runs apart, each with its style, for a renderer that
//! stacks them; `parse` gives one block per paragraph.

use vstd::prelude::*;

use crate::text;
use crate::text::{
    append, chars_of, copy_range, find_from, join, lines, starts_with, string_of, trim, trim_start,
};

verus! {

/// One block of a transcript.
#[derive(Debug, Clone, PartialEq)]
pub struct Block {
    pub body: String,
    /// 1 to 3 for a header, 0 for anything else.
    pub header_rank: i32,
    pub is_code: bool,
    pub is_bullet: bool,
    pub is_bold: bool,
    /// True if this block is a mid-paragraph continuation of the prior block.
    pub continues_prev: bool,
}

/// What a block holds.
#[verifier::ext_equal]
pub struct BlockModel {
    pub body: Seq<char>,
    pub header_rank: int,
    pub is_code: bool,
    pub is_bullet: bool,
    pub is_bold: bool,
    pub continues_prev: bool,
}

impl View for Block {
    type V = BlockModel;

    open spec fn view(&self) -> BlockModel {
        BlockModel {
            body: self.body@,
            header_rank: self.header_rank as int,
            is_code: self.is_code,
            is_bullet: self.is_bullet,
            is_bold: self.is_bold,
            continues_prev: self.continues_prev,
        }
    }
}

impl Default for Block {
    /// The empty plain block.
    fn default() -> (b: Self)
        ensures
            b@ == plain(Seq::empty()),
    {
        Block {
            body: String::new(),
            header_rank: 0,
            is_code: false,
            is_bullet: false,
            is_bold: false,
            continues_prev: false,
        }
    }
}

/// The models of a sequence of blocks.
pub open spec fn models(b: Seq<Block>) -> Seq<BlockModel> {
    b.map_values(|x: Block| x@)
}

/// A plain block.
pub open spec fn plain(body: Seq<char>) -> BlockModel {
    BlockModel {
        body,
        header_rank: 0,
        is_code: false,
        is_bullet: false,
        is_bold: false,
        continues_prev: false,
    }
}

/// A block of code.
pub open spec fn code(body: Seq<char>) -> BlockModel {
    BlockModel { is_code: true, ..plain(body) }
}

/// A bold block.
pub open spec fn bold(body: Seq<char>) -> BlockModel {
    BlockModel { is_bold: true, ..plain(body) }
}

/// A header of the given rank.
pub open spec fn header(rank: int, body: Seq<char>) -> BlockModel {
    BlockModel { header_rank: rank, ..plain(body) }
}

/// A bullet.
pub open spec fn bullet(body: Seq<char>) -> BlockModel {
    BlockModel { is_bullet: true, ..plain(body) }
}

fn plain_block(body: &[char]) -> (b: Block)
    ensures
        b@ == plain(body@),
{
    Block {
        body: string_of(body),
        header_rank: 0,
        is_code: false,
        is_bullet: false,
        is_bold: false,
        continues_prev: false,
    }
}

/// Where the `**` that closes a bold run stands: the least index from `i` on at
/// which two asterisks follow each other, or the end of `s`.
pub open spec fn bold_end(s: Seq<char>, i: int) -> int
    decreases s.len() - i,
{
    if i < 0 || i >= s.len() {
        s.len() as int
    } else if s[i] == '*' && i + 1 < s.len() && s[i + 1] == '*' {
        i
    } else {
        bold_end(s, i + 1)
    }
}

pub proof fn lemma_bold_end(s: Seq<char>, i: int)
    requires
        0 <= i <= s.len(),
    ensures
        i <= bold_end(s, i) <= s.len(),
        bold_end(s, i) < s.len() ==> bold_end(s, i) + 1 < s.len(),
    decreases s.len() - i,
{
    if i < s.len() {
        lemma_bold_end(s, i + 1);
    }
}

/// The index after the one at which something ends, or the end of `s`.
pub open spec fn past(s: Seq<char>, end: int, width: int) -> int {
    if end < s.len() {
        end + width
    } else {
        s.len() as int
    }
}

/// The index at which the text goes on after a link's `](url)`, where `close`
/// is the index of its `]`. The parenthesis is optional.
pub open spec fn past_link(s: Seq<char>, close: int) -> int {
    let k = past(s, close, 1);
    if k < s.len() && s[k] == '(' {
        past(s, text::index_from(s, ')', k + 1), 1)
    } else {
        k
    }
}

/// An inline marker with what it encloses: the run, and the index at which the
/// text goes on after it.
pub struct Marked {
    pub run: BlockModel,
    pub next: int,
}

/// The inline marker that starts at `i`, if one does. A `**` that nothing
/// closes is text.
pub open spec fn marked_at(s: Seq<char>, i: int) -> Option<Marked> {
    if s[i] == '*' && i + 1 < s.len() && s[i + 1] == '*' && bold_end(s, i + 2) < s.len() {
        let e = bold_end(s, i + 2);
        Some(Marked { run: bold(s.subrange(i + 2, e)), next: e + 2 })
    } else if s[i] == '`' {
        let e = text::index_from(s, '`', i + 1);
        Some(Marked { run: code(s.subrange(i + 1, e)), next: past(s, e, 1) })
    } else if s[i] == '[' {
        let e = text::index_from(s, ']', i + 1);
        Some(Marked { run: plain(s.subrange(i + 1, e)), next: past_link(s, e) })
    } else {
        None
    }
}

pub proof fn lemma_marked_at(s: Seq<char>, i: int)
    requires
        0 <= i < s.len(),
    ensures
        marked_at(s, i) matches Some(m) ==> i < m.next <= s.len(),
{
    if s[i] == '*' && i + 1 < s.len() && s[i + 1] == '*' {
        lemma_bold_end(s, i + 2);
    } else if s[i] == '`' {
        text::lemma_index_from(s, '`', i + 1);
    } else if s[i] == '[' {
        text::lemma_index_from(s, ']', i + 1);
        let k = past(s, text::index_from(s, ']', i + 1), 1);
        if k < s.len() {
            text::lemma_index_from(s, ')', k + 1);
        }
    }
}

/// A run by itself, nothing when it is empty.
pub open spec fn nonempty(run: BlockModel) -> Seq<BlockModel> {
    if run.body.len() == 0 {
        Seq::empty()
    } else {
        seq![run]
    }
}

/// The runs of `s` from `i` on, where `pending` is the plain text just before.
pub open spec fn runs_from(s: Seq<char>, i: int, pending: Seq<char>) -> Seq<BlockModel>
    decreases s.len() - i,
    when 0 <= i
    via runs_from_decreases
{
    if i >= s.len() {
        nonempty(plain(pending))
    } else {
        match marked_at(s, i) {
            Some(m) => nonempty(plain(pending)) + nonempty(m.run) + runs_from(
                s,
                m.next,
                Seq::empty(),
            ),
            None => runs_from(s, i + 1, pending.push(s[i])),
        }
    }
}

#[via_fn]
proof fn runs_from_decreases(s: Seq<char>, i: int, pending: Seq<char>) {
    if i < s.len() {
        lemma_marked_at(s, i);
    }
}

/// The styled runs of a paragraph. One that consists of markers alone is a
/// single plain run.
pub open spec fn inline_runs(s: Seq<char>) -> Seq<BlockModel> {
    let r = runs_from(s, 0, Seq::empty());
    if r.len() == 0 {
        seq![plain(s)]
    } else {
        r
    }
}

/// The index of the closing `**` of a bold run.
fn find_bold_end(v: &[char], from: usize) -> (r: usize)
    requires
        from <= v@.len(),
    ensures
        r == bold_end(v@, from as int),
        from <= r <= v@.len(),
        r < v@.len() ==> r + 1 < v@.len(),
{
    let mut i: usize = from;
    while i < v.len()
        invariant
            from <= i <= v@.len(),
            bold_end(v@, from as int) == bold_end(v@, i as int),
        decreases v@.len() - i,
    {
        if v[i] == '*' && i + 1 < v.len() && v[i + 1] == '*' {
            return i;
        }
        i += 1;
    }
    i
}

/// The index at which the text goes on after a link.
fn skip_link(v: &[char], close: usize) -> (r: usize)
    requires
        close <= v@.len(),
    ensures
        r == past_link(v@, close as int),
        close <= r <= v@.len(),
        close < v@.len() ==> close < r,
{
    let mut k: usize = close;
    if close < v.len() {
        k = close + 1;
    }
    if k < v.len() && v[k] == '(' {
        let e: usize = find_from(v, ')', k + 1);
        if e < v.len() {
            e + 1
        } else {
            e
        }
    } else {
        k
    }
}

/// Appends a run unless it is empty.
fn push_run(out: &mut Vec<Block>, body: &[char], is_bold: bool, is_code: bool)
    ensures
        models(final(out)@) == models(old(out)@) + nonempty(
            (BlockModel { is_bold, is_code, ..plain(body@) }),
        ),
{
    if body.len() > 0 {
        let mut b = plain_block(body);
        b.is_bold = is_bold;
        b.is_code = is_code;
        out.push(b);
    }
    assert(models(out@) =~= models(old(out)@) + nonempty(
        (BlockModel { is_bold, is_code, ..plain(body@) }),
    ));
}

/// Splits a paragraph into its styled runs: bold, inline code, link text and
/// the plain text between them.
pub fn split_inline_runs(s: &[char]) -> (out: Vec<Block>)
    ensures
        models(out@) == inline_runs(s@),
        out@.len() > 0,
{
    let mut runs: Vec<Block> = Vec::new();
    let mut buf: Vec<char> = Vec::new();
    let mut i: usize = 0;
    assert(models(runs@) =~= Seq::<BlockModel>::empty());
    assert(models(runs@) + runs_from(s@, 0, buf@) =~= runs_from(s@, 0, Seq::empty()));
    while i < s.len()
        invariant
            i <= s@.len(),
            models(runs@) + runs_from(s@, i as int, buf@) == runs_from(s@, 0, Seq::empty()),
        decreases s@.len() - i,
    {
        let c = s[i];
        let ghost before = models(runs@);
        let ghost pending = buf@;
        let close: usize = if c == '*' && i + 1 < s.len() && s[i + 1] == '*' {
            find_bold_end(s, i + 2)
        } else {
            s.len()
        };
        if close < s.len() {
            push_run(&mut runs, buf.as_slice(), false, false);
            buf = Vec::new();
            push_run(&mut runs, vstd::slice::slice_subrange(s, i + 2, close), true, false);
            let next: usize = close + 2;
            proof {
                let m = marked_at(s@, i as int)->0;
                assert(models(runs@) + runs_from(s@, m.next, Seq::empty()) =~= before + (nonempty(
                    plain(pending),
                ) + nonempty(m.run) + runs_from(s@, m.next, Seq::empty())));
            }
            i = next;
        } else if c == '`' {
            push_run(&mut runs, buf.as_slice(), false, false);
            buf = Vec::new();
            let e: usize = find_from(s, '`', i + 1);
            push_run(&mut runs, vstd::slice::slice_subrange(s, i + 1, e), false, true);
            let next: usize = if e < s.len() {
                e + 1
            } else {
                e
            };
            proof {
                let m = marked_at(s@, i as int)->0;
                assert(models(runs@) + runs_from(s@, m.next, Seq::empty()) =~= before + (nonempty(
                    plain(pending),
                ) + nonempty(m.run) + runs_from(s@, m.next, Seq::empty())));
            }
            i = next;
        } else if c == '[' {
            push_run(&mut runs, buf.as_slice(), false, false);
            buf = Vec::new();
            let e: usize = find_from(s, ']', i + 1);
            push_run(&mut runs, vstd::slice::slice_subrange(s, i + 1, e), false, false);
            let next: usize = skip_link(s, e);
            proof {
                let m = marked_at(s@, i as int)->0;
                assert(models(runs@) + runs_from(s@, m.next, Seq::empty()) =~= before + (nonempty(
                    plain(pending),
                ) + nonempty(m.run) + runs_from(s@, m.next, Seq::empty())));
            }
            i = next;
        } else {
            buf.push(c);
            i += 1;
        }
    }
    push_run(&mut runs, buf.as_slice(), false, false);
    if runs.len() == 0 {
        runs.push(plain_block(s));
        assert(models(runs@) =~= seq![plain(s@)]);
    }
    runs
}

/// What is left of `s` from `i` on without inline markers: asterisks and
/// backquotes go, a link leaves its text.
pub open spec fn stripped_from(s: Seq<char>, i: int) -> Seq<char>
    decreases s.len() - i,
    when 0 <= i
    via stripped_from_decreases
{
    if i >= s.len() {
        Seq::empty()
    } else if s[i] == '*' || s[i] == '`' {
        stripped_from(s, i + 1)
    } else if s[i] == '[' {
        let e = text::index_from(s, ']', i + 1);
        s.subrange(i + 1, e) + stripped_from(s, past_link(s, e))
    } else {
        seq![s[i]] + stripped_from(s, i + 1)
    }
}

#[via_fn]
proof fn stripped_from_decreases(s: Seq<char>, i: int) {
    if i < s.len() {
        lemma_marked_at(s, i);
    }
}

/// Drops `**`, `*` and backquotes from a header or a bullet, and reduces a link
/// to its text.
pub fn strip_inline_emphasis(s: &[char]) -> (out: Vec<char>)
    ensures
        out@ == stripped_from(s@, 0),
{
    let mut out: Vec<char> = Vec::new();
    let mut i: usize = 0;
    assert(out@ + stripped_from(s@, 0) =~= stripped_from(s@, 0));
    while i < s.len()
        invariant
            i <= s@.len(),
            out@ + stripped_from(s@, i as int) == stripped_from(s@, 0),
        decreases s@.len() - i,
    {
        let c = s[i];
        let ghost before = out@;
        if c == '*' || c == '`' {
            i += 1;
        } else if c == '[' {
            let e: usize = find_from(s, ']', i + 1);
            append(&mut out, vstd::slice::slice_subrange(s, i + 1, e));
            let next: usize = skip_link(s, e);
            assert(out@ + stripped_from(s@, next as int) =~= before + (s@.subrange(i + 1, e as int)
                + stripped_from(s@, next as int)));
            i = next;
        } else {
            out.push(c);
            assert(out@ + stripped_from(s@, i + 1) =~= before + (seq![c] + stripped_from(
                s@,
                i + 1,
            )));
            i += 1;
        }
    }
    assert(out@ =~= out@ + stripped_from(s@, i as int));
    out
}

/// Whether a line opens or closes fenced code.
pub open spec fn is_fence(line: Seq<char>) -> bool {
    "```"@.is_prefix_of(text::trim_start_spec(line))
}

/// The header or bullet that a line is, if it is one.
pub open spec fn marked_line(line: Seq<char>) -> Option<BlockModel> {
    let t = text::trim_start_spec(line);
    if "### "@.is_prefix_of(t) {
        Some(header(3, stripped_from(t.skip(4), 0)))
    } else if "## "@.is_prefix_of(t) {
        Some(header(2, stripped_from(t.skip(3), 0)))
    } else if "# "@.is_prefix_of(t) {
        Some(header(1, stripped_from(t.skip(2), 0)))
    } else if "- "@.is_prefix_of(t) || "* "@.is_prefix_of(t) {
        Some(bullet(stripped_from(t.skip(2), 0)))
    } else {
        None
    }
}

/// The index of the first fence among `lines` from `i` on, or their number.
pub open spec fn fence_from(lines: Seq<Seq<char>>, i: int) -> int
    decreases lines.len() - i,
{
    if i < 0 || i >= lines.len() {
        lines.len() as int
    } else if is_fence(lines[i]) {
        i
    } else {
        fence_from(lines, i + 1)
    }
}

pub proof fn lemma_fence_from(lines: Seq<Seq<char>>, i: int)
    requires
        0 <= i <= lines.len(),
    ensures
        i <= fence_from(lines, i) <= lines.len(),
    decreases lines.len() - i,
{
    if i < lines.len() {
        lemma_fence_from(lines, i + 1);
    }
}

/// The index of the line after the fence at `e`, if there is one.
pub open spec fn after_fence(lines: Seq<Seq<char>>, e: int) -> int {
    if e < lines.len() {
        e + 1
    } else {
        e
    }
}

/// Whether a paragraph is bold as a whole.
pub open spec fn whole_bold(t: Seq<char>) -> bool {
    "**"@.is_prefix_of(t) && "**"@.is_suffix_of(t) && t.len() > 4
}

/// The runs of one paragraph: every run after the first continues the one
/// before it, and in a paragraph that is bold as a whole every run is bold.
pub open spec fn paragraph_runs(r: Seq<BlockModel>, all_bold: bool) -> Seq<BlockModel> {
    r.map(
        |i: int, b: BlockModel|
            BlockModel { is_bold: all_bold || b.is_bold, continues_prev: i > 0, ..b },
    )
}

/// The blocks of a paragraph made of `para`.
pub open spec fn paragraph_blocks(para: Seq<Seq<char>>) -> Seq<BlockModel> {
    let t = text::trim_spec(text::join_spec(para, "\n"@));
    if t.len() == 0 {
        Seq::empty()
    } else if whole_bold(t) {
        paragraph_runs(inline_runs(t.subrange(2, t.len() - 2)), true)
    } else {
        paragraph_runs(inline_runs(t), false)
    }
}

/// The blocks of `lines` from `i` on, where `para` holds the lines of the
/// paragraph that is still open.
pub open spec fn blocks_from(lines: Seq<Seq<char>>, i: int, para: Seq<Seq<char>>) -> Seq<BlockModel>
    decreases lines.len() - i,
    when 0 <= i
    via blocks_from_decreases
{
    if i >= lines.len() {
        paragraph_blocks(para)
    } else if is_fence(lines[i]) {
        let e = fence_from(lines, i + 1);
        paragraph_blocks(para) + seq![code(text::join_spec(lines.subrange(i + 1, e), "\n"@))]
            + blocks_from(lines, after_fence(lines, e), Seq::empty())
    } else if marked_line(lines[i]) is Some {
        paragraph_blocks(para) + seq![marked_line(lines[i])->0] + blocks_from(
            lines,
            i + 1,
            Seq::empty(),
        )
    } else if text::trim_spec(lines[i]).len() == 0 {
        paragraph_blocks(para) + blocks_from(lines, i + 1, Seq::empty())
    } else {
        blocks_from(lines, i + 1, para.push(lines[i]))
    }
}

#[via_fn]
proof fn blocks_from_decreases(lines: Seq<Seq<char>>, i: int, para: Seq<Seq<char>>) {
    if i < lines.len() {
        lemma_fence_from(lines, i + 1);
    }
}

/// The blocks of a text, with the runs of a paragraph kept apart.
pub open spec fn run_blocks(s: Seq<char>) -> Seq<BlockModel> {
    let b = blocks_from(text::lines_spec(s), 0, Seq::empty());
    if b.len() == 0 {
        seq![plain(text::trim_spec(s))]
    } else {
        b
    }
}

/// `a` with the run `b` that continues it: the text of both, and a style only
/// where both have it.
pub open spec fn merged(a: BlockModel, b: BlockModel) -> BlockModel {
    BlockModel {
        body: a.body + b.body,
        is_code: a.is_code && b.is_code,
        is_bold: a.is_bold && b.is_bold,
        ..a
    }
}

/// `b` with every continuation merged into what it continues.
pub open spec fn coalesced(b: Seq<BlockModel>) -> Seq<BlockModel>
    decreases b.len(),
{
    if b.len() == 0 {
        Seq::empty()
    } else {
        let r = coalesced(b.drop_last());
        if b.last().continues_prev && r.len() > 0 {
            r.drop_last().push(merged(r.last(), b.last()))
        } else {
            r.push(b.last())
        }
    }
}

/// Appends the blocks of the paragraph made of `para`.
fn flush_paragraph(para: &Vec<Vec<char>>, out: &mut Vec<Block>)
    ensures
        models(final(out)@) == models(old(out)@) + paragraph_blocks(text::views(para@)),
{
    let joined = join(para, "\n");
    let t = trim(joined.as_slice());
    if t.len() == 0 {
        assert(models(out@) =~= models(old(out)@) + paragraph_blocks(text::views(para@)));
        return;
    }
    let ghost tv = t@;
    proof {
        reveal_strlit("**");
    }
    let n: usize = t.len();
    let all_bold = n > 4 && starts_with(t, "**") && t[n - 2] == '*' && t[n - 1] == '*';
    proof {
        if all_bold {
            assert("**"@ =~= tv.subrange(n - 2, n as int));
        }
        if n > 4 && whole_bold(tv) {
            assert(tv.subrange(n - 2, n as int)[0] == '*');
            assert(tv.subrange(n - 2, n as int)[1] == '*');
        }
        assert(all_bold == whole_bold(tv));
    }
    let inner = if all_bold {
        vstd::slice::slice_subrange(t, 2, n - 2)
    } else {
        t
    };
    let runs = split_inline_runs(inner);
    let ghost r = models(runs@);
    let ghost target = paragraph_runs(r, all_bold);
    let ghost before = models(out@);
    let mut i: usize = 0;
    assert(before =~= before + target.take(0));
    while i < runs.len()
        invariant
            i <= runs@.len(),
            r == models(runs@),
            target == paragraph_runs(r, all_bold),
            models(out@) == before + target.take(i as int),
        decreases runs@.len() - i,
    {
        let b = Block {
            body: runs[i].body.clone(),
            header_rank: runs[i].header_rank,
            is_code: runs[i].is_code,
            is_bullet: runs[i].is_bullet,
            is_bold: all_bold || runs[i].is_bold,
            continues_prev: i > 0,
        };
        let ghost prev = out@;
        out.push(b);
        proof {
            assert(b@ == target[i as int]);
            assert(models(out@) =~= models(prev).push(b@));
            assert(target.take(i + 1) =~= target.take(i as int).push(target[i as int]));
            assert(models(out@) =~= before + target.take(i + 1));
        }
        i += 1;
    }
    assert(target.take(i as int) =~= target);
}

/// Whether a line opens or closes fenced code.
fn line_is_fence(line: &[char]) -> (r: bool)
    ensures
        r == is_fence(line@),
{
    starts_with(trim_start(line), "```")
}

/// The header or bullet that a line is, if it is one.
fn line_block(line: &[char]) -> (r: Option<Block>)
    ensures
        r is Some <==> marked_line(line@) is Some,
        r is Some ==> (r->0)@ == marked_line(line@)->0,
{
    let t = trim_start(line);
    let n: usize = t.len();
    proof {
        reveal_strlit("### ");
        reveal_strlit("## ");
        reveal_strlit("# ");
        reveal_strlit("- ");
        reveal_strlit("* ");
    }
    let mut b = Block::default();
    if starts_with(t, "### ") {
        let rest = vstd::slice::slice_subrange(t, 4, n);
        assert(rest@ =~= t@.skip(4));
        b.header_rank = 3;
        b.body = string_of(strip_inline_emphasis(rest).as_slice());
        Some(b)
    } else if starts_with(t, "## ") {
        let rest = vstd::slice::slice_subrange(t, 3, n);
        assert(rest@ =~= t@.skip(3));
        b.header_rank = 2;
        b.body = string_of(strip_inline_emphasis(rest).as_slice());
        Some(b)
    } else if starts_with(t, "# ") {
        let rest = vstd::slice::slice_subrange(t, 2, n);
        assert(rest@ =~= t@.skip(2));
        b.header_rank = 1;
        b.body = string_of(strip_inline_emphasis(rest).as_slice());
        Some(b)
    } else if starts_with(t, "- ") || starts_with(t, "* ") {
        let rest = vstd::slice::slice_subrange(t, 2, n);
        assert(rest@ =~= t@.skip(2));
        b.is_bullet = true;
        b.body = string_of(strip_inline_emphasis(rest).as_slice());
        Some(b)
    } else {
        None
    }
}

/// The lines from `i` up to the next fence, and the index of that fence.
fn fenced_lines(ls: &Vec<Vec<char>>, i: usize) -> (r: (Vec<Vec<char>>, usize))
    requires
        i <= ls@.len(),
    ensures
        r.1 == fence_from(text::views(ls@), i as int),
        i <= r.1 <= ls@.len(),
        text::views(r.0@) == text::views(ls@).subrange(i as int, r.1 as int),
{
    let ghost all = text::views(ls@);
    let mut out: Vec<Vec<char>> = Vec::new();
    let mut k: usize = i;
    assert(text::views(out@) =~= all.subrange(i as int, k as int));
    while k < ls.len()
        invariant
            i <= k <= ls@.len(),
            all == text::views(ls@),
            fence_from(all, i as int) == fence_from(all, k as int),
            text::views(out@) == all.subrange(i as int, k as int),
        decreases ls@.len() - k,
    {
        assert(all[k as int] == ls@[k as int]@);
        if line_is_fence(ls[k].as_slice()) {
            return (out, k);
        }
        let ghost prev = out@;
        let l = copy_range(ls[k].as_slice(), 0, ls[k].len());
        assert(l@ =~= ls@[k as int]@);
        out.push(l);
        assert(text::views(out@) =~= text::views(prev).push(all[k as int]));
        assert(text::views(out@) =~= all.subrange(i as int, k + 1));
        k += 1;
    }
    (out, k)
}

/// Splits a text into blocks, keeping the styled runs of a paragraph apart:
/// every run after a paragraph's first is marked as continuing the one before.
pub fn parse_runs(s: &str) -> (out: Vec<Block>)
    ensures
        models(out@) == run_blocks(s@),
        out@.len() > 0,
{
    let chars = chars_of(s);
    let ls = lines(chars.as_slice());
    let ghost all = text::views(ls@);
    let mut out: Vec<Block> = Vec::new();
    let mut para: Vec<Vec<char>> = Vec::new();
    let mut i: usize = 0;
    proof {
        assert(models(out@) =~= Seq::<BlockModel>::empty());
        assert(text::views(para@) =~= Seq::<Seq<char>>::empty());
        assert(models(out@) + blocks_from(all, 0, Seq::empty()) =~= blocks_from(
            all,
            0,
            Seq::empty(),
        ));
    }
    while i < ls.len()
        invariant
            i <= ls@.len(),
            all == text::views(ls@),
            models(out@) + blocks_from(all, i as int, text::views(para@)) == blocks_from(
                all,
                0,
                Seq::empty(),
            ),
        decreases ls@.len() - i,
    {
        let ghost before = models(out@);
        let ghost open = text::views(para@);
        let line = ls[i].as_slice();
        assert(all[i as int] == line@);
        if line_is_fence(line) {
            flush_paragraph(&para, &mut out);
            let ghost flushed = out@;
            let (body, e) = fenced_lines(&ls, i + 1);
            let joined = join(&body, "\n");
            let mut b = Block::default();
            b.is_code = true;
            b.body = string_of(joined.as_slice());
            out.push(b);
            para = Vec::new();
            let next: usize = if e < ls.len() {
                e + 1
            } else {
                e
            };
            proof {
                assert(text::views(para@) =~= Seq::<Seq<char>>::empty());
                assert(models(out@) =~= models(flushed).push(b@));
                assert(models(out@) + blocks_from(all, next as int, Seq::empty()) =~= before + (
                paragraph_blocks(open) + seq![b@] + blocks_from(all, next as int, Seq::empty())));
            }
            i = next;
        } else {
            match line_block(line) {
                Some(b) => {
                    flush_paragraph(&para, &mut out);
                    let ghost flushed = out@;
                    out.push(b);
                    para = Vec::new();
                    proof {
                        assert(text::views(para@) =~= Seq::<Seq<char>>::empty());
                        assert(models(out@) =~= models(flushed).push(b@));
                        assert(models(out@) + blocks_from(all, i + 1, Seq::empty()) =~= before + (
                        paragraph_blocks(open) + seq![b@] + blocks_from(all, i + 1, Seq::empty())));
                    }
                },
                None => {
                    if trim(line).len() == 0 {
                        flush_paragraph(&para, &mut out);
                        para = Vec::new();
                        proof {
                            assert(text::views(para@) =~= Seq::<Seq<char>>::empty());
                            assert(models(out@) + blocks_from(all, i + 1, Seq::empty()) =~= before
                                + (paragraph_blocks(open) + blocks_from(all, i + 1, Seq::empty())));
                        }
                    } else {
                        let l = copy_range(line, 0, line.len());
                        assert(l@ =~= line@);
                        let ghost prev = para@;
                        para.push(l);
                        assert(text::views(para@) =~= text::views(prev).push(line@));
                    }
                },
            }
            i += 1;
        }
    }
    flush_paragraph(&para, &mut out);
    if out.len() == 0 {
        out.push(plain_block(trim(chars.as_slice())));
        assert(models(out@) =~= seq![plain(text::trim_spec(s@))]);
    }
    out
}

/// Splits a text into blocks, one for each paragraph, header, bullet and
/// stretch of fenced code. There is always at least one.
pub fn parse(s: &str) -> (out: Vec<Block>)
    ensures
        models(out@) == coalesced(run_blocks(s@)),
        out@.len() > 0,
{
    let runs = parse_runs(s);
    let ghost all = models(runs@);
    let mut out: Vec<Block> = Vec::new();
    let mut i: usize = 0;
    assert(all.take(0) =~= Seq::<BlockModel>::empty());
    assert(models(out@) =~= Seq::<BlockModel>::empty());
    while i < runs.len()
        invariant
            i <= runs@.len(),
            all == models(runs@),
            models(out@) == coalesced(all.take(i as int)),
            i > 0 ==> out@.len() > 0,
        decreases runs@.len() - i,
    {
        let ghost now = all.take(i + 1);
        let ghost before = out@;
        assert(now.drop_last() =~= all.take(i as int));
        assert(now.last() == runs@[i as int]@);
        let r = &runs[i];
        let n: usize = out.len();
        if r.continues_prev && n > 0 {
            let mut body = out[n - 1].body.clone();
            body.push_str(r.body.as_str());
            let b = Block {
                body,
                header_rank: out[n - 1].header_rank,
                is_code: out[n - 1].is_code && r.is_code,
                is_bullet: out[n - 1].is_bullet,
                is_bold: out[n - 1].is_bold && r.is_bold,
                continues_prev: out[n - 1].continues_prev,
            };
            out[n - 1] = b;
            assert(models(out@) =~= models(before).drop_last().push(
                merged(models(before).last(), now.last()),
            ));
        } else {
            let b = Block {
                body: r.body.clone(),
                header_rank: r.header_rank,
                is_code: r.is_code,
                is_bullet: r.is_bullet,
                is_bold: r.is_bold,
                continues_prev: r.continues_prev,
            };
            out.push(b);
            assert(b@ == now.last());
            assert(models(out@) =~= models(before).push(now.last()));
        }
        i += 1;
    }
    assert(all.take(i as int) =~= all);
    out
}

/// All the text of a sequence of blocks.
pub open spec fn bodies(b: Seq<BlockModel>) -> Seq<char>
    decreases b.len(),
{
    if b.len() == 0 {
        Seq::empty()
    } else {
        bodies(b.drop_last()) + b.last().body
    }
}

/// Merging runs into paragraphs keeps every character, in order.
pub proof fn law_coalescing_keeps_text(b: Seq<BlockModel>)
    ensures
        bodies(coalesced(b)) == bodies(b),
    decreases b.len(),
{
    if b.len() > 0 {
        law_coalescing_keeps_text(b.drop_last());
        let r = coalesced(b.drop_last());
        let c = coalesced(b);
        if b.last().continues_prev && r.len() > 0 {
            assert(c.drop_last() =~= r.drop_last());
            assert(c.last() == merged(r.last(), b.last()));
            assert(bodies(c) =~= bodies(r) + b.last().body);
        } else {
            assert(c.drop_last() =~= r);
        }
    }
}

/// The first block of a text never continues another.
proof fn lemma_first_block(lines: Seq<Seq<char>>, i: int, para: Seq<Seq<char>>)
    requires
        0 <= i,
    ensures
        ({
            let b = blocks_from(lines, i, para);
            b.len() > 0 ==> !b[0].continues_prev
        }),
    decreases lines.len() - i,
{
    let p = paragraph_blocks(para);
    assert(p.len() > 0 ==> !p[0].continues_prev);
    if i < lines.len() {
        if is_fence(lines[i]) {
            lemma_fence_from(lines, i + 1);
        } else if marked_line(lines[i]) is Some {
        } else if text::trim_spec(lines[i]).len() == 0 {
            lemma_first_block(lines, i + 1, Seq::empty());
            let rest = blocks_from(lines, i + 1, Seq::empty());
            if p.len() == 0 {
                assert(p + rest =~= rest);
            }
        } else {
            lemma_first_block(lines, i + 1, para.push(lines[i]));
        }
    }
}

proof fn lemma_coalesced_heads(b: Seq<BlockModel>)
    requires
        b.len() > 0 ==> !b[0].continues_prev,
    ensures
        b.len() > 0 ==> coalesced(b).len() > 0,
        forall|k: int| 0 <= k < coalesced(b).len() ==> !(#[trigger] coalesced(b)[k]).continues_prev,
    decreases b.len(),
{
    if b.len() > 0 {
        lemma_coalesced_heads(b.drop_last());
        if b.len() == 1 {
            assert(coalesced(b.drop_last()).len() == 0);
        }
    }
}

/// No block that `parse` returns continues another: every paragraph is whole.
pub proof fn law_parsed_blocks_stand_alone(s: Seq<char>)
    ensures
        forall|k: int|
            0 <= k < coalesced(run_blocks(s)).len() ==> !(#[trigger] coalesced(
                run_blocks(s),
            )[k]).continues_prev,
{
    lemma_first_block(text::lines_spec(s), 0, Seq::empty());
    lemma_coalesced_heads(run_blocks(s));
}

/// How many of `lines` from `i` on open or close fenced code.
pub open spec fn fences_from(lines: Seq<Seq<char>>, i: int) -> int
    decreases lines.len() - i,
{
    if i < 0 || i >= lines.len() {
        0
    } else if is_fence(lines[i]) {
        1 + fences_from(lines, i + 1)
    } else {
        fences_from(lines, i + 1)
    }
}

/// The count of fences from the next one on.
proof fn lemma_fences_skip(lines: Seq<Seq<char>>, i: int)
    requires
        0 <= i <= lines.len(),
    ensures
        ({
            let e = fence_from(lines, i);
            &&& e < lines.len() ==> fences_from(lines, i) == 1 + fences_from(lines, e + 1)
            &&& e == lines.len() ==> fences_from(lines, i) == 0
        }),
    decreases lines.len() - i,
{
    if i < lines.len() && !is_fence(lines[i]) {
        lemma_fences_skip(lines, i + 1);
    }
}

proof fn lemma_fence_before(a: Seq<Seq<char>>, b: Seq<Seq<char>>, i: int)
    requires
        0 <= i <= a.len(),
        fence_from(a, i) < a.len(),
    ensures
        fence_from(a + b, i) == fence_from(a, i),
    decreases a.len() - i,
{
    if i < a.len() {
        assert((a + b)[i] == a[i]);
        if !is_fence(a[i]) {
            lemma_fence_before(a, b, i + 1);
        }
    }
}

proof fn lemma_fence_after(a: Seq<Seq<char>>, b: Seq<Seq<char>>, i: int)
    requires
        0 <= i <= b.len(),
    ensures
        fence_from(a + b, a.len() + i) == a.len() + fence_from(b, i),
    decreases b.len() - i,
{
    if i < b.len() {
        assert((a + b)[a.len() + i] == b[i]);
        if !is_fence(b[i]) {
            lemma_fence_after(a, b, i + 1);
        }
    }
}

/// What precedes the lines of a text does not matter.
proof fn lemma_blocks_after(
    a: Seq<Seq<char>>,
    b: Seq<Seq<char>>,
    i: int,
    para: Seq<Seq<char>>,
)
    requires
        0 <= i <= b.len(),
    ensures
        blocks_from(a + b, a.len() + i, para) == blocks_from(b, i, para),
    decreases b.len() - i,
{
    let s = a + b;
    if i < b.len() {
        assert(s[a.len() + i] == b[i]);
        if is_fence(b[i]) {
            lemma_fence_after(a, b, i + 1);
            lemma_fence_from(b, i + 1);
            let e = fence_from(b, i + 1);
            assert(s.subrange(a.len() + i + 1, a.len() + e) =~= b.subrange(i + 1, e));
            lemma_blocks_after(a, b, after_fence(b, e), Seq::empty());
        } else if marked_line(b[i]) is Some || text::trim_spec(b[i]).len() == 0 {
            lemma_blocks_after(a, b, i + 1, Seq::empty());
        } else {
            lemma_blocks_after(a, b, i + 1, para.push(b[i]));
        }
    }
}

proof fn lemma_blank_line()
    ensures
        !is_fence(Seq::empty()),
        marked_line(Seq::empty()) is None,
        text::trim_spec(Seq::empty()).len() == 0,
{
    reveal_strlit("```");
    reveal_strlit("### ");
    reveal_strlit("## ");
    reveal_strlit("# ");
    reveal_strlit("- ");
    reveal_strlit("* ");
}

/// A blank line after which no code is open parts the lines before it from
/// those after it.
proof fn lemma_blocks_part(a: Seq<Seq<char>>, b: Seq<Seq<char>>, i: int, para: Seq<Seq<char>>)
    requires
        0 <= i <= a.len(),
        fences_from(a, i) % 2 == 0,
    ensures
        blocks_from(a.push(Seq::empty()) + b, i, para) == blocks_from(a, i, para) + blocks_from(
            b,
            0,
            Seq::empty(),
        ),
    decreases a.len() - i,
{
    let cut = a.push(Seq::empty());
    let s = cut + b;
    let tail = blocks_from(b, 0, Seq::empty());
    let p = paragraph_blocks(para);
    if i == a.len() {
        lemma_blank_line();
        assert(s[i] =~= Seq::<char>::empty());
        lemma_blocks_after(cut, b, 0, Seq::empty());
    } else {
        assert(s[i] == a[i]);
        if is_fence(a[i]) {
            lemma_fences_skip(a, i + 1);
            lemma_fence_from(a, i + 1);
            let e = fence_from(a, i + 1);
            let rest = seq![Seq::<char>::empty()] + b;
            assert(s =~= a + rest);
            lemma_fence_before(a, rest, i + 1);
            assert(s.subrange(i + 1, e) =~= a.subrange(i + 1, e));
            lemma_blocks_part(a, b, e + 1, Seq::empty());
            let head = p + seq![code(text::join_spec(a.subrange(i + 1, e), "\n"@))];
            assert(head + (blocks_from(a, e + 1, Seq::empty()) + tail) =~= head + blocks_from(
                a,
                e + 1,
                Seq::empty(),
            ) + tail);
        } else if marked_line(a[i]) is Some {
            lemma_blocks_part(a, b, i + 1, Seq::empty());
            let head = p + seq![marked_line(a[i])->0];
            assert(head + (blocks_from(a, i + 1, Seq::empty()) + tail) =~= head + blocks_from(
                a,
                i + 1,
                Seq::empty(),
            ) + tail);
        } else if text::trim_spec(a[i]).len() == 0 {
            lemma_blocks_part(a, b, i + 1, Seq::empty());
            assert(p + (blocks_from(a, i + 1, Seq::empty()) + tail) =~= p + blocks_from(
                a,
                i + 1,
                Seq::empty(),
            ) + tail);
        } else {
            lemma_blocks_part(a, b, i + 1, para.push(a[i]));
        }
    }
}

/// Lines that hold something are at least one block.
proof fn lemma_ink_is_a_block(lines: Seq<Seq<char>>, i: int, para: Seq<Seq<char>>, j: int)
    requires
        0 <= i,
        text::holds_ink(text::join_spec(para, "\n"@)) || (i <= j < lines.len()
            && text::holds_ink(lines[j])),
    ensures
        blocks_from(lines, i, para).len() > 0,
    decreases lines.len() - i,
{
    let joined = text::join_spec(para, "\n"@);
    text::lemma_trim_of_ink(joined);
    if i < lines.len() && !is_fence(lines[i]) && marked_line(lines[i]) is None {
        text::lemma_trim_of_ink(lines[i]);
        if text::trim_spec(lines[i]).len() == 0 {
            if !text::holds_ink(joined) {
                lemma_ink_is_a_block(lines, i + 1, Seq::empty(), j);
            }
        } else {
            let more = para.push(lines[i]);
            let k = choose|k: int|
                0 <= k < lines[i].len() && !text::is_space_spec(#[trigger] lines[i][k]);
            let all = text::join_spec(more, "\n"@);
            assert(more.drop_last() =~= para);
            assert(all[all.len() - lines[i].len() + k] == lines[i][k]);
            lemma_ink_is_a_block(lines, i + 1, more, j);
        }
    }
}

proof fn lemma_coalesced_concat(x: Seq<BlockModel>, y: Seq<BlockModel>)
    requires
        y.len() > 0 ==> !y[0].continues_prev,
    ensures
        coalesced(x + y) == coalesced(x) + coalesced(y),
    decreases y.len(),
{
    if y.len() == 0 {
        assert(x + y =~= x);
        assert(coalesced(x) + coalesced(y) =~= coalesced(x));
    } else {
        let init = y.drop_last();
        lemma_coalesced_concat(x, init);
        lemma_coalesced_heads(init);
        assert((x + y).drop_last() =~= x + init);
        assert((x + y).last() == y.last());
        let cx = coalesced(x);
        let cy = coalesced(init);
        if y.len() > 1 && y.last().continues_prev {
            assert((cx + cy).last() == cy.last());
            assert((cx + cy).drop_last() =~= cx + cy.drop_last());
            assert((cx + cy.drop_last()).push(merged(cy.last(), y.last())) =~= cx
                + cy.drop_last().push(merged(cy.last(), y.last())));
        } else {
            assert(y.len() == 1 ==> y.last() == y[0]);
            assert((cx + cy).push(y.last()) =~= cx + cy.push(y.last()));
        }
    }
}

/// A blank line parts a document: of two texts that hold something, the first
/// of which leaves no code open, the blocks of the first come first and those
/// of the second follow.
pub proof fn law_blank_line_parts_blocks(a: Seq<char>, b: Seq<char>)
    requires
        text::holds_ink(a),
        text::holds_ink(b),
        a.last() != '\r',
        fences_from(text::lines_spec(a), 0) % 2 == 0,
    ensures
        run_blocks(a + "\n\n"@ + b) == run_blocks(a) + run_blocks(b),
        coalesced(run_blocks(a + "\n\n"@ + b)) == coalesced(run_blocks(a)) + coalesced(
            run_blocks(b),
        ),
{
    reveal_strlit("\n\n");
    let none = Seq::<char>::empty();
    let la = text::lines_spec(a);
    let lb = text::lines_spec(b);
    let s = a + "\n\n"@ + b;
    let fed = none.push('\n') + b;
    assert(s =~= a.push('\n') + fed);
    text::lemma_lines_concat(a, fed);
    text::lemma_lines_concat(none, b);
    text::lemma_lines_final_break(a);
    text::lemma_lines_final_break(none);
    let blank = Seq::<Seq<char>>::empty().push(none);
    assert(text::lines_spec(none) =~= Seq::<Seq<char>>::empty());
    assert(text::lines_spec(fed) == blank + lb);
    let ba = blocks_from(la, 0, Seq::empty());
    let bb = blocks_from(lb, 0, Seq::empty());
    assert(blocks_from(text::lines_spec(s), 0, Seq::empty()) =~= ba + bb) by {
        if a.last() == '\n' {
            assert(text::lines_spec(s) =~= la.push(none) + (blank + lb));
            lemma_blocks_part(la, blank + lb, 0, Seq::empty());
            lemma_blocks_part(Seq::empty(), lb, 0, Seq::empty());
            assert(paragraph_blocks(Seq::empty()) =~= Seq::<BlockModel>::empty());
            assert(blocks_from(Seq::empty(), 0, Seq::empty()) + bb =~= bb);
        } else {
            assert(text::lines_spec(s) =~= la.push(none) + lb);
            lemma_blocks_part(la, lb, 0, Seq::empty());
        }
    }
    let i = text::lemma_lines_hold_ink(a);
    let j = text::lemma_lines_hold_ink(b);
    lemma_ink_is_a_block(la, 0, Seq::empty(), i);
    lemma_ink_is_a_block(lb, 0, Seq::empty(), j);
    lemma_first_block(lb, 0, Seq::empty());
    lemma_coalesced_concat(ba, bb);
}

proof fn lemma_no_fence(lines: Seq<Seq<char>>, i: int, n: int)
    requires
        0 <= i <= n <= lines.len(),
        forall|k: int| i <= k < n ==> !is_fence(#[trigger] lines[k]),
        n < lines.len() ==> is_fence(lines[n]),
    ensures
        fence_from(lines, i) == n,
    decreases n - i,
{
    if i < n {
        lemma_no_fence(lines, i + 1, n);
    }
}

/// Fenced code is kept as it stands, whatever the language after the fence; one
/// that is never closed runs to the end of the text.
pub proof fn law_fenced_code_is_verbatim(lang: Seq<char>, ls: Seq<Seq<char>>)
    requires
        text::is_line(lang),
        ls.len() > 0,
        forall|i: int| 0 <= i < ls.len() ==> text::is_line(#[trigger] ls[i]) && !is_fence(ls[i]),
    ensures
        ({
            let body = text::join_spec(ls, "\n"@);
            let open = "```"@ + lang + "\n"@ + body;
            let whole = seq![
                BlockModel {
                    body,
                    header_rank: 0,
                    is_code: true,
                    is_bullet: false,
                    is_bold: false,
                    continues_prev: false,
                },
            ];
            &&& run_blocks(open + "\n```"@) == whole
            &&& coalesced(run_blocks(open + "\n```"@)) == whole
            &&& ls.last().len() > 0 ==> run_blocks(open) == whole && coalesced(run_blocks(open))
                == whole
        }),
{
    reveal_strlit("```");
    reveal_strlit("\n");
    reveal_strlit("\n```");
    let body = text::join_spec(ls, "\n"@);
    let fence = "```"@ + lang;
    let open = "```"@ + lang + "\n"@ + body;
    assert(fence.last() == if lang.len() > 0 {
        lang.last()
    } else {
        '`'
    });
    assert(is_fence(fence)) by {
        assert(fence[0] == '`');
        assert("```"@ =~= fence.subrange(0, 3));
    }
    let first = seq![fence];
    text::lemma_lines_of_text(first);
    assert(text::join_spec(first, "\n"@) == fence);
    // The closed form.
    let closed = ls.push("```"@);
    assert(closed.drop_last() =~= ls);
    assert(open + "\n```"@ =~= fence.push('\n') + text::join_spec(closed, "\n"@));
    assert forall|i: int| 0 <= i < closed.len() implies text::is_line(#[trigger] closed[i]) by {
        if i < ls.len() {
            assert(closed[i] == ls[i]);
        }
    }
    text::lemma_lines_of_text(closed);
    text::lemma_lines_concat(fence, text::join_spec(closed, "\n"@));
    let all = first + closed;
    assert forall|k: int| 1 <= k <= ls.len() implies !is_fence(#[trigger] all[k]) by {
        assert(all[k] == ls[k - 1]);
    }
    assert(is_fence("```"@)) by {
        assert("```"@ =~= "```"@.subrange(0, 3));
    }
    lemma_no_fence(all, 1, ls.len() as int + 1);
    assert(all.subrange(1, ls.len() as int + 1) =~= ls);
    lemma_one_code_block(all, ls);
    // The form that is never closed.
    if ls.last().len() > 0 {
        text::lemma_lines_of_text(ls);
        assert(open =~= fence.push('\n') + body);
        text::lemma_lines_concat(fence, body);
        let all = first + ls;
        assert forall|k: int| 1 <= k <= ls.len() implies !is_fence(#[trigger] all[k]) by {
            assert(all[k] == ls[k - 1]);
        }
        lemma_no_fence(all, 1, ls.len() as int + 1);
        assert(all.subrange(1, ls.len() as int + 1) =~= ls);
        lemma_one_code_block(all, ls);
    }
}

proof fn lemma_one_code_block(all: Seq<Seq<char>>, ls: Seq<Seq<char>>)
    requires
        ls.len() < all.len() <= ls.len() + 2,
        is_fence(all[0]),
        all.subrange(1, ls.len() as int + 1) == ls,
        fence_from(all, 1) == ls.len() + 1,
    ensures
        blocks_from(all, 0, Seq::empty()) == seq![code(text::join_spec(ls, "\n"@))],
        coalesced(seq![code(text::join_spec(ls, "\n"@))]) == seq![
            code(text::join_spec(ls, "\n"@)),
        ],
{
    let b = seq![code(text::join_spec(ls, "\n"@))];
    assert(paragraph_blocks(Seq::empty()) =~= Seq::<BlockModel>::empty());
    assert(blocks_from(all, after_fence(all, ls.len() as int + 1), Seq::empty()) =~= Seq::<
        BlockModel,
    >::empty());
    assert(Seq::<BlockModel>::empty() + b + Seq::<BlockModel>::empty() =~= b);
    assert(b.drop_last() =~= Seq::<BlockModel>::empty());
    assert(coalesced(b) =~= b) by {
        reveal_with_fuel(coalesced, 2);
    }
}

/// Whether no inline marker starts anywhere in `s`.
pub open spec fn unmarked(s: Seq<char>) -> bool {
    forall|k: int| 0 <= k < s.len() ==> (#[trigger] marked_at(s, k)) is None
}

proof fn lemma_unmarked_runs(s: Seq<char>, i: int)
    requires
        unmarked(s),
        0 <= i <= s.len(),
    ensures
        runs_from(s, i, s.take(i)) == nonempty(plain(s)),
    decreases s.len() - i,
{
    if i < s.len() {
        assert(marked_at(s, i) is None);
        assert(s.take(i).push(s[i]) =~= s.take(i + 1));
        lemma_unmarked_runs(s, i + 1);
    } else {
        assert(s.take(i) =~= s);
    }
}

/// A paragraph without markers is a single plain run that holds it unchanged.
pub proof fn law_unmarked_text_is_one_run(s: Seq<char>)
    requires
        unmarked(s),
    ensures
        inline_runs(s) == seq![plain(s)],
{
    assert(s.take(0) =~= Seq::<char>::empty());
    lemma_unmarked_runs(s, 0);
}

/// Two asterisks that no others close are part of the text: a paragraph that
/// holds these two alone, and starts neither code nor a link, is one plain run
/// with them in it.
pub proof fn law_unmatched_asterisks_are_text(a: Seq<char>, b: Seq<char>)
    requires
        forall|k: int| 0 <= k < a.len() ==> a[k] != '*' && a[k] != '`' && a[k] != '[',
        forall|k: int| 0 <= k < b.len() ==> b[k] != '*' && b[k] != '`' && b[k] != '[',
    ensures
        inline_runs(a + "**"@ + b) == seq![plain(a + "**"@ + b)],
{
    reveal_strlit("**");
    let s = a + "**"@ + b;
    let n = a.len() as int;
    assert forall|k: int| 0 <= k < s.len() implies (#[trigger] marked_at(s, k)) is None by {
        if k < n {
            assert(s[k] == a[k]);
        } else if k == n {
            lemma_no_bold_end(s, n + 2);
        } else if k == n + 1 {
            if k + 1 < s.len() {
                assert(s[k + 1] == b[0]);
            }
        } else {
            assert(s[k] == b[k - n - 2]);
        }
    }
    law_unmarked_text_is_one_run(s);
}

proof fn lemma_no_bold_end(s: Seq<char>, i: int)
    requires
        0 <= i,
        forall|k: int| i <= k < s.len() ==> s[k] != '*',
    ensures
        bold_end(s, i) == s.len(),
    decreases s.len() - i,
{
    if i < s.len() {
        lemma_no_bold_end(s, i + 1);
    }
}

proof fn lemma_stripped_is_filter(s: Seq<char>, i: int)
    requires
        0 <= i <= s.len(),
        forall|k: int| 0 <= k < s.len() ==> s[k] != '[',
    ensures
        stripped_from(s, i) == s.skip(i).filter(|c: char| c != '*' && c != '`'),
    decreases s.len() - i,
{
    reveal(Seq::filter);
    let p = |c: char| c != '*' && c != '`';
    if i < s.len() {
        lemma_stripped_is_filter(s, i + 1);
        assert(s.skip(i) =~= seq![s[i]] + s.skip(i + 1));
        s.skip(i + 1).lemma_filter_prepend(s[i], p);
    } else {
        assert(s.skip(i) =~= Seq::<char>::empty());
    }
}

/// Where no link occurs, stripping emphasis removes the asterisks and the
/// backquotes and nothing else.
pub proof fn law_stripping_removes_only_markers(s: Seq<char>)
    requires
        forall|k: int| 0 <= k < s.len() ==> s[k] != '[',
    ensures
        stripped_from(s, 0) == s.filter(|c: char| c != '*' && c != '`'),
{
    lemma_stripped_is_filter(s, 0);
    assert(s.skip(0) =~= s);
}

/// Whether `s` holds no line feed, and no asterisk, backquote or bracket that
/// could start an inline marker.
pub open spec fn is_prose(s: Seq<char>) -> bool {
    forall|k: int|
        0 <= k < s.len() ==> s[k] != '\n' && s[k] != '*' && s[k] != '`' && s[k] != '['
}

/// A block in full: its text, and each of its styles.
pub open spec fn block_of(
    body: Seq<char>,
    header_rank: int,
    is_code: bool,
    is_bullet: bool,
    is_bold: bool,
    continues_prev: bool,
) -> BlockModel {
    BlockModel { body, header_rank, is_code, is_bullet, is_bold, continues_prev }
}

proof fn lemma_one_line(s: Seq<char>)
    requires
        s.len() > 0,
        forall|k: int| 0 <= k < s.len() ==> s[k] != '\n',
    ensures
        text::lines_spec(s) == seq![s],
{
    text::lemma_index_is(s, '\n', s.len() as int);
}

/// The blocks of a single line are those of the line, and nothing more.
proof fn lemma_line_blocks(s: Seq<char>)
    requires
        s.len() > 0,
        forall|k: int| 0 <= k < s.len() ==> s[k] != '\n',
        !is_fence(s),
    ensures
        marked_line(s) is Some ==> run_blocks(s) == seq![marked_line(s)->0],
        marked_line(s) is None && text::trim_spec(s).len() > 0 ==> run_blocks(s)
            == paragraph_blocks(seq![s]),
{
    lemma_one_line(s);
    reveal_with_fuel(blocks_from, 2);
    let none = Seq::<Seq<char>>::empty();
    let ls = seq![s];
    assert(paragraph_blocks(none) =~= Seq::<BlockModel>::empty()) by {
        assert(text::join_spec(none, "\n"@) =~= Seq::<char>::empty());
    }
    if marked_line(s) is Some {
        assert(blocks_from(ls, 0, none) =~= seq![marked_line(s)->0]);
    } else if text::trim_spec(s).len() > 0 {
        assert(none.push(s) =~= seq![s]);
        assert(blocks_from(ls, 0, none) == paragraph_blocks(seq![s]));
        assert(text::join_spec(seq![s], "\n"@) == s);
    }
}

proof fn lemma_coalesced_one(b: BlockModel)
    ensures
        coalesced(seq![b]) == seq![b],
{
    let s = seq![b];
    assert(s.drop_last() =~= Seq::<BlockModel>::empty());
    assert(coalesced(s.drop_last()) =~= Seq::<BlockModel>::empty());
    assert(coalesced(s) =~= s);
}

proof fn lemma_trimmed(s: Seq<char>)
    requires
        s.len() > 0,
        !text::is_space_spec(s[0]),
        !text::is_space_spec(s.last()),
    ensures
        text::trim_start_spec(s) == s,
        text::trim_spec(s) == s,
{
}

proof fn lemma_prose_run(s: Seq<char>)
    requires
        is_prose(s),
        s.len() > 0,
    ensures
        inline_runs(s) == seq![plain(s)],
{
    assert forall|k: int| 0 <= k < s.len() implies (#[trigger] marked_at(s, k)) is None by {
        assert(s[k] != '*' && s[k] != '`' && s[k] != '[');
    }
    law_unmarked_text_is_one_run(s);
}

/// A paragraph between double asterisks is one bold block that holds what is
/// between them, and none of the asterisks.
pub proof fn law_bold_paragraph(s: Seq<char>)
    requires
        is_prose(s),
        s.len() > 0,
        !text::is_space_spec(s[0]),
        !text::is_space_spec(s.last()),
    ensures
        coalesced(run_blocks("**"@ + s + "**"@)) == seq![
            block_of(s, 0, false, false, true, false),
        ],
        run_blocks("**"@ + s + "**"@) == seq![block_of(s, 0, false, false, true, false)],
{
    reveal_strlit("**");
    reveal_strlit("```");
    reveal_strlit("### ");
    reveal_strlit("## ");
    reveal_strlit("# ");
    reveal_strlit("- ");
    reveal_strlit("* ");
    let t = "**"@ + s + "**"@;
    assert(t[0] == '*' && t[1] == '*');
    assert(t.last() == '*');
    assert forall|k: int| 0 <= k < t.len() implies t[k] != '\n' by {
        if 2 <= k < 2 + s.len() {
            assert(t[k] == s[k - 2]);
        }
    }
    lemma_trimmed(t);
    lemma_not_marked(t);
    lemma_line_blocks(t);
    assert(text::join_spec(seq![t], "\n"@) == t);
    assert(whole_bold(t)) by {
        assert("**"@ =~= t.subrange(0, 2));
        assert("**"@ =~= t.subrange(t.len() - 2, t.len() as int));
    }
    assert(t.subrange(2, t.len() - 2) =~= s);
    lemma_prose_run(s);
    assert(paragraph_blocks(seq![t]) =~= seq![block_of(s, 0, false, false, true, false)]);
    lemma_coalesced_one(block_of(s, 0, false, false, true, false));
}

/// A line that starts otherwise than with a marker has none.
proof fn lemma_not_marked(t: Seq<char>)
    requires
        t.len() > 0,
        !text::is_space_spec(t[0]),
        t[0] != '#',
        t[0] != '-',
        t[0] != '`',
        t[0] == '*' ==> t.len() > 1 && t[1] != ' ',
    ensures
        !is_fence(t),
        marked_line(t) is None,
{
    reveal_strlit("```");
    reveal_strlit("### ");
    reveal_strlit("## ");
    reveal_strlit("# ");
    reveal_strlit("- ");
    reveal_strlit("* ");
    assert(text::trim_start_spec(t) == t);
    assert(forall|p: Seq<char>| #[trigger] p.is_prefix_of(t) && p.len() > 0 ==> p[0] == t[0]);
    if "* "@.is_prefix_of(t) {
        assert("* "@[1] == t[1]);
    }
}

/// A line of text without markers is one plain block that holds it.
pub proof fn law_plain_paragraph(s: Seq<char>)
    requires
        is_prose(s),
        s.len() > 0,
        !text::is_space_spec(s[0]),
        !text::is_space_spec(s.last()),
        s[0] != '#',
        s[0] != '-',
    ensures
        run_blocks(s) == seq![block_of(s, 0, false, false, false, false)],
        coalesced(run_blocks(s)) == seq![block_of(s, 0, false, false, false, false)],
{
    lemma_trimmed(s);
    lemma_not_marked(s);
    lemma_line_blocks(s);
    lemma_prose_paragraph(s);
    lemma_coalesced_one(block_of(s, 0, false, false, false, false));
}

proof fn lemma_prose_paragraph(s: Seq<char>)
    requires
        s.len() > 0,
        forall|k: int| 0 <= k < s.len() ==> s[k] != '*' && s[k] != '`' && s[k] != '[',
        !text::is_space_spec(s[0]),
        !text::is_space_spec(s.last()),
    ensures
        paragraph_blocks(seq![s]) == seq![block_of(s, 0, false, false, false, false)],
{
    reveal_strlit("**");
    lemma_trimmed(s);
    assert(text::join_spec(seq![s], "\n"@) == s);
    if whole_bold(s) {
        assert("**"@[0] == s[0]);
    }
    assert forall|k: int| 0 <= k < s.len() implies (#[trigger] marked_at(s, k)) is None by {
        assert(s[k] != '*' && s[k] != '`' && s[k] != '[');
    }
    law_unmarked_text_is_one_run(s);
    assert(paragraph_blocks(seq![s]) =~= seq![block_of(s, 0, false, false, false, false)]);
}

/// The lines of a paragraph stay together, with the line feeds between them.
pub proof fn law_lines_make_a_paragraph(a: Seq<char>, b: Seq<char>)
    requires
        is_prose(a),
        is_prose(b),
        a.len() > 0,
        b.len() > 0,
        !text::is_space_spec(a[0]),
        !text::is_space_spec(a.last()),
        !text::is_space_spec(b[0]),
        !text::is_space_spec(b.last()),
        a[0] != '#' && a[0] != '-' && b[0] != '#' && b[0] != '-',
    ensures
        run_blocks(a + "\n"@ + b) == seq![
            block_of(a + "\n"@ + b, 0, false, false, false, false),
        ],
{
    reveal_strlit("\n");
    let s = a + "\n"@ + b;
    let ls = seq![a, b];
    assert(a.last() == a[a.len() - 1]);
    assert(b.last() == b[b.len() - 1]);
    text::lemma_lines_of_text(ls);
    assert(ls.drop_last() =~= seq![a]);
    assert(text::join_spec(seq![a], "\n"@) == a);
    assert(text::join_spec(ls, "\n"@) == s);
    lemma_trimmed(a);
    lemma_trimmed(b);
    lemma_not_marked(a);
    lemma_not_marked(b);
    reveal_with_fuel(blocks_from, 3);
    let none = Seq::<Seq<char>>::empty();
    assert(none.push(a).push(b) =~= ls);
    assert(blocks_from(ls, 0, none) == paragraph_blocks(ls));
    assert(s.last() == b.last());
    assert forall|k: int| 0 <= k < s.len() implies s[k] != '*' && s[k] != '`' && s[k] != '[' by {
        if k < a.len() {
            assert(s[k] == a[k]);
        } else if k > a.len() {
            assert(s[k] == b[k - a.len() - 1]);
        }
    }
    lemma_prose_paragraph(s);
    assert(text::join_spec(seq![s], "\n"@) == s);
    assert(paragraph_blocks(ls) == paragraph_blocks(seq![s]));
}

proof fn lemma_stripped_prose(s: Seq<char>)
    requires
        is_prose(s),
    ensures
        stripped_from(s, 0) == s,
{
    law_stripping_removes_only_markers(s);
    let p = |c: char| c != '*' && c != '`';
    text::lemma_filter_all(s, p);
}

/// One, two or three hashes and a space make a header of that rank, and a
/// hyphen or an asterisk and a space make a bullet: the block holds the rest of
/// the line, and has no other style.
pub proof fn law_headers_and_bullets(x: Seq<char>)
    requires
        is_prose(x),
    ensures
        run_blocks("# "@ + x) == seq![block_of(x, 1, false, false, false, false)],
        run_blocks("## "@ + x) == seq![block_of(x, 2, false, false, false, false)],
        run_blocks("### "@ + x) == seq![block_of(x, 3, false, false, false, false)],
        run_blocks("- "@ + x) == seq![block_of(x, 0, false, true, false, false)],
        run_blocks("* "@ + x) == seq![block_of(x, 0, false, true, false, false)],
        forall|b: BlockModel| #[trigger] coalesced(seq![b]) == seq![b],
{
    reveal_strlit("### ");
    reveal_strlit("## ");
    reveal_strlit("# ");
    reveal_strlit("- ");
    reveal_strlit("* ");
    lemma_marker_line("# "@, x);
    lemma_marker_line("## "@, x);
    lemma_marker_line("### "@, x);
    lemma_marker_line("- "@, x);
    lemma_marker_line("* "@, x);
    let a = "# "@ + x;
    assert(a[1] == ' ');
    let b = "## "@ + x;
    assert(b[1] == '#' && b[2] == ' ');
    let c = "### "@ + x;
    assert(c[1] == '#' && c[2] == '#');
    assert forall|b: BlockModel| #[trigger] coalesced(seq![b]) == seq![b] by {
        lemma_coalesced_one(b);
    }
}

proof fn lemma_marker_line(mark: Seq<char>, x: Seq<char>)
    requires
        is_prose(x),
        mark == "# "@ || mark == "## "@ || mark == "### "@ || mark == "- "@ || mark == "* "@,
    ensures
        run_blocks(mark + x) == seq![
            block_of(
                x,
                if mark == "# "@ {
                    1int
                } else if mark == "## "@ {
                    2int
                } else if mark == "### "@ {
                    3int
                } else {
                    0int
                },
                false,
                mark == "- "@ || mark == "* "@,
                false,
                false,
            ),
        ],
{
    reveal_strlit("```");
    reveal_strlit("### ");
    reveal_strlit("## ");
    reveal_strlit("# ");
    reveal_strlit("- ");
    reveal_strlit("* ");
    let t = mark + x;
    let n = mark.len() as int;
    assert(t[0] == mark[0]);
    assert(text::trim_start_spec(t) == t);
    assert(!is_fence(t)) by {
        if "```"@.is_prefix_of(t) {
            assert("```"@[0] == t[0]);
        }
    }
    assert(mark.is_prefix_of(t)) by {
        assert(mark =~= t.subrange(0, n));
    }
    if "### "@.is_prefix_of(t) {
        assert("### "@[1] == t[1] && "### "@[2] == t[2]);
    }
    if "## "@.is_prefix_of(t) {
        assert("## "@[1] == t[1] && "## "@[2] == t[2]);
    }
    if "# "@.is_prefix_of(t) {
        assert("# "@[0] == t[0] && "# "@[1] == t[1]);
    }
    assert(t[1] == mark[1]);
    if n > 2 {
        assert(t[2] == mark[2]);
    }
    assert(t.skip(n) =~= x);
    lemma_stripped_prose(x);
    assert forall|k: int| 0 <= k < t.len() implies t[k] != '\n' by {
        if k < n {
            assert(t[k] == mark[k]);
        } else {
            assert(t[k] == x[k - n]);
        }
    }
    lemma_line_blocks(t);
}

proof fn lemma_runs_over_prose(s: Seq<char>, i: int, j: int, pending: Seq<char>)
    requires
        0 <= i <= j <= s.len(),
        forall|k: int| i <= k < j ==> s[k] != '*' && s[k] != '`' && s[k] != '[',
    ensures
        runs_from(s, i, pending) == runs_from(s, j, pending + s.subrange(i, j)),
    decreases j - i,
{
    if i < j {
        assert(marked_at(s, i) is None);
        lemma_runs_over_prose(s, i + 1, j, pending.push(s[i]));
        assert(pending.push(s[i]) + s.subrange(i + 1, j) =~= pending + s.subrange(i, j));
    } else {
        assert(pending + s.subrange(i, j) =~= pending);
    }
}

proof fn lemma_bold_end_at(s: Seq<char>, i: int, e: int)
    requires
        0 <= i <= e,
        e + 1 < s.len(),
        forall|k: int| i <= k < e ==> s[k] != '*',
        s[e] == '*',
        s[e + 1] == '*',
    ensures
        bold_end(s, i) == e,
    decreases e - i,
{
    if i < e {
        lemma_bold_end_at(s, i + 1, e);
    }
}

proof fn lemma_index_after(s: Seq<char>, c: char, i: int, e: int)
    requires
        0 <= i <= e < s.len(),
        forall|k: int| i <= k < e ==> s[k] != c,
        s[e] == c,
    ensures
        text::index_from(s, c, i) == e,
    decreases e - i,
{
    if i < e {
        lemma_index_after(s, c, i + 1, e);
    }
}

/// Inside a paragraph, text between double asterisks is a bold run, text
/// between backquotes a run of code, and a link the plain run of its label. What
/// stands before and after is plain, and the markers are gone.
pub proof fn law_inline_markers(a: Seq<char>, b: Seq<char>, c: Seq<char>, url: Seq<char>)
    requires
        is_prose(a) && is_prose(b) && is_prose(c),
        a.len() > 0 && b.len() > 0 && c.len() > 0,
        forall|k: int| 0 <= k < b.len() ==> b[k] != ']',
        forall|k: int| 0 <= k < url.len() ==> url[k] != ')',
    ensures
        inline_runs(a + "**"@ + b + "**"@ + c) == seq![
            block_of(a, 0, false, false, false, false),
            block_of(b, 0, false, false, true, false),
            block_of(c, 0, false, false, false, false),
        ],
        inline_runs(a + "`"@ + b + "`"@ + c) == seq![
            block_of(a, 0, false, false, false, false),
            block_of(b, 0, true, false, false, false),
            block_of(c, 0, false, false, false, false),
        ],
        inline_runs(a + "["@ + b + "]("@ + url + ")"@ + c) == seq![
            block_of(a, 0, false, false, false, false),
            block_of(b, 0, false, false, false, false),
            block_of(c, 0, false, false, false, false),
        ],
{
    reveal_strlit("**");
    reveal_strlit("`");
    reveal_strlit("[");
    reveal_strlit("](");
    reveal_strlit(")");
    let (x, y) = (a.len() as int, b.len() as int);
    let s = a + "**"@ + b + "**"@ + c;
    assert(forall|k: int| 0 <= k < x ==> s[k] == a[k]);
    assert(forall|k: int| 0 <= k < y ==> s[x + 2 + k] == b[k]);
    assert(forall|k: int| x + 2 <= k < x + 2 + y ==> s[k] == b[k - x - 2]);
    assert(forall|k: int| x + y + 4 <= k < s.len() ==> s[k] == c[k - x - y - 4]);
    lemma_bold_end_at(s, x + 2, x + 2 + y);
    assert(s.take(x) =~= a && s.skip(x + y + 4) =~= c && s.subrange(x + 2, x + 2 + y) =~= b);
    lemma_three_runs(s, a, bold(b), c, x + y + 4);
    let s = a + "`"@ + b + "`"@ + c;
    assert(forall|k: int| 0 <= k < x ==> s[k] == a[k]);
    assert(forall|k: int| x + 1 <= k < x + 1 + y ==> s[k] == b[k - x - 1]);
    assert(forall|k: int| x + y + 2 <= k < s.len() ==> s[k] == c[k - x - y - 2]);
    lemma_index_after(s, '`', x + 1, x + 1 + y);
    assert(s.take(x) =~= a && s.skip(x + y + 2) =~= c && s.subrange(x + 1, x + 1 + y) =~= b);
    lemma_three_runs(s, a, code(b), c, x + y + 2);
    let s = a + "["@ + b + "]("@ + url + ")"@ + c;
    let z = url.len() as int;
    assert(forall|k: int| 0 <= k < x ==> s[k] == a[k]);
    assert(forall|k: int| x + 1 <= k < x + 1 + y ==> s[k] == b[k - x - 1]);
    assert(forall|k: int| x + y + 3 <= k < x + y + 3 + z ==> s[k] == url[k - x - y - 3]);
    assert(forall|k: int| x + y + z + 4 <= k < s.len() ==> s[k] == c[k - x - y - z - 4]);
    lemma_index_after(s, ']', x + 1, x + 1 + y);
    lemma_index_after(s, ')', x + y + 3, x + y + 3 + z);
    assert(s.take(x) =~= a && s.skip(x + y + z + 4) =~= c && s.subrange(x + 1, x + 1 + y) =~= b);
    lemma_three_runs(s, a, plain(b), c, x + y + z + 4);
}

proof fn lemma_three_runs(s: Seq<char>, a: Seq<char>, run: BlockModel, c: Seq<char>, next: int)
    requires
        a.len() > 0,
        c.len() > 0,
        run.body.len() > 0,
        is_prose(a),
        is_prose(c),
        a.len() < next <= s.len(),
        s.take(a.len() as int) == a,
        s.skip(next) == c,
        marked_at(s, a.len() as int) is Some,
        marked_at(s, a.len() as int)->0.run == run,
        marked_at(s, a.len() as int)->0.next == next,
    ensures
        inline_runs(s) == seq![plain(a), run, plain(c)],
{
    let n = a.len() as int;
    let none = Seq::<char>::empty();
    assert forall|k: int| 0 <= k < n implies s[k] != '*' && s[k] != '`' && s[k] != '[' by {
        assert(s.take(n)[k] == a[k]);
    }
    lemma_runs_over_prose(s, 0, n, none);
    assert(none + s.subrange(0, n) =~= a);
    assert forall|k: int| next <= k < s.len() implies s[k] != '*' && s[k] != '`' && s[k]
        != '[' by {
        assert(s.skip(next)[k - next] == c[k - next]);
    }
    lemma_runs_over_prose(s, next, s.len() as int, none);
    assert(none + s.subrange(next, s.len() as int) =~= c);
    assert(runs_from(s, next, none) =~= seq![plain(c)]);
    assert(runs_from(s, 0, none) =~= seq![plain(a), run, plain(c)]);
}

/// A run that continues a block is added to its text; the block stays code, or
/// bold, only where the run is so too, and keeps what else it is. Anything else
/// is a block of its own.
pub proof fn law_continuations_are_merged(s: Seq<BlockModel>, b: BlockModel)
    ensures
        ({
            let r = coalesced(s);
            let out = coalesced(s.push(b));
            &&& b.continues_prev && r.len() > 0 ==> out == r.drop_last().push(
                block_of(
                    r.last().body + b.body,
                    r.last().header_rank,
                    r.last().is_code && b.is_code,
                    r.last().is_bullet,
                    r.last().is_bold && b.is_bold,
                    r.last().continues_prev,
                ),
            )
            &&& !b.continues_prev || r.len() == 0 ==> out == r.push(b)
            &&& coalesced(Seq::empty()).len() == 0
        }),
{
    assert(s.push(b).drop_last() =~= s);
}

/// A paragraph with a bold stretch in it is three runs, of which the later two
/// continue the one before; put together they are one plain block with the whole
/// text.
pub proof fn law_paragraph_with_a_bold_stretch(a: Seq<char>, b: Seq<char>, c: Seq<char>)
    requires
        is_prose(a) && is_prose(b) && is_prose(c),
        a.len() > 0 && b.len() > 0 && c.len() > 0,
        forall|k: int| 0 <= k < b.len() ==> b[k] != ']',
        !text::is_space_spec(a[0]) && a[0] != '#' && a[0] != '-',
        !text::is_space_spec(c.last()),
    ensures
        run_blocks(a + "**"@ + b + "**"@ + c) == seq![
            block_of(a, 0, false, false, false, false),
            block_of(b, 0, false, false, true, true),
            block_of(c, 0, false, false, false, true),
        ],
        coalesced(run_blocks(a + "**"@ + b + "**"@ + c)) == seq![
            block_of(a + b + c, 0, false, false, false, false),
        ],
{
    reveal_strlit("**");
    let s = a + "**"@ + b + "**"@ + c;
    let n = s.len() as int;
    assert(s[0] == a[0]);
    assert(s.last() == c.last());
    assert forall|k: int| 0 <= k < n implies s[k] != '\n' by {
        let (x, y) = (a.len() as int, b.len() as int);
        if k < x {
            assert(s[k] == a[k]);
        } else if x + 2 <= k < x + 2 + y {
            assert(s[k] == b[k - x - 2]);
        } else if x + y + 4 <= k {
            assert(s[k] == c[k - x - y - 4]);
        }
    }
    lemma_trimmed(s);
    lemma_not_marked(s);
    lemma_line_blocks(s);
    assert(text::join_spec(seq![s], "\n"@) == s);
    if whole_bold(s) {
        assert("**"@[0] == s[0]);
    }
    law_inline_markers(a, b, c, Seq::empty());
    let r = inline_runs(s);
    let runs = seq![
        block_of(a, 0, false, false, false, false),
        block_of(b, 0, false, false, true, true),
        block_of(c, 0, false, false, false, true),
    ];
    assert(paragraph_runs(r, false) =~= runs);
    assert(run_blocks(s) =~= runs);
    let one = seq![runs[0]];
    let two = one.push(runs[1]);
    lemma_coalesced_one(runs[0]);
    law_continuations_are_merged(one, runs[1]);
    law_continuations_are_merged(two, runs[2]);
    assert(two.push(runs[2]) =~= runs);
    assert(coalesced(runs) =~= seq![block_of(a + b + c, 0, false, false, false, false)]);
}

proof fn lemma_stripped_over_prose(s: Seq<char>, i: int, j: int)
    requires
        0 <= i <= j <= s.len(),
        forall|k: int| i <= k < j ==> s[k] != '*' && s[k] != '`' && s[k] != '[',
    ensures
        stripped_from(s, i) == s.subrange(i, j) + stripped_from(s, j),
    decreases j - i,
{
    if i < j {
        lemma_stripped_over_prose(s, i + 1, j);
        assert(seq![s[i]] + (s.subrange(i + 1, j) + stripped_from(s, j)) =~= s.subrange(i, j)
            + stripped_from(s, j));
    } else {
        assert(s.subrange(i, j) + stripped_from(s, j) =~= stripped_from(s, j));
    }
}

/// In a header or a bullet a link leaves its label, and its address is gone.
pub proof fn law_links_leave_their_label(
    a: Seq<char>,
    label: Seq<char>,
    url: Seq<char>,
    c: Seq<char>,
)
    requires
        is_prose(a) && is_prose(c),
        forall|k: int| 0 <= k < label.len() ==> label[k] != ']',
        forall|k: int| 0 <= k < url.len() ==> url[k] != ')',
        c.len() > 0 ==> c[0] != '(',
    ensures
        stripped_from(a + "["@ + label + "]("@ + url + ")"@ + c, 0) == a + label + c,
        stripped_from(a + "["@ + label + "]"@ + c, 0) == a + label + c,
{
    reveal_strlit("[");
    reveal_strlit("](");
    reveal_strlit("]");
    reveal_strlit(")");
    let (x, y, z) = (a.len() as int, label.len() as int, url.len() as int);
    let s = a + "["@ + label + "]("@ + url + ")"@ + c;
    assert(forall|k: int| 0 <= k < x ==> s[k] == a[k]);
    assert(forall|k: int| x + 1 <= k < x + 1 + y ==> s[k] == label[k - x - 1]);
    assert(forall|k: int| x + y + 3 <= k < x + y + 3 + z ==> s[k] == url[k - x - y - 3]);
    assert(forall|k: int| x + y + z + 4 <= k < s.len() ==> s[k] == c[k - x - y - z - 4]);
    assert(s[x] == '[' && s[x + 1 + y] == ']' && s[x + y + 2] == '(' && s[x + y + 3 + z] == ')');
    lemma_index_after(s, ']', x + 1, x + 1 + y);
    lemma_index_after(s, ')', x + y + 3, x + y + 3 + z);
    lemma_stripped_over_prose(s, 0, x);
    lemma_stripped_over_prose(s, x + y + z + 4, s.len() as int);
    assert(stripped_from(s, s.len() as int) =~= Seq::<char>::empty());
    assert(s.subrange(0, x) =~= a && s.subrange(x + 1, x + 1 + y) =~= label);
    assert(s.subrange(x + y + z + 4, s.len() as int) =~= c);
    assert(stripped_from(s, x) =~= label + c);
    assert(stripped_from(s, 0) =~= a + label + c);
    let s = a + "["@ + label + "]"@ + c;
    assert(forall|k: int| 0 <= k < x ==> s[k] == a[k]);
    assert(forall|k: int| x + 1 <= k < x + 1 + y ==> s[k] == label[k - x - 1]);
    assert(forall|k: int| x + y + 2 <= k < s.len() ==> s[k] == c[k - x - y - 2]);
    assert(s[x] == '[' && s[x + 1 + y] == ']');
    lemma_index_after(s, ']', x + 1, x + 1 + y);
    lemma_stripped_over_prose(s, 0, x);
    lemma_stripped_over_prose(s, x + y + 2, s.len() as int);
    assert(stripped_from(s, s.len() as int) =~= Seq::<char>::empty());
    assert(s.subrange(0, x) =~= a && s.subrange(x + 1, x + 1 + y) =~= label);
    assert(s.subrange(x + y + 2, s.len() as int) =~= c);
    assert(stripped_from(s, x) =~= label + c);
    assert(stripped_from(s, 0) =~= a + label + c);
}

/// A header ends the paragraph before it, and a paragraph may follow it on the
/// next line.
pub proof fn law_headers_part_paragraphs(a: Seq<char>, x: Seq<char>, b: Seq<char>)
    requires
        is_prose(a) && is_prose(x) && is_prose(b),
        a.len() > 0 && b.len() > 0,
        !text::is_space_spec(a[0]) && !text::is_space_spec(a.last()),
        !text::is_space_spec(b[0]) && !text::is_space_spec(b.last()),
        a[0] != '#' && a[0] != '-' && b[0] != '#' && b[0] != '-',
        x.len() > 0 && x.last() != '\r',
    ensures
        run_blocks(a + "\n# "@ + x + "\n"@ + b) == seq![
            block_of(a, 0, false, false, false, false),
            block_of(x, 1, false, false, false, false),
            block_of(b, 0, false, false, false, false),
        ],
{
    reveal_strlit("# ");
    let h = "# "@ + x;
    let ls = seq![a, h, b];
    let s = a + "\n# "@ + x + "\n"@ + b;
    lemma_three_lines(a, x, b);
    lemma_header_line(x);
    lemma_trimmed(a);
    lemma_trimmed(b);
    lemma_not_marked(a);
    lemma_not_marked(b);
    lemma_prose_paragraph(a);
    lemma_prose_paragraph(b);
    let none = Seq::<Seq<char>>::empty();
    let hdr = block_of(x, 1, false, false, false, false);
    assert(ls[0] == a && ls[1] == h && ls[2] == b);
    assert(none.push(a) =~= seq![a]);
    assert(none.push(b) =~= seq![b]);
    let last = blocks_from(ls, 3, seq![b]);
    assert(last == paragraph_blocks(seq![b]));
    assert(blocks_from(ls, 2, none) == last);
    let mid = blocks_from(ls, 1, seq![a]);
    assert(mid == paragraph_blocks(seq![a]) + seq![hdr] + last);
    assert(blocks_from(ls, 0, none) == mid);
    assert(mid =~= seq![
        block_of(a, 0, false, false, false, false),
        hdr,
        block_of(b, 0, false, false, false, false),
    ]);
}

proof fn lemma_three_lines(a: Seq<char>, x: Seq<char>, b: Seq<char>)
    requires
        is_prose(a) && is_prose(x) && is_prose(b),
        a.len() > 0 && b.len() > 0 && x.len() > 0,
        !text::is_space_spec(a.last()) && !text::is_space_spec(b.last()) && x.last() != '\r',
    ensures
        text::lines_spec(a + "\n# "@ + x + "\n"@ + b) == seq![a, "# "@ + x, b],
{
    let h = "# "@ + x;
    let ls = seq![a, h, b];
    let two = seq![a, h];
    let br = "\n"@;
    assert(text::join_spec(ls, br) == a + br + h + br + b) by {
        assert(ls.drop_last() =~= two);
        assert(two.drop_last() =~= seq![a]);
        assert(text::join_spec(seq![a], br) == a);
        assert(text::join_spec(two, br) == a + br + h);
    }
    assert("\n# "@ =~= br + "# "@) by {
        reveal_strlit("\n# ");
        reveal_strlit("\n");
        reveal_strlit("# ");
    }
    assert(a + (br + "# "@) + x + br + b =~= a + br + h + br + b);
    assert(text::is_line(a)) by {
        text::law_white_space(a.last());
    }
    assert(text::is_line(b)) by {
        text::law_white_space(b.last());
    }
    assert(text::is_line(h)) by {
        reveal_strlit("# ");
        assert forall|k: int| 0 <= k < h.len() implies h[k] != '\n' by {
            if k >= 2 {
                assert(h[k] == x[k - 2]);
            }
        }
        assert(h.last() == x.last());
    }
    assert forall|i: int| 0 <= i < ls.len() implies text::is_line(#[trigger] ls[i]) by {
        if i == 0 {
            assert(ls[i] == a);
        } else if i == 1 {
            assert(ls[i] == h);
        } else {
            assert(ls[i] == b);
        }
    }
    text::lemma_lines_of_text(ls);
}

proof fn lemma_header_line(x: Seq<char>)
    requires
        is_prose(x),
    ensures
        !is_fence("# "@ + x),
        marked_line("# "@ + x) == Some(block_of(x, 1, false, false, false, false)),
{
    reveal_strlit("# ");
    reveal_strlit("```");
    reveal_strlit("## ");
    reveal_strlit("### ");
    let h = "# "@ + x;
    assert(h[0] == '#' && h[1] == ' ');
    text::law_white_space('#');
    assert(text::trim_start_spec(h) == h);
    assert("# "@.is_prefix_of(h)) by {
        assert("# "@ =~= h.subrange(0, 2));
    }
    if "```"@.is_prefix_of(h) {
        assert("```"@[0] == h[0]);
    }
    if "## "@.is_prefix_of(h) {
        assert("## "@[1] == h[1]);
    }
    if "### "@.is_prefix_of(h) {
        assert("### "@[1] == h[1]);
    }
    assert(h.skip(2) =~= x);
    lemma_stripped_prose(x);
}

/// A paragraph that starts or ends with a bold stretch is bold there and plain in
/// the rest: it is not bold as a whole.
pub proof fn law_bold_at_one_end(a: Seq<char>, b: Seq<char>)
    requires
        is_prose(a) && is_prose(b),
        a.len() > 0 && b.len() > 0,
        !text::is_space_spec(a[0]) && a[0] != '#' && a[0] != '-',
        !text::is_space_spec(a.last()),
        !text::is_space_spec(b[0]) && !text::is_space_spec(b.last()),
    ensures
        run_blocks("**"@ + a + "**"@ + b) == seq![
            block_of(a, 0, false, false, true, false),
            block_of(b, 0, false, false, false, true),
        ],
        run_blocks(a + "**"@ + b + "**"@) == seq![
            block_of(a, 0, false, false, false, false),
            block_of(b, 0, false, false, true, true),
        ],
{
    lemma_bold_first(a, b);
    lemma_bold_last(a, b);
}

proof fn lemma_bold_first(a: Seq<char>, b: Seq<char>)
    requires
        is_prose(a) && is_prose(b),
        a.len() > 0 && b.len() > 0,
        !text::is_space_spec(b.last()),
    ensures
        run_blocks("**"@ + a + "**"@ + b) == seq![
            block_of(a, 0, false, false, true, false),
            block_of(b, 0, false, false, false, true),
        ],
{
    reveal_strlit("**");
    reveal_strlit("```");
    reveal_strlit("### ");
    reveal_strlit("## ");
    reveal_strlit("# ");
    reveal_strlit("- ");
    reveal_strlit("* ");
    let s = "**"@ + a + "**"@ + b;
    let (x, n) = (a.len() as int, s.len() as int);
    let none = Seq::<char>::empty();
    assert(s[0] == '*' && s[1] == '*' && s[x + 2] == '*' && s[x + 3] == '*');
    assert(forall|k: int| 2 <= k < x + 2 ==> s[k] == a[k - 2]);
    assert(forall|k: int| x + 4 <= k < n ==> s[k] == b[k - x - 4]);
    assert(s.last() == b.last());
    text::law_white_space('*');
    lemma_trimmed(s);
    lemma_not_marked(s);
    lemma_line_blocks(s);
    assert(text::join_spec(seq![s], "\n"@) == s);
    if whole_bold(s) {
        assert(s.subrange(n - 2, n)[1] == "**"@[1]);
        assert(s[n - 1] == b[b.len() - 1]);
    }
    lemma_bold_end_at(s, 2, x + 2);
    assert(s.subrange(2, x + 2) =~= a);
    lemma_runs_over_prose(s, x + 4, n, none);
    assert(none + s.subrange(x + 4, n) =~= b);
    assert(runs_from(s, x + 4, none) =~= seq![plain(b)]);
    assert(inline_runs(s) =~= seq![bold(a), plain(b)]);
    assert(paragraph_runs(inline_runs(s), false) =~= seq![
        block_of(a, 0, false, false, true, false),
        block_of(b, 0, false, false, false, true),
    ]);
}

proof fn lemma_bold_last(a: Seq<char>, b: Seq<char>)
    requires
        is_prose(a) && is_prose(b),
        a.len() > 0 && b.len() > 0,
        !text::is_space_spec(a[0]) && a[0] != '#' && a[0] != '-',
    ensures
        run_blocks(a + "**"@ + b + "**"@) == seq![
            block_of(a, 0, false, false, false, false),
            block_of(b, 0, false, false, true, true),
        ],
{
    reveal_strlit("**");
    let s = a + "**"@ + b + "**"@;
    let (x, y, n) = (a.len() as int, b.len() as int, s.len() as int);
    let none = Seq::<char>::empty();
    assert(forall|k: int| 0 <= k < x ==> s[k] == a[k]);
    assert(forall|k: int| x + 2 <= k < x + 2 + y ==> s[k] == b[k - x - 2]);
    assert(s[x] == '*' && s[x + 1] == '*' && s[n - 2] == '*' && s[n - 1] == '*');
    assert(s[0] == a[0]);
    text::law_white_space('*');
    lemma_trimmed(s);
    lemma_not_marked(s);
    lemma_line_blocks(s);
    assert(text::join_spec(seq![s], "\n"@) == s);
    if whole_bold(s) {
        assert("**"@[0] == s[0]);
    }
    lemma_bold_end_at(s, x + 2, x + 2 + y);
    assert(s.subrange(x + 2, x + 2 + y) =~= b);
    lemma_runs_over_prose(s, 0, x, none);
    assert(none + s.subrange(0, x) =~= a);
    assert(runs_from(s, n, none) =~= Seq::<BlockModel>::empty());
    assert(inline_runs(s) =~= seq![plain(a), bold(b)]);
    assert(paragraph_runs(inline_runs(s), false) =~= seq![
        block_of(a, 0, false, false, false, false),
        block_of(b, 0, false, false, true, true),
    ]);
}

proof fn lemma_runs_hold_text(s: Seq<char>, i: int, pending: Seq<char>)
    requires
        0 <= i,
    ensures
        forall|k: int|
            0 <= k < runs_from(s, i, pending).len() ==> (#[trigger] runs_from(
                s,
                i,
                pending,
            )[k]).body.len() > 0,
    decreases s.len() - i,
{
    if i < s.len() {
        lemma_marked_at(s, i);
        match marked_at(s, i) {
            Some(m) => {
                let rest = runs_from(s, m.next, Seq::empty());
                lemma_runs_hold_text(s, m.next, Seq::empty());
                let head = nonempty(plain(pending)) + nonempty(m.run);
                let all = runs_from(s, i, pending);
                assert(all == head + rest);
                assert forall|k: int| 0 <= k < all.len() implies (#[trigger] all[k]).body.len()
                    > 0 by {
                    if k >= head.len() {
                        assert(all[k] == rest[k - head.len()]);
                    } else {
                        assert(all[k] == head[k]);
                    }
                }
            },
            None => {
                let next = runs_from(s, i + 1, pending.push(s[i]));
                lemma_runs_hold_text(s, i + 1, pending.push(s[i]));
                assert(runs_from(s, i, pending) == next);
                assert forall|k: int| 0 <= k < next.len() implies (#[trigger] runs_from(
                    s,
                    i,
                    pending,
                )[k]).body.len() > 0 by {
                    assert(next[k].body.len() > 0);
                }
            },
        }
    } else {
        assert(runs_from(s, i, pending) == nonempty(plain(pending)));
    }
}

/// No run of a paragraph is empty, whatever markers it holds.
pub proof fn law_runs_hold_text(para: Seq<Seq<char>>)
    ensures
        forall|k: int|
            0 <= k < paragraph_blocks(para).len() ==> (#[trigger] paragraph_blocks(
                para,
            )[k]).body.len() > 0,
{
    let t = text::trim_spec(text::join_spec(para, "\n"@));
    lemma_runs_hold_text(t, 0, Seq::empty());
    if t.len() > 4 {
        lemma_runs_hold_text(t.subrange(2, t.len() - 2), 0, Seq::empty());
    }
    let out = paragraph_blocks(para);
    assert forall|k: int| 0 <= k < out.len() implies (#[trigger] out[k]).body.len() > 0 by {
        if whole_bold(t) {
            let r = inline_runs(t.subrange(2, t.len() - 2));
            assert(out[k].body == r[k].body);
        } else {
            assert(out[k].body == inline_runs(t)[k].body);
        }
    }
}

} // verus!
