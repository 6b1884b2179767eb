//! The transcript: rows for what the user said, what JARVIS answered and which
//! tools were used.

use vstd::prelude::*;

use crate::desktop::gateway::TurnInfo;
use crate::desktop::markdown;
use crate::desktop::markdown::{parse_runs, Block};
use crate::text;
use crate::text::{chars_of, contains, ellipsize, is_empty, join, joined, starts_with, string_of, words};

verus! {

/// What a row is about.
#[derive(Debug, Clone, Copy, PartialEq, Eq, Structural)]
pub enum RowKind {
    User,
    Jarvis,
    Tool,
    Status,
    Other,
}

/// One row of the transcript.
#[derive(Debug)]
pub struct TranscriptEntry {
    pub kind: RowKind,
    pub body: String,
    pub header_rank: i32,
    pub is_code: bool,
    pub is_bullet: bool,
    pub is_bold: bool,
    pub timestamp: String,
    pub continues_prev: bool,
}

/// What a row holds.
#[verifier::ext_equal]
pub struct EntryModel {
    pub kind: RowKind,
    pub body: Seq<char>,
    pub header_rank: int,
    pub is_code: bool,
    pub is_bullet: bool,
    pub is_bold: bool,
    pub timestamp: Seq<char>,
    pub continues_prev: bool,
}

impl View for TranscriptEntry {
    type V = EntryModel;

    open spec fn view(&self) -> EntryModel {
        EntryModel {
            kind: self.kind,
            body: self.body@,
            header_rank: self.header_rank as int,
            is_code: self.is_code,
            is_bullet: self.is_bullet,
            is_bold: self.is_bold,
            timestamp: self.timestamp@,
            continues_prev: self.continues_prev,
        }
    }
}

/// The models of a sequence of rows.
pub open spec fn models(s: Seq<TranscriptEntry>) -> Seq<EntryModel> {
    s.map_values(|e: TranscriptEntry| e@)
}

/// A row without formatting.
pub open spec fn plain(kind: RowKind, body: Seq<char>, timestamp: Seq<char>) -> EntryModel {
    EntryModel {
        kind,
        body,
        header_rank: 0,
        is_code: false,
        is_bullet: false,
        is_bold: false,
        timestamp,
        continues_prev: false,
    }
}

fn plain_row(kind: RowKind, body: String, timestamp: String) -> (e: TranscriptEntry)
    ensures
        e@ == plain(kind, body@, timestamp@),
{
    TranscriptEntry {
        kind,
        body,
        header_rank: 0,
        is_code: false,
        is_bullet: false,
        is_bold: false,
        timestamp,
        continues_prev: false,
    }
}

/// The rows for the blocks of an answer: the last one carries the time.
pub open spec fn jarvis_rows(blocks: Seq<markdown::BlockModel>, ts: Seq<char>) -> Seq<EntryModel> {
    Seq::new(
        blocks.len(),
        |i: int|
            EntryModel {
                kind: RowKind::Jarvis,
                body: blocks[i].body,
                header_rank: blocks[i].header_rank,
                is_code: blocks[i].is_code,
                is_bullet: blocks[i].is_bullet,
                is_bold: blocks[i].is_bold,
                timestamp: if i + 1 == blocks.len() {
                    ts
                } else {
                    ""@
                },
                continues_prev: blocks[i].continues_prev,
            },
    )
}

/// The rows for an answer: one for each styled run of its paragraphs, and one
/// for each header, bullet and piece of code.
pub open spec fn answer_rows(answer: Seq<char>, ts: Seq<char>) -> Seq<EntryModel> {
    jarvis_rows(markdown::run_blocks(answer), ts)
}

/// The rows after a piece of an answer in progress has come in: the first one
/// adds a row, later ones rewrite the last row.
pub open spec fn streamed(
    rows: Seq<EntryModel>,
    body: Seq<char>,
    already_streaming: bool,
    ts: Seq<char>,
) -> Seq<EntryModel> {
    let e = plain(RowKind::Jarvis, body, ts);
    if already_streaming && rows.len() > 0 {
        rows.update(rows.len() - 1, e)
    } else {
        rows.push(e)
    }
}

/// The rows after the complete answer has come in: it takes the place of the
/// row that was streamed into, if there was one.
pub open spec fn finished(
    rows: Seq<EntryModel>,
    answer: Seq<char>,
    was_streamed: bool,
    ts: Seq<char>,
) -> Seq<EntryModel> {
    if was_streamed && rows.len() > 0 {
        rows.drop_last() + answer_rows(answer, ts)
    } else {
        rows + answer_rows(answer, ts)
    }
}

/// Whether a row shows that the tool `name` is at work.
pub open spec fn is_pending_tool(e: EntryModel, name: Seq<char>) -> bool {
    e.kind == RowKind::Tool && ("→ "@ + name).is_prefix_of(e.body)
}

/// Whether a result of the tool `name` belongs to a row.
pub open spec fn takes_preview(e: EntryModel, name: Seq<char>) -> bool {
    e.kind == RowKind::Tool && (text::mentions(e.body, name) || "→ "@.is_prefix_of(e.body))
}

/// The last of the first `n` rows that shows the tool `name` at work, or -1.
pub open spec fn last_pending(rows: Seq<EntryModel>, name: Seq<char>, n: int) -> int
    decreases n,
{
    if n <= 0 || n > rows.len() {
        -1
    } else if is_pending_tool(rows[n - 1], name) {
        n - 1
    } else {
        last_pending(rows, name, n - 1)
    }
}

/// The last of the first `n` rows that a result of the tool `name` belongs to,
/// or -1.
pub open spec fn last_taking(rows: Seq<EntryModel>, name: Seq<char>, n: int) -> int
    decreases n,
{
    if n <= 0 || n > rows.len() {
        -1
    } else if takes_preview(rows[n - 1], name) {
        n - 1
    } else {
        last_taking(rows, name, n - 1)
    }
}

/// The rows after the tool `name` has finished.
pub open spec fn completed(rows: Seq<EntryModel>, name: Seq<char>, success: bool) -> Seq<
    EntryModel,
> {
    let i = last_pending(rows, name, rows.len() as int);
    if i < 0 {
        rows
    } else {
        rows.update(
            i,
            plain(
                RowKind::Tool,
                if success {
                    "✓"@
                } else {
                    "✗"@
                } + " "@ + name,
                rows[i].timestamp,
            ),
        )
    }
}

/// `line` in at most 100 characters: a longer one is cut and ends in an
/// ellipsis.
pub open spec fn fitted(line: Seq<char>) -> Seq<char> {
    if line.len() <= 100 {
        line
    } else {
        line.take(99) + "…"@
    }
}

/// A tool's result on one line, cut short.
pub open spec fn one_line(preview: Seq<char>) -> Seq<char> {
    fitted(text::join_spec(text::words_spec(preview), " "@))
}

/// The rows after a result of the tool `name` has come in.
pub open spec fn previewed(rows: Seq<EntryModel>, name: Seq<char>, preview: Seq<char>) -> Seq<
    EntryModel,
> {
    let i = last_taking(rows, name, rows.len() as int);
    let p = one_line(preview);
    if i < 0 {
        rows
    } else {
        rows.update(
            i,
            plain(
                RowKind::Tool,
                if p.len() == 0 {
                    rows[i].body
                } else {
                    rows[i].body + " · "@ + p
                },
                rows[i].timestamp,
            ),
        )
    }
}

/// A row as a section of a markdown document.
pub open spec fn section(e: EntryModel) -> Seq<char> {
    match e.kind {
        RowKind::User => "\n## User · "@ + e.timestamp + "\n\n"@ + e.body + "\n"@,
        RowKind::Jarvis => "\n## JARVIS · "@ + e.timestamp + "\n\n"@ + e.body + "\n"@,
        RowKind::Tool => "\n### tool · "@ + e.timestamp + "\n\n```\n"@ + e.body + "\n```\n"@,
        RowKind::Status => "\n> "@ + e.body + "\n"@,
        RowKind::Other => "\n"@ + e.body + "\n"@,
    }
}

/// Rows as the sections of a markdown document.
pub open spec fn sections(rows: Seq<EntryModel>) -> Seq<char>
    decreases rows.len(),
{
    if rows.len() == 0 {
        Seq::empty()
    } else {
        sections(rows.drop_last()) + section(rows.last())
    }
}

/// The head of an exported transcript.
pub open spec fn title(thread: Option<Seq<char>>) -> Seq<char> {
    match thread {
        Some(id) => "# JARVIS conversation\n"@ + "\n_Thread: `"@ + id + "`_\n\n"@,
        None => "# JARVIS conversation\n"@,
    }
}

/// The rows of a turn that was had before.
pub open spec fn turn_rows(user: Seq<char>, answer: Option<Seq<char>>, ts: Seq<char>) -> Seq<
    EntryModel,
> {
    let said = if user.len() == 0 {
        Seq::empty()
    } else {
        seq![plain(RowKind::User, user, ts)]
    };
    match answer {
        Some(a) => if a.len() == 0 {
            said
        } else {
            said + answer_rows(a, ts)
        },
        None => said,
    }
}

/// What a turn's answer holds.
pub open spec fn answer_of(t: TurnInfo) -> Option<Seq<char>> {
    match t.response {
        Some(r) => Some(r@),
        None => None,
    }
}

/// The rows of the turns of a conversation that was had before.
pub open spec fn history_rows(turns: Seq<TurnInfo>, ts: Seq<char>) -> Seq<EntryModel>
    decreases turns.len(),
{
    if turns.len() == 0 {
        Seq::empty()
    } else {
        history_rows(turns.drop_last(), ts) + turn_rows(
            turns.last().user_input@,
            answer_of(turns.last()),
            ts,
        )
    }
}

fn fit(line: &[char]) -> (s: String)
    ensures
        s@ == fitted(line@),
{
    if line.len() <= 100 {
        string_of(line)
    } else {
        let mut s = string_of(vstd::slice::slice_subrange(line, 0, 99));
        s.push_str("…");
        s
    }
}

fn jarvis_row(b: Block, timestamp: String) -> (e: TranscriptEntry)
    ensures
        e@ == (EntryModel {
            kind: RowKind::Jarvis,
            body: b@.body,
            header_rank: b@.header_rank,
            is_code: b@.is_code,
            is_bullet: b@.is_bullet,
            is_bold: b@.is_bold,
            timestamp: timestamp@,
            continues_prev: b@.continues_prev,
        }),
{
    TranscriptEntry {
        kind: RowKind::Jarvis,
        body: b.body,
        header_rank: b.header_rank,
        is_code: b.is_code,
        is_bullet: b.is_bullet,
        is_bold: b.is_bold,
        timestamp,
        continues_prev: b.continues_prev,
    }
}

/// The transcript.
pub struct Transcript {
    pub rows: Vec<TranscriptEntry>,
}

impl View for Transcript {
    type V = Seq<EntryModel>;

    open spec fn view(&self) -> Seq<EntryModel> {
        models(self.rows@)
    }
}

impl Transcript {
    /// Nothing was said.
    pub fn new() -> (t: Self)
        ensures
            t@ == Seq::<EntryModel>::empty(),
    {
        let t = Transcript { rows: Vec::new() };
        assert(t@ =~= Seq::<EntryModel>::empty());
        t
    }

    /// Drops all rows.
    pub fn clear_transcript_rows(&mut self)
        ensures
            final(self)@ == Seq::<EntryModel>::empty(),
    {
        self.rows = Vec::new();
        assert(self@ =~= Seq::<EntryModel>::empty());
    }

    fn add(&mut self, e: TranscriptEntry)
        ensures
            final(self)@ == old(self)@.push(e@),
    {
        self.rows.push(e);
        assert(self@ =~= old(self)@.push(e@));
    }

    fn replace(&mut self, i: usize, e: TranscriptEntry)
        requires
            i < old(self)@.len(),
        ensures
            final(self)@ == old(self)@.update(i as int, e@),
    {
        self.rows[i] = e;
        assert(self@ =~= old(self)@.update(i as int, e@));
    }

    /// Adds what the user said.
    pub fn push_user_block(&mut self, said: &str, clock: &str)
        ensures
            final(self)@ == old(self)@.push(plain(RowKind::User, said@, clock@)),
    {
        self.add(plain_row(RowKind::User, said.to_owned(), clock.to_owned()));
    }

    /// Adds the blocks of an answer, one row each. The runs of a paragraph keep
    /// their styles, and all but the first continue the row before.
    pub fn append_jarvis_blocks(&mut self, answer: &str, clock: &str)
        ensures
            final(self)@ == old(self)@ + answer_rows(answer@, clock@),
    {
        let mut blocks = parse_runs(answer);
        let ghost all = markdown::models(blocks@);
        let ghost want = jarvis_rows(all, clock@);
        let ghost before = self@;
        let n: usize = blocks.len();
        let mut i: usize = 0;
        assert(before + want.take(0) =~= before);
        assert(all.skip(0) =~= all);
        while i < n
            invariant
                i <= n == all.len(),
                want == jarvis_rows(all, clock@),
                blocks@.len() == n - i,
                markdown::models(blocks@) == all.skip(i as int),
                self@ == before + want.take(i as int),
            decreases n - i,
        {
            assert(markdown::models(blocks@)[0] == blocks@[0]@);
            assert(blocks@[0]@ == all[i as int]);
            let ghost left = blocks@;
            let b = blocks.remove(0);
            proof {
                assert forall|k: int| 0 <= k < blocks@.len() implies #[trigger] markdown::models(
                    blocks@,
                )[k] == all.skip(i + 1)[k] by {
                    assert(blocks@[k] == left[k + 1]);
                    assert(markdown::models(left)[k + 1] == all.skip(i as int)[k + 1]);
                }
                assert(markdown::models(blocks@) =~= all.skip(i + 1));
            }
            let ts = if i + 1 == n {
                clock.to_owned()
            } else {
                "".to_owned()
            };
            let e = jarvis_row(b, ts);
            assert(e@ == want[i as int]);
            self.add(e);
            assert(self@ =~= before + want.take(i + 1));
            i += 1;
        }
        assert(want.take(i as int) =~= want);
    }

    /// Shows the answer in progress.
    pub fn update_streaming_jarvis(&mut self, full_body: &str, already_streaming: bool, clock: &str)
        ensures
            final(self)@ == streamed(old(self)@, full_body@, already_streaming, clock@),
    {
        let e = plain_row(RowKind::Jarvis, full_body.to_owned(), clock.to_owned());
        let n: usize = self.rows.len();
        if already_streaming && n > 0 {
            self.replace(n - 1, e);
        } else {
            self.add(e);
        }
    }

    /// Puts the complete answer in the place of the one in progress.
    pub fn replace_streaming_with_final(&mut self, answer: &str, was_streamed: bool, clock: &str)
        ensures
            final(self)@ == finished(old(self)@, answer@, was_streamed, clock@),
    {
        if was_streamed && self.rows.len() > 0 {
            let _ = self.rows.pop();
            assert(self@ =~= old(self)@.drop_last());
        }
        self.append_jarvis_blocks(answer, clock);
    }

    /// Adds a row for a tool.
    pub fn push_tool_row(&mut self, body: &str, clock: &str)
        ensures
            final(self)@ == old(self)@.push(plain(RowKind::Tool, body@, clock@)),
    {
        self.add(plain_row(RowKind::Tool, body.to_owned(), clock.to_owned()));
    }

    /// Marks the last row that shows the tool `name` at work as done.
    pub fn update_last_tool_completion(&mut self, name: &str, success: bool)
        ensures
            final(self)@ == completed(old(self)@, name@, success),
    {
        let arrow = joined("→ ", name);
        let n: usize = self.rows.len();
        let mut i: usize = n;
        while i > 0
            invariant
                i <= n == self.rows@.len(),
                self@ == old(self)@,
                arrow@ == "→ "@ + name@,
                last_pending(self@, name@, n as int) == last_pending(self@, name@, i as int),
            decreases i,
        {
            let k: usize = i - 1;
            assert(self@[k as int] == self.rows@[k as int]@);
            let body = chars_of(self.rows[k].body.as_str());
            if self.rows[k].kind == RowKind::Tool && starts_with(body.as_slice(), arrow.as_str()) {
                let mut done = joined(
                    if success {
                        "✓"
                    } else {
                        "✗"
                    },
                    " ",
                );
                done.push_str(name);
                let ts = self.rows[k].timestamp.clone();
                self.replace(k, plain_row(RowKind::Tool, done, ts));
                return ;
            }
            i = k;
        }
    }

    /// Adds a result to the last row that it belongs to, on one line and cut
    /// short: such rows are status, not content.
    pub fn update_last_tool_preview(&mut self, name: &str, preview: &str)
        ensures
            final(self)@ == previewed(old(self)@, name@, preview@),
    {
        let chars = chars_of(preview);
        let ws = words(chars.as_slice());
        let p = fit(join(&ws, " ").as_slice());
        let n: usize = self.rows.len();
        let mut i: usize = n;
        while i > 0
            invariant
                i <= n == self.rows@.len(),
                self@ == old(self)@,
                p@ == one_line(preview@),
                last_taking(self@, name@, n as int) == last_taking(self@, name@, i as int),
            decreases i,
        {
            let k: usize = i - 1;
            assert(self@[k as int] == self.rows@[k as int]@);
            let body = chars_of(self.rows[k].body.as_str());
            if self.rows[k].kind == RowKind::Tool && (contains(body.as_slice(), name)
                || starts_with(body.as_slice(), "→ ")) {
                let mut shown = self.rows[k].body.clone();
                if !is_empty(p.as_str()) {
                    shown.push_str(" · ");
                    shown.push_str(p.as_str());
                }
                let ts = self.rows[k].timestamp.clone();
                self.replace(k, plain_row(RowKind::Tool, shown, ts));
                return ;
            }
            i = k;
        }
    }

    /// Adds the turns of a conversation that was had before.
    pub fn load_history(&mut self, turns: &Vec<TurnInfo>, clock: &str)
        ensures
            final(self)@ == old(self)@ + history_rows(turns@, clock@),
    {
        let ghost before = self@;
        let mut i: usize = 0;
        assert(turns@.take(0) =~= Seq::<TurnInfo>::empty());
        assert(before + Seq::<EntryModel>::empty() =~= before);
        while i < turns.len()
            invariant
                i <= turns@.len(),
                self@ == before + history_rows(turns@.take(i as int), clock@),
            decreases turns@.len() - i,
        {
            let ghost had = history_rows(turns@.take(i as int), clock@);
            proof {
                assert(turns@.take(i + 1).drop_last() =~= turns@.take(i as int));
                assert(turns@.take(i + 1).last() == turns@[i as int]);
            }
            if !is_empty(turns[i].user_input.as_str()) {
                self.push_user_block(turns[i].user_input.as_str(), clock);
            }
            if let Some(r) = &turns[i].response {
                if !is_empty(r.as_str()) {
                    self.append_jarvis_blocks(r.as_str(), clock);
                }
            }
            proof {
                let add = turn_rows(turns@[i as int].user_input@, answer_of(turns@[i as int]), clock@);
                assert(self@ =~= before + (had + add));
            }
            i += 1;
        }
        assert(turns@.take(i as int) =~= turns@);
    }

    /// The transcript as a markdown document.
    pub fn transcript_to_markdown(&self, thread_id: Option<&str>) -> (out: String)
        ensures
            out@ == title(
                match thread_id {
                    Some(id) => Some(id@),
                    None => None,
                },
            ) + sections(self@),
    {
        let mut out = "# JARVIS conversation\n".to_owned();
        if let Some(id) = thread_id {
            out.push_str("\n_Thread: `");
            out.push_str(id);
            out.push_str("`_\n\n");
        }
        let ghost t = out@;
        let mut i: usize = 0;
        assert(self@.take(0) =~= Seq::<EntryModel>::empty());
        assert(t + Seq::<char>::empty() =~= t);
        while i < self.rows.len()
            invariant
                i <= self.rows@.len(),
                out@ == t + sections(self@.take(i as int)),
            decreases self.rows@.len() - i,
        {
            let row = &self.rows[i];
            let ghost had = out@;
            proof {
                assert(self@.take(i + 1).drop_last() =~= self@.take(i as int));
                assert(self@.take(i + 1).last() == row@);
            }
            let s = section_of(row);
            out.push_str(s.as_str());
            assert(out@ =~= t + (sections(self@.take(i as int)) + section(row@)));
            i += 1;
        }
        assert(self@.take(i as int) =~= self@);
        out
    }
}

fn section_of(row: &TranscriptEntry) -> (s: String)
    ensures
        s@ == section(row@),
{
    let mut s = match row.kind {
        RowKind::User => "\n## User · ".to_owned(),
        RowKind::Jarvis => "\n## JARVIS · ".to_owned(),
        RowKind::Tool => "\n### tool · ".to_owned(),
        RowKind::Status => "\n> ".to_owned(),
        RowKind::Other => "\n".to_owned(),
    };
    match row.kind {
        RowKind::User | RowKind::Jarvis => {
            s.push_str(row.timestamp.as_str());
            s.push_str("\n\n");
            s.push_str(row.body.as_str());
            s.push_str("\n");
        },
        RowKind::Tool => {
            s.push_str(row.timestamp.as_str());
            s.push_str("\n\n```\n");
            s.push_str(row.body.as_str());
            s.push_str("\n```\n");
        },
        RowKind::Status | RowKind::Other => {
            s.push_str(row.body.as_str());
            s.push_str("\n");
        },
    }
    s
}

/// A time of day in seconds, as hours and minutes of two digits each.
pub open spec fn clock(secs: int) -> Seq<char> {
    let m = secs % 86400 / 60;
    seq![
        text::digit((m / 600) as nat),
        text::digit((m / 60 % 10) as nat),
        ':',
        text::digit((m % 60 / 10) as nat),
        text::digit((m % 10) as nat),
    ]
}

fn digit_char(d: u64) -> (c: char)
    requires
        d < 10,
    ensures
        c == text::digit(d as nat),
{
    (0x30u8 + d as u8) as char
}

/// The time of day, in UTC, of a moment given in seconds since 1970: hours and
/// minutes.
pub fn short_clock(unix_secs: u64) -> (s: String)
    ensures
        s@ == clock(unix_secs as int),
{
    let day: u64 = unix_secs % 86400;
    let h: u64 = day / 3600;
    let m: u64 = (day % 3600) / 60;
    let mut s = String::new();
    s.push(digit_char(h / 10));
    s.push(digit_char(h % 10));
    s.push(':');
    s.push(digit_char(m / 10));
    s.push(digit_char(m % 10));
    proof {
        let t = unix_secs as int % 86400 / 60;
        assert(t / 60 == h);
        assert(t % 60 == m);
        assert(t / 600 == h / 10);
        assert(t % 10 == m % 10);
        assert(s@ =~= clock(unix_secs as int));
    }
    s
}

/// A text for a notification: cut to `max` characters, with an ellipsis where
/// something was cut off.
pub fn truncate_for_toast(s: &str, max: usize) -> (r: String)
    ensures
        r@ == text::ellipsized(s@, max as int),
{
    ellipsize(s, max)
}

/// The rows after several pieces of an answer have come in.
pub open spec fn streamed_all(
    rows: Seq<EntryModel>,
    bodies: Seq<Seq<char>>,
    ts: Seq<char>,
) -> Seq<EntryModel>
    decreases bodies.len(),
{
    if bodies.len() == 0 {
        rows
    } else {
        streamed(
            streamed_all(rows, bodies.drop_last(), ts),
            bodies.last(),
            bodies.len() > 1,
            ts,
        )
    }
}

/// However an answer was streamed, once it is complete the transcript is what
/// it would be had the answer come in one piece.
pub proof fn law_streaming_leaves_no_trace(
    rows: Seq<EntryModel>,
    bodies: Seq<Seq<char>>,
    answer: Seq<char>,
    ts: Seq<char>,
)
    requires
        bodies.len() > 0,
    ensures
        finished(streamed_all(rows, bodies, ts), answer, true, ts) == finished(
            rows,
            answer,
            false,
            ts,
        ),
        streamed_all(rows, bodies, ts) == rows.push(plain(RowKind::Jarvis, bodies.last(), ts)),
    decreases bodies.len(),
{
    reveal_with_fuel(streamed_all, 2);
    if bodies.len() > 1 {
        law_streaming_leaves_no_trace(rows, bodies.drop_last(), answer, ts);
        assert(rows.push(plain(RowKind::Jarvis, bodies.drop_last().last(), ts)).update(
            rows.len() as int,
            plain(RowKind::Jarvis, bodies.last(), ts),
        ) =~= rows.push(plain(RowKind::Jarvis, bodies.last(), ts)));
    } else {
        assert(bodies.drop_last() =~= Seq::<Seq<char>>::empty());
    }
    assert(rows.push(plain(RowKind::Jarvis, bodies.last(), ts)).drop_last() =~= rows);
}

/// A tool that starts and then finishes leaves one row, which says how it went
/// and when it started; the other rows stay.
pub proof fn law_tool_row_is_updated(
    rows: Seq<EntryModel>,
    name: Seq<char>,
    success: bool,
    ts: Seq<char>,
)
    ensures
        completed(rows.push(plain(RowKind::Tool, "→ "@ + name, ts)), name, success) == rows.push(
            plain(
                RowKind::Tool,
                if success {
                    "✓"@
                } else {
                    "✗"@
                } + " "@ + name,
                ts,
            ),
        ),
{
    let started = rows.push(plain(RowKind::Tool, "→ "@ + name, ts));
    assert(("→ "@ + name).subrange(0, ("→ "@ + name).len() as int) =~= "→ "@ + name);
    assert(is_pending_tool(started[rows.len() as int], name));
    assert(completed(started, name, success) =~= rows.push(
        plain(
            RowKind::Tool,
            if success {
                "✓"@
            } else {
                "✗"@
            } + " "@ + name,
            ts,
        ),
    ));
}

/// What a result adds to its row fits on one line of 100 characters.
pub proof fn law_previews_are_short(preview: Seq<char>)
    ensures
        one_line(preview).len() <= 100,
{
    reveal_strlit("…");
}

/// Neither a finished tool nor a result adds or removes rows, nor touches what
/// the user or JARVIS said.
pub proof fn law_tools_leave_the_talk_alone(
    rows: Seq<EntryModel>,
    name: Seq<char>,
    success: bool,
    preview: Seq<char>,
    i: int,
)
    requires
        0 <= i < rows.len(),
        rows[i].kind != RowKind::Tool,
    ensures
        completed(rows, name, success).len() == rows.len(),
        previewed(rows, name, preview).len() == rows.len(),
        completed(rows, name, success)[i] == rows[i],
        previewed(rows, name, preview)[i] == rows[i],
{
    lemma_last_pending(rows, name, rows.len() as int);
    lemma_last_taking(rows, name, rows.len() as int);
}

proof fn lemma_last_pending(rows: Seq<EntryModel>, name: Seq<char>, n: int)
    requires
        0 <= n <= rows.len(),
    ensures
        -1 <= last_pending(rows, name, n) < n || n == 0,
        last_pending(rows, name, n) >= 0 ==> is_pending_tool(
            rows[last_pending(rows, name, n)],
            name,
        ),
    decreases n,
{
    if n > 0 {
        lemma_last_pending(rows, name, n - 1);
    }
}

proof fn lemma_last_taking(rows: Seq<EntryModel>, name: Seq<char>, n: int)
    requires
        0 <= n <= rows.len(),
    ensures
        -1 <= last_taking(rows, name, n) < n || n == 0,
        last_taking(rows, name, n) >= 0 ==> takes_preview(rows[last_taking(rows, name, n)], name),
    decreases n,
{
    if n > 0 {
        lemma_last_taking(rows, name, n - 1);
    }
}

/// A row without formatting: what it says and when, and nothing else.
pub open spec fn row(kind: RowKind, body: Seq<char>, ts: Seq<char>) -> EntryModel {
    EntryModel {
        kind,
        body,
        header_rank: 0,
        is_code: false,
        is_bullet: false,
        is_bold: false,
        timestamp: ts,
        continues_prev: false,
    }
}

/// An answer in progress is one row, which every further piece rewrites: it
/// shows what has come in so far and carries no style.
pub proof fn law_answer_in_progress_is_one_row(
    rows: Seq<EntryModel>,
    a: Seq<char>,
    b: Seq<char>,
    ts: Seq<char>,
)
    ensures
        streamed(rows, a, false, ts) == rows.push(row(RowKind::Jarvis, a, ts)),
        streamed(streamed(rows, a, false, ts), b, true, ts) == rows.push(
            row(RowKind::Jarvis, b, ts),
        ),
        rows.len() > 0 ==> streamed(rows, b, true, ts) == rows.drop_last().push(
            row(RowKind::Jarvis, b, ts),
        ),
        plain(RowKind::User, a, ts) == row(RowKind::User, a, ts),
        plain(RowKind::Tool, a, ts) == row(RowKind::Tool, a, ts),
{
    assert(streamed(streamed(rows, a, false, ts), b, true, ts) =~= rows.push(
        row(RowKind::Jarvis, b, ts),
    ));
    if rows.len() > 0 {
        assert(streamed(rows, b, true, ts) =~= rows.drop_last().push(row(RowKind::Jarvis, b, ts)));
    }
}

/// The complete answer has one row for each block, with the block's text and
/// styles; the last row carries the time and the others none.
pub proof fn law_rows_of_an_answer(
    rows: Seq<EntryModel>,
    answer: Seq<char>,
    was_streamed: bool,
    ts: Seq<char>,
    k: int,
)
    requires
        0 <= k < markdown::run_blocks(answer).len(),
    ensures
        ({
            let blocks = markdown::run_blocks(answer);
            let n = if was_streamed && rows.len() > 0 {
                rows.len() - 1
            } else {
                rows.len() as int
            };
            let out = finished(rows, answer, was_streamed, ts);
            &&& out.len() == n + blocks.len()
            &&& out.take(n) == rows.take(n)
            &&& out[n + k].kind == RowKind::Jarvis
            &&& out[n + k].body == blocks[k].body
            &&& out[n + k].header_rank == blocks[k].header_rank
            &&& out[n + k].is_code == blocks[k].is_code
            &&& out[n + k].is_bullet == blocks[k].is_bullet
            &&& out[n + k].is_bold == blocks[k].is_bold
            &&& out[n + k].continues_prev == blocks[k].continues_prev
            &&& k == blocks.len() - 1 ==> out[n + k].timestamp == ts
            &&& k < blocks.len() - 1 ==> out[n + k].timestamp.len() == 0
        }),
{
    reveal_strlit("");
    let out = finished(rows, answer, was_streamed, ts);
    if was_streamed && rows.len() > 0 {
        assert(out.take(rows.len() - 1) =~= rows.take(rows.len() - 1));
    } else {
        assert(out.take(rows.len() as int) =~= rows.take(rows.len() as int));
    }
}

proof fn lemma_last_pending_is(rows: Seq<EntryModel>, name: Seq<char>, i: int, n: int)
    requires
        -1 <= i < n <= rows.len() || (i == -1 && 0 <= n <= rows.len()),
        i >= 0 ==> rows[i].kind == RowKind::Tool && ("→ "@ + name).is_prefix_of(rows[i].body),
        forall|k: int|
            i < k < n ==> (#[trigger] rows[k]).kind != RowKind::Tool || !("→ "@
                + name).is_prefix_of(rows[k].body),
    ensures
        last_pending(rows, name, n) == i,
    decreases n,
{
    if n > 0 && i < n - 1 {
        assert(rows[n - 1].kind != RowKind::Tool || !("→ "@ + name).is_prefix_of(rows[n - 1].body));
        lemma_last_pending_is(rows, name, i, n - 1);
    }
}

/// A tool that has finished is ticked off, or crossed out, in the last row that
/// shows it at work, which keeps its time; no other row changes.
pub proof fn law_finished_tool_is_marked(
    rows: Seq<EntryModel>,
    name: Seq<char>,
    success: bool,
    i: int,
)
    requires
        0 <= i < rows.len(),
        rows[i].kind == RowKind::Tool,
        ("→ "@ + name).is_prefix_of(rows[i].body),
        forall|k: int|
            i < k < rows.len() ==> (#[trigger] rows[k]).kind != RowKind::Tool || !("→ "@
                + name).is_prefix_of(rows[k].body),
    ensures
        success ==> completed(rows, name, success) == rows.update(
            i,
            row(RowKind::Tool, "✓ "@ + name, rows[i].timestamp),
        ),
        !success ==> completed(rows, name, success) == rows.update(
            i,
            row(RowKind::Tool, "✗ "@ + name, rows[i].timestamp),
        ),
{
    reveal_strlit("✓");
    reveal_strlit("✗");
    reveal_strlit("✓ ");
    reveal_strlit("✗ ");
    reveal_strlit(" ");
    lemma_last_pending_is(rows, name, i, rows.len() as int);
    assert("✓"@ + " "@ =~= "✓ "@);
    assert("✗"@ + " "@ =~= "✗ "@);
}

/// A tool that no row shows at work changes nothing when it finishes.
pub proof fn law_unknown_tool_changes_nothing(
    rows: Seq<EntryModel>,
    name: Seq<char>,
    success: bool,
)
    requires
        forall|k: int|
            0 <= k < rows.len() ==> (#[trigger] rows[k]).kind != RowKind::Tool || !("→ "@
                + name).is_prefix_of(rows[k].body),
    ensures
        completed(rows, name, success) == rows,
{
    lemma_last_pending_is(rows, name, -1, rows.len() as int);
}

proof fn lemma_last_taking_is(rows: Seq<EntryModel>, name: Seq<char>, i: int, n: int)
    requires
        -1 <= i < n <= rows.len() || (i == -1 && 0 <= n <= rows.len()),
        i >= 0 ==> rows[i].kind == RowKind::Tool && (text::mentions(rows[i].body, name)
            || "→ "@.is_prefix_of(rows[i].body)),
        forall|k: int|
            i < k < n ==> (#[trigger] rows[k]).kind != RowKind::Tool || (!text::mentions(
                rows[k].body,
                name,
            ) && !"→ "@.is_prefix_of(rows[k].body)),
    ensures
        last_taking(rows, name, n) == i,
    decreases n,
{
    if n > 0 && i < n - 1 {
        assert(rows[n - 1].kind != RowKind::Tool || (!text::mentions(rows[n - 1].body, name)
            && !"→ "@.is_prefix_of(rows[n - 1].body)));
        lemma_last_taking_is(rows, name, i, n - 1);
    }
}

/// A result goes to the last row of a tool that names it or is still at work:
/// the words of the result follow what the row says, after a dot. What does not
/// fit into 100 characters ends in an ellipsis; a blank result adds nothing.
pub proof fn law_result_goes_to_its_row(
    rows: Seq<EntryModel>,
    name: Seq<char>,
    ws: Seq<Seq<char>>,
    i: int,
)
    requires
        0 <= i < rows.len(),
        rows[i].kind == RowKind::Tool,
        text::mentions(rows[i].body, name) || "→ "@.is_prefix_of(rows[i].body),
        forall|k: int|
            i < k < rows.len() ==> (#[trigger] rows[k]).kind != RowKind::Tool || (!text::mentions(
                rows[k].body,
                name,
            ) && !"→ "@.is_prefix_of(rows[k].body)),
        ws.len() > 0,
        forall|j: int| 0 <= j < ws.len() ==> (#[trigger] ws[j]).len() > 0,
        forall|j: int, k: int|
            0 <= j < ws.len() && 0 <= k < ws[j].len() ==> !text::is_space_spec(
                #[trigger] ws[j][k],
            ),
    ensures
        ({
            let said = text::join_spec(ws, " "@);
            let (b, t) = (rows[i].body, rows[i].timestamp);
            &&& said.len() <= 100 ==> previewed(rows, name, said) == rows.update(
                i,
                row(RowKind::Tool, b + " · "@ + said, t),
            )
            &&& said.len() > 100 ==> previewed(rows, name, said) == rows.update(
                i,
                row(RowKind::Tool, b + " · "@ + said.take(99) + "…"@, t),
            )
            &&& previewed(rows, name, Seq::empty()) == rows.update(i, row(RowKind::Tool, b, t))
        }),
{
    reveal_strlit(" ");
    reveal_strlit("…");
    let said = text::join_spec(ws, " "@);
    let word = |c: char| !text::is_space_spec(c);
    lemma_last_taking_is(rows, name, i, rows.len() as int);
    assert forall|j: int, k: int| 0 <= j < ws.len() && 0 <= k < ws[j].len() implies word(
        #[trigger] ws[j][k],
    ) by {}
    text::law_runs_of_joined_words(ws, word);
    assert(said.len() > 0) by {
        assert(ws[ws.len() - 1].len() > 0);
    }
    if said.len() > 100 {
        assert(rows[i].body + " · "@ + (said.take(99) + "…"@) =~= rows[i].body + " · "@
            + said.take(99) + "…"@);
    }
    let none = Seq::<char>::empty();
    assert(text::words_spec(none) =~= Seq::<Seq<char>>::empty());
    assert(one_line(none) =~= none);
}

/// An exported transcript lists its rows in order: what was said under a heading
/// with the speaker and the time, a tool's row as code, a status as a quote.
pub proof fn law_export_lists_the_rows(rows: Seq<EntryModel>, e: EntryModel)
    ensures
        sections(Seq::empty()).len() == 0,
        e.kind == RowKind::User ==> sections(rows.push(e)) == sections(rows) + "\n## User · "@
            + e.timestamp + "\n\n"@ + e.body + "\n"@,
        e.kind == RowKind::Jarvis ==> sections(rows.push(e)) == sections(rows)
            + "\n## JARVIS · "@ + e.timestamp + "\n\n"@ + e.body + "\n"@,
        e.kind == RowKind::Tool ==> sections(rows.push(e)) == sections(rows) + "\n### tool · "@
            + e.timestamp + "\n\n```\n"@ + e.body + "\n```\n"@,
        e.kind == RowKind::Status ==> sections(rows.push(e)) == sections(rows) + "\n> "@ + e.body
            + "\n"@,
        e.kind == RowKind::Other ==> sections(rows.push(e)) == sections(rows) + "\n"@ + e.body
            + "\n"@,
        title(None) == "# JARVIS conversation\n"@,
        title(Some(e.body)) == "# JARVIS conversation\n"@ + "\n_Thread: `"@ + e.body
            + "`_\n\n"@,
{
    let all = sections(rows.push(e));
    assert(rows.push(e).drop_last() =~= rows);
    let (h, t, b) = (sections(rows), e.timestamp, e.body);
    match e.kind {
        RowKind::User => {
            assert(all =~= h + "\n## User · "@ + t + "\n\n"@ + b + "\n"@);
        },
        RowKind::Jarvis => {
            assert(all =~= h + "\n## JARVIS · "@ + t + "\n\n"@ + b + "\n"@);
        },
        RowKind::Tool => {
            assert(all =~= h + "\n### tool · "@ + t + "\n\n```\n"@ + b + "\n```\n"@);
        },
        RowKind::Status => {
            assert(all =~= h + "\n> "@ + b + "\n"@);
        },
        RowKind::Other => {
            assert(all =~= h + "\n"@ + b + "\n"@);
        },
    }
}

/// A turn that was had before is what the user said, if anything, and then the
/// answer, if there was one; turns follow one another.
pub proof fn law_history_follows_the_turns(turns: Seq<TurnInfo>, t: TurnInfo, ts: Seq<char>)
    ensures
        ({
            let had = history_rows(turns, ts);
            let all = history_rows(turns.push(t), ts);
            let said = t.user_input@;
            let silent = t.response is None || t.response->0@.len() == 0;
            &&& said.len() == 0 && silent ==> all == had
            &&& said.len() > 0 && silent ==> all == had.push(row(RowKind::User, said, ts))
            &&& said.len() == 0 && !silent ==> all == had + answer_rows(t.response->0@, ts)
            &&& said.len() > 0 && !silent ==> all == had.push(row(RowKind::User, said, ts))
                + answer_rows(t.response->0@, ts)
        }),
{
    assert(turns.push(t).drop_last() =~= turns);
    let had = history_rows(turns, ts);
    let said = t.user_input@;
    let all = history_rows(turns.push(t), ts);
    if t.response is None || t.response->0@.len() == 0 {
        if said.len() == 0 {
            assert(all =~= had);
        } else {
            assert(all =~= had.push(row(RowKind::User, said, ts)));
        }
    } else {
        if said.len() == 0 {
            assert(all =~= had + answer_rows(t.response->0@, ts));
        } else {
            assert(all =~= had.push(row(RowKind::User, said, ts)) + answer_rows(
                t.response->0@,
                ts,
            ));
        }
    }
}

/// The clock shows the hours and the minutes of the day, each in two digits,
/// and the same at the same time of every day.
pub proof fn law_clock_shows_the_time_of_day(day: nat, hours: nat, minutes: nat, seconds: nat)
    requires
        hours < 24 && minutes < 60 && seconds < 60,
    ensures
        ({
            let c = clock((86400 * day + 3600 * hours + 60 * minutes + seconds) as int);
            &&& c.len() == 5
            &&& c[0] as int == '0' as int + hours / 10
            &&& c[1] as int == '0' as int + hours % 10
            &&& c[2] == ':'
            &&& c[3] as int == '0' as int + minutes / 10
            &&& c[4] as int == '0' as int + minutes % 10
        }),
{
    let s = (86400 * day + 3600 * hours + 60 * minutes + seconds) as int;
    let d = 3600 * hours + 60 * minutes + seconds;
    assert(s % 86400 == d) by (nonlinear_arith)
        requires
            s == 86400 * day + d,
            0 <= d < 86400,
    ;
    let m = s % 86400 / 60;
    assert(m == 60 * hours + minutes);
    assert(m / 600 == hours / 10);
    assert(m / 60 == hours);
    assert(m % 60 == minutes);
    assert(m % 10 == minutes % 10);
}

/// A text for a notification is left as it is where it fits, and otherwise
/// starts with as much of it as fits and ends in an ellipsis.
pub proof fn law_toasts_are_cut(s: Seq<char>, max: int)
    requires
        0 <= max,
    ensures
        s.len() <= max ==> text::ellipsized(s, max) == s,
        s.len() > max ==> {
            let r = text::ellipsized(s, max);
            r.len() == max + 1 && r.last() == '…' && r.drop_last() == s.take(max)
        },
{
    reveal_strlit("…");
    if s.len() > max {
        assert(text::ellipsized(s, max).drop_last() =~= s.take(max));
    }
}

/// Rows are what their models say, one by one.
pub proof fn law_models_are_the_rows(s: Seq<TranscriptEntry>, i: int)
    requires
        0 <= i < s.len(),
    ensures
        models(s).len() == s.len(),
        models(s)[i].kind == s[i].kind,
        models(s)[i].body == s[i].body@,
        models(s)[i].header_rank == s[i].header_rank,
        models(s)[i].is_code == s[i].is_code,
        models(s)[i].is_bullet == s[i].is_bullet,
        models(s)[i].is_bold == s[i].is_bold,
        models(s)[i].timestamp == s[i].timestamp@,
        models(s)[i].continues_prev == s[i].continues_prev,
{
}

} // verus!
