//! The list of conversations in the sidebar.

use vstd::prelude::*;

use crate::desktop::gateway::{ThreadInfo, ThreadListResponse};
use crate::text;
use crate::text::{chars_of, copy_range, decimal, find_from, joined, same, string_of, take_chars};

verus! {

/// One conversation of the list.
#[derive(Debug)]
pub struct ConversationRow {
    pub id: String,
    pub title: String,
    pub subtitle: String,
    pub is_active: bool,
}

/// What a conversation's row holds.
#[verifier::ext_equal]
pub struct ConversationModel {
    pub id: Seq<char>,
    pub title: Seq<char>,
    pub subtitle: Seq<char>,
    pub is_active: bool,
}

impl View for ConversationRow {
    type V = ConversationModel;

    open spec fn view(&self) -> ConversationModel {
        ConversationModel {
            id: self.id@,
            title: self.title@,
            subtitle: self.subtitle@,
            is_active: self.is_active,
        }
    }
}

/// The models of a sequence of rows.
pub open spec fn models(s: Seq<ConversationRow>) -> Seq<ConversationModel> {
    s.map_values(|r: ConversationRow| r@)
}

/// The hours and minutes of a date with a time, else the date.
pub open spec fn date(s: Seq<char>) -> Seq<char> {
    let t = text::index_from(s, 'T', 0);
    if t < s.len() {
        text::head(s.skip(t + 1), 5)
    } else {
        text::head(s, 10)
    }
}

/// The hours and minutes of a date in RFC 3339, else its first ten characters.
pub fn short_date(rfc3339: &str) -> (r: String)
    ensures
        r@ == date(rfc3339@),
{
    let chars = chars_of(rfc3339);
    let n: usize = chars.len();
    let t: usize = find_from(chars.as_slice(), 'T', 0);
    if t < n {
        let rest = copy_range(chars.as_slice(), t + 1, n);
        assert(rest@ =~= rfc3339@.skip(t + 1));
        let s = string_of(rest.as_slice());
        take_chars(s.as_str(), 5)
    } else {
        take_chars(rfc3339, 10)
    }
}

/// The row of a thread.
pub open spec fn row_of(t: ThreadInfo, active: Seq<char>) -> ConversationModel {
    ConversationModel {
        id: t.id@,
        title: "Thread "@ + text::head(t.id@, 8),
        subtitle: text::decimal_spec(t.turn_count as nat) + " turn"@ + if t.turn_count == 1 {
            ""@
        } else {
            "s"@
        } + " • "@ + date(t.updated_at@),
        is_active: t.id@ == active,
    }
}

/// The thread that is marked: the active one, if there is one.
pub open spec fn active_of(l: ThreadListResponse) -> Seq<char> {
    match l.active_thread {
        Some(id) => id@,
        None => ""@,
    }
}

/// The rows of a list of threads.
pub open spec fn rows_of(l: ThreadListResponse) -> Seq<ConversationModel> {
    l.threads@.map_values(|t: ThreadInfo| row_of(t, active_of(l)))
}

fn conversation_row(t: &ThreadInfo, active: &str) -> (r: ConversationRow)
    ensures
        r@ == row_of(*t, active@),
{
    let short = take_chars(t.id.as_str(), 8);
    let title = joined("Thread ", short.as_str());
    let mut subtitle = decimal(t.turn_count as u64);
    subtitle.push_str(" turn");
    subtitle.push_str(
        if t.turn_count == 1 {
            ""
        } else {
            "s"
        },
    );
    subtitle.push_str(" • ");
    subtitle.push_str(short_date(t.updated_at.as_str()).as_str());
    ConversationRow {
        id: t.id.clone(),
        title,
        subtitle,
        is_active: same(t.id.as_str(), active),
    }
}

/// The rows of a list of threads, in its order.
pub fn refresh_conversation_model(list: &ThreadListResponse) -> (out: Vec<ConversationRow>)
    ensures
        models(out@) == rows_of(*list),
{
    let active = match &list.active_thread {
        Some(id) => id.clone(),
        None => "".to_owned(),
    };
    let mut out: Vec<ConversationRow> = Vec::new();
    let mut i: usize = 0;
    while i < list.threads.len()
        invariant
            i <= list.threads@.len(),
            active@ == active_of(*list),
            models(out@) == rows_of(*list).take(i as int),
        decreases list.threads@.len() - i,
    {
        let ghost done = out@;
        let r = conversation_row(&list.threads[i], active.as_str());
        out.push(r);
        proof {
            assert(models(out@) =~= models(done).push(r@));
            assert(rows_of(*list).take(i + 1) =~= rows_of(*list).take(i as int).push(
                rows_of(*list)[i as int],
            ));
        }
        i += 1;
    }
    assert(rows_of(*list).take(i as int) =~= rows_of(*list));
    out
}

/// The rows with the conversation `id` marked and no other.
pub open spec fn selected(rows: Seq<ConversationModel>, id: Seq<char>) -> Seq<ConversationModel> {
    rows.map_values(|r: ConversationModel| ConversationModel { is_active: r.id == id, ..r })
}

/// Marks the conversation that the user picked.
pub fn select_conversation(rows: &mut Vec<ConversationRow>, id: &str)
    ensures
        models(final(rows)@) == selected(models(old(rows)@), id@),
{
    let ghost want = selected(models(rows@), id@);
    let ghost before = rows@;
    let mut i: usize = 0;
    while i < rows.len()
        invariant
            i <= rows@.len(),
            rows@.len() == before.len() == want.len(),
            want == selected(models(before), id@),
            forall|k: int| 0 <= k < i ==> (#[trigger] rows@[k])@ == want[k],
            forall|k: int| i <= k < rows@.len() ==> #[trigger] rows@[k] == before[k],
        decreases rows@.len() - i,
    {
        assert(models(before)[i as int] == rows@[i as int]@);
        let is_active = same(rows[i].id.as_str(), id);
        rows[i].is_active = is_active;
        assert(rows@[i as int]@ == want[i as int]);
        i += 1;
    }
    assert(models(rows@) =~= want);
}

/// Exactly the rows of the conversation that was picked are marked, and nothing
/// else about the rows changes.
pub proof fn law_selection_is_exclusive(rows: Seq<ConversationModel>, id: Seq<char>, i: int)
    requires
        0 <= i < rows.len(),
    ensures
        selected(rows, id).len() == rows.len(),
        selected(rows, id)[i].is_active <==> rows[i].id == id,
        selected(rows, id)[i].id == rows[i].id,
        selected(rows, id)[i].title == rows[i].title,
        selected(rows, id)[i].subtitle == rows[i].subtitle,
{
}

/// The name of the file that a transcript is exported to.
pub fn export_file_name(unix_secs: u64) -> (s: String)
    ensures
        s@ == "jarvis-conversation-"@ + text::decimal_spec(unix_secs as nat) + ".md"@,
{
    let mut s = joined("jarvis-conversation-", decimal(unix_secs).as_str());
    s.push_str(".md");
    s
}

/// What the status line says of a text that went to the clipboard.
pub fn copied_status(copied: &str) -> (s: String)
    ensures
        s@ == "copied: "@ + text::head(copied@, 40),
{
    let preview = take_chars(copied, 40);
    joined("copied: ", preview.as_str())
}

/// Of a date with a time the five characters of hours and minutes are shown, and
/// of a text without a time the first ten.
pub proof fn law_dates_are_short(day: Seq<char>, time: Seq<char>, rest: Seq<char>)
    requires
        forall|k: int| 0 <= k < day.len() ==> day[k] != 'T',
        time.len() == 5,
    ensures
        date(day + "T"@ + time + rest) == time,
        day.len() <= 10 ==> date(day) == day,
        day.len() > 10 ==> date(day) == day.take(10),
{
    reveal_strlit("T");
    let s = day + "T"@ + time + rest;
    let n = day.len() as int;
    assert(s[n] == 'T');
    assert forall|k: int| 0 <= k < n implies s[k] != 'T' by {
        assert(s[k] == day[k]);
    }
    text::lemma_index_from(s, 'T', 0);
    assert(s.skip(n + 1) =~= time + rest);
    assert((time + rest).take(5) =~= time);
    if rest.len() == 0 {
        assert(time + rest =~= time);
    }
    text::lemma_index_from(day, 'T', 0);
}

/// The rows are those of the threads in order: each named by the start of its
/// id, with the number of its turns and when it last changed, and marked if it
/// is the active one.
pub proof fn law_rows_show_the_threads(l: ThreadListResponse, i: int)
    requires
        0 <= i < l.threads@.len(),
    ensures
        ({
            let t = l.threads@[i];
            let r = rows_of(l)[i];
            let n = text::decimal_spec(t.turn_count as nat);
            &&& rows_of(l).len() == l.threads@.len()
            &&& r.id == t.id@
            &&& t.id@.len() >= 8 ==> r.title == "Thread "@ + t.id@.take(8)
            &&& t.id@.len() < 8 ==> r.title == "Thread "@ + t.id@
            &&& t.turn_count == 1 ==> r.subtitle == "1 turn • "@ + date(t.updated_at@)
            &&& t.turn_count != 1 ==> r.subtitle == n + " turns • "@ + date(t.updated_at@)
            &&& l.active_thread matches Some(a) ==> (r.is_active <==> t.id@ == a@)
            &&& l.active_thread is None && t.id@.len() > 0 ==> !r.is_active
        }),
{
    reveal_strlit("");
    reveal_strlit("s");
    reveal_strlit(" turn");
    reveal_strlit(" • ");
    reveal_strlit("1 turn • ");
    reveal_strlit(" turns • ");
    let t = l.threads@[i];
    let n = text::decimal_spec(t.turn_count as nat);
    if t.id@.len() == 8 {
        assert(t.id@.take(8) =~= t.id@);
    }
    text::law_decimals(t.turn_count as nat);
    if t.turn_count == 1 {
        assert(n + " turn"@ + ""@ + " • "@ =~= "1 turn • "@);
    } else {
        assert(n + " turn"@ + "s"@ + " • "@ =~= n + " turns • "@);
    }
}

/// Picking a conversation marks it and no other, and changes nothing else.
pub proof fn law_one_conversation_is_picked(rows: Seq<ConversationModel>, id: Seq<char>, i: int)
    requires
        0 <= i < rows.len(),
    ensures
        ({
            let out = selected(rows, id);
            &&& out.len() == rows.len()
            &&& out[i].is_active <==> rows[i].id == id
            &&& out[i].id == rows[i].id && out[i].title == rows[i].title && out[i].subtitle
                == rows[i].subtitle
        }),
{
}

/// Rows are what their models say, one by one.
pub proof fn law_models_are_the_conversations(s: Seq<ConversationRow>, i: int)
    requires
        0 <= i < s.len(),
    ensures
        models(s).len() == s.len(),
        models(s)[i].id == s[i].id@,
        models(s)[i].title == s[i].title@,
        models(s)[i].subtitle == s[i].subtitle@,
        models(s)[i].is_active == s[i].is_active,
{
}

} // verus!
