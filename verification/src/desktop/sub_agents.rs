//! The panel of sub-agents: one card for each named identity, which counts how
//! often it was called.

use vstd::prelude::*;

use crate::desktop::agent_names;
use crate::desktop::agent_names::identify;
use crate::text::{is_empty, same};

verus! {

/// How a sub-agent is doing.
#[derive(Debug, Clone, Copy, PartialEq, Eq, Structural)]
pub enum AgentState {
    Running,
    Done,
    Failed,
}

/// One card.
#[derive(Debug)]
pub struct SubAgentRow {
    /// The call that the card shows.
    pub id: String,
    /// The identity's name.
    pub label: String,
    pub tool_name: String,
    pub category: String,
    pub status: String,
    pub state: AgentState,
    pub done: bool,
    /// How often the identity was called; stays at the greatest number.
    pub turn_count: i32,
    pub tint_r: i32,
    pub tint_g: i32,
    pub tint_b: i32,
}

/// What a card holds.
#[verifier::ext_equal]
pub struct RowModel {
    pub id: Seq<char>,
    pub label: Seq<char>,
    pub tool_name: Seq<char>,
    pub category: Seq<char>,
    pub status: Seq<char>,
    pub state: AgentState,
    pub done: bool,
    pub turn_count: int,
    pub tint: (int, int, int),
}

impl View for SubAgentRow {
    type V = RowModel;

    open spec fn view(&self) -> RowModel {
        RowModel {
            id: self.id@,
            label: self.label@,
            tool_name: self.tool_name@,
            category: self.category@,
            status: self.status@,
            state: self.state,
            done: self.done,
            turn_count: self.turn_count as int,
            tint: (self.tint_r as int, self.tint_g as int, self.tint_b as int),
        }
    }
}

/// The models of a sequence of cards.
pub open spec fn models(s: Seq<SubAgentRow>) -> Seq<RowModel> {
    s.map_values(|r: SubAgentRow| r@)
}

/// The first card from `i` on that shows the call `id`, or the number of cards.
pub open spec fn by_id(rows: Seq<RowModel>, id: Seq<char>, i: int) -> int
    decreases rows.len() - i,
{
    if i < 0 || i >= rows.len() {
        rows.len() as int
    } else if rows[i].id == id {
        i
    } else {
        by_id(rows, id, i + 1)
    }
}

/// The first card from `i` on that shows the call `id` as not yet done, or the
/// number of cards.
pub open spec fn open_by_id(rows: Seq<RowModel>, id: Seq<char>, i: int) -> int
    decreases rows.len() - i,
{
    if i < 0 || i >= rows.len() {
        rows.len() as int
    } else if rows[i].id == id && !rows[i].done {
        i
    } else {
        open_by_id(rows, id, i + 1)
    }
}

/// The first card from `i` on of the identity `label`, or the number of cards.
pub open spec fn by_label(rows: Seq<RowModel>, label: Seq<char>, i: int) -> int
    decreases rows.len() - i,
{
    if i < 0 || i >= rows.len() {
        rows.len() as int
    } else if rows[i].label == label {
        i
    } else {
        by_label(rows, label, i + 1)
    }
}

/// One more, unless that cannot be counted.
pub open spec fn one_more(n: int) -> int {
    if n < i32::MAX {
        n + 1
    } else {
        n
    }
}

/// The cards after a call has started. A call that is shown already is left
/// alone; a known identity takes the call on; else there is a new card.
pub open spec fn started(rows: Seq<RowModel>, id: Seq<char>, tool: Seq<char>) -> Seq<RowModel> {
    let who = agent_names::identity(tool);
    let i = by_label(rows, who.name, 0);
    if by_id(rows, id, 0) < rows.len() {
        rows
    } else if i < rows.len() {
        rows.update(
            i,
            RowModel {
                id,
                tool_name: tool,
                status: "running"@,
                state: AgentState::Running,
                done: false,
                turn_count: one_more(rows[i].turn_count),
                ..rows[i]
            },
        )
    } else {
        rows.push(
            RowModel {
                id,
                label: who.name,
                tool_name: tool,
                category: who.category,
                status: "running"@,
                state: AgentState::Running,
                done: false,
                turn_count: 1,
                tint: (who.rgb.0 as int, who.rgb.1 as int, who.rgb.2 as int),
            },
        )
    }
}

/// The cards after a running call has reported.
pub open spec fn reported(rows: Seq<RowModel>, id: Seq<char>, message: Seq<char>) -> Seq<
    RowModel,
> {
    let i = open_by_id(rows, id, 0);
    if i < rows.len() {
        rows.update(i, RowModel { status: message, ..rows[i] })
    } else {
        rows
    }
}

/// The cards after a call has finished.
pub open spec fn finished(
    rows: Seq<RowModel>,
    id: Seq<char>,
    success: bool,
    summary: Seq<char>,
) -> Seq<RowModel> {
    let i = by_id(rows, id, 0);
    if i < rows.len() {
        rows.update(
            i,
            RowModel {
                done: true,
                state: if success {
                    AgentState::Done
                } else {
                    AgentState::Failed
                },
                status: if summary.len() > 0 {
                    summary
                } else if success {
                    "ok"@
                } else {
                    "failed"@
                },
                ..rows[i]
            },
        )
    } else {
        rows
    }
}

/// The cards without the first one that shows the call `id`.
pub open spec fn pruned(rows: Seq<RowModel>, id: Seq<char>) -> Seq<RowModel> {
    let i = by_id(rows, id, 0);
    if i < rows.len() {
        rows.remove(i)
    } else {
        rows
    }
}

/// The panel.
pub struct SubAgents {
    pub rows: Vec<SubAgentRow>,
}

impl View for SubAgents {
    type V = Seq<RowModel>;

    open spec fn view(&self) -> Seq<RowModel> {
        models(self.rows@)
    }
}

impl SubAgents {
    /// No cards.
    pub fn new() -> (s: Self)
        ensures
            s@ == Seq::<RowModel>::empty(),
    {
        let s = SubAgents { rows: Vec::new() };
        assert(s@ =~= Seq::<RowModel>::empty());
        s
    }

    fn find_id(&self, id: &str) -> (i: usize)
        ensures
            i == by_id(self@, id@, 0),
            i <= self.rows@.len(),
    {
        let mut i: usize = 0;
        while i < self.rows.len()
            invariant
                i <= self.rows@.len(),
                by_id(self@, id@, 0) == by_id(self@, id@, i as int),
            decreases self.rows@.len() - i,
        {
            assert(self@[i as int] == self.rows@[i as int]@);
            if same(self.rows[i].id.as_str(), id) {
                return i;
            }
            i += 1;
        }
        i
    }

    fn find_open(&self, id: &str) -> (i: usize)
        ensures
            i == open_by_id(self@, id@, 0),
            i <= self.rows@.len(),
    {
        let mut i: usize = 0;
        while i < self.rows.len()
            invariant
                i <= self.rows@.len(),
                open_by_id(self@, id@, 0) == open_by_id(self@, id@, i as int),
            decreases self.rows@.len() - i,
        {
            assert(self@[i as int] == self.rows@[i as int]@);
            if same(self.rows[i].id.as_str(), id) && !self.rows[i].done {
                return i;
            }
            i += 1;
        }
        i
    }

    fn find_label(&self, label: &str) -> (i: usize)
        ensures
            i == by_label(self@, label@, 0),
            i <= self.rows@.len(),
    {
        let mut i: usize = 0;
        while i < self.rows.len()
            invariant
                i <= self.rows@.len(),
                by_label(self@, label@, 0) == by_label(self@, label@, i as int),
            decreases self.rows@.len() - i,
        {
            assert(self@[i as int] == self.rows@[i as int]@);
            if same(self.rows[i].label.as_str(), label) {
                return i;
            }
            i += 1;
        }
        i
    }

    /// A call has started.
    pub fn push_sub_agent_row(&mut self, id: &str, tool_name: &str)
        ensures
            final(self)@ == started(old(self)@, id@, tool_name@),
    {
        if self.find_id(id) < self.rows.len() {
            return ;
        }
        let who = identify(tool_name);
        let i: usize = self.find_label(who.name);
        if i < self.rows.len() {
            let n: i32 = self.rows[i].turn_count;
            let count: i32 = if n < i32::MAX {
                n + 1
            } else {
                n
            };
            let row = SubAgentRow {
                id: id.to_owned(),
                label: self.rows[i].label.clone(),
                tool_name: tool_name.to_owned(),
                category: self.rows[i].category.clone(),
                status: "running".to_owned(),
                state: AgentState::Running,
                done: false,
                turn_count: count,
                tint_r: self.rows[i].tint_r,
                tint_g: self.rows[i].tint_g,
                tint_b: self.rows[i].tint_b,
            };
            self.rows[i] = row;
            assert(self@ =~= started(old(self)@, id@, tool_name@));
        } else {
            self.rows.push(
                SubAgentRow {
                    id: id.to_owned(),
                    label: who.name.to_owned(),
                    tool_name: tool_name.to_owned(),
                    category: who.category.to_owned(),
                    status: "running".to_owned(),
                    state: AgentState::Running,
                    done: false,
                    turn_count: 1,
                    tint_r: who.rgb.0 as i32,
                    tint_g: who.rgb.1 as i32,
                    tint_b: who.rgb.2 as i32,
                },
            );
            assert(self@ =~= started(old(self)@, id@, tool_name@));
        }
    }

    /// A running call has reported.
    pub fn update_sub_agent_status(&mut self, id: &str, message: &str)
        ensures
            final(self)@ == reported(old(self)@, id@, message@),
    {
        let i: usize = self.find_open(id);
        if i < self.rows.len() {
            self.rows[i].status = message.to_owned();
            assert(self@ =~= reported(old(self)@, id@, message@));
        }
    }

    /// A call has finished.
    pub fn mark_sub_agent_done(&mut self, id: &str, success: bool, summary: &str)
        ensures
            final(self)@ == finished(old(self)@, id@, success, summary@),
    {
        let i: usize = self.find_id(id);
        if i < self.rows.len() {
            self.rows[i].done = true;
            self.rows[i].state = if success {
                AgentState::Done
            } else {
                AgentState::Failed
            };
            self.rows[i].status = if !is_empty(summary) {
                summary.to_owned()
            } else if success {
                "ok".to_owned()
            } else {
                "failed".to_owned()
            };
            assert(self@ =~= finished(old(self)@, id@, success, summary@));
        }
    }

    /// The user has dismissed the card of a call.
    pub fn prune_sub_agent_row(&mut self, id: &str)
        ensures
            final(self)@ == pruned(old(self)@, id@),
    {
        let i: usize = self.find_id(id);
        if i < self.rows.len() {
            let _ = self.rows.remove(i);
            assert(self@ =~= pruned(old(self)@, id@));
        }
    }
}

/// Whether each identity has one card at most.
pub open spec fn one_card_each(rows: Seq<RowModel>) -> bool {
    forall|i: int, j: int|
        0 <= i < j < rows.len() ==> (#[trigger] rows[i]).label != (#[trigger] rows[j]).label
}

proof fn lemma_by_label(rows: Seq<RowModel>, label: Seq<char>, i: int)
    requires
        0 <= i <= rows.len(),
    ensures
        i <= by_label(rows, label, i) <= rows.len(),
        by_label(rows, label, i) < rows.len() ==> rows[by_label(rows, label, i)].label == label,
        forall|k: int| i <= k < by_label(rows, label, i) ==> (#[trigger] rows[k]).label != label,
    decreases rows.len() - i,
{
    if i < rows.len() && rows[i].label != label {
        lemma_by_label(rows, label, i + 1);
    }
}

proof fn lemma_by_id(rows: Seq<RowModel>, id: Seq<char>, i: int)
    requires
        0 <= i <= rows.len(),
    ensures
        i <= by_id(rows, id, i) <= rows.len(),
        by_id(rows, id, i) < rows.len() ==> rows[by_id(rows, id, i)].id == id,
        forall|k: int| i <= k < by_id(rows, id, i) ==> (#[trigger] rows[k]).id != id,
    decreases rows.len() - i,
{
    if i < rows.len() && rows[i].id != id {
        lemma_by_id(rows, id, i + 1);
    }
}

proof fn lemma_open_by_id(rows: Seq<RowModel>, id: Seq<char>, i: int)
    requires
        0 <= i <= rows.len(),
    ensures
        i <= open_by_id(rows, id, i) <= rows.len(),
        open_by_id(rows, id, i) < rows.len() ==> rows[open_by_id(rows, id, i)].id == id
            && !rows[open_by_id(rows, id, i)].done,
        forall|k: int|
            i <= k < open_by_id(rows, id, i) ==> (#[trigger] rows[k]).id != id || rows[k].done,
    decreases rows.len() - i,
{
    if i < rows.len() && !(rows[i].id == id && !rows[i].done) {
        lemma_open_by_id(rows, id, i + 1);
    }
}

/// Whatever happens, no identity gets a second card.
pub proof fn law_one_card_each(
    rows: Seq<RowModel>,
    id: Seq<char>,
    tool: Seq<char>,
    success: bool,
    message: Seq<char>,
)
    requires
        one_card_each(rows),
    ensures
        one_card_each(started(rows, id, tool)),
        one_card_each(reported(rows, id, message)),
        one_card_each(finished(rows, id, success, message)),
        one_card_each(pruned(rows, id)),
{
    let who = agent_names::identity(tool);
    lemma_by_label(rows, who.name, 0);
    lemma_by_id(rows, id, 0);
    lemma_open_by_id(rows, id, 0);
    let p = pruned(rows, id);
    let r = by_id(rows, id, 0);
    if r < rows.len() {
        assert forall|i: int, j: int| 0 <= i < j < p.len() implies (#[trigger] p[i]).label != (
        #[trigger] p[j]).label by {
            let a = if i < r {
                i
            } else {
                i + 1
            };
            let b = if j < r {
                j
            } else {
                j + 1
            };
            assert(p[i] == rows[a]);
            assert(p[j] == rows[b]);
        }
    }
}

/// A call that is shown already changes nothing when it starts again.
pub proof fn law_starting_is_idempotent(rows: Seq<RowModel>, id: Seq<char>, tool: Seq<char>)
    ensures
        started(started(rows, id, tool), id, tool) == started(rows, id, tool),
{
    let once = started(rows, id, tool);
    let who = agent_names::identity(tool);
    lemma_by_label(rows, who.name, 0);
    lemma_by_id(rows, id, 0);
    lemma_by_id(once, id, 0);
    let i = by_label(rows, who.name, 0);
    if by_id(rows, id, 0) >= rows.len() {
        assert(once[i].id == id);
    }
}

/// A new call of a known identity goes to its card and is counted there; every
/// other card stays.
pub proof fn law_calls_accumulate(rows: Seq<RowModel>, id: Seq<char>, tool: Seq<char>, i: int)
    requires
        0 <= i < rows.len(),
        rows[i].label == agent_names::identity(tool).name,
        one_card_each(rows),
        forall|k: int| 0 <= k < rows.len() ==> (#[trigger] rows[k]).id != id,
    ensures
        ({
            let after = started(rows, id, tool);
            &&& after.len() == rows.len()
            &&& after[i].id == id
            &&& after[i].turn_count == one_more(rows[i].turn_count)
            &&& forall|k: int| 0 <= k < rows.len() && k != i ==> #[trigger] after[k] == rows[k]
        }),
{
    lemma_by_label(rows, agent_names::identity(tool).name, 0);
    lemma_by_id(rows, id, 0);
}

/// A call that starts.
pub struct Call {
    pub id: Seq<char>,
    pub tool: Seq<char>,
}

/// The identity that a call goes to.
pub open spec fn name_of(c: Call) -> Seq<char> {
    agent_names::identity(c.tool).name
}

/// The cards after calls have started, one after the other.
pub open spec fn after_calls(calls: Seq<Call>) -> Seq<RowModel>
    decreases calls.len(),
{
    if calls.len() == 0 {
        Seq::empty()
    } else {
        started(after_calls(calls.drop_last()), calls.last().id, calls.last().tool)
    }
}

/// The identities that were called, in the order of their first calls.
pub open spec fn names_called(calls: Seq<Call>) -> Seq<Seq<char>>
    decreases calls.len(),
{
    if calls.len() == 0 {
        Seq::empty()
    } else {
        let before = names_called(calls.drop_last());
        if before.contains(name_of(calls.last())) {
            before
        } else {
            before.push(name_of(calls.last()))
        }
    }
}

/// How often an identity was called.
pub open spec fn times_called(calls: Seq<Call>, name: Seq<char>) -> int
    decreases calls.len(),
{
    if calls.len() == 0 {
        0
    } else if name_of(calls.last()) == name {
        times_called(calls.drop_last(), name) + 1
    } else {
        times_called(calls.drop_last(), name)
    }
}

/// The index of the last call of an identity, or -1.
pub open spec fn latest_call(calls: Seq<Call>, name: Seq<char>) -> int
    decreases calls.len(),
{
    if calls.len() == 0 {
        -1
    } else if name_of(calls.last()) == name {
        calls.len() - 1
    } else {
        latest_call(calls.drop_last(), name)
    }
}

/// The greatest number that a card can count to stands for all above it.
pub open spec fn counted(n: int) -> int {
    if n <= i32::MAX {
        n
    } else {
        i32::MAX as int
    }
}

/// Whether a card says of the identity `name` what the calls make true: how
/// often it was called, and that its latest call is running.
pub open spec fn tells(row: RowModel, calls: Seq<Call>, name: Seq<char>) -> bool {
    let k = latest_call(calls, name);
    &&& row.label == name
    &&& row.turn_count == counted(times_called(calls, name))
    &&& 0 <= k < calls.len()
    &&& row.id == calls[k].id
    &&& row.tool_name == calls[k].tool
    &&& row.state == AgentState::Running
    &&& !row.done
}

proof fn lemma_never_called(calls: Seq<Call>, name: Seq<char>)
    requires
        !names_called(calls).contains(name),
    ensures
        times_called(calls, name) == 0,
    decreases calls.len(),
{
    if calls.len() > 0 {
        let before = names_called(calls.drop_last());
        let now = names_called(calls);
        if before.contains(name) {
            let j = choose|j: int| 0 <= j < before.len() && before[j] == name;
            assert(now[j] == name);
        }
        if name_of(calls.last()) == name {
            assert(now[now.len() - 1] == name);
        }
        lemma_never_called(calls.drop_last(), name);
    }
}

/// Whatever calls start, there is one card for each identity that was called,
/// in the order of the first calls, and it tells how often the identity was
/// called and shows its latest call as running.
pub proof fn law_cards_tell_the_calls(calls: Seq<Call>)
    requires
        forall|i: int, j: int| 0 <= i < j < calls.len() ==> calls[i].id != calls[j].id,
    ensures
        one_card_each(after_calls(calls)),
        names_called(calls).no_duplicates(),
        after_calls(calls).len() == names_called(calls).len(),
        forall|i: int|
            0 <= i < names_called(calls).len() ==> tells(
                #[trigger] after_calls(calls)[i],
                calls,
                names_called(calls)[i],
            ),
    decreases calls.len(),
{
    if calls.len() > 0 {
        let init = calls.drop_last();
        let c = calls.last();
        let name = name_of(c);
        law_cards_tell_the_calls(init);
        let rows = after_calls(init);
        let before = names_called(init);
        let now = names_called(calls);
        lemma_by_id(rows, c.id, 0);
        lemma_by_label(rows, name, 0);
        let r = by_id(rows, c.id, 0);
        assert(r == rows.len()) by {
            if r < rows.len() {
                assert(tells(rows[r], init, before[r]));
                let k = latest_call(init, before[r]);
                assert(calls[k].id == c.id);
            }
        }
        let i = by_label(rows, name, 0);
        if i < rows.len() {
            assert(tells(rows[i], init, before[i]));
            assert(before[i] == name);
        } else {
            if before.contains(name) {
                let j = choose|j: int| 0 <= j < before.len() && before[j] == name;
                assert(tells(rows[j], init, before[j]));
            }
            lemma_never_called(init, name);
        }
        law_one_card_each(rows, c.id, c.tool, true, Seq::empty());
        assert forall|j: int| 0 <= j < now.len() implies tells(
            #[trigger] after_calls(calls)[j],
            calls,
            now[j],
        ) by {
            if j < before.len() {
                assert(tells(rows[j], init, before[j]));
            }
        }
    }
}

/// The first call of an identity adds a card at the end, which shows it at work.
pub proof fn law_first_call_adds_a_card(rows: Seq<RowModel>, id: Seq<char>, tool: Seq<char>)
    requires
        forall|k: int|
            0 <= k < rows.len() ==> (#[trigger] rows[k]).id != id && rows[k].label
                != agent_names::identity(tool).name,
    ensures
        ({
            let out = started(rows, id, tool);
            let card = out.last();
            let who = agent_names::identity(tool);
            &&& out.len() == rows.len() + 1
            &&& out.drop_last() == rows
            &&& card.id == id
            &&& card.tool_name == tool
            &&& card.label == who.name
            &&& card.category == who.category
            &&& card.tint == (who.rgb.0 as int, who.rgb.1 as int, who.rgb.2 as int)
            &&& card.status == "running"@
            &&& card.state == AgentState::Running
            &&& !card.done
            &&& card.turn_count == 1
        }),
{
    lemma_by_id(rows, id, 0);
    lemma_by_label(rows, agent_names::identity(tool).name, 0);
    assert(started(rows, id, tool).drop_last() =~= rows);
}

/// A further call of an identity is shown as running on the card that it has:
/// the card keeps its name, category and colour and counts one call more.
pub proof fn law_further_call_reopens_the_card(
    rows: Seq<RowModel>,
    id: Seq<char>,
    tool: Seq<char>,
    i: int,
)
    requires
        0 <= i < rows.len(),
        rows[i].label == agent_names::identity(tool).name,
        0 <= rows[i].turn_count < i32::MAX,
        forall|k: int| 0 <= k < i ==> (#[trigger] rows[k]).label != rows[i].label,
        forall|k: int| 0 <= k < rows.len() ==> (#[trigger] rows[k]).id != id,
    ensures
        started(rows, id, tool) == rows.update(
            i,
            RowModel {
                id,
                label: rows[i].label,
                tool_name: tool,
                category: rows[i].category,
                status: "running"@,
                state: AgentState::Running,
                done: false,
                turn_count: rows[i].turn_count + 1,
                tint: rows[i].tint,
            },
        ),
{
    lemma_by_id(rows, id, 0);
    lemma_by_label(rows, agent_names::identity(tool).name, 0);
}

/// A report of a call that is not done becomes the status of its card, and
/// changes nothing else; a report of any other call is dropped.
pub proof fn law_reports_become_the_status(
    rows: Seq<RowModel>,
    id: Seq<char>,
    message: Seq<char>,
    i: int,
)
    ensures
        0 <= i < rows.len() && rows[i].id == id && !rows[i].done && (forall|k: int|
            0 <= k < i ==> (#[trigger] rows[k]).id != id || rows[k].done) ==> {
            let out = reported(rows, id, message);
            &&& out.len() == rows.len()
            &&& out[i].status == message
            &&& out[i].id == id && out[i].label == rows[i].label && out[i].tool_name
                == rows[i].tool_name && out[i].category == rows[i].category
            &&& out[i].state == rows[i].state && !out[i].done && out[i].turn_count
                == rows[i].turn_count && out[i].tint == rows[i].tint
            &&& forall|k: int| 0 <= k < rows.len() && k != i ==> #[trigger] out[k] == rows[k]
        },
        (forall|k: int| 0 <= k < rows.len() ==> (#[trigger] rows[k]).id != id || rows[k].done)
            ==> reported(rows, id, message) == rows,
{
    lemma_open_by_id(rows, id, 0);
}

/// A call that has finished is marked so on its card, with its summary or, where
/// it has none, a word for how it went; nothing else changes.
pub proof fn law_finished_calls_are_marked(
    rows: Seq<RowModel>,
    id: Seq<char>,
    success: bool,
    summary: Seq<char>,
    i: int,
)
    ensures
        0 <= i < rows.len() && rows[i].id == id && (forall|k: int|
            0 <= k < i ==> (#[trigger] rows[k]).id != id) ==> {
            let out = finished(rows, id, success, summary);
            &&& out.len() == rows.len()
            &&& out[i].done
            &&& success ==> out[i].state == AgentState::Done
            &&& !success ==> out[i].state == AgentState::Failed
            &&& summary.len() > 0 ==> out[i].status == summary
            &&& summary.len() == 0 && success ==> out[i].status == "ok"@
            &&& summary.len() == 0 && !success ==> out[i].status == "failed"@
            &&& out[i].id == id && out[i].label == rows[i].label && out[i].tool_name
                == rows[i].tool_name && out[i].category == rows[i].category
            &&& out[i].turn_count == rows[i].turn_count && out[i].tint == rows[i].tint
            &&& forall|k: int| 0 <= k < rows.len() && k != i ==> #[trigger] out[k] == rows[k]
        },
        (forall|k: int| 0 <= k < rows.len() ==> (#[trigger] rows[k]).id != id) ==> finished(
            rows,
            id,
            success,
            summary,
        ) == rows,
{
    lemma_by_id(rows, id, 0);
}

/// Taking a card away leaves the others in their order; without a card for the
/// call nothing is taken.
pub proof fn law_pruning_takes_one_card(
    a: Seq<RowModel>,
    card: RowModel,
    b: Seq<RowModel>,
    id: Seq<char>,
)
    requires
        forall|k: int| 0 <= k < a.len() ==> (#[trigger] a[k]).id != id,
    ensures
        card.id == id ==> pruned(a.push(card) + b, id) == a + b,
        pruned(a, id) == a,
{
    let rows = a.push(card) + b;
    lemma_by_id(rows, id, 0);
    lemma_by_id(a, id, 0);
    if card.id == id {
        let n = a.len() as int;
        assert(rows[n] == card);
        assert forall|k: int| 0 <= k < n implies (#[trigger] rows[k]).id != id by {
            assert(rows[k] == a[k]);
        }
        assert(rows.remove(n) =~= a + b);
    }
}

/// Cards are what their models say, one by one.
pub proof fn law_models_are_the_cards(s: Seq<SubAgentRow>, i: int)
    requires
        0 <= i < s.len(),
    ensures
        models(s).len() == s.len(),
        models(s)[i].id == s[i].id@,
        models(s)[i].label == s[i].label@,
        models(s)[i].tool_name == s[i].tool_name@,
        models(s)[i].category == s[i].category@,
        models(s)[i].status == s[i].status@,
        models(s)[i].state == s[i].state,
        models(s)[i].done == s[i].done,
        models(s)[i].turn_count == s[i].turn_count,
        models(s)[i].tint.0 == s[i].tint_r,
        models(s)[i].tint.1 == s[i].tint_g,
        models(s)[i].tint.2 == s[i].tint_b,
{
}

} // verus!
