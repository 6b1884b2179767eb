//! The settings panel's values in the `.env` file: keys that are there are
//! updated in place, new ones are appended under a marker comment, and
//! everything else stays as it is.

use vstd::prelude::*;

use crate::text;
use crate::text::{append, chars_of, copy_range, find_from, join, lines, string_of, trim, trim_start};

verus! {

/// What the settings panel holds.
#[derive(Debug, Clone)]
pub struct WriteSettings {
    pub anthropic_key: String,
    pub model: String,
    pub elevenlabs_key: String,
    pub elevenlabs_voice_id: String,
    pub heartbeat: bool,
    pub autonomous: bool,
}

/// The text of an optional value, the empty one where there is none.
pub open spec fn or_empty(v: Option<&str>) -> Seq<char> {
    match v {
        Some(t) => t@,
        None => Seq::empty(),
    }
}

fn text_or_empty(v: Option<&str>) -> (s: String)
    ensures
        s@ == or_empty(v),
{
    match v {
        Some(t) => t.to_owned(),
        None => String::new(),
    }
}

/// The settings that the panel starts with, from the variables of the
/// environment that are set. Without a model it is the default one; the
/// heartbeat is on unless it is switched off, the autonomous loop is off unless
/// it is switched on.
pub fn seeded_settings(
    key: Option<&str>,
    model: Option<&str>,
    el_key: Option<&str>,
    el_voice: Option<&str>,
    heartbeat: Option<&str>,
    autonomous: Option<&str>,
    default_model: &str,
) -> (s: WriteSettings)
    ensures
        s.anthropic_key@ == or_empty(key),
        s.model@ == match model {
            Some(m) => m@,
            None => default_model@,
        },
        s.elevenlabs_key@ == or_empty(el_key),
        s.elevenlabs_voice_id@ == or_empty(el_voice),
        s.heartbeat == !(heartbeat is Some && heartbeat->0@ == "false"@),
        s.autonomous == (autonomous is Some && autonomous->0@ == "true"@),
{
    let model = match model {
        Some(m) => m.to_owned(),
        None => default_model.to_owned(),
    };
    let heartbeat = match heartbeat {
        Some(v) => !text::same(v, "false"),
        None => true,
    };
    let autonomous = match autonomous {
        Some(v) => text::same(v, "true"),
        None => false,
    };
    WriteSettings {
        anthropic_key: text_or_empty(key),
        model,
        elevenlabs_key: text_or_empty(el_key),
        elevenlabs_voice_id: text_or_empty(el_voice),
        heartbeat,
        autonomous,
    }
}

/// Whether the setup wizard opens by itself: without a key JARVIS can do
/// nothing.
pub fn opens_wizard(key: &str) -> (r: bool)
    ensures
        r == (text::trim_spec(key@).len() == 0),
{
    text::is_blank(key)
}

/// A key and its value.
#[verifier::ext_equal]
pub struct Setting {
    pub key: Seq<char>,
    pub value: Seq<char>,
}

/// How a switch is written.
pub open spec fn switch(on: bool) -> Seq<char> {
    if on {
        "true"@
    } else {
        "false"@
    }
}

/// The keys that settings are written under, in alphabetical order.
pub open spec fn updates_of(s: WriteSettings) -> Seq<Setting> {
    seq![
        Setting { key: "ANTHROPIC_API_KEY"@, value: s.anthropic_key@ },
        Setting { key: "ANTHROPIC_MODEL"@, value: s.model@ },
        Setting { key: "AUTONOMOUS_LOOP_ENABLED"@, value: switch(s.autonomous) },
        Setting { key: "ELEVENLABS_API_KEY"@, value: s.elevenlabs_key@ },
        Setting { key: "ELEVENLABS_VOICE_ID"@, value: s.elevenlabs_voice_id@ },
        Setting { key: "HEARTBEAT_ENABLED"@, value: switch(s.heartbeat) },
    ]
}

/// The line that sets a key.
pub open spec fn entry(u: Setting) -> Seq<char> {
    u.key + "="@ + u.value
}

/// The key that a line sets; none for comments, blank lines and lines without
/// an equals sign.
pub open spec fn key_of(line: Seq<char>) -> Option<Seq<char>> {
    let t = text::trim_start_spec(line);
    let k = text::index_from(line, '=', 0);
    if t.len() == 0 || t[0] == '#' || k >= line.len() {
        None
    } else {
        Some(text::trim_spec(line.take(k)))
    }
}

/// The index of the first of `u` with this key, or their number.
pub open spec fn find_key(u: Seq<Setting>, key: Seq<char>, i: int) -> int
    decreases u.len() - i,
{
    if i < 0 || i >= u.len() {
        u.len() as int
    } else if u[i].key == key {
        i
    } else {
        find_key(u, key, i + 1)
    }
}

/// A line after the update.
pub open spec fn updated_line(line: Seq<char>, u: Seq<Setting>) -> Seq<char> {
    match key_of(line) {
        None => line,
        Some(key) => if find_key(u, key, 0) < u.len() {
            entry(u[find_key(u, key, 0)])
        } else {
            line
        },
    }
}

/// Whether one of `lines` sets `key`.
pub open spec fn sets(lines: Seq<Seq<char>>, key: Seq<char>) -> bool {
    exists|i: int| 0 <= i < lines.len() && key_of(#[trigger] lines[i]) == Some(key)
}

/// The lines for those of the first `n` of `u` whose keys no line sets.
pub open spec fn new_entries(lines: Seq<Seq<char>>, u: Seq<Setting>, n: int) -> Seq<Seq<char>>
    decreases n,
{
    if n <= 0 {
        Seq::empty()
    } else {
        let before = new_entries(lines, u, n - 1);
        if sets(lines, u[n - 1].key) {
            before
        } else {
            before.push(entry(u[n - 1]))
        }
    }
}

/// The comment above appended keys.
pub open spec fn marker() -> Seq<char> {
    "# Added by jarvis-desktop SettingsPanel"@
}

/// The lines after the update, the last one empty so that the file ends with a
/// line feed.
pub open spec fn updated_lines(lines: Seq<Seq<char>>, u: Seq<Setting>) -> Seq<Seq<char>> {
    let kept = lines.map_values(|l: Seq<char>| updated_line(l, u));
    let added = new_entries(lines, u, u.len() as int);
    if added.len() == 0 {
        kept.push(Seq::empty())
    } else {
        (kept.push(Seq::empty()).push(marker()) + added).push(Seq::empty())
    }
}

/// The text of the file after the update.
pub open spec fn merged(existing: Seq<char>, u: Seq<Setting>) -> Seq<char> {
    text::join_spec(updated_lines(text::lines_spec(existing), u), "\n"@)
}

/// A key and its value in memory.
struct Update {
    key: Vec<char>,
    value: Vec<char>,
}

spec fn update_views(u: Seq<Update>) -> Seq<Setting> {
    u.map_values(|x: Update| Setting { key: x.key@, value: x.value@ })
}

fn update(key: &str, value: &str) -> (u: Update)
    ensures
        u.key@ == key@,
        u.value@ == value@,
{
    Update { key: chars_of(key), value: chars_of(value) }
}

fn switch_text(on: bool) -> (s: &'static str)
    ensures
        s@ == switch(on),
{
    if on {
        "true"
    } else {
        "false"
    }
}

fn same(a: &[char], b: &[char]) -> (r: bool)
    ensures
        r == (a@ == b@),
{
    if a.len() != b.len() {
        return false;
    }
    let mut i: usize = 0;
    while i < a.len()
        invariant
            i <= a@.len() == b@.len(),
            forall|k: int| 0 <= k < i ==> a@[k] == b@[k],
        decreases a@.len() - i,
    {
        if a[i] != b[i] {
            return false;
        }
        i += 1;
    }
    assert(a@ =~= b@);
    true
}

/// The key that a line sets.
fn line_key(line: &[char]) -> (r: Option<Vec<char>>)
    ensures
        r is Some <==> key_of(line@) is Some,
        r matches Some(k) ==> k@ == key_of(line@)->0,
{
    let t = trim_start(line);
    if t.len() == 0 || t[0] == '#' {
        return None;
    }
    let k: usize = find_from(line, '=', 0);
    if k >= line.len() {
        return None;
    }
    let head = vstd::slice::slice_subrange(line, 0, k);
    assert(head@ =~= line@.take(k as int));
    let key = trim(head);
    let out = copy_range(key, 0, key.len());
    assert(out@ =~= key@);
    Some(out)
}

fn index_of_key(u: &Vec<Update>, key: &[char]) -> (r: usize)
    ensures
        r == find_key(update_views(u@), key@, 0),
        r <= u@.len(),
{
    let ghost all = update_views(u@);
    let mut i: usize = 0;
    while i < u.len()
        invariant
            i <= u@.len(),
            all == update_views(u@),
            find_key(all, key@, 0) == find_key(all, key@, i as int),
        decreases u@.len() - i,
    {
        assert(all[i as int].key == u@[i as int].key@);
        if same(u[i].key.as_slice(), key) {
            return i;
        }
        i += 1;
    }
    i
}

fn entry_line(u: &Update) -> (l: Vec<char>)
    ensures
        l@ == entry(Setting { key: u.key@, value: u.value@ }),
{
    let mut l: Vec<char> = Vec::new();
    append(&mut l, u.key.as_slice());
    append(&mut l, chars_of("=").as_slice());
    append(&mut l, u.value.as_slice());
    assert(l@ =~= u.key@ + "="@ + u.value@);
    l
}

fn any_sets(ls: &Vec<Vec<char>>, key: &[char]) -> (r: bool)
    ensures
        r == sets(text::views(ls@), key@),
{
    let ghost all = text::views(ls@);
    let mut i: usize = 0;
    while i < ls.len()
        invariant
            i <= ls@.len(),
            all == text::views(ls@),
            forall|k: int| 0 <= k < i ==> key_of(#[trigger] all[k]) != Some(key@),
        decreases ls@.len() - i,
    {
        assert(all[i as int] == ls@[i as int]@);
        if let Some(k) = line_key(ls[i].as_slice()) {
            if same(k.as_slice(), key) {
                return true;
            }
        }
        i += 1;
    }
    false
}

fn update_lines(ls: &Vec<Vec<char>>, u: &Vec<Update>) -> (out: Vec<Vec<char>>)
    ensures
        text::views(out@) == updated_lines(text::views(ls@), update_views(u@)),
{
    let ghost all = text::views(ls@);
    let ghost us = update_views(u@);
    let ghost f = |l: Seq<char>| updated_line(l, us);
    let mut out: Vec<Vec<char>> = Vec::new();
    let mut i: usize = 0;
    assert(text::views(out@) =~= all.take(0).map_values(f));
    while i < ls.len()
        invariant
            i <= ls@.len(),
            all == text::views(ls@),
            us == update_views(u@),
            f == |l: Seq<char>| updated_line(l, us),
            text::views(out@) == all.take(i as int).map_values(f),
        decreases ls@.len() - i,
    {
        let line = ls[i].as_slice();
        assert(all[i as int] == line@);
        let mut kept = copy_range(line, 0, line.len());
        assert(kept@ =~= line@);
        if let Some(key) = line_key(line) {
            let k: usize = index_of_key(u, key.as_slice());
            if k < u.len() {
                kept = entry_line(&u[k]);
                assert(us[k as int] == Setting { key: u@[k as int].key@, value: u@[k as int].value@ });
            }
        }
        let ghost before = out@;
        out.push(kept);
        assert(kept@ == f(line@));
        assert(text::views(out@) =~= text::views(before).push(kept@));
        assert(text::views(out@) =~= all.take(i + 1).map_values(f));
        i += 1;
    }
    assert(all.take(i as int) =~= all);
    let ghost kept = text::views(out@);
    let mut added: Vec<Vec<char>> = Vec::new();
    let mut j: usize = 0;
    assert(text::views(added@) =~= Seq::<Seq<char>>::empty());
    while j < u.len()
        invariant
            j <= u@.len(),
            all == text::views(ls@),
            us == update_views(u@),
            text::views(added@) == new_entries(all, us, j as int),
        decreases u@.len() - j,
    {
        assert(us[j as int] == Setting { key: u@[j as int].key@, value: u@[j as int].value@ });
        let ghost before = added@;
        if !any_sets(ls, u[j].key.as_slice()) {
            let l = entry_line(&u[j]);
            added.push(l);
            assert(text::views(added@) =~= text::views(before).push(l@));
        }
        j += 1;
    }
    let ghost added_views = text::views(added@);
    let ghost base = out@;
    if added.len() > 0 {
        out.push(Vec::new());
        out.push(chars_of("# Added by jarvis-desktop SettingsPanel"));
        let ghost head = out@;
        assert(text::views(head) =~= kept.push(Seq::empty()).push(marker()));
        out.append(&mut added);
        assert(text::views(out@) =~= text::views(head) + added_views);
    }
    let ghost before = out@;
    out.push(Vec::new());
    assert(text::views(out@) =~= text::views(before).push(Seq::empty()));
    out
}

/// The text of the `.env` file after the settings have been merged in.
pub fn merge_settings(existing: &str, s: &WriteSettings) -> (out: String)
    ensures
        out@ == merged(existing@, updates_of(*s)),
{
    let mut u: Vec<Update> = Vec::new();
    u.push(update("ANTHROPIC_API_KEY", s.anthropic_key.as_str()));
    u.push(update("ANTHROPIC_MODEL", s.model.as_str()));
    u.push(update("AUTONOMOUS_LOOP_ENABLED", switch_text(s.autonomous)));
    u.push(update("ELEVENLABS_API_KEY", s.elevenlabs_key.as_str()));
    u.push(update("ELEVENLABS_VOICE_ID", s.elevenlabs_voice_id.as_str()));
    u.push(update("HEARTBEAT_ENABLED", switch_text(s.heartbeat)));
    assert(update_views(u@) =~= updates_of(*s));
    let chars = chars_of(existing);
    let ls = lines(chars.as_slice());
    let out = update_lines(&ls, &u);
    string_of(join(&out, "\n").as_slice())
}

proof fn lemma_find_key(u: Seq<Setting>, key: Seq<char>, i: int)
    requires
        0 <= i <= u.len(),
    ensures
        i <= find_key(u, key, i) <= u.len(),
        find_key(u, key, i) < u.len() ==> u[find_key(u, key, i)].key == key,
        forall|k: int| i <= k < find_key(u, key, i) ==> u[k].key != key,
    decreases u.len() - i,
{
    if i < u.len() && u[i].key != key {
        lemma_find_key(u, key, i + 1);
    }
}

proof fn lemma_new_entries(lines: Seq<Seq<char>>, u: Seq<Setting>, n: int, k: int)
    requires
        0 <= k < n <= u.len(),
        !sets(lines, u[k].key),
    ensures
        new_entries(lines, u, n).contains(entry(u[k])),
    decreases n,
{
    let r = new_entries(lines, u, n);
    if k == n - 1 {
        assert(r[r.len() - 1] == entry(u[k]));
    } else {
        lemma_new_entries(lines, u, n - 1, k);
        let b = new_entries(lines, u, n - 1);
        let j = choose|j: int| 0 <= j < b.len() && b[j] == entry(u[k]);
        assert(r[j] == entry(u[k]));
    }
}

/// Every setting is in the file afterwards, and every line that set a key which
/// is not a setting, or set none, is where it was.
pub proof fn law_settings_are_written(lines: Seq<Seq<char>>, u: Seq<Setting>, k: int)
    requires
        0 <= k < u.len(),
        forall|i: int, j: int| 0 <= i < j < u.len() ==> u[i].key != u[j].key,
    ensures
        updated_lines(lines, u).contains(entry(u[k])),
        forall|i: int|
            0 <= i < lines.len() && (key_of(#[trigger] lines[i]) is None || find_key(
                u,
                key_of(lines[i])->0,
                0,
            ) == u.len()) ==> updated_lines(lines, u)[i] == lines[i],
{
    let out = updated_lines(lines, u);
    let kept = lines.map_values(|l: Seq<char>| updated_line(l, u));
    let added = new_entries(lines, u, u.len() as int);
    if sets(lines, u[k].key) {
        let i = choose|i: int| 0 <= i < lines.len() && key_of(#[trigger] lines[i]) == Some(
            u[k].key,
        );
        lemma_find_key(u, u[k].key, 0);
        let f = find_key(u, u[k].key, 0);
        assert(f == k) by {
            if f < k {
                assert(u[f].key == u[k].key);
            }
        }
        assert(out[i] == kept[i]);
        assert(out[i] == entry(u[k]));
    } else {
        lemma_new_entries(lines, u, u.len() as int, k);
        let j = choose|j: int| 0 <= j < added.len() && added[j] == entry(u[k]);
        assert(out[kept.len() + 2 + j] == entry(u[k]));
    }
    assert forall|i: int|
        0 <= i < lines.len() && (key_of(#[trigger] lines[i]) is None || find_key(
            u,
            key_of(lines[i])->0,
            0,
        ) == u.len()) implies out[i] == lines[i] by {
        assert(out[i] == kept[i]);
    }
}

/// The keys that settings are written under are all different.
pub proof fn law_setting_keys_differ(s: WriteSettings)
    ensures
        forall|i: int, j: int|
            0 <= i < j < updates_of(s).len() ==> updates_of(s)[i].key != updates_of(s)[j].key,
{
    reveal_strlit("ANTHROPIC_API_KEY");
    reveal_strlit("ANTHROPIC_MODEL");
    reveal_strlit("AUTONOMOUS_LOOP_ENABLED");
    reveal_strlit("ELEVENLABS_API_KEY");
    reveal_strlit("ELEVENLABS_VOICE_ID");
    reveal_strlit("HEARTBEAT_ENABLED");
    let u = updates_of(s);
    assert forall|i: int, j: int| 0 <= i < j < u.len() implies u[i].key != u[j].key by {
        let a = u[i].key;
        let b = u[j].key;
        if a == b {
            assert(a.len() == b.len());
            assert(a[0] == b[0]);
            assert(a[1] == b[1]);
        }
    }
}

/// Whether a key can be found again in a line: it is not empty, holds neither
/// an equals sign nor white space, and is no comment.
pub open spec fn is_name(key: Seq<char>) -> bool {
    &&& key.len() > 0
    &&& key[0] != '#'
    &&& forall|k: int|
        0 <= k < key.len() ==> #[trigger] key[k] != '=' && !text::is_space_spec(key[k])
}

/// Whether `t` holds no line break.
pub open spec fn on_one_line(t: Seq<char>) -> bool {
    forall|k: int| 0 <= k < t.len() ==> #[trigger] t[k] != '\n' && t[k] != '\r'
}

/// The keys that settings are written under can be found again.
proof fn lemma_names(s: WriteSettings)
    ensures
        forall|i: int| 0 <= i < updates_of(s).len() ==> is_name(#[trigger] updates_of(s)[i].key),
{
    reveal_strlit("ANTHROPIC_API_KEY");
    reveal_strlit("ANTHROPIC_MODEL");
    reveal_strlit("AUTONOMOUS_LOOP_ENABLED");
    reveal_strlit("ELEVENLABS_API_KEY");
    reveal_strlit("ELEVENLABS_VOICE_ID");
    reveal_strlit("HEARTBEAT_ENABLED");
    assert(is_name("ANTHROPIC_API_KEY"@));
    assert(is_name("ANTHROPIC_MODEL"@));
    assert(is_name("AUTONOMOUS_LOOP_ENABLED"@));
    assert(is_name("ELEVENLABS_API_KEY"@));
    assert(is_name("ELEVENLABS_VOICE_ID"@));
    assert(is_name("HEARTBEAT_ENABLED"@));
}

proof fn lemma_entry_key(u: Setting)
    requires
        is_name(u.key),
    ensures
        key_of(entry(u)) == Some(u.key),
{
    reveal_strlit("=");
    let e = entry(u);
    let n = u.key.len() as int;
    assert(forall|k: int| 0 <= k < n ==> e[k] == u.key[k]);
    assert(e[0] == u.key[0]);
    text::lemma_index_is(e, '=', n);
    assert(e.take(n) =~= u.key);
    assert(u.key.last() == u.key[n - 1]);
    assert(text::trim_spec(u.key) =~= u.key);
}

/// What settings have to hold for the laws on the file: keys that can be found
/// again, all different, and values without line breaks.
pub open spec fn are_entries(u: Seq<Setting>) -> bool {
    &&& u.len() > 0
    &&& forall|i: int| 0 <= i < u.len() ==> is_name(#[trigger] u[i].key) && on_one_line(u[i].value)
    &&& forall|i: int, j: int| 0 <= i < j < u.len() ==> u[i].key != u[j].key
}

/// The settings of the panel are entries where no value holds a line break.
pub proof fn law_settings_are_entries(s: WriteSettings)
    requires
        on_one_line(s.anthropic_key@),
        on_one_line(s.model@),
        on_one_line(s.elevenlabs_key@),
        on_one_line(s.elevenlabs_voice_id@),
    ensures
        are_entries(updates_of(s)),
{
    reveal_strlit("true");
    reveal_strlit("false");
    assert(on_one_line(switch(true)));
    assert(on_one_line(switch(false)));
    lemma_names(s);
    law_setting_keys_differ(s);
}

/// The lines of the file after the update.
spec fn written(lines: Seq<Seq<char>>, u: Seq<Setting>) -> Seq<Seq<char>> {
    updated_lines(lines, u).drop_last()
}

proof fn lemma_find_own_key(u: Seq<Setting>, k: int)
    requires
        are_entries(u),
        0 <= k < u.len(),
    ensures
        find_key(u, u[k].key, 0) == k,
{
    lemma_find_key(u, u[k].key, 0);
    let f = find_key(u, u[k].key, 0);
    if f < k {
        assert(u[f].key == u[k].key);
    }
}

proof fn lemma_entry_stays(u: Seq<Setting>, k: int)
    requires
        are_entries(u),
        0 <= k < u.len(),
    ensures
        updated_line(entry(u[k]), u) == entry(u[k]),
        text::is_line(entry(u[k])),
        entry(u[k]).len() > 0,
{
    let e = entry(u[k]);
    reveal_strlit("=");
    assert(is_name(u[k].key));
    lemma_entry_key(u[k]);
    lemma_find_own_key(u, k);
    let n = u[k].key.len() as int;
    assert forall|i: int| 0 <= i < e.len() implies e[i] != '\n' && e[i] != '\r' by {
        if i < n {
            assert(e[i] == u[k].key[i]);
        } else if i > n {
            assert(e[i] == u[k].value[i - n - 1]);
        }
    }
}

proof fn lemma_new_entry_is(lines: Seq<Seq<char>>, u: Seq<Setting>, n: int, j: int) -> (k: int)
    requires
        0 <= n <= u.len(),
        0 <= j < new_entries(lines, u, n).len(),
    ensures
        0 <= k < u.len(),
        new_entries(lines, u, n)[j] == entry(u[k]),
    decreases n,
{
    let before = new_entries(lines, u, n - 1);
    if j < before.len() {
        lemma_new_entry_is(lines, u, n - 1, j)
    } else {
        n - 1
    }
}

/// A line that was written is not changed again.
proof fn lemma_written_line(lines: Seq<Seq<char>>, u: Seq<Setting>, j: int)
    requires
        are_entries(u),
        forall|i: int| 0 <= i < lines.len() ==> text::unbroken(#[trigger] lines[i]),
        0 <= j < written(lines, u).len(),
    ensures
        updated_line(written(lines, u)[j], u) == written(lines, u)[j],
        text::unbroken(written(lines, u)[j]),
        j < lines.len() ==> written(lines, u)[j] == updated_line(lines[j], u),
        j >= lines.len() ==> text::is_line(written(lines, u)[j]),
{
    let x = written(lines, u)[j];
    let added = new_entries(lines, u, u.len() as int);
    if j < lines.len() {
        let l = lines[j];
        assert(text::unbroken(l));
        assert(x == updated_line(l, u));
        if key_of(l) is Some && find_key(u, key_of(l)->0, 0) < u.len() {
            lemma_find_key(u, key_of(l)->0, 0);
            lemma_entry_stays(u, find_key(u, key_of(l)->0, 0));
        }
    } else if j == lines.len() {
        assert(x =~= Seq::<char>::empty());
    } else if j == lines.len() + 1 {
        reveal_strlit("# Added by jarvis-desktop SettingsPanel");
        assert(x == marker());
        assert(x[0] == '#');
        assert(text::trim_start_spec(x) == x);
    } else {
        let k = lemma_new_entry_is(lines, u, u.len() as int, j - lines.len() - 2);
        assert(x == entry(u[k]));
        lemma_entry_stays(u, k);
    }
}

/// The file sets every key.
proof fn lemma_written_sets(lines: Seq<Seq<char>>, u: Seq<Setting>, k: int) -> (j: int)
    requires
        are_entries(u),
        0 <= k < u.len(),
    ensures
        0 <= j < written(lines, u).len(),
        written(lines, u)[j] == entry(u[k]),
        sets(written(lines, u), u[k].key),
{
    law_settings_are_written(lines, u, k);
    lemma_entry_stays(u, k);
    assert(is_name(u[k].key));
    lemma_entry_key(u[k]);
    let all = updated_lines(lines, u);
    let j = choose|j: int| 0 <= j < all.len() && all[j] == entry(u[k]);
    assert(all.last() =~= Seq::<char>::empty());
    assert(written(lines, u)[j] == entry(u[k]));
    j
}

proof fn lemma_nothing_new(lines: Seq<Seq<char>>, u: Seq<Setting>, n: int)
    requires
        0 <= n <= u.len(),
        forall|k: int| 0 <= k < n ==> sets(lines, #[trigger] u[k].key),
    ensures
        new_entries(lines, u, n).len() == 0,
    decreases n,
{
    if n > 0 {
        lemma_nothing_new(lines, u, n - 1);
        assert(sets(lines, u[n - 1].key));
    }
}

/// The file holds what was written, and ends with a line feed.
proof fn lemma_file(existing: Seq<char>, u: Seq<Setting>)
    requires
        are_entries(u),
    ensures
        ({
            let x = written(text::lines_spec(existing), u);
            &&& x.len() > 0
            &&& updated_lines(text::lines_spec(existing), u) == x.push(Seq::empty())
            &&& merged(existing, u) == text::join_spec(x, "\n"@).push('\n')
            &&& text::lines_spec(merged(existing, u)) == x.map_values(
                |l: Seq<char>| text::drop_cr(l),
            )
        }),
{
    reveal_strlit("\n");
    let ls = text::lines_spec(existing);
    let x = written(ls, u);
    let j = lemma_written_sets(ls, u, 0);
    let all = updated_lines(ls, u);
    assert(all.last() =~= Seq::<char>::empty());
    assert(all =~= x.push(Seq::empty()));
    assert(text::join_spec(all, "\n"@) =~= text::join_spec(x, "\n"@).push('\n'));
    lemma_lines_unbroken(existing);
    assert forall|i: int| 0 <= i < x.len() implies text::unbroken(#[trigger] x[i]) by {
        lemma_written_line(ls, u, i);
    }
    text::lemma_lines_of_join(x);
}

proof fn lemma_lines_unbroken(s: Seq<char>)
    ensures
        forall|i: int|
            0 <= i < text::lines_spec(s).len() ==> text::unbroken(#[trigger] text::lines_spec(s)[i]),
{
    let ls = text::lines_spec(s);
    assert forall|i: int| 0 <= i < ls.len() implies text::unbroken(#[trigger] ls[i]) by {
        assert forall|k: int| 0 <= k < ls[i].len() implies ls[i][k] != '\n' by {
            text::lemma_lines_hold_no_break(s, i, k);
        }
    }
}

/// Writing the same settings again changes nothing. A line that is kept and
/// ends in a carriage return before its line break would lose it, so the law is
/// of files without one.
pub proof fn law_writing_twice_changes_nothing(existing: Seq<char>, u: Seq<Setting>)
    requires
        are_entries(u),
        forall|i: int|
            0 <= i < text::lines_spec(existing).len() ==> text::is_line(
                updated_line(#[trigger] text::lines_spec(existing)[i], u),
            ),
    ensures
        merged(merged(existing, u), u) == merged(existing, u),
{
    let ls = text::lines_spec(existing);
    let x = written(ls, u);
    lemma_file(existing, u);
    lemma_lines_unbroken(existing);
    assert forall|i: int| 0 <= i < x.len() implies text::drop_cr(#[trigger] x[i]) == x[i]
        && updated_line(x[i], u) == x[i] by {
        lemma_written_line(ls, u, i);
        if i < ls.len() {
            assert(text::is_line(updated_line(ls[i], u)));
        }
    }
    assert(x.map_values(|l: Seq<char>| text::drop_cr(l)) =~= x);
    assert forall|k: int| 0 <= k < u.len() implies sets(x, #[trigger] u[k].key) by {
        let j = lemma_written_sets(ls, u, k);
    }
    lemma_nothing_new(x, u, u.len() as int);
    assert(x.map_values(|l: Seq<char>| updated_line(l, u)) =~= x);
    assert(updated_lines(x, u) =~= x.push(Seq::empty()));
}

proof fn lemma_key_before_cr(l: Seq<char>)
    requires
        key_of(text::drop_cr(l)) is Some,
    ensures
        key_of(l) == key_of(text::drop_cr(l)),
{
    let d = text::drop_cr(l);
    if d != l {
        let k = text::index_from(d, '=', 0);
        text::lemma_index_from(d, '=', 0);
        assert(forall|i: int| 0 <= i < d.len() ==> l[i] == d[i]);
        text::lemma_index_is(l, '=', k);
        assert(l.take(k) =~= d.take(k));
        lemma_trim_start_push(d, l.last());
        assert(l =~= d.push(l.last()));
    }
}

proof fn lemma_trim_start_push(d: Seq<char>, c: char)
    requires
        text::trim_start_spec(d).len() > 0,
    ensures
        text::trim_start_spec(d.push(c)) == text::trim_start_spec(d).push(c),
    decreases d.len(),
{
    if d.len() > 0 && text::is_space_spec(d[0]) {
        lemma_trim_start_push(d.drop_first(), c);
        assert(d.push(c).drop_first() =~= d.drop_first().push(c));
    }
}

/// The file reads back what was written: every key is set to its value, no line
/// sets it to anything else, and the last line is ended.
pub proof fn law_settings_read_back(existing: Seq<char>, u: Seq<Setting>, k: int)
    requires
        are_entries(u),
        0 <= k < u.len(),
    ensures
        ({
            let ls = text::lines_spec(merged(existing, u));
            &&& ls.contains(entry(u[k]))
            &&& forall|j: int|
                0 <= j < ls.len() && key_of(#[trigger] ls[j]) == Some(u[k].key) ==> ls[j] == entry(
                    u[k],
                )
            &&& merged(existing, u).len() > 0
            &&& merged(existing, u).last() == '\n'
        }),
{
    let old_lines = text::lines_spec(existing);
    let x = written(old_lines, u);
    let ls = text::lines_spec(merged(existing, u));
    lemma_file(existing, u);
    lemma_lines_unbroken(existing);
    lemma_entry_stays(u, k);
    let j = lemma_written_sets(old_lines, u, k);
    assert(ls[j] == text::drop_cr(x[j]));
    assert(ls[j] == entry(u[k]));
    assert forall|j: int|
        0 <= j < ls.len() && key_of(#[trigger] ls[j]) == Some(u[k].key) implies ls[j] == entry(
        u[k],
    ) by {
        assert(ls[j] == text::drop_cr(x[j]));
        lemma_key_before_cr(x[j]);
        lemma_written_line(old_lines, u, j);
        lemma_find_own_key(u, k);
    }
}

/// Whether a directory is the root that the `.env` file belongs to: it holds
/// the dashboard, and the file itself or a manifest.
pub fn is_ironclad_root(has_dashboard: bool, has_env: bool, has_manifest: bool) -> (r: bool)
    ensures
        r == (has_dashboard && (has_env || has_manifest)),
{
    (has_dashboard && has_env) || (has_manifest && has_dashboard)
}

/// After the update the file says, each on a line of its own, what the panel
/// held.
pub proof fn law_file_says_what_the_panel_held(existing: Seq<char>, s: WriteSettings)
    requires
        on_one_line(s.anthropic_key@),
        on_one_line(s.model@),
        on_one_line(s.elevenlabs_key@),
        on_one_line(s.elevenlabs_voice_id@),
    ensures
        ({
            let ls = text::lines_spec(merged(existing, updates_of(s)));
            &&& ls.contains("ANTHROPIC_API_KEY="@ + s.anthropic_key@)
            &&& ls.contains("ANTHROPIC_MODEL="@ + s.model@)
            &&& ls.contains("ELEVENLABS_API_KEY="@ + s.elevenlabs_key@)
            &&& ls.contains("ELEVENLABS_VOICE_ID="@ + s.elevenlabs_voice_id@)
            &&& s.autonomous ==> ls.contains("AUTONOMOUS_LOOP_ENABLED=true"@)
            &&& !s.autonomous ==> ls.contains("AUTONOMOUS_LOOP_ENABLED=false"@)
            &&& s.heartbeat ==> ls.contains("HEARTBEAT_ENABLED=true"@)
            &&& !s.heartbeat ==> ls.contains("HEARTBEAT_ENABLED=false"@)
        }),
{
    reveal_strlit("ANTHROPIC_API_KEY");
    reveal_strlit("ANTHROPIC_MODEL");
    reveal_strlit("AUTONOMOUS_LOOP_ENABLED");
    reveal_strlit("ELEVENLABS_API_KEY");
    reveal_strlit("ELEVENLABS_VOICE_ID");
    reveal_strlit("HEARTBEAT_ENABLED");
    reveal_strlit("ANTHROPIC_API_KEY=");
    reveal_strlit("ANTHROPIC_MODEL=");
    reveal_strlit("ELEVENLABS_API_KEY=");
    reveal_strlit("ELEVENLABS_VOICE_ID=");
    reveal_strlit("AUTONOMOUS_LOOP_ENABLED=true");
    reveal_strlit("AUTONOMOUS_LOOP_ENABLED=false");
    reveal_strlit("HEARTBEAT_ENABLED=true");
    reveal_strlit("HEARTBEAT_ENABLED=false");
    reveal_strlit("=");
    reveal_strlit("true");
    reveal_strlit("false");
    let u = updates_of(s);
    law_settings_are_entries(s);
    law_settings_read_back(existing, u, 0);
    law_settings_read_back(existing, u, 1);
    law_settings_read_back(existing, u, 2);
    law_settings_read_back(existing, u, 3);
    law_settings_read_back(existing, u, 4);
    law_settings_read_back(existing, u, 5);
    assert("ANTHROPIC_API_KEY"@ + "="@ =~= "ANTHROPIC_API_KEY="@);
    assert("ANTHROPIC_MODEL"@ + "="@ =~= "ANTHROPIC_MODEL="@);
    assert("ELEVENLABS_API_KEY"@ + "="@ =~= "ELEVENLABS_API_KEY="@);
    assert("ELEVENLABS_VOICE_ID"@ + "="@ =~= "ELEVENLABS_VOICE_ID="@);
    if s.autonomous {
        assert(entry(u[2]) =~= "AUTONOMOUS_LOOP_ENABLED=true"@);
    } else {
        assert(entry(u[2]) =~= "AUTONOMOUS_LOOP_ENABLED=false"@);
    }
    if s.heartbeat {
        assert(entry(u[5]) =~= "HEARTBEAT_ENABLED=true"@);
    } else {
        assert(entry(u[5]) =~= "HEARTBEAT_ENABLED=false"@);
    }
}

/// A line sets the key that stands before its first equals sign, whatever white
/// space is around the key and whatever follows the sign.
pub proof fn law_key_of_a_line(a: Seq<char>, key: Seq<char>, b: Seq<char>, v: Seq<char>)
    requires
        forall|k: int| 0 <= k < a.len() ==> text::is_space_spec(#[trigger] a[k]),
        forall|k: int| 0 <= k < b.len() ==> text::is_space_spec(#[trigger] b[k]),
        is_name(key),
    ensures
        key_of(a + key + b + "="@ + v) == Some(key),
{
    reveal_strlit("=");
    let l = a + key + b + "="@ + v;
    let h = a + key + b;
    let n = h.len() as int;
    assert(l.take(n) =~= h);
    assert forall|k: int| 0 <= k < n implies l[k] != '=' by {
        if k < a.len() {
            assert(l[k] == a[k]);
            assert(text::is_space_spec(a[k]));
        } else if k < a.len() + key.len() {
            assert(l[k] == key[k - a.len()]);
        } else {
            assert(l[k] == b[k - a.len() - key.len()]);
            assert(text::is_space_spec(b[k - a.len() - key.len()]));
        }
    }
    text::lemma_index_from(l, '=', 0);
    assert(l[n] == '=');
    assert(key[0] != '=' && key[key.len() - 1] != '=');
    text::law_trim_takes_the_space_around(a, key, b);
    let rest = key + b + "="@ + v;
    assert(l =~= a + rest);
    assert(rest[0] == key[0]);
    text::lemma_trim_start_after(a, rest);
}

/// A comment, a blank line and a line without an equals sign set no key.
pub proof fn law_other_lines_set_nothing(a: Seq<char>, rest: Seq<char>)
    requires
        forall|k: int| 0 <= k < a.len() ==> text::is_space_spec(#[trigger] a[k]),
    ensures
        key_of(a) is None,
        key_of(a + "#"@ + rest) is None,
        (forall|k: int| 0 <= k < rest.len() ==> #[trigger] rest[k] != '=') ==> key_of(rest) is None,
{
    reveal_strlit("#");
    let e = Seq::<char>::empty();
    assert(a + e =~= a);
    text::lemma_trim_start_after(a, e);
    let t = "#"@ + rest;
    assert(a + "#"@ + rest =~= a + t);
    assert(t[0] == '#');
    text::law_white_space('#');
    text::lemma_trim_start_after(a, t);
    text::lemma_index_from(rest, '=', 0);
}

proof fn lemma_new_in_order(lines: Seq<Seq<char>>, u: Seq<Setting>, n: int)
    requires
        0 <= n <= u.len(),
        forall|k: int| 0 <= k < n ==> !sets(lines, #[trigger] u[k].key),
    ensures
        new_entries(lines, u, n).len() == n,
        forall|k: int| 0 <= k < n ==> #[trigger] new_entries(lines, u, n)[k] == u[k].key + "="@
            + u[k].value,
    decreases n,
{
    if n > 0 {
        lemma_new_in_order(lines, u, n - 1);
        assert(!sets(lines, u[n - 1].key));
        let before = new_entries(lines, u, n - 1);
        assert forall|k: int| 0 <= k < n implies #[trigger] new_entries(lines, u, n)[k] == u[k].key
            + "="@ + u[k].value by {
            if k < n - 1 {
                assert(before[k] == u[k].key + "="@ + u[k].value);
            }
        }
    }
}

/// Where no line sets any of the keys, the lines stay as they are, and a blank
/// line, a comment and the settings in order follow.
pub proof fn law_new_settings_are_appended(lines: Seq<Seq<char>>, u: Seq<Setting>)
    requires
        u.len() > 0,
        forall|k: int| 0 <= k < u.len() ==> !sets(lines, #[trigger] u[k].key),
    ensures
        ({
            let out = updated_lines(lines, u);
            let n = lines.len() as int;
            &&& out.len() == n + 3 + u.len()
            &&& out.take(n) == lines
            &&& out[n].len() == 0
            &&& out[n + 1] == "# Added by jarvis-desktop SettingsPanel"@
            &&& forall|k: int|
                0 <= k < u.len() ==> out[n + 2 + k] == (#[trigger] u[k]).key + "="@ + u[k].value
            &&& out.last().len() == 0
        }),
{
    let out = updated_lines(lines, u);
    let n = lines.len() as int;
    lemma_new_in_order(lines, u, u.len() as int);
    let added = new_entries(lines, u, u.len() as int);
    assert forall|i: int| 0 <= i < n implies updated_line(#[trigger] lines[i], u) == lines[i] by {
        if key_of(lines[i]) is Some {
            let key = key_of(lines[i])->0;
            lemma_find_key(u, key, 0);
            let f = find_key(u, key, 0);
            if f < u.len() {
                assert(sets(lines, u[f].key));
            }
        }
    }
    assert(out.take(n) =~= lines);
    assert forall|k: int| 0 <= k < u.len() implies out[n + 2 + k] == (#[trigger] u[k]).key + "="@
        + u[k].value by {
        assert(out[n + 2 + k] == added[k]);
    }
}

/// Where a line sets each of the keys, nothing is appended: each such line is
/// replaced in its place.
pub proof fn law_settings_are_updated_in_place(lines: Seq<Seq<char>>, u: Seq<Setting>)
    requires
        are_entries(u),
        forall|k: int| 0 <= k < u.len() ==> sets(lines, #[trigger] u[k].key),
    ensures
        updated_lines(lines, u).len() == lines.len() + 1,
        forall|i: int, k: int|
            0 <= i < lines.len() && 0 <= k < u.len() && key_of(#[trigger] lines[i]) == Some(
                (#[trigger] u[k]).key,
            ) ==> updated_lines(lines, u)[i] == u[k].key + "="@ + u[k].value,
{
    lemma_nothing_new(lines, u, u.len() as int);
    assert forall|i: int, k: int|
        0 <= i < lines.len() && 0 <= k < u.len() && key_of(#[trigger] lines[i]) == Some(
            (#[trigger] u[k]).key,
        ) implies updated_lines(lines, u)[i] == u[k].key + "="@ + u[k].value by {
        lemma_find_own_key(u, k);
    }
}

/// A variable that is not set counts as empty.
pub proof fn law_unset_is_empty(v: Option<&str>)
    ensures
        v is None ==> or_empty(v).len() == 0,
        v matches Some(t) ==> or_empty(v) == t@,
{
}

/// The panel starts with what the environment says. The heartbeat is on unless it
/// says "false", the loop off unless it says "true", and the model is the default
/// one where it names none.
pub proof fn law_panel_starts_with_the_environment(
    key: &str,
    model: &str,
    el_key: &str,
    el_voice: &str,
    heartbeat: &str,
    autonomous: &str,
    default_model: &str,
    s: WriteSettings,
)
    requires
        call_ensures(
            seeded_settings,
            (
                Some(key),
                Some(model),
                Some(el_key),
                Some(el_voice),
                Some(heartbeat),
                Some(autonomous),
                default_model,
            ),
            s,
        ),
    ensures
        s.anthropic_key@ == key@,
        s.model@ == model@,
        s.elevenlabs_key@ == el_key@,
        s.elevenlabs_voice_id@ == el_voice@,
        s.heartbeat <==> heartbeat@ != "false"@,
        s.autonomous <==> autonomous@ == "true"@,
{
}

/// Where the environment says nothing, the panel starts with the defaults.
pub proof fn law_panel_defaults(default_model: &str, s: WriteSettings)
    requires
        call_ensures(seeded_settings, (None, None, None, None, None, None, default_model), s),
    ensures
        s.anthropic_key@.len() == 0,
        s.model@ == default_model@,
        s.elevenlabs_key@.len() == 0,
        s.elevenlabs_voice_id@.len() == 0,
        s.heartbeat,
        !s.autonomous,
{
}

/// The wizard opens by itself where the key is blank.
pub proof fn law_wizard_opens_without_a_key(key: &str, r: bool)
    requires
        call_ensures(opens_wizard, (key,), r),
    ensures
        (forall|k: int| 0 <= k < key@.len() ==> text::is_space_spec(#[trigger] key@[k])) ==> r,
        (exists|k: int| 0 <= k < key@.len() && !text::is_space_spec(#[trigger] key@[k])) ==> !r,
{
    let none = Seq::<char>::empty();
    let (a, e) = text::lemma_trim_range(key@);
    if forall|k: int| 0 <= k < key@.len() ==> text::is_space_spec(#[trigger] key@[k]) {
        text::law_trim_takes_the_space_around(key@, none, none);
        assert(key@ + none + none =~= key@);
    }
    if exists|k: int| 0 <= k < key@.len() && !text::is_space_spec(#[trigger] key@[k]) {
        let k = choose|k: int| 0 <= k < key@.len() && !text::is_space_spec(#[trigger] key@[k]);
        assert(a <= k < e);
    }
}

} // verus!
