//! JSON records: texts that hold the values of known fields, as the members of
//! an object or as the elements of an array in the order of the fields.
//!
//! In an object a field stands once; members that are no field are skipped,
//! whatever they hold. Strings, booleans and values to skip are read by the
//! `serde_json` crate.

use vstd::prelude::*;

use crate::text;
use crate::text::{chars_of, same, string_of};

verus! {

/// A field: its name, and whether it holds a boolean or a string.
#[derive(Debug, Clone, Copy)]
pub struct Field {
    pub name: &'static str,
    pub is_flag: bool,
}

/// What a field is.
#[verifier::ext_equal]
pub struct FieldModel {
    pub name: Seq<char>,
    pub is_flag: bool,
}

impl View for Field {
    type V = FieldModel;

    open spec fn view(&self) -> FieldModel {
        FieldModel { name: self.name@, is_flag: self.is_flag }
    }
}

/// The models of fields.
pub open spec fn fields(f: Seq<Field>) -> Seq<FieldModel> {
    f.map_values(|x: Field| x@)
}

/// A field that holds a string.
pub open spec fn text_field(name: Seq<char>) -> FieldModel {
    FieldModel { name, is_flag: false }
}

/// A field that holds a boolean.
pub open spec fn flag_field(name: Seq<char>) -> FieldModel {
    FieldModel { name, is_flag: true }
}

/// The value of a field.
#[derive(Debug, Clone)]
pub enum Slot {
    Text(String),
    Flag(bool),
}

/// What a value is.
#[verifier::ext_equal]
pub enum SlotModel {
    Text(Seq<char>),
    Flag(bool),
}

impl View for Slot {
    type V = SlotModel;

    open spec fn view(&self) -> SlotModel {
        match self {
            Slot::Text(t) => SlotModel::Text(t@),
            Slot::Flag(b) => SlotModel::Flag(*b),
        }
    }
}

/// The models of values.
pub open spec fn slots(s: Seq<Slot>) -> Seq<SlotModel> {
    s.map_values(|x: Slot| x@)
}

/// The string that `serde_json` reads at the start of a text, and what is left
/// of the text after it.
pub uninterp spec fn json_text_read(s: Seq<char>) -> Option<(Seq<char>, Seq<char>)>;

/// The boolean that `serde_json` reads at the start of a text, and what is left
/// of the text after it.
pub uninterp spec fn json_flag_read(s: Seq<char>) -> Option<(bool, Seq<char>)>;

/// What is left of a text after the value that `serde_json` skips at its start.
pub uninterp spec fn json_skipped(s: Seq<char>) -> Option<Seq<char>>;

/// `serde_json::StreamDeserializer::next` for a `String`: the string at the
/// start of a text, after white space. What comes out, and what is left of the
/// text, depends on the text alone; a string takes up some of it.
#[verifier::external_body]
fn read_text(s: &str) -> (r: Option<(String, String)>)
    ensures
        r is Some <==> json_text_read(s@) is Some,
        r matches Some((t, rest)) ==> json_text_read(s@) == Some((t@, rest@)) && rest@.len()
            < s@.len(),
{
    let mut values = serde_json::Deserializer::from_str(s).into_iter::<String>();
    match values.next() {
        Some(Ok(t)) => Some((t, s[values.byte_offset()..].to_owned())),
        _ => None,
    }
}

/// `serde_json::StreamDeserializer::next` for a `bool`: the boolean at the start
/// of a text, after white space. What comes out, and what is left of the text,
/// depends on the text alone; a boolean takes up some of it.
#[verifier::external_body]
fn read_flag(s: &str) -> (r: Option<(bool, String)>)
    ensures
        r is Some <==> json_flag_read(s@) is Some,
        r matches Some((b, rest)) ==> json_flag_read(s@) == Some((b, rest@)) && rest@.len()
            < s@.len(),
{
    let mut values = serde_json::Deserializer::from_str(s).into_iter::<bool>();
    match values.next() {
        Some(Ok(b)) => Some((b, s[values.byte_offset()..].to_owned())),
        _ => None,
    }
}

/// `serde_json::StreamDeserializer::next` for a `serde::de::IgnoredAny`: skips
/// the value at the start of a text, after white space. What is left of the text
/// depends on the text alone; a value takes up some of it.
#[verifier::external_body]
fn skip_value(s: &str) -> (r: Option<String>)
    ensures
        r is Some <==> json_skipped(s@) is Some,
        r matches Some(rest) ==> json_skipped(s@) == Some(rest@) && rest@.len() < s@.len(),
{
    let mut values = serde_json::Deserializer::from_str(s).into_iter::<serde::de::IgnoredAny>();
    match values.next() {
        Some(Ok(_)) => Some(s[values.byte_offset()..].to_owned()),
        _ => None,
    }
}

/// Whether `c` is white space between the parts of a JSON text.
pub open spec fn is_gap(c: char) -> bool {
    c == ' ' || c == '\n' || c == '\t' || c == '\r'
}

/// `s` without white space at its start.
pub open spec fn past_gap(s: Seq<char>) -> Seq<char>
    decreases s.len(),
{
    if s.len() > 0 && is_gap(s[0]) {
        past_gap(s.drop_first())
    } else {
        s
    }
}

proof fn lemma_past_gap(s: Seq<char>)
    ensures
        past_gap(s).len() <= s.len(),
    decreases s.len(),
{
    if s.len() > 0 && is_gap(s[0]) {
        lemma_past_gap(s.drop_first());
    }
}

/// What is left of `s` after white space and the mark `c`, if it starts so.
pub open spec fn past_mark(s: Seq<char>, c: char) -> Option<Seq<char>> {
    let t = past_gap(s);
    if t.len() > 0 && t[0] == c {
        Some(t.skip(1))
    } else {
        None
    }
}

/// A value and what is left of the text after it.
#[verifier::ext_equal]
pub struct Taken {
    pub slot: SlotModel,
    pub rest: Seq<char>,
}

/// The value of a field at the start of `s`.
pub open spec fn slot_at(f: FieldModel, s: Seq<char>) -> Option<Taken> {
    if f.is_flag {
        match json_flag_read(s) {
            Some((b, rest)) => Some(Taken { slot: SlotModel::Flag(b), rest }),
            None => None,
        }
    } else {
        match json_text_read(s) {
            Some((t, rest)) => Some(Taken { slot: SlotModel::Text(t), rest }),
            None => None,
        }
    }
}

/// The index of the first field of this name from `i` on, or their number.
pub open spec fn field_named(f: Seq<FieldModel>, name: Seq<char>, i: int) -> int
    decreases f.len() - i,
{
    if i < 0 || i >= f.len() {
        f.len() as int
    } else if f[i].name == name {
        i
    } else {
        field_named(f, name, i + 1)
    }
}

/// Where the next member of an object starts, which is with its name: after a
/// comma, unless it is the first.
pub open spec fn member_start(s: Seq<char>, first: bool) -> Option<Seq<char>> {
    let t = if first {
        past_gap(s)
    } else {
        match past_mark(s, ',') {
            Some(u) => past_gap(u),
            None => Seq::empty(),
        }
    };
    if t.len() > 0 && t[0] == '"' {
        Some(t)
    } else {
        None
    }
}

/// The values of the fields, as far as they are known, and what is left of the
/// text.
#[verifier::ext_equal]
pub struct Known {
    pub slots: Seq<Option<SlotModel>>,
    pub rest: Seq<char>,
}

/// What is known after one member of an object: its name, a colon and its
/// value. A field that is known already must not come again.
pub open spec fn after_member(f: Seq<FieldModel>, start: Seq<char>, known: Seq<Option<SlotModel>>) -> Option<
    Known,
> {
    match json_text_read(start) {
        None => None,
        Some((name, after_name)) => match past_mark(after_name, ':') {
            None => None,
            Some(value) => {
                let k = field_named(f, name, 0);
                if k >= f.len() {
                    match json_skipped(value) {
                        Some(rest) => Some(Known { slots: known, rest }),
                        None => None,
                    }
                } else if known[k] is Some {
                    None
                } else {
                    match slot_at(f[k], value) {
                        Some(t) => Some(
                            Known { slots: known.update(k, Some(t.slot)), rest: t.rest },
                        ),
                        None => None,
                    }
                }
            },
        },
    }
}

/// What is known after the members of an object, up to its closing brace.
pub open spec fn members(
    f: Seq<FieldModel>,
    s: Seq<char>,
    known: Seq<Option<SlotModel>>,
    first: bool,
) -> Option<Known>
    decreases s.len(),
{
    match past_mark(s, '}') {
        Some(rest) => Some(Known { slots: known, rest }),
        None => match member_start(s, first) {
            None => None,
            Some(start) => match after_member(f, start, known) {
                Some(k) => if k.rest.len() < s.len() {
                    members(f, k.rest, k.slots, false)
                } else {
                    None
                },
                None => None,
            },
        },
    }
}

/// What is known after the elements of an array, up to its closing bracket,
/// where `known` holds the values of the first fields.
pub open spec fn elements(f: Seq<FieldModel>, s: Seq<char>, known: Seq<Option<SlotModel>>) -> Option<
    Known,
>
    decreases f.len() - known.len(),
{
    if known.len() >= f.len() {
        match past_mark(s, ']') {
            Some(rest) => Some(Known { slots: known, rest }),
            None => None,
        }
    } else {
        let start = if known.len() == 0 {
            Some(s)
        } else {
            past_mark(s, ',')
        };
        match start {
            None => None,
            Some(t) => match slot_at(f[known.len() as int], t) {
                Some(x) => elements(f, x.rest, known.push(Some(x.slot))),
                None => None,
            },
        }
    }
}

/// Nothing is known of `n` fields.
pub open spec fn nothing_known(n: nat) -> Seq<Option<SlotModel>> {
    Seq::new(n, |i: int| None)
}

/// Whether every field is known.
pub open spec fn all_known(known: Seq<Option<SlotModel>>) -> bool {
    forall|i: int| 0 <= i < known.len() ==> (#[trigger] known[i]) is Some
}

/// What a text says of the fields: the text is an object or an array, and white
/// space.
pub open spec fn known_of(f: Seq<FieldModel>, s: Seq<char>) -> Option<Known> {
    match past_mark(s, '{') {
        Some(t) => members(f, t, nothing_known(f.len()), true),
        None => match past_mark(s, '[') {
            Some(t) => elements(f, t, Seq::empty()),
            None => None,
        },
    }
}

/// The record that a text is: a value for each of the fields.
pub open spec fn record_of(f: Seq<FieldModel>, s: Seq<char>) -> Option<Seq<SlotModel>> {
    match known_of(f, s) {
        Some(k) => if all_known(k.slots) && past_gap(k.rest).len() == 0 {
            Some(Seq::new(k.slots.len(), |i: int| k.slots[i]->0))
        } else {
            None
        },
        None => None,
    }
}

/// Drops white space at the start of a text.
fn skip_gap(s: &str) -> (r: Vec<char>)
    ensures
        r@ == past_gap(s@),
{
    let chars = chars_of(s);
    let n: usize = chars.len();
    let mut i: usize = 0;
    assert(s@.skip(0) =~= s@);
    while i < n && (chars[i] == ' ' || chars[i] == '\n' || chars[i] == '\t' || chars[i] == '\r')
        invariant
            i <= n == chars@.len(),
            chars@ == s@,
            past_gap(s@.skip(i as int)) == past_gap(s@),
        decreases n - i,
    {
        assert(s@.skip(i as int).drop_first() =~= s@.skip(i + 1));
        i += 1;
    }
    let r = text::copy_range(chars.as_slice(), i, n);
    assert(r@ =~= s@.skip(i as int));
    r
}

fn skip_mark(s: &str, c: char) -> (r: Option<String>)
    ensures
        r is Some <==> past_mark(s@, c) is Some,
        r matches Some(t) ==> t@ == past_mark(s@, c)->0 && t@.len() < s@.len(),
{
    let t = skip_gap(s);
    proof {
        lemma_past_gap(s@);
    }
    let n: usize = t.len();
    if n > 0 && t[0] == c {
        let rest = vstd::slice::slice_subrange(t.as_slice(), 1, n);
        assert(rest@ =~= t@.skip(1));
        Some(string_of(rest))
    } else {
        None
    }
}

fn take_slot(f: &Field, s: &str) -> (r: Option<(Slot, String)>)
    ensures
        r is Some <==> slot_at(f@, s@) is Some,
        r matches Some((x, rest)) ==> slot_at(f@, s@) == Some(Taken { slot: x@, rest: rest@ })
            && rest@.len() < s@.len(),
{
    if f.is_flag {
        let (b, rest) = read_flag(s)?;
        Some((Slot::Flag(b), rest))
    } else {
        let (t, rest) = read_text(s)?;
        Some((Slot::Text(t), rest))
    }
}

fn find_field(f: &Vec<Field>, name: &str) -> (r: usize)
    ensures
        r == field_named(fields(f@), name@, 0),
        r <= f@.len(),
{
    let ghost all = fields(f@);
    let mut i: usize = 0;
    while i < f.len()
        invariant
            i <= f@.len(),
            all == fields(f@),
            field_named(all, name@, 0) == field_named(all, name@, i as int),
        decreases f@.len() - i,
    {
        assert(all[i as int] == f@[i as int]@);
        if same(f[i].name, name) {
            return i;
        }
        i += 1;
    }
    i
}

/// The values that are known, as a model.
spec fn known_slots(v: Seq<Option<Slot>>) -> Seq<Option<SlotModel>> {
    v.map_values(
        |x: Option<Slot>|
            match x {
                Some(s) => Some(s@),
                None => None,
            },
    )
}

fn start_member(s: &str, first: bool) -> (r: Option<String>)
    ensures
        r is Some <==> member_start(s@, first) is Some,
        r matches Some(t) ==> t@ == member_start(s@, first)->0 && t@.len() <= s@.len(),
{
    proof {
        lemma_past_gap(s@);
        if past_mark(s@, ',') is Some {
            lemma_past_gap(past_mark(s@, ',')->0);
        }
    }
    let t = if first {
        skip_gap(s)
    } else {
        match skip_mark(s, ',') {
            Some(u) => skip_gap(u.as_str()),
            None => {
                return None;
            },
        }
    };
    if t.len() > 0 && t[0] == '"' {
        Some(string_of(t.as_slice()))
    } else {
        None
    }
}

/// Reads one member of an object.
fn read_member(f: &Vec<Field>, start: &str, known: &mut Vec<Option<Slot>>) -> (r: Option<String>)
    requires
        old(known)@.len() == f@.len(),
    ensures
        final(known)@.len() == f@.len(),
        r is Some <==> after_member(fields(f@), start@, known_slots(old(known)@)) is Some,
        r matches Some(rest) ==> after_member(fields(f@), start@, known_slots(old(known)@)) == Some(
            (Known { slots: known_slots(final(known)@), rest: rest@ }),
        ) && rest@.len() < start@.len(),
{
    let ghost before = known_slots(known@);
    let (name, after_name) = read_text(start)?;
    let value = skip_mark(after_name.as_str(), ':')?;
    let k: usize = find_field(f, name.as_str());
    if k >= f.len() {
        return skip_value(value.as_str());
    }
    assert(fields(f@)[k as int] == f@[k as int]@);
    assert(before[k as int] is Some <==> known@[k as int] is Some);
    if known[k].is_some() {
        return None;
    }
    let (x, rest) = take_slot(&f[k], value.as_str())?;
    let ghost slot = x@;
    known[k] = Some(x);
    assert(known_slots(known@) =~= before.update(k as int, Some(slot)));
    Some(rest)
}

/// Reads the members of an object.
fn read_members(f: &Vec<Field>, s: String) -> (r: Option<(Vec<Option<Slot>>, String)>)
    ensures
        ({
            let m = members(fields(f@), s@, nothing_known(f@.len()), true);
            &&& r is Some <==> m is Some
            &&& r matches Some((known, rest)) ==> m == Some(
                (Known { slots: known_slots(known@), rest: rest@ }),
            )
        }),
{
    let ghost all = fields(f@);
    let mut known: Vec<Option<Slot>> = Vec::new();
    while known.len() < f.len()
        invariant
            known@.len() <= f@.len(),
            forall|i: int| 0 <= i < known@.len() ==> (#[trigger] known@[i]) is None,
        decreases f@.len() - known@.len(),
    {
        known.push(None);
    }
    assert(known_slots(known@) =~= nothing_known(f@.len()));
    let mut left = s;
    let mut first = true;
    let ghost whole = members(all, left@, nothing_known(f@.len()), true);
    loop
        invariant
            all == fields(f@),
            known@.len() == f@.len(),
            members(all, left@, known_slots(known@), first) == whole,
            whole == members(all, s@, nothing_known(f@.len()), true),
        decreases left@.len(),
    {
        if let Some(rest) = skip_mark(left.as_str(), '}') {
            return Some((known, rest));
        }
        let start = match start_member(left.as_str(), first) {
            Some(t) => t,
            None => {
                return None;
            },
        };
        match read_member(f, start.as_str(), &mut known) {
            Some(rest) => {
                left = rest;
                first = false;
            },
            None => {
                return None;
            },
        }
    }
}

/// Reads the elements of an array.
fn read_elements(f: &Vec<Field>, s: String) -> (r: Option<(Vec<Option<Slot>>, String)>)
    ensures
        ({
            let m = elements(fields(f@), s@, Seq::empty());
            &&& r is Some <==> m is Some
            &&& r matches Some((known, rest)) ==> m == Some(
                (Known { slots: known_slots(known@), rest: rest@ }),
            )
        }),
{
    let ghost all = fields(f@);
    let mut known: Vec<Option<Slot>> = Vec::new();
    let mut left = s;
    assert(known_slots(known@) =~= Seq::<Option<SlotModel>>::empty());
    while known.len() < f.len()
        invariant
            all == fields(f@),
            known@.len() <= f@.len(),
            elements(all, left@, known_slots(known@)) == elements(all, s@, Seq::empty()),
        decreases f@.len() - known@.len(),
    {
        let i: usize = known.len();
        let ghost before = known_slots(known@);
        assert(all[i as int] == f@[i as int]@);
        if i > 0 {
            left = match skip_mark(left.as_str(), ',') {
                Some(t) => t,
                None => {
                    return None;
                },
            };
        }
        match take_slot(&f[i], left.as_str()) {
            Some((x, rest)) => {
                let ghost slot = x@;
                known.push(Some(x));
                assert(known_slots(known@) =~= before.push(Some(slot)));
                left = rest;
            },
            None => {
                return None;
            },
        }
    }
    let rest = skip_mark(left.as_str(), ']')?;
    Some((known, rest))
}

/// Reads the record that a text is.
pub fn read_record(f: &Vec<Field>, s: &str) -> (r: Option<Vec<Slot>>)
    ensures
        r is Some <==> record_of(fields(f@), s@) is Some,
        r matches Some(v) ==> slots(v@) == record_of(fields(f@), s@)->0,
{
    let found = match skip_mark(s, '{') {
        Some(t) => read_members(f, t),
        None => match skip_mark(s, '[') {
            Some(t) => read_elements(f, t),
            None => None,
        },
    };
    let (known, rest) = found?;
    let ghost all = known_slots(known@);
    let ended = skip_gap(rest.as_str()).len() == 0;
    let mut out: Vec<Slot> = Vec::new();
    let n: usize = known.len();
    let mut left = known;
    let ghost want = record_of(fields(f@), s@);
    assert(left@ =~= known@.skip(0));
    assert(want is Some ==> all_known(all));
    while left.len() > 0
        invariant
            all == known_slots(known@),
            n == known@.len(),
            out@.len() + left@.len() == n,
            left@ == known@.skip(out@.len() as int),
            want == record_of(fields(f@), s@),
            want is Some ==> all_known(all),
            forall|i: int| 0 <= i < out@.len() ==> #[trigger] all[i] == Some(out@[i]@),
        decreases left@.len(),
    {
        let ghost i = out@.len() as int;
        assert(left@[0] == known@[i]);
        match left.remove(0) {
            Some(x) => {
                let ghost before = out@;
                let ghost slot = x@;
                assert(all[i] == Some(slot));
                out.push(x);
                assert forall|j: int| 0 <= j < out@.len() implies #[trigger] all[j] == Some(
                    out@[j]@,
                ) by {
                    if j < i {
                        assert(out@[j] == before[j]);
                    }
                }
                assert(left@ =~= known@.skip(i + 1));
            },
            None => {
                assert(all[i] is None);
                return None;
            },
        }
    }
    assert(all_known(all));
    assert(slots(out@) =~= Seq::new(all.len(), |i: int| all[i]->0));
    if ended {
        Some(out)
    } else {
        None
    }
}

/// White space between the parts of a text does not matter, and a mark is found
/// only where it is the next thing.
pub proof fn law_marks_after_white_space(g: Seq<char>, c: char, d: char, rest: Seq<char>)
    requires
        forall|k: int|
            0 <= k < g.len() ==> #[trigger] g[k] == ' ' || g[k] == '\n' || g[k] == '\t' || g[k]
                == '\r',
        d != ' ' && d != '\n' && d != '\t' && d != '\r',
    ensures
        d == c ==> past_mark(g.push(d) + rest, c) == Some(rest),
        d != c ==> past_mark(g.push(d) + rest, c) is None,
        past_mark(g, d) is None,
        past_gap(g).len() == 0,
        past_gap(g.push(d) + rest) == seq![d] + rest,
    decreases g.len(),
{
    let s = g.push(d) + rest;
    if g.len() > 0 {
        let t = g.drop_first();
        assert forall|k: int| 0 <= k < t.len() implies #[trigger] t[k] == ' ' || t[k] == '\n'
            || t[k] == '\t' || t[k] == '\r' by {
            assert(t[k] == g[k + 1]);
        }
        law_marks_after_white_space(t, c, d, rest);
        assert(g[0] == ' ' || g[0] == '\n' || g[0] == '\t' || g[0] == '\r');
        assert(s.drop_first() =~= t.push(d) + rest);
    } else {
        assert(s =~= seq![d] + rest);
        assert(s.skip(1) =~= rest);
    }
}

proof fn lemma_field_named(f: Seq<FieldModel>, name: Seq<char>, i: int)
    requires
        0 <= i <= f.len(),
    ensures
        i <= field_named(f, name, i) <= f.len(),
        field_named(f, name, i) < f.len() ==> f[field_named(f, name, i)].name == name,
        forall|k: int| i <= k < field_named(f, name, i) ==> (#[trigger] f[k]).name != name,
    decreases f.len() - i,
{
    if i < f.len() && f[i].name != name {
        lemma_field_named(f, name, i + 1);
    }
}

/// A member of an object gives its value to the field of its name. It must be of
/// the field's type, and a field is not given twice; a member that is no field
/// is passed over.
pub proof fn law_members_fill_their_fields(
    f: Seq<FieldModel>,
    m: Seq<char>,
    g: Seq<char>,
    v: Seq<char>,
    name: Seq<char>,
    known: Seq<Option<SlotModel>>,
    k: int,
)
    requires
        forall|i: int|
            0 <= i < g.len() ==> #[trigger] g[i] == ' ' || g[i] == '\n' || g[i] == '\t' || g[i]
                == '\r',
        json_text_read(m) == Some((name, g.push(':') + v)),
        known.len() == f.len(),
    ensures
        0 <= k < f.len() && f[k].name == name && (forall|i: int|
            0 <= i < k ==> (#[trigger] f[i]).name != name) ==> {
            let r = after_member(f, m, known);
            &&& known[k] is Some ==> r is None
            &&& known[k] is None && f[k].is_flag && json_flag_read(v) is Some ==> r == Some(
                Known {
                    slots: known.update(k, Some(SlotModel::Flag((json_flag_read(v)->0).0))),
                    rest: (json_flag_read(v)->0).1,
                },
            )
            &&& known[k] is None && f[k].is_flag && json_flag_read(v) is None ==> r is None
            &&& known[k] is None && !f[k].is_flag && json_text_read(v) is Some ==> r == Some(
                Known {
                    slots: known.update(k, Some(SlotModel::Text((json_text_read(v)->0).0))),
                    rest: (json_text_read(v)->0).1,
                },
            )
            &&& known[k] is None && !f[k].is_flag && json_text_read(v) is None ==> r is None
        },
        (forall|i: int| 0 <= i < f.len() ==> (#[trigger] f[i]).name != name) ==> {
            let r = after_member(f, m, known);
            &&& json_skipped(v) is Some ==> r == Some(
                Known { slots: known, rest: json_skipped(v)->0 },
            )
            &&& json_skipped(v) is None ==> r is None
        },
{
    law_marks_after_white_space(g, ':', ':', v);
    lemma_field_named(f, name, 0);
}

/// Members are read one after the other, with commas between them, up to the
/// closing brace.
pub proof fn law_objects_end_with_a_brace(
    f: Seq<FieldModel>,
    g: Seq<char>,
    rest: Seq<char>,
    known: Seq<Option<SlotModel>>,
    first: bool,
)
    requires
        forall|i: int|
            0 <= i < g.len() ==> #[trigger] g[i] == ' ' || g[i] == '\n' || g[i] == '\t' || g[i]
                == '\r',
    ensures
        members(f, g.push('}') + rest, known, first) == Some(Known { slots: known, rest }),
        member_start(g.push('"') + rest, true) == Some(seq!['"'] + rest),
        member_start(g.push('"') + rest, false) is None,
        member_start(g.push(',').push('"') + rest, false) == Some(seq!['"'] + rest),
        member_start(g.push(',').push('"') + rest, true) is None,
{
    law_marks_after_white_space(g, '}', '}', rest);
    law_marks_after_white_space(g, ',', '"', rest);
    let t = seq!['"'] + rest;
    law_marks_after_white_space(g, ',', ',', t);
    assert(g.push(',').push('"') + rest =~= g.push(',') + t);
    assert(past_gap(t) =~= t);
}

/// A text is a record if every field has a value and nothing but white space is
/// left; it then has one value for each field, in the order of the fields.
pub proof fn law_records_are_complete(f: Seq<FieldModel>, s: Seq<char>)
    ensures
        record_of(f, s) matches Some(slots) ==> {
            let k = known_of(f, s);
            &&& k is Some
            &&& slots.len() == k->0.slots.len()
            &&& forall|i: int| 0 <= i < slots.len() ==> k->0.slots[i] == Some(#[trigger] slots[i])
        },
        known_of(f, s) is None ==> record_of(f, s) is None,
        known_of(f, s) matches Some(k) ==> {
            &&& (exists|i: int| 0 <= i < k.slots.len() && (#[trigger] k.slots[i]) is None)
                ==> record_of(f, s) is None
            &&& (forall|i: int| 0 <= i < k.slots.len() ==> (#[trigger] k.slots[i]) is Some)
                && k.rest.len() == 0 ==> record_of(f, s) is Some
        },
{
    if known_of(f, s) is Some {
        let k = known_of(f, s)->0;
        if exists|i: int| 0 <= i < k.slots.len() && (#[trigger] k.slots[i]) is None {
            let i = choose|i: int| 0 <= i < k.slots.len() && (#[trigger] k.slots[i]) is None;
            assert(!all_known(k.slots));
        }
        if record_of(f, s) is Some {
            let slots = record_of(f, s)->0;
            assert forall|i: int| 0 <= i < slots.len() implies k.slots[i] == Some(
                #[trigger] slots[i],
            ) by {
                assert(k.slots[i] is Some);
            }
        }
    }
}

/// Fields are what their models say, one by one.
pub proof fn law_models_are_the_fields(s: Seq<Field>, i: int)
    requires
        0 <= i < s.len(),
    ensures
        fields(s).len() == s.len(),
        fields(s)[i].name == s[i].name@,
        fields(s)[i].is_flag == s[i].is_flag,
{
}

/// Values are what their models say, one by one.
pub proof fn law_models_are_the_values(s: Seq<Slot>, i: int)
    requires
        0 <= i < s.len(),
    ensures
        slots(s).len() == s.len(),
        s[i] matches Slot::Text(t) ==> slots(s)[i] == SlotModel::Text(t@),
        s[i] matches Slot::Flag(b) ==> slots(s)[i] == SlotModel::Flag(b),
{
}

/// A field is of one of two types, under its name.
pub proof fn law_fields_have_a_type(name: Seq<char>)
    ensures
        text_field(name).name == name && !text_field(name).is_flag,
        flag_field(name).name == name && flag_field(name).is_flag,
{
}

} // verus!
