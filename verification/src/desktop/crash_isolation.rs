//! The crash report: a small JSON document, formatted by hand so that writing
//! it depends on as little as possible.

use vstd::prelude::*;

use crate::text;
use crate::text::{append, chars_of, decimal, joined, string_of};

verus! {

/// A hexadecimal digit.
pub open spec fn hex_digit(d: int) -> char {
    if d < 10 {
        ((0x30 + d) as u8) as char
    } else {
        ((0x57 + d) as u8) as char
    }
}

/// A character inside a JSON string.
pub open spec fn escaped_char(c: char) -> Seq<char> {
    if c == '"' {
        seq!['\\', '"']
    } else if c == '\\' {
        seq!['\\', '\\']
    } else if c == '\n' {
        seq!['\\', 'n']
    } else if c == '\r' {
        seq!['\\', 'r']
    } else if c == '\t' {
        seq!['\\', 't']
    } else if (c as u32) < 0x20 {
        seq!['\\', 'u', '0', '0', hex_digit((c as u32) as int / 16), hex_digit((c as u32) as int % 16)]
    } else {
        seq![c]
    }
}

/// A text inside a JSON string.
pub open spec fn escaped(s: Seq<char>) -> Seq<char>
    decreases s.len(),
{
    if s.len() == 0 {
        Seq::empty()
    } else {
        escaped(s.drop_last()) + escaped_char(s.last())
    }
}

fn push_hex(out: &mut Vec<char>, d: u8)
    requires
        d < 16,
    ensures
        final(out)@ == old(out)@.push(hex_digit(d as int)),
{
    if d < 10 {
        out.push((0x30u8 + d) as char);
    } else {
        out.push((0x57u8 + d) as char);
    }
}

/// Appends a text as it stands inside a JSON string.
fn push_escaped(out: &mut Vec<char>, s: &[char])
    ensures
        final(out)@ == old(out)@ + escaped(s@),
{
    let mut i: usize = 0;
    assert(s@.take(0) =~= Seq::<char>::empty());
    assert(out@ + escaped(s@.take(0)) =~= out@);
    while i < s.len()
        invariant
            i <= s@.len(),
            out@ == old(out)@ + escaped(s@.take(i as int)),
        decreases s@.len() - i,
    {
        let c = s[i];
        let ghost before = out@;
        proof {
            assert(s@.take(i + 1).drop_last() =~= s@.take(i as int));
            assert(s@.take(i + 1).last() == c);
        }
        if c == '"' || c == '\\' {
            out.push('\\');
            out.push(c);
        } else if c == '\n' {
            out.push('\\');
            out.push('n');
        } else if c == '\r' {
            out.push('\\');
            out.push('r');
        } else if c == '\t' {
            out.push('\\');
            out.push('t');
        } else if (c as u32) < 0x20 {
            let n: u8 = (c as u32) as u8;
            out.push('\\');
            out.push('u');
            out.push('0');
            out.push('0');
            push_hex(out, n / 16);
            push_hex(out, n % 16);
        } else {
            out.push(c);
        }
        assert(out@ =~= before + escaped_char(c));
        assert(out@ =~= old(out)@ + (escaped(s@.take(i as int)) + escaped_char(c)));
        i += 1;
    }
    assert(s@.take(i as int) =~= s@);
}

/// Escapes a text for a JSON string.
pub fn escape_json(s: &str) -> (out: String)
    ensures
        out@ == escaped(s@),
{
    let chars = chars_of(s);
    let mut out: Vec<char> = Vec::new();
    push_escaped(&mut out, chars.as_slice());
    assert(out@ =~= escaped(s@));
    string_of(out.as_slice())
}

/// What a crash report says.
pub struct CrashReport {
    /// Seconds since the epoch.
    pub ts: u64,
    pub thread: String,
    pub location: String,
    pub message: String,
    pub backtrace: String,
}

/// The text of a crash report.
pub open spec fn report_text(r: CrashReport) -> Seq<char> {
    "{\n  \"ts\": "@ + text::decimal_spec(r.ts as nat) + ",\n  \"thread\": \""@ + escaped(r.thread@)
        + "\",\n  \"location\": \""@ + escaped(r.location@) + "\",\n  \"message\": \""@ + escaped(
        r.message@,
    ) + "\",\n  \"backtrace\": \""@ + escaped(r.backtrace@) + "\"\n}\n"@
}

fn push_lit(out: &mut Vec<char>, s: &str)
    ensures
        final(out)@ == old(out)@ + s@,
{
    let chars = chars_of(s);
    append(out, chars.as_slice());
}

/// Formats a crash report.
pub fn crash_json(r: &CrashReport) -> (out: String)
    ensures
        out@ == report_text(*r),
{
    let mut v: Vec<char> = Vec::new();
    let ts = decimal(r.ts);
    push_lit(&mut v, "{\n  \"ts\": ");
    push_lit(&mut v, ts.as_str());
    push_lit(&mut v, ",\n  \"thread\": \"");
    push_escaped(&mut v, chars_of(r.thread.as_str()).as_slice());
    push_lit(&mut v, "\",\n  \"location\": \"");
    push_escaped(&mut v, chars_of(r.location.as_str()).as_slice());
    push_lit(&mut v, "\",\n  \"message\": \"");
    push_escaped(&mut v, chars_of(r.message.as_str()).as_slice());
    push_lit(&mut v, "\",\n  \"backtrace\": \"");
    push_escaped(&mut v, chars_of(r.backtrace.as_str()).as_slice());
    push_lit(&mut v, "\"\n}\n");
    assert(v@ =~= report_text(*r));
    string_of(v.as_slice())
}

/// The name of the file that a crash report goes to.
pub fn crash_file_name(ts: u64) -> (out: String)
    ensures
        out@ == text::decimal_spec(ts as nat) + ".json"@,
{
    joined(decimal(ts).as_str(), ".json")
}

/// Where a panic happened: file, line and column, or a placeholder.
pub fn location_text(location: Option<(&str, u32, u32)>) -> (out: String)
    ensures
        out@ == match location {
            Some((f, l, c)) => f@ + ":"@ + text::decimal_spec(l as nat) + ":"@
                + text::decimal_spec(c as nat),
            None => "<unknown>"@,
        },
{
    match location {
        Some((f, l, c)) => {
            let mut v: Vec<char> = Vec::new();
            push_lit(&mut v, f);
            push_lit(&mut v, ":");
            push_lit(&mut v, decimal(l as u64).as_str());
            push_lit(&mut v, ":");
            push_lit(&mut v, decimal(c as u64).as_str());
            assert(v@ =~= f@ + ":"@ + text::decimal_spec(l as nat) + ":"@ + text::decimal_spec(
                c as nat,
            ));
            string_of(v.as_slice())
        },
        None => string_of(chars_of("<unknown>").as_slice()),
    }
}

/// Whether `c` may stand unescaped in a JSON string.
pub open spec fn is_plain(c: char) -> bool {
    c as u32 >= 0x20
}

proof fn lemma_hex_digit(d: int)
    requires
        0 <= d < 16,
    ensures
        hex_digit(d) as u32 == if d < 10 {
            0x30 + d
        } else {
            0x57 + d
        },
        hex_value(hex_digit(d)) == d,
        is_plain(hex_digit(d)),
        hex_digit(d) != '"',
{
}

proof fn lemma_control_char_reads_back(c: char)
    requires
        (c as u32) < 0x20,
    ensures
        ({
            let hi = hex_value(hex_digit((c as u32) as int / 16));
            let lo = hex_value(hex_digit((c as u32) as int % 16));
            ((hi * 16 + lo) as u8) as char == c
        }),
{
    lemma_hex_digit((c as u32) as int / 16);
    lemma_hex_digit((c as u32) as int % 16);
}

proof fn lemma_escaped_char_is_printable(c: char)
    ensures
        forall|i: int| 0 <= i < escaped_char(c).len() ==> is_plain(#[trigger] escaped_char(c)[i]),
{
    if (c as u32) < 0x20 {
        lemma_hex_digit((c as u32) as int / 16);
        lemma_hex_digit((c as u32) as int % 16);
    }
}

/// An escaped text holds no control character.
pub proof fn law_escaped_text_is_printable(s: Seq<char>)
    ensures
        forall|i: int| 0 <= i < escaped(s).len() ==> is_plain(#[trigger] escaped(s)[i]),
    decreases s.len(),
{
    if s.len() > 0 {
        law_escaped_text_is_printable(s.drop_last());
        let e = escaped(s.drop_last());
        let c = escaped_char(s.last());
        lemma_escaped_char_is_printable(s.last());
        assert forall|i: int| 0 <= i < escaped(s).len() implies is_plain(
            #[trigger] escaped(s)[i],
        ) by {
            if i < e.len() {
                assert(escaped(s)[i] == e[i]);
            } else {
                assert(escaped(s)[i] == c[i - e.len()]);
            }
        }
    }
}

/// Reads an escaped text from `i` on: what the characters stand for, or none
/// where a quote ends the string.
pub open spec fn unescaped(e: Seq<char>, i: int) -> Seq<char>
    decreases e.len() - i,
{
    if i < 0 || i >= e.len() || e[i] == '"' {
        Seq::empty()
    } else if e[i] != '\\' {
        seq![e[i]] + unescaped(e, i + 1)
    } else if i + 1 >= e.len() {
        Seq::empty()
    } else if e[i + 1] == 'u' && i + 6 <= e.len() {
        seq![((hex_value(e[i + 4]) * 16 + hex_value(e[i + 5])) as u8) as char] + unescaped(e, i + 6)
    } else if e[i + 1] == 'n' {
        seq!['\n'] + unescaped(e, i + 2)
    } else if e[i + 1] == 'r' {
        seq!['\r'] + unescaped(e, i + 2)
    } else if e[i + 1] == 't' {
        seq!['\t'] + unescaped(e, i + 2)
    } else {
        seq![e[i + 1]] + unescaped(e, i + 2)
    }
}

/// The value of a hexadecimal digit.
pub open spec fn hex_value(c: char) -> int {
    if c as u32 >= 0x57 {
        c as u32 - 0x57
    } else {
        c as u32 - 0x30
    }
}

proof fn lemma_escaped_concat(a: Seq<char>, b: Seq<char>)
    ensures
        escaped(a + b) == escaped(a) + escaped(b),
    decreases b.len(),
{
    if b.len() == 0 {
        assert(a + b =~= a);
        assert(escaped(a) + escaped(b) =~= escaped(a));
    } else {
        assert((a + b).drop_last() =~= a + b.drop_last());
        assert((a + b).last() == b.last());
        lemma_escaped_concat(a, b.drop_last());
        assert(escaped(a + b) =~= escaped(a) + escaped(b));
    }
}

proof fn lemma_unescaped_from(s: Seq<char>, k: int)
    requires
        0 <= k <= s.len(),
    ensures
        unescaped(escaped(s), escaped(s.take(k)).len() as int) == s.skip(k),
    decreases s.len() - k,
{
    let e = escaped(s);
    let p = escaped(s.take(k)).len() as int;
    lemma_escaped_concat(s.take(k), s.skip(k));
    assert(s =~= s.take(k) + s.skip(k));
    if k < s.len() {
        let c = s[k];
        let m = escaped_char(c);
        lemma_unescaped_from(s, k + 1);
        assert(s.take(k + 1).drop_last() =~= s.take(k));
        assert(escaped(s.take(k + 1)) == escaped(s.take(k)) + m);
        lemma_escaped_concat(s.take(k + 1), s.skip(k + 1));
        assert(s =~= s.take(k + 1) + s.skip(k + 1));
        assert forall|j: int| 0 <= j < m.len() implies e[p + j] == #[trigger] m[j] by {
            assert(e[p + j] == escaped(s.take(k + 1))[p + j]);
        }
        assert(m[0] == e[p]);
        if m.len() > 1 {
            assert(m[1] == e[p + 1]);
        }
        if m.len() == 6 {
            assert(m[4] == e[p + 4]);
            assert(m[5] == e[p + 5]);
            lemma_control_char_reads_back(c);
        }
        assert(unescaped(e, p) == seq![c] + unescaped(e, p + m.len()));
        assert(s.skip(k) =~= seq![c] + s.skip(k + 1));
    } else {
        assert(s.take(k) =~= s);
        assert(s.skip(k) =~= Seq::<char>::empty());
    }
}

/// Reading an escaped text gives the text back.
pub proof fn law_escaping_reads_back(s: Seq<char>)
    ensures
        unescaped(escaped(s), 0) == s,
{
    lemma_unescaped_from(s, 0);
    assert(s.take(0) =~= Seq::<char>::empty());
    assert(s.skip(0) =~= s);
}

/// A text is escaped character by character: a quote, a backslash and the
/// controls of line and column by a letter after a backslash, any other control
/// character by its number, and what is left stands for itself.
pub proof fn law_each_character_is_escaped(s: Seq<char>, c: char)
    ensures
        escaped(Seq::empty()).len() == 0,
        c == '"' ==> escaped(s.push(c)) == escaped(s).push('\\').push('"'),
        c == '\\' ==> escaped(s.push(c)) == escaped(s).push('\\').push('\\'),
        c == '\n' ==> escaped(s.push(c)) == escaped(s).push('\\').push('n'),
        c == '\r' ==> escaped(s.push(c)) == escaped(s).push('\\').push('r'),
        c == '\t' ==> escaped(s.push(c)) == escaped(s).push('\\').push('t'),
        c as u32 >= 0x20 && c != '"' && c != '\\' ==> escaped(s.push(c)) == escaped(s).push(c),
{
    assert(s.push(c).drop_last() =~= s);
    let e = escaped(s);
    if c == '"' {
        assert(escaped(s.push(c)) =~= e.push('\\').push('"'));
    } else if c == '\\' {
        assert(escaped(s.push(c)) =~= e.push('\\').push('\\'));
    } else if c == '\n' {
        assert(escaped(s.push(c)) =~= e.push('\\').push('n'));
    } else if c == '\r' {
        assert(escaped(s.push(c)) =~= e.push('\\').push('r'));
    } else if c == '\t' {
        assert(escaped(s.push(c)) =~= e.push('\\').push('t'));
    } else if c as u32 >= 0x20 {
        assert(escaped(s.push(c)) =~= e.push(c));
    }
}

proof fn lemma_field(
    h: Seq<char>,
    open: Seq<char>,
    v: Seq<char>,
    close: Seq<char>,
    t: Seq<char>,
    i: int,
    j: int,
)
    requires
        0 <= i <= open.len(),
        0 <= j <= close.len(),
    ensures
        text::mentions(h + open + v + close + t, open.skip(i) + v + close.take(j)),
{
    let s = h + open + v + close + t;
    let p = open.skip(i) + v + close.take(j);
    let k = h.len() + i;
    assert(s.subrange(k, k + p.len()) =~= p);
}

/// A report says, each on a line under its own name, when the crash was, in
/// which thread and where, what was said, and the backtrace.
pub proof fn law_report_names_its_fields(r: CrashReport)
    ensures
        text::mentions(report_text(r), "\"ts\": "@ + text::decimal_spec(r.ts as nat) + ",\n"@),
        text::mentions(report_text(r), "\"thread\": \""@ + escaped(r.thread@) + "\",\n"@),
        text::mentions(report_text(r), "\"location\": \""@ + escaped(r.location@) + "\",\n"@),
        text::mentions(report_text(r), "\"message\": \""@ + escaped(r.message@) + "\",\n"@),
        text::mentions(report_text(r), "\"backtrace\": \""@ + escaped(r.backtrace@) + "\"\n"@),
{
    let ts = text::decimal_spec(r.ts as nat);
    let (t, l, m, b) = (
        escaped(r.thread@),
        escaped(r.location@),
        escaped(r.message@),
        escaped(r.backtrace@),
    );
    let e = Seq::<char>::empty();
    let l1 = "{\n  \"ts\": "@;
    let l2 = ",\n  \"thread\": \""@;
    let l3 = "\",\n  \"location\": \""@;
    let l4 = "\",\n  \"message\": \""@;
    let l5 = "\",\n  \"backtrace\": \""@;
    let l6 = "\"\n}\n"@;
    let all = report_text(r);
    assert(all =~= e + l1 + ts + l2 + (t + l3 + l + l4 + m + l5 + b + l6));
    assert(all =~= (l1 + ts) + l2 + t + l3 + (l + l4 + m + l5 + b + l6));
    assert(all =~= (l1 + ts + l2 + t) + l3 + l + l4 + (m + l5 + b + l6));
    assert(all =~= (l1 + ts + l2 + t + l3 + l) + l4 + m + l5 + (b + l6));
    assert(all =~= (l1 + ts + l2 + t + l3 + l + l4 + m) + l5 + b + l6 + e);
    assert(l1.len() >= 4 && l1.skip(4) =~= "\"ts\": "@ && l2.len() >= 2 && l2.take(2) =~= ",\n"@)
        by {
        reveal_strlit("{\n  \"ts\": ");
        reveal_strlit("\"ts\": ");
        reveal_strlit(",\n  \"thread\": \"");
        reveal_strlit(",\n");
    }
    assert(l2.len() >= 4 && l2.skip(4) =~= "\"thread\": \""@ && l3.len() >= 3 && l3.take(3)
        =~= "\",\n"@) by {
        reveal_strlit(",\n  \"thread\": \"");
        reveal_strlit("\"thread\": \"");
        reveal_strlit("\",\n  \"location\": \"");
        reveal_strlit("\",\n");
    }
    assert(l3.len() >= 5 && l3.skip(5) =~= "\"location\": \""@ && l4.len() >= 3 && l4.take(3)
        =~= "\",\n"@) by {
        reveal_strlit("\",\n  \"location\": \"");
        reveal_strlit("\"location\": \"");
        reveal_strlit("\",\n  \"message\": \"");
        reveal_strlit("\",\n");
    }
    assert(l4.len() >= 5 && l4.skip(5) =~= "\"message\": \""@ && l5.len() >= 3 && l5.take(3)
        =~= "\",\n"@) by {
        reveal_strlit("\",\n  \"message\": \"");
        reveal_strlit("\"message\": \"");
        reveal_strlit("\",\n  \"backtrace\": \"");
        reveal_strlit("\",\n");
    }
    assert(l5.len() >= 5 && l5.skip(5) =~= "\"backtrace\": \""@ && l6.len() >= 2 && l6.take(2)
        =~= "\"\n"@) by {
        reveal_strlit("\",\n  \"backtrace\": \"");
        reveal_strlit("\"backtrace\": \"");
        reveal_strlit("\"\n}\n");
        reveal_strlit("\"\n");
    }
    lemma_field(e, l1, ts, l2, t + l3 + l + l4 + m + l5 + b + l6, 4, 2);
    lemma_field(l1 + ts, l2, t, l3, l + l4 + m + l5 + b + l6, 4, 3);
    lemma_field(l1 + ts + l2 + t, l3, l, l4, m + l5 + b + l6, 5, 3);
    lemma_field(l1 + ts + l2 + t + l3 + l, l4, m, l5, b + l6, 5, 3);
    lemma_field(l1 + ts + l2 + t + l3 + l + l4 + m, l5, b, l6, e, 5, 2);
}

} // verus!
