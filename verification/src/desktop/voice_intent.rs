//! What an utterance is for, before anything is sent to the model: stopping or
//! muting JARVIS, waking it, answering a pending approval, or a chat turn.
//!
//! Words are compared in lower case and without punctuation. What is a letter
//! or a digit, and what lower case is, is Unicode's; every contract also says
//! what it comes to for text of ASCII.

use vstd::prelude::*;

use crate::text;
use crate::text::{
    alnum_mask, chars_of, is_space, join, runs_of, spells, string_of, trim, trim_start, words,
};

verus! {

/// What to do with an utterance.
#[derive(Debug, Clone, PartialEq, Eq)]
pub enum VoiceIntent {
    /// Halt speech and drop the utterance.
    Stop,
    /// Listen for the wake word only.
    Mute,
    /// Wake up; what follows the wake word, if anything, is the next chat turn.
    Wake(String),
    /// Drop the utterance.
    Ignore,
    /// Answer the pending approval with "approve", "always" or "deny".
    Approval(&'static str),
    /// An ordinary chat turn.
    SendChat,
}

/// What an intent holds.
#[verifier::ext_equal]
pub enum IntentModel {
    Stop,
    Mute,
    Wake(Seq<char>),
    Ignore,
    Approval(Seq<char>),
    SendChat,
}

impl View for VoiceIntent {
    type V = IntentModel;

    open spec fn view(&self) -> IntentModel {
        match self {
            VoiceIntent::Stop => IntentModel::Stop,
            VoiceIntent::Mute => IntentModel::Mute,
            VoiceIntent::Wake(s) => IntentModel::Wake(s@),
            VoiceIntent::Ignore => IntentModel::Ignore,
            VoiceIntent::Approval(a) => IntentModel::Approval(a@),
            VoiceIntent::SendChat => IntentModel::SendChat,
        }
    }
}

/// An utterance, in lower case, as its words alone: what is neither a letter, a
/// digit nor white space is dropped, and one space is left between words.
pub open spec fn phrase(lower: Seq<char>, alnum: spec_fn(char) -> bool) -> Seq<char> {
    text::join_spec(
        text::words_spec(lower.filter(|c: char| alnum(c) || text::is_space_spec(c))),
        " "@,
    )
}

/// The phrases that stop JARVIS.
pub open spec fn stops(p: Seq<char>) -> bool {
    ||| p == "stop"@
    ||| p == "halt"@
    ||| p == "silence"@
    ||| p == "enough"@
    ||| p == "quiet"@
    ||| p == "shutup"@
    ||| p == "shut up"@
    ||| p == "be quiet"@
    ||| p == "wait"@
    ||| p == "pause"@
}

/// The phrases that mute JARVIS.
pub open spec fn mutes(p: Seq<char>) -> bool {
    ||| p == "mute"@
    ||| p == "muted"@
    ||| p == "mute yourself"@
    ||| p == "go mute"@
    ||| p == "silence"@
    ||| p == "be silent"@
    ||| p == "silence yourself"@
    ||| p == "stop listening"@
    ||| p == "shush"@
    ||| p == "shh"@
    ||| p == "hush"@
    ||| p == "go quiet"@
    ||| p == "go to sleep"@
    ||| p == "sleep"@
    ||| p == "standby"@
    ||| p == "stand by"@
}

/// The words that approve.
pub open spec fn approves(w: Seq<char>) -> bool {
    ||| w == "yes"@
    ||| w == "yeah"@
    ||| w == "yep"@
    ||| w == "yup"@
    ||| w == "sure"@
    ||| w == "approve"@
    ||| w == "approved"@
    ||| w == "ok"@
    ||| w == "okay"@
    ||| w == "alright"@
    ||| w == "affirmative"@
    ||| w == "confirm"@
    ||| w == "confirmed"@
    ||| w == "go"@
    ||| w == "proceed"@
    ||| w == "do"@
    ||| w == "y"@
}

/// The words that deny.
pub open spec fn denies(w: Seq<char>) -> bool {
    ||| w == "no"@
    ||| w == "nope"@
    ||| w == "nah"@
    ||| w == "deny"@
    ||| w == "denied"@
    ||| w == "cancel"@
    ||| w == "stop"@
    ||| w == "abort"@
    ||| w == "negative"@
    ||| w == "n"@
}

/// The answer that the words of an utterance give: "always" wherever it occurs,
/// else approval where a word approves, else denial where one denies.
pub open spec fn answer(words: Seq<Seq<char>>) -> Option<Seq<char>> {
    if exists|i: int| 0 <= i < words.len() && #[trigger] words[i] == "always"@ {
        Some("always"@)
    } else if exists|i: int| 0 <= i < words.len() && approves(#[trigger] words[i]) {
        Some("approve"@)
    } else if exists|i: int| 0 <= i < words.len() && denies(#[trigger] words[i]) {
        Some("deny"@)
    } else {
        None
    }
}

/// Whether `s` starts with the lower-case word `p` in whatever case.
pub open spec fn starts_with_word(s: Seq<char>, p: Seq<char>) -> bool {
    p.len() <= s.len() && forall|i: int|
        0 <= i < p.len() ==> text::ascii_lower(#[trigger] s[i]) == p[i]
}

/// What may stand between the wake word and what follows it.
pub open spec fn is_separator(c: char) -> bool {
    text::is_space_spec(c) || c == ',' || c == '.' || c == '!' || c == '?'
}

/// What follows the wake word `p` at the start of `s`, if `s` starts with it
/// and no letter or digit follows directly.
pub open spec fn after_wake_word(
    s: Seq<char>,
    p: Seq<char>,
    alnum: spec_fn(char) -> bool,
) -> Option<Seq<char>> {
    let n = p.len() as int;
    if starts_with_word(s, p) && !(n < s.len() && alnum(s[n])) {
        let rest = s.skip(n);
        let k = text::prefix_len(rest, |c: char| is_separator(c)) as int;
        Some(text::trim_spec(rest.skip(k)))
    } else {
        None
    }
}

/// What follows the wake word at the start of an utterance, if it has one.
pub open spec fn woken(utterance: Seq<char>, alnum: spec_fn(char) -> bool) -> Option<Seq<char>> {
    let s = text::trim_start_spec(utterance);
    let a = after_wake_word(s, "hey jarvis"@, alnum);
    let b = after_wake_word(s, "ok jarvis"@, alnum);
    let c = after_wake_word(s, "okay jarvis"@, alnum);
    let d = after_wake_word(s, "jarvis"@, alnum);
    if a is Some {
        a
    } else if b is Some {
        b
    } else if c is Some {
        c
    } else {
        d
    }
}

/// What an utterance is for, where `t` is the utterance without white space
/// around it and `lower` the same in lower case.
pub open spec fn intent(
    t: Seq<char>,
    lower: Seq<char>,
    alnum: spec_fn(char) -> bool,
    has_pending_approval: bool,
    is_wake_word_only: bool,
) -> IntentModel {
    let reply = answer(text::runs(lower, alnum));
    if t.len() == 0 {
        IntentModel::SendChat
    } else if has_pending_approval && reply is Some {
        IntentModel::Approval(reply->0)
    } else if is_wake_word_only {
        match woken(t, alnum) {
            Some(rest) => IntentModel::Wake(rest),
            None => IntentModel::Ignore,
        }
    } else if has_pending_approval {
        if stops(phrase(lower, alnum)) {
            IntentModel::Approval("deny"@)
        } else {
            IntentModel::SendChat
        }
    } else if mutes(phrase(lower, alnum)) {
        IntentModel::Mute
    } else if stops(phrase(lower, alnum)) {
        IntentModel::Stop
    } else {
        IntentModel::SendChat
    }
}

proof fn lemma_filter_agree(s: Seq<char>, p: spec_fn(char) -> bool, q: spec_fn(char) -> bool)
    requires
        text::agree(s, p, q),
    ensures
        s.filter(p) == s.filter(q),
    decreases s.len(),
{
    reveal(Seq::filter);
    if s.len() > 0 {
        let t = s.drop_last();
        assert forall|i: int| 0 <= i < t.len() implies p(#[trigger] t[i]) == q(t[i]) by {
            assert(t[i] == s[i]);
        }
        lemma_filter_agree(t, p, q);
        assert(p(s[s.len() - 1]) == q(s[s.len() - 1]));
    }
}

proof fn lemma_phrase_agree(s: Seq<char>, p: spec_fn(char) -> bool, q: spec_fn(char) -> bool)
    requires
        text::agree(s, p, q),
    ensures
        phrase(s, p) == phrase(s, q),
{
    lemma_filter_agree(
        s,
        |c: char| p(c) || text::is_space_spec(c),
        |c: char| q(c) || text::is_space_spec(c),
    );
}

/// The words of an utterance in lower case, one space between each two.
pub fn phrase_of(lower: &[char]) -> (r: Vec<char>)
    ensures
        r@ == phrase(lower@, text::alnum()),
        text::all_ascii(lower@) ==> r@ == phrase(lower@, text::ascii_alnum()),
{
    let mask = alnum_mask(lower);
    let ghost keep = |c: char| text::alnum()(c) || text::is_space_spec(c);
    let mut kept: Vec<char> = Vec::new();
    let mut i: usize = 0;
    proof {
        reveal(Seq::filter);
        assert(lower@.take(0).filter(keep) =~= Seq::<char>::empty());
    }
    while i < lower.len()
        invariant
            i <= lower@.len(),
            mask@.len() == lower@.len(),
            forall|k: int|
                0 <= k < lower@.len() ==> (#[trigger] mask@[k]) == text::is_alnum(lower@[k]),
            keep == |c: char| text::alnum()(c) || text::is_space_spec(c),
            kept@ == lower@.take(i as int).filter(keep),
        decreases lower@.len() - i,
    {
        proof {
            reveal(Seq::filter);
            assert(lower@.take(i + 1).drop_last() =~= lower@.take(i as int));
            assert(lower@.take(i + 1).last() == lower@[i as int]);
        }
        if mask[i] || is_space(lower[i]) {
            kept.push(lower[i]);
        }
        i += 1;
    }
    assert(lower@.take(i as int) =~= lower@);
    let ws = words(kept.as_slice());
    let r = join(&ws, " ");
    proof {
        assert(r@ == phrase(lower@, text::alnum()));
        if text::all_ascii(lower@) {
            lemma_phrase_agree(lower@, text::alnum(), text::ascii_alnum());
        }
    }
    r
}

/// Whether a phrase stops JARVIS.
fn is_stop(p: &[char]) -> (r: bool)
    ensures
        r == stops(p@),
{
    spells(p, "stop") || spells(p, "halt") || spells(p, "silence") || spells(p, "enough") || spells(
        p,
        "quiet",
    ) || spells(p, "shutup") || spells(p, "shut up") || spells(p, "be quiet") || spells(p, "wait")
        || spells(p, "pause")
}

/// Whether a phrase mutes JARVIS.
fn is_mute(p: &[char]) -> (r: bool)
    ensures
        r == mutes(p@),
{
    spells(p, "mute") || spells(p, "muted") || spells(p, "mute yourself") || spells(p, "go mute")
        || spells(p, "silence") || spells(p, "be silent") || spells(p, "silence yourself")
        || spells(p, "stop listening")
        || spells(p, "shush") || spells(p, "shh") || spells(p, "hush") || spells(p, "go quiet")
        || spells(p, "go to sleep") || spells(p, "sleep") || spells(p, "standby") || spells(
        p,
        "stand by",
    )
}

/// An utterance in lower case.
pub fn lowered(s: &str) -> (v: Vec<char>)
    ensures
        v@ == text::lowercase(s@),
        text::all_ascii(s@) ==> v@ == text::ascii_lowered(s@) && text::all_ascii(v@),
{
    let l = s.to_lowercase();
    proof {
        if text::all_ascii(s@) {
            text::lemma_ascii_lowered(s@);
        }
    }
    chars_of(l.as_str())
}

/// Whether the entire utterance is a stop command.
pub fn parse_stop_intent(s: &str) -> (r: bool)
    ensures
        r == stops(phrase(text::lowercase(s@), text::alnum())),
        text::all_ascii(s@) ==> r == stops(
            phrase(text::ascii_lowered(s@), text::ascii_alnum()),
        ),
{
    let lower = lowered(s);
    let p = phrase_of(lower.as_slice());
    is_stop(p.as_slice())
}

/// Whether the entire utterance asks JARVIS to listen for the wake word only.
pub fn parse_mute_intent(s: &str) -> (r: bool)
    ensures
        r == mutes(phrase(text::lowercase(s@), text::alnum())),
        text::all_ascii(s@) ==> r == mutes(
            phrase(text::ascii_lowered(s@), text::ascii_alnum()),
        ),
{
    let lower = lowered(s);
    let p = phrase_of(lower.as_slice());
    is_mute(p.as_slice())
}

fn is_approval(w: &[char]) -> (r: bool)
    ensures
        r == approves(w@),
{
    spells(w, "yes") || spells(w, "yeah") || spells(w, "yep") || spells(w, "yup") || spells(
        w,
        "sure",
    ) || spells(w, "approve") || spells(w, "approved") || spells(w, "ok") || spells(w, "okay")
        || spells(w, "alright") || spells(w, "affirmative") || spells(w, "confirm") || spells(
        w,
        "confirmed",
    ) || spells(w, "go") || spells(w, "proceed") || spells(w, "do") || spells(w, "y")
}

fn is_denial(w: &[char]) -> (r: bool)
    ensures
        r == denies(w@),
{
    spells(w, "no") || spells(w, "nope") || spells(w, "nah") || spells(w, "deny") || spells(
        w,
        "denied",
    ) || spells(w, "cancel") || spells(w, "stop") || spells(w, "abort") || spells(w, "negative")
        || spells(w, "n")
}

/// The answer that the words of an utterance give.
pub fn answer_of(ws: &Vec<Vec<char>>) -> (r: Option<&'static str>)
    ensures
        r is Some <==> answer(text::views(ws@)) is Some,
        r matches Some(a) ==> a@ == answer(text::views(ws@))->0,
{
    let ghost all = text::views(ws@);
    let mut always = false;
    let mut yes = false;
    let mut no = false;
    let mut i: usize = 0;
    while i < ws.len()
        invariant
            i <= ws@.len(),
            all == text::views(ws@),
            always == exists|k: int| 0 <= k < i && #[trigger] all[k] == "always"@,
            yes == exists|k: int| 0 <= k < i && approves(#[trigger] all[k]),
            no == exists|k: int| 0 <= k < i && denies(#[trigger] all[k]),
        decreases ws@.len() - i,
    {
        let w = ws[i].as_slice();
        assert(all[i as int] == w@);
        if spells(w, "always") {
            always = true;
        }
        if is_approval(w) {
            yes = true;
        }
        if is_denial(w) {
            no = true;
        }
        i += 1;
    }
    if always {
        Some("always")
    } else if yes {
        Some("approve")
    } else if no {
        Some("deny")
    } else {
        None
    }
}

/// The answer that an utterance, in lower case, gives to an approval request.
pub fn approval_in(lower: &[char]) -> (r: Option<&'static str>)
    ensures
        r is Some <==> answer(text::runs(lower@, text::alnum())) is Some,
        r matches Some(a) ==> a@ == answer(text::runs(lower@, text::alnum()))->0,
        text::all_ascii(lower@) ==> {
            let e = answer(text::runs(lower@, text::ascii_alnum()));
            (r is Some <==> e is Some) && (r matches Some(a) ==> a@ == e->0)
        },
{
    let mask = alnum_mask(lower);
    let ws = runs_of(lower, &mask, Ghost(text::alnum()));
    proof {
        if text::all_ascii(lower@) {
            text::lemma_runs_agree(lower@, text::alnum(), text::ascii_alnum());
        }
    }
    answer_of(&ws)
}

/// The answer that an utterance gives to an approval request: "approve",
/// "always" or "deny", or none. "always" wins over "approve".
pub fn parse_approval_intent(s: &str) -> (r: Option<&'static str>)
    ensures
        r is Some <==> answer(text::runs(text::lowercase(s@), text::alnum())) is Some,
        r matches Some(a) ==> a@ == answer(text::runs(text::lowercase(s@), text::alnum()))->0,
        text::all_ascii(s@) ==> {
            let e = answer(text::runs(text::ascii_lowered(s@), text::ascii_alnum()));
            (r is Some <==> e is Some) && (r matches Some(a) ==> a@ == e->0)
        },
{
    let lower = lowered(s);
    approval_in(lower.as_slice())
}

/// The lower-case form of a character of ASCII.
fn lower_char(c: char) -> (r: char)
    ensures
        r == text::ascii_lower(c),
{
    let n: u32 = c as u32;
    if 0x41 <= n && n <= 0x5a {
        (n as u8 + 0x20u8) as char
    } else {
        c
    }
}

/// What follows the wake word `word` at the start of `v`.
fn rest_after(v: &[char], word: &str) -> (r: Option<Vec<char>>)
    ensures
        r is Some <==> after_wake_word(v@, word@, text::alnum()) is Some,
        r matches Some(x) ==> x@ == after_wake_word(v@, word@, text::alnum())->0,
        text::all_ascii(v@) ==> after_wake_word(v@, word@, text::alnum()) == after_wake_word(
            v@,
            word@,
            text::ascii_alnum(),
        ),
{
    let p = chars_of(word);
    let n: usize = p.len();
    if v.len() < n {
        return None;
    }
    let mut i: usize = 0;
    while i < n
        invariant
            i <= n == p@.len(),
            n <= v@.len(),
            p@ == word@,
            forall|k: int| 0 <= k < i ==> text::ascii_lower(#[trigger] v@[k]) == p@[k],
        decreases n - i,
    {
        if lower_char(v[i]) != p[i] {
            assert(text::ascii_lower(v@[i as int]) != word@[i as int]);
            return None;
        }
        i += 1;
    }
    if n < v.len() && v[n].is_alphanumeric() {
        return None;
    }
    let mut k: usize = n;
    while k < v.len() && (is_space(v[k]) || v[k] == ',' || v[k] == '.' || v[k] == '!' || v[k]
        == '?')
        invariant
            n <= k <= v@.len(),
            forall|j: int| n <= j < k ==> is_separator(#[trigger] v@[j]),
        decreases v@.len() - k,
    {
        k += 1;
    }
    proof {
        let rest = v@.skip(n as int);
        let sep = |c: char| is_separator(c);
        assert forall|j: int| 0 <= j < k - n implies sep(#[trigger] rest[j]) by {
            assert(rest[j] == v@[n + j]);
        }
        if k < v@.len() {
            assert(rest[k - n] == v@[k as int]);
        }
        text::lemma_prefix_len_unique(rest, sep, (k - n) as nat);
        assert(rest.skip(k - n) =~= v@.skip(k as int));
    }
    let m: usize = v.len();
    let tail = vstd::slice::slice_subrange(v, k, m);
    assert(tail@ =~= v@.skip(k as int));
    let t = trim(tail);
    let out = crate::text::copy_range(t, 0, t.len());
    assert(out@ =~= t@);
    Some(out)
}

/// If the utterance begins with a wake word, what follows it, possibly nothing.
/// Case does not matter, and punctuation after the wake word is skipped.
pub fn parse_wake_intent(s: &str) -> (r: Option<String>)
    ensures
        r is Some <==> woken(s@, text::alnum()) is Some,
        r matches Some(x) ==> x@ == woken(s@, text::alnum())->0,
        text::all_ascii(s@) ==> woken(s@, text::alnum()) == woken(s@, text::ascii_alnum()),
{
    wake_in(chars_of(s).as_slice())
}

/// What follows the wake word at the start of an utterance, if it has one.
fn wake_in(v: &[char]) -> (r: Option<String>)
    ensures
        r is Some <==> woken(v@, text::alnum()) is Some,
        r matches Some(x) ==> x@ == woken(v@, text::alnum())->0,
        text::all_ascii(v@) ==> woken(v@, text::alnum()) == woken(v@, text::ascii_alnum()),
{
    let s = trim_start(v);
    proof {
        if text::all_ascii(v@) {
            let q = |c: char| c as u32 <= 0x7f;
            assert(text::only(v@, q));
            text::lemma_trim_only(v@, q);
            assert forall|i: int| 0 <= i < s@.len() implies (#[trigger] s@[i]) as u32 <= 0x7f by {
                assert(q(s@[i]));
            }
        }
    }
    let a = rest_after(s, "hey jarvis");
    let b = rest_after(s, "ok jarvis");
    let c = rest_after(s, "okay jarvis");
    let d = rest_after(s, "jarvis");
    match a {
        Some(x) => Some(string_of(x.as_slice())),
        None => match b {
            Some(x) => Some(string_of(x.as_slice())),
            None => match c {
                Some(x) => Some(string_of(x.as_slice())),
                None => match d {
                    Some(x) => Some(string_of(x.as_slice())),
                    None => None,
                },
            },
        },
    }
}

/// Decides what a final transcript is for. While an approval is pending its
/// keywords come first, and what would stop JARVIS denies the request; in
/// wake-word-only mode everything but an answer and the wake word is ignored.
pub fn classify(s: &str, has_pending_approval: bool, is_wake_word_only: bool) -> (r: VoiceIntent)
    ensures
        ({
            let t = text::trim_spec(s@);
            r@ == intent(
                t,
                text::lowercase(t),
                text::alnum(),
                has_pending_approval,
                is_wake_word_only,
            )
        }),
        text::all_ascii(s@) ==> {
            let t = text::trim_spec(s@);
            r@ == intent(
                t,
                text::ascii_lowered(t),
                text::ascii_alnum(),
                has_pending_approval,
                is_wake_word_only,
            )
        },
{
    let chars = chars_of(s);
    let t = trim(chars.as_slice());
    if t.len() == 0 {
        return VoiceIntent::SendChat;
    }
    proof {
        if text::all_ascii(s@) {
            let q = |c: char| c as u32 <= 0x7f;
            assert(text::only(s@, q));
            text::lemma_trim_only(s@, q);
            assert forall|i: int| 0 <= i < t@.len() implies (#[trigger] t@[i]) as u32 <= 0x7f by {
                assert(q(t@[i]));
            }
        }
    }
    let trimmed = string_of(t);
    let lower = lowered(trimmed.as_str());
    if has_pending_approval {
        if let Some(action) = approval_in(lower.as_slice()) {
            return VoiceIntent::Approval(action);
        }
    }
    if is_wake_word_only {
        return match wake_in(t) {
            Some(rest) => VoiceIntent::Wake(rest),
            None => VoiceIntent::Ignore,
        };
    }
    let p = phrase_of(lower.as_slice());
    if has_pending_approval {
        return if is_stop(p.as_slice()) {
            VoiceIntent::Approval("deny")
        } else {
            VoiceIntent::SendChat
        };
    }
    if is_mute(p.as_slice()) {
        VoiceIntent::Mute
    } else if is_stop(p.as_slice()) {
        VoiceIntent::Stop
    } else {
        VoiceIntent::SendChat
    }
}

/// While an approval is pending nothing stops or mutes JARVIS: an answer is
/// taken as one, and outside wake-word-only mode a phrase that would stop
/// JARVIS denies the request.
pub proof fn law_pending_approval_takes_precedence(
    t: Seq<char>,
    lower: Seq<char>,
    alnum: spec_fn(char) -> bool,
    is_wake_word_only: bool,
)
    ensures
        ({
            let i = intent(t, lower, alnum, true, is_wake_word_only);
            &&& i != IntentModel::Stop
            &&& i != IntentModel::Mute
            &&& t.len() > 0 && answer(text::runs(lower, alnum)) is Some ==> i
                == IntentModel::Approval(answer(text::runs(lower, alnum))->0)
            &&& t.len() > 0 && answer(text::runs(lower, alnum)) is None && !is_wake_word_only
                && stops(phrase(lower, alnum)) ==> i == IntentModel::Approval("deny"@)
        }),
{
}

/// In wake-word-only mode nothing is chatted and nothing stops or mutes: an
/// utterance wakes JARVIS, answers an approval or is ignored.
pub proof fn law_wake_word_only_stays_quiet(
    t: Seq<char>,
    lower: Seq<char>,
    alnum: spec_fn(char) -> bool,
    has_pending_approval: bool,
)
    requires
        t.len() > 0,
    ensures
        ({
            let i = intent(t, lower, alnum, has_pending_approval, true);
            i is Wake || i is Ignore || (has_pending_approval && i is Approval)
        }),
{
}

/// "always" anywhere in an answer wins.
pub proof fn law_always_wins(words: Seq<Seq<char>>, i: int)
    requires
        0 <= i < words.len(),
        words[i] == "always"@,
    ensures
        answer(words) == Some("always"@),
{
}

/// The words of consent.
pub open spec fn yes_words() -> Seq<Seq<char>> {
    seq![
        "yes"@,
        "yeah"@,
        "yep"@,
        "yup"@,
        "sure"@,
        "approve"@,
        "approved"@,
        "ok"@,
        "okay"@,
        "alright"@,
        "affirmative"@,
        "confirm"@,
        "confirmed"@,
        "go"@,
        "proceed"@,
        "do"@,
        "y"@,
    ]
}

/// The words of refusal.
pub open spec fn no_words() -> Seq<Seq<char>> {
    seq![
        "no"@,
        "nope"@,
        "nah"@,
        "deny"@,
        "denied"@,
        "cancel"@,
        "stop"@,
        "abort"@,
        "negative"@,
        "n"@,
    ]
}

/// What halts speech.
pub open spec fn stop_phrases() -> Seq<Seq<char>> {
    seq![
        "stop"@,
        "halt"@,
        "silence"@,
        "enough"@,
        "quiet"@,
        "shutup"@,
        "shut up"@,
        "be quiet"@,
        "wait"@,
        "pause"@,
    ]
}

/// What leaves only the wake word to be listened for.
pub open spec fn mute_phrases() -> Seq<Seq<char>> {
    seq![
        "mute"@,
        "muted"@,
        "mute yourself"@,
        "go mute"@,
        "silence"@,
        "be silent"@,
        "silence yourself"@,
        "stop listening"@,
        "shush"@,
        "shh"@,
        "hush"@,
        "go quiet"@,
        "go to sleep"@,
        "sleep"@,
        "standby"@,
        "stand by"@,
    ]
}

proof fn lemma_yes(w: Seq<char>)
    ensures
        approves(w) <==> yes_words().contains(w),
{
    let l = yes_words();
    assert(l[0] == "yes"@);
    assert(l[1] == "yeah"@);
    assert(l[2] == "yep"@);
    assert(l[3] == "yup"@);
    assert(l[4] == "sure"@);
    assert(l[5] == "approve"@);
    assert(l[6] == "approved"@);
    assert(l[7] == "ok"@);
    assert(l[8] == "okay"@);
    assert(l[9] == "alright"@);
    assert(l[10] == "affirmative"@);
    assert(l[11] == "confirm"@);
    assert(l[12] == "confirmed"@);
    assert(l[13] == "go"@);
    assert(l[14] == "proceed"@);
    assert(l[15] == "do"@);
    assert(l[16] == "y"@);
}

proof fn lemma_no(w: Seq<char>)
    ensures
        denies(w) <==> no_words().contains(w),
{
    let l = no_words();
    assert(l[0] == "no"@);
    assert(l[1] == "nope"@);
    assert(l[2] == "nah"@);
    assert(l[3] == "deny"@);
    assert(l[4] == "denied"@);
    assert(l[5] == "cancel"@);
    assert(l[6] == "stop"@);
    assert(l[7] == "abort"@);
    assert(l[8] == "negative"@);
    assert(l[9] == "n"@);
}

proof fn lemma_stop(w: Seq<char>)
    ensures
        stops(w) <==> stop_phrases().contains(w),
{
    let l = stop_phrases();
    assert(l[0] == "stop"@);
    assert(l[1] == "halt"@);
    assert(l[2] == "silence"@);
    assert(l[3] == "enough"@);
    assert(l[4] == "quiet"@);
    assert(l[5] == "shutup"@);
    assert(l[6] == "shut up"@);
    assert(l[7] == "be quiet"@);
    assert(l[8] == "wait"@);
    assert(l[9] == "pause"@);
}

proof fn lemma_mute(w: Seq<char>)
    ensures
        mutes(w) <==> mute_phrases().contains(w),
{
    let l = mute_phrases();
    assert(l[0] == "mute"@);
    assert(l[1] == "muted"@);
    assert(l[2] == "mute yourself"@);
    assert(l[3] == "go mute"@);
    assert(l[4] == "silence"@);
    assert(l[5] == "be silent"@);
    assert(l[6] == "silence yourself"@);
    assert(l[7] == "stop listening"@);
    assert(l[8] == "shush"@);
    assert(l[9] == "shh"@);
    assert(l[10] == "hush"@);
    assert(l[11] == "go quiet"@);
    assert(l[12] == "go to sleep"@);
    assert(l[13] == "sleep"@);
    assert(l[14] == "standby"@);
    assert(l[15] == "stand by"@);
}

/// A word of consent anywhere in an utterance approves, unless "always" is in it
/// too.
pub proof fn law_consent_anywhere_approves(words: Seq<Seq<char>>, i: int)
    requires
        0 <= i < words.len(),
        yes_words().contains(words[i]),
        !words.contains("always"@),
    ensures
        answer(words) == Some("approve"@),
{
    lemma_yes(words[i]);
}

/// A word of refusal anywhere in an utterance denies, unless "always" or a word
/// of consent is in it too.
pub proof fn law_refusal_anywhere_denies(words: Seq<Seq<char>>, i: int)
    requires
        0 <= i < words.len(),
        no_words().contains(words[i]),
        !words.contains("always"@),
        forall|k: int| 0 <= k < words.len() ==> !yes_words().contains(#[trigger] words[k]),
    ensures
        answer(words) == Some("deny"@),
{
    lemma_no(words[i]);
    assert forall|k: int| 0 <= k < words.len() implies !approves(#[trigger] words[k]) by {
        lemma_yes(words[k]);
    }
}

/// An utterance without any of these words is no answer.
pub proof fn law_other_words_are_no_answer(words: Seq<Seq<char>>)
    requires
        !words.contains("always"@),
        forall|k: int|
            0 <= k < words.len() ==> !yes_words().contains(#[trigger] words[k])
                && !no_words().contains(words[k]),
    ensures
        answer(words) is None,
{
    assert forall|k: int| 0 <= k < words.len() implies !approves(#[trigger] words[k]) && !denies(
        words[k],
    ) by {
        lemma_yes(words[k]);
        lemma_no(words[k]);
    }
}

/// What is said before and after an answer does not change it, where it holds
/// nothing that outranks it.
pub proof fn law_answers_stand_among_other_words(
    a: Seq<Seq<char>>,
    w: Seq<Seq<char>>,
    b: Seq<Seq<char>>,
)
    ensures
        answer(w) == Some("always"@) ==> answer(a + w + b) == Some("always"@),
        answer(w) == Some("approve"@) && !a.contains("always"@) && !b.contains("always"@)
            ==> answer(a + w + b) == Some("approve"@),
        answer(a) is None && answer(b) is None ==> answer(a + w + b) == answer(w),
{
    reveal_strlit("always");
    reveal_strlit("approve");
    reveal_strlit("deny");
    assert("approve"@.len() == 7 && "always"@.len() == 6 && "deny"@.len() == 4);
    let s = a + w + b;
    let n = a.len() as int;
    let m = n + w.len() as int;
    assert forall|k: int| 0 <= k < w.len() implies #[trigger] s[n + k] == w[k] by {}
    assert forall|k: int| 0 <= k < w.len() implies s.contains(#[trigger] w[k]) by {
        assert(s[n + k] == w[k]);
    }
    assert forall|k: int| 0 <= k < s.len() implies (k < n && #[trigger] s[k] == a[k]) || (n <= k < m
        && s[k] == w[k - n]) || (m <= k && s[k] == b[k - m]) by {}
    if exists|k: int| 0 <= k < w.len() && #[trigger] w[k] == "always"@ {
        let k = choose|k: int| 0 <= k < w.len() && #[trigger] w[k] == "always"@;
        assert(s[n + k] == "always"@);
    }
    if exists|k: int| 0 <= k < w.len() && approves(#[trigger] w[k]) {
        let k = choose|k: int| 0 <= k < w.len() && approves(#[trigger] w[k]);
        assert(approves(s[n + k]));
    }
    if exists|k: int| 0 <= k < w.len() && denies(#[trigger] w[k]) {
        let k = choose|k: int| 0 <= k < w.len() && denies(#[trigger] w[k]);
        assert(denies(s[n + k]));
    }
}

/// Outside wake-word-only mode and with nothing pending, an utterance that is a
/// phrase of muting mutes, one that is a phrase of stopping stops, and any other
/// is a chat turn.
pub proof fn law_commands(t: Seq<char>, lower: Seq<char>, alnum: spec_fn(char) -> bool)
    requires
        t.len() > 0,
    ensures
        ({
            let p = phrase(lower, alnum);
            let i = intent(t, lower, alnum, false, false);
            &&& mute_phrases().contains(p) <==> i == IntentModel::Mute
            &&& stop_phrases().contains(p) && !mute_phrases().contains(p) <==> i
                == IntentModel::Stop
            &&& !stop_phrases().contains(p) && !mute_phrases().contains(p) <==> i
                == IntentModel::SendChat
        }),
        stops(phrase(lower, alnum)) <==> stop_phrases().contains(phrase(lower, alnum)),
        mutes(phrase(lower, alnum)) <==> mute_phrases().contains(phrase(lower, alnum)),
{
    lemma_stop(phrase(lower, alnum));
    lemma_mute(phrase(lower, alnum));
}

/// With an approval pending and no answer in it, a phrase of stopping denies the
/// request and anything else is a chat turn.
pub proof fn law_stopping_denies(t: Seq<char>, lower: Seq<char>, alnum: spec_fn(char) -> bool)
    requires
        t.len() > 0,
        answer(text::runs(lower, alnum)) is None,
    ensures
        stop_phrases().contains(phrase(lower, alnum)) ==> intent(t, lower, alnum, true, false)
            == IntentModel::Approval("deny"@),
        !stop_phrases().contains(phrase(lower, alnum)) ==> intent(t, lower, alnum, true, false)
            == IntentModel::SendChat,
{
    lemma_stop(phrase(lower, alnum));
}

/// A phrase is its words with one space between each two.
pub proof fn law_phrase_of_words(ws: Seq<Seq<char>>, alnum: spec_fn(char) -> bool)
    requires
        forall|i: int| 0 <= i < ws.len() ==> (#[trigger] ws[i]).len() > 0,
        forall|i: int, k: int|
            0 <= i < ws.len() && 0 <= k < ws[i].len() ==> alnum(#[trigger] ws[i][k])
                && !text::is_space_spec(ws[i][k]),
    ensures
        phrase(text::join_spec(ws, " "@), alnum) == text::join_spec(ws, " "@),
{
    reveal_strlit(" ");
    let keep = |c: char| alnum(c) || text::is_space_spec(c);
    let word = |c: char| !text::is_space_spec(c);
    let s = text::join_spec(ws, " "@);
    assert forall|i: int| 0 <= i < ws.len() implies text::only(#[trigger] ws[i], keep) by {
        assert forall|k: int| 0 <= k < ws[i].len() implies keep(#[trigger] ws[i][k]) by {}
    }
    assert(text::only(" "@, keep));
    text::lemma_join_only(ws, " "@, keep);
    text::lemma_filter_all(s, keep);
    assert forall|i: int, k: int| 0 <= i < ws.len() && 0 <= k < ws[i].len() implies word(
        #[trigger] ws[i][k],
    ) by {}
    text::law_runs_of_joined_words(ws, word);
}

/// Punctuation anywhere in an utterance does not change its phrase, and it does
/// not matter what white space parts two words, or how much of it.
pub proof fn law_phrases_ignore_punctuation_and_spacing(
    a: Seq<char>,
    x: Seq<char>,
    b: Seq<char>,
    alnum: spec_fn(char) -> bool,
)
    ensures
        (forall|k: int|
            0 <= k < x.len() ==> !alnum(#[trigger] x[k]) && !text::is_space_spec(x[k])) ==> phrase(
            a + x + b,
            alnum,
        ) == phrase(a + b, alnum),
        x.len() > 0 && (forall|k: int| 0 <= k < x.len() ==> text::is_space_spec(#[trigger] x[k]))
            ==> phrase(a + x + b, alnum) == phrase(a + " "@ + b, alnum),
{
    reveal_strlit(" ");
    let keep = |c: char| alnum(c) || text::is_space_spec(c);
    let word = |c: char| !text::is_space_spec(c);
    let (fa, fb) = (a.filter(keep), b.filter(keep));
    Seq::filter_distributes_over_add(a + x, b, keep);
    Seq::filter_distributes_over_add(a, x, keep);
    Seq::filter_distributes_over_add(a, b, keep);
    if forall|k: int| 0 <= k < x.len() ==> !alnum(#[trigger] x[k]) && !text::is_space_spec(x[k]) {
        lemma_filter_none(x, keep);
        assert(fa + Seq::<char>::empty() + fb =~= fa + fb);
    }
    if x.len() > 0 && (forall|k: int|
        0 <= k < x.len() ==> text::is_space_spec(#[trigger] x[k])) {
        text::lemma_filter_all(x, keep);
        lemma_words_around_space(fa, x, fb);
        Seq::filter_distributes_over_add(a + " "@, b, keep);
        Seq::filter_distributes_over_add(a, " "@, keep);
        text::lemma_filter_all(" "@, keep);
        lemma_words_around_space(fa, " "@, fb);
    }
}

proof fn lemma_filter_none(s: Seq<char>, p: spec_fn(char) -> bool)
    requires
        forall|k: int| 0 <= k < s.len() ==> !p(#[trigger] s[k]),
    ensures
        s.filter(p) == Seq::<char>::empty(),
    decreases s.len(),
{
    reveal(Seq::filter);
    if s.len() > 0 {
        let t = s.drop_last();
        assert forall|k: int| 0 <= k < t.len() implies !p(#[trigger] t[k]) by {
            assert(!p(s[k]));
        }
        lemma_filter_none(t, p);
        assert(!p(s[s.len() - 1]));
    }
}

proof fn lemma_words_around_space(a: Seq<char>, x: Seq<char>, b: Seq<char>)
    requires
        x.len() > 0,
        forall|k: int| 0 <= k < x.len() ==> text::is_space_spec(#[trigger] x[k]),
    ensures
        text::words_spec(a + x + b) == text::words_spec(a) + text::words_spec(b),
    decreases x.len(),
{
    let word = |c: char| !text::is_space_spec(c);
    let c = x[0];
    let rest = x.drop_first();
    assert(text::is_space_spec(c));
    assert(a + x + b =~= a.push(c) + (rest + b));
    text::law_runs_are_parted(a, c, rest + b, word);
    if rest.len() > 0 {
        assert forall|k: int| 0 <= k < rest.len() implies text::is_space_spec(
            #[trigger] rest[k],
        ) by {
            assert(text::is_space_spec(x[k + 1]));
        }
        lemma_words_around_space(Seq::empty(), rest, b);
        assert(Seq::<char>::empty() + rest + b =~= rest + b);
        assert(text::words_spec(Seq::empty()) =~= Seq::<Seq<char>>::empty());
        assert(text::words_spec(rest + b) =~= text::words_spec(b));
    } else {
        assert(rest + b =~= b);
    }
}

/// The wake word may be said in any case and after white space; what follows it,
/// after white space and punctuation, is the next chat turn, and nothing may
/// follow at all.
pub proof fn law_wake_word_wakes(
    lead: Seq<char>,
    w: Seq<char>,
    gap: Seq<char>,
    rest: Seq<char>,
    alnum: spec_fn(char) -> bool,
)
    requires
        forall|k: int| 0 <= k < lead.len() ==> text::is_space_spec(#[trigger] lead[k]),
        text::ascii_lowered(w) == "hey jarvis"@ || text::ascii_lowered(w) == "ok jarvis"@
            || text::ascii_lowered(w) == "okay jarvis"@ || text::ascii_lowered(w) == "jarvis"@,
        forall|k: int|
            0 <= k < gap.len() ==> text::is_space_spec(#[trigger] gap[k]) || gap[k] == ','
                || gap[k] == '.' || gap[k] == '!' || gap[k] == '?',
        gap.len() > 0 ==> !alnum(gap[0]),
        rest.len() > 0 ==> gap.len() > 0 && !text::is_space_spec(rest[0]) && rest[0] != ','
            && rest[0] != '.' && rest[0] != '!' && rest[0] != '?' && !text::is_space_spec(
            rest.last(),
        ),
    ensures
        woken(lead + w + gap + rest, alnum) == Some(rest),
{
    reveal_strlit("hey jarvis");
    reveal_strlit("ok jarvis");
    reveal_strlit("okay jarvis");
    reveal_strlit("jarvis");
    let p = text::ascii_lowered(w);
    let n = w.len() as int;
    let s = w + gap + rest;
    assert(p.len() == w.len());
    assert(forall|k: int| 0 <= k < n ==> text::ascii_lower(#[trigger] w[k]) == p[k]);
    assert(text::ascii_lower(w[0]) == p[0]);
    assert(text::ascii_lower(w[2]) == p[2]);
    let e = Seq::<char>::empty();
    text::law_lower_case(w[0]);
    text::law_white_space(w[0]);
    assert(!text::is_space_spec(w[0])) by {
        assert(p[0] == 'h' || p[0] == 'o' || p[0] == 'j');
    }
    assert(text::trim_start_spec(lead + w + gap + rest) == s) by {
        text::law_white_space(w.last());
        text::law_lower_case(w.last());
        assert(text::ascii_lower(w[n - 1]) == p[n - 1]);
        assert(p[n - 1] == 's');
        text::lemma_trim_start_after(lead, s);
        assert(lead + w + gap + rest =~= lead + s);
    }
    assert(forall|k: int| 0 <= k < n ==> s[k] == w[k]);
    assert(starts_with_word(s, p));
    assert(text::ascii_lower(s[0]) == p[0]);
    assert(text::ascii_lower(s[2]) == p[2]);
    let after = s.skip(n);
    let sep = |c: char| is_separator(c);
    let g = gap.len() as int;
    assert forall|j: int| 0 <= j < g implies sep(#[trigger] after[j]) by {
        assert(after[j] == gap[j]);
    }
    if rest.len() > 0 {
        assert(after[g] == rest[0]);
    }
    text::lemma_prefix_len_unique(after, sep, g as nat);
    assert(after.skip(g) =~= rest);
    text::law_trim_takes_the_space_around(e, rest, e);
    assert(e + rest + e =~= rest);
    if g > 0 {
        assert(s[n] == gap[0]);
    }
    assert(after_wake_word(s, p, alnum) == Some(rest));
}

/// An utterance that does not start with the wake word, or goes on with a
/// letter or a digit right after it, wakes nobody.
pub proof fn law_nothing_else_wakes(s: Seq<char>, alnum: spec_fn(char) -> bool)
    requires
        s.len() > 0,
        !text::is_space_spec(s[0]),
        forall|n: int|
            0 <= n <= s.len() && (n == s.len() || !alnum(s[n])) ==> {
                let w = text::ascii_lowered(#[trigger] s.take(n));
                w != "hey jarvis"@ && w != "ok jarvis"@ && w != "okay jarvis"@ && w != "jarvis"@
            },
    ensures
        woken(s, alnum) is None,
{
    lemma_not_woken(s, "hey jarvis"@, alnum);
    lemma_not_woken(s, "ok jarvis"@, alnum);
    lemma_not_woken(s, "okay jarvis"@, alnum);
    lemma_not_woken(s, "jarvis"@, alnum);
}

proof fn lemma_not_woken(s: Seq<char>, p: Seq<char>, alnum: spec_fn(char) -> bool)
    requires
        forall|n: int|
            0 <= n <= s.len() && (n == s.len() || !alnum(s[n])) ==> text::ascii_lowered(
                #[trigger] s.take(n),
            ) != p,
    ensures
        after_wake_word(s, p, alnum) is None,
{
    if after_wake_word(s, p, alnum) is Some {
        let n = p.len() as int;
        let h = s.take(n);
        assert(text::ascii_lowered(h) =~= p) by {
            assert forall|k: int| 0 <= k < n implies text::ascii_lowered(h)[k] == p[k] by {
                assert(text::ascii_lower(s[k]) == p[k]);
            }
        }
    }
}

/// An intent is what its model says.
pub proof fn law_models_are_the_intents(i: VoiceIntent)
    ensures
        i is Stop <==> i@ is Stop,
        i is Mute <==> i@ is Mute,
        i is Ignore <==> i@ is Ignore,
        i is SendChat <==> i@ is SendChat,
        i matches VoiceIntent::Wake(s) ==> i@ == IntentModel::Wake(s@),
        i matches VoiceIntent::Approval(a) ==> i@ == IntentModel::Approval(a@),
{
}

/// The words of an utterance approve where one of them consents and none is
/// "always".
pub proof fn law_answer_of_consent(ws: &Vec<Vec<char>>, i: int, r: Option<&'static str>)
    requires
        call_ensures(answer_of, (ws,), r),
        0 <= i < ws@.len(),
        yes_words().contains(ws@[i]@),
        forall|k: int| 0 <= k < ws@.len() ==> (#[trigger] ws@[k])@ != "always"@,
    ensures
        r is Some && r->0@ == "approve"@,
{
    let all = text::views(ws@);
    assert(all[i] == ws@[i]@);
    assert(!all.contains("always"@)) by {
        if all.contains("always"@) {
            let k = choose|k: int| 0 <= k < all.len() && all[k] == "always"@;
            assert(all[k] == ws@[k]@);
        }
    }
    law_consent_anywhere_approves(all, i);
}

} // verus!
