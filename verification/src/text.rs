//! Text as sequences of characters: the small vocabulary that the rest of the
//! crate states its contracts in.

use vstd::prelude::*;

use crate::ring;

verus! {

/// The characters with the Unicode property `White_Space`.
pub open spec fn is_space_spec(c: char) -> bool {
    let n = c as u32;
    ||| 0x09 <= n <= 0x0d
    ||| n == 0x20
    ||| n == 0x85
    ||| n == 0xa0
    ||| n == 0x1680
    ||| 0x2000 <= n <= 0x200a
    ||| n == 0x2028
    ||| n == 0x2029
    ||| n == 0x202f
    ||| n == 0x205f
    ||| n == 0x3000
}

/// Whether `c` is white space.
pub fn is_space(c: char) -> (r: bool)
    ensures
        r == is_space_spec(c),
{
    let n: u32 = c as u32;
    (0x09 <= n && n <= 0x0d) || n == 0x20 || n == 0x85 || n == 0xa0 || n == 0x1680 || (0x2000 <= n
        && n <= 0x200a) || n == 0x2028 || n == 0x2029 || n == 0x202f || n == 0x205f || n == 0x3000
}

/// Whether `c` is a decimal digit of ASCII.
pub open spec fn is_digit_spec(c: char) -> bool {
    0x30 <= c as u32 <= 0x39
}

/// Whether `c` is a letter or a digit of ASCII.
pub open spec fn is_ascii_alnum(c: char) -> bool {
    ||| is_digit_spec(c)
    ||| 0x41 <= c as u32 <= 0x5a
    ||| 0x61 <= c as u32 <= 0x7a
}

/// Whether every character of `s` is one of ASCII.
pub open spec fn all_ascii(s: Seq<char>) -> bool {
    forall|i: int| 0 <= i < s.len() ==> (#[trigger] s[i]) as u32 <= 0x7f
}

/// The lower-case form of a character of ASCII.
pub open spec fn ascii_lower(c: char) -> char {
    if 0x41 <= c as u32 <= 0x5a {
        ((c as u32 + 0x20) as u32) as char
    } else {
        c
    }
}

/// What `char::is_alphanumeric` answers.
pub uninterp spec fn is_alnum(c: char) -> bool;

/// What `str::to_lowercase` returns.
pub uninterp spec fn lowercase(s: Seq<char>) -> Seq<char>;

/// `char::is_alphanumeric`: membership in Unicode's alphabetic and numeric
/// classes, which among the characters of ASCII are the letters and the digits.
pub assume_specification[ char::is_alphanumeric ](c: char) -> (r: bool)
    ensures
        r == is_alnum(c),
        c as u32 <= 0x7f ==> r == is_ascii_alnum(c),
;

/// `str::to_lowercase`: the text's lower-case form as Unicode defines it. Text
/// of ASCII is mapped character by character.
pub assume_specification[ str::to_lowercase ](s: &str) -> (r: String)
    ensures
        r@ == lowercase(s@),
        all_ascii(s@) ==> r@ == s@.map_values(|c: char| ascii_lower(c)),
;

/// `String::push`: appends the character.
pub assume_specification[ String::push ](s: &mut String, c: char)
    ensures
        final(s)@ == old(s)@.push(c),
;

/// `String::push_str`: appends the text.
pub assume_specification[ String::push_str ](s: &mut String, t: &str)
    ensures
        final(s)@ == old(s)@ + t@,
;

/// The error of `std::str::from_utf8`.
#[verifier::external_type_specification]
#[verifier::external_body]
pub struct ExUtf8Error(core::str::Utf8Error);

/// `std::str::from_utf8`: succeeds exactly on bytes that are valid UTF-8, and
/// then gives the text that they encode.
pub assume_specification[ core::str::from_utf8 ](v: &[u8]) -> (r: Result<
    &str,
    core::str::Utf8Error,
>)
    ensures
        r is Ok <==> vstd::utf8::valid_utf8(v@),
        r matches Ok(s) ==> vstd::utf8::encode_utf8(s@) == v@,
;

/// The text that `b` encodes, or no text where it is not UTF-8.
pub open spec fn utf8_or_empty(b: Seq<u8>) -> Seq<char> {
    if vstd::utf8::valid_utf8(b) {
        vstd::utf8::decode_utf8(b)
    } else {
        Seq::empty()
    }
}

/// Decodes UTF-8; bytes that are not give no text.
pub fn decode(b: &[u8]) -> (v: Vec<char>)
    ensures
        v@ == utf8_or_empty(b@),
{
    match core::str::from_utf8(b) {
        Ok(s) => {
            proof {
                vstd::utf8::encode_utf8_decode_utf8(s@);
            }
            chars_of(s)
        },
        Err(_) => Vec::new(),
    }
}

/// The characters of `s`, in order.
pub fn chars_of(s: &str) -> (v: Vec<char>)
    ensures
        v@ == s@,
{
    let mut v: Vec<char> = Vec::new();
    for c in it: s.chars()
        invariant
            v@ == s@.take(it.index() as int),
            it.seq() == s@,
    {
        v.push(c);
        assert(s@.take(it.index() + 1) == s@.take(it.index() as int).push(c));
    }
    assert(s@.take(s@.len() as int) == s@);
    v
}

/// The text made of the characters `v`.
pub fn string_of(v: &[char]) -> (s: String)
    ensures
        s@ == v@,
{
    let mut s = String::new();
    let mut i: usize = 0;
    while i < v.len()
        invariant
            i <= v@.len(),
            s@ == v@.take(i as int),
        decreases v@.len() - i,
    {
        s.push(v[i]);
        i += 1;
        assert(v@.take(i as int) == v@.take(i - 1).push(v@[i - 1]));
    }
    assert(v@.take(v@.len() as int) == v@);
    s
}

/// `is_alnum` as a predicate.
pub open spec fn alnum() -> spec_fn(char) -> bool {
    |c: char| is_alnum(c)
}

/// `is_ascii_alnum` as a predicate.
pub open spec fn ascii_alnum() -> spec_fn(char) -> bool {
    |c: char| is_ascii_alnum(c)
}

/// The lower-case form of text of ASCII.
pub open spec fn ascii_lowered(s: Seq<char>) -> Seq<char> {
    s.map_values(|c: char| ascii_lower(c))
}

/// Lower-casing text of ASCII gives text of ASCII.
pub proof fn lemma_ascii_lowered(s: Seq<char>)
    requires
        all_ascii(s),
    ensures
        all_ascii(ascii_lowered(s)),
{
}

/// Whether `p` and `q` agree on the characters of `s`.
pub open spec fn agree(s: Seq<char>, p: spec_fn(char) -> bool, q: spec_fn(char) -> bool) -> bool {
    forall|i: int| 0 <= i < s.len() ==> p(#[trigger] s[i]) == q(s[i])
}

/// Which characters of `v` are letters or digits.
pub fn alnum_mask(v: &[char]) -> (m: Vec<bool>)
    ensures
        m@.len() == v@.len(),
        forall|i: int| 0 <= i < v@.len() ==> (#[trigger] m@[i]) == is_alnum(v@[i]),
        all_ascii(v@) ==> agree(v@, alnum(), ascii_alnum()),
{
    let mut m: Vec<bool> = Vec::new();
    let mut i: usize = 0;
    while i < v.len()
        invariant
            i <= v@.len(),
            m@.len() == i,
            forall|k: int| 0 <= k < i ==> (#[trigger] m@[k]) == is_alnum(v@[k]),
            forall|k: int|
                0 <= k < i && (#[trigger] v@[k]) as u32 <= 0x7f ==> is_alnum(v@[k])
                    == is_ascii_alnum(v@[k]),
        decreases v@.len() - i,
    {
        m.push(v[i].is_alphanumeric());
        i += 1;
    }
    m
}

/// The views of a vector's character vectors.
pub open spec fn views(v: Seq<Vec<char>>) -> Seq<Seq<char>> {
    v.map_values(|l: Vec<char>| l@)
}

/// The views of a vector's strings.
pub open spec fn texts(v: Seq<String>) -> Seq<Seq<char>> {
    v.map_values(|l: String| l@)
}

/// Whether the characters `v` spell `lit`.
pub fn spells(v: &[char], lit: &str) -> (r: bool)
    ensures
        r == (v@ == lit@),
{
    let w = chars_of(lit);
    if v.len() != w.len() {
        return false;
    }
    let mut i: usize = 0;
    while i < v.len()
        invariant
            i <= v@.len(),
            v@.len() == w@.len(),
            w@ == lit@,
            forall|k: int| 0 <= k < i ==> v@[k] == w@[k],
        decreases v@.len() - i,
    {
        if v[i] != w[i] {
            assert(v@[i as int] != lit@[i as int]);
            return false;
        }
        i += 1;
    }
    assert(v@ =~= lit@);
    true
}

/// Whether `p` is a prefix of `v`.
pub fn starts_with(v: &[char], p: &str) -> (r: bool)
    ensures
        r == p@.is_prefix_of(v@),
{
    let w = chars_of(p);
    if v.len() < w.len() {
        return false;
    }
    let mut i: usize = 0;
    while i < w.len()
        invariant
            i <= w@.len() <= v@.len(),
            w@ == p@,
            forall|k: int| 0 <= k < i ==> v@[k] == w@[k],
        decreases w@.len() - i,
    {
        if v[i] != w[i] {
            assert(v@.subrange(0, p@.len() as int)[i as int] != p@[i as int]);
            return false;
        }
        i += 1;
    }
    assert(p@ =~= v@.subrange(0, p@.len() as int));
    true
}

/// The least index from `i` on at which `s` holds `c`; the length of `s` when
/// there is none.
pub open spec fn index_from(s: Seq<char>, c: char, i: int) -> int
    decreases s.len() - i,
{
    if i < 0 || i >= s.len() {
        s.len() as int
    } else if s[i] == c {
        i
    } else {
        index_from(s, c, i + 1)
    }
}

/// What `index_from` means: everything before it differs from `c`.
pub proof fn lemma_index_from(s: Seq<char>, c: char, i: int)
    requires
        0 <= i <= s.len(),
    ensures
        i <= index_from(s, c, i) <= s.len(),
        forall|k: int| i <= k < index_from(s, c, i) ==> s[k] != c,
        index_from(s, c, i) < s.len() ==> s[index_from(s, c, i)] == c,
    decreases s.len() - i,
{
    if i < s.len() && s[i] != c {
        lemma_index_from(s, c, i + 1);
    }
}

/// The least index from `i` on, below `n`, of which `p` holds, or `n`.
pub open spec fn first_from(n: int, p: spec_fn(int) -> bool, i: int) -> int
    decreases n - i,
{
    if i < 0 || i >= n {
        n
    } else if p(i) {
        i
    } else {
        first_from(n, p, i + 1)
    }
}

pub proof fn lemma_first_from(n: int, p: spec_fn(int) -> bool, i: int)
    requires
        0 <= i <= n,
    ensures
        i <= first_from(n, p, i) <= n,
        first_from(n, p, i) < n ==> p(first_from(n, p, i)),
        forall|k: int| i <= k < first_from(n, p, i) ==> !(#[trigger] p(k)),
    decreases n - i,
{
    if i < n && !p(i) {
        lemma_first_from(n, p, i + 1);
    }
}

/// The index of the first `c` in `v` from `from` on.
pub fn find_from(v: &[char], c: char, from: usize) -> (r: usize)
    requires
        from <= v@.len(),
    ensures
        r == index_from(v@, c, from as int),
        from <= r <= v@.len(),
        r < v@.len() ==> v@[r as int] == c,
        forall|k: int| from <= k < r ==> v@[k] != c,
{
    let mut i: usize = from;
    while i < v.len()
        invariant
            from <= i <= v@.len(),
            index_from(v@, c, from as int) == index_from(v@, c, i as int),
            forall|k: int| from <= k < i ==> v@[k] != c,
        decreases v@.len() - i,
    {
        if v[i] == c {
            return i;
        }
        i += 1;
    }
    i
}

/// Whether `p` occurs somewhere in `s`.
pub open spec fn mentions(s: Seq<char>, p: Seq<char>) -> bool {
    exists|i: int| 0 <= i <= s.len() - p.len() && #[trigger] s.subrange(i, i + p.len()) == p
}

/// Whether `p` occurs somewhere in `v`.
pub fn contains(v: &[char], p: &str) -> (r: bool)
    ensures
        r == mentions(v@, p@),
{
    let n: usize = chars_of(p).len();
    let mut i: usize = 0;
    while i < v.len() && n <= v.len() - i
        invariant
            i <= v@.len(),
            n == p@.len(),
            forall|k: int| 0 <= k < i ==> #[trigger] v@.subrange(k, k + n) != p@,
        decreases v@.len() - i,
    {
        let rest = vstd::slice::slice_subrange(v, i, v.len());
        if starts_with(rest, p) {
            assert(rest@.subrange(0, n as int) =~= v@.subrange(i as int, i + n));
            return true;
        }
        assert(v@.subrange(i as int, i + n) != p@) by {
            if v@.subrange(i as int, i + n) == p@ {
                assert(rest@.subrange(0, n as int) =~= v@.subrange(i as int, i + n));
            }
        }
        i += 1;
    }
    proof {
        if n == 0 {
            assert(v@.subrange(0int, 0int + p@.len()) =~= p@);
        } else if mentions(v@, p@) {
            let k = choose|k: int|
                0 <= k <= v@.len() - p@.len() && #[trigger] v@.subrange(k, k + p@.len()) == p@;
            assert(v@.subrange(k, k + n) == p@);
        }
    }
    n == 0
}

/// `s` without its leading white space.
pub open spec fn trim_start_spec(s: Seq<char>) -> Seq<char>
    decreases s.len(),
{
    if s.len() > 0 && is_space_spec(s[0]) {
        trim_start_spec(s.drop_first())
    } else {
        s
    }
}

/// `s` without its trailing white space.
pub open spec fn trim_end_spec(s: Seq<char>) -> Seq<char>
    decreases s.len(),
{
    if s.len() > 0 && is_space_spec(s.last()) {
        trim_end_spec(s.drop_last())
    } else {
        s
    }
}

/// `s` without the white space at either end.
pub open spec fn trim_spec(s: Seq<char>) -> Seq<char> {
    trim_end_spec(trim_start_spec(s))
}

pub proof fn lemma_trim_keeps_last(s: Seq<char>)
    requires
        s.len() > 0,
        !is_space_spec(s.last()),
    ensures
        trim_start_spec(s).len() > 0,
        trim_start_spec(s).last() == s.last(),
        trim_spec(s) == trim_start_spec(s),
    decreases s.len(),
{
    if is_space_spec(s[0]) {
        assert(s.drop_first().last() == s.last());
        lemma_trim_keeps_last(s.drop_first());
    }
}

/// Drops leading white space.
pub fn trim_start(v: &[char]) -> (r: &[char])
    ensures
        r@ == trim_start_spec(v@),
        r@.len() <= v@.len(),
        r@ == v@.skip(v@.len() - r@.len()),
{
    let n: usize = v.len();
    let mut i: usize = 0;
    assert(v@.skip(0) == v@);
    while i < n && is_space(v[i])
        invariant
            i <= n == v@.len(),
            trim_start_spec(v@.skip(i as int)) == trim_start_spec(v@),
        decreases n - i,
    {
        assert(v@.skip(i as int).drop_first() == v@.skip(i + 1));
        i += 1;
    }
    assert(i < n ==> v@.skip(i as int)[0] == v@[i as int]);
    vstd::slice::slice_subrange(v, i, n)
}

/// Drops trailing white space.
pub fn trim_end(v: &[char]) -> (r: &[char])
    ensures
        r@ == trim_end_spec(v@),
        r@.len() <= v@.len(),
        r@ == v@.take(r@.len() as int),
{
    let mut n: usize = v.len();
    assert(v@.take(n as int) == v@);
    while n > 0 && is_space(v[n - 1])
        invariant
            n <= v@.len(),
            trim_end_spec(v@.take(n as int)) == trim_end_spec(v@),
        decreases n,
    {
        assert(v@.take(n as int).drop_last() == v@.take(n - 1));
        n -= 1;
    }
    vstd::slice::slice_subrange(v, 0, n)
}

/// Drops the white space at both ends.
pub fn trim(v: &[char]) -> (r: &[char])
    ensures
        r@ == trim_spec(v@),
        r@.len() <= v@.len(),
{
    trim_end(trim_start(v))
}

/// Whether `s` holds something other than white space.
pub open spec fn holds_ink(s: Seq<char>) -> bool {
    exists|k: int| 0 <= k < s.len() && !is_space_spec(#[trigger] s[k])
}

/// Trimming leaves nothing of white space, and something of anything else.
pub proof fn lemma_trim_of_ink(s: Seq<char>)
    ensures
        trim_spec(s).len() > 0 <==> holds_ink(s),
{
    lemma_trim_start_of_ink(s);
    let t = trim_start_spec(s);
    if t.len() > 0 {
        lemma_trim_end_of_ink(t);
    }
}

proof fn lemma_trim_start_of_ink(s: Seq<char>)
    ensures
        trim_start_spec(s).len() > 0 <==> holds_ink(s),
        trim_start_spec(s).len() > 0 ==> !is_space_spec(trim_start_spec(s)[0]),
    decreases s.len(),
{
    if s.len() > 0 {
        let t = s.drop_first();
        if is_space_spec(s[0]) {
            lemma_trim_start_of_ink(t);
            if holds_ink(t) {
                let k = choose|k: int| 0 <= k < t.len() && !is_space_spec(#[trigger] t[k]);
                assert(!is_space_spec(s[k + 1]));
            }
            if holds_ink(s) {
                let k = choose|k: int| 0 <= k < s.len() && !is_space_spec(#[trigger] s[k]);
                assert(!is_space_spec(t[k - 1]));
            }
        }
    }
}

proof fn lemma_trim_end_of_ink(s: Seq<char>)
    requires
        s.len() > 0,
        !is_space_spec(s[0]),
    ensures
        trim_end_spec(s).len() > 0,
    decreases s.len(),
{
    if is_space_spec(s.last()) {
        assert(s.drop_last()[0] == s[0]);
        lemma_trim_end_of_ink(s.drop_last());
    }
}

/// `l` without one trailing carriage return.
pub open spec fn drop_cr(l: Seq<char>) -> Seq<char> {
    if l.len() > 0 && l.last() == '\r' {
        l.drop_last()
    } else {
        l
    }
}

/// The lines of `s`: each ends at a line feed, which may follow a carriage
/// return, or at the end of the text.
pub open spec fn lines_spec(s: Seq<char>) -> Seq<Seq<char>>
    decreases s.len(),
    via lines_spec_decreases
{
    if s.len() == 0 {
        Seq::empty()
    } else {
        let n = index_from(s, '\n', 0);
        if n < s.len() {
            seq![drop_cr(s.take(n))] + lines_spec(s.skip(n + 1))
        } else {
            seq![s]
        }
    }
}

#[via_fn]
proof fn lines_spec_decreases(s: Seq<char>) {
    lemma_index_from(s, '\n', 0);
}

/// What `index_from` finds, from what it means.
pub proof fn lemma_index_is(s: Seq<char>, c: char, n: int)
    requires
        0 <= n <= s.len(),
        forall|k: int| 0 <= k < n ==> s[k] != c,
        n < s.len() ==> s[n] == c,
    ensures
        index_from(s, c, 0) == n,
{
    lemma_index_from(s, c, 0);
    let m = index_from(s, c, 0);
    if m < n {
        assert(s[m] == c);
    }
    if m > n {
        assert(s[n] != c);
    }
}

/// A line feed ends a line: what it ends and what follows it have their lines
/// to themselves.
pub proof fn lemma_lines_concat(a: Seq<char>, c: Seq<char>)
    ensures
        lines_spec(a.push('\n') + c) == lines_spec(a.push('\n')) + lines_spec(c),
    decreases a.len(),
{
    let p = a.push('\n');
    let s = p + c;
    lemma_index_from(p, '\n', 0);
    let n = index_from(p, '\n', 0);
    assert(p[a.len() as int] == '\n');
    assert(n <= a.len());
    assert(forall|k: int| 0 <= k <= a.len() ==> s[k] == p[k]);
    lemma_index_is(s, '\n', n);
    assert(s.take(n) =~= p.take(n));
    let first = seq![drop_cr(p.take(n))];
    if n < a.len() {
        let b = a.skip(n + 1);
        assert(p.skip(n + 1) =~= b.push('\n'));
        assert(s.skip(n + 1) =~= b.push('\n') + c);
        lemma_lines_concat(b, c);
        assert(first + (lines_spec(b.push('\n')) + lines_spec(c)) =~= first + lines_spec(
            b.push('\n'),
        ) + lines_spec(c));
    } else {
        assert(p.skip(n + 1) =~= Seq::<char>::empty());
        assert(s.skip(n + 1) =~= c);
        assert(first + lines_spec(p.skip(n + 1)) =~= first);
    }
}

/// A line feed at the end of a text ends its last line; where there is none to
/// end, it is an empty line.
pub proof fn lemma_lines_final_break(a: Seq<char>)
    ensures
        a.len() > 0 && a.last() != '\n' && a.last() != '\r' ==> lines_spec(a.push('\n'))
            == lines_spec(a),
        a.len() == 0 || a.last() == '\n' ==> lines_spec(a.push('\n')) == lines_spec(a).push(
            Seq::empty(),
        ),
    decreases a.len(),
{
    let p = a.push('\n');
    lemma_index_from(p, '\n', 0);
    let n = index_from(p, '\n', 0);
    assert(p[a.len() as int] == '\n');
    assert(n <= a.len());
    assert(forall|k: int| 0 <= k < a.len() ==> a[k] == p[k]);
    lemma_index_is(a, '\n', n);
    assert(p.take(n) =~= a.take(n));
    let first = seq![drop_cr(a.take(n))];
    if n < a.len() {
        let b = a.skip(n + 1);
        assert(p.skip(n + 1) =~= b.push('\n'));
        lemma_lines_final_break(b);
        if b.len() > 0 {
            assert(b.last() == a.last());
        } else {
            assert(a.last() == a[n]);
        }
        assert(first + lines_spec(b).push(Seq::empty()) =~= (first + lines_spec(b)).push(
            Seq::empty(),
        ));
    } else {
        assert(p.skip(n + 1) =~= Seq::<char>::empty());
        assert(first + lines_spec(p.skip(n + 1)) =~= first);
        assert(a.take(n) =~= a);
        if a.len() == 0 {
            assert(first[0] =~= Seq::<char>::empty());
            assert(first =~= Seq::<Seq<char>>::empty().push(Seq::empty()));
        }
    }
}

/// No line holds a line feed.
pub proof fn lemma_lines_hold_no_break(s: Seq<char>, i: int, k: int)
    requires
        0 <= i < lines_spec(s).len(),
        0 <= k < lines_spec(s)[i].len(),
    ensures
        lines_spec(s)[i][k] != '\n',
    decreases s.len(),
{
    lemma_index_from(s, '\n', 0);
    let n = index_from(s, '\n', 0);
    if n < s.len() && i > 0 {
        let rest = lines_spec(s.skip(n + 1));
        assert(lines_spec(s)[i] == rest[i - 1]);
        lemma_lines_hold_no_break(s.skip(n + 1), i - 1, k);
    }
}

/// What a text holds is on one of its lines.
pub proof fn lemma_lines_hold_ink(s: Seq<char>) -> (j: int)
    requires
        holds_ink(s),
    ensures
        0 <= j < lines_spec(s).len(),
        holds_ink(lines_spec(s)[j]),
    decreases s.len(),
{
    lemma_index_from(s, '\n', 0);
    let n = index_from(s, '\n', 0);
    let k = choose|k: int| 0 <= k < s.len() && !is_space_spec(#[trigger] s[k]);
    if n >= s.len() {
        0
    } else if k < n {
        let l = drop_cr(s.take(n));
        assert(s.take(n)[k] == s[k]);
        assert(l[k] == s[k]);
        0
    } else {
        let rest = s.skip(n + 1);
        assert(rest[k - n - 1] == s[k]);
        let j = lemma_lines_hold_ink(rest);
        assert(lines_spec(s)[j + 1] == lines_spec(rest)[j]);
        j + 1
    }
}

/// A vector of the characters in `v` from `i` up to `j`.
pub fn copy_range(v: &[char], i: usize, j: usize) -> (r: Vec<char>)
    requires
        i <= j <= v@.len(),
    ensures
        r@ == v@.subrange(i as int, j as int),
{
    vstd::slice::slice_to_vec(vstd::slice::slice_subrange(v, i, j))
}

/// Splits text into its lines.
pub fn lines(v: &[char]) -> (out: Vec<Vec<char>>)
    ensures
        views(out@) == lines_spec(v@),
{
    let mut out: Vec<Vec<char>> = Vec::new();
    let mut i: usize = 0;
    assert(v@.skip(0) == v@);
    assert(views(out@) =~= Seq::<Seq<char>>::empty());
    while i < v.len()
        invariant
            i <= v@.len(),
            views(out@) + lines_spec(v@.skip(i as int)) == lines_spec(v@),
        decreases v@.len() - i,
    {
        let ghost tail = v@.skip(i as int);
        let n: usize = find_from(v, '\n', i);
        proof {
            lemma_index_from(tail, '\n', 0);
            assert(forall|k: int| i <= k < n ==> tail[k - i] == #[trigger] v@[k]);
            if index_from(tail, '\n', 0) < n - i {
                assert(v@[i + index_from(tail, '\n', 0)] == '\n');
            }
            if n < v@.len() && index_from(tail, '\n', 0) > n - i {
                assert(tail[n - i] == '\n');
            }
            assert(index_from(tail, '\n', 0) == n - i);
        }
        let ghost before = out@;
        let mut e: usize = n;
        if n < v.len() && n > i && v[n - 1] == '\r' {
            e = n - 1;
        }
        let l = copy_range(v, i, e);
        out.push(l);
        proof {
            let line = if n < v@.len() { drop_cr(tail.take(n - i)) } else { tail };
            assert(l@ =~= line);
            assert(views(out@) =~= views(before).push(line));
            if n < v@.len() {
                assert(tail.skip(n - i + 1) =~= v@.skip(n + 1));
                assert(views(out@) + lines_spec(v@.skip(n + 1)) =~= views(before) + (seq![line]
                    + lines_spec(v@.skip(n + 1))));
            } else {
                assert(views(out@) =~= views(before) + seq![line]);
            }
        }
        if n >= v.len() {
            return out;
        }
        i = n + 1;
    }
    assert(v@.skip(i as int) =~= Seq::<char>::empty());
    assert(views(out@) + Seq::<Seq<char>>::empty() =~= views(out@));
    out
}

/// The length of the longest prefix of `s` whose characters all satisfy `p`.
pub open spec fn prefix_len(s: Seq<char>, p: spec_fn(char) -> bool) -> nat
    decreases s.len(),
{
    if s.len() > 0 && p(s[0]) {
        1 + prefix_len(s.drop_first(), p)
    } else {
        0
    }
}

/// The maximal runs of characters satisfying `p`, in order.
pub open spec fn runs(s: Seq<char>, p: spec_fn(char) -> bool) -> Seq<Seq<char>>
    decreases s.len(),
    via runs_decreases
{
    if s.len() == 0 {
        Seq::empty()
    } else if p(s[0]) {
        seq![s.take(prefix_len(s, p) as int)] + runs(s.skip(prefix_len(s, p) as int), p)
    } else {
        runs(s.drop_first(), p)
    }
}

#[via_fn]
proof fn runs_decreases(s: Seq<char>, p: spec_fn(char) -> bool) {
    lemma_prefix_len(s, p);
}

/// What `prefix_len` means.
pub proof fn lemma_prefix_len(s: Seq<char>, p: spec_fn(char) -> bool)
    ensures
        prefix_len(s, p) <= s.len(),
        forall|k: int| 0 <= k < prefix_len(s, p) ==> p(#[trigger] s[k]),
        prefix_len(s, p) < s.len() ==> !p(s[prefix_len(s, p) as int]),
        s.len() > 0 && p(s[0]) ==> prefix_len(s, p) >= 1,
    decreases s.len(),
{
    if s.len() > 0 && p(s[0]) {
        let t = s.drop_first();
        lemma_prefix_len(t, p);
        assert forall|k: int| 0 <= k < prefix_len(s, p) implies p(#[trigger] s[k]) by {
            if k > 0 {
                assert(s[k] == t[k - 1]);
            }
        }
        if prefix_len(s, p) < s.len() {
            assert(s[prefix_len(s, p) as int] == t[prefix_len(t, p) as int]);
        }
    }
}

/// The only `n` that `prefix_len` can be.
pub proof fn lemma_prefix_len_unique(s: Seq<char>, p: spec_fn(char) -> bool, n: nat)
    requires
        n <= s.len(),
        forall|k: int| 0 <= k < n ==> p(#[trigger] s[k]),
        n < s.len() ==> !p(s[n as int]),
    ensures
        prefix_len(s, p) == n,
{
    lemma_prefix_len(s, p);
}

/// The words of `s`: its maximal runs of characters other than white space.
pub open spec fn words_spec(s: Seq<char>) -> Seq<Seq<char>> {
    runs(s, |c: char| !is_space_spec(c))
}

/// The maximal runs of the characters of `v` that `keep` marks.
pub(crate) fn runs_of(v: &[char], keep: &Vec<bool>, Ghost(p): Ghost<spec_fn(char) -> bool>) -> (out:
    Vec<Vec<char>>)
    requires
        keep@.len() == v@.len(),
        forall|k: int| 0 <= k < v@.len() ==> (#[trigger] keep@[k]) == p(v@[k]),
    ensures
        views(out@) == runs(v@, p),
{
    let mut out: Vec<Vec<char>> = Vec::new();
    let mut i: usize = 0;
    assert(v@.skip(0) =~= v@);
    assert(views(out@) + runs(v@.skip(0), p) =~= runs(v@, p));
    while i < v.len()
        invariant
            i <= v@.len(),
            keep@.len() == v@.len(),
            forall|k: int| 0 <= k < v@.len() ==> (#[trigger] keep@[k]) == p(v@[k]),
            views(out@) + runs(v@.skip(i as int), p) == runs(v@, p),
        decreases v@.len() - i,
    {
        let ghost tail = v@.skip(i as int);
        assert(tail[0] == v@[i as int]);
        if keep[i] {
            let mut j: usize = i + 1;
            while j < v.len() && keep[j]
                invariant
                    i < j <= v@.len(),
                    keep@.len() == v@.len(),
                    forall|k: int| i <= k < j ==> #[trigger] keep@[k],
                decreases v@.len() - j,
            {
                j += 1;
            }
            let ghost done = out@;
            let w = copy_range(v, i, j);
            out.push(w);
            proof {
                let n = (j - i) as nat;
                assert forall|k: int| 0 <= k < n implies p(#[trigger] tail[k]) by {
                    assert(keep@[i + k]);
                    assert(tail[k] == v@[i + k]);
                }
                if n < tail.len() {
                    assert(tail[n as int] == v@[j as int]);
                    assert(!keep@[j as int]);
                }
                lemma_prefix_len_unique(tail, p, n);
                assert(w@ =~= tail.take(n as int));
                assert(tail.skip(n as int) =~= v@.skip(j as int));
                assert(views(out@) =~= views(done).push(w@));
                assert(views(out@) + runs(v@.skip(j as int), p) =~= views(done) + (seq![w@] + runs(
                    v@.skip(j as int),
                    p,
                )));
            }
            i = j;
        } else {
            assert(tail.drop_first() =~= v@.skip(i + 1));
            i += 1;
        }
    }
    assert(v@.skip(i as int) =~= Seq::<char>::empty());
    assert(views(out@) + Seq::<Seq<char>>::empty() =~= views(out@));
    out
}

/// The words of `v`.
pub fn words(v: &[char]) -> (out: Vec<Vec<char>>)
    ensures
        views(out@) == words_spec(v@),
{
    let ghost p = |c: char| !is_space_spec(c);
    let mut keep: Vec<bool> = Vec::new();
    let mut i: usize = 0;
    while i < v.len()
        invariant
            i <= v@.len(),
            keep@.len() == i,
            p == |c: char| !is_space_spec(c),
            forall|k: int| 0 <= k < i ==> (#[trigger] keep@[k]) == p(v@[k]),
        decreases v@.len() - i,
    {
        keep.push(!is_space(v[i]));
        i += 1;
    }
    runs_of(v, &keep, Ghost(p))
}

/// Whether all characters of `s` satisfy `q`.
pub open spec fn only(s: Seq<char>, q: spec_fn(char) -> bool) -> bool {
    forall|k: int| 0 <= k < s.len() ==> q(#[trigger] s[k])
}

/// Runs hold no characters but those of the text.
pub proof fn lemma_runs_only(s: Seq<char>, p: spec_fn(char) -> bool, q: spec_fn(char) -> bool)
    requires
        only(s, q),
    ensures
        forall|i: int| 0 <= i < runs(s, p).len() ==> only(#[trigger] runs(s, p)[i], q),
    decreases s.len(),
{
    if s.len() > 0 {
        lemma_prefix_len(s, p);
        let n = prefix_len(s, p) as int;
        if p(s[0]) {
            lemma_runs_only(s.skip(n), p, q);
            let r = runs(s.skip(n), p);
            assert forall|i: int| 0 <= i < runs(s, p).len() implies only(
                #[trigger] runs(s, p)[i],
                q,
            ) by {
                if i > 0 {
                    assert(runs(s, p)[i] == r[i - 1]);
                }
            }
        } else {
            let t = s.drop_first();
            assert forall|k: int| 0 <= k < t.len() implies q(#[trigger] t[k]) by {
                assert(t[k] == s[k + 1]);
            }
            lemma_runs_only(t, p, q);
            assert(runs(s, p) == runs(t, p));
        }
    }
}

/// A joined text holds no characters but those of its parts and the separator.
pub proof fn lemma_join_only(parts: Seq<Seq<char>>, sep: Seq<char>, q: spec_fn(char) -> bool)
    requires
        only(sep, q),
        forall|i: int| 0 <= i < parts.len() ==> only(#[trigger] parts[i], q),
    ensures
        only(join_spec(parts, sep), q),
    decreases parts.len(),
{
    if parts.len() > 1 {
        lemma_join_only(parts.drop_last(), sep, q);
        assert(only(parts.last(), q));
    } else if parts.len() == 1 {
        assert(only(parts[0], q));
    }
}

/// Runs depend on what the predicate says of the text alone.
pub proof fn lemma_runs_agree(s: Seq<char>, p: spec_fn(char) -> bool, q: spec_fn(char) -> bool)
    requires
        agree(s, p, q),
    ensures
        runs(s, p) == runs(s, q),
    decreases s.len(),
{
    if s.len() > 0 {
        lemma_prefix_len(s, p);
        let n = prefix_len(s, p);
        assert forall|k: int| 0 <= k < n implies q(#[trigger] s[k]) by {
            assert(p(s[k]));
        }
        if n < s.len() {
            assert(p(s[n as int]) == q(s[n as int]));
        }
        lemma_prefix_len_unique(s, q, n);
        assert(p(s[0]) == q(s[0]));
        if p(s[0]) {
            lemma_runs_agree(s.skip(n as int), p, q);
        } else {
            lemma_runs_agree(s.drop_first(), p, q);
        }
    }
}

/// A part of `s` satisfies what all of `s` does.
pub proof fn lemma_trim_only(s: Seq<char>, q: spec_fn(char) -> bool)
    requires
        only(s, q),
    ensures
        only(trim_start_spec(s), q),
        only(trim_end_spec(s), q),
        only(trim_spec(s), q),
{
    lemma_trim_start_only(s, q);
    lemma_trim_end_only(s, q);
    lemma_trim_end_only(trim_start_spec(s), q);
}

proof fn lemma_trim_start_only(s: Seq<char>, q: spec_fn(char) -> bool)
    requires
        only(s, q),
    ensures
        only(trim_start_spec(s), q),
    decreases s.len(),
{
    if s.len() > 0 && is_space_spec(s[0]) {
        lemma_trim_start_only(s.drop_first(), q);
    }
}

proof fn lemma_trim_end_only(s: Seq<char>, q: spec_fn(char) -> bool)
    requires
        only(s, q),
    ensures
        only(trim_end_spec(s), q),
    decreases s.len(),
{
    if s.len() > 0 && is_space_spec(s.last()) {
        lemma_trim_end_only(s.drop_last(), q);
    }
}

/// `parts` with `sep` between each two of them.
pub open spec fn join_spec(parts: Seq<Seq<char>>, sep: Seq<char>) -> Seq<char>
    decreases parts.len(),
{
    if parts.len() == 0 {
        Seq::empty()
    } else if parts.len() == 1 {
        parts[0]
    } else {
        join_spec(parts.drop_last(), sep) + sep + parts.last()
    }
}

/// Whether `l` holds no line feed.
pub open spec fn unbroken(l: Seq<char>) -> bool {
    forall|k: int| 0 <= k < l.len() ==> l[k] != '\n'
}

/// Whether `l` can be a line of a text: it holds no line feed, and no carriage
/// return ends it.
pub open spec fn is_line(l: Seq<char>) -> bool {
    unbroken(l) && (l.len() > 0 ==> l.last() != '\r')
}

/// Parts that are joined and ended by line feeds are the lines of the text, but
/// for a carriage return at the end of a part.
pub proof fn lemma_lines_of_join(ls: Seq<Seq<char>>)
    requires
        ls.len() > 0,
        forall|i: int| 0 <= i < ls.len() ==> unbroken(#[trigger] ls[i]),
    ensures
        lines_spec(join_spec(ls, "\n"@).push('\n')) == ls.map_values(|l: Seq<char>| drop_cr(l)),
    decreases ls.len(),
{
    reveal_strlit("\n");
    let l = ls.last();
    assert(unbroken(ls[ls.len() - 1]));
    let p = l.push('\n');
    let out = ls.map_values(|l: Seq<char>| drop_cr(l));
    assert(lines_spec(p) =~= seq![drop_cr(l)]) by {
        lemma_index_is(p, '\n', l.len() as int);
        assert(p.take(l.len() as int) =~= l);
        assert(p.skip(l.len() as int + 1) =~= Seq::<char>::empty());
        assert(lines_spec(Seq::<char>::empty()) =~= Seq::<Seq<char>>::empty());
    }
    if ls.len() == 1 {
        assert(join_spec(ls, "\n"@) =~= l);
        assert(out =~= seq![drop_cr(l)]);
    } else {
        let init = ls.drop_last();
        assert forall|i: int| 0 <= i < init.len() implies unbroken(#[trigger] init[i]) by {
            assert(unbroken(ls[i]));
        }
        lemma_lines_of_join(init);
        let j = join_spec(init, "\n"@);
        assert(join_spec(ls, "\n"@).push('\n') =~= j.push('\n') + p);
        lemma_lines_concat(j, p);
        assert(out =~= init.map_values(|l: Seq<char>| drop_cr(l)) + seq![drop_cr(l)]);
    }
}

/// The lines of a text that lines were joined to, with or without a line feed
/// at its end.
pub proof fn lemma_lines_of_text(ls: Seq<Seq<char>>)
    requires
        ls.len() > 0,
        forall|i: int| 0 <= i < ls.len() ==> is_line(#[trigger] ls[i]),
    ensures
        ls.last().len() > 0 ==> lines_spec(join_spec(ls, "\n"@)) == ls,
        lines_spec(join_spec(ls, "\n"@).push('\n')) == ls,
{
    reveal_strlit("\n");
    let j = join_spec(ls, "\n"@);
    assert forall|i: int| 0 <= i < ls.len() implies unbroken(#[trigger] ls[i]) by {
        assert(is_line(ls[i]));
    }
    lemma_lines_of_join(ls);
    assert forall|i: int| 0 <= i < ls.len() implies drop_cr(#[trigger] ls[i]) == ls[i] by {
        assert(is_line(ls[i]));
    }
    assert(ls.map_values(|l: Seq<char>| drop_cr(l)) =~= ls);
    assert(is_line(ls[ls.len() - 1]));
    if ls.last().len() > 0 {
        assert(j.len() > 0 && j.last() == ls.last().last());
        lemma_lines_final_break(j);
    }
}

/// Joins `parts` with `sep` between each two of them.
pub fn join(parts: &Vec<Vec<char>>, sep: &str) -> (out: Vec<char>)
    ensures
        out@ == join_spec(views(parts@), sep@),
{
    let mut out: Vec<char> = Vec::new();
    let s = chars_of(sep);
    let mut i: usize = 0;
    assert(views(parts@).take(0) =~= Seq::<Seq<char>>::empty());
    while i < parts.len()
        invariant
            i <= parts@.len(),
            s@ == sep@,
            out@ == join_spec(views(parts@).take(i as int), sep@),
        decreases parts@.len() - i,
    {
        let ghost pre = views(parts@).take(i as int);
        let ghost now = views(parts@).take(i + 1);
        assert(now.drop_last() =~= pre);
        assert(now.last() == parts@[i as int]@);
        if i > 0 {
            append(&mut out, s.as_slice());
        } else {
            assert(out@ =~= Seq::<char>::empty());
        }
        append(&mut out, parts[i].as_slice());
        assert(i == 0 ==> out@ =~= now[0]);
        i += 1;
    }
    assert(views(parts@).take(i as int) =~= views(parts@));
    out
}

/// Appends the characters `t` to `v`.
pub fn append(v: &mut Vec<char>, t: &[char])
    ensures
        final(v)@ == old(v)@ + t@,
{
    ring::append(v, t)
}

/// The white space that `s` starts with is this long.
pub open spec fn leading_space(s: Seq<char>) -> nat {
    prefix_len(s, |c: char| is_space_spec(c))
}

/// Counts the white space at the start of `v`.
pub fn count_leading_space(v: &[char]) -> (n: usize)
    ensures
        n == leading_space(v@),
        n <= v@.len(),
{
    let mut n: usize = 0;
    while n < v.len() && is_space(v[n])
        invariant
            n <= v@.len(),
            forall|k: int| 0 <= k < n ==> is_space_spec(#[trigger] v@[k]),
        decreases v@.len() - n,
    {
        n += 1;
    }
    proof {
        let p = |c: char| is_space_spec(c);
        assert forall|k: int| 0 <= k < n implies p(#[trigger] v@[k]) by {}
        lemma_prefix_len_unique(v@, p, n as nat);
    }
    n
}

/// How often `c` occurs in `s`.
pub open spec fn occurrences(s: Seq<char>, c: char) -> nat
    decreases s.len(),
{
    if s.len() == 0 {
        0
    } else {
        occurrences(s.drop_last(), c) + if s.last() == c {
            1nat
        } else {
            0
        }
    }
}

/// Counts the occurrences of `c`.
pub fn count(v: &[char], c: char) -> (n: usize)
    ensures
        n == occurrences(v@, c),
{
    let mut n: usize = 0;
    let mut i: usize = 0;
    assert(v@.take(0) =~= Seq::<char>::empty());
    while i < v.len()
        invariant
            n <= i <= v@.len(),
            n == occurrences(v@.take(i as int), c),
        decreases v@.len() - i,
    {
        assert(v@.take(i + 1).drop_last() =~= v@.take(i as int));
        assert(v@.take(i + 1).last() == v@[i as int]);
        if v[i] == c {
            n += 1;
        }
        i += 1;
    }
    assert(v@.take(i as int) =~= v@);
    n
}

/// What follows the last character of `s` that satisfies `p`; all of `s` when
/// none does.
pub open spec fn after_last(s: Seq<char>, p: spec_fn(char) -> bool) -> Seq<char>
    decreases s.len(),
{
    if s.len() == 0 || p(s.last()) {
        Seq::empty()
    } else {
        after_last(s.drop_last(), p).push(s.last())
    }
}

/// What follows the last character of `v` that `f` accepts.
pub(crate) fn tail_after<F: Fn(char) -> bool>(
    v: &[char],
    f: F,
    Ghost(p): Ghost<spec_fn(char) -> bool>,
) -> (r: &[char])
    requires
        forall|c: char| call_requires(f, (c,)),
        forall|c: char, b: bool| call_ensures(f, (c,), b) ==> b == p(c),
    ensures
        r@ == after_last(v@, p),
{
    let n: usize = v.len();
    let mut i: usize = n;
    assert(v@.take(n as int) =~= v@);
    assert(after_last(v@, p) =~= after_last(v@.take(i as int), p) + v@.skip(i as int));
    while i > 0 && !f(v[i - 1])
        invariant
            i <= n == v@.len(),
            forall|c: char| call_requires(f, (c,)),
            forall|c: char, b: bool| call_ensures(f, (c,), b) ==> b == p(c),
            after_last(v@, p) == after_last(v@.take(i as int), p) + v@.skip(i as int),
        ensures
            i <= n,
            v@.skip(i as int) == after_last(v@, p),
        decreases i,
    {
        proof {
            let t = v@.take(i as int);
            assert(t.drop_last() =~= v@.take(i - 1));
            assert(after_last(t, p) + v@.skip(i as int) =~= after_last(v@.take(i - 1), p) + v@.skip(
                i - 1,
            ));
        }
        i -= 1;
    }
    vstd::slice::slice_subrange(v, i, n)
}

/// A filter that everything passes changes nothing.
pub proof fn lemma_filter_all(s: Seq<char>, p: spec_fn(char) -> bool)
    requires
        forall|k: int| 0 <= k < s.len() ==> p(#[trigger] s[k]),
    ensures
        s.filter(p) == s,
    decreases s.len(),
{
    reveal(Seq::filter);
    if s.len() > 0 {
        let t = s.drop_last();
        assert forall|k: int| 0 <= k < t.len() implies p(#[trigger] t[k]) by {
            assert(p(s[k]));
        }
        lemma_filter_all(t, p);
        assert(p(s[s.len() - 1]));
        assert(t.push(s.last()) =~= s);
    } else {
        assert(s.filter(p) =~= s);
    }
}

/// What `s` holds besides white space.
pub open spec fn ink(s: Seq<char>) -> Seq<char> {
    s.filter(|c: char| !is_space_spec(c))
}

/// White space at either end of a text is not part of its ink.
pub proof fn lemma_trim_keeps_ink(s: Seq<char>)
    ensures
        ink(trim_start_spec(s)) == ink(s),
        ink(trim_end_spec(s)) == ink(s),
        ink(trim_spec(s)) == ink(s),
    decreases s.len(),
{
    lemma_trim_start_keeps_ink(s);
    lemma_trim_end_keeps_ink(s);
    lemma_trim_end_keeps_ink(trim_start_spec(s));
}

proof fn lemma_trim_start_keeps_ink(s: Seq<char>)
    ensures
        ink(trim_start_spec(s)) == ink(s),
    decreases s.len(),
{
    let p = |c: char| !is_space_spec(c);
    if s.len() > 0 && is_space_spec(s[0]) {
        lemma_trim_start_keeps_ink(s.drop_first());
        assert(s =~= seq![s[0]] + s.drop_first());
        s.drop_first().lemma_filter_prepend(s[0], p);
        assert(ink(s) =~= ink(s.drop_first()));
    }
}

proof fn lemma_trim_end_keeps_ink(s: Seq<char>)
    ensures
        ink(trim_end_spec(s)) == ink(s),
    decreases s.len(),
{
    reveal(Seq::filter);
    if s.len() > 0 && is_space_spec(s.last()) {
        lemma_trim_end_keeps_ink(s.drop_last());
    }
}

/// The ink of two texts in a row is the ink of the one and then of the other.
pub proof fn lemma_ink_concat(a: Seq<char>, b: Seq<char>)
    ensures
        ink(a + b) == ink(a) + ink(b),
{
    Seq::filter_distributes_over_add(a, b, |c: char| !is_space_spec(c));
}

/// White space has no ink.
pub proof fn lemma_ink_of_space(s: Seq<char>)
    requires
        forall|k: int| 0 <= k < s.len() ==> is_space_spec(s[k]),
    ensures
        ink(s) == Seq::<char>::empty(),
    decreases s.len(),
{
    reveal(Seq::filter);
    if s.len() > 0 {
        lemma_ink_of_space(s.drop_last());
    }
}

/// The decimal digit `d`.
pub open spec fn digit(d: nat) -> char {
    ((0x30 + d) as u8) as char
}

/// `n` in decimal, without leading zeros.
pub open spec fn decimal_spec(n: nat) -> Seq<char>
    decreases n,
{
    if n < 10 {
        seq![digit(n)]
    } else {
        decimal_spec(n / 10).push(digit(n % 10))
    }
}

/// Writes `n` in decimal.
pub fn decimal(n: u64) -> (s: String)
    ensures
        s@ == decimal_spec(n as nat),
    decreases n,
{
    let mut s = if n < 10 {
        String::new()
    } else {
        decimal(n / 10)
    };
    let d: u8 = (n % 10) as u8;
    s.push((0x30u8 + d) as char);
    s
}

/// The number that decimal digits denote.
pub open spec fn value_of(d: Seq<char>) -> int
    decreases d.len(),
{
    if d.len() == 0 {
        0
    } else {
        10 * value_of(d.drop_last()) + (d.last() as u32 - 0x30)
    }
}

/// The number that a text denotes: decimal digits, which may follow a plus
/// sign, and no more than 64 bits hold.
pub open spec fn number_spec(s: Seq<char>) -> Option<int> {
    let d = if s.len() > 0 && s[0] == '+' {
        s.skip(1)
    } else {
        s
    };
    if d.len() > 0 && only(d, |c: char| is_digit_spec(c)) && value_of(d) <= u64::MAX {
        Some(value_of(d))
    } else {
        None
    }
}

proof fn lemma_value_of(d: Seq<char>, i: int)
    requires
        0 <= i <= d.len(),
        only(d, |c: char| is_digit_spec(c)),
    ensures
        0 <= value_of(d.take(i)) <= value_of(d),
    decreases d.len(),
{
    let q = |c: char| is_digit_spec(c);
    if i < d.len() {
        assert(q(d[d.len() - 1]));
        assert forall|k: int| 0 <= k < d.drop_last().len() implies q(#[trigger] d.drop_last()[k]) by {
            assert(q(d[k]));
        }
        lemma_value_of(d.drop_last(), i);
        assert(d.drop_last().take(i) =~= d.take(i));
    } else {
        assert(d.take(i) =~= d);
        if i > 0 {
            assert(q(d[i - 1]));
            assert forall|k: int| 0 <= k < d.drop_last().len() implies q(
                #[trigger] d.drop_last()[k],
            ) by {
                assert(q(d[k]));
            }
            lemma_value_of(d.drop_last(), i - 1);
        }
    }
}

/// Reads a number.
pub fn number(s: &str) -> (r: Option<u64>)
    ensures
        r is Some <==> number_spec(s@) is Some,
        r matches Some(n) ==> number_spec(s@) == Some(n as int),
{
    let chars = chars_of(s);
    let start: usize = if chars.len() > 0 && chars[0] == '+' {
        1
    } else {
        0
    };
    let ghost d = s@.skip(start as int);
    let ghost q = |c: char| is_digit_spec(c);
    assert(s@.skip(0) =~= s@);
    if chars.len() == start {
        return None;
    }
    let mut n: u64 = 0;
    let mut i: usize = start;
    assert(d.take(0) =~= Seq::<char>::empty());
    while i < chars.len()
        invariant
            start <= i <= chars@.len(),
            chars@ == s@,
            d == s@.skip(start as int),
            d.len() > 0,
            start == if s@.len() > 0 && s@[0] == '+' {
                1int
            } else {
                0int
            },
            s@.skip(0) == s@,
            q == |c: char| is_digit_spec(c),
            forall|k: int| 0 <= k < i - start ==> q(#[trigger] d[k]),
            n == value_of(d.take(i - start)),
        decreases chars@.len() - i,
    {
        let c = chars[i];
        assert(d[i - start] == c);
        if !(0x30 <= c as u32 && c as u32 <= 0x39) {
            assert(!q(d[i - start]));
            return None;
        }
        let x: u64 = (c as u32 - 0x30) as u64;
        proof {
            assert(q(d[i - start]));
            assert(d.take(i + 1 - start).drop_last() =~= d.take(i - start));
            assert(d.take(i + 1 - start).last() == c);
            assert(value_of(d.take(i + 1 - start)) == 10 * n + x);
            if 10 * n + x > u64::MAX && only(d, q) {
                lemma_value_of(d, i + 1 - start);
            }
        }
        if n > (u64::MAX - x) / 10 {
            return None;
        }
        n = 10 * n + x;
        i += 1;
    }
    assert(d.take(i - start) =~= d);
    assert(only(d, q));
    Some(n)
}

/// `a` followed by `b`.
pub fn joined(a: &str, b: &str) -> (r: String)
    ensures
        r@ == a@ + b@,
{
    let mut r = a.to_owned();
    r.push_str(b);
    r
}

/// A text without the white space around it.
pub fn trimmed(s: &str) -> (r: String)
    ensures
        r@ == trim_spec(s@),
{
    let chars = chars_of(s);
    string_of(trim(chars.as_slice()))
}

/// Whether a text is white space alone.
pub fn is_blank(s: &str) -> (r: bool)
    ensures
        r == (trim_spec(s@).len() == 0),
{
    let chars = chars_of(s);
    trim(chars.as_slice()).len() == 0
}

/// Whether a text has no characters.
pub fn is_empty(s: &str) -> (r: bool)
    ensures
        r == (s@.len() == 0),
{
    chars_of(s).len() == 0
}

/// Whether two texts are the same.
pub fn same(a: &str, b: &str) -> (r: bool)
    ensures
        r == (a@ == b@),
{
    let chars = chars_of(a);
    spells(chars.as_slice(), b)
}

/// The first `n` characters of `s`, or all of it.
pub open spec fn head(s: Seq<char>, n: int) -> Seq<char> {
    if s.len() <= n {
        s
    } else {
        s.take(n)
    }
}

/// The first `n` characters of a text.
pub fn take_chars(s: &str, n: usize) -> (r: String)
    ensures
        r@ == head(s@, n as int),
{
    let chars = chars_of(s);
    if chars.len() <= n {
        string_of(chars.as_slice())
    } else {
        let h = copy_range(chars.as_slice(), 0, n);
        assert(h@ =~= s@.take(n as int));
        string_of(h.as_slice())
    }
}

/// `s` cut to `max` characters, with an ellipsis where something was cut off.
pub open spec fn ellipsized(s: Seq<char>, max: int) -> Seq<char> {
    if s.len() <= max {
        s
    } else {
        s.take(max) + "…"@
    }
}

/// A text cut to `max` characters, with an ellipsis where something was cut
/// off.
pub fn ellipsize(s: &str, max: usize) -> (r: String)
    ensures
        r@ == ellipsized(s@, max as int),
{
    if chars_of(s).len() <= max {
        s.to_owned()
    } else {
        let mut r = take_chars(s, max);
        r.push_str("…");
        r
    }
}

/// Leading white space is trimmed up to the first other character.
pub proof fn lemma_trim_start_after(a: Seq<char>, t: Seq<char>)
    requires
        forall|k: int| 0 <= k < a.len() ==> is_space_spec(#[trigger] a[k]),
        t.len() == 0 || !is_space_spec(t[0]),
    ensures
        trim_start_spec(a + t) == t,
    decreases a.len(),
{
    if a.len() > 0 {
        assert(is_space_spec(a[0]));
        assert((a + t).drop_first() =~= a.drop_first() + t);
        assert forall|k: int| 0 <= k < a.drop_first().len() implies is_space_spec(
            #[trigger] a.drop_first()[k],
        ) by {
            assert(is_space_spec(a[k + 1]));
        }
        lemma_trim_start_after(a.drop_first(), t);
    } else {
        assert(a + t =~= t);
    }
}

proof fn lemma_trim_end_around(t: Seq<char>, b: Seq<char>)
    requires
        forall|k: int| 0 <= k < b.len() ==> is_space_spec(#[trigger] b[k]),
        t.len() == 0 || !is_space_spec(t.last()),
    ensures
        trim_end_spec(t + b) == t,
    decreases b.len(),
{
    if b.len() > 0 {
        assert(is_space_spec(b[b.len() - 1]));
        assert((t + b).drop_last() =~= t + b.drop_last());
        assert forall|k: int| 0 <= k < b.drop_last().len() implies is_space_spec(
            #[trigger] b.drop_last()[k],
        ) by {
            assert(is_space_spec(b[k]));
        }
        lemma_trim_end_around(t, b.drop_last());
    } else {
        assert(t + b =~= t);
    }
}

/// Trimming takes away the white space at the ends of a text, all of it and
/// nothing else.
pub proof fn law_trim_takes_the_space_around(a: Seq<char>, t: Seq<char>, b: Seq<char>)
    requires
        forall|k: int| 0 <= k < a.len() ==> is_space_spec(#[trigger] a[k]),
        forall|k: int| 0 <= k < b.len() ==> is_space_spec(#[trigger] b[k]),
        t.len() > 0 ==> !is_space_spec(t[0]) && !is_space_spec(t.last()),
    ensures
        trim_spec(a + t + b) == t,
        t.len() > 0 ==> trim_start_spec(a + t + b) == t + b,
{
    if t.len() > 0 {
        assert(a + t + b =~= a + (t + b));
        assert((t + b)[0] == t[0]);
        lemma_trim_start_after(a, t + b);
        lemma_trim_end_around(t, b);
    } else {
        let e = Seq::<char>::empty();
        let ab = a + t + b;
        assert(ab =~= ab + e);
        assert forall|k: int| 0 <= k < ab.len() implies is_space_spec(#[trigger] ab[k]) by {
            if k < a.len() {
                assert(is_space_spec(a[k]));
            } else {
                assert(ab[k] == b[k - a.len()]);
                assert(is_space_spec(b[k - a.len()]));
            }
        }
        lemma_trim_start_after(ab, e);
    }
}

/// What is trimmed is a stretch of the text, and all before it and after it is
/// white space.
pub proof fn lemma_trim_range(s: Seq<char>) -> (r: (int, int))
    ensures
        0 <= r.0 <= r.1 <= s.len(),
        trim_spec(s) == s.subrange(r.0, r.1),
        forall|k: int| 0 <= k < r.0 ==> is_space_spec(#[trigger] s[k]),
        forall|k: int| r.1 <= k < s.len() ==> is_space_spec(#[trigger] s[k]),
    decreases s.len(),
{
    if s.len() > 0 && is_space_spec(s[0]) {
        let d = s.drop_first();
        let (a, e) = lemma_trim_range(d);
        assert(d.subrange(a, e) =~= s.subrange(a + 1, e + 1));
        assert forall|k: int| 0 <= k < a + 1 implies is_space_spec(#[trigger] s[k]) by {
            if k > 0 {
                assert(is_space_spec(d[k - 1]));
            }
        }
        assert forall|k: int| e + 1 <= k < s.len() implies is_space_spec(#[trigger] s[k]) by {
            assert(is_space_spec(d[k - 1]));
        }
        (a + 1, e + 1)
    } else {
        let e = lemma_trim_end_range(s);
        assert(s.subrange(0, e) =~= s.take(e));
        (0, e)
    }
}

proof fn lemma_trim_end_range(s: Seq<char>) -> (e: int)
    ensures
        0 <= e <= s.len(),
        trim_end_spec(s) == s.take(e),
        forall|k: int| e <= k < s.len() ==> is_space_spec(#[trigger] s[k]),
    decreases s.len(),
{
    if s.len() > 0 && is_space_spec(s.last()) {
        let d = s.drop_last();
        let e = lemma_trim_end_range(d);
        assert(d.take(e) =~= s.take(e));
        assert forall|k: int| e <= k < s.len() implies is_space_spec(#[trigger] s[k]) by {
            if k < d.len() {
                assert(is_space_spec(d[k]));
            }
        }
        e
    } else {
        assert(s.take(s.len() as int) =~= s);
        s.len() as int
    }
}

/// White space is what Unicode calls so: the space and the controls that move
/// the place of writing, the no-break space, and the spaces and separators of
/// other scripts. No printable character of ASCII is.
pub proof fn law_white_space(c: char)
    ensures
        c as u32 <= 0x7f ==> (is_space_spec(c) <==> c == ' ' || c == '\t' || c == '\n' || c
            == '\x0b' || c == '\x0c' || c == '\r'),
        c as u32 > 0x7f ==> (is_space_spec(c) <==> {
            let n = c as u32;
            n == 0x85 || n == 0xa0 || n == 0x1680 || 0x2000 <= n <= 0x200a || n == 0x2028 || n
                == 0x2029 || n == 0x202f || n == 0x205f || n == 0x3000
        }),
{
}

/// The lower-case form of a capital letter of ASCII is the letter as far on from
/// 'a' as the capital is from 'A'; nothing else changes.
pub proof fn law_lower_case(c: char)
    ensures
        'A' <= c <= 'Z' ==> ascii_lower(c) as u32 - 'a' as u32 == c as u32 - 'A' as u32,
        !('A' <= c <= 'Z') ==> ascii_lower(c) == c,
        ascii_lower(ascii_lower(c)) == ascii_lower(c),
{
}

/// What does not belong to a run parts the runs of a text.
pub proof fn law_runs_are_parted(
    a: Seq<char>,
    c: char,
    b: Seq<char>,
    p: spec_fn(char) -> bool,
)
    requires
        !p(c),
    ensures
        runs(a.push(c) + b, p) == runs(a, p) + runs(b, p),
    decreases a.len(),
{
    let s = a.push(c) + b;
    if a.len() == 0 {
        assert(s.drop_first() =~= b);
        assert(runs(a, p) + runs(b, p) =~= runs(b, p));
    } else if p(a[0]) {
        lemma_prefix_len(a, p);
        let n = prefix_len(a, p) as int;
        assert forall|j: int| 0 <= j < n implies p(#[trigger] s[j]) by {
            assert(s[j] == a[j]);
        }
        assert(!p(s[n]));
        lemma_prefix_len_unique(s, p, n as nat);
        assert(s.take(n) =~= a.take(n));
        assert(s.skip(n) =~= a.skip(n).push(c) + b);
        law_runs_are_parted(a.skip(n), c, b, p);
        assert(runs(s, p) =~= runs(a, p) + runs(b, p));
    } else {
        assert(s.drop_first() =~= a.drop_first().push(c) + b);
        law_runs_are_parted(a.drop_first(), c, b, p);
    }
}

/// The runs of a text whose words are parted by single spaces are those words.
pub proof fn law_runs_of_joined_words(ws: Seq<Seq<char>>, p: spec_fn(char) -> bool)
    requires
        !p(' '),
        forall|i: int| 0 <= i < ws.len() ==> (#[trigger] ws[i]).len() > 0,
        forall|i: int, k: int|
            0 <= i < ws.len() && 0 <= k < ws[i].len() ==> p(#[trigger] ws[i][k]),
    ensures
        runs(join_spec(ws, " "@), p) == ws,
    decreases ws.len(),
{
    reveal_strlit(" ");
    if ws.len() > 0 {
        let w = ws.last();
        assert(ws[ws.len() - 1].len() > 0);
        assert forall|j: int| 0 <= j < w.len() implies p(#[trigger] w[j]) by {
            assert(p(ws[ws.len() - 1][j]));
        }
        lemma_prefix_len_unique(w, p, w.len());
        assert(w.take(w.len() as int) =~= w);
        assert(w.skip(w.len() as int) =~= Seq::<char>::empty());
        assert(runs(Seq::<char>::empty(), p) =~= Seq::<Seq<char>>::empty());
        assert(runs(w, p) =~= seq![w]);
        if ws.len() > 1 {
            let init = ws.drop_last();
            assert forall|i: int| 0 <= i < init.len() implies (#[trigger] init[i]).len() > 0 by {
                assert(ws[i].len() > 0);
            }
            assert forall|i: int, k: int|
                0 <= i < init.len() && 0 <= k < init[i].len() implies p(
                #[trigger] init[i][k],
            ) by {
                assert(p(ws[i][k]));
            }
            law_runs_of_joined_words(init, p);
            let j = join_spec(init, " "@);
            assert(j + " "@ + w =~= j.push(' ') + w);
            law_runs_are_parted(j, ' ', w, p);
            assert(init + seq![w] =~= ws);
        } else {
            assert(ws =~= seq![w]);
        }
    } else {
        assert(runs(join_spec(ws, " "@), p) =~= ws);
    }
}

/// Runs are not empty, and hold only what belongs to a run; a text without any
/// of that has none.
pub proof fn law_runs_hold_what_belongs(s: Seq<char>, p: spec_fn(char) -> bool)
    ensures
        forall|i: int| 0 <= i < runs(s, p).len() ==> (#[trigger] runs(s, p)[i]).len() > 0,
        forall|i: int, k: int|
            0 <= i < runs(s, p).len() && 0 <= k < runs(s, p)[i].len() ==> p(
                #[trigger] runs(s, p)[i][k],
            ),
        (forall|k: int| 0 <= k < s.len() ==> !p(#[trigger] s[k])) ==> runs(s, p).len() == 0,
    decreases s.len(),
{
    if s.len() > 0 {
        if p(s[0]) {
            lemma_prefix_len(s, p);
            let n = prefix_len(s, p) as int;
            law_runs_hold_what_belongs(s.skip(n), p);
            assert forall|i: int| 0 <= i < runs(s, p).len() implies (#[trigger] runs(
                s,
                p,
            )[i]).len() > 0 by {
                if i > 0 {
                    assert(runs(s, p)[i] == runs(s.skip(n), p)[i - 1]);
                }
            }
            assert forall|i: int, k: int|
                0 <= i < runs(s, p).len() && 0 <= k < runs(s, p)[i].len() implies p(
                #[trigger] runs(s, p)[i][k],
            ) by {
                if i > 0 {
                    assert(runs(s, p)[i] == runs(s.skip(n), p)[i - 1]);
                    assert(p(runs(s.skip(n), p)[i - 1][k]));
                } else {
                    assert(runs(s, p)[0] == s.take(n));
                    assert(p(s[k]));
                }
            }
        } else {
            law_runs_hold_what_belongs(s.drop_first(), p);
            if forall|k: int| 0 <= k < s.len() ==> !p(#[trigger] s[k]) {
                assert forall|k: int| 0 <= k < s.drop_first().len() implies !p(
                    #[trigger] s.drop_first()[k],
                ) by {
                    assert(!p(s[k + 1]));
                }
            }
        }
    }
}

/// The number of times that a character occurs: as often in two texts in a row
/// as in both, once in the character by itself, and not in any other.
pub proof fn law_occurrences_add_up(a: Seq<char>, b: Seq<char>, c: char, d: char)
    ensures
        occurrences(a + b, c) == occurrences(a, c) + occurrences(b, c),
        occurrences(seq![c], c) == 1,
        c != d ==> occurrences(seq![d], c) == 0,
        occurrences(Seq::empty(), c) == 0,
    decreases b.len(),
{
    reveal_with_fuel(occurrences, 2);
    assert(seq![c].drop_last() =~= Seq::<char>::empty());
    assert(seq![d].drop_last() =~= Seq::<char>::empty());
    if b.len() > 0 {
        assert((a + b).drop_last() =~= a + b.drop_last());
        law_occurrences_add_up(a, b.drop_last(), c, d);
    } else {
        assert(a + b =~= a);
    }
}

/// A character that is not in a text does not occur in it.
pub proof fn lemma_no_occurrence(s: Seq<char>, c: char)
    requires
        forall|k: int| 0 <= k < s.len() ==> s[k] != c,
    ensures
        occurrences(s, c) == 0,
    decreases s.len(),
{
    if s.len() > 0 {
        lemma_no_occurrence(s.drop_last(), c);
    }
}

/// A number is written in decimal digits, without a zero in front, and read
/// back as itself.
pub proof fn law_decimals(n: nat)
    ensures
        value_of(decimal_spec(n)) == n,
        decimal_spec(n).len() > 0,
        forall|k: int| 0 <= k < decimal_spec(n).len() ==> '0' <= #[trigger] decimal_spec(n)[k]
            <= '9',
        n > 0 ==> decimal_spec(n)[0] != '0',
        n < 10 ==> decimal_spec(n).len() == 1 && decimal_spec(n)[0] as int == '0' as int + n,
    decreases n,
{
    if n >= 10 {
        law_decimals(n / 10);
        let d = decimal_spec(n);
        let h = decimal_spec(n / 10);
        assert(d.drop_last() =~= h);
        assert forall|k: int| 0 <= k < d.len() implies '0' <= #[trigger] d[k] <= '9' by {
            if k < h.len() {
                assert(d[k] == h[k]);
            }
        }
        assert(d[0] == h[0]);
    } else {
        let d = decimal_spec(n);
        assert(d.drop_last() =~= Seq::<char>::empty());
        assert(value_of(d.drop_last()) == 0);
    }
}

/// The digits and letters of ASCII.
pub proof fn law_digits_and_letters(c: char)
    ensures
        is_digit_spec(c) <==> '0' <= c <= '9',
        is_ascii_alnum(c) <==> '0' <= c <= '9' || 'A' <= c <= 'Z' || 'a' <= c <= 'z',
{
}

/// A text is read as the number that it was written from, with or without a plus
/// sign; what is empty or holds anything but digits is no number.
pub proof fn law_numbers_are_read_back(n: nat, s: Seq<char>, k: int)
    ensures
        n <= u64::MAX ==> number_spec(decimal_spec(n)) == Some(n as int) && number_spec(
            "+"@ + decimal_spec(n),
        ) == Some(n as int),
        n > u64::MAX ==> number_spec(decimal_spec(n)) is None,
        number_spec(Seq::empty()) is None,
        0 < k < s.len() && !('0' <= s[k] <= '9') ==> number_spec(s) is None,
        s.len() > 0 && s[0] != '+' && !('0' <= s[0] <= '9') ==> number_spec(s) is None,
{
    reveal_strlit("+");
    law_decimals(n);
    let d = decimal_spec(n);
    let q = |c: char| is_digit_spec(c);
    assert(only(d, q));
    assert(("+"@ + d).skip(1) =~= d);
    assert(("+"@ + d)[0] == '+');
    assert('0' <= d[0] <= '9');
    if 0 < k < s.len() && !('0' <= s[k] <= '9') {
        let c: char = s[k];
        law_digits_and_letters(c);
        assert(!q(s[k]));
        assert(!only(s, q));
        assert(s.skip(1)[k - 1] == s[k]);
        assert(!only(s.skip(1), q));
    }
    if s.len() > 0 {
        law_digits_and_letters(s[0]);
        assert(!q(s[0]) ==> !only(s, q));
    }
}

/// The views of several texts are those of each, in order.
pub proof fn law_views_are_the_texts(v: Seq<Vec<char>>, t: Seq<String>, i: int)
    ensures
        views(v).len() == v.len(),
        texts(t).len() == t.len(),
        0 <= i < v.len() ==> views(v)[i] == v[i]@,
        0 <= i < t.len() ==> texts(t)[i] == t[i]@,
{
}

/// Text is of ASCII where every character is; its lower case is that of each
/// character.
pub proof fn law_ascii_text(s: Seq<char>, i: int)
    ensures
        all_ascii(s) <==> forall|k: int| 0 <= k < s.len() ==> (#[trigger] s[k]) as u32 <= 127,
        ascii_lowered(s).len() == s.len(),
        0 <= i < s.len() ==> ascii_lowered(s)[i] == ascii_lower(s[i]),
        forall|c: char| #[trigger] ascii_alnum()(c) == is_ascii_alnum(c),
        forall|c: char| #[trigger] alnum()(c) == is_alnum(c),
{
}

} // verus!
