//! Hexadecimal text.

use vstd::prelude::*;

use crate::text;
use crate::text::{chars_of, string_of, trim};

verus! {

/// The value of a hexadecimal digit in ASCII.
pub open spec fn nibble_spec(b: u8) -> Option<u8> {
    if 0x30 <= b <= 0x39 {
        Some((b - 0x30) as u8)
    } else if 0x61 <= b <= 0x66 {
        Some((b - 0x61 + 10) as u8)
    } else if 0x41 <= b <= 0x46 {
        Some((b - 0x41 + 10) as u8)
    } else {
        None
    }
}

/// The value of a hexadecimal digit.
pub fn hex_nibble(b: u8) -> (r: Option<u8>)
    ensures
        r == nibble_spec(b),
        r matches Some(n) ==> n < 16,
{
    if 0x30 <= b && b <= 0x39 {
        Some(b - 0x30)
    } else if 0x61 <= b && b <= 0x66 {
        Some(b - 0x61 + 10)
    } else if 0x41 <= b && b <= 0x46 {
        Some(b - 0x41 + 10)
    } else {
        None
    }
}

/// The value of two characters in base 16. With `signed`, a plus sign may stand
/// in the place of the first digit.
pub open spec fn pair_spec(hi: u8, lo: u8, signed: bool) -> Option<u8> {
    match nibble_spec(lo) {
        None => None,
        Some(l) => if signed && hi == 0x2b {
            Some(l)
        } else {
            match nibble_spec(hi) {
                None => None,
                Some(h) => Some((16 * h + l) as u8),
            }
        },
    }
}

fn pair(hi: u8, lo: u8, signed: bool) -> (r: Option<u8>)
    ensures
        r == pair_spec(hi, lo, signed),
{
    match hex_nibble(lo) {
        None => None,
        Some(l) => {
            if signed && hi == 0x2b {
                Some(l)
            } else {
                match hex_nibble(hi) {
                    None => None,
                    Some(h) => Some(16 * h + l),
                }
            }
        },
    }
}

/// The value of the `i`-th pair of characters.
pub open spec fn pair_at(b: Seq<u8>, i: int, signed: bool) -> Option<u8> {
    pair_spec(b[2 * i], b[2 * i + 1], signed)
}

/// Whether every pair of characters is a number in base 16.
pub open spec fn all_pairs(b: Seq<u8>, signed: bool) -> bool {
    forall|i: int| 0 <= i < b.len() / 2 ==> (#[trigger] pair_at(b, i, signed)) is Some
}

/// The bytes that the pairs of characters denote.
pub open spec fn pair_values(b: Seq<u8>, signed: bool) -> Seq<u8> {
    Seq::new((b.len() / 2) as nat, |i: int| pair_at(b, i, signed)->0)
}

/// The bytes of a text without the white space around it.
pub open spec fn trimmed_bytes(s: Seq<char>) -> Seq<u8> {
    vstd::utf8::encode_utf8(text::trim_spec(s))
}

/// Why a text is not hexadecimal.
#[derive(Debug, Clone, Copy, PartialEq, Eq, Structural)]
pub enum HexError {
    OddLength,
    InvalidDigit,
}

/// The bytes that pairs of hexadecimal digits denote. White space around them
/// is ignored; with `signed`, a plus sign may stand for a pair's first digit.
pub fn decode_pairs(s: &str, signed: bool) -> (r: Result<Vec<u8>, HexError>)
    ensures
        ({
            let b = trimmed_bytes(s@);
            &&& r is Ok <==> b.len() % 2 == 0 && all_pairs(b, signed)
            &&& r matches Ok(v) ==> v@ == pair_values(b, signed)
            &&& r == Err::<Vec<u8>, HexError>(HexError::OddLength) <==> b.len() % 2 != 0
            &&& r == Err::<Vec<u8>, HexError>(HexError::InvalidDigit) <==> b.len() % 2 == 0
                && !all_pairs(b, signed)
        }),
{
    let chars = chars_of(s);
    let t = string_of(trim(chars.as_slice()));
    let b = t.as_str().as_bytes();
    let ghost bv = trimmed_bytes(s@);
    assert(b@ == bv);
    let n: usize = b.len();
    if n % 2 != 0 {
        return Err(HexError::OddLength);
    }
    let mut out: Vec<u8> = Vec::new();
    let mut i: usize = 0;
    while i < n / 2
        invariant
            i <= n / 2,
            n == bv.len(),
            b@ == bv,
            bv == trimmed_bytes(s@),
            n % 2 == 0,
            out@.len() == i,
            forall|k: int| 0 <= k < i ==> (#[trigger] pair_at(bv, k, signed)) is Some,
            forall|k: int| 0 <= k < i ==> (#[trigger] out@[k]) == pair_values(bv, signed)[k],
        decreases n / 2 - i,
    {
        match pair(b[2 * i], b[2 * i + 1], signed) {
            None => {
                assert(pair_at(bv, i as int, signed) is None);
                return Err(HexError::InvalidDigit);
            },
            Some(x) => {
                assert(pair_at(bv, i as int, signed) == Some(x));
                out.push(x);
            },
        }
        i += 1;
    }
    assert(out@ =~= pair_values(bv, signed));
    Ok(out)
}

/// Why a certificate digest was refused.
#[derive(Debug, Clone, Copy, PartialEq, Eq, Structural)]
pub enum DigestError {
    Hex(HexError),
    /// It is not 32 bytes long but this many.
    Length(usize),
}

/// The SHA-256 digest that a hexadecimal text denotes: 32 bytes.
pub fn cert_digest(s: &str, signed: bool) -> (r: Result<Vec<u8>, DigestError>)
    ensures
        ({
            let b = trimmed_bytes(s@);
            let good = b.len() % 2 == 0 && all_pairs(b, signed);
            &&& r is Ok <==> good && b.len() == 64
            &&& r matches Ok(v) ==> v@ == pair_values(b, signed) && v@.len() == 32
            &&& r matches Err(DigestError::Length(n)) ==> good && n == b.len() / 2 && n != 32
            &&& r matches Err(DigestError::Hex(e)) ==> !good && (e == HexError::OddLength <==> b.len()
                % 2 != 0)
        }),
{
    match decode_pairs(s, signed) {
        Err(e) => Err(DigestError::Hex(e)),
        Ok(v) => {
            if v.len() != 32 {
                Err(DigestError::Length(v.len()))
            } else {
                Ok(v)
            }
        },
    }
}

/// The digit for a value below 16, in lower case.
pub open spec fn digit_of(n: int) -> u8 {
    if n < 10 {
        (0x30 + n) as u8
    } else {
        (0x57 + n) as u8
    }
}

/// Two digits for each byte.
pub open spec fn encoded(v: Seq<u8>) -> Seq<u8> {
    Seq::new(
        2 * v.len(),
        |i: int|
            if i % 2 == 0 {
                digit_of(v[i / 2] as int / 16)
            } else {
                digit_of(v[i / 2] as int % 16)
            },
    )
}

/// Decoding two digits for each byte gives the bytes back.
pub proof fn law_decoding_inverts_encoding(v: Seq<u8>, signed: bool)
    ensures
        all_pairs(encoded(v), signed),
        pair_values(encoded(v), signed) == v,
{
    let b = encoded(v);
    assert forall|i: int| 0 <= i < b.len() / 2 implies (#[trigger] pair_at(b, i, signed)) == Some(
        v[i],
    ) by {
        assert((2 * i) % 2 == 0 && (2 * i) / 2 == i);
        assert((2 * i + 1) % 2 == 1 && (2 * i + 1) / 2 == i);
        let h = v[i] as int / 16;
        let l = v[i] as int % 16;
        assert(b[2 * i] == digit_of(h));
        assert(b[2 * i + 1] == digit_of(l));
        assert(nibble_spec(digit_of(h)) == Some(h as u8));
        assert(nibble_spec(digit_of(l)) == Some(l as u8));
    }
    assert(pair_values(b, signed) =~= v);
}

/// The digits 0 to 9 and the letters a to f, in either case, stand for their
/// numbers, and nothing else does.
pub proof fn law_hexadecimal_digits(b: u8)
    ensures
        '0' as u8 <= b <= '9' as u8 ==> nibble_spec(b) == Some((b - '0' as u8) as u8),
        'a' as u8 <= b <= 'f' as u8 ==> nibble_spec(b) == Some((b - 'a' as u8 + 10) as u8),
        'A' as u8 <= b <= 'F' as u8 ==> nibble_spec(b) == Some((b - 'A' as u8 + 10) as u8),
        !('0' as u8 <= b <= '9' as u8 || 'a' as u8 <= b <= 'f' as u8 || 'A' as u8 <= b
            <= 'F' as u8) ==> nibble_spec(b) is None,
{
}

/// Two digits are a byte, the first one worth sixteen times the second. Where
/// signs are allowed, a plus sign may stand for a zero in front; no digit may be
/// missing otherwise.
pub proof fn law_pairs_of_digits(hi: u8, lo: u8, signed: bool)
    ensures
        nibble_spec(hi) is Some && nibble_spec(lo) is Some ==> pair_spec(hi, lo, signed) is Some
            && pair_spec(hi, lo, signed)->0 == 16 * nibble_spec(hi)->0 + nibble_spec(lo)->0,
        nibble_spec(lo) is None ==> pair_spec(hi, lo, signed) is None,
        nibble_spec(hi) is None && !(signed && hi == '+' as u8) ==> pair_spec(hi, lo, signed)
            is None,
        signed && hi == '+' as u8 ==> pair_spec(hi, lo, signed) == nibble_spec(lo),
{
}

} // verus!
