//! Names of keys for the global hotkeys.
//!
//! A bare letter stands for its key, so `J` and `KeyJ` are the same; a name
//! that is not known leaves the default in place.

use vstd::prelude::*;

use crate::text;
use crate::text::{chars_of, spells, trim};

verus! {

/// The keys that a hotkey can be bound to.
#[derive(Debug, Clone, Copy, PartialEq, Eq, Structural)]
pub enum Code {
    KeyA,
    KeyB,
    KeyC,
    KeyD,
    KeyE,
    KeyF,
    KeyG,
    KeyH,
    KeyI,
    KeyJ,
    KeyK,
    KeyL,
    KeyM,
    KeyN,
    KeyO,
    KeyP,
    KeyQ,
    KeyR,
    KeyS,
    KeyT,
    KeyU,
    KeyV,
    KeyW,
    KeyX,
    KeyY,
    KeyZ,
    F1,
    F2,
    F3,
    F4,
    F5,
    F6,
    F7,
    F8,
    F9,
    F10,
    F11,
    F12,
    Semicolon,
    Quote,
    Comma,
    Period,
    Slash,
    Backslash,
    Backquote,
    Space,
}

/// Whether `c` is a letter of ASCII.
pub open spec fn is_letter(c: char) -> bool {
    0x41 <= c as u32 <= 0x5a || 0x61 <= c as u32 <= 0x7a
}

/// The upper-case form of a letter of ASCII.
pub open spec fn upper(c: char) -> char {
    if 0x61 <= c as u32 <= 0x7a {
        ((c as u32 - 0x20) as u8) as char
    } else {
        c
    }
}

/// The full name of a key: that of the letter where the name is a bare letter.
pub open spec fn full_name(s: Seq<char>) -> Seq<char> {
    let t = text::trim_spec(s);
    if t.len() == 1 && is_letter(t[0]) {
        "Key"@.push(upper(t[0]))
    } else {
        t
    }
}

/// The key of that full name.
pub open spec fn key_named(n: Seq<char>) -> Option<Code> {
    if n == "KeyA"@ {
        Some(Code::KeyA)
    } else if n == "KeyB"@ {
        Some(Code::KeyB)
    } else if n == "KeyC"@ {
        Some(Code::KeyC)
    } else if n == "KeyD"@ {
        Some(Code::KeyD)
    } else if n == "KeyE"@ {
        Some(Code::KeyE)
    } else if n == "KeyF"@ {
        Some(Code::KeyF)
    } else if n == "KeyG"@ {
        Some(Code::KeyG)
    } else if n == "KeyH"@ {
        Some(Code::KeyH)
    } else if n == "KeyI"@ {
        Some(Code::KeyI)
    } else if n == "KeyJ"@ {
        Some(Code::KeyJ)
    } else if n == "KeyK"@ {
        Some(Code::KeyK)
    } else if n == "KeyL"@ {
        Some(Code::KeyL)
    } else if n == "KeyM"@ {
        Some(Code::KeyM)
    } else if n == "KeyN"@ {
        Some(Code::KeyN)
    } else if n == "KeyO"@ {
        Some(Code::KeyO)
    } else if n == "KeyP"@ {
        Some(Code::KeyP)
    } else if n == "KeyQ"@ {
        Some(Code::KeyQ)
    } else if n == "KeyR"@ {
        Some(Code::KeyR)
    } else if n == "KeyS"@ {
        Some(Code::KeyS)
    } else if n == "KeyT"@ {
        Some(Code::KeyT)
    } else if n == "KeyU"@ {
        Some(Code::KeyU)
    } else if n == "KeyV"@ {
        Some(Code::KeyV)
    } else if n == "KeyW"@ {
        Some(Code::KeyW)
    } else if n == "KeyX"@ {
        Some(Code::KeyX)
    } else if n == "KeyY"@ {
        Some(Code::KeyY)
    } else if n == "KeyZ"@ {
        Some(Code::KeyZ)
    } else if n == "F1"@ {
        Some(Code::F1)
    } else if n == "F2"@ {
        Some(Code::F2)
    } else if n == "F3"@ {
        Some(Code::F3)
    } else if n == "F4"@ {
        Some(Code::F4)
    } else if n == "F5"@ {
        Some(Code::F5)
    } else if n == "F6"@ {
        Some(Code::F6)
    } else if n == "F7"@ {
        Some(Code::F7)
    } else if n == "F8"@ {
        Some(Code::F8)
    } else if n == "F9"@ {
        Some(Code::F9)
    } else if n == "F10"@ {
        Some(Code::F10)
    } else if n == "F11"@ {
        Some(Code::F11)
    } else if n == "F12"@ {
        Some(Code::F12)
    } else if n == "Semicolon"@ {
        Some(Code::Semicolon)
    } else if n == "Quote"@ {
        Some(Code::Quote)
    } else if n == "Comma"@ {
        Some(Code::Comma)
    } else if n == "Period"@ {
        Some(Code::Period)
    } else if n == "Slash"@ {
        Some(Code::Slash)
    } else if n == "Backslash"@ {
        Some(Code::Backslash)
    } else if n == "Backquote"@ {
        Some(Code::Backquote)
    } else if n == "Space"@ {
        Some(Code::Space)
    } else {
        None
    }
}

fn find_key(n: &[char]) -> (r: Option<Code>)
    ensures
        r == key_named(n@),
{
    if spells(n, "KeyA") {
        Some(Code::KeyA)
    } else if spells(n, "KeyB") {
        Some(Code::KeyB)
    } else if spells(n, "KeyC") {
        Some(Code::KeyC)
    } else if spells(n, "KeyD") {
        Some(Code::KeyD)
    } else if spells(n, "KeyE") {
        Some(Code::KeyE)
    } else if spells(n, "KeyF") {
        Some(Code::KeyF)
    } else if spells(n, "KeyG") {
        Some(Code::KeyG)
    } else if spells(n, "KeyH") {
        Some(Code::KeyH)
    } else if spells(n, "KeyI") {
        Some(Code::KeyI)
    } else if spells(n, "KeyJ") {
        Some(Code::KeyJ)
    } else if spells(n, "KeyK") {
        Some(Code::KeyK)
    } else if spells(n, "KeyL") {
        Some(Code::KeyL)
    } else if spells(n, "KeyM") {
        Some(Code::KeyM)
    } else if spells(n, "KeyN") {
        Some(Code::KeyN)
    } else if spells(n, "KeyO") {
        Some(Code::KeyO)
    } else if spells(n, "KeyP") {
        Some(Code::KeyP)
    } else if spells(n, "KeyQ") {
        Some(Code::KeyQ)
    } else if spells(n, "KeyR") {
        Some(Code::KeyR)
    } else if spells(n, "KeyS") {
        Some(Code::KeyS)
    } else if spells(n, "KeyT") {
        Some(Code::KeyT)
    } else if spells(n, "KeyU") {
        Some(Code::KeyU)
    } else if spells(n, "KeyV") {
        Some(Code::KeyV)
    } else if spells(n, "KeyW") {
        Some(Code::KeyW)
    } else if spells(n, "KeyX") {
        Some(Code::KeyX)
    } else if spells(n, "KeyY") {
        Some(Code::KeyY)
    } else if spells(n, "KeyZ") {
        Some(Code::KeyZ)
    } else if spells(n, "F1") {
        Some(Code::F1)
    } else if spells(n, "F2") {
        Some(Code::F2)
    } else if spells(n, "F3") {
        Some(Code::F3)
    } else if spells(n, "F4") {
        Some(Code::F4)
    } else if spells(n, "F5") {
        Some(Code::F5)
    } else if spells(n, "F6") {
        Some(Code::F6)
    } else if spells(n, "F7") {
        Some(Code::F7)
    } else if spells(n, "F8") {
        Some(Code::F8)
    } else if spells(n, "F9") {
        Some(Code::F9)
    } else if spells(n, "F10") {
        Some(Code::F10)
    } else if spells(n, "F11") {
        Some(Code::F11)
    } else if spells(n, "F12") {
        Some(Code::F12)
    } else if spells(n, "Semicolon") {
        Some(Code::Semicolon)
    } else if spells(n, "Quote") {
        Some(Code::Quote)
    } else if spells(n, "Comma") {
        Some(Code::Comma)
    } else if spells(n, "Period") {
        Some(Code::Period)
    } else if spells(n, "Slash") {
        Some(Code::Slash)
    } else if spells(n, "Backslash") {
        Some(Code::Backslash)
    } else if spells(n, "Backquote") {
        Some(Code::Backquote)
    } else if spells(n, "Space") {
        Some(Code::Space)
    } else {
        None
    }
}

/// The key that the value of an environment variable names; `default` where it
/// is not set or names no key.
pub fn parse_key_env(raw: Option<&str>, default: Code) -> (c: Code)
    ensures
        c == match raw {
            None => default,
            Some(s) => match key_named(full_name(s@)) {
                Some(k) => k,
                None => default,
            },
        },
{
    let s = match raw {
        None => {
            return default;
        },
        Some(s) => s,
    };
    let chars = chars_of(s);
    let t = trim(chars.as_slice());
    let mut name = crate::text::copy_range(t, 0, t.len());
    assert(name@ =~= t@);
    if t.len() == 1 {
        let n: u32 = t[0] as u32;
        if (0x41 <= n && n <= 0x5a) || (0x61 <= n && n <= 0x7a) {
            name = chars_of("Key");
            if 0x61 <= n && n <= 0x7a {
                name.push((n as u8 - 0x20u8) as char);
            } else {
                name.push(t[0]);
            }
        }
    }
    assert(name@ =~= full_name(s@));
    match find_key(name.as_slice()) {
        Some(k) => k,
        None => default,
    }
}

/// The name of a key.
pub open spec fn name_of(c: Code) -> Seq<char> {
    match c {
        Code::KeyA => "KeyA"@,
        Code::KeyB => "KeyB"@,
        Code::KeyC => "KeyC"@,
        Code::KeyD => "KeyD"@,
        Code::KeyE => "KeyE"@,
        Code::KeyF => "KeyF"@,
        Code::KeyG => "KeyG"@,
        Code::KeyH => "KeyH"@,
        Code::KeyI => "KeyI"@,
        Code::KeyJ => "KeyJ"@,
        Code::KeyK => "KeyK"@,
        Code::KeyL => "KeyL"@,
        Code::KeyM => "KeyM"@,
        Code::KeyN => "KeyN"@,
        Code::KeyO => "KeyO"@,
        Code::KeyP => "KeyP"@,
        Code::KeyQ => "KeyQ"@,
        Code::KeyR => "KeyR"@,
        Code::KeyS => "KeyS"@,
        Code::KeyT => "KeyT"@,
        Code::KeyU => "KeyU"@,
        Code::KeyV => "KeyV"@,
        Code::KeyW => "KeyW"@,
        Code::KeyX => "KeyX"@,
        Code::KeyY => "KeyY"@,
        Code::KeyZ => "KeyZ"@,
        Code::F1 => "F1"@,
        Code::F2 => "F2"@,
        Code::F3 => "F3"@,
        Code::F4 => "F4"@,
        Code::F5 => "F5"@,
        Code::F6 => "F6"@,
        Code::F7 => "F7"@,
        Code::F8 => "F8"@,
        Code::F9 => "F9"@,
        Code::F10 => "F10"@,
        Code::F11 => "F11"@,
        Code::F12 => "F12"@,
        Code::Semicolon => "Semicolon"@,
        Code::Quote => "Quote"@,
        Code::Comma => "Comma"@,
        Code::Period => "Period"@,
        Code::Slash => "Slash"@,
        Code::Backslash => "Backslash"@,
        Code::Backquote => "Backquote"@,
        Code::Space => "Space"@,
    }
}

/// Every key is found under its own name, and under no other.
pub proof fn law_keys_are_found_by_name(c: Code, n: Seq<char>)
    ensures
        key_named(name_of(c)) == Some(c),
        key_named(n) matches Some(k) ==> n == name_of(k),
{
    reveal_strlit("KeyA");
    assert("KeyA"@.len() == 4 && "KeyA"@[0] == 'K' && "KeyA"@[1] == 'e' && "KeyA"@[3] == 'A');
    reveal_strlit("KeyB");
    assert("KeyB"@.len() == 4 && "KeyB"@[0] == 'K' && "KeyB"@[1] == 'e' && "KeyB"@[3] == 'B');
    reveal_strlit("KeyC");
    assert("KeyC"@.len() == 4 && "KeyC"@[0] == 'K' && "KeyC"@[1] == 'e' && "KeyC"@[3] == 'C');
    reveal_strlit("KeyD");
    assert("KeyD"@.len() == 4 && "KeyD"@[0] == 'K' && "KeyD"@[1] == 'e' && "KeyD"@[3] == 'D');
    reveal_strlit("KeyE");
    assert("KeyE"@.len() == 4 && "KeyE"@[0] == 'K' && "KeyE"@[1] == 'e' && "KeyE"@[3] == 'E');
    reveal_strlit("KeyF");
    assert("KeyF"@.len() == 4 && "KeyF"@[0] == 'K' && "KeyF"@[1] == 'e' && "KeyF"@[3] == 'F');
    reveal_strlit("KeyG");
    assert("KeyG"@.len() == 4 && "KeyG"@[0] == 'K' && "KeyG"@[1] == 'e' && "KeyG"@[3] == 'G');
    reveal_strlit("KeyH");
    assert("KeyH"@.len() == 4 && "KeyH"@[0] == 'K' && "KeyH"@[1] == 'e' && "KeyH"@[3] == 'H');
    reveal_strlit("KeyI");
    assert("KeyI"@.len() == 4 && "KeyI"@[0] == 'K' && "KeyI"@[1] == 'e' && "KeyI"@[3] == 'I');
    reveal_strlit("KeyJ");
    assert("KeyJ"@.len() == 4 && "KeyJ"@[0] == 'K' && "KeyJ"@[1] == 'e' && "KeyJ"@[3] == 'J');
    reveal_strlit("KeyK");
    assert("KeyK"@.len() == 4 && "KeyK"@[0] == 'K' && "KeyK"@[1] == 'e' && "KeyK"@[3] == 'K');
    reveal_strlit("KeyL");
    assert("KeyL"@.len() == 4 && "KeyL"@[0] == 'K' && "KeyL"@[1] == 'e' && "KeyL"@[3] == 'L');
    reveal_strlit("KeyM");
    assert("KeyM"@.len() == 4 && "KeyM"@[0] == 'K' && "KeyM"@[1] == 'e' && "KeyM"@[3] == 'M');
    reveal_strlit("KeyN");
    assert("KeyN"@.len() == 4 && "KeyN"@[0] == 'K' && "KeyN"@[1] == 'e' && "KeyN"@[3] == 'N');
    reveal_strlit("KeyO");
    assert("KeyO"@.len() == 4 && "KeyO"@[0] == 'K' && "KeyO"@[1] == 'e' && "KeyO"@[3] == 'O');
    reveal_strlit("KeyP");
    assert("KeyP"@.len() == 4 && "KeyP"@[0] == 'K' && "KeyP"@[1] == 'e' && "KeyP"@[3] == 'P');
    reveal_strlit("KeyQ");
    assert("KeyQ"@.len() == 4 && "KeyQ"@[0] == 'K' && "KeyQ"@[1] == 'e' && "KeyQ"@[3] == 'Q');
    reveal_strlit("KeyR");
    assert("KeyR"@.len() == 4 && "KeyR"@[0] == 'K' && "KeyR"@[1] == 'e' && "KeyR"@[3] == 'R');
    reveal_strlit("KeyS");
    assert("KeyS"@.len() == 4 && "KeyS"@[0] == 'K' && "KeyS"@[1] == 'e' && "KeyS"@[3] == 'S');
    reveal_strlit("KeyT");
    assert("KeyT"@.len() == 4 && "KeyT"@[0] == 'K' && "KeyT"@[1] == 'e' && "KeyT"@[3] == 'T');
    reveal_strlit("KeyU");
    assert("KeyU"@.len() == 4 && "KeyU"@[0] == 'K' && "KeyU"@[1] == 'e' && "KeyU"@[3] == 'U');
    reveal_strlit("KeyV");
    assert("KeyV"@.len() == 4 && "KeyV"@[0] == 'K' && "KeyV"@[1] == 'e' && "KeyV"@[3] == 'V');
    reveal_strlit("KeyW");
    assert("KeyW"@.len() == 4 && "KeyW"@[0] == 'K' && "KeyW"@[1] == 'e' && "KeyW"@[3] == 'W');
    reveal_strlit("KeyX");
    assert("KeyX"@.len() == 4 && "KeyX"@[0] == 'K' && "KeyX"@[1] == 'e' && "KeyX"@[3] == 'X');
    reveal_strlit("KeyY");
    assert("KeyY"@.len() == 4 && "KeyY"@[0] == 'K' && "KeyY"@[1] == 'e' && "KeyY"@[3] == 'Y');
    reveal_strlit("KeyZ");
    assert("KeyZ"@.len() == 4 && "KeyZ"@[0] == 'K' && "KeyZ"@[1] == 'e' && "KeyZ"@[3] == 'Z');
    reveal_strlit("F1");
    assert("F1"@.len() == 2 && "F1"@[0] == 'F' && "F1"@[1] == '1');
    reveal_strlit("F2");
    assert("F2"@.len() == 2 && "F2"@[0] == 'F' && "F2"@[1] == '2');
    reveal_strlit("F3");
    assert("F3"@.len() == 2 && "F3"@[0] == 'F' && "F3"@[1] == '3');
    reveal_strlit("F4");
    assert("F4"@.len() == 2 && "F4"@[0] == 'F' && "F4"@[1] == '4');
    reveal_strlit("F5");
    assert("F5"@.len() == 2 && "F5"@[0] == 'F' && "F5"@[1] == '5');
    reveal_strlit("F6");
    assert("F6"@.len() == 2 && "F6"@[0] == 'F' && "F6"@[1] == '6');
    reveal_strlit("F7");
    assert("F7"@.len() == 2 && "F7"@[0] == 'F' && "F7"@[1] == '7');
    reveal_strlit("F8");
    assert("F8"@.len() == 2 && "F8"@[0] == 'F' && "F8"@[1] == '8');
    reveal_strlit("F9");
    assert("F9"@.len() == 2 && "F9"@[0] == 'F' && "F9"@[1] == '9');
    reveal_strlit("F10");
    assert("F10"@.len() == 3 && "F10"@[0] == 'F' && "F10"@[1] == '1' && "F10"@[2] == '0');
    reveal_strlit("F11");
    assert("F11"@.len() == 3 && "F11"@[0] == 'F' && "F11"@[1] == '1' && "F11"@[2] == '1');
    reveal_strlit("F12");
    assert("F12"@.len() == 3 && "F12"@[0] == 'F' && "F12"@[1] == '1' && "F12"@[2] == '2');
    reveal_strlit("Semicolon");
    assert("Semicolon"@.len() == 9 && "Semicolon"@[0] == 'S' && "Semicolon"@[1] == 'e' && "Semicolon"@[3] == 'i' && "Semicolon"@[4] == 'c' && "Semicolon"@[8] == 'n');
    reveal_strlit("Quote");
    assert("Quote"@.len() == 5 && "Quote"@[0] == 'Q' && "Quote"@[1] == 'u' && "Quote"@[3] == 't' && "Quote"@[4] == 'e');
    reveal_strlit("Comma");
    assert("Comma"@.len() == 5 && "Comma"@[0] == 'C' && "Comma"@[1] == 'o' && "Comma"@[3] == 'm' && "Comma"@[4] == 'a');
    reveal_strlit("Period");
    assert("Period"@.len() == 6 && "Period"@[0] == 'P' && "Period"@[1] == 'e' && "Period"@[3] == 'i' && "Period"@[4] == 'o' && "Period"@[5] == 'd');
    reveal_strlit("Slash");
    assert("Slash"@.len() == 5 && "Slash"@[0] == 'S' && "Slash"@[1] == 'l' && "Slash"@[3] == 's' && "Slash"@[4] == 'h');
    reveal_strlit("Backslash");
    assert("Backslash"@.len() == 9 && "Backslash"@[0] == 'B' && "Backslash"@[1] == 'a' && "Backslash"@[3] == 'k' && "Backslash"@[4] == 's' && "Backslash"@[8] == 'h');
    reveal_strlit("Backquote");
    assert("Backquote"@.len() == 9 && "Backquote"@[0] == 'B' && "Backquote"@[1] == 'a' && "Backquote"@[3] == 'k' && "Backquote"@[4] == 'q' && "Backquote"@[8] == 'e');
    reveal_strlit("Space");
    assert("Space"@.len() == 5 && "Space"@[0] == 'S' && "Space"@[1] == 'p' && "Space"@[3] == 'c' && "Space"@[4] == 'e');
}

/// A letter by itself, in either case, names the key of that letter; any other
/// name stands for itself. White space around it does not matter.
pub proof fn law_letters_name_their_keys(a: Seq<char>, n: Seq<char>, b: Seq<char>)
    requires
        forall|k: int| 0 <= k < a.len() ==> text::is_space_spec(#[trigger] a[k]),
        forall|k: int| 0 <= k < b.len() ==> text::is_space_spec(#[trigger] b[k]),
        n.len() > 0,
        !text::is_space_spec(n[0]) && !text::is_space_spec(n.last()),
    ensures
        n.len() == 1 && 'A' <= n[0] <= 'Z' ==> full_name(a + n + b) == "Key"@ + n,
        n.len() == 1 && 'a' <= n[0] <= 'z' ==> {
            let f = full_name(a + n + b);
            f.len() == 4 && f.take(3) == "Key"@ && f[3] as u32 + 32 == n[0] as u32
        },
        n.len() > 1 ==> full_name(a + n + b) == n,
{
    reveal_strlit("Key");
    text::law_trim_takes_the_space_around(a, n, b);
    let f = full_name(a + n + b);
    let c: char = n[0];
    if n.len() == 1 && 'A' <= c <= 'Z' {
        assert(is_letter(c) && upper(c) == c);
        assert(f =~= "Key"@ + n);
    }
    if n.len() == 1 && 'a' <= c <= 'z' {
        assert(is_letter(c));
        assert(f.take(3) =~= "Key"@);
    }
}

} // verus!
