use jarvis::hex::{cert_digest, decode_pairs, hex_nibble, DigestError, HexError};
use jarvis::ring::{extend, keep_last};
use jarvis::text::{
    decimal, ellipsize, find_from, is_blank, is_space, lines, same, take_chars, trimmed, words,
};
use jarvis::wav::{encode_pcm16_wav, encode_wav_16khz, read_le32};
use jarvis::wire::{LineBuffer, TtsFramer};
use std::collections::VecDeque;

fn chars(s: &str) -> Vec<char> {
    s.chars().collect()
}

#[test]
fn white_space_is_that_of_unicode() {
    for n in 0u32..=0x10ffff {
        if let Some(c) = char::from_u32(n) {
            assert_eq!(is_space(c), c.is_whitespace(), "{n:x}");
        }
    }
}

#[test]
fn text_is_trimmed_cut_and_compared() {
    assert_eq!(trimmed(" \u{a0}a b\n"), "a b");
    assert!(is_blank("\t \n"));
    assert!(!is_blank(" x "));
    assert_eq!(take_chars("héllo", 2), "hé");
    assert_eq!(ellipsize("abcdef", 3), "abc…");
    assert_eq!(ellipsize("abc", 3), "abc");
    assert!(same("ab", "ab"));
    assert!(!same("ab", "abc"));
    assert_eq!(decimal(0), "0");
    assert_eq!(decimal(18_446_744_073_709_551_615), "18446744073709551615");
    assert_eq!(find_from(&chars("a,b,c"), ',', 2), 3);
}

#[test]
fn lines_and_words_are_split() {
    let l: Vec<String> = lines(&chars("a\r\nb\n\nc"))
        .into_iter()
        .map(|v| v.into_iter().collect())
        .collect();
    assert_eq!(l, vec!["a", "b", "", "c"]);
    let w: Vec<String> = words(&chars("  a  bc\td "))
        .into_iter()
        .map(|v| v.into_iter().collect())
        .collect();
    assert_eq!(w, vec!["a", "bc", "d"]);
}

#[test]
fn hex_is_decoded_strictly_or_with_signs() {
    assert_eq!(hex_nibble(b'f'), Some(15));
    assert_eq!(hex_nibble(b'A'), Some(10));
    assert_eq!(hex_nibble(b'g'), None);
    assert_eq!(decode_pairs(" 00ffA0\n", false), Ok(vec![0, 255, 160]));
    assert_eq!(decode_pairs("abc", false), Err(HexError::OddLength));
    assert_eq!(decode_pairs("zz", false), Err(HexError::InvalidDigit));
    assert_eq!(decode_pairs("+f", true), Ok(vec![15]));
    assert_eq!(decode_pairs("+f", false), Err(HexError::InvalidDigit));
    assert_eq!(decode_pairs("é1", true), Err(HexError::OddLength));
}

#[test]
fn decoding_inverts_encoding() {
    let bytes: Vec<u8> = (0u8..=255).collect();
    let text: String = bytes.iter().map(|b| format!("{b:02x}")).collect();
    assert_eq!(decode_pairs(&text, false), Ok(bytes));
}

#[test]
fn digests_are_thirty_two_bytes() {
    let good = "ab".repeat(32);
    assert_eq!(cert_digest(&good, false), Ok(vec![0xab; 32]));
    assert_eq!(cert_digest("abcd", false), Err(DigestError::Length(2)));
    assert_eq!(
        cert_digest("abc", false),
        Err(DigestError::Hex(HexError::OddLength))
    );
}

#[test]
fn the_latest_are_kept() {
    let mut q: VecDeque<u8> = VecDeque::new();
    extend(&mut q, &[1, 2, 3]);
    keep_last(&mut q, 2);
    extend(&mut q, &[4]);
    keep_last(&mut q, 2);
    assert_eq!(q, VecDeque::from(vec![3, 4]));
}

#[test]
fn wav_header_writes_correct_sample_rate() {
    let samples: Vec<i16> = vec![0.1f32; 8000]
        .into_iter()
        .map(|s| (s * 32767.0) as i16)
        .collect();
    let wav = encode_wav_16khz(&samples);
    let sr = u32::from_le_bytes([wav[24], wav[25], wav[26], wav[27]]);
    assert_eq!(sr, 16_000);
}

#[test]
fn wav_reads_back() {
    let wav = encode_pcm16_wav(&[1, -1, 300], 24_000);
    assert_eq!(wav.len(), 44 + 6);
    assert_eq!(&wav[0..4], b"RIFF");
    assert_eq!(&wav[8..16], b"WAVEfmt ");
    assert_eq!(read_le32(&wav, 4), 36 + 6);
    assert_eq!(read_le32(&wav, 24), 24_000);
    assert_eq!(read_le32(&wav, 28), 48_000);
    assert_eq!(read_le32(&wav, 40), 6);
    assert_eq!(&wav[44..], &[1, 0, 255, 255, 44, 1]);
}

#[test]
fn lines_do_not_depend_on_chunks() {
    let text = b"one\ntwo\n\nthr";
    let mut whole = LineBuffer::new();
    let expected = whole.push(text);
    let mut piecewise = LineBuffer::new();
    let mut got: Vec<Vec<u8>> = Vec::new();
    for b in text.iter() {
        got.extend(piecewise.push(&[*b]));
    }
    assert_eq!(got, expected);
    assert_eq!(piecewise.push(b"ee\n"), whole.push(b"ee\n"));
}

#[test]
fn speech_samples_do_not_depend_on_chunks() {
    let mut bytes: Vec<u8> = 24_000u32.to_le_bytes().to_vec();
    for f in [0.5f32, -1.0, 0.25] {
        bytes.extend(f.to_le_bytes());
    }
    let mut whole = TtsFramer::new();
    let expected = whole.push(&bytes);
    let mut piecewise = TtsFramer::new();
    let mut got: Vec<u32> = Vec::new();
    for b in bytes.iter() {
        got.extend(piecewise.push(&[*b]));
    }
    assert_eq!(got, expected);
    assert_eq!(piecewise.sample_rate(), Some(24_000));
    let floats: Vec<f32> = got.into_iter().map(f32::from_bits).collect();
    assert_eq!(floats, vec![0.5, -1.0, 0.25]);
}

#[test]
fn a_rate_of_zero_is_still_a_rate() {
    let mut f = TtsFramer::new();
    assert!(f.push(&[0, 0, 0, 0]).is_empty());
    assert_eq!(f.sample_rate(), Some(0));
    assert_eq!(f.push(&[1, 0, 0, 0]), vec![1]);
    assert_eq!(f.sample_rate(), Some(0));
}
