//! Little-endian bytes and mono 16-bit PCM in a WAV container.

use vstd::prelude::*;

verus! {

/// `x` in two bytes, the low one first.
pub open spec fn le16(x: int) -> Seq<u8> {
    seq![(x % 256) as u8, (x / 256 % 256) as u8]
}

/// `x` in four bytes, the low one first.
pub open spec fn le32(x: int) -> Seq<u8> {
    seq![
        (x % 256) as u8,
        (x / 256 % 256) as u8,
        (x / 65536 % 256) as u8,
        (x / 16777216 % 256) as u8,
    ]
}

/// The number in two bytes, the low one first.
pub open spec fn from_le16(b: Seq<u8>) -> int {
    b[0] + 256 * b[1]
}

/// The number in four bytes, the low one first.
pub open spec fn from_le32(b: Seq<u8>) -> int {
    b[0] + 256 * b[1] + 65536 * b[2] + 16777216 * b[3]
}

/// The two's complement of a sample.
pub open spec fn unsigned16(v: i16) -> int {
    if v < 0 {
        v + 65536
    } else {
        v as int
    }
}

/// What is written as four bytes reads back.
pub proof fn law_le32_reads_back(x: u32)
    ensures
        from_le32(le32(x as int)) == x,
{
}

/// What is written as two bytes reads back.
pub proof fn law_le16_reads_back(x: u16)
    ensures
        from_le16(le16(x as int)) == x,
{
}

/// Appends `x` in two bytes.
pub fn push_le16(out: &mut Vec<u8>, x: u16)
    ensures
        final(out)@ == old(out)@ + le16(x as int),
{
    out.push((x % 256) as u8);
    out.push((x / 256 % 256) as u8);
    assert(out@ =~= old(out)@ + le16(x as int));
}

/// Appends `x` in four bytes.
pub fn push_le32(out: &mut Vec<u8>, x: u32)
    ensures
        final(out)@ == old(out)@ + le32(x as int),
{
    out.push((x % 256) as u8);
    out.push((x / 256 % 256) as u8);
    out.push((x / 65536 % 256) as u8);
    out.push((x / 16777216 % 256) as u8);
    assert(out@ =~= old(out)@ + le32(x as int));
}

/// The number that the four bytes at `at` hold.
pub fn read_le32(b: &[u8], at: usize) -> (x: u32)
    requires
        at + 4 <= b@.len(),
    ensures
        x == from_le32(b@.subrange(at as int, at + 4)),
{
    b[at] as u32 + 256 * (b[at + 1] as u32) + 65536 * (b[at + 2] as u32) + 16777216 * (b[at
        + 3] as u32)
}

/// The samples as bytes, each in two, the low one first.
pub open spec fn pcm_bytes(s: Seq<i16>) -> Seq<u8>
    decreases s.len(),
{
    if s.len() == 0 {
        Seq::empty()
    } else {
        pcm_bytes(s.drop_last()) + le16(unsigned16(s.last()))
    }
}

/// `RIFF`, `WAVE`, `fmt ` and `data` in ASCII.
pub open spec fn tag_riff() -> Seq<u8> {
    seq![0x52u8, 0x49, 0x46, 0x46]
}

pub open spec fn tag_wave() -> Seq<u8> {
    seq![0x57u8, 0x41, 0x56, 0x45]
}

pub open spec fn tag_fmt() -> Seq<u8> {
    seq![0x66u8, 0x6d, 0x74, 0x20]
}

pub open spec fn tag_data() -> Seq<u8> {
    seq![0x64u8, 0x61, 0x74, 0x61]
}

/// The 44 bytes before the samples: the size of the rest of the file, then the
/// format (PCM, one channel, the rate, bytes per second, bytes per frame, bits
/// per sample), then the size of the samples.
pub open spec fn wav_header(samples: int, rate: int) -> Seq<u8> {
    tag_riff() + le32(36 + 2 * samples) + tag_wave() + tag_fmt() + le32(16) + le16(1) + le16(1)
        + le32(rate) + le32(2 * rate) + le16(2) + le16(16) + tag_data() + le32(2 * samples)
}

/// A mono 16-bit PCM file.
pub open spec fn wav_file(s: Seq<i16>, rate: int) -> Seq<u8> {
    wav_header(s.len() as int, rate) + pcm_bytes(s)
}

fn push_tag(out: &mut Vec<u8>, a: u8, b: u8, c: u8, d: u8)
    ensures
        final(out)@ == old(out)@ + seq![a, b, c, d],
{
    out.push(a);
    out.push(b);
    out.push(c);
    out.push(d);
    assert(out@ =~= old(out)@ + seq![a, b, c, d]);
}

/// Encodes samples as a mono 16-bit PCM WAV file.
pub fn encode_pcm16_wav(samples: &[i16], sample_rate: u32) -> (out: Vec<u8>)
    requires
        36 + 2 * samples@.len() <= u32::MAX,
        2 * sample_rate <= u32::MAX,
    ensures
        out@ == wav_file(samples@, sample_rate as int),
{
    let n: u32 = samples.len() as u32;
    let mut out: Vec<u8> = Vec::new();
    push_tag(&mut out, 0x52, 0x49, 0x46, 0x46);
    push_le32(&mut out, 36 + 2 * n);
    push_tag(&mut out, 0x57, 0x41, 0x56, 0x45);
    push_tag(&mut out, 0x66, 0x6d, 0x74, 0x20);
    push_le32(&mut out, 16);
    push_le16(&mut out, 1);
    push_le16(&mut out, 1);
    push_le32(&mut out, sample_rate);
    push_le32(&mut out, 2 * sample_rate);
    push_le16(&mut out, 2);
    push_le16(&mut out, 16);
    push_tag(&mut out, 0x64, 0x61, 0x74, 0x61);
    push_le32(&mut out, 2 * n);
    let ghost header = wav_header(n as int, sample_rate as int);
    assert(out@ =~= header);
    let mut i: usize = 0;
    assert(samples@.take(0) =~= Seq::<i16>::empty());
    assert(out@ =~= header + pcm_bytes(samples@.take(0)));
    while i < samples.len()
        invariant
            i <= samples@.len(),
            out@ == header + pcm_bytes(samples@.take(i as int)),
        decreases samples@.len() - i,
    {
        let v: i16 = samples[i];
        let u: u16 = if v < 0 {
            (v as i32 + 65536) as u16
        } else {
            v as u16
        };
        proof {
            let t = samples@.take(i + 1);
            assert(t.drop_last() =~= samples@.take(i as int));
            assert(t.last() == v);
        }
        let ghost before = out@;
        push_le16(&mut out, u);
        assert(out@ =~= header + (pcm_bytes(samples@.take(i as int)) + le16(u as int)));
        i += 1;
    }
    assert(samples@.take(i as int) =~= samples@);
    out
}

/// The 16 kHz mono file that speech recognition takes.
pub fn encode_wav_16khz(samples: &[i16]) -> (out: Vec<u8>)
    requires
        36 + 2 * samples@.len() <= u32::MAX,
    ensures
        out@ == wav_file(samples@, 16_000),
{
    encode_pcm16_wav(samples, 16_000)
}

proof fn lemma_pcm_bytes(s: Seq<i16>)
    ensures
        pcm_bytes(s).len() == 2 * s.len(),
        forall|i: int|
            0 <= i < s.len() ==> pcm_bytes(s).subrange(2 * i, 2 * i + 2) == le16(
                unsigned16(#[trigger] s[i]),
            ),
    decreases s.len(),
{
    if s.len() > 0 {
        let t = s.drop_last();
        lemma_pcm_bytes(t);
        assert forall|i: int| 0 <= i < s.len() implies pcm_bytes(s).subrange(2 * i, 2 * i + 2)
            == le16(unsigned16(#[trigger] s[i])) by {
            if i < t.len() {
                assert(s[i] == t[i]);
                assert(pcm_bytes(s).subrange(2 * i, 2 * i + 2) =~= pcm_bytes(t).subrange(
                    2 * i,
                    2 * i + 2,
                ));
            } else {
                assert(pcm_bytes(s).subrange(2 * i, 2 * i + 2) =~= le16(unsigned16(s[i])));
            }
        }
    }
}

/// Where the header holds the rate and the size of the samples.
proof fn lemma_wav_header(samples: int, rate: int)
    ensures
        wav_header(samples, rate).len() == 44,
        wav_header(samples, rate).subrange(24, 28) == le32(rate),
        wav_header(samples, rate).subrange(40, 44) == le32(2 * samples),
{
    let first = tag_riff() + le32(36 + 2 * samples) + tag_wave() + tag_fmt() + le32(16) + le16(1)
        + le16(1);
    let second = le32(2 * rate) + le16(2) + le16(16) + tag_data();
    assert(first.len() == 24);
    assert(second.len() == 12);
    let h = first + le32(rate) + second + le32(2 * samples);
    assert(wav_header(samples, rate) =~= h);
    assert(h.subrange(24, 28) =~= le32(rate));
    assert(h.subrange(40, 44) =~= le32(2 * samples));
}

proof fn lemma_subrange_of_sum(h: Seq<u8>, p: Seq<u8>, i: int, j: int)
    requires
        0 <= i <= j,
        j <= h.len() || (h.len() <= i && j <= h.len() + p.len()),
    ensures
        j <= h.len() ==> (h + p).subrange(i, j) == h.subrange(i, j),
        h.len() <= i && j <= h.len() + p.len() ==> (h + p).subrange(i, j) == p.subrange(
            i - h.len(),
            j - h.len(),
        ),
{
    if j <= h.len() {
        assert((h + p).subrange(i, j) =~= h.subrange(i, j));
    }
    if h.len() <= i && j <= h.len() + p.len() {
        assert((h + p).subrange(i, j) =~= p.subrange(i - h.len(), j - h.len()));
    }
}

/// A file holds what its header says: the rate at byte 24, the size of the
/// samples at byte 40, that many bytes after the 44 of the header, and in them
/// every sample in order.
pub proof fn law_wav_reads_back(s: Seq<i16>, rate: int)
    requires
        36 + 2 * s.len() <= u32::MAX,
        0 <= rate,
        2 * rate <= u32::MAX,
    ensures
        wav_file(s, rate).len() == 44 + 2 * s.len(),
        from_le32(wav_file(s, rate).subrange(24, 28)) == rate,
        from_le32(wav_file(s, rate).subrange(40, 44)) == 2 * s.len(),
        forall|i: int|
            0 <= i < s.len() ==> from_le16(wav_file(s, rate).subrange(44 + 2 * i, 46 + 2 * i))
                == unsigned16(#[trigger] s[i]),
{
    let h = wav_header(s.len() as int, rate);
    let p = pcm_bytes(s);
    lemma_wav_header(s.len() as int, rate);
    lemma_pcm_bytes(s);
    lemma_subrange_of_sum(h, p, 24, 28);
    lemma_subrange_of_sum(h, p, 40, 44);
    law_le32_reads_back(rate as u32);
    law_le32_reads_back((2 * s.len()) as u32);
    assert forall|i: int| 0 <= i < s.len() implies from_le16(
        wav_file(s, rate).subrange(44 + 2 * i, 46 + 2 * i),
    ) == unsigned16(#[trigger] s[i]) by {
        lemma_subrange_of_sum(h, p, 44 + 2 * i, 46 + 2 * i);
        assert(p.subrange(2 * i, 2 * i + 2) == le16(unsigned16(s[i])));
        law_le16_reads_back(unsigned16(s[i]) as u16);
    }
}

/// Numbers are written with the low byte first.
pub proof fn law_low_byte_first(a: u8, b: u8, c: u8, d: u8)
    ensures
        le16(a + 256 * b) == seq![a, b],
        le32(a + 256 * b + 65536 * c + 16777216 * d) == seq![a, b, c, d],
        from_le16(seq![a, b]) == a + 256 * b,
        from_le32(seq![a, b, c, d]) == a + 256 * b + 65536 * c + 16777216 * d,
{
    let z = d as int;
    let y = c + 256 * z;
    let w = b + 256 * y;
    let x = a + 256 * w;
    assert(x % 256 == a && x / 256 == w);
    assert(w % 256 == b && w / 256 == y);
    assert(y % 256 == c && y / 256 == z);
    assert(x / 65536 == y);
    assert(x / 16777216 == z);
    let v = a + 256 * b;
    assert(v % 256 == a && v / 256 == b);
    assert(le16(a + 256 * b) =~= seq![a, b]);
    assert(le32(x) =~= seq![a, b, c, d]);
}

/// The head of a file names its parts and says that it is PCM of one channel
/// with 16 bits a sample: the size of all that follows it, the rate, the bytes
/// of a second and of a frame, and the size of the samples.
pub proof fn law_wav_head(s: Seq<i16>, rate: int)
    requires
        36 + 2 * s.len() <= u32::MAX,
        0 <= rate,
        2 * rate <= u32::MAX,
    ensures
        ({
            let f = wav_file(s, rate);
            &&& f.len() == 44 + 2 * s.len()
            &&& f.subrange(0, 4) == seq!['R' as u8, 'I' as u8, 'F' as u8, 'F' as u8]
            &&& from_le32(f.subrange(4, 8)) == f.len() - 8
            &&& f.subrange(8, 12) == seq!['W' as u8, 'A' as u8, 'V' as u8, 'E' as u8]
            &&& f.subrange(12, 16) == seq!['f' as u8, 'm' as u8, 't' as u8, ' ' as u8]
            &&& from_le32(f.subrange(16, 20)) == 16
            &&& from_le16(f.subrange(20, 22)) == 1
            &&& from_le16(f.subrange(22, 24)) == 1
            &&& from_le32(f.subrange(24, 28)) == rate
            &&& from_le32(f.subrange(28, 32)) == 2 * rate
            &&& from_le16(f.subrange(32, 34)) == 2
            &&& from_le16(f.subrange(34, 36)) == 16
            &&& f.subrange(36, 40) == seq!['d' as u8, 'a' as u8, 't' as u8, 'a' as u8]
            &&& from_le32(f.subrange(40, 44)) == 2 * s.len()
        }),
{
    law_wav_reads_back(s, rate);
    let n = s.len() as int;
    let h = wav_header(n, rate);
    let p = pcm_bytes(s);
    lemma_wav_header(n, rate);
    lemma_wav_tags(n, rate);
    lemma_wav_format(n, rate);
    lemma_subrange_of_sum(h, p, 0, 4);
    lemma_subrange_of_sum(h, p, 4, 8);
    lemma_subrange_of_sum(h, p, 8, 12);
    lemma_subrange_of_sum(h, p, 12, 16);
    lemma_subrange_of_sum(h, p, 16, 20);
    lemma_subrange_of_sum(h, p, 20, 22);
    lemma_subrange_of_sum(h, p, 22, 24);
    lemma_subrange_of_sum(h, p, 28, 32);
    lemma_subrange_of_sum(h, p, 32, 34);
    lemma_subrange_of_sum(h, p, 34, 36);
    lemma_subrange_of_sum(h, p, 36, 40);
    law_le32_reads_back((36 + 2 * n) as u32);
    law_le32_reads_back(16);
    law_le32_reads_back((2 * rate) as u32);
    law_le16_reads_back(1);
    law_le16_reads_back(2);
    law_le16_reads_back(16);
}

proof fn lemma_wav_tags(samples: int, rate: int)
    ensures
        ({
            let h = wav_header(samples, rate);
            &&& h.subrange(0, 4) == seq!['R' as u8, 'I' as u8, 'F' as u8, 'F' as u8]
            &&& h.subrange(4, 8) == le32(36 + 2 * samples)
            &&& h.subrange(8, 12) == seq!['W' as u8, 'A' as u8, 'V' as u8, 'E' as u8]
            &&& h.subrange(12, 16) == seq!['f' as u8, 'm' as u8, 't' as u8, ' ' as u8]
            &&& h.subrange(36, 40) == seq!['d' as u8, 'a' as u8, 't' as u8, 'a' as u8]
        }),
{
    let size = le32(36 + 2 * samples);
    let mid = le32(16) + le16(1) + le16(1) + le32(rate) + le32(2 * rate) + le16(2) + le16(16);
    let rest = le32(2 * samples);
    assert(mid.len() == 20);
    let h = tag_riff() + size + tag_wave() + tag_fmt() + mid + tag_data() + rest;
    assert(wav_header(samples, rate) =~= h);
    assert(h.subrange(0, 4) =~= tag_riff());
    assert(h.subrange(4, 8) =~= size);
    assert(h.subrange(8, 12) =~= tag_wave());
    assert(h.subrange(12, 16) =~= tag_fmt());
    assert(h.subrange(36, 40) =~= tag_data());
    assert(tag_riff() =~= seq!['R' as u8, 'I' as u8, 'F' as u8, 'F' as u8]);
    assert(tag_wave() =~= seq!['W' as u8, 'A' as u8, 'V' as u8, 'E' as u8]);
    assert(tag_fmt() =~= seq!['f' as u8, 'm' as u8, 't' as u8, ' ' as u8]);
    assert(tag_data() =~= seq!['d' as u8, 'a' as u8, 't' as u8, 'a' as u8]);
}

proof fn lemma_wav_format(samples: int, rate: int)
    ensures
        ({
            let h = wav_header(samples, rate);
            &&& h.subrange(16, 20) == le32(16)
            &&& h.subrange(20, 22) == le16(1)
            &&& h.subrange(22, 24) == le16(1)
            &&& h.subrange(28, 32) == le32(2 * rate)
            &&& h.subrange(32, 34) == le16(2)
            &&& h.subrange(34, 36) == le16(16)
        }),
{
    let first = tag_riff() + le32(36 + 2 * samples) + tag_wave() + tag_fmt();
    let last = tag_data() + le32(2 * samples);
    let (a, b, c, d) = (le32(16), le16(1), le32(rate), le32(2 * rate));
    let (e, f) = (le16(2), le16(16));
    assert(first.len() == 16);
    let h = first + a + b + b + c + d + e + f + last;
    assert(wav_header(samples, rate) =~= h);
    assert(h.subrange(16, 20) =~= a);
    assert(h.subrange(20, 22) =~= b);
    assert(h.subrange(22, 24) =~= b);
    assert(h.subrange(28, 32) =~= d);
    assert(h.subrange(32, 34) =~= e);
    assert(h.subrange(34, 36) =~= f);
}

/// A sample is written as itself where it is not negative, and as 65536 more
/// where it is.
pub proof fn law_samples_in_twos_complement(v: i16)
    ensures
        v >= 0 ==> unsigned16(v) == v,
        v < 0 ==> unsigned16(v) == 65536 + v,
        0 <= unsigned16(v) < 65536,
{
}

} // verus!
