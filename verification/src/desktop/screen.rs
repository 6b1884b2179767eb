//! A picture of the foreground window for the model: at most so large, as JPEG
//! in base64.

use base64::engine::general_purpose::STANDARD;
use base64::Engine;
use image::codecs::jpeg::JpegEncoder;
use image::imageops::FilterType;
use image::{ExtendedColorType, ImageBuffer, Rgba};
use vstd::prelude::*;

use crate::precision;

verus! {

/// The longest edge that is worth sending.
pub const MAX_LONG_EDGE: u32 = 1568;

/// The quality of the JPEG, from 1 to 100.
pub const JPEG_QUALITY: u8 = 85;

/// What `image::imageops::resize` makes of the pixels of a picture, with the
/// triangle filter: the pixels, the old width and height, the new width and
/// height.
pub uninterp spec fn resized(rgba: Seq<u8>, w: u32, h: u32, nw: u32, nh: u32) -> Seq<u8>;

/// What `image::codecs::jpeg::JpegEncoder` makes of the pixels of a picture:
/// the pixels, the width and height, the quality.
pub uninterp spec fn jpeg_of(rgb: Seq<u8>, w: u32, h: u32, quality: u8) -> Seq<u8>;

/// The character that stands for six bits in base64.
pub open spec fn base64_char(d: int) -> char {
    if d < 26 {
        (0x41 + d) as char
    } else if d < 52 {
        (0x61 + d - 26) as char
    } else if d < 62 {
        (0x30 + d - 52) as char
    } else if d == 62 {
        '+'
    } else {
        '/'
    }
}

/// The byte at `i`, zero after the end.
pub open spec fn byte_at(b: Seq<u8>, i: int) -> int {
    if 0 <= i < b.len() {
        b[i] as int
    } else {
        0
    }
}

/// Bytes in base64: four characters of six bits each for every three bytes,
/// with an equals sign for each that holds no bit of a byte.
pub open spec fn base64_of(b: Seq<u8>) -> Seq<char> {
    Seq::new(
        (4 * ((b.len() + 2) / 3)) as nat,
        |i: int|
            {
                let j = i / 4 * 3;
                let bits = 0x1_0000 * byte_at(b, j) + 0x100 * byte_at(b, j + 1) + byte_at(b, j + 2);
                if i % 4 == 0 {
                    base64_char(bits / 0x4_0000)
                } else if i % 4 == 1 {
                    base64_char(bits / 0x1000 % 64)
                } else if j + i % 4 > b.len() {
                    '='
                } else if i % 4 == 2 {
                    base64_char(bits / 64 % 64)
                } else {
                    base64_char(bits % 64)
                }
            },
    )
}

/// Whether the picture of the old width and the new height that scaling goes
/// through, sixteen bytes for each pixel, can be addressed.
pub open spec fn scaling_fits(w: u32, nh: u32) -> bool {
    16 * (w * nh) <= isize::MAX
}

/// `image::imageops::resize` with the triangle filter, on pixels of four bytes.
/// What comes out depends on the pixels and the sizes alone and has as many
/// pixels as the new size says.
#[verifier::external_body]
fn resize(rgba: Vec<u8>, w: u32, h: u32, nw: u32, nh: u32) -> (r: Option<Vec<u8>>)
    requires
        0 < w,
        0 < h,
        nw <= 65_535,
        nh <= 65_535,
        rgba@.len() == 4 * w * h,
        scaling_fits(w, nh),
    ensures
        r is Some,
        r matches Some(v) ==> v@ == resized(rgba@, w, h, nw, nh) && v@.len() == 4 * nw * nh,
{
    let img: ImageBuffer<Rgba<u8>, Vec<u8>> = ImageBuffer::from_raw(w, h, rgba)?;
    Some(image::imageops::resize(&img, nw, nh, FilterType::Triangle).into_raw())
}

/// Whether a picture can be a JPEG.
pub open spec fn has_jpeg_size(w: u32, h: u32) -> bool {
    1 <= w <= 65_535 && 1 <= h <= 65_535
}

/// `JpegEncoder::encode` into a vector, on pixels of three bytes: succeeds
/// exactly where width and height are between 1 and 65535, and what comes out
/// depends on the pixels, the size and the quality alone.
#[verifier::external_body]
fn jpeg(rgb: &[u8], w: u32, h: u32, quality: u8) -> (r: Option<Vec<u8>>)
    requires
        rgb@.len() == 3 * w * h,
    ensures
        r is Some <==> has_jpeg_size(w, h),
        r matches Some(v) ==> v@ == jpeg_of(rgb@, w, h, quality),
{
    let mut out: Vec<u8> = Vec::new();
    let mut encoder = JpegEncoder::new_with_quality(&mut out, quality);
    encoder.encode(rgb, w, h, ExtendedColorType::Rgb8).ok()?;
    Some(out)
}

/// `STANDARD.encode` of the `base64` crate: the bytes in base64, with the
/// standard alphabet and padding.
#[verifier::external_body]
fn base64_text(b: &[u8]) -> (s: String)
    requires
        4 * ((b@.len() + 2) / 3) <= usize::MAX,
    ensures
        s@ == base64_of(b@),
{
    STANDARD.encode(b)
}

/// Pixels as red, green, blue and full opacity, from blue, green, red and
/// anything.
pub open spec fn rgba_of(bgra: Seq<u8>) -> Seq<u8> {
    Seq::new(
        (bgra.len() / 4 * 4) as nat,
        |i: int|
            if i % 4 == 0 {
                bgra[i + 2]
            } else if i % 4 == 1 {
                bgra[i]
            } else if i % 4 == 2 {
                bgra[i - 2]
            } else {
                0xffu8
            },
    )
}

/// Turns pixels of blue, green, red and anything into pixels of red, green,
/// blue and full opacity. Bytes that make up no pixel are dropped.
pub fn to_rgba(bgra: &[u8]) -> (out: Vec<u8>)
    ensures
        out@ == rgba_of(bgra@),
{
    let n: usize = bgra.len() / 4;
    let mut out: Vec<u8> = Vec::new();
    let mut i: usize = 0;
    while i < n
        invariant
            i <= n == bgra@.len() / 4,
            bgra@.len() <= usize::MAX,
            out@ == rgba_of(bgra@).take(4 * i),
        decreases n - i,
    {
        out.push(bgra[4 * i + 2]);
        out.push(bgra[4 * i + 1]);
        out.push(bgra[4 * i]);
        out.push(0xff);
        assert(out@ =~= rgba_of(bgra@).take(4 * (i + 1)));
        i += 1;
    }
    assert(rgba_of(bgra@).take(4 * i) =~= rgba_of(bgra@));
    out
}

/// Pixels without their opacity.
pub open spec fn rgb_of(rgba: Seq<u8>) -> Seq<u8> {
    Seq::new((rgba.len() / 4 * 3) as nat, |i: int| rgba[i / 3 * 4 + i % 3])
}

/// Drops the opacity of pixels: JPEG has none.
pub fn to_rgb(rgba: &[u8]) -> (out: Vec<u8>)
    ensures
        out@ == rgb_of(rgba@),
{
    let n: usize = rgba.len() / 4;
    let mut out: Vec<u8> = Vec::new();
    let mut i: usize = 0;
    while i < n
        invariant
            i <= n == rgba@.len() / 4,
            rgba@.len() <= usize::MAX,
            out@ == rgb_of(rgba@).take(3 * i),
        decreases n - i,
    {
        out.push(rgba[4 * i]);
        out.push(rgba[4 * i + 1]);
        out.push(rgba[4 * i + 2]);
        assert(out@ =~= rgb_of(rgba@).take(3 * (i + 1)));
        i += 1;
    }
    assert(rgb_of(rgba@).take(3 * i) =~= rgb_of(rgba@));
    out
}

/// The longer of two edges.
pub open spec fn long_edge(w: u32, h: u32) -> u32 {
    if w < h {
        h
    } else {
        w
    }
}

/// An edge after the longer one was brought down to the cap: times the cap by
/// the longer edge, in single precision and to the nearest whole number.
pub open spec fn capped(edge: u32, long: u32) -> u32 {
    if long <= MAX_LONG_EDGE {
        edge
    } else {
        precision::part_of(
            edge as int,
            MAX_LONG_EDGE as int,
            long as int,
            precision::SINGLE as int,
        ) as u32
    }
}

/// The size that a window is sent at: the same proportions with the longer edge
/// brought down to the cap. Never larger than the window.
pub fn capture_size(w: u32, h: u32) -> (r: (u32, u32))
    requires
        0 < w,
        0 < h,
    ensures
        r.0 == capped(w, long_edge(w, h)),
        r.1 == capped(h, long_edge(w, h)),
        r.0 <= w,
        r.1 <= h,
        r.0 <= MAX_LONG_EDGE,
        r.1 <= MAX_LONG_EDGE,
{
    let long: u32 = if w < h {
        h
    } else {
        w
    };
    if long <= MAX_LONG_EDGE {
        return (w, h);
    }
    (cap(w, long), cap(h, long))
}

fn cap(edge: u32, long: u32) -> (r: u32)
    requires
        0 < edge <= long,
        MAX_LONG_EDGE < long,
    ensures
        r == capped(edge, long),
        r <= edge,
        r <= MAX_LONG_EDGE,
{
    proof {
        lemma_capped(edge, long);
    }
    precision::part(edge, MAX_LONG_EDGE, long, precision::SINGLE) as u32
}

proof fn lemma_capped(edge: u32, long: u32)
    requires
        0 < edge <= long,
        MAX_LONG_EDGE < long,
    ensures
        ({
            let r = precision::part_of(
                edge as int,
                MAX_LONG_EDGE as int,
                long as int,
                precision::SINGLE as int,
            );
            &&& 0 <= r <= edge
            &&& r <= MAX_LONG_EDGE
            &&& -long < r * long - edge * MAX_LONG_EDGE < long
            &&& edge == long ==> r == MAX_LONG_EDGE
        }),
{
    let (e, l, cap) = (edge as int, long as int, MAX_LONG_EDGE as int);
    let r = precision::part_of(e, cap, l, precision::SINGLE as int);
    precision::lemma_part_is_near(e, cap, l, precision::SINGLE as int);
    assert(r <= cap) by (nonlinear_arith)
        requires
            r * l < e * cap + l,
            0 < e <= l,
            0 < cap,
    ;
    assert(r <= e) by (nonlinear_arith)
        requires
            r * l < e * cap + l,
            0 < e <= l,
            0 < cap < l,
    ;
    if e == l {
        assert(cap <= r) by (nonlinear_arith)
            requires
                r * l > l * cap - l,
                0 < l,
        ;
    }
}

/// A window that is too large is sent with the cap for its longer edge, and the
/// proportions are kept to less than a pixel.
pub proof fn law_capture_keeps_proportions(w: u32, h: u32)
    requires
        0 < w,
        0 < h,
        MAX_LONG_EDGE < long_edge(w, h),
    ensures
        ({
            let long = long_edge(w, h);
            let (nw, nh) = (capped(w, long), capped(h, long));
            &&& long_edge(nw, nh) == MAX_LONG_EDGE
            &&& -long < nw * long - w * MAX_LONG_EDGE < long
            &&& -long < nh * long - h * MAX_LONG_EDGE < long
        }),
{
    lemma_capped(w, long_edge(w, h));
    lemma_capped(h, long_edge(w, h));
}

/// Why a window could not be turned into text.
#[derive(Debug, Clone, Copy, PartialEq, Eq, Structural)]
pub enum CaptureError {
    /// An edge vanished when the picture was brought down in size.
    Encode,
    /// The picture on its way, or the text, would be longer than memory.
    TooLarge,
}

/// The pixels that are encoded for a window.
pub open spec fn pixels_of(bgra: Seq<u8>, w: u32, h: u32) -> Seq<u8> {
    let long = long_edge(w, h);
    let rgba = rgba_of(bgra);
    rgb_of(
        if long <= MAX_LONG_EDGE {
            rgba
        } else {
            resized(rgba, w, h, capped(w, long), capped(h, long))
        },
    )
}

/// The JPEG of a window.
pub open spec fn jpeg_of_window(bgra: Seq<u8>, w: u32, h: u32) -> Seq<u8> {
    let long = long_edge(w, h);
    jpeg_of(pixels_of(bgra, w, h), capped(w, long), capped(h, long), JPEG_QUALITY)
}

/// Turns the pixels of a window, four bytes each, into JPEG in base64.
pub fn encode_capture(bgra: &[u8], w: u32, h: u32) -> (r: Result<String, CaptureError>)
    requires
        0 < w,
        0 < h,
        bgra@.len() == 4 * w * h,
    ensures
        ({
            let long = long_edge(w, h);
            let fits = long <= MAX_LONG_EDGE || scaling_fits(w, capped(h, long));
            let vanished = capped(w, long) == 0 || capped(h, long) == 0;
            let text_len = base64_of(jpeg_of_window(bgra@, w, h)).len();
            &&& r matches Ok(s) ==> s@ == base64_of(jpeg_of_window(bgra@, w, h))
            &&& r == Err::<String, CaptureError>(CaptureError::Encode) <==> fits && vanished
            &&& r == Err::<String, CaptureError>(CaptureError::TooLarge) <==> !fits || (!vanished
                && text_len > usize::MAX)
        }),
{
    let (nw, nh) = capture_size(w, h);
    let rgba = to_rgba(bgra);
    proof {
        lemma_pixel_count(w, h);
        lemma_pixel_count(nw, nh);
        assert(rgba@.len() == 4 * w * h);
    }
    let img = if w <= MAX_LONG_EDGE && h <= MAX_LONG_EDGE {
        rgba
    } else {
        assert(0 <= w * nh <= 0xffff_ffff * 1568) by (nonlinear_arith)
            requires
                0 <= w <= 0xffff_ffff,
                0 <= nh <= 1568,
        ;
        if 16 * (w as u128 * nh as u128) > isize::MAX as u128 {
            return Err(CaptureError::TooLarge);
        }
        match resize(rgba, w, h, nw, nh) {
            Some(v) => v,
            None => return Err(CaptureError::Encode),
        }
    };
    proof {
        assert(img@.len() == 4 * nw * nh);
    }
    let rgb = to_rgb(img.as_slice());
    assert(rgb@ == pixels_of(bgra@, w, h));
    match jpeg(rgb.as_slice(), nw, nh, JPEG_QUALITY) {
        None => Err(CaptureError::Encode),
        Some(bytes) => {
            let n: usize = bytes.len();
            let groups: usize = n / 3 + if n % 3 == 0 {
                0
            } else {
                1
            };
            assert(groups == (n + 2) / 3);
            if groups > usize::MAX / 4 {
                return Err(CaptureError::TooLarge);
            }
            Ok(base64_text(bytes.as_slice()))
        },
    }
}

/// The bytes of a whole number of pixels are a multiple of four.
proof fn lemma_pixel_count(w: u32, h: u32)
    ensures
        (4 * w * h) / 4 * 4 == 4 * w * h,
        (4 * w * h) / 4 * 3 == 3 * w * h,
{
    let p = w * h;
    assert(4 * w * h == 4 * p) by (nonlinear_arith)
        requires
            p == w * h,
    ;
    assert(3 * w * h == 3 * p) by (nonlinear_arith)
        requires
            p == w * h,
    ;
}

/// Turning pixels and dropping their opacity keeps every colour: each pixel of
/// the result holds red, green and blue of the same pixel of the window.
pub proof fn law_colours_are_kept(bgra: Seq<u8>, i: int)
    requires
        0 <= i < bgra.len() / 4,
    ensures
        rgb_of(rgba_of(bgra)).len() == bgra.len() / 4 * 3,
        rgb_of(rgba_of(bgra))[3 * i] == bgra[4 * i + 2],
        rgb_of(rgba_of(bgra))[3 * i + 1] == bgra[4 * i + 1],
        rgb_of(rgba_of(bgra))[3 * i + 2] == bgra[4 * i],
{
}

/// A pixel keeps its colours: of blue, green, red and anything come red, green,
/// blue and full opacity, and of those red, green and blue.
pub proof fn law_pixels_keep_their_colours(bgra: Seq<u8>, k: int)
    requires
        0 <= k,
        4 * k + 3 < bgra.len(),
    ensures
        ({
            let rgba = rgba_of(bgra);
            let rgb = rgb_of(rgba);
            &&& rgba.len() == 4 * (bgra.len() / 4)
            &&& rgb.len() == 3 * (bgra.len() / 4)
            &&& rgba[4 * k] == bgra[4 * k + 2]
            &&& rgba[4 * k + 1] == bgra[4 * k + 1]
            &&& rgba[4 * k + 2] == bgra[4 * k]
            &&& rgba[4 * k + 3] == 255
            &&& rgb[3 * k] == bgra[4 * k + 2]
            &&& rgb[3 * k + 1] == bgra[4 * k + 1]
            &&& rgb[3 * k + 2] == bgra[4 * k]
        }),
{
    assert((3 * k) / 3 == k && (3 * k) % 3 == 0);
    assert((3 * k + 1) / 3 == k && (3 * k + 1) % 3 == 1);
    assert((3 * k + 2) / 3 == k && (3 * k + 2) % 3 == 2);
}

/// A window whose edges are no longer than 1568 pixels is sent as it is; of a
/// larger one the longer edge becomes 1568 pixels. Pictures are of quality 85.
pub proof fn law_large_windows_are_scaled_down(bgra: Seq<u8>, w: u32, h: u32)
    requires
        0 < w,
        0 < h,
    ensures
        ({
            let long = long_edge(w, h);
            let (nw, nh) = (capped(w, long), capped(h, long));
            &&& long >= w && long >= h && (long == w || long == h)
            &&& w <= 1568 && h <= 1568 ==> nw == w && nh == h && pixels_of(bgra, w, h) == rgb_of(
                rgba_of(bgra),
            )
            &&& w > 1568 && w >= h ==> nw == 1568
            &&& h > 1568 && h >= w ==> nh == 1568
            &&& w > 1568 || h > 1568 ==> pixels_of(bgra, w, h) == rgb_of(
                resized(rgba_of(bgra), w, h, nw, nh),
            )
            &&& jpeg_of_window(bgra, w, h) == jpeg_of(pixels_of(bgra, w, h), nw, nh, 85)
        }),
{
    if long_edge(w, h) > 1568 {
        lemma_capped(w, long_edge(w, h));
        lemma_capped(h, long_edge(w, h));
    }
}

/// The six bits that a character of base64 stands for.
pub open spec fn bits_of(c: char) -> int {
    if 'A' <= c <= 'Z' {
        c as int - 'A' as int
    } else if 'a' <= c <= 'z' {
        c as int - 'a' as int + 26
    } else if '0' <= c <= '9' {
        c as int - '0' as int + 52
    } else if c == '+' {
        62
    } else {
        63
    }
}

proof fn lemma_base64_char(d: int)
    requires
        0 <= d < 64,
    ensures
        bits_of(base64_char(d)) == d,
        base64_char(d) != '=',
        d == 63 ==> base64_char(d) == '/',
{
}

/// Base64 reads back: four characters hold the 24 bits of three bytes, in order.
/// Of a byte that is left at the end two characters are written and two equals
/// signs, of two bytes three and one.
pub proof fn law_base64_reads_back(b: Seq<u8>, k: int)
    requires
        0 <= k,
        3 * k < b.len(),
    ensures
        ({
            let t = base64_of(b);
            let j = 4 * k;
            let i = 3 * k;
            let (x, y) = (bits_of(t[j]), bits_of(t[j + 1]));
            let (z, w) = (bits_of(t[j + 2]), bits_of(t[j + 3]));
            &&& t.len() == 4 * ((b.len() + 2) / 3)
            &&& j + 3 < t.len()
            &&& i + 2 < b.len() ==> 0x4_0000 * x + 0x1000 * y + 64 * z + w == 0x1_0000 * b[i]
                + 0x100 * b[i + 1] + b[i + 2] && t[j + 2] != '=' && t[j + 3] != '='
            &&& i + 2 == b.len() ==> 0x1000 * x + 64 * y + z == 4 * (0x100 * b[i] + b[i + 1])
                && t[j + 2] != '=' && t[j + 3] == '='
            &&& i + 1 == b.len() ==> 64 * x + y == 16 * b[i] && t[j + 2] == '=' && t[j + 3] == '='
        }),
{
    let t = base64_of(b);
    let j = 4 * k;
    let i = 3 * k;
    assert(j / 4 * 3 == i && (j + 1) / 4 * 3 == i && (j + 2) / 4 * 3 == i && (j + 3) / 4 * 3 == i);
    assert(j % 4 == 0 && (j + 1) % 4 == 1 && (j + 2) % 4 == 2 && (j + 3) % 4 == 3);
    let bits = 0x1_0000 * byte_at(b, i) + 0x100 * byte_at(b, i + 1) + byte_at(b, i + 2);
    assert(0 <= bits < 0x100_0000);
    lemma_base64_char(bits / 0x4_0000);
    lemma_base64_char(bits / 0x1000 % 64);
    lemma_base64_char(bits / 64 % 64);
    lemma_base64_char(bits % 64);
    assert(t[j] == base64_char(bits / 0x4_0000));
    assert(t[j + 1] == base64_char(bits / 0x1000 % 64));
    let (p, q) = (bits / 64, bits % 64);
    let (p1, q1) = (p / 64, p % 64);
    let (p2, q2) = (p1 / 64, p1 % 64);
    assert(bits / 0x1000 == p1 && bits / 0x4_0000 == p2);
    assert(bits == 0x4_0000 * p2 + 0x1000 * q2 + 64 * q1 + q);
    if i + 2 < b.len() {
        assert(t[j + 2] == base64_char(bits / 64 % 64));
        assert(t[j + 3] == base64_char(bits % 64));
    } else if i + 2 == b.len() {
        assert(t[j + 2] == base64_char(bits / 64 % 64));
        assert(q == 0);
    } else {
        assert(q == 0 && q1 == 0);
    }
}

/// A picture is between 1 and 65535 pixels wide and high.
pub proof fn law_pictures_have_a_size(w: u32, h: u32)
    ensures
        has_jpeg_size(w, h) <==> 0 < w < 65_536 && 0 < h < 65_536,
{
}

} // verus!
