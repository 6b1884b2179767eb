//! Arithmetic with a limited number of significant bits, as binary floating
//! point does it: every result is the nearest number that so many bits can
//! write, and of two as near the one whose last bit is zero.
//!
//! A precision is given by the least whole number that it cannot write odd
//! numbers from: two to the power of its bits. Numbers are not negative.

use vstd::prelude::*;

verus! {

/// Single precision, 24 bits.
pub const SINGLE: u128 = 0x100_0000;

/// Double precision, 53 bits.
pub const DOUBLE: u128 = 0x20_0000_0000_0000;

/// The whole number nearest to `n / d`; of two as near, the even one.
pub open spec fn near(n: int, d: int) -> int {
    let q = n / d;
    let twice = 2 * (n % d);
    if twice < d || (twice == d && q % 2 == 0) {
        q
    } else {
        q + 1
    }
}

/// The least power of two, `f`, with `x < f * t`.
pub open spec fn cut_of(x: int, t: int) -> int
    decreases
            if t <= x {
                x - t + 1
            } else {
                0
            },
{
    if t <= 0 || x < t {
        1
    } else {
        2 * cut_of(x, 2 * t)
    }
}

/// The least power of two, `f`, with `t <= n * f`.
pub open spec fn scale_of(n: int, t: int) -> int
    decreases
            if n < t {
                t - n
            } else {
                0
            },
{
    if n <= 0 || t <= n {
        1
    } else {
        2 * scale_of(2 * n, t)
    }
}

/// `x` in the given precision.
pub open spec fn sig(x: int, precision: int) -> int {
    let f = cut_of(x, precision);
    near(x, f) * f
}

/// A fraction whose denominator is a power of two.
#[verifier::ext_equal]
pub struct Ratio {
    pub num: int,
    pub den: int,
}

/// `n / d` in the given precision.
pub open spec fn quotient(n: int, d: int, precision: int) -> Ratio {
    if n < d * precision {
        let f = scale_of(n, d * (precision / 2));
        Ratio { num: near(n * f, d), den: f }
    } else {
        let f = cut_of(n, d * precision);
        Ratio { num: near(n, d * f) * f, den: 1 }
    }
}

/// The whole number nearest to a fraction, halves upwards.
pub open spec fn rounded(r: Ratio) -> int {
    (2 * r.num + r.den) / (2 * r.den)
}

/// `x * (n / d)` to the nearest whole number, where the fraction and the
/// product are taken in the given precision.
pub open spec fn part_of(x: int, n: int, d: int, precision: int) -> int {
    let q = quotient(sig(n, precision), sig(d, precision), precision);
    rounded(Ratio { num: sig(sig(x, precision) * q.num, precision), den: q.den })
}

/// `(x * y) / d` to the nearest whole number, where the product and the
/// fraction are taken in the given precision.
pub open spec fn share_of(x: int, y: int, d: int, precision: int) -> int {
    let n = sig(sig(x, precision) * sig(y, precision), precision);
    rounded(quotient(n, sig(d, precision), precision))
}

proof fn lemma_near(n: int, d: int)
    requires
        0 <= n,
        0 < d,
    ensures
        0 <= near(n, d),
        2 * n - d <= 2 * (near(n, d) * d) <= 2 * n + d,
{
    let q = n / d;
    let r = n % d;
    assert(q * d + r == n && 0 <= r < d && 0 <= q) by (nonlinear_arith)
        requires
            q == n / d,
            r == n % d,
            0 <= n,
            0 < d,
    ;
    assert((q + 1) * d == q * d + d) by (nonlinear_arith);
}

proof fn lemma_cut(x: int, t: int)
    requires
        0 <= x,
        0 < t,
    ensures
        1 <= cut_of(x, t),
        x < cut_of(x, t) * t,
        cut_of(x, t) == 1 || cut_of(x, t) * t <= 2 * x,
    decreases
            if t <= x {
                x - t + 1
            } else {
                0
            },
{
    if t <= x {
        lemma_cut(x, 2 * t);
        let f = cut_of(x, 2 * t);
        assert((2 * f) * t == f * (2 * t)) by (nonlinear_arith);
    }
}

proof fn lemma_scale(n: int, t: int)
    requires
        0 < n,
    ensures
        1 <= scale_of(n, t),
        t <= n * scale_of(n, t),
        scale_of(n, t) == 1 || n * scale_of(n, t) < 2 * t,
    decreases
            if n < t {
                t - n
            } else {
                0
            },
{
    if n < t {
        lemma_scale(2 * n, t);
        let f = scale_of(2 * n, t);
        assert(n * (2 * f) == (2 * n) * f) by (nonlinear_arith);
    }
}

/// Rounding moves a number by no more than one part in the precision.
proof fn lemma_sig(x: int, precision: int)
    requires
        0 <= x,
        0 < precision,
    ensures
        0 <= sig(x, precision) <= 2 * x,
        x * (precision - 1) <= sig(x, precision) * precision <= x * (precision + 1),
        x < precision ==> sig(x, precision) == x,
{
    lemma_cut(x, precision);
    let f = cut_of(x, precision);
    lemma_near(x, f);
    let r = near(x, f) * f;
    if f == 1 {
        assert(near(x, 1) == x);
        assert(x * (precision - 1) <= x * precision <= x * (precision + 1)) by (nonlinear_arith)
            requires
                0 <= x,
        ;
    } else {
        assert(0 <= near(x, f) * f) by (nonlinear_arith)
            requires
                0 <= near(x, f),
                1 <= f,
        ;
        assert(f <= f * precision) by (nonlinear_arith)
            requires
                1 <= f,
                0 < precision,
        ;
        assert(x * (precision - 1) <= r * precision <= x * (precision + 1)) by (nonlinear_arith)
            requires
                2 * x - f <= 2 * r <= 2 * x + f,
                f * precision <= 2 * x,
                0 < precision,
        ;
        assert(near(x, f) * f <= 2 * x);
    }
}

proof fn lemma_sig_is_positive(x: int, precision: int)
    requires
        0 < x,
        1 < precision,
    ensures
        0 < sig(x, precision),
{
    lemma_sig(x, precision);
    let a = sig(x, precision);
    assert(0 < a) by (nonlinear_arith)
        requires
            x * (precision - 1) <= a * precision,
            0 < x,
            1 < precision,
    ;
}

/// The bounds on a quotient below the precision.
proof fn lemma_quotient(n: int, d: int, precision: int)
    requires
        0 < n < d * precision,
        0 < d,
        2 <= precision,
        precision % 2 == 0,
    ensures
        ({
            let q = quotient(n, d, precision);
            &&& 1 <= q.den
            &&& 0 <= q.num
            &&& 2 * (n * q.den) - d <= 2 * (q.num * d) <= 2 * (n * q.den) + d
            &&& d * precision <= 2 * (n * q.den)
            &&& q.den == 1 || n * q.den < d * precision
        }),
{
    let t = d * (precision / 2);
    assert(2 * t == d * precision) by (nonlinear_arith)
        requires
            t == d * (precision / 2),
            precision % 2 == 0,
    ;
    lemma_scale(n, t);
    let f = scale_of(n, t);
    assert(0 < n * f) by (nonlinear_arith)
        requires
            0 < n,
            1 <= f,
    ;
    lemma_near(n * f, d);
}

/// Rounding on the way moves a part by less than one.
pub proof fn lemma_part_is_near(x: int, n: int, d: int, precision: int)
    requires
        0 <= x <= d,
        0 < n < d,
        16 * n + 1 < precision,
        precision % 2 == 0,
    ensures
        0 <= part_of(x, n, d, precision),
        x * n - d < part_of(x, n, d, precision) * d < x * n + d,
{
    assert(x * n <= d * n) by (nonlinear_arith)
        requires
            0 <= x <= d,
            0 < n,
    ;
    lemma_part_is_near_below(x, n, d, n, precision);
}

/// Rounding on the way moves a part that is no more than `k` by less than one.
pub proof fn lemma_part_is_near_below(x: int, n: int, d: int, k: int, precision: int)
    requires
        0 <= x,
        0 < n < precision,
        0 < d,
        0 < k,
        x * n <= d * k,
        16 * k + 1 < precision,
        precision % 2 == 0,
    ensures
        0 <= part_of(x, n, d, precision),
        x * n - d < part_of(x, n, d, precision) * d < x * n + d,
{
    let p = precision;
    lemma_sig(n, p);
    lemma_sig(d, p);
    lemma_sig(x, p);
    let a = sig(d, p);
    let b = sig(x, p);
    lemma_sig_is_positive(d, p);
    assert(n < a * p) by (nonlinear_arith)
        requires
            0 < n < p,
            0 < a,
    ;
    lemma_quotient(n, a, p);
    let q = quotient(n, a, p);
    let (m, f) = (q.num, q.den);
    assert(0 <= b * m) by (nonlinear_arith)
        requires
            0 <= b,
            0 <= m,
    ;
    lemma_sig(b * m, p);
    let s = sig(b * m, p);
    let g = n * f;
    let u = m * a;
    assert(g * (p - 1) <= u * p <= g * (p + 1)) by (nonlinear_arith)
        requires
            2 * g - a <= 2 * u <= 2 * g + a,
            a * p <= 2 * g,
            0 < p,
    ;
    lemma_product_near(x, d, a, b, m, g, s, p);
    assert(0 <= g) by (nonlinear_arith)
        requires
            g == n * f,
            0 < n,
            1 <= f,
    ;
    let c = d * f;
    assert(0 < c) by (nonlinear_arith)
        requires
            c == d * f,
            0 < d,
            1 <= f,
    ;
    assert(0 <= x * g <= c * k) by (nonlinear_arith)
        requires
            g == n * f,
            c == d * f,
            0 <= x,
            x * n <= d * k,
            0 < n,
            1 <= f,
    ;
    lemma_below_half(k, c, x * g, s * d, p);
    lemma_above_half(k, c, x * g, s * d, p);
    let r = (2 * s + f) / (2 * f);
    assert(0 <= r && r * (2 * f) <= 2 * s + f < r * (2 * f) + 2 * f) by (nonlinear_arith)
        requires
            r == (2 * s + f) / (2 * f),
            1 <= f,
            0 <= s,
    ;
    assert(x * n - d < r * d < x * n + d) by (nonlinear_arith)
        requires
            r * (2 * f) <= 2 * s + f < r * (2 * f) + 2 * f,
            2 * (x * g) - c < 2 * (s * d) < 2 * (x * g) + c,
            g == n * f,
            c == d * f,
            0 < d,
            1 <= f,
    ;
}

/// How far the rounded product is from the exact one.
proof fn lemma_product_near(
    x: int,
    d: int,
    a: int,
    b: int,
    m: int,
    g: int,
    s: int,
    p: int,
)
    requires
        0 <= x,
        0 < d,
        0 < a,
        0 <= m,
        1 < p,
        g * (p - 1) <= (m * a) * p <= g * (p + 1),
        d * (p - 1) <= a * p <= d * (p + 1),
        x * (p - 1) <= b * p <= x * (p + 1),
        (b * m) * (p - 1) <= s * p <= (b * m) * (p + 1),
    ensures
        (x * g) * (((p - 1) * (p - 1)) * (p - 1)) <= (s * d) * ((p * p) * (p + 1)),
        (s * d) * ((p * p) * (p - 1)) <= (x * g) * (((p + 1) * (p + 1)) * (p + 1)),
{
    let u = m * a;
    let v = b * m;
    let (k, l) = (p - 1, p + 1);
    assert((b * p) * (d * k) <= (x * l) * (a * p)) by (nonlinear_arith)
        requires
            b * p <= x * l,
            d * k <= a * p,
            0 <= x * l,
            0 <= d * k,
    ;
    assert((b * p) * (d * l) >= (x * k) * (a * p)) by (nonlinear_arith)
        requires
            b * p >= x * k,
            d * l >= a * p,
            0 <= x * k,
            0 <= a * p,
    ;
    assert((b * d) * k <= (x * a) * l) by (nonlinear_arith)
        requires
            (b * p) * (d * k) <= (x * l) * (a * p),
            0 < p,
    ;
    assert((b * d) * l >= (x * a) * k) by (nonlinear_arith)
        requires
            (b * p) * (d * l) >= (x * k) * (a * p),
            0 < p,
    ;
    assert((v * d) * k <= (x * u) * l) by (nonlinear_arith)
        requires
            (b * d) * k <= (x * a) * l,
            0 <= m,
            u == m * a,
            v == b * m,
    ;
    assert((v * d) * l >= (x * u) * k) by (nonlinear_arith)
        requires
            (b * d) * l >= (x * a) * k,
            0 <= m,
            u == m * a,
            v == b * m,
    ;
    let y = x * g;
    assert((x * u) * p <= y * l) by (nonlinear_arith)
        requires
            u * p <= g * l,
            0 <= x,
            y == x * g,
    ;
    assert((x * u) * p >= y * k) by (nonlinear_arith)
        requires
            u * p >= g * k,
            0 <= x,
            y == x * g,
    ;
    let e = v * d;
    let t = x * u;
    assert((e * k) * p <= (y * l) * l) by (nonlinear_arith)
        requires
            e * k <= t * l,
            t * p <= y * l,
            0 < p,
            0 < l,
    ;
    assert((e * l) * p >= (y * k) * k) by (nonlinear_arith)
        requires
            e * l >= t * k,
            t * p >= y * k,
            0 < p,
            0 < k,
    ;
    let z = s * d;
    assert(z * p <= e * l) by (nonlinear_arith)
        requires
            s * p <= v * l,
            e == v * d,
            z == s * d,
            0 < d,
    ;
    assert(z * p >= e * k) by (nonlinear_arith)
        requires
            s * p >= v * k,
            e == v * d,
            z == s * d,
            0 < d,
    ;
    assert(z * ((p * p) * k) <= y * ((l * l) * l)) by (nonlinear_arith)
        requires
            z * p <= e * l,
            (e * k) * p <= (y * l) * l,
            0 < p,
            0 < k,
            0 < l,
    ;
    assert(z * ((p * p) * l) >= y * ((k * k) * k)) by (nonlinear_arith)
        requires
            z * p >= e * k,
            (e * l) * p >= (y * k) * k,
            0 < p,
            0 < k,
            0 < l,
    ;
}

proof fn lemma_below_half(n: int, c: int, y: int, z: int, p: int)
    requires
        0 < n,
        0 < c,
        0 <= y <= c * n,
        16 * n + 1 < p,
        z * ((p * p) * (p - 1)) <= y * (((p + 1) * (p + 1)) * (p + 1)),
    ensures
        2 * z < 2 * y + c,
{
    let big = (p * p) * (p - 1);
    let cube = ((p + 1) * (p + 1)) * (p + 1);
    let sq = p * p;
    assert(cube - big == 4 * sq + 3 * p + 1) by (nonlinear_arith)
        requires
            big == (p * p) * (p - 1),
            cube == ((p + 1) * (p + 1)) * (p + 1),
            sq == p * p,
    ;
    assert(3 * p + 1 <= 4 * sq && 0 < sq) by (nonlinear_arith)
        requires
            1 < p,
            sq == p * p,
    ;
    if 2 * z >= 2 * y + c {
        assert((2 * y + c) * big <= 2 * (y * cube)) by (nonlinear_arith)
            requires
                2 * z >= 2 * y + c,
                z * big <= y * cube,
                0 <= big,
                big == sq * (p - 1),
        ;
        assert(c * big <= 2 * (y * (8 * sq))) by (nonlinear_arith)
            requires
                (2 * y + c) * big <= 2 * (y * cube),
                cube - big <= 8 * sq,
                0 <= y,
        ;
        assert(y * (8 * sq) <= (c * n) * (8 * sq)) by (nonlinear_arith)
            requires
                y <= c * n,
                0 < sq,
        ;
        assert(false) by (nonlinear_arith)
            requires
                c * (sq * (p - 1)) <= 2 * ((c * n) * (8 * sq)),
                0 < c,
                0 < sq,
                16 * n + 1 < p,
        ;
    }
}

proof fn lemma_above_half(n: int, c: int, y: int, z: int, p: int)
    requires
        0 < n,
        0 < c,
        0 <= y <= c * n,
        16 * n + 1 < p,
        y * (((p - 1) * (p - 1)) * (p - 1)) <= z * ((p * p) * (p + 1)),
    ensures
        2 * y - c < 2 * z,
{
    let big = (p * p) * (p + 1);
    let cube = ((p - 1) * (p - 1)) * (p - 1);
    let sq = p * p;
    assert(big - cube == 4 * sq - 3 * p + 1) by (nonlinear_arith)
        requires
            big == (p * p) * (p + 1),
            cube == ((p - 1) * (p - 1)) * (p - 1),
            sq == p * p,
    ;
    assert(0 < sq) by (nonlinear_arith)
        requires
            1 < p,
            sq == p * p,
    ;
    if 2 * z <= 2 * y - c {
        assert(2 * (y * cube) <= (2 * y - c) * big) by (nonlinear_arith)
            requires
                2 * z <= 2 * y - c,
                y * cube <= z * big,
                big == sq * (p + 1),
                0 < sq,
                1 < p,
        ;
        assert(c * big <= 2 * (y * (4 * sq))) by (nonlinear_arith)
            requires
                2 * (y * cube) <= (2 * y - c) * big,
                big - cube <= 4 * sq,
                0 <= y,
        ;
        assert(y * (4 * sq) <= (c * n) * (4 * sq)) by (nonlinear_arith)
            requires
                y <= c * n,
                0 < sq,
        ;
        let cs = c * sq;
        assert(0 < cs) by (nonlinear_arith)
            requires
                cs == c * sq,
                0 < c,
                0 < sq,
        ;
        assert(c * (sq * (p + 1)) == cs * (p + 1)) by (nonlinear_arith)
            requires
                cs == c * sq,
        ;
        assert(2 * ((c * n) * (4 * sq)) == cs * (8 * n)) by (nonlinear_arith)
            requires
                cs == c * sq,
        ;
        assert(cs * (8 * n) < cs * (p + 1)) by (nonlinear_arith)
            requires
                0 < cs,
                8 * n < p + 1,
        ;
    }
}

/// A share that comes out whole is not rounded.
pub proof fn lemma_share_is_exact(x: int, y: int, d: int, n: int)
    requires
        0 <= x < SINGLE,
        0 <= y < SINGLE,
        0 < d < SINGLE,
        0 <= n,
        x * y == d * n,
        d * n < SINGLE,
    ensures
        share_of(x, y, d, SINGLE as int) == n,
{
    let p = SINGLE as int;
    lemma_sig(x, p);
    lemma_sig(y, p);
    lemma_sig(d, p);
    lemma_sig(d * n, p);
    let m = d * n;
    assert(m < d * p) by (nonlinear_arith)
        requires
            m < p,
            0 < d,
            0 < p,
    ;
    let f = scale_of(m, d * (p / 2));
    if m > 0 {
        lemma_scale(m, d * (p / 2));
    }
    assert(m * f == (n * f) * d) by (nonlinear_arith)
        requires
            m == d * n,
    ;
    let w = n * f;
    assert((w * d) / d == w && (w * d) % d == 0) by (nonlinear_arith)
        requires
            0 < d,
    ;
    assert(near(m * f, d) == w);
    assert((2 * w + f) / (2 * f) == n) by (nonlinear_arith)
        requires
            w == n * f,
            1 <= f,
    ;
}

fn near_of(n: u128, d: u128) -> (r: u128)
    requires
        0 < d,
        2 * d <= u128::MAX,
        n < u128::MAX,
    ensures
        r == near(n as int, d as int),
{
    let q: u128 = n / d;
    let twice: u128 = 2 * (n % d);
    proof {
        let (qi, ni, di) = (q as int, n as int, d as int);
        assert(qi <= ni) by (nonlinear_arith)
            requires
                qi == ni / di,
                0 <= ni,
                0 < di,
        ;
    }
    if twice < d || (twice == d && q % 2 == 0) {
        q
    } else {
        q + 1
    }
}

fn cut(x: u128, from: u128) -> (f: u128)
    requires
        0 < from < 0x1_0000_0000_0000_0000_0000_0000,
        x < 0x1_0000_0000_0000_0000_0000_0000,
    ensures
        f == cut_of(x as int, from as int),
        f < 0x2_0000_0000_0000_0000_0000_0000,
{
    let mut t: u128 = from;
    let mut f: u128 = 1;
    assert(1 * cut_of(x as int, from as int) == cut_of(x as int, from as int));
    while t <= x
        invariant
            0 < f <= t < 0x2_0000_0000_0000_0000_0000_0000,
            x < 0x1_0000_0000_0000_0000_0000_0000,
            f * cut_of(x as int, t as int) == cut_of(x as int, from as int),
        decreases (if t <= x { x - t + 1 } else { 0 }),
    {
        proof {
            let c = cut_of(x as int, 2 * t as int);
            assert((2 * f) * c == f * (2 * c)) by (nonlinear_arith);
        }
        t = 2 * t;
        f = 2 * f;
    }
    assert(f * 1 == f);
    f
}

fn scale(from: u128, t: u128) -> (f: u128)
    requires
        t < 0x1_0000_0000_0000_0000_0000_0000,
        from < 0x1_0000_0000_0000_0000_0000_0000,
    ensures
        f == scale_of(from as int, t as int),
        f < 0x2_0000_0000_0000_0000_0000_0000,
{
    if from == 0 {
        return 1;
    }
    let mut n: u128 = from;
    let mut f: u128 = 1;
    assert(1 * scale_of(from as int, t as int) == scale_of(from as int, t as int));
    while n < t
        invariant
            0 < f <= n < 0x2_0000_0000_0000_0000_0000_0000,
            t < 0x1_0000_0000_0000_0000_0000_0000,
            f * scale_of(n as int, t as int) == scale_of(from as int, t as int),
        decreases (if n < t { t - n } else { 0 }),
    {
        proof {
            let c = scale_of(2 * n as int, t as int);
            assert((2 * f) * c == f * (2 * c)) by (nonlinear_arith);
        }
        n = 2 * n;
        f = 2 * f;
    }
    assert(f * 1 == f);
    f
}

fn sig_of(x: u128, precision: u128) -> (r: u128)
    requires
        0 < precision < 0x1_0000_0000_0000_0000_0000_0000,
        x < 0x1_0000_0000_0000_0000_0000_0000,
    ensures
        r == sig(x as int, precision as int),
        r <= 2 * x,
{
    proof {
        lemma_cut(x as int, precision as int);
        lemma_sig(x as int, precision as int);
    }
    let f: u128 = cut(x, precision);
    near_of(x, f) * f
}

/// A precision that the functions below can work in.
pub open spec fn is_precision(p: u128) -> bool {
    2 <= p <= DOUBLE && p % 2 == 0
}

fn quotient_of(n: u128, d: u128, precision: u128) -> (r: (u128, u128))
    requires
        n < 0x1000_0000_0000_0000_0000,
        0 < d < 0x4_0000_0000,
        is_precision(precision),
    ensures
        ({
            let q = quotient(n as int, d as int, precision as int);
            r.0 == q.num && r.1 == q.den
        }),
        0 < r.1 < 0x2_0000_0000_0000_0000_0000_0000,
        r.0 <= DOUBLE || r.0 <= 2 * n,
{
    proof {
        assert(0 < d * precision <= 0x4_0000_0000 * DOUBLE) by (nonlinear_arith)
            requires
                0 < d < 0x4_0000_0000,
                2 <= precision <= DOUBLE,
        ;
        assert(0 < d * (precision / 2) <= 0x4_0000_0000 * DOUBLE) by (nonlinear_arith)
            requires
                0 < d < 0x4_0000_0000,
                2 <= precision <= DOUBLE,
        ;
    }
    if n < d * precision {
        let f: u128 = scale(n, d * (precision / 2));
        proof {
            if n > 0 {
                lemma_quotient(n as int, d as int, precision as int);
            } else {
                assert(n * f == 0) by (nonlinear_arith)
                    requires
                        n == 0,
                ;
            }
            if f == 1 {
                assert(n * f == n) by (nonlinear_arith)
                    requires
                        f == 1,
                ;
            }
            assert(0 <= n * f) by (nonlinear_arith);
            assert(n * f < d * precision);
            let num = quotient(n as int, d as int, precision as int).num;
            assert(num <= precision) by (nonlinear_arith)
                requires
                    n > 0 ==> 2 * (num * d) <= 2 * (n * f) + d,
                    n == 0 ==> num == 0,
                    n > 0 ==> n * f < d * precision,
                    0 < d,
                    2 <= precision,
            ;
        }
        (near_of(n * f, d), f)
    } else {
        let f: u128 = cut(n, d * precision);
        proof {
            lemma_cut(n as int, d * precision);
            let df = d * f;
            assert(0 < df) by (nonlinear_arith)
                requires
                    df == d * f,
                    0 < d,
                    1 <= f,
            ;
            assert(df <= 2 * n) by (nonlinear_arith)
                requires
                    df == d * f,
                    f == 1 || f * (d * precision) <= 2 * n,
                    n >= d * precision,
                    2 <= precision,
                    0 < d,
                    1 <= f,
            ;
            lemma_near(n as int, df);
            let k = near(n as int, df);
            assert(k * f <= 2 * n) by (nonlinear_arith)
                requires
                    2 * (k * df) <= 2 * n + df,
                    df == d * f,
                    df <= 2 * n,
                    0 < d,
                    0 <= k,
                    1 <= f,
            ;
            assert(0 <= k * f) by (nonlinear_arith)
                requires
                    0 <= k,
                    1 <= f,
            ;
        }
        (near_of(n, d * f) * f, 1)
    }
}

fn rounded_of(num: u128, den: u128) -> (r: u128)
    requires
        0 < den < 0x2_0000_0000_0000_0000_0000_0000,
        num < 0x2_0000_0000_0000_0000_0000_0000,
    ensures
        r == rounded(Ratio { num: num as int, den: den as int }),
{
    (2 * num + den) / (2 * den)
}

/// Takes a part of `x`, to the nearest whole number.
pub fn part(x: u32, n: u32, d: u32, precision: u128) -> (r: u128)
    requires
        0 < d,
        is_precision(precision),
    ensures
        r == part_of(x as int, n as int, d as int, precision as int),
{
    proof {
        lemma_sig_is_positive(d as int, precision as int);
    }
    let sn: u128 = sig_of(n as u128, precision);
    let sd: u128 = sig_of(d as u128, precision);
    let sx: u128 = sig_of(x as u128, precision);
    let (num, den) = quotient_of(sn, sd, precision);
    assert(sx * num <= 0x2_0000_0000 * 0x20_0000_0000_0000) by (nonlinear_arith)
        requires
            sx <= 0x2_0000_0000,
            num <= 0x20_0000_0000_0000,
    ;
    assert(0 <= sx * num) by (nonlinear_arith);
    let p: u128 = sig_of(sx * num, precision);
    rounded_of(p, den)
}

/// Takes a share of a product, to the nearest whole number.
pub fn share(x: u32, y: u32, d: u32, precision: u128) -> (r: u128)
    requires
        0 < d,
        is_precision(precision),
    ensures
        r == share_of(x as int, y as int, d as int, precision as int),
{
    proof {
        lemma_sig_is_positive(d as int, precision as int);
    }
    let sx: u128 = sig_of(x as u128, precision);
    let sy: u128 = sig_of(y as u128, precision);
    assert(sx * sy <= 0x2_0000_0000 * 0x2_0000_0000) by (nonlinear_arith)
        requires
            sx <= 0x2_0000_0000,
            sy <= 0x2_0000_0000,
    ;
    assert(0 <= sx * sy) by (nonlinear_arith);
    let n: u128 = sig_of(sx * sy, precision);
    let sd: u128 = sig_of(d as u128, precision);
    let (num, den) = quotient_of(n, sd, precision);
    rounded_of(num, den)
}

/// Rounding gives the nearest whole number, and of two that are equally near the
/// even one.
pub proof fn law_ties_go_to_even(n: int, d: int)
    requires
        0 <= n,
        0 < d,
    ensures
        2 * n - d <= 2 * (near(n, d) * d) <= 2 * n + d,
        2 * (n % d) == d ==> near(n, d) % 2 == 0,
        n % d == 0 ==> near(n, d) == n / d,
{
    lemma_near(n, d);
}

} // verus!
