//! Pixel scalars: IEEE 754 binary32 numbers held by their bits.
//!
//! Every coordinate, size and color channel of the library is a [`Scalar`].
//! Its arithmetic is the binary32 arithmetic (round to nearest, ties to even)
//! done in integers, so that a layout comes out the same, bit for bit, on every
//! machine, and so that the contracts can say exactly what it is.
//!
//! The model: a finite magnitude is a natural number of units of 2^-149, the
//! smallest positive binary32 number. The low 31 bits of a scalar, its *index*,
//! count the magnitudes in increasing order ([`mag`]); infinity sits one step
//! above the largest finite one.

use vstd::arithmetic::mul::*;
use vstd::arithmetic::power2::*;
use vstd::prelude::*;

verus! {

/// A binary32 number, by its bits.
#[derive(Clone, Copy, Debug, PartialEq, Eq, Structural, Hash)]
pub struct Scalar {
    /// Sign bit, eight exponent bits, 23 fraction bits.
    pub bits: u32,
}

/// Number of fractions per exponent: 2^23.
pub const HIDDEN: u32 = 0x80_0000;

/// The index of infinity.
pub const INF_INDEX: u32 = 0x7f80_0000;

/// The sign bit.
pub const SIGN: u32 = 0x8000_0000;

/// The magnitude at `index`, in units of 2^-149.
pub open spec fn mag(index: nat) -> nat {
    let e = index / 0x80_0000;
    let f = index % 0x80_0000;
    if e == 0 {
        f
    } else {
        (0x80_0000 + f) * pow2((e - 1) as nat)
    }
}

/// Whether the magnitude at `index` is the one nearest to `num / den`, the even
/// index winning a tie.
pub open spec fn nearest(num: nat, den: nat, index: nat) -> bool {
    &&& index <= 0x7f80_0000
    &&& index < 0x7f80_0000 ==> {
        &&& 2 * num <= den * (mag(index) + mag(index + 1))
        &&& 2 * num == den * (mag(index) + mag(index + 1)) ==> index % 2 == 0
    }
    &&& index > 0 ==> {
        &&& 2 * num >= den * (mag((index - 1) as nat) + mag(index))
        &&& 2 * num == den * (mag((index - 1) as nat) + mag(index)) ==> index % 2 == 0
    }
}

/// The index that `num / den` units round to.
pub open spec fn round(num: nat, den: nat) -> nat {
    choose|index: nat| nearest(num, den, index)
}

/// The magnitude of the significand `q` at the exponent `t`.
pub proof fn lemma_mag_form(t: nat, q: nat)
    requires
        q <= 0x100_0000,
        q >= 0x80_0000 || t == 0,
    ensures
        mag(t * 0x80_0000 + q) == q * pow2(t),
{
    let m = t * 0x80_0000 + q;
    lemma2_to64();
    if q < 0x80_0000 {
        assert(m / 0x80_0000 == 0);
        assert(q * 1 == q);
    } else if q < 0x100_0000 {
        assert(m / 0x80_0000 == t + 1);
        assert(m % 0x80_0000 == q - 0x80_0000);
    } else {
        assert(m / 0x80_0000 == t + 2);
        assert(m % 0x80_0000 == 0);
        lemma_pow2_unfold(t + 1);
        assert(0x80_0000 * (2 * pow2(t)) == 0x100_0000 * pow2(t)) by (nonlinear_arith);
    }
}

/// The significand and exponent that an index stands for.
pub open spec fn parts(index: nat) -> (nat, nat) {
    let e = index / 0x80_0000;
    let f = index % 0x80_0000;
    if e == 0 {
        (f, 0)
    } else {
        (0x80_0000 + f, (e - 1) as nat)
    }
}

/// What the parts of an index are.
pub proof fn lemma_parts(index: nat)
    ensures
        ({
            let (q, t) = parts(index);
            &&& index == t * 0x80_0000 + q
            &&& q < 0x100_0000
            &&& q >= 0x80_0000 || t == 0
            &&& mag(index) == q * pow2(t)
            &&& index < 0x7f80_0000 ==> t <= 253
        }),
{
    let (q, t) = parts(index);
    lemma_mag_form(t, q);
}

/// Each magnitude is smaller than the next.
pub proof fn lemma_mag_step(index: nat)
    ensures
        mag(index) < mag(index + 1),
{
    lemma_parts(index);
    let (q, t) = parts(index);
    lemma_mag_form(t, q + 1);
    lemma_pow2_pos(t);
    assert(q * pow2(t) < (q + 1) * pow2(t)) by (nonlinear_arith)
        requires
            pow2(t) > 0,
    ;
}

/// Magnitudes grow with their index.
pub proof fn lemma_mag_increases(a: nat, b: nat)
    requires
        a < b,
    ensures
        mag(a) < mag(b),
    decreases b - a,
{
    lemma_mag_step(a);
    if a + 1 < b {
        lemma_mag_increases(a + 1, b);
    }
}

/// At most one index is nearest, so [`round`] is that one.
pub proof fn lemma_round_is(num: nat, den: nat, index: nat)
    requires
        den > 0,
        nearest(num, den, index),
    ensures
        round(num, den) == index,
{
    let other = round(num, den);
    if index < other {
        lemma_nearest_apart(num, den, index, other);
    } else if other < index {
        lemma_nearest_apart(num, den, other, index);
    }
}

proof fn lemma_nearest_apart(num: nat, den: nat, a: nat, b: nat)
    requires
        den > 0,
        a <= b,
        nearest(num, den, a),
        nearest(num, den, b),
    ensures
        a == b,
{
    let low = mag(a) + mag(a + 1);
    let high = mag((b - 1) as nat) + mag(b);
    if a + 1 < b {
        lemma_mag_increases(a, (b - 1) as nat);
        lemma_mag_increases(a + 1, b);
        assert(den * low < den * high) by (nonlinear_arith)
            requires
                low < high,
                den > 0,
        ;
    } else if a < b {
        assert(low == high);
    }
}

/// Two to the `n`.
fn power(n: u32) -> (r: u128)
    requires
        n < 128,
    ensures
        r == pow2(n as nat),
{
    let mut r: u128 = 1;
    let mut i: u32 = 0;
    proof {
        lemma2_to64();
    }
    while i < n
        invariant
            i <= n < 128,
            r == pow2(i as nat),
        decreases n - i,
    {
        proof {
            lemma_pow2_unfold((i + 1) as nat);
            lemma_fits(i);
        }
        r = r * 2;
        i = i + 1;
    }
    r
}

proof fn lemma_fits(i: u32)
    requires
        i < 127,
    ensures
        2 * pow2(i as nat) <= u128::MAX,
        pow2(i as nat) <= 0x4000_0000_0000_0000_0000_0000_0000_0000,
{
    lemma2_to64();
    lemma2_to64_rest();
    lemma_pow2_adds(63, 63);
    if i < 126 {
        lemma_pow2_strictly_increases(i as nat, 126);
    }
    assert(pow2(63) * pow2(63) == 0x4000_0000_0000_0000_0000_0000_0000_0000) by (nonlinear_arith)
        requires
            pow2(63) == 0x8000_0000_0000_0000,
    ;
}

/// The number of binary digits of `n`.
fn digits(n: u128) -> (l: u32)
    requires
        0 < n < pow2(126),
    ensures
        0 < l <= 126,
        pow2((l - 1) as nat) <= n < pow2(l as nat),
{
    let mut l: u32 = 0;
    let mut p: u128 = 1;
    proof {
        lemma2_to64();
    }
    while p <= n
        invariant
            0 < n < pow2(126),
            p == pow2(l as nat),
            l <= 126,
            l > 0 ==> pow2((l - 1) as nat) <= n,
            l == 0 ==> p == 1,
        decreases 127 - l,
    {
        proof {
            if l >= 126 {
                assert(l == 126);
            }
            lemma_pow2_unfold((l + 1) as nat);
            lemma_fits(l);
        }
        p = p * 2;
        l = l + 1;
    }
    l
}

/// What `round_bits` is told of the number it rounds: `num / den` lies at
/// `sig * 2^(up - down)`, or strictly between that and the next `sig`.
spec fn located(num: nat, den: nat, sig: nat, up: nat, down: nat, sticky: bool) -> bool {
    let a = pow2(up) * den;
    let b = pow2(down);
    if sticky {
        sig * a < num * b < (sig + 1) * a
    } else {
        num * b == sig * a
    }
}

/// The bracket that the kept digits `q` put round `num / den`, and where the
/// halfway point lies.
proof fn lemma_bracket(num: nat, den: nat, sig: nat, sticky: bool, q: nat, rem: nat, p: nat, a: nat, b: nat, d: nat)
    requires
        a > 0,
        b > 0,
        d > 0,
        p > 0,
        p * a == d * b,
        sig == q * p + rem,
        rem < p,
        if sticky {
            sig * a < num * b < (sig + 1) * a
        } else {
            num * b == sig * a
        },
    ensures
        q * d <= num < (q + 1) * d,
        2 * rem < p && (2 * rem + 2 <= p || !sticky) ==> 2 * num < (2 * q + 1) * d,
        2 * rem == p && !sticky ==> 2 * num == (2 * q + 1) * d,
        2 * rem > p || 2 * rem == p && sticky ==> 2 * num > (2 * q + 1) * d,
{
    let e = rem * a;
    assert(sig * a == q * (d * b) + e) by (nonlinear_arith)
        requires
            sig == q * p + rem,
            p * a == d * b,
            e == rem * a,
    ;
    assert((sig + 1) * a == sig * a + a) by (nonlinear_arith);
    assert(e + a <= d * b) by (nonlinear_arith)
        requires
            e == rem * a,
            rem + 1 <= p,
            p * a == d * b,
            a > 0,
    ;
    assert(e >= 0) by (nonlinear_arith)
        requires
            e == rem * a,
            a > 0,
            rem >= 0,
    ;
    assert(q * (d * b) == (q * d) * b) by (nonlinear_arith);
    assert((q + 1) * d * b == (q * d) * b + d * b) by (nonlinear_arith);
    assert((2 * q + 1) * d * b == 2 * ((q * d) * b) + d * b) by (nonlinear_arith);
    assert(2 * num * b == 2 * (num * b)) by (nonlinear_arith);
    assert(q * d <= num) by (nonlinear_arith)
        requires
            (q * d) * b <= num * b,
            b > 0,
    ;
    assert(num < (q + 1) * d) by (nonlinear_arith)
        requires
            num * b < (q + 1) * d * b,
            b > 0,
    ;
    if 2 * rem < p && (2 * rem + 2 <= p || !sticky) {
        assert(2 * e + (if sticky { 2 * a } else { 0 }) <= d * b && (!sticky ==> 2 * e < d * b)) by (nonlinear_arith)
            requires
                e == rem * a,
                2 * rem < p && (2 * rem + 2 <= p || !sticky),
                p * a == d * b,
                a > 0,
        ;
        assert(2 * num < (2 * q + 1) * d) by (nonlinear_arith)
            requires
                2 * num * b < (2 * q + 1) * d * b,
                b > 0,
        ;
    }
    if 2 * rem == p && !sticky {
        assert(2 * e == d * b) by (nonlinear_arith)
            requires
                e == rem * a,
                2 * rem == p,
                p * a == d * b,
        ;
        assert(2 * num == (2 * q + 1) * d) by (nonlinear_arith)
            requires
                2 * num * b == (2 * q + 1) * d * b,
                b > 0,
        ;
    }
    if 2 * rem > p || 2 * rem == p && sticky {
        assert(2 * e >= d * b && (2 * rem > p ==> 2 * e > d * b)) by (nonlinear_arith)
            requires
                e == rem * a,
                2 * rem >= p,
                p * a == d * b,
                a > 0,
        ;
        assert(2 * num > (2 * q + 1) * d) by (nonlinear_arith)
            requires
                2 * num * b > (2 * q + 1) * d * b,
                b > 0,
        ;
    }
}

/// From the bracket to the nearest index.
proof fn lemma_nearest(num: nat, den: nat, q: nat, t: nat, d: nat)
    requires
        den > 0,
        q < 0x100_0000,
        q >= 0x80_0000 || t == 0,
        t <= 253,
        d == pow2(t) * den,
        q * d <= num < (q + 1) * d,
    ensures
        2 * num < (2 * q + 1) * d || 2 * num == (2 * q + 1) * d && q % 2 == 0 ==> nearest(
            num,
            den,
            t * 0x80_0000 + q,
        ),
        2 * num > (2 * q + 1) * d || 2 * num == (2 * q + 1) * d && q % 2 == 1 ==> nearest(
            num,
            den,
            t * 0x80_0000 + q + 1,
        ),
        t * 0x80_0000 + q < 0x7f80_0000,
{
    let m = t * 0x80_0000 + q;
    let p = pow2(t);
    lemma_pow2_pos(t);
    lemma_mag_form(t, q);
    lemma_mag_form(t, q + 1);
    assert(m % 2 == q % 2);
    assert(den * (mag(m) + mag(m + 1)) == (2 * q + 1) * d) by (nonlinear_arith)
        requires
            mag(m) == q * p,
            mag(m + 1) == (q + 1) * p,
            d == p * den,
    ;
    assert(den * (2 * mag(m)) == 2 * (q * d)) by (nonlinear_arith)
        requires
            mag(m) == q * p,
            d == p * den,
    ;
    assert(den * (2 * mag(m + 1)) == 2 * ((q + 1) * d)) by (nonlinear_arith)
        requires
            mag(m + 1) == (q + 1) * p,
            d == p * den,
    ;
    if m > 0 {
        lemma_mag_step((m - 1) as nat);
        let s = mag((m - 1) as nat) + mag(m);
        assert(den * s < den * (2 * mag(m))) by (nonlinear_arith)
            requires
                s < 2 * mag(m),
                den > 0,
        ;
    }
    lemma_mag_step(m + 1);
    let s = mag(m + 1) + mag(m + 2);
    assert(den * (2 * mag(m + 1)) < den * s) by (nonlinear_arith)
        requires
            2 * mag(m + 1) < s,
            den > 0,
    ;
}

/// Beyond the last finite magnitude everything rounds to infinity.
proof fn lemma_overflow(num: nat, den: nat, q: nat, t: nat, d: nat)
    requires
        den > 0,
        q >= 0x80_0000,
        t >= 254,
        d == pow2(t) * den,
        q * d <= num,
    ensures
        nearest(num, den, 0x7f80_0000),
{
    lemma_mag_form(254, 0x80_0000);
    assert(254 * 0x80_0000 + 0x80_0000 == 0x7f80_0000);
    if t > 254 {
        lemma_pow2_strictly_increases(254, t);
    }
    let top = mag(0x7f80_0000);
    lemma_pow2_pos(254);
    assert(den * (2 * top) <= 2 * num) by (nonlinear_arith)
        requires
            top == 0x80_0000 * pow2(254),
            q >= 0x80_0000,
            pow2(t) >= pow2(254),
            pow2(254) > 0,
            d == pow2(t) * den,
            q * d <= num,
            den > 0,
    ;
    lemma_mag_step(0x7f7f_ffff);
    let s = mag(0x7f7f_ffff) + top;
    assert(den * s < den * (2 * top)) by (nonlinear_arith)
        requires
            s < 2 * top,
            den > 0,
    ;
}

/// The index nearest to the number that lies at `sig * 2^exp` (or, where
/// `sticky`, just above).
fn round_bits(
    sig: u128,
    exp: i32,
    sticky: bool,
    Ghost(num): Ghost<nat>,
    Ghost(den): Ghost<nat>,
    Ghost(up): Ghost<nat>,
    Ghost(down): Ghost<nat>,
) -> (index: u32)
    requires
        0 < sig < pow2(125),
        sticky ==> sig >= 0x400_0000,
        -1000 < exp < 1000,
        exp == up - down,
        den > 0,
        located(num, den, sig as nat, up, down, sticky),
    ensures
        index == round(num, den),
        index <= INF_INDEX,
{
    proof {
        lemma_pow2_strictly_increases(125, 126);
        lemma_pow2_pos(up);
        lemma_pow2_pos(down);
        lemma2_to64();
    }
    let l: u32 = digits(sig);
    let ghost a = pow2(up) * den;
    let ghost b = pow2(down);
    assert(a > 0) by (nonlinear_arith)
        requires
            pow2(up) > 0,
            den > 0,
            a == pow2(up) * den,
    ;
    let by_len: i32 = l as i32 - 24;
    let s: i32 = if by_len > -exp { by_len } else { -exp };
    let t: i32 = exp + s;
    let ghost d = pow2(t as nat) * den;
    proof {
        lemma_pow2_pos(t as nat);
        assert(d > 0) by (nonlinear_arith)
            requires
                pow2(t as nat) > 0,
                den > 0,
                d == pow2(t as nat) * den,
        ;
        if sticky && l < 27 {
            if l < 26 {
                lemma_pow2_strictly_increases(l as nat, 26);
            }
        }
    }
    if s >= 127 {
        proof {
            lemma_scale(up, down, s as nat, t as nat, den);
            lemma_pow2_pos(s as nat);
            lemma_pow2_strictly_increases(125, s as nat);
            lemma_pow2_unfold(126);
            if s > 126 {
                lemma_pow2_strictly_increases(126, s as nat);
            }
            assert(0 * pow2(s as nat) == 0) by (nonlinear_arith);
            lemma_bracket(num, den, sig as nat, sticky, 0, sig as nat, pow2(s as nat), a, b, d);
            assert(by_len < s);
            lemma_nearest(num, den, 0, t as nat, d);
            lemma_round_is(num, den, 0);
        }
        return 0;
    }
    if s <= 0 {
        let sh: u32 = (-s) as u32;
        proof {
            lemma_scale(up, down, 0, 0, den);
        }
        let ghost f = pow2(sh as nat);
        proof {
            lemma_left(sig as nat, l as nat, sh as nat);
            lemma_scale_left(up, down, sh as nat, t as nat, den);
        }
        let p: u128 = power(sh);
        let q: u128 = sig * p;
        proof {
            assert(num == q * d) by (nonlinear_arith)
                requires
                    num * b == sig * a,
                    a == f * d * b,
                    q == sig * f,
                    b > 0,
            ;
            assert(num < (q + 1) * d && 2 * num < (2 * q + 1) * d && q * d <= num) by (nonlinear_arith)
                requires
                    num == q * d,
                    d > 0,
            ;
            if t <= 253 {
                lemma_nearest(num, den, q as nat, t as nat, d);
                lemma_round_is(num, den, (t * 0x80_0000 + q) as nat);
            } else {
                lemma_overflow(num, den, q as nat, t as nat, d);
                lemma_round_is(num, den, 0x7f80_0000);
            }
        }
        if t > 253 {
            return INF_INDEX;
        }
        return (t as u32) * HIDDEN + q as u32;
    }
    let p: u128 = power(s as u32);
    let half: u128 = power((s - 1) as u32);
    proof {
        lemma_pow2_pos(s as nat);
    }
    let q: u128 = sig / p;
    let rem: u128 = sig % p;
    proof {
        lemma_scale(up, down, s as nat, t as nat, den);
        lemma_pow2_pos(s as nat);
        lemma_pow2_unfold(s as nat);
        lemma_kept(sig as nat, l as nat, s as nat, q as nat, rem as nat);
        lemma_bracket(num, den, sig as nat, sticky, q as nat, rem as nat, p as nat, a, b, d);
        if t > 253 {
            assert(s == by_len);
            lemma_overflow(num, den, q as nat, t as nat, d);
            lemma_round_is(num, den, 0x7f80_0000);
        } else {
            lemma_nearest(num, den, q as nat, t as nat, d);
        }
    }
    if t > 253 {
        return INF_INDEX;
    }
    let m: u32 = (t as u32) * HIDDEN + q as u32;
    if rem > half || (rem == half && (sticky || q % 2 == 1)) {
        proof {
            lemma_round_is(num, den, (m + 1) as nat);
        }
        m + 1
    } else {
        proof {
            lemma_round_is(num, den, m as nat);
        }
        m
    }
}

proof fn lemma_scale(up: nat, down: nat, s: nat, t: nat, den: nat)
    requires
        up + s == t + down || s == 0 && t == 0,
    ensures
        up + s == t + down ==> pow2(s) * (pow2(up) * den) == (pow2(t) * den) * pow2(down),
{
    lemma_pow2_adds(s, up);
    lemma_pow2_adds(t, down);
    if up + s == t + down {
        assert(pow2(s) * (pow2(up) * den) == (pow2(t) * den) * pow2(down)) by (nonlinear_arith)
            requires
                pow2(s) * pow2(up) == pow2(t) * pow2(down),
        ;
    }
}

proof fn lemma_scale_left(up: nat, down: nat, sh: nat, t: nat, den: nat)
    requires
        up == t + down + sh,
    ensures
        pow2(up) * den == pow2(sh) * (pow2(t) * den) * pow2(down),
{
    lemma_pow2_adds(t, down);
    lemma_pow2_adds(sh, t + down);
    assert(pow2(up) * den == pow2(sh) * (pow2(t) * den) * pow2(down)) by (nonlinear_arith)
        requires
            pow2(up) == pow2(sh) * pow2(t + down),
            pow2(t + down) == pow2(t) * pow2(down),
    ;
}

/// Shifting left keeps the digits within 24 places.
proof fn lemma_left(sig: nat, l: nat, sh: nat)
    requires
        0 < l,
        l + sh <= 24,
        pow2((l - 1) as nat) <= sig < pow2(l),
    ensures
        sig * pow2(sh) < 0x100_0000,
        l + sh == 24 ==> sig * pow2(sh) >= 0x80_0000,
{
    lemma2_to64();
    lemma_pow2_adds(l, sh);
    lemma_pow2_adds((l - 1) as nat, sh);
    lemma_pow2_pos(sh);
    if l + sh < 24 {
        lemma_pow2_strictly_increases(l + sh, 24);
    }
    let p = pow2(sh);
    assert(sig * p < pow2(l) * p && sig * p >= pow2((l - 1) as nat) * p) by (nonlinear_arith)
        requires
            pow2((l - 1) as nat) <= sig < pow2(l),
            p > 0,
    ;
}

/// Dropping `s` of `l` digits keeps `l - s` of them.
proof fn lemma_kept(sig: nat, l: nat, s: nat, q: nat, rem: nat)
    requires
        0 < l,
        0 < s,
        l <= s + 24,
        pow2((l - 1) as nat) <= sig < pow2(l),
        q == sig / pow2(s),
        rem == sig % pow2(s),
    ensures
        sig == q * pow2(s) + rem,
        rem < pow2(s),
        q < 0x100_0000,
        l == s + 24 ==> q >= 0x80_0000,
{
    lemma2_to64();
    lemma_pow2_pos(s);
    let p = pow2(s);
    assert(sig == q * p + rem && rem < p) by {
        vstd::arithmetic::div_mod::lemma_fundamental_div_mod(sig as int, p as int);
        vstd::arithmetic::div_mod::lemma_mod_bound(sig as int, p as int);
        lemma_mul_is_commutative(p as int, q as int);
    }
    lemma_pow2_adds(24, s);
    if l < s + 24 {
        lemma_pow2_strictly_increases(l, s + 24);
    }
    assert(q < 0x100_0000) by (nonlinear_arith)
        requires
            q * p <= sig,
            sig < 0x100_0000 * p,
    ;
    if l == s + 24 {
        lemma_pow2_adds(23, s);
        assert((q + 1) * p == q * p + p) by (nonlinear_arith);
        assert(q >= 0x80_0000) by (nonlinear_arith)
            requires
                sig < (q + 1) * p,
                sig >= 0x80_0000 * p,
        ;
    }
}


/// An index is the nearest to its own magnitude.
pub proof fn lemma_round_mag(index: nat)
    requires
        index <= 0x7f80_0000,
    ensures
        round(mag(index), 1) == index,
{
    lemma_mag_step(index);
    if index > 0 {
        lemma_mag_step((index - 1) as nat);
    }
    lemma_round_is(mag(index), 1, index);
}

/// The scalar with this sign and index.
pub open spec fn assemble(neg: bool, index: nat) -> Scalar {
    Scalar {
        bits: (if neg {
            index + 0x8000_0000
        } else {
            index
        }) as u32,
    }
}

/// The one NaN that arithmetic gives.
pub open spec fn nan() -> Scalar {
    Scalar { bits: 0x7fc0_0000 }
}

/// `exact` units of 2^-149, rounded; a zero takes the sign asked for.
pub open spec fn rounded(exact: int, zero_neg: bool) -> Scalar {
    if exact == 0 {
        assemble(zero_neg, 0)
    } else if exact < 0 {
        assemble(true, round((-exact) as nat, 1))
    } else {
        assemble(false, round(exact as nat, 1))
    }
}

impl Scalar {
    /// The sign bit.
    pub open spec fn spec_is_neg(self) -> bool {
        self.bits >= 0x8000_0000
    }

    /// The place of the magnitude among all magnitudes.
    pub open spec fn index(self) -> nat {
        if self.spec_is_neg() {
            (self.bits - 0x8000_0000) as nat
        } else {
            self.bits as nat
        }
    }

    /// Not a number.
    pub open spec fn spec_is_nan(self) -> bool {
        self.index() > 0x7f80_0000
    }

    /// Either infinity.
    pub open spec fn spec_is_infinite(self) -> bool {
        self.index() == 0x7f80_0000
    }

    /// Neither infinite nor NaN.
    pub open spec fn spec_is_finite(self) -> bool {
        self.index() < 0x7f80_0000
    }

    /// The number in units of 2^-149; an infinity counts as one step beyond
    /// the largest finite number, which is where it sorts.
    pub open spec fn val(self) -> int {
        if self.spec_is_neg() {
            -(mag(self.index()) as int)
        } else {
            mag(self.index()) as int
        }
    }

    #[verifier::opaque]
    pub open spec fn spec_lt(self, other: Scalar) -> bool {
        !self.spec_is_nan() && !other.spec_is_nan() && self.val() < other.val()
    }

    #[verifier::opaque]
    pub open spec fn spec_le(self, other: Scalar) -> bool {
        !self.spec_is_nan() && !other.spec_is_nan() && self.val() <= other.val()
    }

    #[verifier::opaque]
    pub open spec fn spec_same(self, other: Scalar) -> bool {
        !self.spec_is_nan() && !other.spec_is_nan() && self.val() == other.val()
    }

    pub open spec fn spec_negate(self) -> Scalar {
        assemble(!self.spec_is_neg(), self.index())
    }

    #[verifier::opaque]
    pub open spec fn spec_plus(self, other: Scalar) -> Scalar {
        if self.spec_is_nan() || other.spec_is_nan() {
            nan()
        } else if self.spec_is_infinite() && other.spec_is_infinite() && self != other {
            nan()
        } else if self.spec_is_infinite() {
            self
        } else if other.spec_is_infinite() {
            other
        } else {
            rounded(self.val() + other.val(), self.spec_is_neg() && other.spec_is_neg())
        }
    }

    pub open spec fn spec_minus(self, other: Scalar) -> Scalar {
        self.spec_plus(other.spec_negate())
    }

    #[verifier::opaque]
    pub open spec fn spec_times(self, other: Scalar) -> Scalar {
        let neg = self.spec_is_neg() != other.spec_is_neg();
        if self.spec_is_nan() || other.spec_is_nan() {
            nan()
        } else if self.spec_is_infinite() || other.spec_is_infinite() {
            if self.index() == 0 || other.index() == 0 {
                nan()
            } else {
                assemble(neg, 0x7f80_0000)
            }
        } else {
            assemble(neg, round(mag(self.index()) * mag(other.index()), pow2(149)))
        }
    }

    #[verifier::opaque]
    pub open spec fn spec_over(self, other: Scalar) -> Scalar {
        let neg = self.spec_is_neg() != other.spec_is_neg();
        if self.spec_is_nan() || other.spec_is_nan() {
            nan()
        } else if self.spec_is_infinite() {
            if other.spec_is_infinite() {
                nan()
            } else {
                assemble(neg, 0x7f80_0000)
            }
        } else if other.spec_is_infinite() {
            assemble(neg, 0)
        } else if other.index() == 0 {
            if self.index() == 0 {
                nan()
            } else {
                assemble(neg, 0x7f80_0000)
            }
        } else {
            assemble(neg, round(mag(self.index()) * pow2(149), mag(other.index())))
        }
    }

    pub open spec fn spec_at_most(self, other: Scalar) -> Scalar {
        if self.spec_is_nan() || other.spec_lt(self) {
            other
        } else {
            self
        }
    }

    pub open spec fn spec_at_least(self, other: Scalar) -> Scalar {
        if self.spec_is_nan() || self.spec_lt(other) {
            other
        } else {
            self
        }
    }

    pub open spec fn spec_clamped(self, low: Scalar, high: Scalar) -> Scalar {
        if self.spec_lt(low) {
            low
        } else if high.spec_lt(self) {
            high
        } else {
            self
        }
    }

    #[verifier::opaque]
    pub open spec fn spec_truncated(self, limit: u64) -> u64 {
        if self.spec_is_nan() || self.spec_is_neg() {
            0
        } else if self.spec_is_infinite() || mag(self.index()) / pow2(149) >= limit {
            limit
        } else {
            (mag(self.index()) / pow2(149)) as u64
        }
    }

    /// Whether the sign bit is set.
    #[verifier::when_used_as_spec(spec_is_neg)]
    pub fn is_neg(self) -> (r: bool)
        ensures
            r == self.spec_is_neg(),
    {
        self.bits >= SIGN
    }

    fn index_bits(self) -> (r: u32)
        ensures
            r == self.index(),
            r < SIGN,
    {
        if self.bits >= SIGN {
            self.bits - SIGN
        } else {
            self.bits
        }
    }

    /// Whether this is not a number.
    #[verifier::when_used_as_spec(spec_is_nan)]
    pub fn is_nan(self) -> (r: bool)
        ensures
            r == self.spec_is_nan(),
    {
        self.index_bits() > INF_INDEX
    }

    /// Whether this is an infinity.
    #[verifier::when_used_as_spec(spec_is_infinite)]
    pub fn is_infinite(self) -> (r: bool)
        ensures
            r == self.spec_is_infinite(),
    {
        self.index_bits() == INF_INDEX
    }

    /// Whether this is a number short of infinity.
    #[verifier::when_used_as_spec(spec_is_finite)]
    pub fn is_finite(self) -> (r: bool)
        ensures
            r == self.spec_is_finite(),
    {
        self.index_bits() < INF_INDEX
    }

    /// `self < other`; false where either is NaN.
    #[verifier::when_used_as_spec(spec_lt)]
    pub fn lt(self, other: Scalar) -> (r: bool)
        ensures
            r == self.spec_lt(other),
    {
        proof {
            reveal(Scalar::spec_lt);
        }
        let a: u32 = self.index_bits();
        let b: u32 = other.index_bits();
        proof {
            lemma_order(self, other);
        }
        if a > INF_INDEX || b > INF_INDEX {
            false
        } else if a == 0 && b == 0 {
            false
        } else if self.is_neg() {
            if other.is_neg() {
                b < a
            } else {
                true
            }
        } else {
            !other.is_neg() && a < b
        }
    }

    /// `self <= other`; false where either is NaN.
    #[verifier::when_used_as_spec(spec_le)]
    pub fn le(self, other: Scalar) -> (r: bool)
        ensures
            r == self.spec_le(other),
    {
        proof {
            reveal(Scalar::spec_le);
            reveal(Scalar::spec_lt);
        }
        !self.is_nan() && !other.is_nan() && !other.lt(self)
    }

    /// `self == other` as numbers: the zeros are equal, a NaN equals nothing.
    #[verifier::when_used_as_spec(spec_same)]
    pub fn same(self, other: Scalar) -> (r: bool)
        ensures
            r == self.spec_same(other),
    {
        proof {
            reveal(Scalar::spec_same);
            reveal(Scalar::spec_le);
        }
        self.le(other) && other.le(self)
    }

    /// `-self`.
    #[verifier::when_used_as_spec(spec_negate)]
    pub fn negate(self) -> (r: Scalar)
        ensures
            r == self.spec_negate(),
    {
        if self.bits >= SIGN {
            Scalar { bits: self.bits - SIGN }
        } else {
            Scalar { bits: self.bits + SIGN }
        }
    }

    /// `self + other`.
    #[verifier::when_used_as_spec(spec_plus)]
    pub fn plus(self, other: Scalar) -> (r: Scalar)
        ensures
            r == self.spec_plus(other),
    {
        proof {
            reveal(Scalar::spec_plus);
        }
        if self.is_nan() || other.is_nan() {
            return Scalar { bits: 0x7fc0_0000 };
        }
        if self.is_infinite() {
            if other.is_infinite() && self.bits != other.bits {
                return Scalar { bits: 0x7fc0_0000 };
            }
            return self;
        }
        if other.is_infinite() {
            return other;
        }
        let a: u32 = self.index_bits();
        let b: u32 = other.index_bits();
        proof {
            lemma_round_mag(a as nat);
            lemma_round_mag(b as nat);
            lemma_order(self, other);
            assert(mag(0) == 0);
        }
        if a == 0 && b == 0 {
            return put(self.is_neg() && other.is_neg(), 0);
        }
        if a == 0 {
            return other;
        }
        if b == 0 {
            return self;
        }
        let (qa, ta) = unpack(a);
        let (qb, tb) = unpack(b);
        if ta >= tb {
            sum(self.is_neg(), qa, ta, other.is_neg(), qb, tb)
        } else {
            sum(other.is_neg(), qb, tb, self.is_neg(), qa, ta)
        }
    }

    /// `self - other`.
    #[verifier::when_used_as_spec(spec_minus)]
    pub fn minus(self, other: Scalar) -> (r: Scalar)
        ensures
            r == self.spec_minus(other),
    {
        self.plus(other.negate())
    }

    /// `self * other`.
    #[verifier::when_used_as_spec(spec_times)]
    pub fn times(self, other: Scalar) -> (r: Scalar)
        ensures
            r == self.spec_times(other),
    {
        proof {
            reveal(Scalar::spec_times);
        }
        let neg = self.is_neg() != other.is_neg();
        if self.is_nan() || other.is_nan() {
            return Scalar { bits: 0x7fc0_0000 };
        }
        let a: u32 = self.index_bits();
        let b: u32 = other.index_bits();
        if a == INF_INDEX || b == INF_INDEX {
            if a == 0 || b == 0 {
                return Scalar { bits: 0x7fc0_0000 };
            }
            return put(neg, INF_INDEX);
        }
        let (qa, ta) = unpack(a);
        let (qb, tb) = unpack(b);
        let ghost num = mag(a as nat) * mag(b as nat);
        proof {
            lemma_pow2_pos(149);
            assert(qa * qb < 0x100_0000 * 0x100_0000) by (nonlinear_arith)
                requires
                    qa < 0x100_0000,
                    qb < 0x100_0000,
            ;
        }
        let sig: u128 = (qa as u128) * (qb as u128);
        if sig == 0 {
            proof {
                assert(qa == 0 || qb == 0) by (nonlinear_arith)
                    requires
                        qa * qb == 0,
                ;
                assert(num == 0) by (nonlinear_arith)
                    requires
                        qa == 0 || qb == 0,
                        num == (qa * pow2(ta as nat)) * (qb * pow2(tb as nat)),
                ;
                lemma_round_zero(pow2(149));
            }
            return put(neg, 0);
        }
        proof {
            lemma_pow2_adds(ta as nat, tb as nat);
            assert(num * pow2(149) == sig * (pow2((ta + tb) as nat) * pow2(149))) by (nonlinear_arith)
                requires
                    sig == qa * qb,
                    num == (qa * pow2(ta as nat)) * (qb * pow2(tb as nat)),
                    pow2((ta + tb) as nat) == pow2(ta as nat) * pow2(tb as nat),
            ;
            lemma2_to64_rest();
            lemma_pow2_strictly_increases(48, 125);
        }
        let m: u32 = round_bits(
            sig,
            ta as i32 + tb as i32 - 149,
            false,
            Ghost(num),
            Ghost(pow2(149)),
            Ghost((ta + tb) as nat),
            Ghost(149),
        );
        put(neg, m)
    }

    /// `self / other`.
    #[verifier::when_used_as_spec(spec_over)]
    pub fn over(self, other: Scalar) -> (r: Scalar)
        ensures
            r == self.spec_over(other),
    {
        proof {
            reveal(Scalar::spec_over);
        }
        let neg = self.is_neg() != other.is_neg();
        if self.is_nan() || other.is_nan() {
            return Scalar { bits: 0x7fc0_0000 };
        }
        let a: u32 = self.index_bits();
        let b: u32 = other.index_bits();
        if a == INF_INDEX {
            if b == INF_INDEX {
                return Scalar { bits: 0x7fc0_0000 };
            }
            return put(neg, INF_INDEX);
        }
        if b == INF_INDEX {
            return put(neg, 0);
        }
        if b == 0 {
            if a == 0 {
                return Scalar { bits: 0x7fc0_0000 };
            }
            return put(neg, INF_INDEX);
        }
        let (qa, ta) = unpack(a);
        let (qb, tb) = unpack(b);
        let ghost num = mag(a as nat) * pow2(149);
        let ghost den = mag(b as nat);
        proof {
            assert(mag(0) == 0);
            lemma_mag_increases(0, b as nat);
        }
        if a == 0 {
            proof {
                assert(num == 0) by (nonlinear_arith)
                    requires
                        num == mag(a as nat) * pow2(149),
                        mag(a as nat) == 0,
                ;
                lemma_round_zero(den);
            }
            return put(neg, 0);
        }
        proof {
            lemma_mag_increases(0, a as nat);
            assert(qa > 0 && qb > 0) by (nonlinear_arith)
                requires
                    qa * pow2(ta as nat) > 0,
                    qb * pow2(tb as nat) > 0,
            ;
            assert(qa * 0x1_0000_0000_0000_0000 < 0x100_0000 * 0x1_0000_0000_0000_0000);
        }
        let wide: u128 = (qa as u128) * 0x1_0000_0000_0000_0000;
        let sig: u128 = wide / (qb as u128);
        let rem: u128 = wide % (qb as u128);
        proof {
            vstd::arithmetic::div_mod::lemma_fundamental_div_mod(wide as int, qb as int);
            vstd::arithmetic::div_mod::lemma_mod_bound(wide as int, qb as int);
            assert(sig * qb == qb * sig) by (nonlinear_arith);
            assert(sig >= 0x100_0000_0000 && sig <= wide) by (nonlinear_arith)
                requires
                    qb * sig + rem == wide,
                    rem < qb,
                    0 < qb < 0x100_0000,
                    wide >= 0x1_0000_0000_0000_0000,
            ;
            lemma_quotient(qa as nat, ta as nat, qb as nat, tb as nat, sig as nat, rem as nat, num, den);
            lemma2_to64();
            lemma_pow2_adds(24, 64);
            lemma_pow2_strictly_increases(88, 125);
        }
        let m: u32 = round_bits(
            sig,
            ta as i32 - tb as i32 + 85,
            rem != 0,
            Ghost(num),
            Ghost(den),
            Ghost((ta + 149) as nat),
            Ghost((tb + 64) as nat),
        );
        put(neg, m)
    }

    /// The smaller of two numbers; the other one where one is NaN.
    #[verifier::when_used_as_spec(spec_at_most)]
    pub fn at_most(self, other: Scalar) -> (r: Scalar)
        ensures
            r == self.spec_at_most(other),
    {
        if self.is_nan() || other.lt(self) {
            other
        } else {
            self
        }
    }

    /// The larger of two numbers; the other one where one is NaN.
    #[verifier::when_used_as_spec(spec_at_least)]
    pub fn at_least(self, other: Scalar) -> (r: Scalar)
        ensures
            r == self.spec_at_least(other),
    {
        if self.is_nan() || self.lt(other) {
            other
        } else {
            self
        }
    }

    /// The nearest number in `low..=high`; a NaN stays.
    #[verifier::when_used_as_spec(spec_clamped)]
    pub fn clamped(self, low: Scalar, high: Scalar) -> (r: Scalar)
        ensures
            r == self.spec_clamped(low, high),
    {
        if self.lt(low) {
            low
        } else if high.lt(self) {
            high
        } else {
            self
        }
    }

    /// The whole part of a number that is not negative (2^64 where it is not
    /// smaller), and what follows it: 0 nothing, 1 less than a half, 2 at least
    /// a half.
    fn whole_part(self) -> (r: (u128, u8))
        requires
            self.spec_is_finite(),
        ensures
            ({
                let n = mag(self.index());
                let p = pow2(149);
                &&& r.0 == n / p || r.0 == 0x1_0000_0000_0000_0000 && n / p >= r.0
                &&& r.0 < 0x1_0000_0000_0000_0000 ==> {
                    &&& r.1 == 0 <==> n % p == 0
                    &&& r.1 == 2 <==> 2 * (n % p) >= p
                    &&& r.1 <= 2
                }
            }),
    {
        let a: u32 = self.index_bits();
        let (q, t) = unpack(a);
        let ghost n = mag(a as nat);
        let ghost p = pow2(149);
        proof {
            lemma_pow2_pos(149);
        }
        if t >= 149 {
            let up: u32 = t - 149;
            let ghost k = (q * pow2(up as nat)) as nat;
            proof {
                lemma_pow2_adds(149, up as nat);
                assert(n == k * p) by (nonlinear_arith)
                    requires
                        n == q * pow2(t as nat),
                        pow2(t as nat) == p * pow2(up as nat),
                        k == q * pow2(up as nat),
                ;
                vstd::arithmetic::div_mod::lemma_fundamental_div_mod_converse(
                    n as int,
                    p as int,
                    k as int,
                    0,
                );
                assert(q >= 0x80_0000);
                lemma2_to64_rest();
            }
            if up >= 64 {
                proof {
                    if up > 64 {
                        lemma_pow2_strictly_increases(64, up as nat);
                    }
                    assert(k >= 0x1_0000_0000_0000_0000) by (nonlinear_arith)
                        requires
                            q >= 1,
                            pow2(up as nat) >= 0x1_0000_0000_0000_0000,
                            k == q * pow2(up as nat),
                    ;
                }
                return (0x1_0000_0000_0000_0000, 0);
            }
            proof {
                lemma_pow2_strictly_increases(up as nat, 64);
                assert(k < 0x100_0000 * 0x1_0000_0000_0000_0000) by (nonlinear_arith)
                    requires
                        q < 0x100_0000,
                        pow2(up as nat) < 0x1_0000_0000_0000_0000,
                        k == q * pow2(up as nat),
                ;
            }
            let w: u128 = (q as u128) * power(up);
            if w >= 0x1_0000_0000_0000_0000 {
                (0x1_0000_0000_0000_0000, 0)
            } else {
                (w, 0)
            }
        } else {
            let down: u32 = 149 - t;
            let ghost d = pow2(down as nat);
            let ghost e = pow2(t as nat);
            proof {
                lemma_pow2_adds(t as nat, down as nat);
                lemma_pow2_pos(t as nat);
                lemma_pow2_pos(down as nat);
                lemma_pow2_unfold(down as nat);
                lemma2_to64();
            }
            if down >= 127 {
                proof {
                    lemma_pow2_strictly_increases(25, down as nat);
                    assert(2 * n < p) by (nonlinear_arith)
                        requires
                            n == q * e,
                            p == e * d,
                            2 * q < d,
                            e > 0,
                    ;
                    vstd::arithmetic::div_mod::lemma_fundamental_div_mod_converse(
                        n as int,
                        p as int,
                        0,
                        n as int,
                    );
                    assert(q == 0 <==> n == 0) by (nonlinear_arith)
                        requires
                            n == q * e,
                            e > 0,
                    ;
                }
                return (
                    0,
                    if q == 0 {
                        0
                    } else {
                        1
                    },
                );
            }
            let base: u128 = power(down);
            let half: u128 = power(down - 1);
            let w: u128 = (q as u128) / base;
            let rem: u128 = (q as u128) % base;
            proof {
                vstd::arithmetic::div_mod::lemma_fundamental_div_mod(q as int, d as int);
                vstd::arithmetic::div_mod::lemma_mod_bound(q as int, d as int);
                assert(n == w * p + rem * e) by (nonlinear_arith)
                    requires
                        n == q * e,
                        p == e * d,
                        q == d * w + rem,
                ;
                assert(0 <= rem * e < p) by (nonlinear_arith)
                    requires
                        0 <= rem < d,
                        p == e * d,
                        e > 0,
                ;
                vstd::arithmetic::div_mod::lemma_fundamental_div_mod_converse(
                    n as int,
                    p as int,
                    w as int,
                    (rem * e) as int,
                );
                assert(rem == 0 <==> rem * e == 0) by (nonlinear_arith)
                    requires
                        e > 0,
                        rem >= 0,
                ;
                assert(rem >= half <==> 2 * (rem * e) >= p) by (nonlinear_arith)
                    requires
                        e > 0,
                        p == e * d,
                        d == 2 * half,
                ;
                vstd::arithmetic::div_mod::lemma_div_is_ordered_by_denominator(q as int, 1, d as int);
            }
            (
                w,
                if rem == 0 {
                    0
                } else if rem >= half {
                    2
                } else {
                    1
                },
            )
        }
    }

    /// The whole part, between 0 and `limit`; 0 for a NaN.
    #[verifier::when_used_as_spec(spec_truncated)]
    pub fn truncated(self, limit: u64) -> (r: u64)
        ensures
            r == self.spec_truncated(limit),
            r <= limit,
    {
        proof {
            reveal(Scalar::spec_truncated);
        }
        if self.is_nan() || self.is_neg() {
            return 0;
        }
        if self.is_infinite() {
            return limit;
        }
        let (w, _) = self.whole_part();
        if w >= limit as u128 {
            limit
        } else {
            w as u64
        }
    }

    #[verifier::opaque]
    pub open spec fn spec_ceiled(self, limit: u64) -> u64 {
        let n = mag(self.index());
        if self.spec_is_nan() || self.spec_is_neg() {
            0
        } else if self.spec_is_infinite() || n / pow2(149) >= limit {
            limit
        } else if n % pow2(149) == 0 {
            (n / pow2(149)) as u64
        } else {
            (n / pow2(149) + 1) as u64
        }
    }

    /// The number rounded up to a whole one, between 0 and `limit`; 0 for a NaN.
    #[verifier::when_used_as_spec(spec_ceiled)]
    pub fn ceiled(self, limit: u64) -> (r: u64)
        ensures
            r == self.spec_ceiled(limit),
            r <= limit,
    {
        proof {
            reveal(Scalar::spec_ceiled);
        }
        if self.is_nan() || self.is_neg() {
            return 0;
        }
        if self.is_infinite() {
            return limit;
        }
        let (w, rest) = self.whole_part();
        if w >= limit as u128 {
            limit
        } else if rest == 0 {
            w as u64
        } else {
            w as u64 + 1
        }
    }

    pub open spec fn spec_ceil(self) -> Scalar {
        let size = self.spec_size();
        if !self.spec_is_finite() || size.spec_truncated(0x100_0000) >= 0x80_0000 {
            self
        } else if self.spec_is_neg() {
            spec_whole(size.spec_truncated(0x100_0000)).spec_negate()
        } else {
            spec_whole(self.spec_ceiled(0x100_0000))
        }
    }

    /// The number rounded up to a whole one. From 2^23 on every number is whole.
    #[verifier::when_used_as_spec(spec_ceil)]
    pub fn ceil(self) -> (r: Scalar)
        ensures
            r == self.spec_ceil(),
    {
        let size = self.size();
        let n: u64 = size.truncated(0x100_0000);
        if !self.is_finite() || n >= 0x80_0000 {
            self
        } else if self.is_neg() {
            whole(n).negate()
        } else {
            whole(self.ceiled(0x100_0000))
        }
    }

    pub open spec fn spec_size(self) -> Scalar {
        if self.spec_is_neg() {
            self.spec_negate()
        } else {
            self
        }
    }

    /// The number without its sign.
    #[verifier::when_used_as_spec(spec_size)]
    pub fn size(self) -> (r: Scalar)
        ensures
            r == self.spec_size(),
    {
        if self.is_neg() {
            self.negate()
        } else {
            self
        }
    }

    pub open spec fn spec_wrapped(self) -> Scalar {
        let size = self.spec_size();
        let whole_part = size.spec_truncated(0x100_0000);
        if !self.spec_is_finite() {
            nan()
        } else {
            let rest = if whole_part >= 0x80_0000 {
                spec_whole(0)
            } else {
                size.spec_minus(spec_whole(whole_part))
            };
            if !self.spec_is_neg() {
                rest
            } else if rest.spec_negate().spec_lt(spec_whole(0)) {
                rest.spec_negate().spec_plus(spec_whole(1))
            } else {
                rest.spec_negate()
            }
        }
    }

    /// The number less as many ones as bring it between 0 and 1. From 2^23 on
    /// every number is whole.
    #[verifier::when_used_as_spec(spec_wrapped)]
    pub fn wrapped(self) -> (r: Scalar)
        ensures
            r == self.spec_wrapped(),
    {
        let size = self.size();
        let whole_part: u64 = size.truncated(0x100_0000);
        if !self.is_finite() {
            Scalar { bits: 0x7fc0_0000 }
        } else {
            let rest = if whole_part >= 0x80_0000 {
                whole(0)
            } else {
                size.minus(whole(whole_part))
            };
            if !self.is_neg() {
                rest
            } else if rest.negate().lt(whole(0)) {
                rest.negate().plus(whole(1))
            } else {
                rest.negate()
            }
        }
    }

    #[verifier::opaque]
    pub open spec fn spec_nearest_byte(self) -> u8 {
        let n = mag(self.index());
        if self.spec_is_nan() || self.spec_is_neg() {
            0
        } else if self.spec_is_infinite() || n / pow2(149) >= 255 {
            255
        } else if 2 * (n % pow2(149)) >= pow2(149) {
            (n / pow2(149) + 1) as u8
        } else {
            (n / pow2(149)) as u8
        }
    }

    /// The nearest whole number, a half going up, between 0 and 255; 0 for a
    /// NaN.
    #[verifier::when_used_as_spec(spec_nearest_byte)]
    pub fn nearest_byte(self) -> (r: u8)
        ensures
            r == self.spec_nearest_byte(),
    {
        proof {
            reveal(Scalar::spec_nearest_byte);
        }
        if self.is_nan() || self.is_neg() {
            return 0;
        }
        if self.is_infinite() {
            return 255;
        }
        let (w, rest) = self.whole_part();
        if w >= 255 {
            255
        } else if rest == 2 {
            w as u8 + 1
        } else {
            w as u8
        }
    }
}

proof fn lemma_round_zero(den: nat)
    requires
        den > 0,
    ensures
        round(0, den) == 0,
{
    assert(mag(0) == 0);
    assert(mag(1) == 1);
    assert(den * (mag(0) + mag(1)) == den) by (nonlinear_arith)
        requires
            mag(0) + mag(1) == 1,
    ;
    lemma_round_is(0, den, 0);
}

/// How the indices order two scalars.
proof fn lemma_order(a: Scalar, b: Scalar)
    ensures
        mag(0) == 0,
        a.index() < b.index() ==> mag(a.index()) < mag(b.index()),
        b.index() < a.index() ==> mag(b.index()) < mag(a.index()),
        a.index() > 0 ==> mag(a.index()) > 0,
        b.index() > 0 ==> mag(b.index()) > 0,
{
    assert(mag(0) == 0);
    if a.index() < b.index() {
        lemma_mag_increases(a.index(), b.index());
    }
    if b.index() < a.index() {
        lemma_mag_increases(b.index(), a.index());
    }
    if a.index() > 0 {
        lemma_mag_increases(0, a.index());
    }
    if b.index() > 0 {
        lemma_mag_increases(0, b.index());
    }
}

proof fn lemma_quotient(qa: nat, ta: nat, qb: nat, tb: nat, sig: nat, rem: nat, num: nat, den: nat)
    requires
        qb > 0,
        rem < qb,
        qb * sig + rem == qa * 0x1_0000_0000_0000_0000,
        num == (qa * pow2(ta)) * pow2(149),
        den == qb * pow2(tb),
    ensures
        located(num, den, sig, ta + 149, tb + 64, rem != 0),
{
    let k = pow2(ta + 149) * pow2(tb);
    lemma2_to64_rest();
    lemma_pow2_adds(ta, 149);
    lemma_pow2_adds(tb, 64);
    lemma_pow2_pos(ta + 149);
    lemma_pow2_pos(tb);
    let w = qa * 0x1_0000_0000_0000_0000;
    assert(num * pow2(tb + 64) == w * k) by (nonlinear_arith)
        requires
            num == (qa * pow2(ta)) * pow2(149),
            pow2(ta + 149) == pow2(ta) * pow2(149),
            pow2(tb + 64) == pow2(tb) * 0x1_0000_0000_0000_0000,
            w == qa * 0x1_0000_0000_0000_0000,
            k == pow2(ta + 149) * pow2(tb),
    ;
    let a = pow2(ta + 149) * den;
    assert(sig * a == (qb * sig) * k && (sig + 1) * a == (qb * sig + qb) * k) by (nonlinear_arith)
        requires
            a == pow2(ta + 149) * den,
            den == qb * pow2(tb),
            k == pow2(ta + 149) * pow2(tb),
    ;
    assert(k > 0) by (nonlinear_arith)
        requires
            k == pow2(ta + 149) * pow2(tb),
            pow2(ta + 149) > 0,
            pow2(tb) > 0,
    ;
    if rem != 0 {
        let low = qb * sig;
        assert(low * k < w * k < (low + qb) * k) by (nonlinear_arith)
            requires
                low < w < low + qb,
                k > 0,
        ;
    }
}

/// The significand and exponent of a finite index.
fn unpack(index: u32) -> (r: (u32, u32))
    requires
        index < INF_INDEX,
    ensures
        r.0 < 0x100_0000,
        r.0 >= 0x80_0000 || r.1 == 0,
        r.1 <= 253,
        mag(index as nat) == r.0 * pow2(r.1 as nat),
{
    proof {
        lemma_parts(index as nat);
    }
    let e: u32 = index / HIDDEN;
    let f: u32 = index % HIDDEN;
    if e == 0 {
        (f, 0)
    } else {
        (HIDDEN + f, e - 1)
    }
}

/// The scalar with this sign and index.
fn put(neg: bool, index: u32) -> (r: Scalar)
    requires
        index <= INF_INDEX,
    ensures
        r == assemble(neg, index as nat),
{
    if neg {
        Scalar { bits: index + SIGN }
    } else {
        Scalar { bits: index }
    }
}

/// The value of a sign, significand and exponent.
spec fn signed(neg: bool, q: nat, t: nat) -> int {
    if neg {
        -((q * pow2(t)) as int)
    } else {
        (q * pow2(t)) as int
    }
}

/// The rounded sum of two nonzero numbers, the first with the larger exponent.
fn sum(na: bool, qa: u32, ta: u32, nb: bool, qb: u32, tb: u32) -> (r: Scalar)
    requires
        0 < qa < 0x100_0000,
        0 < qb < 0x100_0000,
        tb <= ta <= 253,
        qa >= 0x80_0000 || ta == 0,
    ensures
        r == rounded(
            signed(na, qa as nat, ta as nat) + signed(nb, qb as nat, tb as nat),
            na && nb,
        ),
{
    let d: u32 = ta - tb;
    let ghost pa = qa * pow2(ta as nat);
    let ghost pb = qb * pow2(tb as nat);
    proof {
        lemma_pow2_pos(ta as nat);
        lemma_pow2_pos(tb as nat);
        lemma2_to64();
        lemma_pow2_adds(tb as nat, d as nat);
        lemma_pow2_strictly_increases(124, 125);
        assert(pa > 0 && pb > 0) by (nonlinear_arith)
            requires
                qa > 0,
                qb > 0,
                pow2(ta as nat) > 0,
                pow2(tb as nat) > 0,
                pa == qa * pow2(ta as nat),
                pb == qb * pow2(tb as nat),
        ;
    }
    if d <= 100 {
        proof {
            if d < 100 {
                lemma_pow2_strictly_increases(d as nat, 100);
            }
            lemma_pow2_adds(24, 100);
            lemma_pow2_pos(d as nat);
            lemma_fits(126);
            lemma_pow2_strictly_increases(125, 126);
            assert(qa * pow2(d as nat) < pow2(24) * pow2(100)) by (nonlinear_arith)
                requires
                    qa < pow2(24),
                    0 < pow2(d as nat) <= pow2(100),
            ;
            assert(qa * pow2(d as nat) > 0) by (nonlinear_arith)
                requires
                    qa > 0,
                    pow2(d as nat) > 0,
            ;
            lemma_pow2_strictly_increases(24, 124);
            lemma_pow2_unfold(125);
        }
        let x: u128 = (qa as u128) * power(d);
        let y: u128 = qb as u128;
        let ghost p = pow2(tb as nat);
        proof {
            assert(pa == x * p) by (nonlinear_arith)
                requires
                    pa == qa * pow2(ta as nat),
                    pow2(ta as nat) == p * pow2(d as nat),
                    x == qa * pow2(d as nat),
            ;
            assert((x + y) * p == pa + pb && (x - y) * p == pa - pb) by (nonlinear_arith)
                requires
                    pa == x * p,
                    pb == y * p,
            ;
            assert(x > y ==> pa > pb) by (nonlinear_arith)
                requires
                    pa == x * p,
                    pb == y * p,
                    p > 0,
            ;
            assert(y > x ==> pb > pa) by (nonlinear_arith)
                requires
                    pa == x * p,
                    pb == y * p,
                    p > 0,
            ;
        }
        if na == nb {
            let ghost num = (pa + pb) as nat;
            proof {
                lemma_place(num, (x + y) as nat, tb as nat);
            }
            let m: u32 = round_bits(x + y, tb as i32, false, Ghost(num), Ghost(1), Ghost(tb as nat), Ghost(0));
            put(na, m)
        } else if x == y {
            put(false, 0)
        } else if x > y {
            let ghost num = (pa - pb) as nat;
            proof {
                lemma_place(num, (x - y) as nat, tb as nat);
            }
            let m: u32 = round_bits(x - y, tb as i32, false, Ghost(num), Ghost(1), Ghost(tb as nat), Ghost(0));
            put(na, m)
        } else {
            let ghost num = (pb - pa) as nat;
            proof {
                assert((y - x) * p == pb - pa) by (nonlinear_arith)
                    requires
                        (x - y) * p == pa - pb,
                ;
                lemma_place(num, (y - x) as nat, tb as nat);
            }
            let m: u32 = round_bits(y - x, tb as i32, false, Ghost(num), Ghost(1), Ghost(tb as nat), Ghost(0));
            put(nb, m)
        }
    } else {
        let ghost k = (ta - 60) as nat;
        let base: u128 = (qa as u128) * 0x1000_0000_0000_0000;
        let ghost p = pow2(k);
        proof {
            lemma2_to64_rest();
            lemma_pow2_adds(60, k);
            lemma_pow2_pos(k);
            assert(pa == base * p) by (nonlinear_arith)
                requires
                    pa == qa * pow2(ta as nat),
                    pow2(ta as nat) == 0x1000_0000_0000_0000 * p,
                    base == qa * 0x1000_0000_0000_0000,
            ;
            lemma_pow2_adds(24, tb as nat);
            assert(pb < pow2(24) * pow2(tb as nat)) by (nonlinear_arith)
                requires
                    pb == qb * pow2(tb as nat),
                    qb < pow2(24),
                    pow2(tb as nat) > 0,
            ;
            lemma_pow2_strictly_increases((24 + tb) as nat, k);
            lemma_pow2_adds(24, 60);
            lemma_pow2_strictly_increases(84, 125);
        }
        if na == nb {
            let ghost num = (pa + pb) as nat;
            proof {
                assert((base + 1) * p == pa + p) by (nonlinear_arith)
                    requires
                        pa == base * p,
                ;
                lemma_place_above(num, base as nat, k);
            }
            let m: u32 = round_bits(base, ta as i32 - 60, true, Ghost(num), Ghost(1), Ghost(k), Ghost(0));
            put(na, m)
        } else {
            let ghost num = (pa - pb) as nat;
            proof {
                assert((base - 1) * p == pa - p) by (nonlinear_arith)
                    requires
                        pa == base * p,
                ;
                assert(pa >= p) by (nonlinear_arith)
                    requires
                        pa == base * p,
                        base >= 1,
                        p > 0,
                ;
                lemma_place_above(num, (base - 1) as nat, k);
            }
            let m: u32 = round_bits(base - 1, ta as i32 - 60, true, Ghost(num), Ghost(1), Ghost(k), Ghost(0));
            put(na, m)
        }
    }
}

proof fn lemma_place(num: nat, sig: nat, up: nat)
    requires
        num == sig * pow2(up),
    ensures
        located(num, 1, sig, up, 0, false),
{
    lemma2_to64();
    assert(num * 1 == num && pow2(up) * 1 == pow2(up));
}

proof fn lemma_place_above(num: nat, sig: nat, up: nat)
    requires
        sig * pow2(up) < num < (sig + 1) * pow2(up),
    ensures
        located(num, 1, sig, up, 0, true),
{
    lemma2_to64();
    assert(num * 1 == num && pow2(up) * 1 == pow2(up));
}

/// The scalar nearest to a whole number.
#[verifier::opaque]
pub open spec fn spec_whole(n: u64) -> Scalar {
    assemble(false, round(n as nat * pow2(149), 1))
}

/// The scalar nearest to the whole number `n`.
#[verifier::when_used_as_spec(spec_whole)]
pub fn whole(n: u64) -> (r: Scalar)
    ensures
        r == spec_whole(n),
{
    proof {
        reveal(spec_whole);
    }
    let ghost num = n as nat * pow2(149);
    if n == 0 {
        proof {
            assert(num == 0) by (nonlinear_arith)
                requires
                    num == n as nat * pow2(149),
                    n == 0,
            ;
            lemma_round_zero(1);
        }
        return Scalar { bits: 0 };
    }
    proof {
        lemma_place(num, n as nat, 149);
        lemma2_to64_rest();
        lemma_pow2_strictly_increases(64, 125);
    }
    let m: u32 = round_bits(n as u128, 149, false, Ghost(num), Ghost(1), Ghost(149), Ghost(0));
    put(false, m)
}

/// The scalar nearest to a fraction whose terms are whole numbers up to 2^24.
pub open spec fn spec_ratio(a: u64, b: u64) -> Scalar {
    spec_whole(a).spec_over(spec_whole(b))
}

/// The scalar nearest to `a / b`, for terms up to 2^24.
#[verifier::when_used_as_spec(spec_ratio)]
pub fn ratio(a: u64, b: u64) -> (r: Scalar)
    ensures
        r == spec_ratio(a, b),
{
    whole(a).over(whole(b))
}

/// A whole number up to 2^24 is itself a scalar.
pub proof fn law_whole_exact(n: u64)
    requires
        n <= 0x100_0000,
    ensures
        whole(n).is_finite(),
        !whole(n).is_neg(),
        whole(n).val() == n * pow2(149),
{
    reveal(spec_whole);
    lemma_whole_index(n as nat, 149);
}

/// A number with at most 24 digits has an index.
pub proof fn lemma_whole_index(n: nat, t: nat)
    requires
        n <= 0x100_0000,
        t <= 200,
    ensures
        round(n * pow2(t), 1) < 0x7f80_0000,
        mag(round(n * pow2(t), 1)) == n * pow2(t),
    decreases t,
{
    if n >= 0x80_0000 || t == 0 {
        lemma_mag_form(t, n);
        lemma_round_mag(t * 0x80_0000 + n);
    } else {
        lemma_pow2_unfold(t);
        assert(n * pow2(t) == (2 * n) * pow2((t - 1) as nat)) by (nonlinear_arith)
            requires
                pow2(t) == 2 * pow2((t - 1) as nat),
        ;
        lemma_whole_index(2 * n, (t - 1) as nat);
    }
}

/// A sum that is itself a scalar is given without rounding.
pub proof fn law_plus_exact(a: Scalar, b: Scalar, c: Scalar)
    requires
        a.is_finite(),
        b.is_finite(),
        c.is_finite(),
        a.val() + b.val() == c.val(),
    ensures
        a.plus(b).val() == c.val(),
        a.plus(b).is_finite(),
{
    reveal(Scalar::spec_plus);
    lemma_round_mag(c.index());
    assert(mag(0) == 0);
    lemma_order(c, c);
}

/// Adding zero changes no number's value.
pub proof fn law_plus_zero(a: Scalar)
    requires
        a.is_finite(),
    ensures
        a.plus(whole(0)).val() == a.val(),
{
    law_whole_exact(0);
    assert(0 * pow2(149) == 0) by (nonlinear_arith);
    law_plus_exact(a, whole(0), a);
}

/// Addition does not depend on the order of its terms.
pub proof fn law_plus_commutes(a: Scalar, b: Scalar)
    ensures
        a.plus(b) == b.plus(a),
{
    reveal(Scalar::spec_plus);
}

/// A number less itself is zero.
pub proof fn law_minus_self(a: Scalar)
    requires
        a.is_finite(),
    ensures
        a.minus(a) == whole(0),
{
    reveal(Scalar::spec_plus);
    reveal(spec_whole);
    assert(a.negate().index() == a.index());
    assert(a.negate().val() == -a.val());
    lemma_round_zero(1);
    assert(0 * pow2(149) == 0) by (nonlinear_arith);
}

/// A number times one is itself.
pub proof fn law_times_one(a: Scalar)
    requires
        a.is_finite(),
    ensures
        a.times(whole(1)) == a,
{
    reveal(Scalar::spec_times);
    law_whole_exact(1);
    let i = a.index();
    let m = mag(i);
    let p = pow2(149);
    lemma_pow2_pos(149);
    lemma_mag_step(i);
    let above = mag(i + 1);
    assert(2 * (m * p) < p * (m + above)) by (nonlinear_arith)
        requires
            p > 0,
            m < above,
    ;
    if i > 0 {
        lemma_mag_step((i - 1) as nat);
        let below = mag((i - 1) as nat);
        assert(2 * (m * p) > p * (below + m)) by (nonlinear_arith)
            requires
                p > 0,
                below < m,
        ;
    }
    lemma_round_is(m * p, p, i);
}

/// Adding a number that is not negative never makes a sum smaller.
pub proof fn law_plus_grows(a: Scalar, b: Scalar)
    requires
        a.is_finite(),
        b.is_finite(),
        0 <= b.val(),
    ensures
        a.le(a.plus(b)),
{
    reveal(Scalar::spec_plus);
    reveal(Scalar::spec_le);
    let exact = a.val() + b.val();
    lemma_order(a, b);
    if exact == 0 {
    } else if exact > 0 {
        let n = exact as nat;
        lemma_round_exists(n);
        let m = round(n, 1);
        if a.val() >= 0 {
            lemma_round_floor(n, a.index());
            if a.index() < m {
                lemma_mag_increases(a.index(), m);
            }
        }
        assert(a.plus(b).index() == m);
    } else {
        let n = (-exact) as nat;
        lemma_round_exists(n);
        lemma_round_ceiling(n, a.index());
        let m = round(n, 1);
        if m < a.index() {
            lemma_mag_increases(m, a.index());
        }
        assert(a.plus(b).index() == m);
    }
}

/// Every magnitude has a nearest index.
proof fn lemma_round_exists(n: nat)
    ensures
        nearest(n, 1, round(n, 1)),
        round(n, 1) <= 0x7f80_0000,
{
    let i = lemma_floor(n, 0x7f80_0000);
    if i == 0x7f80_0000 {
        lemma_mag_step(0x7f7f_ffff);
        assert(nearest(n, 1, i));
    } else {
        lemma_mag_step(i);
        lemma_mag_step(i + 1);
        if i > 0 {
            lemma_mag_step((i - 1) as nat);
        }
        let s = mag(i) + mag(i + 1);
        if 2 * n < s || 2 * n == s && i % 2 == 0 {
            assert(nearest(n, 1, i));
        } else {
            assert(nearest(n, 1, i + 1));
        }
    }
}

/// The last index up to `top` whose magnitude is at most `n`.
proof fn lemma_floor(n: nat, top: nat) -> (i: nat)
    ensures
        i <= top,
        mag(i) <= n,
        i < top ==> n < mag(i + 1),
    decreases top,
{
    if mag(top) <= n || top == 0 {
        assert(mag(0) == 0);
        top
    } else {
        let i = lemma_floor(n, (top - 1) as nat);
        i
    }
}

/// Rounding never passes below a magnitude that lies below.
proof fn lemma_round_floor(n: nat, i: nat)
    requires
        mag(i) <= n,
        i <= 0x7f80_0000,
    ensures
        i <= round(n, 1),
{
    lemma_round_exists(n);
    let m = round(n, 1);
    if m < i {
        lemma_mag_step(m);
        if m + 1 < i {
            lemma_mag_increases(m + 1, i);
        }
    }
}

/// Rounding never passes above a magnitude that lies above.
proof fn lemma_round_ceiling(n: nat, i: nat)
    requires
        n <= mag(i),
        i <= 0x7f80_0000,
    ensures
        round(n, 1) <= i,
{
    lemma_round_exists(n);
    let m = round(n, 1);
    if i < m {
        lemma_mag_step((m - 1) as nat);
        if i < m - 1 {
            lemma_mag_increases(i, (m - 1) as nat);
        }
    }
}


/// Whether the magnitude at `index` is the one nearest to the square root of
/// `n`, the even index winning a tie. The root of `n` units of 2^-149 is
/// `sqrt(n * 2^149)` units.
pub open spec fn is_root(n: nat, index: nat) -> bool {
    let up = mag(index) + mag(index + 1);
    let down = mag((index - 1) as nat) + mag(index);
    let target = 4 * (n * pow2(149));
    &&& index < 0x7f80_0000
    &&& target <= up * up
    &&& target == up * up ==> index % 2 == 0
    &&& index > 0 ==> {
        &&& down * down <= target
        &&& target == down * down ==> index % 2 == 0
    }
}

/// The index of the square root of `n` units.
pub open spec fn root(n: nat) -> nat {
    choose|index: nat| is_root(n, index)
}

proof fn lemma_root_apart(n: nat, a: nat, b: nat)
    requires
        a <= b,
        is_root(n, a),
        is_root(n, b),
    ensures
        a == b,
{
    let low = mag(a) + mag(a + 1);
    let high = mag((b - 1) as nat) + mag(b);
    if a + 1 < b {
        lemma_mag_increases(a, (b - 1) as nat);
        lemma_mag_increases(a + 1, b);
        assert(low * low < high * high) by (nonlinear_arith)
            requires
                0 <= low < high,
        ;
    } else if a < b {
        assert(low == high);
    }
}

/// At most one index is the root, so [`root`] is that one.
pub proof fn lemma_root_is(n: nat, index: nat)
    requires
        is_root(n, index),
    ensures
        root(n) == index,
{
    let other = root(n);
    if index <= other {
        lemma_root_apart(n, index, other);
    } else {
        lemma_root_apart(n, other, index);
    }
}

/// The whole part of the square root.
fn whole_root(w: u128) -> (s: u64)
    requires
        w < 0x400_0000_0000_0000_0000_0000_0000,
    ensures
        s * s <= w < (s + 1) * (s + 1),
        s < 0x20_0000_0000_0000,
{
    let mut low: u64 = 0;
    let mut high: u64 = 0x20_0000_0000_0000;
    while high - low > 1
        invariant
            low < high <= 0x20_0000_0000_0000,
            low * low <= w < high * high,
        decreases high - low,
    {
        let mid: u64 = low + (high - low) / 2;
        assert(mid * mid <= 0x20_0000_0000_0000 * 0x20_0000_0000_0000) by (nonlinear_arith)
            requires
                mid <= 0x20_0000_0000_0000,
        ;
        if (mid as u128) * (mid as u128) <= w {
            low = mid;
        } else {
            high = mid;
        }
    }
    low
}

proof fn lemma_square(a: int, g: int)
    by (nonlinear_arith)
    ensures
        (2 * (a * g)) * (2 * (a * g)) == 4 * ((a * a) * (g * g)),
{
}

proof fn lemma_below(down: int, low: int, w: int, g: int)
    requires
        0 <= down < 2 * (low * g),
        low * low <= w,
        g > 0,
    ensures
        down * down < 4 * (w * (g * g)),
{
    let x = 2 * (low * g);
    let gg = g * g;
    let ll = low * low;
    lemma_square(low, g);
    assert(down * down < x * x) by (nonlinear_arith)
        requires
            0 <= down < x,
    ;
    assert(gg > 0) by (nonlinear_arith)
        requires
            gg == g * g,
            g > 0,
    ;
    assert(ll * gg <= w * gg) by (nonlinear_arith)
        requires
            ll <= w,
            gg > 0,
    ;
}

proof fn lemma_above(beyond: int, top: int, w: int, g: int)
    requires
        0 <= 2 * (top * g) < beyond,
        w < top * top,
        g > 0,
    ensures
        4 * (w * (g * g)) < beyond * beyond,
{
    let x = 2 * (top * g);
    let gg = g * g;
    let tt = top * top;
    lemma_square(top, g);
    assert(x * x < beyond * beyond) by (nonlinear_arith)
        requires
            0 <= x < beyond,
    ;
    assert(gg > 0) by (nonlinear_arith)
        requires
            gg == g * g,
            g > 0,
    ;
    assert(w * gg < tt * gg) by (nonlinear_arith)
        requires
            w < tt,
            gg > 0,
    ;
}

/// Where the kept digits put the root of `w`.
proof fn lemma_root_bracket(n: nat, w: nat, s: nat, h: nat, q: nat, rem: nat, p: nat, half: nat, t: nat)
    requires
        n * pow2(149) == w * (pow2(h) * pow2(h)),
        s * s <= w < (s + 1) * (s + 1),
        p == 2 * half,
        half > 0,
        s == q * p + rem,
        rem < p,
        0x80_0000 <= q < 0x100_0000,
        t <= 252,
        pow2(t) == pow2(h) * p,
    ensures
        ({
            let m = t * 0x80_0000 + q;
            let up = rem > half || rem == half && (s * s < w || q % 2 == 1);
            &&& up ==> is_root(n, m + 1)
            &&& !up ==> is_root(n, m)
        }),
{
    let m = t * 0x80_0000 + q;
    let target = 4 * (n * pow2(149));
    let g = pow2(h);
    lemma_pow2_pos(h);
    lemma_mag_form(t, q);
    lemma_mag_form(t, q + 1);
    let low = q * p;
    let mid = low + half;
    let top = low + p;
    assert(mag(m) == low * g && mag(m + 1) == top * g) by (nonlinear_arith)
        requires
            mag(m) == q * pow2(t),
            mag(m + 1) == (q + 1) * pow2(t),
            pow2(t) == g * p,
            low == q * p,
            top == low + p,
    ;
    let gg = g * g;
    assert(gg > 0) by (nonlinear_arith)
        requires
            g > 0,
            gg == g * g,
    ;
    assert(target == 4 * (w * gg)) by (nonlinear_arith)
        requires
            target == 4 * (n * pow2(149)),
            n * pow2(149) == w * gg,
    ;
    assert(low * low <= w && w < top * top) by (nonlinear_arith)
        requires
            low <= s,
            s + 1 <= top,
            s * s <= w < (s + 1) * (s + 1),
            0 <= low,
    ;
    // The halfway point between the two magnitudes.
    let between = mag(m) + mag(m + 1);
    assert(between * between == 4 * ((mid * mid) * gg)) by (nonlinear_arith)
        requires
            between == low * g + top * g,
            top == low + 2 * half,
            mid == low + half,
            gg == g * g,
    ;
    if rem > half {
        assert(mid * mid < w) by (nonlinear_arith)
            requires
                mid + 1 <= s,
                s * s <= w,
                0 <= mid,
        ;
    } else if rem < half {
        assert(w < mid * mid) by (nonlinear_arith)
            requires
                s + 1 <= mid,
                w < (s + 1) * (s + 1),
                0 <= s,
        ;
    } else {
        assert(s == mid);
    }
    assert(w < mid * mid ==> target < between * between) by (nonlinear_arith)
        requires
            target == 4 * (w * gg),
            between * between == 4 * ((mid * mid) * gg),
            gg > 0,
    ;
    assert(mid * mid < w ==> between * between < target) by (nonlinear_arith)
        requires
            target == 4 * (w * gg),
            between * between == 4 * ((mid * mid) * gg),
            gg > 0,
    ;
    // Below the lower magnitude, and above the upper one.
    lemma_mag_step((m - 1) as nat);
    lemma_mag_step(m + 1);
    let down = mag((m - 1) as nat) + mag(m);
    let beyond = mag(m + 1) + mag(m + 2);
    lemma_below(down as int, low as int, w as int, g as int);
    lemma_above(beyond as int, top as int, w as int, g as int);
    assert(m % 2 == q % 2);
}

impl Scalar {
    #[verifier::opaque]
    pub open spec fn spec_sqrt(self) -> Scalar {
        if self.spec_is_nan() || (self.spec_is_neg() && self.index() > 0) {
            nan()
        } else if self.index() == 0 || self.spec_is_infinite() {
            self
        } else {
            assemble(false, root(mag(self.index())))
        }
    }

    /// The square root; NaN for a negative number.
    #[verifier::when_used_as_spec(spec_sqrt)]
    pub fn sqrt(self) -> (r: Scalar)
        ensures
            r == self.spec_sqrt(),
    {
        proof {
            reveal(Scalar::spec_sqrt);
        }
        let a: u32 = self.index_bits();
        if self.is_nan() || (self.is_neg() && a > 0) {
            return Scalar { bits: 0x7fc0_0000 };
        }
        if a == 0 || a == INF_INDEX {
            return self;
        }
        let (q, t) = unpack(a);
        proof {
            lemma_mag_increases(0, a as nat);
            assert(mag(0) == 0);
            assert(q > 0) by (nonlinear_arith)
                requires
                    q * pow2(t as nat) > 0,
            ;
        }
        // Scale by an even power so that the root has digits to spare.
        let k: u32 = if t % 2 == 1 {
            80
        } else {
            81
        };
        let h: u32 = (t + 149 - k) / 2;
        let ghost n = mag(a as nat);
        proof {
            lemma2_to64();
            lemma2_to64_rest();
            lemma_pow2_adds(40, 40);
            lemma_pow2_unfold(81);
            lemma_pow2_pos(k as nat);
            assert(pow2(80) == 0x1_0000_0000_0000_0000_0000) by (nonlinear_arith)
                requires
                    pow2(80) == pow2(40) * pow2(40),
                    pow2(40) == 0x100_0000_0000,
            ;
            lemma_pow2_adds(h as nat, h as nat);
            lemma_pow2_adds(k as nat, (2 * h) as nat);
            lemma_pow2_adds(t as nat, 149);
            assert(k + 2 * h == t + 149);
            assert(q * pow2(k as nat) < 0x100_0000 * 0x2_0000_0000_0000_0000_0000) by (nonlinear_arith)
                requires
                    q < 0x100_0000,
                    0 < pow2(k as nat) <= 0x2_0000_0000_0000_0000_0000,
            ;
            assert(q * pow2(k as nat) >= 0x1_0000_0000_0000_0000_0000) by (nonlinear_arith)
                requires
                    q >= 1,
                    pow2(k as nat) >= 0x1_0000_0000_0000_0000_0000,
            ;
        }
        let w: u128 = (q as u128) * power(k);
        let s: u64 = whole_root(w);
        proof {
            assert(s >= 0x100_0000_0000) by (nonlinear_arith)
                requires
                    w >= 0x1_0000_0000_0000_0000_0000,
                    w < (s + 1) * (s + 1),
            ;
            assert(n * pow2(149) == w * (pow2(h as nat) * pow2(h as nat))) by (nonlinear_arith)
                requires
                    n == q * pow2(t as nat),
                    w == q * pow2(k as nat),
                    pow2((t + 149) as nat) == pow2(t as nat) * pow2(149),
                    pow2((k + 2 * h) as nat) == pow2(k as nat) * pow2((2 * h) as nat),
                    pow2((2 * h) as nat) == pow2(h as nat) * pow2(h as nat),
                    k + 2 * h == t + 149,
            ;
            lemma_pow2_strictly_increases(53, 126);
        }
        let l: u32 = digits(s as u128);
        proof {
            if l <= 40 {
                if l < 40 {
                    lemma_pow2_strictly_increases(l as nat, 40);
                }
            }
            if l > 53 {
                if l > 54 {
                    lemma_pow2_strictly_increases(53, (l - 1) as nat);
                }
            }
        }
        let d: u32 = l - 24;
        let p: u128 = power(d);
        let half: u128 = power(d - 1);
        proof {
            lemma_pow2_pos(d as nat);
            lemma_pow2_pos((d - 1) as nat);
            lemma_pow2_unfold(d as nat);
        }
        let kept: u128 = (s as u128) / p;
        let rem: u128 = (s as u128) % p;
        let e: u32 = h + d;
        proof {
            lemma_kept(s as nat, l as nat, d as nat, kept as nat, rem as nat);
            lemma_pow2_adds(h as nat, d as nat);
            lemma_root_bracket(
                n,
                w as nat,
                s as nat,
                h as nat,
                kept as nat,
                rem as nat,
                p as nat,
                half as nat,
                e as nat,
            );
        }
        let m: u32 = e * HIDDEN + kept as u32;
        let exact = (s as u128) * (s as u128) == w;
        if rem > half || (rem == half && (!exact || kept % 2 == 1)) {
            proof {
                lemma_root_is(n, (m + 1) as nat);
            }
            put(false, m + 1)
        } else {
            proof {
                lemma_root_is(n, m as nat);
            }
            put(false, m)
        }
    }
}

} // verus!
