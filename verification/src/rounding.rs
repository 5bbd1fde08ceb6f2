//! How far scalar arithmetic may stray: each operation gives the exact result, in
//! units of 2^-149, up to one part in 2^24 of it, and keeps the order of its
//! arguments.

use crate::scalar::{self, whole, Scalar};
use vstd::arithmetic::power2::*;
use vstd::prelude::*;

verus! {

/// How far apart two numbers lie.
pub open spec fn apart(a: int, b: int) -> int {
    if a >= b {
        a - b
    } else {
        b - a
    }
}

/// A number without its sign.
pub open spec fn size(a: int) -> int {
    apart(a, 0)
}

/// The number 1, in units of 2^-149.
pub open spec fn unit() -> int {
    pow2(149) as int
}

/// The step from one magnitude to the next is 1, or at most the magnitude's share of
/// 2^23.
proof fn lemma_gap(i: nat)
    ensures
        scalar::mag(i + 1) - scalar::mag(i) == 1 || 0x80_0000 * (scalar::mag(i + 1) - scalar::mag(i)) <= scalar::mag(i),
        scalar::mag(i + 1) > scalar::mag(i),
        scalar::mag(i + 1) - scalar::mag(i) == 1 ==> scalar::mag(i) < 0x200_0000,
{
    scalar::lemma_parts(i);
    let (q, t) = scalar::parts(i);
    scalar::lemma_mag_step(i);
    scalar::lemma_mag_form(t, q + 1);
    lemma2_to64();
    let p = pow2(t);
    assert((q + 1) * p == q * p + p) by (nonlinear_arith);
    lemma_pow2_pos(t);
    if t > 0 {
        assert(q * p >= 0x80_0000 * p) by (nonlinear_arith)
            requires
                q >= 0x80_0000,
                p > 0,
        ;
        lemma_pow2_unfold(t);
    } else {
        assert(q * p == q) by (nonlinear_arith)
            requires
                p == 1,
        ;
    }
}

/// Every fraction has a nearest index.
proof fn lemma_has_nearest(num: nat, den: nat)
    requires
        den > 0,
    ensures
        scalar::nearest(num, den, scalar::round(num, den)),
{
    let i = lemma_floor_of(num, den, 0x7f80_0000);
    if i == 0x7f80_0000 {
        scalar::lemma_mag_step(0x7f7f_ffff);
        let m = scalar::mag(i);
        let below = scalar::mag(0x7f7f_ffff);
        assert(2 * num > den * (below + m)) by (nonlinear_arith)
            requires
                den * m <= num,
                below < m,
                den > 0,
        ;
        assert(scalar::nearest(num, den, i));
    } else {
        scalar::lemma_mag_step(i);
        scalar::lemma_mag_step(i + 1);
        let m = scalar::mag(i);
        let above = scalar::mag(i + 1);
        let further = scalar::mag(i + 2);
        if i > 0 {
            scalar::lemma_mag_step((i - 1) as nat);
            let below = scalar::mag((i - 1) as nat);
            assert(2 * num > den * (below + m)) by (nonlinear_arith)
                requires
                    den * m <= num,
                    below < m,
                    den > 0,
            ;
        }
        assert(2 * num < den * (above + further)) by (nonlinear_arith)
            requires
                num < den * above,
                above < further,
                den > 0,
        ;
        let s = den * (m + above);
        if 2 * num < s || 2 * num == s && i % 2 == 0 {
            assert(scalar::nearest(num, den, i));
        } else {
            assert(scalar::nearest(num, den, i + 1));
        }
    }
}

proof fn lemma_floor_of(num: nat, den: nat, top: nat) -> (i: nat)
    requires
        den > 0,
    ensures
        i <= top,
        den * scalar::mag(i) <= num,
        i < top ==> num < den * scalar::mag(i + 1),
    decreases top,
{
    if den * scalar::mag(top) <= num || top == 0 {
        assert(scalar::mag(0) == 0);
        assert(den * 0 == 0) by (nonlinear_arith);
        top
    } else {
        let i = lemma_floor_of(num, den, (top - 1) as nat);
        i
    }
}

/// How far rounding strays.
proof fn lemma_round_error(num: nat, den: nat)
    requires
        den > 0,
        scalar::round(num, den) < 0x7f80_0000,
    ensures
        ({
            let m = scalar::mag(scalar::round(num, den)) as int;
            let e = 0x100_0000 * apart(num as int, den * m);
            &&& e <= num + den * 0x80_0000
            &&& e <= den * m + den * 0x80_0000
            &&& den == 1 ==> e <= num && e <= m
        }),
{
    lemma_has_nearest(num, den);
    let i = scalar::round(num, den);
    let m = scalar::mag(i);
    lemma_gap(i);
    if num >= den * m {
        let g = scalar::mag(i + 1) - m;
        assert(2 * (num - den * m) <= den * g) by (nonlinear_arith)
            requires
                2 * num <= den * (m + (m + g)),
        ;
        if g != 1 {
            assert(0x80_0000 * (den * g) <= den * m) by (nonlinear_arith)
                requires
                    0x80_0000 * g <= m,
                    den > 0,
            ;
        } else {
            assert(den * g == den) by (nonlinear_arith)
                requires
                    g == 1,
            ;
        }
        assert(den == 1 ==> den * m == m) by (nonlinear_arith);
    } else {
        if i == 0 {
            assert(den * m == 0) by (nonlinear_arith)
                requires
                    m == 0,
            ;
        }
        lemma_gap((i - 1) as nat);
        let below = scalar::mag((i - 1) as nat);
        let g = m - below;
        assert(2 * (den * m - num) <= den * g) by (nonlinear_arith)
            requires
                2 * num >= den * (below + m),
                g == m - below,
        ;
        assert(den * below <= num) by (nonlinear_arith)
            requires
                2 * num >= den * (below + m),
                below < m,
                den > 0,
        ;
        if g != 1 {
            assert(0x80_0000 * (den * g) <= den * below) by (nonlinear_arith)
                requires
                    0x80_0000 * g <= below,
                    den > 0,
            ;
        } else {
            assert(den * g == den) by (nonlinear_arith)
                requires
                    g == 1,
            ;
        }
        assert(den == 1 ==> den * m == m) by (nonlinear_arith);
    }
    assert(den * 0x80_0000 >= 0) by (nonlinear_arith)
        requires
            den > 0,
    ;
}

/// A larger fraction never rounds to a smaller index.
proof fn lemma_round_monotone(num: nat, den: nat, more: nat, over: nat)
    requires
        den > 0,
        over > 0,
        num * over <= more * den,
    ensures
        scalar::round(num, den) <= scalar::round(more, over),
{
    lemma_has_nearest(num, den);
    lemma_has_nearest(more, over);
    let i = scalar::round(num, den);
    let j = scalar::round(more, over);
    if j < i {
        let low = scalar::mag((i - 1) as nat) + scalar::mag(i);
        let high = scalar::mag(j) + scalar::mag(j + 1);
        if j + 1 < i {
            scalar::lemma_mag_increases(j, (i - 1) as nat);
            scalar::lemma_mag_increases(j + 1, i);
        }
        assert(2 * num >= den * low && 2 * more <= over * high && high <= low);
        assert(high == low && 2 * num == den * low && 2 * more == over * high) by (nonlinear_arith)
            requires
                2 * num >= den * low,
                2 * more <= over * high,
                high <= low,
                num * over <= more * den,
                den > 0,
                over > 0,
        ;
        if j + 1 < i {
            assert(high < low);
        }
    }
}

/// A fraction that is a magnitude rounds to its index.
proof fn lemma_round_exact(num: nat, den: nat, i: nat)
    requires
        den > 0,
        num == den * scalar::mag(i),
        i <= 0x7f80_0000,
    ensures
        scalar::round(num, den) == i,
{
    let m = scalar::mag(i);
    scalar::lemma_mag_step(i);
    let above = scalar::mag(i + 1);
    assert(2 * num < den * (m + above)) by (nonlinear_arith)
        requires
            num == den * m,
            m < above,
            den > 0,
    ;
    if i > 0 {
        scalar::lemma_mag_step((i - 1) as nat);
        let below = scalar::mag((i - 1) as nat);
        assert(2 * num > den * (below + m)) by (nonlinear_arith)
            requires
                num == den * m,
                below < m,
                den > 0,
        ;
    }
    scalar::lemma_round_is(num, den, i);
}

/// A fraction between two magnitudes rounds between their indices.
proof fn lemma_round_at_most(num: nat, den: nat, i: nat)
    requires
        den > 0,
        num <= den * scalar::mag(i),
        i <= 0x7f80_0000,
    ensures
        scalar::round(num, den) <= i,
{
    let m = scalar::mag(i);
    lemma_round_exact(den * m, den, i);
    assert(num * den <= (den * m) * den) by (nonlinear_arith)
        requires
            num <= den * m,
            den > 0,
    ;
    lemma_round_monotone(num, den, den * m, den);
}

/// What an assembled scalar is.
proof fn lemma_assemble(neg: bool, i: nat)
    requires
        i <= 0x7f80_0000,
    ensures
        scalar::assemble(neg, i).index() == i,
        scalar::assemble(neg, i).is_neg() == neg,
        scalar::assemble(neg, i).val() == if neg {
            -scalar::mag(i)
        } else {
            scalar::mag(i) as int
        },
        scalar::mag(0) == 0,
{
}

/// A sum is the exact sum up to one part in 2^24.
pub proof fn law_plus_rounds(a: Scalar, b: Scalar)
    requires
        a.is_finite(),
        b.is_finite(),
        a.plus(b).is_finite(),
    ensures
        0x100_0000 * apart(a.plus(b).val(), a.val() + b.val()) <= size(a.val() + b.val()),
        0x100_0000 * apart(a.plus(b).val(), a.val() + b.val()) <= size(a.plus(b).val()),
{
    reveal(Scalar::spec_plus);
    let exact = a.val() + b.val();
    if exact > 0 {
        lemma_has_nearest(exact as nat, 1);
        lemma_assemble(false, scalar::round(exact as nat, 1));
        lemma_round_error(exact as nat, 1);
    } else if exact < 0 {
        lemma_has_nearest((-exact) as nat, 1);
        lemma_assemble(true, scalar::round((-exact) as nat, 1));
        lemma_round_error((-exact) as nat, 1);
    } else {
        lemma_assemble(a.is_neg() && b.is_neg(), 0);
    }
}

/// The exact opposite.
pub proof fn law_negate_exact(a: Scalar)
    requires
        !a.is_nan(),
    ensures
        a.negate().val() == -a.val(),
        a.negate().index() == a.index(),
        a.is_finite() ==> a.negate().is_finite(),
{
    lemma_assemble(!a.is_neg(), a.index());
}

/// A difference is the exact difference up to one part in 2^24.
pub proof fn law_minus_rounds(a: Scalar, b: Scalar)
    requires
        a.is_finite(),
        b.is_finite(),
        a.minus(b).is_finite(),
    ensures
        0x100_0000 * apart(a.minus(b).val(), a.val() - b.val()) <= size(a.val() - b.val()),
        0x100_0000 * apart(a.minus(b).val(), a.val() - b.val()) <= size(a.minus(b).val()),
{
    law_negate_exact(b);
    law_plus_rounds(a, b.negate());
}

/// A sum that is no larger than some number is given no larger than it.
pub proof fn law_plus_bounded(a: Scalar, b: Scalar, c: Scalar)
    requires
        a.is_finite(),
        b.is_finite(),
        c.is_finite(),
        size(a.val() + b.val()) <= size(c.val()),
    ensures
        a.plus(b).is_finite(),
        size(a.plus(b).val()) <= size(c.val()),
        a.val() + b.val() >= 0 ==> a.plus(b).val() >= 0,
        a.val() + b.val() <= 0 ==> a.plus(b).val() <= 0,
{
    reveal(Scalar::spec_plus);
    let exact = a.val() + b.val();
    let n = size(exact) as nat;
    lemma_has_nearest(n, 1);
    let m = scalar::mag(c.index());
    lemma_round_at_most(n, 1, c.index());
    let i = scalar::round(n, 1);
    if i < c.index() {
        scalar::lemma_mag_increases(i, c.index());
    }
    lemma_assemble(exact < 0, i);
    lemma_assemble(a.is_neg() && b.is_neg(), 0);
}

/// The same of a difference.
pub proof fn law_minus_bounded(a: Scalar, b: Scalar, c: Scalar)
    requires
        a.is_finite(),
        b.is_finite(),
        c.is_finite(),
        size(a.val() - b.val()) <= size(c.val()),
    ensures
        a.minus(b).is_finite(),
        size(a.minus(b).val()) <= size(c.val()),
        a.val() - b.val() >= 0 ==> a.minus(b).val() >= 0,
        a.val() - b.val() <= 0 ==> a.minus(b).val() <= 0,
{
    law_negate_exact(b);
    law_plus_bounded(a, b.negate(), c);
}

proof fn lemma_signs(a: Scalar, b: Scalar)
    ensures
        size(a.val()) == scalar::mag(a.index()),
        size(b.val()) == scalar::mag(b.index()),
        size(a.val() * b.val()) == scalar::mag(a.index()) * scalar::mag(b.index()),
        a.is_neg() != b.is_neg() ==> a.val() * b.val() == -(scalar::mag(a.index()) * scalar::mag(b.index())),
        a.is_neg() == b.is_neg() ==> a.val() * b.val() == scalar::mag(a.index()) * scalar::mag(b.index()),
        scalar::mag(a.index()) * scalar::mag(b.index()) >= 0,
        unit() > 0,
{
    let x = scalar::mag(a.index()) as int;
    let y = scalar::mag(b.index()) as int;
    lemma_pow2_pos(149);
    assert((-x) * y == -(x * y) && x * (-y) == -(x * y) && (-x) * (-y) == x * y) by (nonlinear_arith);
    assert(x * y >= 0) by (nonlinear_arith)
        requires
            x >= 0,
            y >= 0,
    ;
}

/// A product is the exact product up to one part in 2^24 of it and half a unit.
pub proof fn law_times_rounds(a: Scalar, b: Scalar)
    requires
        a.is_finite(),
        b.is_finite(),
        a.times(b).is_finite(),
    ensures
        0x100_0000 * apart(a.times(b).val() * unit(), a.val() * b.val()) <= size(a.val() * b.val())
            + unit() * 0x80_0000,
{
    reveal(Scalar::spec_times);
    lemma_signs(a, b);
    let num = scalar::mag(a.index()) * scalar::mag(b.index());
    let den = pow2(149);
    lemma_has_nearest(num, den);
    let i = scalar::round(num, den);
    let m = scalar::mag(i) as int;
    lemma_assemble(a.is_neg() != b.is_neg(), i);
    lemma_round_error(num, den);
    assert((-m) * den == -(den * m) && m * den == den * m) by (nonlinear_arith);
}

/// A product that is no larger than some number is given no larger than it, with the
/// sign that its factors give it.
pub proof fn law_times_bounded(a: Scalar, b: Scalar, c: Scalar)
    requires
        a.is_finite(),
        b.is_finite(),
        c.is_finite(),
        size(a.val() * b.val()) <= size(c.val()) * unit(),
    ensures
        a.times(b).is_finite(),
        size(a.times(b).val()) <= size(c.val()),
        a.val() * b.val() >= 0 ==> a.times(b).val() >= 0,
        a.val() * b.val() <= 0 ==> a.times(b).val() <= 0,
{
    reveal(Scalar::spec_times);
    lemma_signs(a, b);
    lemma_signs(c, c);
    let num = scalar::mag(a.index()) * scalar::mag(b.index());
    let den = pow2(149);
    let m = scalar::mag(c.index());
    assert(m * den == den * m) by (nonlinear_arith);
    lemma_round_at_most(num, den, c.index());
    let i = scalar::round(num, den);
    if i < c.index() {
        scalar::lemma_mag_increases(i, c.index());
    }
    lemma_assemble(a.is_neg() != b.is_neg(), i);
    if num == 0 {
        assert(den * 0 == 0) by (nonlinear_arith);
        lemma_round_exact(num, den, 0);
    }
}

/// A product that is itself a number is given without rounding.
pub proof fn law_times_exact(a: Scalar, b: Scalar, c: Scalar)
    requires
        a.is_finite(),
        b.is_finite(),
        c.is_finite(),
        a.val() * b.val() == c.val() * unit(),
    ensures
        a.times(b).is_finite(),
        a.times(b).val() == c.val(),
{
    reveal(Scalar::spec_times);
    lemma_signs(a, b);
    lemma_signs(c, c);
    let num = scalar::mag(a.index()) * scalar::mag(b.index());
    let den = pow2(149);
    let m = scalar::mag(c.index()) as int;
    assert((-m) * den == -(den * m) && m * den == den * m) by (nonlinear_arith);
    assert(den * m >= 0) by (nonlinear_arith)
        requires
            m >= 0,
            den >= 0,
    ;
    assert(m > 0 ==> den * m > 0) by (nonlinear_arith)
        requires
            den > 0,
    ;
    lemma_round_exact(num, den, c.index());
    lemma_assemble(a.is_neg() != b.is_neg(), c.index());
}

/// A quotient is the exact quotient up to one part in 2^24 of it and half a unit.
pub proof fn law_over_rounds(a: Scalar, b: Scalar)
    requires
        a.is_finite(),
        b.is_finite(),
        b.val() != 0,
        a.over(b).is_finite(),
    ensures
        0x100_0000 * apart(a.over(b).val() * b.val(), a.val() * unit()) <= size(a.val()) * unit()
            + size(b.val()) * 0x80_0000,
{
    reveal(Scalar::spec_over);
    lemma_signs(a, b);
    assert(scalar::mag(0) == 0);
    let num = scalar::mag(a.index()) * pow2(149);
    let den = scalar::mag(b.index());
    lemma_has_nearest(num, den);
    let i = scalar::round(num, den);
    let m = scalar::mag(i) as int;
    lemma_assemble(a.is_neg() != b.is_neg(), i);
    lemma_round_error(num, den);
    let x = scalar::mag(a.index()) as int;
    let u = unit();
    assert((-m) * den == -(den * m) && m * den == den * m && (-m) * (-den) == den * m && m * (-den)
        == -(den * m) && (-x) * u == -(x * u)) by (nonlinear_arith);
}

/// A quotient that is no larger than some number is given no larger than it, with the
/// sign that its terms give it.
pub proof fn law_over_bounded(a: Scalar, b: Scalar, c: Scalar)
    requires
        a.is_finite(),
        b.is_finite(),
        b.val() != 0,
        c.is_finite(),
        size(a.val()) * unit() <= size(c.val()) * size(b.val()),
    ensures
        a.over(b).is_finite(),
        size(a.over(b).val()) <= size(c.val()),
        a.val() * b.val() >= 0 ==> a.over(b).val() >= 0,
        a.val() * b.val() <= 0 ==> a.over(b).val() <= 0,
{
    reveal(Scalar::spec_over);
    lemma_signs(a, b);
    lemma_signs(c, c);
    assert(scalar::mag(0) == 0);
    let num = scalar::mag(a.index()) * pow2(149);
    let den = scalar::mag(b.index());
    let m = scalar::mag(c.index());
    assert(m * den == den * m) by (nonlinear_arith);
    lemma_round_at_most(num, den, c.index());
    let i = scalar::round(num, den);
    if i < c.index() {
        scalar::lemma_mag_increases(i, c.index());
    }
    lemma_assemble(a.is_neg() != b.is_neg(), i);
    let x = scalar::mag(a.index());
    if x * den == 0 {
        assert(x == 0) by (nonlinear_arith)
            requires
                x * den == 0,
                den > 0,
        ;
        assert(num == 0) by (nonlinear_arith)
            requires
                x == 0,
                num == x * pow2(149),
        ;
        assert(den * 0 == 0) by (nonlinear_arith);
        lemma_round_exact(num, den, 0);
    }
}

/// A quotient that is itself a number is given without rounding.
pub proof fn law_over_exact(a: Scalar, b: Scalar, c: Scalar)
    requires
        a.is_finite(),
        b.is_finite(),
        b.val() != 0,
        c.is_finite(),
        a.val() * unit() == c.val() * b.val(),
    ensures
        a.over(b).is_finite(),
        a.over(b).val() == c.val(),
{
    reveal(Scalar::spec_over);
    lemma_signs(a, b);
    lemma_signs(c, b);
    assert(scalar::mag(0) == 0);
    let num = scalar::mag(a.index()) * pow2(149);
    let den = scalar::mag(b.index());
    let m = scalar::mag(c.index());
    let x = scalar::mag(a.index()) as int;
    let u = unit();
    assert(m * den == den * m && (-x) * u == -(x * u)) by (nonlinear_arith);
    assert(x * u >= 0 && (x > 0 ==> x * u > 0)) by (nonlinear_arith)
        requires
            x >= 0,
            u > 0,
    ;
    assert(m * den == 0 ==> m == 0) by (nonlinear_arith)
        requires
            den > 0,
    ;
    lemma_round_exact(num, den, c.index());
    lemma_assemble(a.is_neg() != b.is_neg(), c.index());
}

/// The last index up to `top` whose magnitude squared is at most `n`.
proof fn lemma_floor_root(n: nat, top: nat) -> (i: nat)
    ensures
        i <= top,
        scalar::mag(i) * scalar::mag(i) <= n,
        i < top ==> n < scalar::mag(i + 1) * scalar::mag(i + 1),
    decreases top,
{
    if scalar::mag(top) * scalar::mag(top) <= n || top == 0 {
        assert(scalar::mag(0) == 0);
        assert(0 * 0 == 0int) by (nonlinear_arith);
        top
    } else {
        lemma_floor_root(n, (top - 1) as nat)
    }
}

/// Every positive number has a root.
proof fn lemma_has_root(a: Scalar)
    requires
        a.is_finite(),
    ensures
        scalar::is_root(scalar::mag(a.index()), scalar::root(scalar::mag(a.index()))),
{
    let n = scalar::mag(a.index());
    let target = n * pow2(149);
    let top = 0x7f00_0000nat;
    scalar::lemma_mag_increases(a.index(), 0x7f80_0000);
    scalar::lemma_mag_form(254, 0x80_0000);
    scalar::lemma_mag_form(253, 0x80_0000);
    assert(254 * 0x80_0000 + 0x80_0000 == 0x7f80_0000);
    assert(253 * 0x80_0000 + 0x80_0000 == top);
    lemma_pow2_unfold(254);
    lemma_pow2_strictly_increases(149, 253);
    lemma_pow2_pos(149);
    let g = pow2(253);
    let m = scalar::mag(top);
    assert(target < m * m) by (nonlinear_arith)
        requires
            target == n * pow2(149),
            n < 0x80_0000 * (2 * g),
            m == 0x80_0000 * g,
            0 < pow2(149) <= g,
    ;
    let i = lemma_floor_root(target, top);
    let low = scalar::mag(i);
    let above = scalar::mag(i + 1);
    scalar::lemma_mag_step(i);
    scalar::lemma_mag_step(i + 1);
    let between = low + above;
    let beyond = above + scalar::mag(i + 2);
    assert(4 * target < beyond * beyond) by (nonlinear_arith)
        requires
            target < above * above,
            2 * above < beyond,
            0 <= above,
    ;
    if i > 0 {
        scalar::lemma_mag_step((i - 1) as nat);
        let down = scalar::mag((i - 1) as nat) + low;
        assert(down * down < 4 * target) by (nonlinear_arith)
            requires
                low * low <= target,
                0 <= down < 2 * low,
        ;
    }
    if 4 * target < between * between || 4 * target == between * between && i % 2 == 0 {
        assert(scalar::is_root(n, i));
    } else {
        assert(scalar::is_root(n, i + 1));
    }
}

/// The square of a root is the number up to one part in 2^22.
pub proof fn law_sqrt_rounds(a: Scalar)
    requires
        a.is_finite(),
        a.val() > 0,
    ensures
        a.sqrt().is_finite(),
        a.sqrt().val() > 0,
        0x40_0000 * apart(a.sqrt().val() * a.sqrt().val(), a.val() * unit()) <= a.sqrt().val()
            * a.sqrt().val(),
{
    reveal(Scalar::spec_sqrt);
    let n = scalar::mag(a.index());
    lemma_has_root(a);
    let i = scalar::root(n);
    let m = scalar::mag(i) as int;
    lemma_assemble(false, i);
    lemma_gap(i);
    let target = 4 * (n * pow2(149));
    let g = scalar::mag(i + 1) - m;
    lemma_pow2_pos(149);
    lemma2_to64_rest();
    lemma_pow2_strictly_increases(64, 149);
    assert(target >= 4 * 0x1_0000_0000_0000_0000) by (nonlinear_arith)
        requires
            n >= 1,
            pow2(149) >= 0x1_0000_0000_0000_0000,
            target == 4 * (n * pow2(149)),
    ;
    let up = m + (m + g);
    if g == 1 {
        assert(up * up < 0x400_0001 * 0x400_0001) by (nonlinear_arith)
            requires
                0 <= up < 0x400_0001,
        ;
    }
    assert(m > 0);
    assert(target - 4 * (m * m) <= 4 * (m * g) + g * g) by (nonlinear_arith)
        requires
            target <= up * up,
            up == m + (m + g),
    ;
    assert(0x80_0000 * (m * g) <= m * m && 0x80_0000 * (g * g) <= m * m) by (nonlinear_arith)
        requires
            0x80_0000 * g <= m,
            g > 0,
            m > 0,
    ;
    lemma_gap((i - 1) as nat);
    let below = scalar::mag((i - 1) as nat);
    let h = m - below;
    let down = below + m;
    if h == 1 {
        assert(0x80_0000 * h <= m);
    }
    assert(4 * (m * m) - target <= 4 * (m * h)) by (nonlinear_arith)
        requires
            down * down <= target,
            down == (m - h) + m,
    ;
    assert(0x80_0000 * (m * h) <= m * m) by (nonlinear_arith)
        requires
            0x80_0000 * h <= m,
            m > 0,
    ;
    assert(m * m >= 0) by (nonlinear_arith);
    assert(a.val() * unit() == n * pow2(149));
}

/// The fraction `x / den` rounded, with its sign.
spec fn near_val(x: int, den: nat) -> int {
    if x < 0 {
        -(scalar::mag(scalar::round((-x) as nat, den)) as int)
    } else {
        scalar::mag(scalar::round(x as nat, den)) as int
    }
}

proof fn lemma_near_val(x: int, den: nat)
    requires
        den > 0,
    ensures
        -(scalar::mag(0x7f80_0000) as int) <= near_val(x, den) <= scalar::mag(0x7f80_0000),
        x >= 0 ==> near_val(x, den) >= 0,
        x <= 0 ==> near_val(x, den) <= 0,
{
    lemma_has_nearest(size(x) as nat, den);
    let i = scalar::round(size(x) as nat, den);
    if i < 0x7f80_0000 {
        scalar::lemma_mag_increases(i, 0x7f80_0000);
    }
    if x == 0 {
        assert(scalar::mag(0) == 0);
        assert(den * 0 == 0) by (nonlinear_arith);
        lemma_round_exact(0, den, 0);
    }
}

proof fn lemma_near_val_monotone(x: int, y: int, den: nat)
    requires
        den > 0,
        x <= y,
    ensures
        near_val(x, den) <= near_val(y, den),
{
    lemma_near_val(x, den);
    lemma_near_val(y, den);
    if x >= 0 {
        lemma_rounds_grow(x as nat, y as nat, den);
    } else if y <= 0 {
        lemma_rounds_grow((-y) as nat, (-x) as nat, den);
        lemma_near_val(0, den);
    }
}

proof fn lemma_rounds_grow(x: nat, y: nat, den: nat)
    requires
        den > 0,
        x <= y,
    ensures
        scalar::mag(scalar::round(x, den)) <= scalar::mag(scalar::round(y, den)),
{
    assert(x * den <= y * den) by (nonlinear_arith)
        requires
            x <= y,
            den > 0,
    ;
    lemma_round_monotone(x, den, y, den);
    if scalar::round(x, den) < scalar::round(y, den) {
        scalar::lemma_mag_increases(scalar::round(x, den), scalar::round(y, den));
    }
}

proof fn lemma_plus_val(a: Scalar, b: Scalar)
    requires
        a.is_finite(),
        b.is_finite(),
    ensures
        !a.plus(b).is_nan(),
        a.plus(b).val() == near_val(a.val() + b.val(), 1),
{
    reveal(Scalar::spec_plus);
    let exact = a.val() + b.val();
    lemma_has_nearest(size(exact) as nat, 1);
    lemma_assemble(exact < 0, scalar::round(size(exact) as nat, 1));
    lemma_assemble(a.is_neg() && b.is_neg(), 0);
    lemma_near_val(exact, 1);
}

proof fn lemma_times_val(a: Scalar, b: Scalar)
    requires
        a.is_finite(),
        b.is_finite(),
    ensures
        !a.times(b).is_nan(),
        a.times(b).val() == near_val(a.val() * b.val(), pow2(149)),
{
    reveal(Scalar::spec_times);
    lemma_signs(a, b);
    let num = scalar::mag(a.index()) * scalar::mag(b.index());
    lemma_has_nearest(num, pow2(149));
    lemma_assemble(a.is_neg() != b.is_neg(), scalar::round(num, pow2(149)));
    lemma_near_val(a.val() * b.val(), pow2(149));
}

proof fn lemma_over_val(a: Scalar, b: Scalar)
    requires
        a.is_finite(),
        b.is_finite(),
        b.val() > 0,
    ensures
        !a.over(b).is_nan(),
        a.over(b).val() == near_val(a.val() * unit(), b.val() as nat),
{
    reveal(Scalar::spec_over);
    assert(scalar::mag(0) == 0);
    lemma_signs(a, b);
    let x = scalar::mag(a.index()) as int;
    let u = unit();
    assert((-x) * u == -(x * u)) by (nonlinear_arith);
    assert(x * u >= 0 && (x > 0 ==> x * u > 0)) by (nonlinear_arith)
        requires
            x >= 0,
            u > 0,
    ;
    let num = scalar::mag(a.index()) * pow2(149);
    let den = scalar::mag(b.index());
    lemma_has_nearest(num, den);
    lemma_assemble(a.is_neg() != b.is_neg(), scalar::round(num, den));
    lemma_near_val(a.val() * unit(), den);
}

/// An infinity is no smaller in size than any number.
proof fn lemma_extremes(a: Scalar)
    requires
        !a.is_nan(),
    ensures
        -(scalar::mag(0x7f80_0000) as int) <= a.val() <= scalar::mag(0x7f80_0000),
{
    if a.index() < 0x7f80_0000 {
        scalar::lemma_mag_increases(a.index(), 0x7f80_0000);
    }
}

/// A sum never falls as a term grows.
pub proof fn law_plus_monotone(a: Scalar, b: Scalar, c: Scalar)
    requires
        a.le(b),
        c.is_finite(),
    ensures
        a.plus(c).le(b.plus(c)),
{
    reveal(Scalar::spec_le);
    reveal(Scalar::spec_plus);
    lemma_extremes(a);
    lemma_extremes(b);
    assert(!a.plus(c).is_nan() && !b.plus(c).is_nan()) by {
        if a.is_finite() {
            lemma_plus_val(a, c);
        }
        if b.is_finite() {
            lemma_plus_val(b, c);
        }
    }
    lemma_extremes(a.plus(c));
    lemma_extremes(b.plus(c));
    if a.is_finite() && b.is_finite() {
        lemma_plus_val(a, c);
        lemma_plus_val(b, c);
        lemma_near_val_monotone(a.val() + c.val(), b.val() + c.val(), 1);
    } else {
        scalar::lemma_mag_increases(0, 0x7f80_0000);
        if a.is_finite() {
            scalar::lemma_mag_increases(a.index(), 0x7f80_0000);
        }
        if b.is_finite() {
            scalar::lemma_mag_increases(b.index(), 0x7f80_0000);
        }
    }
}

/// A difference never falls as its first term grows.
pub proof fn law_minus_monotone(a: Scalar, b: Scalar, c: Scalar)
    requires
        a.le(b),
        c.is_finite(),
    ensures
        a.minus(c).le(b.minus(c)),
{
    law_negate_exact(c);
    law_plus_monotone(a, b, c.negate());
}

/// A difference never grows as its second term grows.
pub proof fn law_minus_antitone(a: Scalar, b: Scalar, c: Scalar)
    requires
        a.le(b),
        c.is_finite(),
    ensures
        c.minus(b).le(c.minus(a)),
{
    reveal(Scalar::spec_le);
    law_negate_exact(a);
    law_negate_exact(b);
    scalar::law_plus_commutes(c, a.negate());
    scalar::law_plus_commutes(c, b.negate());
    law_plus_monotone(b.negate(), a.negate(), c);
}

/// A product with a positive number never falls as the other factor grows.
pub proof fn law_times_monotone(a: Scalar, b: Scalar, c: Scalar)
    requires
        a.le(b),
        c.is_finite(),
        c.val() > 0,
    ensures
        a.times(c).le(b.times(c)),
{
    reveal(Scalar::spec_le);
    assert(scalar::mag(0) == 0);
    scalar::lemma_mag_increases(0, 0x7f80_0000);
    lemma_infinite_times(a, c);
    lemma_infinite_times(b, c);
    lemma_extremes(a.times(c));
    lemma_extremes(b.times(c));
    if a.is_finite() && b.is_finite() {
        lemma_times_val(a, c);
        lemma_times_val(b, c);
        let x = a.val();
        let y = b.val();
        let z = c.val();
        assert(x * z <= y * z) by (nonlinear_arith)
            requires
                x <= y,
                z > 0,
        ;
        lemma_pow2_pos(149);
        lemma_near_val_monotone(x * z, y * z, pow2(149));
    } else {
        if a.is_finite() {
            scalar::lemma_mag_increases(a.index(), 0x7f80_0000);
        }
        if b.is_finite() {
            scalar::lemma_mag_increases(b.index(), 0x7f80_0000);
        }
    }
}

proof fn lemma_infinite_times(a: Scalar, c: Scalar)
    requires
        !a.is_nan(),
        c.is_finite(),
        c.val() > 0,
    ensures
        !a.times(c).is_nan(),
        a.is_infinite() ==> a.times(c).val() == a.val(),
{
    reveal(Scalar::spec_times);
    assert(scalar::mag(0) == 0);
    scalar::lemma_mag_increases(0, 0x7f80_0000);
    if a.is_finite() {
        lemma_times_val(a, c);
    } else {
        lemma_assemble(a.is_neg() != c.is_neg(), 0x7f80_0000);
    }
}

/// A quotient by a positive number never falls as the numerator grows.
pub proof fn law_over_monotone(a: Scalar, b: Scalar, c: Scalar)
    requires
        a.le(b),
        c.is_finite(),
        c.val() > 0,
    ensures
        a.over(c).le(b.over(c)),
{
    reveal(Scalar::spec_le);
    assert(scalar::mag(0) == 0);
    scalar::lemma_mag_increases(0, 0x7f80_0000);
    lemma_infinite_over(a, c);
    lemma_infinite_over(b, c);
    lemma_extremes(a.over(c));
    lemma_extremes(b.over(c));
    if a.is_finite() && b.is_finite() {
        lemma_over_val(a, c);
        lemma_over_val(b, c);
        let x = a.val();
        let y = b.val();
        let u = unit();
        lemma_pow2_pos(149);
        assert(x * u <= y * u) by (nonlinear_arith)
            requires
                x <= y,
                u > 0,
        ;
        lemma_near_val_monotone(x * u, y * u, c.val() as nat);
    } else {
        if a.is_finite() {
            scalar::lemma_mag_increases(a.index(), 0x7f80_0000);
        }
        if b.is_finite() {
            scalar::lemma_mag_increases(b.index(), 0x7f80_0000);
        }
    }
}

proof fn lemma_infinite_over(a: Scalar, c: Scalar)
    requires
        !a.is_nan(),
        c.is_finite(),
        c.val() > 0,
    ensures
        !a.over(c).is_nan(),
        a.is_infinite() ==> a.over(c).val() == a.val(),
{
    reveal(Scalar::spec_over);
    assert(scalar::mag(0) == 0);
    if a.is_finite() {
        lemma_over_val(a, c);
    } else {
        lemma_assemble(a.is_neg() != c.is_neg(), 0x7f80_0000);
    }
}

/// Holding between two limits keeps the order.
pub proof fn law_clamped_monotone(a: Scalar, b: Scalar, low: Scalar, high: Scalar)
    requires
        a.le(b),
        low.le(high),
    ensures
        a.clamped(low, high).le(b.clamped(low, high)),
        low.le(a.clamped(low, high)),
        a.clamped(low, high).le(high),
{
    reveal(Scalar::spec_le);
    reveal(Scalar::spec_lt);
}

/// What lies between two numbers is a number.
pub proof fn law_between_is_finite(a: Scalar, b: Scalar, c: Scalar)
    requires
        a.is_finite(),
        c.is_finite(),
        a.le(b),
        b.le(c),
    ensures
        b.is_finite(),
{
    reveal(Scalar::spec_le);
    scalar::lemma_mag_increases(a.index(), 0x7f80_0000);
    scalar::lemma_mag_increases(c.index(), 0x7f80_0000);
}

/// The numbers 0 and 1.
pub proof fn law_zero_and_one()
    ensures
        whole(0).is_finite(),
        whole(0).val() == 0,
        whole(1).is_finite(),
        whole(1).val() == unit(),
        unit() > 0,
{
    scalar::law_whole_exact(0);
    scalar::law_whole_exact(1);
    assert(0 * pow2(149) == 0) by (nonlinear_arith);
    lemma_pow2_pos(149);
}

/// A place within an extent lies at a fraction of it between 0 and 1: none at its
/// start, all at its end, and up to one part in 2^22 as much as it lies in between.
pub proof fn law_place_is_a_fraction(at: Scalar, from: Scalar, extent: Scalar)
    requires
        at.is_finite(),
        from.is_finite(),
        extent.is_finite(),
        extent.val() > 0,
        0 <= at.val() - from.val() <= extent.val(),
    ensures
        ({
            let t = at.minus(from).over(extent);
            let a = at.val() - from.val();
            &&& t.is_finite()
            &&& 0 <= t.val() <= unit()
            &&& a == 0 ==> t.val() == 0
            &&& a == extent.val() ==> t.val() == unit()
            &&& 0x40_0000 * apart(t.val() * extent.val(), a * unit()) <= extent.val() * unit()
        }),
{
    law_zero_and_one();
    law_minus_bounded(at, from, extent);
    law_minus_rounds(at, from);
    let d = at.minus(from);
    let t = d.over(extent);
    let a = at.val() - from.val();
    let h = extent.val();
    let u = unit();
    let m = d.val();
    assert(m * u <= u * h && 0 <= m * u && 0 <= a * u <= h * u && 0 <= m * h) by (nonlinear_arith)
        requires
            0 <= m <= h,
            0 <= a <= h,
            u > 0,
    ;
    law_over_bounded(d, extent, whole(1));
    law_over_rounds(d, extent);
    if a == 0 {
        assert(0 * u == 0 && 0 * h == 0) by (nonlinear_arith);
        law_over_exact(d, extent, whole(0));
    }
    if a == h {
        scalar::law_plus_exact(at, from.negate(), extent);
        law_negate_exact(from);
        assert(h * u == u * h) by (nonlinear_arith);
        law_over_exact(d, extent, whole(1));
    }
    let e = apart(m * u, a * u);
    assert(0x100_0000 * e <= a * u) by (nonlinear_arith)
        requires
            e == apart(m * u, a * u),
            0x100_0000 * apart(m, a) <= a,
            u > 0,
    ;
    assert(h * 0x80_0000 <= h * u) by {
        lemma2_to64();
        lemma_pow2_strictly_increases(23, 149);
        assert(h * 0x80_0000 <= h * u) by (nonlinear_arith)
            requires
                u >= 0x80_0000,
                h > 0,
        ;
    }
    assert(u * h == h * u) by (nonlinear_arith);
}

/// Whether `got` lies at `at`, up to what rounding may move a place in this extent.
pub open spec fn meets(got: Scalar, at: Scalar, extent: Scalar) -> bool {
    &&& got.is_finite()
    &&& 0x4_0000 * apart(got.val(), at.val()) <= 3 * extent.val() + size(at.val()) + 0x4_0000
}

/// The place at the fraction of an extent at which a place lies is that place again, up
/// to rounding.
pub proof fn law_fraction_is_the_place(at: Scalar, from: Scalar, extent: Scalar, t: Scalar)
    requires
        at.is_finite(),
        from.is_finite(),
        extent.is_finite(),
        extent.val() > 0,
        from.plus(extent).is_finite(),
        0 <= at.val() - from.val() <= extent.val(),
        t.is_finite(),
        0 <= t.val() <= unit(),
        0x4_0000 * apart(t.val(), at.minus(from).over(extent).val()) <= unit(),
    ensures
        meets(from.plus(t.times(extent)), at, extent),
{
    reveal(Scalar::spec_le);
    law_zero_and_one();
    law_place_is_a_fraction(at, from, extent);
    let s = at.minus(from).over(extent).val();
    let a = at.val() - from.val();
    let h = extent.val();
    let u = unit();
    let v = t.val();
    let w = t.times(extent);
    assert(v * h <= h * u && 0 <= v * h) by (nonlinear_arith)
        requires
            0 <= v <= u,
            h > 0,
    ;
    law_times_bounded(t, extent, extent);
    law_times_rounds(t, extent);
    let x = w.val();
    assert(0x4_0000 * apart(v * h, s * h) <= h * u) by (nonlinear_arith)
        requires
            0x4_0000 * apart(v, s) <= u,
            h > 0,
    ;
    assert(0x100_0000 * apart(x * u, a * u) <= 70 * (h * u) + 0x80_0000 * u);
    assert(0x100_0000 * apart(x, a) <= 70 * h + 0x80_0000) by (nonlinear_arith)
        requires
            0x100_0000 * apart(x * u, a * u) <= 70 * (h * u) + 0x80_0000 * u,
            u > 0,
    ;
    // The place itself is a number.
    scalar::law_plus_commutes(from, w);
    scalar::law_plus_commutes(from, extent);
    law_plus_monotone(w, extent, from);
    scalar::law_plus_grows(from, w);
    law_between_is_finite(from, from.plus(w), from.plus(extent));
    law_plus_rounds(from, w);
}

/// What a fraction leaves of 1 is a fraction again, and what that leaves is the first
/// one, up to rounding.
pub proof fn law_rest_of_a_fraction(t: Scalar)
    requires
        t.is_finite(),
        0 <= t.val() <= unit(),
    ensures
        ({
            let v = whole(1).minus(t);
            let w = whole(1).minus(v);
            &&& v.is_finite()
            &&& 0 <= v.val() <= unit()
            &&& 0x100_0000 * apart(v.val(), unit() - t.val()) <= unit()
            &&& t.val() == 0 ==> v.val() == unit()
            &&& t.val() == unit() ==> v.val() == 0
            &&& w.is_finite()
            &&& 0 <= w.val() <= unit()
            &&& 0x80_0000 * apart(w.val(), t.val()) <= unit()
        }),
{
    law_zero_and_one();
    law_minus_bounded(whole(1), t, whole(1));
    law_minus_rounds(whole(1), t);
    law_negate_exact(t);
    if t.val() == 0 {
        scalar::law_plus_exact(whole(1), t.negate(), whole(1));
    }
    let v = whole(1).minus(t);
    law_minus_bounded(whole(1), v, whole(1));
    law_minus_rounds(whole(1), v);
}

/// A number between two limits is held by them as it is.
pub proof fn law_clamped_inside(a: Scalar, low: Scalar, high: Scalar)
    requires
        a.is_finite(),
        low.is_finite(),
        high.is_finite(),
        low.val() <= a.val() <= high.val(),
    ensures
        a.clamped(low, high) == a,
{
    reveal(Scalar::spec_lt);
}

/// A product does not depend on the order of its factors.
pub proof fn law_times_commutes(a: Scalar, b: Scalar)
    ensures
        a.times(b) == b.times(a),
{
    reveal(Scalar::spec_times);
    let x = scalar::mag(a.index());
    let y = scalar::mag(b.index());
    assert(x * y == y * x) by (nonlinear_arith);
}

/// A product with a whole number is the exact one up to one part in 2^24.
pub proof fn law_times_whole(a: Scalar, n: u64)
    requires
        a.is_finite(),
        n <= 0x100_0000,
        a.times(whole(n)).is_finite(),
    ensures
        whole(n).is_finite(),
        whole(n).val() == n * unit(),
        0x100_0000 * apart(a.times(whole(n)).val(), n * a.val()) <= n * size(a.val()),
{
    scalar::law_whole_exact(n);
    law_zero_and_one();
    reveal(Scalar::spec_times);
    lemma_signs(a, whole(n));
    let m = n as nat;
    let v = scalar::mag(a.index());
    let d = (m * v) as nat;
    let den = pow2(149);
    let num = scalar::mag(a.index()) * scalar::mag(whole(n).index());
    assert(num == d * den) by (nonlinear_arith)
        requires
            num == v * (m * den),
            d == m * v,
    ;
    assert(num * 1 == d * den);
    lemma_round_monotone(num, den, d, 1);
    lemma_round_monotone(d, 1, num, den);
    lemma_has_nearest(num, den);
    let i = scalar::round(num, den);
    lemma_assemble(a.is_neg() != whole(n).is_neg(), i);
    lemma_round_error(d, 1);
    let w = a.val();
    assert(n * w == if a.is_neg() {
        -(d as int)
    } else {
        d as int
    }) by (nonlinear_arith)
        requires
            d == n * v,
            w == if a.is_neg() {
                -(v as int)
            } else {
                v as int
            },
    ;
    assert(n * size(w) == d);
}

/// A quotient by a whole number is the exact one up to rounding.
pub proof fn law_over_whole(a: Scalar, n: u64)
    requires
        a.is_finite(),
        0 < n <= 0x100_0000,
        a.over(whole(n)).is_finite(),
    ensures
        whole(n).is_finite(),
        whole(n).val() == n * unit(),
        0x100_0000 * apart(n * a.over(whole(n)).val(), a.val()) <= size(a.val()) + n * 0x80_0000,
{
    scalar::law_whole_exact(n);
    law_zero_and_one();
    let m = n as int;
    let u = unit();
    assert(m * u > 0) by (nonlinear_arith)
        requires
            m > 0,
            u > 0,
    ;
    law_over_rounds(a, whole(n));
    let x = a.over(whole(n)).val();
    let v = a.val();
    assert(x * (m * u) == (m * x) * u) by (nonlinear_arith);
    assert(apart((m * x) * u, v * u) == apart(m * x, v) * u) by (nonlinear_arith)
        requires
            u > 0,
    ;
    assert(0x100_0000 * apart(m * x, v) <= size(v) + m * 0x80_0000) by (nonlinear_arith)
        requires
            0x100_0000 * (apart(m * x, v) * u) <= size(v) * u + (m * u) * 0x80_0000,
            u > 0,
    ;
}

/// A unit is a large number of steps.
pub proof fn law_unit_is_large()
    ensures
        unit() >= 0x100_0000_0000_0000,
{
    lemma2_to64_rest();
    lemma_pow2_strictly_increases(56, 149);
}

/// A number of which many can be added up and multiplied without leaving the numbers:
/// no larger than 2^32.
pub open spec fn ordinary(a: Scalar) -> bool {
    a.is_finite() && size(a.val()) <= 0x1_0000_0000 * unit()
}

/// A sum of moderate size is a number.
pub proof fn law_plus_finite(a: Scalar, b: Scalar)
    requires
        a.is_finite(),
        b.is_finite(),
        size(a.val() + b.val()) <= 0x1_0000_0000_0000_0000 * unit(),
    ensures
        a.plus(b).is_finite(),
{
    let big = Scalar { bits: 0x7f00_0000 };
    lemma_big();
    law_plus_bounded(a, b, big);
}

/// The same of a difference.
pub proof fn law_minus_finite(a: Scalar, b: Scalar)
    requires
        a.is_finite(),
        b.is_finite(),
        size(a.val() - b.val()) <= 0x1_0000_0000_0000_0000 * unit(),
    ensures
        a.minus(b).is_finite(),
{
    law_negate_exact(b);
    law_plus_finite(a, b.negate());
}

/// A product of moderate size is a number.
pub proof fn law_times_finite(a: Scalar, b: Scalar)
    requires
        a.is_finite(),
        b.is_finite(),
        size(a.val() * b.val()) <= 0x1_0000_0000_0000_0000 * (unit() * unit()),
    ensures
        a.times(b).is_finite(),
        a.val() * b.val() >= 0 ==> a.times(b).val() >= 0,
        a.val() * b.val() <= 0 ==> a.times(b).val() <= 0,
{
    let big = Scalar { bits: 0x7f00_0000 };
    lemma_big();
    law_zero_and_one();
    let u = unit();
    let v = big.val();
    assert(0x1_0000_0000_0000_0000 * (u * u) <= v * u) by (nonlinear_arith)
        requires
            0x1_0000_0000_0000_0000 * u <= v,
            u > 0,
    ;
    law_times_bounded(a, b, big);
}

/// A number far beyond any that is drawn.
pub proof fn lemma_big()
    ensures
        (Scalar { bits: 0x7f00_0000 }).is_finite(),
        (Scalar { bits: 0x7f00_0000 }).val() >= 0x1_0000_0000_0000_0000 * unit(),
{
    scalar::lemma_mag_form(253, 0x80_0000);
    assert(253 * 0x80_0000 + 0x80_0000 == 0x7f00_0000);
    lemma2_to64_rest();
    lemma_pow2_adds(64, 149);
    lemma_pow2_strictly_increases(213, 253);
}

/// The whole part of a number that is not negative.
pub proof fn law_truncated_is_the_whole_part(a: Scalar, limit: u64)
    requires
        whole(0).le(a),
        a.truncated(limit) < limit,
    ensures
        a.is_finite(),
        a.truncated(limit) * unit() <= a.val() < (a.truncated(limit) + 1) * unit(),
        a.val() >= 0,
{
    reveal(Scalar::spec_truncated);
    reveal(Scalar::spec_le);
    law_zero_and_one();
    let n = scalar::mag(a.index()) as int;
    let u = unit();
    assert(scalar::mag(0) == 0);
    if a.is_neg() {
        assert(a.val() == 0);
        assert(0 * u == 0 && (0 + 1) * u == u) by (nonlinear_arith);
        if a.index() > 0 {
            scalar::lemma_mag_increases(0, a.index());
        }
    } else {
        vstd::arithmetic::div_mod::lemma_fundamental_div_mod(n, u);
        vstd::arithmetic::div_mod::lemma_mod_bound(n, u);
        let q = n / u;
        assert(u * q == q * u && (q + 1) * u == q * u + u) by (nonlinear_arith);
        assert(scalar::mag(a.index()) / pow2(149) == q);
    }
}

/// The 256th part of a pixel.
pub open spec fn step() -> int {
    pow2(141) as int
}

/// Whether a number is `n` steps.
pub open spec fn in_steps(a: Scalar, n: int) -> bool {
    a.is_finite() && a.val() == n * step()
}

/// Steps and units.
pub proof fn law_steps()
    ensures
        step() > 0,
        unit() == 256 * step(),
{
    lemma_pow2_pos(141);
    lemma_pow2_adds(8, 141);
    lemma2_to64();
}

/// So many steps are a number.
pub proof fn lemma_number_of_steps(n: int) -> (c: Scalar)
    requires
        size(n) <= 0x100_0000,
    ensures
        in_steps(c, n),
{
    let m = size(n) as nat;
    scalar::lemma_whole_index(m, 141);
    let i = scalar::round(m * pow2(141), 1);
    lemma_assemble(n < 0, i);
    let st = step();
    assert((-n) * st == -(n * st)) by (nonlinear_arith);
    scalar::assemble(n < 0, i)
}

/// Steps add up exactly.
pub proof fn law_plus_steps(a: Scalar, b: Scalar, n: int, m: int)
    requires
        in_steps(a, n),
        in_steps(b, m),
        size(n + m) <= 0x100_0000,
    ensures
        in_steps(a.plus(b), n + m),
{
    let c = lemma_number_of_steps(n + m);
    let st = step();
    assert(n * st + m * st == (n + m) * st) by (nonlinear_arith);
    scalar::law_plus_exact(a, b, c);
}

/// Steps are taken away exactly.
pub proof fn law_minus_steps(a: Scalar, b: Scalar, n: int, m: int)
    requires
        in_steps(a, n),
        in_steps(b, m),
        size(n - m) <= 0x100_0000,
    ensures
        in_steps(a.minus(b), n - m),
{
    law_negate_exact(b);
    let st = step();
    assert((-m) * st == -(m * st)) by (nonlinear_arith);
    law_plus_steps(a, b.negate(), n, -m);
}

/// A whole number of times so many steps is exact.
pub proof fn law_whole_times_steps(i: u64, a: Scalar, n: int)
    requires
        i <= 0x100_0000,
        in_steps(a, n),
        size(i * n) <= 0x100_0000,
    ensures
        in_steps(whole(i).times(a), i * n),
{
    scalar::law_whole_exact(i);
    let c = lemma_number_of_steps(i * n);
    let st = step();
    let u = unit();
    assert((i * u) * (n * st) == ((i * n) * st) * u) by (nonlinear_arith);
    law_times_exact(whole(i), a, c);
}

/// Steps compare as their numbers do.
pub proof fn law_steps_compare(a: Scalar, b: Scalar, n: int, m: int)
    requires
        in_steps(a, n),
        in_steps(b, m),
    ensures
        a.le(b) == (n <= m),
        a.lt(b) == (n < m),
        a.same(b) == (n == m),
{
    reveal(Scalar::spec_le);
    reveal(Scalar::spec_lt);
    reveal(Scalar::spec_same);
    law_steps();
    let st = step();
    assert((n <= m) == (n * st <= m * st)) by (nonlinear_arith)
        requires
            st > 0,
    ;
    assert((n < m) == (n * st < m * st)) by (nonlinear_arith)
        requires
            st > 0,
    ;
}

/// The whole part of a quotient of steps is the quotient of their numbers, rounded down.
pub proof fn law_quotient_of_steps(a: Scalar, b: Scalar, n: int, m: int, limit: u64)
    requires
        in_steps(a, n),
        in_steps(b, m),
        0 < m,
        size(n) + m < 0x100_0000,
        limit <= 0x100_0000,
        limit * m + m <= 0x100_0000,
    ensures
        whole(0).le(a.over(b)) == (n >= 0),
        n >= 0 && n < limit * m ==> {
            let k = a.over(b).truncated(limit);
            k < limit && k * m <= n < (k + 1) * m
        },
        n >= limit * m ==> a.over(b).truncated(limit) == limit,
{
    law_steps();
    law_zero_and_one();
    law_unit_is_large();
    let st = step();
    let u = unit();
    let x = a.val();
    let e = b.val();
    assert(e >= st) by (nonlinear_arith)
        requires
            e == m * st,
            m >= 1,
            st > 0,
    ;
    // The quotient is a number, for it is at most 2^24.
    scalar::law_whole_exact(0x100_0000);
    assert(size(x) * u <= size(0x100_0000 * u) * size(e)) by (nonlinear_arith)
        requires
            x == n * st,
            size(n) < 0x100_0000,
            e >= st,
            st > 0,
            u > 0,
    ;
    assert((n >= 0) == (x >= 0) && (n == 0) == (x == 0)) by (nonlinear_arith)
        requires
            x == n * st,
            st > 0,
    ;
    assert((x >= 0) == (x * e >= 0) && (x <= 0) == (x * e <= 0)) by (nonlinear_arith)
        requires
            e > 0,
    ;
    law_over_bounded(a, b, whole(0x100_0000));
    law_over_rounds(a, b);
    let q = a.over(b);
    let v = q.val();
    reveal(Scalar::spec_le);
    if n < 0 {
        assert(size(x) >= st) by (nonlinear_arith)
            requires
                x == n * st,
                n <= -1,
                st > 0,
        ;
        // A negative quotient is not rounded to nothing.
        assert(v != 0) by {
            if v == 0 {
                assert(0x100_0000 * (size(x) * u) <= size(x) * u + e * 0x80_0000) by (nonlinear_arith)
                    requires
                        0x100_0000 * apart(v * e, x * u) <= size(x) * u + size(e) * 0x80_0000,
                        v == 0,
                        u > 0,
                        e > 0,
                ;
                assert(size(x) * u >= e * 0x100_0000) by (nonlinear_arith)
                    requires
                        size(x) >= st,
                        e == m * st,
                        m <= 0x100_0000,
                        st > 0,
                        u >= 0x100_0000_0000_0000,
                ;
            }
        }
    } else {
        reveal(Scalar::spec_truncated);
        assert(scalar::mag(0) == 0);
        if q.is_neg() && q.index() > 0 {
            scalar::lemma_mag_increases(0, q.index());
        }
        lemma_quotient_reaches(a, b, n, m, limit as int);
        vstd::arithmetic::div_mod::lemma_fundamental_div_mod(v, u);
        vstd::arithmetic::div_mod::lemma_mod_bound(v, u);
        let k = v / u;
        assert(u * k == k * u && (k + 1) * u == k * u + u) by (nonlinear_arith);
        assert(limit * u <= v ==> limit <= k) by (nonlinear_arith)
            requires
                v < (k + 1) * u,
                u > 0,
        ;
        assert(v < limit * u ==> k < limit) by (nonlinear_arith)
            requires
                k * u <= v,
                u > 0,
        ;
        assert(k >= 0) by (nonlinear_arith)
            requires
                v >= 0,
                v < (k + 1) * u,
                u > 0,
        ;
        assert(!q.is_neg() ==> scalar::mag(q.index()) / pow2(149) == k);
        assert(v == 0 ==> k == 0) by (nonlinear_arith)
            requires
                k * u <= v,
                u > 0,
                k >= 0,
        ;
        if k < limit {
            assert(k * m <= limit * m && (k + 1) * m <= limit * m) by (nonlinear_arith)
                requires
                    0 <= k,
                    k + 1 <= limit,
                    m > 0,
            ;
            assert(k * m >= 0 && (k + 1) * m >= 0) by (nonlinear_arith)
                requires
                    k >= 0,
                    m > 0,
            ;
            lemma_quotient_reaches(a, b, n, m, k);
            lemma_quotient_reaches(a, b, n, m, k + 1);
        }
    }
}

/// Whether a quotient of steps reaches a whole number.
proof fn lemma_quotient_reaches(a: Scalar, b: Scalar, n: int, m: int, k: int)
    requires
        in_steps(a, n),
        in_steps(b, m),
        0 < m,
        0 <= n,
        n + m < 0x100_0000,
        0 <= k <= 0x100_0000,
        k * m <= 0x100_0000,
        a.over(b).is_finite(),
    ensures
        (a.over(b).val() >= k * unit()) == (n >= k * m),
{
    law_steps();
    law_zero_and_one();
    law_unit_is_large();
    let st = step();
    let u = unit();
    let x = a.val();
    let e = b.val();
    let v = a.over(b).val();
    assert(e > 0) by (nonlinear_arith)
        requires
            e == m * st,
            m > 0,
            st > 0,
    ;
    if n >= k * m {
        assert(k * m >= 0) by (nonlinear_arith)
            requires
                k >= 0,
                m > 0,
        ;
        let c = lemma_number_of_steps(k * m);
        scalar::law_whole_exact(k as u64);
        assert(((k * m) * st) * u == (k * u) * (m * st)) by (nonlinear_arith);
        law_over_exact(c, b, whole(k as u64));
        law_steps_compare(c, a, k * m, n);
        law_over_monotone(c, a, b);
        reveal(Scalar::spec_le);
    } else {
        law_over_rounds(a, b);
        assert(x >= 0) by (nonlinear_arith)
            requires
                x == n * st,
                n >= 0,
                st > 0,
        ;
        let f = st * u;
        assert(f > 0) by (nonlinear_arith)
            requires
                f == st * u,
                st > 0,
                u > 0,
        ;
        assert(x * u == n * f && (k * u) * e == (k * m) * f) by (nonlinear_arith)
            requires
                x == n * st,
                e == m * st,
                f == st * u,
        ;
        assert(e * 0x80_0000 <= m * f) by (nonlinear_arith)
            requires
                e == m * st,
                f == st * u,
                u >= 0x80_0000,
                m > 0,
                st > 0,
        ;
        assert(n * f + m * f < 0x100_0000 * f) by (nonlinear_arith)
            requires
                n + m < 0x100_0000,
                f > 0,
        ;
        assert(n * f + f <= (k * m) * f) by (nonlinear_arith)
            requires
                n + 1 <= k * m,
                f > 0,
        ;
        assert(v * e < (k * u) * e);
        assert(v < k * u) by (nonlinear_arith)
            requires
                v * e < (k * u) * e,
                e > 0,
        ;
    }
}

/// A unit is a vast number of steps.
pub proof fn law_unit_is_vast()
    ensures
        unit() >= 0x1_0000_0000_0000_0000_0000_0000,
{
    lemma2_to64_rest();
    lemma2_to64();
    lemma_pow2_adds(64, 32);
    lemma_pow2_strictly_increases(96, 149);
}

/// Taking away a number that is not negative never makes a number larger.
pub proof fn law_minus_shrinks(a: Scalar, b: Scalar)
    requires
        a.is_finite(),
        b.is_finite(),
        0 <= b.val(),
    ensures
        a.minus(b).le(a),
{
    reveal(Scalar::spec_le);
    law_zero_and_one();
    law_negate_exact(b);
    scalar::law_plus_exact(a, whole(0), a);
    scalar::law_plus_commutes(a, whole(0));
    scalar::law_plus_commutes(a, b.negate());
    law_plus_monotone(b.negate(), whole(0), a);
}

/// The number a fraction of the way from one number to another lies there, up to
/// rounding.
pub proof fn law_part_of_the_way(a: Scalar, b: Scalar, t: Scalar)
    requires
        ordinary(a),
        ordinary(b),
        t.is_finite(),
        0 <= t.val() <= unit(),
    ensures
        ({
            let r = a.plus(b.minus(a).times(t));
            &&& r.is_finite()
            &&& 0x10_0000 * apart(r.val() * unit(), a.val() * (unit() - t.val()) + b.val() * t.val())
                <= (size(a.val()) + size(b.val()) + 0x10_0000) * unit()
            &&& t.val() == 0 ==> r.val() == a.val()
            &&& a.val() == b.val() ==> r.val() == a.val()
        }),
{
    law_zero_and_one();
    law_unit_is_large();
    let u = unit();
    let x = a.val();
    let y = b.val();
    let v = t.val();
    law_minus_finite(b, a);
    law_minus_rounds(b, a);
    let d = b.minus(a);
    let w = d.val();
    let n = size(x) + size(y);
    assert(size(w) <= 2 * n);
    assert(size(w * v) <= size(w) * u) by (nonlinear_arith)
        requires
            0 <= v <= u,
    ;
    law_times_bounded(d, t, d);
    law_times_rounds(d, t);
    let m = d.times(t);
    let z = m.val();
    law_plus_finite(a, m);
    law_plus_rounds(a, m);
    let r = a.plus(m).val();
    let f = y - x;
    let e0 = apart(w, f);
    let e1 = apart(z * u, w * v);
    let e2 = apart(r, x + z);
    assert(0x100_0000 * (e0 * u) <= size(f) * u) by (nonlinear_arith)
        requires
            0x100_0000 * e0 <= size(f),
            u > 0,
    ;
    assert(apart(w * v, f * v) <= e0 * u) by (nonlinear_arith)
        requires
            e0 == apart(w, f),
            0 <= v <= u,
    ;
    assert(apart(r * u, x * u + z * u) == e2 * u) by (nonlinear_arith)
        requires
            e2 == apart(r, x + z),
            u > 0,
    ;
    assert(x * (u - v) + y * v == x * u + f * v) by (nonlinear_arith)
        requires
            f == y - x,
    ;
    let k = n * u;
    assert(size(f) * u <= k && size(w) * u <= 2 * k) by (nonlinear_arith)
        requires
            size(f) <= n,
            size(w) <= 2 * n,
            k == n * u,
            u > 0,
    ;
    assert(0x100_0000 * (e2 * u) <= 4 * k) by (nonlinear_arith)
        requires
            0x100_0000 * e2 <= 4 * n,
            k == n * u,
            u > 0,
    ;
    assert((n + 0x10_0000) * u == k + 0x10_0000 * u) by (nonlinear_arith)
        requires
            k == n * u,
    ;
    if v == 0 {
        assert(w * 0 == 0 * u) by (nonlinear_arith);
        law_times_exact(d, t, whole(0));
        scalar::law_plus_exact(a, m, a);
    }
    if x == y {
        assert(0 * v == 0 * u) by (nonlinear_arith);
        law_times_exact(d, t, whole(0));
        scalar::law_plus_exact(a, m, a);
    }
}

/// Numbers of one value leave as much of 1.
pub proof fn law_minus_same(a: Scalar, b: Scalar)
    requires
        a.is_finite(),
        b.is_finite(),
        a.val() == b.val(),
    ensures
        whole(1).minus(a).val() == whole(1).minus(b).val(),
{
    law_zero_and_one();
    law_negate_exact(a);
    law_negate_exact(b);
    lemma_plus_val(whole(1), a.negate());
    lemma_plus_val(whole(1), b.negate());
}

/// Numbers of one value have products of one value.
pub proof fn law_times_same(v: Scalar, a: Scalar, b: Scalar)
    requires
        v.is_finite(),
        a.is_finite(),
        b.is_finite(),
        a.val() == b.val(),
    ensures
        v.times(a).val() == v.times(b).val(),
{
    lemma_times_val(v, a);
    lemma_times_val(v, b);
}

/// A small number is not cut off at a large limit.
pub proof fn law_truncated_below(a: Scalar, limit: u64, k: int)
    requires
        a.is_finite(),
        0 <= a.val() < k * unit(),
        0 < k <= limit,
    ensures
        a.truncated(limit) < limit,
{
    reveal(Scalar::spec_truncated);
    law_zero_and_one();
    let n = scalar::mag(a.index()) as int;
    let u = unit();
    if !a.is_neg() {
        vstd::arithmetic::div_mod::lemma_fundamental_div_mod(n, u);
        vstd::arithmetic::div_mod::lemma_mod_bound(n, u);
        let q = n / u;
        assert(q < k) by (nonlinear_arith)
            requires
                n < k * u,
                n >= u * q,
                u > 0,
        ;
        assert(scalar::mag(a.index()) / pow2(149) == q);
    }
}

/// A pixel is 256 steps, and nothing is none.
pub proof fn law_one_in_steps()
    ensures
        in_steps(whole(1), 256),
        in_steps(whole(0), 0),
{
    law_zero_and_one();
    law_steps();
    let st = step();
    assert(0 * st == 0) by (nonlinear_arith);
}

/// A whole number of pixels in steps.
pub proof fn law_whole_in_steps(n: u64)
    requires
        n <= 0x100_0000,
    ensures
        in_steps(whole(n), 256 * n),
{
    scalar::law_whole_exact(n);
    law_steps();
    let st = step();
    assert(n * (256 * st) == (256 * n) * st) by (nonlinear_arith);
}

/// Numbers of one value have sums of one value.
pub proof fn law_plus_same(a: Scalar, b: Scalar, c: Scalar)
    requires
        a.is_finite(),
        b.is_finite(),
        c.is_finite(),
        a.val() == b.val(),
    ensures
        a.plus(c).val() == b.plus(c).val(),
        a.plus(c).is_finite() == b.plus(c).is_finite(),
{
    lemma_plus_val(a, c);
    lemma_plus_val(b, c);
    let i = a.plus(c).index();
    let j = b.plus(c).index();
    if i < j {
        scalar::lemma_mag_increases(i, j);
    } else if j < i {
        scalar::lemma_mag_increases(j, i);
    }
}

/// A quotient of steps that is larger than a whole number is given larger than it.
proof fn lemma_quotient_exceeds(a: Scalar, b: Scalar, n: int, m: int, k: int)
    requires
        in_steps(a, n),
        in_steps(b, m),
        0 < m,
        0 <= n,
        n + m < 0x100_0000,
        0 <= k,
        n > k * m,
        a.over(b).is_finite(),
    ensures
        a.over(b).val() > k * unit(),
{
    law_steps();
    law_zero_and_one();
    law_unit_is_large();
    let st = step();
    let u = unit();
    let x = a.val();
    let e = b.val();
    let v = a.over(b).val();
    assert(e > 0 && x >= 0) by (nonlinear_arith)
        requires
            e == m * st,
            x == n * st,
            m > 0,
            n >= 0,
            st > 0,
    ;
    law_over_rounds(a, b);
    let f = st * u;
    assert(f > 0) by (nonlinear_arith)
        requires
            f == st * u,
            st > 0,
            u > 0,
    ;
    assert(x * u == n * f && (k * u) * e == (k * m) * f) by (nonlinear_arith)
        requires
            x == n * st,
            e == m * st,
            f == st * u,
    ;
    assert(e * 0x80_0000 <= m * f) by (nonlinear_arith)
        requires
            e == m * st,
            f == st * u,
            u >= 0x80_0000,
            m > 0,
            st > 0,
    ;
    assert(n * f + m * f < 0x100_0000 * f) by (nonlinear_arith)
        requires
            n + m < 0x100_0000,
            f > 0,
    ;
    assert((k * m) * f + f <= n * f) by (nonlinear_arith)
        requires
            k * m + 1 <= n,
            f > 0,
    ;
    assert(v * e > (k * u) * e);
    assert(v > k * u) by (nonlinear_arith)
        requires
            v * e > (k * u) * e,
            e > 0,
    ;
}

/// A quotient of steps rounded up covers all of them, unless it is cut off at the limit.
pub proof fn law_ceiling_of_steps(a: Scalar, b: Scalar, n: int, m: int, limit: u64)
    requires
        in_steps(a, n),
        in_steps(b, m),
        0 < m,
        0 <= n,
        n + m < 0x100_0000,
    ensures
        a.over(b).ceiled(limit) == limit || n <= a.over(b).ceiled(limit) * m,
{
    reveal(Scalar::spec_ceiled);
    law_steps();
    law_zero_and_one();
    let st = step();
    let u = unit();
    let x = a.val();
    let e = b.val();
    assert(e >= st && x >= 0 && x * e >= 0) by (nonlinear_arith)
        requires
            e == m * st,
            x == n * st,
            m >= 1,
            n >= 0,
            st > 0,
    ;
    scalar::law_whole_exact(0x100_0000);
    assert(size(x) * u <= size(0x100_0000 * u) * size(e)) by (nonlinear_arith)
        requires
            x == n * st,
            0 <= n < 0x100_0000,
            e >= st,
            st > 0,
            u > 0,
    ;
    law_over_bounded(a, b, whole(0x100_0000));
    let q = a.over(b);
    let v = q.val();
    assert(scalar::mag(0) == 0);
    if q.index() > 0 {
        scalar::lemma_mag_increases(0, q.index());
    }
    let k = q.ceiled(limit) as int;
    if k != limit && n > k * m {
        lemma_quotient_exceeds(a, b, n, m, k);
        if q.is_neg() {
            assert(k * u == 0) by (nonlinear_arith)
                requires
                    k == 0,
            ;
        } else {
            let w = scalar::mag(q.index()) as int;
            vstd::arithmetic::div_mod::lemma_fundamental_div_mod(w, u);
            vstd::arithmetic::div_mod::lemma_mod_bound(w, u);
            let d = w / u;
            assert(scalar::mag(q.index()) / pow2(149) == d);
            assert(scalar::mag(q.index()) % pow2(149) == w % u);
            assert(d >= 0) by (nonlinear_arith)
                requires
                    w >= 0,
                    w < u * d + u,
                    u > 0,
            ;
            assert(u * d == d * u && (d + 1) * u == d * u + u) by (nonlinear_arith);
        }
    }
}

/// Half of an even number of steps is exact.
pub proof fn law_half_of_steps(a: Scalar, n: int)
    requires
        in_steps(a, n),
        n % 2 == 0,
        size(n) <= 0x100_0000,
    ensures
        in_steps(a.times(scalar::ratio(1, 2)), n / 2),
{
    crate::strokes::lemma_half();
    let c = lemma_number_of_steps(n / 2);
    let h = scalar::ratio(1, 2).val();
    let u = unit();
    let st = step();
    let k = n / 2;
    assert((n * st) * h == (k * st) * u) by (nonlinear_arith)
        requires
            n == 2 * k,
            2 * h == u,
    ;
    law_times_exact(a, scalar::ratio(1, 2), c);
}

/// A share of a distance added to a place lies there, up to rounding.
pub proof fn law_share_of_a_distance(a: Scalar, d: Scalar, t: Scalar)
    requires
        ordinary(a),
        d.is_finite(),
        size(d.val()) <= 0x4_0000_0000 * unit(),
        t.is_finite(),
        0 <= t.val() <= unit(),
    ensures
        ({
            let r = a.plus(d.times(t));
            &&& r.is_finite()
            &&& 0x10_0000 * apart(r.val() * unit(), a.val() * unit() + d.val() * t.val()) <= (size(a.val())
                + size(d.val()) + 0x10_0000) * unit()
        }),
{
    law_zero_and_one();
    law_unit_is_large();
    let u = unit();
    let x = a.val();
    let w = d.val();
    let v = t.val();
    assert(size(w * v) <= size(w) * u) by (nonlinear_arith)
        requires
            0 <= v <= u,
    ;
    law_times_bounded(d, t, d);
    law_times_rounds(d, t);
    let m = d.times(t);
    let z = m.val();
    law_plus_finite(a, m);
    law_plus_rounds(a, m);
    let r = a.plus(m).val();
    let n = size(x) + size(w);
    let e2 = apart(r, x + z);
    assert(apart(r * u, x * u + z * u) == e2 * u) by (nonlinear_arith)
        requires
            e2 == apart(r, x + z),
            u > 0,
    ;
    let k = n * u;
    assert(size(w) * u <= k && 0x100_0000 * (e2 * u) <= k && (n + 0x10_0000) * u == k + 0x10_0000 * u)
        by (nonlinear_arith)
        requires
            size(w) <= n,
            0x100_0000 * e2 <= n,
            k == n * u,
            u > 0,
    ;
}

/// A number that is not cut off at one limit is the same at a larger one.
pub proof fn law_truncated_at_a_larger_limit(a: Scalar, limit: u64, more: u64)
    requires
        a.truncated(limit) < limit,
        limit <= more,
    ensures
        a.truncated(more) == a.truncated(limit),
{
    reveal(Scalar::spec_truncated);
}

/// The nearest byte of a number between 0 and 255 is within half of it.
pub proof fn law_nearest_byte_is_near(a: Scalar)
    requires
        a.is_finite(),
        0 <= a.val() <= 255 * unit(),
    ensures
        2 * apart(a.nearest_byte() * unit(), a.val()) <= unit(),
{
    reveal(Scalar::spec_nearest_byte);
    law_zero_and_one();
    let u = unit();
    let n = scalar::mag(a.index()) as int;
    assert(scalar::mag(0) == 0);
    if a.is_neg() {
        assert(0 * u == 0) by (nonlinear_arith);
    } else {
        vstd::arithmetic::div_mod::lemma_fundamental_div_mod(n, u);
        vstd::arithmetic::div_mod::lemma_mod_bound(n, u);
        let q = n / u;
        assert(scalar::mag(a.index()) / pow2(149) == q);
        assert(scalar::mag(a.index()) % pow2(149) == n % u);
        assert(u * q == q * u && (q + 1) * u == q * u + u) by (nonlinear_arith);
        assert(0 <= q <= 255) by (nonlinear_arith)
            requires
                n == u * q + n % u,
                0 <= n % u < u,
                0 <= n <= 255 * u,
                u > 0,
        ;
        if q == 255 {
            assert(q * u == 255 * u) by (nonlinear_arith)
                requires
                    q == 255,
            ;
        }
    }
}

/// A wrapped number is what is left of it over whole numbers below it.
pub proof fn law_wrapped_steps(a: Scalar, n: int)
    requires
        in_steps(a, n),
        size(n) < 0x80_0000,
    ensures
        in_steps(a.wrapped(), n % 256),
{
    law_steps();
    law_zero_and_one();
    law_negate_exact(a);
    let m = size(n);
    let st = step();
    assert((-n) * st == -(n * st)) by (nonlinear_arith);
    let s = a.size();
    assert(in_steps(s, m)) by {
        assert(n * st < 0 ==> n < 0) by (nonlinear_arith)
            requires
                st > 0,
        ;
        assert(n * st > 0 ==> n > 0) by (nonlinear_arith)
            requires
                st > 0,
        ;
        assert(n * st == 0 ==> n == 0) by (nonlinear_arith)
            requires
                st > 0,
        ;
    }
    law_one_in_steps();
    let k = m / 256;
    law_truncated_steps(s, m);
    law_whole_in_steps(k as u64);
    law_minus_steps(s, whole(k as u64), m, 256 * k);
    let rest = s.minus(whole(k as u64));
    law_negate_exact(rest);
    let r = m % 256;
    assert((-r) * st == -(r * st)) by (nonlinear_arith);
    assert(in_steps(rest.negate(), -r));
    law_steps_compare(rest.negate(), whole(0), -r, 0);
    law_plus_steps(rest.negate(), whole(1), -r, 256);
    assert(in_steps(rest, r));
    assert(a.is_neg() ==> n <= 0) by {
        if n > 0 {
            assert(n * st > 0) by (nonlinear_arith)
                requires
                    n > 0,
                    st > 0,
            ;
        }
    }
    assert(!a.is_neg() ==> n >= 0) by {
        if n < 0 {
            assert(n * st < 0) by (nonlinear_arith)
                requires
                    n < 0,
                    st > 0,
            ;
        }
    }
    if n < 0 {
        assert(n % 256 == if r == 0 {
            0
        } else {
            256 - r
        });
    }
}

/// The whole part of a number of steps.
pub proof fn law_truncated_steps(a: Scalar, n: int)
    requires
        in_steps(a, n),
        0 <= n < 0x80_0000,
    ensures
        a.truncated(0x100_0000) == n / 256,
{
    reveal(Scalar::spec_truncated);
    law_steps();
    law_zero_and_one();
    let u = unit();
    let st = step();
    let q = n / 256;
    let r = n % 256;
    let v = scalar::mag(a.index()) as int;
    assert(n * st == q * (256 * st) + r * st && 0 <= r * st < 256 * st && n * st >= 0) by (nonlinear_arith)
        requires
            n == 256 * q + r,
            0 <= r < 256,
            n >= 0,
            st > 0,
    ;
    vstd::arithmetic::div_mod::lemma_fundamental_div_mod_converse(n * st, u, q, r * st);
}

} // verus!
