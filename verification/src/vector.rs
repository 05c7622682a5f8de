//! Three-dimensional vectors.
//!
//! [`Vector`] is the mathematical model: three unbounded integers, on which
//! sums, differences and products are exact. [`Vec3`] is what actors store,
//! three scalars in thousandths; [`Wide3`] holds the exact differences and
//! products of stored vectors on their way to being normalised.
//!
//! Whether one point is within a range of another is decided on the squares
//! of the distance and of the range, which are exact.
//!
//! A direction is a vector of length one, kept in millionths (`UNIT`), a
//! thousand times finer than a place, so that a direction can be multiplied by
//! a weight or by a speed and the product cut to a whole step only once. A
//! vector is normalised by its length rounded up, so that no direction is
//! longer than one; it is magnified a millionfold before that, so that the
//! rounding of its length does not bend it.

use vstd::prelude::*;
use crate::fixed::{divide, floor_sqrt, isqrt, lemma_floor_sqrt, quotient, saturate, saturated};

verus! {

/// A vector of unbounded integers.
pub struct Vector {
    pub x: int,
    pub y: int,
    pub z: int,
}

impl Vector {
    pub open spec fn zero() -> Vector {
        Vector { x: 0, y: 0, z: 0 }
    }

    pub open spec fn plus(self, other: Vector) -> Vector {
        Vector { x: self.x + other.x, y: self.y + other.y, z: self.z + other.z }
    }

    pub open spec fn minus(self, other: Vector) -> Vector {
        Vector { x: self.x - other.x, y: self.y - other.y, z: self.z - other.z }
    }

    /// Every component multiplied by `k`.
    pub open spec fn times(self, k: int) -> Vector {
        Vector { x: self.x * k, y: self.y * k, z: self.z * k }
    }

    /// Every component divided by a positive `d`, rounded toward zero.
    pub open spec fn over(self, d: int) -> Vector {
        Vector { x: quotient(self.x, d), y: quotient(self.y, d), z: quotient(self.z, d) }
    }

    pub open spec fn length_squared(self) -> int {
        self.x * self.x + self.y * self.y + self.z * self.z
    }

    /// The inner product.
    pub open spec fn dot(self, other: Vector) -> int {
        self.x * other.x + self.y * other.y + self.z * other.z
    }

    /// The length, rounded down to a whole step.
    pub open spec fn length(self) -> int {
        floor_sqrt(self.length_squared() as nat) as int
    }

    /// The length, rounded up to a whole step.
    pub open spec fn length_up(self) -> int {
        let l = self.length();
        if l * l == self.length_squared() {
            l
        } else {
            l + 1
        }
    }

    /// The vector a million times as long, unless it has a component beyond
    /// `MAGNIFY_LIMIT` and is long enough as it is.
    pub open spec fn magnified(self) -> Vector {
        if self.within(MAGNIFY_LIMIT as int) {
            self.times(UNIT as int)
        } else {
            self
        }
    }

    /// The direction of the vector, in millionths: the vector of length one
    /// (`UNIT`) that points the same way, every component rounded toward
    /// zero; the zero vector for the zero vector.
    pub open spec fn normalized(self) -> Vector {
        let m = self.magnified();
        if m.length_up() == 0 {
            Vector::zero()
        } else {
            m.times(UNIT as int).over(m.length_up())
        }
    }

    /// The vector is no longer than one, in millionths.
    pub open spec fn is_direction(self) -> bool {
        self.length_squared() <= UNIT * UNIT
    }

    /// The direction `self`, in millionths, made `k` long: every component
    /// multiplied by `k` and cut to a whole step.
    pub open spec fn weighted(self, k: int) -> Vector {
        self.times(k).over(UNIT as int)
    }

    /// The stored vector nearest to this one: every component held to the
    /// range of a stored scalar.
    pub open spec fn stored(self) -> Vec3 {
        Vec3 {
            x: saturated(self.x) as i32,
            y: saturated(self.y) as i32,
            z: saturated(self.z) as i32,
        }
    }

    /// The stored direction of the vector, in millionths, or zero.
    pub open spec fn unit(self) -> Vec3 {
        self.normalized().stored()
    }

    /// Every component held to the range of 64 bits.
    pub open spec fn held_wide(self) -> Vector {
        Vector { x: held_wide(self.x), y: held_wide(self.y), z: held_wide(self.z) }
    }

    /// No component is further from zero than `bound`.
    pub open spec fn within(self, bound: int) -> bool {
        &&& -bound <= self.x <= bound
        &&& -bound <= self.y <= bound
        &&& -bound <= self.z <= bound
    }
}

/// The distance whose square is `squared` is no more than `range`. Nothing is
/// within a range below zero.
pub open spec fn is_within(squared: int, range: int) -> bool {
    range >= 0 && squared <= range * range
}

/// The distance whose square is `squared` is less than `range`. Nothing is
/// closer than a range of zero or below.
pub open spec fn is_closer_than(squared: int, range: int) -> bool {
    range > 0 && squared < range * range
}

/// Says whether the distance whose square is `squared` is no more than `range`.
pub fn within(squared: u128, range: i32) -> (yes: bool)
    ensures
        yes == is_within(squared as int, range as int),
{
    range >= 0 && squared <= times(range, range) as u128
}

/// Says whether the distance whose square is `squared` is less than `range`.
pub fn closer_than(squared: u128, range: i32) -> (yes: bool)
    ensures
        yes == is_closer_than(squared as int, range as int),
{
    range > 0 && squared < times(range, range) as u128
}

/// The length of a direction: directions are kept in millionths.
pub const UNIT: i32 = 1000000;

/// The largest component of a vector that is magnified before it is
/// normalised.
pub const MAGNIFY_LIMIT: i64 = 0x100_0000_0000;

/// `v` held to the range of 64 bits.
pub open spec fn held_wide(v: int) -> int {
    if v < i64::MIN {
        i64::MIN as int
    } else if v > i64::MAX {
        i64::MAX as int
    } else {
        v
    }
}

/// The length of a vector is the integer part of the square root of the
/// square of its length.
pub proof fn lemma_square_root(v: Vector)
    ensures
        0 <= v.length(),
        v.length() * v.length() <= v.length_squared() < (v.length() + 1) * (v.length() + 1),
{
    let s = v.length_squared();
    assert(s >= 0) by (nonlinear_arith)
        requires
            s == v.x * v.x + v.y * v.y + v.z * v.z,
    ;
    lemma_floor_sqrt(s as nat);
}

/// The length of a vector is never negative, and no component is longer than
/// the vector.
pub proof fn lemma_length_bounds(v: Vector)
    ensures
        0 <= v.length(),
        v.within(v.length()),
        v.length() == 0 <==> v.length_squared() == 0,
        v.length_squared() == 0 <==> v == Vector::zero(),
{
    let s = v.length_squared();
    assert(s >= 0 && s >= v.x * v.x && s >= v.y * v.y && s >= v.z * v.z) by (nonlinear_arith)
        requires
            s == v.x * v.x + v.y * v.y + v.z * v.z,
    ;
    lemma_floor_sqrt(s as nat);
    let l = v.length();
    lemma_square_root_bounds(v.x, s, l);
    lemma_square_root_bounds(v.y, s, l);
    lemma_square_root_bounds(v.z, s, l);
    assert(l == 0 <==> s == 0) by (nonlinear_arith)
        requires
            l >= 0,
            l * l <= s < (l + 1) * (l + 1),
    ;
    assert(s == 0 <==> (v.x == 0 && v.y == 0 && v.z == 0)) by (nonlinear_arith)
        requires
            s == v.x * v.x + v.y * v.y + v.z * v.z,
    ;
}

proof fn lemma_square_root_bounds(c: int, s: int, l: int)
    by (nonlinear_arith)
    requires
        0 <= l,
        c * c <= s < (l + 1) * (l + 1),
    ensures
        -l <= c <= l,
{
    if c > l {
        assert(c * c >= (l + 1) * (l + 1));
    }
    if c < -l {
        assert((-c) * (-c) >= (l + 1) * (l + 1));
    }
}

/// The length of a vector, rounded up, is never negative and never below the
/// length, exceeds it by less than one, and is zero for the zero vector only.
/// No component is longer than the vector.
pub proof fn lemma_length_up(v: Vector)
    ensures
        0 <= v.length_up(),
        v.length_squared() <= v.length_up() * v.length_up(),
        v.length_up() > 0 ==> (v.length_up() - 1) * (v.length_up() - 1) < v.length_squared(),
        v.length_up() == 0 <==> v == Vector::zero(),
        v.within(v.length_up()),
{
    lemma_square_root(v);
    lemma_length_bounds(v);
    let l = v.length();
    let s = v.length_squared();
    if l * l != s {
        assert(s <= (l + 1) * (l + 1));
        assert(l * l < s);
    } else {
        if l > 0 {
            assert((l - 1) * (l - 1) < l * l) by (nonlinear_arith)
                requires
                    l > 0,
            ;
        }
    }
}

/// A direction has no component beyond one, and the direction of the zero
/// vector is the zero vector.
pub proof fn lemma_normalized_bounds(v: Vector)
    ensures
        v.normalized().within(UNIT as int),
        v == Vector::zero() ==> v.normalized() == Vector::zero(),
        v.unit()@ == v.normalized(),
{
    let m = v.magnified();
    lemma_length_up(m);
    let l = m.length_up();
    if l != 0 {
        lemma_unit_quotient(m.x, l);
        lemma_unit_quotient(m.y, l);
        lemma_unit_quotient(m.z, l);
    } else {
        assert(v == Vector::zero()) by (nonlinear_arith)
            requires
                m == Vector::zero(),
                m == v || (m.x == v.x * 1000000 && m.y == v.y * 1000000 && m.z == v.z * 1000000),
        ;
    }
}

proof fn lemma_unit_quotient(c: int, l: int)
    requires
        0 < l,
        -l <= c <= l,
    ensures
        -1000000 <= quotient(c * 1000000, l) <= 1000000,
{
    if c >= 0 {
        assert(0 <= (c * 1000000) / l <= 1000000) by (nonlinear_arith)
            requires
                0 < l,
                0 <= c <= l,
        ;
    } else {
        assert(0 <= (-(c * 1000000)) / l <= 1000000) by (nonlinear_arith)
            requires
                0 < l,
                0 < -c <= l,
        ;
    }
}

/// What rounding toward zero does to the square of a quotient: with `c` the
/// quotient of `a` by `l`, the square of `c * l` falls short of the square of
/// `a` by less than twice `|a| * l`.
pub proof fn lemma_quotient_square(a: int, l: int)
    requires
        0 < l,
    ensures
        quotient(a, l) * quotient(a, l) * (l * l) <= a * a,
        quotient(a, l) * quotient(a, l) * (l * l) >= a * a - 2 * (if a >= 0 {
            a
        } else {
            -a
        }) * (l - 1),
{
    let m = if a >= 0 {
        a
    } else {
        -a
    };
    let q = m / l;
    let c = quotient(a, l);
    assert(c * c == q * q) by (nonlinear_arith)
        requires
            c == q || c == -q,
    ;
    assert(a * a == m * m) by (nonlinear_arith)
        requires
            m == a || m == -a,
    ;
    assert(0 <= q && q * l <= m < q * l + l) by (nonlinear_arith)
        requires
            0 <= m,
            0 < l,
            q == m / l,
    ;
    assert(q * q * (l * l) == (q * l) * (q * l)) by (nonlinear_arith);
    assert((q * l) * (q * l) <= m * m) by (nonlinear_arith)
        requires
            0 <= q * l <= m,
    ;
    if m >= l - 1 {
        assert((q * l) * (q * l) >= m * m - 2 * m * (l - 1)) by (nonlinear_arith)
            requires
                0 <= m - (l - 1) <= q * l,
                0 < l,
        ;
    } else {
        assert(m * m - 2 * m * (l - 1) <= 0) by (nonlinear_arith)
            requires
                0 <= m < l - 1,
        ;
        assert((q * l) * (q * l) >= 0) by (nonlinear_arith);
    }
}

/// Every component of `v` divided by `l`: the square of the length of the
/// quotient, times the square of `l`, is no more than the square of the
/// length of `v`.
pub proof fn lemma_over_shortens(v: Vector, l: int)
    requires
        0 < l,
    ensures
        v.over(l).length_squared() * (l * l) <= v.length_squared(),
        0 <= v.over(l).length_squared(),
{
    let n = v.over(l);
    lemma_quotient_square(v.x, l);
    lemma_quotient_square(v.y, l);
    lemma_quotient_square(v.z, l);
    let t = n.length_squared();
    assert(t * (l * l) == n.x * n.x * (l * l) + n.y * n.y * (l * l) + n.z * n.z * (l * l))
        by (nonlinear_arith)
        requires
            t == n.x * n.x + n.y * n.y + n.z * n.z,
    ;
    assert(t >= 0) by (nonlinear_arith)
        requires
            t == n.x * n.x + n.y * n.y + n.z * n.z,
    ;
}

proof fn lemma_square_of_product(a: int, k: int)
    by (nonlinear_arith)
    ensures
        (a * k) * (a * k) == (k * k) * (a * a),
{
}

/// Every component of `v` multiplied by `k`: the square of the length is
/// multiplied by the square of `k`.
pub proof fn lemma_times_lengthens(v: Vector, k: int)
    ensures
        v.times(k).length_squared() == k * k * v.length_squared(),
{
    lemma_square_of_product(v.x, k);
    lemma_square_of_product(v.y, k);
    lemma_square_of_product(v.z, k);
    let kk = k * k;
    assert(kk * (v.x * v.x + v.y * v.y + v.z * v.z) == kk * (v.x * v.x) + kk * (v.y * v.y) + kk * (
    v.z * v.z)) by (nonlinear_arith);
}

/// A direction is never longer than one, and the direction of a vector that
/// is not zero is shorter than one by less than a hundred-thousandth.
pub proof fn lemma_normalized_length(v: Vector)
    ensures
        v.normalized().is_direction(),
        v.unit()@.is_direction(),
        v != Vector::zero() ==> v.normalized().length_squared() >= UNIT * UNIT - 8 * UNIT,
{
    let m = v.magnified();
    lemma_length_up(m);
    lemma_normalized_bounds(v);
    let l = m.length_up();
    let s = m.length_squared();
    let n = v.normalized();
    let t = n.length_squared();
    if l == 0 {
        assert(t == 0) by (nonlinear_arith)
            requires
                n == Vector::zero(),
                t == n.x * n.x + n.y * n.y + n.z * n.z,
        ;
    } else {
        let u = m.times(1000000);
        lemma_times_lengthens(m, 1000000);
        lemma_over_shortens(u, l);
        assert(t * (l * l) <= 1000000 * 1000000 * s);
        assert(t <= 1000000 * 1000000) by (nonlinear_arith)
            requires
                t * (l * l) <= 1000000 * 1000000 * s,
                s <= l * l,
                0 < l,
        ;
        assert(l >= 1000000) by {
            lemma_magnified_length(v);
        }
        lemma_quotient_square(m.x * 1000000, l);
        lemma_quotient_square(m.y * 1000000, l);
        lemma_quotient_square(m.z * 1000000, l);
        let ax = if m.x >= 0 {
            m.x * 1000000
        } else {
            -(m.x * 1000000)
        };
        let ay = if m.y >= 0 {
            m.y * 1000000
        } else {
            -(m.y * 1000000)
        };
        let az = if m.z >= 0 {
            m.z * 1000000
        } else {
            -(m.z * 1000000)
        };
        assert(t * (l * l) == n.x * n.x * (l * l) + n.y * n.y * (l * l) + n.z * n.z * (l * l))
            by (nonlinear_arith)
            requires
                t == n.x * n.x + n.y * n.y + n.z * n.z,
        ;
        assert(u.length_squared() == 1000000 * 1000000 * s);
        assert(ax + ay + az <= 3000000 * l);
        assert(t * (l * l) >= 1000000 * 1000000 * s - 2 * (ax + ay + az) * (l - 1))
            by (nonlinear_arith)
            requires
                t * (l * l) == n.x * n.x * (l * l) + n.y * n.y * (l * l) + n.z * n.z * (l * l),
                n.x * n.x * (l * l) >= u.x * u.x - 2 * ax * (l - 1),
                n.y * n.y * (l * l) >= u.y * u.y - 2 * ay * (l - 1),
                n.z * n.z * (l * l) >= u.z * u.z - 2 * az * (l - 1),
                u.x * u.x + u.y * u.y + u.z * u.z == 1000000 * 1000000 * s,
        ;
        assert(t >= 1000000 * 1000000 - 8 * 1000000) by (nonlinear_arith)
            requires
                t * (l * l) >= 1000000 * 1000000 * s - 2 * (ax + ay + az) * (l - 1),
                0 <= ax + ay + az <= 3000000 * l,
                (l - 1) * (l - 1) < s,
                l >= 1000000,
        ;
    }
}

/// A vector that is not zero is at least a million steps long when it is
/// magnified.
pub proof fn lemma_magnified_length(v: Vector)
    requires
        v != Vector::zero(),
    ensures
        v.magnified().length_up() >= 1000000,
        v.magnified() != Vector::zero(),
{
    let m = v.magnified();
    let s = m.length_squared();
    lemma_length_up(m);
    let l = m.length_up();
    if v.within(MAGNIFY_LIMIT as int) {
        assert(s >= 1000000 * 1000000) by (nonlinear_arith)
            requires
                s == (v.x * 1000000) * (v.x * 1000000) + (v.y * 1000000) * (v.y * 1000000) + (v.z
                    * 1000000) * (v.z * 1000000),
                v.x != 0 || v.y != 0 || v.z != 0,
        ;
        assert(l >= 1000000) by (nonlinear_arith)
            requires
                0 <= l,
                s <= l * l,
                s >= 1000000 * 1000000,
        ;
    }
}

/// A direction made `k` long is no longer than `k`, also where it is held to
/// the range of stored scalars.
pub proof fn lemma_weighted_length(n: Vector, k: int)
    requires
        n.is_direction(),
    ensures
        n.weighted(k).length_squared() <= k * k,
        n.weighted(k).stored()@.length_squared() <= k * k,
{
    let w = n.weighted(k);
    lemma_times_lengthens(n, k);
    lemma_over_shortens(n.times(k), 1000000);
    let t = w.length_squared();
    let q = n.length_squared();
    assert(t <= k * k) by (nonlinear_arith)
        requires
            t * (1000000 * 1000000) <= k * k * q,
            q <= 1000000 * 1000000,
            0 <= t,
    ;
    lemma_stored_shortens(w);
}

/// A vector held to the range of stored scalars is no longer than it was.
pub proof fn lemma_stored_shortens(v: Vector)
    ensures
        v.stored()@.length_squared() <= v.length_squared(),
{
    let r = v.stored()@;
    assert(r.x * r.x <= v.x * v.x) by (nonlinear_arith)
        requires
            (0 <= r.x <= v.x) || (v.x <= r.x <= 0),
    ;
    assert(r.y * r.y <= v.y * v.y) by (nonlinear_arith)
        requires
            (0 <= r.y <= v.y) || (v.y <= r.y <= 0),
    ;
    assert(r.z * r.z <= v.z * v.z) by (nonlinear_arith)
        requires
            (0 <= r.z <= v.z) || (v.z <= r.z <= 0),
    ;
}

proof fn lemma_cross_term(a: int, b: int, c: int, d: int)
    ensures
        2 * ((a * b) * (c * d)) <= (a * d) * (a * d) + (c * b) * (c * b),
{
    let p = a * d;
    let q = c * b;
    assert((a * b) * (c * d) == p * q) by (nonlinear_arith)
        requires
            p == a * d,
            q == c * b,
    ;
    assert(2 * (p * q) <= p * p + q * q) by (nonlinear_arith);
}

/// The square of the inner product of two vectors is no more than the
/// product of the squares of their lengths.
pub proof fn lemma_inner_product(a: Vector, b: Vector)
    ensures
        a.dot(b) * a.dot(b) <= a.length_squared() * b.length_squared(),
{
    let xx = a.x * b.x;
    let yy = a.y * b.y;
    let zz = a.z * b.z;
    lemma_cross_term(a.x, b.x, a.y, b.y);
    lemma_cross_term(a.x, b.x, a.z, b.z);
    lemma_cross_term(a.y, b.y, a.z, b.z);
    let xy = a.x * b.y;
    let yx = a.y * b.x;
    let xz = a.x * b.z;
    let zx = a.z * b.x;
    let yz = a.y * b.z;
    let zy = a.z * b.y;
    let d = xx + yy + zz;
    assert(d * d == xx * xx + yy * yy + zz * zz + 2 * (xx * yy) + 2 * (xx * zz) + 2 * (yy * zz))
        by (nonlinear_arith)
        requires
            d == xx + yy + zz,
    ;
    let la = a.length_squared();
    let lb = b.length_squared();
    lemma_square_of_product(a.x, b.x);
    lemma_square_of_product(a.y, b.y);
    lemma_square_of_product(a.z, b.z);
    lemma_square_of_product(a.x, b.y);
    lemma_square_of_product(a.y, b.x);
    lemma_square_of_product(a.x, b.z);
    lemma_square_of_product(a.z, b.x);
    lemma_square_of_product(a.y, b.z);
    lemma_square_of_product(a.z, b.y);
    let ax = a.x * a.x;
    let ay = a.y * a.y;
    let az = a.z * a.z;
    let bx = b.x * b.x;
    let by = b.y * b.y;
    let bz = b.z * b.z;
    assert((ax + ay + az) * (bx + by + bz) == bx * ax + by * ax + bz * ax + bx * ay + by * ay + bz
        * ay + bx * az + by * az + bz * az) by (nonlinear_arith);
}

/// The sum of two vectors is no longer than their lengths together.
pub proof fn lemma_sum_length(a: Vector, b: Vector, p: int, q: int)
    requires
        0 <= p,
        0 <= q,
        a.length_squared() <= p * p,
        b.length_squared() <= q * q,
    ensures
        a.plus(b).length_squared() <= (p + q) * (p + q),
{
    lemma_inner_product(a, b);
    let d = a.dot(b);
    let la = a.length_squared();
    let lb = b.length_squared();
    assert(la >= 0 && lb >= 0) by (nonlinear_arith)
        requires
            la == a.x * a.x + a.y * a.y + a.z * a.z,
            lb == b.x * b.x + b.y * b.y + b.z * b.z,
    ;
    assert(la * lb <= (p * q) * (p * q)) by (nonlinear_arith)
        requires
            0 <= la <= p * p,
            0 <= lb <= q * q,
    ;
    assert(d <= p * q) by (nonlinear_arith)
        requires
            d * d <= (p * q) * (p * q),
            0 <= p,
            0 <= q,
    ;
    assert(a.plus(b).length_squared() == la + 2 * d + lb) by (nonlinear_arith)
        requires
            a.plus(b).length_squared() == (a.x + b.x) * (a.x + b.x) + (a.y + b.y) * (a.y + b.y) + (
            a.z + b.z) * (a.z + b.z),
            la == a.x * a.x + a.y * a.y + a.z * a.z,
            lb == b.x * b.x + b.y * b.y + b.z * b.z,
            d == a.x * b.x + a.y * b.y + a.z * b.z,
    ;
    assert((p + q) * (p + q) == p * p + 2 * (p * q) + q * q) by (nonlinear_arith);
}

/// A pair of stored scalars.
#[derive(Clone, Copy, Debug, PartialEq, Eq, Structural)]
pub struct Vec2 {
    pub x: i32,
    pub y: i32,
}

/// A stored vector: three scalars, in thousandths of a unit for a place, a
/// velocity or a steering vector, in millionths for a direction.
#[derive(Clone, Copy, Debug, PartialEq, Eq, Structural)]
pub struct Vec3 {
    pub x: i32,
    pub y: i32,
    pub z: i32,
}

impl View for Vec3 {
    type V = Vector;

    open spec fn view(&self) -> Vector {
        Vector { x: self.x as int, y: self.y as int, z: self.z as int }
    }
}

/// An exact difference or product of stored vectors.
#[derive(Clone, Copy, Debug, PartialEq, Eq, Structural)]
pub struct Wide3 {
    pub x: i64,
    pub y: i64,
    pub z: i64,
}

impl View for Wide3 {
    type V = Vector;

    open spec fn view(&self) -> Vector {
        Vector { x: self.x as int, y: self.y as int, z: self.z as int }
    }
}

impl Wide3 {
    pub fn length_squared(&self) -> (s: u128)
        ensures
            s == self@.length_squared(),
    {
        let x: i128 = self.x as i128;
        let y: i128 = self.y as i128;
        let z: i128 = self.z as i128;
        assert(0 <= x * x <= 0x8000_0000_0000_0000 * 0x8000_0000_0000_0000) by (nonlinear_arith)
            requires
                -0x8000_0000_0000_0000 <= x <= 0x8000_0000_0000_0000,
        ;
        assert(0 <= y * y <= 0x8000_0000_0000_0000 * 0x8000_0000_0000_0000) by (nonlinear_arith)
            requires
                -0x8000_0000_0000_0000 <= y <= 0x8000_0000_0000_0000,
        ;
        assert(0 <= z * z <= 0x8000_0000_0000_0000 * 0x8000_0000_0000_0000) by (nonlinear_arith)
            requires
                -0x8000_0000_0000_0000 <= z <= 0x8000_0000_0000_0000,
        ;
        let xx: u128 = (x * x) as u128;
        let yy: u128 = (y * y) as u128;
        let zz: u128 = (z * z) as u128;
        xx + yy + zz
    }

    pub fn length(&self) -> (l: u64)
        ensures
            l == self@.length(),
    {
        isqrt(self.length_squared())
    }

    /// The length, rounded up to a whole step.
    pub fn length_up(&self) -> (l: u128)
        ensures
            l == self@.length_up(),
            l <= 0x1_0000_0000_0000_0000,
    {
        let s: u128 = self.length_squared();
        let l: u128 = isqrt(s) as u128;
        proof {
            lemma_square_root(self@);
        }
        if l * l == s {
            l
        } else {
            l + 1
        }
    }

    /// The direction of the vector, in millionths, or zero.
    pub fn normalize_or_zero(&self) -> (r: Vec3)
        ensures
            r@ == self@.normalized(),
            r == self@.unit(),
            r@.within(UNIT as int),
            r@.is_direction(),
    {
        let m: Wide3 = self.magnify();
        let len: u128 = m.length_up();
        proof {
            lemma_length_up(m@);
            lemma_normalized_bounds(self@);
            lemma_normalized_length(self@);
        }
        if len == 0 {
            return Vec3 { x: 0, y: 0, z: 0 };
        }
        let l: i128 = len as i128;
        let x: i128 = divide(m.x as i128 * 1000000, l);
        let y: i128 = divide(m.y as i128 * 1000000, l);
        let z: i128 = divide(m.z as i128 * 1000000, l);
        Vec3 { x: x as i32, y: y as i32, z: z as i32 }
    }

    /// The vector a million times as long, unless it is long enough as it
    /// is.
    pub fn magnify(&self) -> (m: Wide3)
        ensures
            m@ == self@.magnified(),
    {
        if -MAGNIFY_LIMIT <= self.x && self.x <= MAGNIFY_LIMIT && -MAGNIFY_LIMIT <= self.y && self.y
            <= MAGNIFY_LIMIT && -MAGNIFY_LIMIT <= self.z && self.z <= MAGNIFY_LIMIT {
            Wide3 { x: self.x * 1000000, y: self.y * 1000000, z: self.z * 1000000 }
        } else {
            *self
        }
    }
}

impl Vec3 {
    /// The direction `self`, in millionths, made `k` long: every component
    /// multiplied by `k`, cut to a whole step and held to the range of a
    /// stored scalar.
    pub open spec fn weighted(self, k: int) -> Vec3 {
        self@.weighted(k).stored()
    }

    pub fn new(x: i32, y: i32, z: i32) -> (v: Vec3)
        ensures
            v == (Vec3 { x, y, z }),
    {
        Vec3 { x, y, z }
    }

    pub fn zero() -> (v: Vec3)
        ensures
            v == (Vec3 { x: 0, y: 0, z: 0 }),
            v == Vector::zero().stored(),
            v@ == Vector::zero(),
    {
        Vec3 { x: 0, y: 0, z: 0 }
    }

    /// The exact vector from `self` to `target`.
    pub fn offset_to(&self, target: &Vec3) -> (w: Wide3)
        ensures
            w@ == target@.minus(self@),
    {
        Wide3 {
            x: target.x as i64 - self.x as i64,
            y: target.y as i64 - self.y as i64,
            z: target.z as i64 - self.z as i64,
        }
    }

    pub fn widen(&self) -> (w: Wide3)
        ensures
            w@ == self@,
    {
        Wide3 { x: self.x as i64, y: self.y as i64, z: self.z as i64 }
    }

    pub fn length_squared(&self) -> (s: u128)
        ensures
            s == self@.length_squared(),
    {
        self.widen().length_squared()
    }

    pub fn length(&self) -> (l: u64)
        ensures
            l == self@.length(),
    {
        self.widen().length()
    }

    /// The distance between two points, rounded down to a whole step.
    pub fn distance(&self, other: &Vec3) -> (d: u64)
        ensures
            d == other@.minus(self@).length(),
    {
        self.offset_to(other).length()
    }

    /// The square of the distance between two points.
    pub fn distance_squared(&self, other: &Vec3) -> (s: u128)
        ensures
            s == other@.minus(self@).length_squared(),
    {
        self.offset_to(other).length_squared()
    }

    /// The direction of the vector, in millionths, or zero.
    pub fn normalize_or_zero(&self) -> (r: Vec3)
        ensures
            r@ == self@.normalized(),
            r == self@.unit(),
            r@.within(UNIT as int),
            r@.is_direction(),
    {
        self.widen().normalize_or_zero()
    }

    /// The sum, every component held to the range of a stored scalar.
    pub fn plus(&self, other: &Vec3) -> (r: Vec3)
        ensures
            r == self@.plus(other@).stored(),
    {
        Vec3 {
            x: saturate(self.x as i128 + other.x as i128),
            y: saturate(self.y as i128 + other.y as i128),
            z: saturate(self.z as i128 + other.z as i128),
        }
    }

    /// The direction `self`, in millionths, made `k` long: every component
    /// multiplied by `k`, cut to a whole step and held to the range of a
    /// stored scalar. The result is no longer than `k`.
    pub fn scaled(&self, k: i32) -> (r: Vec3)
        ensures
            r == self.weighted(k as int),
            self@.is_direction() ==> r@.length_squared() <= k * k,
    {
        proof {
            if self@.is_direction() {
                lemma_weighted_length(self@, k as int);
            }
        }
        Vec3 {
            x: saturate(divide(times(self.x, k), 1000000)),
            y: saturate(divide(times(self.y, k), 1000000)),
            z: saturate(divide(times(self.z, k), 1000000)),
        }
    }
}

/// The exact product of two stored scalars.
pub fn times(a: i32, b: i32) -> (p: i128)
    ensures
        p == a * b,
        -0x4000_0000_0000_0000 <= p <= 0x4000_0000_0000_0000,
{
    assert(-0x8000_0000 * 0x8000_0000 <= a * b <= 0x8000_0000 * 0x8000_0000) by (nonlinear_arith)
        requires
            -0x8000_0000 <= a <= 0x8000_0000,
            -0x8000_0000 <= b <= 0x8000_0000,
    ;
    a as i128 * b as i128
}

} // verus!
