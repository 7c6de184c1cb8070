//! Fixed-point 3D vectors, rotation matrices and rigid transforms.
//!
//! A coordinate holds `UNIT` subunits per world unit; a rotation matrix
//! entry holds `ROT_ONE` subunits per 1.0. Division truncates toward zero,
//! which is exact whenever the dividend is a multiple of the divisor.

use vstd::prelude::*;

verus! {

/// Fixed-point coordinate subunits per world unit.
pub const UNIT: i64 = 1000;

/// Fixed-point subunits per 1.0 in a rotation-matrix entry.
pub const ROT_ONE: i64 = 1000;

/// Largest magnitude allowed for a local contact-point coordinate.
pub const CONTACT_LIMIT: i64 = 1_000_000_000;

/// Largest magnitude allowed for the translation of a transform that takes
/// part in collision resolution.
pub const TRANSLATION_LIMIT: i64 = 1_000_000_000_000_000;

/// Largest number of manifolds per collision event and of contact points
/// per manifold.
pub const MAX_POINTS: usize = 1000;

#[derive(Clone, Copy, PartialEq, Eq, Structural, Debug)]
pub struct Vec3 {
    pub x: i64,
    pub y: i64,
    pub z: i64,
}

impl Vec3 {
    pub open spec fn sv(self) -> (int, int, int) {
        (self.x as int, self.y as int, self.z as int)
    }

    pub fn splat(v: i64) -> (r: Vec3)
        ensures
            r == (Vec3 { x: v, y: v, z: v }),
    {
        Vec3 { x: v, y: v, z: v }
    }

}

/// Componentwise sum of two mathematical vectors.
pub open spec fn add3(a: (int, int, int), b: (int, int, int)) -> (int, int, int) {
    (a.0 + b.0, a.1 + b.1, a.2 + b.2)
}

/// Division truncated toward zero, for a positive divisor.
pub open spec fn tdiv(a: int, b: int) -> int {
    if a >= 0 {
        a / b
    } else {
        -((-a) / b)
    }
}

/// Componentwise truncated division of a vector by a positive count.
pub open spec fn tdiv3(v: (int, int, int), n: int) -> (int, int, int) {
    (tdiv(v.0, n), tdiv(v.1, n), tdiv(v.2, n))
}

/// Truncated division is bounded by the dividend's magnitude.
pub proof fn lemma_tdiv_bound(a: int, b: int, bound: int)
    requires
        b >= 1,
        -bound <= a <= bound,
        0 <= bound,
    ensures
        -bound <= tdiv(a, b) <= bound,
{
    if a >= 0 {
        assert(0 <= a / b <= a) by (nonlinear_arith)
            requires
                a >= 0,
                b >= 1,
        ;
    } else {
        assert(0 <= (-a) / b <= -a) by (nonlinear_arith)
            requires
                -a >= 0,
                b >= 1,
        ;
    }
}

/// Scaling a larger count scales the bound: for a nonnegative `x`,
/// `i * x` grows with `i`.
pub proof fn lemma_mul_le(i: int, max: int, x: int)
    requires
        0 <= i <= max,
        0 <= x,
    ensures
        i * x <= max * x,
        -(max * x) <= -(i * x),
{
    assert(i * x <= max * x) by (nonlinear_arith)
        requires
            0 <= i <= max,
            0 <= x,
    ;
}

/// One more summand moves the bound by exactly `x`.
pub proof fn lemma_mul_step(i: int, x: int)
    requires
        0 <= i,
        0 <= x,
    ensures
        (i + 1) * x == i * x + x,
        -((i + 1) * x) == -(i * x) - x,
{
    assert((i + 1) * x == i * x + x) by (nonlinear_arith);
}

/// Truncated division of an `i64`, exactly `tdiv`.
pub fn tdiv64(a: i64, b: i64) -> (r: i64)
    requires
        1 <= b,
        -0x4000_0000_0000_0000 <= a <= 0x4000_0000_0000_0000,
    ensures
        r == tdiv(a as int, b as int),
{
    if a >= 0 {
        let q = (a as u64) / (b as u64);
        q as i64
    } else {
        let q = ((-a) as u64) / (b as u64);
        proof {
            lemma_tdiv_bound(a as int, b as int, 0x4000_0000_0000_0000);
        }
        -(q as i64)
    }
}

/// A 3x3 rotation matrix in fixed point: each entry is `ROT_ONE` times the
/// real entry, so every entry of a true rotation matrix has magnitude at
/// most `ROT_ONE`.
#[derive(Clone, Copy, PartialEq, Eq, Structural, Debug)]
pub struct Mat3 {
    pub xx: i64,
    pub xy: i64,
    pub xz: i64,
    pub yx: i64,
    pub yy: i64,
    pub yz: i64,
    pub zx: i64,
    pub zy: i64,
    pub zz: i64,
}

impl Mat3 {
    pub open spec fn identity_spec() -> Mat3 {
        Mat3 {
            xx: ROT_ONE,
            xy: 0,
            xz: 0,
            yx: 0,
            yy: ROT_ONE,
            yz: 0,
            zx: 0,
            zy: 0,
            zz: ROT_ONE,
        }
    }

    pub fn identity() -> (r: Mat3)
        ensures
            r == Mat3::identity_spec(),
    {
        Mat3 { xx: ROT_ONE, xy: 0, xz: 0, yx: 0, yy: ROT_ONE, yz: 0, zx: 0, zy: 0, zz: ROT_ONE }
    }

    /// Every entry has magnitude at most `ROT_ONE`.
    pub open spec fn wf(self) -> bool {
        &&& -ROT_ONE <= self.xx <= ROT_ONE
        &&& -ROT_ONE <= self.xy <= ROT_ONE
        &&& -ROT_ONE <= self.xz <= ROT_ONE
        &&& -ROT_ONE <= self.yx <= ROT_ONE
        &&& -ROT_ONE <= self.yy <= ROT_ONE
        &&& -ROT_ONE <= self.yz <= ROT_ONE
        &&& -ROT_ONE <= self.zx <= ROT_ONE
        &&& -ROT_ONE <= self.zy <= ROT_ONE
        &&& -ROT_ONE <= self.zz <= ROT_ONE
    }
}

/// The matrix applied to a mathematical vector, scaled back down by
/// `ROT_ONE` with truncation.
pub open spec fn rot_apply(m: Mat3, v: (int, int, int)) -> (int, int, int) {
    (
        tdiv(m.xx * v.0 + m.xy * v.1 + m.xz * v.2, ROT_ONE as int),
        tdiv(m.yx * v.0 + m.yy * v.1 + m.yz * v.2, ROT_ONE as int),
        tdiv(m.zx * v.0 + m.zy * v.1 + m.zz * v.2, ROT_ONE as int),
    )
}

/// A rigid transform: translation and rotation, plus a visual scale that
/// collision resolution deliberately leaves unapplied.
#[derive(Clone, Copy, PartialEq, Eq, Structural, Debug)]
pub struct Transform {
    pub translation: Vec3,
    pub rotation: Mat3,
    pub scale: Vec3,
}

impl Transform {
    /// A transform fit for collision resolution: bounded translation and a
    /// well-formed rotation matrix.
    pub open spec fn wf(self) -> bool {
        &&& -TRANSLATION_LIMIT <= self.translation.x <= TRANSLATION_LIMIT
        &&& -TRANSLATION_LIMIT <= self.translation.y <= TRANSLATION_LIMIT
        &&& -TRANSLATION_LIMIT <= self.translation.z <= TRANSLATION_LIMIT
        &&& self.rotation.wf()
    }

    pub fn identity() -> (r: Transform)
        ensures
            r == (Transform {
                translation: Vec3 { x: 0i64, y: 0i64, z: 0i64 },
                rotation: Mat3::identity_spec(),
                scale: Vec3 { x: UNIT, y: UNIT, z: UNIT },
            }),
            r.wf(),
    {
        Transform {
            translation: Vec3 { x: 0, y: 0, z: 0 },
            rotation: Mat3::identity(),
            scale: Vec3 { x: UNIT, y: UNIT, z: UNIT },
        }
    }
}

/// A local point carried into world space: the body's translation plus its
/// rotation applied to the point. Scale is not applied.
pub open spec fn world_point(t: Transform, local: (int, int, int)) -> (int, int, int) {
    add3(t.translation.sv(), rot_apply(t.rotation, local))
}

/// Largest magnitude a local centroid may have when fed to `apply_rotation`.
pub const CENTROID_LIMIT: i64 = 1_000_000_000_000_000;

/// Applies a well-formed rotation matrix to a bounded local vector.
pub fn apply_rotation(m: &Mat3, v: Vec3) -> (r: Vec3)
    requires
        m.wf(),
        -CENTROID_LIMIT <= v.x <= CENTROID_LIMIT,
        -CENTROID_LIMIT <= v.y <= CENTROID_LIMIT,
        -CENTROID_LIMIT <= v.z <= CENTROID_LIMIT,
    ensures
        r.sv() == rot_apply(*m, v.sv()),
        -3 * CENTROID_LIMIT <= r.x <= 3 * CENTROID_LIMIT,
        -3 * CENTROID_LIMIT <= r.y <= 3 * CENTROID_LIMIT,
        -3 * CENTROID_LIMIT <= r.z <= 3 * CENTROID_LIMIT,
{
    proof {
        lemma_rot_row_bound(m.xx as int, m.xy as int, m.xz as int, v.x as int, v.y as int, v.z as int);
        lemma_rot_row_bound(m.yx as int, m.yy as int, m.yz as int, v.x as int, v.y as int, v.z as int);
        lemma_rot_row_bound(m.zx as int, m.zy as int, m.zz as int, v.x as int, v.y as int, v.z as int);
    }
    let x = tdiv64(m.xx * v.x + m.xy * v.y + m.xz * v.z, ROT_ONE);
    let y = tdiv64(m.yx * v.x + m.yy * v.y + m.yz * v.z, ROT_ONE);
    let z = tdiv64(m.zx * v.x + m.zy * v.y + m.zz * v.z, ROT_ONE);
    proof {
        lemma_rot_quotient_bound(m.xx * v.x + m.xy * v.y + m.xz * v.z);
        lemma_rot_quotient_bound(m.yx * v.x + m.yy * v.y + m.yz * v.z);
        lemma_rot_quotient_bound(m.zx * v.x + m.zy * v.y + m.zz * v.z);
    }
    Vec3 { x, y, z }
}

/// One row of a fixed-point matrix-vector product is bounded by three times
/// the product of the entry and coordinate limits.
proof fn lemma_rot_row_bound(a: int, b: int, c: int, x: int, y: int, z: int)
    requires
        -ROT_ONE <= a <= ROT_ONE,
        -ROT_ONE <= b <= ROT_ONE,
        -ROT_ONE <= c <= ROT_ONE,
        -CENTROID_LIMIT <= x <= CENTROID_LIMIT,
        -CENTROID_LIMIT <= y <= CENTROID_LIMIT,
        -CENTROID_LIMIT <= z <= CENTROID_LIMIT,
    ensures
        -3 * (ROT_ONE as int) * (CENTROID_LIMIT as int) <= a * x + b * y + c * z
            <= 3 * (ROT_ONE as int) * (CENTROID_LIMIT as int),
        -(ROT_ONE as int) * (CENTROID_LIMIT as int) <= a * x <= (ROT_ONE as int) * (
        CENTROID_LIMIT as int),
        -(ROT_ONE as int) * (CENTROID_LIMIT as int) <= b * y <= (ROT_ONE as int) * (
        CENTROID_LIMIT as int),
        -(ROT_ONE as int) * (CENTROID_LIMIT as int) <= c * z <= (ROT_ONE as int) * (
        CENTROID_LIMIT as int),
{
    assert(-(ROT_ONE as int) * (CENTROID_LIMIT as int) <= a * x <= (ROT_ONE as int) * (
    CENTROID_LIMIT as int)) by (nonlinear_arith)
        requires
            -ROT_ONE <= a <= ROT_ONE,
            -CENTROID_LIMIT <= x <= CENTROID_LIMIT,
    ;
    assert(-(ROT_ONE as int) * (CENTROID_LIMIT as int) <= b * y <= (ROT_ONE as int) * (
    CENTROID_LIMIT as int)) by (nonlinear_arith)
        requires
            -ROT_ONE <= b <= ROT_ONE,
            -CENTROID_LIMIT <= y <= CENTROID_LIMIT,
    ;
    assert(-(ROT_ONE as int) * (CENTROID_LIMIT as int) <= c * z <= (ROT_ONE as int) * (
    CENTROID_LIMIT as int)) by (nonlinear_arith)
        requires
            -ROT_ONE <= c <= ROT_ONE,
            -CENTROID_LIMIT <= z <= CENTROID_LIMIT,
    ;
}

/// Dividing a scaled row sum by the fixed-point unit shrinks it back to
/// three times the centroid limit.
proof fn lemma_rot_quotient_bound(s: int)
    requires
        -3 * (ROT_ONE as int) * (CENTROID_LIMIT as int) <= s <= 3 * (ROT_ONE as int) * (
        CENTROID_LIMIT as int),
    ensures
        -3 * (CENTROID_LIMIT as int) <= tdiv(s, ROT_ONE as int) <= 3 * (CENTROID_LIMIT as int),
{
    if s >= 0 {
        assert(0 <= s / (ROT_ONE as int) <= 3 * (CENTROID_LIMIT as int)) by (nonlinear_arith)
            requires
                0 <= s <= 3 * (ROT_ONE as int) * (CENTROID_LIMIT as int),
        ;
    } else {
        assert(0 <= (-s) / (ROT_ONE as int) <= 3 * (CENTROID_LIMIT as int)) by (nonlinear_arith)
            requires
                0 <= -s <= 3 * (ROT_ONE as int) * (CENTROID_LIMIT as int),
        ;
    }
}

} // verus!
