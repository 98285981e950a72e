//! Vectors and quaternions over fixed-point scalars, with the blend
//! operations the animation core is built on.
//!
//! Rotations are interpolated by hemisphere-corrected linear interpolation
//! of the components: when the two quaternions point into opposite
//! hemispheres (negative dot product), the target's components enter the
//! mix negated, which interpolates toward the equivalent opposite-sign
//! representation and so always takes the short way around.

use vstd::prelude::*;

use crate::scalar::{fp_add, fp_blend, fp_div, fp_mul, fp_quot, fp_sub};
use crate::scalar::{fp_diff, fp_lerp, fp_prod, fp_sum, FP_ONE};

verus! {

/// The mathematical value of a vector: unbounded integer components,
/// each still scaled by `FP_ONE`.
pub struct Vec3i {
    pub x: int,
    pub y: int,
    pub z: int,
}

/// The mathematical value of a quaternion `s + xi + yj + zk`.
pub struct Quat4i {
    pub s: int,
    pub x: int,
    pub y: int,
    pub z: int,
}

/// A three-component vector of fixed-point scalars.
#[derive(Clone, Copy, Debug, PartialEq, Eq, Structural)]
pub struct CalVector {
    pub x: i64,
    pub y: i64,
    pub z: i64,
}

/// A quaternion of fixed-point scalars; `s` is the real part.
#[derive(Clone, Copy, Debug, PartialEq, Eq, Structural)]
pub struct CalQuaternion {
    pub s: i64,
    pub x: i64,
    pub y: i64,
    pub z: i64,
}

impl View for CalVector {
    type V = Vec3i;

    open spec fn view(&self) -> Vec3i {
        Vec3i { x: self.x as int, y: self.y as int, z: self.z as int }
    }
}

impl View for CalQuaternion {
    type V = Quat4i;

    open spec fn view(&self) -> Quat4i {
        Quat4i { s: self.s as int, x: self.x as int, y: self.y as int, z: self.z as int }
    }
}

/// Component-wise saturating vector sum.
pub open spec fn vec_plus(a: Vec3i, b: Vec3i) -> Vec3i {
    Vec3i { x: fp_sum(a.x, b.x), y: fp_sum(a.y, b.y), z: fp_sum(a.z, b.z) }
}

/// Component-wise linear interpolation from `a` toward `b` by `d`.
pub open spec fn vec_lerp(a: Vec3i, d: int, b: Vec3i) -> Vec3i {
    Vec3i { x: fp_lerp(a.x, d, b.x), y: fp_lerp(a.y, d, b.y), z: fp_lerp(a.z, d, b.z) }
}

/// The fixed-point cross product.
pub open spec fn vec_cross(a: Vec3i, b: Vec3i) -> Vec3i {
    Vec3i {
        x: fp_diff(fp_prod(a.y, b.z), fp_prod(a.z, b.y)),
        y: fp_diff(fp_prod(a.z, b.x), fp_prod(a.x, b.z)),
        z: fp_diff(fp_prod(a.x, b.y), fp_prod(a.y, b.x)),
    }
}

/// The fixed-point dot product of two quaternions, accumulated in the
/// order vector part first, then the real part.
pub open spec fn quat_dot(a: Quat4i, b: Quat4i) -> int {
    fp_sum(
        fp_sum(fp_sum(fp_prod(a.x, b.x), fp_prod(a.y, b.y)), fp_prod(a.z, b.z)),
        fp_prod(a.s, b.s),
    )
}

/// Hemisphere-corrected linear interpolation of quaternion components:
/// the interpolation rule of this library's rotation blending.
pub open spec fn quat_mix(a: Quat4i, d: int, b: Quat4i) -> Quat4i {
    let flip = quat_dot(a, b) < 0;
    let dd = if flip {
        fp_diff(0, d)
    } else {
        d
    };
    let inv = fp_diff(FP_ONE as int, d);
    Quat4i {
        s: fp_sum(fp_prod(inv, a.s), fp_prod(dd, b.s)),
        x: fp_sum(fp_prod(inv, a.x), fp_prod(dd, b.x)),
        y: fp_sum(fp_prod(inv, a.y), fp_prod(dd, b.y)),
        z: fp_sum(fp_prod(inv, a.z), fp_prod(dd, b.z)),
    }
}

/// The fixed-point Hamilton product `a * b`.
pub open spec fn quat_compose(a: Quat4i, b: Quat4i) -> Quat4i {
    Quat4i {
        s: fp_diff(
            fp_diff(fp_diff(fp_prod(a.s, b.s), fp_prod(a.x, b.x)), fp_prod(a.y, b.y)),
            fp_prod(a.z, b.z),
        ),
        x: fp_diff(
            fp_sum(fp_sum(fp_prod(a.s, b.x), fp_prod(b.s, a.x)), fp_prod(a.y, b.z)),
            fp_prod(a.z, b.y),
        ),
        y: fp_diff(
            fp_sum(fp_sum(fp_prod(a.s, b.y), fp_prod(b.s, a.y)), fp_prod(a.z, b.x)),
            fp_prod(a.x, b.z),
        ),
        z: fp_diff(
            fp_sum(fp_sum(fp_prod(a.s, b.z), fp_prod(b.s, a.z)), fp_prod(a.x, b.y)),
            fp_prod(a.y, b.x),
        ),
    }
}

/// The inverse rotation: the conjugate scaled down by the squared
/// magnitude.
pub open spec fn quat_inverse(q: Quat4i) -> Quat4i
    recommends
        quat_dot(q, q) != 0,
{
    let m2 = quat_dot(q, q);
    Quat4i {
        s: fp_quot(q.s, m2),
        x: fp_quot(fp_diff(0, q.x), m2),
        y: fp_quot(fp_diff(0, q.y), m2),
        z: fp_quot(fp_diff(0, q.z), m2),
    }
}

/// Rotation of a vector by a quaternion:
/// `v + 2 * qv x (qv x v + s * v)` over fixed-point scalars.
pub open spec fn quat_apply(q: Quat4i, v: Vec3i) -> Vec3i {
    let qv = Vec3i { x: q.x, y: q.y, z: q.z };
    let inner = Vec3i {
        x: fp_sum(vec_cross(qv, v).x, fp_prod(q.s, v.x)),
        y: fp_sum(vec_cross(qv, v).y, fp_prod(q.s, v.y)),
        z: fp_sum(vec_cross(qv, v).z, fp_prod(q.s, v.z)),
    };
    let outer = vec_cross(qv, inner);
    Vec3i {
        x: fp_sum(fp_sum(outer.x, outer.x), v.x),
        y: fp_sum(fp_sum(outer.y, outer.y), v.y),
        z: fp_sum(fp_sum(outer.z, outer.z), v.z),
    }
}

/// Components small enough to be carried by a `CalVector`; every view of
/// an executable vector satisfies this.
pub open spec fn vec_in_range(v: Vec3i) -> bool {
    &&& i64::MIN as int <= v.x <= i64::MAX as int
    &&& i64::MIN as int <= v.y <= i64::MAX as int
    &&& i64::MIN as int <= v.z <= i64::MAX as int
}

/// Components small enough to be carried by a `CalQuaternion`.
pub open spec fn quat_in_range(q: Quat4i) -> bool {
    &&& i64::MIN as int <= q.s <= i64::MAX as int
    &&& i64::MIN as int <= q.x <= i64::MAX as int
    &&& i64::MIN as int <= q.y <= i64::MAX as int
    &&& i64::MIN as int <= q.z <= i64::MAX as int
}

/// Interpolating by a zero fraction returns the start exactly.
pub proof fn lemma_vec_lerp_zero(a: Vec3i, b: Vec3i)
    requires
        vec_in_range(a),
    ensures
        vec_lerp(a, 0, b) == a,
{
    crate::scalar::lemma_fp_prod_zero(fp_diff(b.x, a.x));
    crate::scalar::lemma_fp_prod_zero(fp_diff(b.y, a.y));
    crate::scalar::lemma_fp_prod_zero(fp_diff(b.z, a.z));
}

/// Mixing rotations by a zero fraction returns the start exactly.
pub proof fn lemma_quat_mix_zero(a: Quat4i, b: Quat4i)
    requires
        quat_in_range(a),
    ensures
        quat_mix(a, 0, b) == a,
{
    crate::scalar::lemma_fp_prod_one(a.s);
    crate::scalar::lemma_fp_prod_one(a.x);
    crate::scalar::lemma_fp_prod_one(a.y);
    crate::scalar::lemma_fp_prod_one(a.z);
    crate::scalar::lemma_fp_prod_zero(b.s);
    crate::scalar::lemma_fp_prod_zero(b.x);
    crate::scalar::lemma_fp_prod_zero(b.y);
    crate::scalar::lemma_fp_prod_zero(b.z);
}

impl CalVector {
    pub fn new(x: i64, y: i64, z: i64) -> (r: CalVector)
        ensures
            r@ == (Vec3i { x: x as int, y: y as int, z: z as int }),
    {
        CalVector { x, y, z }
    }

    /// Component-wise saturating sum, as composing a translation with a
    /// parent translation.
    pub fn plus(&self, o: &CalVector) -> (r: CalVector)
        ensures
            r@ == vec_plus(self@, o@),
    {
        CalVector { x: fp_add(self.x, o.x), y: fp_add(self.y, o.y), z: fp_add(self.z, o.z) }
    }

    /// Interpolate this vector toward `v` by the blend factor `d`.
    pub fn blend(&mut self, d: i64, v: &CalVector)
        ensures
            final(self)@ == vec_lerp(old(self)@, d as int, v@),
    {
        self.x = fp_blend(self.x, d, v.x);
        self.y = fp_blend(self.y, d, v.y);
        self.z = fp_blend(self.z, d, v.z);
    }
}

impl CalQuaternion {
    /// `new(w, xi, yj, zk)`: the real part comes first.
    pub fn new(s: i64, x: i64, y: i64, z: i64) -> (r: CalQuaternion)
        ensures
            r@ == (Quat4i { s: s as int, x: x as int, y: y as int, z: z as int }),
    {
        CalQuaternion { s, x, y, z }
    }

    /// The identity rotation.
    pub fn identity() -> (r: CalQuaternion)
        ensures
            r@ == (Quat4i { s: FP_ONE as int, x: 0, y: 0, z: 0 }),
    {
        CalQuaternion { s: FP_ONE, x: 0, y: 0, z: 0 }
    }

    /// Interpolate this rotation toward `q` by the blend factor `d`,
    /// taking the short way around (hemisphere correction).
    pub fn blend(&mut self, d: i64, q: &CalQuaternion)
        ensures
            final(self)@ == quat_mix(old(self)@, d as int, q@),
    {
        let t1 = fp_mul(self.x, q.x);
        let t2 = fp_mul(self.y, q.y);
        let t3 = fp_mul(self.z, q.z);
        let t4 = fp_mul(self.s, q.s);
        let dot = fp_add(fp_add(fp_add(t1, t2), t3), t4);
        let dd = if dot < 0 {
            fp_sub(0, d)
        } else {
            d
        };
        let inv = fp_sub(FP_ONE, d);
        self.s = fp_add(fp_mul(inv, self.s), fp_mul(dd, q.s));
        self.x = fp_add(fp_mul(inv, self.x), fp_mul(dd, q.x));
        self.y = fp_add(fp_mul(inv, self.y), fp_mul(dd, q.y));
        self.z = fp_add(fp_mul(inv, self.z), fp_mul(dd, q.z));
    }

    /// The Hamilton product `self * rhs`: the rotation `rhs` followed by
    /// the rotation `self` in the convention of the transform algebra.
    pub fn quat_times(&self, rhs: &CalQuaternion) -> (r: CalQuaternion)
        ensures
            r@ == quat_compose(self@, rhs@),
    {
        let s = fp_sub(
            fp_sub(fp_sub(fp_mul(self.s, rhs.s), fp_mul(self.x, rhs.x)), fp_mul(self.y, rhs.y)),
            fp_mul(self.z, rhs.z),
        );
        let x = fp_sub(
            fp_add(fp_add(fp_mul(self.s, rhs.x), fp_mul(rhs.s, self.x)), fp_mul(self.y, rhs.z)),
            fp_mul(self.z, rhs.y),
        );
        let y = fp_sub(
            fp_add(fp_add(fp_mul(self.s, rhs.y), fp_mul(rhs.s, self.y)), fp_mul(self.z, rhs.x)),
            fp_mul(self.x, rhs.z),
        );
        let z = fp_sub(
            fp_add(fp_add(fp_mul(self.s, rhs.z), fp_mul(rhs.s, self.z)), fp_mul(self.x, rhs.y)),
            fp_mul(self.y, rhs.x),
        );
        CalQuaternion { s, x, y, z }
    }

    /// The inverse rotation: the conjugate scaled down by the squared
    /// magnitude.
    pub fn invert(&self) -> (r: CalQuaternion)
        requires
            quat_dot(self@, self@) != 0,
        ensures
            r@ == quat_inverse(self@),
    {
        let t1 = fp_mul(self.x, self.x);
        let t2 = fp_mul(self.y, self.y);
        let t3 = fp_mul(self.z, self.z);
        let t4 = fp_mul(self.s, self.s);
        let m2 = fp_add(fp_add(fp_add(t1, t2), t3), t4);
        CalQuaternion {
            s: fp_div(self.s, m2),
            x: fp_div(fp_sub(0, self.x), m2),
            y: fp_div(fp_sub(0, self.y), m2),
            z: fp_div(fp_sub(0, self.z), m2),
        }
    }

    /// Rotate a vector by this quaternion.
    pub fn rotate(&self, v: &CalVector) -> (r: CalVector)
        ensures
            r@ == quat_apply(self@, v@),
    {
        let cx = fp_sub(fp_mul(self.y, v.z), fp_mul(self.z, v.y));
        let cy = fp_sub(fp_mul(self.z, v.x), fp_mul(self.x, v.z));
        let cz = fp_sub(fp_mul(self.x, v.y), fp_mul(self.y, v.x));
        let ix = fp_add(cx, fp_mul(self.s, v.x));
        let iy = fp_add(cy, fp_mul(self.s, v.y));
        let iz = fp_add(cz, fp_mul(self.s, v.z));
        let ox = fp_sub(fp_mul(self.y, iz), fp_mul(self.z, iy));
        let oy = fp_sub(fp_mul(self.z, ix), fp_mul(self.x, iz));
        let oz = fp_sub(fp_mul(self.x, iy), fp_mul(self.y, ix));
        CalVector {
            x: fp_add(fp_add(ox, ox), v.x),
            y: fp_add(fp_add(oy, oy), v.y),
            z: fp_add(fp_add(oz, oz), v.z),
        }
    }
}

} // verus!
