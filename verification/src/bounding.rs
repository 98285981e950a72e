//! Planes and bone bounding boxes: the six-plane volumes used to pick
//! bones and cull geometry, over fixed-point scalars.

use vstd::prelude::*;

use crate::scalar::{fp_add, fp_div, fp_mul, fp_sqrt, fp_sub};
use crate::scalar::{fp_diff, fp_prod, fp_quot, fp_sum, int_sqrt, FP_ONE};
use crate::vector::{CalVector, Vec3i};

verus! {

/// The mathematical value of a plane `a x + b y + c z + d = 0`.
pub struct PlaneV {
    pub a: int,
    pub b: int,
    pub c: int,
    pub d: int,
}

/// The signed evaluation of a plane at a point.
pub open spec fn plane_eval(p: PlaneV, v: Vec3i) -> int {
    fp_sum(
        fp_sum(fp_sum(fp_prod(v.x, p.a), fp_prod(v.y, p.b)), fp_prod(v.z, p.c)),
        p.d,
    )
}

/// The offset that puts a plane through a point: `-(n . v)`.
pub open spec fn plane_position_d(p: PlaneV, v: Vec3i) -> int {
    fp_diff(fp_diff(fp_diff(0, fp_prod(v.x, p.a)), fp_prod(v.y, p.b)), fp_prod(v.z, p.c))
}

/// The squared magnitude of a plane's normal.
pub open spec fn plane_norm2(p: PlaneV) -> int {
    fp_sum(fp_sum(fp_prod(p.a, p.a), fp_prod(p.b, p.b)), fp_prod(p.c, p.c))
}

/// A plane in constant form.
#[derive(Clone, Copy, Debug)]
pub struct Plane {
    pub A: i64,
    pub B: i64,
    pub C: i64,
    pub D: i64,
}

impl View for Plane {
    type V = PlaneV;

    open spec fn view(&self) -> PlaneV {
        PlaneV { a: self.A as int, b: self.B as int, c: self.C as int, d: self.D as int }
    }
}

impl Default for Plane {
    fn default() -> (r: Plane)
        ensures
            r@ == (PlaneV { a: 0, b: 0, c: 0, d: 0 }),
    {
        Plane { A: 0, B: 0, C: 0, D: 0 }
    }
}

impl Plane {
    /// The signed distance-like evaluation at a point (not normalized).
    pub fn Eval(&self, p: &CalVector) -> (r: i64)
        ensures
            r as int == plane_eval(self@, p@),
    {
        fp_add(
            fp_add(fp_add(fp_mul(p.x, self.A), fp_mul(p.y, self.B)), fp_mul(p.z, self.C)),
            self.D,
        )
    }

    /// Move the plane (keeping its normal) so it passes through `p`.
    pub fn SetPosition(&mut self, p: &CalVector)
        ensures
            final(self)@ == (PlaneV { d: plane_position_d(old(self)@, p@), ..old(self)@ }),
    {
        self.D = fp_sub(
            fp_sub(fp_sub(0, fp_mul(p.x, self.A)), fp_mul(p.y, self.B)),
            fp_mul(p.z, self.C),
        );
    }

    /// Point the plane along `p` and push it out to the far sentinel
    /// offset, so that the first position folded in always tightens it.
    pub fn setNormal(&mut self, p: &CalVector)
        ensures
            final(self)@ == (PlaneV {
                a: p@.x,
                b: p@.y,
                c: p@.z,
                d: i64::MIN as int,
            }),
    {
        self.A = p.x;
        self.B = p.y;
        self.C = p.z;
        self.D = i64::MIN;
    }

    /// The distance from the plane to a point: the magnitude of the
    /// evaluation, normalized by the normal's length.
    pub fn Dist(&self, p: &CalVector) -> (r: i64)
        requires
            plane_norm2(self@) > 0,
        ensures
            r as int == fp_quot(
                if plane_eval(self@, p@) < 0 {
                    fp_diff(0, plane_eval(self@, p@))
                } else {
                    plane_eval(self@, p@)
                },
                int_sqrt(plane_norm2(self@) * FP_ONE as int),
            ),
    {
        let e = self.Eval(p);
        let magnitude = if e < 0 {
            fp_sub(0, e)
        } else {
            e
        };
        let norm2 = fp_add(
            fp_add(fp_mul(self.A, self.A), fp_mul(self.B, self.B)),
            fp_mul(self.C, self.C),
        );
        let norm = fp_sqrt(norm2);
        proof {
            let y = plane_norm2(self@) * FP_ONE as int;
            assert(y >= FP_ONE as int) by (nonlinear_arith)
                requires
                    plane_norm2(self@) >= 1,
                    y == plane_norm2(self@) * FP_ONE as int,
                    FP_ONE == 1_000_000,
            ;
            // a zero root would bound y below one
            if norm == 0 {
                assert(1 > y) by (nonlinear_arith)
                    requires
                        norm as int == 0,
                        (norm as int + 1) * (norm as int + 1) > y,
                ;
            }
            assert(norm != 0);
        }
        fp_div(magnitude, norm)
    }
}

/// The fixed-point determinant of three row vectors.
pub open spec fn det3(r0: Vec3i, r1: Vec3i, r2: Vec3i) -> int {
    fp_sum(
        fp_diff(
            fp_prod(r0.x, fp_diff(fp_prod(r1.y, r2.z), fp_prod(r1.z, r2.y))),
            fp_prod(r0.y, fp_diff(fp_prod(r1.x, r2.z), fp_prod(r1.z, r2.x))),
        ),
        fp_prod(r0.z, fp_diff(fp_prod(r1.x, r2.y), fp_prod(r1.y, r2.x))),
    )
}

/// A plane's normal as a row vector.
pub open spec fn plane_normal(p: PlaneV) -> Vec3i {
    Vec3i { x: p.a, y: p.b, z: p.c }
}

/// The corner where three planes meet, by Cramer's rule; the origin
/// when the three normals are degenerate.
pub open spec fn plane_corner(pi: PlaneV, pj: PlaneV, pk: PlaneV) -> Vec3i {
    let ni = plane_normal(pi);
    let nj = plane_normal(pj);
    let nk = plane_normal(pk);
    let det = det3(ni, nj, nk);
    if det != 0 {
        let di = Vec3i { x: fp_diff(0, pi.d), y: pi.b, z: pi.c };
        let dj = Vec3i { x: fp_diff(0, pj.d), y: pj.b, z: pj.c };
        let dk = Vec3i { x: fp_diff(0, pk.d), y: pk.b, z: pk.c };
        let ei = Vec3i { x: pi.a, y: fp_diff(0, pi.d), z: pi.c };
        let ej = Vec3i { x: pj.a, y: fp_diff(0, pj.d), z: pj.c };
        let ek = Vec3i { x: pk.a, y: fp_diff(0, pk.d), z: pk.c };
        let fi = Vec3i { x: pi.a, y: pi.b, z: fp_diff(0, pi.d) };
        let fj = Vec3i { x: pj.a, y: pj.b, z: fp_diff(0, pj.d) };
        let fk = Vec3i { x: pk.a, y: pk.b, z: fp_diff(0, pk.d) };
        Vec3i {
            x: fp_quot(det3(di, dj, dk), det),
            y: fp_quot(det3(ei, ej, ek), det),
            z: fp_quot(det3(fi, fj, fk), det),
        }
    } else {
        Vec3i { x: 0, y: 0, z: 0 }
    }
}

/// The corner of a six-plane box for output slot `idx`: the planes come
/// in axis pairs, and the slot encodes which plane of each pair meets.
pub open spec fn box_corner(planes: Seq<PlaneV>, idx: int) -> Vec3i
    recommends
        planes.len() == 6,
        0 <= idx < 8,
{
    plane_corner(planes[idx / 4], planes[2 + (idx % 4) / 2], planes[4 + idx % 2])
}

/// A six-plane bounding volume.
pub struct BoundingBox {
    pub plane: Vec<Plane>,
}

impl View for BoundingBox {
    type V = Seq<PlaneV>;

    open spec fn view(&self) -> Seq<PlaneV> {
        self.plane@.map_values(|p: Plane| p@)
    }
}

impl BoundingBox {
    /// Always six planes.
    pub open spec fn wf(&self) -> bool {
        self@.len() == 6
    }
}

impl Default for BoundingBox {
    fn default() -> (r: BoundingBox)
        ensures
            r.wf(),
            forall|i: int| 0 <= i < 6 ==> #[trigger] r@[i] == (PlaneV { a: 0, b: 0, c: 0, d: 0 }),
    {
        let mut plane: Vec<Plane> = Vec::new();
        let mut i: usize = 0;
        while i < 6
            invariant
                0 <= i <= 6,
                plane@.len() == i,
                forall|j: int|
                    0 <= j < i ==> (#[trigger] plane@[j])@ == (PlaneV { a: 0, b: 0, c: 0, d: 0 }),
            decreases 6 - i,
        {
            plane.push(Plane::default());
            i = i + 1;
        }
        BoundingBox { plane }
    }
}

impl BoundingBox {
    /// Compute the eight corner points of the box into `p`: every
    /// combination of one plane from each of the three axis pairs,
    /// intersected by Cramer's rule.
    pub fn ComputePoints(&self, p: &mut Vec<CalVector>)
        requires
            self.wf(),
            old(p)@.len() >= 8,
        ensures
            final(p)@.len() == old(p)@.len(),
            forall|t: int| 0 <= t < 8 ==> (#[trigger] final(p)@[t])@ == box_corner(self@, t),
            forall|t: int| 8 <= t < old(p)@.len() ==> #[trigger] final(p)@[t] == old(p)@[t],
    {
        let ghost orig = p@;
        let mut idx: usize = 0;
        let mut i: usize = 0;
        while i < 2
            invariant
                0 <= i <= 2,
                idx == i * 4,
                self.wf(),
                p@.len() == orig.len(),
                orig.len() >= 8,
                forall|t: int| 0 <= t < idx ==> (#[trigger] p@[t])@ == box_corner(self@, t),
                forall|t: int| idx <= t < orig.len() ==> #[trigger] p@[t] == orig[t],
            decreases 2 - i,
        {
            let mut j: usize = 2;
            while j < 4
                invariant
                    0 <= i < 2,
                    2 <= j <= 4,
                    idx == i * 4 + (j - 2) * 2,
                    self.wf(),
                    p@.len() == orig.len(),
                    orig.len() >= 8,
                    forall|t: int| 0 <= t < idx ==> (#[trigger] p@[t])@ == box_corner(self@, t),
                    forall|t: int| idx <= t < orig.len() ==> #[trigger] p@[t] == orig[t],
                decreases 4 - j,
            {
                let mut k: usize = 4;
                while k < 6
                    invariant
                        0 <= i < 2,
                        2 <= j < 4,
                        4 <= k <= 6,
                        idx == i * 4 + (j - 2) * 2 + (k - 4),
                        self.wf(),
                        p@.len() == orig.len(),
                        orig.len() >= 8,
                        forall|t: int| 0 <= t < idx ==> (#[trigger] p@[t])@ == box_corner(self@, t),
                        forall|t: int| idx <= t < orig.len() ==> #[trigger] p@[t] == orig[t],
                    decreases 6 - k,
                {
                    let ghost points_before = p@;
                    let point = self.corner(i, j, k);
                    p[idx] = point;
                    proof {
                        assert(idx as int / 4 == i as int && 2 + (idx as int % 4) / 2 == j as int
                            && 4 + idx as int % 2 == k as int);
                        assert(p@[idx as int]@ == box_corner(self@, idx as int));
                        assert(forall|t: int|
                            0 <= t < orig.len() && t != idx as int ==> #[trigger] p@[t]
                                == points_before[t]);
                    }
                    idx = idx + 1;
                    k = k + 1;
                }
                j = j + 1;
            }
            i = i + 1;
        }
    }

    /// The corner where planes `i`, `j` and `k` meet.
    fn corner(&self, i: usize, j: usize, k: usize) -> (r: CalVector)
        requires
            self.wf(),
            i < 6,
            j < 6,
            k < 6,
        ensures
            r@ == plane_corner(self@[i as int], self@[j as int], self@[k as int]),
    {
        let pi = self.plane[i];
        let pj = self.plane[j];
        let pk = self.plane[k];
        let det = det3_of(
            CalVector::new(pi.A, pi.B, pi.C),
            CalVector::new(pj.A, pj.B, pj.C),
            CalVector::new(pk.A, pk.B, pk.C),
        );
        if det != 0 {
            let x = fp_div(
                det3_of(
                    CalVector::new(fp_sub(0, pi.D), pi.B, pi.C),
                    CalVector::new(fp_sub(0, pj.D), pj.B, pj.C),
                    CalVector::new(fp_sub(0, pk.D), pk.B, pk.C),
                ),
                det,
            );
            let y = fp_div(
                det3_of(
                    CalVector::new(pi.A, fp_sub(0, pi.D), pi.C),
                    CalVector::new(pj.A, fp_sub(0, pj.D), pj.C),
                    CalVector::new(pk.A, fp_sub(0, pk.D), pk.C),
                ),
                det,
            );
            let z = fp_div(
                det3_of(
                    CalVector::new(pi.A, pi.B, fp_sub(0, pi.D)),
                    CalVector::new(pj.A, pj.B, fp_sub(0, pj.D)),
                    CalVector::new(pk.A, pk.B, fp_sub(0, pk.D)),
                ),
                det,
            );
            CalVector::new(x, y, z)
        } else {
            CalVector::new(0, 0, 0)
        }
    }
}

/// The fixed-point determinant of three row vectors.
fn det3_of(r0: CalVector, r1: CalVector, r2: CalVector) -> (r: i64)
    ensures
        r as int == det3(r0@, r1@, r2@),
{
    fp_add(
        fp_sub(
            fp_mul(r0.x, fp_sub(fp_mul(r1.y, r2.z), fp_mul(r1.z, r2.y))),
            fp_mul(r0.y, fp_sub(fp_mul(r1.x, r2.z), fp_mul(r1.z, r2.x))),
        ),
        fp_mul(r0.z, fp_sub(fp_mul(r1.x, r2.y), fp_mul(r1.y, r2.x))),
    )
}

} // verus!
