//! Planes and bounding boxes: evaluation, distance, corner points, and
//! the widen-to-include fold.

use cal3d::bounding::{BoundingBox, Plane};
use cal3d::corebone::CalCoreBone;
use cal3d::scalar::FP_ONE;
use cal3d::vector::{CalQuaternion, CalVector};

#[test]
fn plane_evaluation_and_positioning() {
    let mut plane = Plane::default();
    plane.setNormal(&CalVector::new(FP_ONE, 0, 0));
    // the fresh plane sits at the far sentinel: everything is outside
    assert!(plane.Eval(&CalVector::new(0, 0, 0)) < 0);
    // through the point x = 2, the evaluation there becomes zero
    plane.SetPosition(&CalVector::new(2 * FP_ONE, 0, 0));
    assert_eq!(plane.Eval(&CalVector::new(2 * FP_ONE, 0, 0)), 0);
    assert_eq!(plane.Eval(&CalVector::new(3 * FP_ONE, 0, 0)), FP_ONE);
}

#[test]
fn plane_distance_normalizes_by_the_normal() {
    // a 3-4-5 normal: the distance to x = 1 is 3/5 of the evaluation
    let plane = Plane { A: 3 * FP_ONE, B: 4 * FP_ONE, C: 0, D: 0 };
    let d = plane.Dist(&CalVector::new(FP_ONE, 0, 0));
    assert_eq!(d, 600_000);
}

#[test]
fn box_corners_by_cramer() {
    // the unit cube: each plane pair caps one axis at +1 and -1
    let mut bb = BoundingBox::default();
    bb.plane[0] = Plane { A: FP_ONE, B: 0, C: 0, D: -FP_ONE };
    bb.plane[1] = Plane { A: -FP_ONE, B: 0, C: 0, D: -FP_ONE };
    bb.plane[2] = Plane { A: 0, B: FP_ONE, C: 0, D: -FP_ONE };
    bb.plane[3] = Plane { A: 0, B: -FP_ONE, C: 0, D: -FP_ONE };
    bb.plane[4] = Plane { A: 0, B: 0, C: FP_ONE, D: -FP_ONE };
    bb.plane[5] = Plane { A: 0, B: 0, C: -FP_ONE, D: -FP_ONE };
    let mut points = vec![CalVector::new(9, 9, 9); 8];
    bb.ComputePoints(&mut points);
    assert_eq!(points[0], CalVector::new(FP_ONE, FP_ONE, FP_ONE));
    assert_eq!(points[7], CalVector::new(-FP_ONE, -FP_ONE, -FP_ONE));
    // every corner is a sign combination of the cube's extent
    for p in &points {
        assert_eq!(p.x.abs(), FP_ONE);
        assert_eq!(p.y.abs(), FP_ONE);
        assert_eq!(p.z.abs(), FP_ONE);
    }
}

#[test]
fn bone_bounding_box_widens_to_include_positions() {
    let identity = CalQuaternion::new(FP_ONE, 0, 0, 0);
    let mut bone = CalCoreBone::new(
        "root".to_owned(),
        -1,
        CalVector::new(0, 0, 0),
        identity,
        CalVector::new(0, 0, 0),
        identity,
    );
    bone.initBoundingBox();
    let p = CalVector::new(2 * FP_ONE, 0, 0);
    // the first fold moves planes out to the position...
    assert!(bone.updateBoundingBox(&p));
    // ...after which the same position moves nothing
    assert!(!bone.updateBoundingBox(&p));
    assert_eq!(bone.m_boundingBox.plane[0].Eval(&p), 0);
    assert!(!bone.isBoundingBoxPrecomputed());
    bone.setBoundingBoxPrecomputed(true);
    assert!(bone.isBoundingBoxPrecomputed());
}
