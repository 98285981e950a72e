//! Keyframe track sampling: clamping at both ends, exact interpolation
//! between the bracketing pair, and sorted insertion.

use cal3d::keyframe::CalCoreKeyframe;
use cal3d::scalar::FP_ONE;
use cal3d::track::CalCoreTrack;
use cal3d::vector::{CalQuaternion, CalVector};

fn two_keyframe_track() -> CalCoreTrack {
    let kf0 = CalCoreKeyframe::new(
        0,
        CalVector::new(0, 0, 0),
        CalQuaternion::new(FP_ONE, 0, 0, 0),
    );
    let kf1 = CalCoreKeyframe::new(
        FP_ONE,
        CalVector::new(FP_ONE, 2 * FP_ONE, 0),
        CalQuaternion::new(0, FP_ONE, 0, 0),
    );
    CalCoreTrack::new(0, true, false, false, vec![kf0, kf1])
}

#[test]
fn sampling_clamps_before_the_first_keyframe() {
    let track = two_keyframe_track();
    let (translation, rotation) = track.getState(-3 * FP_ONE);
    assert_eq!(translation, CalVector::new(0, 0, 0));
    assert_eq!(rotation, CalQuaternion::new(FP_ONE, 0, 0, 0));
    // exactly at the first keyframe's time, still the first pose
    let (translation, rotation) = track.getState(0);
    assert_eq!(translation, CalVector::new(0, 0, 0));
    assert_eq!(rotation, CalQuaternion::new(FP_ONE, 0, 0, 0));
}

#[test]
fn sampling_clamps_after_the_last_keyframe() {
    let track = two_keyframe_track();
    let (translation, rotation) = track.getState(5 * FP_ONE);
    assert_eq!(translation, CalVector::new(FP_ONE, 2 * FP_ONE, 0));
    assert_eq!(rotation, CalQuaternion::new(0, FP_ONE, 0, 0));
}

#[test]
fn sampling_interpolates_between_the_bracketing_pair() {
    let track = two_keyframe_track();
    // a quarter of the way through the segment
    let (translation, rotation) = track.getState(250_000);
    assert_eq!(translation, CalVector::new(250_000, 500_000, 0));
    // rotation components interpolate linearly (the quaternions' dot
    // product is zero, so no hemisphere flip)
    assert_eq!(rotation, CalQuaternion::new(750_000, 250_000, 0, 0));
}

#[test]
fn insertion_keeps_keyframes_sorted_by_time() {
    let mut track = two_keyframe_track();
    let mid = CalCoreKeyframe::new(
        500_000,
        CalVector::new(7, 7, 7),
        CalQuaternion::new(FP_ONE, 0, 0, 0),
    );
    assert!(track.addCoreKeyframe(mid));
    assert_eq!(track.getCoreKeyframeCount(), 3);
    assert_eq!(track.getCoreKeyframe(0).unwrap().getTime(), 0);
    assert_eq!(track.getCoreKeyframe(1).unwrap().getTime(), 500_000);
    assert_eq!(track.getCoreKeyframe(2).unwrap().getTime(), FP_ONE);
    // an equal time settles after the keyframe already there
    let tie = CalCoreKeyframe::new(
        500_000,
        CalVector::new(9, 9, 9),
        CalQuaternion::new(FP_ONE, 0, 0, 0),
    );
    assert!(track.addCoreKeyframe(tie));
    assert_eq!(track.getCoreKeyframe(1).unwrap().getTranslation().x, 7);
    assert_eq!(track.getCoreKeyframe(2).unwrap().getTranslation().x, 9);
}
