//! The mixer: cycle slots, the loop seam, and the synchronized
//! duration formula.

use cal3d::coreanimation::CalCoreAnimation;
use cal3d::corebone::CalCoreBone;
use cal3d::coremodel::CalCoreModel;
use cal3d::coreskeleton::CalCoreSkeleton;
use cal3d::keyframe::CalCoreKeyframe;
use cal3d::model::CalModel;
use cal3d::scalar::FP_ONE;
use cal3d::track::CalCoreTrack;
use cal3d::vector::{CalQuaternion, CalVector};

fn identity() -> CalQuaternion {
    CalQuaternion::new(FP_ONE, 0, 0, 0)
}

fn one_bone_skeleton() -> CalCoreSkeleton {
    let mut skeleton = CalCoreSkeleton::new();
    let bone = CalCoreBone::new(
        "root".to_owned(),
        -1,
        CalVector::new(0, 0, 0),
        identity(),
        CalVector::new(0, 0, 0),
        identity(),
    );
    skeleton.addCoreBone(bone);
    skeleton
}

/// A track on bone zero with keyframes at time zero and one second.
fn short_track() -> CalCoreTrack {
    let kf0 = CalCoreKeyframe::new(0, CalVector::new(0, 0, 0), identity());
    let kf1 = CalCoreKeyframe::new(FP_ONE, CalVector::new(FP_ONE, 0, 0), identity());
    CalCoreTrack::new(0, true, false, false, vec![kf0, kf1])
}

/// An animation lasting two seconds whose only track ends at one
/// second: a candidate for the loop seam.
fn looping_model() -> CalModel {
    let animation = CalCoreAnimation::new(2 * FP_ONE, vec![short_track()]);
    let mut core_model = CalCoreModel::new(one_bone_skeleton());
    core_model.addCoreAnimation(animation);
    CalModel::new(core_model)
}

#[test]
fn starting_a_cycle_seals_the_loop_seam() {
    let mut model = looping_model();
    assert!(model.blendCycle(0, FP_ONE, 0));
    let track = &model.getCoreModel().m_vectorCoreAnimation[0].m_listCoreTrack[0];
    // the synthetic keyframe sits at the full duration and copies the
    // first keyframe's pose
    assert_eq!(track.getCoreKeyframeCount(), 3);
    assert_eq!(track.getCoreKeyframe(2).unwrap().getTime(), 2 * FP_ONE);
    assert_eq!(track.getCoreKeyframe(2).unwrap().getTranslation().x, 0);
    // sampling at the end of the loop equals sampling at its start
    let (end_pose, _) = track.getState(2 * FP_ONE);
    let (start_pose, _) = track.getState(0);
    assert_eq!(end_pose, start_pose);
}

#[test]
fn the_loop_seam_is_sealed_only_once() {
    let mut model = looping_model();
    assert!(model.blendCycle(0, FP_ONE, 0));
    assert!(model.clearCycle(0, 0));
    // a fresh instance finds the seam already sealed: no second keyframe
    assert!(model.blendCycle(0, FP_ONE, 0));
    let track = &model.getCoreModel().m_vectorCoreAnimation[0].m_listCoreTrack[0];
    assert_eq!(track.getCoreKeyframeCount(), 3);
}

#[test]
fn out_of_range_ids_are_rejected_without_effect() {
    let mut model = looping_model();
    assert!(!model.blendCycle(5, FP_ONE, 0));
    assert!(!model.clearCycle(5, 0));
    assert!(!model.executeAction(5, 0, 0, FP_ONE, false));
    assert_eq!(model.getMixer().m_listAnimationCycle.len(), 0);
    assert_eq!(model.getMixer().m_listAnimationAction.len(), 0);
}

#[test]
fn starting_an_inactive_cycle_with_zero_weight_is_a_no_op() {
    let mut model = looping_model();
    assert!(model.blendCycle(0, 0, 0));
    assert_eq!(model.getMixer().m_listAnimationCycle.len(), 0);
}

#[test]
fn synced_duration_is_the_weighted_average() {
    // two animations: two seconds and four seconds
    let track_a = short_track();
    let kf0 = CalCoreKeyframe::new(0, CalVector::new(0, 0, 0), identity());
    let kf1 = CalCoreKeyframe::new(4 * FP_ONE, CalVector::new(0, FP_ONE, 0), identity());
    let track_b = CalCoreTrack::new(0, true, false, false, vec![kf0, kf1]);
    let mut core_model = CalCoreModel::new(one_bone_skeleton());
    core_model.addCoreAnimation(CalCoreAnimation::new(2 * FP_ONE, vec![track_a]));
    core_model.addCoreAnimation(CalCoreAnimation::new(4 * FP_ONE, vec![track_b]));
    let mut model = CalModel::new(core_model);

    // weights 0.3 and 0.7
    assert!(model.blendCycle(0, 300_000, 0));
    assert!(model.blendCycle(1, 700_000, 0));
    model.update(100_000);

    // (0.3 * 2.0 + 0.7 * 4.0) / (0.3 + 0.7) = 3.4 seconds
    assert_eq!(model.getMixer().m_animationDuration, 3_400_000);
}

#[test]
fn a_cleared_cycle_fades_out_and_retires() {
    let mut model = looping_model();
    assert!(model.blendCycle(0, FP_ONE, 0));
    model.update(100_000);
    assert_eq!(model.getMixer().m_listAnimationCycle.len(), 1);
    // fade out over 0.2 seconds; the slot frees at once
    assert!(model.clearCycle(0, 200_000));
    model.update(100_000);
    assert_eq!(model.getMixer().m_listAnimationCycle.len(), 1);
    // past the fade window the instance retires from the list
    model.update(200_000);
    assert_eq!(model.getMixer().m_listAnimationCycle.len(), 0);
}
