//! End-to-end ticks: a two-bone skeleton driven by a cycle, and the
//! bind-pose propagation of the core skeleton.

use cal3d::coreanimation::CalCoreAnimation;
use cal3d::corebone::CalCoreBone;
use cal3d::coremodel::CalCoreModel;
use cal3d::coreskeleton::CalCoreSkeleton;
use cal3d::keyframe::CalCoreKeyframe;
use cal3d::mixer::{BoneAdjustment, FlagMeshScale, FlagPosRot};
use cal3d::model::CalModel;
use cal3d::scalar::FP_ONE;
use cal3d::track::CalCoreTrack;
use cal3d::vector::{CalQuaternion, CalVector};

fn identity() -> CalQuaternion {
    CalQuaternion::new(FP_ONE, 0, 0, 0)
}

fn two_bone_skeleton() -> CalCoreSkeleton {
    let mut skeleton = CalCoreSkeleton::new();
    let root = CalCoreBone::new(
        "root".to_owned(),
        -1,
        CalVector::new(0, 0, 0),
        identity(),
        CalVector::new(0, 0, 0),
        identity(),
    );
    let root_id = skeleton.addCoreBone(root);
    assert_eq!(root_id, 0);
    let child = CalCoreBone::new(
        "child".to_owned(),
        0,
        CalVector::new(0, 0, 0),
        identity(),
        CalVector::new(0, 0, 0),
        identity(),
    );
    let child_id = skeleton.addCoreBone(child);
    assert_eq!(child_id, 1);
    if let Some(root_ref) = skeleton.getCoreBone(0) {
        assert_eq!(root_ref.getParentId(), -1);
    }
    skeleton
}

#[test]
fn halfway_through_a_cycle_the_child_is_halfway_translated() {
    // one animation, one second long, moving the child bone one unit
    // along x
    let kf0 = CalCoreKeyframe::new(0, CalVector::new(0, 0, 0), identity());
    let kf1 = CalCoreKeyframe::new(FP_ONE, CalVector::new(FP_ONE, 0, 0), identity());
    let track = CalCoreTrack::new(1, true, false, false, vec![kf0, kf1]);
    let animation = CalCoreAnimation::new(FP_ONE, vec![track]);
    let mut core_model = CalCoreModel::new(two_bone_skeleton());
    assert_eq!(core_model.addCoreAnimation(animation), 0);

    let mut model = CalModel::new(core_model);
    assert!(model.blendCycle(0, FP_ONE, 0));
    model.update(500_000);

    let bones = model.getSkeleton().getVectorBone();
    let root_x = bones[0].getTranslationAbsolute().x;
    let child_x = bones[1].getTranslationAbsolute().x;
    // the halfway-interpolated pose, composed with the parent transform
    assert_eq!(child_x, root_x + 500_000);
    assert_eq!(root_x, 0);
}

#[test]
fn bind_pose_absolutes_compose_down_the_chain() {
    let mut skeleton = CalCoreSkeleton::new();
    let root = CalCoreBone::new(
        "hip".to_owned(),
        -1,
        CalVector::new(FP_ONE, 0, 0),
        identity(),
        CalVector::new(0, 0, 0),
        identity(),
    );
    skeleton.addCoreBone(root);
    let child = CalCoreBone::new(
        "knee".to_owned(),
        0,
        CalVector::new(0, 2 * FP_ONE, 0),
        identity(),
        CalVector::new(0, 0, 0),
        identity(),
    );
    skeleton.addCoreBone(child);
    skeleton.calculateState();
    // the child's absolute bind translation is the parent's plus its own
    let bones = skeleton.getVectorCoreBone();
    assert_eq!(bones[0].getTranslationAbsolute().x, FP_ONE);
    assert_eq!(bones[1].getTranslationAbsolute().x, FP_ONE);
    assert_eq!(bones[1].getTranslationAbsolute().y, 2 * FP_ONE);
}

#[test]
fn a_bone_adjustment_overrides_lower_priority_animation() {
    // a cycle that would turn the root bone with a half-turn about x
    let turned = CalQuaternion::new(0, FP_ONE, 0, 0);
    let kf0 = CalCoreKeyframe::new(0, CalVector::new(0, 0, 0), turned);
    let kf1 = CalCoreKeyframe::new(FP_ONE, CalVector::new(0, 0, 0), turned);
    let track = CalCoreTrack::new(0, true, false, false, vec![kf0, kf1]);
    let animation = CalCoreAnimation::new(FP_ONE, vec![track]);
    let mut core_model = CalCoreModel::new(two_bone_skeleton());
    core_model.addCoreAnimation(animation);

    let mut model = CalModel::new(core_model);
    assert!(model.blendCycle(0, FP_ONE, 0));
    // a full-ramp adjustment holds the bone upright and scales its mesh
    let hold = BoneAdjustment {
        flags_: FlagPosRot | FlagMeshScale,
        localPos_: CalVector::new(0, 0, 0),
        localOri_: CalQuaternion::new(FP_ONE, 0, 0, 0),
        meshScaleAbsolute_: CalVector::new(2 * FP_ONE, 2 * FP_ONE, 2 * FP_ONE),
        rampValue_: FP_ONE,
    };
    assert!(model.addBoneAdjustment(0, hold));
    model.update(250_000);

    let bones = model.getSkeleton().getVectorBone();
    // the adjustment wins outright: the cycle's influence is attenuated
    // to nothing behind the full-ramp replace
    assert_eq!(*bones[0].getRotation(), CalQuaternion::new(FP_ONE, 0, 0, 0));
    assert_eq!(bones[0].m_meshScaleAbsolute, CalVector::new(2 * FP_ONE, 2 * FP_ONE, 2 * FP_ONE));
}

#[test]
fn an_action_poses_bones_while_it_runs() {
    let kf0 = CalCoreKeyframe::new(0, CalVector::new(0, 0, 0), identity());
    let kf1 = CalCoreKeyframe::new(FP_ONE, CalVector::new(0, 0, FP_ONE), identity());
    let track = CalCoreTrack::new(1, true, false, false, vec![kf0, kf1]);
    let animation = CalCoreAnimation::new(FP_ONE, vec![track]);
    let mut core_model = CalCoreModel::new(two_bone_skeleton());
    core_model.addCoreAnimation(animation);

    let mut model = CalModel::new(core_model);
    // no fade ramps: full weight from the start
    assert!(model.executeAction(0, 0, 0, FP_ONE, true));
    model.update(250_000);

    let bones = model.getSkeleton().getVectorBone();
    assert_eq!(bones[1].getTranslationAbsolute().z, 250_000);
}
