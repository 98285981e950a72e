//! The bone transform-accumulation algebra: weight proportionality,
//! replace attenuation, and the lock protocol.

use cal3d::bone::CalBone;
use cal3d::scalar::FP_ONE;
use cal3d::vector::{CalQuaternion, CalVector};

fn fresh_bone() -> CalBone {
    let mut bone = CalBone::new(0);
    bone.clearState();
    bone
}

#[test]
fn blend_order_does_not_change_the_mix() {
    // two influences on one axis: 0.25 toward x = 0, 0.75 toward x = 1
    let pose_a = CalVector::new(0, 0, 0);
    let pose_b = CalVector::new(FP_ONE, 0, 0);
    let rot = CalQuaternion::new(FP_ONE, 0, 0, 0);

    let mut bone_ab = fresh_bone();
    bone_ab.blendState(250_000, &pose_a, &rot, FP_ONE, false, FP_ONE, true);
    bone_ab.blendState(750_000, &pose_b, &rot, FP_ONE, false, FP_ONE, true);
    bone_ab.lockState();

    let mut bone_ba = fresh_bone();
    bone_ba.blendState(750_000, &pose_b, &rot, FP_ONE, false, FP_ONE, true);
    bone_ba.blendState(250_000, &pose_a, &rot, FP_ONE, false, FP_ONE, true);
    bone_ba.lockState();

    // each contribution holds exactly its weight's proportion
    assert_eq!(bone_ab.getTranslation().x, 750_000);
    assert_eq!(bone_ba.getTranslation().x, 750_000);
    assert_eq!(bone_ab.m_accumulatedWeight, FP_ONE);
    assert_eq!(bone_ba.m_accumulatedWeight, FP_ONE);
}

#[test]
fn replace_at_full_ramp_silences_what_follows() {
    let pose_a = CalVector::new(3 * FP_ONE, 0, 0);
    let pose_b = CalVector::new(-9 * FP_ONE, 0, 0);
    let rot = CalQuaternion::new(FP_ONE, 0, 0, 0);

    let mut bone = fresh_bone();
    // a replace influence at ramp 1.0 attenuates everything after it to
    // nothing
    bone.blendState(FP_ONE, &pose_a, &rot, FP_ONE, true, FP_ONE, true);
    let x_before = bone.getTranslationAbsolute().x;
    let weight_before = bone.m_accumulatedWeightAbsolute;
    bone.blendState(FP_ONE, &pose_b, &rot, FP_ONE, false, FP_ONE, true);
    assert_eq!(bone.getTranslationAbsolute().x, x_before);
    assert_eq!(bone.m_accumulatedWeightAbsolute, weight_before);
    assert_eq!(bone.m_accumulatedReplacementAttenuation, 0);
}

#[test]
fn replace_at_partial_ramp_discounts_what_follows() {
    let rot = CalQuaternion::new(FP_ONE, 0, 0, 0);
    let mut bone = fresh_bone();
    // ramping in at 0.8, as a replace influence
    bone.blendState(FP_ONE, &CalVector::new(0, 0, 0), &rot, FP_ONE, true, 800_000, true);
    // the next influence enters with its weight multiplied by 1 - 0.8
    assert_eq!(bone.m_accumulatedReplacementAttenuation, 200_000);
    bone.blendState(FP_ONE, &CalVector::new(FP_ONE, 0, 0), &rot, FP_ONE, false, FP_ONE, true);
    // factor = 0.2 / (0.8 + 0.2): the later influence gets 20 percent
    assert_eq!(bone.getTranslationAbsolute().x, 200_000);
    assert_eq!(bone.m_accumulatedWeightAbsolute, FP_ONE);
}

#[test]
fn lock_caps_the_total_weight_at_one() {
    let rot = CalQuaternion::new(FP_ONE, 0, 0, 0);
    let mut bone = fresh_bone();
    bone.blendState(3 * FP_ONE, &CalVector::new(FP_ONE, 0, 0), &rot, FP_ONE, false, FP_ONE, true);
    bone.lockState();
    assert_eq!(bone.m_accumulatedWeight, FP_ONE);
    assert_eq!(bone.m_accumulatedWeightAbsolute, 0);
    assert_eq!(bone.getTranslation().x, FP_ONE);
}

#[test]
fn two_tiers_blend_across_the_lock() {
    let rot = CalQuaternion::new(FP_ONE, 0, 0, 0);
    let mut bone = fresh_bone();
    // first tier: half weight at x = 0
    bone.blendState(500_000, &CalVector::new(0, 0, 0), &rot, FP_ONE, false, FP_ONE, true);
    bone.lockState();
    // second tier: half weight at x = 1
    bone.blendState(500_000, &CalVector::new(FP_ONE, 0, 0), &rot, FP_ONE, false, FP_ONE, true);
    bone.lockState();
    // factor = 0.5 / (0.5 + 0.5): an even mix
    assert_eq!(bone.getTranslation().x, 500_000);
    assert_eq!(bone.m_accumulatedWeight, FP_ONE);
}
