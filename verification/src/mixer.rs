//! The mixer: the per-model scheduler that owns the active cycles and
//! actions, advances their playback each tick, and drives the two-phase
//! blend-then-lock protocol across the skeleton's bones.

use vstd::prelude::*;

use crate::animation::{action_alive_spec, action_on_spec, action_update_spec};
use crate::animation::{action_wf, cycle_alive_spec, cycle_update_spec, cycle_wf};
use crate::animation::{ActionV, CalAnimationAction, CalAnimationCycle, CycleV};
use crate::animation::{CompositionFunction, State};
use crate::bone::{blend_state_spec, bone_wf, BoneV};
use crate::coreanimation::{anim_wf, seam_patch, AnimV, CalCoreAnimation};
use crate::coremodel::CalCoreModel;
use crate::keyframe::CalCoreKeyframe;
use crate::scalar::{fp_add, fp_div, fp_mul, fp_rem};
use crate::scalar::{fp_diff, fp_prod, fp_quot, fp_sum, fp_trem, FP_ONE};
use crate::skeleton::CalSkeleton;
use crate::track::track_sample;
use crate::vector::{CalQuaternion, CalVector, Quat4i, Vec3i};

verus! {

/// The adjustment applies its position/orientation part.
pub const FlagPosRot: u32 = 1;

/// The adjustment applies its mesh-scale part.
pub const FlagMeshScale: u32 = 2;

/// The most pending bone adjustments a mixer holds at once.
pub const CalMixerBoneAdjustmentsMax: usize = 20;

/// A direct pose override for one bone, applied each tick as a
/// highest-priority replace influence.
#[derive(Clone, Copy)]
pub struct BoneAdjustment {
    pub flags_: u32,
    pub localPos_: CalVector,
    pub localOri_: CalQuaternion,
    pub meshScaleAbsolute_: CalVector,
    pub rampValue_: i64,
}

impl Default for BoneAdjustment {
    /// No parts flagged, identity orientation, zero ramp.
    fn default() -> (r: BoneAdjustment)
        ensures
            r.flags_ == 0,
            r.localPos_@ == (Vec3i { x: 0, y: 0, z: 0 }),
            r.localOri_@ == (Quat4i { s: FP_ONE as int, x: 0, y: 0, z: 0 }),
            r.meshScaleAbsolute_@ == (Vec3i { x: 0, y: 0, z: 0 }),
            r.rampValue_ == 0,
    {
        BoneAdjustment {
            flags_: 0,
            localPos_: CalVector::new(0, 0, 0),
            localOri_: CalQuaternion::identity(),
            meshScaleAbsolute_: CalVector::new(0, 0, 0),
            rampValue_: 0,
        }
    }
}

/// A bone adjustment together with the bone it addresses.
#[derive(Clone, Copy)]
pub struct BoneAdjustmentAndBoneId {
    pub boneAdjustment_: BoneAdjustment,
    pub boneId_: usize,
}

/// The mathematical value of a pending adjustment.
pub struct AdjV {
    pub flags: u32,
    pub local_pos: Vec3i,
    pub local_ori: Quat4i,
    pub mesh_scale_absolute: Vec3i,
    pub ramp_value: int,
    pub bone_id: int,
}

impl View for BoneAdjustmentAndBoneId {
    type V = AdjV;

    open spec fn view(&self) -> AdjV {
        AdjV {
            flags: self.boneAdjustment_.flags_,
            local_pos: self.boneAdjustment_.localPos_@,
            local_ori: self.boneAdjustment_.localOri_@,
            mesh_scale_absolute: self.boneAdjustment_.meshScaleAbsolute_@,
            ramp_value: self.boneAdjustment_.rampValue_ as int,
            bone_id: self.boneId_ as int,
        }
    }
}

/// One slot of the mixer's animation table: empty, or the instance id
/// of the live cycle (or action) playing that core animation.
#[derive(Clone, Copy, Debug, PartialEq, Eq, Structural)]
pub enum CalAnimation {
    Empty,
    Cycle(u64),
    Action(u64),
}

/// The per-model animation scheduler.
pub struct CalMixer {
    pub m_boneAdjustmentAndBoneIdArray: Vec<BoneAdjustmentAndBoneId>,
    pub m_vectorAnimation: Vec<CalAnimation>,
    pub m_listAnimationAction: Vec<CalAnimationAction>,
    pub m_listAnimationCycle: Vec<CalAnimationCycle>,
    pub m_animationTime: i64,
    pub m_animationDuration: i64,
    pub m_timeFactor: i64,
    pub m_nextInstanceId: u64,
}

impl CalMixer {
    /// The cycle list as mathematical values.
    pub open spec fn cycles(&self) -> Seq<CycleV> {
        self.m_listAnimationCycle@.map_values(|c: CalAnimationCycle| c@)
    }

    /// The action list as mathematical values.
    pub open spec fn actions(&self) -> Seq<ActionV> {
        self.m_listAnimationAction@.map_values(|a: CalAnimationAction| a@)
    }

    /// The instance ids of the cycle list.
    pub open spec fn cycle_ids(&self) -> Seq<int> {
        self.m_listAnimationCycle@.map_values(|c: CalAnimationCycle| c@.instance_id)
    }

    /// The pending adjustments as mathematical values.
    pub open spec fn adjustments(&self) -> Seq<AdjV> {
        self.m_boneAdjustmentAndBoneIdArray@.map_values(|a: BoneAdjustmentAndBoneId| a@)
    }

    /// The mixer's well-formedness against its core model: the table has
    /// one slot per core animation; every live instance plays a valid
    /// core animation and carries that animation's duration; no two
    /// table slots name the same instance; a slot holding a cycle names
    /// a live cycle that is still fading toward a positive weight.
    pub open spec fn wf(&self, coreModel: &CalCoreModel) -> bool {
        &&& self.m_vectorAnimation@.len() == coreModel.m_vectorCoreAnimation@.len()
        &&& 0 <= self.m_timeFactor
        &&& 0 < self.m_animationDuration || self.m_animationDuration == 0
        &&& 0 <= self.m_animationTime
        &&& forall|i: int|
            0 <= i < self.cycles().len() ==> cycle_wf(#[trigger] self.cycles()[i]) && 0
                <= self.cycles()[i].core_animation_id
                < coreModel.m_vectorCoreAnimation@.len() && self.cycles()[i].core_duration
                == coreModel.m_vectorCoreAnimation@[self.cycles()[i].core_animation_id]@.duration
        &&& forall|i: int|
            0 <= i < self.actions().len() ==> action_wf(#[trigger] self.actions()[i]) && 0
                <= self.actions()[i].core_animation_id
                < coreModel.m_vectorCoreAnimation@.len() && self.actions()[i].core_duration
                == coreModel.m_vectorCoreAnimation@[self.actions()[i].core_animation_id]@.duration
        &&& forall|a: int, b: int|
            0 <= a < b < self.m_vectorAnimation@.len() && self.m_vectorAnimation@[a] is Cycle
                && self.m_vectorAnimation@[b] is Cycle ==> (#[trigger] self.m_vectorAnimation@[a])->Cycle_0
                != (#[trigger] self.m_vectorAnimation@[b])->Cycle_0
        &&& forall|i: int|
            0 <= i < self.cycle_ids().len() ==> #[trigger] self.cycle_ids()[i]
                < self.m_nextInstanceId as int
        &&& forall|id: int|
            0 <= id < self.m_vectorAnimation@.len() && (#[trigger] self.m_vectorAnimation@[id])
                is Cycle ==> exists|k: int|
                0 <= k < self.cycle_ids().len() && #[trigger] self.cycle_ids()[k]
                    == self.m_vectorAnimation@[id]->Cycle_0 as int && self.cycles()[k].target_weight
                    > 0
        &&& self.adjustments().len() <= CalMixerBoneAdjustmentsMax as int
        &&& forall|i: int|
            0 <= i < self.adjustments().len() ==> 0 <= (#[trigger] self.adjustments()[i]).ramp_value
                <= FP_ONE as int
    }

    /// This is the stock scheduler (a host can supply its own).
    pub fn isDefaultMixer(&self) -> (r: bool)
        ensures
            r == true,
    {
        true
    }

    /// The scale the shared clock advances by.
    pub fn getTimeFactor(&self) -> (r: i64)
        ensures
            r == self.m_timeFactor,
    {
        self.m_timeFactor
    }

    /// Set the scale the shared clock advances by.
    pub fn setTimeFactor(&mut self, timeFactor: i64)
        requires
            timeFactor >= 0,
        ensures
            *final(self) == (CalMixer { m_timeFactor: timeFactor, ..*old(self) }),
    {
        self.m_timeFactor = timeFactor;
    }

    /// The shared synchronized clock.
    pub fn getAnimationTime(&self) -> (r: i64)
        ensures
            r == self.m_animationTime,
    {
        self.m_animationTime
    }

    /// The synchronized duration the cycles loop in.
    pub fn getAnimationDuration(&self) -> (r: i64)
        ensures
            r == self.m_animationDuration,
    {
        self.m_animationDuration
    }

    /// A fresh mixer for a core model: an empty table slot per core
    /// animation, no live instances, the shared clock at zero.
    pub fn new(coreModel: &CalCoreModel) -> (r: CalMixer)
        ensures
            r.wf(coreModel),
            r.cycles() == Seq::<CycleV>::empty(),
            r.actions() == Seq::<ActionV>::empty(),
            r.adjustments() == Seq::<AdjV>::empty(),
            r.m_animationTime == 0,
            r.m_animationDuration == 0,
            r.m_timeFactor as int == FP_ONE as int,
            forall|id: int|
                0 <= id < r.m_vectorAnimation@.len() ==> #[trigger] r.m_vectorAnimation@[id]
                    is Empty,
    {
        let coreAnimationCount = coreModel.getCoreAnimationCount();
        let mut vector_animation: Vec<CalAnimation> = Vec::new();
        let mut i: usize = 0;
        while i < coreAnimationCount
            invariant
                0 <= i <= coreAnimationCount,
                vector_animation@.len() == i,
                forall|id: int|
                    0 <= id < i ==> #[trigger] vector_animation@[id] is Empty,
            decreases coreAnimationCount - i,
        {
            vector_animation.push(CalAnimation::Empty);
            i = i + 1;
        }
        let r = CalMixer {
            m_boneAdjustmentAndBoneIdArray: Vec::new(),
            m_vectorAnimation: vector_animation,
            m_listAnimationAction: Vec::new(),
            m_listAnimationCycle: Vec::new(),
            m_animationTime: 0,
            m_animationDuration: 0,
            m_timeFactor: FP_ONE,
            m_nextInstanceId: 0,
        };
        proof {
            assert(r.cycles() =~= Seq::<CycleV>::empty());
            assert(r.actions() =~= Seq::<ActionV>::empty());
            assert(r.adjustments() =~= Seq::<AdjV>::empty());
            assert(r.cycle_ids() =~= Seq::<int>::empty());
        }
        r
    }

    /// Queue a bone adjustment for the coming ticks; the mixer holds at
    /// most `CalMixerBoneAdjustmentsMax` of them, and reports a full
    /// table by returning false.
    pub fn addBoneAdjustment(&mut self, boneId: usize, ba: BoneAdjustment) -> (r: bool)
        requires
            0 <= ba.rampValue_ <= FP_ONE,
        ensures
            r == (old(self).adjustments().len() < CalMixerBoneAdjustmentsMax as int),
            r ==> final(self).adjustments() == old(self).adjustments().push(
                (BoneAdjustmentAndBoneId { boneAdjustment_: ba, boneId_: boneId })@,
            ),
            r ==> *final(self) == (CalMixer {
                m_boneAdjustmentAndBoneIdArray: final(self).m_boneAdjustmentAndBoneIdArray,
                ..*old(self)
            }),
            !r ==> *final(self) == *old(self),
    {
        if self.m_boneAdjustmentAndBoneIdArray.len() >= CalMixerBoneAdjustmentsMax {
            return false;
        }
        self.m_boneAdjustmentAndBoneIdArray.push(
            BoneAdjustmentAndBoneId { boneAdjustment_: ba, boneId_: boneId },
        );
        proof {
            assert(self.adjustments() =~= old(self).adjustments().push(
                (BoneAdjustmentAndBoneId { boneAdjustment_: ba, boneId_: boneId })@,
            ));
        }
        true
    }

    /// Drop every pending bone adjustment.
    pub fn removeAllBoneAdjustments(&mut self)
        ensures
            final(self).adjustments() == Seq::<AdjV>::empty(),
            *final(self) == (CalMixer {
                m_boneAdjustmentAndBoneIdArray: final(self).m_boneAdjustmentAndBoneIdArray,
                ..*old(self)
            }),
    {
        self.m_boneAdjustmentAndBoneIdArray.clear();
        proof {
            assert(self.adjustments() =~= Seq::<AdjV>::empty());
        }
    }
}

/// Seal a looping animation: when the first track ends strictly before
/// the animation's duration, append to every track a synthetic keyframe
/// at the full duration copying the track's first pose, so that a cycle
/// loops without a pose jump. Sealing twice is a no-op (see
/// `lemma_seam_patch_idempotent`).
fn addExtraKeyframeForLoopedAnim(pCoreAnimation: &mut CalCoreAnimation)
    ensures
        final(pCoreAnimation)@ == seam_patch(old(pCoreAnimation)@),
{
    let trackCount = pCoreAnimation.m_listCoreTrack.len();
    if trackCount == 0 {
        return ;
    }
    let keyframeCount = pCoreAnimation.m_listCoreTrack[0].getCoreKeyframeCount();
    if keyframeCount == 0 {
        return ;
    }
    let lastKeyframeTime = pCoreAnimation.m_listCoreTrack[0].m_keyframes[keyframeCount
        - 1].getTime();
    let duration = pCoreAnimation.m_duration;
    if lastKeyframeTime >= duration {
        return ;
    }
    let ghost orig = pCoreAnimation@;
    let mut ti: usize = 0;
    while ti < trackCount
        invariant
            0 <= ti <= trackCount,
            trackCount == pCoreAnimation.m_listCoreTrack@.len(),
            trackCount == orig.tracks.len(),
            pCoreAnimation.m_duration as int == orig.duration,
            duration as int == orig.duration,
            forall|j: int| ti <= j < trackCount ==> #[trigger] pCoreAnimation@.tracks[j] == orig.tracks[j],
            forall|j: int|
                0 <= j < ti ==> #[trigger] pCoreAnimation@.tracks[j]
                    == crate::coreanimation::seam_patched_track(orig.tracks[j], orig.duration),
        decreases trackCount - ti,
    {
        let ghost tracks_before = pCoreAnimation@.tracks;
        if pCoreAnimation.m_listCoreTrack[ti].getCoreKeyframeCount() > 0 {
            proof {
                assert(pCoreAnimation@.tracks[ti as int] == orig.tracks[ti as int]);
                assert(pCoreAnimation.m_listCoreTrack@[ti as int]@.keyframes[0]
                    == orig.tracks[ti as int].keyframes[0]);
            }
            let firstTranslation = *pCoreAnimation.m_listCoreTrack[ti].m_keyframes[0]
                .getTranslation();
            let firstRotation = *pCoreAnimation.m_listCoreTrack[ti].m_keyframes[0].getRotation();
            let newKeyframe = CalCoreKeyframe::new(duration, firstTranslation, firstRotation);
            proof {
                assert(newKeyframe@ == crate::coreanimation::seam_keyframe(
                    orig.tracks[ti as int],
                    orig.duration,
                ));
            }
            pCoreAnimation.m_listCoreTrack[ti].addCoreKeyframe(newKeyframe);
            proof {
                assert(pCoreAnimation@.tracks[ti as int].keyframes
                    == crate::track::kf_insert(
                    orig.tracks[ti as int].keyframes,
                    crate::coreanimation::seam_keyframe(orig.tracks[ti as int], orig.duration),
                ));
            }
        }
        proof {
            assert forall|j: int|
                0 <= j < trackCount && j != ti as int implies #[trigger] pCoreAnimation@.tracks[j]
                == tracks_before[j] by {
            }
            assert(pCoreAnimation@.tracks[ti as int] == crate::coreanimation::seam_patched_track(
                orig.tracks[ti as int],
                orig.duration,
            ));
        }
        ti = ti + 1;
    }
    proof {
        let patched = seam_patch(orig);
        assert(patched.tracks == orig.tracks.map_values(
            |tr: crate::track::TrackV| crate::coreanimation::seam_patched_track(tr, orig.duration),
        ));
        assert forall|j: int| 0 <= j < trackCount implies pCoreAnimation@.tracks[j]
            == patched.tracks[j] by {
            assert(patched.tracks[j] == crate::coreanimation::seam_patched_track(
                orig.tracks[j],
                orig.duration,
            ));
        }
        assert(pCoreAnimation@.tracks =~= patched.tracks);
    }
}

impl CalMixer {
    /// Find the list position of the cycle with an instance id.
    fn findCycle(&self, instanceId: u64) -> (r: Option<usize>)
        ensures
            match r {
                Option::Some(k) => k < self.cycles().len() && self.cycles()[k as int].instance_id
                    == instanceId as int,
                Option::None => forall|k: int|
                    0 <= k < self.cycles().len() ==> (#[trigger] self.cycles()[k]).instance_id
                        != instanceId as int,
            },
    {
        let n = self.m_listAnimationCycle.len();
        let mut k: usize = 0;
        while k < n
            invariant
                0 <= k <= n,
                n == self.m_listAnimationCycle@.len(),
                forall|j: int|
                    0 <= j < k ==> (#[trigger] self.cycles()[j]).instance_id != instanceId as int,
            decreases n - k,
        {
            if self.m_listAnimationCycle[k].m_instanceId == instanceId {
                return Some(k);
            }
            k = k + 1;
        }
        None
    }

    /// Fade the cycle playing core animation `id` toward `weight` over
    /// `delay` seconds, starting it if the slot is empty (the loop seam
    /// is sealed first, and an idle mixer adopts the animation's
    /// duration as its synchronized duration). A fade to zero frees the
    /// slot at once; the instance itself fades out and retires through
    /// `updateAnimation`. An id outside the table, or a slot playing an
    /// action, is rejected.
    pub fn blendCycle(
        &mut self,
        core_model: &mut CalCoreModel,
        id: usize,
        weight: i64,
        delay: i64,
    ) -> (r: bool)
        requires
            old(self).wf(old(core_model)),
            crate::coremodel::core_anims_wf(old(core_model)),
            old(self).m_nextInstanceId < 0xFFFF_FFFF_FFFF_FFFF,
            weight >= 0,
            delay >= 0,
        ensures
            final(self).wf(final(core_model)),
            crate::coremodel::core_anims_wf(final(core_model)),
            final(core_model).pCoreSkeleton == old(core_model).pCoreSkeleton,
            final(core_model).m_vectorCoreAnimation@.len()
                == old(core_model).m_vectorCoreAnimation@.len(),
            forall|i: int|
                0 <= i < old(core_model).m_vectorCoreAnimation@.len() && i != id as int ==> (
                #[trigger] final(core_model).m_vectorCoreAnimation@[i])
                    == old(core_model).m_vectorCoreAnimation@[i],
            id < old(core_model).m_vectorCoreAnimation@.len() ==> (
            final(core_model).m_vectorCoreAnimation@[id as int]@
                == old(core_model).m_vectorCoreAnimation@[id as int]@
                || final(core_model).m_vectorCoreAnimation@[id as int]@ == seam_patch(
                old(core_model).m_vectorCoreAnimation@[id as int]@,
            )),
            final(self).adjustments() == old(self).adjustments(),
            old(self).m_nextInstanceId as int <= final(self).m_nextInstanceId as int <= old(
                self,
            ).m_nextInstanceId as int + 1,
            id >= old(self).m_vectorAnimation@.len() ==> r == false && *final(self) == *old(self)
                && *final(core_model) == *old(core_model),
            id < old(self).m_vectorAnimation@.len() && old(self).m_vectorAnimation@[id as int]
                is Empty && weight == 0 ==> r == true && *final(self) == *old(self) && *final(core_model) == *old(core_model),
            id < old(self).m_vectorAnimation@.len() && old(self).m_vectorAnimation@[id as int]
                is Empty && weight > 0 ==> r == true && final(core_model).m_vectorCoreAnimation@.len() == old(core_model).m_vectorCoreAnimation@.len() && final(core_model).m_vectorCoreAnimation@[id as int]@ == seam_patch(
                old(core_model).m_vectorCoreAnimation@[id as int]@,
            ) && final(self).cycles() == old(self).cycles().push(
                CycleV {
                    instance_id: old(self).m_nextInstanceId as int,
                    core_animation_id: id as int,
                    core_duration: old(core_model).m_vectorCoreAnimation@[id as int]@.duration,
                    state: State::STATE_SYNC,
                    time: 0,
                    time_factor: FP_ONE as int,
                    weight: 0,
                    target_delay: delay as int,
                    target_weight: weight as int,
                },
            ) && final(self).m_vectorAnimation@[id as int] == CalAnimation::Cycle(
                old(self).m_nextInstanceId,
            ) && final(self).m_animationDuration as int == (
            if old(self).m_animationDuration == 0 {
                old(core_model).m_vectorCoreAnimation@[id as int]@.duration
            } else {
                old(self).m_animationDuration as int
            }),
            id < old(self).m_vectorAnimation@.len() && old(self).m_vectorAnimation@[id as int]
                is Cycle ==> r == true && *final(core_model) == *old(core_model) && exists|k: int|
                0 <= k < old(self).cycles().len() && old(self).cycles()[k].instance_id == old(self).m_vectorAnimation@[id as int]->Cycle_0 as int && final(self).cycles() == old(self).cycles().update(
                    k,
                    CycleV {
                        target_weight: weight as int,
                        target_delay: delay as int,
                        ..old(self).cycles()[k]
                    },
                ),
            id < old(self).m_vectorAnimation@.len() && old(self).m_vectorAnimation@[id as int]
                is Action ==> r == false && *final(self) == *old(self) && *final(core_model)
                == *old(core_model),
    {
        if id >= self.m_vectorAnimation.len() {
            return false;
        }
        let slot = self.m_vectorAnimation[id];
        match slot {
            CalAnimation::Empty => {
                // starting a cleared or never-started animation with no
                // weight is a no-op
                if weight == 0 {
                    return true;
                }
                // seal the loop seam before the first instance plays
                addExtraKeyframeForLoopedAnim(&mut core_model.m_vectorCoreAnimation[id]);
                proof {
                    crate::coreanimation::lemma_seam_patch_wf(
                        old(core_model).m_vectorCoreAnimation@[id as int]@,
                    );
                    assert(crate::coremodel::core_anims_wf(core_model));
                }
                let duration = core_model.m_vectorCoreAnimation[id].getDuration();
                let instanceId = self.m_nextInstanceId;
                let pAnimationCycle = CalAnimationCycle::new(instanceId, id, duration);
                self.m_nextInstanceId = self.m_nextInstanceId + 1;
                self.m_vectorAnimation[id] = CalAnimation::Cycle(instanceId);
                self.m_listAnimationCycle.push(pAnimationCycle);
                // an idle mixer adopts this animation's duration as the
                // synchronized duration, so the first tick already
                // samples at the advanced time
                if self.m_animationDuration == 0 {
                    self.m_animationDuration = duration;
                }
                let n = self.m_listAnimationCycle.len();
                self.m_listAnimationCycle[n - 1].blend(weight, delay);
                proof {
                    assert(self.cycles() =~= old(self).cycles().push(
                        CycleV {
                            instance_id: old(self).m_nextInstanceId as int,
                            core_animation_id: id as int,
                            core_duration:
                                old(core_model).m_vectorCoreAnimation@[id as int]@.duration,
                            state: State::STATE_SYNC,
                            time: 0,
                            time_factor: FP_ONE as int,
                            weight: 0,
                            target_delay: delay as int,
                            target_weight: weight as int,
                        },
                    ));
                    assert(self.cycle_ids() =~= old(self).cycle_ids().push(
                        old(self).m_nextInstanceId as int,
                    ));
                    lemma_blend_cycle_started_wf(old(self), self, old(core_model), core_model, id as int);
                }
                true
            },
            CalAnimation::Cycle(instanceId) => {
                // re-target the live instance's fade
                let found = self.findCycle(instanceId);
                proof {
                    assert(self.m_vectorAnimation@[id as int] is Cycle);
                    assert(exists|k: int|
                        0 <= k < self.cycle_ids().len() && #[trigger] self.cycle_ids()[k]
                            == instanceId as int && self.cycles()[k].target_weight > 0);
                }
                let k = match found {
                    Some(k) => k,
                    None => {
                        proof {
                            let ghost k0 = choose|k0: int|
                                0 <= k0 < self.cycle_ids().len() && #[trigger] self.cycle_ids()[k0]
                                    == instanceId as int && self.cycles()[k0].target_weight > 0;
                            assert(self.cycles()[k0].instance_id == instanceId as int);
                            assert(false);
                        }
                        0
                    },
                };
                self.m_listAnimationCycle[k].blend(weight, delay);
                // a fade target of zero frees the table slot at once, so
                // a fresh instance can start while this one fades out
                if weight == 0 {
                    self.m_vectorAnimation[id] = CalAnimation::Empty;
                }
                proof {
                    assert(self.cycles() =~= old(self).cycles().update(
                        k as int,
                        CycleV {
                            target_weight: weight as int,
                            target_delay: delay as int,
                            ..old(self).cycles()[k as int]
                        },
                    ));
                    assert(self.cycle_ids() =~= old(self).cycle_ids());
                    lemma_blend_cycle_retargeted_wf(
                        old(self),
                        self,
                        core_model,
                        id as int,
                        k as int,
                        weight as int,
                        delay as int,
                    );
                }
                true
            },
            CalAnimation::Action(_) => {
                false
            },
        }
    }

    /// Fade the cycle playing core animation `id` out over `delay`
    /// seconds: the instance detaches from the synchronized clock and
    /// the table slot frees at once, so a fresh instance can start
    /// while the old one fades. An empty slot is fine; an id outside
    /// the table, or a slot playing an action, is rejected.
    pub fn clearCycle(&mut self, core_model: &CalCoreModel, id: usize, delay: i64) -> (r: bool)
        requires
            old(self).wf(core_model),
            delay >= 0,
        ensures
            final(self).wf(core_model),
            final(self).adjustments() == old(self).adjustments(),
            final(self).m_nextInstanceId == old(self).m_nextInstanceId,
            id >= old(self).m_vectorAnimation@.len() ==> r == false && *final(self) == *old(self),
            id < old(self).m_vectorAnimation@.len() && old(self).m_vectorAnimation@[id as int]
                is Empty ==> r == true && *final(self) == *old(self),
            id < old(self).m_vectorAnimation@.len() && old(self).m_vectorAnimation@[id as int]
                is Cycle ==> r == true && final(self).m_vectorAnimation@[id as int]
                is Empty && exists|k: int|
                0 <= k < old(self).cycles().len() && old(self).cycles()[k].instance_id == old(self).m_vectorAnimation@[id as int]->Cycle_0 as int && final(self).cycles() == old(self).cycles().update(
                    k,
                    CycleV {
                        target_weight: 0,
                        target_delay: delay as int,
                        ..cycle_made_async(
                            old(self).cycles()[k],
                            old(self).m_animationTime as int,
                            old(self).m_animationDuration as int,
                        )
                    },
                ),
            id < old(self).m_vectorAnimation@.len() && old(self).m_vectorAnimation@[id as int]
                is Action ==> r == false && *final(self) == *old(self),
    {
        if id >= self.m_vectorAnimation.len() {
            return false;
        }
        let slot = self.m_vectorAnimation[id];
        match slot {
            CalAnimation::Empty => true,
            CalAnimation::Cycle(instanceId) => {
                let found = self.findCycle(instanceId);
                proof {
                    assert(self.m_vectorAnimation@[id as int] is Cycle);
                    assert(exists|k: int|
                        0 <= k < self.cycle_ids().len() && #[trigger] self.cycle_ids()[k]
                            == instanceId as int && self.cycles()[k].target_weight > 0);
                }
                let k = match found {
                    Some(k) => k,
                    None => {
                        proof {
                            let ghost k0 = choose|k0: int|
                                0 <= k0 < self.cycle_ids().len() && #[trigger] self.cycle_ids()[k0]
                                    == instanceId as int && self.cycles()[k0].target_weight > 0;
                            assert(self.cycles()[k0].instance_id == instanceId as int);
                            assert(false);
                        }
                        0
                    },
                };
                // detach from the synchronized clock, then fade to zero
                let animationTime = self.m_animationTime;
                let animationDuration = self.m_animationDuration;
                self.m_listAnimationCycle[k].setAsync(animationTime, animationDuration);
                self.m_listAnimationCycle[k].blend(0, delay);
                self.m_vectorAnimation[id] = CalAnimation::Empty;
                proof {
                    assert(self.cycles() =~= old(self).cycles().update(
                        k as int,
                        CycleV {
                            target_weight: 0,
                            target_delay: delay as int,
                            ..cycle_made_async(
                                old(self).cycles()[k as int],
                                old(self).m_animationTime as int,
                                old(self).m_animationDuration as int,
                            )
                        },
                    ));
                    assert(self.cycle_ids() =~= old(self).cycle_ids());
                }
                true
            },
            CalAnimation::Action(_) => false,
        }
    }

    /// Start a one-shot action on core animation `id`: it ramps in over
    /// `delayIn`, holds `weightTarget`, and ramps out over the last
    /// `delayOut` seconds (or freezes on the last frame when
    /// auto-locked). An id with no core animation is rejected.
    pub fn executeAction(
        &mut self,
        core_model: &CalCoreModel,
        id: usize,
        delayIn: i64,
        delayOut: i64,
        weightTarget: i64,
        autoLock: bool,
    ) -> (r: bool)
        requires
            old(self).wf(core_model),
            crate::coremodel::core_anims_wf(core_model),
            delayIn >= 0,
            delayOut >= 0,
            weightTarget >= 0,
        ensures
            final(self).wf(core_model),
            final(self).adjustments() == old(self).adjustments(),
            final(self).m_nextInstanceId == old(self).m_nextInstanceId,
            r == (id < core_model.m_vectorCoreAnimation@.len()),
            !r ==> *final(self) == *old(self),
            r ==> final(self).actions() == old(self).actions().push(
                ActionV {
                    core_animation_id: id as int,
                    core_duration: core_model.m_vectorCoreAnimation@[id as int]@.duration,
                    state: State::STATE_IN,
                    time: 0,
                    time_factor: FP_ONE as int,
                    weight: 0,
                    delay_in: delayIn as int,
                    delay_out: delayOut as int,
                    weight_target: weightTarget as int,
                    auto_lock: autoLock,
                    scale: FP_ONE as int,
                    ramp_value: FP_ONE as int,
                    composition_function: CompositionFunction::CompositionFunctionNull,
                    sequencing_mode: crate::animation::SequencingMode::SequencingModeAutomatic,
                    manual_on: false,
                },
            ),
            r ==> final(self).cycles() == old(self).cycles(),
    {
        if id >= self.m_vectorAnimation.len() {
            return false;
        }
        proof {
            assert(crate::coreanimation::anim_wf(core_model.m_vectorCoreAnimation@[id as int]@));
        }
        let duration = core_model.m_vectorCoreAnimation[id].getDuration();
        let mut action = CalAnimationAction::new(id, duration);
        action.execute(delayIn, delayOut, weightTarget, autoLock);
        self.m_listAnimationAction.push(action);
        proof {
            assert(self.actions() =~= old(self).actions().push(self.actions().last()));
            assert(self.cycles() =~= old(self).cycles());
            assert(self.cycle_ids() =~= old(self).cycle_ids());
            assert(self.adjustments() =~= old(self).adjustments());
            let oldn = old(self).actions().len() as int;
            assert forall|i: int| 0 <= i < self.actions().len() implies action_wf(
                #[trigger] self.actions()[i],
            ) && 0 <= self.actions()[i].core_animation_id < core_model.m_vectorCoreAnimation@.len()
                && self.actions()[i].core_duration == core_model.m_vectorCoreAnimation@[(
            self.actions()[i]).core_animation_id]@.duration by {
                if i < oldn {
                    assert(self.actions()[i] == old(self).actions()[i]);
                } else {
                    assert(self.actions()[i] == self.actions().last());
                }
            }
        }
        true
    }
}

/// Starting a fresh cycle preserves the mixer's well-formedness: the new
/// instance carries the patched animation's (unchanged) duration and a
/// fresh instance id, and every old table slot keeps its live cycle.
proof fn lemma_blend_cycle_started_wf(
    pre: &CalMixer,
    post: &CalMixer,
    model_pre: &CalCoreModel,
    model_post: &CalCoreModel,
    id: int,
)
    requires
        pre.wf(model_pre),
        crate::coremodel::core_anims_wf(model_pre),
        crate::coremodel::core_anims_wf(model_post),
        0 <= id < pre.m_vectorAnimation@.len(),
        pre.m_vectorAnimation@[id] is Empty,
        pre.m_nextInstanceId < 0xFFFF_FFFF_FFFF_FFFF,
        model_post.m_vectorCoreAnimation@.len() == model_pre.m_vectorCoreAnimation@.len(),
        forall|j: int|
            0 <= j < model_pre.m_vectorCoreAnimation@.len() ==> (
            #[trigger] model_post.m_vectorCoreAnimation@[j])@.duration
                == model_pre.m_vectorCoreAnimation@[j]@.duration,
        post.m_vectorAnimation@ == pre.m_vectorAnimation@.update(
            id,
            CalAnimation::Cycle(pre.m_nextInstanceId),
        ),
        post.cycles() == pre.cycles().push(
            CycleV {
                instance_id: pre.m_nextInstanceId as int,
                core_animation_id: id,
                core_duration: model_pre.m_vectorCoreAnimation@[id]@.duration,
                state: State::STATE_SYNC,
                time: 0,
                time_factor: FP_ONE as int,
                weight: 0,
                target_delay: post.cycles().last().target_delay,
                target_weight: post.cycles().last().target_weight,
            },
        ),
        post.cycles().last().target_weight > 0,
        post.cycles().last().target_delay >= 0,
        post.cycle_ids() == pre.cycle_ids().push(pre.m_nextInstanceId as int),
        post.actions() == pre.actions(),
        post.adjustments() == pre.adjustments(),
        post.m_nextInstanceId as int == pre.m_nextInstanceId as int + 1,
        post.m_timeFactor == pre.m_timeFactor,
        post.m_animationTime == pre.m_animationTime,
        post.m_animationDuration as int == (if pre.m_animationDuration == 0 {
            model_pre.m_vectorCoreAnimation@[id]@.duration
        } else {
            pre.m_animationDuration as int
        }),
    ensures
        post.wf(model_post),
{
    let newid = pre.m_nextInstanceId as int;
    let oldn = pre.cycles().len() as int;
    assert(crate::coreanimation::anim_wf(model_pre.m_vectorCoreAnimation@[id]@));
    assert(model_pre.m_vectorCoreAnimation@[id]@.duration > 0);
    assert forall|i: int| 0 <= i < post.cycles().len() implies cycle_wf(#[trigger] post.cycles()[i])
        && 0 <= post.cycles()[i].core_animation_id < model_post.m_vectorCoreAnimation@.len()
        && post.cycles()[i].core_duration == model_post.m_vectorCoreAnimation@[(post.cycles()[i]).core_animation_id]@.duration by {
        if i < oldn {
            assert(post.cycles()[i] == pre.cycles()[i]);
            assert(cycle_wf(pre.cycles()[i]));
        } else {
            assert(post.cycles()[i] == post.cycles().last());
        }
    }
    assert forall|i: int| 0 <= i < post.actions().len() implies action_wf(
        #[trigger] post.actions()[i],
    ) && 0 <= post.actions()[i].core_animation_id < model_post.m_vectorCoreAnimation@.len()
        && post.actions()[i].core_duration == model_post.m_vectorCoreAnimation@[(post.actions()[i]).core_animation_id]@.duration by {
        assert(post.actions()[i] == pre.actions()[i]);
    }
    assert forall|a: int, b: int|
        0 <= a < b < post.m_vectorAnimation@.len() && post.m_vectorAnimation@[a] is Cycle
            && post.m_vectorAnimation@[b] is Cycle implies (
    #[trigger] post.m_vectorAnimation@[a])->Cycle_0 != (
    #[trigger] post.m_vectorAnimation@[b])->Cycle_0 by {
        if a != id && b != id {
            assert(post.m_vectorAnimation@[a] == pre.m_vectorAnimation@[a]);
            assert(post.m_vectorAnimation@[b] == pre.m_vectorAnimation@[b]);
        } else {
            let other = if a == id {
                b
            } else {
                a
            };
            assert(post.m_vectorAnimation@[other] == pre.m_vectorAnimation@[other]);
            let inst2 = pre.m_vectorAnimation@[other]->Cycle_0 as int;
            let k0 = choose|k0: int|
                0 <= k0 < pre.cycle_ids().len() && #[trigger] pre.cycle_ids()[k0] == inst2
                    && pre.cycles()[k0].target_weight > 0;
            assert(pre.cycle_ids()[k0] < pre.m_nextInstanceId as int);
        }
    }
    assert forall|i: int| 0 <= i < post.cycle_ids().len() implies #[trigger] post.cycle_ids()[i]
        < post.m_nextInstanceId as int by {
        if i < oldn {
            assert(post.cycle_ids()[i] == pre.cycle_ids()[i]);
        }
    }
    assert forall|id2: int|
        0 <= id2 < post.m_vectorAnimation@.len() && (#[trigger] post.m_vectorAnimation@[id2])
            is Cycle implies exists|k: int|
        0 <= k < post.cycle_ids().len() && #[trigger] post.cycle_ids()[k]
            == post.m_vectorAnimation@[id2]->Cycle_0 as int && post.cycles()[k].target_weight
            > 0 by {
        if id2 == id {
            assert(post.cycle_ids()[oldn] == newid && post.cycles()[oldn].target_weight > 0);
        } else {
            assert(post.m_vectorAnimation@[id2] == pre.m_vectorAnimation@[id2]);
            let k0 = choose|k0: int|
                0 <= k0 < pre.cycle_ids().len() && #[trigger] pre.cycle_ids()[k0]
                    == pre.m_vectorAnimation@[id2]->Cycle_0 as int && pre.cycles()[k0].target_weight
                    > 0;
            assert(post.cycle_ids()[k0] == pre.cycle_ids()[k0] && post.cycles()[k0]
                == pre.cycles()[k0]);
        }
    }
}

/// Re-targeting a live cycle's fade preserves the mixer's
/// well-formedness; when the new target weight is zero the table slot is
/// freed, and no other slot names the re-targeted instance.
proof fn lemma_blend_cycle_retargeted_wf(
    pre: &CalMixer,
    post: &CalMixer,
    model: &CalCoreModel,
    id: int,
    k: int,
    weight: int,
    delay: int,
)
    requires
        pre.wf(model),
        0 <= id < pre.m_vectorAnimation@.len(),
        pre.m_vectorAnimation@[id] is Cycle,
        0 <= k < pre.cycles().len(),
        pre.cycles()[k].instance_id == pre.m_vectorAnimation@[id]->Cycle_0 as int,
        weight >= 0,
        delay >= 0,
        post.cycles() == pre.cycles().update(
            k,
            CycleV { target_weight: weight, target_delay: delay, ..pre.cycles()[k] },
        ),
        post.cycle_ids() == pre.cycle_ids(),
        post.actions() == pre.actions(),
        post.adjustments() == pre.adjustments(),
        post.m_nextInstanceId == pre.m_nextInstanceId,
        post.m_timeFactor == pre.m_timeFactor,
        post.m_animationTime == pre.m_animationTime,
        post.m_animationDuration == pre.m_animationDuration,
        weight > 0 ==> post.m_vectorAnimation@ == pre.m_vectorAnimation@,
        weight == 0 ==> post.m_vectorAnimation@ == pre.m_vectorAnimation@.update(
            id,
            CalAnimation::Empty,
        ),
    ensures
        post.wf(model),
{
    assert forall|i: int| 0 <= i < post.cycles().len() implies cycle_wf(#[trigger] post.cycles()[i])
        && 0 <= post.cycles()[i].core_animation_id < model.m_vectorCoreAnimation@.len()
        && post.cycles()[i].core_duration == model.m_vectorCoreAnimation@[(post.cycles()[i]).core_animation_id]@.duration by {
        if i != k {
            assert(post.cycles()[i] == pre.cycles()[i]);
        } else {
            assert(cycle_wf(pre.cycles()[k]));
        }
    }
    assert forall|i: int| 0 <= i < post.actions().len() implies action_wf(
        #[trigger] post.actions()[i],
    ) && 0 <= post.actions()[i].core_animation_id < model.m_vectorCoreAnimation@.len()
        && post.actions()[i].core_duration == model.m_vectorCoreAnimation@[(post.actions()[i]).core_animation_id]@.duration by {
        assert(post.actions()[i] == pre.actions()[i]);
    }
    assert forall|a: int, b: int|
        0 <= a < b < post.m_vectorAnimation@.len() && post.m_vectorAnimation@[a] is Cycle
            && post.m_vectorAnimation@[b] is Cycle implies (
    #[trigger] post.m_vectorAnimation@[a])->Cycle_0 != (
    #[trigger] post.m_vectorAnimation@[b])->Cycle_0 by {
        assert(pre.m_vectorAnimation@[a] is Cycle ==> post.m_vectorAnimation@[a]
            == pre.m_vectorAnimation@[a] || post.m_vectorAnimation@[a] is Empty);
        assert(post.m_vectorAnimation@[a] is Cycle ==> post.m_vectorAnimation@[a]
            == pre.m_vectorAnimation@[a]);
        assert(post.m_vectorAnimation@[b] is Cycle ==> post.m_vectorAnimation@[b]
            == pre.m_vectorAnimation@[b]);
    }
    let inst = pre.m_vectorAnimation@[id]->Cycle_0 as int;
    assert forall|id2: int|
        0 <= id2 < post.m_vectorAnimation@.len() && (#[trigger] post.m_vectorAnimation@[id2])
            is Cycle implies exists|kk: int|
        0 <= kk < post.cycle_ids().len() && #[trigger] post.cycle_ids()[kk]
            == post.m_vectorAnimation@[id2]->Cycle_0 as int && post.cycles()[kk].target_weight
            > 0 by {
        assert(post.m_vectorAnimation@[id2] == pre.m_vectorAnimation@[id2]);
        let inst2 = pre.m_vectorAnimation@[id2]->Cycle_0 as int;
        let k0 = choose|k0: int|
            0 <= k0 < pre.cycle_ids().len() && #[trigger] pre.cycle_ids()[k0] == inst2
                && pre.cycles()[k0].target_weight > 0;
        if id2 == id {
            // the slot still points at this instance only when the new
            // target weight is positive
            assert(weight > 0);
            if k0 == k {
                assert(post.cycles()[k].target_weight == weight);
                assert(post.cycle_ids()[k0] == inst2);
            } else {
                assert(post.cycles()[k0] == pre.cycles()[k0]);
            }
        } else {
            // another slot names another instance; if its witness is the
            // re-targeted cycle, the slots' instance ids would collide
            if k0 == k {
                assert(pre.cycle_ids()[k] == pre.cycles()[k].instance_id);
                assert(inst2 == inst);
                assert(pre.m_vectorAnimation@[id2]->Cycle_0 == pre.m_vectorAnimation@[id]->Cycle_0);
                assert(false);
            } else {
                assert(post.cycles()[k0] == pre.cycles()[k0]);
                assert(post.cycle_ids()[k0] == pre.cycle_ids()[k0]);
            }
        }
    }
}

/// The action list after one tick: every automatic action advanced, the
/// ones that ran out removed.
pub open spec fn actions_after(s: Seq<ActionV>, dt: int) -> Seq<ActionV>
    decreases s.len(),
{
    if s.len() == 0 {
        Seq::empty()
    } else {
        let rest = actions_after(s.drop_last(), dt);
        if action_alive_spec(s.last(), dt) {
            rest.push(action_update_spec(s.last(), dt))
        } else {
            rest
        }
    }
}

/// The cycle list after one tick: every cycle's fade advanced, the ones
/// that faded out removed.
pub open spec fn cycles_after(s: Seq<CycleV>, dt: int) -> Seq<CycleV>
    decreases s.len(),
{
    if s.len() == 0 {
        Seq::empty()
    } else {
        let rest = cycles_after(s.drop_last(), dt);
        if cycle_alive_spec(s.last(), dt) {
            rest.push(cycle_update_spec(s.last(), dt))
        } else {
            rest
        }
    }
}

/// The weight the synchronized cycles carry together, accumulated front
/// to back.
pub open spec fn sync_weight_sum(s: Seq<CycleV>) -> int
    decreases s.len(),
{
    if s.len() == 0 {
        0
    } else {
        let rest = sync_weight_sum(s.drop_last());
        if s.last().state is STATE_SYNC {
            fp_sum(rest, s.last().weight)
        } else {
            rest
        }
    }
}

/// The weighted durations of the synchronized cycles, accumulated front
/// to back.
pub open spec fn sync_duration_sum(s: Seq<CycleV>) -> int
    decreases s.len(),
{
    if s.len() == 0 {
        0
    } else {
        let rest = sync_duration_sum(s.drop_last());
        if s.last().state is STATE_SYNC {
            fp_sum(rest, fp_prod(s.last().weight, s.last().core_duration))
        } else {
            rest
        }
    }
}

/// The mixer's synchronized clock after one tick: frozen at zero while
/// no duration is set, otherwise advanced by the scaled delta and
/// wrapped into `[0, duration)`.
pub open spec fn mixer_time_after(time: int, duration: int, dt: int, time_factor: int) -> int {
    if duration == 0 {
        0
    } else {
        let advanced = fp_sum(time, fp_prod(dt, time_factor));
        let wrapped = if advanced >= duration || advanced < 0 {
            fp_trem(advanced, duration)
        } else {
            advanced
        };
        if wrapped < 0 {
            fp_sum(wrapped, duration)
        } else {
            wrapped
        }
    }
}

/// A cycle that survives the tick stands, updated, in the new list.
proof fn lemma_cycles_after_keeps(s: Seq<CycleV>, dt: int, k: int)
    requires
        0 <= k < s.len(),
        cycle_alive_spec(s[k], dt),
    ensures
        exists|k2: int|
            0 <= k2 < cycles_after(s, dt).len() && #[trigger] cycles_after(s, dt)[k2]
                == cycle_update_spec(s[k], dt),
    decreases s.len(),
{
    let after = cycles_after(s, dt);
    if k == s.len() - 1 {
        assert(after[after.len() - 1] == cycle_update_spec(s[k], dt));
    } else {
        lemma_cycles_after_keeps(s.drop_last(), dt, k);
        assert(s.drop_last()[k] == s[k]);
        let rest = cycles_after(s.drop_last(), dt);
        let k2 = choose|k2: int|
            0 <= k2 < rest.len() && #[trigger] rest[k2] == cycle_update_spec(s[k], dt);
        if cycle_alive_spec(s.last(), dt) {
            assert(after[k2] == rest[k2]);
        }
    }
}

/// Every cycle of the new list is an updated survivor of the old list.
proof fn lemma_cycles_after_members(s: Seq<CycleV>, dt: int)
    ensures
        forall|k2: int|
            0 <= k2 < cycles_after(s, dt).len() ==> exists|k: int|
                0 <= k < s.len() && #[trigger] cycles_after(s, dt)[k2] == cycle_update_spec(
                    s[k],
                    dt,
                ) && cycle_alive_spec(s[k], dt),
    decreases s.len(),
{
    if s.len() == 0 {
    } else {
        lemma_cycles_after_members(s.drop_last(), dt);
        let after = cycles_after(s, dt);
        let rest = cycles_after(s.drop_last(), dt);
        assert forall|k2: int| 0 <= k2 < after.len() implies exists|k: int|
            0 <= k < s.len() && #[trigger] after[k2] == cycle_update_spec(s[k], dt)
                && cycle_alive_spec(s[k], dt) by {
            if k2 < rest.len() {
                assert(after[k2] == rest[k2]);
                let k = choose|k: int|
                    0 <= k < s.drop_last().len() && #[trigger] rest[k2] == cycle_update_spec(
                        s.drop_last()[k],
                        dt,
                    ) && cycle_alive_spec(s.drop_last()[k], dt);
                assert(s.drop_last()[k] == s[k]);
            } else {
                assert(cycle_alive_spec(s.last(), dt));
                assert(after[k2] == cycle_update_spec(s[s.len() - 1], dt));
            }
        }
    }
}

/// Every action of the new list is an updated survivor of the old list.
proof fn lemma_actions_after_members(s: Seq<ActionV>, dt: int)
    ensures
        forall|k2: int|
            0 <= k2 < actions_after(s, dt).len() ==> exists|k: int|
                0 <= k < s.len() && #[trigger] actions_after(s, dt)[k2] == action_update_spec(
                    s[k],
                    dt,
                ) && action_alive_spec(s[k], dt),
    decreases s.len(),
{
    if s.len() == 0 {
    } else {
        lemma_actions_after_members(s.drop_last(), dt);
        let after = actions_after(s, dt);
        let rest = actions_after(s.drop_last(), dt);
        assert forall|k2: int| 0 <= k2 < after.len() implies exists|k: int|
            0 <= k < s.len() && #[trigger] after[k2] == action_update_spec(s[k], dt)
                && action_alive_spec(s[k], dt) by {
            if k2 < rest.len() {
                assert(after[k2] == rest[k2]);
                let k = choose|k: int|
                    0 <= k < s.drop_last().len() && #[trigger] rest[k2] == action_update_spec(
                        s.drop_last()[k],
                        dt,
                    ) && action_alive_spec(s.drop_last()[k], dt);
                assert(s.drop_last()[k] == s[k]);
            } else {
                assert(action_alive_spec(s.last(), dt));
                assert(after[k2] == action_update_spec(s[s.len() - 1], dt));
            }
        }
    }
}

impl CalMixer {
    /// Advance the shared clock and every live instance by `deltaTime`
    /// seconds. Actions that ran out and cycles that faded out retire.
    /// The synchronized duration becomes the weighted average of the
    /// synchronized cycles' durations (their weights as the weights),
    /// or zero when no synchronized weight remains.
    pub fn updateAnimation(&mut self, deltaTime: i64, core_model: &CalCoreModel)
        requires
            old(self).wf(core_model),
            deltaTime >= 0,
        ensures
            final(self).wf(core_model),
            final(self).m_animationTime as int == mixer_time_after(
                old(self).m_animationTime as int,
                old(self).m_animationDuration as int,
                deltaTime as int,
                old(self).m_timeFactor as int,
            ),
            final(self).actions() == actions_after(old(self).actions(), deltaTime as int),
            final(self).cycles() == cycles_after(old(self).cycles(), deltaTime as int),
            final(self).m_animationDuration as int == (
            if sync_weight_sum(cycles_after(old(self).cycles(), deltaTime as int)) > 0 {
                fp_quot(
                    sync_duration_sum(cycles_after(old(self).cycles(), deltaTime as int)),
                    sync_weight_sum(cycles_after(old(self).cycles(), deltaTime as int)),
                )
            } else {
                0
            }),
            final(self).m_vectorAnimation == old(self).m_vectorAnimation,
            final(self).adjustments() == old(self).adjustments(),
            final(self).m_nextInstanceId == old(self).m_nextInstanceId,
            final(self).m_timeFactor == old(self).m_timeFactor,
    {
        let ghost dt = deltaTime as int;
        // advance the synchronized clock, wrapping into the duration
        if self.m_animationDuration == 0 {
            self.m_animationTime = 0;
        } else {
            self.m_animationTime = fp_add(self.m_animationTime, fp_mul(deltaTime, self.m_timeFactor));
            if self.m_animationTime >= self.m_animationDuration || self.m_animationTime < 0 {
                self.m_animationTime = fp_rem(self.m_animationTime, self.m_animationDuration);
            }
            if self.m_animationTime < 0 {
                self.m_animationTime = fp_add(self.m_animationTime, self.m_animationDuration);
            }
            proof {
                crate::scalar::lemma_fp_trem_range(
                    fp_sum(
                        old(self).m_animationTime as int,
                        fp_prod(dt, old(self).m_timeFactor as int),
                    ),
                    old(self).m_animationDuration as int,
                );
            }
        }
        // advance every action, retiring the ones that ended
        let ghost actions0 = self.actions();
        let actionCount = self.m_listAnimationAction.len();
        let mut newActions: Vec<CalAnimationAction> = Vec::new();
        let mut k: usize = 0;
        while k < actionCount
            invariant
                0 <= k <= actionCount,
                actionCount == self.m_listAnimationAction@.len(),
                self.actions() == actions0,
                actions0.len() == actionCount,
                newActions@.map_values(|a: CalAnimationAction| a@) == actions_after(
                    actions0.subrange(0, k as int),
                    dt,
                ),
                forall|j: int|
                    0 <= j < newActions@.len() ==> action_wf((#[trigger] newActions@[j])@),
                deltaTime >= 0,
                dt == deltaTime as int,
                forall|i: int|
                    0 <= i < actionCount ==> action_wf(#[trigger] actions0[i])
                        && 0 <= (actions0[i]).core_animation_id
                        && (actions0[i]).core_animation_id < core_model.m_vectorCoreAnimation@.len()
                        && (actions0[i]).core_duration == core_model.m_vectorCoreAnimation@[(
                    actions0[i]).core_animation_id]@.duration,
            decreases actionCount - k,
        {
            proof {
                assert(actions0.subrange(0, k as int + 1).drop_last() =~= actions0.subrange(
                    0,
                    k as int,
                ));
                assert(actions0.subrange(0, k as int + 1).last() == actions0[k as int]);
            }
            let mut action = self.m_listAnimationAction[k];
            proof {
                assert(action@ == actions0[k as int]);
            }
            if action.update(deltaTime) {
                proof {
                    assert(action@ == action_update_spec(actions0[k as int], dt));
                    assert(action_alive_spec(actions0[k as int], dt));
                }
                newActions.push(action);
                proof {
                    assert(actions_after(actions0.subrange(0, k as int + 1), dt) == actions_after(
                        actions0.subrange(0, k as int),
                        dt,
                    ).push(action_update_spec(actions0[k as int], dt)));
                    assert(newActions@.map_values(|a: CalAnimationAction| a@) =~= actions_after(
                        actions0.subrange(0, k as int + 1),
                        dt,
                    ));
                }
            } else {
                // the action ended: it leaves the list
                proof {
                    assert(!action_alive_spec(actions0[k as int], dt));
                    assert(actions_after(actions0.subrange(0, k as int + 1), dt) == actions_after(
                        actions0.subrange(0, k as int),
                        dt,
                    ));
                }
            }
            k = k + 1;
        }
        self.m_listAnimationAction = newActions;
        proof {
            assert(actions0.subrange(0, actionCount as int) =~= actions0);
        }
        // advance every cycle, retiring the ones that faded out, and
        // accumulate the synchronized weights and weighted durations
        let ghost cycles0 = self.cycles();
        let cycleCount = self.m_listAnimationCycle.len();
        let mut newCycles: Vec<CalAnimationCycle> = Vec::new();
        let mut accumulatedWeight: i64 = 0;
        let mut accumulatedDuration: i64 = 0;
        let mut k2: usize = 0;
        while k2 < cycleCount
            invariant
                0 <= k2 <= cycleCount,
                cycleCount == self.m_listAnimationCycle@.len(),
                self.cycles() == cycles0,
                cycles0.len() == cycleCount,
                newCycles@.map_values(|c: CalAnimationCycle| c@) == cycles_after(
                    cycles0.subrange(0, k2 as int),
                    dt,
                ),
                forall|j: int|
                    0 <= j < newCycles@.len() ==> cycle_wf((#[trigger] newCycles@[j])@),
                accumulatedWeight as int == sync_weight_sum(
                    cycles_after(cycles0.subrange(0, k2 as int), dt),
                ),
                accumulatedDuration as int == sync_duration_sum(
                    cycles_after(cycles0.subrange(0, k2 as int), dt),
                ),
                deltaTime >= 0,
                dt == deltaTime as int,
                forall|i: int|
                    0 <= i < cycleCount ==> cycle_wf(#[trigger] cycles0[i])
                        && 0 <= (cycles0[i]).core_animation_id
                        && (cycles0[i]).core_animation_id < core_model.m_vectorCoreAnimation@.len()
                        && (cycles0[i]).core_duration == core_model.m_vectorCoreAnimation@[(
                    cycles0[i]).core_animation_id]@.duration,
            decreases cycleCount - k2,
        {
            proof {
                assert(cycles0.subrange(0, k2 as int + 1).drop_last() =~= cycles0.subrange(
                    0,
                    k2 as int,
                ));
                assert(cycles0.subrange(0, k2 as int + 1).last() == cycles0[k2 as int]);
            }
            let mut cycle = self.m_listAnimationCycle[k2];
            proof {
                assert(cycle@ == cycles0[k2 as int]);
            }
            if cycle.update(deltaTime) {
                proof {
                    assert(cycle@ == cycle_update_spec(cycles0[k2 as int], dt));
                    assert(cycle_alive_spec(cycles0[k2 as int], dt));
                    assert(cycles_after(cycles0.subrange(0, k2 as int + 1), dt) == cycles_after(
                        cycles0.subrange(0, k2 as int),
                        dt,
                    ).push(cycle_update_spec(cycles0[k2 as int], dt)));
                }
                // a synchronized cycle contributes to the shared duration
                if matches!(cycle.getState(), State::STATE_SYNC) {
                    accumulatedWeight = fp_add(accumulatedWeight, cycle.getWeight());
                    accumulatedDuration = fp_add(
                        accumulatedDuration,
                        fp_mul(cycle.getWeight(), cycle.m_coreDuration),
                    );
                }
                newCycles.push(cycle);
                proof {
                    let after1 = cycles_after(cycles0.subrange(0, k2 as int + 1), dt);
                    assert(after1.drop_last() =~= cycles_after(
                        cycles0.subrange(0, k2 as int),
                        dt,
                    ));
                    assert(after1.last() == cycle@);
                    assert(newCycles@.map_values(|c: CalAnimationCycle| c@) =~= after1);
                }
            } else {
                proof {
                    assert(!cycle_alive_spec(cycles0[k2 as int], dt));
                    assert(cycles_after(cycles0.subrange(0, k2 as int + 1), dt) == cycles_after(
                        cycles0.subrange(0, k2 as int),
                        dt,
                    ));
                }
            }
            k2 = k2 + 1;
        }
        self.m_listAnimationCycle = newCycles;
        proof {
            assert(cycles0.subrange(0, cycleCount as int) =~= cycles0);
        }
        // the synchronized duration is the weighted average of the
        // synchronized cycles' durations
        proof {
            let ca = cycles_after(cycles0, dt);
            lemma_cycles_after_members(cycles0, dt);
            assert forall|i: int| 0 <= i < ca.len() implies (#[trigger] ca[i]).weight >= 0
                && ca[i].core_duration > 0 by {
                let k = choose|k: int|
                    0 <= k < cycles0.len() && #[trigger] ca[i] == cycle_update_spec(cycles0[k], dt)
                        && cycle_alive_spec(cycles0[k], dt);
                assert(cycle_wf(cycles0[k]));
                assert(cycle_wf(cycle_update_spec(cycles0[k], dt))) by {
                    crate::animation::lemma_cycle_update_wf(cycles0[k], dt);
                }
            }
            lemma_sync_sums_nonneg(ca);
        }
        if accumulatedWeight > 0 {
            proof {
                let ca = cycles_after(cycles0, dt);
                let num = sync_duration_sum(ca) * FP_ONE as int;
                assert(num >= 0) by (nonlinear_arith)
                    requires
                        sync_duration_sum(ca) >= 0,
                        num == sync_duration_sum(ca) * FP_ONE as int,
                ;
                crate::scalar::lemma_fp_tdiv_nonneg(num, accumulatedWeight as int);
            }
            self.m_animationDuration = fp_div(accumulatedDuration, accumulatedWeight);
        } else {
            self.m_animationDuration = 0;
        }
        proof {
            lemma_update_animation_wf(old(self), self, core_model, dt);
        }
    }
}

/// The synchronized sums of a list of well-formed cycles are never
/// negative.
proof fn lemma_sync_sums_nonneg(s: Seq<CycleV>)
    requires
        forall|i: int| 0 <= i < s.len() ==> (#[trigger] s[i]).weight >= 0 && s[i].core_duration > 0,
    ensures
        sync_weight_sum(s) >= 0,
        sync_duration_sum(s) >= 0,
    decreases s.len(),
{
    if s.len() > 0 {
        assert(forall|i: int|
            0 <= i < s.drop_last().len() ==> (#[trigger] s.drop_last()[i]).weight >= 0
                && s.drop_last()[i].core_duration > 0);
        lemma_sync_sums_nonneg(s.drop_last());
        if s.last().state is STATE_SYNC {
            crate::scalar::lemma_fp_prod_nonneg(s.last().weight, s.last().core_duration);
        }
    }
}

/// A tick preserves the mixer's well-formedness: survivors keep their
/// identities and animations, and every table slot's live cycle
/// survives with its positive target weight.
proof fn lemma_update_animation_wf(
    pre: &CalMixer,
    post: &CalMixer,
    model: &CalCoreModel,
    dt: int,
)
    requires
        pre.wf(model),
        dt >= 0,
        post.m_vectorAnimation == pre.m_vectorAnimation,
        post.adjustments() == pre.adjustments(),
        post.m_nextInstanceId == pre.m_nextInstanceId,
        post.m_timeFactor == pre.m_timeFactor,
        post.m_animationTime as int == mixer_time_after(
            pre.m_animationTime as int,
            pre.m_animationDuration as int,
            dt,
            pre.m_timeFactor as int,
        ),
        post.m_animationDuration >= 0,
        post.actions() == actions_after(pre.actions(), dt),
        post.cycles() == cycles_after(pre.cycles(), dt),
        forall|i: int| 0 <= i < post.actions().len() ==> action_wf(#[trigger] post.actions()[i]),
        forall|i: int| 0 <= i < post.cycles().len() ==> cycle_wf(#[trigger] post.cycles()[i]),
    ensures
        post.wf(model),
{
    lemma_cycles_after_members(pre.cycles(), dt);
    lemma_actions_after_members(pre.actions(), dt);
    assert(post.cycles() == cycles_after(pre.cycles(), dt));
    assert(post.actions() == actions_after(pre.actions(), dt));
    // the advanced clock never goes negative
    if pre.m_animationDuration != 0 {
        crate::scalar::lemma_fp_trem_range(
            fp_sum(pre.m_animationTime as int, fp_prod(dt, pre.m_timeFactor as int)),
            pre.m_animationDuration as int,
        );
    }
    assert forall|i: int| 0 <= i < post.cycles().len() implies cycle_wf(#[trigger] post.cycles()[i])
        && 0 <= post.cycles()[i].core_animation_id < model.m_vectorCoreAnimation@.len()
        && post.cycles()[i].core_duration == model.m_vectorCoreAnimation@[(
    post.cycles()[i]).core_animation_id]@.duration by {
        assert(cycles_after(pre.cycles(), dt)[i] == post.cycles()[i]);
        let k = choose|k: int|
            0 <= k < pre.cycles().len() && #[trigger] cycles_after(pre.cycles(), dt)[i]
                == cycle_update_spec(pre.cycles()[k], dt) && cycle_alive_spec(pre.cycles()[k], dt);
        assert(cycle_wf(pre.cycles()[k]));
    }
    assert forall|i: int| 0 <= i < post.actions().len() implies action_wf(
        #[trigger] post.actions()[i],
    ) && 0 <= post.actions()[i].core_animation_id < model.m_vectorCoreAnimation@.len()
        && post.actions()[i].core_duration == model.m_vectorCoreAnimation@[(
    post.actions()[i]).core_animation_id]@.duration by {
        assert(actions_after(pre.actions(), dt)[i] == post.actions()[i]);
        let k = choose|k: int|
            0 <= k < pre.actions().len() && #[trigger] actions_after(pre.actions(), dt)[i]
                == action_update_spec(pre.actions()[k], dt) && action_alive_spec(
                pre.actions()[k],
                dt,
            );
        assert(action_wf(pre.actions()[k]));
    }
    assert(post.cycle_ids().len() == post.cycles().len());
    assert forall|i: int| 0 <= i < post.cycle_ids().len() implies #[trigger] post.cycle_ids()[i]
        < post.m_nextInstanceId as int by {
        assert(post.cycle_ids()[i] == post.cycles()[i].instance_id);
        assert(cycles_after(pre.cycles(), dt)[i] == post.cycles()[i]);
        let k = choose|k: int|
            0 <= k < pre.cycles().len() && #[trigger] cycles_after(pre.cycles(), dt)[i]
                == cycle_update_spec(pre.cycles()[k], dt) && cycle_alive_spec(pre.cycles()[k], dt);
        assert(pre.cycle_ids()[k] == pre.cycles()[k].instance_id);
    }
    assert forall|id2: int|
        0 <= id2 < post.m_vectorAnimation@.len() && (#[trigger] post.m_vectorAnimation@[id2])
            is Cycle implies exists|kk: int|
        0 <= kk < post.cycle_ids().len() && #[trigger] post.cycle_ids()[kk]
            == post.m_vectorAnimation@[id2]->Cycle_0 as int && post.cycles()[kk].target_weight
            > 0 by {
        let inst2 = pre.m_vectorAnimation@[id2]->Cycle_0 as int;
        let k0 = choose|k0: int|
            0 <= k0 < pre.cycle_ids().len() && #[trigger] pre.cycle_ids()[k0] == inst2
                && pre.cycles()[k0].target_weight > 0;
        assert(pre.cycle_ids()[k0] == pre.cycles()[k0].instance_id);
        assert(cycle_alive_spec(pre.cycles()[k0], dt));
        lemma_cycles_after_keeps(pre.cycles(), dt, k0);
        let k2 = choose|k2: int|
            0 <= k2 < cycles_after(pre.cycles(), dt).len() && #[trigger] cycles_after(
                pre.cycles(),
                dt,
            )[k2] == cycle_update_spec(pre.cycles()[k0], dt);
        assert(post.cycles()[k2] == cycle_update_spec(pre.cycles()[k0], dt));
        assert(post.cycles()[k2].instance_id == inst2);
        assert(post.cycles()[k2].target_weight == pre.cycles()[k0].target_weight);
        assert(post.cycle_ids()[k2] == inst2);
    }
}

/// The core animations as their mathematical values.
pub open spec fn core_anims(m: &CalCoreModel) -> Seq<AnimV> {
    m.m_vectorCoreAnimation@.map_values(|a: CalCoreAnimation| a@)
}

impl CalMixer {
    /// Apply the pending bone adjustments, each a full-weight replace
    /// influence at highest priority.
    fn applyBoneAdjustments(&self, pSkeleton: &mut CalSkeleton, core_model: &CalCoreModel)
        requires
            old(pSkeleton).wf(),
            old(pSkeleton).bones().len() == core_model.pCoreSkeleton@.bones.len(),
            forall|i: int|
                0 <= i < self.adjustments().len() ==> 0 <= (
                #[trigger] self.adjustments()[i]).bone_id < old(pSkeleton).bones().len(),
            forall|i: int|
                0 <= i < self.adjustments().len() ==> 0 <= (
                #[trigger] self.adjustments()[i]).ramp_value <= FP_ONE as int,
        ensures
            final(pSkeleton).wf(),
            final(pSkeleton).bones().len() == old(pSkeleton).bones().len(),
            final(pSkeleton).bones() == apply_adjustments(
                old(pSkeleton).bones(),
                self.adjustments(),
                core_model.pCoreSkeleton@.bones,
            ),
    {
        let ghost bones0 = pSkeleton.bones();
        let ghost adjs = self.adjustments();
        let ghost cores = core_model.pCoreSkeleton@.bones;
        let n = self.m_boneAdjustmentAndBoneIdArray.len();
        let mut i: usize = 0;
        while i < n
            invariant
                0 <= i <= n,
                n == self.m_boneAdjustmentAndBoneIdArray@.len(),
                n == adjs.len(),
                adjs == self.adjustments(),
                cores == core_model.pCoreSkeleton@.bones,
                pSkeleton.wf(),
                pSkeleton.bones().len() == bones0.len(),
                bones0.len() == cores.len(),
                pSkeleton.bones() == apply_adjustments(bones0, adjs.subrange(0, i as int), cores),
                forall|j: int|
                    0 <= j < adjs.len() ==> 0 <= (#[trigger] adjs[j]).bone_id < bones0.len(),
                forall|j: int|
                    0 <= j < adjs.len() ==> 0 <= (#[trigger] adjs[j]).ramp_value <= FP_ONE as int,
            decreases n - i,
        {
            proof {
                assert(adjs.subrange(0, i as int + 1).drop_last() =~= adjs.subrange(0, i as int));
                assert(adjs.subrange(0, i as int + 1).last() == adjs[i as int]);
            }
            let ghost bones_mid = pSkeleton.bones();
            let ba = self.m_boneAdjustmentAndBoneIdArray[i];
            let boneId = ba.boneId_;
            proof {
                assert(ba@ == adjs[i as int]);
            }
            if ba.boneAdjustment_.flags_ & FlagMeshScale == FlagMeshScale {
                pSkeleton.m_vectorBone[boneId].setMeshScaleAbsolute(
                    &ba.boneAdjustment_.meshScaleAbsolute_,
                );
            }
            if ba.boneAdjustment_.flags_ & FlagPosRot == FlagPosRot {
                // the adjustment keeps the core bone's bind translation
                // and replaces the orientation
                let adjustedLocalPos = *core_model.pCoreSkeleton.m_vectorCoreBone[boneId]
                    .getTranslation();
                proof {
                    assert(bone_wf(bones_mid[boneId as int]));
                    // storing the mesh scale leaves the accumulators alone
                    assert(pSkeleton.bones()[boneId as int] == bones_mid[boneId as int]
                        || pSkeleton.bones()[boneId as int] == (BoneV {
                        mesh_scale_absolute: adjs[i as int].mesh_scale_absolute,
                        ..bones_mid[boneId as int]
                    }));
                    assert(bone_wf(pSkeleton.bones()[boneId as int]));
                    assert(pSkeleton.m_vectorBone@[boneId as int]@
                        == pSkeleton.bones()[boneId as int]);
                }
                pSkeleton.m_vectorBone[boneId].blendState(
                    FP_ONE,
                    &adjustedLocalPos,
                    &ba.boneAdjustment_.localOri_,
                    FP_ONE,
                    true,
                    ba.boneAdjustment_.rampValue_,
                    true,
                );
            }
            proof {
                assert forall|j: int|
                    0 <= j < bones0.len() && j != boneId as int implies #[trigger] pSkeleton.bones()[j]
                    == bones_mid[j] by {
                }
                assert(pSkeleton.bones()[boneId as int] == apply_adjustment(
                    bones_mid,
                    adjs[i as int],
                    cores,
                )[boneId as int]);
                assert(pSkeleton.bones() =~= apply_adjustment(bones_mid, adjs[i as int], cores));
            }
            i = i + 1;
        }
        proof {
            assert(adjs.subrange(0, n as int) =~= adjs);
        }
    }

    /// Drive one tick's pose over the skeleton: clear every bone, reset
    /// to the bind pose, blend the bone adjustments, blend every on
    /// action and lock, blend every cycle at its sample time and lock,
    /// then propagate the absolute transforms for the renderer.
    pub fn updateSkeleton(&self, pSkeleton: &mut CalSkeleton, core_model: &CalCoreModel)
        requires
            self.wf(core_model),
            crate::coremodel::core_model_wf(core_model),
            old(pSkeleton).wf(),
            old(pSkeleton).bones().len() == core_model.pCoreSkeleton@.bones.len(),
            forall|i: int|
                0 <= i < self.adjustments().len() ==> 0 <= (
                #[trigger] self.adjustments()[i]).bone_id < old(pSkeleton).bones().len(),
        ensures
            final(pSkeleton).wf(),
            final(pSkeleton).bones().len() == old(pSkeleton).bones().len(),
            final(pSkeleton).bones() == update_skeleton_spec(
                old(pSkeleton).bones(),
                core_model.pCoreSkeleton@.bones,
                core_anims(core_model),
                self.adjustments(),
                self.actions(),
                self.cycles(),
                self.m_animationTime as int,
                self.m_animationDuration as int,
            ),
    {
        let ghost bones0 = pSkeleton.bones();
        let ghost cores = core_model.pCoreSkeleton@.bones;
        let ghost anims = core_anims(core_model);
        // clear the whole skeleton state
        pSkeleton.clearState();
        // reset every bone to its bind pose
        let ghost cleared = pSkeleton.bones();
        let boneCount = pSkeleton.getBoneCount();
        let mut i: usize = 0;
        while i < boneCount
            invariant
                0 <= i <= boneCount,
                boneCount == pSkeleton.m_vectorBone@.len(),
                boneCount == cleared.len(),
                boneCount == cores.len(),
                cores == core_model.pCoreSkeleton@.bones,
                pSkeleton.wf(),
                forall|j: int| i <= j < boneCount ==> #[trigger] pSkeleton.bones()[j] == cleared[j],
                forall|j: int|
                    0 <= j < i ==> #[trigger] pSkeleton.bones()[j] == (BoneV {
                        translation: cores[j].translation,
                        rotation: cores[j].rotation,
                        ..cleared[j]
                    }),
            decreases boneCount - i,
        {
            let ghost bones_mid = pSkeleton.bones();
            proof {
                assert(pSkeleton.bones()[i as int] == cleared[i as int]);
                assert(pSkeleton.m_vectorBone@[i as int]@ == cleared[i as int]);
            }
            let coreTranslation = *core_model.pCoreSkeleton.m_vectorCoreBone[i].getTranslation();
            let coreRotation = *core_model.pCoreSkeleton.m_vectorCoreBone[i].getRotation();
            pSkeleton.m_vectorBone[i].setCoreTransformStateVariables(
                &coreTranslation,
                &coreRotation,
            );
            proof {
                assert forall|j: int|
                    0 <= j < boneCount && j != i as int implies #[trigger] pSkeleton.bones()[j]
                    == bones_mid[j] by {
                }
                assert(pSkeleton.bones()[i as int] == (BoneV {
                    translation: cores[i as int].translation,
                    rotation: cores[i as int].rotation,
                    ..cleared[i as int]
                }));
            }
            i = i + 1;
        }
        proof {
            assert(pSkeleton.bones() =~= bones_bind_reset(cleared, cores));
        }
        // the bone adjustments go first: highest priority, full influence
        self.applyBoneAdjustments(pSkeleton, core_model);
        // blend every on action into the affected bones
        let ghost adjusted = pSkeleton.bones();
        let ghost actionsSeq = self.actions();
        let actionCount = self.m_listAnimationAction.len();
        let mut k: usize = 0;
        while k < actionCount
            invariant
                0 <= k <= actionCount,
                actionCount == self.m_listAnimationAction@.len(),
                actionCount == actionsSeq.len(),
                actionsSeq == self.actions(),
                anims == core_anims(core_model),
                cores == core_model.pCoreSkeleton@.bones,
                self.wf(core_model),
                crate::coremodel::core_model_wf(core_model),
                pSkeleton.wf(),
                pSkeleton.bones().len() == adjusted.len(),
                adjusted.len() == cores.len(),
                pSkeleton.bones() == apply_actions(
                    adjusted,
                    actionsSeq.subrange(0, k as int),
                    anims,
                ),
            decreases actionCount - k,
        {
            proof {
                assert(actionsSeq.subrange(0, k as int + 1).drop_last() =~= actionsSeq.subrange(
                    0,
                    k as int,
                ));
                assert(actionsSeq.subrange(0, k as int + 1).last() == actionsSeq[k as int]);
                assert(self.m_listAnimationAction@[k as int]@ == actionsSeq[k as int]);
            }
            let ghost aV = actionsSeq[k as int];
            let ghost bones_act = pSkeleton.bones();
            if self.m_listAnimationAction[k].isOn() {
                let animId = self.m_listAnimationAction[k].getCoreAnimationId();
                proof {
                    assert(0 <= aV.core_animation_id < anims.len());
                    assert(core_model.m_vectorCoreAnimation@[animId as int]@ == anims[animId as int]);
                    assert(anim_wf(anims[animId as int]));
                }
                let ghost tracks = anims[animId as int].tracks;
                let trackCount = core_model.m_vectorCoreAnimation[animId].m_listCoreTrack.len();
                let mut t: usize = 0;
                while t < trackCount
                    invariant
                        0 <= t <= trackCount,
                        animId < core_model.m_vectorCoreAnimation@.len(),
                        trackCount == core_model.m_vectorCoreAnimation@[animId as int].m_listCoreTrack@.len(),
                        trackCount == tracks.len(),
                        tracks == core_model.m_vectorCoreAnimation@[animId as int]@.tracks,
                        anims == core_anims(core_model),
                        cores == core_model.pCoreSkeleton@.bones,
                        anims[animId as int].tracks == tracks,
                        0 <= aV.core_animation_id < anims.len(),
                        aV.core_animation_id == animId as int,
                        crate::coremodel::core_model_wf(core_model),
                        action_wf(aV),
                        aV == self.m_listAnimationAction@[k as int]@,
                        k < self.m_listAnimationAction@.len(),
                        pSkeleton.wf(),
                        pSkeleton.bones().len() == cores.len(),
                        bones_act.len() == cores.len(),
                        pSkeleton.bones() == apply_action_tracks(
                            bones_act,
                            tracks.subrange(0, t as int),
                            aV,
                        ),
                    decreases trackCount - t,
                {
                    proof {
                        assert(tracks.subrange(0, t as int + 1).drop_last() =~= tracks.subrange(
                            0,
                            t as int,
                        ));
                        assert(tracks.subrange(0, t as int + 1).last() == tracks[t as int]);
                        assert(core_model.m_vectorCoreAnimation@[animId as int].m_listCoreTrack@[t as int]@
                            == tracks[t as int]);
                        assert(0 <= tracks[t as int].bone_id < cores.len());
                        assert(crate::track::keyframes_sorted(tracks[t as int].keyframes));
                        assert(tracks[t as int].keyframes.len() >= 1);
                    }
                    let ghost bones_tr = pSkeleton.bones();
                    let pTrack = &core_model.m_vectorCoreAnimation[animId].m_listCoreTrack[t];
                    let state = pTrack.getState(self.m_listAnimationAction[k].getTime());
                    let translation = state.0;
                    let rotation = state.1;
                    let compFunc = self.m_listAnimationAction[k].getCompositionFunction();
                    let replace = !matches!(
                        compFunc,
                        CompositionFunction::CompositionFunctionAverage,
                    ) && !matches!(compFunc, CompositionFunction::CompositionFunctionNull);
                    let boneId = pTrack.getCoreBoneId();
                    proof {
                        assert(bone_wf(pSkeleton.bones()[boneId as int]));
                        assert(pSkeleton.m_vectorBone@[boneId as int]@
                            == pSkeleton.bones()[boneId as int]);
                    }
                    pSkeleton.m_vectorBone[boneId].blendState(
                        self.m_listAnimationAction[k].getWeight(),
                        &translation,
                        &rotation,
                        self.m_listAnimationAction[k].getScale(),
                        replace,
                        self.m_listAnimationAction[k].getRampValue(),
                        pTrack.getTranslationRequired(),
                    );
                    proof {
                        assert forall|j: int|
                            0 <= j < cores.len() && j != boneId as int implies
                            #[trigger] pSkeleton.bones()[j] == bones_tr[j] by {
                        }
                        assert(replace == action_replaces(aV));
                        assert((translation@, rotation@) == track_sample(
                            tracks[t as int].keyframes,
                            aV.time,
                        ));
                        assert(pSkeleton.bones()[boneId as int] == apply_track_action(
                            bones_tr,
                            tracks[t as int],
                            aV,
                        )[boneId as int]);
                        assert(pSkeleton.bones() =~= apply_track_action(
                            bones_tr,
                            tracks[t as int],
                            aV,
                        ));
                    }
                    t = t + 1;
                }
                proof {
                    assert(tracks.subrange(0, trackCount as int) =~= tracks);
                    assert(action_on_spec(aV));
                    assert(pSkeleton.bones() =~= apply_action(bones_act, aV, anims));
                }
            } else {
                proof {
                    assert(!action_on_spec(aV));
                    assert(pSkeleton.bones() =~= apply_action(bones_act, aV, anims));
                }
            }
            proof {
                assert(pSkeleton.bones() =~= apply_actions(
                    adjusted,
                    actionsSeq.subrange(0, k as int + 1),
                    anims,
                ));
            }
            k = k + 1;
        }
        proof {
            assert(actionsSeq.subrange(0, actionCount as int) =~= actionsSeq);
        }
        // commit the actions' tier
        pSkeleton.lockState();
        // blend every cycle into the affected bones
        let ghost locked1 = pSkeleton.bones();
        let ghost cyclesSeq = self.cycles();
        let ghost animationTimeG = self.m_animationTime as int;
        let ghost animationDurationG = self.m_animationDuration as int;
        let cycleCount = self.m_listAnimationCycle.len();
        let mut c: usize = 0;
        while c < cycleCount
            invariant
                0 <= c <= cycleCount,
                cycleCount == self.m_listAnimationCycle@.len(),
                cycleCount == cyclesSeq.len(),
                cyclesSeq == self.cycles(),
                anims == core_anims(core_model),
                cores == core_model.pCoreSkeleton@.bones,
                animationTimeG == self.m_animationTime as int,
                animationDurationG == self.m_animationDuration as int,
                self.wf(core_model),
                crate::coremodel::core_model_wf(core_model),
                pSkeleton.wf(),
                pSkeleton.bones().len() == locked1.len(),
                locked1.len() == cores.len(),
                pSkeleton.bones() == apply_cycles(
                    locked1,
                    cyclesSeq.subrange(0, c as int),
                    anims,
                    animationTimeG,
                    animationDurationG,
                ),
            decreases cycleCount - c,
        {
            proof {
                assert(cyclesSeq.subrange(0, c as int + 1).drop_last() =~= cyclesSeq.subrange(
                    0,
                    c as int,
                ));
                assert(cyclesSeq.subrange(0, c as int + 1).last() == cyclesSeq[c as int]);
                assert(self.m_listAnimationCycle@[c as int]@ == cyclesSeq[c as int]);
            }
            let ghost cV = cyclesSeq[c as int];
            let ghost bones_cyc = pSkeleton.bones();
            // a synchronized cycle samples the shared time rescaled into
            // its own duration; an asynchronous one samples its own clock
            let animationTime: i64;
            if matches!(self.m_listAnimationCycle[c].getState(), State::STATE_SYNC) {
                if self.m_animationDuration == 0 {
                    animationTime = 0;
                } else {
                    animationTime = fp_div(
                        fp_mul(self.m_animationTime, self.m_listAnimationCycle[c].m_coreDuration),
                        self.m_animationDuration,
                    );
                }
            } else {
                animationTime = self.m_listAnimationCycle[c].getTime();
            }
            proof {
                assert(animationTime as int == cycle_sample_time(
                    cV,
                    animationTimeG,
                    animationDurationG,
                ));
            }
            let animId = self.m_listAnimationCycle[c].getCoreAnimationId();
            proof {
                assert(0 <= cV.core_animation_id < anims.len());
                assert(core_model.m_vectorCoreAnimation@[animId as int]@ == anims[animId as int]);
                assert(anim_wf(anims[animId as int]));
            }
            let ghost tracks = anims[animId as int].tracks;
            let trackCount = core_model.m_vectorCoreAnimation[animId].m_listCoreTrack.len();
            let mut t: usize = 0;
            while t < trackCount
                invariant
                    0 <= t <= trackCount,
                    animId < core_model.m_vectorCoreAnimation@.len(),
                    trackCount == core_model.m_vectorCoreAnimation@[animId as int].m_listCoreTrack@.len(),
                    trackCount == tracks.len(),
                    tracks == core_model.m_vectorCoreAnimation@[animId as int]@.tracks,
                    anims == core_anims(core_model),
                    cores == core_model.pCoreSkeleton@.bones,
                    anims[animId as int].tracks == tracks,
                    0 <= cV.core_animation_id < anims.len(),
                    cV.core_animation_id == animId as int,
                    crate::coremodel::core_model_wf(core_model),
                    cycle_wf(cV),
                    cV == self.m_listAnimationCycle@[c as int]@,
                    c < self.m_listAnimationCycle@.len(),
                    animationTime as int == cycle_sample_time(
                        cV,
                        animationTimeG,
                        animationDurationG,
                    ),
                    pSkeleton.wf(),
                    pSkeleton.bones().len() == cores.len(),
                    bones_cyc.len() == cores.len(),
                    pSkeleton.bones() == apply_cycle_tracks(
                        bones_cyc,
                        tracks.subrange(0, t as int),
                        cV,
                        animationTime as int,
                    ),
                decreases trackCount - t,
            {
                proof {
                    assert(tracks.subrange(0, t as int + 1).drop_last() =~= tracks.subrange(
                        0,
                        t as int,
                    ));
                    assert(tracks.subrange(0, t as int + 1).last() == tracks[t as int]);
                    assert(core_model.m_vectorCoreAnimation@[animId as int].m_listCoreTrack@[t as int]@
                        == tracks[t as int]);
                    assert(0 <= tracks[t as int].bone_id < cores.len());
                    assert(crate::track::keyframes_sorted(tracks[t as int].keyframes));
                    assert(tracks[t as int].keyframes.len() >= 1);
                }
                let ghost bones_tr = pSkeleton.bones();
                let pTrack = &core_model.m_vectorCoreAnimation[animId].m_listCoreTrack[t];
                let state = pTrack.getState(animationTime);
                let translation = state.0;
                let rotation = state.1;
                let boneId = pTrack.getCoreBoneId();
                proof {
                    assert(bone_wf(pSkeleton.bones()[boneId as int]));
                    assert(pSkeleton.m_vectorBone@[boneId as int]@
                        == pSkeleton.bones()[boneId as int]);
                }
                pSkeleton.m_vectorBone[boneId].blendState(
                    self.m_listAnimationCycle[c].getWeight(),
                    &translation,
                    &rotation,
                    FP_ONE,
                    false,
                    FP_ONE,
                    pTrack.getTranslationRequired(),
                );
                proof {
                    assert forall|j: int|
                        0 <= j < cores.len() && j != boneId as int implies
                        #[trigger] pSkeleton.bones()[j] == bones_tr[j] by {
                    }
                    assert((translation@, rotation@) == track_sample(
                        tracks[t as int].keyframes,
                        animationTime as int,
                    ));
                    assert(pSkeleton.bones()[boneId as int] == apply_track_cycle(
                        bones_tr,
                        tracks[t as int],
                        cV,
                        animationTime as int,
                    )[boneId as int]);
                    assert(pSkeleton.bones() =~= apply_track_cycle(
                        bones_tr,
                        tracks[t as int],
                        cV,
                        animationTime as int,
                    ));
                }
                t = t + 1;
            }
            proof {
                assert(tracks.subrange(0, trackCount as int) =~= tracks);
                assert(pSkeleton.bones() =~= apply_cycle(
                    bones_cyc,
                    cV,
                    anims,
                    animationTimeG,
                    animationDurationG,
                ));
                assert(pSkeleton.bones() =~= apply_cycles(
                    locked1,
                    cyclesSeq.subrange(0, c as int + 1),
                    anims,
                    animationTimeG,
                    animationDurationG,
                ));
            }
            c = c + 1;
        }
        proof {
            assert(cyclesSeq.subrange(0, cycleCount as int) =~= cyclesSeq);
        }
        // commit the cycles' tier
        pSkeleton.lockState();
        // propagate the absolute transforms for the renderer
        pSkeleton.calculateState(core_model.getCoreSkeleton());
        proof {
            assert(pSkeleton.bones() =~= bones_absolute(
                apply_cycles(
                    locked1,
                    cyclesSeq,
                    anims,
                    animationTimeG,
                    animationDurationG,
                ).map_values(|b: BoneV| crate::bone::lock_state_spec(b)),
                cores,
            ));
        }
    }
}

/// The bones with their relative poses reset to the bind pose.
pub open spec fn bones_bind_reset(
    bones: Seq<BoneV>,
    cores: Seq<crate::corebone::CoreBoneV>,
) -> Seq<BoneV> {
    Seq::new(
        bones.len(),
        |i: int| BoneV { translation: cores[i].translation, rotation: cores[i].rotation, ..bones[i] },
    )
}

/// One bone adjustment applied: the mesh scale is stored when flagged,
/// and the position/orientation part blends in as a full-weight
/// "replace" influence over the core bone's bind translation.
pub open spec fn apply_adjustment(
    bones: Seq<BoneV>,
    adj: AdjV,
    cores: Seq<crate::corebone::CoreBoneV>,
) -> Seq<BoneV>
    recommends
        0 <= adj.bone_id < bones.len(),
        bones.len() == cores.len(),
{
    let b0 = bones[adj.bone_id];
    let b1 = if adj.flags & FlagMeshScale == FlagMeshScale {
        BoneV { mesh_scale_absolute: adj.mesh_scale_absolute, ..b0 }
    } else {
        b0
    };
    let b2 = if adj.flags & FlagPosRot == FlagPosRot {
        blend_state_spec(
            b1,
            FP_ONE as int,
            cores[adj.bone_id].translation,
            adj.local_ori,
            FP_ONE as int,
            true,
            adj.ramp_value,
            true,
        )
    } else {
        b1
    };
    bones.update(adj.bone_id, b2)
}

/// All pending adjustments applied in order.
pub open spec fn apply_adjustments(
    bones: Seq<BoneV>,
    adjs: Seq<AdjV>,
    cores: Seq<crate::corebone::CoreBoneV>,
) -> Seq<BoneV>
    decreases adjs.len(),
{
    if adjs.len() == 0 {
        bones
    } else {
        apply_adjustment(apply_adjustments(bones, adjs.drop_last(), cores), adjs.last(), cores)
    }
}

/// Whether an action composes by replacing what is below it.
pub open spec fn action_replaces(a: ActionV) -> bool {
    !(a.composition_function is CompositionFunctionAverage) && !(a.composition_function
        is CompositionFunctionNull)
}

/// One track of an on action blended into its bone: the track sampled at
/// the action's local time, weighted by the action's weight, scale and
/// ramp.
pub open spec fn apply_track_action(
    bones: Seq<BoneV>,
    tr: crate::track::TrackV,
    a: ActionV,
) -> Seq<BoneV>
    recommends
        0 <= tr.bone_id < bones.len(),
{
    let sample = track_sample(tr.keyframes, a.time);
    bones.update(
        tr.bone_id,
        blend_state_spec(
            bones[tr.bone_id],
            a.weight,
            sample.0,
            sample.1,
            a.scale,
            action_replaces(a),
            a.ramp_value,
            tr.translation_required,
        ),
    )
}

/// All tracks of one action, front to back.
pub open spec fn apply_action_tracks(
    bones: Seq<BoneV>,
    tracks: Seq<crate::track::TrackV>,
    a: ActionV,
) -> Seq<BoneV>
    decreases tracks.len(),
{
    if tracks.len() == 0 {
        bones
    } else {
        apply_track_action(apply_action_tracks(bones, tracks.drop_last(), a), tracks.last(), a)
    }
}

/// One action applied: an action that is not on leaves the bones alone.
pub open spec fn apply_action(bones: Seq<BoneV>, a: ActionV, anims: Seq<AnimV>) -> Seq<BoneV>
    recommends
        0 <= a.core_animation_id < anims.len(),
{
    if action_on_spec(a) {
        apply_action_tracks(bones, anims[a.core_animation_id].tracks, a)
    } else {
        bones
    }
}

/// All actions applied in order.
pub open spec fn apply_actions(
    bones: Seq<BoneV>,
    actions: Seq<ActionV>,
    anims: Seq<AnimV>,
) -> Seq<BoneV>
    decreases actions.len(),
{
    if actions.len() == 0 {
        bones
    } else {
        apply_action(apply_actions(bones, actions.drop_last(), anims), actions.last(), anims)
    }
}

/// The time a cycle samples its tracks at: a synchronized cycle rescales
/// the mixer's shared time into its own duration, an asynchronous one
/// runs its own clock.
pub open spec fn cycle_sample_time(c: CycleV, animationTime: int, animationDuration: int) -> int {
    if c.state is STATE_SYNC {
        if animationDuration == 0 {
            0
        } else {
            fp_quot(fp_prod(animationTime, c.core_duration), animationDuration)
        }
    } else {
        c.time
    }
}

/// One track of a cycle blended into its bone: unit scale and ramp, and
/// never a replace influence.
pub open spec fn apply_track_cycle(
    bones: Seq<BoneV>,
    tr: crate::track::TrackV,
    c: CycleV,
    sampleTime: int,
) -> Seq<BoneV>
    recommends
        0 <= tr.bone_id < bones.len(),
{
    let sample = track_sample(tr.keyframes, sampleTime);
    bones.update(
        tr.bone_id,
        blend_state_spec(
            bones[tr.bone_id],
            c.weight,
            sample.0,
            sample.1,
            FP_ONE as int,
            false,
            FP_ONE as int,
            tr.translation_required,
        ),
    )
}

/// All tracks of one cycle, front to back.
pub open spec fn apply_cycle_tracks(
    bones: Seq<BoneV>,
    tracks: Seq<crate::track::TrackV>,
    c: CycleV,
    sampleTime: int,
) -> Seq<BoneV>
    decreases tracks.len(),
{
    if tracks.len() == 0 {
        bones
    } else {
        apply_track_cycle(
            apply_cycle_tracks(bones, tracks.drop_last(), c, sampleTime),
            tracks.last(),
            c,
            sampleTime,
        )
    }
}

/// One cycle applied at its sample time.
pub open spec fn apply_cycle(
    bones: Seq<BoneV>,
    c: CycleV,
    anims: Seq<AnimV>,
    animationTime: int,
    animationDuration: int,
) -> Seq<BoneV>
    recommends
        0 <= c.core_animation_id < anims.len(),
{
    apply_cycle_tracks(
        bones,
        anims[c.core_animation_id].tracks,
        c,
        cycle_sample_time(c, animationTime, animationDuration),
    )
}

/// All cycles applied in order.
pub open spec fn apply_cycles(
    bones: Seq<BoneV>,
    cycles: Seq<CycleV>,
    anims: Seq<AnimV>,
    animationTime: int,
    animationDuration: int,
) -> Seq<BoneV>
    decreases cycles.len(),
{
    if cycles.len() == 0 {
        bones
    } else {
        apply_cycle(
            apply_cycles(bones, cycles.drop_last(), anims, animationTime, animationDuration),
            cycles.last(),
            anims,
            animationTime,
            animationDuration,
        )
    }
}

/// The absolute transforms propagated parent-first over final relative
/// poses.
pub open spec fn bones_absolute(
    bones: Seq<BoneV>,
    cores: Seq<crate::corebone::CoreBoneV>,
) -> Seq<BoneV> {
    Seq::new(
        bones.len(),
        |i: int| BoneV {
            translation_absolute: crate::skeleton::inst_abs(bones, cores, i).0,
            rotation_absolute: crate::skeleton::inst_abs(bones, cores, i).1,
            ..bones[i]
        },
    )
}

/// The whole tick over the bones: clear, reset to the bind pose, blend
/// the bone adjustments (highest priority, replace), blend the on
/// actions and lock, blend the cycles and lock, then propagate the
/// absolute transforms.
pub open spec fn update_skeleton_spec(
    bones0: Seq<BoneV>,
    cores: Seq<crate::corebone::CoreBoneV>,
    anims: Seq<AnimV>,
    adjs: Seq<AdjV>,
    actions: Seq<ActionV>,
    cycles: Seq<CycleV>,
    animationTime: int,
    animationDuration: int,
) -> Seq<BoneV> {
    let cleared = bones0.map_values(|b: BoneV| crate::bone::clear_state_spec(b));
    let reset = bones_bind_reset(cleared, cores);
    let adjusted = apply_adjustments(reset, adjs, cores);
    let acted = apply_actions(adjusted, actions, anims);
    let locked1 = acted.map_values(|b: BoneV| crate::bone::lock_state_spec(b));
    let cycled = apply_cycles(locked1, cycles, anims, animationTime, animationDuration);
    let locked2 = cycled.map_values(|b: BoneV| crate::bone::lock_state_spec(b));
    bones_absolute(locked2, cores)
}

/// What `setAsync` leaves of a synchronized cycle handed the shared
/// clock and duration.
pub open spec fn cycle_made_async(c: CycleV, time: int, duration: int) -> CycleV {
    if c.state is STATE_ASYNC {
        c
    } else if duration == 0 {
        CycleV { state: State::STATE_ASYNC, time_factor: FP_ONE as int, time: 0, ..c }
    } else {
        CycleV {
            state: State::STATE_ASYNC,
            time_factor: fp_quot(c.core_duration, duration),
            time: fp_quot(fp_prod(time, c.core_duration), duration),
            ..c
        }
    }
}

} // verus!
