//! A model instance: one skeleton and one mixer over a shared core
//! model, ticked once per simulation step.

use vstd::prelude::*;

use crate::animation::{ActionV, CycleV};
use crate::coremodel::{core_model_wf, CalCoreModel};
use crate::mixer::{core_anims, update_skeleton_spec, BoneAdjustment, CalMixer};
use crate::mixer::CalMixerBoneAdjustmentsMax;
use crate::mixer::{actions_after, cycles_after, mixer_time_after};
use crate::mixer::{sync_duration_sum, sync_weight_sum};
use crate::scalar::fp_quot;
use crate::skeleton::CalSkeleton;

verus! {

/// One animated character: its shared core data, its bone instances,
/// and the scheduler that drives them.
pub struct CalModel {
    pub m_pCoreModel: CalCoreModel,
    pub m_pSkeleton: CalSkeleton,
    pub m_pMixer: CalMixer,
}

impl CalModel {
    /// Everything lines up: the core model is well-formed, the mixer
    /// belongs to it, the skeleton has one bone per core bone, and every
    /// pending adjustment addresses a real bone.
    pub open spec fn wf(&self) -> bool {
        &&& core_model_wf(&self.m_pCoreModel)
        &&& self.m_pMixer.wf(&self.m_pCoreModel)
        &&& self.m_pSkeleton.wf()
        &&& self.m_pSkeleton.bones().len() == self.m_pCoreModel.pCoreSkeleton@.bones.len()
        &&& forall|i: int|
            0 <= i < self.m_pMixer.adjustments().len() ==> 0 <= (
            #[trigger] self.m_pMixer.adjustments()[i]).bone_id < self.m_pSkeleton.bones().len()
    }

    /// Build a model instance over a core model: a fresh skeleton and an
    /// idle mixer.
    pub fn new(core_model: CalCoreModel) -> (r: CalModel)
        requires
            core_model_wf(&core_model),
        ensures
            r.wf(),
            r.m_pCoreModel == core_model,
            r.m_pMixer.cycles() == Seq::<CycleV>::empty(),
            r.m_pMixer.actions() == Seq::<ActionV>::empty(),
            r.m_pMixer.m_animationTime == 0,
            r.m_pMixer.m_animationDuration == 0,
            forall|id: int|
                0 <= id < r.m_pMixer.m_vectorAnimation@.len()
                    ==> #[trigger] r.m_pMixer.m_vectorAnimation@[id] is Empty,
    {
        let skeleton = CalSkeleton::new(core_model.getCoreSkeleton());
        let mixer = CalMixer::new(&core_model);
        CalModel { m_pCoreModel: core_model, m_pSkeleton: skeleton, m_pMixer: mixer }
    }

    pub fn getCoreModel(&self) -> (r: &CalCoreModel)
        ensures
            r == &self.m_pCoreModel,
    {
        &self.m_pCoreModel
    }

    pub fn getSkeleton(&self) -> (r: &CalSkeleton)
        ensures
            r == &self.m_pSkeleton,
    {
        &self.m_pSkeleton
    }

    pub fn getMixer(&self) -> (r: &CalMixer)
        ensures
            r == &self.m_pMixer,
    {
        &self.m_pMixer
    }

    /// The mixer, mutably: a host that reaches in this way is on its
    /// own to keep the mixer consistent with the core model.
    pub fn getMixerMut(&mut self) -> (r: &mut CalMixer)
        ensures
            *r == old(self).m_pMixer,
            *final(self) == (CalModel { m_pMixer: *final(r), ..*old(self) }),
    {
        &mut self.m_pMixer
    }

    /// Fade the cycle for core animation `id` toward `weight` over
    /// `delay` seconds (see `CalMixer::blendCycle`).
    pub fn blendCycle(&mut self, id: usize, weight: i64, delay: i64) -> (r: bool)
        requires
            old(self).wf(),
            old(self).m_pMixer.m_nextInstanceId < 0xFFFF_FFFF_FFFF_FFFF,
            weight >= 0,
            delay >= 0,
        ensures
            final(self).wf(),
            final(self).m_pSkeleton == old(self).m_pSkeleton,
            final(self).m_pMixer.m_nextInstanceId as int <= old(
                self,
            ).m_pMixer.m_nextInstanceId as int + 1,
    {
        let r = self.m_pMixer.blendCycle(&mut self.m_pCoreModel, id, weight, delay);
        proof {
            lemma_seam_patch_keeps_model_wf(old(self), self, id as int);
        }
        r
    }

    /// Fade the cycle for core animation `id` out over `delay` seconds
    /// (see `CalMixer::clearCycle`).
    pub fn clearCycle(&mut self, id: usize, delay: i64) -> (r: bool)
        requires
            old(self).wf(),
            delay >= 0,
        ensures
            final(self).wf(),
            final(self).m_pSkeleton == old(self).m_pSkeleton,
            final(self).m_pCoreModel == old(self).m_pCoreModel,
    {
        self.m_pMixer.clearCycle(&self.m_pCoreModel, id, delay)
    }

    /// Start a one-shot action on core animation `id` (see
    /// `CalMixer::executeAction`).
    pub fn executeAction(
        &mut self,
        id: usize,
        delayIn: i64,
        delayOut: i64,
        weightTarget: i64,
        autoLock: bool,
    ) -> (r: bool)
        requires
            old(self).wf(),
            delayIn >= 0,
            delayOut >= 0,
            weightTarget >= 0,
        ensures
            final(self).wf(),
            final(self).m_pSkeleton == old(self).m_pSkeleton,
            final(self).m_pCoreModel == old(self).m_pCoreModel,
    {
        self.m_pMixer.executeAction(
            &self.m_pCoreModel,
            id,
            delayIn,
            delayOut,
            weightTarget,
            autoLock,
        )
    }

    /// Queue a direct pose override for one bone of the skeleton; at
    /// most `CalMixerBoneAdjustmentsMax` can be pending, and a full
    /// table reports false.
    pub fn addBoneAdjustment(&mut self, boneId: usize, ba: BoneAdjustment) -> (r: bool)
        requires
            old(self).wf(),
            boneId < old(self).m_pSkeleton.bones().len(),
            0 <= ba.rampValue_ <= crate::scalar::FP_ONE,
        ensures
            final(self).wf(),
            r == (old(self).m_pMixer.adjustments().len() < CalMixerBoneAdjustmentsMax as int),
            final(self).m_pSkeleton == old(self).m_pSkeleton,
            final(self).m_pCoreModel == old(self).m_pCoreModel,
    {
        let r = self.m_pMixer.addBoneAdjustment(boneId, ba);
        proof {
            if r {
                let pre = old(self).m_pMixer.adjustments();
                let post = self.m_pMixer.adjustments();
                assert(self.m_pMixer.cycles() == old(self).m_pMixer.cycles());
                assert(self.m_pMixer.actions() == old(self).m_pMixer.actions());
                assert(self.m_pMixer.cycle_ids() == old(self).m_pMixer.cycle_ids());
                assert(self.m_pMixer.m_vectorAnimation == old(self).m_pMixer.m_vectorAnimation);
                assert(post.len() == pre.len() + 1);
                assert forall|i: int| 0 <= i < post.len() implies 0 <= (
                #[trigger] post[i]).bone_id < self.m_pSkeleton.bones().len() && 0 <= (
                post[i]).ramp_value <= crate::scalar::FP_ONE as int by {
                    if i < pre.len() {
                        assert(post[i] == pre[i]);
                    } else {
                        assert(post[i] == post.last());
                    }
                }
            }
        }
        r
    }

    /// One simulation tick: advance every animation by `deltaTime`
    /// seconds, then rebuild the skeleton's pose from the active
    /// animations.
    pub fn update(&mut self, deltaTime: i64)
        requires
            old(self).wf(),
            deltaTime >= 0,
        ensures
            final(self).wf(),
            final(self).m_pCoreModel == old(self).m_pCoreModel,
            final(self).m_pMixer.m_animationTime as int == mixer_time_after(
                old(self).m_pMixer.m_animationTime as int,
                old(self).m_pMixer.m_animationDuration as int,
                deltaTime as int,
                old(self).m_pMixer.m_timeFactor as int,
            ),
            final(self).m_pMixer.actions() == actions_after(
                old(self).m_pMixer.actions(),
                deltaTime as int,
            ),
            final(self).m_pMixer.cycles() == cycles_after(
                old(self).m_pMixer.cycles(),
                deltaTime as int,
            ),
            final(self).m_pMixer.m_animationDuration as int == (
            if sync_weight_sum(cycles_after(old(self).m_pMixer.cycles(), deltaTime as int)) > 0 {
                fp_quot(
                    sync_duration_sum(
                        cycles_after(old(self).m_pMixer.cycles(), deltaTime as int),
                    ),
                    sync_weight_sum(cycles_after(old(self).m_pMixer.cycles(), deltaTime as int)),
                )
            } else {
                0
            }),
            final(self).m_pSkeleton.bones() == update_skeleton_spec(
                old(self).m_pSkeleton.bones(),
                old(self).m_pCoreModel.pCoreSkeleton@.bones,
                core_anims(&old(self).m_pCoreModel),
                final(self).m_pMixer.adjustments(),
                final(self).m_pMixer.actions(),
                final(self).m_pMixer.cycles(),
                final(self).m_pMixer.m_animationTime as int,
                final(self).m_pMixer.m_animationDuration as int,
            ),
    {
        self.m_pMixer.updateAnimation(deltaTime, &self.m_pCoreModel);
        self.m_pMixer.updateSkeleton(&mut self.m_pSkeleton, &self.m_pCoreModel);
    }
}

/// A seam patch in `blendCycle` touches one animation's tracks only, and
/// keeps the model's loader contract.
proof fn lemma_seam_patch_keeps_model_wf(pre: &CalModel, post: &CalModel, id: int)
    requires
        core_model_wf(&pre.m_pCoreModel),
        pre.m_pSkeleton.wf(),
        pre.m_pSkeleton.bones().len() == pre.m_pCoreModel.pCoreSkeleton@.bones.len(),
        post.m_pSkeleton == pre.m_pSkeleton,
        crate::coremodel::core_anims_wf(&post.m_pCoreModel),
        post.m_pCoreModel.pCoreSkeleton == pre.m_pCoreModel.pCoreSkeleton,
        post.m_pCoreModel.m_vectorCoreAnimation@.len()
            == pre.m_pCoreModel.m_vectorCoreAnimation@.len(),
        forall|i: int|
            0 <= i < pre.m_pCoreModel.m_vectorCoreAnimation@.len() && i != id ==> (
            #[trigger] post.m_pCoreModel.m_vectorCoreAnimation@[i])
                == pre.m_pCoreModel.m_vectorCoreAnimation@[i],
        0 <= id < pre.m_pCoreModel.m_vectorCoreAnimation@.len() ==> (
        post.m_pCoreModel.m_vectorCoreAnimation@[id]@
            == pre.m_pCoreModel.m_vectorCoreAnimation@[id]@ || post.m_pCoreModel.m_vectorCoreAnimation@[id]@
            == crate::coreanimation::seam_patch(pre.m_pCoreModel.m_vectorCoreAnimation@[id]@)),
        forall|i: int|
            0 <= i < pre.m_pMixer.adjustments().len() ==> 0 <= (
            #[trigger] pre.m_pMixer.adjustments()[i]).bone_id < pre.m_pSkeleton.bones().len(),
        post.m_pMixer.adjustments() == pre.m_pMixer.adjustments(),
    ensures
        core_model_wf(&post.m_pCoreModel),
        forall|i: int|
            0 <= i < post.m_pMixer.adjustments().len() ==> 0 <= (
            #[trigger] post.m_pMixer.adjustments()[i]).bone_id < post.m_pSkeleton.bones().len(),
{
    let pre_anims = pre.m_pCoreModel.m_vectorCoreAnimation@;
    let post_anims = post.m_pCoreModel.m_vectorCoreAnimation@;
    assert forall|i: int, j: int|
        0 <= i < post_anims.len() && 0 <= j < post_anims[i]@.tracks.len() implies 0 <= (
    #[trigger] post_anims[i]@.tracks[j]).bone_id
        < post.m_pCoreModel.pCoreSkeleton@.bones.len() by {
        if i != id {
            assert(post_anims[i] == pre_anims[i]);
            assert(0 <= (pre_anims[i]@.tracks[j]).bone_id
                < pre.m_pCoreModel.pCoreSkeleton@.bones.len());
        } else {
            let a = pre_anims[id]@;
            let p = post_anims[id]@;
            if p == a {
                assert(0 <= (a.tracks[j]).bone_id < pre.m_pCoreModel.pCoreSkeleton@.bones.len());
            } else {
                crate::coreanimation::lemma_seam_patch_track_ids(a);
                assert(p.tracks[j].bone_id == a.tracks[j].bone_id);
                assert(0 <= (a.tracks[j]).bone_id < pre.m_pCoreModel.pCoreSkeleton@.bones.len());
            }
        }
    }
}

} // verus!
