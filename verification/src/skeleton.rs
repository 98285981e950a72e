//! The skeleton instance: one mutable bone per core bone, driven each
//! tick through clear, blend, lock and calculate-state phases.

use vstd::prelude::*;

use crate::bone::{bone_wf, clear_state_spec, lock_state_spec, BoneV, CalBone};
use crate::corebone::CoreBoneV;
use crate::coreskeleton::CalCoreSkeleton;
use crate::vector::{quat_apply, quat_compose, vec_plus, Quat4i, Vec3i};

verus! {

/// The absolute transform of instance bone `i`: its current relative
/// transform composed onto its parent's absolute transform, with the
/// parent relation taken from the core skeleton.
pub open spec fn inst_abs(bones: Seq<BoneV>, cores: Seq<CoreBoneV>, i: int) -> (Vec3i, Quat4i)
    recommends
        0 <= i < bones.len(),
        bones.len() == cores.len(),
        crate::coreskeleton::hierarchy_wf(cores),
    decreases i,
{
    let b = bones[i];
    let parent_id = cores[i].parent_id;
    if parent_id < 0 || parent_id >= i {
        (b.translation, b.rotation)
    } else {
        let parent = inst_abs(bones, cores, parent_id);
        (vec_plus(quat_apply(parent.1, b.translation), parent.0),
            quat_compose(b.rotation, parent.1))
    }
}

/// A skeleton instance: the per-tick mutable bones of one model.
pub struct CalSkeleton {
    pub m_vectorBone: Vec<CalBone>,
    pub m_isBoundingBoxesComputed: bool,
}

impl CalSkeleton {
    /// The bones as their mathematical values.
    pub open spec fn bones(&self) -> Seq<BoneV> {
        self.m_vectorBone@.map_values(|b: CalBone| b@)
    }

    /// Every bone's accumulators are in range and bone `i` belongs to
    /// core bone `i`.
    pub open spec fn wf(&self) -> bool {
        forall|i: int|
            0 <= i < self.bones().len() ==> bone_wf(#[trigger] self.bones()[i])
                && self.bones()[i].core_bone_id == i
    }

    /// Build one bone per core bone, index-aligned with the core
    /// skeleton's bone vector.
    pub fn new(coreSkeleton: &CalCoreSkeleton) -> (r: CalSkeleton)
        ensures
            r.wf(),
            r.bones().len() == coreSkeleton@.bones.len(),
    {
        let n = coreSkeleton.getVectorCoreBone().len();
        let mut vectorBone: Vec<CalBone> = Vec::new();
        let mut i: usize = 0;
        while i < n
            invariant
                0 <= i <= n,
                vectorBone@.len() == i,
                forall|j: int|
                    0 <= j < i ==> bone_wf(
                        (#[trigger] vectorBone@[j])@,
                    ) && vectorBone@[j]@.core_bone_id == j,
            decreases n - i,
        {
            vectorBone.push(CalBone::new(i));
            i = i + 1;
        }
        CalSkeleton { m_vectorBone: vectorBone, m_isBoundingBoxesComputed: false }
    }

    pub fn getVectorBone(&self) -> (r: &Vec<CalBone>)
        ensures
            r@.map_values(|b: CalBone| b@) == self.bones(),
    {
        &self.m_vectorBone
    }

    pub fn getBoneCount(&self) -> (r: usize)
        ensures
            r as int == self.bones().len(),
    {
        self.m_vectorBone.len()
    }

    /// Reset every bone's accumulators for a new tick.
    pub fn clearState(&mut self)
        requires
            old(self).wf(),
        ensures
            final(self).wf(),
            final(self).bones() == old(self).bones().map_values(
                |b: BoneV| clear_state_spec(b),
            ),
    {
        self.m_isBoundingBoxesComputed = false;
        proof {
            assert(self.m_vectorBone == old(self).m_vectorBone);
            assert(self.bones() =~= old(self).bones());
        }
        let n = self.m_vectorBone.len();
        let ghost orig = self.bones();
        let mut i: usize = 0;
        while i < n
            invariant
                0 <= i <= n,
                n == self.m_vectorBone@.len(),
                n == orig.len(),
                forall|j: int| i <= j < n ==> #[trigger] self.bones()[j] == orig[j],
                forall|j: int|
                    0 <= j < i ==> #[trigger] self.bones()[j] == clear_state_spec(orig[j]),
                old(self).wf(),
                forall|j: int| 0 <= j < n ==> bone_wf(#[trigger] orig[j]) && orig[j].core_bone_id
                    == j,
                forall|j: int| 0 <= j < i ==> bone_wf(#[trigger] self.bones()[j]),
            decreases n - i,
        {
            let ghost bones_before = self.bones();
            proof {
                assert(self.bones()[i as int] == orig[i as int]);
                assert(self.m_vectorBone@[i as int]@ == orig[i as int]);
            }
            self.m_vectorBone[i].clearState();
            proof {
                assert(self.m_vectorBone@[i as int]@ == clear_state_spec(orig[i as int]));
                assert(self.bones()[i as int] == self.m_vectorBone@[i as int]@);
                assert forall|j: int| 0 <= j < n && j != i as int implies #[trigger] self.bones()[j]
                    == bones_before[j] by {
                }
                assert(self.bones()[i as int] == clear_state_spec(orig[i as int]));
            }
            i = i + 1;
        }
        proof {
            let cleared = orig.map_values(|b: BoneV| clear_state_spec(b));
            assert forall|j: int| 0 <= j < n implies self.bones()[j] == cleared[j] by {
                assert(self.bones()[j] == clear_state_spec(orig[j]));
                assert(cleared[j] == clear_state_spec(orig[j]));
            }
            assert(self.bones() =~= cleared);
        }
    }

    /// Commit the current unlock pass on every bone.
    pub fn lockState(&mut self)
        requires
            old(self).wf(),
        ensures
            final(self).wf(),
            final(self).bones() == old(self).bones().map_values(|b: BoneV| lock_state_spec(b)),
    {
        let n = self.m_vectorBone.len();
        let ghost orig = self.bones();
        let mut i: usize = 0;
        while i < n
            invariant
                0 <= i <= n,
                n == self.m_vectorBone@.len(),
                n == orig.len(),
                forall|j: int| i <= j < n ==> #[trigger] self.bones()[j] == orig[j],
                forall|j: int|
                    0 <= j < i ==> #[trigger] self.bones()[j] == lock_state_spec(orig[j]),
                forall|j: int| 0 <= j < n ==> bone_wf(#[trigger] orig[j]) && orig[j].core_bone_id
                    == j,
                forall|j: int| 0 <= j < i ==> bone_wf(#[trigger] self.bones()[j]),
            decreases n - i,
        {
            let ghost bones_before = self.bones();
            proof {
                assert(self.bones()[i as int] == orig[i as int]);
                assert(self.m_vectorBone@[i as int]@ == orig[i as int]);
            }
            self.m_vectorBone[i].lockState();
            proof {
                assert(self.m_vectorBone@[i as int]@ == lock_state_spec(orig[i as int]));
                assert(self.bones()[i as int] == self.m_vectorBone@[i as int]@);
                assert forall|j: int| 0 <= j < n && j != i as int implies #[trigger] self.bones()[j]
                    == bones_before[j] by {
                }
                assert(self.bones()[i as int] == lock_state_spec(orig[i as int]));
            }
            i = i + 1;
        }
        proof {
            let locked = orig.map_values(|b: BoneV| lock_state_spec(b));
            assert forall|j: int| 0 <= j < n implies self.bones()[j] == locked[j] by {
                assert(locked[j] == lock_state_spec(orig[j]));
            }
            assert(self.bones() =~= locked);
        }
    }

    /// Propagate the absolute transforms parent-first down the whole
    /// bone vector, for the renderer and physique layers.
    pub fn calculateState(&mut self, coreSkeleton: &CalCoreSkeleton)
        requires
            old(self).wf(),
            coreSkeleton.wf(),
            old(self).bones().len() == coreSkeleton@.bones.len(),
        ensures
            final(self).wf(),
            final(self).bones().len() == old(self).bones().len(),
            forall|i: int|
                0 <= i < old(self).bones().len() ==> #[trigger] final(self).bones()[i] == (BoneV {
                    translation_absolute: inst_abs(
                        old(self).bones(),
                        coreSkeleton@.bones,
                        i,
                    ).0,
                    rotation_absolute: inst_abs(old(self).bones(), coreSkeleton@.bones, i).1,
                    ..old(self).bones()[i]
                }),
    {
        self.m_isBoundingBoxesComputed = false;
        let ghost orig = self.bones();
        let ghost cores = coreSkeleton@.bones;
        let n = self.m_vectorBone.len();
        let mut i: usize = 0;
        while i < n
            invariant
                0 <= i <= n,
                n == self.m_vectorBone@.len(),
                n == orig.len(),
                n == cores.len(),
                crate::coreskeleton::hierarchy_wf(cores),
                n == coreSkeleton@.bones.len(),
                cores == coreSkeleton@.bones,
                forall|j: int| i <= j < n ==> #[trigger] self.bones()[j] == orig[j],
                forall|j: int|
                    0 <= j < i ==> #[trigger] self.bones()[j] == (BoneV {
                        translation_absolute: inst_abs(orig, cores, j).0,
                        rotation_absolute: inst_abs(orig, cores, j).1,
                        ..orig[j]
                    }),
                forall|j: int| 0 <= j < n ==> bone_wf(#[trigger] orig[j]) && orig[j].core_bone_id
                    == j,
                forall|j: int| 0 <= j < i ==> bone_wf(#[trigger] self.bones()[j]),
            decreases n - i,
        {
            let ghost bones_before = self.bones();
            let parentId = coreSkeleton.m_vectorCoreBone[i].m_parentId;
            if parentId == -1 {
                let t = self.m_vectorBone[i].m_translation;
                let q = self.m_vectorBone[i].m_rotation;
                self.m_vectorBone[i].m_translationAbsolute = t;
                self.m_vectorBone[i].m_rotationAbsolute = q;
                proof {
                    assert(cores[i as int].parent_id == parentId as int);
                    assert(bones_before[i as int] == orig[i as int]);
                    assert(inst_abs(orig, cores, i as int) == (
                        orig[i as int].translation,
                        orig[i as int].rotation,
                    ));
                }
            } else {
                proof {
                    assert(cores[i as int].parent_id == parentId as int);
                    assert(0 <= cores[i as int].parent_id < i as int);
                }
                let p = parentId as usize;
                let parentRot = self.m_vectorBone[p].m_rotationAbsolute;
                let parentTrans = self.m_vectorBone[p].m_translationAbsolute;
                let t = self.m_vectorBone[i].m_translation;
                let q = self.m_vectorBone[i].m_rotation;
                let absTrans = parentRot.rotate(&t).plus(&parentTrans);
                let absRot = q.quat_times(&parentRot);
                self.m_vectorBone[i].m_translationAbsolute = absTrans;
                self.m_vectorBone[i].m_rotationAbsolute = absRot;
                proof {
                    let ii = i as int;
                    let pp = p as int;
                    assert(bones_before[ii] == orig[ii]);
                    assert(bones_before[pp] == (BoneV {
                        translation_absolute: inst_abs(orig, cores, pp).0,
                        rotation_absolute: inst_abs(orig, cores, pp).1,
                        ..orig[pp]
                    }));
                    assert(parentRot@ == inst_abs(orig, cores, pp).1);
                    assert(parentTrans@ == inst_abs(orig, cores, pp).0);
                    assert(inst_abs(orig, cores, ii) == (
                        vec_plus(
                            quat_apply(inst_abs(orig, cores, pp).1, orig[ii].translation),
                            inst_abs(orig, cores, pp).0,
                        ),
                        quat_compose(orig[ii].rotation, inst_abs(orig, cores, pp).1),
                    ));
                }
            }
            proof {
                assert forall|j: int| 0 <= j < n && j != i as int implies #[trigger] self.bones()[j]
                    == bones_before[j] by {
                }
                assert(self.bones()[i as int] == (BoneV {
                    translation_absolute: inst_abs(orig, cores, i as int).0,
                    rotation_absolute: inst_abs(orig, cores, i as int).1,
                    ..orig[i as int]
                }));
            }
            i = i + 1;
        }
        proof {
            assert forall|k: int| 0 <= k < n implies bone_wf(#[trigger] self.bones()[k])
                && self.bones()[k].core_bone_id == k by {
                assert(self.bones()[k] == (BoneV {
                    translation_absolute: inst_abs(orig, cores, k).0,
                    rotation_absolute: inst_abs(orig, cores, k).1,
                    ..orig[k]
                }));
                assert(bone_wf(orig[k]));
            }
        }
    }
}

} // verus!
