//! The core skeleton: the ordered bone vector (index = bone id), the
//! name-to-id map, the root bone list, and the bind-pose absolute
//! transforms propagated parent-first down the hierarchy.

use vstd::prelude::*;

use crate::corebone::{CalCoreBone, CoreBoneV};
use crate::coremodel::CoreError;
use crate::vector::{quat_apply, quat_compose, vec_plus, Quat4i, Vec3i};

verus! {

/// Every non-root bone's parent stands earlier in the bone vector: the
/// hierarchy is a forest with bones in parent-first order.
pub open spec fn hierarchy_wf(bones: Seq<CoreBoneV>) -> bool {
    forall|i: int|
        0 <= i < bones.len() ==> (#[trigger] bones[i]).parent_id == -1 || 0 <= bones[i].parent_id
            < i
}

/// The absolute bind-pose transform of bone `i`: its relative transform
/// composed onto its parent's absolute transform, roots standing on
/// their own.
pub open spec fn core_abs(bones: Seq<CoreBoneV>, i: int) -> (Vec3i, Quat4i)
    recommends
        0 <= i < bones.len(),
        hierarchy_wf(bones),
    decreases i,
{
    let b = bones[i];
    if b.parent_id < 0 || b.parent_id >= i {
        (b.translation, b.rotation)
    } else {
        let parent = core_abs(bones, b.parent_id);
        (vec_plus(quat_apply(parent.1, b.translation), parent.0),
            quat_compose(b.rotation, parent.1))
    }
}

/// The name-to-id map a sequence of mappings denotes: later entries win.
pub open spec fn names_view(s: Seq<(String, i32)>) -> Map<Seq<char>, int>
    decreases s.len(),
{
    if s.len() == 0 {
        Map::empty()
    } else {
        names_view(s.drop_last()).insert(s.last().0@, s.last().1 as int)
    }
}

/// The mathematical value of a core skeleton.
pub struct CoreSkelV {
    pub bones: Seq<CoreBoneV>,
    pub names: Map<Seq<char>, int>,
    pub roots: Seq<int>,
}

/// The shared bind-pose hierarchy of one model.
pub struct CalCoreSkeleton {
    pub m_vectorCoreBone: Vec<CalCoreBone>,
    pub m_mapCoreBoneNames: Vec<(String, i32)>,
    pub m_vectorRootCoreBoneId: Vec<i32>,
}

impl View for CalCoreSkeleton {
    type V = CoreSkelV;

    open spec fn view(&self) -> CoreSkelV {
        CoreSkelV {
            bones: self.m_vectorCoreBone@.map_values(|b: CalCoreBone| b@),
            names: names_view(self.m_mapCoreBoneNames@),
            roots: self.m_vectorRootCoreBoneId@.map_values(|r: i32| r as int),
        }
    }
}

impl CalCoreSkeleton {
    /// Bones stand parent-first; every root id names a root bone.
    pub open spec fn wf(&self) -> bool {
        &&& hierarchy_wf(self@.bones)
        &&& forall|k: int|
            0 <= k < self@.roots.len() ==> 0 <= #[trigger] self@.roots[k] < self@.bones.len()
                && self@.bones[self@.roots[k]].parent_id == -1
    }

    pub fn new() -> (r: CalCoreSkeleton)
        ensures
            r.wf(),
            r@.bones == Seq::<CoreBoneV>::empty(),
            r@.names == Map::<Seq<char>, int>::empty(),
            r@.roots == Seq::<int>::empty(),
    {
        let r = CalCoreSkeleton {
            m_vectorCoreBone: Vec::new(),
            m_mapCoreBoneNames: Vec::new(),
            m_vectorRootCoreBoneId: Vec::new(),
        };
        proof {
            assert(r@.bones =~= Seq::<CoreBoneV>::empty());
            assert(r@.roots =~= Seq::<int>::empty());
        }
        r
    }

    pub fn getCoreBone(&self, coreBoneId: usize) -> (r: Option<&CalCoreBone>)
        ensures
            coreBoneId < self@.bones.len() ==> r is Some && r->0@ == self@.bones[coreBoneId as int],
            coreBoneId >= self@.bones.len() ==> r is None,
    {
        if coreBoneId < self.m_vectorCoreBone.len() {
            Some(&self.m_vectorCoreBone[coreBoneId])
        } else {
            None
        }
    }

    pub fn getVectorCoreBone(&self) -> (r: &Vec<CalCoreBone>)
        ensures
            r@.map_values(|b: CalCoreBone| b@) == self@.bones,
    {
        &self.m_vectorCoreBone
    }

    pub fn getVectorRootCoreBoneId(&self) -> (r: &Vec<i32>)
        ensures
            r@.map_values(|x: i32| x as int) == self@.roots,
    {
        &self.m_vectorRootCoreBoneId
    }

    /// Add a bone at the next id. The bone's parent must already be in
    /// the skeleton (or the bone is a root): the loader hands bones over
    /// parent-first.
    pub fn addCoreBone(&mut self, bone: CalCoreBone) -> (r: i32)
        requires
            old(self).wf(),
            old(self)@.bones.len() < 0x7FFF_FFFF,
            bone@.parent_id == -1 || 0 <= bone@.parent_id < old(self)@.bones.len(),
        ensures
            self_after_add(old(self)@, bone@, final(self)@),
            final(self).wf(),
            r as int == old(self)@.bones.len(),
    {
        let boneId = self.m_vectorCoreBone.len() as i32;
        // register roots by id
        if bone.getParentId() == -1 {
            self.m_vectorRootCoreBoneId.push(boneId);
        }
        let ghost name = bone@.name;
        let name_string = bone.m_strName.clone();
        self.m_vectorCoreBone.push(bone);
        self.m_mapCoreBoneNames.push((name_string, boneId));
        proof {
            assert(self@.bones =~= old(self)@.bones.push(self@.bones.last()));
            assert(self.m_mapCoreBoneNames@.drop_last() =~= old(self).m_mapCoreBoneNames@);
            assert(self@.names =~= old(self)@.names.insert(name, boneId as int));
            if self@.bones.last().parent_id == -1 {
                assert(self@.roots =~= old(self)@.roots.push(boneId as int));
            } else {
                assert(self@.roots =~= old(self)@.roots);
            }
        }
        boneId
    }

    /// Associate a bone name with a bone id, overwriting any earlier
    /// association; an id outside the bone vector is rejected.
    pub fn mapCoreBoneName(&mut self, coreBoneId: i32, strName: &str) -> (r: Result<(), CoreError>)
        ensures
            r is Ok <==> 0 <= coreBoneId as int && (coreBoneId as int) < old(self)@.bones.len(),
            r is Ok ==> final(self)@ == (CoreSkelV {
                names: old(self)@.names.insert(strName@, coreBoneId as int),
                ..old(self)@
            }),
            r is Err ==> *final(self) == *old(self),
    {
        if coreBoneId < 0 || coreBoneId as usize >= self.m_vectorCoreBone.len() {
            return Err(CoreError::OtherError("bone id outside the skeleton".to_owned()));
        }
        self.m_mapCoreBoneNames.push((strName.to_owned(), coreBoneId));
        proof {
            assert(self.m_mapCoreBoneNames@.drop_last() =~= old(self).m_mapCoreBoneNames@);
            assert(self@.names =~= old(self)@.names.insert(strName@, coreBoneId as int));
            assert(self@.bones =~= old(self)@.bones);
            assert(self@.roots =~= old(self)@.roots);
        }
        Ok(())
    }

    /// Propagate the bind-pose absolute transforms parent-first through
    /// the whole bone vector.
    pub fn calculateState(&mut self)
        requires
            old(self).wf(),
        ensures
            final(self).wf(),
            final(self)@.names == old(self)@.names,
            final(self)@.roots == old(self)@.roots,
            final(self)@.bones.len() == old(self)@.bones.len(),
            forall|i: int|
                0 <= i < old(self)@.bones.len() ==> #[trigger] final(self)@.bones[i]
                    == (CoreBoneV {
                    translation_absolute: core_abs(old(self)@.bones, i).0,
                    rotation_absolute: core_abs(old(self)@.bones, i).1,
                    ..old(self)@.bones[i]
                }),
    {
        let ghost orig = self@.bones;
        let n = self.m_vectorCoreBone.len();
        let mut i: usize = 0;
        while i < n
            invariant
                0 <= i <= n,
                n == self.m_vectorCoreBone@.len(),
                n == orig.len(),
                hierarchy_wf(orig),
                self@.names == old(self)@.names,
                self@.roots == old(self)@.roots,
                forall|j: int|
                    i <= j < n ==> #[trigger] self@.bones[j] == orig[j],
                forall|j: int|
                    0 <= j < i ==> #[trigger] self@.bones[j] == (CoreBoneV {
                        translation_absolute: core_abs(orig, j).0,
                        rotation_absolute: core_abs(orig, j).1,
                        ..orig[j]
                    }),
            decreases n - i,
        {
            let ghost bones_before = self@.bones;
            let parentId = self.m_vectorCoreBone[i].m_parentId;
            if parentId == -1 {
                // a root: the absolute state is the relative state
                let t = self.m_vectorCoreBone[i].m_translation;
                let q = self.m_vectorCoreBone[i].m_rotation;
                self.m_vectorCoreBone[i].m_translationAbsolute = t;
                self.m_vectorCoreBone[i].m_rotationAbsolute = q;
                proof {
                    assert(bones_before[i as int] == orig[i as int]);
                    assert(orig[i as int].parent_id == parentId as int);
                    assert(core_abs(orig, i as int) == (
                        orig[i as int].translation,
                        orig[i as int].rotation,
                    ));
                    assert(self@.bones[i as int].translation_absolute
                        == orig[i as int].translation);
                    assert(self@.bones[i as int].rotation_absolute == orig[i as int].rotation);
                }
            } else {
                proof {
                    assert(self@.bones[i as int] == orig[i as int]);
                    assert(0 <= orig[i as int].parent_id < i as int);
                }
                let p = parentId as usize;
                let parentRot = self.m_vectorCoreBone[p].m_rotationAbsolute;
                let parentTrans = self.m_vectorCoreBone[p].m_translationAbsolute;
                let t = self.m_vectorCoreBone[i].m_translation;
                let q = self.m_vectorCoreBone[i].m_rotation;
                let absTrans = parentRot.rotate(&t).plus(&parentTrans);
                let absRot = q.quat_times(&parentRot);
                self.m_vectorCoreBone[i].m_translationAbsolute = absTrans;
                self.m_vectorCoreBone[i].m_rotationAbsolute = absRot;
                proof {
                    let ii = i as int;
                    let pp = p as int;
                    assert(bones_before[pp] == (CoreBoneV {
                        translation_absolute: core_abs(orig, pp).0,
                        rotation_absolute: core_abs(orig, pp).1,
                        ..orig[pp]
                    }));
                    assert(parentRot@ == core_abs(orig, pp).1);
                    assert(parentTrans@ == core_abs(orig, pp).0);
                    assert(core_abs(orig, ii) == (
                        vec_plus(quat_apply(core_abs(orig, pp).1, orig[ii].translation),
                            core_abs(orig, pp).0),
                        quat_compose(orig[ii].rotation, core_abs(orig, pp).1),
                    ));
                }
            }
            proof {
                assert forall|j: int| 0 <= j < n && j != i as int implies #[trigger] self@.bones[j]
                    == bones_before[j] by {
                }
                assert(self@.bones[i as int] == (CoreBoneV {
                    translation_absolute: core_abs(orig, i as int).0,
                    rotation_absolute: core_abs(orig, i as int).1,
                    ..orig[i as int]
                }));
            }
            i = i + 1;
        }
    }
}

/// What `addCoreBone` does: the bone goes to the end of the vector, its
/// name maps to its id, and a root registers its id in the root list.
pub open spec fn self_after_add(old: CoreSkelV, bone: CoreBoneV, new: CoreSkelV) -> bool {
    &&& new.bones == old.bones.push(bone)
    &&& new.names == old.names.insert(bone.name, old.bones.len() as int)
    &&& new.roots == if bone.parent_id == -1 {
        old.roots.push(old.bones.len() as int)
    } else {
        old.roots
    }
}

} // verus!
