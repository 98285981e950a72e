//! A core bone: one node of the shared bind-pose hierarchy. Bones are
//! addressed by index into the core skeleton's bone vector; a parent id
//! of `-1` marks a root, and a valid parent always has a smaller index
//! than its child (bones arrive parent-first from the loader).

use vstd::prelude::*;

use crate::bounding::{plane_eval, plane_position_d, BoundingBox, PlaneV};
use crate::scalar::FP_ONE;
use crate::vector::{quat_apply, quat_dot, quat_inverse, CalQuaternion, CalVector, Quat4i, Vec3i};

verus! {

/// Light sources a bone may carry in the asset format.
pub enum CalLightType {
    LIGHT_TYPE_NONE,
    LIGHT_TYPE_OMNI,
    LIGHT_TYPE_DIRECTIONAL,
    LIGHT_TYPE_TARGET,
    LIGHT_TYPE_AMBIENT,
}

/// The mathematical value of a core bone.
pub struct CoreBoneV {
    pub name: Seq<char>,
    pub parent_id: int,
    pub child_ids: Seq<int>,
    pub translation: Vec3i,
    pub rotation: Quat4i,
    pub translation_absolute: Vec3i,
    pub rotation_absolute: Quat4i,
    pub translation_bone_space: Vec3i,
    pub rotation_bone_space: Quat4i,
    pub bounding_box: Seq<PlaneV>,
    pub bounding_positions: Seq<Vec3i>,
    pub bounding_box_precomputed: bool,
}

/// One bone of the shared bind-pose hierarchy.
pub struct CalCoreBone {
    pub m_strName: String,
    pub m_parentId: i32,
    pub m_listChildId: Vec<i32>,
    pub m_translation: CalVector,
    pub m_rotation: CalQuaternion,
    pub m_translationAbsolute: CalVector,
    pub m_rotationAbsolute: CalQuaternion,
    pub m_translationBoneSpace: CalVector,
    pub m_rotationBoneSpace: CalQuaternion,
    pub m_boundingBox: BoundingBox,
    pub m_boundingPosition: Vec<CalVector>,
    pub m_boundingBoxPrecomputed: bool,
}

impl View for CalCoreBone {
    type V = CoreBoneV;

    open spec fn view(&self) -> CoreBoneV {
        CoreBoneV {
            name: self.m_strName@,
            parent_id: self.m_parentId as int,
            child_ids: self.m_listChildId@.map_values(|c: i32| c as int),
            translation: self.m_translation@,
            rotation: self.m_rotation@,
            translation_absolute: self.m_translationAbsolute@,
            rotation_absolute: self.m_rotationAbsolute@,
            translation_bone_space: self.m_translationBoneSpace@,
            rotation_bone_space: self.m_rotationBoneSpace@,
            bounding_box: self.m_boundingBox@,
            bounding_positions: self.m_boundingPosition@.map_values(|v: CalVector| v@),
            bounding_box_precomputed: self.m_boundingBoxPrecomputed,
        }
    }
}

/// The bounding state always holds six planes and six carried
/// positions.
pub open spec fn bounding_wf(b: CoreBoneV) -> bool {
    &&& b.bounding_box.len() == 6
    &&& b.bounding_positions.len() == 6
}

/// The outward axis of bounding plane `i`: the unit axes, one positive
/// and one negative per coordinate.
pub open spec fn box_axis(i: int) -> Vec3i {
    if i == 0 {
        Vec3i { x: FP_ONE as int, y: 0, z: 0 }
    } else if i == 1 {
        Vec3i { x: -(FP_ONE as int), y: 0, z: 0 }
    } else if i == 2 {
        Vec3i { x: 0, y: FP_ONE as int, z: 0 }
    } else if i == 3 {
        Vec3i { x: 0, y: -(FP_ONE as int), z: 0 }
    } else if i == 4 {
        Vec3i { x: 0, y: 0, z: FP_ONE as int }
    } else {
        Vec3i { x: 0, y: 0, z: -(FP_ONE as int) }
    }
}

/// The first `n` planes of a box folded over a position: each plane
/// the position falls behind moves out to pass through it; the flag
/// says whether any plane moved.
pub open spec fn box_folded(planes: Seq<PlaneV>, pos: Vec3i, n: int) -> (Seq<PlaneV>, bool)
    decreases n,
{
    if n <= 0 {
        (planes, false)
    } else {
        let prev = box_folded(planes, pos, n - 1);
        let p = planes[n - 1];
        if plane_eval(p, pos) < 0 {
            (prev.0.update(n - 1, PlaneV { d: plane_position_d(p, pos), ..p }), true)
        } else {
            prev
        }
    }
}

/// The carried positions after the same fold: each moved plane
/// remembers the position that moved it.
pub open spec fn box_folded_positions(
    planes: Seq<PlaneV>,
    positions: Seq<Vec3i>,
    pos: Vec3i,
    n: int,
) -> Seq<Vec3i>
    decreases n,
{
    if n <= 0 {
        positions
    } else {
        let prev = box_folded_positions(planes, positions, pos, n - 1);
        if plane_eval(planes[n - 1], pos) < 0 {
            prev.update(n - 1, pos)
        } else {
            prev
        }
    }
}

/// The fold touches only the planes it has reached.
proof fn lemma_box_folded_untouched(planes: Seq<PlaneV>, pos: Vec3i, n: int, i: int)
    requires
        0 <= n <= i < planes.len(),
    ensures
        box_folded(planes, pos, n).0.len() == planes.len(),
        box_folded(planes, pos, n).0[i] == planes[i],
    decreases n,
{
    if n > 0 {
        lemma_box_folded_untouched(planes, pos, n - 1, i);
    }
}

impl CalCoreBone {
    pub fn new(
        m_strName: String,
        m_parentId: i32,
        m_translation: CalVector,
        m_rotation: CalQuaternion,
        m_translationBoneSpace: CalVector,
        m_rotationBoneSpace: CalQuaternion,
    ) -> (r: CalCoreBone)
        ensures
            r@.name == m_strName@,
            r@.parent_id == m_parentId as int,
            r@.child_ids == Seq::<int>::empty(),
            r@.translation == m_translation@,
            r@.rotation == m_rotation@,
            r@.translation_bone_space == m_translationBoneSpace@,
            r@.rotation_bone_space == m_rotationBoneSpace@,
            r@.bounding_box_precomputed == false,
            bounding_wf(r@),
    {
        let mut boundingPosition: Vec<CalVector> = Vec::new();
        let mut i: usize = 0;
        while i < 6
            invariant
                0 <= i <= 6,
                boundingPosition@.len() == i,
            decreases 6 - i,
        {
            boundingPosition.push(CalVector::new(0, 0, 0));
            i = i + 1;
        }
        let r = CalCoreBone {
            m_strName,
            m_parentId,
            m_listChildId: Vec::new(),
            m_translation,
            m_rotation,
            m_translationAbsolute: CalVector::new(0, 0, 0),
            m_rotationAbsolute: CalQuaternion::identity(),
            m_translationBoneSpace,
            m_rotationBoneSpace,
            m_boundingBox: BoundingBox::default(),
            m_boundingPosition: boundingPosition,
            m_boundingBoxPrecomputed: false,
        };
        proof {
            assert(r@.child_ids =~= Seq::<int>::empty());
        }
        r
    }

    pub fn getName(&self) -> (r: &str)
        ensures
            r@ == self@.name,
    {
        self.m_strName.as_str()
    }

    pub fn getParentId(&self) -> (r: i32)
        ensures
            r as int == self@.parent_id,
    {
        self.m_parentId
    }

    pub fn addChildId(&mut self, childId: i32)
        ensures
            final(self)@ == (CoreBoneV {
                child_ids: old(self)@.child_ids.push(childId as int),
                ..old(self)@
            }),
    {
        self.m_listChildId.push(childId);
        proof {
            assert(self@.child_ids =~= old(self)@.child_ids.push(childId as int));
        }
    }

    pub fn getTranslation(&self) -> (r: &CalVector)
        ensures
            r@ == self@.translation,
    {
        &self.m_translation
    }

    pub fn getRotation(&self) -> (r: &CalQuaternion)
        ensures
            r@ == self@.rotation,
    {
        &self.m_rotation
    }

    pub fn getTranslationAbsolute(&self) -> (r: &CalVector)
        ensures
            r@ == self@.translation_absolute,
    {
        &self.m_translationAbsolute
    }

    pub fn isBoundingBoxPrecomputed(&self) -> (r: bool)
        ensures
            r == self@.bounding_box_precomputed,
    {
        self.m_boundingBoxPrecomputed
    }

    pub fn setBoundingBoxPrecomputed(&mut self, inComputed: bool)
        ensures
            final(self)@ == (CoreBoneV {
                bounding_box_precomputed: inComputed,
                ..old(self)@
            }),
    {
        self.m_boundingBoxPrecomputed = inComputed;
    }

    /// Start the bounding box empty: each of the six planes points
    /// along one bone-space axis (the bone-space rotation undone) and
    /// sits at the far sentinel offset, so the first position folded in
    /// tightens it.
    pub fn initBoundingBox(&mut self)
        requires
            bounding_wf(old(self)@),
            quat_dot(old(self)@.rotation_bone_space, old(self)@.rotation_bone_space) != 0,
        ensures
            bounding_wf(final(self)@),
            final(self)@ == (CoreBoneV { bounding_box: final(self)@.bounding_box, ..old(self)@ }),
            forall|i: int|
                0 <= i < 6 ==> #[trigger] final(self)@.bounding_box[i] == (PlaneV {
                    a: quat_apply(
                        quat_inverse(old(self)@.rotation_bone_space),
                        box_axis(i),
                    ).x,
                    b: quat_apply(
                        quat_inverse(old(self)@.rotation_bone_space),
                        box_axis(i),
                    ).y,
                    c: quat_apply(
                        quat_inverse(old(self)@.rotation_bone_space),
                        box_axis(i),
                    ).z,
                    d: i64::MIN as int,
                }),
    {
        let rot = self.m_rotationBoneSpace.invert();
        let dir = rot.rotate(&CalVector::new(FP_ONE, 0, 0));
        self.m_boundingBox.plane[0].setNormal(&dir);
        let dir = rot.rotate(&CalVector::new(-FP_ONE, 0, 0));
        self.m_boundingBox.plane[1].setNormal(&dir);
        let dir = rot.rotate(&CalVector::new(0, FP_ONE, 0));
        self.m_boundingBox.plane[2].setNormal(&dir);
        let dir = rot.rotate(&CalVector::new(0, -FP_ONE, 0));
        self.m_boundingBox.plane[3].setNormal(&dir);
        let dir = rot.rotate(&CalVector::new(0, 0, FP_ONE));
        self.m_boundingBox.plane[4].setNormal(&dir);
        let dir = rot.rotate(&CalVector::new(0, 0, -FP_ONE));
        self.m_boundingBox.plane[5].setNormal(&dir);
    }

    /// Widen the bounding box to include a position: every plane the
    /// position falls behind moves out to pass through it, and the
    /// position is remembered for that plane. Returns whether any plane
    /// moved.
    pub fn updateBoundingBox(&mut self, position: &CalVector) -> (r: bool)
        requires
            bounding_wf(old(self)@),
        ensures
            bounding_wf(final(self)@),
            final(self)@ == (CoreBoneV {
                bounding_box: box_folded(old(self)@.bounding_box, position@, 6).0,
                bounding_positions: box_folded_positions(
                    old(self)@.bounding_box,
                    old(self)@.bounding_positions,
                    position@,
                    6,
                ),
                ..old(self)@
            }),
            r == box_folded(old(self)@.bounding_box, position@, 6).1,
    {
        let mut bBoundsComputed = false;
        let ghost planes0 = self@.bounding_box;
        let ghost positions0 = self@.bounding_positions;
        let ghost others = *self;
        let mut planeId: usize = 0;
        while planeId < 6
            invariant
                0 <= planeId <= 6,
                bounding_wf(self@),
                self@.bounding_box.len() == 6,
                self.m_boundingBox.plane@.len() == 6,
                self.m_boundingPosition@.len() == 6,
                planes0.len() == 6,
                positions0.len() == 6,
                self@ == (CoreBoneV {
                    bounding_box: box_folded(planes0, position@, planeId as int).0,
                    bounding_positions: box_folded_positions(
                        planes0,
                        positions0,
                        position@,
                        planeId as int,
                    ),
                    ..others@
                }),
                others@.bounding_box == planes0,
                others@.bounding_positions == positions0,
                bBoundsComputed == box_folded(planes0, position@, planeId as int).1,
            decreases 6 - planeId,
        {
            proof {
                lemma_box_folded_untouched(planes0, position@, planeId as int, planeId as int);
                assert(self@.bounding_box[planeId as int] == planes0[planeId as int]);
            }
            if self.m_boundingBox.plane[planeId].Eval(position) < 0 {
                self.m_boundingBox.plane[planeId].SetPosition(position);
                self.m_boundingPosition[planeId] = *position;
                bBoundsComputed = true;
            }
            proof {
                assert(self@.bounding_box =~= box_folded(
                    planes0,
                    position@,
                    planeId as int + 1,
                ).0);
                assert(self@.bounding_positions =~= box_folded_positions(
                    planes0,
                    positions0,
                    position@,
                    planeId as int + 1,
                ));
                assert(self@ == (CoreBoneV {
                    bounding_box: box_folded(planes0, position@, planeId as int + 1).0,
                    bounding_positions: box_folded_positions(
                        planes0,
                        positions0,
                        position@,
                        planeId as int + 1,
                    ),
                    ..others@
                }));
            }
            planeId = planeId + 1;
        }
        bBoundsComputed
    }

    pub fn getRotationAbsolute(&self) -> (r: &CalQuaternion)
        ensures
            r@ == self@.rotation_absolute,
    {
        &self.m_rotationAbsolute
    }
}

} // verus!
