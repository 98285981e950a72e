//! A single keyframe of a core track: a time stamp with the pose
//! (translation and rotation) the track reaches at that time.

use vstd::prelude::*;

use crate::vector::{CalQuaternion, CalVector, Quat4i, Vec3i};

verus! {

/// The mathematical value of a keyframe.
pub struct KeyV {
    pub time: int,
    pub translation: Vec3i,
    pub rotation: Quat4i,
}

/// A keyframe: a time in seconds (fixed-point) and the pose at that time.
#[derive(Clone, Copy, Debug)]
pub struct CalCoreKeyframe {
    pub m_time: i64,
    pub m_translation: CalVector,
    pub m_rotation: CalQuaternion,
}

impl View for CalCoreKeyframe {
    type V = KeyV;

    open spec fn view(&self) -> KeyV {
        KeyV { time: self.m_time as int, translation: self.m_translation@, rotation: self.m_rotation@ }
    }
}

impl CalCoreKeyframe {
    pub fn new(time: i64, translation: CalVector, rotation: CalQuaternion) -> (r: CalCoreKeyframe)
        ensures
            r@.time == time as int,
            r@.translation == translation@,
            r@.rotation == rotation@,
    {
        CalCoreKeyframe { m_time: time, m_translation: translation, m_rotation: rotation }
    }

    pub fn getTime(&self) -> (r: i64)
        ensures
            r as int == self@.time,
    {
        self.m_time
    }

    pub fn getTranslation(&self) -> (r: &CalVector)
        ensures
            r@ == self@.translation,
    {
        &self.m_translation
    }

    pub fn setTranslation(&mut self, val: &CalVector)
        ensures
            final(self)@.translation == val@,
            final(self)@.time == old(self)@.time,
            final(self)@.rotation == old(self)@.rotation,
    {
        self.m_translation = *val;
    }

    pub fn getRotation(&self) -> (r: &CalQuaternion)
        ensures
            r@ == self@.rotation,
    {
        &self.m_rotation
    }

    pub fn setRotation(&mut self, val: &CalQuaternion)
        ensures
            final(self)@.rotation == val@,
            final(self)@.time == old(self)@.time,
            final(self)@.translation == old(self)@.translation,
    {
        self.m_rotation = *val;
    }
}

} // verus!
