//! A core track: the time-ordered keyframe sequence of one bone, with
//! binary-search sampling and interpolation between the bracketing pair.

use vstd::prelude::*;

use crate::keyframe::{CalCoreKeyframe, KeyV};
use crate::scalar::{fp_diff, fp_quot, FP_ONE};
use crate::scalar::{fp_div, fp_sub};
use crate::vector::{quat_in_range, quat_mix, vec_in_range, vec_lerp};
use crate::vector::{CalQuaternion, CalVector, Quat4i, Vec3i};

verus! {

/// Keyframe times never decrease along the sequence.
pub open spec fn keyframes_sorted(s: Seq<KeyV>) -> bool {
    forall|i: int, j: int| 0 <= i < j < s.len() ==> #[trigger] s[i].time <= #[trigger] s[j].time
}

/// Where the bubble pass of `addCoreKeyframe` leaves a new keyframe: it
/// walks in from the back past every strictly later keyframe.
pub open spec fn kf_insert(s: Seq<KeyV>, k: KeyV) -> Seq<KeyV>
    decreases s.len(),
{
    if s.len() == 0 {
        seq![k]
    } else if k.time < s.last().time {
        kf_insert(s.drop_last(), k).push(s.last())
    } else {
        s.push(k)
    }
}

/// The index of the first keyframe strictly after time `t`, or the length
/// when no keyframe is after `t`.
pub open spec fn kf_upper(s: Seq<KeyV>, t: int) -> int
    decreases s.len(),
{
    if s.len() == 0 {
        0
    } else if s[0].time > t {
        0
    } else {
        1 + kf_upper(s.subrange(1, s.len() as int), t)
    }
}

/// The pose a track yields at time `t`: clamped to the first keyframe
/// before the track begins and to the last after it ends, interpolated
/// between the bracketing pair otherwise, with blend fraction
/// `(t - t_before) / (t_after - t_before)`.
pub open spec fn track_sample(s: Seq<KeyV>, t: int) -> (Vec3i, Quat4i)
    recommends
        s.len() > 0,
{
    let u = kf_upper(s, t);
    if u == s.len() {
        (s.last().translation, s.last().rotation)
    } else if u == 0 {
        (s[0].translation, s[0].rotation)
    } else {
        let before = s[u - 1];
        let after = s[u];
        let f = fp_quot(fp_diff(t, before.time), fp_diff(after.time, before.time));
        (vec_lerp(before.translation, f, after.translation),
            quat_mix(before.rotation, f, after.rotation))
    }
}

/// The mathematical value of a track.
pub struct TrackV {
    pub bone_id: int,
    pub translation_required: bool,
    pub keyframes: Seq<KeyV>,
}

/// A time-sorted keyframe track for one bone of the skeleton.
pub struct CalCoreTrack {
    pub m_coreBoneId: usize,
    pub m_translationRequired: bool,
    pub m_highRangeRequired: bool,
    pub m_translationIsDynamic: bool,
    pub m_keyframes: Vec<CalCoreKeyframe>,
}

impl View for CalCoreTrack {
    type V = TrackV;

    open spec fn view(&self) -> TrackV {
        TrackV {
            bone_id: self.m_coreBoneId as int,
            translation_required: self.m_translationRequired,
            keyframes: self.m_keyframes@.map_values(|kf: CalCoreKeyframe| kf@),
        }
    }
}

impl CalCoreTrack {
    /// The well-formedness the loader establishes: keyframes sorted by time.
    pub open spec fn wf(&self) -> bool {
        keyframes_sorted(self@.keyframes)
    }

    pub fn new(
        m_coreBoneId: usize,
        m_translationRequired: bool,
        m_highRangeRequired: bool,
        m_translationIsDynamic: bool,
        m_keyframes: Vec<CalCoreKeyframe>,
    ) -> (r: CalCoreTrack)
        requires
            keyframes_sorted(m_keyframes@.map_values(|kf: CalCoreKeyframe| kf@)),
        ensures
            r.wf(),
            r@.keyframes == m_keyframes@.map_values(|kf: CalCoreKeyframe| kf@),
            r@.bone_id == m_coreBoneId as int,
            r@.translation_required == m_translationRequired,
    {
        CalCoreTrack {
            m_coreBoneId,
            m_translationRequired,
            m_highRangeRequired,
            m_translationIsDynamic,
            m_keyframes,
        }
    }

    pub fn getCoreBoneId(&self) -> (r: usize)
        ensures
            r as int == self@.bone_id,
    {
        self.m_coreBoneId
    }

    pub fn getTranslationRequired(&self) -> (r: bool)
        ensures
            r == self@.translation_required,
    {
        self.m_translationRequired
    }

    pub fn getCoreKeyframeCount(&self) -> (r: usize)
        ensures
            r as int == self@.keyframes.len(),
    {
        self.m_keyframes.len()
    }

    pub fn getCoreKeyframe(&self, idx: usize) -> (r: Option<&CalCoreKeyframe>)
        ensures
            idx < self@.keyframes.len() ==> r is Some && r->0@ == self@.keyframes[idx as int],
            idx >= self@.keyframes.len() ==> r is None,
    {
        if idx < self.m_keyframes.len() {
            Some(&self.m_keyframes[idx])
        } else {
            None
        }
    }

    /// The first keyframe with a time strictly after the requested time,
    /// by binary search.
    fn getUpperBound(&self, time: i64) -> (r: usize)
        requires
            self.wf(),
        ensures
            r as int == kf_upper(self@.keyframes, time as int),
    {
        let ghost s = self@.keyframes;
        let mut lowerBound: usize = 0;
        let mut upperBound: usize = self.m_keyframes.len();
        while lowerBound < upperBound
            invariant
                lowerBound <= upperBound <= s.len(),
                self.wf(),
                self@.keyframes == s,
                self.m_keyframes@.len() == s.len(),
                forall|i: int| 0 <= i < lowerBound ==> #[trigger] s[i].time <= time as int,
                forall|i: int| upperBound <= i < s.len() ==> #[trigger] s[i].time > time as int,
            decreases upperBound - lowerBound,
        {
            let middle = lowerBound + (upperBound - lowerBound) / 2;
            if self.m_keyframes[middle].getTime() <= time {
                assert forall|i: int| 0 <= i < middle + 1 implies
                    #[trigger] s[i].time <= time as int by {
                    assert(s[i].time <= s[middle as int].time);
                }
                lowerBound = middle + 1;
            } else {
                assert forall|i: int| middle <= i < s.len() implies
                    #[trigger] s[i].time > time as int by {
                    assert(s[middle as int].time <= s[i].time);
                }
                upperBound = middle;
            }
        }
        proof {
            lemma_kf_upper_bracket(s, time as int, lowerBound as int);
        }
        lowerBound
    }

    /// The pose of the track at the given time: the first keyframe's pose
    /// before the track begins, the last keyframe's after it ends, and
    /// the interpolation of the bracketing pair otherwise.
    pub fn getState(&self, time: i64) -> (r: (CalVector, CalQuaternion))
        requires
            self.wf(),
            self@.keyframes.len() >= 1,
        ensures
            (r.0@, r.1@) == track_sample(self@.keyframes, time as int),
    {
        proof {
            lemma_kf_upper_props(self@.keyframes, time as int);
        }
        let iteratorCoreKeyframeAfter = self.getUpperBound(time);
        if iteratorCoreKeyframeAfter == self.m_keyframes.len() {
            // the time is at or after the last keyframe: clamp to it
            let kf = &self.m_keyframes[self.m_keyframes.len() - 1];
            (*kf.getTranslation(), *kf.getRotation())
        } else if iteratorCoreKeyframeAfter == 0 {
            // the time is before the first keyframe: clamp to it
            let kf = &self.m_keyframes[0];
            (*kf.getTranslation(), *kf.getRotation())
        } else {
            let pCoreKeyframeBefore = &self.m_keyframes[iteratorCoreKeyframeAfter - 1];
            let pCoreKeyframeAfter = &self.m_keyframes[iteratorCoreKeyframeAfter];
            proof {
                let u = iteratorCoreKeyframeAfter as int;
                assert(self@.keyframes[u - 1].time <= time as int);
                assert(self@.keyframes[u].time > time as int);
                assert(fp_diff(self@.keyframes[u].time, self@.keyframes[u - 1].time) >= 1);
            }
            let blendFactor = fp_div(
                fp_sub(time, pCoreKeyframeBefore.getTime()),
                fp_sub(pCoreKeyframeAfter.getTime(), pCoreKeyframeBefore.getTime()),
            );
            let mut translation = *pCoreKeyframeBefore.getTranslation();
            translation.blend(blendFactor, pCoreKeyframeAfter.getTranslation());
            let mut rotation = *pCoreKeyframeBefore.getRotation();
            rotation.blend(blendFactor, pCoreKeyframeAfter.getRotation());
            (translation, rotation)
        }
    }

    /// Insert a keyframe, keeping the sequence sorted by time: the new
    /// keyframe settles behind every keyframe with a later time and after
    /// those with the same or an earlier time.
    pub fn addCoreKeyframe(&mut self, pCoreKeyframe: CalCoreKeyframe) -> (r: bool)
        ensures
            r == true,
            final(self)@.keyframes == kf_insert(old(self)@.keyframes, pCoreKeyframe@),
            final(self)@.bone_id == old(self)@.bone_id,
            final(self)@.translation_required == old(self)@.translation_required,
    {
        let t = pCoreKeyframe.getTime();
        let ghost s = self@.keyframes;
        let mut p: usize = self.m_keyframes.len();
        while p > 0 && self.m_keyframes[p - 1].getTime() > t
            invariant
                p <= self.m_keyframes.len(),
                self@.keyframes == s,
                self.m_keyframes@.len() == s.len(),
                t as int == pCoreKeyframe@.time,
                forall|j: int| p <= j < s.len() ==> #[trigger] s[j].time > t as int,
            decreases p,
        {
            p = p - 1;
        }
        proof {
            lemma_kf_insert_position(s, pCoreKeyframe@, p as int);
        }
        self.m_keyframes.insert(p, pCoreKeyframe);
        proof {
            assert(self@.keyframes =~= s.subrange(0, p as int).push(pCoreKeyframe@)
                + s.subrange(p as int, s.len() as int));
        }
        true
    }
}

/// The bubble pass drops a keyframe exactly at the boundary index `p`:
/// everything from `p` on is strictly later, the element before `p` (if
/// any) is not later.
proof fn lemma_kf_insert_position(s: Seq<KeyV>, k: KeyV, p: int)
    requires
        0 <= p <= s.len(),
        forall|j: int| p <= j < s.len() ==> #[trigger] s[j].time > k.time,
        p > 0 ==> s[p - 1].time <= k.time,
    ensures
        kf_insert(s, k) == s.subrange(0, p).push(k) + s.subrange(p, s.len() as int),
    decreases s.len(),
{
    if p == s.len() {
        if s.len() == 0 {
            assert(kf_insert(s, k) =~= s.subrange(0, p).push(k) + s.subrange(p, s.len() as int));
        } else {
            assert(!(k.time < s.last().time));
            assert(kf_insert(s, k) == s.push(k));
            assert(s.push(k) =~= s.subrange(0, p).push(k) + s.subrange(p, s.len() as int));
        }
    } else {
        assert(s.len() > 0);
        assert(s[s.len() - 1].time > k.time);
        assert(kf_insert(s, k) == kf_insert(s.drop_last(), k).push(s.last()));
        lemma_kf_insert_position(s.drop_last(), k, p);
        assert(kf_insert(s.drop_last(), k)
            == s.drop_last().subrange(0, p).push(k)
                + s.drop_last().subrange(p, s.len() - 1));
        assert(s.drop_last().subrange(0, p) =~= s.subrange(0, p));
        assert(kf_insert(s, k) =~= s.subrange(0, p).push(k) + s.subrange(p, s.len() as int));
    }
}

/// Inserting adds exactly one keyframe.
pub proof fn lemma_kf_insert_len(s: Seq<KeyV>, k: KeyV)
    ensures
        kf_insert(s, k).len() == s.len() + 1,
    decreases s.len(),
{
    if s.len() == 0 {
    } else if k.time < s.last().time {
        lemma_kf_insert_len(s.drop_last(), k);
    }
}

/// Inserting keeps the track sorted.
pub proof fn lemma_kf_insert_sorted(s: Seq<KeyV>, k: KeyV)
    requires
        keyframes_sorted(s),
    ensures
        keyframes_sorted(kf_insert(s, k)),
    decreases s.len(),
{
    if s.len() == 0 {
    } else if k.time < s.last().time {
        assert(keyframes_sorted(s.drop_last())) by {
            assert(forall|i: int, j: int| 0 <= i < j < s.len() - 1 ==>
                #[trigger] s.drop_last()[i].time <= #[trigger] s.drop_last()[j].time);
        }
        lemma_kf_insert_sorted(s.drop_last(), k);
        lemma_kf_insert_members(s.drop_last(), k);
        let r = kf_insert(s.drop_last(), k).push(s.last());
        assert forall|i: int, j: int| 0 <= i < j < r.len() implies
            #[trigger] r[i].time <= #[trigger] r[j].time by {
            if j < r.len() - 1 {
            } else {
                assert(r[j] == s.last());
            }
        }
    } else {
        let r = s.push(k);
        assert forall|i: int, j: int| 0 <= i < j < r.len() implies
            #[trigger] r[i].time <= #[trigger] r[j].time by {
            if j < r.len() - 1 {
            } else {
                if i < s.len() - 1 {
                    assert(s[i].time <= s[s.len() - 1].time);
                }
            }
        }
    }
}

/// Every keyframe of an inserted track is a keyframe of the old track
/// or the new keyframe itself.
pub proof fn lemma_kf_insert_members(s: Seq<KeyV>, k: KeyV)
    ensures
        forall|i: int| 0 <= i < kf_insert(s, k).len() ==>
            #[trigger] kf_insert(s, k)[i] == k || exists|j: int|
                0 <= j < s.len() && kf_insert(s, k)[i] == #[trigger] s[j],
    decreases s.len(),
{
    if s.len() == 0 {
    } else if k.time < s.last().time {
        lemma_kf_insert_members(s.drop_last(), k);
        let r = kf_insert(s, k);
        assert forall|i: int| 0 <= i < r.len() implies
            #[trigger] r[i] == k || exists|j: int| 0 <= j < s.len() && r[i] == #[trigger] s[j] by {
            if i < r.len() - 1 {
                assert(r[i] == kf_insert(s.drop_last(), k)[i]);
                if r[i] != k {
                    let j = choose|j: int|
                        0 <= j < s.drop_last().len() && kf_insert(s.drop_last(), k)[i]
                            == #[trigger] s.drop_last()[j];
                    assert(r[i] == s[j]);
                }
            } else {
                assert(r[i] == s[s.len() - 1]);
            }
        }
    } else {
        let r = s.push(k);
        assert forall|i: int| 0 <= i < r.len() implies
            #[trigger] r[i] == k || exists|j: int| 0 <= j < s.len() && r[i] == #[trigger] s[j] by {
            if i < s.len() {
                assert(r[i] == s[i]);
            }
        }
    }
}

/// `kf_upper` splits the track: every keyframe before it is at or before
/// `t`, and the keyframe at it (when there is one) is strictly after `t`.
pub proof fn lemma_kf_upper_props(s: Seq<KeyV>, t: int)
    ensures
        0 <= kf_upper(s, t) <= s.len(),
        forall|i: int| 0 <= i < kf_upper(s, t) ==> #[trigger] s[i].time <= t,
        kf_upper(s, t) < s.len() ==> s[kf_upper(s, t)].time > t,
    decreases s.len(),
{
    if s.len() == 0 {
    } else if s[0].time > t {
    } else {
        let rest = s.subrange(1, s.len() as int);
        lemma_kf_upper_props(rest, t);
        assert forall|i: int| 0 <= i < kf_upper(s, t) implies #[trigger] s[i].time <= t by {
            if i > 0 {
                assert(rest[i - 1].time <= t);
            }
        }
    }
}

/// Any index splitting the track the same way is `kf_upper`.
proof fn lemma_kf_upper_bracket(s: Seq<KeyV>, t: int, u: int)
    requires
        0 <= u <= s.len(),
        forall|i: int| 0 <= i < u ==> #[trigger] s[i].time <= t,
        forall|i: int| u <= i < s.len() ==> #[trigger] s[i].time > t,
    ensures
        kf_upper(s, t) == u,
{
    lemma_kf_upper_props(s, t);
    let k = kf_upper(s, t);
    if k < u {
        assert(s[k].time <= t);
        assert(s[k].time > t);
    }
    if k > u {
        assert(s[u].time <= t);
        assert(s[u].time > t);
    }
}

/// When no keyframe is after `t`, the upper bound is the track's end.
pub proof fn lemma_kf_upper_at_end(s: Seq<KeyV>, t: int)
    requires
        forall|i: int| 0 <= i < s.len() ==> #[trigger] s[i].time <= t,
    ensures
        kf_upper(s, t) == s.len(),
{
    lemma_kf_upper_bracket(s, t, s.len() as int);
}

/// Keyframe times strictly increase along the sequence: no two keyframes
/// share a time.
pub open spec fn keyframes_strictly_sorted(s: Seq<KeyV>) -> bool {
    forall|i: int, j: int| 0 <= i < j < s.len() ==> #[trigger] s[i].time < #[trigger] s[j].time
}

/// Sampling clamps: at or before the first keyframe's time the track
/// yields the first keyframe's pose exactly, at or after the last
/// keyframe's time the last keyframe's pose exactly, and strictly
/// between two keyframes the interpolation of the bracketing pair at
/// blend fraction `(t - t_before) / (t_after - t_before)` (the fraction
/// is the body of `track_sample` itself).
pub proof fn lemma_track_sample_clamps(s: Seq<KeyV>, t: int)
    requires
        keyframes_strictly_sorted(s),
        s.len() >= 1,
        forall|i: int| 0 <= i < s.len() ==> vec_in_range(#[trigger] s[i].translation),
        forall|i: int| 0 <= i < s.len() ==> quat_in_range(#[trigger] s[i].rotation),
    ensures
        t <= s[0].time ==> track_sample(s, t) == (s[0].translation, s[0].rotation),
        t >= s.last().time ==> track_sample(s, t) == (s.last().translation, s.last().rotation),
{
    lemma_kf_upper_props(s, t);
    let u = kf_upper(s, t);
    if t <= s[0].time {
        if u == s.len() {
            // every keyframe time is <= t <= the first time, and times
            // strictly increase, so the track has a single keyframe
            assert(s.len() == 1) by {
                if s.len() > 1 {
                    assert(s[0].time < s[s.len() - 1].time);
                    assert(s[s.len() - 1].time <= t);
                }
            }
        } else if u != 0 {
            assert(s[u - 1].time <= t);
            assert(s[u - 1].time >= s[0].time || u - 1 == 0);
            assert(u == 1) by {
                if u > 1 {
                    assert(s[0].time < s[u - 1].time);
                }
            }
            assert(s[0].time == t);
            let f = fp_quot(fp_diff(t, s[0].time), fp_diff(s[1].time, s[0].time));
            assert(fp_diff(t, s[0].time) == 0);
            assert(f == 0) by {
                assert(s[1].time > t);
                crate::scalar::lemma_fp_quot_unit(0, fp_diff(s[1].time, s[0].time));
            }
            crate::vector::lemma_vec_lerp_zero(s[0].translation, s[1].translation);
            crate::vector::lemma_quat_mix_zero(s[0].rotation, s[1].rotation);
        }
    }
    if t >= s.last().time {
        assert forall|i: int| 0 <= i < s.len() implies #[trigger] s[i].time <= t by {
            if i < s.len() - 1 {
                assert(s[i].time < s[s.len() - 1].time);
            }
        }
        lemma_kf_upper_at_end(s, t);
    }
}

/// Loop-seam continuity: once a track is sealed by a final keyframe that
/// copies the first keyframe's pose, sampling at the end of the loop
/// yields the same pose as sampling at its start.
pub proof fn lemma_loop_seam_continuity(s: Seq<KeyV>, duration: int)
    requires
        keyframes_strictly_sorted(s),
        s.len() >= 1,
        forall|i: int| 0 <= i < s.len() ==> vec_in_range(#[trigger] s[i].translation),
        forall|i: int| 0 <= i < s.len() ==> quat_in_range(#[trigger] s[i].rotation),
        s[0].time >= 0,
        s.last().time == duration,
        s.last().translation == s[0].translation,
        s.last().rotation == s[0].rotation,
    ensures
        track_sample(s, duration) == track_sample(s, 0),
{
    lemma_track_sample_clamps(s, duration);
    lemma_track_sample_clamps(s, 0);
}

/// When the new keyframe is at or after every keyframe of the track, the
/// insertion appends it at the end.
pub proof fn lemma_kf_insert_at_end(s: Seq<KeyV>, k: KeyV)
    requires
        forall|i: int| 0 <= i < s.len() ==> #[trigger] s[i].time <= k.time,
    ensures
        kf_insert(s, k) == s.push(k),
{
    if s.len() == 0 {
        assert(kf_insert(s, k) =~= s.push(k));
    }
}

} // verus!
