//! A core animation: an immutable set of keyframe tracks, one per
//! animated bone, together with the animation's duration.

use vstd::prelude::*;

use crate::keyframe::KeyV;
use crate::track::{kf_insert, keyframes_sorted, CalCoreTrack, TrackV};

verus! {

/// The mathematical value of a core animation.
pub struct AnimV {
    pub duration: int,
    pub tracks: Seq<TrackV>,
}

/// A named set of tracks with a common duration, shared by every model
/// instance that plays it.
pub struct CalCoreAnimation {
    pub m_duration: i64,
    pub m_listCoreTrack: Vec<CalCoreTrack>,
}

impl View for CalCoreAnimation {
    type V = AnimV;

    open spec fn view(&self) -> AnimV {
        AnimV {
            duration: self.m_duration as int,
            tracks: self.m_listCoreTrack@.map_values(|tr: CalCoreTrack| tr@),
        }
    }
}

/// What the loader guarantees of an animation: a positive duration, and
/// every track sorted, non-empty, with keyframe times inside the
/// animation's time range.
pub open spec fn anim_wf(a: AnimV) -> bool {
    &&& a.duration > 0
    &&& forall|i: int| 0 <= i < a.tracks.len() ==> keyframes_sorted(
        #[trigger] a.tracks[i].keyframes,
    )
    &&& forall|i: int| 0 <= i < a.tracks.len() ==> #[trigger] a.tracks[i].keyframes.len() >= 1
    &&& forall|i: int, j: int|
        0 <= i < a.tracks.len() && 0 <= j < a.tracks[i].keyframes.len() ==> 0 <= #[trigger] a
            .tracks[i].keyframes[j].time <= a.duration
}

/// The loop seam of one track: the first keyframe's pose, re-inserted at
/// the animation's full duration.
pub open spec fn seam_keyframe(tr: TrackV, duration: int) -> KeyV {
    KeyV {
        time: duration,
        translation: tr.keyframes[0].translation,
        rotation: tr.keyframes[0].rotation,
    }
}

/// One track after the seam pass: unchanged when empty, otherwise with
/// the seam keyframe inserted.
pub open spec fn seam_patched_track(tr: TrackV, duration: int) -> TrackV {
    if tr.keyframes.len() == 0 {
        tr
    } else {
        TrackV {
            bone_id: tr.bone_id,
            translation_required: tr.translation_required,
            keyframes: kf_insert(tr.keyframes, seam_keyframe(tr, duration)),
        }
    }
}

/// The whole animation after the seam pass: tracks are patched only when
/// the first track ends strictly before the animation's duration.
pub open spec fn seam_patch(a: AnimV) -> AnimV {
    if a.tracks.len() == 0 {
        a
    } else if a.tracks[0].keyframes.len() == 0 {
        a
    } else if a.tracks[0].keyframes.last().time < a.duration {
        AnimV {
            duration: a.duration,
            tracks: a.tracks.map_values(|tr: TrackV| seam_patched_track(tr, a.duration)),
        }
    } else {
        a
    }
}

/// Appending the synthetic loop keyframe twice is a no-op: the first
/// pass seals the first track at the full duration, which disarms the
/// guard of every later pass.
pub proof fn lemma_seam_patch_idempotent(a: AnimV)
    requires
        forall|j: int|
            0 <= j < a.tracks[0].keyframes.len()
                ==> (#[trigger] a.tracks[0].keyframes[j]).time <= a.duration,
    ensures
        seam_patch(seam_patch(a)) == seam_patch(a),
{
    if a.tracks.len() == 0 {
    } else if a.tracks[0].keyframes.len() == 0 {
    } else if a.tracks[0].keyframes.last().time < a.duration {
        let p = seam_patch(a);
        assert(p.tracks[0] == seam_patched_track(a.tracks[0], a.duration));
        crate::track::lemma_kf_insert_at_end(
            a.tracks[0].keyframes,
            seam_keyframe(a.tracks[0], a.duration),
        );
        assert(p.tracks[0].keyframes.last().time == a.duration);
    }
}

/// Sealing the loop seam keeps an animation well-formed: the synthetic
/// keyframe sits at the full duration, inside every track's time range.
pub proof fn lemma_seam_patch_wf(a: AnimV)
    requires
        anim_wf(a),
    ensures
        anim_wf(seam_patch(a)),
{
    let p = seam_patch(a);
    if a.tracks.len() == 0 {
    } else if a.tracks[0].keyframes.len() == 0 {
    } else if a.tracks[0].keyframes.last().time < a.duration {
        assert forall|i: int| 0 <= i < p.tracks.len() implies keyframes_sorted(
            #[trigger] p.tracks[i].keyframes,
        ) && p.tracks[i].keyframes.len() >= 1 && forall|j: int|
            0 <= j < p.tracks[i].keyframes.len() ==> 0 <= (#[trigger] p.tracks[i].keyframes[j]).time
                <= p.duration by {
            let tr = a.tracks[i];
            let k = seam_keyframe(tr, a.duration);
            assert(p.tracks[i] == seam_patched_track(tr, a.duration));
            crate::track::lemma_kf_insert_sorted(tr.keyframes, k);
            crate::track::lemma_kf_insert_len(tr.keyframes, k);
            crate::track::lemma_kf_insert_members(tr.keyframes, k);
            assert forall|j: int|
                0 <= j < p.tracks[i].keyframes.len() implies 0 <= (
            #[trigger] p.tracks[i].keyframes[j]).time <= p.duration by {
                let kf = p.tracks[i].keyframes[j];
                if kf != k {
                    let jj = choose|jj: int|
                        0 <= jj < tr.keyframes.len() && kf == #[trigger] tr.keyframes[jj];
                    assert(0 <= tr.keyframes[jj].time <= a.duration);
                }
            }
        }
    }
}

/// The seam pass touches only keyframes: track count, bone ids and the
/// translation flags come through unchanged.
pub proof fn lemma_seam_patch_track_ids(a: AnimV)
    ensures
        seam_patch(a).duration == a.duration,
        seam_patch(a).tracks.len() == a.tracks.len(),
        forall|i: int|
            0 <= i < a.tracks.len() ==> (#[trigger] seam_patch(a).tracks[i]).bone_id
                == a.tracks[i].bone_id && seam_patch(a).tracks[i].translation_required
                == a.tracks[i].translation_required,
{
    let p = seam_patch(a);
    if a.tracks.len() == 0 {
    } else if a.tracks[0].keyframes.len() == 0 {
    } else if a.tracks[0].keyframes.last().time < a.duration {
        assert forall|i: int| 0 <= i < a.tracks.len() implies (#[trigger] p.tracks[i]).bone_id
            == a.tracks[i].bone_id && p.tracks[i].translation_required
            == a.tracks[i].translation_required by {
            assert(p.tracks[i] == seam_patched_track(a.tracks[i], a.duration));
        }
    }
}

impl CalCoreAnimation {
    pub fn new(m_duration: i64, m_listCoreTrack: Vec<CalCoreTrack>) -> (r: CalCoreAnimation)
        ensures
            r@.duration == m_duration as int,
            r@.tracks == m_listCoreTrack@.map_values(|tr: CalCoreTrack| tr@),
    {
        CalCoreAnimation { m_duration, m_listCoreTrack }
    }

    pub fn getDuration(&self) -> (r: i64)
        ensures
            r as int == self@.duration,
    {
        self.m_duration
    }

    pub fn getListCoreTrack(&self) -> (r: &Vec<CalCoreTrack>)
        ensures
            r@.map_values(|tr: CalCoreTrack| tr@) == self@.tracks,
    {
        &self.m_listCoreTrack
    }
}

} // verus!
