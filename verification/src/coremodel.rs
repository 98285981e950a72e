//! The core model: the shared, load-once bundle of one character's
//! skeleton, animations and materials, from which any number of model
//! instances are built.

use vstd::prelude::*;

use crate::coreanimation::CalCoreAnimation;
use crate::corematerial::CalCoreMaterial;
use crate::coreskeleton::CalCoreSkeleton;

verus! {

/// Errors of the core data structures.
pub enum CoreError {
    OtherError(String),
}

/// The material id a thread/set table holds for a pair of ids, if any.
pub open spec fn thread_lookup(t: Seq<(i32, i32)>, setId: int) -> Option<int>
    decreases t.len(),
{
    if t.len() == 0 {
        Option::None
    } else if t.last().0 as int == setId {
        Option::Some(t.last().1 as int)
    } else {
        thread_lookup(t.drop_last(), setId)
    }
}

/// The thread table for a thread id, if the thread was created.
pub open spec fn threads_lookup(m: Seq<(i32, Seq<(i32, i32)>)>, threadId: int) -> Option<
    Seq<(i32, i32)>,
>
    decreases m.len(),
{
    if m.len() == 0 {
        Option::None
    } else if m.last().0 as int == threadId {
        Option::Some(m.last().1)
    } else {
        threads_lookup(m.drop_last(), threadId)
    }
}

/// Every core animation of the model is well-formed: positive duration
/// and sorted, non-empty tracks inside the animation's time range.
pub open spec fn core_anims_wf(m: &CalCoreModel) -> bool {
    forall|i: int|
        0 <= i < m.m_vectorCoreAnimation@.len() ==> crate::coreanimation::anim_wf(
            (#[trigger] m.m_vectorCoreAnimation@[i])@,
        )
}

/// The loader's full contract on a core model: a well-formed skeleton,
/// well-formed animations, and every track addressed to a bone of the
/// skeleton.
pub open spec fn core_model_wf(m: &CalCoreModel) -> bool {
    &&& m.pCoreSkeleton.wf()
    &&& core_anims_wf(m)
    &&& forall|i: int, j: int|
        0 <= i < m.m_vectorCoreAnimation@.len() && 0 <= j
            < m.m_vectorCoreAnimation@[i]@.tracks.len() ==> 0 <= (
        #[trigger] m.m_vectorCoreAnimation@[i]@.tracks[j]).bone_id
            < m.pCoreSkeleton@.bones.len()
}

/// The shared data of one character.
pub struct CalCoreModel {
    pub pCoreSkeleton: CalCoreSkeleton,
    pub m_vectorCoreAnimation: Vec<CalCoreAnimation>,
    pub m_vectorCoreMaterial: Vec<CalCoreMaterial>,
    pub m_mapmapCoreMaterialThread: Vec<(i32, Vec<(i32, i32)>)>,
}

impl CalCoreModel {
    /// The thread/set table as nested sequences of plain pairs.
    pub open spec fn spec_threads(&self) -> Seq<(i32, Seq<(i32, i32)>)> {
        self.m_mapmapCoreMaterialThread@.map_values(
            |t: (i32, Vec<(i32, i32)>)| (t.0, t.1@),
        )
    }

    pub fn new(skeleton: CalCoreSkeleton) -> (r: CalCoreModel)
        ensures
            r.pCoreSkeleton == skeleton,
            r.m_vectorCoreAnimation@ == Seq::<CalCoreAnimation>::empty(),
            r.m_vectorCoreMaterial@ == Seq::<CalCoreMaterial>::empty(),
            r.spec_threads() == Seq::<(i32, Seq<(i32, i32)>)>::empty(),
    {
        let r = CalCoreModel {
            pCoreSkeleton: skeleton,
            m_vectorCoreAnimation: Vec::new(),
            m_vectorCoreMaterial: Vec::new(),
            m_mapmapCoreMaterialThread: Vec::new(),
        };
        proof {
            assert(r.m_vectorCoreAnimation@ =~= Seq::<CalCoreAnimation>::empty());
            assert(r.m_vectorCoreMaterial@ =~= Seq::<CalCoreMaterial>::empty());
            assert(r.spec_threads() =~= Seq::<(i32, Seq<(i32, i32)>)>::empty());
        }
        r
    }

    pub fn getCoreSkeleton(&self) -> (r: &CalCoreSkeleton)
        ensures
            r == &self.pCoreSkeleton,
    {
        &self.pCoreSkeleton
    }

    pub fn getCoreAnimationCount(&self) -> (r: usize)
        ensures
            r as int == self.m_vectorCoreAnimation@.len(),
    {
        self.m_vectorCoreAnimation.len()
    }

    /// Add a core animation; its id is the next slot of the vector.
    pub fn addCoreAnimation(&mut self, pCoreAnimation: CalCoreAnimation) -> (r: usize)
        ensures
            final(self).m_vectorCoreAnimation@ == old(self).m_vectorCoreAnimation@.push(
                pCoreAnimation,
            ),
            r as int == old(self).m_vectorCoreAnimation@.len(),
            final(self).pCoreSkeleton == old(self).pCoreSkeleton,
            final(self).m_vectorCoreMaterial == old(self).m_vectorCoreMaterial,
            final(self).spec_threads() == old(self).spec_threads(),
    {
        let num = self.m_vectorCoreAnimation.len();
        self.m_vectorCoreAnimation.push(pCoreAnimation);
        num
    }

    pub fn getCoreAnimation(&self, coreAnimationId: usize) -> (r: Option<&CalCoreAnimation>)
        ensures
            coreAnimationId < self.m_vectorCoreAnimation@.len() ==> r is Some && r->0
                == &self.m_vectorCoreAnimation@[coreAnimationId as int],
            coreAnimationId >= self.m_vectorCoreAnimation@.len() ==> r is None,
    {
        if coreAnimationId < self.m_vectorCoreAnimation.len() {
            Some(&self.m_vectorCoreAnimation[coreAnimationId])
        } else {
            None
        }
    }

    /// Add a core material; its id is the next slot of the vector.
    pub fn addCoreMaterial(&mut self, pCoreMaterial: CalCoreMaterial) -> (r: i32)
        requires
            old(self).m_vectorCoreMaterial@.len() < 0x7FFF_FFFF,
        ensures
            final(self).m_vectorCoreMaterial@ == old(self).m_vectorCoreMaterial@.push(
                pCoreMaterial,
            ),
            r as int == old(self).m_vectorCoreMaterial@.len(),
            final(self).pCoreSkeleton == old(self).pCoreSkeleton,
            final(self).m_vectorCoreAnimation == old(self).m_vectorCoreAnimation,
            final(self).spec_threads() == old(self).spec_threads(),
    {
        let num = self.m_vectorCoreMaterial.len();
        self.m_vectorCoreMaterial.push(pCoreMaterial);
        num as i32
    }

    pub fn getCoreMaterials(&self) -> (r: &Vec<CalCoreMaterial>)
        ensures
            r == &self.m_vectorCoreMaterial,
    {
        &self.m_vectorCoreMaterial
    }

    /// Create (or reset) a material thread: an empty set-to-material
    /// table under the given thread id.
    pub fn createCoreMaterialThread(&mut self, coreMaterialThreadId: i32) -> (r: bool)
        ensures
            r == true,
            threads_lookup(final(self).spec_threads(), coreMaterialThreadId as int) == Option::Some(
                Seq::<(i32, i32)>::empty(),
            ),
            forall|t: int|
                t != coreMaterialThreadId as int ==> threads_lookup(final(self).spec_threads(), t)
                    == threads_lookup(old(self).spec_threads(), t),
            final(self).pCoreSkeleton == old(self).pCoreSkeleton,
            final(self).m_vectorCoreAnimation == old(self).m_vectorCoreAnimation,
            final(self).m_vectorCoreMaterial == old(self).m_vectorCoreMaterial,
    {
        let empty_thread: Vec<(i32, i32)> = Vec::new();
        self.m_mapmapCoreMaterialThread.push((coreMaterialThreadId, empty_thread));
        proof {
            assert(final(self).spec_threads() =~= old(self).spec_threads().push(
                (coreMaterialThreadId, Seq::<(i32, i32)>::empty()),
            ));
            assert(final(self).spec_threads().last().1 =~= Seq::<(i32, i32)>::empty());
            assert forall|t: int|
                t != coreMaterialThreadId as int implies threads_lookup(
                final(self).spec_threads(),
                t,
            ) == threads_lookup(old(self).spec_threads(), t) by {
                assert(final(self).spec_threads().drop_last() =~= old(self).spec_threads());
            }
        }
        true
    }

    /// Record the material a thread uses for one material set;
    /// an unknown thread is rejected.
    pub fn setCoreMaterialId(
        &mut self,
        coreMaterialThreadId: i32,
        coreMaterialSetId: i32,
        coreMaterialId: i32,
    ) -> (r: bool)
        ensures
            r == (threads_lookup(old(self).spec_threads(), coreMaterialThreadId as int) is Some),
            !r ==> *final(self) == *old(self),
            r ==> threads_lookup(final(self).spec_threads(), coreMaterialThreadId as int) is Some,
            r ==> thread_lookup(
                threads_lookup(final(self).spec_threads(), coreMaterialThreadId as int)->0,
                coreMaterialSetId as int,
            ) == Option::Some(coreMaterialId as int),
            r ==> forall|s: int|
                s != coreMaterialSetId as int ==> thread_lookup(
                    threads_lookup(final(self).spec_threads(), coreMaterialThreadId as int)->0,
                    s,
                ) == thread_lookup(
                    threads_lookup(old(self).spec_threads(), coreMaterialThreadId as int)->0,
                    s,
                ),
            final(self).pCoreSkeleton == old(self).pCoreSkeleton,
            final(self).m_vectorCoreAnimation == old(self).m_vectorCoreAnimation,
            final(self).m_vectorCoreMaterial == old(self).m_vectorCoreMaterial,
    {
        let ghost threads0 = self.spec_threads();
        let n = self.m_mapmapCoreMaterialThread.len();
        let mut k: usize = n;
        // find the latest entry for this thread id, which is the one
        // `threads_lookup` denotes
        let mut idx: usize = 0;
        let mut found = false;
        while idx < n
            invariant
                0 <= idx <= n,
                n == self.m_mapmapCoreMaterialThread@.len(),
                self.spec_threads() == threads0,
                found ==> k < idx,
                found ==> threads_lookup(threads0.subrange(0, idx as int), threads0[k as int].0
                    as int) == Option::Some(threads0[k as int].1),
                found ==> threads0[k as int].0 == coreMaterialThreadId,
                found ==> forall|j: int|
                    k < j < idx ==> (#[trigger] threads0[j]).0 != coreMaterialThreadId,
                !found ==> threads_lookup(
                    threads0.subrange(0, idx as int),
                    coreMaterialThreadId as int,
                ) is None,
            decreases n - idx,
        {
            proof {
                assert(threads0.subrange(0, idx as int + 1).drop_last() =~= threads0.subrange(
                    0,
                    idx as int,
                ));
                assert(threads0.subrange(0, idx as int + 1).last() == threads0[idx as int]);
            }
            if self.m_mapmapCoreMaterialThread[idx].0 == coreMaterialThreadId {
                k = idx;
                found = true;
            }
            idx = idx + 1;
        }
        proof {
            assert(threads0.subrange(0, n as int) =~= threads0);
        }
        if !found {
            return false;
        }
        // replace the set's entry by appending: the latest entry wins
        let ghost thread0 = self.spec_threads()[k as int].1;
        self.m_mapmapCoreMaterialThread[k].1.push((coreMaterialSetId, coreMaterialId));
        proof {
            let threads1 = self.spec_threads();
            assert(threads1[k as int].1 =~= thread0.push((coreMaterialSetId, coreMaterialId)));
            assert(forall|j: int|
                0 <= j < threads1.len() && j != k as int ==> threads1[j] == #[trigger] threads0[j]);
            lemma_threads_lookup_update(threads0, threads1, k as int, coreMaterialThreadId as int);
            assert(thread0.push((coreMaterialSetId, coreMaterialId)).drop_last() =~= thread0);
        }
        true
    }

    /// Look up the material a thread uses for a material set.
    pub fn getCoreMaterialId(
        &self,
        coreMaterialThreadId: i32,
        coreMaterialSetId: i32,
    ) -> (r: Option<i32>)
        ensures
            match threads_lookup(self.spec_threads(), coreMaterialThreadId as int) {
                Option::Some(t) => match thread_lookup(t, coreMaterialSetId as int) {
                    Option::Some(m) => r is Some && r->0 as int == m,
                    Option::None => r is None,
                },
                Option::None => r is None,
            },
    {
        let ghost threads0 = self.spec_threads();
        let n = self.m_mapmapCoreMaterialThread.len();
        let mut best: Option<i32> = None;
        let ghost mut seen: Seq<(i32, Seq<(i32, i32)>)> = Seq::empty();
        let mut idx: usize = 0;
        while idx < n
            invariant
                0 <= idx <= n,
                n == self.m_mapmapCoreMaterialThread@.len(),
                self.spec_threads() == threads0,
                seen =~= threads0.subrange(0, idx as int),
                match threads_lookup(seen, coreMaterialThreadId as int) {
                    Option::Some(t) => match thread_lookup(t, coreMaterialSetId as int) {
                        Option::Some(m) => best is Some && best->0 as int == m,
                        Option::None => best is None,
                    },
                    Option::None => best is None,
                },
            decreases n - idx,
        {
            proof {
                assert(threads0.subrange(0, idx as int + 1).drop_last() =~= threads0.subrange(
                    0,
                    idx as int,
                ));
                assert(threads0.subrange(0, idx as int + 1).last() == threads0[idx as int]);
            }
            if self.m_mapmapCoreMaterialThread[idx].0 == coreMaterialThreadId {
                // scan this thread's table; the latest entry for the set wins
                let thread_len = self.m_mapmapCoreMaterialThread[idx].1.len();
                let ghost tseq = threads0[idx as int].1;
                let mut inner: Option<i32> = None;
                let mut j: usize = 0;
                while j < thread_len
                    invariant
                        0 <= j <= thread_len,
                        idx < n,
                        n == self.m_mapmapCoreMaterialThread@.len(),
                        self.spec_threads() == threads0,
                        thread_len == tseq.len(),
                        tseq == threads0[idx as int].1,
                        match thread_lookup(tseq.subrange(0, j as int), coreMaterialSetId as int) {
                            Option::Some(m) => inner is Some && inner->0 as int == m,
                            Option::None => inner is None,
                        },
                    decreases thread_len - j,
                {
                    proof {
                        assert(tseq.subrange(0, j as int + 1).drop_last() =~= tseq.subrange(
                            0,
                            j as int,
                        ));
                        assert(tseq.subrange(0, j as int + 1).last() == tseq[j as int]);
                    }
                    let entry = self.m_mapmapCoreMaterialThread[idx].1[j];
                    if entry.0 == coreMaterialSetId {
                        inner = Some(entry.1);
                    }
                    j = j + 1;
                }
                proof {
                    assert(tseq.subrange(0, thread_len as int) =~= tseq);
                }
                best = inner;
            }
            proof {
                seen = threads0.subrange(0, idx as int + 1);
            }
            idx = idx + 1;
        }
        proof {
            assert(threads0.subrange(0, n as int) =~= threads0);
        }
        best
    }
}

/// Replacing one thread's table, at the latest entry for its id, moves
/// `threads_lookup` to the new table for that id and leaves every other
/// id alone.
proof fn lemma_threads_lookup_update(
    t0: Seq<(i32, Seq<(i32, i32)>)>,
    t1: Seq<(i32, Seq<(i32, i32)>)>,
    k: int,
    threadId: int,
)
    requires
        t0.len() == t1.len(),
        0 <= k < t0.len(),
        t0[k].0 as int == threadId,
        t1[k].0 == t0[k].0,
        forall|j: int| 0 <= j < t0.len() && j != k ==> #[trigger] t1[j] == t0[j],
        forall|j: int| k < j < t0.len() ==> (#[trigger] t0[j]).0 as int != threadId,
    ensures
        threads_lookup(t1, threadId) == Option::Some(t1[k].1),
        forall|t: int|
            t != threadId ==> threads_lookup(t1, t) == threads_lookup(t0, t),
    decreases t0.len(),
{
    if k == t0.len() - 1 {
        assert forall|t: int| t != threadId implies threads_lookup(t1, t) == threads_lookup(
            t0,
            t,
        ) by {
            assert(t1.drop_last() =~= t0.drop_last());
        }
    } else {
        lemma_threads_lookup_update(t0.drop_last(), t1.drop_last(), k, threadId);
        assert(t1.last() == t0.last());
        assert(t1.drop_last()[k] == t1[k]);
        assert forall|t: int| t != threadId implies threads_lookup(t1, t) == threads_lookup(
            t0,
            t,
        ) by {
            if t1.last().0 as int != t {
                assert(threads_lookup(t1, t) == threads_lookup(t1.drop_last(), t));
                assert(threads_lookup(t0, t) == threads_lookup(t0.drop_last(), t));
            }
        }
    }
}

} // verus!
