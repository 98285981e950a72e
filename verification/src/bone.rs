//! Per-instance bone state: the transform-accumulation algebra that
//! blends every animation influence of one tick into a single pose.
//!
//! Within one unlock pass, the pose converges to the weighted average of
//! the contributions: each call mixes the new pose in with blend factor
//! `w / (accumulated + w)`, which by induction gives every contribution
//! its weight's proportion of the final mix, in whatever order the calls
//! arrive (see the proof functions at the end of this file).

use vstd::prelude::*;

use vstd::multiset::Multiset;

use crate::scalar::{fp_add, fp_clamp01, fp_div, fp_mul, fp_sub};
use crate::scalar::{fp_diff, fp_prod, fp_quot, fp_sum, fp_unit_clamp, FP_ONE};
use crate::vector::{quat_mix, vec_lerp, vec_plus, CalQuaternion, CalVector, Quat4i, Vec3i};

verus! {

/// The mathematical value of a bone's per-tick state.
pub struct BoneV {
    pub core_bone_id: int,
    pub accumulated_weight: int,
    pub accumulated_weight_absolute: int,
    pub replacement_attenuation: int,
    pub first_blend_scale: int,
    pub mesh_scale_absolute: Vec3i,
    pub translation: Vec3i,
    pub rotation: Quat4i,
    pub translation_absolute: Vec3i,
    pub rotation_absolute: Quat4i,
}

/// One bone of a skeleton instance. `m_translation`/`m_rotation` hold the
/// relative pose (reset to the bind pose each tick, then locked tiers are
/// merged in); the absolute pair accumulates the current unlock pass.
pub struct CalBone {
    pub m_coreBoneId: usize,
    pub m_accumulatedWeight: i64,
    pub m_accumulatedWeightAbsolute: i64,
    pub m_accumulatedReplacementAttenuation: i64,
    pub m_firstBlendScale: i64,
    pub m_meshScaleAbsolute: CalVector,
    pub m_translation: CalVector,
    pub m_rotation: CalQuaternion,
    pub m_translationAbsolute: CalVector,
    pub m_rotationAbsolute: CalQuaternion,
}

impl View for CalBone {
    type V = BoneV;

    open spec fn view(&self) -> BoneV {
        BoneV {
            core_bone_id: self.m_coreBoneId as int,
            accumulated_weight: self.m_accumulatedWeight as int,
            accumulated_weight_absolute: self.m_accumulatedWeightAbsolute as int,
            replacement_attenuation: self.m_accumulatedReplacementAttenuation as int,
            first_blend_scale: self.m_firstBlendScale as int,
            mesh_scale_absolute: self.m_meshScaleAbsolute@,
            translation: self.m_translation@,
            rotation: self.m_rotation@,
            translation_absolute: self.m_translationAbsolute@,
            rotation_absolute: self.m_rotationAbsolute@,
        }
    }
}

/// The accumulator ranges every tick keeps: weights in `[0, 1]` or at
/// least nonnegative, attenuation and first-blend scale in `[0, 1]`.
pub open spec fn bone_wf(b: BoneV) -> bool {
    &&& 0 <= b.accumulated_weight <= FP_ONE as int
    &&& 0 <= b.accumulated_weight_absolute
    &&& 0 <= b.replacement_attenuation <= FP_ONE as int
    &&& 0 <= b.first_blend_scale <= FP_ONE as int
}

/// `clearState`: a fresh tick. Accumulators to zero, attenuation and
/// first-blend scale to one, mesh scale to the unit scale.
pub open spec fn clear_state_spec(b: BoneV) -> BoneV {
    BoneV {
        accumulated_weight: 0,
        accumulated_weight_absolute: 0,
        replacement_attenuation: FP_ONE as int,
        first_blend_scale: FP_ONE as int,
        mesh_scale_absolute: Vec3i { x: FP_ONE as int, y: FP_ONE as int, z: FP_ONE as int },
        ..b
    }
}

/// `blendState`: one animation influence folded into the absolute pose.
pub open spec fn blend_state_spec(
    b: BoneV,
    unrampedWeight: int,
    translation: Vec3i,
    rotation: Quat4i,
    scale: int,
    replace: bool,
    rampValue: int,
    absoluteTranslation: bool,
) -> BoneV {
    let rampedWeight = fp_prod(unrampedWeight, rampValue);
    let attenuatedWeight = fp_prod(rampedWeight, b.replacement_attenuation);
    let sc = fp_unit_clamp(scale);
    let newTranslation = if absoluteTranslation {
        translation
    } else {
        vec_plus(b.translation, translation)
    };
    let attenuation = if replace {
        fp_prod(b.replacement_attenuation, fp_diff(FP_ONE as int, rampValue))
    } else {
        b.replacement_attenuation
    };
    if b.accumulated_weight_absolute == 0 {
        // the first influence of this unlock pass becomes the pose
        // outright; its scale is remembered and compensated on the second
        BoneV {
            accumulated_weight_absolute: attenuatedWeight,
            translation_absolute: newTranslation,
            rotation_absolute: rotation,
            first_blend_scale: sc,
            replacement_attenuation: attenuation,
            ..b
        }
    } else {
        let factor0 = fp_quot(
            fp_prod(sc, attenuatedWeight),
            fp_sum(b.accumulated_weight_absolute, attenuatedWeight),
        );
        let factor = fp_diff(
            FP_ONE as int,
            fp_prod(b.first_blend_scale, fp_diff(FP_ONE as int, factor0)),
        );
        BoneV {
            accumulated_weight_absolute: fp_sum(b.accumulated_weight_absolute, attenuatedWeight),
            translation_absolute: vec_lerp(b.translation_absolute, factor, newTranslation),
            rotation_absolute: quat_mix(b.rotation_absolute, factor, rotation),
            first_blend_scale: FP_ONE as int,
            replacement_attenuation: attenuation,
            ..b
        }
    }
}

/// `lockState`: the unlock pass's accumulation, capped so the total
/// weight never exceeds one, merged into the relative pose; the absolute
/// accumulator reopens at zero for the next tier.
pub open spec fn lock_state_spec(b: BoneV) -> BoneV {
    let capped = if b.accumulated_weight_absolute > FP_ONE as int - b.accumulated_weight {
        FP_ONE as int - b.accumulated_weight
    } else {
        b.accumulated_weight_absolute
    };
    if capped > 0 {
        if b.accumulated_weight == 0 {
            BoneV {
                translation: b.translation_absolute,
                rotation: b.rotation_absolute,
                accumulated_weight: capped,
                accumulated_weight_absolute: 0,
                ..b
            }
        } else {
            let factor = fp_quot(capped, b.accumulated_weight + capped);
            BoneV {
                translation: vec_lerp(b.translation, factor, b.translation_absolute),
                rotation: quat_mix(b.rotation, factor, b.rotation_absolute),
                accumulated_weight: b.accumulated_weight + capped,
                accumulated_weight_absolute: 0,
                ..b
            }
        }
    } else {
        BoneV { accumulated_weight_absolute: capped, ..b }
    }
}

impl CalBone {
    /// A bone freshly built for its core bone: identity pose, cleared
    /// accumulators.
    pub fn new(coreBoneId: usize) -> (r: CalBone)
        ensures
            bone_wf(r@),
            r@.core_bone_id == coreBoneId as int,
            r@.accumulated_weight == 0,
            r@.accumulated_weight_absolute == 0,
    {
        CalBone {
            m_coreBoneId: coreBoneId,
            m_accumulatedWeight: 0,
            m_accumulatedWeightAbsolute: 0,
            m_accumulatedReplacementAttenuation: FP_ONE,
            m_firstBlendScale: FP_ONE,
            m_meshScaleAbsolute: CalVector::new(FP_ONE, FP_ONE, FP_ONE),
            m_translation: CalVector::new(0, 0, 0),
            m_rotation: CalQuaternion::identity(),
            m_translationAbsolute: CalVector::new(0, 0, 0),
            m_rotationAbsolute: CalQuaternion::identity(),
        }
    }

    pub fn getCoreBoneId(&self) -> (r: usize)
        ensures
            r as int == self@.core_bone_id,
    {
        self.m_coreBoneId
    }

    pub fn getTranslation(&self) -> (r: &CalVector)
        ensures
            r@ == self@.translation,
    {
        &self.m_translation
    }

    pub fn getRotation(&self) -> (r: &CalQuaternion)
        ensures
            r@ == self@.rotation,
    {
        &self.m_rotation
    }

    pub fn getTranslationAbsolute(&self) -> (r: &CalVector)
        ensures
            r@ == self@.translation_absolute,
    {
        &self.m_translationAbsolute
    }

    pub fn getRotationAbsolute(&self) -> (r: &CalQuaternion)
        ensures
            r@ == self@.rotation_absolute,
    {
        &self.m_rotationAbsolute
    }

    pub fn setMeshScaleAbsolute(&mut self, sv: &CalVector)
        ensures
            final(self)@ == (BoneV { mesh_scale_absolute: sv@, ..old(self)@ }),
    {
        self.m_meshScaleAbsolute = *sv;
    }

    /// Reset the accumulators for a new tick.
    pub fn clearState(&mut self)
        ensures
            final(self)@ == clear_state_spec(old(self)@),
            bone_wf(final(self)@),
    {
        self.m_accumulatedWeight = 0;
        self.m_accumulatedWeightAbsolute = 0;
        self.m_accumulatedReplacementAttenuation = FP_ONE;
        self.m_firstBlendScale = FP_ONE;
        self.m_meshScaleAbsolute = CalVector::new(FP_ONE, FP_ONE, FP_ONE);
    }

    /// Reset the relative pose to the core bone's bind pose; the caller
    /// hands in the core bone's translation and rotation.
    pub fn setCoreTransformStateVariables(
        &mut self,
        coreTranslation: &CalVector,
        coreRotation: &CalQuaternion,
    )
        ensures
            final(self)@ == (BoneV {
                translation: coreTranslation@,
                rotation: coreRotation@,
                ..old(self)@
            }),
    {
        self.m_translation = *coreTranslation;
        self.m_rotation = *coreRotation;
    }

    /// Fold one animation influence into the absolute pose.
    ///
    /// The influence's effective weight is
    /// `unrampedWeight * rampValue * replacement attenuation`: each
    /// "replace" influence already applied discounts everything that
    /// follows it in this unlock pass. The blend factor
    /// `scale * w / (accumulated + w)` never leaves `[0, 1]`, so no
    /// clamping or run-time assertion is needed on it.
    pub fn blendState(
        &mut self,
        unrampedWeight: i64,
        translation: &CalVector,
        rotation: &CalQuaternion,
        scale: i64,
        replace: bool,
        rampValue: i64,
        absoluteTranslation: bool,
    )
        requires
            bone_wf(old(self)@),
            unrampedWeight >= 0,
            0 <= rampValue <= FP_ONE,
        ensures
            final(self)@ == blend_state_spec(
                old(self)@,
                unrampedWeight as int,
                translation@,
                rotation@,
                scale as int,
                replace,
                rampValue as int,
                absoluteTranslation,
            ),
            bone_wf(final(self)@),
    {
        proof {
            crate::scalar::lemma_fp_prod_unit(unrampedWeight as int, rampValue as int);
        }
        let rampedWeight = fp_mul(unrampedWeight, rampValue);
        proof {
            crate::scalar::lemma_fp_prod_unit(
                rampedWeight as int,
                self.m_accumulatedReplacementAttenuation as int,
            );
        }
        let attenuatedWeight = fp_mul(rampedWeight, self.m_accumulatedReplacementAttenuation);
        let scale = fp_clamp01(scale);
        let newTranslation = if absoluteTranslation {
            *translation
        } else {
            self.m_translation.plus(translation)
        };
        if self.m_accumulatedWeightAbsolute == 0 {
            // first influence of this unlock pass: copy the pose outright
            self.m_accumulatedWeightAbsolute = attenuatedWeight;
            self.m_translationAbsolute = newTranslation;
            self.m_rotationAbsolute = *rotation;
            self.m_firstBlendScale = scale;
        } else {
            proof {
                crate::scalar::lemma_fp_prod_unit(attenuatedWeight as int, scale as int);
                assert(fp_prod(scale as int, attenuatedWeight as int) == fp_prod(
                    attenuatedWeight as int,
                    scale as int,
                )) by {
                    assert(scale as int * attenuatedWeight as int == attenuatedWeight as int
                        * scale as int) by (nonlinear_arith);
                }
            }
            let scaledWeight = fp_mul(scale, attenuatedWeight);
            let total = fp_add(self.m_accumulatedWeightAbsolute, attenuatedWeight);
            proof {
                crate::scalar::lemma_fp_quot_unit(scaledWeight as int, total as int);
            }
            let factor0 = fp_div(scaledWeight, total);
            proof {
                crate::scalar::lemma_fp_prod_unit(
                    self.m_firstBlendScale as int,
                    fp_diff(FP_ONE as int, factor0 as int),
                );
            }
            let factor = fp_sub(FP_ONE, fp_mul(self.m_firstBlendScale, fp_sub(FP_ONE, factor0)));
            self.m_translationAbsolute.blend(factor, &newTranslation);
            self.m_rotationAbsolute.blend(factor, rotation);
            self.m_accumulatedWeightAbsolute = fp_add(
                self.m_accumulatedWeightAbsolute,
                attenuatedWeight,
            );
            self.m_firstBlendScale = FP_ONE;
        }
        if replace {
            proof {
                crate::scalar::lemma_fp_prod_unit(
                    self.m_accumulatedReplacementAttenuation as int,
                    fp_diff(FP_ONE as int, rampValue as int),
                );
            }
            self.m_accumulatedReplacementAttenuation = fp_mul(
                self.m_accumulatedReplacementAttenuation,
                fp_sub(FP_ONE, rampValue),
            );
        }
    }

    /// Commit the unlock pass: cap its weight so the tick's total stays
    /// at or under one, merge the absolute pose into the relative pose,
    /// and reopen the absolute accumulator for the next tier.
    pub fn lockState(&mut self)
        requires
            bone_wf(old(self)@),
        ensures
            final(self)@ == lock_state_spec(old(self)@),
            bone_wf(final(self)@),
    {
        if self.m_accumulatedWeightAbsolute > FP_ONE - self.m_accumulatedWeight {
            self.m_accumulatedWeightAbsolute = FP_ONE - self.m_accumulatedWeight;
        }
        if self.m_accumulatedWeightAbsolute > 0 {
            if self.m_accumulatedWeight == 0 {
                // the first tier of this tick: adopt the pose outright
                self.m_translation = self.m_translationAbsolute;
                self.m_rotation = self.m_rotationAbsolute;
                self.m_accumulatedWeight = self.m_accumulatedWeightAbsolute;
            } else {
                let total = self.m_accumulatedWeight + self.m_accumulatedWeightAbsolute;
                proof {
                    crate::scalar::lemma_fp_quot_unit(
                        self.m_accumulatedWeightAbsolute as int,
                        total as int,
                    );
                }
                let factor = fp_div(self.m_accumulatedWeightAbsolute, total);
                self.m_translation.blend(factor, &self.m_translationAbsolute);
                self.m_rotation.blend(factor, &self.m_rotationAbsolute);
                self.m_accumulatedWeight = total;
            }
            self.m_accumulatedWeightAbsolute = 0;
        }
    }
}

/// The effective weight a contribution enters the mix with: its weight,
/// ramped, then discounted by the replace-animations already applied.
pub open spec fn effective_weight(b: BoneV, unrampedWeight: int, rampValue: int) -> int {
    fp_prod(fp_prod(unrampedWeight, rampValue), b.replacement_attenuation)
}

/// Replace attenuation: a `replace` contribution with ramp value `r`
/// multiplies the stored attenuation by `1 - r` exactly, so every later
/// contribution of the pass enters with its effective weight discounted
/// by that factor; at `r = 1` the attenuation drops to zero.
pub proof fn lemma_replace_attenuation(
    b: BoneV,
    unrampedWeight: int,
    translation: Vec3i,
    rotation: Quat4i,
    scale: int,
    rampValue: int,
    absoluteTranslation: bool,
    nextWeight: int,
    nextRamp: int,
)
    ensures
        blend_state_spec(
            b,
            unrampedWeight,
            translation,
            rotation,
            scale,
            true,
            rampValue,
            absoluteTranslation,
        ).replacement_attenuation == fp_prod(
            b.replacement_attenuation,
            fp_diff(FP_ONE as int, rampValue),
        ),
        rampValue == FP_ONE as int ==> blend_state_spec(
            b,
            unrampedWeight,
            translation,
            rotation,
            scale,
            true,
            rampValue,
            absoluteTranslation,
        ).replacement_attenuation == 0,
        effective_weight(
            blend_state_spec(
                b,
                unrampedWeight,
                translation,
                rotation,
                scale,
                true,
                rampValue,
                absoluteTranslation,
            ),
            nextWeight,
            nextRamp,
        ) == fp_prod(
            fp_prod(nextWeight, nextRamp),
            fp_prod(b.replacement_attenuation, fp_diff(FP_ONE as int, rampValue)),
        ),
{
    if rampValue == FP_ONE as int {
        crate::scalar::lemma_fp_prod_zero(b.replacement_attenuation);
    }
}

/// Once the attenuation has dropped to zero, a further contribution has
/// no effect at all: the whole bone state comes out unchanged. (The
/// first-blend scale is one here, as it is whenever a pose has already
/// been mixed.)
pub proof fn lemma_attenuated_blend_is_noop(
    b: BoneV,
    unrampedWeight: int,
    translation: Vec3i,
    rotation: Quat4i,
    scale: int,
    replace: bool,
    rampValue: int,
    absoluteTranslation: bool,
)
    requires
        bone_wf(b),
        b.replacement_attenuation == 0,
        b.first_blend_scale == FP_ONE as int,
        b.accumulated_weight_absolute > 0,
        b.accumulated_weight_absolute <= i64::MAX as int,
        0 <= rampValue <= FP_ONE as int,
        crate::vector::vec_in_range(b.translation_absolute),
        crate::vector::quat_in_range(b.rotation_absolute),
    ensures
        blend_state_spec(
            b,
            unrampedWeight,
            translation,
            rotation,
            scale,
            replace,
            rampValue,
            absoluteTranslation,
        ) == b,
{
    let rampedWeight = fp_prod(unrampedWeight, rampValue);
    crate::scalar::lemma_fp_prod_zero(rampedWeight);
    let sc = fp_unit_clamp(scale);
    crate::scalar::lemma_fp_prod_zero(sc);
    let den = fp_sum(b.accumulated_weight_absolute, 0);
    assert(den == b.accumulated_weight_absolute);
    assert(fp_quot(0, den) == 0) by {
        vstd::arithmetic::div_mod::lemma_div_of0(den);
        assert(0 * FP_ONE as int == 0) by (nonlinear_arith);
    }
    assert(fp_diff(FP_ONE as int, 0) == FP_ONE as int);
    crate::scalar::lemma_fp_prod_one(FP_ONE as int);
    assert(fp_diff(FP_ONE as int, FP_ONE as int) == 0);
    crate::vector::lemma_vec_lerp_zero(b.translation_absolute, if absoluteTranslation {
        translation
    } else {
        vec_plus(b.translation, translation)
    });
    crate::vector::lemma_quat_mix_zero(b.rotation_absolute, rotation);
    if replace {
        crate::scalar::lemma_fp_prod_zero(fp_diff(FP_ONE as int, rampValue));
        assert(fp_prod(0, fp_diff(FP_ONE as int, rampValue)) == 0);
    }
}

/// One contribution to a blend pass, reduced to a single scalar
/// component of the pose: its effective weight and the component value.
pub struct Contrib {
    pub weight: int,
    pub value: int,
}

/// A total over the contributions of a multiset, summed in the canonical
/// order the multiset itself provides; being a function of the multiset
/// alone, it is the same for every ordering.
pub open spec fn mset_total(m: Multiset<Contrib>, f: spec_fn(Contrib) -> int) -> int
    decreases m.len(),
{
    if m.len() == 0 {
        0
    } else {
        let c = m.choose();
        f(c) + mset_total(m.remove(c), f)
    }
}

/// A total over the contributions of a sequence, summed left to right.
pub open spec fn seq_total(s: Seq<Contrib>, f: spec_fn(Contrib) -> int) -> int
    decreases s.len(),
{
    if s.len() == 0 {
        0
    } else {
        seq_total(s.drop_last(), f) + f(s.last())
    }
}

/// The sum of the contributions' weights.
pub open spec fn weight_total(s: Seq<Contrib>) -> int {
    seq_total(s, |c: Contrib| c.weight)
}

/// The weighted sum of the contributions' values.
pub open spec fn moment_total(s: Seq<Contrib>) -> int {
    seq_total(s, |c: Contrib| c.weight * c.value)
}

/// Pulling one contribution out of a multiset takes its summand out of
/// the total.
proof fn lemma_mset_total_insert(m: Multiset<Contrib>, c: Contrib, f: spec_fn(Contrib) -> int)
    ensures
        mset_total(m.insert(c), f) == f(c) + mset_total(m, f),
    decreases m.len(),
{
    broadcast use vstd::multiset::group_multiset_axioms;

    let m1 = m.insert(c);
    assert(m1.len() == m.len() + 1);
    let x = m1.choose();
    assert(m1.count(x) > 0) by {
        vstd::multiset::lemma_multiset_empty_len(m1);
        assert(exists|v: Contrib| 0 < m1.count(v));
    }
    if x == c {
        assert(m1.remove(x) =~= m);
    } else {
        assert(m.count(x) > 0);
        assert(m1.remove(x) =~= m.remove(x).insert(c));
        lemma_mset_total_insert(m.remove(x), c, f);
        assert(m.remove(x).insert(x) =~= m);
        lemma_mset_total_insert(m.remove(x), x, f);
    }
}

/// A sequence's total equals its multiset's total: summation does not
/// care about the order.
proof fn lemma_seq_total_matches_mset(s: Seq<Contrib>, f: spec_fn(Contrib) -> int)
    ensures
        seq_total(s, f) == mset_total(s.to_multiset(), f),
    decreases s.len(),
{
    broadcast use vstd::seq_lib::group_to_multiset_ensures;

    if s.len() == 0 {
        broadcast use vstd::multiset::group_multiset_axioms;

        assert(s.to_multiset().len() == 0);
    } else {
        lemma_seq_total_matches_mset(s.drop_last(), f);
        assert(s.drop_last().push(s.last()) =~= s);
        assert(s.to_multiset() =~= s.drop_last().to_multiset().insert(s.last()));
        lemma_mset_total_insert(s.drop_last().to_multiset(), s.last(), f);
    }
}

/// Reordering the contributions changes neither the weight total nor the
/// moment total.
pub proof fn lemma_totals_permutation(s: Seq<Contrib>, t: Seq<Contrib>)
    requires
        s.to_multiset() == t.to_multiset(),
    ensures
        weight_total(s) == weight_total(t),
        moment_total(s) == moment_total(t),
{
    lemma_seq_total_matches_mset(s, |c: Contrib| c.weight);
    lemma_seq_total_matches_mset(t, |c: Contrib| c.weight);
    lemma_seq_total_matches_mset(s, |c: Contrib| c.weight * c.value);
    lemma_seq_total_matches_mset(t, |c: Contrib| c.weight * c.value);
}

/// The blend recurrence over exact rational arithmetic, carried as a
/// numerator/denominator pair: the first contribution becomes the pose
/// outright, each later one is mixed in with factor `w / (W + w)`, `W`
/// the weight accumulated so far — the recurrence `blendState` runs per
/// pose component, before fixed-point truncation.
pub open spec fn exact_mix(s: Seq<Contrib>) -> (int, int)
    decreases s.len(),
{
    if s.len() == 0 {
        (0, 1)
    } else if s.len() == 1 {
        (s[0].value, 1)
    } else {
        let prior = exact_mix(s.drop_last());
        let w = s.last().weight;
        let p = s.last().value;
        let bigW = weight_total(s.drop_last());
        // pose' = pose + (w / (W + w)) * (p - pose), over rationals
        (prior.0 * (bigW + w) + w * (p * prior.1 - prior.0), prior.1 * (bigW + w))
    }
}

/// Positive weights make a positive total.
proof fn lemma_weight_total_pos(s: Seq<Contrib>)
    requires
        s.len() >= 1,
        forall|i: int| 0 <= i < s.len() ==> (#[trigger] s[i]).weight > 0,
    ensures
        weight_total(s) > 0,
    decreases s.len(),
{
    if s.len() == 1 {
        assert(weight_total(s) == weight_total(s.drop_last()) + s.last().weight);
        assert(weight_total(s.drop_last()) == 0);
    } else {
        lemma_weight_total_pos(s.drop_last());
        assert(weight_total(s) == weight_total(s.drop_last()) + s.last().weight);
    }
}

/// Weight proportionality: over exact arithmetic the blend recurrence
/// mixes to the weighted average of the contributions — its value as a
/// rational equals `(sum of w * v) / (sum of w)` — so each contribution
/// holds exactly its weight's proportion of the final pose.
pub proof fn lemma_exact_mix_is_weighted_average(s: Seq<Contrib>)
    requires
        s.len() >= 1,
        forall|i: int| 0 <= i < s.len() ==> (#[trigger] s[i]).weight > 0,
    ensures
        exact_mix(s).1 > 0,
        exact_mix(s).0 * weight_total(s) == moment_total(s) * exact_mix(s).1,
    decreases s.len(),
{
    if s.len() == 1 {
        assert(weight_total(s) == weight_total(s.drop_last()) + s.last().weight);
        assert(moment_total(s) == moment_total(s.drop_last()) + s.last().weight * s.last().value);
        assert(seq_total(s.drop_last(), |c: Contrib| c.weight) == 0);
        assert(seq_total(s.drop_last(), |c: Contrib| c.weight * c.value) == 0);
        assert(s[0] == s.last());
        assert(exact_mix(s).0 * weight_total(s) == moment_total(s) * exact_mix(s).1)
            by (nonlinear_arith)
            requires
                exact_mix(s) == (s[0].value, 1int),
                weight_total(s) == s[0].weight,
                moment_total(s) == s[0].weight * s[0].value,
        ;
    } else {
        let dl = s.drop_last();
        assert(forall|i: int| 0 <= i < dl.len() ==> (#[trigger] dl[i]).weight > 0);
        lemma_exact_mix_is_weighted_average(dl);
        lemma_weight_total_pos(dl);
        let prior = exact_mix(dl);
        let w = s.last().weight;
        let p = s.last().value;
        let bigW = weight_total(dl);
        let bigM = moment_total(dl);
        assert(weight_total(s) == bigW + w);
        assert(moment_total(s) == bigM + w * p);
        assert(exact_mix(s).1 > 0) by (nonlinear_arith)
            requires
                exact_mix(s).1 == prior.1 * (bigW + w),
                prior.1 > 0,
                bigW > 0,
                w > 0,
        ;
        // the step identity: mixing in one more contribution moves the
        // pose from M/W to (M + w p) / (W + w)
        let numer = prior.0 * (bigW + w) + w * (p * prior.1 - prior.0);
        assert(numer == (bigM + w * p) * prior.1) by (nonlinear_arith)
            requires
                prior.0 * bigW == bigM * prior.1,
                numer == prior.0 * (bigW + w) + w * (p * prior.1 - prior.0),
        ;
        assert(numer * (bigW + w) == (bigM + w * p) * (prior.1 * (bigW + w)))
            by (nonlinear_arith)
            requires
                numer == (bigM + w * p) * prior.1,
        ;
        assert(exact_mix(s).0 * weight_total(s) == moment_total(s) * exact_mix(s).1);
    }
}

/// Order independence: two orderings of the same contributions mix, over
/// exact arithmetic, to the same pose — the two rational results are
/// equal by cross-multiplication.
pub proof fn lemma_blend_order_independent(s: Seq<Contrib>, t: Seq<Contrib>)
    requires
        s.len() >= 1,
        s.to_multiset() == t.to_multiset(),
        forall|i: int| 0 <= i < s.len() ==> (#[trigger] s[i]).weight > 0,
    ensures
        exact_mix(s).1 > 0,
        exact_mix(t).1 > 0,
        exact_mix(s).0 * exact_mix(t).1 == exact_mix(t).0 * exact_mix(s).1,
{
    broadcast use vstd::seq_lib::group_to_multiset_ensures;

    assert(t.len() == s.len()) by {
        assert(s.to_multiset().len() == s.len());
        assert(t.to_multiset().len() == t.len());
    }
    assert forall|i: int| 0 <= i < t.len() implies (#[trigger] t[i]).weight > 0 by {
        assert(t.to_multiset().count(t[i]) > 0) by {
            assert(t.contains(t[i]));
        }
        assert(s.contains(t[i]));
        let j = choose|j: int| 0 <= j < s.len() && s[j] == t[i];
        assert(s[j].weight > 0);
    }
    lemma_exact_mix_is_weighted_average(s);
    lemma_exact_mix_is_weighted_average(t);
    lemma_totals_permutation(s, t);
    lemma_weight_total_pos(s);
    let ns = exact_mix(s).0;
    let ds = exact_mix(s).1;
    let nt = exact_mix(t).0;
    let dt = exact_mix(t).1;
    let bigW = weight_total(s);
    let bigM = moment_total(s);
    assert(ns * dt == nt * ds) by (nonlinear_arith)
        requires
            ns * bigW == bigM * ds,
            nt * bigW == bigM * dt,
            bigW > 0,
    ;
}

} // verus!
