//! Animation instances: the looping cycle and the one-shot action, each
//! a playback cursor (time, weight, blend target, state) over a shared
//! core animation.

use vstd::prelude::*;

use crate::scalar::{fp_add, fp_div, fp_mul, fp_rem, fp_sub};
use crate::scalar::{fp_diff, fp_prod, fp_quot, fp_sum, fp_trem, FP_ONE};

verus! {

/// What kind of animation an instance plays.
#[derive(Clone, Copy, Debug, PartialEq, Eq, Structural)]
pub enum Type {
    TYPE_NONE,
    TYPE_CYCLE,
    TYPE_POSE,
    TYPE_ACTION,
}

/// The playback states: cycles are `SYNC`/`ASYNC`, actions run
/// `IN -> STEADY -> OUT` (or freeze in `STOPPED` when auto-locked).
#[derive(Clone, Copy, Debug, PartialEq, Eq, Structural)]
pub enum State {
    STATE_NONE,
    STATE_SYNC,
    STATE_ASYNC,
    STATE_IN,
    STATE_STEADY,
    STATE_OUT,
    STATE_STOPPED,
}

/// How an action composes onto what is below it: `Replace` and
/// `CrossFade` attenuate later influences, `Average` and `Null` do not.
#[derive(Clone, Copy, Debug, PartialEq, Eq, Structural)]
pub enum CompositionFunction {
    CompositionFunctionNull,
    CompositionFunctionReplace,
    CompositionFunctionAverage,
    CompositionFunctionCrossFade,
}

/// Whether an action advances on its own or is driven by the host.
#[derive(Clone, Copy, Debug, PartialEq, Eq, Structural)]
pub enum SequencingMode {
    SequencingModeNull,
    SequencingModeAutomatic,
    SequencingModeManual,
}

/// Magnitude with saturation at the `i64` range.
pub open spec fn abs_sat(x: int) -> int {
    if x < 0 {
        fp_diff(0, x)
    } else {
        x
    }
}

/// The mathematical value of a cycle instance.
pub struct CycleV {
    pub instance_id: int,
    pub core_animation_id: int,
    pub core_duration: int,
    pub state: State,
    pub time: int,
    pub time_factor: int,
    pub weight: int,
    pub target_delay: int,
    pub target_weight: int,
}

/// `update` on a cycle: within the fade window the weight interpolates
/// toward the target by `dt / delay`; once the window is spent it snaps
/// to the target. An `ASYNC` cycle advances its own clock, wrapping
/// modulo the animation's duration.
pub open spec fn cycle_update_spec(c: CycleV, dt: int) -> CycleV
    recommends
        c.core_duration > 0,
{
    let faded = if c.target_delay <= abs_sat(dt) {
        CycleV { weight: c.target_weight, target_delay: 0, ..c }
    } else {
        let factor = fp_quot(dt, c.target_delay);
        CycleV {
            weight: fp_sum(
                fp_prod(fp_diff(FP_ONE as int, factor), c.weight),
                fp_prod(factor, c.target_weight),
            ),
            target_delay: fp_diff(c.target_delay, dt),
            ..c
        }
    };
    if faded.state is STATE_ASYNC {
        let advanced = fp_sum(faded.time, fp_prod(dt, faded.time_factor));
        let wrapped = if advanced >= faded.core_duration {
            fp_trem(advanced, faded.core_duration)
        } else {
            advanced
        };
        let positive = if wrapped < 0 {
            fp_sum(wrapped, faded.core_duration)
        } else {
            wrapped
        };
        CycleV { time: positive, ..faded }
    } else {
        faded
    }
}

/// Whether the cycle survives the update: it retires exactly when the
/// fade window is spent and the target weight is zero.
pub open spec fn cycle_alive_spec(c: CycleV, dt: int) -> bool {
    !(c.target_delay <= abs_sat(dt) && c.target_weight == 0)
}

/// A forward tick keeps a cycle's ranges: the weight interpolates
/// between two nonnegative weights, and the fade window never turns
/// negative.
pub proof fn lemma_cycle_update_wf(c: CycleV, dt: int)
    requires
        cycle_wf(c),
        dt >= 0,
    ensures
        cycle_wf(cycle_update_spec(c, dt)),
{
    if c.target_delay <= abs_sat(dt) {
    } else {
        crate::scalar::lemma_fp_quot_unit(dt, c.target_delay);
        let factor = fp_quot(dt, c.target_delay);
        crate::scalar::lemma_fp_prod_unit(c.weight, fp_diff(FP_ONE as int, factor));
        crate::scalar::lemma_fp_prod_unit(c.target_weight, factor);
        assert(fp_prod(fp_diff(FP_ONE as int, factor), c.weight) == fp_prod(
            c.weight,
            fp_diff(FP_ONE as int, factor),
        )) by {
            assert(fp_diff(FP_ONE as int, factor) * c.weight == c.weight * fp_diff(
                FP_ONE as int,
                factor,
            )) by (nonlinear_arith);
        }
        assert(fp_prod(factor, c.target_weight) == fp_prod(c.target_weight, factor)) by {
            assert(factor * c.target_weight == c.target_weight * factor) by (nonlinear_arith);
        }
    }
}

/// A looping animation instance. The instance id tells two cycles of
/// the same core animation apart (a new one can start while an old one
/// is still fading out).
#[derive(Clone, Copy, Debug)]
pub struct CalAnimationCycle {
    pub m_instanceId: u64,
    pub m_coreAnimationId: usize,
    pub m_coreDuration: i64,
    pub m_type: Type,
    pub m_state: State,
    pub m_time: i64,
    pub m_timeFactor: i64,
    pub m_weight: i64,
    pub m_targetDelay: i64,
    pub m_targetWeight: i64,
}

impl View for CalAnimationCycle {
    type V = CycleV;

    open spec fn view(&self) -> CycleV {
        CycleV {
            instance_id: self.m_instanceId as int,
            core_animation_id: self.m_coreAnimationId as int,
            core_duration: self.m_coreDuration as int,
            state: self.m_state,
            time: self.m_time as int,
            time_factor: self.m_timeFactor as int,
            weight: self.m_weight as int,
            target_delay: self.m_targetDelay as int,
            target_weight: self.m_targetWeight as int,
        }
    }
}

/// The ranges a live cycle keeps.
pub open spec fn cycle_wf(c: CycleV) -> bool {
    &&& c.core_duration > 0
    &&& 0 <= c.weight
    &&& 0 <= c.target_weight
    &&& 0 <= c.target_delay
}

impl CalAnimationCycle {
    /// A fresh cycle for a core animation: synchronized, zero weight.
    pub fn new(instanceId: u64, coreAnimationId: usize, coreDuration: i64) -> (r: CalAnimationCycle)
        requires
            coreDuration > 0,
        ensures
            r@ == (CycleV {
                instance_id: instanceId as int,
                core_animation_id: coreAnimationId as int,
                core_duration: coreDuration as int,
                state: State::STATE_SYNC,
                time: 0,
                time_factor: FP_ONE as int,
                weight: 0,
                target_delay: 0,
                target_weight: 0,
            }),
            cycle_wf(r@),
    {
        CalAnimationCycle {
            m_instanceId: instanceId,
            m_coreAnimationId: coreAnimationId,
            m_coreDuration: coreDuration,
            m_type: Type::TYPE_CYCLE,
            m_state: State::STATE_SYNC,
            m_time: 0,
            m_timeFactor: FP_ONE,
            m_weight: 0,
            m_targetDelay: 0,
            m_targetWeight: 0,
        }
    }

    pub fn getCoreAnimationId(&self) -> (r: usize)
        ensures
            r as int == self@.core_animation_id,
    {
        self.m_coreAnimationId
    }

    pub fn getState(&self) -> (r: State)
        ensures
            r == self@.state,
    {
        self.m_state
    }

    pub fn getTime(&self) -> (r: i64)
        ensures
            r as int == self@.time,
    {
        self.m_time
    }

    pub fn getTimeFactor(&self) -> (r: i64)
        ensures
            r as int == self@.time_factor,
    {
        self.m_timeFactor
    }

    pub fn getWeight(&self) -> (r: i64)
        ensures
            r as int == self@.weight,
    {
        self.m_weight
    }

    pub fn setState(&mut self, state: State)
        ensures
            final(self)@ == (CycleV { state, ..old(self)@ }),
    {
        self.m_state = state;
    }

    pub fn setTime(&mut self, time: i64)
        ensures
            final(self)@ == (CycleV { time: time as int, ..old(self)@ }),
    {
        self.m_time = time;
    }

    pub fn setWeight(&mut self, weight: i64)
        ensures
            final(self)@ == (CycleV { weight: weight as int, ..old(self)@ }),
    {
        self.m_weight = weight;
    }

    /// Set the fade target: reach `weight` after `delay` seconds.
    pub fn blend(&mut self, weight: i64, delay: i64) -> (r: bool)
        requires
            weight >= 0,
            delay >= 0,
        ensures
            r == true,
            final(self)@ == (CycleV {
                target_weight: weight as int,
                target_delay: delay as int,
                ..old(self)@
            }),
    {
        self.m_targetWeight = weight;
        self.m_targetDelay = delay;
        true
    }

    /// Detach the cycle from the mixer's synchronized clock: scale the
    /// shared time and duration into the cycle's own, and run `ASYNC`
    /// from here on. A cycle already `ASYNC` is left alone.
    pub fn setAsync(&mut self, time: i64, duration: i64)
        requires
            cycle_wf(old(self)@),
        ensures
            old(self)@.state is STATE_ASYNC ==> *final(self) == *old(self),
            !(old(self)@.state is STATE_ASYNC) && duration == 0 ==> final(self)@ == (CycleV {
                state: State::STATE_ASYNC,
                time_factor: FP_ONE as int,
                time: 0,
                ..old(self)@
            }),
            !(old(self)@.state is STATE_ASYNC) && duration != 0 ==> final(self)@ == (CycleV {
                state: State::STATE_ASYNC,
                time_factor: fp_quot(old(self)@.core_duration, duration as int),
                time: fp_quot(fp_prod(time as int, old(self)@.core_duration), duration as int),
                ..old(self)@
            }),
            cycle_wf(final(self)@),
    {
        if !matches!(self.m_state, State::STATE_ASYNC) {
            if duration == 0 {
                self.m_timeFactor = FP_ONE;
                self.m_time = 0;
            } else {
                self.m_timeFactor = fp_div(self.m_coreDuration, duration);
                self.m_time = fp_div(fp_mul(time, self.m_coreDuration), duration);
            }
            self.m_state = State::STATE_ASYNC;
        }
    }

    /// Advance the fade and, for an `ASYNC` cycle, the local clock.
    /// Returns whether the cycle is still active; it retires exactly
    /// when the fade window is spent and the target weight is zero, and
    /// then its weight is exactly zero.
    pub fn update(&mut self, deltaTime: i64) -> (r: bool)
        requires
            cycle_wf(old(self)@),
        ensures
            final(self)@ == cycle_update_spec(old(self)@, deltaTime as int),
            r == cycle_alive_spec(old(self)@, deltaTime as int),
            !r ==> final(self)@.weight == 0,
            deltaTime >= 0 ==> cycle_wf(final(self)@),
    {
        proof {
            if deltaTime >= 0 && old(self)@.target_delay > abs_sat(deltaTime as int) {
                crate::scalar::lemma_fp_quot_unit(deltaTime as int, old(self)@.target_delay);
                crate::scalar::lemma_fp_prod_unit(
                    old(self)@.weight,
                    fp_diff(FP_ONE as int, fp_quot(deltaTime as int, old(self)@.target_delay)),
                );
                crate::scalar::lemma_fp_prod_unit(
                    old(self)@.target_weight,
                    fp_quot(deltaTime as int, old(self)@.target_delay),
                );
            }
        }
        let adt = if deltaTime < 0 {
            fp_sub(0, deltaTime)
        } else {
            deltaTime
        };
        let mut alive = true;
        if self.m_targetDelay <= adt {
            // the fade window is spent: snap to the target weight
            self.m_weight = self.m_targetWeight;
            self.m_targetDelay = 0;
            if self.m_weight == 0 {
                alive = false;
            }
        } else {
            // still fading: interpolate toward the target
            let factor = fp_div(deltaTime, self.m_targetDelay);
            proof {
                let w0 = old(self)@.weight;
                let tw0 = old(self)@.target_weight;
                let inv = fp_diff(FP_ONE as int, factor as int);
                assert(fp_prod(inv, w0) == fp_prod(w0, inv)) by {
                    assert(inv * w0 == w0 * inv) by (nonlinear_arith);
                }
                assert(fp_prod(factor as int, tw0) == fp_prod(tw0, factor as int)) by {
                    assert(factor as int * tw0 == tw0 * factor as int) by (nonlinear_arith);
                }
            }
            self.m_weight = fp_add(
                fp_mul(fp_sub(FP_ONE, factor), self.m_weight),
                fp_mul(factor, self.m_targetWeight),
            );
            self.m_targetDelay = fp_sub(self.m_targetDelay, deltaTime);
        }
        // an asynchronous cycle runs its own clock, wrapped into the
        // animation's duration
        if matches!(self.m_state, State::STATE_ASYNC) {
            self.m_time = fp_add(self.m_time, fp_mul(deltaTime, self.m_timeFactor));
            if self.m_time >= self.m_coreDuration {
                self.m_time = fp_rem(self.m_time, self.m_coreDuration);
            }
            if self.m_time < 0 {
                self.m_time = fp_add(self.m_time, self.m_coreDuration);
            }
        }
        alive
    }
}

/// The mathematical value of an action instance.
pub struct ActionV {
    pub core_animation_id: int,
    pub core_duration: int,
    pub state: State,
    pub time: int,
    pub time_factor: int,
    pub weight: int,
    pub delay_in: int,
    pub delay_out: int,
    pub weight_target: int,
    pub auto_lock: bool,
    pub scale: int,
    pub ramp_value: int,
    pub composition_function: CompositionFunction,
    pub sequencing_mode: SequencingMode,
    pub manual_on: bool,
}

/// `update` on an action. Manual actions are left alone. Otherwise the
/// clock advances (unless `STOPPED`), and the phases run in order: `IN`
/// ramps the weight up linearly over `delay_in` and hands over to
/// `STEADY` at full weight; `STEADY` hands over to `OUT` once the clock
/// enters the last `delay_out` seconds (or, auto-locked, freezes in
/// `STOPPED` on the last frame); `OUT` ramps the weight down linearly,
/// reaching zero at the animation's end.
pub open spec fn action_update_spec(a: ActionV, dt: int) -> ActionV {
    if !(a.sequencing_mode is SequencingModeAutomatic) {
        a
    } else {
        let t = if a.state is STATE_STOPPED {
            a.time
        } else {
            fp_sum(a.time, fp_prod(dt, a.time_factor))
        };
        let a1 = ActionV { time: t, ..a };
        let a2 = if a1.state is STATE_IN {
            if a1.time < a1.delay_in {
                ActionV {
                    weight: fp_prod(fp_quot(a1.time, a1.delay_in), a1.weight_target),
                    ..a1
                }
            } else {
                ActionV { state: State::STATE_STEADY, weight: a1.weight_target, ..a1 }
            }
        } else {
            a1
        };
        let a3 = if a2.state is STATE_STEADY {
            if !a2.auto_lock && a2.time >= fp_diff(a2.core_duration, a2.delay_out) {
                ActionV { state: State::STATE_OUT, ..a2 }
            } else if a2.auto_lock && a2.time > a2.core_duration {
                ActionV { state: State::STATE_STOPPED, time: a2.core_duration, ..a2 }
            } else {
                a2
            }
        } else {
            a2
        };
        if a3.state is STATE_OUT {
            if a3.time < a3.core_duration {
                ActionV {
                    weight: fp_prod(
                        fp_quot(fp_diff(a3.core_duration, a3.time), a3.delay_out),
                        a3.weight_target,
                    ),
                    ..a3
                }
            } else {
                ActionV { weight: 0, ..a3 }
            }
        } else {
            a3
        }
    }
}

/// Whether the action survives the update: it ends exactly when it is
/// automatic and its `OUT` phase has run past the animation's end.
pub open spec fn action_alive_spec(a: ActionV, dt: int) -> bool {
    let r = action_update_spec(a, dt);
    !(a.sequencing_mode is SequencingModeAutomatic && r.state is STATE_OUT && r.time
        >= r.core_duration)
}

/// A one-shot animation instance.
#[derive(Clone, Copy, Debug)]
pub struct CalAnimationAction {
    pub m_coreAnimationId: usize,
    pub m_coreDuration: i64,
    pub m_type: Type,
    pub m_state: State,
    pub m_time: i64,
    pub m_timeFactor: i64,
    pub m_weight: i64,
    pub m_delayIn: i64,
    pub m_delayOut: i64,
    pub m_delayTarget: i64,
    pub m_weightTarget: i64,
    pub m_autoLock: bool,
    pub m_scale: i64,
    pub m_rampValue: i64,
    pub m_compositionFunction: CompositionFunction,
    pub m_sequencingMode: SequencingMode,
    pub m_manualOn: bool,
}

impl View for CalAnimationAction {
    type V = ActionV;

    open spec fn view(&self) -> ActionV {
        ActionV {
            core_animation_id: self.m_coreAnimationId as int,
            core_duration: self.m_coreDuration as int,
            state: self.m_state,
            time: self.m_time as int,
            time_factor: self.m_timeFactor as int,
            weight: self.m_weight as int,
            delay_in: self.m_delayIn as int,
            delay_out: self.m_delayOut as int,
            weight_target: self.m_weightTarget as int,
            auto_lock: self.m_autoLock,
            scale: self.m_scale as int,
            ramp_value: self.m_rampValue as int,
            composition_function: self.m_compositionFunction,
            sequencing_mode: self.m_sequencingMode,
            manual_on: self.m_manualOn,
        }
    }
}

/// The ranges a live action keeps. The clock never runs backward past
/// zero, and the `OUT` phase is entered only inside its fade window, so
/// both weight ramps divide by a positive delay.
pub open spec fn action_wf(a: ActionV) -> bool {
    &&& a.core_duration > 0
    &&& 0 <= a.time
    &&& 0 <= a.time_factor
    &&& 0 <= a.weight
    &&& 0 <= a.delay_in
    &&& 0 <= a.delay_out
    &&& 0 <= a.weight_target
    &&& 0 <= a.ramp_value <= FP_ONE as int
    &&& (a.state is STATE_OUT ==> a.time >= a.core_duration - a.delay_out)
}

impl CalAnimationAction {
    /// A fresh action for a core animation: not yet executing.
    pub fn new(coreAnimationId: usize, coreDuration: i64) -> (r: CalAnimationAction)
        requires
            coreDuration > 0,
        ensures
            action_wf(r@),
            r@ == (ActionV {
                core_animation_id: coreAnimationId as int,
                core_duration: coreDuration as int,
                state: State::STATE_NONE,
                time: 0,
                time_factor: FP_ONE as int,
                weight: 0,
                delay_in: 0,
                delay_out: 0,
                weight_target: 0,
                auto_lock: false,
                scale: FP_ONE as int,
                ramp_value: FP_ONE as int,
                composition_function: CompositionFunction::CompositionFunctionNull,
                sequencing_mode: SequencingMode::SequencingModeNull,
                manual_on: false,
            }),
    {
        CalAnimationAction {
            m_coreAnimationId: coreAnimationId,
            m_coreDuration: coreDuration,
            m_type: Type::TYPE_ACTION,
            m_state: State::STATE_NONE,
            m_time: 0,
            m_timeFactor: FP_ONE,
            m_weight: 0,
            m_delayIn: 0,
            m_delayOut: 0,
            m_delayTarget: 0,
            m_weightTarget: 0,
            m_autoLock: false,
            m_scale: FP_ONE,
            m_rampValue: FP_ONE,
            m_compositionFunction: CompositionFunction::CompositionFunctionNull,
            m_sequencingMode: SequencingMode::SequencingModeNull,
            m_manualOn: false,
        }
    }

    /// Start the action: ramp in over `delayIn`, ramp out over the last
    /// `delayOut` seconds, aim at `weightTarget`; with `autoLock` the
    /// action freezes on the last frame instead of ramping out.
    pub fn execute(&mut self, delayIn: i64, delayOut: i64, weightTarget: i64, autoLock: bool)
        requires
            action_wf(old(self)@),
            delayIn >= 0,
            delayOut >= 0,
            weightTarget >= 0,
        ensures
            final(self)@ == (ActionV {
                state: State::STATE_IN,
                time: 0,
                weight: 0,
                delay_in: delayIn as int,
                delay_out: delayOut as int,
                weight_target: weightTarget as int,
                auto_lock: autoLock,
                sequencing_mode: SequencingMode::SequencingModeAutomatic,
                manual_on: false,
                ..old(self)@
            }),
            action_wf(final(self)@),
    {
        self.m_state = State::STATE_IN;
        self.m_weight = 0;
        self.m_delayIn = delayIn;
        self.m_delayOut = delayOut;
        self.m_time = 0;
        self.m_weightTarget = weightTarget;
        self.m_autoLock = autoLock;
        self.m_sequencingMode = SequencingMode::SequencingModeAutomatic;
        self.m_manualOn = false;
    }

    pub fn getCoreAnimationId(&self) -> (r: usize)
        ensures
            r as int == self@.core_animation_id,
    {
        self.m_coreAnimationId
    }

    pub fn getState(&self) -> (r: State)
        ensures
            r == self@.state,
    {
        self.m_state
    }

    pub fn getTime(&self) -> (r: i64)
        ensures
            r as int == self@.time,
    {
        self.m_time
    }

    pub fn getWeight(&self) -> (r: i64)
        ensures
            r as int == self@.weight,
    {
        self.m_weight
    }

    pub fn getScale(&self) -> (r: i64)
        ensures
            r as int == self@.scale,
    {
        self.m_scale
    }

    pub fn getRampValue(&self) -> (r: i64)
        ensures
            r as int == self@.ramp_value,
    {
        self.m_rampValue
    }

    pub fn getCompositionFunction(&self) -> (r: CompositionFunction)
        ensures
            r == self@.composition_function,
    {
        self.m_compositionFunction
    }

    pub fn setCompositionFunction(&mut self, f: CompositionFunction)
        ensures
            final(self)@ == (ActionV { composition_function: f, ..old(self)@ }),
    {
        self.m_compositionFunction = f;
    }

    pub fn setRampValue(&mut self, rampValue: i64)
        requires
            0 <= rampValue <= FP_ONE,
        ensures
            final(self)@ == (ActionV { ramp_value: rampValue as int, ..old(self)@ }),
    {
        self.m_rampValue = rampValue;
    }

    /// Whether the action contributes a pose this tick: a manual action
    /// when the host switched it on, an automatic one from `execute`
    /// until it ends (a `STOPPED` auto-locked action stays on, frozen).
    pub fn isOn(&self) -> (r: bool)
        ensures
            r == action_on_spec(self@),
    {
        if matches!(self.m_sequencingMode, SequencingMode::SequencingModeManual) {
            self.m_manualOn
        } else {
            matches!(
                self.m_state,
                State::STATE_IN | State::STATE_STEADY | State::STATE_OUT | State::STATE_STOPPED
            )
        }
    }

    /// Advance the action's phase machine. Returns whether it is still
    /// active; manual actions are ignored and never expire.
    pub fn update(&mut self, deltaTime: i64) -> (r: bool)
        requires
            action_wf(old(self)@),
            deltaTime >= 0,
        ensures
            final(self)@ == action_update_spec(old(self)@, deltaTime as int),
            r == action_alive_spec(old(self)@, deltaTime as int),
            !r ==> final(self)@.weight == 0,
            action_wf(final(self)@),
    {
        if !matches!(self.m_sequencingMode, SequencingMode::SequencingModeAutomatic) {
            return true;
        }
        if !matches!(self.m_state, State::STATE_STOPPED) {
            proof {
                let tf = old(self)@.time_factor;
                assert(deltaTime as int * tf >= 0) by (nonlinear_arith)
                    requires
                        deltaTime as int >= 0,
                        tf >= 0,
                ;
                crate::scalar::lemma_fp_tdiv_nonneg(deltaTime as int * tf, FP_ONE as int);
            }
            self.m_time = fp_add(self.m_time, fp_mul(deltaTime, self.m_timeFactor));
        }
        if matches!(self.m_state, State::STATE_IN) {
            if self.m_time < self.m_delayIn {
                proof {
                    crate::scalar::lemma_fp_quot_unit(self@.time, self@.delay_in);
                    crate::scalar::lemma_fp_prod_unit(
                        self@.weight_target,
                        fp_quot(self@.time, self@.delay_in),
                    );
                    let f = fp_quot(self@.time, self@.delay_in);
                    assert(fp_prod(f, self@.weight_target) == fp_prod(self@.weight_target, f)) by {
                        assert(f * self@.weight_target == self@.weight_target * f)
                            by (nonlinear_arith);
                    }
                }
                self.m_weight = fp_mul(fp_div(self.m_time, self.m_delayIn), self.m_weightTarget);
            } else {
                self.m_state = State::STATE_STEADY;
                self.m_weight = self.m_weightTarget;
            }
        }
        if matches!(self.m_state, State::STATE_STEADY) {
            if !self.m_autoLock && self.m_time >= fp_sub(self.m_coreDuration, self.m_delayOut) {
                self.m_state = State::STATE_OUT;
            } else if self.m_autoLock && self.m_time > self.m_coreDuration {
                // frozen on the last keyframe
                self.m_state = State::STATE_STOPPED;
                self.m_time = self.m_coreDuration;
            }
        }
        if matches!(self.m_state, State::STATE_OUT) {
            if self.m_time < self.m_coreDuration {
                proof {
                    assert(self@.delay_out > 0);
                    crate::scalar::lemma_fp_quot_unit(
                        fp_diff(self@.core_duration, self@.time),
                        self@.delay_out,
                    );
                    let f = fp_quot(fp_diff(self@.core_duration, self@.time), self@.delay_out);
                    crate::scalar::lemma_fp_prod_nonneg(f, self@.weight_target);
                    assert(fp_prod(f, self@.weight_target) == fp_prod(self@.weight_target, f)) by {
                        assert(f * self@.weight_target == self@.weight_target * f)
                            by (nonlinear_arith);
                    }
                }
                self.m_weight = fp_mul(
                    fp_div(fp_sub(self.m_coreDuration, self.m_time), self.m_delayOut),
                    self.m_weightTarget,
                );
            } else {
                // the action has run past its end
                self.m_weight = 0;
                return false;
            }
        }
        true
    }
}

/// Whether an action contributes a pose this tick.
pub open spec fn action_on_spec(a: ActionV) -> bool {
    if a.sequencing_mode is SequencingModeManual {
        a.manual_on
    } else {
        a.state is STATE_IN || a.state is STATE_STEADY || a.state is STATE_OUT || a.state
            is STATE_STOPPED
    }
}

} // verus!
