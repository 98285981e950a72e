//! The playback state machines: cycle fades and retirement, and the
//! full action lifecycle.

use cal3d::animation::{CalAnimationAction, CalAnimationCycle, State};
use cal3d::scalar::FP_ONE;

#[test]
fn cycle_fades_toward_its_target() {
    let mut cycle = CalAnimationCycle::new(0, 0, 2 * FP_ONE);
    assert!(cycle.blend(FP_ONE, FP_ONE));
    // halfway through the fade window: half the target weight
    assert!(cycle.update(500_000));
    assert_eq!(cycle.getWeight(), 500_000);
    // the rest of the window: snap to the target
    assert!(cycle.update(500_000));
    assert_eq!(cycle.getWeight(), FP_ONE);
}

#[test]
fn cycle_fading_to_zero_retires_exactly_at_zero() {
    let mut cycle = CalAnimationCycle::new(1, 0, 2 * FP_ONE);
    assert!(cycle.blend(FP_ONE, 0));
    assert!(cycle.update(100_000));
    // fade out over 0.3 seconds, then tick well past the window
    assert!(cycle.blend(0, 300_000));
    let alive = cycle.update(500_000);
    assert!(!alive);
    assert_eq!(cycle.getWeight(), 0);
}

#[test]
fn async_cycle_wraps_its_own_clock() {
    let mut cycle = CalAnimationCycle::new(2, 0, 2 * FP_ONE);
    cycle.blend(FP_ONE, 0);
    cycle.setAsync(0, 0);
    assert!(matches!(cycle.getState(), State::STATE_ASYNC));
    // 2.5 seconds into a 2-second loop lands at 0.5
    assert!(cycle.update(2_500_000));
    assert_eq!(cycle.getTime(), 500_000);
}

#[test]
fn action_runs_in_steady_out_and_ends() {
    let mut action = CalAnimationAction::new(0, FP_ONE);
    action.execute(200_000, 200_000, FP_ONE, false);
    assert!(matches!(action.getState(), State::STATE_IN));

    // t = 0.1: ramping in, at half weight
    assert!(action.update(100_000));
    assert!(matches!(action.getState(), State::STATE_IN));
    assert_eq!(action.getWeight(), 500_000);

    // t = 0.5: steady at full weight
    assert!(action.update(400_000));
    assert!(matches!(action.getState(), State::STATE_STEADY));
    assert_eq!(action.getWeight(), FP_ONE);

    // t = 0.9: ramping out, at half weight
    assert!(action.update(400_000));
    assert!(matches!(action.getState(), State::STATE_OUT));
    assert_eq!(action.getWeight(), 500_000);

    // t = 1.0: the action has ended
    let alive = action.update(100_000);
    assert!(!alive);
    assert_eq!(action.getWeight(), 0);
}

#[test]
fn auto_locked_action_freezes_on_the_last_frame() {
    let mut action = CalAnimationAction::new(0, FP_ONE);
    action.execute(0, 0, FP_ONE, true);
    assert!(action.update(600_000));
    assert!(matches!(action.getState(), State::STATE_STEADY));
    // past the end: stopped, clamped to the duration, still on
    assert!(action.update(600_000));
    assert!(matches!(action.getState(), State::STATE_STOPPED));
    assert_eq!(action.getTime(), FP_ONE);
    assert!(action.isOn());
    assert_eq!(action.getWeight(), FP_ONE);
}
