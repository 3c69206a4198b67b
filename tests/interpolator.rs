use voxel_engine::physics::{Convergence, Interpolator, CAMERA_HEIGHT_CONVERGENCE, FOV_CONVERGENCE, MAX_FRAME_TIME};

fn hold() -> Convergence {
    Convergence { target: 0, rate: 0 }
}

#[test]
fn steps_follow_elapsed_time() {
    let mut it = Interpolator::new(10_000, 5i64, 0);
    it.step(35_000, &hold());
    assert_eq!(it.t, 30_000);
    assert_eq!(it.accumulator, 5_000);
    it.step(41_000, &hold());
    assert_eq!(it.t, 40_000);
    assert_eq!(it.accumulator, 1_000);
    assert_eq!(it.current_time, 41_000);
}

#[test]
fn accumulator_stays_below_dt_over_irregular_calls() {
    let mut it = Interpolator::new(16_667, 0i64, 0);
    let nows = [1u64, 9_000, 9_001, 40_000, 40_000, 90_123, 100_000, 133_334];
    for now in nows {
        it.step(now, &hold());
        assert!(it.accumulator < it.dt);
    }
    assert_eq!(it.t + it.accumulator, 133_334);
    assert_eq!(it.t / it.dt, 133_334 / 16_667);
}

#[test]
fn long_gap_is_clamped() {
    let mut a = Interpolator::new(10_000, 0i64, 0);
    let mut b = Interpolator::new(10_000, 0i64, 0);
    a.step(3_000_000, &hold());
    b.step(MAX_FRAME_TIME, &hold());
    assert_eq!(a.t, b.t);
    assert_eq!(a.t, 250_000);
    assert_eq!(a.accumulator, 0);
}

#[test]
fn fov_converges_and_blends() {
    let mut it = Interpolator::new(10_000, 0i64, 0);
    it.interpolate_fov(10_000, 1_000_000);
    // one step covers FOV_CONVERGENCE * dt = 10 * 0.01 s = a tenth of the way
    assert_eq!(FOV_CONVERGENCE, 10);
    assert_eq!(*it.get_latest_state(), 100_000);
    assert_eq!(it.previous_state, 0);
    assert_eq!(*it.get_interpolated_state(), 0);
    it.interpolate_fov(15_000, 1_000_000);
    assert_eq!(*it.get_latest_state(), 100_000);
    assert_eq!(*it.get_interpolated_state(), 50_000);
}

#[test]
fn camera_height_converges_faster() {
    let mut it = Interpolator::new(10_000, 1_000_000i64, 0);
    it.interpolate_camera_height(20_000, 0);
    assert_eq!(CAMERA_HEIGHT_CONVERGENCE, 20);
    assert_eq!(it.previous_state, 800_000);
    assert_eq!(*it.get_latest_state(), 640_000);
}

#[test]
fn interpolated_state_lies_between_states() {
    let mut it = Interpolator::new(10_000, 0i64, 0);
    let mut now = 0u64;
    for k in 0..50u64 {
        now += 3_000 + (k * 7_919) % 9_000;
        it.interpolate_fov(now, 2_000_000);
        let lo = it.previous_state.min(it.current_state);
        let hi = it.previous_state.max(it.current_state);
        let v = *it.get_interpolated_state();
        assert!(lo <= v && v <= hi);
    }
}

#[test]
fn latest_state_can_be_replaced() {
    let mut it = Interpolator::new(10_000, 3i64, 0);
    *it.get_latest_state_mut() = 42;
    assert_eq!(*it.get_latest_state(), 42);
    assert_eq!(it.previous_state, 3);
}
