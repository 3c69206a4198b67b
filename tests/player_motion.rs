use voxel_engine::collision::Vec3;
use voxel_engine::physics::{Interpolator, StepFunction};
use voxel_engine::player::{PlayerInput, PlayerPhysicsState, PlayerState, PlayerStep};
use voxel_engine::voxel::{BlockID, VoxelGrid};

const B: i64 = 1_000_000;
const DT: u64 = 16_667;

fn still() -> PlayerInput {
    PlayerInput { acceleration: Vec3::new(0, 0, 0), jump: false, sneak: false }
}

fn floor_world() -> VoxelGrid {
    let mut w = VoxelGrid::new(-4, -4, -4, 8, 16, 8);
    for x in -4..4 {
        for z in -4..4 {
            w.set_block(BlockID::Dirt, x, 0, z);
        }
    }
    w
}

#[test]
fn body_falls_and_settles_on_floor() {
    let w = floor_world();
    let start = PlayerPhysicsState::new_at_position(Vec3::new(B / 2, 10 * B, B / 2));
    let mut it = Interpolator::new(DT, start, 0);
    let mut props = PlayerState { is_flying: false };
    let mut now = 0u64;
    for _ in 0..300 {
        now += DT;
        it.update_player_physics(now, &still(), &w, &mut props);
    }
    let s = it.get_latest_state();
    assert_eq!(s.aabb.mins.y, B);
    assert_eq!(s.position.y, B);
    assert_eq!(s.velocity.y, 0);
    assert!(s.is_on_ground);
    assert_eq!(s.position.x, B / 2);
    assert_eq!(s.acceleration, Vec3::new(0, 0, 0));
}

#[test]
fn first_step_integrates_gravity() {
    let w = floor_world();
    let start = PlayerPhysicsState::new_at_position(Vec3::new(B / 2, 10 * B, B / 2));
    let step = PlayerStep { world: &w, input: still(), is_flying: false };
    let s = step.integrate(&start, 0, DT);
    // 32 blocks/s^2 over 16_667 us, then that speed over the same time
    assert_eq!(s.velocity.y, -533_344);
    assert_eq!(s.position.y, 10 * B - 8_889);
    assert!(!s.is_on_ground);
}

#[test]
fn landing_clears_flight() {
    let w = floor_world();
    let start = PlayerPhysicsState::new_at_position(Vec3::new(B / 2, B + 1_000, B / 2));
    let mut it = Interpolator::new(DT, start, 0);
    let mut props = PlayerState { is_flying: true };
    let down = PlayerInput { acceleration: Vec3::new(0, -20 * B, 0), jump: false, sneak: false };
    it.update_player_physics(DT * 3, &down, &w, &mut props);
    assert!(it.get_latest_state().is_on_ground);
    assert!(!props.is_flying);
}

#[test]
fn diagonal_move_stops_in_both_axes_at_corner() {
    let mut w = floor_world();
    for y in 1..3 {
        for z in -4..4 {
            w.set_block(BlockID::Cobblestone, 1, y, z);
        }
        for x in -4..4 {
            w.set_block(BlockID::Cobblestone, x, y, 1);
        }
    }
    let mut s = PlayerPhysicsState::new_at_position(Vec3::new(B / 2, B, B / 2));
    let push = PlayerInput { acceleration: Vec3::new(100 * B, 0, 100 * B), jump: false, sneak: false };
    let step = PlayerStep { world: &w, input: push, is_flying: false };
    for k in 0..60u64 {
        s = step.integrate(&s, k * DT, DT);
    }
    assert_eq!(s.aabb.maxs.x, B);
    assert_eq!(s.aabb.maxs.z, B);
    assert_eq!(s.aabb.mins.y, B);
    assert_eq!(s.position, Vec3::new(B - 300_000, B, B - 300_000));
}

fn ledge_world() -> VoxelGrid {
    let mut w = VoxelGrid::new(-4, -4, -4, 8, 8, 8);
    w.set_block(BlockID::Dirt, 0, 0, 0);
    w
}

fn at_ledge() -> PlayerPhysicsState {
    let mut s = PlayerPhysicsState::new_at_position(Vec3::new(1_250_000, B, B / 2));
    s.velocity = Vec3::new(5 * B, 0, 0);
    s.is_on_ground = true;
    s
}

#[test]
fn sneaking_keeps_body_on_ledge() {
    let w = ledge_world();
    let input = PlayerInput { acceleration: Vec3::new(0, 0, 0), jump: false, sneak: true };
    let step = PlayerStep { world: &w, input, is_flying: false };
    let s = step.integrate(&at_ledge(), 0, DT);
    assert_eq!(s.aabb.mins.x, 950_000);
    assert_eq!(s.velocity.x, 0);
    assert_eq!(s.aabb.mins.y, B);
    assert!(s.is_on_ground);
}

#[test]
fn without_sneak_body_walks_off_ledge() {
    let w = ledge_world();
    let step = PlayerStep { world: &w, input: still(), is_flying: false };
    let s = step.integrate(&at_ledge(), 0, DT);
    assert_eq!(s.aabb.mins.x, 950_000 + 69_445);
    assert_eq!(s.aabb.mins.y, B - 8_889);
    assert!(!s.is_on_ground);
}

#[test]
fn jump_from_ground() {
    let w = floor_world();
    let mut s = PlayerPhysicsState::new_at_position(Vec3::new(B / 2, B, B / 2));
    s.is_on_ground = true;
    let input = PlayerInput { acceleration: Vec3::new(0, 0, 0), jump: true, sneak: false };
    let step = PlayerStep { world: &w, input, is_flying: false };
    let s = step.integrate(&s, 0, DT);
    assert_eq!(s.velocity.y, 9 * B - 533_344);
    assert!(s.position.y > B);
    assert!(!s.is_on_ground);
}

#[test]
fn walking_speed_is_limited() {
    let w = floor_world();
    let mut s = PlayerPhysicsState::new_at_position(Vec3::new(0, B, 0));
    s.is_on_ground = true;
    let input = PlayerInput { acceleration: Vec3::new(0, 0, -1_000 * B), jump: false, sneak: false };
    let step = PlayerStep { world: &w, input, is_flying: false };
    let s = step.integrate(&s, 0, DT);
    assert_eq!(s.velocity.z, -5 * B);
}

#[test]
fn blend_is_between_player_states() {
    let w = floor_world();
    let start = PlayerPhysicsState::new_at_position(Vec3::new(B / 2, 10 * B, B / 2));
    let mut it = Interpolator::new(DT, start, 0);
    let mut props = PlayerState { is_flying: false };
    it.update_player_physics(DT * 5 + DT / 2, &still(), &w, &mut props);
    let p = it.previous_state.position.y;
    let c = it.current_state.position.y;
    let v = it.get_interpolated_state().position.y;
    assert!(c < v && v < p);
}
