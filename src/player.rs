//! The player's body and one fixed step of its motion: forces, friction and
//! speed limits, then a sweep through the voxel grid one axis at a time.
use vstd::prelude::*;
use crate::collision::{
    collides, lemma_resolution_stays_clear, lemma_resolved_wf, resolve_axis, resolved, Aabb, Axis, Vec3, POS_LIMIT,
};
use crate::fixed::{interpolate_scalar, lerp, max, min, scale, scaled, SECOND};
use crate::physics::lemma_lerp_between;
use crate::physics::{Interpolatable, Interpolator, StepFunction};
use crate::voxel::VoxelGrid;

verus! {

/// Half the width of the player's box, in length units.
pub const PLAYER_HALF_WIDTH: i64 = 300_000;

/// Height of the player's box, in length units.
pub const PLAYER_HEIGHT: i64 = 1_800_000;

/// Downward acceleration when not flying, in length units per second squared.
pub const GRAVITY: i64 = -32_000_000;

/// Upward speed given by a jump from the ground.
pub const JUMP_SPEED: i64 = 9_000_000;

/// Fraction of horizontal speed lost per second while walking.
pub const WALKING_FRICTION: u64 = 10;

/// Fraction of horizontal speed lost per second while flying.
pub const FLYING_FRICTION: u64 = 5;

/// Fraction of vertical speed lost per second while flying.
pub const FLYING_VERTICAL_FRICTION: u64 = 10;

pub const MAX_WALKING_SPEED: i64 = 5_000_000;

pub const MAX_FLYING_SPEED: i64 = 20_000_000;

pub const MAX_FALLING_SPEED: i64 = 60_000_000;

pub const MAX_FLYING_VERTICAL_SPEED: i64 = 8_000_000;

/// Bound on each component of a velocity or an acceleration.
pub const MOTION_LIMIT: i64 = 0x100_0000_0000;

pub open spec fn vec_bounded(v: Vec3, m: int) -> bool {
    &&& -m <= v.x <= m
    &&& -m <= v.y <= m
    &&& -m <= v.z <= m
}

/// What the input hands the simulation for one frame.
#[derive(Clone, Copy, Debug, PartialEq, Eq, Structural)]
pub struct PlayerInput {
    /// Acceleration that the held movement keys ask for.
    pub acceleration: Vec3,
    pub jump: bool,
    /// The sneak modifier, which keeps a grounded player from walking off a ledge.
    pub sneak: bool,
}

/// Player properties that outlive a physics step.
#[derive(Clone, Copy, Debug, PartialEq, Eq, Structural)]
pub struct PlayerState {
    pub is_flying: bool,
}

#[derive(Clone, Copy, Debug, PartialEq, Eq, Structural)]
pub struct PlayerPhysicsState {
    pub position: Vec3,
    pub velocity: Vec3,
    pub acceleration: Vec3,
    pub aabb: Aabb,
    pub is_on_ground: bool,
}

/// The position that a player box stands for: the middle of its bottom face.
pub open spec fn position_of(b: Aabb) -> Vec3 {
    Vec3 {
        x: (b.mins.x + PLAYER_HALF_WIDTH) as i64,
        y: b.mins.y,
        z: (b.mins.z + PLAYER_HALF_WIDTH) as i64,
    }
}

/// Whether `b` has the extents of the player's box.
pub open spec fn player_shaped(b: Aabb) -> bool {
    &&& b.wf()
    &&& b.extent(Axis::X) == 2 * PLAYER_HALF_WIDTH
    &&& b.extent(Axis::Y) == PLAYER_HEIGHT
    &&& b.extent(Axis::Z) == 2 * PLAYER_HALF_WIDTH
}

impl PlayerPhysicsState {
    pub open spec fn wf(self) -> bool {
        &&& player_shaped(self.aabb)
        &&& self.position == position_of(self.aabb)
        &&& vec_bounded(self.velocity, MOTION_LIMIT as int)
        &&& vec_bounded(self.acceleration, MOTION_LIMIT as int)
    }

    /// A player at rest standing at `position`, not on the ground.
    pub fn new_at_position(position: Vec3) -> (r: Self)
        requires
            -POS_LIMIT + PLAYER_HALF_WIDTH <= position.x <= POS_LIMIT - PLAYER_HALF_WIDTH,
            -POS_LIMIT <= position.y <= POS_LIMIT - PLAYER_HEIGHT,
            -POS_LIMIT + PLAYER_HALF_WIDTH <= position.z <= POS_LIMIT - PLAYER_HALF_WIDTH,
        ensures
            r.wf(),
            r.position == position,
            r.velocity == (Vec3 { x: 0, y: 0, z: 0 }),
            r.acceleration == (Vec3 { x: 0, y: 0, z: 0 }),
            !r.is_on_ground,
    {
        let mins = Vec3::new(position.x - PLAYER_HALF_WIDTH, position.y, position.z - PLAYER_HALF_WIDTH);
        let maxs = Vec3::new(
            position.x + PLAYER_HALF_WIDTH,
            position.y + PLAYER_HEIGHT,
            position.z + PLAYER_HALF_WIDTH,
        );
        PlayerPhysicsState {
            position,
            velocity: Vec3::new(0, 0, 0),
            acceleration: Vec3::new(0, 0, 0),
            aabb: Aabb::new(mins, maxs),
            is_on_ground: false,
        }
    }
}

/// Acceleration for a step: what the state carries, the input's, and gravity
/// unless flying.
pub open spec fn step_acceleration(s: PlayerPhysicsState, input: PlayerInput, flying: bool) -> Vec3 {
    Vec3 {
        x: (s.acceleration.x + input.acceleration.x) as i64,
        y: (s.acceleration.y + input.acceleration.y + if flying {
            0
        } else {
            GRAVITY as int
        }) as i64,
        z: (s.acceleration.z + input.acceleration.z) as i64,
    }
}

/// A velocity component after integrating `a` over `dt`, losing the fraction
/// `k * dt` (at most all) to friction, and clamping to `[-m, m]`.
pub open spec fn settled(v: int, a: int, dt: int, k: int, m: int) -> int {
    let v1 = v + scaled(a, dt, SECOND as int);
    let v2 = v1 - scaled(v1, min(k * dt, SECOND as int), SECOND as int);
    if v2 > m {
        m
    } else if v2 < -m {
        -m
    } else {
        v2
    }
}

/// Vertical speed at the start of a step: a jump from the ground sets it.
pub open spec fn launch_speed(s: PlayerPhysicsState, input: PlayerInput, flying: bool) -> int {
    if input.jump && s.is_on_ground && !flying {
        JUMP_SPEED as int
    } else {
        s.velocity.y as int
    }
}

/// Velocity for a step's moves.
pub open spec fn step_velocity(s: PlayerPhysicsState, input: PlayerInput, flying: bool, dt: int) -> Vec3 {
    let a = step_acceleration(s, input, flying);
    let (kh, kv, mh, mv) = if flying {
        (FLYING_FRICTION, FLYING_VERTICAL_FRICTION, MAX_FLYING_SPEED, MAX_FLYING_VERTICAL_SPEED)
    } else {
        (WALKING_FRICTION, 0u64, MAX_WALKING_SPEED, MAX_FALLING_SPEED)
    };
    Vec3 {
        x: settled(s.velocity.x as int, a.x as int, dt, kh as int, mh as int) as i64,
        y: settled(launch_speed(s, input, flying), a.y as int, dt, kv as int, mv as int) as i64,
        z: settled(s.velocity.z as int, a.z as int, dt, kh as int, mh as int) as i64,
    }
}

/// Whether moving down at speed `vy` for `dt` would land the box on a solid voxel.
pub open spec fn lands_within(w: VoxelGrid, b: Aabb, vy: int, dt: int) -> bool {
    let d = scaled(vy, dt, SECOND as int);
    d < 0 && resolved(w, b, Axis::Y, d).1
}

/// One axis of the sweep: the state after moving along `a`, and whether that
/// landed it. With `guard` (sneaking from the ground), a horizontal move after
/// which the body would no longer land while falling is undone, and the
/// velocity along that axis dropped.
pub open spec fn axis_step(w: VoxelGrid, s: PlayerPhysicsState, a: Axis, dt: int, guard: bool) -> (
    PlayerPhysicsState,
    bool,
) {
    let d = scaled(s.velocity.at(a) as int, dt, SECOND as int);
    let (b, hit) = resolved(w, s.aabb, a, d);
    let moved = PlayerPhysicsState {
        aabb: b,
        velocity: if hit {
            s.velocity.set(a, 0)
        } else {
            s.velocity
        },
        ..s
    };
    let landed = hit && d < 0 && a == Axis::Y;
    if a != Axis::Y && guard && !lands_within(w, moved.aabb, moved.velocity.y as int, dt) && moved.velocity.y
        < 0 {
        (PlayerPhysicsState { velocity: s.velocity.set(a, 0), ..s }, landed)
    } else {
        (moved, landed)
    }
}

/// The player's state one step of `dt` after `s`.
pub open spec fn player_step(
    w: VoxelGrid,
    input: PlayerInput,
    flying: bool,
    s: PlayerPhysicsState,
    dt: int,
) -> PlayerPhysicsState {
    let s1 = PlayerPhysicsState {
        velocity: step_velocity(s, input, flying, dt),
        acceleration: step_acceleration(s, input, flying),
        ..s
    };
    let guard = input.sneak && s.is_on_ground;
    let (s2, g1) = axis_step(w, s1, Axis::X, dt, guard);
    let (s3, g2) = axis_step(w, s2, Axis::Z, dt, guard);
    let (s4, g3) = axis_step(w, s3, Axis::Y, dt, guard);
    PlayerPhysicsState {
        position: position_of(s4.aabb),
        acceleration: Vec3 { x: 0, y: 0, z: 0 },
        is_on_ground: g1 || g2 || g3,
        ..s4
    }
}

fn settle(v: i64, a: i64, dt: u64, k: u64, m: i64) -> (r: i64)
    requires
        -0x200_0000_0000 <= v <= 0x200_0000_0000,
        -0x800_0000_0000 <= a <= 0x800_0000_0000,
        0 < dt <= SECOND,
        k <= 100,
        0 <= m <= MOTION_LIMIT,
    ensures
        r == settled(v as int, a as int, dt as int, k as int, m as int),
        -m <= r <= m,
{
    let v1 = v + scale(a, dt, SECOND);
    proof {
        vstd::arithmetic::mul::lemma_mul_upper_bound(k as int, 100, dt as int, SECOND as int);
    }
    let f: u64 = if k * dt > SECOND {
        SECOND
    } else {
        k * dt
    };
    let v2 = v1 - scale(v1, f, SECOND);
    if v2 > m {
        m
    } else if v2 < -m {
        -m
    } else {
        v2
    }
}

fn step_velocity_exec(s: &PlayerPhysicsState, input: &PlayerInput, flying: bool, dt: u64) -> (r: (Vec3, Vec3))
    requires
        s.wf(),
        vec_bounded(input.acceleration, MOTION_LIMIT as int),
        0 < dt <= SECOND,
    ensures
        r.0 == step_velocity(*s, *input, flying, dt as int),
        r.1 == step_acceleration(*s, *input, flying),
        vec_bounded(r.0, MOTION_LIMIT as int),
{
    let gravity: i64 = if flying {
        0
    } else {
        GRAVITY
    };
    let a = Vec3::new(
        s.acceleration.x + input.acceleration.x,
        s.acceleration.y + input.acceleration.y + gravity,
        s.acceleration.z + input.acceleration.z,
    );
    let vy: i64 = if input.jump && s.is_on_ground && !flying {
        JUMP_SPEED
    } else {
        s.velocity.y
    };
    let (kh, kv, mh, mv) = if flying {
        (FLYING_FRICTION, FLYING_VERTICAL_FRICTION, MAX_FLYING_SPEED, MAX_FLYING_VERTICAL_SPEED)
    } else {
        (WALKING_FRICTION, 0u64, MAX_WALKING_SPEED, MAX_FALLING_SPEED)
    };
    let v = Vec3::new(
        settle(s.velocity.x, a.x, dt, kh, mh),
        settle(vy, a.y, dt, kv, mv),
        settle(s.velocity.z, a.z, dt, kh, mh),
    );
    (v, a)
}

/// Whether moving down at speed `vy` for `dt` would land the box: see `lands_within`.
fn lands(w: &VoxelGrid, b: &Aabb, vy: i64, dt: u64) -> (r: bool)
    requires
        w.wf(),
        b.wf(),
        0 < dt <= SECOND,
    ensures
        r == lands_within(*w, *b, vy as int, dt as int),
{
    let d = scale(vy, dt, SECOND);
    if d >= 0 {
        return false;
    }
    let (_, hit) = resolve_axis(w, b, Axis::Y, d);
    hit
}

fn axis_step_exec(w: &VoxelGrid, s: &PlayerPhysicsState, a: Axis, dt: u64, guard: bool) -> (r: (
    PlayerPhysicsState,
    bool,
))
    requires
        w.wf(),
        player_shaped(s.aabb),
        vec_bounded(s.velocity, MOTION_LIMIT as int),
        0 < dt <= SECOND,
    ensures
        r == axis_step(*w, *s, a, dt as int, guard),
        player_shaped(r.0.aabb),
        vec_bounded(r.0.velocity, MOTION_LIMIT as int),
        r.0.acceleration == s.acceleration,
        r.0.is_on_ground == s.is_on_ground,
{
    let d = scale(s.velocity.get(a), dt, SECOND);
    let (b, hit) = resolve_axis(w, &s.aabb, a, d);
    let velocity = if hit {
        s.velocity.with(a, 0)
    } else {
        s.velocity
    };
    let moved = PlayerPhysicsState { aabb: b, velocity, ..*s };
    let landed = hit && d < 0 && a == Axis::Y;
    if a != Axis::Y && guard && !lands(w, &moved.aabb, moved.velocity.y, dt) && moved.velocity.y < 0 {
        (PlayerPhysicsState { velocity: s.velocity.with(a, 0), ..*s }, landed)
    } else {
        (moved, landed)
    }
}

/// One fixed step of the player's motion through a voxel grid.
pub struct PlayerStep<'a> {
    pub world: &'a VoxelGrid,
    pub input: PlayerInput,
    pub is_flying: bool,
}

impl<'a> StepFunction<PlayerPhysicsState> for PlayerStep<'a> {
    open spec fn ready(&self) -> bool {
        self.world.wf() && vec_bounded(self.input.acceleration, MOTION_LIMIT as int)
    }

    open spec fn valid(&self, state: PlayerPhysicsState) -> bool {
        state.wf()
    }

    open spec fn next(&self, state: PlayerPhysicsState, t: int, dt: int) -> PlayerPhysicsState {
        player_step(*self.world, self.input, self.is_flying, state, dt)
    }

    fn integrate(&self, state: &PlayerPhysicsState, t: u64, dt: u64) -> (r: PlayerPhysicsState) {
        let (velocity, acceleration) = step_velocity_exec(state, &self.input, self.is_flying, dt);
        let s1 = PlayerPhysicsState { velocity, acceleration, ..*state };
        let guard = self.input.sneak && state.is_on_ground;
        let (s2, g1) = axis_step_exec(self.world, &s1, Axis::X, dt, guard);
        let (s3, g2) = axis_step_exec(self.world, &s2, Axis::Z, dt, guard);
        let (s4, g3) = axis_step_exec(self.world, &s3, Axis::Y, dt, guard);
        let position = Vec3::new(
            s4.aabb.mins.x + PLAYER_HALF_WIDTH,
            s4.aabb.mins.y,
            s4.aabb.mins.z + PLAYER_HALF_WIDTH,
        );
        PlayerPhysicsState {
            position,
            acceleration: Vec3::new(0, 0, 0),
            is_on_ground: g1 || g2 || g3,
            ..s4
        }
    }
}

/// Longest step for which no speed the player can reach carries its box
/// further than its own extent along any axis.
pub const MAX_CLEAR_STEP: u64 = 30_000;

/// Whether each velocity component is within the largest speed along its axis.
pub open spec fn speed_within_limits(v: Vec3) -> bool {
    &&& -MAX_FLYING_SPEED <= v.x <= MAX_FLYING_SPEED
    &&& -MAX_FALLING_SPEED <= v.y <= MAX_FALLING_SPEED
    &&& -MAX_FLYING_SPEED <= v.z <= MAX_FLYING_SPEED
}

proof fn lemma_displacement_bound(v: int, dt: int, m: int)
    requires
        -m <= v <= m,
        0 < dt <= MAX_CLEAR_STEP,
        0 <= m,
    ensures
        -(m * MAX_CLEAR_STEP / SECOND as int) <= scaled(v, dt, SECOND as int) <= m * MAX_CLEAR_STEP / SECOND as int,
{
    let u = if v >= 0 {
        v
    } else {
        -v
    };
    assert(0 <= u * dt <= m * MAX_CLEAR_STEP) by (nonlinear_arith)
        requires
            0 <= u <= m,
            0 < dt <= MAX_CLEAR_STEP,
    ;
    vstd::arithmetic::div_mod::lemma_div_is_ordered(u * dt, m * MAX_CLEAR_STEP, SECOND as int);
    vstd::arithmetic::div_mod::lemma_div_pos_is_pos(u * dt, SECOND as int);
}

proof fn lemma_axis_step_clear(w: VoxelGrid, s: PlayerPhysicsState, a: Axis, dt: int, guard: bool)
    requires
        w.wf(),
        player_shaped(s.aabb),
        !collides(w, s.aabb),
        0 < dt <= MAX_CLEAR_STEP,
        speed_within_limits(s.velocity),
    ensures
        !collides(w, axis_step(w, s, a, dt, guard).0.aabb),
        player_shaped(axis_step(w, s, a, dt, guard).0.aabb),
        speed_within_limits(axis_step(w, s, a, dt, guard).0.velocity),
{
    let v = s.velocity.at(a) as int;
    let m: int = if a == Axis::Y {
        MAX_FALLING_SPEED as int
    } else {
        MAX_FLYING_SPEED as int
    };
    lemma_displacement_bound(v, dt, m);
    let d = scaled(v, dt, SECOND as int);
    lemma_resolved_wf(w, s.aabb, a, d);
    lemma_resolution_stays_clear(w, s.aabb, a, d);
}

/// A step shorter than `MAX_CLEAR_STEP` that starts with the player's box
/// clear of solid voxels ends with it clear of them.
pub proof fn lemma_step_stays_clear(
    w: VoxelGrid,
    input: PlayerInput,
    flying: bool,
    s: PlayerPhysicsState,
    dt: int,
)
    requires
        w.wf(),
        s.wf(),
        !collides(w, s.aabb),
        0 < dt <= MAX_CLEAR_STEP,
    ensures
        !collides(w, player_step(w, input, flying, s, dt).aabb),
{
    let s1 = PlayerPhysicsState {
        velocity: step_velocity(s, input, flying, dt),
        acceleration: step_acceleration(s, input, flying),
        ..s
    };
    let guard = input.sneak && s.is_on_ground;
    lemma_axis_step_clear(w, s1, Axis::X, dt, guard);
    let (s2, g1) = axis_step(w, s1, Axis::X, dt, guard);
    lemma_axis_step_clear(w, s2, Axis::Z, dt, guard);
    let (s3, g2) = axis_step(w, s2, Axis::Z, dt, guard);
    lemma_axis_step_clear(w, s3, Axis::Y, dt, guard);
}

/// Sneaking from the ground, a horizontal move after which the falling body
/// would no longer land is undone: the box stays where it was and the speed
/// along that axis drops to zero; the other velocity components are kept.
pub proof fn lemma_sneak_holds_ledge(w: VoxelGrid, s: PlayerPhysicsState, a: Axis, dt: int)
    requires
        a != Axis::Y,
        s.velocity.y < 0,
        !lands_within(
            w,
            resolved(w, s.aabb, a, scaled(s.velocity.at(a) as int, dt, SECOND as int)).0,
            s.velocity.y as int,
            dt,
        ),
    ensures
        axis_step(w, s, a, dt, true).0.aabb == s.aabb,
        axis_step(w, s, a, dt, true).0.velocity == s.velocity.set(a, 0),
{
}

/// Componentwise `lerp` from `from` to `to`.
pub open spec fn lerp_vec(from: Vec3, to: Vec3, num: int, den: int) -> Vec3 {
    Vec3 {
        x: lerp(from.x as int, to.x as int, num, den) as i64,
        y: lerp(from.y as int, to.y as int, num, den) as i64,
        z: lerp(from.z as int, to.z as int, num, den) as i64,
    }
}

/// Whether `v` lies between `a` and `b` on every axis.
pub open spec fn vec_between(v: Vec3, a: Vec3, b: Vec3) -> bool {
    &&& min(a.x as int, b.x as int) <= v.x <= max(a.x as int, b.x as int)
    &&& min(a.y as int, b.y as int) <= v.y <= max(a.y as int, b.y as int)
    &&& min(a.z as int, b.z as int) <= v.z <= max(a.z as int, b.z as int)
}

fn interpolate_vec(from: &Vec3, to: &Vec3, num: u64, den: u64) -> (r: Vec3)
    requires
        den > 0,
        num <= den,
    ensures
        r == lerp_vec(*from, *to, num as int, den as int),
{
    Vec3::new(
        interpolate_scalar(from.x, to.x, num, den),
        interpolate_scalar(from.y, to.y, num, den),
        interpolate_scalar(from.z, to.z, num, den),
    )
}

impl Interpolatable for PlayerPhysicsState {
    /// Vectors and box corners are blended componentwise; the ground flag is
    /// the current state's.
    open spec fn blend(
        current: PlayerPhysicsState,
        num: int,
        den: int,
        previous: PlayerPhysicsState,
    ) -> PlayerPhysicsState {
        PlayerPhysicsState {
            position: lerp_vec(previous.position, current.position, num, den),
            velocity: lerp_vec(previous.velocity, current.velocity, num, den),
            acceleration: lerp_vec(previous.acceleration, current.acceleration, num, den),
            aabb: Aabb {
                mins: lerp_vec(previous.aabb.mins, current.aabb.mins, num, den),
                maxs: lerp_vec(previous.aabb.maxs, current.aabb.maxs, num, den),
            },
            is_on_ground: current.is_on_ground,
        }
    }

    fn interpolate(&self, alpha_num: u64, alpha_den: u64, other: &PlayerPhysicsState) -> (r: PlayerPhysicsState) {
        PlayerPhysicsState {
            position: interpolate_vec(&other.position, &self.position, alpha_num, alpha_den),
            velocity: interpolate_vec(&other.velocity, &self.velocity, alpha_num, alpha_den),
            acceleration: interpolate_vec(&other.acceleration, &self.acceleration, alpha_num, alpha_den),
            aabb: Aabb {
                mins: interpolate_vec(&other.aabb.mins, &self.aabb.mins, alpha_num, alpha_den),
                maxs: interpolate_vec(&other.aabb.maxs, &self.aabb.maxs, alpha_num, alpha_den),
            },
            is_on_ground: self.is_on_ground,
        }
    }
}

proof fn lemma_lerp_vec_between(from: Vec3, to: Vec3, num: int, den: int)
    requires
        0 < den,
        0 <= num <= den,
    ensures
        vec_between(lerp_vec(from, to, num, den), from, to),
{
    lemma_lerp_between(from.x as int, to.x as int, num, den);
    lemma_lerp_between(from.y as int, to.y as int, num, den);
    lemma_lerp_between(from.z as int, to.z as int, num, den);
}

/// The blended player state lies between the previous and the current state
/// in every vector and box corner, and takes the current ground flag.
pub proof fn lemma_player_blend_between(
    current: PlayerPhysicsState,
    num: int,
    den: int,
    previous: PlayerPhysicsState,
)
    requires
        0 < den,
        0 <= num <= den,
    ensures
        ({
            let b = <PlayerPhysicsState as Interpolatable>::blend(current, num, den, previous);
            &&& vec_between(b.position, previous.position, current.position)
            &&& vec_between(b.velocity, previous.velocity, current.velocity)
            &&& vec_between(b.acceleration, previous.acceleration, current.acceleration)
            &&& vec_between(b.aabb.mins, previous.aabb.mins, current.aabb.mins)
            &&& vec_between(b.aabb.maxs, previous.aabb.maxs, current.aabb.maxs)
            &&& b.is_on_ground == current.is_on_ground
        }),
{
    lemma_lerp_vec_between(previous.position, current.position, num, den);
    lemma_lerp_vec_between(previous.velocity, current.velocity, num, den);
    lemma_lerp_vec_between(previous.acceleration, current.acceleration, num, den);
    lemma_lerp_vec_between(previous.aabb.mins, current.aabb.mins, num, den);
    lemma_lerp_vec_between(previous.aabb.maxs, current.aabb.maxs, num, den);
}

impl Interpolator<PlayerPhysicsState> {
    /// Advances the player's physics to wall-clock time `now` through `world`,
    /// with the input of this frame. A player that ends on the ground stops flying.
    pub fn update_player_physics(
        &mut self,
        now: u64,
        input: &PlayerInput,
        world: &VoxelGrid,
        player_properties: &mut PlayerState,
    )
        requires
            old(self).wf(),
            old(self).current_state.wf(),
            now >= old(self).current_time,
            world.wf(),
            vec_bounded(input.acceleration, MOTION_LIMIT as int),
        ensures
            final(self).advanced_from(
                *old(self),
                now,
                PlayerStep { world, input: *input, is_flying: old(player_properties).is_flying },
            ),
            final(self).current_state.wf(),
            final(player_properties).is_flying == (old(player_properties).is_flying
                && !final(self).current_state.is_on_ground),
    {
        let stepper = PlayerStep { world, input: *input, is_flying: player_properties.is_flying };
        self.step(now, &stepper);
        if self.current_state.is_on_ground {
            player_properties.is_flying = false;
        }
    }
}

} // verus!
