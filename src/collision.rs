//! Axis-aligned boxes and their resolution against the voxel grid, one axis
//! at a time.
use vstd::prelude::*;
use vstd::arithmetic::div_mod::*;
use crate::fixed::{voxel_floor, BLOCK};
use crate::voxel::{VoxelGrid, GRID_LIMIT};

verus! {

/// Largest absolute coordinate of a box corner, in length units.
pub const POS_LIMIT: i64 = 0x4_0000_0000_0000;

/// Largest extent of a box along one axis, in length units.
pub const SIZE_LIMIT: i64 = 0x100_0000_0000;

#[derive(Clone, Copy, Debug, PartialEq, Eq, Structural)]
pub enum Axis {
    X,
    Y,
    Z,
}

#[derive(Clone, Copy, Debug, PartialEq, Eq, Structural)]
pub struct Vec3 {
    pub x: i64,
    pub y: i64,
    pub z: i64,
}

impl Vec3 {
    pub open spec fn at(self, a: Axis) -> i64 {
        match a {
            Axis::X => self.x,
            Axis::Y => self.y,
            Axis::Z => self.z,
        }
    }

    pub open spec fn set(self, a: Axis, v: i64) -> Vec3 {
        match a {
            Axis::X => Vec3 { x: v, ..self },
            Axis::Y => Vec3 { y: v, ..self },
            Axis::Z => Vec3 { z: v, ..self },
        }
    }

    pub fn new(x: i64, y: i64, z: i64) -> (r: Vec3)
        ensures
            r == (Vec3 { x, y, z }),
    {
        Vec3 { x, y, z }
    }

    pub fn get(&self, a: Axis) -> (r: i64)
        ensures
            r == self.at(a),
    {
        match a {
            Axis::X => self.x,
            Axis::Y => self.y,
            Axis::Z => self.z,
        }
    }

    pub fn with(&self, a: Axis, v: i64) -> (r: Vec3)
        ensures
            r == self.set(a, v),
    {
        match a {
            Axis::X => Vec3 { x: v, ..*self },
            Axis::Y => Vec3 { y: v, ..*self },
            Axis::Z => Vec3 { z: v, ..*self },
        }
    }
}

/// A box spanning `[mins, maxs)` on each axis.
#[derive(Clone, Copy, Debug, PartialEq, Eq, Structural)]
pub struct Aabb {
    pub mins: Vec3,
    pub maxs: Vec3,
}

/// The voxel that holds coordinate `c`.
pub open spec fn voxel_of(c: int) -> int {
    c / BLOCK as int
}

pub open spec fn axis_wf(lo: int, hi: int) -> bool {
    -POS_LIMIT <= lo < hi <= POS_LIMIT && hi - lo <= SIZE_LIMIT
}

impl Aabb {
    pub open spec fn wf(self) -> bool {
        &&& axis_wf(self.mins.x as int, self.maxs.x as int)
        &&& axis_wf(self.mins.y as int, self.maxs.y as int)
        &&& axis_wf(self.mins.z as int, self.maxs.z as int)
    }

    pub open spec fn extent(self, a: Axis) -> int {
        self.maxs.at(a) - self.mins.at(a)
    }

    pub open spec fn same_extent(self, other: Aabb) -> bool {
        &&& self.extent(Axis::X) == other.extent(Axis::X)
        &&& self.extent(Axis::Y) == other.extent(Axis::Y)
        &&& self.extent(Axis::Z) == other.extent(Axis::Z)
    }

    /// Lowest voxel index that the box reaches along `a`.
    pub open spec fn lo(self, a: Axis) -> int {
        voxel_of(self.mins.at(a) as int)
    }

    /// Highest voxel index that the box reaches along `a`.
    pub open spec fn hi(self, a: Axis) -> int {
        voxel_of(self.maxs.at(a) - 1)
    }

    /// Whether the box and voxel `(x, y, z)` share interior points.
    pub open spec fn overlaps_voxel(self, x: int, y: int, z: int) -> bool {
        &&& self.lo(Axis::X) <= x <= self.hi(Axis::X)
        &&& self.lo(Axis::Y) <= y <= self.hi(Axis::Y)
        &&& self.lo(Axis::Z) <= z <= self.hi(Axis::Z)
    }

    /// The box with its range along `a` starting at `v`, its extent kept.
    pub open spec fn placed_at(self, a: Axis, v: int) -> Aabb {
        Aabb {
            mins: self.mins.set(a, v as i64),
            maxs: self.maxs.set(a, (v + self.extent(a)) as i64),
        }
    }

    /// The box moved by `d` along `a`, held inside the representable world.
    pub open spec fn shifted(self, a: Axis, d: int) -> Aabb {
        let size = self.extent(a);
        let v = self.mins.at(a) + d;
        let v = if v < -POS_LIMIT {
            -POS_LIMIT as int
        } else if v > POS_LIMIT - size {
            POS_LIMIT - size
        } else {
            v
        };
        self.placed_at(a, v)
    }

    /// The box `[mins, maxs)`.
    pub fn new(mins: Vec3, maxs: Vec3) -> (r: Aabb)
        ensures
            r == (Aabb { mins, maxs }),
    {
        Aabb { mins, maxs }
    }

    /// Whether the two boxes share interior points.
    pub fn intersects(&self, other: &Aabb) -> (r: bool)
        ensures
            r == (self.mins.x < other.maxs.x && other.mins.x < self.maxs.x && self.mins.y < other.maxs.y
                && other.mins.y < self.maxs.y && self.mins.z < other.maxs.z && other.mins.z < self.maxs.z),
    {
        self.mins.x < other.maxs.x && other.mins.x < self.maxs.x && self.mins.y < other.maxs.y
            && other.mins.y < self.maxs.y && self.mins.z < other.maxs.z && other.mins.z < self.maxs.z
    }

    pub fn place_at(&self, a: Axis, v: i64) -> (r: Aabb)
        requires
            self.wf(),
            -POS_LIMIT <= v <= POS_LIMIT - self.extent(a),
        ensures
            r == self.placed_at(a, v as int),
            r.wf(),
            r.same_extent(*self),
    {
        let size = self.maxs.get(a) - self.mins.get(a);
        Aabb { mins: self.mins.with(a, v), maxs: self.maxs.with(a, v + size) }
    }

    pub fn shift(&self, a: Axis, d: i64) -> (r: Aabb)
        requires
            self.wf(),
        ensures
            r == self.shifted(a, d as int),
            r.wf(),
            r.same_extent(*self),
    {
        let size = self.maxs.get(a) - self.mins.get(a);
        let v: i128 = self.mins.get(a) as i128 + d as i128;
        let v: i64 = if v < -(POS_LIMIT as i128) {
            -POS_LIMIT
        } else if v > (POS_LIMIT - size) as i128 {
            POS_LIMIT - size
        } else {
            v as i64
        };
        self.place_at(a, v)
    }
}

/// The box of voxel `(x, y, z)`.
pub fn get_block_aabb(x: i64, y: i64, z: i64) -> (r: Aabb)
    requires
        -GRID_LIMIT <= x < GRID_LIMIT,
        -GRID_LIMIT <= y < GRID_LIMIT,
        -GRID_LIMIT <= z < GRID_LIMIT,
    ensures
        r == (Aabb {
            mins: Vec3 { x: (x * BLOCK) as i64, y: (y * BLOCK) as i64, z: (z * BLOCK) as i64 },
            maxs: Vec3 {
                x: ((x + 1) * BLOCK) as i64,
                y: ((y + 1) * BLOCK) as i64,
                z: ((z + 1) * BLOCK) as i64,
            },
        }),
        r.wf(),
{
    Aabb {
        mins: Vec3 { x: x * BLOCK, y: y * BLOCK, z: z * BLOCK },
        maxs: Vec3 { x: (x + 1) * BLOCK, y: (y + 1) * BLOCK, z: (z + 1) * BLOCK },
    }
}

/// Whether some voxel in the inclusive index ranges `lo..=hi` is solid.
pub open spec fn solid_in(w: VoxelGrid, lo: (int, int, int), hi: (int, int, int)) -> bool {
    exists|x: int, y: int, z: int|
        lo.0 <= x <= hi.0 && lo.1 <= y <= hi.1 && lo.2 <= z <= hi.2 && #[trigger] w.solid(x, y, z)
}

pub open spec fn in_layer_range(i: int, a: Axis, own: Axis, lo: int, hi: int) -> (int, int) {
    if a == own {
        (i, i)
    } else {
        (lo, hi)
    }
}

/// Lowest corner of the voxels that the box reaches, with index `i` along `a`.
pub open spec fn layer_lo(b: Aabb, a: Axis, i: int) -> (int, int, int) {
    (
        in_layer_range(i, a, Axis::X, b.lo(Axis::X), b.hi(Axis::X)).0,
        in_layer_range(i, a, Axis::Y, b.lo(Axis::Y), b.hi(Axis::Y)).0,
        in_layer_range(i, a, Axis::Z, b.lo(Axis::Z), b.hi(Axis::Z)).0,
    )
}

/// Highest corner of the voxels that the box reaches, with index `i` along `a`.
pub open spec fn layer_hi(b: Aabb, a: Axis, i: int) -> (int, int, int) {
    (
        in_layer_range(i, a, Axis::X, b.lo(Axis::X), b.hi(Axis::X)).1,
        in_layer_range(i, a, Axis::Y, b.lo(Axis::Y), b.hi(Axis::Y)).1,
        in_layer_range(i, a, Axis::Z, b.lo(Axis::Z), b.hi(Axis::Z)).1,
    )
}

/// Whether a solid voxel with index `i` along `a` overlaps the box.
pub open spec fn layer_solid(w: VoxelGrid, b: Aabb, a: Axis, i: int) -> bool {
    solid_in(w, layer_lo(b, a, i), layer_hi(b, a, i))
}

/// Whether a solid voxel overlaps the box.
pub open spec fn collides(w: VoxelGrid, b: Aabb) -> bool {
    exists|x: int, y: int, z: int| b.overlaps_voxel(x, y, z) && #[trigger] w.solid(x, y, z)
}

/// Lowest index in `i..=hi` along `a` of a solid voxel overlapping the box; `hi + 1` if none.
pub open spec fn first_solid_layer(w: VoxelGrid, b: Aabb, a: Axis, i: int, hi: int) -> int
    decreases hi + 1 - i,
{
    if i > hi {
        i
    } else if layer_solid(w, b, a, i) {
        i
    } else {
        first_solid_layer(w, b, a, i + 1, hi)
    }
}

/// Highest index in `lo..=i` along `a` of a solid voxel overlapping the box; `lo - 1` if none.
pub open spec fn last_solid_layer(w: VoxelGrid, b: Aabb, a: Axis, lo: int, i: int) -> int
    decreases i + 1 - lo,
{
    if i < lo {
        i
    } else if layer_solid(w, b, a, i) {
        i
    } else {
        last_solid_layer(w, b, a, lo, i - 1)
    }
}

/// The box after moving by `d` along `a` and being pushed back out of the
/// voxels it ran into, and whether it ran into one. Moving up the axis, the
/// box stops against the nearest such voxel's low face; moving down, against
/// its high face.
pub open spec fn resolved(w: VoxelGrid, b: Aabb, a: Axis, d: int) -> (Aabb, bool) {
    let moved = b.shifted(a, d);
    let lo = moved.lo(a);
    let hi = moved.hi(a);
    if d > 0 {
        let m = first_solid_layer(w, moved, a, lo, hi);
        if m <= hi {
            (moved.placed_at(a, m * BLOCK - moved.extent(a)), true)
        } else {
            (moved, false)
        }
    } else if d < 0 {
        let m = last_solid_layer(w, moved, a, lo, hi);
        if m >= lo {
            (moved.placed_at(a, (m + 1) * BLOCK), true)
        } else {
            (moved, false)
        }
    } else {
        (b, false)
    }
}

/// A solid voxel in the inclusive index ranges, if there is one.
pub fn find_solid(w: &VoxelGrid, lo: (i64, i64, i64), hi: (i64, i64, i64)) -> (r: Option<(i64, i64, i64)>)
    requires
        w.wf(),
        hi.0 < i64::MAX,
        hi.1 < i64::MAX,
        hi.2 < i64::MAX,
    ensures
        r is None <==> !solid_in(*w, (lo.0 as int, lo.1 as int, lo.2 as int), (hi.0 as int, hi.1 as int, hi.2 as int)),
        r matches Some(v) ==> lo.0 <= v.0 <= hi.0 && lo.1 <= v.1 <= hi.1 && lo.2 <= v.2 <= hi.2
            && w.solid(v.0 as int, v.1 as int, v.2 as int),
{
    let mut x = lo.0;
    while x <= hi.0
        invariant
            w.wf(),
            hi.0 < i64::MAX,
            hi.1 < i64::MAX,
            hi.2 < i64::MAX,
            lo.0 <= x <= hi.0 + 1 || (x == lo.0 && lo.0 > hi.0),
            forall|a: int, b: int, c: int|
                lo.0 <= a < x && lo.1 <= b <= hi.1 && lo.2 <= c <= hi.2 ==> !#[trigger] w.solid(a, b, c),
        decreases hi.0 + 1 - x,
    {
        let mut y = lo.1;
        while y <= hi.1
            invariant
                w.wf(),
                lo.0 <= x <= hi.0,
                hi.1 < i64::MAX,
                hi.2 < i64::MAX,
                lo.1 <= y <= hi.1 + 1 || (y == lo.1 && lo.1 > hi.1),
                forall|a: int, b: int, c: int|
                    lo.0 <= a < x && lo.1 <= b <= hi.1 && lo.2 <= c <= hi.2 ==> !#[trigger] w.solid(a, b, c),
                forall|b: int, c: int| lo.1 <= b < y && lo.2 <= c <= hi.2 ==> !#[trigger] w.solid(x as int, b, c),
            decreases hi.1 + 1 - y,
        {
            let mut z = lo.2;
            while z <= hi.2
                invariant
                    w.wf(),
                    lo.0 <= x <= hi.0,
                    lo.1 <= y <= hi.1,
                    hi.2 < i64::MAX,
                    lo.2 <= z <= hi.2 + 1 || (z == lo.2 && lo.2 > hi.2),
                    forall|a: int, b: int, c: int|
                        lo.0 <= a < x && lo.1 <= b <= hi.1 && lo.2 <= c <= hi.2 ==> !#[trigger] w.solid(a, b, c),
                    forall|b: int, c: int| lo.1 <= b < y && lo.2 <= c <= hi.2 ==> !#[trigger] w.solid(x as int, b, c),
                    forall|c: int| lo.2 <= c < z ==> !#[trigger] w.solid(x as int, y as int, c),
                decreases hi.2 + 1 - z,
            {
                if w.is_solid_block_at(x, y, z) {
                    return Some((x, y, z));
                }
                z = z + 1;
            }
            y = y + 1;
        }
        x = x + 1;
    }
    None
}

/// Voxel index ranges of the box, narrowed to index `i` along `a`.
fn layer_bounds(b: &Aabb, a: Axis, i: i64) -> (r: ((i64, i64, i64), (i64, i64, i64)))
    requires
        b.wf(),
    ensures
        (r.0.0 as int, r.0.1 as int, r.0.2 as int) == layer_lo(*b, a, i as int),
        (r.1.0 as int, r.1.1 as int, r.1.2 as int) == layer_hi(*b, a, i as int),
        r.1.0 < i64::MAX || a == Axis::X,
        r.1.1 < i64::MAX || a == Axis::Y,
        r.1.2 < i64::MAX || a == Axis::Z,
{
    let (x0, x1) = if a == Axis::X {
        (i, i)
    } else {
        (voxel_floor(b.mins.x), voxel_floor(b.maxs.x - 1))
    };
    let (y0, y1) = if a == Axis::Y {
        (i, i)
    } else {
        (voxel_floor(b.mins.y), voxel_floor(b.maxs.y - 1))
    };
    let (z0, z1) = if a == Axis::Z {
        (i, i)
    } else {
        (voxel_floor(b.mins.z), voxel_floor(b.maxs.z - 1))
    };
    proof {
        lemma_div_is_ordered(b.maxs.x - 1, POS_LIMIT as int, BLOCK as int);
        lemma_div_is_ordered(b.maxs.y - 1, POS_LIMIT as int, BLOCK as int);
        lemma_div_is_ordered(b.maxs.z - 1, POS_LIMIT as int, BLOCK as int);
    }
    ((x0, y0, z0), (x1, y1, z1))
}

proof fn lemma_block_multiple_bounds(i: int)
    requires
        -GRID_LIMIT <= i < GRID_LIMIT,
    ensures
        -GRID_LIMIT * BLOCK <= i * BLOCK < GRID_LIMIT * BLOCK,
        -GRID_LIMIT * BLOCK < (i + 1) * BLOCK <= GRID_LIMIT * BLOCK,
{
    assert(-GRID_LIMIT * BLOCK <= i * BLOCK < GRID_LIMIT * BLOCK) by (nonlinear_arith)
        requires
            -GRID_LIMIT <= i < GRID_LIMIT,
    ;
    assert(-GRID_LIMIT * BLOCK < (i + 1) * BLOCK <= GRID_LIMIT * BLOCK) by (nonlinear_arith)
        requires
            -GRID_LIMIT <= i < GRID_LIMIT,
    ;
}

proof fn lemma_axis_wf(b: Aabb, a: Axis)
    requires
        b.wf(),
    ensures
        axis_wf(b.mins.at(a) as int, b.maxs.at(a) as int),
{
}

proof fn lemma_layer_index(b: Aabb, a: Axis, i: int, x: int, y: int, z: int)
    requires
        layer_lo(b, a, i).0 <= x <= layer_hi(b, a, i).0,
        layer_lo(b, a, i).1 <= y <= layer_hi(b, a, i).1,
        layer_lo(b, a, i).2 <= z <= layer_hi(b, a, i).2,
    ensures
        i == match a {
            Axis::X => x,
            Axis::Y => y,
            Axis::Z => z,
        },
{
}

/// Resolves a move of `d` along `a` against the grid: see `resolved`.
pub fn resolve_axis(w: &VoxelGrid, b: &Aabb, a: Axis, d: i64) -> (r: (Aabb, bool))
    requires
        w.wf(),
        b.wf(),
    ensures
        r == resolved(*w, *b, a, d as int),
        r.0.wf(),
        r.0.same_extent(*b),
{
    if d == 0 {
        return (*b, false);
    }
    let moved = b.shift(a, d);
    let lo = voxel_floor(moved.mins.get(a));
    let hi = voxel_floor(moved.maxs.get(a) - 1);
    let size = moved.maxs.get(a) - moved.mins.get(a);
    proof {
        lemma_axis_wf(moved, a);
        lemma_div_is_ordered(moved.maxs.at(a) - 1, POS_LIMIT as int, BLOCK as int);
        lemma_div_is_ordered(-POS_LIMIT as int, moved.mins.at(a) as int, BLOCK as int);
    }
    if d > 0 {
        let mut i = lo;
        while i <= hi
            invariant
                w.wf(),
                b.wf(),
                moved.wf(),
                moved == b.shifted(a, d as int),
                size == moved.extent(a),
                0 < size <= SIZE_LIMIT,
                d > 0,
                lo == moved.lo(a),
                hi == moved.hi(a),
                hi < i64::MAX,
                lo <= i <= hi + 1,
                first_solid_layer(*w, moved, a, lo as int, hi as int) == first_solid_layer(
                    *w, moved, a, i as int, hi as int),
            decreases hi + 1 - i,
        {
            let (l, h) = layer_bounds(&moved, a, i);
            match find_solid(w, l, h) {
                Some(v) => {
                    proof {
                        w.lemma_solid_is_bounded(v.0 as int, v.1 as int, v.2 as int);
                        lemma_layer_index(moved, a, i as int, v.0 as int, v.1 as int, v.2 as int);
                        assert(layer_solid(*w, moved, a, i as int));
                        assert(-GRID_LIMIT <= i < GRID_LIMIT);
                        lemma_block_multiple_bounds(i as int);
                    }
                    return (moved.place_at(a, i * BLOCK - size), true);
                },
                None => {},
            }
            i = i + 1;
        }
        (moved, false)
    } else {
        let mut i = hi;
        while i >= lo
            invariant
                w.wf(),
                b.wf(),
                moved.wf(),
                moved == b.shifted(a, d as int),
                size == moved.extent(a),
                0 < size <= SIZE_LIMIT,
                d < 0,
                lo == moved.lo(a),
                hi == moved.hi(a),
                lo > i64::MIN,
                lo - 1 <= i <= hi,
                last_solid_layer(*w, moved, a, lo as int, hi as int) == last_solid_layer(
                    *w, moved, a, lo as int, i as int),
            decreases i + 1 - lo,
        {
            let (l, h) = layer_bounds(&moved, a, i);
            match find_solid(w, l, h) {
                Some(v) => {
                    proof {
                        w.lemma_solid_is_bounded(v.0 as int, v.1 as int, v.2 as int);
                        lemma_layer_index(moved, a, i as int, v.0 as int, v.1 as int, v.2 as int);
                        assert(layer_solid(*w, moved, a, i as int));
                        assert(-GRID_LIMIT <= i < GRID_LIMIT);
                        lemma_block_multiple_bounds(i as int);
                    }
                    assert(last_solid_layer(*w, moved, a, lo as int, i as int) == i);
                    return (moved.place_at(a, (i + 1) * BLOCK), true);
                },
                None => {},
            }
            i = i - 1;
        }
        (moved, false)
    }
}

/// Resolving a move along one axis leaves the box's range on every other axis
/// as it was: a later axis cannot undo an earlier one's resolution.
pub proof fn lemma_other_axes_unchanged(w: VoxelGrid, b: Aabb, a: Axis, e: Axis, d: int)
    requires
        w.wf(),
        b.wf(),
        a != e,
    ensures
        resolved(w, b, a, d).0.mins.at(e) == b.mins.at(e),
        resolved(w, b, a, d).0.maxs.at(e) == b.maxs.at(e),
{
}

/// `last_solid_layer` is the highest solid layer in its range, if any.
proof fn lemma_last_solid_layer(w: VoxelGrid, b: Aabb, a: Axis, lo: int, i: int)
    ensures
        lo - 1 <= last_solid_layer(w, b, a, lo, i) <= i || (i < lo && last_solid_layer(w, b, a, lo, i) == i),
        last_solid_layer(w, b, a, lo, i) >= lo ==> layer_solid(w, b, a, last_solid_layer(w, b, a, lo, i)),
        forall|k: int| lo <= k <= i && #[trigger] layer_solid(w, b, a, k) ==> k <= last_solid_layer(w, b, a, lo, i),
    decreases i + 1 - lo,
{
    if i >= lo && !layer_solid(w, b, a, i) {
        lemma_last_solid_layer(w, b, a, lo, i - 1);
    }
}

/// A box moving down into solid voxels comes to rest exactly on the top face
/// of the highest solid voxel that it reached, and the move is a landing.
pub proof fn lemma_lands_on_floor(w: VoxelGrid, b: Aabb, d: int)
    requires
        w.wf(),
        b.wf(),
        d < 0,
        collides(w, b.shifted(Axis::Y, d)),
    ensures
        ({
            let moved = b.shifted(Axis::Y, d);
            let (r, hit) = resolved(w, b, Axis::Y, d);
            &&& hit
            &&& exists|x: int, y: int, z: int|
                moved.overlaps_voxel(x, y, z) && #[trigger] w.solid(x, y, z) && r.mins.y == (y + 1) * BLOCK
            &&& forall|x: int, y: int, z: int|
                moved.overlaps_voxel(x, y, z) && #[trigger] w.solid(x, y, z) ==> (y + 1) * BLOCK <= r.mins.y
        }),
{
    let moved = b.shifted(Axis::Y, d);
    let lo = moved.lo(Axis::Y);
    let hi = moved.hi(Axis::Y);
    let (x0, y0, z0) = choose|x: int, y: int, z: int| moved.overlaps_voxel(x, y, z) && #[trigger] w.solid(x, y, z);
    assert(layer_solid(w, moved, Axis::Y, y0));
    lemma_last_solid_layer(w, moved, Axis::Y, lo, hi);
    let m = last_solid_layer(w, moved, Axis::Y, lo, hi);
    assert(layer_solid(w, moved, Axis::Y, m));
    let (x1, y1, z1) = choose|x: int, y: int, z: int|
        layer_lo(moved, Axis::Y, m).0 <= x <= layer_hi(moved, Axis::Y, m).0
            && layer_lo(moved, Axis::Y, m).1 <= y <= layer_hi(moved, Axis::Y, m).1
            && layer_lo(moved, Axis::Y, m).2 <= z <= layer_hi(moved, Axis::Y, m).2 && #[trigger] w.solid(x, y, z);
    w.lemma_solid_is_bounded(x1, y1, z1);
    lemma_block_multiple_bounds(m);
    assert(moved.overlaps_voxel(x1, y1, z1) && w.solid(x1, y1, z1));
    assert forall|x: int, y: int, z: int| moved.overlaps_voxel(x, y, z) && #[trigger] w.solid(x, y, z) implies (y
        + 1) * BLOCK <= resolved(w, b, Axis::Y, d).0.mins.y by {
        assert(layer_solid(w, moved, Axis::Y, y));
        assert((y + 1) * BLOCK <= (m + 1) * BLOCK) by (nonlinear_arith)
            requires
                y <= m,
        ;
    }
}

/// Index of voxel `(x, y, z)` along `a`.
pub open spec fn coord(a: Axis, x: int, y: int, z: int) -> int {
    match a {
        Axis::X => x,
        Axis::Y => y,
        Axis::Z => z,
    }
}

/// Voxel `k` lies in the box's voxel range along `a` exactly when the two
/// share interior points along that axis.
proof fn lemma_voxel_range(lo: int, hi: int, k: int)
    ensures
        (voxel_of(lo) <= k && k <= voxel_of(hi - 1)) == (k * BLOCK < hi && lo < (k + 1) * BLOCK),
{
    let b = BLOCK as int;
    lemma_fundamental_div_mod(lo, b);
    lemma_fundamental_div_mod(hi - 1, b);
    lemma_mod_bound(lo, b);
    lemma_mod_bound(hi - 1, b);
    let q1 = lo / b;
    let q2 = (hi - 1) / b;
    assert((q1 <= k) == (lo < (k + 1) * b)) by (nonlinear_arith)
        requires
            lo == b * q1 + lo % b,
            0 <= lo % b < b,
            b > 0,
    ;
    assert((k <= q2) == (k * b < hi)) by (nonlinear_arith)
        requires
            hi - 1 == b * q2 + (hi - 1) % b,
            0 <= (hi - 1) % b < b,
            b > 0,
    ;
}

/// `first_solid_layer` is the lowest solid layer in its range, if any.
proof fn lemma_first_solid_layer(w: VoxelGrid, b: Aabb, a: Axis, i: int, hi: int)
    ensures
        i <= first_solid_layer(w, b, a, i, hi) <= hi + 1 || (i > hi && first_solid_layer(w, b, a, i, hi) == i),
        first_solid_layer(w, b, a, i, hi) <= hi ==> layer_solid(w, b, a, first_solid_layer(w, b, a, i, hi)),
        forall|k: int| i <= k <= hi && #[trigger] layer_solid(w, b, a, k) ==> first_solid_layer(w, b, a, i, hi) <= k,
    decreases hi + 1 - i,
{
    if i <= hi && !layer_solid(w, b, a, i) {
        lemma_first_solid_layer(w, b, a, i + 1, hi);
    }
}

/// A solid voxel that overlaps the box is in the solid layer of its index.
proof fn lemma_voxel_in_layer(w: VoxelGrid, b: Aabb, a: Axis, x: int, y: int, z: int)
    requires
        b.overlaps_voxel(x, y, z),
        w.solid(x, y, z),
    ensures
        layer_solid(w, b, a, coord(a, x, y, z)),
{
    let k = coord(a, x, y, z);
    assert(layer_lo(b, a, k).0 <= x <= layer_hi(b, a, k).0);
    assert(layer_lo(b, a, k).1 <= y <= layer_hi(b, a, k).1);
    assert(layer_lo(b, a, k).2 <= z <= layer_hi(b, a, k).2);
}

/// A voxel of a solid layer: it overlaps the box and has index `k` along `a`.
proof fn lemma_layer_witness(w: VoxelGrid, b: Aabb, a: Axis, k: int) -> (v: (int, int, int))
    requires
        layer_solid(w, b, a, k),
        b.lo(a) <= k <= b.hi(a),
    ensures
        b.overlaps_voxel(v.0, v.1, v.2),
        w.solid(v.0, v.1, v.2),
        coord(a, v.0, v.1, v.2) == k,
{
    let (x, y, z) = choose|x: int, y: int, z: int|
        layer_lo(b, a, k).0 <= x <= layer_hi(b, a, k).0 && layer_lo(b, a, k).1 <= y <= layer_hi(b, a, k).1
            && layer_lo(b, a, k).2 <= z <= layer_hi(b, a, k).2 && #[trigger] w.solid(x, y, z);
    (x, y, z)
}

/// Boxes that agree off axis `a` overlap a voxel alike off that axis.
proof fn lemma_same_off_axis(b1: Aabb, b2: Aabb, a: Axis, x: int, y: int, z: int)
    requires
        forall|e: Axis| e != a ==> b1.mins.at(e) == b2.mins.at(e) && b1.maxs.at(e) == b2.maxs.at(e),
        b1.overlaps_voxel(x, y, z),
        b2.lo(a) <= coord(a, x, y, z) <= b2.hi(a),
    ensures
        b2.overlaps_voxel(x, y, z),
{
    assert(Axis::X != a ==> b1.lo(Axis::X) == b2.lo(Axis::X) && b1.hi(Axis::X) == b2.hi(Axis::X));
    assert(Axis::Y != a ==> b1.lo(Axis::Y) == b2.lo(Axis::Y) && b1.hi(Axis::Y) == b2.hi(Axis::Y));
    assert(Axis::Z != a ==> b1.lo(Axis::Z) == b2.lo(Axis::Z) && b1.hi(Axis::Z) == b2.hi(Axis::Z));
}

/// Boxes before and after resolution agree off the axis of the move.
proof fn lemma_off_axis_facts(w: VoxelGrid, b: Aabb, a: Axis, d: int)
    requires
        w.wf(),
        b.wf(),
    ensures
        forall|e: Axis|
            e != a ==> b.shifted(a, d).mins.at(e) == b.mins.at(e) && b.shifted(a, d).maxs.at(e) == b.maxs.at(e)
                && resolved(w, b, a, d).0.mins.at(e) == b.mins.at(e) && resolved(w, b, a, d).0.maxs.at(e)
                == b.maxs.at(e),
{
    assert forall|e: Axis| e != a implies b.shifted(a, d).mins.at(e) == b.mins.at(e) && b.shifted(a, d).maxs.at(e)
        == b.maxs.at(e) && resolved(w, b, a, d).0.mins.at(e) == b.mins.at(e) && resolved(w, b, a, d).0.maxs.at(e)
        == b.maxs.at(e) by {
        lemma_other_axes_unchanged(w, b, a, e, d);
    }
}

/// Moving down the axis, the resolved box overlaps no solid voxel `(x, y, z)`.
proof fn lemma_clear_after_push_up(w: VoxelGrid, b: Aabb, a: Axis, d: int, x: int, y: int, z: int)
    requires
        w.wf(),
        b.wf(),
        !collides(w, b),
        -b.extent(a) <= d < 0,
        resolved(w, b, a, d).1,
    ensures
        !(resolved(w, b, a, d).0.overlaps_voxel(x, y, z) && w.solid(x, y, z)),
{
    if resolved(w, b, a, d).0.overlaps_voxel(x, y, z) && w.solid(x, y, z) {
        let moved = b.shifted(a, d);
        let lo = moved.lo(a);
        let hi = moved.hi(a);
        let r = resolved(w, b, a, d).0;
        lemma_off_axis_facts(w, b, a, d);
        lemma_last_solid_layer(w, moved, a, lo, hi);
        let k = coord(a, x, y, z);
        lemma_voxel_range(r.mins.at(a) as int, r.maxs.at(a) as int, k);
        assert(r.lo(a) <= k <= r.hi(a));
        let m = last_solid_layer(w, moved, a, lo, hi);
        let v = lemma_layer_witness(w, moved, a, m);
        w.lemma_solid_is_bounded(v.0, v.1, v.2);
        lemma_block_multiple_bounds(m);
        lemma_voxel_range(moved.mins.at(a) as int, moved.maxs.at(a) as int, m);
        lemma_voxel_range(b.mins.at(a) as int, b.maxs.at(a) as int, m);
        if b.lo(a) <= m <= b.hi(a) {
            lemma_same_off_axis(moved, b, a, v.0, v.1, v.2);
        }
        assert(m < k) by (nonlinear_arith)
            requires
                (m + 1) * BLOCK < (k + 1) * BLOCK,
        ;
        lemma_voxel_range(moved.mins.at(a) as int, moved.maxs.at(a) as int, k);
        if k <= hi {
            lemma_same_off_axis(r, moved, a, x, y, z);
            lemma_voxel_in_layer(w, moved, a, x, y, z);
        } else {
            lemma_voxel_range(b.mins.at(a) as int, b.maxs.at(a) as int, k);
            lemma_same_off_axis(r, b, a, x, y, z);
        }
    }
}

/// Moving up the axis, the resolved box overlaps no solid voxel `(x, y, z)`.
proof fn lemma_clear_after_push_down(w: VoxelGrid, b: Aabb, a: Axis, d: int, x: int, y: int, z: int)
    requires
        w.wf(),
        b.wf(),
        !collides(w, b),
        0 < d <= b.extent(a),
        resolved(w, b, a, d).1,
    ensures
        !(resolved(w, b, a, d).0.overlaps_voxel(x, y, z) && w.solid(x, y, z)),
{
    if resolved(w, b, a, d).0.overlaps_voxel(x, y, z) && w.solid(x, y, z) {
        let moved = b.shifted(a, d);
        let lo = moved.lo(a);
        let hi = moved.hi(a);
        let r = resolved(w, b, a, d).0;
        lemma_off_axis_facts(w, b, a, d);
        lemma_first_solid_layer(w, moved, a, lo, hi);
        let k = coord(a, x, y, z);
        lemma_voxel_range(r.mins.at(a) as int, r.maxs.at(a) as int, k);
        assert(r.lo(a) <= k <= r.hi(a));
        let m = first_solid_layer(w, moved, a, lo, hi);
        let v = lemma_layer_witness(w, moved, a, m);
        w.lemma_solid_is_bounded(v.0, v.1, v.2);
        lemma_block_multiple_bounds(m);
        lemma_voxel_range(moved.mins.at(a) as int, moved.maxs.at(a) as int, m);
        lemma_voxel_range(b.mins.at(a) as int, b.maxs.at(a) as int, m);
        if b.lo(a) <= m <= b.hi(a) {
            lemma_same_off_axis(moved, b, a, v.0, v.1, v.2);
        }
        assert(k < m) by (nonlinear_arith)
            requires
                k * BLOCK < m * BLOCK,
        ;
        lemma_voxel_range(moved.mins.at(a) as int, moved.maxs.at(a) as int, k);
        if k >= lo {
            lemma_same_off_axis(r, moved, a, x, y, z);
            lemma_voxel_in_layer(w, moved, a, x, y, z);
        } else {
            lemma_voxel_range(b.mins.at(a) as int, b.maxs.at(a) as int, k);
            lemma_same_off_axis(r, b, a, x, y, z);
        }
    }
}

/// Resolution keeps a box well formed and keeps its extents.
pub proof fn lemma_resolved_wf(w: VoxelGrid, b: Aabb, a: Axis, d: int)
    requires
        w.wf(),
        b.wf(),
    ensures
        resolved(w, b, a, d).0.wf(),
        resolved(w, b, a, d).0.same_extent(b),
{
    let moved = b.shifted(a, d);
    let lo = moved.lo(a);
    let hi = moved.hi(a);
    lemma_axis_wf(b, a);
    lemma_axis_wf(moved, a);
    lemma_first_solid_layer(w, moved, a, lo, hi);
    lemma_last_solid_layer(w, moved, a, lo, hi);
    if d > 0 && resolved(w, b, a, d).1 {
        let m = first_solid_layer(w, moved, a, lo, hi);
        let v = lemma_layer_witness(w, moved, a, m);
        w.lemma_solid_is_bounded(v.0, v.1, v.2);
        lemma_block_multiple_bounds(m);
        lemma_voxel_range(moved.mins.at(a) as int, moved.maxs.at(a) as int, m);
    } else if d < 0 && resolved(w, b, a, d).1 {
        let m = last_solid_layer(w, moved, a, lo, hi);
        let v = lemma_layer_witness(w, moved, a, m);
        w.lemma_solid_is_bounded(v.0, v.1, v.2);
        lemma_block_multiple_bounds(m);
        lemma_voxel_range(moved.mins.at(a) as int, moved.maxs.at(a) as int, m);
    }
}

/// A box that starts clear of solid voxels and moves along one axis by at
/// most its own extent ends clear of solid voxels: resolution never leaves it
/// inside a voxel it ran into, nor pushes it into one it passed.
pub proof fn lemma_resolution_stays_clear(w: VoxelGrid, b: Aabb, a: Axis, d: int)
    requires
        w.wf(),
        b.wf(),
        !collides(w, b),
        -b.extent(a) <= d <= b.extent(a),
    ensures
        !collides(w, resolved(w, b, a, d).0),
{
    let moved = b.shifted(a, d);
    let r = resolved(w, b, a, d).0;
    if d != 0 && collides(w, r) {
        let (x, y, z) = choose|x: int, y: int, z: int| r.overlaps_voxel(x, y, z) && #[trigger] w.solid(x, y, z);
        if !resolved(w, b, a, d).1 {
            lemma_first_solid_layer(w, moved, a, moved.lo(a), moved.hi(a));
            lemma_last_solid_layer(w, moved, a, moved.lo(a), moved.hi(a));
            lemma_voxel_in_layer(w, moved, a, x, y, z);
        } else if d < 0 {
            lemma_clear_after_push_up(w, b, a, d, x, y, z);
        } else {
            lemma_clear_after_push_down(w, b, a, d, x, y, z);
        }
    }
}

} // verus!
