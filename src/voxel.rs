//! The voxel world: a bounded grid of block identifiers. Every voxel outside
//! the grid reads as air.
use vstd::prelude::*;
use vstd::arithmetic::mul::*;

verus! {

/// Largest absolute voxel coordinate that a grid may cover.
pub const GRID_LIMIT: i64 = 0x4000_0000;

/// Largest number of voxels in one grid.
pub const MAX_VOXELS: usize = 0x1000_0000;

#[derive(Clone, Copy, Debug, PartialEq, Eq, Hash, Structural)]
pub enum BlockID {
    Air,
    Dirt,
    GrassBlock,
    Cobblestone,
    Obsidian,
    OakLog,
    OakLeaves,
    Urss,
    Hitler,
    Debug,
    Debug2,
}

/// A box of voxels with its lowest corner at `(origin_x, origin_y, origin_z)`,
/// stored x-major, then y, then z.
pub struct VoxelGrid {
    origin_x: i64,
    origin_y: i64,
    origin_z: i64,
    size_x: usize,
    size_y: usize,
    size_z: usize,
    blocks: Vec<BlockID>,
}

pub open spec fn flat_index(x: int, y: int, z: int, size_y: int, size_z: int) -> int {
    (x * size_y + y) * size_z + z
}

proof fn lemma_flat_index_bound(x: int, y: int, z: int, sx: int, sy: int, sz: int)
    requires
        0 <= x < sx,
        0 <= y < sy,
        0 <= z < sz,
    ensures
        0 <= flat_index(x, y, z, sy, sz) < sx * sy * sz,
{
    lemma_mul_nonnegative(x, sy);
    lemma_mul_inequality(x + 1, sx, sy);
    lemma_mul_is_distributive_add_other_way(sy, x, 1);
    lemma_mul_nonnegative(x * sy + y, sz);
    lemma_mul_inequality(x * sy + y + 1, sx * sy, sz);
    lemma_mul_is_distributive_add_other_way(sz, x * sy + y, 1);
    lemma_mul_is_associative(sx, sy, sz);
}

impl VoxelGrid {
    pub closed spec fn origin(&self) -> (int, int, int) {
        (self.origin_x as int, self.origin_y as int, self.origin_z as int)
    }

    pub closed spec fn size(&self) -> (int, int, int) {
        (self.size_x as int, self.size_y as int, self.size_z as int)
    }

    pub closed spec fn wf(&self) -> bool {
        &&& self.blocks@.len() == self.size_x * self.size_y * self.size_z
        &&& self.size_x * self.size_y * self.size_z <= MAX_VOXELS
        &&& -GRID_LIMIT <= self.origin_x
        &&& -GRID_LIMIT <= self.origin_y
        &&& -GRID_LIMIT <= self.origin_z
        &&& self.origin_x + self.size_x <= GRID_LIMIT
        &&& self.origin_y + self.size_y <= GRID_LIMIT
        &&& self.origin_z + self.size_z <= GRID_LIMIT
    }

    pub open spec fn in_grid(&self, x: int, y: int, z: int) -> bool {
        &&& self.origin().0 <= x < self.origin().0 + self.size().0
        &&& self.origin().1 <= y < self.origin().1 + self.size().1
        &&& self.origin().2 <= z < self.origin().2 + self.size().2
    }

    /// The block at voxel `(x, y, z)`; air outside the grid.
    pub closed spec fn block(&self, x: int, y: int, z: int) -> BlockID {
        if self.in_grid(x, y, z) {
            self.blocks@[flat_index(
                x - self.origin_x,
                y - self.origin_y,
                z - self.origin_z,
                self.size_y as int,
                self.size_z as int,
            )]
        } else {
            BlockID::Air
        }
    }

    pub open spec fn solid(&self, x: int, y: int, z: int) -> bool {
        self.block(x, y, z) != BlockID::Air
    }

    /// Solid voxels lie inside the grid, so within `GRID_LIMIT` of the origin.
    pub proof fn lemma_solid_is_bounded(&self, x: int, y: int, z: int)
        requires
            self.wf(),
            self.solid(x, y, z),
        ensures
            -GRID_LIMIT <= x < GRID_LIMIT,
            -GRID_LIMIT <= y < GRID_LIMIT,
            -GRID_LIMIT <= z < GRID_LIMIT,
    {
    }

    /// Every voxel outside the grid reads as air.
    pub proof fn lemma_air_outside(&self, x: int, y: int, z: int)
        requires
            !self.in_grid(x, y, z),
        ensures
            self.block(x, y, z) == BlockID::Air,
    {
    }

    /// An all-air grid of `size_x * size_y * size_z` voxels from the given origin.
    pub fn new(
        origin_x: i64,
        origin_y: i64,
        origin_z: i64,
        size_x: usize,
        size_y: usize,
        size_z: usize,
    ) -> (r: Self)
        requires
            size_x * size_y * size_z <= MAX_VOXELS,
            -GRID_LIMIT <= origin_x,
            -GRID_LIMIT <= origin_y,
            -GRID_LIMIT <= origin_z,
            origin_x + size_x <= GRID_LIMIT,
            origin_y + size_y <= GRID_LIMIT,
            origin_z + size_z <= GRID_LIMIT,
        ensures
            r.wf(),
            r.origin() == (origin_x as int, origin_y as int, origin_z as int),
            r.size() == (size_x as int, size_y as int, size_z as int),
            forall|x: int, y: int, z: int| r.block(x, y, z) == BlockID::Air,
    {
        proof {
            lemma_mul_upper_bound(size_x as int, 0x8000_0000, size_y as int, 0x8000_0000);
            lemma_mul_upper_bound(size_x * size_y, 0x4000_0000_0000_0000, size_z as int, 0x8000_0000);
        }
        let n: usize = (size_x as u128 * size_y as u128 * size_z as u128) as usize;
        let mut blocks: Vec<BlockID> = Vec::with_capacity(n);
        let mut i: usize = 0;
        while i < n
            invariant
                i <= n,
                blocks@.len() == i,
                forall|k: int| 0 <= k < i ==> blocks@[k] == BlockID::Air,
            decreases n - i,
        {
            blocks.push(BlockID::Air);
            i = i + 1;
        }
        let r = VoxelGrid { origin_x, origin_y, origin_z, size_x, size_y, size_z, blocks };
        proof {
            assert forall|x: int, y: int, z: int| r.block(x, y, z) == BlockID::Air by {
                if r.in_grid(x, y, z) {
                    lemma_flat_index_bound(
                        x - origin_x, y - origin_y, z - origin_z,
                        size_x as int, size_y as int, size_z as int,
                    );
                }
            }
        }
        r
    }

    /// Position in `blocks` of voxel `(x, y, z)`, if the grid holds it.
    fn index_of(&self, x: i64, y: i64, z: i64) -> (r: Option<usize>)
        requires
            self.wf(),
        ensures
            r is None <==> !self.in_grid(x as int, y as int, z as int),
            r matches Some(i) ==> i < self.blocks@.len() && i == flat_index(
                x - self.origin_x,
                y - self.origin_y,
                z - self.origin_z,
                self.size_y as int,
                self.size_z as int,
            ),
    {
        let dx: i128 = x as i128 - self.origin_x as i128;
        let dy: i128 = y as i128 - self.origin_y as i128;
        let dz: i128 = z as i128 - self.origin_z as i128;
        if dx < 0 || dy < 0 || dz < 0 || dx >= self.size_x as i128 || dy >= self.size_y as i128
            || dz >= self.size_z as i128 {
            return None;
        }
        let (ux, uy, uz) = (dx as usize, dy as usize, dz as usize);
        proof {
            lemma_flat_index_bound(ux as int, uy as int, uz as int, self.size_x as int, self.size_y as int, self.size_z as int);
            lemma_mul_upper_bound(ux as int, 0x8000_0000, self.size_y as int, 0x8000_0000);
            lemma_mul_upper_bound(ux * self.size_y + uy, 0x8000_0000_0000_0000, self.size_z as int, 0x8000_0000);
        }
        let wide: u128 = (ux as u128 * self.size_y as u128 + uy as u128) * self.size_z as u128 + uz as u128;
        Some(wide as usize)
    }

    /// The block at `(x, y, z)`, or `None` outside the grid.
    pub fn get_block(&self, x: i64, y: i64, z: i64) -> (r: Option<BlockID>)
        requires
            self.wf(),
        ensures
            r is None <==> !self.in_grid(x as int, y as int, z as int),
            r matches Some(b) ==> b == self.block(x as int, y as int, z as int),
    {
        match self.index_of(x, y, z) {
            Some(i) => Some(self.blocks[i]),
            None => None,
        }
    }

    /// Whether voxel `(x, y, z)` holds a solid block; air outside the grid.
    pub fn is_solid_block_at(&self, x: i64, y: i64, z: i64) -> (r: bool)
        requires
            self.wf(),
        ensures
            r == self.solid(x as int, y as int, z as int),
    {
        match self.index_of(x, y, z) {
            Some(i) => self.blocks[i] != BlockID::Air,
            None => false,
        }
    }

    /// Puts `block` at `(x, y, z)`; outside the grid nothing changes.
    pub fn set_block(&mut self, block: BlockID, x: i64, y: i64, z: i64)
        requires
            old(self).wf(),
        ensures
            final(self).wf(),
            final(self).origin() == old(self).origin(),
            final(self).size() == old(self).size(),
            forall|a: int, b: int, c: int|
                #![trigger final(self).block(a, b, c)]
                final(self).block(a, b, c) == if a == x && b == y && c == z && old(self).in_grid(a, b, c) {
                    block
                } else {
                    old(self).block(a, b, c)
                },
    {
        match self.index_of(x, y, z) {
            Some(i) => {
                self.blocks.set(i, block);
                proof {
                    assert forall|a: int, b: int, c: int| #[trigger]
                        self.block(a, b, c) == if a == x && b == y && c == z && old(self).in_grid(a, b, c) {
                            block
                        } else {
                            old(self).block(a, b, c)
                        } by {
                        if self.in_grid(a, b, c) {
                            lemma_flat_index_bound(
                                a - self.origin_x, b - self.origin_y, c - self.origin_z,
                                self.size_x as int, self.size_y as int, self.size_z as int,
                            );
                        }
                        if self.in_grid(a, b, c) && !(a == x && b == y && c == z) && flat_index(
                            a - self.origin_x, b - self.origin_y, c - self.origin_z,
                            self.size_y as int, self.size_z as int,
                        ) == flat_index(
                            x - self.origin_x, y - self.origin_y, z - self.origin_z,
                            self.size_y as int, self.size_z as int,
                        ) {
                            lemma_flat_index_injective(
                                a - self.origin_x, b - self.origin_y, c - self.origin_z,
                                x - self.origin_x, y - self.origin_y, z - self.origin_z,
                                self.size_y as int, self.size_z as int,
                            );
                        }
                    }
                }
            },
            None => {},
        }
    }
}

proof fn lemma_flat_index_injective(x1: int, y1: int, z1: int, x2: int, y2: int, z2: int, sy: int, sz: int)
    requires
        0 <= x1,
        0 <= x2,
        0 <= y1 < sy,
        0 <= y2 < sy,
        0 <= z1 < sz,
        0 <= z2 < sz,
        flat_index(x1, y1, z1, sy, sz) == flat_index(x2, y2, z2, sy, sz),
    ensures
        x1 == x2 && y1 == y2 && z1 == z2,
{
    let a1 = x1 * sy + y1;
    let a2 = x2 * sy + y2;
    lemma_mul_nonnegative(x1, sy);
    lemma_mul_nonnegative(x2, sy);
    vstd::arithmetic::div_mod::lemma_fundamental_div_mod_converse(a1 * sz + z1, sz, a1, z1);
    vstd::arithmetic::div_mod::lemma_fundamental_div_mod_converse(a2 * sz + z2, sz, a2, z2);
    lemma_mul_is_commutative(a1, sz);
    lemma_mul_is_commutative(a2, sz);
    vstd::arithmetic::div_mod::lemma_fundamental_div_mod_converse(a1, sy, x1, y1);
    vstd::arithmetic::div_mod::lemma_fundamental_div_mod_converse(a2, sy, x2, y2);
    lemma_mul_is_commutative(x1, sy);
    lemma_mul_is_commutative(x2, sy);
}

} // verus!
