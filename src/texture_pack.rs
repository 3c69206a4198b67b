//! Layout of block face textures in a square texture atlas.
//!
//! Images are placed in slots of `BLOCK_TEXTURE_SIZE` pixels, left to right
//! and then bottom to top, in the order in which the faces are listed.
use vstd::prelude::*;
use crate::voxel::BlockID;

verus! {

/// Side of one block texture, in pixels.
pub const BLOCK_TEXTURE_SIZE: u32 = 16;

/// Side of the texture atlas, in pixels.
pub const TEXTURE_ATLAS_SIZE: u32 = 1024;

/// Slots in one row of the atlas.
pub const SLOTS_PER_ROW: u32 = 64;

/// Largest number of block entries that one layout takes.
pub const MAX_BLOCK_ENTRIES: usize = 10_000;

/// The textures of a block's faces.
#[derive(Clone, Copy, Debug, PartialEq, Eq)]
pub enum BlockFaces<T> {
    All(T),
    Sides { sides: T, top: T, bottom: T },
    Each { top: T, bottom: T, front: T, back: T, left: T, right: T },
}

/// A rectangle of the atlas, in pixels: `[x0, x1) x [y0, y1)`. Dividing by
/// `TEXTURE_ATLAS_SIZE` gives texture coordinates.
#[derive(Clone, Copy, Debug, PartialEq, Eq, Structural)]
pub struct UVCoords {
    pub x0: u32,
    pub y0: u32,
    pub x1: u32,
    pub y1: u32,
}

/// Number of images a block's faces take.
pub open spec fn face_count<T>(f: BlockFaces<T>) -> nat {
    match f {
        BlockFaces::All(_) => 1,
        BlockFaces::Sides { .. } => 3,
        BlockFaces::Each { .. } => 6,
    }
}

/// The atlas rectangle of slot `k`.
pub open spec fn slot_rect(k: int) -> UVCoords {
    let x = (k % SLOTS_PER_ROW as int) * BLOCK_TEXTURE_SIZE;
    let y = (k / SLOTS_PER_ROW as int) * BLOCK_TEXTURE_SIZE;
    UVCoords {
        x0: x as u32,
        y0: y as u32,
        x1: (x + BLOCK_TEXTURE_SIZE) as u32,
        y1: (y + BLOCK_TEXTURE_SIZE) as u32,
    }
}

/// The rectangles of a block's faces, starting at slot `k`.
pub open spec fn faces_at<T>(f: BlockFaces<T>, k: int) -> BlockFaces<UVCoords> {
    match f {
        BlockFaces::All(_) => BlockFaces::All(slot_rect(k)),
        BlockFaces::Sides { .. } => BlockFaces::Sides {
            sides: slot_rect(k),
            top: slot_rect(k + 1),
            bottom: slot_rect(k + 2),
        },
        BlockFaces::Each { .. } => BlockFaces::Each {
            top: slot_rect(k),
            bottom: slot_rect(k + 1),
            front: slot_rect(k + 2),
            back: slot_rect(k + 3),
            left: slot_rect(k + 4),
            right: slot_rect(k + 5),
        },
    }
}

/// Slots taken by the first `i` entries.
pub open spec fn slots_before<T>(entries: Seq<(BlockID, BlockFaces<T>)>, i: int) -> nat
    decreases i,
{
    if i <= 0 {
        0
    } else {
        slots_before(entries, i - 1) + face_count(entries[i - 1].1)
    }
}

proof fn lemma_slots_before_bound<T>(entries: Seq<(BlockID, BlockFaces<T>)>, i: int)
    requires
        0 <= i <= entries.len(),
    ensures
        slots_before(entries, i) <= 6 * i,
    decreases i,
{
    if i > 0 {
        lemma_slots_before_bound(entries, i - 1);
    }
}

/// Which images make up each block's faces, in the order they are laid out.
pub fn create_face_images_map() -> (r: Vec<(BlockID, BlockFaces<&'static str>)>)
    ensures
        r@ == create_face_images_spec(),
{
    let mut face_images: Vec<(BlockID, BlockFaces<&'static str>)> = Vec::new();
    face_images.push((BlockID::Dirt, BlockFaces::All("blocks/dirt.png")));
    face_images.push(
        (BlockID::GrassBlock, BlockFaces::Sides {
            sides: "blocks/grass_block_side.png",
            top: "blocks/grass_block_top.png",
            bottom: "blocks/dirt.png",
        }),
    );
    face_images.push((BlockID::Cobblestone, BlockFaces::All("blocks/cobblestone.png")));
    face_images.push((BlockID::Obsidian, BlockFaces::All("blocks/obsidian.png")));
    face_images.push(
        (BlockID::OakLog, BlockFaces::Sides {
            sides: "blocks/oak_log.png",
            top: "blocks/oak_log_top.png",
            bottom: "blocks/oak_log_top.png",
        }),
    );
    face_images.push((BlockID::OakLeaves, BlockFaces::All("blocks/oak_leaves_mod.png")));
    face_images.push((BlockID::Urss, BlockFaces::All("blocks/urss.png")));
    face_images.push((BlockID::Hitler, BlockFaces::All("blocks/hitler.png")));
    face_images.push((BlockID::Debug, BlockFaces::All("blocks/debug.png")));
    face_images.push((BlockID::Debug2, BlockFaces::All("blocks/debug2.png")));
    face_images
}

/// The atlas rectangle of slot `k`.
fn atlas_slot(k: u32) -> (r: UVCoords)
    requires
        k <= 6 * MAX_BLOCK_ENTRIES,
    ensures
        r == slot_rect(k as int),
{
    let x = (k % SLOTS_PER_ROW) * BLOCK_TEXTURE_SIZE;
    let y = (k / SLOTS_PER_ROW) * BLOCK_TEXTURE_SIZE;
    UVCoords { x0: x, y0: y, x1: x + BLOCK_TEXTURE_SIZE, y1: y + BLOCK_TEXTURE_SIZE }
}

/// The atlas rectangles of each block's faces, the blocks kept in order and
/// the images given consecutive slots.
pub fn create_face_uvs_map<T: Copy>(face_images: &Vec<(BlockID, BlockFaces<T>)>) -> (r: Vec<
    (BlockID, BlockFaces<UVCoords>),
>)
    requires
        face_images@.len() <= MAX_BLOCK_ENTRIES,
    ensures
        r@.len() == face_images@.len(),
        forall|i: int|
            0 <= i < r@.len() ==> #[trigger] r@[i] == (
                face_images@[i].0,
                faces_at(face_images@[i].1, slots_before(face_images@, i) as int),
            ),
{
    let mut face_uvs: Vec<(BlockID, BlockFaces<UVCoords>)> = Vec::new();
    let mut next: u32 = 0;
    let mut i: usize = 0;
    while i < face_images.len()
        invariant
            i <= face_images@.len() <= MAX_BLOCK_ENTRIES,
            face_uvs@.len() == i,
            next == slots_before(face_images@, i as int),
            forall|j: int|
                0 <= j < i ==> #[trigger] face_uvs@[j] == (
                    face_images@[j].0,
                    faces_at(face_images@[j].1, slots_before(face_images@, j) as int),
                ),
        decreases face_images@.len() - i,
    {
        proof {
            lemma_slots_before_bound(face_images@, i as int);
        }
        let (block, faces) = face_images[i];
        let uvs = match faces {
            BlockFaces::All(_) => {
                let all = atlas_slot(next);
                next = next + 1;
                BlockFaces::All(all)
            },
            BlockFaces::Sides { .. } => {
                let sides = atlas_slot(next);
                let top = atlas_slot(next + 1);
                let bottom = atlas_slot(next + 2);
                next = next + 3;
                BlockFaces::Sides { sides, top, bottom }
            },
            BlockFaces::Each { .. } => {
                let top = atlas_slot(next);
                let bottom = atlas_slot(next + 1);
                let front = atlas_slot(next + 2);
                let back = atlas_slot(next + 3);
                let left = atlas_slot(next + 4);
                let right = atlas_slot(next + 5);
                next = next + 6;
                BlockFaces::Each { top, bottom, front, back, left, right }
            },
        };
        face_uvs.push((block, uvs));
        i = i + 1;
    }
    face_uvs
}

/// The atlas layout of every block's faces, paired with the atlas texture
/// `atlas` that the images are to be copied into.
pub fn generate_texture_atlas(atlas: u32) -> (r: (u32, Vec<(BlockID, BlockFaces<UVCoords>)>))
    ensures
        r.0 == atlas,
        r.1@.len() == 10,
        forall|i: int|
            0 <= i < 10 ==> #[trigger] r.1@[i] == (
                create_face_images_spec()[i].0,
                faces_at(create_face_images_spec()[i].1, slots_before(create_face_images_spec(), i) as int),
            ),
{
    let face_images = create_face_images_map();
    let face_uvs = create_face_uvs_map(&face_images);
    (atlas, face_uvs)
}

/// The table that `create_face_images_map` returns.
pub open spec fn create_face_images_spec() -> Seq<(BlockID, BlockFaces<&'static str>)> {
    seq![
        (BlockID::Dirt, BlockFaces::All("blocks/dirt.png")),
        (BlockID::GrassBlock, BlockFaces::Sides {
            sides: "blocks/grass_block_side.png",
            top: "blocks/grass_block_top.png",
            bottom: "blocks/dirt.png",
        }),
        (BlockID::Cobblestone, BlockFaces::All("blocks/cobblestone.png")),
        (BlockID::Obsidian, BlockFaces::All("blocks/obsidian.png")),
        (BlockID::OakLog, BlockFaces::Sides {
            sides: "blocks/oak_log.png",
            top: "blocks/oak_log_top.png",
            bottom: "blocks/oak_log_top.png",
        }),
        (BlockID::OakLeaves, BlockFaces::All("blocks/oak_leaves_mod.png")),
        (BlockID::Urss, BlockFaces::All("blocks/urss.png")),
        (BlockID::Hitler, BlockFaces::All("blocks/hitler.png")),
        (BlockID::Debug, BlockFaces::All("blocks/debug.png")),
        (BlockID::Debug2, BlockFaces::All("blocks/debug2.png")),
    ]
}

} // verus!
