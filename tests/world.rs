use voxel_engine::collision::{get_block_aabb, resolve_axis, Aabb, Axis, Vec3};
use voxel_engine::inventory::{break_block, place_block, Inventory, ItemStack};
use voxel_engine::voxel::{BlockID, VoxelGrid};

const B: i64 = 1_000_000;

fn floor_world() -> VoxelGrid {
    let mut w = VoxelGrid::new(-4, -4, -4, 8, 8, 8);
    for x in -4..4 {
        for z in -4..4 {
            w.set_block(BlockID::Dirt, x, 0, z);
        }
    }
    w
}

fn unit_box(x: i64, y: i64, z: i64) -> Aabb {
    Aabb::new(Vec3::new(x, y, z), Vec3::new(x + 600_000, y + 1_800_000, z + 600_000))
}

#[test]
fn grid_reads_air_outside() {
    let w = floor_world();
    assert_eq!(w.get_block(0, 0, 0), Some(BlockID::Dirt));
    assert_eq!(w.get_block(0, 1, 0), Some(BlockID::Air));
    assert_eq!(w.get_block(100, 0, 0), None);
    assert!(w.is_solid_block_at(-4, 0, 3));
    assert!(!w.is_solid_block_at(-5, 0, 0));
    assert!(!w.is_solid_block_at(0, -1, 0));
}

#[test]
fn falling_box_rests_on_floor_top_face() {
    let w = floor_world();
    let b = unit_box(200_000, 1_050_000, 200_000);
    let (r, hit) = resolve_axis(&w, &b, Axis::Y, -100_000);
    assert!(hit);
    assert_eq!(r.mins.y, B);
    assert_eq!(r.maxs.y, B + 1_800_000);
    assert_eq!(r.mins.x, 200_000);
}

#[test]
fn free_move_is_not_a_hit() {
    let w = floor_world();
    let b = unit_box(200_000, 1_050_000, 200_000);
    let (r, hit) = resolve_axis(&w, &b, Axis::Y, -40_000);
    assert!(!hit);
    assert_eq!(r.mins.y, 1_010_000);
    let (r, hit) = resolve_axis(&w, &b, Axis::X, 0);
    assert!(!hit);
    assert_eq!(r, b);
}

#[test]
fn moving_up_the_axis_stops_at_low_face() {
    let mut w = floor_world();
    w.set_block(BlockID::Cobblestone, 1, 1, 0);
    let b = unit_box(350_000, B, 200_000);
    let (r, hit) = resolve_axis(&w, &b, Axis::X, 100_000);
    assert!(hit);
    assert_eq!(r.maxs.x, B);
    assert_eq!(r.mins.x, 400_000);
}

#[test]
fn block_box_spans_one_voxel() {
    let b = get_block_aabb(-2, 3, 0);
    assert_eq!(b.mins, Vec3::new(-2 * B, 3 * B, 0));
    assert_eq!(b.maxs, Vec3::new(-B, 4 * B, B));
    assert!(b.intersects(&unit_box(-1_500_000, 3_500_000, 100_000)));
    assert!(!b.intersects(&unit_box(-B, 3_500_000, 100_000)));
}

#[test]
fn break_block_leaves_air() {
    let mut w = floor_world();
    assert_eq!(break_block(1, 0, 1, &mut w), Some(BlockID::Dirt));
    assert_eq!(w.get_block(1, 0, 1), Some(BlockID::Air));
    assert_eq!(break_block(50, 0, 1, &mut w), None);
}

#[test]
fn place_block_next_to_target() {
    let mut w = floor_world();
    let mut inv = Inventory::new();
    inv.slots[0] = Some(ItemStack::new(1, BlockID::Obsidian));
    let far = unit_box(-3 * B, B, -3 * B);
    assert!(place_block(2, 0, 2, Vec3::new(0, 1, 0), &far, &inv, &mut w));
    assert_eq!(w.get_block(2, 1, 2), Some(BlockID::Obsidian));
    // the player stands in the adjacent voxel
    let near = unit_box(2 * B + 200_000, B, 200_000);
    assert!(!place_block(2, 0, 0, Vec3::new(0, 1, 0), &near, &inv, &mut w));
    assert_eq!(w.get_block(2, 1, 0), Some(BlockID::Air));
    // nothing selected
    inv.select_item(3);
    assert!(!place_block(-2, 0, -2, Vec3::new(0, 1, 0), &far, &inv, &mut w));
    assert_eq!(w.get_block(-2, 1, -2), Some(BlockID::Air));
}
