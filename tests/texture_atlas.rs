use voxel_engine::texture_pack::{create_face_images_map, create_face_uvs_map, generate_texture_atlas, BlockFaces, UVCoords};
use voxel_engine::voxel::BlockID;

fn rect(x0: u32, y0: u32) -> UVCoords {
    UVCoords { x0, y0, x1: x0 + 16, y1: y0 + 16 }
}

#[test]
fn face_images_table() {
    let m = create_face_images_map();
    assert_eq!(m.len(), 10);
    assert_eq!(m[0], (BlockID::Dirt, BlockFaces::All("blocks/dirt.png")));
    assert_eq!(
        m[4],
        (
            BlockID::OakLog,
            BlockFaces::Sides { sides: "blocks/oak_log.png", top: "blocks/oak_log_top.png", bottom: "blocks/oak_log_top.png" }
        )
    );
}

#[test]
fn atlas_layout_is_consecutive() {
    let (atlas, uvs) = generate_texture_atlas(7);
    assert_eq!(atlas, 7);
    assert_eq!(uvs.len(), 10);
    assert_eq!(uvs[0], (BlockID::Dirt, BlockFaces::All(rect(0, 0))));
    assert_eq!(
        uvs[1],
        (BlockID::GrassBlock, BlockFaces::Sides { sides: rect(16, 0), top: rect(32, 0), bottom: rect(48, 0) })
    );
    assert_eq!(uvs[2], (BlockID::Cobblestone, BlockFaces::All(rect(64, 0))));
    assert_eq!(uvs[9], (BlockID::Debug2, BlockFaces::All(rect(208, 0))));
}

#[test]
fn atlas_layout_wraps_rows() {
    let mut images: Vec<(BlockID, BlockFaces<u8>)> = Vec::new();
    for _ in 0..70 {
        images.push((BlockID::Dirt, BlockFaces::All(0)));
    }
    images.push((
        BlockID::Debug,
        BlockFaces::Each { top: 0, bottom: 0, front: 0, back: 0, left: 0, right: 0 },
    ));
    let uvs = create_face_uvs_map(&images);
    assert_eq!(uvs[63].1, BlockFaces::All(rect(1008, 0)));
    assert_eq!(uvs[64].1, BlockFaces::All(rect(0, 16)));
    assert_eq!(
        uvs[70].1,
        BlockFaces::Each {
            top: rect(96, 16),
            bottom: rect(112, 16),
            front: rect(128, 16),
            back: rect(144, 16),
            left: rect(160, 16),
            right: rect(176, 16),
        }
    );
}
