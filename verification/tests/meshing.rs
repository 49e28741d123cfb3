use wolkenwelten::meshgen::{calc_mask, gen_indices, side_starts};
use wolkenwelten::plane::PlaneEntry;
use wolkenwelten::{BlockMesh, BlockType, BlockVertex, ChunkBlockData, ChunkLightData, IVec3};

fn xyz(v: &BlockVertex) -> (u8, u8, u8, u8, u8) {
    (v.x, v.y, v.z, v.texture_index, v.side_and_light)
}

#[test]
fn vertex_packs_side_and_light() {
    let v = BlockVertex::new(1, 2, 3, 4, 5, 6);
    assert_eq!(xyz(&v), (1, 2, 3, 4, 5 + 16 * 6));
}

#[test]
fn add_front_corners() {
    let mut vs = vec![];
    BlockVertex::add_front(&mut vs, (1, 2, 3), (4, 5, 6), 7, 0x4321);
    assert_eq!(vs.len(), 4);
    assert_eq!(xyz(&vs[0]), (1, 2, 9, 7, 16));
    assert_eq!(xyz(&vs[1]), (5, 2, 9, 7, 32));
    assert_eq!(xyz(&vs[2]), (5, 7, 9, 7, 48));
    assert_eq!(xyz(&vs[3]), (1, 7, 9, 7, 64));
}

#[test]
fn index_buffer_of_quads() {
    assert_eq!(gen_indices(2), vec![0, 1, 2, 2, 3, 0, 4, 5, 6, 6, 7, 4]);
    assert!(gen_indices(0).is_empty());
}

#[test]
fn mask_of_chunk_offsets() {
    assert_eq!(calc_mask(0, 0, 0), 63);
    assert_eq!(calc_mask(1, 0, 0), 31);
    assert_eq!(calc_mask(-1, 0, 0), 47);
    assert_eq!(calc_mask(0, 1, 0), 59);
    assert_eq!(calc_mask(0, 0, -1), 61);
}

#[test]
fn side_starts_are_partial_sums() {
    assert_eq!(side_starts([1, 2, 3, 4, 5, 6]), [0, 1, 3, 6, 10, 15]);
}

#[test]
fn plane_merges_a_row() {
    let mut p = PlaneEntry::new();
    for b in 0..3 {
        p.block[b] = 1;
        p.width[b] = 1;
        p.height[b] = 1;
    }
    p.optimize();
    assert_eq!((p.block[0], p.width[0], p.height[0]), (1, 3, 1));
    assert_eq!((p.block[1], p.block[2]), (0, 0));
}

#[test]
fn plane_merges_a_rectangle() {
    let mut p = PlaneEntry::new();
    for a in 0..2 {
        for b in 0..2 {
            let i = a * 32 + b;
            p.block[i] = 2;
            p.width[i] = 1;
            p.height[i] = 1;
            p.light[i] = 9;
        }
    }
    p.optimize();
    assert_eq!((p.block[0], p.width[0], p.height[0], p.light[0]), (2, 2, 2, 9));
    assert_eq!((p.block[1], p.block[32], p.block[33]), (0, 0, 0));
}

#[test]
fn plane_keeps_different_faces_apart() {
    let mut p = PlaneEntry::new();
    p.block[0] = 1;
    p.block[1] = 2;
    p.block[32] = 1;
    p.light[32] = 3;
    for i in [0usize, 1, 32] {
        p.width[i] = 1;
        p.height[i] = 1;
    }
    p.optimize();
    assert_eq!((p.block[0], p.width[0], p.height[0]), (1, 1, 1));
    assert_eq!((p.block[1], p.width[1], p.height[1]), (2, 1, 1));
    assert_eq!((p.block[32], p.width[32], p.height[32]), (1, 1, 1));
}

#[test]
fn plane_does_not_merge_into_the_last_row() {
    let mut p = PlaneEntry::new();
    for a in [30usize, 31] {
        p.block[a * 32] = 1;
        p.width[a * 32] = 1;
        p.height[a * 32] = 1;
    }
    p.optimize();
    assert_eq!((p.block[30 * 32], p.height[30 * 32]), (1, 1));
    assert_eq!((p.block[31 * 32], p.height[31 * 32]), (1, 1));
}

#[test]
fn block_mesh_of_a_single_block() {
    let mut chunk = ChunkBlockData::new();
    chunk.set_block(1, IVec3::new(5, 5, 5));
    let light = ChunkLightData::new();
    let types = BlockType::new_default();
    let mut mesh = BlockMesh::new();
    let vs = mesh.update(&chunk, &light, &types, 42);
    assert_eq!(vs.len(), 24);
    assert_eq!(mesh.side_square_count, [1, 1, 1, 1, 1, 1]);
    assert_eq!(mesh.side_start, [0, 1, 2, 3, 4, 5]);
    assert_eq!(mesh.index_count(), 36);
    assert_eq!(mesh.last_updated_at(), 42);
    assert_eq!(xyz(&vs[0]), (5, 5, 6, 1, 0));
    assert_eq!(xyz(&vs[4]), (5, 5, 5, 1, 1));
    assert_eq!(xyz(&vs[8]), (5, 6, 5, 1, 2));
    assert_eq!(xyz(&vs[12]), (5, 5, 5, 1, 3));
    assert_eq!(xyz(&vs[16]), (5, 5, 5, 1, 4));
    assert_eq!(xyz(&vs[20]), (6, 5, 5, 1, 5));
}

#[test]
fn block_mesh_merges_neighbouring_faces() {
    let mut chunk = ChunkBlockData::new();
    chunk.set_block(1, IVec3::new(5, 5, 5));
    chunk.set_block(1, IVec3::new(6, 5, 5));
    let light = ChunkLightData::new();
    let types = BlockType::new_default();
    let mut mesh = BlockMesh::new();
    let vs = mesh.update(&chunk, &light, &types, 0);
    assert_eq!(vs.len(), 24);
    assert_eq!(mesh.side_square_count, [1, 1, 1, 1, 1, 1]);
    assert_eq!(xyz(&vs[1]), (7, 5, 6, 1, 0));
    assert_eq!(xyz(&vs[16]), (5, 5, 5, 1, 4));
    assert_eq!(xyz(&vs[20]), (7, 5, 5, 1, 5));
}

#[test]
fn empty_chunk_has_an_empty_mesh() {
    let chunk = ChunkBlockData::new();
    let light = ChunkLightData::new();
    let types = BlockType::new_default();
    let mut mesh = BlockMesh::new();
    let vs = mesh.update(&chunk, &light, &types, 0);
    assert!(vs.is_empty());
    assert_eq!(mesh.index_count(), 0);
}

fn mesh_with(counts: [usize; 6]) -> BlockMesh {
    let mut mesh = BlockMesh::new();
    mesh.side_square_count = counts;
    mesh.side_start = side_starts(counts);
    mesh
}

#[test]
fn draw_ranges_of_all_sides_cover_the_whole_mesh() {
    let mesh = mesh_with([1, 2, 0, 3, 0, 4]);
    assert_eq!(mesh.draw_ranges(0b111111), vec![(0, 60)]);
    let empty = BlockMesh::new();
    assert_eq!(empty.draw_ranges(0b111111), vec![(0, 0)]);
}

#[test]
fn draw_ranges_of_some_sides() {
    let mesh = mesh_with([1, 2, 0, 3, 0, 4]);
    // front, back and right
    assert_eq!(mesh.draw_ranges(0b100011), vec![(0, 6), (6, 18), (36, 60)]);
    // top (empty, but not ending at 0) and bottom
    assert_eq!(mesh.draw_ranges(0b001100), vec![(18, 18), (18, 36)]);
    assert_eq!(mesh.draw_ranges(0), Vec::<(usize, usize)>::new());
}

#[test]
fn draw_ranges_skip_a_side_that_ends_at_zero() {
    let mesh = mesh_with([0, 0, 2, 0, 0, 0]);
    assert_eq!(mesh.draw_ranges(0b000111), vec![(0, 12)]);
    let mask = calc_mask(1, 0, 0);
    assert_eq!(mask, 0b011111);
    assert_eq!(mesh.draw_ranges(mask), vec![(0, 12), (12, 12), (12, 12)]);
}
