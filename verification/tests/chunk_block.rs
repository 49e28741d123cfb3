use wolkenwelten::{ChunkBlockData, ChunkFluidData, IVec3};

fn sum(chunk: &ChunkBlockData) -> i32 {
    let mut acc: i32 = 0;
    for x in chunk.data.iter() {
        for y in x.iter() {
            for z in y.iter() {
                acc += *z as i32;
            }
        }
    }
    acc
}

#[test]
fn test_chunk() {
    let chunk = ChunkBlockData::new();
    assert_eq!(sum(&chunk), 0);
    let chunk = chunk.clone();
    assert_eq!(sum(&chunk), 0);
    let mut chunk = ChunkBlockData::default();
    assert_eq!(sum(&chunk), 0);
    chunk.data[0][0][0] = 1;
    assert_eq!(sum(&chunk), 1);
    assert_eq!(chunk.get_block(IVec3::new(0, 0, 0)), 1);
    chunk.set_block(4, IVec3::new(1, 1, 1));
    assert_eq!(sum(&chunk), 5);
    assert_eq!(chunk.get_block(IVec3::new(1, 1, 1)), 4);
    chunk.set_box(1, IVec3::new(0, 0, 0), IVec3::new(2, 2, 2));
    assert_eq!(sum(&chunk), 8);
    chunk.set_sphere(1, IVec3::new(8, 8, 8), 4);
    assert_eq!(sum(&chunk), 259);
}

#[test]
fn a_cloned_chunk_has_the_same_blocks_and_time() {
    let mut chunk = ChunkBlockData::new();
    chunk.set_block(7, IVec3::new(3, 4, 5));
    chunk.set_box(2, IVec3::new(10, 10, 10), IVec3::new(3, 3, 3));
    let copy = chunk.clone();
    assert_eq!(copy.data, chunk.data);
    assert_eq!(copy.get_last_updated(), chunk.get_last_updated());
    assert_eq!(copy.get_block(IVec3::new(3, 4, 5)), 7);
    assert_eq!(sum(&copy), 7 + 2 * 27);
}

#[test]
fn a_cloned_fluid_chunk_has_the_same_levels_and_times() {
    let mut fluid = ChunkFluidData::new();
    fluid.set(3, IVec3::new(1, 2, 3));
    let copy = fluid.clone();
    assert_eq!(copy.data, fluid.data);
    assert_eq!(copy.last_updated(), fluid.last_updated());
    assert_eq!(copy.last_update_without_changes(), fluid.last_update_without_changes());
}
