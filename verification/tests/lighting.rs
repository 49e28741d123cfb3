use wolkenwelten::chunk::open_sky;
use wolkenwelten::{ChunkBlockData, ChunkLightData, IVec3};

#[test]
fn empty_chunk_light_ramps_up_from_the_top() {
    let chunk = ChunkBlockData::new();
    let mut light = ChunkLightData::new();
    light.calculate(&chunk);
    assert_eq!(light.data[0][31][0], 1);
    assert_eq!(light.data[7][20][3], 12);
    assert_eq!(light.data[5][17][5], 15);
    assert_eq!(light.data[5][0][5], 15);
}

#[test]
fn a_block_shades_and_halves() {
    let mut chunk = ChunkBlockData::new();
    chunk.set_block(1, IVec3::new(5, 5, 5));
    let light = ChunkLightData::new_simple(&chunk);
    assert_eq!(light.data[5][5][5], 7);
    assert_eq!(light.data[5][4][5], 14);
    assert_eq!(light.data[4][4][5], 15);
}

#[test]
fn open_sky_lights_an_empty_chunk_fully() {
    let chunk = ChunkBlockData::new();
    let light = open_sky::ChunkLightData::new(&chunk);
    assert_eq!(light.data[0][31][0], 15);
    assert_eq!(light.data[9][0][9], 15);
}

#[test]
fn complex_light_takes_light_from_above() {
    let chunk = ChunkBlockData::new();
    let dark = ChunkLightData::new();
    let mut bright = ChunkLightData::new();
    for x in 0..32 {
        for z in 0..32 {
            bright.data[x][0][z] = 15;
        }
    }
    let mut neighbors: [&ChunkLightData; 27] = [&dark; 27];
    neighbors[wolkenwelten::neighbor_off(1, 2, 1)] = &bright;
    let mut light = ChunkLightData::new();
    light.calculate_complex(&chunk, &neighbors);
    assert_eq!(light.data[3][31][3], 15);
    assert_eq!(light.data[3][0][3], 15);
}

#[test]
fn blit_into_a_buffer_and_back() {
    let mut chunk = [[[0u8; 32]; 32]; 32];
    chunk[0][0][0] = 7;
    chunk[31][5][9] = 3;
    let mut buf = [[[9u8; 34]; 34]; 34];
    wolkenwelten::blit_chunk_data(&mut buf, &chunk, [1, 1, 1]);
    assert_eq!(buf[1][1][1], 7);
    assert_eq!(buf[32][6][10], 3);
    assert_eq!(buf[0][0][0], 9);
    assert_eq!(buf[33][33][33], 9);
    let mut back = [[[1u8; 32]; 32]; 32];
    wolkenwelten::blit_chunk_buffer(&mut back, &buf);
    assert!(back == chunk);
}

#[test]
fn blit_with_an_offset_clips_to_the_buffer() {
    let chunk = [[[5u8; 32]; 32]; 32];
    let mut buf = [[[0u8; 34]; 34]; 34];
    wolkenwelten::blit_chunk_data(&mut buf, &chunk, [-31, 0, 33]);
    assert_eq!(buf[0][0][33], 5);
    assert_eq!(buf[1][0][33], 0);
    assert_eq!(buf[0][31][33], 5);
    assert_eq!(buf[0][32][33], 0);
    assert_eq!(buf[0][0][32], 0);
}
