use wolkenwelten::worldgen::chunk_box;
use wolkenwelten::{
    Character, ChunkRequestQueue, Experience, FallOutcome, IVec3, OutlineSearch, WorldBox, WorldGenOutline,
};

fn outline(a: (i32, i32, i32), b: (i32, i32, i32), name: u32) -> WorldGenOutline {
    WorldGenOutline {
        position: WorldBox::new(IVec3::new(a.0, a.1, a.2), IVec3::new(b.0, b.1, b.2)),
        name,
        variant: 0,
        level: 1,
    }
}

#[test]
fn chunk_box_spans_the_chunk() {
    let b = chunk_box(IVec3::new(1, -1, 0));
    assert_eq!(b.a, IVec3::new(32, -32, 0));
    assert_eq!(b.b, IVec3::new(64, 0, 32));
}

#[test]
fn outline_search_keeps_what_touches_the_area() {
    let area = chunk_box(IVec3::new(0, 0, 0));
    let mut s = OutlineSearch::new(area, 1);
    assert_eq!(s.pending().len(), 1);
    assert_eq!(s.pending()[0].name, 1);
    let near = outline((10, 10, 10), (40, 40, 40), 2);
    let far = outline((100, 100, 100), (140, 140, 140), 3);
    assert!(!s.advance(vec![near, far]));
    assert_eq!(s.outlines().len(), 1);
    assert!(s.advance(vec![]));
    assert_eq!(s.outlines().len(), 2);
    assert_eq!(s.outlines()[1], near);
    assert!(s.pending().is_empty());
}

#[test]
fn requests_are_sets() {
    let mut q = ChunkRequestQueue::new();
    q.block(IVec3::new(1, 2, 3));
    q.block(IVec3::new(1, 2, 3));
    q.block(IVec3::new(0, 0, 0));
    assert_eq!(q.block_len(), 2);
    assert_eq!(q.mesh_len(), 0);
    q.mesh(IVec3::new(5, 5, 5));
    q.fluid(IVec3::new(5, 5, 5));
    q.simple_light(IVec3::new(5, 5, 5));
    q.complex_light(IVec3::new(5, 5, 5));
    assert_eq!(q.mesh_len(), 1);
    assert_eq!(q.fluid_len(), 1);
    assert_eq!(q.simple_light_len(), 1);
    assert_eq!(q.complex_light_len(), 1);
    assert!(q.get_block().contains(IVec3::new(0, 0, 0)));
    assert_eq!(q.get_block().positions()[0], IVec3::new(1, 2, 3));
    let taken = q.get_block_mut().take();
    assert_eq!(taken.len(), 2);
    assert_eq!(q.block_len(), 0);
    assert_eq!(q.mesh_len(), 1);
}

#[test]
fn fall_damage_hurts_then_kills() {
    let mut c = Character::new();
    c.rebirth();
    assert_eq!(c.take_fall_damage(0), FallOutcome::Unhurt);
    assert_eq!(c.health().health(), 12);
    assert_eq!(c.take_fall_damage(3), FallOutcome::Hurt(9));
    assert_eq!(c.health().health(), 3);
    c.add_block_to_inventory(1);
    assert_eq!(c.take_fall_damage(2), FallOutcome::Died);
    assert_eq!(c.health().health(), 12);
    assert_eq!(c.inventory()[0], wolkenwelten::Item::Empty);
    assert_eq!(c.experience().xp(), 8);
}

#[test]
fn experience_total() {
    let mut e = Experience::new();
    e.gain(40);
    e.level_up();
    assert_eq!(e.xp_total(), 32);
    assert_eq!(e.xp_total() + e.xp(), 40);
}
