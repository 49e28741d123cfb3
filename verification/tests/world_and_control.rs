use wolkenwelten::{
    BlockMiningMap, ChunkFluidData, ChunkPosIter, Dispatch, InputAction, InputState, IVec3, Key, Reactor,
    ScriptedItem, ScriptedItemList, SfxId, WorldBox,
};

#[test]
fn world_boxes() {
    let outer = WorldBox::new(IVec3::new(0, 0, 0), IVec3::new(10, 10, 10));
    let inner = WorldBox::new(IVec3::new(2, 2, 2), IVec3::new(3, 3, 3));
    let apart = WorldBox::new(IVec3::new(11, 0, 0), IVec3::new(12, 1, 1));
    assert!(outer.contains(&inner));
    assert!(!inner.contains(&outer));
    assert!(inner.is_within(&outer));
    assert!(outer.intersects(&inner));
    assert!(inner.intersects(&outer));
    assert!(!outer.intersects(&apart));
    assert!(outer.contains_point(IVec3::new(10, 0, 5)));
    assert!(!outer.contains_point(IVec3::new(10, -1, 5)));
}

#[test]
fn mining_breaks_a_block_once_its_health_is_exceeded() {
    let mut m = BlockMiningMap::new();
    let p = IVec3::new(1, 2, 3);
    assert!(!m.mine(p, 4, 1, 5));
    assert_eq!(m.iter().len(), 1);
    assert_eq!(m.iter()[0].1.damage, 2);
    assert!(!m.mine(p, 4, 3, 5));
    assert_eq!(m.iter()[0].1.damage, 5);
    assert!(m.mine(p, 4, 1, 5));
    assert_eq!(m.iter()[0].1.damage, 1);
}

#[test]
fn mining_heals_over_time() {
    let mut m = BlockMiningMap::new();
    m.mine(IVec3::new(0, 0, 0), 1, 1, 10);
    m.mine(IVec3::new(1, 0, 0), 1, 1, 10);
    m.mine(IVec3::new(1, 0, 0), 1, 3, 10);
    m.tick();
    assert_eq!(m.iter().len(), 2);
    assert_eq!(m.iter()[0].1.damage, 1);
    assert_eq!(m.iter()[1].1.damage, 4);
    m.tick();
    assert_eq!(m.iter().len(), 1);
    assert_eq!(m.iter()[0].0, IVec3::new(1, 0, 0));
    assert_eq!(m.iter()[0].1.damage, 3);
}

#[test]
fn scripted_items_set_then_get() {
    let mut l = ScriptedItemList::new();
    assert_eq!(l.get_icon(3), None);
    l.set_icon(3, 12);
    assert_eq!(l.get_icon(3), Some(12));
    assert_eq!(l.get_mesh(3), Some(0));
    assert_eq!(l.get_amount(3), Some(0));
    l.set_amount(3, 7);
    l.set_mesh(3, 2);
    assert_eq!(l.get_amount(3), Some(7));
    assert_eq!(l.get_mesh(3), Some(2));
    assert_eq!(l.get_icon(3), Some(12));
    l.set_mesh(4, 9);
    assert_eq!(l.get_mesh(4), Some(9));
    assert_eq!(l.get_icon(4), Some(0));
    let si = l.get(3).unwrap();
    assert_eq!((si.id, si.icon, si.mesh, si.amount), (3, 12, 2, 7));
    assert!(!si.delete);
    l.delete(3);
    assert!(l.get(3).unwrap().delete);
    assert_eq!(l.get_icon(3), Some(12));
    l.delete(5);
    assert!(l.get(5).is_none());
    let fresh = ScriptedItem::new(1, 2, 3, 4);
    assert_eq!((fresh.id, fresh.icon, fresh.mesh, fresh.amount), (1, 2, 3, 4));
}

#[test]
fn chunk_positions_walk_z_fastest() {
    let mut it = ChunkPosIter::new();
    assert_eq!(it.next(), Some((0, 0, 0)));
    assert_eq!(it.next(), Some((0, 0, 1)));
    let mut n = 2;
    let mut last = (0, 0, 1);
    while let Some(p) = it.next() {
        last = p;
        n += 1;
    }
    assert_eq!(n, 32 * 32 * 32);
    assert_eq!(last, (31, 31, 31));
    assert_eq!(it.next(), None);
}

#[test]
fn fluid_set_and_get() {
    let mut f = ChunkFluidData::new();
    f.set(3, IVec3::new(1, 2, 3));
    assert_eq!(f.get(IVec3::new(1, 2, 3)), 3);
    f.set_box(2, IVec3::new(0, 0, 0), IVec3::new(2, 2, 2));
    assert_eq!(f.get(IVec3::new(1, 1, 1)), 2);
    assert_eq!(f.get(IVec3::new(2, 2, 2)), 0);
}

#[test]
fn reactor_defers_until_the_dispatch_is_done() {
    let mut r: Reactor<u32> = Reactor::new();
    assert_eq!(r.defer(7), Some(7));
    assert_eq!(r.dispatch(1), Dispatch::Begin(1));
    assert_eq!(r.dispatch(2), Dispatch::Now(2));
    assert_eq!(r.defer(3), None);
    assert_eq!(r.defer(4), None);
    assert_eq!(r.next_batch(), vec![3, 4]);
    assert_eq!(r.defer(5), None);
    assert_eq!(r.next_batch(), vec![5]);
    assert!(r.next_batch().is_empty());
    assert_eq!(r.defer(6), Some(6));
    assert_eq!(r.dispatch(8), Dispatch::Begin(8));
}

#[test]
fn input_steering_and_actions() {
    let mut s = InputState::new();
    assert_eq!(s.steering(), (0, 0, 0));
    assert_eq!(s.actions(), vec![InputAction::StopMining]);
    s.key_up_down(Key::Left, true);
    s.key_up_down(Key::Up, true);
    s.key_up_down(Key::Jump, true);
    assert_eq!(s.steering(), (-1, 1, -1));
    s.key_up_down(Key::Right, true);
    assert_eq!(s.steering(), (0, 1, -1));
    s.key_up_down(Key::Primary, true);
    s.key_up_down(Key::Drop, true);
    assert_eq!(s.actions(), vec![InputAction::Strike, InputAction::MineAtCursor, InputAction::DropItem]);
    s.key_up_down(Key::Primary, false);
    s.key_up_down(Key::Secondary, true);
    s.key_up_down(Key::Tertiary, true);
    assert_eq!(
        s.actions(),
        vec![InputAction::StopMining, InputAction::PlaceAtCursor, InputAction::Shoot, InputAction::DropItem]
    );
    assert!(!s.is_sprinting());
    s.key_up_down(Key::Sprint, true);
    assert!(s.is_sprinting());
    assert!(s.is_held(Key::Left));
    assert_eq!(Key::default(), Key::Up);
    assert_eq!(Key::Tertiary.index(), 10);
}

#[test]
fn sound_default_is_silence() {
    assert_eq!(SfxId::default(), SfxId::Void);
}

