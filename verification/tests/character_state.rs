use wolkenwelten::{BlockItem, Character, Experience, GameLog, Health, Item};

#[test]
fn health_damage_and_heal_clamp() {
    let mut h = Health::new(12);
    assert_eq!(h.health(), 12);
    assert_eq!(h.max_health(), 12);
    h.damage(5);
    assert_eq!(h.health(), 7);
    h.damage(20);
    assert_eq!(h.health(), 0);
    assert!(h.is_dead());
    assert!(!h.is_alive());
    h.heal(30);
    assert_eq!(h.health(), 12);
    assert!(h.is_alive());
    h.set_max_health(8);
    assert_eq!(h.health(), 8);
    assert_eq!(h.max_health(), 8);
    h.damage(3);
    h.set_full_health();
    assert_eq!(h.health(), 8);
}

#[test]
fn health_default_and_operators() {
    let h = Health::default();
    assert_eq!(h.health(), 12);
    assert_eq!(h.max_health(), 12);
    let h2 = h - 5;
    assert_eq!(h2.health(), 7);
    let h3 = h2 + 100;
    assert_eq!(h3.health(), 12);
    let mut h4 = h3;
    h4 -= 13;
    assert_eq!(h4.health(), 0);
    h4 += 2;
    assert_eq!(h4.health(), 2);
}

#[test]
fn experience_level_up_keeps_the_total() {
    let mut e = Experience::new();
    assert_eq!(e.xp(), 0);
    assert_eq!(e.level(), 1);
    assert_eq!(e.next_level(), 32);
    e.gain(31);
    assert!(!e.level_up());
    assert_eq!(e.level(), 1);
    e.gain(10);
    assert!(e.level_up());
    assert_eq!(e.level(), 2);
    assert_eq!(e.xp(), 9);
    assert_eq!(e.next_level(), 96);
    assert!(!e.level_up());
    e.set_next_level(5);
    assert!(e.level_up());
    assert_eq!(e.xp(), 4);
    assert_eq!(e.next_level(), 15);
    e.reset();
    assert_eq!(e.xp(), 0);
    assert_eq!(e.level(), 1);
    assert_eq!(e.next_level(), 32);
}

#[test]
fn game_log_keeps_the_newest() {
    let mut log = GameLog::new();
    assert!(log.is_empty());
    assert_eq!(log.max_len(), 10);
    log.set_max_len(2);
    log.push("one".to_string());
    log.push("two".to_string());
    log.push("three".to_string());
    assert_eq!(log.len(), 2);
    assert_eq!(log.entries()[0].0, "two");
    assert_eq!(log.entries()[1].0, "three");
    log.entries_mut().clear();
    assert!(log.is_empty());
}

#[test]
fn inventory_add_and_remove_blocks() {
    let mut c = Character::new();
    c.rebirth();
    assert_eq!(c.inventory().len(), 10);
    c.add_block_to_inventory(3);
    c.add_block_to_inventory(3);
    c.add_block_to_inventory(4);
    assert_eq!(c.inventory()[0], Item::Block(BlockItem::new(3, 2)));
    assert_eq!(c.inventory()[1], Item::Block(BlockItem::new(4, 1)));
    c.remove_block_from_inventory(3);
    assert_eq!(c.inventory()[0], Item::Block(BlockItem::new(3, 1)));
    c.remove_block_from_inventory(3);
    assert_eq!(c.inventory()[0], Item::Empty);
    c.add_block_to_inventory(5);
    assert_eq!(c.inventory()[0], Item::Block(BlockItem::new(5, 1)));
}

#[test]
fn inventory_full_stacks_open_a_new_slot() {
    let mut c = Character::new();
    c.rebirth();
    c.inventory_mut()[0] = Item::Block(BlockItem::new(7, 99));
    c.add_block_to_inventory(7);
    assert_eq!(c.inventory()[0], Item::Block(BlockItem::new(7, 99)));
    assert_eq!(c.inventory()[1], Item::Block(BlockItem::new(7, 1)));
}

#[test]
fn drop_item_takes_one_of_a_stack() {
    let mut c = Character::new();
    c.rebirth();
    c.inventory_mut()[2] = Item::Block(BlockItem::new(1, 3));
    let dropped = c.drop_item(2);
    assert_eq!(dropped, Item::Block(BlockItem::new(1, 1)));
    assert_eq!(c.inventory()[2], Item::Block(BlockItem::new(1, 2)));
    c.inventory_mut()[3] = Item::Block(BlockItem::new(1, 1));
    let dropped = c.drop_item(3);
    assert_eq!(dropped, Item::Block(BlockItem::new(1, 1)));
    assert_eq!(c.inventory()[3], Item::Empty);
}

#[test]
fn switch_selection_wraps_around() {
    let mut c = Character::new();
    c.rebirth();
    assert_eq!(c.inventory_active(), 0);
    c.switch_selection(1);
    assert_eq!(c.inventory_active(), 9);
    c.switch_selection(-1);
    assert_eq!(c.inventory_active(), 0);
    c.switch_selection(-1);
    assert_eq!(c.inventory_active(), 1);
}

#[test]
fn gaining_experience_levels_up_and_heals() {
    let mut c = Character::new();
    c.rebirth();
    assert_eq!(c.on_gain_experience(10), None);
    assert_eq!(c.experience().xp(), 18);
    assert_eq!(c.on_gain_experience(20), Some(2));
    assert_eq!(c.experience().level(), 2);
    assert_eq!(c.experience().xp(), 6);
    assert_eq!(c.health().max_health(), 16);
    assert_eq!(c.health().health(), 16);
}

#[test]
fn striking_waits_for_the_cooldown() {
    let mut c = Character::new();
    c.rebirth();
    assert!(c.may_act(1));
    assert!(c.on_player_strike(1000));
    assert!(matches!(c.animation(), wolkenwelten::CharacterAnimation::Hit(_)));
    assert!(!c.may_act(1400));
    assert!(!c.on_player_strike(1400));
    assert!(c.on_player_strike(1401));
}

#[test]
fn placing_takes_a_block_from_the_selected_stack() {
    let mut c = Character::new();
    c.rebirth();
    c.inventory_mut()[0] = Item::Block(BlockItem::new(4, 2));
    assert_eq!(c.on_block_place(10, 1), None);
    assert_eq!(c.on_block_place(10, 0), Some(4));
    assert_eq!(c.inventory()[0], Item::Block(BlockItem::new(4, 1)));
    assert_eq!(c.on_block_place(100, 0), None);
    assert_eq!(c.on_block_place(311, 0), Some(4));
    assert_eq!(c.inventory()[0], Item::Empty);
    assert_eq!(c.on_block_place(700, 0), None);
}

#[test]
fn mining_follows_the_target() {
    let mut c = Character::new();
    c.rebirth();
    let target = Some((wolkenwelten::IVec3::new(1, 2, 3), 5));
    c.on_block_mine(10, target);
    assert_eq!(c.mining(), target);
    c.on_block_mine(20, None);
    assert_eq!(c.mining(), None);
    c.set_mining_cooldown(100);
    c.on_block_mine(50, target);
    assert_eq!(c.mining(), None);
}

#[test]
fn dropping_from_the_selected_slot() {
    let mut c = Character::new();
    c.rebirth();
    assert_eq!(c.on_drop_item(10), None);
    c.inventory_mut()[0] = Item::Block(BlockItem::new(2, 5));
    assert_eq!(c.on_drop_item(20), Some(Item::Block(BlockItem::new(2, 1))));
    assert_eq!(c.inventory()[0], Item::Block(BlockItem::new(2, 4)));
    assert_eq!(c.on_drop_item(50), None);
    assert_eq!(c.on_drop_item(121), Some(Item::Block(BlockItem::new(2, 1))));
}

#[test]
fn picking_up_a_stack_adds_each_block() {
    let mut c = Character::new();
    c.rebirth();
    c.inventory_mut()[0] = Item::Block(BlockItem::new(6, 98));
    c.on_item_pickup(BlockItem::new(6, 3));
    assert_eq!(c.inventory()[0], Item::Block(BlockItem::new(6, 99)));
    assert_eq!(c.inventory()[1], Item::Block(BlockItem::new(6, 2)));
}

#[test]
fn hit_animation_ends_after_half_a_second() {
    let mut c = Character::new();
    c.set_animation_hit();
    c.end_hit_after(500);
    assert!(matches!(c.animation(), wolkenwelten::CharacterAnimation::Hit(_)));
    c.end_hit_after(501);
    assert_eq!(c.animation(), wolkenwelten::CharacterAnimation::Idle);
    c.check_animation();
    assert_eq!(c.animation(), wolkenwelten::CharacterAnimation::Idle);
}

#[test]
fn new_character_starts_at_level_one() {
    let c = Character::new();
    assert_eq!(c.experience().level(), 1);
    assert_eq!(c.experience().xp(), 0);
    assert_eq!(c.experience().xp_total(), 0);
    assert_eq!(c.experience().next_level(), 32);
}
