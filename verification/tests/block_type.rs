use wolkenwelten::{BlockType, Side};

#[test]
fn test_side() {
    assert_eq!(u8::from(Side::Front), 0);
    assert_eq!(u8::from(Side::Back), 1);
    assert_eq!(u8::from(Side::Right), 5);
    assert_eq!(Side::Left, Side::Left);
    assert_eq!(Side::Left, Side::Left.clone());
    assert_ne!(Side::Left, Side::Right);
    assert_eq!(Side::default(), Side::Front);
}

#[test]
fn test_block_types() {
    let blocks = BlockType::new_default();
    assert_eq!(blocks[1].tex_right(), 1);
    assert_eq!(blocks[1].tex_left(), 1);
    assert_eq!(blocks[1].tex_top(), 1);
    assert_eq!(blocks[1].tex_bottom(), 1);
    assert_eq!(blocks[1].tex_front(), 1);
    assert_eq!(blocks[1].tex_back(), 1);
    let b = blocks[1].clone().with_texture_bottom(2);
    assert_eq!(b.tex_bottom(), 2);
    assert_eq!(b.tex_top(), 1);
    let b = b.with_texture_top(2);
    assert_eq!(b.tex_bottom(), 2);
    assert_eq!(b.tex_top(), 2);
    assert_eq!(b.tex_left(), 1);
    assert!(blocks.len() > 8);
    assert_eq!(blocks[1].name(), "Dirt");
    assert_ne!(blocks[2].tex_top(), blocks[2].tex_left());
    let dis = blocks[3].to_string();
    assert_eq!(dis, "<BlockType name=Stone />");
}

#[test]
fn a_cloned_block_type_is_the_same() {
    let blocks = BlockType::new_default();
    for b in blocks.iter() {
        let c = b.clone();
        assert_eq!(c.name(), b.name());
        assert_eq!(c.tex(), b.tex());
        assert_eq!(c.colors(), b.colors());
        assert_eq!(c.mining_cat(), b.mining_cat());
        assert_eq!(c.block_health(), b.block_health());
    }
    let c = blocks[1].clone().with_texture_bottom(2);
    assert_eq!(c.tex(), [1, 1, 1, 2, 1, 1]);
    assert_eq!(c.name(), "Dirt");
}

#[test]
fn defaults_are_empty_or_zero() {
    assert_eq!(wolkenwelten::Rgba8::default(), wolkenwelten::Rgba8::new(0, 0, 0, 0));
    assert_eq!(wolkenwelten::MiningCategory::default(), wolkenwelten::MiningCategory::NoTool);
    assert_eq!(wolkenwelten::Item::default(), wolkenwelten::Item::Empty);
    assert_eq!(wolkenwelten::BlockItem::default(), wolkenwelten::BlockItem::new(0, 0));
    assert_eq!(wolkenwelten::IVec3::default(), wolkenwelten::IVec3::new(0, 0, 0));
    assert_eq!(wolkenwelten::BlockVertex::default(), wolkenwelten::BlockVertex::new(0, 0, 0, 0, 0, 0));
    assert_eq!(wolkenwelten::CharacterAnimation::default(), wolkenwelten::CharacterAnimation::Idle);
    assert_eq!(wolkenwelten::RaycastReturn::default(), wolkenwelten::RaycastReturn::Within);
}
