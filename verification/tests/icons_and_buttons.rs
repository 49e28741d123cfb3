use wolkenwelten::icons::{build_block_icons, Image};
use wolkenwelten::input::{Button, InputCommand};
use wolkenwelten::{BlockType, InputState, Key};

fn atlas() -> Image {
    let mut pixels = vec![];
    for y in 0..16u8 {
        for x in 0..4u8 {
            pixels.push([x, y, 0, 255]);
        }
    }
    Image::from_pixels(4, 16, pixels).unwrap()
}

#[test]
fn image_pixels_round_trip() {
    let mut img = Image::new(3, 2);
    assert_eq!(img.get_pixel(2, 1), [0, 0, 0, 0]);
    img.put_pixel(2, 1, [1, 2, 3, 4]);
    assert_eq!(img.get_pixel(2, 1), [1, 2, 3, 4]);
    assert_eq!(img.get_pixel(1, 1), [0, 0, 0, 0]);
    assert_eq!(img.pixels()[5], [1, 2, 3, 4]);
    assert!(Image::from_pixels(2, 2, vec![[0; 4]; 3]).is_none());
}

#[test]
fn block_icon_from_its_tiles() {
    let blocks = BlockType::new_default();
    let one = vec![blocks[1].clone()];
    let icons = build_block_icons(&atlas(), &one, 4);
    assert_eq!(icons.len(), 1);
    let icon = &icons[0];
    assert_eq!((icon.width(), icon.height()), (4, 4));
    // the top tile (rows 8 to 11) lands in a diamond at the top
    assert_eq!(icon.get_pixel(2, 0), [1, 9, 0, 255]);
    // the front tile, upside down and a sixth darker, on the lower left
    assert_eq!(icon.get_pixel(0, 1), [1, 10, 0, 255]);
}

#[test]
fn buttons_hold_keys_and_ask_for_commands() {
    let mut s = InputState::new();
    assert_eq!(s.handle_button(Button::W, true), None);
    assert!(s.is_held(Key::Up));
    assert_eq!(s.handle_button(Button::W, false), None);
    assert!(!s.is_held(Key::Up));
    assert_eq!(s.handle_button(Button::MouseLeft, true), None);
    assert!(s.is_held(Key::Primary));
    assert_eq!(s.handle_button(Button::E, true), None);
    assert!(s.is_held(Key::Tertiary));
    assert_eq!(s.handle_button(Button::N, true), Some(InputCommand::NoClip(true)));
    assert_eq!(s.handle_button(Button::M, true), Some(InputCommand::NoClip(false)));
    assert_eq!(s.handle_button(Button::M, false), None);
    assert_eq!(s.handle_button(Button::Digit(1), true), Some(InputCommand::Select(0)));
    assert_eq!(s.handle_button(Button::Digit(0), true), Some(InputCommand::Select(9)));
    assert_eq!(s.handle_button(Button::Escape, true), Some(InputCommand::Quit));
    assert_eq!(s.handle_button(Button::LShift, true), None);
    assert!(s.is_sprinting());
}
