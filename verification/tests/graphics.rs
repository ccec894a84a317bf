use std::rc::Rc;

use atoma::entity::{Direction, Enemy, Entity, Projectile};
use atoma::graphics::{AnimatedSprite, Color, Screen, Sprite, SpriteSheet};
use atoma::level::Tile;
use atoma::vector::Vec2;

const KEY: [u8; 4] = [255, 0, 255, 255];

/// A sheet of `width` by `height` pixels; the pixel in column `x` of row
/// `y` is (x, y, 7, 255).
fn numbered_sheet(width: u32, height: u32) -> Rc<SpriteSheet> {
    let mut bytes = Vec::new();
    for y in 0..height {
        for x in 0..width {
            bytes.extend_from_slice(&[x as u8, y as u8, 7, 255]);
        }
    }
    Rc::new(SpriteSheet::new(width, height, bytes).unwrap())
}

/// A sheet of one sprite of two by two pixels whose top-left pixel has the
/// transparent colour.
fn holed_sheet() -> Rc<SpriteSheet> {
    let mut bytes = Vec::new();
    bytes.extend_from_slice(&KEY);
    bytes.extend_from_slice(&[1, 0, 0, 255]);
    bytes.extend_from_slice(&[0, 1, 0, 255]);
    bytes.extend_from_slice(&[1, 1, 0, 255]);
    Rc::new(SpriteSheet::new(2, 2, bytes).unwrap())
}

fn color(r: u8, g: u8, b: u8) -> Color {
    Color { r, g, b, a: 255 }
}

#[test]
fn sheet_needs_four_bytes_for_every_pixel() {
    assert!(SpriteSheet::new(2, 2, vec![0; 15]).is_none());
    assert!(SpriteSheet::new(2, 2, vec![0; 16]).is_some());
    assert!(SpriteSheet::new(0, 5, vec![]).is_some());
    assert!(SpriteSheet::new(u32::MAX, u32::MAX, vec![0; 16]).is_none());
    let sheet = numbered_sheet(3, 2);
    assert_eq!(sheet.width(), 3);
    assert_eq!(sheet.height(), 2);
    assert_eq!(sheet.get_pixel(2, 1), color(2, 1, 7));
}

#[test]
fn sheet_without_rows_needs_a_row_whose_bytes_can_be_counted() {
    let countable = 4 * 0x4000_0000u64 <= usize::MAX as u64;
    assert_eq!(SpriteSheet::new(0x4000_0000, 0, vec![]).is_some(), countable);
    assert!(SpriteSheet::new(0x3fff_ffff, 0, vec![]).is_some());
    assert!(SpriteSheet::new(0, u32::MAX, vec![]).is_some());
    let screen = Screen::new(0x3fff_ffff, 0);
    assert_eq!(screen.rgba_bytes().len(), 0);
}

#[test]
fn sprite_is_a_square_of_its_sheet() {
    let sheet = numbered_sheet(8, 4);
    assert!(Sprite::fits(4, 1, 0, &sheet));
    assert!(!Sprite::fits(4, 2, 0, &sheet));
    assert!(!Sprite::fits(4, 0, 1, &sheet));
    assert!(!Sprite::fits(u32::MAX, u32::MAX, 0, &sheet));
    let sprite = Sprite::new(4, 1, 0, sheet);
    assert_eq!(sprite.size(), 4);
    let view = sprite.view();
    assert_eq!(view.dimensions(), (4, 4));
    assert_eq!(view.get_pixel(0, 0), color(4, 0, 7));
    assert_eq!(view.get_pixel(3, 2), color(7, 2, 7));
    let copy = sprite.clone();
    assert_eq!(copy.view().get_pixel(3, 2), color(7, 2, 7));
}

#[test]
fn animation_steps_when_the_timer_passes_a_threshold() {
    let sheet = numbered_sheet(8, 4);
    let frames = vec![Sprite::new(4, 0, 0, sheet.clone()), Sprite::new(4, 1, 0, sheet)];
    let mut sprite = AnimatedSprite::new(frames, vec![1, 3, 4]);
    assert_eq!(sprite.size(), 4);
    let shown = |sprite: &AnimatedSprite| sprite.view().get_pixel(0, 0).r;
    assert_eq!(shown(&sprite), 0);
    sprite.update(); // timer 1, not over 1
    assert_eq!(shown(&sprite), 0);
    sprite.update(); // timer 2, over 1: second step
    assert_eq!(shown(&sprite), 4);
    sprite.update(); // timer 3, not over 3
    assert_eq!(shown(&sprite), 4);
    sprite.update(); // timer 4, over 3: third step, first frame again
    assert_eq!(shown(&sprite), 0);
    sprite.update(); // timer 5, over 4: behind the last step, start over
    assert_eq!(shown(&sprite), 0);
    sprite.update(); // timer 1 again
    sprite.update(); // timer 2: second step
    assert_eq!(shown(&sprite), 4);
    sprite.reset();
    assert_eq!(shown(&sprite), 0);
}

#[test]
fn animation_timer_stops_at_its_limit() {
    let sheet = numbered_sheet(8, 4);
    let frames = vec![Sprite::new(4, 0, 0, sheet.clone()), Sprite::new(4, 1, 0, sheet)];
    let mut sprite = AnimatedSprite::new(frames, vec![255, 0]);
    for _ in 0..1000 {
        sprite.update();
    }
    assert_eq!(sprite.view().get_pixel(0, 0).r, 0);
}

#[test]
fn new_screen_is_empty_and_clear_makes_it_black() {
    let mut screen = Screen::new(3, 2);
    assert_eq!(screen.dimensions(), (3, 2));
    assert_eq!(screen.offset(), Vec2::new(0, 0));
    assert_eq!(screen.get_pixel(2, 1), Color { r: 0, g: 0, b: 0, a: 0 });
    screen.clear();
    for y in 0..2 {
        for x in 0..3 {
            assert_eq!(screen.get_pixel(x, y), Color::black());
        }
    }
    assert_eq!(screen.rgba_bytes(), [0u8, 0, 0, 255].repeat(6));
}

#[test]
fn put_pixel_outside_the_screen_does_nothing() {
    let mut screen = Screen::new(3, 2);
    screen.put_pixel(3, 0, color(1, 2, 3));
    screen.put_pixel(0, 2, color(1, 2, 3));
    screen.put_pixel(u32::MAX, u32::MAX, color(1, 2, 3));
    assert_eq!(screen.rgba_bytes(), vec![0u8; 24]);
    screen.put_pixel(2, 1, color(1, 2, 3));
    assert_eq!(screen.get_pixel(2, 1), color(1, 2, 3));
    let bytes = screen.rgba_bytes();
    assert_eq!(&bytes[20..], &[1, 2, 3, 255]);
    assert_eq!(&bytes[..20], &[0u8; 20]);
}

#[test]
fn tile_is_drawn_turned_and_clipped() {
    let tile = Tile::new(Sprite::new(2, 0, 0, numbered_sheet(2, 2)), true);
    assert!(tile.solid);
    let mut screen = Screen::new(3, 3);
    screen.render_tile(Vec2::new(1, 1), &tile, Direction::Up);
    assert_eq!(screen.get_pixel(1, 1), color(0, 0, 7));
    assert_eq!(screen.get_pixel(2, 1), color(1, 0, 7));
    assert_eq!(screen.get_pixel(1, 2), color(0, 1, 7));
    assert_eq!(screen.get_pixel(2, 2), color(1, 1, 7));
    assert_eq!(screen.get_pixel(0, 0), Color { r: 0, g: 0, b: 0, a: 0 });

    let mut screen = Screen::new(3, 3);
    screen.render_tile(Vec2::new(0, 0), &tile, Direction::Down);
    assert_eq!(screen.get_pixel(0, 0), color(0, 1, 7));
    assert_eq!(screen.get_pixel(1, 1), color(1, 0, 7));

    let mut screen = Screen::new(3, 3);
    screen.render_tile(Vec2::new(0, 0), &tile, Direction::Left);
    assert_eq!(screen.get_pixel(1, 0), color(0, 1, 7));
    assert_eq!(screen.get_pixel(0, 1), color(1, 0, 7));

    let mut screen = Screen::new(3, 3);
    screen.render_tile(Vec2::new(0, 0), &tile, Direction::Right);
    assert_eq!(screen.get_pixel(0, 0), color(0, 1, 7));
    assert_eq!(screen.get_pixel(1, 0), color(0, 0, 7));
    assert_eq!(screen.get_pixel(0, 1), color(1, 1, 7));

    // scrolled so that only the bottom right pixel of the tile shows
    let mut screen = Screen::new(3, 3);
    screen.set_offset(Vec2::new(1, 1));
    screen.render_tile(Vec2::new(0, 0), &tile, Direction::Up);
    assert_eq!(screen.get_pixel(0, 0), color(1, 1, 7));
    assert_eq!(screen.get_pixel(1, 0), Color { r: 0, g: 0, b: 0, a: 0 });

    let mut screen = Screen::new(3, 3);
    tile.render(1, 0, &mut screen, Direction::Up);
    assert_eq!(screen.get_pixel(0, 0), Color { r: 0, g: 0, b: 0, a: 0 });
    assert_eq!(tile.sprite.size(), 2);
}

#[test]
fn sprite_of_an_entity_skips_the_transparent_colour() {
    let sheet = holed_sheet();
    let sprite = AnimatedSprite::new(vec![Sprite::new(2, 0, 0, sheet)], vec![5]);
    let enemy = Enemy::new(Vec2::new(1000, 1000), 500, sprite);
    let mut screen = Screen::new(4, 4);
    screen.clear();
    enemy.render(&mut screen, Vec2::new(0, 0));
    assert_eq!(screen.get_pixel(1, 1), Color::black());
    assert_eq!(screen.get_pixel(2, 1), color(1, 0, 0));
    assert_eq!(screen.get_pixel(1, 2), color(0, 1, 0));
    assert_eq!(screen.get_pixel(2, 2), color(1, 1, 0));
    assert_eq!(screen.get_pixel(0, 0), Color::black());
    assert_eq!(screen.get_pixel(3, 3), Color::black());

    // mirrored, the hole is on the right
    let mut screen = Screen::new(4, 4);
    screen.clear();
    enemy.render_impl(&mut screen, Vec2::new(0, 0), true);
    assert_eq!(screen.get_pixel(1, 1), color(1, 0, 0));
    assert_eq!(screen.get_pixel(2, 1), Color::black());
    assert_eq!(screen.get_pixel(1, 2), color(1, 1, 0));
    assert_eq!(screen.get_pixel(2, 2), color(0, 1, 0));

    // scrolled by two pixels, only the right column is left, in column zero
    let mut screen = Screen::new(4, 4);
    screen.clear();
    enemy.render(&mut screen, Vec2::new(2, 0));
    assert_eq!(screen.get_pixel(0, 1), color(1, 0, 0));
    assert_eq!(screen.get_pixel(0, 2), color(1, 1, 0));
    assert_eq!(screen.get_pixel(1, 1), Color::black());
}

#[test]
fn projectile_is_one_black_pixel() {
    let projectile = Projectile::new(Vec2::new(2500, 1999), Vec2::new(1000, 0), 4000, 11);
    let mut screen = Screen::new(4, 4);
    projectile.render(&mut screen, Vec2::new(0, 0));
    assert_eq!(screen.get_pixel(2, 1), Color::black());
    assert_eq!(screen.get_pixel(2, 2), Color { r: 0, g: 0, b: 0, a: 0 });
    // half a pixel left of the screen still counts as its first column
    let mut screen = Screen::new(4, 4);
    projectile.render(&mut screen, Vec2::new(3, 0));
    assert_eq!(screen.get_pixel(0, 1), Color::black());
    // further left nothing is drawn
    let mut screen = Screen::new(4, 4);
    projectile.render(&mut screen, Vec2::new(4, 0));
    assert_eq!(screen.rgba_bytes(), vec![0u8; 64]);
}

#[test]
fn transparent_key_is_magenta() {
    assert_eq!(Color::transparent_key(), Color { r: 255, g: 0, b: 255, a: 255 });
    assert!(Color::transparent_key().is_transparent_key());
    assert!(!Color::black().is_transparent_key());
}
