use std::rc::Rc;

use atoma::entity::player::{
    COLLIDER_LEFT, COLLIDER_SIDE, COLLIDER_TOP, PROJECTILE_SPEED,
};
use atoma::entity::{
    CollisionKind, Collider, Direction, Enemy, Entity, Intent, Message, MessageDispatcher,
    Player, Projectile, Telegram, ENTITY_MANAGER_ID, PLAYER_ID,
};
use atoma::graphics::{AnimatedSprite, Sprite, SpriteSheet};
use atoma::input::keyboard::{KEY_D, KEY_UP, KEY_W};
use atoma::input::{InputEvent, KeyBoard};
use atoma::level::{LoadInfo, Neighbour, Room, RoomType, Tile, TileSet, Tiles};
use atoma::vector::Vec2;

fn sheet() -> Rc<SpriteSheet> {
    Rc::new(SpriteSheet::new(32, 16, vec![0u8; 32 * 16 * 4]).unwrap())
}

fn animation(sheet: &Rc<SpriteSheet>) -> AnimatedSprite {
    AnimatedSprite::new(
        vec![Sprite::new(16, 0, 0, sheet.clone()), Sprite::new(16, 1, 0, sheet.clone())],
        vec![1, 3],
    )
}

fn all_sprites() -> Vec<(Direction, AnimatedSprite)> {
    let sheet = sheet();
    vec![
        (Direction::Up, animation(&sheet)),
        (Direction::Down, animation(&sheet)),
        (Direction::Left, animation(&sheet)),
        (Direction::Right, animation(&sheet)),
    ]
}

fn tile(solid: bool) -> Tile {
    Tile::new(Sprite::new(16, 0, 0, sheet()), solid)
}

/// A room of `width` by `height` tiles whose border is wall.
fn walled_room(width: i32, height: i32) -> Room {
    let mut tiles = Vec::new();
    for y in 0..height {
        for x in 0..width {
            if x == 0 || y == 0 || x == width - 1 || y == height - 1 {
                tiles.push(Tiles::Wall(0, Direction::Up));
            } else {
                tiles.push(Tiles::Grass(0));
            }
        }
    }
    Room {
        dimensions: Vec2::new(width, height),
        neighbours: [Neighbour::Invalid; 4],
        tiles,
        room_type: RoomType::Normal,
        grid_pos: Vec2::new(0, 0),
        load_info: LoadInfo::default(),
        tile_set: Rc::new(TileSet {
            grass: vec![tile(false)],
            walls: vec![tile(true)],
            corners: vec![tile(true), tile(true), tile(true), tile(true)],
            door: tile(false),
            void: tile(false),
        }),
    }
}

#[test]
fn projectile_is_removed_once_it_has_left_the_room() {
    let room = walled_room(4, 4);
    let width = 4 * 16 * 1000;
    let mut dispatcher = MessageDispatcher::new();
    let mut projectile = Projectile::new(Vec2::new(50_000, 8000), Vec2::new(1000, 0), 4000, 11);
    let mut x = 50_000;
    let mut ticks = 0;
    loop {
        projectile.update(&room, &mut dispatcher);
        ticks += 1;
        x += 4000;
        // marked on the first tick that ends beyond the width, not before
        assert_eq!(projectile.is_removed(), x > width);
        assert_eq!(projectile.collider().unwrap().origin, Vec2::new(x, 8000));
        if x > width {
            break;
        }
    }
    // 54, 58 and 62 pixels are inside, 66 is the first outside
    assert_eq!(ticks, 4);
    assert!(dispatcher.waiting().is_empty());
}

#[test]
fn projectile_leaves_a_room_of_two_tiles_on_the_fourth_tick() {
    let room = walled_room(2, 2);
    let mut dispatcher = MessageDispatcher::new();
    let mut projectile = Projectile::new(Vec2::new(20_000, 8000), Vec2::new(1000, 0), 4000, 0);
    for _ in 0..3 {
        projectile.update(&room, &mut dispatcher);
        assert!(!projectile.is_removed());
    }
    assert_eq!(projectile.absolute_pos(), Vec2::new(32, 8));
    projectile.update(&room, &mut dispatcher);
    assert_eq!(projectile.absolute_pos(), Vec2::new(36, 8));
    assert!(projectile.is_removed());
}

#[test]
fn projectile_on_the_edge_stays() {
    let room = walled_room(4, 4);
    let mut dispatcher = MessageDispatcher::new();
    let mut projectile = Projectile::new(Vec2::new(64_000, 0), Vec2::new(0, 0), 0, 11);
    projectile.update(&room, &mut dispatcher);
    assert!(!projectile.is_removed());
    let mut gone = Projectile::new(Vec2::new(-1, 0), Vec2::new(0, 0), 0, 11);
    gone.update(&room, &mut dispatcher);
    assert!(gone.is_removed());
    // one that starts outside is marked even when its step takes it inside
    let mut back = Projectile::new(Vec2::new(-1, 0), Vec2::new(1000, 0), 4000, 11);
    back.update(&room, &mut dispatcher);
    assert!(back.is_removed());
}

#[test]
fn projectile_has_a_box_of_one_pixel() {
    let mut projectile = Projectile::new(Vec2::new(5000, 5000), Vec2::new(0, 1000), 4000, 11);
    let collider = projectile.collider().unwrap();
    assert_eq!(collider.dimensions, Vec2::new(1000, 1000));
    assert_eq!(collider.kind, CollisionKind::Friendly);
    assert!(!projectile.collides());
    let other = Collider::new(Vec2::new(4000, 4000), Vec2::new(5000, 5000), CollisionKind::Hostile);
    assert!(projectile.collides_with(&Some(other)));
    assert!(projectile.collides());
    assert!(!projectile.collides_with(&None));
    assert!(projectile.collides());
    assert_eq!(projectile.id(), 11);
    projectile.set_id(12);
    assert_eq!(projectile.id(), 12);
    projectile.offset_pos(Vec2::new(500, 0));
    assert_eq!(projectile.collider().unwrap().origin, Vec2::new(5500, 5000));
}

#[test]
fn enemy_keeps_its_place() {
    let room = walled_room(4, 4);
    let mut dispatcher = MessageDispatcher::new();
    let mut enemy = Enemy::new(Vec2::new(32_000, 32_000), 500, animation(&sheet()));
    assert_eq!(enemy.id(), 0);
    enemy.update(&room, &mut dispatcher);
    let collider = enemy.collider().unwrap();
    assert_eq!(collider.origin, Vec2::new(33_000, 38_000));
    assert_eq!(collider.dimensions, Vec2::new(14_000, 10_000));
    assert!(collider.hostile());
    assert!(!enemy.collides_with(&Some(collider)));
    assert!(!enemy.collides());
    assert!(!enemy.is_removed());
    enemy.remove();
    assert!(enemy.is_removed());
    assert_eq!(enemy.absolute_pos(), Vec2::new(32, 32));
}

#[test]
fn player_walks_where_the_arrow_keys_say() {
    let room = walled_room(8, 8);
    let mut dispatcher = MessageDispatcher::new();
    let mut keyboard = KeyBoard::new();
    keyboard.update(&InputEvent::Press(KEY_UP));
    let mut player = Player::new(700, all_sprites(), Intent::from_keyboard(&keyboard), PLAYER_ID);
    player.set_pos(Vec2::new(48_000, 48_000));
    player.update(&room, &mut dispatcher);
    // a thrust of one pixel upward, cut to the budget of 5000, on a mass of
    // five gives 1000, which the speed limit cuts to 700
    assert_eq!(player.collider().unwrap().origin, Vec2::new(48_000 + COLLIDER_LEFT, 47_300 + COLLIDER_TOP));
    assert_eq!(player.absolute_pos(), Vec2::new(48, 47));
    assert!(dispatcher.waiting().is_empty());
    assert_eq!(dispatcher.poll_entity_message(), None);
}

#[test]
fn player_slides_along_a_wall() {
    let room = walled_room(8, 8);
    let mut dispatcher = MessageDispatcher::new();
    let intent = Intent { up: true, right: true, ..Intent::idle() };
    let mut player = Player::new(700, all_sprites(), intent, PLAYER_ID);
    // the box of the player starts three pixels right of its corner and six
    // below; its top edge is in the first free row, just below the wall
    player.set_pos(Vec2::new(48_000, 10_000));
    player.update(&room, &mut dispatcher);
    // the step is (494, -494): x is free, y leads into the wall above
    assert_eq!(player.collider().unwrap().origin, Vec2::new(48_494 + COLLIDER_LEFT, 10_000 + COLLIDER_TOP));
}

#[test]
fn player_asks_for_a_projectile_when_it_shoots() {
    let room = walled_room(8, 8);
    let mut dispatcher = MessageDispatcher::new();
    let mut keyboard = KeyBoard::new();
    keyboard.update(&InputEvent::Press(KEY_W));
    keyboard.update(&InputEvent::Press(KEY_D));
    let mut player = Player::new(700, all_sprites(), Intent::from_keyboard(&keyboard), PLAYER_ID);
    player.set_pos(Vec2::new(48_000, 48_000));
    player.update(&room, &mut dispatcher);
    assert_eq!(
        dispatcher.poll_entity_message(),
        Some(Telegram {
            sender: PLAYER_ID,
            receiver: ENTITY_MANAGER_ID,
            message: Message::SpawnEntity(
                Vec2::new(56_000, 56_000),
                Vec2::new(1000, 0),
                PROJECTILE_SPEED,
            ),
        })
    );
    assert_eq!(dispatcher.poll_entity_message(), None);
    // shooting does not move the player
    assert_eq!(player.absolute_pos(), Vec2::new(48, 48));
}

#[test]
fn player_only_runs_into_what_is_hostile() {
    let mut player = Player::new(700, all_sprites(), Intent::idle(), PLAYER_ID);
    let own = player.collider().unwrap();
    assert_eq!(own.origin, Vec2::new(COLLIDER_LEFT, COLLIDER_TOP));
    assert_eq!(own.dimensions, Vec2::new(COLLIDER_SIDE, COLLIDER_SIDE));
    assert_eq!(own.kind, CollisionKind::Friendly);
    let friendly = Collider::new(own.origin, own.dimensions, CollisionKind::Friendly);
    let hostile = Collider::new(own.origin, own.dimensions, CollisionKind::Hostile);
    assert!(!player.collides_with(&Some(friendly)));
    assert!(!player.collides());
    assert!(player.collides_with(&Some(hostile)));
    assert!(player.collides());
    assert!(!player.collides_with(&None));
    assert!(player.collides());
}

#[test]
fn player_goes_back_to_where_it_was() {
    let room = walled_room(8, 8);
    let mut player = Player::new(700, all_sprites(), Intent::idle(), PLAYER_ID);
    player.set_pos(Vec2::new(48_000, 48_000));
    player.move_entity(&[atoma::entity::Force::new(Vec2::new(5000, 0), 3)], &room);
    assert_eq!(player.absolute_pos(), Vec2::new(48, 48));
    assert_eq!(player.collider().unwrap().origin.x, 48_700 + COLLIDER_LEFT);
    player.reset_pos();
    assert_eq!(player.collider().unwrap().origin.x, 48_000 + COLLIDER_LEFT);
}
