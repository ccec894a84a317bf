use std::collections::HashMap;
use std::rc::Rc;

use atoma::entity::{AnyEntity, Entity, Intent, PLAYER_ID};
use atoma::game::{Assets, Game, GameState, EXIT_KEY, PAUSE_KEY};
use atoma::graphics::{Color, Sprite, SpriteSheet};
use atoma::input::keyboard::{KEY_A, KEY_LEFT, KEY_RIGHT, KEY_UP, KEY_W};
use atoma::input::{InputEvent, KeyBoard};
use atoma::level::{Level, Neighbour, Room, RoomBuilder, Tile, TileSet};
use atoma::vector::Vec2;

const RED: [u8; 4] = [255, 0, 0, 255];
const BLUE: [u8; 4] = [0, 0, 255, 255];
const GREEN: [u8; 4] = [0, 255, 0, 255];
const YELLOW: [u8; 4] = [255, 255, 0, 255];

fn plain_sprite(shade: u8) -> Sprite {
    let bytes = [shade, shade, shade, 255].repeat(16 * 16);
    Sprite::new(16, 0, 0, Rc::new(SpriteSheet::new(16, 16, bytes).unwrap()))
}

fn tile_set() -> Rc<TileSet> {
    Rc::new(TileSet {
        grass: (0..6).map(|i| Tile::new(plain_sprite(10 + i), false)).collect(),
        walls: (0..3).map(|i| Tile::new(plain_sprite(20 + i), true)).collect(),
        corners: (0..4).map(|i| Tile::new(plain_sprite(30 + i), true)).collect(),
        door: Tile::new(plain_sprite(40), false),
        void: Tile::new(plain_sprite(50), false),
    })
}

fn assets() -> Assets {
    Assets {
        player_up: vec![plain_sprite(101)],
        player_down: vec![plain_sprite(102)],
        player_left: vec![plain_sprite(103)],
        enemies: vec![plain_sprite(104)],
    }
}

/// A room of five by four cells with walls all around, a doorway in the
/// middle of the left and of the right side, grass inside and a spawn
/// point in column two of row one.
fn room(builder: RoomBuilder) -> Room {
    let rows: [[[u8; 4]; 5]; 4] = [
        [RED, RED, RED, RED, RED],
        [BLUE, GREEN, YELLOW, GREEN, BLUE],
        [RED, GREEN, GREEN, GREEN, RED],
        [RED, RED, RED, RED, RED],
    ];
    let mut bytes = Vec::new();
    for row in rows.iter() {
        for pixel in row.iter() {
            bytes.extend_from_slice(pixel);
        }
    }
    let picture = SpriteSheet::new(5, 4, bytes).unwrap();
    builder.build(&picture, tile_set()).1
}

/// Two rooms side by side: room 0 with a door to room 1 in the east, room 1
/// with a door back in the west.
fn level() -> Level {
    let mut first = RoomBuilder::new().with_id(0).with_grid_pos(Vec2::new(4, 4));
    first.add_neighbour(Neighbour::East(1));
    let mut second = RoomBuilder::new().with_id(1).with_grid_pos(Vec2::new(5, 4));
    second.add_neighbour(Neighbour::West(0));
    let mut rooms = HashMap::new();
    rooms.insert(0, room(first));
    rooms.insert(1, room(second));
    let mut grid = [[false; 9]; 9];
    grid[4][4] = true;
    grid[5][4] = true;
    Level::assemble(grid, rooms, 0)
}

fn started() -> Game {
    let mut game = Game::new(80, 64, 1, level());
    let assets = assets();
    assert_eq!(game.state(), GameState::Start);
    assert!(game.ready(&assets));
    assert!(!game.step(&InputEvent::Other, 1, &assets));
    assert_eq!(game.state(), GameState::LoadRoom(0, true));
    assert!(game.ready(&assets));
    assert!(!game.step(&InputEvent::Other, 1, &assets));
    assert_eq!(game.state(), GameState::Running);
    game
}

fn player_pixel(game: &Game) -> Vec2 {
    game.entity_manager().get_entity(&PLAYER_ID).absolute_pos()
}

#[test]
fn game_starts_with_a_player_two_enemies_and_the_doors() {
    let game = started();
    let manager = game.entity_manager();
    assert!(matches!(manager.get_entity(&PLAYER_ID), AnyEntity::Player(_)));
    assert!(matches!(manager.get_entity(&10), AnyEntity::Enemy(_)));
    assert!(matches!(manager.get_entity(&11), AnyEntity::Enemy(_)));
    assert!(matches!(manager.get_entity(&12), AnyEntity::Door(_)));
    assert!(!manager.has_entity(13));
    assert_eq!(manager.get_entity(&10).absolute_pos(), Vec2::new(32, 32));
    assert_eq!(manager.get_entity(&11).absolute_pos(), Vec2::new(96, 72));
    // the door to the east, in the middle of its cell
    assert_eq!(manager.get_entity(&12).absolute_pos(), Vec2::new(72, 24));
    // the player stands on the spawn point
    assert_eq!(player_pixel(&game), Vec2::new(32, 16));
    assert_eq!(game.offset(), Vec2::new(0, 0));
    assert_eq!(game.level().current_room_id(), 0);
}

#[test]
fn running_game_draws_a_frame_on_every_step() {
    let mut game = started();
    let assets = assets();
    assert!(game.step(&InputEvent::Cursor(Vec2::new(5, 7)), 0, &assets));
    let screen = game.screen();
    assert_eq!(screen.dimensions(), (80, 64));
    // the mouse
    assert_eq!(screen.get_pixel(5, 7), Color { r: 255, g: 0, b: 0, a: 255 });
    // a corner of the room
    assert_eq!(screen.get_pixel(0, 0), Color { r: 30, g: 30, b: 30, a: 255 });
    // the player, who looks right and so shows the sprite for left
    assert_eq!(screen.get_pixel(40, 20), Color { r: 103, g: 103, b: 103, a: 255 });
    // an enemy
    assert_eq!(screen.get_pixel(33, 33), Color { r: 104, g: 104, b: 104, a: 255 });
    // the door shows as a cell of the room, the entity draws nothing
    assert_eq!(screen.get_pixel(72, 24), Color { r: 40, g: 40, b: 40, a: 255 });
    // no tick was due, so nothing has moved
    assert_eq!(player_pixel(&game), Vec2::new(32, 16));
}

#[test]
fn arrow_key_moves_the_player_at_full_speed() {
    let mut game = started();
    let assets = assets();
    game.step(&InputEvent::Press(KEY_LEFT), 10, &assets);
    // ten ticks of 0.7 pixels
    assert_eq!(player_pixel(&game), Vec2::new(25, 16));
    game.step(&InputEvent::Release(KEY_LEFT), 10, &assets);
    assert_eq!(player_pixel(&game), Vec2::new(25, 16));
}

#[test]
fn walls_stop_the_player() {
    let mut game = started();
    let assets = assets();
    game.step(&InputEvent::Press(KEY_UP), 50, &assets);
    // the box of the player starts six pixels below its corner; the wall
    // above ends at pixel sixteen
    let at = player_pixel(&game);
    assert_eq!(at.x, 32);
    assert!(at.y >= 10 && at.y <= 11, "stopped at {:?}", at);
}

#[test]
fn shooting_spawns_projectiles_that_leave_the_room() {
    let mut game = started();
    let assets = assets();
    game.step(&InputEvent::Press(KEY_A), 1, &assets);
    // the request is made in the first tick and served in the second
    assert!(!game.entity_manager().has_entity(13));
    game.step(&InputEvent::Release(KEY_A), 1, &assets);
    assert!(game.entity_manager().has_entity(13));
    assert!(matches!(game.entity_manager().get_entity(&13), AnyEntity::Projectile(_)));
    // it started in the middle of the player, at pixel forty, and flies four
    // pixels to the left in every tick
    game.step(&InputEvent::Other, 12, &assets);
    assert!(!game.entity_manager().has_entity(13));
    assert!(!game.entity_manager().has_entity(14));
}

#[test]
fn pause_key_halts_the_game_and_lets_it_go_on() {
    let mut game = started();
    let assets = assets();
    assert!(game.step(&InputEvent::Press(PAUSE_KEY), 1, &assets));
    assert_eq!(game.state(), GameState::Pause);
    assert!(!game.keyboard.contains_key(&PAUSE_KEY));
    assert!(!game.step(&InputEvent::Press(KEY_W), 1, &assets));
    assert_eq!(game.state(), GameState::Pause);
    assert!(!game.step(&InputEvent::Press(PAUSE_KEY), 1, &assets));
    assert_eq!(game.state(), GameState::Running);
    assert!(game.keyboard.keys.is_empty());
}

#[test]
fn exit_key_ends_the_game() {
    let mut game = started();
    let assets = assets();
    game.step(&InputEvent::Press(EXIT_KEY), 1, &assets);
    assert_eq!(game.state(), GameState::End);
    let before = player_pixel(&game);
    assert!(!game.step(&InputEvent::Press(KEY_RIGHT), 5, &assets));
    assert_eq!(game.state(), GameState::End);
    assert_eq!(player_pixel(&game), before);
}

#[test]
fn player_goes_through_a_door_into_the_next_room() {
    let mut game = started();
    let assets = assets();
    game.step(&InputEvent::Press(KEY_RIGHT), 0, &assets);
    let mut ticks = 0;
    while game.state() == GameState::Running {
        game.step(&InputEvent::Other, 1, &assets);
        ticks += 1;
        assert!(ticks < 100, "the player has not reached the door");
    }
    assert_eq!(game.state(), GameState::LoadRoom(1, false));
    // 27 pixels to the door at 0.7 pixels a tick, one tick for the door to
    // ask for its room, and one for the game to hear of it
    assert!(ticks >= 39 && ticks <= 42, "took {} ticks", ticks);

    assert!(game.ready(&assets));
    game.step(&InputEvent::Other, 1, &assets);
    assert_eq!(game.state(), GameState::Running);
    assert_eq!(game.level().current_room_id(), 1);
    // twelve pixels right of the door in the west, in its row
    assert_eq!(player_pixel(&game), Vec2::new(12, 16));
    // the enemies and the door of the new room have fresh handles
    let manager = game.entity_manager();
    assert!(!manager.has_entity(10));
    assert!(!manager.has_entity(11));
    assert!(!manager.has_entity(12));
    assert!(matches!(manager.get_entity(&13), AnyEntity::Enemy(_)));
    assert!(matches!(manager.get_entity(&14), AnyEntity::Enemy(_)));
    assert!(matches!(manager.get_entity(&15), AnyEntity::Door(_)));
    assert_eq!(manager.get_entity(&15).absolute_pos(), Vec2::new(8, 24));
}

#[test]
fn game_cannot_load_a_room_that_is_not_there() {
    let mut rooms = HashMap::new();
    let mut only = RoomBuilder::new().with_id(3);
    only.add_neighbour(Neighbour::East(1));
    rooms.insert(3, room(only));
    let level = Level::assemble([[false; 9]; 9], rooms, 3);
    let mut game = Game::new(80, 64, 1, level);
    let assets = assets();
    assert!(game.ready(&assets));
    game.step(&InputEvent::Other, 1, &assets);
    // the first room to load is room 0, which this level lacks
    assert_eq!(game.state(), GameState::LoadRoom(0, true));
    assert!(!game.ready(&assets));
    let incomplete = Assets { enemies: Vec::new(), ..assets };
    assert!(!incomplete.is_complete());
}

#[test]
fn keyboard_keeps_track_of_keys_and_mouse() {
    let mut keyboard = KeyBoard::new();
    assert!(!keyboard.up && !keyboard.down && !keyboard.left && !keyboard.right);
    keyboard.update(&InputEvent::Press(KEY_UP));
    keyboard.update(&InputEvent::Press(KEY_W));
    assert!(keyboard.up);
    assert!(keyboard.contains_key(&KEY_W));
    assert!(!keyboard.contains_key(&KEY_A));
    keyboard.update(&InputEvent::Cursor(Vec2::new(3, 4)));
    assert_eq!(keyboard.mouse_pos, Vec2::new(3, 4));
    keyboard.update(&InputEvent::Release(KEY_UP));
    assert!(!keyboard.up);
    assert!(keyboard.contains_key(&KEY_W));
    let intent = Intent::from_keyboard(&keyboard);
    assert_eq!(intent, Intent { shoot_up: true, ..Intent::idle() });
    keyboard.update(&InputEvent::Press(KEY_RIGHT));
    keyboard.clear();
    assert!(keyboard.keys.is_empty());
    // the flags follow with the next report
    assert!(keyboard.right);
    keyboard.update(&InputEvent::Other);
    assert!(!keyboard.right);
}
