use std::rc::Rc;

use atoma::entity::{
    AnyEntity, Collider, CollisionKind, Direction, Door, Enemy, Entity, EntityManager, Intent,
    Message, MessageDispatcher, Player, Projectile, Telegram, ENTITY_MANAGER_ID, GAME_ID,
    PLAYER_ID,
};
use atoma::graphics::{AnimatedSprite, Sprite, SpriteSheet};
use atoma::level::{LoadInfo, Neighbour, Room, RoomType, Tile, TileSet, Tiles};
use atoma::vector::Vec2;

fn sheet() -> Rc<SpriteSheet> {
    Rc::new(SpriteSheet::new(16, 16, vec![0u8; 16 * 16 * 4]).unwrap())
}

fn animation() -> AnimatedSprite {
    AnimatedSprite::new(vec![Sprite::new(16, 0, 0, sheet())], vec![5, 10, 15])
}

fn player_with_box_at(x: i32, y: i32) -> AnyEntity {
    let sprites = vec![
        (Direction::Up, animation()),
        (Direction::Down, animation()),
        (Direction::Left, animation()),
        (Direction::Right, animation()),
    ];
    let mut player = Player::new(700, sprites, Intent::idle(), PLAYER_ID);
    player.set_pos(Vec2::new(x - 3000, y - 6000));
    AnyEntity::Player(player)
}

fn hostile_box(x: i32, y: i32, id: u32) -> AnyEntity {
    let mut door = Door::new((0, 0), 7);
    door.collider = Collider::new(
        Vec2::new(x, y),
        Vec2::new(10_000, 10_000),
        CollisionKind::Hostile,
    );
    door.set_id(id);
    AnyEntity::Door(door)
}

fn tile(solid: bool) -> Tile {
    Tile::new(Sprite::new(16, 0, 0, sheet()), solid)
}

fn open_room(width: i32, height: i32) -> Room {
    Room {
        dimensions: Vec2::new(width, height),
        neighbours: [Neighbour::Invalid; 4],
        tiles: vec![Tiles::Empty; (width * height) as usize],
        room_type: RoomType::Normal,
        grid_pos: Vec2::new(0, 0),
        load_info: LoadInfo::default(),
        tile_set: Rc::new(TileSet {
            grass: vec![tile(false)],
            walls: vec![tile(true)],
            corners: vec![tile(true), tile(true), tile(true), tile(true)],
            door: tile(false),
            void: tile(false),
        }),
    }
}

#[test]
fn fresh_handles_start_at_ten_and_grow() {
    let mut manager = EntityManager::new();
    manager.add_entity(AnyEntity::Door(Door::new((1, 1), 1)));
    manager.add_entity(AnyEntity::Enemy(Enemy::new(Vec2::new(0, 0), 500, animation())));
    manager.add_entity(AnyEntity::Projectile(Projectile::new(
        Vec2::new(0, 0),
        Vec2::new(1000, 0),
        4000,
        0,
    )));
    assert!(manager.has_entity(10));
    assert!(manager.has_entity(11));
    assert!(manager.has_entity(12));
    assert!(!manager.has_entity(13));
    assert_eq!(manager.get_entity_mut(&10).id(), 10);
    assert_eq!(manager.get_entity_mut(&11).id(), 11);
    assert_eq!(manager.get_entity_mut(&12).id(), 12);
}

#[test]
fn handles_are_not_used_again_after_removal() {
    let mut manager = EntityManager::new();
    let room = open_room(4, 4);
    let mut dispatcher = MessageDispatcher::new();
    manager.add_entity(AnyEntity::Door(Door::new((1, 1), 1)));
    manager.get_entity_mut(&10).remove();
    manager.update(&room, &mut dispatcher);
    assert!(!manager.has_entity(10));
    manager.add_entity(AnyEntity::Door(Door::new((1, 1), 1)));
    assert!(!manager.has_entity(10));
    assert!(manager.has_entity(11));
    manager.clean_up();
    manager.add_entity(AnyEntity::Door(Door::new((1, 1), 1)));
    assert!(!manager.has_entity(11));
    assert!(manager.has_entity(12));
}

#[test]
fn given_handles_are_kept() {
    let mut manager = EntityManager::new();
    manager.add_entity(player_with_box_at(0, 0));
    manager.add_entity(hostile_box(50_000, 0, 77));
    assert!(manager.has_entity(PLAYER_ID));
    assert!(manager.has_entity(77));
    // the next entity without a handle still gets the first fresh one
    manager.add_entity(AnyEntity::Door(Door::new((1, 1), 1)));
    assert!(manager.has_entity(10));
}

#[test]
fn entity_with_a_taken_handle_takes_the_place() {
    let mut manager = EntityManager::new();
    manager.add_entity(hostile_box(0, 0, 77));
    manager.add_entity(hostile_box(90_000, 0, 77));
    assert_eq!(manager.get_entity_mut(&77).collider().unwrap().origin, Vec2::new(90_000, 0));
    manager.clean_up();
    assert!(!manager.has_entity(77));
}

#[test]
fn update_sweeps_what_is_marked_for_removal() {
    let mut manager = EntityManager::new();
    let room = open_room(4, 4);
    let mut dispatcher = MessageDispatcher::new();
    manager.add_entity(player_with_box_at(20_000, 20_000));
    manager.add_entity(AnyEntity::Door(Door::new((1, 1), 1)));
    manager.add_entity(AnyEntity::Door(Door::new((2, 1), 2)));
    // a projectile that is already outside the room removes itself
    manager.add_entity(AnyEntity::Projectile(Projectile::new(
        Vec2::new(-5000, 0),
        Vec2::new(1000, 0),
        4000,
        0,
    )));
    manager.get_entity_mut(&10).remove();
    manager.update(&room, &mut dispatcher);
    assert!(manager.has_entity(PLAYER_ID));
    assert!(!manager.has_entity(10));
    assert!(manager.has_entity(11));
    assert!(!manager.has_entity(12));
    assert!(!manager.get_entity_mut(&11).is_removed());
    assert!(!manager.get_entity_mut(&PLAYER_ID).is_removed());
}

#[test]
fn entity_that_is_never_removed_stays() {
    let mut manager = EntityManager::new();
    let room = open_room(4, 4);
    let mut dispatcher = MessageDispatcher::new();
    manager.add_entity(AnyEntity::Door(Door::new((1, 1), 1)));
    for _ in 0..100 {
        manager.update(&room, &mut dispatcher);
    }
    assert!(manager.has_entity(10));
}

#[test]
fn clean_up_keeps_the_player_alone() {
    let mut manager = EntityManager::new();
    manager.add_entity(AnyEntity::Door(Door::new((1, 1), 1)));
    manager.add_entity(player_with_box_at(0, 0));
    manager.add_entity(AnyEntity::Door(Door::new((2, 1), 2)));
    manager.clean_up();
    assert!(manager.has_entity(PLAYER_ID));
    assert!(!manager.has_entity(10));
    assert!(!manager.has_entity(11));
}

#[test]
fn manager_spawns_projectiles_on_request() {
    let mut manager = EntityManager::new();
    let mut dispatcher = MessageDispatcher::new();
    manager.handle_message(
        Telegram {
            sender: PLAYER_ID,
            receiver: ENTITY_MANAGER_ID,
            message: Message::SpawnEntity(Vec2::new(8000, 9000), Vec2::new(0, -1000), 4000),
        },
        &mut dispatcher,
    );
    assert!(manager.has_entity(10));
    let spawned = manager.get_entity_mut(&10);
    assert_eq!(spawned.id(), 10);
    assert_eq!(spawned.collider().unwrap().origin, Vec2::new(8000, 9000));
    assert!(matches!(spawned, AnyEntity::Projectile(_)));
    manager.handle_message(
        Telegram { sender: PLAYER_ID, receiver: ENTITY_MANAGER_ID, message: Message::Collides },
        &mut dispatcher,
    );
    assert!(!manager.has_entity(11));
}

#[test]
fn player_is_pushed_out_of_what_it_runs_into() {
    let mut manager = EntityManager::new();
    let mut dispatcher = MessageDispatcher::new();
    manager.add_entity(player_with_box_at(0, 0));
    manager.add_entity(hostile_box(4000, 0, 20));
    manager.check_collisions(&mut dispatcher);

    // ten pixels of box less four of distance plus half a pixel, rounded up,
    // make seven pixels, away from the other box
    let player = manager.get_entity_mut(&PLAYER_ID);
    assert_eq!(player.collider().unwrap().origin, Vec2::new(-7000, 0));
    assert_eq!(player.absolute_pos(), Vec2::new(-10, -6));
    assert!(player.collides());

    assert_eq!(
        dispatcher.waiting(),
        vec![
            Telegram { sender: PLAYER_ID, receiver: 20, message: Message::Collides },
            Telegram { sender: 20, receiver: PLAYER_ID, message: Message::Collides },
        ]
    );
    assert_eq!(dispatcher.poll_game_message(), None);
}

#[test]
fn player_is_pushed_to_the_right_of_what_lies_left() {
    let mut manager = EntityManager::new();
    let mut dispatcher = MessageDispatcher::new();
    manager.add_entity(player_with_box_at(6000, 0));
    manager.add_entity(hostile_box(0, 0, 20));
    manager.check_collisions(&mut dispatcher);
    // overlapping by four pixels: ten less six plus a half, rounded up
    let player = manager.get_entity_mut(&PLAYER_ID);
    assert_eq!(player.collider().unwrap().origin, Vec2::new(11_000, 0));
}

#[test]
fn player_is_pushed_along_y_where_y_is_further_apart() {
    let mut manager = EntityManager::new();
    let mut dispatcher = MessageDispatcher::new();
    manager.add_entity(player_with_box_at(1000, 6000));
    manager.add_entity(hostile_box(0, 0, 20));
    manager.check_collisions(&mut dispatcher);
    // downward: ten less six plus a half, rounded up
    assert_eq!(
        manager.get_entity_mut(&PLAYER_ID).collider().unwrap().origin,
        Vec2::new(1000, 11_000)
    );

    let mut manager = EntityManager::new();
    manager.add_entity(player_with_box_at(1000, -2000));
    manager.add_entity(hostile_box(0, 0, 20));
    manager.check_collisions(&mut dispatcher);
    // upward eight pixels are added: ten less two plus a half, rounded up,
    // make nine, and eight more
    assert_eq!(
        manager.get_entity_mut(&PLAYER_ID).collider().unwrap().origin,
        Vec2::new(1000, -19_000)
    );
}

#[test]
fn player_seven_pixels_above_a_hit_is_pushed_up() {
    let mut manager = EntityManager::new();
    let mut dispatcher = MessageDispatcher::new();
    manager.add_entity(player_with_box_at(0, -7000));
    manager.add_entity(hostile_box(0, 0, 20));
    manager.check_collisions(&mut dispatcher);
    // ten less seven plus a half, rounded up, make four, and eight more
    let player = manager.get_entity_mut(&PLAYER_ID);
    assert_eq!(player.collider().unwrap().origin, Vec2::new(0, -19_000));
    assert!(player.collider().unwrap().origin.y < -7000);
}

#[test]
fn push_keeps_the_fraction_of_a_pixel() {
    let mut manager = EntityManager::new();
    let mut dispatcher = MessageDispatcher::new();
    manager.add_entity(player_with_box_at(6500, 250));
    manager.add_entity(hostile_box(0, 0, 20));
    manager.check_collisions(&mut dispatcher);
    // ten less six and a half plus a half make four
    let player = manager.get_entity_mut(&PLAYER_ID);
    assert_eq!(player.collider().unwrap().origin, Vec2::new(10_500, 250));
}

#[test]
fn offset_adds_to_the_exact_position() {
    let mut player = player_with_box_at(0, 0);
    player.set_pos(Vec2::new(1500, -250));
    player.offset_pos(Vec2::new(1000, 0));
    assert_eq!(player.exact_pos(), Vec2::new(2500, -250));
    player.offset_pos(Vec2::new(-1000, 0));
    assert_eq!(player.exact_pos(), Vec2::new(1500, -250));
    player.offset_pos(Vec2::new(300, 900));
    assert_eq!(player.exact_pos(), Vec2::new(1800, 650));
    assert_eq!(player.absolute_pos(), Vec2::new(1, 0));

    let mut enemy = AnyEntity::Enemy(Enemy::new(Vec2::new(1500, 0), 0, animation()));
    enemy.offset_pos(Vec2::new(1000, 2000));
    assert_eq!(enemy.exact_pos(), Vec2::new(2500, 2000));

    let mut shot = AnyEntity::Projectile(Projectile::new(
        Vec2::new(1500, 0),
        Vec2::new(1000, 0),
        4000,
        0,
    ));
    shot.offset_pos(Vec2::new(-2000, 1));
    assert_eq!(shot.exact_pos(), Vec2::new(-500, 1));

    let mut door = hostile_box(1500, 0, 20);
    door.offset_pos(Vec2::new(1000, 0));
    assert_eq!(door.exact_pos(), Vec2::new(2500, 0));
}

#[test]
fn only_the_first_hit_moves_the_player_but_all_are_told() {
    let mut manager = EntityManager::new();
    let mut dispatcher = MessageDispatcher::new();
    manager.add_entity(hostile_box(4000, 0, 20));
    manager.add_entity(player_with_box_at(0, 0));
    manager.add_entity(hostile_box(0, 5000, 21));
    manager.check_collisions(&mut dispatcher);
    assert_eq!(
        manager.get_entity_mut(&PLAYER_ID).collider().unwrap().origin,
        Vec2::new(-7000, 0)
    );
    assert_eq!(
        dispatcher.waiting(),
        vec![
            Telegram { sender: PLAYER_ID, receiver: 20, message: Message::Collides },
            Telegram { sender: 20, receiver: PLAYER_ID, message: Message::Collides },
            Telegram { sender: PLAYER_ID, receiver: 21, message: Message::Collides },
            Telegram { sender: 21, receiver: PLAYER_ID, message: Message::Collides },
        ]
    );
}

#[test]
fn nothing_happens_without_a_hit() {
    let mut manager = EntityManager::new();
    let mut dispatcher = MessageDispatcher::new();
    manager.add_entity(player_with_box_at(0, 0));
    manager.add_entity(hostile_box(10_000, 0, 20));
    manager.add_entity(AnyEntity::Projectile(Projectile::new(
        Vec2::new(5000, 5000),
        Vec2::new(1000, 0),
        4000,
        0,
    )));
    manager.check_collisions(&mut dispatcher);
    let player = manager.get_entity_mut(&PLAYER_ID);
    assert_eq!(player.collider().unwrap().origin, Vec2::new(0, 0));
    assert!(!player.collides());
    assert!(dispatcher.waiting().is_empty());
}

#[test]
fn dispatch_hands_every_telegram_to_its_receiver() {
    let mut manager = EntityManager::new();
    let mut dispatcher = MessageDispatcher::new();
    manager.add_entity(player_with_box_at(0, 0));
    let mut door = Door::new((0, 0), 7);
    door.collider = Collider::new(
        Vec2::new(4000, 0),
        Vec2::new(10_000, 10_000),
        CollisionKind::Hostile,
    );
    manager.add_entity(AnyEntity::Door(door));
    manager.check_collisions(&mut dispatcher);
    assert_eq!(dispatcher.waiting().len(), 2);
    assert!(dispatcher.deliverable(&manager));
    dispatcher.dispatch_messages(&mut manager);
    assert!(dispatcher.waiting().is_empty());
    assert_eq!(
        dispatcher.poll_game_message(),
        Some(Telegram { sender: 10, receiver: GAME_ID, message: Message::LoadRoom(7) })
    );
    assert_eq!(dispatcher.poll_game_message(), None);
    assert_eq!(dispatcher.poll_entity_message(), None);
}

#[test]
fn telegram_for_a_stranger_cannot_be_delivered() {
    let mut manager = EntityManager::new();
    let mut dispatcher = MessageDispatcher::new();
    manager.add_entity(player_with_box_at(0, 0));
    dispatcher.queue_message(PLAYER_ID, 99, Message::Collides);
    assert!(!dispatcher.deliverable(&manager));
    dispatcher.queue_message(99, GAME_ID, Message::LoadRoom(1));
    assert_eq!(dispatcher.waiting().len(), 1);
}

#[test]
fn move_reaches_the_entity_inside() {
    let room = open_room(4, 4);
    let mut shot = AnyEntity::Projectile(Projectile::new(
        Vec2::new(1000, 2000),
        Vec2::new(1000, 0),
        4000,
        11,
    ));
    shot.move_entity(Vec2::new(500, -250), &room);
    assert_eq!(shot.exact_pos(), Vec2::new(1500, 1750));
    assert_eq!(shot.id(), 11);
    assert!(!shot.is_removed());

    // nothing else moves when it is asked to
    let mut door = hostile_box(1500, 0, 20);
    door.move_entity(Vec2::new(500, -250), &room);
    assert_eq!(door.exact_pos(), Vec2::new(1500, 0));
    let mut enemy = AnyEntity::Enemy(Enemy::new(Vec2::new(1500, 0), 0, animation()));
    enemy.move_entity(Vec2::new(500, -250), &room);
    assert_eq!(enemy.exact_pos(), Vec2::new(1500, 0));
    let mut player = player_with_box_at(0, 0);
    player.move_entity(Vec2::new(500, -250), &room);
    assert_eq!(player.exact_pos(), Vec2::new(-3000, -6000));
}

#[test]
fn removal_marks_the_entity_and_changes_nothing_else() {
    let mut shot = AnyEntity::Projectile(Projectile::new(
        Vec2::new(1000, 2000),
        Vec2::new(1000, 0),
        4000,
        11,
    ));
    shot.remove();
    assert!(shot.is_removed());
    assert_eq!(shot.exact_pos(), Vec2::new(1000, 2000));
    assert_eq!(shot.id(), 11);
    assert!(!shot.collides());
    // it still flies as it flew
    let room = open_room(4, 4);
    let mut dispatcher = MessageDispatcher::new();
    shot.update(&room, &mut dispatcher);
    assert_eq!(shot.exact_pos(), Vec2::new(5000, 2000));

    let mut door = hostile_box(1500, 0, 20);
    door.remove();
    assert!(door.is_removed());
    assert_eq!(door.id(), 20);
    assert_eq!(door.collider().unwrap().origin, Vec2::new(1500, 0));
    door.handle_message(
        Telegram { sender: PLAYER_ID, receiver: 20, message: Message::Collides },
        &mut dispatcher,
    );
    assert_eq!(
        dispatcher.poll_game_message(),
        Some(Telegram { sender: 20, receiver: GAME_ID, message: Message::LoadRoom(7) })
    );

    let mut player = player_with_box_at(0, 0);
    player.set_intent(Intent::idle());
    player.remove();
    assert!(player.is_removed());
    assert_eq!(player.id(), PLAYER_ID);
    assert_eq!(player.exact_pos(), Vec2::new(-3000, -6000));
    assert!(!player.collides());
}

#[test]
fn door_is_what_its_fields_say() {
    let mut door = Door::new((1, 2), 7);
    assert_eq!(door.id, 0);
    assert_eq!(door.room, 7);
    assert!(!door.removed);
    assert_eq!(door.collider.origin, Vec2::new(24_000, 40_000));
    door.room = 9;
    door.id = 20;
    door.removed = true;
    assert!(door.is_removed());
    assert_eq!(door.id(), 20);
    let mut dispatcher = MessageDispatcher::new();
    door.handle_message(
        Telegram { sender: PLAYER_ID, receiver: 20, message: Message::Collides },
        &mut dispatcher,
    );
    assert_eq!(
        dispatcher.poll_game_message(),
        Some(Telegram { sender: 20, receiver: GAME_ID, message: Message::LoadRoom(9) })
    );
}
