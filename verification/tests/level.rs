use std::rc::Rc;

use atoma::entity::Direction;
use atoma::graphics::{Color, Screen, Sprite, SpriteSheet};
use atoma::level::builder::{marking, tile_for, Marking};
use atoma::level::level::RoomPicture;
use atoma::level::room::floor_to_cell;
use atoma::level::{
    Level, LevelBuilder, LoadInfo, Neighbour, Room, RoomBuilder, RoomType, Tile, TileSet, Tiles,
};
use atoma::vector::Vec2;

const RED: [u8; 4] = [255, 0, 0, 255];
const BLUE: [u8; 4] = [0, 0, 255, 255];
const GREEN: [u8; 4] = [0, 255, 0, 255];
const YELLOW: [u8; 4] = [255, 255, 0, 255];
const BLACK: [u8; 4] = [0, 0, 0, 255];

/// A sheet of sixteen by sixteen pixels of one colour.
fn plain_tile(shade: u8, solid: bool) -> Tile {
    let bytes = [shade, shade, shade, 255].repeat(16 * 16);
    let sheet = Rc::new(SpriteSheet::new(16, 16, bytes).unwrap());
    Tile::new(Sprite::new(16, 0, 0, sheet), solid)
}

/// A tile whose pixel in column `x` of row `y` is (x, y, shade, 255).
fn numbered_tile(shade: u8, solid: bool) -> Tile {
    let mut bytes = Vec::new();
    for y in 0..16u8 {
        for x in 0..16u8 {
            bytes.extend_from_slice(&[x, y, shade, 255]);
        }
    }
    let sheet = Rc::new(SpriteSheet::new(16, 16, bytes).unwrap());
    Tile::new(Sprite::new(16, 0, 0, sheet), solid)
}

fn tile_set() -> Rc<TileSet> {
    Rc::new(TileSet {
        grass: (0..6).map(|i| plain_tile(10 + i, false)).collect(),
        walls: (0..3).map(|i| numbered_tile(20 + i, true)).collect(),
        corners: (0..4).map(|i| plain_tile(30 + i, true)).collect(),
        door: numbered_tile(40, false),
        void: plain_tile(50, false),
    })
}

/// The picture of a room of five by four cells: walls all around, with a
/// doorway in the middle of every side; grass inside, and one spawn point.
fn picture() -> Rc<SpriteSheet> {
    let rows: [[[u8; 4]; 5]; 4] = [
        [RED, RED, BLUE, RED, RED],
        [BLUE, GREEN, YELLOW, GREEN, BLUE],
        [RED, GREEN, BLACK, GREEN, RED],
        [RED, RED, BLUE, RED, RED],
    ];
    let mut bytes = Vec::new();
    for row in rows.iter() {
        for pixel in row.iter() {
            bytes.extend_from_slice(pixel);
        }
    }
    Rc::new(SpriteSheet::new(5, 4, bytes).unwrap())
}

fn color(bytes: [u8; 4]) -> Color {
    Color { r: bytes[0], g: bytes[1], b: bytes[2], a: bytes[3] }
}

#[test]
fn numbers_stand_for_cells() {
    assert_eq!(Tiles::from(1), Tiles::Ground);
    assert_eq!(Tiles::from(2), Tiles::Grass(0));
    assert_eq!(Tiles::from(3), Tiles::Wall(0, Direction::Up));
    assert_eq!(Tiles::from(4), Tiles::WallCorner(Direction::Up, Direction::Left));
    assert_eq!(Tiles::from(5), Tiles::SpawnPoint(0));
    assert_eq!(Tiles::from(6), Tiles::Door(Direction::Up));
    assert_eq!(Tiles::from(0), Tiles::Empty);
    assert_eq!(Tiles::from(7), Tiles::Empty);
    assert_eq!(Neighbour::default(), Neighbour::Invalid);
    assert_eq!(RoomType::default(), RoomType::Normal);
    assert!(LoadInfo::default().doors.iter().all(|door| door.is_none()));
}

#[test]
fn colours_stand_for_markings() {
    assert_eq!(marking(color(RED)), Marking::Wall);
    assert_eq!(marking(color(BLUE)), Marking::Doorway);
    assert_eq!(marking(color(GREEN)), Marking::Grass);
    assert_eq!(marking(color(YELLOW)), Marking::SpawnPoint);
    assert_eq!(marking(color(BLACK)), Marking::Nothing);
    assert_eq!(marking(color([255, 0, 0, 254])), Marking::Nothing);
}

#[test]
fn markings_make_cells() {
    assert_eq!(
        tile_for(Marking::Wall, 0, 0, 5, 4, 2),
        Tiles::WallCorner(Direction::Up, Direction::Left)
    );
    assert_eq!(
        tile_for(Marking::Wall, 0, 3, 5, 4, 2),
        Tiles::WallCorner(Direction::Down, Direction::Left)
    );
    assert_eq!(
        tile_for(Marking::Wall, 4, 0, 5, 4, 2),
        Tiles::WallCorner(Direction::Up, Direction::Right)
    );
    assert_eq!(
        tile_for(Marking::Wall, 4, 3, 5, 4, 2),
        Tiles::WallCorner(Direction::Down, Direction::Right)
    );
    assert_eq!(tile_for(Marking::Wall, 2, 0, 5, 4, 2), Tiles::Wall(2, Direction::Up));
    assert_eq!(tile_for(Marking::Wall, 0, 2, 5, 4, 1), Tiles::Wall(1, Direction::Left));
    assert_eq!(tile_for(Marking::Wall, 4, 2, 5, 4, 0), Tiles::Wall(0, Direction::Right));
    assert_eq!(tile_for(Marking::Doorway, 2, 3, 5, 4, 1), Tiles::Wall(1, Direction::Down));
    assert_eq!(tile_for(Marking::Wall, 2, 2, 5, 4, 1), Tiles::Wall(1, Direction::Up));
    assert_eq!(tile_for(Marking::Grass, 1, 1, 5, 4, 5), Tiles::Grass(5));
    assert_eq!(tile_for(Marking::SpawnPoint, 1, 1, 5, 4, 1), Tiles::SpawnPoint(1));
    assert_eq!(tile_for(Marking::Nothing, 1, 1, 5, 4, 0), Tiles::Empty);
}

#[test]
fn neighbours_fill_the_first_free_place() {
    let mut builder = RoomBuilder::new();
    builder.add_neighbour(Neighbour::South(3));
    builder.add_neighbour(Neighbour::West(4));
    let (_, room) = builder.build(&picture(), tile_set());
    assert_eq!(
        room.neighbours,
        [Neighbour::South(3), Neighbour::West(4), Neighbour::Invalid, Neighbour::Invalid]
    );

    let mut builder = RoomBuilder::default();
    builder.add_neighbour(Neighbour::North(1));
    builder.add_neighbour(Neighbour::East(2));
    builder.add_neighbour(Neighbour::South(3));
    builder.add_neighbour(Neighbour::West(4));
    builder.add_neighbour(Neighbour::West(5));
    let (_, room) = builder.build(&picture(), tile_set());
    assert_eq!(
        room.neighbours,
        [Neighbour::North(1), Neighbour::East(2), Neighbour::South(3), Neighbour::West(4)]
    );
}

#[test]
fn room_is_built_of_its_picture() {
    let mut builder = RoomBuilder::new()
        .with_id(9)
        .with_grid_pos(Vec2::new(2, 3))
        .with_room_type(RoomType::Start)
        .with_path(String::from("res/sprites/room1.png"));
    assert_eq!(builder.path(), "res/sprites/room1.png");
    assert_eq!(builder.id(), 9);
    builder.add_neighbour(Neighbour::North(1));
    builder.add_neighbour(Neighbour::East(2));
    builder.add_neighbour(Neighbour::West(4));
    let (id, room) = builder.build(&picture(), tile_set());
    assert_eq!(id, 9);
    assert_eq!(room.dimensions, Vec2::new(5, 4));
    assert_eq!(room.grid_pos, Vec2::new(2, 3));
    assert_eq!(room.room_type, RoomType::Start);
    assert_eq!(room.tiles.len(), 20);

    // the doors: north goes as far up as can be, east as far right, west
    // as far left; the south has no neighbour
    assert_eq!(
        room.load_info.doors,
        [Some(((2, 0), 1)), Some(((4, 1), 2)), None, Some(((0, 1), 4))]
    );
    assert_eq!(room.tiles[2], Tiles::Door(Direction::Up));
    assert_eq!(room.tiles[9], Tiles::Door(Direction::Right));
    assert_eq!(room.tiles[5], Tiles::Door(Direction::Left));

    // the corners
    assert_eq!(room.tiles[0], Tiles::WallCorner(Direction::Up, Direction::Left));
    assert_eq!(room.tiles[4], Tiles::WallCorner(Direction::Up, Direction::Right));
    assert_eq!(room.tiles[15], Tiles::WallCorner(Direction::Down, Direction::Left));
    assert_eq!(room.tiles[19], Tiles::WallCorner(Direction::Down, Direction::Right));

    // walls face outward, with one of three looks
    assert!(matches!(room.tiles[1], Tiles::Wall(look, Direction::Up) if look < 3));
    assert!(matches!(room.tiles[10], Tiles::Wall(look, Direction::Left) if look < 3));
    assert!(matches!(room.tiles[14], Tiles::Wall(look, Direction::Right) if look < 3));
    assert!(matches!(room.tiles[16], Tiles::Wall(look, Direction::Down) if look < 3));
    // the doorway that holds no door stays a wall
    assert!(matches!(room.tiles[17], Tiles::Wall(look, Direction::Down) if look < 3));

    // inside
    assert!(matches!(room.tiles[6], Tiles::Grass(look) if look < 6));
    assert!(matches!(room.tiles[7], Tiles::SpawnPoint(look) if look < 2));
    assert_eq!(room.tiles[12], Tiles::Empty);
}

#[test]
fn room_answers_for_its_cells() {
    let mut builder = RoomBuilder::new();
    builder.add_neighbour(Neighbour::North(1));
    let (_, room) = builder.build(&picture(), tile_set());
    assert!(room.get_tile(0, 0).solid);
    assert!(room.get_tile(1, 0).solid);
    assert!(!room.get_tile(2, 0).solid); // the door
    assert!(!room.get_tile(1, 1).solid); // grass
    assert!(!room.get_tile(2, 2).solid); // nothing
    // outside the room lies the void, which does not block
    assert!(!room.get_tile(-1, 0).solid);
    assert!(!room.get_tile(5, 0).solid);
    assert!(!room.get_tile(0, 4).solid);
    assert!(!room.get_tile(i32::MIN, i32::MAX).solid);

    let (_, orientation) = room.get_tile_and_orientation(2, 0);
    assert_eq!(orientation, Direction::Up);
    let (_, orientation) = room.get_tile_and_orientation(4, 2);
    assert_eq!(orientation, Direction::Right);
    let (tile, orientation) = room.get_tile_and_orientation(0, 0);
    assert_eq!(orientation, Direction::Up);
    assert_eq!(tile.sprite.view().get_pixel(0, 0).r, 30);

    assert_eq!(room.dimensions(), Vec2::new(80, 64));
    // the spawn point is the cell in column two of row one
    assert_eq!(room.middle_point(), Vec2::new(32_000, 16_000));
}

#[test]
fn room_without_spawn_point_starts_at_the_origin() {
    let room = Room {
        dimensions: Vec2::new(2, 1),
        neighbours: [Neighbour::Invalid; 4],
        tiles: vec![Tiles::Grass(0), Tiles::Empty],
        room_type: RoomType::Normal,
        grid_pos: Vec2::new(0, 0),
        load_info: LoadInfo::default(),
        tile_set: tile_set(),
    };
    assert_eq!(room.middle_point(), Vec2::new(0, 0));
}

#[test]
fn room_is_drawn_cell_by_cell() {
    let room = Room {
        dimensions: Vec2::new(2, 1),
        neighbours: [Neighbour::Invalid; 4],
        tiles: vec![Tiles::Wall(1, Direction::Down), Tiles::Grass(2)],
        room_type: RoomType::Normal,
        grid_pos: Vec2::new(0, 0),
        load_info: LoadInfo::default(),
        tile_set: tile_set(),
    };
    let mut screen = Screen::new(20, 20);
    room.render(Vec2::new(14, -2), &mut screen);
    assert_eq!(screen.offset(), Vec2::new(14, -2));
    // above the room: the void
    assert_eq!(screen.get_pixel(0, 0), Color { r: 50, g: 50, b: 50, a: 255 });
    // column 14 of the wall, upside down: row 0 shows row 15 of the sprite
    assert_eq!(screen.get_pixel(0, 2), Color { r: 14, g: 15, b: 21, a: 255 });
    assert_eq!(screen.get_pixel(1, 17), Color { r: 15, g: 0, b: 21, a: 255 });
    // the grass
    assert_eq!(screen.get_pixel(2, 2), Color { r: 12, g: 12, b: 12, a: 255 });
    assert_eq!(screen.get_pixel(17, 17), Color { r: 12, g: 12, b: 12, a: 255 });
    // right of and below the room: the void
    assert_eq!(screen.get_pixel(18, 2), Color { r: 50, g: 50, b: 50, a: 255 });
    assert_eq!(screen.get_pixel(0, 18), Color { r: 50, g: 50, b: 50, a: 255 });
}

#[test]
fn level_is_laid_out_around_the_first_room() {
    let pictures = || {
        vec![
            RoomPicture { path: String::from("room1.png"), picture: picture() },
            RoomPicture { path: String::from("room2.png"), picture: picture() },
        ]
    };
    for _ in 0..20 {
        let level = Level::new(27, pictures(), tile_set());
        assert_eq!(level.current_room_id(), 0);
        assert!(level.has_room(0));
        let start = level.current_room();
        assert_eq!(start.room_type, RoomType::Start);
        assert_eq!(start.grid_pos, Vec2::new(4, 4));
        assert!(level.map_grid[4][4]);
        assert_eq!(level.dimensions(), Vec2::new(80, 64));
        assert_eq!(level.map_info().current_grid_pos, Vec2::new(4, 4));

        let mut rooms = 0;
        for id in 0..=255u8 {
            if let Some(room) = level.get_room(id) {
                rooms += 1;
                let cell = room.grid_pos;
                assert!(level.map_grid[cell.x as usize][cell.y as usize]);
                // a door for every neighbour, leading to a room of the level
                for neighbour in room.neighbours.iter() {
                    let (slot, other) = match neighbour {
                        Neighbour::North(other) => (0, *other),
                        Neighbour::East(other) => (1, *other),
                        Neighbour::South(other) => (2, *other),
                        Neighbour::West(other) => (3, *other),
                        Neighbour::Invalid => continue,
                    };
                    assert!(level.has_room(other));
                    assert_eq!(room.load_info.doors[slot].unwrap().1, other);
                }
            }
        }
        let marked = level.map_grid.iter().flatten().filter(|taken| **taken).count();
        assert_eq!(marked, rooms);
        assert!(rooms >= 2);
        assert!(rooms <= 27);
    }
}

#[test]
fn level_of_one_room_has_no_doors() {
    let pictures = vec![RoomPicture { path: String::from("room1.png"), picture: picture() }];
    let builder = LevelBuilder::new(pictures).with_number_of_rooms(1);
    let level = builder.build(tile_set());
    let room = level.current_room();
    assert_eq!(room.neighbours, [Neighbour::Invalid; 4]);
    assert!(room.load_info.doors.iter().all(|door| door.is_none()));
    assert!(!level.has_room(1));
    let mut level = level;
    level.set_current_room(1);
    assert_eq!(level.current_room_id(), 1);
    level.update();
}

#[test]
fn pixels_fall_into_cells_of_sixteen() {
    assert_eq!(floor_to_cell(0), 0);
    assert_eq!(floor_to_cell(15), 0);
    assert_eq!(floor_to_cell(16), 1);
    assert_eq!(floor_to_cell(-1), -1);
    assert_eq!(floor_to_cell(-16), -1);
    assert_eq!(floor_to_cell(-17), -2);
    assert_eq!(Tile::pixel_origin(2, 3), Vec2::new(32, 48));
    assert_eq!(Tile::pixel_origin(i32::MAX, i32::MIN), Vec2::new(i32::MAX, i32::MIN));
}

#[test]
fn picture_needs_four_doorways() {
    let usable = RoomPicture { path: String::from("room1.png"), picture: picture() };
    assert!(usable.is_usable());
    let bare = SpriteSheet::new(2, 2, [255u8, 0, 0, 255].repeat(4)).unwrap();
    let unusable = RoomPicture { path: String::from("bare.png"), picture: Rc::new(bare) };
    assert!(!unusable.is_usable());
    assert!(tile_set().is_sound());
}

/// A picture like `picture`, but one column wider.
fn wide_picture() -> Rc<SpriteSheet> {
    let rows: [[[u8; 4]; 6]; 4] = [
        [RED, RED, BLUE, RED, RED, RED],
        [BLUE, GREEN, YELLOW, GREEN, GREEN, BLUE],
        [RED, GREEN, BLACK, GREEN, GREEN, RED],
        [RED, RED, BLUE, RED, RED, RED],
    ];
    let mut bytes = Vec::new();
    for row in rows.iter() {
        for pixel in row.iter() {
            bytes.extend_from_slice(pixel);
        }
    }
    Rc::new(SpriteSheet::new(6, 4, bytes).unwrap())
}

#[test]
fn placed_rooms_take_their_candidates_in_order() {
    let pictures = vec![
        RoomPicture { path: String::from("room1.png"), picture: picture() },
        RoomPicture { path: String::from("room2.png"), picture: wide_picture() },
    ];
    let mut builder = LevelBuilder::new(pictures).with_number_of_rooms(1);
    // the candidates around the middle: left, right, above, below
    builder.place_room(1, 0);
    // now: right, above and below of the middle, then left, above and below
    // of the new room
    builder.place_room(0, 3);
    builder.place_room(0, 1);
    let level = builder.build(tile_set());

    let west = level.get_room(1).unwrap();
    assert_eq!(west.grid_pos, Vec2::new(3, 4));
    assert_eq!(west.room_type, RoomType::Normal);
    assert_eq!(west.dimensions, Vec2::new(6, 4));
    assert_eq!(
        west.neighbours,
        [Neighbour::West(2), Neighbour::East(0), Neighbour::Invalid, Neighbour::Invalid]
    );
    assert_eq!(west.load_info.doors, [None, Some(((5, 1), 0)), None, Some(((0, 1), 2))]);

    let far_west = level.get_room(2).unwrap();
    assert_eq!(far_west.grid_pos, Vec2::new(2, 4));
    assert_eq!(far_west.dimensions, Vec2::new(5, 4));
    assert_eq!(
        far_west.neighbours,
        [Neighbour::East(1), Neighbour::Invalid, Neighbour::Invalid, Neighbour::Invalid]
    );

    let north = level.get_room(3).unwrap();
    assert_eq!(north.grid_pos, Vec2::new(4, 3));
    assert_eq!(
        north.neighbours,
        [Neighbour::South(0), Neighbour::Invalid, Neighbour::Invalid, Neighbour::Invalid]
    );
    assert_eq!(north.load_info.doors, [None, None, Some(((2, 3), 0)), None]);

    let start = level.get_room(0).unwrap();
    assert_eq!(start.room_type, RoomType::Start);
    assert_eq!(start.dimensions, Vec2::new(5, 4));
    assert_eq!(
        start.neighbours,
        [Neighbour::West(1), Neighbour::North(3), Neighbour::Invalid, Neighbour::Invalid]
    );
    assert_eq!(start.load_info.doors, [Some(((2, 0), 3)), None, None, Some(((0, 1), 1))]);

    assert!(!level.has_room(4));
    let marked = level.map_grid.iter().flatten().filter(|taken| **taken).count();
    assert_eq!(marked, 4);
    assert!(level.map_grid[3][4] && level.map_grid[2][4] && level.map_grid[4][3]);
}

#[test]
fn level_has_as_many_rooms_as_asked_for() {
    let pictures = || vec![RoomPicture { path: String::from("room1.png"), picture: picture() }];
    for wanted in [1usize, 2, 5, 27] {
        for _ in 0..10 {
            let level = Level::new(wanted, pictures(), tile_set());
            // every room that is added gets the next name
            assert!(level.has_room(0));
            assert!(!level.has_room(wanted as u8));
            let marked = level.map_grid.iter().flatten().filter(|taken| **taken).count();
            assert!(marked >= 1 && marked <= wanted);
            if wanted > 1 {
                assert!(level.has_room((wanted - 1) as u8));
            }
        }
    }
}
