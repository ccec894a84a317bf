//! Turning the picture of a room into a room.

use vstd::prelude::*;
use std::rc::Rc;
use crate::entity::{Direction, RoomId};
use crate::graphics::pixels::Color;
use crate::graphics::sprite::{lemma_cell_in_grid, SpriteSheet};
use crate::level::random::random_index;
use crate::level::room::{LoadInfo, Neighbour, Room, RoomType, TileSet, Tiles};
use crate::vector::Vec2;

verus! {

/// What the colour of a pixel of the picture of a room stands for.
#[derive(Debug, Eq, PartialEq, Copy, Clone, Structural)]
pub enum Marking {
    /// Red: a wall.
    Wall,
    /// Blue: a wall that can hold a door.
    Doorway,
    /// Green: grass.
    Grass,
    /// Yellow: a place to start from.
    SpawnPoint,
    /// Anything else.
    Nothing,
}

/// How many looks there are to choose from for a marking.
pub open spec fn variants(marking: Marking) -> usize {
    match marking {
        Marking::Wall => 3,
        Marking::Doorway => 3,
        Marking::Grass => 6,
        Marking::SpawnPoint => 2,
        Marking::Nothing => 1,
    }
}

/// What a colour stands for.
pub open spec fn spec_marking(color: Color) -> Marking {
    if color == (Color { r: 255, g: 0, b: 0, a: 255 }) {
        Marking::Wall
    } else if color == (Color { r: 0, g: 0, b: 255, a: 255 }) {
        Marking::Doorway
    } else if color == (Color { r: 0, g: 255, b: 0, a: 255 }) {
        Marking::Grass
    } else if color == (Color { r: 255, g: 255, b: 0, a: 255 }) {
        Marking::SpawnPoint
    } else {
        Marking::Nothing
    }
}

/// The way a cell on the border of a room faces: the top row up, the left
/// column left, the right column right, the bottom row down; the top row
/// and the left column come first. Cells inside face up.
pub open spec fn spec_orientation(x: int, y: int, width: int, height: int) -> Direction {
    if y == 0 {
        Direction::Up
    } else if x == 0 {
        Direction::Left
    } else if x == width - 1 {
        Direction::Right
    } else if y == height - 1 {
        Direction::Down
    } else {
        Direction::Up
    }
}

/// The cell that a marking at column `x` of row `y` makes, with the look
/// that has been drawn for it: a wall in a corner of the room is a corner,
/// the more so as no look is drawn for it.
pub open spec fn spec_tile_for(
    marking: Marking,
    x: int,
    y: int,
    width: int,
    height: int,
    variant: usize,
) -> Tiles {
    match marking {
        Marking::Wall => if x == 0 && y == 0 {
            Tiles::WallCorner(Direction::Up, Direction::Left)
        } else if x == 0 && y == height - 1 {
            Tiles::WallCorner(Direction::Down, Direction::Left)
        } else if x == width - 1 && y == 0 {
            Tiles::WallCorner(Direction::Up, Direction::Right)
        } else if x == width - 1 && y == height - 1 {
            Tiles::WallCorner(Direction::Down, Direction::Right)
        } else {
            Tiles::Wall(variant, spec_orientation(x, y, width, height))
        },
        Marking::Doorway => Tiles::Wall(variant, spec_orientation(x, y, width, height)),
        Marking::Grass => Tiles::Grass(variant),
        Marking::SpawnPoint => Tiles::SpawnPoint(variant),
        Marking::Nothing => Tiles::Empty,
    }
}

pub fn marking(color: Color) -> (marking: Marking)
    ensures
        marking == spec_marking(color),
{
    if color.r == 255 && color.g == 0 && color.b == 0 && color.a == 255 {
        Marking::Wall
    } else if color.r == 0 && color.g == 0 && color.b == 255 && color.a == 255 {
        Marking::Doorway
    } else if color.r == 0 && color.g == 255 && color.b == 0 && color.a == 255 {
        Marking::Grass
    } else if color.r == 255 && color.g == 255 && color.b == 0 && color.a == 255 {
        Marking::SpawnPoint
    } else {
        Marking::Nothing
    }
}

pub fn tile_for(marking: Marking, x: u32, y: u32, width: u32, height: u32, variant: usize) -> (tile:
    Tiles)
    requires
        x < width,
        y < height,
    ensures
        tile == spec_tile_for(marking, x as int, y as int, width as int, height as int, variant),
{
    let orientation = if y == 0 {
        Direction::Up
    } else if x == 0 {
        Direction::Left
    } else if x == width - 1 {
        Direction::Right
    } else if y == height - 1 {
        Direction::Down
    } else {
        Direction::Up
    };
    match marking {
        Marking::Wall => {
            if x == 0 && y == 0 {
                Tiles::WallCorner(Direction::Up, Direction::Left)
            } else if x == 0 && y == height - 1 {
                Tiles::WallCorner(Direction::Down, Direction::Left)
            } else if x == width - 1 && y == 0 {
                Tiles::WallCorner(Direction::Up, Direction::Right)
            } else if x == width - 1 && y == height - 1 {
                Tiles::WallCorner(Direction::Down, Direction::Right)
            } else {
                Tiles::Wall(variant, orientation)
            }
        },
        Marking::Doorway => Tiles::Wall(variant, orientation),
        Marking::Grass => Tiles::Grass(variant),
        Marking::SpawnPoint => Tiles::SpawnPoint(variant),
        Marking::Nothing => Tiles::Empty,
    }
}

/// The marking of the pixel with number `i`, counted row by row.
pub open spec fn marking_at(picture: SpriteSheet, i: int) -> Marking {
    spec_marking(
        picture.pixel(i % (picture.spec_width() as int), i / (picture.spec_width() as int)),
    )
}

/// Whether `tile` is a cell that the pixel with number `i` can make: what
/// its marking makes with one of the looks that there are for it.
pub open spec fn made_from(tile: Tiles, picture: SpriteSheet, i: int) -> bool {
    exists|variant: usize|
        variant < variants(marking_at(picture, i)) && tile == #[trigger] spec_tile_for(
            marking_at(picture, i),
            i % (picture.spec_width() as int),
            i / (picture.spec_width() as int),
            picture.spec_width() as int,
            picture.spec_height() as int,
            variant,
        )
}

/// Whether `tiles` are cells that the first `count` pixels of `picture`
/// can make.
pub open spec fn drawn_from(tiles: Seq<Tiles>, picture: SpriteSheet, count: int) -> bool {
    &&& tiles.len() == count
    &&& forall|i: int| 0 <= i < count ==> made_from(#[trigger] tiles[i], picture, i)
}

/// The cells among the first `count` pixels of `picture` that can hold a
/// door, row by row.
pub open spec fn doorways(picture: SpriteSheet, count: int) -> Seq<(u32, u32)>
    decreases count,
{
    if count <= 0 {
        Seq::empty()
    } else {
        let rest = doorways(picture, count - 1);
        if marking_at(picture, count - 1) == Marking::Doorway {
            rest.push(
                (
                    ((count - 1) % (picture.spec_width() as int)) as u32,
                    ((count - 1) / (picture.spec_width() as int)) as u32,
                ),
            )
        } else {
            rest
        }
    }
}

/// How much a cell is wanted for the door to a neighbour: the door to the
/// north goes as far up as can be, the one to the east as far right, and
/// so on.
pub open spec fn pull(neighbour: Neighbour, cell: (u32, u32)) -> int {
    match neighbour {
        Neighbour::North(_) => -(cell.1 as int),
        Neighbour::East(_) => cell.0 as int,
        Neighbour::South(_) => cell.1 as int,
        Neighbour::West(_) => -(cell.0 as int),
        Neighbour::Invalid => 0,
    }
}

/// The place of the cell among `cells` that is wanted most for the door to
/// `neighbour`; of several, the first.
pub open spec fn pick(cells: Seq<(u32, u32)>, neighbour: Neighbour) -> int
    decreases cells.len(),
{
    if cells.len() <= 1 {
        0
    } else {
        let before = pick(cells.drop_last(), neighbour);
        if pull(neighbour, cells.last()) > pull(neighbour, cells[before]) {
            cells.len() - 1
        } else {
            before
        }
    }
}

/// The place of a neighbour among the doorways of a room, and the way its
/// door faces.
pub open spec fn doorway_of(neighbour: Neighbour) -> (int, Direction) {
    match neighbour {
        Neighbour::North(_) => (0, Direction::Up),
        Neighbour::East(_) => (1, Direction::Right),
        Neighbour::South(_) => (2, Direction::Down),
        Neighbour::West(_) => (3, Direction::Left),
        Neighbour::Invalid => (0, Direction::Up),
    }
}

/// The room that a neighbour is.
pub open spec fn room_of(neighbour: Neighbour) -> RoomId {
    match neighbour {
        Neighbour::North(id) => id,
        Neighbour::East(id) => id,
        Neighbour::South(id) => id,
        Neighbour::West(id) => id,
        Neighbour::Invalid => 0,
    }
}

/// A room while its doors are placed.
pub struct Plan {
    /// The cells that can still hold a door.
    pub free: Seq<(u32, u32)>,
    pub tiles: Seq<Tiles>,
    pub doors: Seq<Option<((u32, u32), RoomId)>>,
}

/// A plan without doors.
pub open spec fn fresh_plan(free: Seq<(u32, u32)>, tiles: Seq<Tiles>) -> Plan {
    Plan { free, tiles, doors: seq![None, None, None, None] }
}

/// Whether the doors of `room` have been placed for its neighbours.
pub open spec fn doors_placed(room: Room) -> bool {
    exists|free: Seq<(u32, u32)>, tiles: Seq<Tiles>, width: int|
        room.load_info.doors@ == (#[trigger] with_doors(
            fresh_plan(free, tiles),
            room.neighbours@,
            width,
        )).doors
}

/// The plan once a door has been placed for every neighbour of
/// `neighbours`, in their order: each takes the cell that is wanted most
/// for it among those that are still free.
pub open spec fn with_doors(plan: Plan, neighbours: Seq<Neighbour>, width: int) -> Plan
    decreases neighbours.len(),
{
    if neighbours.len() == 0 {
        plan
    } else {
        let so_far = with_doors(plan, neighbours.drop_last(), width);
        let neighbour = neighbours.last();
        if neighbour is Invalid {
            so_far
        } else {
            let place = pick(so_far.free, neighbour);
            let cell = so_far.free[place];
            Plan {
                free: so_far.free.remove(place),
                tiles: so_far.tiles.update(
                    cell.1 * width + cell.0,
                    Tiles::Door(doorway_of(neighbour).1),
                ),
                doors: so_far.doors.update(
                    doorway_of(neighbour).0,
                    Some((cell, room_of(neighbour))),
                ),
            }
        }
    }
}

/// No two of the neighbours lie on the same side.
pub open spec fn sides_distinct(neighbours: Seq<Neighbour>) -> bool {
    forall|i: int, j: int|
        0 <= i < neighbours.len() && 0 <= j < neighbours.len() && i != j && !(neighbours[i]
            is Invalid) && !(neighbours[j] is Invalid) ==> doorway_of(#[trigger] neighbours[i]).0
            != doorway_of(#[trigger] neighbours[j]).0
}

/// Whether the doorways hold a door to `neighbour` where it belongs.
pub open spec fn has_door_to(doors: Seq<Option<((u32, u32), RoomId)>>, neighbour: Neighbour) -> bool {
    match doors[doorway_of(neighbour).0] {
        Some(door) => door.1 == room_of(neighbour),
        None => false,
    }
}

/// Placing the doors leaves as many doorways as there were, and gives
/// every neighbour that is a room its door, where no two neighbours lie on
/// the same side.
pub proof fn lemma_doors_placed(plan: Plan, neighbours: Seq<Neighbour>, width: int, k: int)
    requires
        plan.doors.len() == 4,
        sides_distinct(neighbours),
        0 <= k < neighbours.len(),
        !(neighbours[k] is Invalid),
    ensures
        with_doors(plan, neighbours, width).doors.len() == 4,
        has_door_to(with_doors(plan, neighbours, width).doors, neighbours[k]),
    decreases neighbours.len(),
{
    let rest = neighbours.drop_last();
    assert forall|i: int, j: int|
        0 <= i < rest.len() && 0 <= j < rest.len() && i != j && !(rest[i] is Invalid) && !(rest[j]
            is Invalid) implies doorway_of(#[trigger] rest[i]).0 != doorway_of(
        #[trigger] rest[j],
    ).0 by {
        assert(rest[i] == neighbours[i] && rest[j] == neighbours[j]);
    }
    lemma_doors_len(plan, rest, width);
    if k < neighbours.len() - 1 {
        lemma_doors_placed(plan, rest, width, k);
        assert(rest[k] == neighbours[k]);
        assert(neighbours.last() == neighbours[neighbours.len() - 1]);
    }
}

/// Placing doors leaves as many doorways as there were.
pub proof fn lemma_doors_len(plan: Plan, neighbours: Seq<Neighbour>, width: int)
    requires
        plan.doors.len() == 4,
    ensures
        with_doors(plan, neighbours, width).doors.len() == 4,
    decreases neighbours.len(),
{
    if neighbours.len() > 0 {
        lemma_doors_len(plan, neighbours.drop_last(), width);
    }
}

/// How many of the neighbours are rooms.
pub open spec fn count_rooms(neighbours: Seq<Neighbour>) -> nat
    decreases neighbours.len(),
{
    if neighbours.len() == 0 {
        0
    } else {
        count_rooms(neighbours.drop_last()) + if neighbours.last() is Invalid {
            0nat
        } else {
            1nat
        }
    }
}

/// The place of the first of `neighbours` that is no room, or their number
/// where all are.
pub open spec fn first_free(neighbours: Seq<Neighbour>) -> int
    decreases neighbours.len(),
{
    if neighbours.len() == 0 {
        0
    } else if neighbours[0] is Invalid {
        0
    } else {
        1 + first_free(neighbours.drop_first())
    }
}

/// The tile set has a look for every one of the cells.
pub open spec fn all_covered(tiles: Seq<Tiles>, tile_set: TileSet) -> bool {
    forall|i: int| 0 <= i < tiles.len() ==> tile_set.covers(#[trigger] tiles[i])
}

/// Every one of the cells lies in a grid of the size given.
pub open spec fn all_inside(cells: Seq<(u32, u32)>, width: int, height: int) -> bool {
    forall|i: int| 0 <= i < cells.len() ==> (#[trigger] cells[i]).0 < width && cells[i].1 < height
}

/// The rooms among the neighbours from place `k` on are the neighbour in
/// place `k`, if it is a room, and the rooms behind it.
pub proof fn lemma_count_rooms_split(neighbours: Seq<Neighbour>, k: int)
    requires
        0 <= k < neighbours.len(),
    ensures
        count_rooms(neighbours.subrange(k, neighbours.len() as int)) == count_rooms(
            neighbours.subrange(k + 1, neighbours.len() as int),
        ) + if neighbours[k] is Invalid {
            0nat
        } else {
            1nat
        },
    decreases neighbours.len() - k,
{
    let from_k = neighbours.subrange(k, neighbours.len() as int);
    let behind = neighbours.subrange(k + 1, neighbours.len() as int);
    if k == neighbours.len() - 1 {
        assert(count_rooms(from_k.drop_last()) == 0);
    } else {
        let shorter = neighbours.drop_last();
        lemma_count_rooms_split(shorter, k);
        assert(from_k.drop_last() == shorter.subrange(k, shorter.len() as int));
        assert(behind.drop_last() == shorter.subrange(k + 1, shorter.len() as int));
        assert(count_rooms(from_k) == count_rooms(from_k.drop_last()) + if from_k.last()
            is Invalid {
            0nat
        } else {
            1nat
        });
        assert(count_rooms(behind) == count_rooms(behind.drop_last()) + if behind.last()
            is Invalid {
            0nat
        } else {
            1nat
        });
    }
}

/// There are no more rooms among the neighbours than neighbours.
pub proof fn lemma_count_rooms_bound(neighbours: Seq<Neighbour>)
    ensures
        count_rooms(neighbours) <= neighbours.len(),
    decreases neighbours.len(),
{
    if neighbours.len() > 0 {
        lemma_count_rooms_bound(neighbours.drop_last());
    }
}

/// How much a cell is wanted for the door to a neighbour.
fn pull_of(neighbour: Neighbour, cell: (u32, u32)) -> (wanted: i64)
    ensures
        wanted == pull(neighbour, cell),
{
    match neighbour {
        Neighbour::North(_) => -(cell.1 as i64),
        Neighbour::East(_) => cell.0 as i64,
        Neighbour::South(_) => cell.1 as i64,
        Neighbour::West(_) => -(cell.0 as i64),
        Neighbour::Invalid => 0,
    }
}

/// Finds the cell that is wanted most for the door to `neighbour`.
fn pick_cell(cells: &Vec<(u32, u32)>, neighbour: Neighbour) -> (place: usize)
    requires
        cells@.len() > 0,
    ensures
        place == pick(cells@, neighbour),
        place < cells@.len(),
{
    let mut idx: usize = 0;
    let mut i: usize = 1;
    while i < cells.len()
        invariant
            1 <= i <= cells@.len(),
            idx < i,
            idx == pick(cells@.subrange(0, i as int), neighbour),
        decreases cells@.len() - i,
    {
        let ghost seen = cells@.subrange(0, i as int);
        let ghost next = cells@.subrange(0, i + 1);
        assert(next.drop_last() == seen);
        if pull_of(neighbour, cells[i]) > pull_of(neighbour, cells[idx]) {
            idx = i;
        }
        i += 1;
    }
    assert(cells@.subrange(0, cells@.len() as int) == cells@);
    idx
}

/// The first free place among the neighbours is free, and lies among them
/// or just behind them.
pub proof fn lemma_first_free(neighbours: Seq<Neighbour>)
    ensures
        0 <= first_free(neighbours) <= neighbours.len(),
        first_free(neighbours) < neighbours.len() ==> neighbours[first_free(neighbours)]
            is Invalid,
    decreases neighbours.len(),
{
    if neighbours.len() > 0 && !(neighbours[0] is Invalid) {
        lemma_first_free(neighbours.drop_first());
    }
}

pub struct RoomBuilder {
    neighbours: [Neighbour; 4],
    room_type: RoomType,
    grid_pos: Vec2,
    path: String,
    pub id: RoomId,
}

impl Default for RoomBuilder {
    fn default() -> (builder: RoomBuilder)
        ensures
            builder.neighbours() == seq![
                Neighbour::Invalid,
                Neighbour::Invalid,
                Neighbour::Invalid,
                Neighbour::Invalid,
            ],
            builder.room_type() == RoomType::Normal,
            builder.grid_pos() == (Vec2 { x: 0, y: 0 }),
            builder.spec_id() == 0,
    {
        RoomBuilder::new()
    }
}

impl RoomBuilder {
    pub closed spec fn neighbours(self) -> Seq<Neighbour> {
        self.neighbours@
    }

    pub closed spec fn room_type(self) -> RoomType {
        self.room_type
    }

    /// Where the room lies on the map of the level.
    pub closed spec fn grid_pos(self) -> Vec2 {
        self.grid_pos
    }

    /// The file that holds the picture of the room.
    pub closed spec fn spec_path(self) -> String {
        self.path
    }

    pub closed spec fn spec_id(self) -> RoomId {
        self.id
    }

    /// Nothing but the neighbours differs between the two.
    pub open spec fn same_but_neighbours(self, other: RoomBuilder) -> bool {
        &&& self.room_type() == other.room_type()
        &&& self.grid_pos() == other.grid_pos()
        &&& self.spec_path() == other.spec_path()
        &&& self.spec_id() == other.spec_id()
    }

    /// A room without neighbours, at the origin of the map.
    pub fn new() -> (builder: RoomBuilder)
        ensures
            builder.neighbours() == seq![
                Neighbour::Invalid,
                Neighbour::Invalid,
                Neighbour::Invalid,
                Neighbour::Invalid,
            ],
            builder.room_type() == RoomType::Normal,
            builder.grid_pos() == (Vec2 { x: 0, y: 0 }),
            builder.spec_id() == 0,
    {
        let builder = RoomBuilder {
            neighbours: [
                Neighbour::Invalid,
                Neighbour::Invalid,
                Neighbour::Invalid,
                Neighbour::Invalid,
            ],
            room_type: RoomType::Normal,
            grid_pos: Vec2::zero(),
            path: String::new(),
            id: 0,
        };
        assert(builder.neighbours@ =~= seq![
            Neighbour::Invalid,
            Neighbour::Invalid,
            Neighbour::Invalid,
            Neighbour::Invalid,
        ]);
        builder
    }

    /// Gives the room a neighbour, if it has fewer than four.
    pub fn add_neighbour(&mut self, neighbour: Neighbour)
        ensures
            final(self).same_but_neighbours(*old(self)),
            final(self).neighbours() == if first_free(old(self).neighbours()) < 4 {
                old(self).neighbours().update(first_free(old(self).neighbours()), neighbour)
            } else {
                old(self).neighbours()
            },
    {
        let ghost before = self.neighbours@;
        let mut i: usize = 0;
        assert(before.subrange(0, 4) == before);
        while i < 4
            invariant
                i <= 4,
                before.len() == 4,
                self.neighbours@ == before,
                self.same_but_neighbours(*old(self)),
                before == old(self).neighbours(),
                first_free(before) == i + first_free(before.subrange(i as int, 4)),
            decreases 4 - i,
        {
            let ghost rest = before.subrange(i as int, 4);
            assert(rest.drop_first() == before.subrange(i + 1, 4));
            let free = match self.neighbours[i] {
                Neighbour::Invalid => true,
                _ => false,
            };
            if free {
                self.neighbours[i] = neighbour;
                return ;
            }
            i += 1;
        }
    }

    pub fn with_room_type(self, room_type: RoomType) -> (builder: RoomBuilder)
        ensures
            builder.room_type() == room_type,
            builder.neighbours() == self.neighbours(),
            builder.grid_pos() == self.grid_pos(),
            builder.spec_path() == self.spec_path(),
            builder.spec_id() == self.spec_id(),
    {
        let mut builder = self;
        builder.room_type = room_type;
        builder
    }

    pub fn with_grid_pos(self, grid_pos: Vec2) -> (builder: RoomBuilder)
        ensures
            builder.grid_pos() == grid_pos,
            builder.neighbours() == self.neighbours(),
            builder.room_type() == self.room_type(),
            builder.spec_path() == self.spec_path(),
            builder.spec_id() == self.spec_id(),
    {
        let mut builder = self;
        builder.grid_pos = grid_pos;
        builder
    }

    /// Says which file holds the picture of the room.
    pub fn with_path(self, path: String) -> (builder: RoomBuilder)
        ensures
            builder.spec_path() == path,
            builder.neighbours() == self.neighbours(),
            builder.room_type() == self.room_type(),
            builder.grid_pos() == self.grid_pos(),
            builder.spec_id() == self.spec_id(),
    {
        let mut builder = self;
        builder.path = path;
        builder
    }

    pub fn with_id(self, id: RoomId) -> (builder: RoomBuilder)
        ensures
            builder.spec_id() == id,
            builder.neighbours() == self.neighbours(),
            builder.room_type() == self.room_type(),
            builder.grid_pos() == self.grid_pos(),
            builder.spec_path() == self.spec_path(),
    {
        let mut builder = self;
        builder.id = id;
        builder
    }

    /// A room has four places for neighbours, so at most four neighbours.
    pub proof fn lemma_at_most_four(self)
        ensures
            self.neighbours().len() == 4,
            count_rooms(self.neighbours()) <= 4,
    {
        lemma_count_rooms_bound(self.neighbours());
    }

    /// Whether `room` is a room that this builder can make of `picture`:
    /// its cells are what the pixels make, but for the doors, which have
    /// been placed for the neighbours in their order.
    pub open spec fn builds(self, picture: SpriteSheet, room: Room) -> bool {
        let width = picture.spec_width() as int;
        let height = picture.spec_height() as int;
        &&& room.dimensions == (Vec2 { x: width as i32, y: height as i32 })
        &&& room.neighbours@ == self.neighbours()
        &&& room.room_type == self.room_type()
        &&& room.grid_pos == self.grid_pos()
        &&& exists|tiles: Seq<Tiles>|
            {
                let plan = with_doors(
                    fresh_plan(doorways(picture, width * height), tiles),
                    self.neighbours(),
                    width,
                );
                &&& #[trigger] drawn_from(tiles, picture, width * height)
                &&& room.tiles@ == plan.tiles
                &&& room.load_info.doors@ == plan.doors
            }
    }

    /// Makes the room of its picture. Walls, grass and spawn points get one
    /// of their looks by chance.
    pub fn build(self, picture: &SpriteSheet, tile_set: Rc<TileSet>) -> (built: (RoomId, Room))
        requires
            picture.spec_width() <= 0x0400_0000,
            picture.spec_height() <= 0x0400_0000,
            picture.spec_width() * picture.spec_height() <= usize::MAX,
            tile_set.wf(),
            tile_set.walls@.len() >= 3,
            tile_set.grass@.len() >= 6,
            count_rooms(self.neighbours()) <= doorways(
                *picture,
                (picture.spec_width() * picture.spec_height()) as int,
            ).len(),
        ensures
            built.0 == self.spec_id(),
            built.1.wf(),
            built.1.tile_set == tile_set,
            self.builds(*picture, built.1),
            doors_placed(built.1),
    {
        let width = picture.width();
        let height = picture.height();
        let ghost total = width as int * height as int;
        let mut tiles: Vec<Tiles> = Vec::new();
        let mut possible_door_positions: Vec<(u32, u32)> = Vec::new();
        let mut y: u32 = 0;
        proof {
            assert(width * height >= 0) by (nonlinear_arith)
                requires
                    width >= 0,
                    height >= 0,
            ;
        }
        while y < height
            invariant
                y <= height,
                width == picture.spec_width(),
                height == picture.spec_height(),
                total == width * height,
                total <= usize::MAX,
                0 <= y * width <= total,
                drawn_from(tiles@, *picture, y * width),
                possible_door_positions@ == doorways(*picture, y * width),
                all_covered(tiles@, *tile_set),
                all_inside(possible_door_positions@, width as int, height as int),
                tile_set.walls@.len() >= 3,
                tile_set.grass@.len() >= 6,
            decreases height - y,
        {
            let mut x: u32 = 0;
            proof {
                assert((y + 1) * width == y * width + width) by (nonlinear_arith);
                assert((y + 1) * width <= height * width) by (nonlinear_arith)
                    requires
                        y + 1 <= height,
                        width >= 0,
                ;
            }
            while x < width
                invariant
                    y < height,
                    x <= width,
                    width == picture.spec_width(),
                    height == picture.spec_height(),
                    total == width * height,
                    total <= usize::MAX,
                    0 <= y * width,
                    y * width + width <= total,
                    drawn_from(tiles@, *picture, y * width + x),
                    possible_door_positions@ == doorways(*picture, y * width + x),
                    all_covered(tiles@, *tile_set),
                    all_inside(possible_door_positions@, width as int, height as int),
                    tile_set.walls@.len() >= 3,
                    tile_set.grass@.len() >= 6,
                decreases width - x,
            {
                let ghost i = y * width + x;
                proof {
                    vstd::arithmetic::div_mod::lemma_fundamental_div_mod_converse(
                        i,
                        width as int,
                        y as int,
                        x as int,
                    );
                }
                let kind = marking(picture.get_pixel(x, y));
                let variant = match kind {
                    Marking::Wall => {
                        if (x == 0 || x == width - 1) && (y == 0 || y == height - 1) {
                            0
                        } else {
                            random_index(0, 3)
                        }
                    },
                    Marking::Doorway => random_index(0, 3),
                    Marking::Grass => random_index(0, 6),
                    Marking::SpawnPoint => random_index(0, 2),
                    Marking::Nothing => 0,
                };
                let tile = tile_for(kind, x, y, width, height, variant);
                let ghost before = tiles@;
                let ghost cells = possible_door_positions@;
                if let Marking::Doorway = kind {
                    possible_door_positions.push((x, y));
                }
                tiles.push(tile);
                proof {
                    assert(made_from(tile, *picture, i));
                    assert forall|k: int| 0 <= k < i + 1 implies made_from(
                        #[trigger] tiles@[k],
                        *picture,
                        k,
                    ) by {
                        if k < i {
                            assert(tiles@[k] == before[k]);
                        }
                    }
                    assert forall|k: int| 0 <= k < tiles@.len() implies tile_set.covers(
                        #[trigger] tiles@[k],
                    ) by {
                        if k < i {
                            assert(tiles@[k] == before[k]);
                        }
                    }
                    assert forall|k: int|
                        0 <= k < possible_door_positions@.len() implies (#[trigger] possible_door_positions@[k]).0
                        < width && possible_door_positions@[k].1 < height by {
                        if k < cells.len() {
                            assert(possible_door_positions@[k] == cells[k]);
                        }
                    }
                }
                x += 1;
            }
            y += 1;
        }
        proof {
            assert(height * width == total) by (nonlinear_arith)
                requires
                    total == width * height,
            ;
        }

        let mut load_info = LoadInfo::default();
        let ghost drawn = tiles@;
        let ghost start = fresh_plan(possible_door_positions@, tiles@);
        proof {
            assert(load_info.doors@ =~= seq![None, None, None, None]);
            assert(self.neighbours@.subrange(0, 0).len() == 0);
            assert(self.neighbours@.subrange(0, 4) == self.neighbours@);
            lemma_count_rooms_split(self.neighbours@, 0);
        }
        let mut k: usize = 0;
        while k < 4
            invariant
                k <= 4,
                self.neighbours@.len() == 4,
                width == picture.spec_width(),
                height == picture.spec_height(),
                total == width * height,
                total <= usize::MAX,
                width <= 0x0400_0000,
                height <= 0x0400_0000,
                tiles@.len() == total,
                load_info.doors@.len() == 4,
                all_covered(tiles@, *tile_set),
                all_inside(possible_door_positions@, width as int, height as int),
                count_rooms(self.neighbours@.subrange(k as int, 4))
                    <= possible_door_positions@.len(),
                (Plan {
                    free: possible_door_positions@,
                    tiles: tiles@,
                    doors: load_info.doors@,
                }) == with_doors(start, self.neighbours@.subrange(0, k as int), width as int),
            decreases 4 - k,
        {
            let neighbour = self.neighbours[k];
            proof {
                let done = self.neighbours@.subrange(0, k + 1);
                assert(done.drop_last() == self.neighbours@.subrange(0, k as int));
                assert(done.last() == neighbour);
                lemma_count_rooms_split(self.neighbours@, k as int);
            }
            let target = match neighbour {
                Neighbour::Invalid => None,
                Neighbour::North(id) => Some((id, 0usize, Direction::Up)),
                Neighbour::East(id) => Some((id, 1usize, Direction::Right)),
                Neighbour::South(id) => Some((id, 2usize, Direction::Down)),
                Neighbour::West(id) => Some((id, 3usize, Direction::Left)),
            };
            if let Some((id, slot, direction)) = target {
                let idx = pick_cell(&possible_door_positions, neighbour);
                let pos = possible_door_positions[idx];
                let ghost cells = possible_door_positions@;
                possible_door_positions.remove(idx);
                proof {
                    lemma_cell_in_grid(pos.0 as int, pos.1 as int, width as int, height as int);
                    assert forall|j: int|
                        0 <= j < possible_door_positions@.len() implies (#[trigger] possible_door_positions@[j]).0
                        < width && possible_door_positions@[j].1 < height by {
                        if j < idx {
                            assert(possible_door_positions@[j] == cells[j]);
                        } else {
                            assert(possible_door_positions@[j] == cells[j + 1]);
                        }
                    }
                }
                assert(pos.1 * width <= 0x0400_0000 * 0x0400_0000) by (nonlinear_arith)
                    requires
                        0 <= pos.1 < height,
                        0 <= width <= 0x0400_0000,
                        height <= 0x0400_0000,
                ;
                let index: usize = (pos.1 as u64 * width as u64 + pos.0 as u64) as usize;
                let ghost before = tiles@;
                tiles[index] = Tiles::Door(direction);
                proof {
                    assert forall|j: int| 0 <= j < tiles@.len() implies tile_set.covers(
                        #[trigger] tiles@[j],
                    ) by {
                        if j != index {
                            assert(tiles@[j] == before[j]);
                        }
                    }
                }
                let ghost doors_before = load_info.doors@;
                load_info.doors[slot] = Some((pos, id));
                proof {
                    let done = self.neighbours@.subrange(0, k + 1);
                    let so_far = with_doors(start, done.drop_last(), width as int);
                    assert(so_far.free == cells);
                    assert(so_far.tiles == before);
                    assert(so_far.doors == doors_before);
                    assert(idx == pick(so_far.free, neighbour));
                    assert(index == pos.1 * width + pos.0);
                    assert(slot == doorway_of(neighbour).0);
                    assert(direction == doorway_of(neighbour).1);
                    assert(id == room_of(neighbour));
                    assert(possible_door_positions@ == cells.remove(idx as int));
                    assert(tiles@ == before.update(index as int, Tiles::Door(direction)));
                    assert(load_info.doors@ == doors_before.update(
                        slot as int,
                        Some((pos, id)),
                    ));
                }
            }
            k += 1;
        }
        let room = Room {
            neighbours: self.neighbours,
            dimensions: Vec2::new(width as i32, height as i32),
            tiles,
            room_type: self.room_type,
            grid_pos: self.grid_pos,
            load_info,
            tile_set,
        };
        proof {
            assert(drawn_from(drawn, *picture, total));
            assert(self.builds(*picture, room));
            assert(room.load_info.doors@ == with_doors(start, room.neighbours@, width as int).doors);
        }
        (self.id, room)
    }

    pub fn id(&self) -> (id: RoomId)
        ensures
            id == self.spec_id(),
    {
        self.id
    }

    /// The file that holds the picture of the room.
    pub fn path(&self) -> (path: &String)
        ensures
            *path == self.spec_path(),
    {
        &self.path
    }
}

} // verus!
