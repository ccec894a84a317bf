//! The rooms of a level and the map that shows where they lie.

use vstd::prelude::*;
use std::collections::HashMap;
use std::rc::Rc;
use crate::entity::RoomId;
use crate::graphics::screen::Screen;
use crate::graphics::sprite::SpriteSheet;
use crate::level::builder::{
    doorways, doors_placed, first_free, fresh_plan, has_door_to, room_of, sides_distinct,
    RoomBuilder,
};
use crate::level::random::random_index;
use crate::level::room::{Neighbour, Room, RoomType, TileSet};
use crate::shared::share;
use crate::vector::Vec2;

verus! {

/// The map of a level has this many columns and rows.
pub const MAP_GRID_SIZE: usize = 9;

/// The last column and the last row of the map.
pub const MAP_GRID_SIZE_MINUS_ONE: usize = 8;

/// The picture of a room, and the file it comes from.
pub struct RoomPicture {
    pub path: String,
    pub picture: Rc<SpriteSheet>,
}

impl RoomPicture {
    /// The picture is small enough for a room, and has a doorway for each
    /// of the four sides.
    pub open spec fn usable(self) -> bool {
        &&& self.picture.spec_width() <= 0x0400_0000
        &&& self.picture.spec_height() <= 0x0400_0000
        &&& self.picture.spec_width() * self.picture.spec_height() <= usize::MAX
        &&& doorways(
            *self.picture,
            (self.picture.spec_width() * self.picture.spec_height()) as int,
        ).len() >= 4
    }
}

impl RoomPicture {
    /// Whether the picture is small enough for a room and has a doorway for
    /// each of the four sides.
    pub fn is_usable(&self) -> (usable: bool)
        ensures
            usable == self.usable(),
    {
        let width = self.picture.width();
        let height = self.picture.height();
        if width > 0x0400_0000 || height > 0x0400_0000 {
            return false;
        }
        assert(width * height <= 0x0400_0000 * 0x0400_0000) by (nonlinear_arith)
            requires
                0 <= width <= 0x0400_0000,
                0 <= height <= 0x0400_0000,
        ;
        let total: u64 = width as u64 * height as u64;
        if total > usize::MAX as u64 {
            return false;
        }
        let mut found: usize = 0;
        let mut y: u32 = 0;
        proof {
            assert(0 * width == 0) by (nonlinear_arith);
        }
        while y < height
            invariant
                y <= height,
                width == self.picture.spec_width(),
                height == self.picture.spec_height(),
                total == width * height,
                total <= usize::MAX,
                0 <= y * width <= total,
                found == doorways(*self.picture, y * width).len(),
                found <= y * width,
            decreases height - y,
        {
            let mut x: u32 = 0;
            proof {
                assert((y + 1) * width == y * width + width) by (nonlinear_arith);
                assert((y + 1) * width <= height * width) by (nonlinear_arith)
                    requires
                        y + 1 <= height,
                        width >= 0,
                ;
                assert(height * width == width * height) by (nonlinear_arith);
            }
            while x < width
                invariant
                    y < height,
                    x <= width,
                    width == self.picture.spec_width(),
                    height == self.picture.spec_height(),
                    total == width * height,
                    total <= usize::MAX,
                    0 <= y * width,
                    y * width + width <= total,
                    found == doorways(*self.picture, y * width + x).len(),
                    found <= y * width + x,
                decreases width - x,
            {
                proof {
                    vstd::arithmetic::div_mod::lemma_fundamental_div_mod_converse(
                        y * width + x,
                        width as int,
                        y as int,
                        x as int,
                    );
                }
                if let crate::level::builder::Marking::Doorway = crate::level::builder::marking(
                    self.picture.get_pixel(x, y),
                ) {
                    found += 1;
                }
                x += 1;
            }
            y += 1;
        }
        proof {
            assert(height * width == width * height) by (nonlinear_arith);
        }
        found >= 4
    }
}

/// Lays out the rooms of a level on its map, by chance.
pub struct LevelBuilder {
    /// The cells of the map, column by column.
    rooms: Vec<Option<RoomBuilder>>,
    /// Which picture the room of a cell is made of.
    chosen: Vec<usize>,
    possible_positions: Vec<Vec2>,
    number_of_rooms: usize,
    next_id: u8,
    pictures: Vec<RoomPicture>,
}

/// The neighbours of a room once `neighbour` has been added: it takes the
/// first free place, if there is one.
pub open spec fn added(neighbours: Seq<Neighbour>, neighbour: Option<Neighbour>) -> Seq<Neighbour> {
    match neighbour {
        Some(room) => if first_free(neighbours) < 4 {
            neighbours.update(first_free(neighbours), room)
        } else {
            neighbours
        },
        None => neighbours,
    }
}

/// Four places for neighbours, all of them free.
pub open spec fn no_neighbours() -> Seq<Neighbour> {
    seq![Neighbour::Invalid, Neighbour::Invalid, Neighbour::Invalid, Neighbour::Invalid]
}

/// No room of the map has a neighbour yet.
pub open spec fn unlinked(cells: Seq<Option<RoomBuilder>>) -> bool {
    forall|i: int|
        0 <= i < cells.len() ==> (#[trigger] cells[i] matches Some(room) ==> room.neighbours()
            == no_neighbours())
}

/// The name of the room in column `x` of row `y`, if there is one.
pub open spec fn name_at(cells: Seq<Option<RoomBuilder>>, x: int, y: int) -> Option<RoomId> {
    if on_map(x, y) {
        match cells[cell_of(x, y)] {
            Some(room) => Some(room.spec_id()),
            None => None,
        }
    } else {
        None
    }
}

/// The neighbours that the room in column `x` of row `y` is given: the
/// rooms to the west, east, north and south of it, in this order.
pub open spec fn links(cells: Seq<Option<RoomBuilder>>, x: int, y: int) -> Seq<Neighbour> {
    let west = match name_at(cells, x - 1, y) {
        Some(id) => Some(Neighbour::West(id)),
        None => None,
    };
    let east = match name_at(cells, x + 1, y) {
        Some(id) => Some(Neighbour::East(id)),
        None => None,
    };
    let north = match name_at(cells, x, y - 1) {
        Some(id) => Some(Neighbour::North(id)),
        None => None,
    };
    let south = match name_at(cells, x, y + 1) {
        Some(id) => Some(Neighbour::South(id)),
        None => None,
    };
    added(added(added(added(no_neighbours(), west), east), north), south)
}

/// How far, in columns and rows of the map, a neighbour lies from its room.
pub open spec fn step_to(neighbour: Neighbour) -> (int, int) {
    match neighbour {
        Neighbour::West(_) => (-1, 0),
        Neighbour::East(_) => (1, 0),
        Neighbour::North(_) => (0, -1),
        Neighbour::South(_) => (0, 1),
        Neighbour::Invalid => (0, 0),
    }
}

/// Whether `neighbour` names the room that lies next to the cell in column
/// `x` of row `y` on its side.
pub open spec fn names_room_beside(
    cells: Seq<Option<RoomBuilder>>,
    x: int,
    y: int,
    neighbour: Neighbour,
) -> bool {
    name_at(cells, x + step_to(neighbour).0, y + step_to(neighbour).1) == Some(room_of(neighbour))
}

/// The neighbours that a room is given lie on different sides, and each
/// names the room that lies next to it on its side.
pub proof fn lemma_links(cells: Seq<Option<RoomBuilder>>, x: int, y: int)
    ensures
        links(cells, x, y).len() == 4,
        sides_distinct(links(cells, x, y)),
        forall|k: int|
            0 <= k < 4 && !(#[trigger] links(cells, x, y)[k] is Invalid) ==> names_room_beside(
                cells,
                x,
                y,
                links(cells, x, y)[k],
            ),
{
    reveal_with_fuel(first_free, 6);
    let none = no_neighbours();
    let west = match name_at(cells, x - 1, y) {
        Some(id) => Some(Neighbour::West(id)),
        None => None,
    };
    let east = match name_at(cells, x + 1, y) {
        Some(id) => Some(Neighbour::East(id)),
        None => None,
    };
    let north = match name_at(cells, x, y - 1) {
        Some(id) => Some(Neighbour::North(id)),
        None => None,
    };
    let south = match name_at(cells, x, y + 1) {
        Some(id) => Some(Neighbour::South(id)),
        None => None,
    };
    let one = added(none, west);
    let two = added(one, east);
    let three = added(two, north);
    let four = added(three, south);
    lemma_added(none, west);
    lemma_added(one, east);
    lemma_added(two, north);
    lemma_added(three, south);
    assert(four == links(cells, x, y));
}

/// A neighbour that is added takes a free place, and changes no other.
pub proof fn lemma_added(neighbours: Seq<Neighbour>, neighbour: Option<Neighbour>)
    requires
        neighbours.len() == 4,
    ensures
        added(neighbours, neighbour).len() == 4,
        forall|k: int|
            0 <= k < 4 ==> #[trigger] added(neighbours, neighbour)[k] == neighbours[k] || (
            neighbours[k] is Invalid && neighbour == Some(added(neighbours, neighbour)[k])),
        forall|k: int|
            0 <= k < 4 && !(neighbours[k] is Invalid) ==> #[trigger] added(neighbours, neighbour)[k]
                == neighbours[k],
{
    crate::level::builder::lemma_first_free(neighbours);
}

/// Whether every neighbour of `room` names the room that lies next to it on
/// its side, and has its door in `room`.
pub open spec fn room_linked(cells: Seq<Option<RoomBuilder>>, room: Room) -> bool {
    forall|k: int|
        0 <= k < 4 && !(#[trigger] room.neighbours@[k] is Invalid) ==> names_room_beside(
            cells,
            room.grid_pos.x as int,
            room.grid_pos.y as int,
            room.neighbours@[k],
        ) && has_door_to(room.load_info.doors@, room.neighbours@[k])
}

/// Whether `linked` is `cells` with every room given its neighbours.
pub open spec fn all_linked(cells: Seq<Option<RoomBuilder>>, linked: Seq<Option<RoomBuilder>>) -> bool {
    &&& linked.len() == cells.len()
    &&& forall|x: int, y: int|
        on_map(x, y) ==> match #[trigger] cells[cell_of(x, y)] {
            Some(room) => linked[cell_of(x, y)] matches Some(other) && other.same_but_neighbours(
                room,
            ) && other.neighbours() == links(cells, x, y),
            None => linked[cell_of(x, y)] is None,
        }
}

/// Whether cell `k` holds the room with name `id`.
pub open spec fn named(cells: Seq<Option<RoomBuilder>>, k: int, id: RoomId) -> bool {
    match cells[k] {
        Some(room) => room.spec_id() == id,
        None => false,
    }
}

/// The number of the cell in column `x` of row `y` of the map.
pub open spec fn cell_of(x: int, y: int) -> int {
    x * 9 + y
}

/// Whether the map has a cell in column `x` of row `y`.
pub open spec fn on_map(x: int, y: int) -> bool {
    0 <= x <= 8 && 0 <= y <= 8
}

/// The map has eighty-one cells; the first room lies in the middle; every
/// room knows its cell and has a picture; no two rooms share a name, and
/// every candidate is a cell of the map other than the middle.
pub open spec fn sound_layout(
    cells: Seq<Option<RoomBuilder>>,
    choices: Seq<usize>,
    pictures: Seq<RoomPicture>,
    next_id: u8,
    candidates: Seq<Vec2>,
) -> bool {
    &&& cells.len() == 81
    &&& choices.len() == 81
    &&& pictures.len() > 0
    &&& forall|i: int| 0 <= i < pictures.len() ==> (#[trigger] pictures[i]).usable()
    &&& cells[cell_of(4, 4)] matches Some(start) && start.spec_id() == 0 && start.room_type()
        == RoomType::Start
    &&& next_id >= 1
    &&& forall|x: int, y: int|
        on_map(x, y) ==> (#[trigger] cells[cell_of(x, y)] matches Some(room) ==> room.grid_pos()
            == (Vec2 { x: x as i32, y: y as i32 }) && room.spec_id() < next_id && choices[cell_of(
            x,
            y,
        )] < pictures.len())
    &&& forall|i: int, j: int|
        0 <= i < 81 && 0 <= j < 81 && i != j ==> (#[trigger] cells[i] matches Some(a)
            ==> (#[trigger] cells[j] matches Some(b) ==> a.spec_id() != b.spec_id()))
    &&& forall|k: int|
        0 <= k < candidates.len() ==> on_map(
            (#[trigger] candidates[k]).x as int,
            candidates[k].y as int,
        ) && candidates[k] != (Vec2 { x: 4, y: 4 })
}

impl LevelBuilder {
    pub closed spec fn cells(self) -> Seq<Option<RoomBuilder>> {
        self.rooms@
    }

    /// The cells next to rooms that may hold the next room.
    pub closed spec fn candidates(self) -> Seq<Vec2> {
        self.possible_positions@
    }

    pub closed spec fn number_of_rooms(self) -> usize {
        self.number_of_rooms
    }

    pub closed spec fn pictures(self) -> Seq<RoomPicture> {
        self.pictures@
    }

    /// The name that the next room is given.
    pub closed spec fn spec_next_id(self) -> u8 {
        self.next_id
    }

    /// Which picture the room of each cell is made of.
    pub closed spec fn choices(self) -> Seq<usize> {
        self.chosen@
    }

    /// Whether the cell in column `x` of row `y` holds a room.
    pub open spec fn taken(self, x: int, y: int) -> bool {
        on_map(x, y) && self.cells()[cell_of(x, y)] is Some
    }

    /// The layout is sound; see [`sound_layout`].
    pub open spec fn wf(self) -> bool {
        sound_layout(
            self.cells(),
            self.choices(),
            self.pictures(),
            self.spec_next_id(),
            self.candidates(),
        )
    }

    /// The free cells next to the cell in column `x` of row `y`: left,
    /// right, above, below.
    pub open spec fn free_around(self, x: int, y: int) -> Seq<Vec2> {
        let left = if on_map(x - 1, y) && !self.taken(x - 1, y) {
            seq![Vec2 { x: (x - 1) as i32, y: y as i32 }]
        } else {
            Seq::empty()
        };
        let right = if on_map(x + 1, y) && !self.taken(x + 1, y) {
            seq![Vec2 { x: (x + 1) as i32, y: y as i32 }]
        } else {
            Seq::empty()
        };
        let above = if on_map(x, y - 1) && !self.taken(x, y - 1) {
            seq![Vec2 { x: x as i32, y: (y - 1) as i32 }]
        } else {
            Seq::empty()
        };
        let below = if on_map(x, y + 1) && !self.taken(x, y + 1) {
            seq![Vec2 { x: x as i32, y: (y + 1) as i32 }]
        } else {
            Seq::empty()
        };
        left + right + above + below
    }

    /// How many of the four cells next to the cell in column `x` of row
    /// `y` hold a room.
    pub open spec fn rooms_around(self, x: int, y: int) -> nat {
        (if self.taken(x + 1, y) { 1nat } else { 0nat }) + (if self.taken(x - 1, y) { 1nat } else { 0nat })
            + (if self.taken(x, y + 1) { 1nat } else { 0nat }) + (if self.taken(x, y - 1) {
            1nat
        } else {
            0nat
        })
    }

    /// Whether the cell in column `x` of row `y` holds a room.
    fn is_taken(&self, x: i32, y: i32) -> (taken: bool)
        requires
            self.cells().len() == 81,
        ensures
            taken == self.taken(x as int, y as int),
    {
        if x < 0 || x > 8 || y < 0 || y > 8 {
            return false;
        }
        self.rooms[(x * 9 + y) as usize].is_some()
    }

    /// A level of one room, the first, in the middle of the map. It is made
    /// of the first picture; every other room gets one of the pictures by
    /// chance.
    pub fn new(pictures: Vec<RoomPicture>) -> (builder: LevelBuilder)
        requires
            pictures@.len() > 0,
            forall|i: int| 0 <= i < pictures@.len() ==> (#[trigger] pictures@[i]).usable(),
        ensures
            builder.is_fresh(pictures@, 15),
            builder.pictures() == pictures@,
            builder.number_of_rooms() == 15,
            builder.spec_next_id() == 1,
            forall|x: int, y: int| on_map(x, y) ==> (#[trigger] builder.taken(x, y) <==> x == 4 && y == 4),
            builder.candidates() == seq![
                Vec2 { x: 3, y: 4 },
                Vec2 { x: 5, y: 4 },
                Vec2 { x: 4, y: 3 },
                Vec2 { x: 4, y: 5 },
            ],
            unlinked(builder.cells()),
    {
        let mut rooms: Vec<Option<RoomBuilder>> = Vec::new();
        let mut chosen: Vec<usize> = Vec::new();
        let mut i: usize = 0;
        while i < 81
            invariant
                i <= 81,
                rooms@.len() == i,
                chosen@.len() == i,
                forall|k: int| 0 <= k < i ==> (#[trigger] rooms@[k]) is None,
                forall|k: int| 0 <= k < i ==> (#[trigger] chosen@[k]) == 0,
            decreases 81 - i,
        {
            rooms.push(None);
            chosen.push(0);
            i += 1;
        }
        let start_room = RoomBuilder::new().with_grid_pos(Vec2::new(4, 4)).with_room_type(
            RoomType::Start,
        ).with_path(pictures[0].path.clone()).with_id(0);
        rooms[40] = Some(start_room);
        let mut builder = LevelBuilder {
            rooms,
            chosen,
            possible_positions: Vec::new(),
            number_of_rooms: 15,
            next_id: 1,
            pictures,
        };
        let free_positions = builder.free_neighbour_positions(Vec2::new(4, 4));
        builder.possible_positions = free_positions;
        proof {
            assert(builder.candidates() =~= seq![
                Vec2 { x: 3, y: 4 },
                Vec2 { x: 5, y: 4 },
                Vec2 { x: 4, y: 3 },
                Vec2 { x: 4, y: 5 },
            ]);
        }
        builder
    }

    pub fn with_number_of_rooms(self, number_of_rooms: usize) -> (builder: LevelBuilder)
        ensures
            builder.number_of_rooms() == number_of_rooms,
            builder.cells() == self.cells(),
            builder.choices() == self.choices(),
            builder.candidates() == self.candidates(),
            builder.pictures() == self.pictures(),
            builder.spec_next_id() == self.spec_next_id(),
            self.wf() ==> builder.wf(),
            unlinked(self.cells()) ==> unlinked(builder.cells()),
    {
        let mut builder = self;
        builder.number_of_rooms = number_of_rooms;
        builder
    }

    /// The free cells next to the cell at `pos`.
    fn free_neighbour_positions(&self, pos: Vec2) -> (free_positions: Vec<Vec2>)
        requires
            self.cells().len() == 81,
            on_map(pos.x as int, pos.y as int),
        ensures
            free_positions@ == self.free_around(pos.x as int, pos.y as int),
    {
        let mut free_positions: Vec<Vec2> = Vec::new();
        if pos.x - 1 >= 0 && !self.is_taken(pos.x - 1, pos.y) {
            free_positions.push(Vec2::new(pos.x - 1, pos.y));
        }
        if pos.x + 1 <= 8 && !self.is_taken(pos.x + 1, pos.y) {
            free_positions.push(Vec2::new(pos.x + 1, pos.y));
        }
        if pos.y - 1 >= 0 && !self.is_taken(pos.x, pos.y - 1) {
            free_positions.push(Vec2::new(pos.x, pos.y - 1));
        }
        if pos.y + 1 <= 8 && !self.is_taken(pos.x, pos.y + 1) {
            free_positions.push(Vec2::new(pos.x, pos.y + 1));
        }
        free_positions
    }

    /// The name of the room in column `x` of row `y`, if there is one.
    fn room_id_at(&self, x: i32, y: i32) -> (name: Option<RoomId>)
        requires
            self.cells().len() == 81,
        ensures
            name == name_at(self.cells(), x as int, y as int),
    {
        if x < 0 || x > 8 || y < 0 || y > 8 {
            return None;
        }
        match &self.rooms[(x * 9 + y) as usize] {
            Some(room) => Some(room.id()),
            None => None,
        }
    }

    /// Adds rooms until the level has as many as it is to have, or no
    /// candidate or name is left for another. Picture and candidate of each
    /// are drawn by chance; a candidate next to one room only is tried for
    /// up to four hundred times, and the last one drawn is taken.
    fn create_rooms(&mut self)
        requires
            old(self).wf(),
            unlinked(old(self).cells()),
        ensures
            final(self).wf(),
            unlinked(final(self).cells()),
            final(self).pictures() == old(self).pictures(),
            final(self).number_of_rooms() == old(self).number_of_rooms(),
            forall|x: int, y: int|
                on_map(x, y) && old(self).taken(x, y) ==> #[trigger] final(self).taken(x, y),
            old(self).spec_next_id() <= final(self).spec_next_id(),
            old(self).reaches(
                (final(self).spec_next_id() - old(self).spec_next_id()) as nat,
                *final(self),
            ),
            final(self).spec_next_id() - old(self).spec_next_id() <= old(self).rooms_to_add(),
            final(self).spec_next_id() - old(self).spec_next_id() == old(self).rooms_to_add()
                || final(self).candidates().len() == 0 || final(self).spec_next_id() == 255,
    {
        let rounds = if self.number_of_rooms > 0 {
            self.number_of_rooms - 1
        } else {
            0
        };
        let mut round: usize = 0;
        while round < rounds
            invariant
                self.wf(),
                unlinked(self.cells()),
                self.pictures() == old(self).pictures(),
                self.number_of_rooms() == old(self).number_of_rooms(),
                forall|x: int, y: int|
                    on_map(x, y) && old(self).taken(x, y) ==> #[trigger] self.taken(x, y),
                rounds == old(self).rooms_to_add(),
                round <= rounds,
                self.spec_next_id() == old(self).spec_next_id() + round,
                old(self).reaches(round as nat, *self),
            ensures
                round == rounds || self.candidates().len() == 0 || self.spec_next_id() == 255,
            decreases rounds - round,
        {
            if self.possible_positions.len() == 0 || self.next_id == 255 {
                break ;
            }
            let ghost head = *self;
            let picture = random_index(0, self.pictures.len());
            let mut new_room_index = random_index(0, self.possible_positions.len());
            let mut new_pos = self.possible_positions[new_room_index];
            let mut tries: usize = 1;
            while tries < 400 && self.neighbour_count(new_pos) >= 2
                invariant
                    self.wf(),
                    *self == head,
                    self.candidates().len() > 0,
                    new_room_index < self.candidates().len(),
                    new_pos == self.candidates()[new_room_index as int],
                decreases 400 - tries,
            {
                new_room_index = random_index(0, self.possible_positions.len());
                new_pos = self.possible_positions[new_room_index];
                tries += 1;
            }
            self.place_room(picture, new_room_index);
            proof {
                assert(old(self).reaches(round as nat, head) && head.places(
                    picture,
                    new_room_index,
                    *self,
                ));
                assert forall|x: int, y: int|
                    on_map(x, y) && old(self).taken(x, y) implies #[trigger] self.taken(x, y) by {
                    assert(head.taken(x, y));
                }
            }
            round += 1;
        }
    }

    /// Whether placing a room of picture `picture` on candidate `index`
    /// turns this layout into `after`: the cell of the candidate holds a
    /// planned room with the next name, every other cell is as it was; the
    /// candidate is none any more, and the free cells around the new room
    /// are candidates behind the others.
    pub open spec fn places(self, picture: usize, index: usize, after: LevelBuilder) -> bool {
        let pos = self.candidates()[index as int];
        let cell = cell_of(pos.x as int, pos.y as int);
        &&& after.cells().len() == 81
        &&& forall|c: int| 0 <= c < 81 && c != cell ==> #[trigger] after.cells()[c] == self.cells()[c]
        &&& after.cells()[cell] matches Some(room) && is_planned(
            room,
            self.pictures()[picture as int].path,
            pos,
            self.spec_next_id(),
        )
        &&& after.choices() == self.choices().update(cell, picture)
        &&& after.spec_next_id() == self.spec_next_id() + 1
        &&& after.candidates() == self.candidates().remove(index as int) + after.free_around(
            pos.x as int,
            pos.y as int,
        )
        &&& after.pictures() == self.pictures()
        &&& after.number_of_rooms() == self.number_of_rooms()
    }

    /// Whether `count` rooms, placed one after the other, each of some
    /// picture on some candidate, turn this layout into `after`.
    pub open spec fn reaches(self, count: nat, after: LevelBuilder) -> bool
        decreases count,
    {
        if count == 0 {
            after == self
        } else {
            exists|between: LevelBuilder, picture: usize, index: usize|
                self.reaches((count - 1) as nat, between) && picture < between.pictures().len()
                    && index < between.candidates().len() && #[trigger] between.places(
                    picture,
                    index,
                    after,
                )
        }
    }

    /// How many rooms are to be added to the first.
    pub open spec fn rooms_to_add(self) -> int {
        if self.number_of_rooms() > 0 {
            self.number_of_rooms() - 1
        } else {
            0
        }
    }

    /// Whether `count` rooms, placed one after the other, turn this layout
    /// into `laid`, and no room is left to place: `count` rooms were to be
    /// added, or `laid` has no candidate or no name left for another.
    pub open spec fn lays_out(self, count: nat, laid: LevelBuilder) -> bool {
        &&& self.reaches(count, laid)
        &&& count <= self.rooms_to_add()
        &&& (count == self.rooms_to_add() || laid.candidates().len() == 0 || laid.spec_next_id()
            == 255)
    }

    /// Whether this is the layout to start from, for a level of
    /// `number_of_rooms` rooms made of `pictures`: sound, with the first
    /// room alone, in the middle of the map and made of the first picture,
    /// and the four cells around it for candidates.
    pub open spec fn is_fresh(self, pictures: Seq<RoomPicture>, number_of_rooms: usize) -> bool {
        &&& self.wf()
        &&& unlinked(self.cells())
        &&& self.pictures() == pictures
        &&& self.number_of_rooms() == number_of_rooms
        &&& self.spec_next_id() == 1
        &&& forall|x: int, y: int|
            on_map(x, y) ==> (#[trigger] self.taken(x, y) <==> x == 4 && y == 4)
        &&& self.choices()[cell_of(4, 4)] == 0
        &&& self.cells()[cell_of(4, 4)] matches Some(start) && start.spec_path()
            == pictures[0].path
        &&& self.candidates() == seq![
            Vec2 { x: 3, y: 4 },
            Vec2 { x: 5, y: 4 },
            Vec2 { x: 4, y: 3 },
            Vec2 { x: 4, y: 5 },
        ]
    }

    /// Whether `built` is the room of the cell in column `x` of row `y` of
    /// this layout: the room planned there, with the rooms around the cell
    /// for neighbours, made of the picture chosen for the cell and drawn
    /// with `tile_set`.
    pub open spec fn room_made(self, x: int, y: int, tile_set: Rc<TileSet>, built: Room) -> bool {
        &&& built.tile_set == tile_set
        &&& self.cells()[cell_of(x, y)] matches Some(planned) && exists|linked: RoomBuilder|
            {
                &&& #[trigger] linked.same_but_neighbours(planned)
                &&& linked.neighbours() == links(self.cells(), x, y)
                &&& linked.builds(
                    *self.pictures()[self.choices()[cell_of(x, y)] as int].picture,
                    built,
                )
            }
    }

    /// Places a room of picture `picture` on candidate `index`.
    pub fn place_room(&mut self, picture: usize, index: usize)
        requires
            old(self).wf(),
            unlinked(old(self).cells()),
            picture < old(self).pictures().len(),
            index < old(self).candidates().len(),
            old(self).spec_next_id() < 255,
        ensures
            final(self).wf(),
            unlinked(final(self).cells()),
            old(self).places(picture, index, *final(self)),
            forall|x: int, y: int|
                on_map(x, y) && old(self).taken(x, y) ==> #[trigger] final(self).taken(x, y),
    {
        let new_pos = self.possible_positions[index];
        let id = self.next_id;
        let room = RoomBuilder::new().with_path(
            self.pictures[picture].path.clone(),
        ).with_grid_pos(new_pos).with_id(id);
        self.next_id += 1;
        let cell = (new_pos.x * 9 + new_pos.y) as usize;
        let ghost before = *self;
        self.rooms[cell] = Some(room);
        self.chosen[cell] = picture;
        // it is no candidate any more, but the free cells around it are
        self.possible_positions.remove(index);
        let free_positions = self.free_neighbour_positions(new_pos);
        let ghost kept = self.possible_positions@;
        let mut k: usize = 0;
        while k < free_positions.len()
            invariant
                k <= free_positions@.len(),
                self.rooms@ == before.rooms@.update(cell as int, Some(room)),
                self.chosen@ == before.chosen@.update(cell as int, picture),
                self.pictures == before.pictures,
                self.next_id == before.next_id,
                self.number_of_rooms == before.number_of_rooms,
                self.possible_positions@ == kept + free_positions@.subrange(0, k as int),
            decreases free_positions@.len() - k,
        {
            self.possible_positions.push(free_positions[k]);
            assert(self.possible_positions@ =~= kept + free_positions@.subrange(0, k + 1));
            k += 1;
        }
        proof {
            assert(free_positions@.subrange(0, free_positions@.len() as int)
                == free_positions@);
            assert(on_map(4, 4));
            assert(cell == cell_of(new_pos.x as int, new_pos.y as int));
            assert(cell != cell_of(4, 4));
            self.lemma_free_around(new_pos.x as int, new_pos.y as int);
            lemma_room_placed(
                old(self).cells(),
                old(self).choices(),
                old(self).pictures(),
                old(self).spec_next_id(),
                old(self).candidates(),
                index as int,
                picture,
                room,
                free_positions@,
            );
            assert(self.cells() == old(self).cells().update(cell as int, Some(room)));
            assert(self.candidates() == old(self).candidates().remove(index as int)
                + free_positions@);
            assert forall|x: int, y: int|
                on_map(x, y) && old(self).taken(x, y) implies #[trigger] self.taken(x, y) by {
                if cell_of(x, y) != cell {
                    assert(self.cells()[cell_of(x, y)] == old(self).cells()[cell_of(x, y)]);
                }
            }
            assert(is_planned(
                room,
                old(self).pictures()[picture as int].path,
                new_pos,
                old(self).spec_next_id(),
            ));
        }
    }

    /// The free cells around a cell are cells of the map, and none of them
    /// is the middle, which holds the first room.
    pub proof fn lemma_free_around(self, x: int, y: int)
        requires
            self.cells().len() == 81,
            self.cells()[cell_of(4, 4)] is Some,
        ensures
            forall|k: int|
                0 <= k < self.free_around(x, y).len() ==> on_map(
                    (#[trigger] self.free_around(x, y)[k]).x as int,
                    self.free_around(x, y)[k].y as int,
                ) && self.free_around(x, y)[k] != (Vec2 { x: 4, y: 4 }),
    {
        assert(self.taken(4, 4));
    }

    /// Tells every room which rooms lie next to it.
    fn set_room_doors(&mut self)
        requires
            old(self).wf(),
            unlinked(old(self).cells()),
        ensures
            final(self).wf(),
            all_linked(old(self).cells(), final(self).cells()),
            final(self).pictures() == old(self).pictures(),
            final(self).choices() == old(self).choices(),
            final(self).number_of_rooms() == old(self).number_of_rooms(),
    {
        let ghost before = self.cells();
        let mut i: usize = 0;
        while i < 81
            invariant
                i <= 81,
                before.len() == 81,
                self.cells().len() == 81,
                self.pictures() == old(self).pictures(),
                self.choices() == old(self).choices(),
                self.candidates() == old(self).candidates(),
                self.spec_next_id() == old(self).spec_next_id(),
                self.number_of_rooms() == old(self).number_of_rooms(),
                unlinked(before),
                forall|k: int| i <= k < 81 ==> #[trigger] self.cells()[k] == before[k],
                forall|k: int|
                    0 <= k < 81 ==> match #[trigger] before[k] {
                        Some(room) => self.cells()[k] matches Some(other)
                            && other.same_but_neighbours(room) && (k < i ==> other.neighbours()
                            == links(before, k / 9, k % 9)),
                        None => self.cells()[k] is None,
                    },
            decreases 81 - i,
        {
            let x = (i / 9) as i32;
            let y = (i % 9) as i32;
            proof {
                assert forall|xx: int, yy: int|
                    name_at(self.cells(), xx, yy) == name_at(before, xx, yy) by {
                    if on_map(xx, yy) {
                        let k = cell_of(xx, yy);
                        assert(0 <= k < 81);
                        match before[k] {
                            Some(room) => {
                                assert(self.cells()[k] is Some);
                            },
                            None => {},
                        }
                    }
                }
            }
            let west = self.room_id_at(x - 1, y);
            let east = self.room_id_at(x + 1, y);
            let north = self.room_id_at(x, y - 1);
            let south = self.room_id_at(x, y + 1);
            let ghost cells = self.cells();
            match self.rooms[i].take() {
                Some(taken) => {
                    let mut room = taken;
                    if let Some(id) = west {
                        room.add_neighbour(Neighbour::West(id));
                    }
                    if let Some(id) = east {
                        room.add_neighbour(Neighbour::East(id));
                    }
                    if let Some(id) = north {
                        room.add_neighbour(Neighbour::North(id));
                    }
                    if let Some(id) = south {
                        room.add_neighbour(Neighbour::South(id));
                    }
                    self.rooms[i] = Some(room);
                    proof {
                        assert(cells[i as int] == before[i as int]);
                    }
                },
                None => {},
            }
            proof {
                assert forall|k: int| i + 1 <= k < 81 implies #[trigger] self.cells()[k]
                    == before[k] by {
                    assert(self.cells()[k] == cells[k]);
                }
            }
            i += 1;
        }
        proof {
            let linked = self.cells();
            assert forall|x: int, y: int| on_map(x, y) implies match #[trigger] before[cell_of(x, y)] {
                Some(room) => linked[cell_of(x, y)] matches Some(other)
                    && other.same_but_neighbours(room) && other.neighbours() == links(
                    before,
                    x,
                    y,
                ),
                None => linked[cell_of(x, y)] is None,
            } by {
                let k = cell_of(x, y);
                assert(k / 9 == x && k % 9 == y);
            }
            lemma_linked_layout(
                before,
                linked,
                self.choices(),
                self.pictures(),
                self.spec_next_id(),
                self.candidates(),
            );
        }
    }

    /// Lays out the rooms by chance and makes each of its picture. The
    /// first room is the one to start in.
    pub fn build(self, tile_set: Rc<TileSet>) -> (level: Level)
        requires
            self.wf(),
            unlinked(self.cells()),
            tile_set.wf(),
            tile_set.walls@.len() >= 3,
            tile_set.grass@.len() >= 6,
        ensures
            level.wf(),
            level.spec_current_room_id() == 0,
            level.rooms()[0].room_type == RoomType::Start,
            level.rooms()[0].grid_pos == (Vec2 { x: 4, y: 4 }),
            forall|id: RoomId|
                level.rooms().contains_key(id) ==> on_map(
                    (#[trigger] level.rooms()[id]).grid_pos.x as int,
                    level.rooms()[id].grid_pos.y as int,
                ) && level.grid()@[level.rooms()[id].grid_pos.x as int]@[level.rooms()[id].grid_pos.y as int],
            level.all_doors_lead(),
            exists|laid: LevelBuilder, count: nat| #[trigger]
                self.lays_out(count, laid) && level.made_of(laid, tile_set),
    {
        broadcast use vstd::std_specs::hash::group_hash_axioms;

        let mut builder = self;
        builder.create_rooms();
        let ghost plan = builder;
        let ghost laid = builder.cells();
        builder.set_room_doors();

        let mut map_grid = [
            [false, false, false, false, false, false, false, false, false],
            [false, false, false, false, false, false, false, false, false],
            [false, false, false, false, false, false, false, false, false],
            [false, false, false, false, false, false, false, false, false],
            [false, false, false, false, false, false, false, false, false],
            [false, false, false, false, false, false, false, false, false],
            [false, false, false, false, false, false, false, false, false],
            [false, false, false, false, false, false, false, false, false],
            [false, false, false, false, false, false, false, false, false],
        ];
        let mut rooms: HashMap<RoomId, Room> = HashMap::new();
        let ghost cells = builder.cells();
        let mut i: usize = 0;
        while i < 81
            invariant
                i <= 81,
                builder.cells().len() == 81,
                cells.len() == 81,
                builder.choices().len() == 81,
                sound_layout(
                    cells,
                    builder.choices(),
                    builder.pictures(),
                    builder.spec_next_id(),
                    builder.candidates(),
                ),
                forall|k: int| i <= k < 81 ==> #[trigger] builder.cells()[k] == cells[k],
                all_linked(laid, cells),
                plan.cells() == laid,
                builder.choices() == plan.choices(),
                builder.pictures() == plan.pictures(),
                forall|gx: int, gy: int|
                    on_map(gx, gy) ==> #[trigger] map_grid@[gx]@[gy] == (cell_of(gx, gy) < i
                        && laid[cell_of(gx, gy)] is Some),
                forall|c: int|
                    0 <= c < i ==> (#[trigger] cells[c] matches Some(room) ==> plan.room_made(
                        c / 9,
                        c % 9,
                        tile_set,
                        rooms@[room.spec_id()],
                    )),
                tile_set.wf(),
                tile_set.walls@.len() >= 3,
                tile_set.grass@.len() >= 6,
                forall|id: RoomId| rooms@.contains_key(id) ==> room_linked(laid, #[trigger] rooms@[id]),
                forall|c: int|
                    0 <= c < i ==> (#[trigger] cells[c] matches Some(room) ==> rooms@.contains_key(
                        room.spec_id(),
                    ) && rooms@[room.spec_id()].grid_pos == (Vec2 {
                        x: (c / 9) as i32,
                        y: (c % 9) as i32,
                    })),
                forall|id: RoomId|
                    rooms@.contains_key(id) ==> (#[trigger] rooms@[id]).wf() && on_map(
                        rooms@[id].grid_pos.x as int,
                        rooms@[id].grid_pos.y as int,
                    ) && map_grid@[rooms@[id].grid_pos.x as int]@[rooms@[id].grid_pos.y as int],
                forall|id: RoomId|
                    rooms@.contains_key(id) ==> exists|k: int|
                        0 <= k < i && #[trigger] named(cells, k, id),
                i > 40 ==> rooms@.contains_key(0) && rooms@[0].room_type == RoomType::Start
                    && rooms@[0].grid_pos == (Vec2 { x: 4, y: 4 }),
            decreases 81 - i,
        {
            let x = i / 9;
            let y = i % 9;
            let ghost grid_before = map_grid@;
            let ghost rooms_before = rooms@;
            proof {
                assert(cell_of(x as int, y as int) == i);
                assert(on_map(x as int, y as int));
                assert(on_map(4, 4));
                assert(builder.cells()[i as int] == cells[i as int]);
            }
            let choice = builder.chosen[i];
            match builder.rooms[i].take() {
                Some(room) => {
                    proof {
                        assert(cells[cell_of(x as int, y as int)] == Some(room));
                        room.lemma_at_most_four();
                        assert(builder.pictures()[choice as int].usable());
                        assert(laid[cell_of(x as int, y as int)] is Some);
                        assert(room.neighbours() == links(laid, x as int, y as int));
                    }
                    let ghost given = room.neighbours();
                    let mut row = map_grid[x];
                    row[y] = true;
                    map_grid[x] = row;
                    let picture = &builder.pictures[choice].picture;
                    let (id, built) = room.build(picture, share(&tile_set));
                    proof {
                        assert(built.neighbours@ == given);
                        lemma_built_linked(laid, x as int, y as int, built);
                        assert forall|other: RoomId| rooms_before.contains_key(other) implies other
                            != id by {
                            let k = choose|k: int| 0 <= k < i && #[trigger] named(cells, k, other);
                            assert(cells[i as int] is Some);
                        }
                    }
                    rooms.insert(id, built);
                    proof {
                        assert forall|other: RoomId| rooms@.contains_key(other) implies room_linked(
                            laid,
                            #[trigger] rooms@[other],
                        ) by {
                            if other != id {
                                assert(rooms@[other] == rooms_before[other]);
                            }
                        }
                        assert forall|c: int| 0 <= c < i + 1 implies (#[trigger] cells[c] matches Some(
                            found,
                        ) ==> rooms@.contains_key(found.spec_id()) && rooms@[found.spec_id()].grid_pos
                            == (Vec2 { x: (c / 9) as i32, y: (c % 9) as i32 })) by {
                            if c < i {
                                if let Some(found) = cells[c] {
                                    assert(cell_of(c / 9, c % 9) == c);
                                    assert(on_map(c / 9, c % 9));
                                    assert(found.spec_id() != id);
                                    assert(rooms@[found.spec_id()] == rooms_before[found.spec_id()]);
                                }
                            }
                        }
                        assert forall|other: RoomId| rooms@.contains_key(other) implies (#[trigger] rooms@[other]).wf()
                            && on_map(
                            rooms@[other].grid_pos.x as int,
                            rooms@[other].grid_pos.y as int,
                        ) && map_grid@[rooms@[other].grid_pos.x as int]@[rooms@[other].grid_pos.y as int] by {
                            if other != id {
                                assert(rooms@[other] == rooms_before[other]);
                                let gx = rooms@[other].grid_pos.x as int;
                                let gy = rooms@[other].grid_pos.y as int;
                                assert(grid_before[gx]@[gy]);
                                if gx != x {
                                    assert(map_grid@[gx] == grid_before[gx]);
                                }
                            }
                        }
                        assert forall|c: int| 0 <= c < i + 1 implies (#[trigger] cells[c] matches Some(
                            found,
                        ) ==> plan.room_made(c / 9, c % 9, tile_set, rooms@[found.spec_id()])) by {
                            if let Some(found) = cells[c] {
                                if c < i {
                                    assert(cell_of(c / 9, c % 9) == c);
                                    assert(on_map(c / 9, c % 9));
                                    assert(found.spec_id() != id);
                                    assert(rooms@[found.spec_id()] == rooms_before[found.spec_id()]);
                                } else {
                                    assert(room.same_but_neighbours(laid[cell_of(x as int, y as int)]->0));
                                }
                            }
                        }
                        assert forall|gx: int, gy: int| on_map(gx, gy) implies #[trigger] map_grid@[gx]@[gy]
                            == (cell_of(gx, gy) < i + 1 && laid[cell_of(gx, gy)] is Some) by {
                            assert(grid_before[gx]@[gy] == (cell_of(gx, gy) < i && laid[cell_of(
                                gx,
                                gy,
                            )] is Some));
                            if gx != x {
                                assert(map_grid@[gx] == grid_before[gx]);
                            }
                        }
                        assert forall|other: RoomId| rooms@.contains_key(other) implies exists|k: int|
                            0 <= k < i + 1 && #[trigger] named(cells, k, other) by {
                            if other != id {
                                let k = choose|k: int|
                                    0 <= k < i && #[trigger] named(cells, k, other);
                                assert(named(cells, k, other));
                            } else {
                                assert(named(cells, i as int, other));
                            }
                        }
                    }
                },
                None => {
                    proof {
                        assert(cells[cell_of(x as int, y as int)] is None);
                        assert(laid[cell_of(x as int, y as int)] is None);
                    }
                },
            }
            proof {
                assert forall|k: int| i + 1 <= k < 81 implies #[trigger] builder.cells()[k]
                    == cells[k] by {}
            }
            i += 1;
        }
        let level = Level { map_grid, rooms, current: 0 };
        proof {
            let count = (plan.spec_next_id() - self.spec_next_id()) as nat;
            assert(self.lays_out(count, plan));
            assert forall|gx: int, gy: int| on_map(gx, gy) implies level.grid()@[gx]@[gy]
                == #[trigger] plan.taken(gx, gy) by {
                assert(map_grid@[gx]@[gy] == (cell_of(gx, gy) < 81 && laid[cell_of(gx, gy)] is Some));
            }
            assert forall|gx: int, gy: int| on_map(gx, gy) implies (#[trigger] plan.cells()[cell_of(
                gx,
                gy,
            )] matches Some(planned) ==> level.rooms().contains_key(planned.spec_id())
                && plan.room_made(gx, gy, tile_set, level.rooms()[planned.spec_id()])) by {
                let c = cell_of(gx, gy);
                assert(c / 9 == gx && c % 9 == gy);
                if let Some(planned) = laid[c] {
                    assert(cells[c] is Some);
                    assert(cells[c]->0.spec_id() == planned.spec_id());
                }
            }
            assert forall|id: RoomId| level.rooms().contains_key(id) implies exists|k: int|
                0 <= k < 81 && #[trigger] named(plan.cells(), k, id) by {
                let k = choose|k: int| 0 <= k < 81 && #[trigger] named(cells, k, id);
                assert(cell_of(k / 9, k % 9) == k);
                assert(on_map(k / 9, k % 9));
                assert(laid[cell_of(k / 9, k % 9)] is Some);
                assert(named(laid, k, id));
            }
            assert(level.made_of(plan, tile_set));
            assert forall|id: RoomId, k: int|
                level.rooms().contains_key(id) && 0 <= k < 4 && !(level.rooms()[id].neighbours@[k]
                    is Invalid) implies #[trigger] level.leads(id, k) by {
                let room = level.rooms()[id];
                let neighbour = room.neighbours@[k];
                assert(room_linked(laid, room));
                let x = room.grid_pos.x + step_to(neighbour).0;
                let y = room.grid_pos.y + step_to(neighbour).1;
                assert(name_at(laid, x, y) == Some(room_of(neighbour)));
                assert(on_map(x, y));
                assert(cell_of(x, y) / 9 == x && cell_of(x, y) % 9 == y);
                assert(cells[cell_of(x, y)] is Some);
            }
        }
        level
    }

    /// How many of the cells next to the cell at `pos` hold a room.
    fn neighbour_count(&self, pos: Vec2) -> (neighbours: usize)
        requires
            self.cells().len() == 81,
            on_map(pos.x as int, pos.y as int),
        ensures
            neighbours == self.rooms_around(pos.x as int, pos.y as int),
    {
        let mut neighbours: usize = 0;
        if self.is_taken(pos.x + 1, pos.y) {
            neighbours += 1;
        }
        if self.is_taken(pos.x - 1, pos.y) {
            neighbours += 1;
        }
        if self.is_taken(pos.x, pos.y + 1) {
            neighbours += 1;
        }
        if self.is_taken(pos.x, pos.y - 1) {
            neighbours += 1;
        }
        neighbours
    }
}

/// A room whose doors have been placed for neighbours that know the rooms
/// around its cell has a door to each of them, and each is the room next to
/// it on its side.
pub proof fn lemma_built_linked(laid: Seq<Option<RoomBuilder>>, x: int, y: int, room: Room)
    requires
        room.neighbours@ == links(laid, x, y),
        room.grid_pos == (Vec2 { x: x as i32, y: y as i32 }),
        on_map(x, y),
        doors_placed(room),
    ensures
        room_linked(laid, room),
{
    lemma_links(laid, x, y);
    let (free, tiles, width) = choose|
        free: Seq<(u32, u32)>,
        tiles: Seq<crate::level::room::Tiles>,
        width: int,
    |
        room.load_info.doors@ == (#[trigger] crate::level::builder::with_doors(
            fresh_plan(free, tiles),
            room.neighbours@,
            width,
        )).doors;
    let start = fresh_plan(free, tiles);
    assert forall|k: int| 0 <= k < 4 && !(#[trigger] room.neighbours@[k] is Invalid) implies names_room_beside(
        laid,
        room.grid_pos.x as int,
        room.grid_pos.y as int,
        room.neighbours@[k],
    ) && has_door_to(room.load_info.doors@, room.neighbours@[k]) by {
        crate::level::builder::lemma_doors_placed(start, room.neighbours@, width, k);
    }
}

/// Whether `room` is a room as it is planned for the cell at `pos`: of the
/// normal sort, without neighbours yet, with its picture in the file `path`
/// and with the name `id`.
pub open spec fn is_planned(room: RoomBuilder, path: String, pos: Vec2, id: RoomId) -> bool {
    &&& room.neighbours() == no_neighbours()
    &&& room.room_type() == RoomType::Normal
    &&& room.grid_pos() == pos
    &&& room.spec_path() == path
    &&& room.spec_id() == id
}

/// Placing a planned room with the next name on a candidate, and making
/// candidates of cells of the map other than the middle, keeps the layout
/// sound and its rooms without neighbours.
pub proof fn lemma_room_placed(
    cells: Seq<Option<RoomBuilder>>,
    choices: Seq<usize>,
    pictures: Seq<RoomPicture>,
    next_id: u8,
    candidates: Seq<Vec2>,
    index: int,
    picture: usize,
    room: RoomBuilder,
    free: Seq<Vec2>,
)
    requires
        sound_layout(cells, choices, pictures, next_id, candidates),
        unlinked(cells),
        0 <= index < candidates.len(),
        picture < pictures.len(),
        next_id < 255,
        room.grid_pos() == candidates[index],
        room.spec_id() == next_id,
        room.neighbours() == no_neighbours(),
        forall|k: int|
            0 <= k < free.len() ==> on_map((#[trigger] free[k]).x as int, free[k].y as int)
                && free[k] != (Vec2 { x: 4, y: 4 }),
    ensures
        sound_layout(
            cells.update(cell_of(candidates[index].x as int, candidates[index].y as int), Some(room)),
            choices.update(
                cell_of(candidates[index].x as int, candidates[index].y as int),
                picture,
            ),
            pictures,
            (next_id + 1) as u8,
            candidates.remove(index) + free,
        ),
        unlinked(
            cells.update(cell_of(candidates[index].x as int, candidates[index].y as int), Some(room)),
        ),
{
    let pos = candidates[index];
    let cell = cell_of(pos.x as int, pos.y as int);
    let placed = cells.update(cell, Some(room));
    let chosen = choices.update(cell, picture);
    let kept = candidates.remove(index);
    let later = kept + free;
    assert(on_map(pos.x as int, pos.y as int));
    assert(on_map(4, 4));
    assert(cell != cell_of(4, 4));
    assert forall|x: int, y: int| on_map(x, y) implies (#[trigger] placed[cell_of(x, y)] matches Some(
        found,
    ) ==> found.grid_pos() == (Vec2 { x: x as i32, y: y as i32 }) && found.spec_id() < next_id + 1
        && chosen[cell_of(x, y)] < pictures.len()) by {
        if cell_of(x, y) != cell {
            assert(placed[cell_of(x, y)] == cells[cell_of(x, y)]);
        }
    }
    assert forall|i: int, j: int| 0 <= i < 81 && 0 <= j < 81 && i != j implies (#[trigger] placed[i] matches Some(
        a,
    ) ==> (#[trigger] placed[j] matches Some(b) ==> a.spec_id() != b.spec_id())) by {
        assert(cell_of(i / 9, i % 9) == i && cell_of(j / 9, j % 9) == j);
        assert(on_map(i / 9, i % 9) && on_map(j / 9, j % 9));
        if i != cell {
            assert(placed[i] == cells[cell_of(i / 9, i % 9)]);
        }
        if j != cell {
            assert(placed[j] == cells[cell_of(j / 9, j % 9)]);
        }
    }
    assert forall|n: int| 0 <= n < later.len() implies on_map(
        (#[trigger] later[n]).x as int,
        later[n].y as int,
    ) && later[n] != (Vec2 { x: 4, y: 4 }) by {
        if n < kept.len() {
            if n < index {
                assert(kept[n] == candidates[n]);
            } else {
                assert(kept[n] == candidates[n + 1]);
            }
        } else {
            assert(later[n] == free[n - kept.len()]);
        }
    }
    assert forall|i: int| 0 <= i < placed.len() implies (#[trigger] placed[i] matches Some(found)
        ==> found.neighbours() == no_neighbours()) by {
        if i != cell {
            assert(placed[i] == cells[i]);
        }
    }
}

/// Telling the rooms their neighbours keeps the layout sound.
pub proof fn lemma_linked_layout(
    cells: Seq<Option<RoomBuilder>>,
    linked: Seq<Option<RoomBuilder>>,
    choices: Seq<usize>,
    pictures: Seq<RoomPicture>,
    next_id: u8,
    candidates: Seq<Vec2>,
)
    requires
        sound_layout(cells, choices, pictures, next_id, candidates),
        all_linked(cells, linked),
    ensures
        sound_layout(linked, choices, pictures, next_id, candidates),
{
    assert(on_map(4, 4));
    assert forall|x: int, y: int| on_map(x, y) implies (#[trigger] linked[cell_of(x, y)] matches Some(
        room,
    ) ==> room.grid_pos() == (Vec2 { x: x as i32, y: y as i32 }) && room.spec_id() < next_id
        && choices[cell_of(x, y)] < pictures.len()) by {
        assert(cells[cell_of(x, y)] is Some || cells[cell_of(x, y)] is None);
    }
    assert forall|i: int, j: int| 0 <= i < 81 && 0 <= j < 81 && i != j implies (#[trigger] linked[i] matches Some(
        a,
    ) ==> (#[trigger] linked[j] matches Some(b) ==> a.spec_id() != b.spec_id())) by {
        assert(cells[cell_of(i / 9, i % 9)] is Some || cells[cell_of(i / 9, i % 9)] is None);
        assert(cells[cell_of(j / 9, j % 9)] is Some || cells[cell_of(j / 9, j % 9)] is None);
    }
}

pub struct Level {
    /// Which cells of the map hold a room, column by column.
    pub map_grid: [[bool; 9]; 9],
    rooms: HashMap<RoomId, Room>,
    current: RoomId,
}

/// What the map needs to know of a level.
pub struct MapInfo<'a> {
    pub map_grid: &'a [[bool; 9]; 9],
    pub current_grid_pos: Vec2,
}

impl Level {
    /// Which cells of the map hold a room.
    pub closed spec fn grid(self) -> [[bool; 9]; 9] {
        self.map_grid
    }

    pub closed spec fn rooms(self) -> Map<RoomId, Room> {
        self.rooms@
    }

    pub closed spec fn spec_current_room_id(self) -> RoomId {
        self.current
    }

    /// Every room is sound, and the current room is one of them.
    pub open spec fn wf(self) -> bool {
        &&& self.rooms().contains_key(self.spec_current_room_id())
        &&& forall|id: RoomId| self.rooms().contains_key(id) ==> (#[trigger] self.rooms()[id]).wf()
    }

    /// Whether neighbour `k` of room `id` is a room of the level that lies
    /// next to it on the map, on the side that the neighbour says, and room
    /// `id` has a door that leads there.
    pub open spec fn leads(self, id: RoomId, k: int) -> bool {
        let room = self.rooms()[id];
        let neighbour = room.neighbours@[k];
        let other = room_of(neighbour);
        &&& self.rooms().contains_key(other)
        &&& self.rooms()[other].grid_pos.x == room.grid_pos.x + step_to(neighbour).0
        &&& self.rooms()[other].grid_pos.y == room.grid_pos.y + step_to(neighbour).1
        &&& has_door_to(room.load_info.doors@, neighbour)
    }

    /// Every neighbour of every room is a room of the level next to it, with
    /// a door that leads there.
    pub open spec fn all_doors_lead(self) -> bool {
        forall|id: RoomId, k: int|
            self.rooms().contains_key(id) && 0 <= k < 4 && !(self.rooms()[id].neighbours@[k]
                is Invalid) ==> #[trigger] self.leads(id, k)
    }

    pub open spec fn spec_current_room(self) -> Room {
        self.rooms()[self.spec_current_room_id()]
    }

    /// Whether this is the level of the layout `laid`, drawn with
    /// `tile_set`: its map shows which cells hold a room; the room of every
    /// such cell is a room of the level, under its name, made of its
    /// picture; and the level has no other room.
    pub open spec fn made_of(self, laid: LevelBuilder, tile_set: Rc<TileSet>) -> bool {
        &&& forall|x: int, y: int|
            on_map(x, y) ==> self.grid()@[x]@[y] == #[trigger] laid.taken(x, y)
        &&& forall|x: int, y: int|
            on_map(x, y) ==> (#[trigger] laid.cells()[cell_of(x, y)] matches Some(planned)
                ==> self.rooms().contains_key(planned.spec_id()) && laid.room_made(
                x,
                y,
                tile_set,
                self.rooms()[planned.spec_id()],
            ))
        &&& forall|id: RoomId|
            self.rooms().contains_key(id) ==> exists|k: int|
                0 <= k < 81 && #[trigger] named(laid.cells(), k, id)
    }

    /// A level of up to `room_count` rooms, laid out by chance and made of
    /// the pictures given, the first room of the first picture.
    pub fn new(room_count: usize, pictures: Vec<RoomPicture>, tile_set: Rc<TileSet>) -> (level:
        Level)
        requires
            pictures@.len() > 0,
            forall|i: int| 0 <= i < pictures@.len() ==> (#[trigger] pictures@[i]).usable(),
            tile_set.wf(),
            tile_set.walls@.len() >= 3,
            tile_set.grass@.len() >= 6,
        ensures
            level.wf(),
            level.spec_current_room_id() == 0,
            level.rooms()[0].room_type == RoomType::Start,
            level.rooms()[0].grid_pos == (Vec2 { x: 4, y: 4 }),
            forall|id: RoomId|
                level.rooms().contains_key(id) ==> on_map(
                    (#[trigger] level.rooms()[id]).grid_pos.x as int,
                    level.rooms()[id].grid_pos.y as int,
                ) && level.grid()@[level.rooms()[id].grid_pos.x as int]@[level.rooms()[id].grid_pos.y as int],
            level.all_doors_lead(),
            exists|first: LevelBuilder, laid: LevelBuilder, count: nat|
                first.is_fresh(pictures@, room_count) && #[trigger] first.lays_out(count, laid)
                    && level.made_of(laid, tile_set),
    {
        let fresh = LevelBuilder::new(pictures);
        let first = fresh.with_number_of_rooms(room_count);
        let level = first.build(tile_set);
        proof {
            assert forall|x: int, y: int| first.taken(x, y) == fresh.taken(x, y) by {}
            let (laid, count) = choose|laid: LevelBuilder, count: nat| #[trigger]
                first.lays_out(count, laid) && level.made_of(laid, tile_set);
            assert(first.is_fresh(pictures@, room_count) && first.lays_out(count, laid)
                && level.made_of(laid, tile_set));
        }
        level
    }

    /// A level of the rooms given, of which `current` is the first to be
    /// shown.
    pub fn assemble(map_grid: [[bool; 9]; 9], rooms: HashMap<RoomId, Room>, current: RoomId) -> (level:
        Level)
        ensures
            level.grid() == map_grid,
            level.rooms() == rooms@,
            level.spec_current_room_id() == current,
    {
        Level { map_grid, rooms, current }
    }

    /// Whether the level has a room with this name.
    pub fn has_room(&self, id: RoomId) -> (found: bool)
        ensures
            found == self.rooms().contains_key(id),
    {
        broadcast use vstd::std_specs::hash::group_hash_axioms;

        self.rooms.contains_key(&id)
    }

    /// The room with this name, if the level has one.
    pub fn get_room(&self, id: RoomId) -> (room: Option<&Room>)
        ensures
            room is Some <==> self.rooms().contains_key(id),
            room matches Some(found) ==> *found == self.rooms()[id],
    {
        broadcast use vstd::std_specs::hash::group_hash_axioms;

        self.rooms.get(&id)
    }

    pub fn current_room(&self) -> (room: &Room)
        requires
            self.rooms().contains_key(self.spec_current_room_id()),
        ensures
            *room == self.spec_current_room(),
    {
        broadcast use vstd::std_specs::hash::group_hash_axioms;

        self.rooms.get(&self.current).unwrap()
    }

    pub fn current_room_id(&self) -> (id: RoomId)
        ensures
            id == self.spec_current_room_id(),
    {
        self.current
    }

    pub fn set_current_room(&mut self, id: RoomId)
        ensures
            final(self).spec_current_room_id() == id,
            final(self).rooms() == old(self).rooms(),
            final(self).grid() == old(self).grid(),
    {
        self.current = id;
    }

    /// Lets one tick pass. A level has nothing that changes with time.
    pub fn update(&mut self)
        ensures
            *final(self) == *old(self),
    {
    }

    /// Draws the current room on a screen scrolled to `scroll`.
    pub fn render(&self, scroll: Vec2, screen: &mut Screen)
        requires
            self.wf(),
            old(screen).wf(),
            -0x4000_0000 <= scroll.x <= 0x4000_0000,
            -0x4000_0000 <= scroll.y <= 0x4000_0000,
            old(screen).spec_width() <= 0x2000_0000,
            old(screen).spec_height() <= 0x2000_0000,
        ensures
            final(screen).wf(),
            final(screen).spec_width() == old(screen).spec_width(),
            final(screen).spec_height() == old(screen).spec_height(),
            final(screen).spec_offset() == scroll,
            forall|sx: int, sy: int|
                0 <= sx < old(screen).spec_width() && 0 <= sy < old(screen).spec_height()
                    ==> #[trigger] final(screen).pixel(sx, sy) == self.spec_current_room().shown_at(
                    sx + scroll.x,
                    sy + scroll.y,
                ),
    {
        self.current_room().render(scroll, screen);
    }

    /// Width and height of the current room, in pixels.
    pub fn dimensions(&self) -> (size: Vec2)
        requires
            self.rooms().contains_key(self.spec_current_room_id()),
        ensures
            size == self.spec_current_room().spec_dimensions(),
    {
        self.current_room().dimensions()
    }

    pub fn map_info(&self) -> (info: MapInfo<'_>)
        requires
            self.rooms().contains_key(self.spec_current_room_id()),
        ensures
            *info.map_grid == self.grid(),
            info.current_grid_pos == self.spec_current_room().grid_pos,
    {
        MapInfo { map_grid: &self.map_grid, current_grid_pos: self.current_room().grid_pos }
    }
}

} // verus!
