//! One room: a grid of tiles, its doors and its neighbours.

use vstd::prelude::*;
use std::rc::Rc;
use crate::entity::{Direction, RoomId};
use crate::fixed::{clamp_i32, saturate};
use crate::graphics::pixels::Color;
use crate::graphics::screen::{oriented, Screen};
use crate::level::tile::Tile;
use crate::vector::Vec2;

verus! {

/// How many neighbours a room can have.
pub const MAX_NEIGHBOUR: usize = 4;

/// The side of a tile, in units.
pub const TILE_UNITS: i64 = 16000;

/// The side of a tile, in pixels.
pub const TILE_PIXELS: i64 = 16;

#[derive(Eq, PartialEq, Debug, Copy, Clone, Structural)]
pub enum Neighbour {
    North(RoomId),
    South(RoomId),
    East(RoomId),
    West(RoomId),
    Invalid,
}

impl Default for Neighbour {
    fn default() -> (neighbour: Self)
        ensures
            neighbour == Neighbour::Invalid,
    {
        Neighbour::Invalid
    }
}

#[derive(Eq, PartialEq, Debug, Copy, Clone, Structural)]
pub enum RoomType {
    Start,
    Normal,
}

impl Default for RoomType {
    fn default() -> (room_type: Self)
        ensures
            room_type == RoomType::Normal,
    {
        RoomType::Normal
    }
}

/// What a cell of the grid holds. The numbers pick one of several looks.
#[derive(Eq, PartialEq, Debug, Copy, Clone, Structural)]
pub enum Tiles {
    Empty,
    Grass(usize),
    Ground,
    Wall(usize, Direction),
    WallCorner(Direction, Direction),
    SpawnPoint(usize),
    Door(Direction),
}

impl From<u32> for Tiles {
    /// The cell that a number of a room description stands for.
    fn from(num: u32) -> (tiles: Tiles) {
        match num {
            1 => Tiles::Ground,
            2 => Tiles::Grass(0),
            3 => Tiles::Wall(0, Direction::Up),
            4 => Tiles::WallCorner(Direction::Up, Direction::Left),
            5 => Tiles::SpawnPoint(0),
            6 => Tiles::Door(Direction::Up),
            _ => Tiles::Empty,
        }
    }
}

impl vstd::std_specs::convert::FromSpecImpl<u32> for Tiles {
    open spec fn obeys_from_spec() -> bool {
        true
    }

    open spec fn from_spec(num: u32) -> Tiles {
        if num == 1 {
            Tiles::Ground
        } else if num == 2 {
            Tiles::Grass(0)
        } else if num == 3 {
            Tiles::Wall(0, Direction::Up)
        } else if num == 4 {
            Tiles::WallCorner(Direction::Up, Direction::Left)
        } else if num == 5 {
            Tiles::SpawnPoint(0)
        } else if num == 6 {
            Tiles::Door(Direction::Up)
        } else {
            Tiles::Empty
        }
    }
}

/// The looks that the cells of a room choose from.
pub struct TileSet {
    pub grass: Vec<Tile>,
    pub walls: Vec<Tile>,
    /// Top left, bottom left, top right, bottom right.
    pub corners: Vec<Tile>,
    pub door: Tile,
    /// What lies outside the room and in cells that hold nothing.
    pub void: Tile,
}

/// Every one of the tiles is as large as a cell of the grid.
pub open spec fn all_cell_sized(tiles: Seq<Tile>) -> bool {
    forall|i: int| 0 <= i < tiles.len() ==> (#[trigger] tiles[i]).sprite.spec_size() == TILE_PIXELS
}

/// Whether every one of the tiles is as large as a cell of the grid.
pub fn tiles_cell_sized(tiles: &Vec<Tile>) -> (sized: bool)
    ensures
        sized == all_cell_sized(tiles@),
{
    let mut i: usize = 0;
    while i < tiles.len()
        invariant
            i <= tiles@.len(),
            forall|k: int| 0 <= k < i ==> (#[trigger] tiles@[k]).sprite.spec_size() == TILE_PIXELS,
        decreases tiles@.len() - i,
    {
        if tiles[i].sprite.size() != 16 {
            return false;
        }
        i += 1;
    }
    true
}

impl TileSet {
    /// There are four corners, the void does not block the way, and every
    /// look is as large as a cell of the grid.
    pub open spec fn wf(self) -> bool {
        &&& self.corners@.len() == 4
        &&& !self.void.solid
        &&& all_cell_sized(self.grass@)
        &&& all_cell_sized(self.walls@)
        &&& all_cell_sized(self.corners@)
        &&& self.door.sprite.spec_size() == TILE_PIXELS
        &&& self.void.sprite.spec_size() == TILE_PIXELS
    }

    /// Whether the set is sound.
    pub fn is_sound(&self) -> (sound: bool)
        ensures
            sound == self.wf(),
    {
        self.corners.len() == 4 && !self.void.solid && tiles_cell_sized(&self.grass)
            && tiles_cell_sized(&self.walls) && tiles_cell_sized(&self.corners)
            && self.door.sprite.size() == 16 && self.void.sprite.size() == 16
    }

    /// Whether the set has a look for the cell.
    pub open spec fn covers(self, cell: Tiles) -> bool {
        match cell {
            Tiles::Wall(i, _) => i < self.walls@.len(),
            Tiles::Grass(i) => i < self.grass@.len(),
            Tiles::SpawnPoint(i) => i < self.grass@.len(),
            _ => true,
        }
    }

    /// The look and the orientation of a cell.
    pub open spec fn look(self, cell: Tiles) -> (Tile, Direction) {
        match cell {
            Tiles::Wall(i, o) => (self.walls@[i as int], o),
            Tiles::WallCorner(d1, d2) => match (d1, d2) {
                (Direction::Up, Direction::Left) => (self.corners@[0], Direction::Up),
                (Direction::Down, Direction::Left) => (self.corners@[1], Direction::Up),
                (Direction::Up, Direction::Right) => (self.corners@[2], Direction::Up),
                (Direction::Down, Direction::Right) => (self.corners@[3], Direction::Up),
                _ => (self.void, Direction::Up),
            },
            Tiles::Grass(i) => (self.grass@[i as int], Direction::Up),
            Tiles::SpawnPoint(i) => (self.grass@[i as int], Direction::Up),
            Tiles::Door(o) => (self.door, o),
            _ => (self.void, Direction::Up),
        }
    }
}

/// Where the doors of a room are, and where each leads: north, east, south,
/// west.
#[derive(Debug, Copy, Clone)]
pub struct LoadInfo {
    pub doors: [Option<((u32, u32), RoomId)>; 4],
}

impl Default for LoadInfo {
    fn default() -> (info: Self)
        ensures
            forall|i: int| 0 <= i < 4 ==> info.doors@[i] is None,
    {
        LoadInfo { doors: [None, None, None, None] }
    }
}

pub struct Room {
    /// Width and height, in tiles.
    pub dimensions: Vec2,
    pub neighbours: [Neighbour; 4],
    /// The cells, row after row.
    pub tiles: Vec<Tiles>,
    pub room_type: RoomType,
    /// Where the room lies on the map of the level.
    pub grid_pos: Vec2,
    pub load_info: LoadInfo,
    pub tile_set: Rc<TileSet>,
}

/// The index of the first spawn point among `cells`, or their number where
/// there is none.
pub open spec fn first_spawn_point(cells: Seq<Tiles>) -> int
    decreases cells.len(),
{
    if cells.len() == 0 {
        0
    } else if cells[0] is SpawnPoint {
        0
    } else {
        1 + first_spawn_point(cells.drop_first())
    }
}

/// The column or row of the grid that a pixel coordinate falls into.
pub fn floor_to_cell(pixel: i64) -> (cell: i64)
    requires
        -0x1_0000_0000 <= pixel <= 0x1_0000_0000,
    ensures
        cell == pixel as int / 16,
{
    if pixel >= 0 {
        pixel / 16
    } else {
        -((-pixel + 15) / 16)
    }
}

impl Room {
    /// The grid is as large as the dimensions say, which are small enough
    /// for a screen to be scrolled across the room, and the tile set has a
    /// look for every cell.
    pub open spec fn wf(self) -> bool {
        &&& 0 <= self.dimensions.x <= 0x0400_0000
        &&& 0 <= self.dimensions.y <= 0x0400_0000
        &&& self.tiles@.len() == self.dimensions.x * self.dimensions.y
        &&& self.tile_set.wf()
        &&& forall|i: int| 0 <= i < self.tiles@.len() ==> self.tile_set.covers(#[trigger] self.tiles@[i])
    }

    /// Whether the grid has a cell in column `x` of row `y`.
    pub open spec fn inside(self, x: int, y: int) -> bool {
        0 <= x < self.dimensions.x && 0 <= y < self.dimensions.y
    }

    /// The look and orientation of the cell in column `x` of row `y`; the
    /// void outside the grid.
    pub open spec fn look_at(self, x: int, y: int) -> (Tile, Direction) {
        if self.inside(x, y) {
            self.tile_set.look(self.tiles@[x + y * self.dimensions.x])
        } else {
            (self.tile_set.void, Direction::Up)
        }
    }

    /// Whether the cell in column `x` of row `y` blocks the way.
    pub open spec fn solid_at(self, x: int, y: int) -> bool {
        self.look_at(x, y).0.solid
    }

    /// Width and height in pixels, kept in the coordinate range.
    pub open spec fn spec_dimensions(self) -> Vec2 {
        Vec2 {
            x: clamp_i32(self.dimensions.x * TILE_PIXELS) as i32,
            y: clamp_i32(self.dimensions.y * TILE_PIXELS) as i32,
        }
    }

    /// The top-left corner of the first spawn point, in units; the origin
    /// where the room has none.
    pub open spec fn spec_middle_point(self) -> Vec2 {
        let i = first_spawn_point(self.tiles@);
        if i < self.tiles@.len() {
            Vec2 {
                x: clamp_i32((i % self.dimensions.x as int) * TILE_UNITS) as i32,
                y: clamp_i32((i / self.dimensions.x as int) * TILE_UNITS) as i32,
            }
        } else {
            Vec2 { x: 0, y: 0 }
        }
    }

    /// The colour that the room shows at a point, in pixels of the room:
    /// that of the look of the cell that the point falls into, turned as
    /// the cell says.
    pub open spec fn shown_at(self, x: int, y: int) -> Color {
        let column = x / (TILE_PIXELS as int);
        let row = y / (TILE_PIXELS as int);
        let (tile, orientation) = self.look_at(column, row);
        let (px, py) = oriented(
            orientation,
            TILE_PIXELS as int,
            x - column * TILE_PIXELS,
            y - row * TILE_PIXELS,
        );
        tile.sprite.pixel(px, py)
    }

    /// Scrolls the screen to `offset` and draws every cell that shows on
    /// it, and the void around the room.
    pub fn render(&self, offset: Vec2, screen: &mut Screen)
        requires
            self.wf(),
            old(screen).wf(),
            -0x4000_0000 <= offset.x <= 0x4000_0000,
            -0x4000_0000 <= offset.y <= 0x4000_0000,
            old(screen).spec_width() <= 0x2000_0000,
            old(screen).spec_height() <= 0x2000_0000,
        ensures
            final(screen).wf(),
            final(screen).spec_width() == old(screen).spec_width(),
            final(screen).spec_height() == old(screen).spec_height(),
            final(screen).spec_offset() == offset,
            forall|sx: int, sy: int|
                0 <= sx < old(screen).spec_width() && 0 <= sy < old(screen).spec_height()
                    ==> #[trigger] final(screen).pixel(sx, sy) == self.shown_at(
                    sx + offset.x,
                    sy + offset.y,
                ),
    {
        screen.set_offset(offset);
        let width = screen.dimensions().0;
        let height = screen.dimensions().1;
        let x0 = floor_to_cell(offset.x as i64);
        let y0 = floor_to_cell(offset.y as i64);
        let x1 = floor_to_cell(offset.x as i64 + width as i64);
        let y1 = floor_to_cell(offset.y as i64 + height as i64);
        let ghost before = *screen;
        let mut y = y0;
        while y <= y1
            invariant
                self.wf(),
                screen.wf(),
                screen.same_frame(before),
                before.spec_offset() == offset,
                width == before.spec_width(),
                height == before.spec_height(),
                width <= 0x2000_0000,
                height <= 0x2000_0000,
                -0x4000_0000 <= offset.x <= 0x4000_0000,
                -0x4000_0000 <= offset.y <= 0x4000_0000,
                x0 == offset.x as int / 16,
                y0 == offset.y as int / 16,
                x1 == (offset.x + width) / 16,
                y1 == (offset.y + height) / 16,
                y0 <= y <= y1 + 1,
                forall|sx: int, sy: int|
                    0 <= sx < width && 0 <= sy < height ==> #[trigger] screen.pixel(sx, sy) == if (
                    sy + offset.y) / 16 < y {
                        self.shown_at(sx + offset.x, sy + offset.y)
                    } else {
                        before.pixel(sx, sy)
                    },
            decreases y1 + 1 - y,
        {
            let mut x = x0;
            while x <= x1
                invariant
                    self.wf(),
                    screen.wf(),
                    screen.same_frame(before),
                    before.spec_offset() == offset,
                    width == before.spec_width(),
                    height == before.spec_height(),
                    width <= 0x2000_0000,
                    height <= 0x2000_0000,
                    -0x4000_0000 <= offset.x <= 0x4000_0000,
                    -0x4000_0000 <= offset.y <= 0x4000_0000,
                    x0 == offset.x as int / 16,
                    y0 == offset.y as int / 16,
                    x1 == (offset.x + width) / 16,
                    y1 == (offset.y + height) / 16,
                    y0 <= y <= y1,
                    x0 <= x <= x1 + 1,
                    forall|sx: int, sy: int|
                        0 <= sx < width && 0 <= sy < height ==> #[trigger] screen.pixel(sx, sy)
                            == if (sy + offset.y) / 16 < y || ((sy + offset.y) / 16 == y && (sx
                            + offset.x) / 16 < x) {
                            self.shown_at(sx + offset.x, sy + offset.y)
                        } else {
                            before.pixel(sx, sy)
                        },
                decreases x1 + 1 - x,
            {
                let (tile, orientation) = self.get_tile_and_orientation(x as i32, y as i32);
                let ghost drawn_on = *screen;
                proof {
                    self.lemma_looks_cell_sized(x as int, y as int);
                }
                tile.render(x as i32, y as i32, screen, orientation);
                proof {
                    assert forall|sx: int, sy: int|
                        0 <= sx < width && 0 <= sy < height implies #[trigger] screen.pixel(sx, sy)
                        == if (sy + offset.y) / 16 < y || ((sy + offset.y) / 16 == y && (sx
                        + offset.x) / 16 < x + 1) {
                        self.shown_at(sx + offset.x, sy + offset.y)
                    } else {
                        before.pixel(sx, sy)
                    } by {
                        let origin = Tile::spec_pixel_origin(x as i32, y as i32);
                        assert(screen.pixel(sx, sy) == drawn_on.tile_drawn(
                            origin,
                            tile.sprite,
                            orientation,
                            sx,
                            sy,
                        ));
                    }
                }
                x += 1;
            }
            y += 1;
        }
    }

    /// Outside the grid nothing blocks the way.
    pub proof fn lemma_outside_not_solid(self, x: int, y: int)
        requires
            self.wf(),
            !self.inside(x, y),
        ensures
            !self.solid_at(x, y),
    {
    }

    /// Every look that the room shows is as large as a cell of the grid.
    pub proof fn lemma_looks_cell_sized(self, x: int, y: int)
        requires
            self.wf(),
        ensures
            self.look_at(x, y).0.sprite.spec_size() == TILE_PIXELS,
    {
        if self.inside(x, y) {
            crate::graphics::sprite::lemma_cell_in_grid(
                x,
                y,
                self.dimensions.x as int,
                self.dimensions.y as int,
            );
            let cell = self.tiles@[x + y * self.dimensions.x];
        }
    }

    fn cell(&self, x: i32, y: i32) -> (cell: &Tiles)
        requires
            self.wf(),
            self.inside(x as int, y as int),
        ensures
            *cell == self.tiles@[x + y * self.dimensions.x],
            self.tile_set.covers(*cell),
    {
        proof {
            crate::graphics::sprite::lemma_cell_in_grid(
                x as int,
                y as int,
                self.dimensions.x as int,
                self.dimensions.y as int,
            );
        }
        let count = self.tiles.len();
        let index: u64 = x as u64 + y as u64 * self.dimensions.x as u64;
        &self.tiles[index as usize]
    }

    pub fn get_tile_and_orientation(&self, x: i32, y: i32) -> (found: (&Tile, Direction))
        requires
            self.wf(),
        ensures
            *found.0 == self.look_at(x as int, y as int).0,
            found.1 == self.look_at(x as int, y as int).1,
    {
        if x < 0 || x >= self.dimensions.x || y < 0 || y >= self.dimensions.y {
            return (&self.tile_set.void, Direction::Up);
        }
        let set = &*self.tile_set;
        match self.cell(x, y) {
            Tiles::Wall(i, o) => (&set.walls[*i], *o),
            Tiles::WallCorner(d1, d2) => match (*d1, *d2) {
                (Direction::Up, Direction::Left) => (&set.corners[0], Direction::Up),
                (Direction::Down, Direction::Left) => (&set.corners[1], Direction::Up),
                (Direction::Up, Direction::Right) => (&set.corners[2], Direction::Up),
                (Direction::Down, Direction::Right) => (&set.corners[3], Direction::Up),
                _ => (&set.void, Direction::Up),
            },
            Tiles::Grass(i) => (&set.grass[*i], Direction::Up),
            Tiles::SpawnPoint(i) => (&set.grass[*i], Direction::Up),
            Tiles::Door(o) => (&set.door, *o),
            _ => (&set.void, Direction::Up),
        }
    }

    pub fn get_tile(&self, x: i32, y: i32) -> (tile: &Tile)
        requires
            self.wf(),
        ensures
            *tile == self.look_at(x as int, y as int).0,
            tile.solid == self.solid_at(x as int, y as int),
    {
        self.get_tile_and_orientation(x, y).0
    }

    /// Width and height in pixels.
    pub fn dimensions(&self) -> (size: Vec2)
        ensures
            size == self.spec_dimensions(),
    {
        Vec2 {
            x: saturate(self.dimensions.x as i64 * TILE_PIXELS),
            y: saturate(self.dimensions.y as i64 * TILE_PIXELS),
        }
    }

    /// Where an entity that enters the room for the first time is put.
    pub fn middle_point(&self) -> (point: Vec2)
        requires
            self.wf(),
        ensures
            point == self.spec_middle_point(),
    {
        let count = self.tiles.len();
        let mut i: usize = 0;
        assert(self.tiles@.subrange(0, count as int) == self.tiles@);
        while i < count
            invariant
                self.wf(),
                count == self.tiles@.len(),
                i <= count,
                first_spawn_point(self.tiles@) == i + first_spawn_point(
                    self.tiles@.subrange(i as int, count as int),
                ),
            decreases count - i,
        {
            let ghost rest = self.tiles@.subrange(i as int, count as int);
            if let Tiles::SpawnPoint(_) = self.tiles[i] {
                proof {
                    assert(self.dimensions.x > 0) by (nonlinear_arith)
                        requires
                            self.dimensions.x >= 0,
                            self.dimensions.x * self.dimensions.y > 0,
                    ;
                }
                let width = self.dimensions.x as u64;
                let column = (i as u64) % width;
                let row = (i as u64) / width;
                assert(row < self.dimensions.y) by (nonlinear_arith)
                    requires
                        row == i as int / width as int,
                        width == self.dimensions.x,
                        width > 0,
                        0 <= i < self.dimensions.x * self.dimensions.y,
                ;
                return Vec2 {
                    x: saturate(column as i64 * TILE_UNITS),
                    y: saturate(row as i64 * TILE_UNITS),
                };
            }
            assert(rest.drop_first() == self.tiles@.subrange(i + 1, count as int));
            i += 1;
        }
        Vec2 { x: 0, y: 0 }
    }
}

} // verus!
