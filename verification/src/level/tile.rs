//! One kind of tile: how it looks and whether it blocks the way.

use vstd::prelude::*;
use crate::entity::Direction;
use crate::graphics::screen::Screen;
use crate::graphics::sprite::{Sprite, SPRITE_SIZE_SHIFT_VALUE};
use crate::vector::Vec2;

verus! {

pub struct Tile {
    pub solid: bool,
    pub sprite: Sprite,
}

impl Tile {
    pub fn new(sprite: Sprite, solid: bool) -> (tile: Tile)
        ensures
            tile.solid == solid,
            tile.sprite == sprite,
    {
        Tile { solid, sprite }
    }

    /// Where the tile in column `x` of row `y` of the grid starts, in pixels:
    /// sixteen pixels to a tile, kept in the coordinate range.
    pub open spec fn spec_pixel_origin(x: i32, y: i32) -> Vec2 {
        Vec2 {
            x: crate::fixed::clamp_i32(x * 16) as i32,
            y: crate::fixed::clamp_i32(y * 16) as i32,
        }
    }

    pub fn pixel_origin(x: i32, y: i32) -> (origin: Vec2)
        ensures
            origin == Tile::spec_pixel_origin(x, y),
    {
        Vec2 {
            x: crate::fixed::saturate(x as i64 * 16),
            y: crate::fixed::saturate(y as i64 * 16),
        }
    }

    /// Draws the tile into the cell in column `x` of row `y` of the grid.
    pub fn render(&self, x: i32, y: i32, screen: &mut Screen, orientation: Direction)
        requires
            old(screen).wf(),
        ensures
            final(screen).wf(),
            final(screen).same_frame(*old(screen)),
            forall|sx: int, sy: int|
                0 <= sx < old(screen).spec_width() && 0 <= sy < old(screen).spec_height()
                    ==> #[trigger] final(screen).pixel(sx, sy) == old(screen).tile_drawn(
                    Tile::spec_pixel_origin(x, y),
                    self.sprite,
                    orientation,
                    sx,
                    sy,
                ),
    {
        screen.render_tile(Tile::pixel_origin(x, y), self, orientation);
    }
}

} // verus!
