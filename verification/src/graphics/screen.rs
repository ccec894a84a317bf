//! The surface that a frame is drawn on.

use vstd::prelude::*;
use crate::entity::Direction;
use crate::graphics::pixels::{buffer_pixels, buffer_width, color_at, Color, PixelBuffer};
use crate::graphics::sprite::{lemma_cell_in_grid, Sprite};
use crate::level::level::MapInfo;
use crate::level::tile::Tile;
use crate::vector::Vec2;

verus! {

pub struct Screen {
    dimensions: (u32, u32),
    offset: Vec2,
    canvas: PixelBuffer,
}

/// Which pixel of a square sprite of side `size` shows at column `x` of row
/// `y` once the sprite is turned to face `orientation`.
pub open spec fn oriented(orientation: Direction, size: int, x: int, y: int) -> (int, int) {
    match orientation {
        Direction::Up => (x, y),
        Direction::Down => (x, size - 1 - y),
        Direction::Left => (y, x),
        Direction::Right => (y, size - 1 - x),
    }
}

impl Screen {
    /// The canvas holds `width` times `height` pixels.
    pub closed spec fn wf(self) -> bool {
        &&& buffer_width(self.canvas) == self.dimensions.0
        &&& buffer_pixels(self.canvas).len() == self.dimensions.0 * self.dimensions.1
    }

    pub closed spec fn spec_width(self) -> nat {
        self.dimensions.0 as nat
    }

    pub closed spec fn spec_height(self) -> nat {
        self.dimensions.1 as nat
    }

    /// How far the view is scrolled, in pixels.
    pub closed spec fn spec_offset(self) -> Vec2 {
        self.offset
    }

    /// The pixel in column `x` of row `y`.
    pub closed spec fn pixel(self, x: int, y: int) -> Color {
        buffer_pixels(self.canvas)[y * self.dimensions.0 + x]
    }

    /// Same size and same scroll offset.
    pub open spec fn same_frame(self, other: Screen) -> bool {
        &&& self.spec_width() == other.spec_width()
        &&& self.spec_height() == other.spec_height()
        &&& self.spec_offset() == other.spec_offset()
    }

    /// The colour at `(sx, sy)` after a tile has been drawn with its top-left
    /// corner at `position`, which is scrolled by the offset of the screen:
    /// inside the square of the tile it is the pixel of the sprite as it is
    /// turned, elsewhere what was there before.
    pub open spec fn tile_drawn(
        self,
        position: Vec2,
        sprite: Sprite,
        orientation: Direction,
        sx: int,
        sy: int,
    ) -> Color {
        let x = sx - (position.x - self.spec_offset().x);
        let y = sy - (position.y - self.spec_offset().y);
        let size = sprite.spec_size() as int;
        if 0 <= x < size && 0 <= y < size {
            let (px, py) = oriented(orientation, size, x, y);
            sprite.pixel(px, py)
        } else {
            self.pixel(sx, sy)
        }
    }

    /// A screen of the given size, every pixel transparent black. The
    /// bytes of a row can be counted, and those of the screen fit a vector.
    pub fn new(width: u32, height: u32) -> (screen: Screen)
        requires
            4 * width <= usize::MAX,
            4 * width * height <= isize::MAX,
        ensures
            screen.wf(),
            screen.spec_width() == width,
            screen.spec_height() == height,
            screen.spec_offset() == (Vec2 { x: 0, y: 0 }),
            forall|x: int, y: int|
                0 <= x < width && 0 <= y < height ==> #[trigger] screen.pixel(x, y) == (Color {
                    r: 0,
                    g: 0,
                    b: 0,
                    a: 0,
                }),
    {
        let canvas = PixelBuffer::blank(width, height);
        let screen = Screen { dimensions: (width, height), offset: Vec2 { x: 0, y: 0 }, canvas };
        proof {
            assert forall|x: int, y: int| 0 <= x < width && 0 <= y < height implies #[trigger] screen.pixel(
                x,
                y,
            ) == (Color { r: 0, g: 0, b: 0, a: 0 }) by {
                lemma_cell_in_grid(x, y, width as int, height as int);
            }
        }
        screen
    }

    pub fn dimensions(&self) -> (dimensions: (u32, u32))
        ensures
            dimensions.0 == self.spec_width(),
            dimensions.1 == self.spec_height(),
    {
        self.dimensions
    }

    pub fn offset(&self) -> (offset: Vec2)
        ensures
            offset == self.spec_offset(),
    {
        self.offset
    }

    /// Reads the pixel in column `x` of row `y`.
    pub fn get_pixel(&self, x: u32, y: u32) -> (color: Color)
        requires
            self.wf(),
            x < self.spec_width(),
            y < self.spec_height(),
        ensures
            color == self.pixel(x as int, y as int),
    {
        proof {
            lemma_cell_in_grid(
                x as int,
                y as int,
                self.dimensions.0 as int,
                self.dimensions.1 as int,
            );
        }
        self.canvas.get(x, y)
    }

    /// Sets the pixel in column `x` of row `y`; outside the screen nothing
    /// happens.
    pub fn put_pixel(&mut self, x: u32, y: u32, pixel: Color)
        requires
            old(self).wf(),
        ensures
            final(self).wf(),
            final(self).same_frame(*old(self)),
            forall|sx: int, sy: int|
                0 <= sx < old(self).spec_width() && 0 <= sy < old(self).spec_height()
                    ==> #[trigger] final(self).pixel(sx, sy) == if sx == x && sy == y {
                    pixel
                } else {
                    old(self).pixel(sx, sy)
                },
    {
        if x >= self.dimensions.0 || y >= self.dimensions.1 {
            return ;
        }
        let ghost width = self.dimensions.0 as int;
        let ghost height = self.dimensions.1 as int;
        proof {
            lemma_cell_in_grid(x as int, y as int, width, height);
        }
        self.canvas.put(x, y, pixel);
        proof {
            assert forall|sx: int, sy: int|
                0 <= sx < width && 0 <= sy < height implies #[trigger] self.pixel(sx, sy) == if sx
                == x && sy == y {
                pixel
            } else {
                old(self).pixel(sx, sy)
            } by {
                lemma_cell_in_grid(sx, sy, width, height);
                if sy * width + sx == y * width + x {
                    lemma_cell_unique(sx, sy, x as int, y as int, width);
                }
            }
        }
    }

    /// The bitmap that has been drawn.
    pub fn canvas(&self) -> (canvas: &PixelBuffer)
        ensures
            self.wf() ==> buffer_width(*canvas) == self.spec_width() && buffer_pixels(
                *canvas,
            ).len() == self.spec_width() * self.spec_height(),
            forall|x: int, y: int|
                self.pixel(x, y) == buffer_pixels(*canvas)[y * self.spec_width() + x],
    {
        &self.canvas
    }

    /// What has been drawn, as raw RGBA bytes: four to a pixel, row after
    /// row from the top.
    pub fn rgba_bytes(&self) -> (bytes: Vec<u8>)
        requires
            self.wf(),
        ensures
            bytes@.len() == 4 * (self.spec_width() * self.spec_height()),
            forall|x: int, y: int|
                0 <= x < self.spec_width() && 0 <= y < self.spec_height() ==> color_at(
                    bytes@,
                    y * self.spec_width() + x,
                ) == #[trigger] self.pixel(x, y),
    {
        let width = self.dimensions.0;
        let height = self.dimensions.1;
        let mut bytes: Vec<u8> = Vec::new();
        let mut y: u32 = 0;
        while y < height
            invariant
                self.wf(),
                width == self.spec_width(),
                height == self.spec_height(),
                y <= height,
                bytes@.len() == 4 * (y * width),
                forall|sx: int, sy: int|
                    0 <= sx < width && 0 <= sy < y ==> color_at(bytes@, sy * width + sx)
                        == #[trigger] self.pixel(sx, sy),
            decreases height - y,
        {
            let mut x: u32 = 0;
            while x < width
                invariant
                    self.wf(),
                    width == self.spec_width(),
                    height == self.spec_height(),
                    y < height,
                    x <= width,
                    bytes@.len() == 4 * (y * width + x),
                    forall|sx: int, sy: int|
                        0 <= sx < width && (0 <= sy < y || (sy == y && sx < x)) ==> color_at(
                            bytes@,
                            sy * width + sx,
                        ) == #[trigger] self.pixel(sx, sy),
                decreases width - x,
            {
                let color = self.get_pixel(x, y);
                bytes.push(color.r);
                bytes.push(color.g);
                bytes.push(color.b);
                bytes.push(color.a);
                proof {
                    assert forall|sx: int, sy: int|
                        0 <= sx < width && (0 <= sy < y || (sy == y && sx < x + 1)) implies color_at(
                        bytes@,
                        sy * width + sx,
                    ) == #[trigger] self.pixel(sx, sy) by {
                        if sy != y || sx != x {
                            assert(sy * width + sx < y * width + x) by (nonlinear_arith)
                                requires
                                    0 <= sx < width,
                                    0 <= sy,
                                    sy < y || (sy == y && sx < x),
                                    0 <= x,
                            ;
                            assert(sy * width >= 0) by (nonlinear_arith)
                                requires
                                    sy >= 0,
                                    width >= 0,
                            ;
                        }
                    }
                }
                x += 1;
            }
            proof {
                assert((y + 1) * width == y * width + width) by (nonlinear_arith);
            }
            y += 1;
        }
        proof {
            assert(height * width == width * height) by (nonlinear_arith);
        }
        bytes
    }

    /// Draws a tile with its top-left corner at `position`, in pixels of the
    /// room, turned to face `orientation` and clipped to the screen.
    pub fn render_tile(&mut self, position: Vec2, tile: &Tile, orientation: Direction)
        requires
            old(self).wf(),
        ensures
            final(self).wf(),
            final(self).same_frame(*old(self)),
            forall|sx: int, sy: int|
                0 <= sx < old(self).spec_width() && 0 <= sy < old(self).spec_height()
                    ==> #[trigger] final(self).pixel(sx, sy) == old(self).tile_drawn(
                    position,
                    tile.sprite,
                    orientation,
                    sx,
                    sy,
                ),
    {
        let left: i64 = position.x as i64 - self.offset.x as i64;
        let top: i64 = position.y as i64 - self.offset.y as i64;
        let view = tile.sprite.view();
        let size: u32 = tile.sprite.size();
        let width = self.dimensions.0;
        let height = self.dimensions.1;
        let ghost before = *self;
        let mut y: u32 = 0;
        while y < size
            invariant
                self.wf(),
                self.same_frame(before),
                before.wf(),
                width == before.spec_width(),
                height == before.spec_height(),
                left == position.x - before.spec_offset().x,
                top == position.y - before.spec_offset().y,
                size == tile.sprite.spec_size(),
                view.wf(),
                view.spec_size() == size,
                forall|x: int, y: int| #[trigger] view.pixel(x, y) == tile.sprite.pixel(x, y),
                y <= size,
                forall|sx: int, sy: int|
                    0 <= sx < width && 0 <= sy < height ==> #[trigger] self.pixel(sx, sy) == if sy
                        - top < y {
                        before.tile_drawn(position, tile.sprite, orientation, sx, sy)
                    } else {
                        before.pixel(sx, sy)
                    },
            decreases size - y,
        {
            let ya: i64 = y as i64 + top;
            let mut x: u32 = 0;
            while x < size
                invariant
                    self.wf(),
                    self.same_frame(before),
                    before.wf(),
                    width == before.spec_width(),
                    height == before.spec_height(),
                    left == position.x - before.spec_offset().x,
                    top == position.y - before.spec_offset().y,
                    size == tile.sprite.spec_size(),
                    view.wf(),
                    view.spec_size() == size,
                    forall|x: int, y: int| #[trigger] view.pixel(x, y) == tile.sprite.pixel(x, y),
                    y < size,
                    x <= size,
                    ya == y + top,
                    forall|sx: int, sy: int|
                        0 <= sx < width && 0 <= sy < height ==> #[trigger] self.pixel(sx, sy)
                            == if sy - top < y || (sy - top == y && sx - left < x) {
                            before.tile_drawn(position, tile.sprite, orientation, sx, sy)
                        } else {
                            before.pixel(sx, sy)
                        },
                decreases size - x,
            {
                let xa: i64 = x as i64 + left;
                if !(xa < 0 || xa >= width as i64 || ya < 0 || ya >= height as i64) {
                    let (pixel_x, pixel_y) = match orientation {
                        Direction::Up => (x, y),
                        Direction::Down => (x, size - 1 - y),
                        Direction::Left => (y, x),
                        Direction::Right => (y, size - 1 - x),
                    };
                    let color = view.get_pixel(pixel_x, pixel_y);
                    self.put_pixel(xa as u32, ya as u32, color);
                }
                x += 1;
            }
            y += 1;
        }
    }

    /// Draws the map of the level. The map is not shown yet, so nothing is
    /// drawn.
    pub fn render_map<'a>(&mut self, _map_info: MapInfo<'a>)
        ensures
            *final(self) == *old(self),
    {
    }

    /// Fills the screen with opaque black.
    pub fn clear(&mut self)
        requires
            old(self).wf(),
        ensures
            final(self).wf(),
            final(self).same_frame(*old(self)),
            forall|x: int, y: int|
                0 <= x < old(self).spec_width() && 0 <= y < old(self).spec_height()
                    ==> #[trigger] final(self).pixel(x, y) == Color::spec_black(),
    {
        let width = self.dimensions.0;
        let height = self.dimensions.1;
        let ghost before = *self;
        let mut y: u32 = 0;
        while y < height
            invariant
                self.wf(),
                self.same_frame(before),
                width == before.spec_width(),
                height == before.spec_height(),
                y <= height,
                forall|sx: int, sy: int|
                    0 <= sx < width && 0 <= sy < y ==> #[trigger] self.pixel(sx, sy)
                        == Color::spec_black(),
            decreases height - y,
        {
            let mut x: u32 = 0;
            while x < width
                invariant
                    self.wf(),
                    self.same_frame(before),
                    width == before.spec_width(),
                    height == before.spec_height(),
                    y < height,
                    x <= width,
                    forall|sx: int, sy: int|
                        0 <= sx < width && (0 <= sy < y || (sy == y && sx < x))
                            ==> #[trigger] self.pixel(sx, sy) == Color::spec_black(),
                decreases width - x,
            {
                self.put_pixel(x, y, Color::black());
                x += 1;
            }
            y += 1;
        }
    }

    /// Scrolls the view to `offset`, in pixels.
    pub fn set_offset(&mut self, offset: Vec2)
        ensures
            final(self).wf() == old(self).wf(),
            final(self).spec_width() == old(self).spec_width(),
            final(self).spec_height() == old(self).spec_height(),
            final(self).spec_offset() == offset,
            forall|x: int, y: int| final(self).pixel(x, y) == old(self).pixel(x, y),
    {
        self.offset = offset;
    }
}

/// Two cells of a grid that share their place in the row-major order are one
/// cell.
pub proof fn lemma_cell_unique(x1: int, y1: int, x2: int, y2: int, width: int)
    requires
        0 <= x1 < width,
        0 <= x2 < width,
        0 <= y1,
        0 <= y2,
        y1 * width + x1 == y2 * width + x2,
    ensures
        x1 == x2,
        y1 == y2,
{
    if y1 < y2 {
        assert(y2 * width >= (y1 + 1) * width) by (nonlinear_arith)
            requires
                y1 + 1 <= y2,
                width > 0,
        ;
        assert((y1 + 1) * width == y1 * width + width) by (nonlinear_arith);
    } else if y2 < y1 {
        assert(y1 * width >= (y2 + 1) * width) by (nonlinear_arith)
            requires
                y2 + 1 <= y1,
                width > 0,
        ;
        assert((y2 + 1) * width == y2 * width + width) by (nonlinear_arith);
    }
}

} // verus!
