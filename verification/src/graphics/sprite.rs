//! Sprite sheets and the square sprites cut from them.

use vstd::prelude::*;
use std::rc::Rc;
use crate::graphics::pixels::{buffer_pixels, buffer_width, color_at, Color, PixelBuffer};
use crate::shared::share;

verus! {

/// The side of a sprite, in pixels.
pub const SPRITE_SIZE_U32: u32 = 16;

/// `1 << SPRITE_SIZE_SHIFT_VALUE` is the side of a sprite.
pub const SPRITE_SIZE_SHIFT_VALUE: u32 = 4;

/// The side of a small sprite, in pixels.
pub const HALF_SPRITE_SIZE_U32: u32 = 8;

/// `1 << HALF_SPRITE_SIZE_SHIFT_VALUE` is the side of a small sprite.
pub const HALF_SPRITE_SIZE_SHIFT_VALUE: u32 = 3;

/// The side of a sprite, in units.
pub const SPRITE_SIZE_UNITS: i32 = 16000;

/// A bitmap that sprites are cut from.
pub struct SpriteSheet {
    width: u32,
    height: u32,
    image: PixelBuffer,
}

impl SpriteSheet {
    /// The bitmap holds `width` times `height` pixels.
    #[verifier::type_invariant]
    pub closed spec fn wf(self) -> bool {
        &&& buffer_width(self.image) == self.width
        &&& buffer_pixels(self.image).len() == self.width * self.height
    }

    pub closed spec fn spec_width(self) -> nat {
        self.width as nat
    }

    pub closed spec fn spec_height(self) -> nat {
        self.height as nat
    }

    /// The pixel in column `x` of row `y`.
    pub closed spec fn pixel(self, x: int, y: int) -> Color {
        buffer_pixels(self.image)[y * self.width + x]
    }

    /// Builds a sheet over raw RGBA bytes, four to a pixel, rows from the
    /// top. `None` where the bytes of a row cannot be counted, or the bytes
    /// given are too few.
    pub fn new(width: u32, height: u32, bytes: Vec<u8>) -> (sheet: Option<SpriteSheet>)
        ensures
            sheet is Some <==> (4 * width <= usize::MAX && 4 * width * height <= bytes@.len()),
            sheet matches Some(s) ==> {
                &&& s.wf()
                &&& s.spec_width() == width
                &&& s.spec_height() == height
                &&& forall|x: int, y: int|
                    0 <= x < width && 0 <= y < height ==> #[trigger] s.pixel(x, y) == color_at(
                        bytes@,
                        y * width + x,
                    )
            },
    {
        let ghost raw = bytes@;
        match PixelBuffer::from_raw(width, height, bytes) {
            Some(image) => {
                let sheet = SpriteSheet { width, height, image };
                proof {
                    assert forall|x: int, y: int| 0 <= x < width && 0 <= y < height implies #[trigger] sheet.pixel(
                        x,
                        y,
                    ) == color_at(raw, y * width + x) by {
                        lemma_cell_in_grid(x, y, width as int, height as int);
                    }
                }
                Some(sheet)
            },
            None => None,
        }
    }

    pub fn width(&self) -> (width: u32)
        ensures
            width == self.spec_width(),
    {
        self.width
    }

    pub fn height(&self) -> (height: u32)
        ensures
            height == self.spec_height(),
    {
        self.height
    }

    pub fn get_pixel(&self, x: u32, y: u32) -> (color: Color)
        requires
            x < self.spec_width(),
            y < self.spec_height(),
        ensures
            color == self.pixel(x as int, y as int),
    {
        proof {
            use_type_invariant(self);
            lemma_cell_in_grid(x as int, y as int, self.width as int, self.height as int);
        }
        self.image.get(x, y)
    }
}

/// A cell of a grid has its place in the row-major order of the cells.
pub proof fn lemma_cell_in_grid(x: int, y: int, width: int, height: int)
    requires
        0 <= x < width,
        0 <= y < height,
    ensures
        0 <= y * width + x < width * height,
{
    assert(y * width + x < width * height) by (nonlinear_arith)
        requires
            0 <= x < width,
            0 <= y < height,
    ;
    assert(y * width >= 0) by (nonlinear_arith)
        requires
            0 <= y,
            0 <= width,
    ;
}

/// A square cut from a sheet: the cell in column `x` of row `y` of the grid
/// of squares of side `size`.
pub struct Sprite {
    size: u32,
    x: u32,
    y: u32,
    sheet: Rc<SpriteSheet>,
}

/// The pixels that a sprite stands for.
pub struct SpriteView<'a> {
    sheet: &'a SpriteSheet,
    left: u32,
    top: u32,
    size: u32,
}

impl Clone for Sprite {
    /// The same square of the same sheet.
    fn clone(&self) -> (copy: Sprite)
        ensures
            copy == *self,
    {
        proof {
            use_type_invariant(self);
        }
        Sprite { size: self.size, x: self.x, y: self.y, sheet: share(&self.sheet) }
    }
}

impl Sprite {
    /// The square lies inside its sheet.
    #[verifier::type_invariant]
    pub closed spec fn wf(self) -> bool {
        &&& self.sheet.wf()
        &&& (self.x + 1) * self.size <= self.sheet.spec_width()
        &&& (self.y + 1) * self.size <= self.sheet.spec_height()
    }

    pub closed spec fn spec_size(self) -> nat {
        self.size as nat
    }

    pub closed spec fn sheet(self) -> SpriteSheet {
        *self.sheet
    }

    /// The column of the sheet's grid that the sprite is cut from.
    pub closed spec fn column(self) -> nat {
        self.x as nat
    }

    /// The row of the sheet's grid that the sprite is cut from.
    pub closed spec fn row(self) -> nat {
        self.y as nat
    }

    /// The pixel in column `x` of row `y` of the sprite.
    pub open spec fn pixel(self, x: int, y: int) -> Color {
        self.sheet().pixel(self.column() * self.spec_size() + x, self.row() * self.spec_size() + y)
    }

    /// Whether the square named lies inside the sheet.
    pub open spec fn spec_fits(size: u32, x: u32, y: u32, sheet: SpriteSheet) -> bool {
        &&& (x + 1) * size <= sheet.spec_width()
        &&& (y + 1) * size <= sheet.spec_height()
    }

    /// Whether the square named lies inside the sheet.
    pub fn fits(size: u32, x: u32, y: u32, sheet: &SpriteSheet) -> (fits: bool)
        ensures
            fits == Sprite::spec_fits(size, x, y, *sheet),
    {
        assert((x + 1) * size <= 0x1_0000_0000 * 0xffff_ffff) by (nonlinear_arith)
            requires
                0 <= x <= 0xffff_ffff,
                0 <= size <= 0xffff_ffff,
        ;
        assert((y + 1) * size <= 0x1_0000_0000 * 0xffff_ffff) by (nonlinear_arith)
            requires
                0 <= y <= 0xffff_ffff,
                0 <= size <= 0xffff_ffff,
        ;
        let right: u64 = (x as u64 + 1) * (size as u64);
        let bottom: u64 = (y as u64 + 1) * (size as u64);
        right <= sheet.width() as u64 && bottom <= sheet.height() as u64
    }

    pub fn new(size: u32, x: u32, y: u32, sheet: Rc<SpriteSheet>) -> (sprite: Sprite)
        requires
            Sprite::spec_fits(size, x, y, *sheet),
        ensures
            sprite.wf(),
            sprite.spec_size() == size,
            sprite.column() == x,
            sprite.row() == y,
            sprite.sheet() == *sheet,
    {
        proof {
            use_type_invariant(&*sheet);
        }
        Sprite { size, x, y, sheet }
    }

    pub fn size(&self) -> (size: u32)
        ensures
            size == self.spec_size(),
    {
        self.size
    }

    /// The pixels of the sprite.
    pub closed spec fn spec_view(&self) -> SpriteView<'_> {
        SpriteView {
            sheet: &*self.sheet,
            left: (self.x * self.size) as u32,
            top: (self.y * self.size) as u32,
            size: self.size,
        }
    }

    /// The pixels of the sprite.
    pub fn view(&self) -> (view: SpriteView<'_>)
        ensures
            view == self.spec_view(),
            view.wf(),
            view.spec_size() == self.spec_size(),
            forall|x: int, y: int| #[trigger] view.pixel(x, y) == self.pixel(x, y),
    {
        proof {
            use_type_invariant(self);
            assert((self.x + 1) * self.size == self.x * self.size + self.size)
                by (nonlinear_arith);
            assert((self.y + 1) * self.size == self.y * self.size + self.size)
                by (nonlinear_arith);
            assert(self.x * self.size >= 0) by (nonlinear_arith);
            assert(self.y * self.size >= 0) by (nonlinear_arith);
        }
        SpriteView {
            sheet: &*self.sheet,
            left: self.x * self.size,
            top: self.y * self.size,
            size: self.size,
        }
    }
}

impl<'a> SpriteView<'a> {
    /// The square lies inside its sheet.
    #[verifier::type_invariant]
    pub closed spec fn wf(self) -> bool {
        &&& self.sheet.wf()
        &&& self.left + self.size <= self.sheet.spec_width()
        &&& self.top + self.size <= self.sheet.spec_height()
    }

    pub closed spec fn spec_size(self) -> nat {
        self.size as nat
    }

    /// The pixel in column `x` of row `y` of the square.
    pub closed spec fn pixel(self, x: int, y: int) -> Color {
        self.sheet.pixel(self.left + x, self.top + y)
    }

    /// Width and height of the square.
    pub fn dimensions(&self) -> (dimensions: (u32, u32))
        ensures
            dimensions.0 == self.spec_size(),
            dimensions.1 == self.spec_size(),
    {
        (self.size, self.size)
    }

    pub fn get_pixel(&self, x: u32, y: u32) -> (color: Color)
        requires
            x < self.spec_size(),
            y < self.spec_size(),
        ensures
            color == self.pixel(x as int, y as int),
    {
        proof {
            use_type_invariant(self);
        }
        self.sheet.get_pixel(self.left + x, self.top + y)
    }
}

/// A sprite that steps through its frames as time passes.
///
/// `timing` holds one threshold per step. A timer counts the updates; each
/// update on which it exceeds the threshold of the current step moves on to
/// the next step, and after the last step both start over.
pub struct AnimatedSprite {
    sprites: Vec<Sprite>,
    timing: Vec<u8>,
    current: usize,
    timer: u8,
}

impl AnimatedSprite {
    pub closed spec fn frames(self) -> Seq<Sprite> {
        self.sprites@
    }

    pub closed spec fn timing(self) -> Seq<u8> {
        self.timing@
    }

    /// The step that the animation is at.
    pub closed spec fn current(self) -> nat {
        self.current as nat
    }

    /// How many updates the timer has counted, at most 255.
    pub closed spec fn timer(self) -> nat {
        self.timer as nat
    }

    /// There is a frame to show, and the current step has a threshold.
    pub open spec fn wf(self) -> bool {
        &&& self.frames().len() > 0
        &&& self.current() < self.timing().len()
    }

    /// The timer after one more update: it stops counting at 255.
    pub open spec fn next_timer(self) -> nat {
        if self.timer() < 255 {
            self.timer() + 1
        } else {
            255
        }
    }

    /// Whether one more update moves on to the next step.
    pub open spec fn step_over(self) -> bool {
        self.next_timer() > self.timing()[self.current() as int]
    }

    /// The frame that is shown.
    pub open spec fn shown(self) -> Sprite {
        self.frames()[(self.current() % self.frames().len()) as int]
    }

    pub fn new(sprites: Vec<Sprite>, timing: Vec<u8>) -> (animation: AnimatedSprite)
        requires
            sprites@.len() > 0,
            timing@.len() > 0,
        ensures
            animation.wf(),
            animation.frames() == sprites@,
            animation.timing() == timing@,
            animation.current() == 0,
            animation.timer() == 0,
    {
        AnimatedSprite { sprites, timing, current: 0, timer: 0 }
    }

    /// Whether `later` is this animation one update later: same frames and
    /// thresholds; the timer has counted on; where it has passed the
    /// threshold the next step is current, and after the last step
    /// everything starts over.
    pub open spec fn steps_to(self, later: AnimatedSprite) -> bool {
        &&& later.wf()
        &&& later.frames() == self.frames()
        &&& later.timing() == self.timing()
        &&& if !self.step_over() {
            later.current() == self.current() && later.timer() == self.next_timer()
        } else if self.current() + 1 < self.timing().len() {
            later.current() == self.current() + 1 && later.timer() == self.next_timer()
        } else {
            later.current() == 0 && later.timer() == 0
        }
    }

    /// Whether `later` is this animation set back to its first step.
    pub open spec fn resets_to(self, later: AnimatedSprite) -> bool {
        &&& later.wf()
        &&& later.frames() == self.frames()
        &&& later.timing() == self.timing()
        &&& later.current() == 0
        &&& later.timer() == 0
    }

    /// Counts one update and moves on where the threshold is passed.
    pub fn update(&mut self)
        requires
            old(self).wf(),
        ensures
            old(self).steps_to(*final(self)),
    {
        let steps = self.timing.len();
        self.timer = self.timer.saturating_add(1);
        let current_timing = self.timing[self.current];
        if self.timer > current_timing {
            self.current += 1;
            if steps <= self.current {
                self.reset();
            }
        }
    }

    /// The pixels of the frame that is shown.
    pub open spec fn spec_view(&self) -> SpriteView<'_> {
        self.shown().spec_view()
    }

    /// The pixels of the frame that is shown.
    pub fn view(&self) -> (view: SpriteView<'_>)
        requires
            self.wf(),
        ensures
            view == self.spec_view(),
            view.wf(),
            view.spec_size() == self.shown().spec_size(),
            forall|x: int, y: int| #[trigger] view.pixel(x, y) == self.shown().pixel(x, y),
    {
        self.sprites[self.current % self.sprites.len()].view()
    }

    /// Goes back to the first step.
    pub fn reset(&mut self)
        requires
            old(self).frames().len() > 0,
            old(self).timing().len() > 0,
        ensures
            old(self).resets_to(*final(self)),
    {
        self.current = 0;
        self.timer = 0;
    }

    /// The side of the first frame.
    pub fn size(&self) -> (size: u32)
        requires
            self.wf(),
        ensures
            size == self.frames()[0].spec_size(),
    {
        self.sprites[0].size()
    }
}

} // verus!
