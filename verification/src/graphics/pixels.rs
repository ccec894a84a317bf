//! Colours, and the bitmap of the `image` crate that holds them.

use vstd::prelude::*;

verus! {

/// One pixel: red, green, blue and opacity.
#[derive(Debug, Eq, PartialEq, Copy, Clone, Structural)]
pub struct Color {
    pub r: u8,
    pub g: u8,
    pub b: u8,
    pub a: u8,
}

impl Color {
    /// The colour that a sprite uses for "nothing here".
    pub open spec fn spec_transparent_key() -> Color {
        Color { r: 255, g: 0, b: 255, a: 255 }
    }

    /// Opaque black, the colour of a cleared screen.
    pub open spec fn spec_black() -> Color {
        Color { r: 0, g: 0, b: 0, a: 255 }
    }

    #[verifier::when_used_as_spec(spec_transparent_key)]
    pub fn transparent_key() -> (color: Color)
        ensures
            color == Color::spec_transparent_key(),
    {
        Color { r: 255, g: 0, b: 255, a: 255 }
    }

    #[verifier::when_used_as_spec(spec_black)]
    pub fn black() -> (color: Color)
        ensures
            color == Color::spec_black(),
    {
        Color { r: 0, g: 0, b: 0, a: 255 }
    }

    pub fn is_transparent_key(self) -> (is_key: bool)
        ensures
            is_key == (self == Color::spec_transparent_key()),
    {
        self.r == 255 && self.g == 0 && self.b == 255 && self.a == 255
    }
}

/// An RGBA bitmap, kept in an `image::RgbaImage`.
#[verifier::external_body]
pub struct PixelBuffer {
    image: image::RgbaImage,
}

/// How many pixels a row of the bitmap holds: what `ImageBuffer::width`
/// returns.
pub uninterp spec fn buffer_width(buffer: PixelBuffer) -> nat;

/// The pixels of the bitmap, row after row from the top, each row from the
/// left: width times height of them.
pub uninterp spec fn buffer_pixels(buffer: PixelBuffer) -> Seq<Color>;

/// The colour that four consecutive bytes of raw RGBA data stand for.
pub open spec fn color_at(bytes: Seq<u8>, pixel: int) -> Color {
    Color {
        r: bytes[4 * pixel],
        g: bytes[4 * pixel + 1],
        b: bytes[4 * pixel + 2],
        a: bytes[4 * pixel + 3],
    }
}

impl PixelBuffer {
    /// `ImageBuffer::new`: a bitmap of the given size with every channel of
    /// every pixel zero. The outside function counts the bytes of a row
    /// first and then those of all rows, and panics where either count does
    /// not fit, or the bytes do not fit a vector, which the precondition
    /// leaves out.
    #[verifier::external_body]
    pub(crate) fn blank(width: u32, height: u32) -> (buffer: PixelBuffer)
        requires
            4 * width <= usize::MAX,
            4 * width * height <= isize::MAX,
        ensures
            buffer_width(buffer) == width,
            buffer_pixels(buffer) == Seq::new(
                (width * height) as nat,
                |i: int| (Color { r: 0, g: 0, b: 0, a: 0 }),
            ),
    {
        PixelBuffer { image: image::RgbaImage::new(width, height) }
    }

    /// `ImageBuffer::from_raw`: a bitmap over raw RGBA bytes, four to a
    /// pixel. The outside function counts the bytes of a row first and then
    /// those of all rows, and answers `None` exactly when the bytes of a row
    /// cannot be counted or the bytes given are too few for the size asked
    /// for.
    #[verifier::external_body]
    pub(crate) fn from_raw(width: u32, height: u32, bytes: Vec<u8>) -> (made: Option<PixelBuffer>)
        ensures
            made is Some <==> (4 * width <= usize::MAX && 4 * width * height <= bytes@.len()),
            made matches Some(buffer) ==> {
                &&& buffer_width(buffer) == width
                &&& buffer_pixels(buffer).len() == width * height
                &&& forall|i: int|
                    0 <= i < width * height ==> #[trigger] buffer_pixels(buffer)[i] == color_at(
                        bytes@,
                        i,
                    )
            },
    {
        match image::RgbaImage::from_raw(width, height, bytes) {
            Some(image) => Some(PixelBuffer { image }),
            None => None,
        }
    }

    /// `ImageBuffer::get_pixel`: the pixel in column `x` of row `y`. The
    /// outside function panics outside the bitmap, which the precondition
    /// leaves out.
    #[verifier::external_body]
    pub(crate) fn get(&self, x: u32, y: u32) -> (color: Color)
        requires
            x < buffer_width(*self),
            y * buffer_width(*self) + x < buffer_pixels(*self).len(),
        ensures
            color == buffer_pixels(*self)[y * buffer_width(*self) + x],
    {
        let pixel = self.image.get_pixel(x, y);
        Color { r: pixel.0[0], g: pixel.0[1], b: pixel.0[2], a: pixel.0[3] }
    }

    /// `ImageBuffer::put_pixel`: replaces the pixel in column `x` of row `y`
    /// and leaves every other pixel and the size as they were. The outside
    /// function panics outside the bitmap, which the precondition leaves out.
    #[verifier::external_body]
    pub(crate) fn put(&mut self, x: u32, y: u32, color: Color)
        requires
            x < buffer_width(*old(self)),
            y * buffer_width(*old(self)) + x < buffer_pixels(*old(self)).len(),
        ensures
            buffer_width(*final(self)) == buffer_width(*old(self)),
            buffer_pixels(*final(self)) == buffer_pixels(*old(self)).update(
                y * buffer_width(*old(self)) + x,
                color,
            ),
    {
        self.image.put_pixel(x, y, image::Rgba([color.r, color.g, color.b, color.a]));
    }
}

} // verus!
