//! Bitmaps, sprites and the surface that entities and tiles are drawn on.

pub mod pixels;
pub mod screen;
pub mod sprite;

pub use self::pixels::{Color, PixelBuffer};
pub use self::screen::Screen;
pub use self::sprite::{
    AnimatedSprite, Sprite, SpriteSheet, SpriteView, HALF_SPRITE_SIZE_SHIFT_VALUE,
    HALF_SPRITE_SIZE_U32, SPRITE_SIZE_SHIFT_VALUE, SPRITE_SIZE_U32, SPRITE_SIZE_UNITS,
};
