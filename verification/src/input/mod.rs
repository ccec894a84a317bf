//! What the player does with keyboard and mouse.

pub mod keyboard;

pub use self::keyboard::{InputEvent, Key, KeyBoard};
