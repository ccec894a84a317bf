//! Which keys are down, and where the mouse is.

use vstd::prelude::*;
use std::collections::HashSet;
use crate::vector::Vec2;

verus! {

/// The code of a key, as SDL numbers the keys.
pub type Key = u32;

pub const KEY_ESCAPE: Key = 0x1B;

pub const KEY_SPACE: Key = 0x20;

pub const KEY_A: Key = 0x61;

pub const KEY_D: Key = 0x64;

pub const KEY_S: Key = 0x73;

pub const KEY_W: Key = 0x77;

pub const KEY_RIGHT: Key = 0x4000_004F;

pub const KEY_LEFT: Key = 0x4000_0050;

pub const KEY_DOWN: Key = 0x4000_0051;

pub const KEY_UP: Key = 0x4000_0052;

/// What the window reports.
#[derive(Debug, Eq, PartialEq, Copy, Clone, Structural)]
pub enum InputEvent {
    /// A key went down.
    Press(Key),
    /// A key came up.
    Release(Key),
    /// The mouse moved to a point of the window, in pixels.
    Cursor(Vec2),
    /// Anything else.
    Other,
}

pub struct KeyBoard {
    pub keys: HashSet<Key>,
    pub up: bool,
    pub down: bool,
    pub left: bool,
    pub right: bool,
    pub mouse_pos: Vec2,
}

/// The keys that are down once `event` has been taken in.
pub open spec fn keys_after(keys: Set<Key>, event: InputEvent) -> Set<Key> {
    match event {
        InputEvent::Press(key) => keys.insert(key),
        InputEvent::Release(key) => keys.remove(key),
        _ => keys,
    }
}

impl KeyBoard {
    /// The four flags say whether the arrow keys are down.
    pub open spec fn arrows_match(self) -> bool {
        &&& self.up == self.keys@.contains(KEY_UP)
        &&& self.down == self.keys@.contains(KEY_DOWN)
        &&& self.left == self.keys@.contains(KEY_LEFT)
        &&& self.right == self.keys@.contains(KEY_RIGHT)
    }

    /// Whether `later` is this keyboard once `event` has been taken in.
    pub open spec fn takes_in(self, event: InputEvent, later: KeyBoard) -> bool {
        &&& later.keys@ == keys_after(self.keys@, event)
        &&& later.mouse_pos == match event {
            InputEvent::Cursor(pos) => pos,
            _ => self.mouse_pos,
        }
        &&& later.arrows_match()
    }

    /// No key is down, and the mouse is at the origin.
    pub fn new() -> (keyboard: KeyBoard)
        ensures
            keyboard.keys@ == Set::<Key>::empty(),
            !keyboard.up && !keyboard.down && !keyboard.left && !keyboard.right,
            keyboard.mouse_pos == (Vec2 { x: 0, y: 0 }),
            keyboard.arrows_match(),
    {
        KeyBoard {
            keys: HashSet::new(),
            up: false,
            down: false,
            left: false,
            right: false,
            mouse_pos: Vec2::zero(),
        }
    }

    /// Takes in what the window reports and brings the four flags up to
    /// date.
    pub fn update(&mut self, event: &InputEvent)
        ensures
            old(self).takes_in(*event, *final(self)),
    {
        broadcast use vstd::std_specs::hash::group_hash_axioms;

        match *event {
            InputEvent::Press(button) => {
                self.keys.insert(button);
            },
            InputEvent::Release(button) => {
                self.keys.remove(&button);
            },
            InputEvent::Cursor(pos) => {
                self.mouse_pos = pos;
            },
            InputEvent::Other => {},
        }
        self.up = self.keys.contains(&KEY_UP);
        self.down = self.keys.contains(&KEY_DOWN);
        self.left = self.keys.contains(&KEY_LEFT);
        self.right = self.keys.contains(&KEY_RIGHT);
    }

    pub fn contains_key(&self, key: &Key) -> (down: bool)
        ensures
            down == self.keys@.contains(*key),
    {
        broadcast use vstd::std_specs::hash::group_hash_axioms;

        self.keys.contains(key)
    }

    /// Forgets every key that is down. The four flags stay as they are until
    /// the next update.
    pub fn clear(&mut self)
        ensures
            final(self).keys@ == Set::<Key>::empty(),
            final(self).up == old(self).up,
            final(self).down == old(self).down,
            final(self).left == old(self).left,
            final(self).right == old(self).right,
            final(self).mouse_pos == old(self).mouse_pos,
    {
        self.keys.clear();
    }
}

} // verus!
