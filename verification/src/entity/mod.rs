//! Entities, their identifiers and what they share.

pub mod any;
pub mod collider;
pub mod door;
pub mod enemy;
pub mod manager;
pub mod message;
pub mod moving_component;
pub mod player;
pub mod projectile;
pub mod state;

use vstd::prelude::*;
use crate::graphics::pixels::Color;
use crate::graphics::screen::Screen;
use crate::graphics::sprite::SpriteView;
use crate::level::room::Room;
use crate::vector::Vec2;

pub use self::any::AnyEntity;
pub use self::collider::{Collider, CollisionKind, EPSILON, FOOT_OFFSET, PUSH_EPSILON};
pub use self::door::Door;
pub use self::enemy::Enemy;
pub use self::manager::EntityManager;
pub use self::message::{routed, Message, MessageDispatcher, Queues, Telegram};
pub use self::moving_component::{Force, MovingComponent};
pub use self::player::{Intent, Player, PlayerState};
pub use self::projectile::Projectile;

verus! {

/// A handle that names one entity, or one of the fixed parties below.
pub type EntityId = u32;

/// Names a room of the level.
pub type RoomId = u8;

/// The handle of an entity that has not been registered yet.
pub const INVALID_ID: EntityId = 0;

/// The game loop itself.
pub const GAME_ID: EntityId = 1;

/// The player.
pub const PLAYER_ID: EntityId = 2;

/// The entity manager.
pub const ENTITY_MANAGER_ID: EntityId = 3;

/// The first handle that the manager hands out on its own.
pub const FIRST_FREE_ID: EntityId = 10;

#[derive(Debug, Eq, PartialEq, Copy, Clone, Hash, Structural)]
pub enum Direction {
    Up,
    Down,
    Left,
    Right,
}

/// A set of directions, as held while several keys are down at once.
#[derive(Debug, Eq, PartialEq, Copy, Clone, Structural)]
pub struct Directions {
    pub up: bool,
    pub down: bool,
    pub left: bool,
    pub right: bool,
}

impl Directions {
    pub open spec fn spec_contains(self, direction: Direction) -> bool {
        match direction {
            Direction::Up => self.up,
            Direction::Down => self.down,
            Direction::Left => self.left,
            Direction::Right => self.right,
        }
    }

    pub open spec fn spec_with(self, direction: Direction) -> Directions {
        match direction {
            Direction::Up => Directions { up: true, ..self },
            Direction::Down => Directions { down: true, ..self },
            Direction::Left => Directions { left: true, ..self },
            Direction::Right => Directions { right: true, ..self },
        }
    }

    pub open spec fn spec_empty() -> Directions {
        Directions { up: false, down: false, left: false, right: false }
    }

    /// The set that holds no direction.
    #[verifier::when_used_as_spec(spec_empty)]
    pub fn empty() -> (set: Directions)
        ensures
            forall|d: Direction| !set.spec_contains(d),
            set == Directions::spec_empty(),
    {
        Directions { up: false, down: false, left: false, right: false }
    }

    /// The set that holds `direction` alone.
    pub fn only(direction: Direction) -> (set: Directions)
        ensures
            set == Directions::empty().spec_with(direction),
            forall|d: Direction| set.spec_contains(d) <==> d == direction,
    {
        let mut set = Directions::empty();
        set.insert(direction);
        set
    }

    #[verifier::when_used_as_spec(spec_contains)]
    pub fn contains(self, direction: Direction) -> (found: bool)
        ensures
            found == self.spec_contains(direction),
    {
        match direction {
            Direction::Up => self.up,
            Direction::Down => self.down,
            Direction::Left => self.left,
            Direction::Right => self.right,
        }
    }

    pub fn insert(&mut self, direction: Direction)
        ensures
            *final(self) == old(self).spec_with(direction),
            forall|d: Direction|
                final(self).spec_contains(d) <==> (d == direction || old(self).spec_contains(d)),
    {
        match direction {
            Direction::Up => {
                self.up = true;
            },
            Direction::Down => {
                self.down = true;
            },
            Direction::Left => {
                self.left = true;
            },
            Direction::Right => {
                self.right = true;
            },
        }
    }
}

/// What every entity lets others see of itself.
pub struct EntityView {
    pub id: EntityId,
    pub removed: bool,
    /// Where the entity is, in units.
    pub position: Vec2,
    pub collider: Option<Collider>,
    /// Whether the entity has run into something since the flag was last
    /// cleared.
    pub collided: bool,
}

/// The colour at `(sx, sy)` of a screen once a sprite has been drawn with
/// its top-left corner at `position`, in pixels of the screen: inside the
/// square of the sprite it is the pixel of the sprite, mirrored left to
/// right where `flip` is set, unless that pixel has the transparent colour;
/// elsewhere, and behind transparent pixels, it is what was there before.
pub open spec fn sprite_drawn(
    screen: Screen,
    view: SpriteView,
    position: Vec2,
    flip: bool,
    sx: int,
    sy: int,
) -> Color {
    let x = sx - position.x;
    let y = sy - position.y;
    let size = view.spec_size() as int;
    if 0 <= x < size && 0 <= y < size {
        let sample = view.pixel(
            if flip {
                size - 1 - x
            } else {
                x
            },
            y,
        );
        if sample == Color::spec_transparent_key() {
            screen.pixel(sx, sy)
        } else {
            sample
        }
    } else {
        screen.pixel(sx, sy)
    }
}

/// What the manager asks of everything it owns.
pub trait Entity: Sized {
    /// The entity is in a state that its own functions have left it in.
    spec fn wf(&self) -> bool;

    spec fn model(&self) -> EntityView;

    /// Whether the entity counts a box as something it has run into.
    spec fn runs_into(&self, other: Option<Collider>) -> bool;

    /// The pixels that stand for the entity, if it has any.
    spec fn spec_sprite_view(&self) -> Option<SpriteView<'_>>;

    /// Lets one tick pass. The entity may send telegrams to the game and to
    /// the manager, but none to other entities.
    fn update(&mut self, room: &Room, dispatcher: &mut MessageDispatcher)
        requires
            old(self).wf(),
            room.wf(),
            old(dispatcher).wf(),
        ensures
            final(self).wf(),
            final(dispatcher).wf(),
            final(self).model().id == old(self).model().id,
            old(self).model().removed ==> final(self).model().removed,
            final(dispatcher)@.general == old(dispatcher)@.general,
    ;

    /// Moves the entity by `distance`, where the room lets it.
    fn move_entity(&mut self, distance: Vec2, room: &Room)
        requires
            old(self).wf(),
            room.wf(),
        ensures
            final(self).wf(),
            final(self).model().id == old(self).model().id,
            final(self).model().removed == old(self).model().removed,
        default_ensures
            *final(self) == *old(self),
    {
    }

    /// Draws the entity on a screen scrolled by `offset`, in pixels.
    fn render(&self, screen: &mut Screen, offset: Vec2)
        requires
            self.wf(),
            old(screen).wf(),
        ensures
            final(screen).wf(),
            final(screen).same_frame(*old(screen)),
        default_ensures
            self.spec_sprite_view() is None ==> forall|sx: int, sy: int|
                0 <= sx < old(screen).spec_width() && 0 <= sy < old(screen).spec_height()
                    ==> #[trigger] final(screen).pixel(sx, sy) == old(screen).pixel(sx, sy),
            self.spec_sprite_view() matches Some(view) ==> forall|sx: int, sy: int|
                0 <= sx < old(screen).spec_width() && 0 <= sy < old(screen).spec_height()
                    ==> #[trigger] final(screen).pixel(sx, sy) == sprite_drawn(
                    *old(screen),
                    view,
                    self.model().position.spec_on_screen(offset),
                    false,
                    sx,
                    sy,
                ),
    {
        self.render_impl(screen, offset, false)
    }

    /// Draws the sprite of the entity, mirrored where `flip` is set, and
    /// clipped to the screen. An entity without a sprite draws nothing.
    fn render_impl(&self, screen: &mut Screen, offset: Vec2, flip: bool)
        requires
            self.wf(),
            old(screen).wf(),
        ensures
            final(screen).wf(),
            final(screen).same_frame(*old(screen)),
            self.spec_sprite_view() is None ==> forall|sx: int, sy: int|
                0 <= sx < old(screen).spec_width() && 0 <= sy < old(screen).spec_height()
                    ==> #[trigger] final(screen).pixel(sx, sy) == old(screen).pixel(sx, sy),
            self.spec_sprite_view() matches Some(view) ==> forall|sx: int, sy: int|
                0 <= sx < old(screen).spec_width() && 0 <= sy < old(screen).spec_height()
                    ==> #[trigger] final(screen).pixel(sx, sy) == sprite_drawn(
                    *old(screen),
                    view,
                    self.model().position.spec_on_screen(offset),
                    flip,
                    sx,
                    sy,
                ),
    {
        let pixels = match self.sprite_view() {
            Some(view) => view,
            None => return ,
        };
        let (width, height) = pixels.dimensions();
        let corner = self.relative_pos(offset);
        let ax = corner.x as i64;
        let ay = corner.y as i64;
        let screen_width: u32 = screen.dimensions().0;
        let screen_height: u32 = screen.dimensions().1;
        let ghost before = *screen;
        let mut y: u32 = 0;
        while y < height
            invariant
                screen.wf(),
                screen.same_frame(before),
                screen_width == before.spec_width(),
                screen_height == before.spec_height(),
                pixels.wf(),
                width == pixels.spec_size(),
                height == pixels.spec_size(),
                ax == corner.x,
                ay == corner.y,
                y <= height,
                forall|sx: int, sy: int|
                    0 <= sx < screen_width && 0 <= sy < screen_height ==> #[trigger] screen.pixel(
                        sx,
                        sy,
                    ) == if sy - ay < y {
                        sprite_drawn(before, pixels, corner, flip, sx, sy)
                    } else {
                        before.pixel(sx, sy)
                    },
            decreases height - y,
        {
            let mut x: u32 = 0;
            while x < width
                invariant
                    screen.wf(),
                    screen.same_frame(before),
                    screen_width == before.spec_width(),
                    screen_height == before.spec_height(),
                    pixels.wf(),
                    width == pixels.spec_size(),
                    height == pixels.spec_size(),
                    ax == corner.x,
                    ay == corner.y,
                    y < height,
                    x <= width,
                    forall|sx: int, sy: int|
                        0 <= sx < screen_width && 0 <= sy < screen_height
                            ==> #[trigger] screen.pixel(sx, sy) == if sy - ay < y || (sy - ay == y
                            && sx - ax < x) {
                            sprite_drawn(before, pixels, corner, flip, sx, sy)
                        } else {
                            before.pixel(sx, sy)
                        },
                decreases width - x,
            {
                let xp: i64 = x as i64 + ax;
                let yp: i64 = y as i64 + ay;
                if !(xp < 0 || xp >= screen_width as i64 || yp < 0 || yp >= screen_height as i64) {
                    let pixel = pixels.get_pixel(
                        if flip {
                            width - 1 - x
                        } else {
                            x
                        },
                        y,
                    );
                    if !pixel.is_transparent_key() {
                        screen.put_pixel(xp as u32, yp as u32, pixel);
                    }
                }
                x += 1;
            }
            y += 1;
        }
    }

    fn sprite_view(&self) -> (view: Option<SpriteView<'_>>)
        requires
            self.wf(),
        ensures
            view == self.spec_sprite_view(),
            view matches Some(v) ==> v.wf(),
    ;

    /// Marks the entity for removal at the next sweep.
    fn remove(&mut self)
        requires
            old(self).wf(),
        ensures
            final(self).wf(),
            final(self).model() == (EntityView { removed: true, ..old(self).model() }),
    ;

    fn is_removed(&self) -> (removed: bool)
        ensures
            removed == self.model().removed,
    ;

    /// Puts the entity at `pos`, in units.
    fn set_pos(&mut self, pos: Vec2)
        requires
            old(self).wf(),
        ensures
            final(self).wf(),
            final(self).model().position == pos,
            final(self).model().id == old(self).model().id,
            final(self).model().removed == old(self).model().removed,
            final(self).model().collided == old(self).model().collided,
    ;

    /// Moves the entity by `pos`, in units, from where it is.
    fn offset_pos(&mut self, pos: Vec2)
        requires
            old(self).wf(),
        ensures
            final(self).wf(),
            final(self).model().position == old(self).model().position.spec_plus(pos),
            final(self).model().id == old(self).model().id,
            final(self).model().removed == old(self).model().removed,
            final(self).model().collided == old(self).model().collided,
    {
        let position = self.exact_pos();
        self.set_pos(position.plus(pos));
    }

    /// Where the entity is, in units.
    fn exact_pos(&self) -> (pos: Vec2)
        ensures
            pos == self.model().position,
    ;

    /// Where the entity is on a screen scrolled by `offset`, in whole pixels.
    fn relative_pos(&self, offset: Vec2) -> (pos: Vec2)
        ensures
            pos == self.model().position.spec_on_screen(offset),
    ;

    /// Where the entity is in its room, in whole pixels.
    fn absolute_pos(&self) -> (pos: Vec2)
        ensures
            pos == self.model().position.spec_to_pixels(),
    ;

    fn collider(&self) -> (collider: Option<Collider>)
        ensures
            collider == self.model().collider,
    ;

    /// Asks whether the entity runs into `other`, and remembers a hit.
    fn collides_with(&mut self, other: &Option<Collider>) -> (hit: bool)
        requires
            old(self).wf(),
        ensures
            final(self).wf(),
            hit == old(self).runs_into(*other),
            final(self).model() == (EntityView {
                collided: old(self).model().collided || hit,
                ..old(self).model()
            }),
    ;

    /// Whether a hit has been remembered.
    fn collides(&self) -> (collided: bool)
        ensures
            collided == self.model().collided,
    ;

    fn id(&self) -> (id: EntityId)
        ensures
            id == self.model().id,
    ;

    fn set_id(&mut self, id: EntityId)
        requires
            old(self).wf(),
        ensures
            final(self).wf(),
            final(self).model() == (EntityView { id, ..old(self).model() }),
    ;

    /// Reacts to a telegram. The entity may answer the game and the
    /// manager, but no other entity: so every dispatch comes to an end.
    fn handle_message(&mut self, message: Telegram, dispatcher: &mut MessageDispatcher)
        requires
            old(self).wf(),
            old(dispatcher).wf(),
        ensures
            final(self).wf(),
            final(dispatcher).wf(),
            final(self).model().id == old(self).model().id,
            final(self).model().removed == old(self).model().removed,
            final(dispatcher)@.general == old(dispatcher)@.general,
        default_ensures
            *final(self) == *old(self),
            final(dispatcher)@ == old(dispatcher)@,
    {
    }

    /// Sends `message` to `receiver` in the name of the entity.
    fn send_message(&self, message: Message, receiver: EntityId, dispatcher: &mut MessageDispatcher)
        requires
            old(dispatcher).wf(),
        ensures
            final(dispatcher).wf(),
            final(dispatcher)@ == routed(
                old(dispatcher)@,
                Telegram { sender: self.model().id, receiver, message },
            ),
    {
        dispatcher.queue_message(self.id(), receiver, message);
    }
}

} // verus!
