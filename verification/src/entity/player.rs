//! The entity that the keyboard steers.

use vstd::prelude::*;
use crate::entity::state::{ticked, Scene, State, StateMachine};
use crate::entity::{
    routed, Collider, CollisionKind, Direction, Directions, Entity, EntityId, EntityView, Force,
    Message, MessageDispatcher, MovingComponent, Telegram, ENTITY_MANAGER_ID, PLAYER_ID,
};
use crate::fixed::{div_toward_zero, trunc_div, UNITS_PER_PIXEL};
use crate::graphics::screen::Screen;
use crate::graphics::sprite::{AnimatedSprite, SpriteView};
use crate::input::keyboard::{KeyBoard, KEY_A, KEY_D, KEY_S, KEY_W};
use crate::level::room::{Room, TILE_PIXELS};
use crate::vector::Vec2;

verus! {

/// The mass of the player, in thousandths.
pub const PLAYER_MASS: i32 = 5000;

/// The strongest steering force that moves the player, in units.
pub const PLAYER_MAX_FORCE: i32 = 5000;

/// How many ticks the thrust of a key press lasts.
pub const THRUST_TICKS: i32 = 2;

/// How far a projectile of the player flies in a tick, in units.
pub const PROJECTILE_SPEED: i32 = 4000;

/// How far right of the corner of its sprite the box of the player starts.
pub const COLLIDER_LEFT: i32 = 3000;

/// How far below the corner of its sprite the box of the player starts.
pub const COLLIDER_TOP: i32 = 6000;

/// Width and height of the box of the player.
pub const COLLIDER_SIDE: i32 = 10000;

/// Half the side of a sprite, in units.
pub const HALF_SPRITE_UNITS: i32 = 8000;

/// What the player wants: where to go, and where to shoot.
#[derive(Debug, Eq, PartialEq, Copy, Clone, Structural)]
pub struct Intent {
    pub up: bool,
    pub down: bool,
    pub left: bool,
    pub right: bool,
    pub shoot_up: bool,
    pub shoot_down: bool,
    pub shoot_left: bool,
    pub shoot_right: bool,
}

/// The vector of length one pixel that points in `direction`.
pub open spec fn heading_of(direction: Direction) -> Vec2 {
    match direction {
        Direction::Up => Vec2 { x: 0, y: (-1000) as i32 },
        Direction::Down => Vec2 { x: 0, y: 1000 },
        Direction::Left => Vec2 { x: (-1000) as i32, y: 0 },
        Direction::Right => Vec2 { x: 1000, y: 0 },
    }
}

impl Intent {
    /// Whether the player wants to go anywhere.
    pub open spec fn moves(self) -> bool {
        self.up || self.down || self.left || self.right
    }

    /// One pixel for every way the player wants to go, opposite ways
    /// cancelling each other.
    pub open spec fn raw_force(self) -> Vec2 {
        Vec2 {
            x: ((if self.right { 1000int } else { 0int }) - (if self.left { 1000int } else { 0int })) as i32,
            y: ((if self.down { 1000int } else { 0int }) - (if self.up { 1000int } else { 0int })) as i32,
        }
    }

    pub open spec fn directions(self) -> Directions {
        Directions { up: self.up, down: self.down, left: self.left, right: self.right }
    }

    /// The way the player faces: the last of up, down, left and right that
    /// is wanted, or as before where none is.
    pub open spec fn facing(self, before: Direction) -> Direction {
        if self.right {
            Direction::Right
        } else if self.left {
            Direction::Left
        } else if self.down {
            Direction::Down
        } else if self.up {
            Direction::Up
        } else {
            before
        }
    }

    /// The way the player shoots: the last of up, down, left and right that
    /// is wanted, if any.
    pub open spec fn aim(self) -> Option<Direction> {
        if self.shoot_right {
            Some(Direction::Right)
        } else if self.shoot_left {
            Some(Direction::Left)
        } else if self.shoot_down {
            Some(Direction::Down)
        } else if self.shoot_up {
            Some(Direction::Up)
        } else {
            None
        }
    }

    /// The intent of a player who wants nothing.
    pub fn idle() -> (intent: Intent)
        ensures
            !intent.moves(),
            intent.aim() is None,
    {
        Intent {
            up: false,
            down: false,
            left: false,
            right: false,
            shoot_up: false,
            shoot_down: false,
            shoot_left: false,
            shoot_right: false,
        }
    }

    /// Arrow keys steer; W, S, A and D shoot up, down, left and right.
    pub fn from_keyboard(keyboard: &KeyBoard) -> (intent: Intent)
        ensures
            intent == (Intent {
                up: keyboard.up,
                down: keyboard.down,
                left: keyboard.left,
                right: keyboard.right,
                shoot_up: keyboard.keys@.contains(KEY_W),
                shoot_down: keyboard.keys@.contains(KEY_S),
                shoot_left: keyboard.keys@.contains(KEY_A),
                shoot_right: keyboard.keys@.contains(KEY_D),
            }),
    {
        Intent {
            up: keyboard.up,
            down: keyboard.down,
            left: keyboard.left,
            right: keyboard.right,
            shoot_up: keyboard.contains_key(&KEY_W),
            shoot_down: keyboard.contains_key(&KEY_S),
            shoot_left: keyboard.contains_key(&KEY_A),
            shoot_right: keyboard.contains_key(&KEY_D),
        }
    }
}

#[derive(Debug, Eq, PartialEq, Copy, Clone, Structural)]
pub enum PlayerState {
    Walking,
    Flying,
    Damaged,
    Dying,
}

pub struct Player {
    moving: MovingComponent,
    direction: Directions,
    sprite_direction: Direction,
    shoot_direction: Option<Direction>,
    removed: bool,
    sprites: Vec<(Direction, AnimatedSprite)>,
    collides: bool,
    id: EntityId,
    intent: Intent,
    states: Option<StateMachine<Self, PlayerState>>,
}

/// The box of a player whose sprite has its corner at `position`.
pub open spec fn player_collider(position: Vec2) -> Collider {
    Collider {
        origin: position.spec_plus(Vec2 { x: COLLIDER_LEFT, y: COLLIDER_TOP }),
        dimensions: Vec2 { x: COLLIDER_SIDE, y: COLLIDER_SIDE },
        kind: CollisionKind::Friendly,
    }
}

/// The place of the sprite for `direction` among `sprites`: the last entry
/// for it counts. Negative where there is none.
pub open spec fn sprite_slot(sprites: Seq<(Direction, AnimatedSprite)>, direction: Direction) -> int
    decreases sprites.len(),
{
    if sprites.len() == 0 {
        -1
    } else if sprites.last().0 == direction {
        sprites.len() - 1
    } else {
        sprite_slot(sprites.drop_last(), direction)
    }
}

/// There is a sound sprite for every direction.
pub open spec fn sprites_complete(sprites: Seq<(Direction, AnimatedSprite)>) -> bool {
    &&& sprite_slot(sprites, Direction::Up) >= 0
    &&& sprite_slot(sprites, Direction::Down) >= 0
    &&& sprite_slot(sprites, Direction::Left) >= 0
    &&& sprite_slot(sprites, Direction::Right) >= 0
    &&& forall|i: int| 0 <= i < sprites.len() ==> (#[trigger] sprites[i]).1.wf()
}

/// The tile column or row that a pixel coordinate falls into, rounded
/// toward zero.
pub open spec fn tile_of(pixel: int) -> int {
    div_toward_zero(pixel, TILE_PIXELS as int)
}

/// Whether the room blocks a box: whether the tile under any of its four
/// corners is solid. The corners are taken in whole pixels, the far ones one
/// pixel inside the box, which is as high as it is wide.
#[verifier::opaque]
pub open spec fn blocked(collider: Collider, room: Room) -> bool {
    let near = collider.origin.spec_to_pixels();
    let reach = div_toward_zero(collider.dimensions.x as int, UNITS_PER_PIXEL as int) - 1;
    let x0 = tile_of(near.x as int);
    let y0 = tile_of(near.y as int);
    let x7 = tile_of(near.x + reach);
    let y7 = tile_of(near.y + reach);
    ||| room.solid_at(x0, y0)
    ||| room.solid_at(x7, y0)
    ||| room.solid_at(x0, y7)
    ||| room.solid_at(x7, y7)
}

/// Where a player ends up who was at `from` and tries to go to `to`: the
/// move along x is undone if it leads into something solid, then the move
/// along y likewise.
pub open spec fn slid(from: Vec2, to: Vec2, room: Room) -> Vec2 {
    let x = if blocked(player_collider(Vec2 { x: to.x, y: from.y }), room) {
        from.x
    } else {
        to.x
    };
    let y = if blocked(player_collider(Vec2 { x, y: to.y }), room) {
        from.y
    } else {
        to.y
    };
    Vec2 { x, y }
}

impl Player {
    pub closed spec fn moving(self) -> MovingComponent {
        self.moving
    }

    /// The ways the player is going.
    pub closed spec fn directions(self) -> Directions {
        self.direction
    }

    /// The way the player faces.
    pub closed spec fn facing(self) -> Direction {
        self.sprite_direction
    }

    /// The way the player shoots, if at all.
    pub closed spec fn aim(self) -> Option<Direction> {
        self.shoot_direction
    }

    pub closed spec fn spec_removed(self) -> bool {
        self.removed
    }

    pub closed spec fn sprites(self) -> Seq<(Direction, AnimatedSprite)> {
        self.sprites@
    }

    pub closed spec fn spec_collides(self) -> bool {
        self.collides
    }

    pub closed spec fn spec_id(self) -> EntityId {
        self.id
    }

    pub closed spec fn intent(self) -> Intent {
        self.intent
    }

    pub closed spec fn machine(self) -> Option<StateMachine<Player, PlayerState>> {
        self.states
    }

    /// The same player under another handle.
    pub closed spec fn with_id(self, id: EntityId) -> Player {
        Player { id, ..self }
    }

    /// Another handle changes nothing else.
    pub proof fn lemma_with_id(self, id: EntityId)
        ensures
            self.with_id(id).model() == (EntityView { id, ..self.model() }),
            self.with_id(id).spec_id() == id,
            self.with_id(id).moving() == self.moving(),
            self.with_id(id).directions() == self.directions(),
            self.with_id(id).facing() == self.facing(),
            self.with_id(id).aim() == self.aim(),
            self.with_id(id).spec_removed() == self.spec_removed(),
            self.with_id(id).sprites() == self.sprites(),
            self.with_id(id).spec_collides() == self.spec_collides(),
            self.with_id(id).intent() == self.intent(),
            self.with_id(id).machine() == self.machine(),
            self.with_id(self.spec_id()) == self,
    {
    }

    /// The same player at another position.
    pub closed spec fn with_position(self, position: Vec2) -> Player {
        Player { moving: self.moving.with_position(position), ..self }
    }

    /// The same player with its hit flag set or cleared.
    pub closed spec fn with_collided(self, collided: bool) -> Player {
        Player { collides: collided, ..self }
    }

    /// Another position changes nothing that others see but the position
    /// and the box.
    pub proof fn lemma_with_position(self, position: Vec2)
        ensures
            self.with_position(position).model() == (EntityView {
                position,
                collider: Some(player_collider(position)),
                ..self.model()
            }),
            self.wf() ==> self.with_position(position).wf(),
            self.with_position(position).moving() == self.moving().with_position(position),
            self.with_position(position).directions() == self.directions(),
            self.with_position(position).facing() == self.facing(),
            self.with_position(position).aim() == self.aim(),
            self.with_position(position).spec_removed() == self.spec_removed(),
            self.with_position(position).sprites() == self.sprites(),
            self.with_position(position).spec_collides() == self.spec_collides(),
            self.with_position(position).spec_id() == self.spec_id(),
            self.with_position(position).intent() == self.intent(),
            self.with_position(position).machine() == self.machine(),
    {
        self.moving.lemma_with_position(position);
    }

    /// Setting the hit flag twice is the same as setting it once, and
    /// setting it to what it is changes nothing.
    pub proof fn lemma_with_collided(self)
        ensures
            self.with_collided(true).with_collided(true) == self.with_collided(true),
            self.with_collided(self.spec_collides()) == self,
            self.with_collided(true).spec_collides(),
            self.with_collided(true).model() == (EntityView { collided: true, ..self.model() }),
            self.wf() ==> self.with_collided(true).wf(),
            self.with_collided(true).moving() == self.moving(),
            self.with_collided(true).directions() == self.directions(),
            self.with_collided(true).facing() == self.facing(),
            self.with_collided(true).aim() == self.aim(),
            self.with_collided(true).spec_removed() == self.spec_removed(),
            self.with_collided(true).sprites() == self.sprites(),
            self.with_collided(true).spec_id() == self.spec_id(),
            self.with_collided(true).intent() == self.intent(),
            self.with_collided(true).machine() == self.machine(),
    {
    }

    /// The same player, marked for removal.
    pub closed spec fn with_removed(self) -> Player {
        Player { removed: true, ..self }
    }

    /// The mark for removal changes nothing else, and a second one changes
    /// nothing.
    pub proof fn lemma_with_removed(self)
        ensures
            self.with_removed().model() == (EntityView { removed: true, ..self.model() }),
            self.with_removed().spec_removed(),
            self.wf() ==> self.with_removed().wf(),
            self.with_removed().moving() == self.moving(),
            self.with_removed().directions() == self.directions(),
            self.with_removed().facing() == self.facing(),
            self.with_removed().aim() == self.aim(),
            self.with_removed().sprites() == self.sprites(),
            self.with_removed().spec_collides() == self.spec_collides(),
            self.with_removed().spec_id() == self.spec_id(),
            self.with_removed().intent() == self.intent(),
            self.with_removed().machine() == self.machine(),
            self.with_removed().with_removed() == self.with_removed(),
            self.spec_removed() ==> self.with_removed() == self,
    {
    }

    /// Another intent changes nothing else, and nothing that others see.
    pub proof fn lemma_with_intent(self, intent: Intent)
        ensures
            self.with_intent(intent).model() == self.model(),
            self.wf() ==> self.with_intent(intent).wf(),
            self.with_intent(intent).intent() == intent,
            self.with_intent(intent).moving() == self.moving(),
            self.with_intent(intent).directions() == self.directions(),
            self.with_intent(intent).facing() == self.facing(),
            self.with_intent(intent).aim() == self.aim(),
            self.with_intent(intent).spec_removed() == self.spec_removed(),
            self.with_intent(intent).sprites() == self.sprites(),
            self.with_intent(intent).spec_collides() == self.spec_collides(),
            self.with_intent(intent).spec_id() == self.spec_id(),
            self.with_intent(intent).machine() == self.machine(),
            self.with_intent(self.intent()) == self,
    {
    }

    /// The same player once it has been told what is wanted of it.
    pub closed spec fn with_intent(self, intent: Intent) -> Player {
        Player { intent, ..self }
    }

    /// The same player while its state machine is at work on it.
    pub closed spec fn without_machine(self) -> Player {
        Player { states: None, ..self }
    }

    /// The body is sound and there is a sprite for every direction.
    pub open spec fn parts_wf(self) -> bool {
        &&& self.moving().wf()
        &&& sprites_complete(self.sprites())
    }

    /// The direction whose sprite is shown: the way the player shoots, or
    /// else the way it faces.
    pub open spec fn shown_direction(self) -> Direction {
        match self.aim() {
            Some(direction) => direction,
            None => self.facing(),
        }
    }

    /// The place of the sprite that is shown.
    pub open spec fn shown_slot(self) -> int {
        sprite_slot(self.sprites(), self.shown_direction())
    }

    /// The middle of the sprite of the player.
    pub open spec fn spec_middle_point(self) -> Vec2 {
        self.moving().position().spec_plus(Vec2 { x: HALF_SPRITE_UNITS, y: HALF_SPRITE_UNITS })
    }

    /// Whether the sprite is drawn mirrored: when the player shoots left,
    /// or shoots nowhere and goes left.
    pub open spec fn mirrored(self) -> bool {
        match self.aim() {
            Some(direction) => direction == Direction::Left,
            None => self.directions().spec_contains(Direction::Left),
        }
    }

    /// Nothing but the body differs between the two players.
    pub open spec fn same_but_body(self, other: Player) -> bool {
        &&& self.directions() == other.directions()
        &&& self.facing() == other.facing()
        &&& self.aim() == other.aim()
        &&& self.spec_removed() == other.spec_removed()
        &&& self.sprites() == other.sprites()
        &&& self.spec_collides() == other.spec_collides()
        &&& self.spec_id() == other.spec_id()
        &&& self.intent() == other.intent()
        &&& self.machine() == other.machine()
    }

    /// A player at rest at the origin that faces right, walks, and wants
    /// what `intent` says. Of several sprites for one direction the last
    /// counts.
    pub fn new(
        max_speed: i32,
        sprites: Vec<(Direction, AnimatedSprite)>,
        intent: Intent,
        id: EntityId,
    ) -> (player: Player)
        requires
            max_speed >= 0,
            sprites_complete(sprites@),
        ensures
            player.wf(),
            player.moving().position() == (Vec2 { x: 0, y: 0 }),
            player.moving().velocity() == (Vec2 { x: 0, y: 0 }),
            player.moving().mass() == PLAYER_MASS,
            player.moving().max_speed() == max_speed,
            player.moving().max_force() == PLAYER_MAX_FORCE,
            player.directions() == Directions::spec_empty().spec_with(Direction::Right),
            player.facing() == Direction::Right,
            player.aim() is None,
            !player.spec_removed(),
            player.sprites() == sprites@,
            !player.spec_collides(),
            player.spec_id() == id,
            player.intent() == intent,
            player.machine() matches Some(machine) && machine.global() is None
                && machine.current() == PlayerState::Walking && machine.previous()
                == PlayerState::Walking,
    {
        Player {
            moving: MovingComponent::new(PLAYER_MASS, max_speed, PLAYER_MAX_FORCE),
            direction: Directions::only(Direction::Right),
            sprite_direction: Direction::Right,
            shoot_direction: None,
            removed: false,
            sprites,
            collides: false,
            id,
            intent,
            states: Some(StateMachine::new(None, PlayerState::Walking)),
        }
    }

    /// Tells the player what is wanted of it from now on.
    pub fn set_intent(&mut self, intent: Intent)
        ensures
            *final(self) == old(self).with_intent(intent),
            final(self).intent() == intent,
            final(self).moving() == old(self).moving(),
            final(self).directions() == old(self).directions(),
            final(self).facing() == old(self).facing(),
            final(self).aim() == old(self).aim(),
            final(self).spec_removed() == old(self).spec_removed(),
            final(self).sprites() == old(self).sprites(),
            final(self).spec_collides() == old(self).spec_collides(),
            final(self).spec_id() == old(self).spec_id(),
            final(self).machine() == old(self).machine(),
            final(self).model() == old(self).model(),
            old(self).wf() ==> final(self).wf(),
    {
        self.intent = intent;
    }

    /// Whether the room blocks the player where it stands.
    fn collision(&self, room: &Room) -> (hit: bool)
        requires
            room.wf(),
        ensures
            hit == blocked(player_collider(self.moving().position()), *room),
    {
        reveal(blocked);
        let collider = self.own_collider();
        let xy = collider.origin.to_pixels();
        let x0 = trunc_div(xy.x as i64, TILE_PIXELS);
        let y0 = trunc_div(xy.y as i64, TILE_PIXELS);
        let size_minus_one = trunc_div(collider.dimensions.x as i64, UNITS_PER_PIXEL as i64) - 1;
        let x7 = trunc_div(xy.x as i64 + size_minus_one, TILE_PIXELS);
        let y7 = trunc_div(xy.y as i64 + size_minus_one, TILE_PIXELS);
        let x0 = x0 as i32;
        let y0 = y0 as i32;
        let x7 = x7 as i32;
        let y7 = y7 as i32;

        if room.get_tile(x0, y0).solid || room.get_tile(x7, y0).solid {
            return true;
        }
        if room.get_tile(x0, y7).solid || room.get_tile(x7, y7).solid {
            return true;
        }
        if room.get_tile(x7, y0).solid || room.get_tile(x7, y7).solid {
            return true;
        }
        if room.get_tile(x0, y0).solid || room.get_tile(x0, y7).solid {
            return true;
        }
        false
    }

    fn own_collider(&self) -> (collider: Collider)
        ensures
            collider == player_collider(self.moving().position()),
    {
        Collider::new(
            self.moving.pos().plus(Vec2::new(COLLIDER_LEFT, COLLIDER_TOP)),
            Vec2::new(COLLIDER_SIDE, COLLIDER_SIDE),
            CollisionKind::Friendly,
        )
    }

    fn middle_point(&self) -> (point: Vec2)
        ensures
            point == self.spec_middle_point(),
    {
        self.moving.pos().plus(Vec2::new(HALF_SPRITE_UNITS, HALF_SPRITE_UNITS))
    }

    /// Finds the sprite for `direction`.
    fn find_sprite(&self, direction: Direction) -> (slot: usize)
        requires
            sprite_slot(self.sprites(), direction) >= 0,
        ensures
            slot == sprite_slot(self.sprites(), direction),
            slot < self.sprites().len(),
    {
        let mut i: usize = self.sprites.len();
        assert(self.sprites@.subrange(0, i as int) == self.sprites@);
        while i > 0
            invariant
                i <= self.sprites@.len(),
                sprite_slot(self.sprites@, direction) == sprite_slot(
                    self.sprites@.subrange(0, i as int),
                    direction,
                ),
                sprite_slot(self.sprites@, direction) >= 0,
            decreases i,
        {
            let ghost prefix = self.sprites@.subrange(0, i as int);
            i -= 1;
            assert(prefix.drop_last() == self.sprites@.subrange(0, i as int));
            if self.sprites[i].0 == direction {
                return i;
            }
        }
        0
    }

    fn shown(&self) -> (direction: Direction)
        ensures
            direction == self.shown_direction(),
    {
        match self.shoot_direction {
            Some(direction) => direction,
            None => self.sprite_direction,
        }
    }

    /// Turns the wish to go somewhere into a thrust, and looks that way.
    fn steer(&mut self)
        requires
            old(self).moving().wf(),
        ensures
            final(self).directions() == old(self).intent().directions(),
            final(self).facing() == old(self).intent().facing(old(self).facing()),
            final(self).moving() == if old(self).intent().moves() {
                old(self).moving().with_thrust(
                    Force::spec_new(
                        old(self).intent().raw_force().spec_normalize_to(UNITS_PER_PIXEL as int),
                        THRUST_TICKS,
                    ),
                )
            } else {
                old(self).moving()
            },
            final(self).moving().wf(),
            final(self).moving().position() == old(self).moving().position(),
            final(self).aim() == old(self).aim(),
            final(self).spec_removed() == old(self).spec_removed(),
            final(self).sprites() == old(self).sprites(),
            final(self).spec_collides() == old(self).spec_collides(),
            final(self).spec_id() == old(self).spec_id(),
            final(self).intent() == old(self).intent(),
            final(self).machine() == old(self).machine(),
    {
        let mut normalize = false;
        self.direction = Directions::empty();
        let mut force = Vec2::zero();
        if self.intent.up {
            force.y = force.y - UNITS_PER_PIXEL;
            self.direction.insert(Direction::Up);
            self.sprite_direction = Direction::Up;
            normalize = true;
        }
        if self.intent.down {
            force.y = force.y + UNITS_PER_PIXEL;
            self.direction.insert(Direction::Down);
            self.sprite_direction = Direction::Down;
            normalize = true;
        }
        if self.intent.left {
            force.x = force.x - UNITS_PER_PIXEL;
            self.direction.insert(Direction::Left);
            self.sprite_direction = Direction::Left;
            normalize = true;
        }
        if self.intent.right {
            force.x = force.x + UNITS_PER_PIXEL;
            self.direction.insert(Direction::Right);
            self.sprite_direction = Direction::Right;
            normalize = true;
        }
        if normalize {
            proof {
                self.moving.lemma_with_thrust(
                    Force::spec_new(
                        force.spec_normalize_to(UNITS_PER_PIXEL as int),
                        THRUST_TICKS,
                    ),
                );
            }
            self.moving.set_thrust(Force::new(force.normalize(), THRUST_TICKS));
        }
    }

    /// Turns the wish to shoot into a request for a projectile.
    fn take_aim(&mut self, dispatcher: &mut MessageDispatcher)
        requires
            old(dispatcher).wf(),
        ensures
            final(dispatcher).wf(),
            final(dispatcher)@ == shot(*old(self), old(dispatcher)@),
            final(self).aim() == old(self).intent().aim(),
            final(self).directions() == old(self).directions(),
            final(self).facing() == old(self).facing(),
            final(self).moving() == old(self).moving(),
            final(self).spec_removed() == old(self).spec_removed(),
            final(self).sprites() == old(self).sprites(),
            final(self).spec_collides() == old(self).spec_collides(),
            final(self).spec_id() == old(self).spec_id(),
            final(self).intent() == old(self).intent(),
            final(self).machine() == old(self).machine(),
    {
        self.shoot_direction = None;
        let mut proj_heading: Option<Vec2> = None;
        if self.intent.shoot_up {
            self.shoot_direction = Some(Direction::Up);
            proj_heading = Some(Vec2::new(0, -UNITS_PER_PIXEL));
        }
        if self.intent.shoot_down {
            self.shoot_direction = Some(Direction::Down);
            proj_heading = Some(Vec2::new(0, UNITS_PER_PIXEL));
        }
        if self.intent.shoot_left {
            self.shoot_direction = Some(Direction::Left);
            proj_heading = Some(Vec2::new(-UNITS_PER_PIXEL, 0));
        }
        if self.intent.shoot_right {
            self.shoot_direction = Some(Direction::Right);
            proj_heading = Some(Vec2::new(UNITS_PER_PIXEL, 0));
        }
        assert(match self.shoot_direction {
            Some(direction) => proj_heading == Some(heading_of(direction)),
            None => proj_heading is None,
        });
        if let Some(heading) = proj_heading {
            dispatcher.queue_message(
                PLAYER_ID,
                ENTITY_MANAGER_ID,
                Message::SpawnEntity(self.middle_point(), heading, PROJECTILE_SPEED),
            );
        }
    }

    /// Lets the body move for a tick from rest, then undoes along each axis
    /// what leads into something solid. Answers whether the body was
    /// accelerated enough to count.
    pub fn move_entity(&mut self, forces: &[Force], room: &Room) -> (moved: bool)
        requires
            old(self).moving().wf(),
            room.wf(),
        ensures
            final(self).same_but_body(*old(self)),
            final(self).moving().wf(),
            final(self).moving().same_build(old(self).moving()),
            old(self).moving().spec_thrust().ticks_to(final(self).moving().spec_thrust()),
            crate::entity::moving_component::aged(
                old(self).moving().active_forces() + forces@,
                final(self).moving().active_forces(),
            ),
            final(self).moving().velocity() == crate::entity::moving_component::limited_velocity(
                Vec2 { x: 0, y: 0 },
                final(self).moving().acceleration(),
                final(self).moving().max_speed(),
            ),
            final(self).moving().checkpoint() == old(self).moving().position(),
            final(self).moving().position() == slid(
                old(self).moving().position(),
                old(self).moving().position().spec_plus(final(self).moving().velocity()),
                *room,
            ),
            moved == (final(self).moving().acceleration().norm2()
                > crate::entity::moving_component::MOTION_THRESHOLD),
    {
        let old_pos = self.moving.pos();
        let moved = self.moving.update(forces, true);
        let new_pos = self.moving.pos();
        proof {
            self.moving.lemma_with_position(old_pos);
        }
        self.try_pos(Vec2::new(new_pos.x, old_pos.y), old_pos, room);
        let old_pos = self.moving.pos();
        self.try_pos(Vec2::new(old_pos.x, new_pos.y), old_pos, room);
        moved
    }

    /// Goes to `target` if the room lets the player stand there, and else
    /// to `fallback`.
    fn try_pos(&mut self, target: Vec2, fallback: Vec2, room: &Room)
        requires
            old(self).moving().wf(),
            room.wf(),
        ensures
            final(self).same_but_body(*old(self)),
            final(self).moving() == old(self).moving().with_position(
                if blocked(player_collider(target), *room) {
                    fallback
                } else {
                    target
                },
            ),
            final(self).moving().wf(),
            final(self).moving().position() == if blocked(player_collider(target), *room) {
                fallback
            } else {
                target
            },
            final(self).moving().spec_thrust() == old(self).moving().spec_thrust(),
            final(self).moving().checkpoint() == old(self).moving().checkpoint(),
            final(self).moving().velocity() == old(self).moving().velocity(),
            final(self).moving().active_forces() == old(self).moving().active_forces(),
            final(self).moving().same_build(old(self).moving()),
    {
        proof {
            self.moving.lemma_with_position(target);
            self.moving.lemma_with_position(fallback);
            self.moving.lemma_with_position_twice(target, fallback);
        }
        self.moving.set_pos(target);
        if self.collision(room) {
            self.moving.set_pos(fallback);
        }
    }

    /// Puts the player back where it was before its last move.
    pub fn reset_pos(&mut self)
        ensures
            final(self).same_but_body(*old(self)),
            final(self).moving() == old(self).moving().with_position(
                old(self).moving().checkpoint(),
            ),
    {
        self.moving.reset_pos();
    }
}

/// What a tick of walking makes of a player: the hit flag is cleared, the
/// ways it goes, faces and shoots follow its intent, and a wish to go
/// anywhere renews the thrust, one pixel long and good for two ticks.
pub open spec fn walked(before: Player, after: Player) -> bool {
    let intent = before.intent();
    &&& !after.spec_collides()
    &&& after.directions() == intent.directions()
    &&& after.facing() == intent.facing(before.facing())
    &&& after.aim() == intent.aim()
    &&& after.moving() == if intent.moves() {
        before.moving().with_thrust(
            Force::spec_new(intent.raw_force().spec_normalize_to(UNITS_PER_PIXEL as int), THRUST_TICKS),
        )
    } else {
        before.moving()
    }
    &&& after.spec_removed() == before.spec_removed()
    &&& after.sprites() == before.sprites()
    &&& after.spec_id() == before.spec_id()
    &&& after.intent() == before.intent()
    &&& after.machine() == before.machine()
}

/// What a tick of walking does to the queues: a wish to shoot asks the
/// manager for a projectile from the middle of the player.
pub open spec fn shot(before: Player, queues: crate::entity::Queues) -> crate::entity::Queues {
    match before.intent().aim() {
        Some(direction) => routed(
            queues,
            Telegram {
                sender: PLAYER_ID,
                receiver: ENTITY_MANAGER_ID,
                message: Message::SpawnEntity(
                    before.spec_middle_point(),
                    heading_of(direction),
                    PROJECTILE_SPEED,
                ),
            },
        ),
        None => queues,
    }
}

impl State<Player> for PlayerState {
    open spec fn fit(owner: Player) -> bool {
        owner.parts_wf()
    }

    open spec fn entered(&self, before: Scene<Player>, after: Scene<Player>) -> bool {
        after == before
    }

    open spec fn executed(&self, before: Scene<Player>, after: Scene<Player>) -> bool {
        match *self {
            PlayerState::Walking => walked(before.owner, after.owner) && after.queues == shot(
                before.owner,
                before.queues,
            ),
            _ => after == before,
        }
    }

    open spec fn exited(&self, before: Scene<Player>, after: Scene<Player>) -> bool {
        after == before
    }

    fn enter(&self, owner: &mut Player, dispatcher: &mut MessageDispatcher) {
    }

    fn execute(&self, owner: &mut Player, dispatcher: &mut MessageDispatcher) {
        match *self {
            PlayerState::Walking => {
                owner.collides = false;
                owner.steer();
                owner.take_aim(dispatcher);
            },
            _ => {},
        }
    }

    fn exit(&self, owner: &mut Player, dispatcher: &mut MessageDispatcher) {
    }
}

/// What the rest of a tick makes of a player once its state has run: the
/// body moves from rest and slides along what is solid, and the sprite that
/// is shown runs on if the thrust had magnitude before the move, and else
/// starts over.
pub open spec fn moved_and_animated(before: Player, room: Room, after: Player) -> bool {
    let slot = before.shown_slot();
    &&& after.directions() == before.directions()
    &&& after.facing() == before.facing()
    &&& after.aim() == before.aim()
    &&& after.spec_removed() == before.spec_removed()
    &&& after.spec_collides() == before.spec_collides()
    &&& after.spec_id() == before.spec_id()
    &&& after.intent() == before.intent()
    &&& after.moving().wf()
    &&& after.moving().same_build(before.moving())
    &&& before.moving().spec_thrust().ticks_to(after.moving().spec_thrust())
    &&& crate::entity::moving_component::aged(
        before.moving().active_forces(),
        after.moving().active_forces(),
    )
    &&& after.moving().velocity() == crate::entity::moving_component::limited_velocity(
        Vec2 { x: 0, y: 0 },
        after.moving().acceleration(),
        after.moving().max_speed(),
    )
    &&& after.moving().checkpoint() == before.moving().position()
    &&& after.moving().position() == slid(
        before.moving().position(),
        before.moving().position().spec_plus(after.moving().velocity()),
        room,
    )
    &&& after.sprites().len() == before.sprites().len()
    &&& forall|i: int|
        0 <= i < before.sprites().len() && i != slot ==> #[trigger] after.sprites()[i]
            == before.sprites()[i]
    &&& after.sprites()[slot].0 == before.sprites()[slot].0
    &&& if before.moving().spec_thrust().spec_has_magnitude() {
        before.sprites()[slot].1.steps_to(after.sprites()[slot].1)
    } else {
        before.sprites()[slot].1.resets_to(after.sprites()[slot].1)
    }
}

/// Whether a tick can turn a player and the queues into what stands
/// behind: the state machine runs for a tick on the player, which is then
/// moved and animated.
pub open spec fn player_ticked(
    before: Player,
    room: Room,
    queues: crate::entity::Queues,
    after: Player,
    queues_after: crate::entity::Queues,
) -> bool {
    &&& before.machine() is Some
    &&& after.machine() == before.machine()
    &&& exists|between: Player| #[trigger]
        ticked(
            before.machine()->0.global(),
            before.machine()->0.current(),
            Scene { owner: before.without_machine(), queues },
            Scene { owner: between, queues: queues_after },
        ) && moved_and_animated(between, room, after)
}

/// A tick leaves a player its handle and does not mark it for removal, and
/// it sends nothing to other entities.
pub proof fn lemma_player_ticked(
    before: Player,
    room: Room,
    queues: crate::entity::Queues,
    after: Player,
    queues_after: crate::entity::Queues,
)
    requires
        player_ticked(before, room, queues, after, queues_after),
    ensures
        after.spec_id() == before.spec_id(),
        after.spec_removed() == before.spec_removed(),
        queues_after.general == queues.general,
{
    let machine = before.machine()->0;
    let start = Scene { owner: before.without_machine(), queues };
    let between = choose|between: Player| #[trigger]
        ticked(
            machine.global(),
            machine.current(),
            start,
            Scene { owner: between, queues: queues_after },
        ) && moved_and_animated(between, room, after);
    let end = Scene { owner: between, queues: queues_after };
    match machine.global() {
        Some(state) => {
            let middle = choose|middle: Scene<Player>| #[trigger]
                state.executed(start, middle) && machine.current().executed(middle, end);
            lemma_executed(state, start, middle);
            lemma_executed(machine.current(), middle, end);
        },
        None => {
            lemma_executed(machine.current(), start, end);
        },
    }
}

/// A tick in any state leaves a player its handle and does not mark it for
/// removal, and it sends nothing to other entities.
pub proof fn lemma_executed(state: PlayerState, before: Scene<Player>, after: Scene<Player>)
    requires
        state.executed(before, after),
    ensures
        after.owner.spec_id() == before.owner.spec_id(),
        after.owner.spec_removed() == before.owner.spec_removed(),
        after.queues.general == before.queues.general,
{
}

/// Replacing the sprite in one place by another for the same direction
/// leaves every direction with its place.
proof fn lemma_slots_kept(
    before: Seq<(Direction, AnimatedSprite)>,
    after: Seq<(Direction, AnimatedSprite)>,
    direction: Direction,
)
    requires
        after.len() == before.len(),
        forall|i: int| 0 <= i < before.len() ==> (#[trigger] after[i]).0 == before[i].0,
    ensures
        sprite_slot(after, direction) == sprite_slot(before, direction),
    decreases before.len(),
{
    if before.len() > 0 {
        lemma_slots_kept(before.drop_last(), after.drop_last(), direction);
    }
}

impl Entity for Player {
    open spec fn wf(&self) -> bool {
        self.parts_wf() && self.machine() is Some
    }

    open spec fn model(&self) -> EntityView {
        EntityView {
            id: self.spec_id(),
            removed: self.spec_removed(),
            position: self.moving().position(),
            collider: Some(player_collider(self.moving().position())),
            collided: self.spec_collides(),
        }
    }

    open spec fn runs_into(&self, other: Option<Collider>) -> bool {
        match other {
            Some(collider) => collider.kind == CollisionKind::Hostile && player_collider(
                self.moving().position(),
            ).spec_intersects(collider),
            None => false,
        }
    }

    open spec fn spec_sprite_view(&self) -> Option<SpriteView<'_>> {
        Some(self.sprites()[self.shown_slot()].1.spec_view())
    }

    /// Lets the state machine run for a tick, then moves and animates the
    /// player.
    fn update(&mut self, room: &Room, dispatcher: &mut MessageDispatcher)
        ensures
            player_ticked(
                *old(self),
                *room,
                old(dispatcher)@,
                *final(self),
                final(dispatcher)@,
            ),
    {
        let states = self.states.take().unwrap();
        states.update(self, dispatcher);
        let ghost between = *self;
        self.states = Some(states);
        let update_sprite = self.moving.thrust().has_magnitude();
        let no_forces: Vec<Force> = Vec::new();
        self.move_entity(no_forces.as_slice(), room);
        let slot = self.find_sprite(self.shown());
        let ghost sprites_before = self.sprites@;
        if update_sprite {
            self.sprites[slot].1.update();
        } else {
            self.sprites[slot].1.reset();
        }
        proof {
            assert(between.moving().active_forces() + no_forces@
                == between.moving().active_forces());
            assert forall|i: int| 0 <= i < sprites_before.len() implies (#[trigger] self.sprites@[i]).0
                == sprites_before[i].0 by {}
            lemma_slots_kept(sprites_before, self.sprites@, Direction::Up);
            lemma_slots_kept(sprites_before, self.sprites@, Direction::Down);
            lemma_slots_kept(sprites_before, self.sprites@, Direction::Left);
            lemma_slots_kept(sprites_before, self.sprites@, Direction::Right);
        }
    }

    fn sprite_view(&self) -> (view: Option<SpriteView<'_>>) {
        let slot = self.find_sprite(self.shown());
        Some(self.sprites[slot].1.view())
    }

    /// Draws the sprite that is shown, mirrored where the player looks left.
    fn render(&self, screen: &mut Screen, offset: Vec2)
        ensures
            forall|sx: int, sy: int|
                0 <= sx < old(screen).spec_width() && 0 <= sy < old(screen).spec_height()
                    ==> #[trigger] final(screen).pixel(sx, sy) == crate::entity::sprite_drawn(
                    *old(screen),
                    self.spec_sprite_view()->0,
                    self.model().position.spec_on_screen(offset),
                    self.mirrored(),
                    sx,
                    sy,
                ),
    {
        let flip = match self.shoot_direction {
            Some(direction) => direction == Direction::Left,
            None => self.direction.contains(Direction::Left),
        };
        self.render_impl(screen, offset, flip);
    }

    fn remove(&mut self)
        ensures
            *final(self) == old(self).with_removed(),
            final(self).moving() == old(self).moving(),
            final(self).directions() == old(self).directions(),
            final(self).facing() == old(self).facing(),
            final(self).aim() == old(self).aim(),
            final(self).sprites() == old(self).sprites(),
            final(self).intent() == old(self).intent(),
            final(self).machine() == old(self).machine(),
    {
        self.removed = true;
    }

    fn is_removed(&self) -> (removed: bool) {
        self.removed
    }

    fn exact_pos(&self) -> (pos: Vec2) {
        self.moving.pos()
    }

    fn relative_pos(&self, offset: Vec2) -> (pos: Vec2) {
        self.moving.pos().on_screen(offset)
    }

    fn absolute_pos(&self) -> (pos: Vec2) {
        self.moving.pos().to_pixels()
    }

    fn collider(&self) -> (collider: Option<Collider>) {
        Some(self.own_collider())
    }

    fn collides_with(&mut self, other: &Option<Collider>) -> (hit: bool)
        ensures
            *final(self) == old(self).with_collided(old(self).spec_collides() || hit),
            final(self).moving() == old(self).moving(),
            final(self).directions() == old(self).directions(),
            final(self).facing() == old(self).facing(),
            final(self).aim() == old(self).aim(),
            final(self).sprites() == old(self).sprites(),
            final(self).intent() == old(self).intent(),
            final(self).machine() == old(self).machine(),
    {
        if let Some(collider) = other {
            if collider.hostile() {
                let collides = self.own_collider().intersects(collider);
                self.collides = self.collides || collides;
                return collides;
            }
        }
        false
    }

    fn collides(&self) -> (collided: bool) {
        self.collides
    }

    fn id(&self) -> (id: EntityId) {
        self.id
    }

    fn set_id(&mut self, id: EntityId)
        ensures
            *final(self) == old(self).with_id(id),
            final(self).moving() == old(self).moving(),
            final(self).directions() == old(self).directions(),
            final(self).facing() == old(self).facing(),
            final(self).aim() == old(self).aim(),
            final(self).sprites() == old(self).sprites(),
            final(self).intent() == old(self).intent(),
            final(self).machine() == old(self).machine(),
    {
        self.id = id;
    }

    fn handle_message(&mut self, _message: Telegram, _dispatcher: &mut MessageDispatcher)
        ensures
            *final(self) == *old(self),
            final(_dispatcher)@ == old(_dispatcher)@,
    {
    }

    fn set_pos(&mut self, pos: Vec2)
        ensures
            *final(self) == old(self).with_position(pos),
            final(self).same_but_body(*old(self)),
            final(self).moving() == old(self).moving().with_position(pos),
            final(self).model() == (EntityView {
                position: pos,
                collider: Some(player_collider(pos)),
                ..old(self).model()
            }),
    {
        proof {
            self.moving.lemma_with_position(pos);
        }
        self.moving.set_pos(pos);
    }
}

} // verus!
