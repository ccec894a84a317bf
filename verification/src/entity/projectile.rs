//! Something that flies straight until it leaves the room.

use vstd::prelude::*;
use crate::entity::{
    Collider, CollisionKind, Entity, EntityId, EntityView, MessageDispatcher, Telegram,
};
use crate::fixed::UNITS_PER_PIXEL;
use crate::graphics::pixels::Color;
use crate::graphics::screen::Screen;
use crate::graphics::sprite::SpriteView;
use crate::level::room::{Room, TILE_UNITS};
use crate::vector::Vec2;

verus! {

pub struct Projectile {
    position: Vec2,
    heading: Vec2,
    speed: i32,
    removed: bool,
    id: EntityId,
    collides: bool,
}

/// Whether a point, in units, lies outside the room: left of or above its
/// origin, or beyond its width or height.
pub open spec fn outside_room(position: Vec2, room: Room) -> bool {
    ||| position.x < 0
    ||| position.x > room.dimensions.x * TILE_UNITS
    ||| position.y < 0
    ||| position.y > room.dimensions.y * TILE_UNITS
}

/// The box of a projectile at `position`: one pixel wide and high.
pub open spec fn projectile_collider(position: Vec2) -> Collider {
    Collider {
        origin: position,
        dimensions: Vec2 { x: UNITS_PER_PIXEL, y: UNITS_PER_PIXEL },
        kind: CollisionKind::Friendly,
    }
}

impl Projectile {
    pub closed spec fn position(self) -> Vec2 {
        self.position
    }

    /// The direction of flight: a vector whose length is that of one pixel.
    pub closed spec fn heading(self) -> Vec2 {
        self.heading
    }

    /// How far the projectile flies in a tick, in units.
    pub closed spec fn speed(self) -> int {
        self.speed as int
    }

    pub closed spec fn spec_id(self) -> EntityId {
        self.id
    }

    pub closed spec fn spec_removed(self) -> bool {
        self.removed
    }

    pub closed spec fn spec_collides(self) -> bool {
        self.collides
    }

    /// How far the projectile flies in a tick, as a vector.
    pub open spec fn step(self) -> Vec2 {
        self.heading().spec_scaled(self.speed(), UNITS_PER_PIXEL as int)
    }

    /// The same projectile under another handle.
    pub closed spec fn with_id(self, id: EntityId) -> Projectile {
        Projectile { id, ..self }
    }

    /// Another handle changes nothing else: the projectile is where it
    /// was and flies as it flew.
    pub proof fn lemma_with_id(self, id: EntityId)
        ensures
            self.with_id(id).model() == (EntityView { id, ..self.model() }),
            self.with_id(id).spec_id() == id,
            self.with_id(id).position() == self.position(),
            self.with_id(id).same_flight(self),
            self.with_id(id).spec_removed() == self.spec_removed(),
            self.with_id(id).spec_collides() == self.spec_collides(),
            self.with_id(self.spec_id()) == self,
    {
    }

    /// Whether `later` is this projectile one tick later in `room`: one step
    /// further on, and marked for removal if it was outside the room or has
    /// now left it.
    pub open spec fn flies_to(self, room: Room, later: Projectile) -> bool {
        &&& later.position() == self.position().spec_plus(self.step())
        &&& later.same_flight(self)
        &&& later.spec_id() == self.spec_id()
        &&& later.spec_collides() == self.spec_collides()
        &&& later.spec_removed() == (self.spec_removed() || outside_room(self.position(), room)
            || outside_room(later.position(), room))
    }

    /// The same projectile at another position.
    pub closed spec fn with_position(self, position: Vec2) -> Projectile {
        Projectile { position, ..self }
    }

    /// The same projectile with its hit flag set or cleared.
    pub closed spec fn with_collided(self, collided: bool) -> Projectile {
        Projectile { collides: collided, ..self }
    }

    /// Another position moves the box and changes nothing else: the
    /// projectile keeps its handle and flies as it flew.
    pub proof fn lemma_with_position(self, position: Vec2)
        ensures
            self.with_position(position).model() == (EntityView {
                position,
                collider: Some(projectile_collider(position)),
                ..self.model()
            }),
            self.with_position(position).position() == position,
            self.with_position(position).same_flight(self),
            self.with_position(position).spec_id() == self.spec_id(),
            self.with_position(position).spec_removed() == self.spec_removed(),
            self.with_position(position).spec_collides() == self.spec_collides(),
            self.with_position(self.position()) == self,
    {
    }

    /// Setting the hit flag twice is the same as setting it once, and
    /// setting it to what it is changes nothing.
    pub proof fn lemma_with_collided(self)
        ensures
            self.with_collided(true).with_collided(true) == self.with_collided(true),
            self.with_collided(self.spec_collides()) == self,
            self.with_collided(true).spec_collides(),
            self.with_collided(true).model() == (EntityView { collided: true, ..self.model() }),
            self.with_collided(true).position() == self.position(),
            self.with_collided(true).same_flight(self),
            self.with_collided(true).spec_id() == self.spec_id(),
            self.with_collided(true).spec_removed() == self.spec_removed(),
    {
    }

    /// The same projectile, marked for removal.
    pub closed spec fn with_removed(self) -> Projectile {
        Projectile { removed: true, ..self }
    }

    /// The mark for removal changes nothing else, and a second one changes
    /// nothing.
    pub proof fn lemma_with_removed(self)
        ensures
            self.with_removed().model() == (EntityView { removed: true, ..self.model() }),
            self.with_removed().spec_removed(),
            self.with_removed().position() == self.position(),
            self.with_removed().same_flight(self),
            self.with_removed().spec_id() == self.spec_id(),
            self.with_removed().spec_collides() == self.spec_collides(),
            self.with_removed().with_removed() == self.with_removed(),
            self.spec_removed() ==> self.with_removed() == self,
    {
    }

    /// Heading and speed are those of `other`.
    pub open spec fn same_flight(self, other: Projectile) -> bool {
        &&& self.heading() == other.heading()
        &&& self.speed() == other.speed()
    }

    /// A projectile at `position` that has hit nothing yet.
    pub closed spec fn spec_new(position: Vec2, heading: Vec2, speed: i32, id: EntityId)
        -> Projectile {
        Projectile { position, heading, speed, removed: false, id, collides: false }
    }

    /// A new projectile is where it was put, flies as it was told, and is
    /// neither removed nor has it hit anything.
    pub proof fn lemma_spec_new(position: Vec2, heading: Vec2, speed: i32, id: EntityId)
        ensures
            Projectile::spec_new(position, heading, speed, id).position() == position,
            Projectile::spec_new(position, heading, speed, id).heading() == heading,
            Projectile::spec_new(position, heading, speed, id).speed() == speed,
            Projectile::spec_new(position, heading, speed, id).spec_id() == id,
            !Projectile::spec_new(position, heading, speed, id).spec_removed(),
            !Projectile::spec_new(position, heading, speed, id).spec_collides(),
            Projectile::spec_new(position, heading, speed, id).model() == (EntityView {
                id,
                removed: false,
                position,
                collider: Some(projectile_collider(position)),
                collided: false,
            }),
    {
    }

    pub fn new(position: Vec2, heading: Vec2, speed: i32, id: EntityId) -> (projectile: Projectile)
        ensures
            projectile == Projectile::spec_new(position, heading, speed, id),
            projectile.position() == position,
            projectile.heading() == heading,
            projectile.speed() == speed,
            projectile.spec_id() == id,
            !projectile.spec_removed(),
            !projectile.spec_collides(),
    {
        Projectile { position, heading, speed, removed: false, id, collides: false }
    }

    /// Whether the projectile is outside the room.
    fn has_left(&self, room: &Room) -> (left: bool)
        ensures
            left == outside_room(self.position(), *room),
    {
        let width: i64 = room.dimensions.x as i64 * TILE_UNITS;
        let height: i64 = room.dimensions.y as i64 * TILE_UNITS;
        self.position.x < 0 || self.position.x as i64 > width || self.position.y < 0
            || self.position.y as i64 > height
    }

    /// Whether the room stops a move by `offset`. Nothing stops a
    /// projectile.
    fn collision(&self, _room: &Room, _offset: Vec2) -> (stopped: bool)
        ensures
            !stopped,
    {
        false
    }
}

impl Entity for Projectile {
    open spec fn wf(&self) -> bool {
        true
    }

    open spec fn model(&self) -> EntityView {
        EntityView {
            id: self.spec_id(),
            removed: self.spec_removed(),
            position: self.position(),
            collider: Some(projectile_collider(self.position())),
            collided: self.spec_collides(),
        }
    }

    open spec fn runs_into(&self, other: Option<Collider>) -> bool {
        match other {
            Some(collider) => projectile_collider(self.position()).spec_intersects(collider),
            None => false,
        }
    }

    open spec fn spec_sprite_view(&self) -> Option<SpriteView<'_>> {
        None
    }

    fn move_entity(&mut self, distance: Vec2, room: &Room)
        ensures
            *final(self) == old(self).with_position(old(self).position().spec_plus(distance)),
            final(self).position() == old(self).position().spec_plus(distance),
            final(self).same_flight(*old(self)),
            final(self).model() == (EntityView {
                position: final(self).position(),
                collider: Some(projectile_collider(final(self).position())),
                ..old(self).model()
            }),
    {
        if !self.collision(room, distance) {
            self.position = self.position.plus(distance);
        }
    }

    /// Flies on by one step, and marks the projectile for removal on the
    /// first tick that finds or leaves it outside the room.
    fn update(&mut self, room: &Room, _dispatcher: &mut MessageDispatcher)
        ensures
            old(self).flies_to(*room, *final(self)),
            final(_dispatcher)@ == old(_dispatcher)@,
    {
        if self.has_left(room) {
            self.remove();
        }
        let dist = self.heading.scaled(self.speed, UNITS_PER_PIXEL);
        self.move_entity(dist, room);
        if self.has_left(room) {
            self.remove();
        }
    }

    /// Draws one black pixel where the projectile is, unless that is left of
    /// or above the screen.
    fn render(&self, screen: &mut Screen, offset: Vec2)
        ensures
            forall|sx: int, sy: int|
                0 <= sx < old(screen).spec_width() && 0 <= sy < old(screen).spec_height()
                    ==> #[trigger] final(screen).pixel(sx, sy) == if sx == self.position().spec_on_screen(
                    offset,
                ).x && sy == self.position().spec_on_screen(offset).y {
                    Color::spec_black()
                } else {
                    old(screen).pixel(sx, sy)
                },
    {
        let spot = self.relative_pos(offset);
        if spot.x >= 0 && spot.y >= 0 {
            screen.put_pixel(spot.x as u32, spot.y as u32, Color::black());
        }
    }

    fn sprite_view(&self) -> (view: Option<SpriteView<'_>>) {
        None
    }

    fn remove(&mut self)
        ensures
            *final(self) == old(self).with_removed(),
            final(self).position() == old(self).position(),
            final(self).same_flight(*old(self)),
    {
        self.removed = true;
    }

    fn is_removed(&self) -> (removed: bool) {
        self.removed
    }

    fn exact_pos(&self) -> (pos: Vec2) {
        self.position
    }

    fn relative_pos(&self, offset: Vec2) -> (pos: Vec2) {
        self.position.on_screen(offset)
    }

    fn absolute_pos(&self) -> (pos: Vec2) {
        self.position.to_pixels()
    }

    fn collider(&self) -> (collider: Option<Collider>) {
        Some(
            Collider::new(
                self.position,
                Vec2::new(UNITS_PER_PIXEL, UNITS_PER_PIXEL),
                CollisionKind::Friendly,
            ),
        )
    }

    fn collides_with(&mut self, other: &Option<Collider>) -> (hit: bool)
        ensures
            *final(self) == old(self).with_collided(old(self).spec_collides() || hit),
            final(self).position() == old(self).position(),
            final(self).same_flight(*old(self)),
    {
        if let Some(collider) = other {
            let own = Collider::new(
                self.position,
                Vec2::new(UNITS_PER_PIXEL, UNITS_PER_PIXEL),
                CollisionKind::Friendly,
            );
            let collides = own.intersects(collider);
            self.collides = self.collides || collides;
            return collides;
        }
        false
    }

    fn collides(&self) -> (collided: bool) {
        self.collides
    }

    fn id(&self) -> (id: EntityId) {
        self.id
    }

    fn set_id(&mut self, id: EntityId)
        ensures
            *final(self) == old(self).with_id(id),
            final(self).position() == old(self).position(),
            final(self).same_flight(*old(self)),
    {
        self.id = id;
    }

    fn handle_message(&mut self, _message: Telegram, _dispatcher: &mut MessageDispatcher)
        ensures
            *final(self) == *old(self),
            final(_dispatcher)@ == old(_dispatcher)@,
    {
    }

    fn set_pos(&mut self, pos: Vec2)
        ensures
            *final(self) == old(self).with_position(pos),
            final(self).same_flight(*old(self)),
            final(self).model() == (EntityView {
                position: pos,
                collider: Some(projectile_collider(pos)),
                ..old(self).model()
            }),
    {
        self.position = pos;
    }
}

} // verus!
