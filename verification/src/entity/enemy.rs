//! Something in the way that does nothing but look alive.

use vstd::prelude::*;
use crate::entity::{
    Collider, CollisionKind, Direction, Entity, EntityId, EntityView, MessageDispatcher,
    INVALID_ID,
};
use crate::graphics::sprite::{AnimatedSprite, SpriteView};
use crate::level::room::Room;
use crate::vector::Vec2;

verus! {

pub struct Enemy {
    position: Vec2,
    _speed: i32,
    _direction: Direction,
    removed: bool,
    sprite: AnimatedSprite,
    _collides: bool,
    _flipped: bool,
    id: EntityId,
}

/// How far right of the corner of its sprite the box of an enemy starts.
pub const COLLIDER_LEFT: i32 = 1000;

/// How far below the corner of its sprite the box of an enemy starts.
pub const COLLIDER_TOP: i32 = 6000;

/// The width of the box of an enemy.
pub const COLLIDER_WIDTH: i32 = 14000;

/// The height of the box of an enemy.
pub const COLLIDER_HEIGHT: i32 = 10000;

/// The box of an enemy at `position`.
pub open spec fn enemy_collider(position: Vec2) -> Collider {
    Collider {
        origin: position.spec_plus(Vec2 { x: COLLIDER_LEFT, y: COLLIDER_TOP }),
        dimensions: Vec2 { x: COLLIDER_WIDTH, y: COLLIDER_HEIGHT },
        kind: CollisionKind::Hostile,
    }
}

impl Enemy {
    pub closed spec fn position(self) -> Vec2 {
        self.position
    }

    pub closed spec fn spec_id(self) -> EntityId {
        self.id
    }

    pub closed spec fn spec_removed(self) -> bool {
        self.removed
    }

    pub closed spec fn sprite(self) -> AnimatedSprite {
        self.sprite
    }

    /// The same enemy under another handle.
    pub closed spec fn with_id(self, id: EntityId) -> Enemy {
        Enemy { id, ..self }
    }

    /// Another handle changes nothing else: the enemy is where it was, and
    /// its animation is where it was.
    pub proof fn lemma_with_id(self, id: EntityId)
        ensures
            self.with_id(id).model() == (EntityView { id, ..self.model() }),
            self.with_id(id).spec_id() == id,
            self.with_id(id).position() == self.position(),
            self.with_id(id).sprite() == self.sprite(),
            self.with_id(id).spec_removed() == self.spec_removed(),
            self.wf() ==> self.with_id(id).wf(),
            self.with_id(self.spec_id()) == self,
    {
    }

    /// The same enemy at another position.
    pub closed spec fn with_position(self, position: Vec2) -> Enemy {
        Enemy { position, ..self }
    }

    /// Another position moves the box and changes nothing else: the enemy
    /// keeps its handle, and its animation is where it was.
    pub proof fn lemma_with_position(self, position: Vec2)
        ensures
            self.with_position(position).model() == (EntityView {
                position,
                collider: Some(enemy_collider(position)),
                ..self.model()
            }),
            self.with_position(position).position() == position,
            self.with_position(position).spec_id() == self.spec_id(),
            self.with_position(position).sprite() == self.sprite(),
            self.with_position(position).spec_removed() == self.spec_removed(),
            self.wf() ==> self.with_position(position).wf(),
            self.with_position(self.position()) == self,
    {
    }

    /// The same enemy, marked for removal.
    pub closed spec fn with_removed(self) -> Enemy {
        Enemy { removed: true, ..self }
    }

    /// The mark for removal changes nothing else, and a second one changes
    /// nothing.
    pub proof fn lemma_with_removed(self)
        ensures
            self.with_removed().model() == (EntityView { removed: true, ..self.model() }),
            self.with_removed().spec_removed(),
            self.with_removed().position() == self.position(),
            self.with_removed().spec_id() == self.spec_id(),
            self.with_removed().sprite() == self.sprite(),
            self.wf() ==> self.with_removed().wf(),
            self.with_removed().with_removed() == self.with_removed(),
            self.spec_removed() ==> self.with_removed() == self,
    {
    }

    /// Whether `later` is this enemy one tick later: nothing but its
    /// animation has moved on.
    pub open spec fn ticks_to(self, later: Enemy) -> bool {
        &&& later.position() == self.position()
        &&& later.spec_id() == self.spec_id()
        &&& later.spec_removed() == self.spec_removed()
        &&& self.sprite().steps_to(later.sprite())
    }

    /// An enemy that has not been registered.
    pub fn new(position: Vec2, _speed: i32, sprite: AnimatedSprite) -> (enemy: Enemy)
        requires
            sprite.wf(),
        ensures
            enemy.wf(),
            enemy.position() == position,
            enemy.spec_id() == INVALID_ID,
            !enemy.spec_removed(),
            enemy.sprite() == sprite,
    {
        Enemy {
            position,
            _speed,
            _direction: Direction::Right,
            removed: false,
            sprite,
            _collides: false,
            _flipped: false,
            id: INVALID_ID,
        }
    }
}

impl Entity for Enemy {
    open spec fn wf(&self) -> bool {
        self.sprite().wf()
    }

    open spec fn model(&self) -> EntityView {
        EntityView {
            id: self.spec_id(),
            removed: self.spec_removed(),
            position: self.position(),
            collider: Some(enemy_collider(self.position())),
            collided: false,
        }
    }

    open spec fn runs_into(&self, other: Option<Collider>) -> bool {
        false
    }

    open spec fn spec_sprite_view(&self) -> Option<SpriteView<'_>> {
        Some(self.sprite().spec_view())
    }

    /// Lets the animation run on.
    fn update(&mut self, _room: &Room, _dispatcher: &mut MessageDispatcher)
        ensures
            old(self).ticks_to(*final(self)),
            final(_dispatcher)@ == old(_dispatcher)@,
    {
        self.sprite.update()
    }

    fn sprite_view(&self) -> (view: Option<SpriteView<'_>>) {
        Some(self.sprite.view())
    }

    fn remove(&mut self)
        ensures
            *final(self) == old(self).with_removed(),
            final(self).sprite() == old(self).sprite(),
    {
        self.removed = true;
    }

    fn is_removed(&self) -> (removed: bool) {
        self.removed
    }

    fn set_pos(&mut self, pos: Vec2)
        ensures
            *final(self) == old(self).with_position(pos),
            final(self).sprite() == old(self).sprite(),
            final(self).model() == (EntityView {
                position: pos,
                collider: Some(enemy_collider(pos)),
                ..old(self).model()
            }),
    {
        self.position = pos;
    }

    fn exact_pos(&self) -> (pos: Vec2) {
        self.position
    }

    fn relative_pos(&self, offset: Vec2) -> (pos: Vec2) {
        self.position.on_screen(offset)
    }

    fn absolute_pos(&self) -> (pos: Vec2) {
        self.position.to_pixels()
    }

    fn collider(&self) -> (collider: Option<Collider>) {
        Some(
            Collider::new(
                self.position.plus(Vec2::new(COLLIDER_LEFT, COLLIDER_TOP)),
                Vec2::new(COLLIDER_WIDTH, COLLIDER_HEIGHT),
                CollisionKind::Hostile,
            ),
        )
    }

    fn collides_with(&mut self, _other: &Option<Collider>) -> (hit: bool)
        ensures
            *final(self) == *old(self),
    {
        false
    }

    fn collides(&self) -> (collided: bool) {
        false
    }

    fn id(&self) -> (id: EntityId) {
        self.id
    }

    fn set_id(&mut self, id: EntityId)
        ensures
            *final(self) == old(self).with_id(id),
            final(self).sprite() == old(self).sprite(),
    {
        self.id = id;
    }
}

} // verus!
