//! The entities that a manager can own.

use vstd::prelude::*;
use crate::entity::door::door_reply;
use crate::entity::enemy::enemy_collider;
use crate::entity::player::{player_collider, player_ticked};
use crate::entity::projectile::projectile_collider;
use crate::entity::{
    sprite_drawn, Collider, Door, Enemy, Entity, EntityId, EntityView, Intent, MessageDispatcher,
    Player, Projectile, Queues, Telegram,
};
use crate::graphics::pixels::Color;
use crate::graphics::screen::Screen;
use crate::graphics::sprite::SpriteView;
use crate::level::room::Room;
use crate::vector::Vec2;

verus! {

/// Any one of the kinds of entity.
pub enum AnyEntity {
    Player(Player),
    Enemy(Enemy),
    Projectile(Projectile),
    Door(Door),
}

impl AnyEntity {
    /// Both are entities of one kind.
    pub open spec fn same_kind(self, other: AnyEntity) -> bool {
        match (self, other) {
            (AnyEntity::Player(_), AnyEntity::Player(_)) => true,
            (AnyEntity::Enemy(_), AnyEntity::Enemy(_)) => true,
            (AnyEntity::Projectile(_), AnyEntity::Projectile(_)) => true,
            (AnyEntity::Door(_), AnyEntity::Door(_)) => true,
            _ => false,
        }
    }

    /// The same entity under another handle.
    pub open spec fn with_id(self, id: EntityId) -> AnyEntity {
        match self {
            AnyEntity::Player(player) => AnyEntity::Player(player.with_id(id)),
            AnyEntity::Enemy(enemy) => AnyEntity::Enemy(enemy.with_id(id)),
            AnyEntity::Projectile(projectile) => AnyEntity::Projectile(projectile.with_id(id)),
            AnyEntity::Door(door) => AnyEntity::Door(door.with_id(id)),
        }
    }

    /// The same entity at another position.
    pub open spec fn with_position(self, position: Vec2) -> AnyEntity {
        match self {
            AnyEntity::Player(player) => AnyEntity::Player(player.with_position(position)),
            AnyEntity::Enemy(enemy) => AnyEntity::Enemy(enemy.with_position(position)),
            AnyEntity::Projectile(projectile) => AnyEntity::Projectile(
                projectile.with_position(position),
            ),
            AnyEntity::Door(door) => AnyEntity::Door(door.with_position(position)),
        }
    }

    /// The same entity, marked for removal.
    pub open spec fn with_removed(self) -> AnyEntity {
        match self {
            AnyEntity::Player(player) => AnyEntity::Player(player.with_removed()),
            AnyEntity::Enemy(enemy) => AnyEntity::Enemy(enemy.with_removed()),
            AnyEntity::Projectile(projectile) => AnyEntity::Projectile(projectile.with_removed()),
            AnyEntity::Door(door) => AnyEntity::Door(door.with_removed()),
        }
    }

    /// The same entity once it has been asked to move by `distance`: a
    /// projectile is that much further on, and nothing else moves when it
    /// is asked to.
    pub open spec fn moved_by(self, distance: Vec2) -> AnyEntity {
        match self {
            AnyEntity::Projectile(projectile) => AnyEntity::Projectile(
                projectile.with_position(projectile.position().spec_plus(distance)),
            ),
            _ => self,
        }
    }

    /// The same entity with its hit flag set or cleared. Enemies and doors
    /// have no such flag.
    pub open spec fn with_collided(self, collided: bool) -> AnyEntity {
        match self {
            AnyEntity::Player(player) => AnyEntity::Player(player.with_collided(collided)),
            AnyEntity::Projectile(projectile) => AnyEntity::Projectile(
                projectile.with_collided(collided),
            ),
            _ => self,
        }
    }

    /// The same entity once it has been told what is wanted of it. Only a
    /// player listens.
    pub open spec fn with_intent(self, intent: Intent) -> AnyEntity {
        match self {
            AnyEntity::Player(player) => AnyEntity::Player(player.with_intent(intent)),
            _ => self,
        }
    }

    /// Tells the entity what is wanted of it. Only a player listens.
    pub fn set_intent(&mut self, intent: Intent)
        requires
            old(self).wf(),
        ensures
            *final(self) == old(self).with_intent(intent),
            final(self).wf(),
            final(self).model() == old(self).model(),
            final(self).same_kind(*old(self)),
    {
        match self {
            AnyEntity::Player(player) => player.set_intent(intent),
            _ => {},
        }
    }

    /// The box that the entity has when it is at `position`.
    pub open spec fn collider_at(self, position: Vec2) -> Option<Collider> {
        match self {
            AnyEntity::Player(_) => Some(player_collider(position)),
            AnyEntity::Enemy(_) => Some(enemy_collider(position)),
            AnyEntity::Projectile(_) => Some(projectile_collider(position)),
            AnyEntity::Door(door) => Some(Collider { origin: position, ..door.bounds() }),
        }
    }

    /// Whether a tick in `room` can turn the entity and the queues into
    /// what stands behind.
    pub open spec fn ticks_to(
        self,
        room: Room,
        queues: Queues,
        later: AnyEntity,
        queues_later: Queues,
    ) -> bool {
        match (self, later) {
            (AnyEntity::Player(before), AnyEntity::Player(after)) => player_ticked(
                before,
                room,
                queues,
                after,
                queues_later,
            ),
            (AnyEntity::Enemy(before), AnyEntity::Enemy(after)) => before.ticks_to(after)
                && queues_later == queues,
            (AnyEntity::Projectile(before), AnyEntity::Projectile(after)) => before.flies_to(
                room,
                after,
            ) && queues_later == queues,
            (AnyEntity::Door(before), AnyEntity::Door(after)) => after == before && queues_later
                == queues,
            _ => false,
        }
    }

    /// What the entity makes of the queues when it is handed a telegram.
    /// Only a door ever answers.
    pub open spec fn reply(self, telegram: Telegram, queues: Queues) -> Queues {
        match self {
            AnyEntity::Door(door) => door_reply(door, telegram, queues),
            _ => queues,
        }
    }

    /// Whether drawing the entity on a screen scrolled by `offset` turns
    /// `before` into `after`.
    pub open spec fn drawn(self, offset: Vec2, before: Screen, after: Screen) -> bool {
        &&& after.wf()
        &&& after.same_frame(before)
        &&& forall|sx: int, sy: int|
            0 <= sx < before.spec_width() && 0 <= sy < before.spec_height()
                ==> #[trigger] after.pixel(sx, sy) == self.drawn_pixel(offset, before, sx, sy)
    }

    /// The colour at `(sx, sy)` once the entity has been drawn: a player
    /// and an enemy show their sprite, a projectile one black pixel, a door
    /// nothing.
    pub open spec fn drawn_pixel(self, offset: Vec2, before: Screen, sx: int, sy: int) -> Color {
        let spot = self.model().position.spec_on_screen(offset);
        match self {
            AnyEntity::Player(player) => sprite_drawn(
                before,
                player.spec_sprite_view()->0,
                spot,
                player.mirrored(),
                sx,
                sy,
            ),
            AnyEntity::Enemy(enemy) => sprite_drawn(
                before,
                enemy.spec_sprite_view()->0,
                spot,
                false,
                sx,
                sy,
            ),
            AnyEntity::Projectile(_) => if sx == spot.x && sy == spot.y {
                Color::spec_black()
            } else {
                before.pixel(sx, sy)
            },
            AnyEntity::Door(_) => before.pixel(sx, sy),
        }
    }
}

/// A tick leaves an entity its handle and its kind and sends nothing to
/// other entities, and it never marks a player for removal.
pub proof fn lemma_ticks_to(
    before: AnyEntity,
    room: Room,
    queues: Queues,
    after: AnyEntity,
    queues_after: Queues,
)
    requires
        before.ticks_to(room, queues, after, queues_after),
    ensures
        after.model().id == before.model().id,
        after.same_kind(before),
        before is Player ==> after.model().removed == before.model().removed,
        queues_after.general == queues.general,
{
    match (before, after) {
        (AnyEntity::Player(a), AnyEntity::Player(b)) => {
            crate::entity::player::lemma_player_ticked(a, room, queues, b, queues_after);
        },
        _ => {},
    }
}

impl Entity for AnyEntity {
    open spec fn wf(&self) -> bool {
        match self {
            AnyEntity::Player(player) => player.wf(),
            AnyEntity::Enemy(enemy) => enemy.wf(),
            AnyEntity::Projectile(projectile) => projectile.wf(),
            AnyEntity::Door(door) => door.wf(),
        }
    }

    open spec fn model(&self) -> EntityView {
        match self {
            AnyEntity::Player(player) => player.model(),
            AnyEntity::Enemy(enemy) => enemy.model(),
            AnyEntity::Projectile(projectile) => projectile.model(),
            AnyEntity::Door(door) => door.model(),
        }
    }

    open spec fn runs_into(&self, other: Option<Collider>) -> bool {
        match self {
            AnyEntity::Player(player) => player.runs_into(other),
            AnyEntity::Enemy(enemy) => enemy.runs_into(other),
            AnyEntity::Projectile(projectile) => projectile.runs_into(other),
            AnyEntity::Door(door) => door.runs_into(other),
        }
    }

    open spec fn spec_sprite_view(&self) -> Option<SpriteView<'_>> {
        match self {
            AnyEntity::Player(player) => player.spec_sprite_view(),
            AnyEntity::Enemy(enemy) => enemy.spec_sprite_view(),
            AnyEntity::Projectile(projectile) => projectile.spec_sprite_view(),
            AnyEntity::Door(door) => door.spec_sprite_view(),
        }
    }

    fn update(&mut self, room: &Room, dispatcher: &mut MessageDispatcher)
        ensures
            old(self).ticks_to(*room, old(dispatcher)@, *final(self), final(dispatcher)@),
            final(self).same_kind(*old(self)),
    {
        match self {
            AnyEntity::Player(player) => player.update(room, dispatcher),
            AnyEntity::Enemy(enemy) => enemy.update(room, dispatcher),
            AnyEntity::Projectile(projectile) => projectile.update(room, dispatcher),
            AnyEntity::Door(door) => door.update(room, dispatcher),
        }
    }

    fn render(&self, screen: &mut Screen, offset: Vec2)
        ensures
            self.drawn(offset, *old(screen), *final(screen)),
    {
        match self {
            AnyEntity::Player(player) => player.render(screen, offset),
            AnyEntity::Enemy(enemy) => enemy.render(screen, offset),
            AnyEntity::Projectile(projectile) => projectile.render(screen, offset),
            AnyEntity::Door(door) => door.render(screen, offset),
        }
    }

    fn sprite_view(&self) -> (view: Option<SpriteView<'_>>) {
        match self {
            AnyEntity::Player(player) => player.sprite_view(),
            AnyEntity::Enemy(enemy) => enemy.sprite_view(),
            AnyEntity::Projectile(projectile) => projectile.sprite_view(),
            AnyEntity::Door(door) => door.sprite_view(),
        }
    }

    fn move_entity(&mut self, distance: Vec2, room: &Room)
        ensures
            *final(self) == old(self).moved_by(distance),
            final(self).same_kind(*old(self)),
    {
        match self {
            AnyEntity::Player(player) => Entity::move_entity(player, distance, room),
            AnyEntity::Enemy(enemy) => enemy.move_entity(distance, room),
            AnyEntity::Projectile(projectile) => projectile.move_entity(distance, room),
            AnyEntity::Door(door) => door.move_entity(distance, room),
        }
    }

    fn remove(&mut self)
        ensures
            *final(self) == old(self).with_removed(),
            final(self).same_kind(*old(self)),
    {
        match self {
            AnyEntity::Player(player) => player.remove(),
            AnyEntity::Enemy(enemy) => enemy.remove(),
            AnyEntity::Projectile(projectile) => projectile.remove(),
            AnyEntity::Door(door) => door.remove(),
        }
    }

    fn is_removed(&self) -> (removed: bool) {
        match self {
            AnyEntity::Player(player) => player.is_removed(),
            AnyEntity::Enemy(enemy) => enemy.is_removed(),
            AnyEntity::Projectile(projectile) => projectile.is_removed(),
            AnyEntity::Door(door) => door.is_removed(),
        }
    }

    fn set_pos(&mut self, pos: Vec2)
        ensures
            *final(self) == old(self).with_position(pos),
            final(self).same_kind(*old(self)),
            final(self).model() == (EntityView {
                position: pos,
                collider: old(self).collider_at(pos),
                ..old(self).model()
            }),
    {
        match self {
            AnyEntity::Player(player) => player.set_pos(pos),
            AnyEntity::Enemy(enemy) => enemy.set_pos(pos),
            AnyEntity::Projectile(projectile) => projectile.set_pos(pos),
            AnyEntity::Door(door) => door.set_pos(pos),
        }
    }

    fn offset_pos(&mut self, pos: Vec2)
        ensures
            *final(self) == old(self).with_position(
                old(self).model().position.spec_plus(pos),
            ),
            final(self).same_kind(*old(self)),
            final(self).model() == (EntityView {
                position: old(self).model().position.spec_plus(pos),
                collider: old(self).collider_at(
                    old(self).model().position.spec_plus(pos),
                ),
                ..old(self).model()
            }),
    {
        let position = self.exact_pos();
        self.set_pos(position.plus(pos));
    }

    fn exact_pos(&self) -> (pos: Vec2) {
        match self {
            AnyEntity::Player(player) => player.exact_pos(),
            AnyEntity::Enemy(enemy) => enemy.exact_pos(),
            AnyEntity::Projectile(projectile) => projectile.exact_pos(),
            AnyEntity::Door(door) => door.exact_pos(),
        }
    }

    fn relative_pos(&self, offset: Vec2) -> (pos: Vec2) {
        match self {
            AnyEntity::Player(player) => player.relative_pos(offset),
            AnyEntity::Enemy(enemy) => enemy.relative_pos(offset),
            AnyEntity::Projectile(projectile) => projectile.relative_pos(offset),
            AnyEntity::Door(door) => door.relative_pos(offset),
        }
    }

    fn absolute_pos(&self) -> (pos: Vec2) {
        match self {
            AnyEntity::Player(player) => player.absolute_pos(),
            AnyEntity::Enemy(enemy) => enemy.absolute_pos(),
            AnyEntity::Projectile(projectile) => projectile.absolute_pos(),
            AnyEntity::Door(door) => door.absolute_pos(),
        }
    }

    fn collider(&self) -> (collider: Option<Collider>) {
        match self {
            AnyEntity::Player(player) => player.collider(),
            AnyEntity::Enemy(enemy) => enemy.collider(),
            AnyEntity::Projectile(projectile) => projectile.collider(),
            AnyEntity::Door(door) => door.collider(),
        }
    }

    fn collides_with(&mut self, other: &Option<Collider>) -> (hit: bool)
        ensures
            *final(self) == old(self).with_collided(old(self).model().collided || hit),
            hit ==> old(self).model().collider is Some,
            final(self).same_kind(*old(self)),
            forall|c: Option<Collider>| final(self).runs_into(c) == old(self).runs_into(c),
    {
        match self {
            AnyEntity::Player(player) => player.collides_with(other),
            AnyEntity::Enemy(enemy) => enemy.collides_with(other),
            AnyEntity::Projectile(projectile) => projectile.collides_with(other),
            AnyEntity::Door(door) => door.collides_with(other),
        }
    }

    fn collides(&self) -> (collided: bool) {
        match self {
            AnyEntity::Player(player) => player.collides(),
            AnyEntity::Enemy(enemy) => enemy.collides(),
            AnyEntity::Projectile(projectile) => projectile.collides(),
            AnyEntity::Door(door) => door.collides(),
        }
    }

    fn id(&self) -> (id: EntityId) {
        match self {
            AnyEntity::Player(player) => player.id(),
            AnyEntity::Enemy(enemy) => enemy.id(),
            AnyEntity::Projectile(projectile) => projectile.id(),
            AnyEntity::Door(door) => door.id(),
        }
    }

    fn set_id(&mut self, id: EntityId)
        ensures
            *final(self) == old(self).with_id(id),
    {
        match self {
            AnyEntity::Player(player) => player.set_id(id),
            AnyEntity::Enemy(enemy) => enemy.set_id(id),
            AnyEntity::Projectile(projectile) => projectile.set_id(id),
            AnyEntity::Door(door) => door.set_id(id),
        }
    }

    fn handle_message(&mut self, message: Telegram, dispatcher: &mut MessageDispatcher)
        ensures
            *final(self) == *old(self),
            final(dispatcher)@ == old(self).reply(message, old(dispatcher)@),
    {
        match self {
            AnyEntity::Player(player) => player.handle_message(message, dispatcher),
            AnyEntity::Enemy(enemy) => enemy.handle_message(message, dispatcher),
            AnyEntity::Projectile(projectile) => projectile.handle_message(message, dispatcher),
            AnyEntity::Door(door) => door.handle_message(message, dispatcher),
        }
    }
}

} // verus!
