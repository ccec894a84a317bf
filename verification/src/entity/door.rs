//! A way out of the room.

use vstd::prelude::*;
use crate::entity::{
    routed, Collider, CollisionKind, Entity, EntityId, EntityView, Message, MessageDispatcher,
    RoomId, Telegram, GAME_ID, INVALID_ID, PLAYER_ID,
};
use crate::fixed::{clamp_i32, saturate, UNITS_PER_PIXEL};
use crate::graphics::screen::Screen;
use crate::graphics::sprite::SpriteView;
use crate::level::room::{Room, TILE_UNITS};
use crate::vector::Vec2;

verus! {

/// A box in a doorway. Whoever leads the player into it is taken to the room
/// behind the door.
#[derive(Debug, Copy, Clone)]
pub struct Door {
    pub collider: Collider,
    pub id: EntityId,
    pub room: RoomId,
    pub removed: bool,
}

/// The box of the door in the cell in column `x` of row `y`: one pixel wide
/// and high, in the middle of the cell.
pub open spec fn door_collider(x: u32, y: u32) -> Collider {
    Collider {
        origin: Vec2 {
            x: clamp_i32(x * TILE_UNITS + TILE_UNITS / 2) as i32,
            y: clamp_i32(y * TILE_UNITS + TILE_UNITS / 2) as i32,
        },
        dimensions: Vec2 { x: UNITS_PER_PIXEL, y: UNITS_PER_PIXEL },
        kind: CollisionKind::Hostile,
    }
}

/// What a door does to the queues when it is told something: a collision
/// with the player makes it ask the game for its room, anything else is
/// ignored.
pub open spec fn door_reply(door: Door, telegram: Telegram, queues: crate::entity::Queues)
    -> crate::entity::Queues {
    if telegram.message == Message::Collides && telegram.sender == PLAYER_ID {
        routed(
            queues,
            Telegram {
                sender: door.spec_id(),
                receiver: GAME_ID,
                message: Message::LoadRoom(door.destination()),
            },
        )
    } else {
        queues
    }
}

impl Door {
    pub open spec fn spec_id(self) -> EntityId {
        self.id
    }

    /// The same door under another handle.
    pub open spec fn with_id(self, id: EntityId) -> Door {
        Door { id, ..self }
    }

    /// Another handle changes nothing else: the door stands where it stood
    /// and leads where it led.
    pub proof fn lemma_with_id(self, id: EntityId)
        ensures
            self.with_id(id).model() == (EntityView { id, ..self.model() }),
            self.with_id(id).spec_id() == id,
            self.with_id(id).bounds() == self.bounds(),
            self.with_id(id).destination() == self.destination(),
            self.with_id(id).spec_removed() == self.spec_removed(),
            self.with_id(self.spec_id()) == self,
    {
    }

    /// The same door at another position.
    pub open spec fn with_position(self, position: Vec2) -> Door {
        Door { collider: Collider { origin: position, ..self.collider }, ..self }
    }

    /// Another position moves the box and changes nothing else: the door
    /// keeps its handle and leads where it led.
    pub proof fn lemma_with_position(self, position: Vec2)
        ensures
            self.with_position(position).model() == (EntityView {
                position,
                collider: Some(Collider { origin: position, ..self.bounds() }),
                ..self.model()
            }),
            self.with_position(position).bounds() == (Collider {
                origin: position,
                ..self.bounds()
            }),
            self.with_position(position).spec_id() == self.spec_id(),
            self.with_position(position).destination() == self.destination(),
            self.with_position(position).spec_removed() == self.spec_removed(),
            self.with_position(self.bounds().origin) == self,
    {
    }

    /// The same door, marked for removal.
    pub open spec fn with_removed(self) -> Door {
        Door { removed: true, ..self }
    }

    /// The box in the doorway.
    pub open spec fn bounds(self) -> Collider {
        self.collider
    }

    /// The room behind the door.
    pub open spec fn destination(self) -> RoomId {
        self.room
    }

    pub open spec fn spec_removed(self) -> bool {
        self.removed
    }

    /// A door that has not been registered, in the cell in column
    /// `position.0` of row `position.1`, leading to `room`.
    pub open spec fn spec_new(position: (u32, u32), room: RoomId) -> Door {
        Door {
            collider: door_collider(position.0, position.1),
            id: INVALID_ID,
            room,
            removed: false,
        }
    }

    /// A new door stands in the middle of its cell, leads to its room, is
    /// not registered and not removed.
    pub proof fn lemma_spec_new(position: (u32, u32), room: RoomId)
        ensures
            Door::spec_new(position, room).bounds() == door_collider(position.0, position.1),
            Door::spec_new(position, room).spec_id() == INVALID_ID,
            Door::spec_new(position, room).destination() == room,
            !Door::spec_new(position, room).spec_removed(),
            Door::spec_new(position, room).model() == (EntityView {
                id: INVALID_ID,
                position: door_collider(position.0, position.1).origin,
                removed: false,
                collider: Some(door_collider(position.0, position.1)),
                collided: false,
            }),
    {
    }

    /// A door that has not been registered, in the cell in column
    /// `position.0` of row `position.1`, leading to `room`.
    pub fn new(position: (u32, u32), room: RoomId) -> (door: Door)
        ensures
            door == Door::spec_new(position, room),
            door.bounds() == door_collider(position.0, position.1),
            door.spec_id() == INVALID_ID,
            door.destination() == room,
            !door.spec_removed(),
    {
        Door {
            collider: Collider::new(
                Vec2::new(
                    saturate(position.0 as i64 * TILE_UNITS + TILE_UNITS / 2),
                    saturate(position.1 as i64 * TILE_UNITS + TILE_UNITS / 2),
                ),
                Vec2::new(UNITS_PER_PIXEL, UNITS_PER_PIXEL),
                CollisionKind::Hostile,
            ),
            id: INVALID_ID,
            room,
            removed: false,
        }
    }
}

impl<'a> From<&'a ((u32, u32), RoomId)> for Door {
    fn from(info: &((u32, u32), RoomId)) -> (door: Self) {
        Door::new(info.0, info.1)
    }
}

impl<'a> vstd::std_specs::convert::FromSpecImpl<&'a ((u32, u32), RoomId)> for Door {
    open spec fn obeys_from_spec() -> bool {
        true
    }

    open spec fn from_spec(info: &((u32, u32), RoomId)) -> Door {
        Door::spec_new(info.0, info.1)
    }
}

impl Entity for Door {
    open spec fn wf(&self) -> bool {
        true
    }

    open spec fn model(&self) -> EntityView {
        EntityView {
            id: self.spec_id(),
            removed: self.spec_removed(),
            position: self.bounds().origin,
            collider: Some(self.bounds()),
            collided: false,
        }
    }

    open spec fn runs_into(&self, other: Option<Collider>) -> bool {
        false
    }

    open spec fn spec_sprite_view(&self) -> Option<SpriteView<'_>> {
        None
    }

    fn update(&mut self, _room: &Room, _dispatcher: &mut MessageDispatcher)
        ensures
            *final(self) == *old(self),
            final(_dispatcher)@ == old(_dispatcher)@,
    {
    }

    fn render(&self, _screen: &mut Screen, _offset: Vec2)
        ensures
            forall|sx: int, sy: int| final(_screen).pixel(sx, sy) == old(_screen).pixel(sx, sy),
    {
    }

    fn sprite_view(&self) -> (view: Option<SpriteView<'_>>) {
        None
    }

    fn remove(&mut self)
        ensures
            *final(self) == old(self).with_removed(),
            final(self).bounds() == old(self).bounds(),
            final(self).destination() == old(self).destination(),
    {
        self.removed = true;
    }

    fn is_removed(&self) -> (removed: bool) {
        self.removed
    }

    fn set_pos(&mut self, pos: Vec2)
        ensures
            *final(self) == old(self).with_position(pos),
            final(self).bounds() == (Collider { origin: pos, ..old(self).bounds() }),
            final(self).destination() == old(self).destination(),
            final(self).model() == (EntityView {
                position: pos,
                collider: Some(final(self).bounds()),
                ..old(self).model()
            }),
    {
        self.collider.origin = pos;
    }

    fn exact_pos(&self) -> (pos: Vec2) {
        self.collider.origin()
    }

    fn relative_pos(&self, offset: Vec2) -> (pos: Vec2) {
        self.collider.origin().on_screen(offset)
    }

    fn absolute_pos(&self) -> (pos: Vec2) {
        self.collider.origin().to_pixels()
    }

    fn collider(&self) -> (collider: Option<Collider>) {
        Some(self.collider)
    }

    fn collides_with(&mut self, _other: &Option<Collider>) -> (hit: bool)
        ensures
            *final(self) == *old(self),
    {
        false
    }

    fn collides(&self) -> (collided: bool) {
        false
    }

    fn id(&self) -> (id: EntityId) {
        self.id
    }

    fn set_id(&mut self, id: EntityId)
        ensures
            *final(self) == old(self).with_id(id),
            final(self).bounds() == old(self).bounds(),
            final(self).destination() == old(self).destination(),
    {
        self.id = id;
    }

    /// Asks the game for the room behind the door when the player has run
    /// into it.
    fn handle_message(&mut self, message: Telegram, dispatcher: &mut MessageDispatcher)
        ensures
            *final(self) == *old(self),
            final(dispatcher)@ == door_reply(*old(self), message, old(dispatcher)@),
    {
        let Telegram { sender, receiver: _, message } = message;
        match message {
            Message::Collides => {
                if sender == PLAYER_ID {
                    self.send_message(Message::LoadRoom(self.room), GAME_ID, dispatcher);
                }
            },
            _ => {},
        }
    }

    fn send_message(&self, message: Message, receiver: EntityId, dispatcher: &mut MessageDispatcher) {
        dispatcher.queue_message(self.id(), receiver, message);
    }
}

} // verus!
