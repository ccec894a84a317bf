//! The owner of all entities.

use vstd::prelude::*;
use crate::entity::{
    routed, AnyEntity, Collider, Entity, EntityId, Message, MessageDispatcher, Projectile, Queues,
    Telegram, FIRST_FREE_ID, INVALID_ID, PLAYER_ID,
};
use crate::graphics::screen::Screen;
use crate::level::room::Room;
use crate::vector::Vec2;

verus! {

/// Owns the entities, in the order in which their handles were first
/// registered, and hands out fresh handles.
pub struct EntityManager {
    entities: Vec<AnyEntity>,
    next_id: EntityId,
}

/// The place of the entity with handle `id` among `entities`, negative
/// where there is none.
pub open spec fn slot_of(entities: Seq<AnyEntity>, id: EntityId) -> int
    decreases entities.len(),
{
    if entities.len() == 0 {
        -1
    } else if entities.last().model().id == id {
        entities.len() - 1
    } else {
        slot_of(entities.drop_last(), id)
    }
}

/// No two of the entities share a handle.
pub open spec fn distinct_ids(entities: Seq<AnyEntity>) -> bool {
    forall|i: int, j: int|
        0 <= i < entities.len() && 0 <= j < entities.len() && i != j ==> (#[trigger] entities[i]).model().id
            != (#[trigger] entities[j]).model().id
}

/// Every one of the entities is sound.
pub open spec fn all_wf(entities: Seq<AnyEntity>) -> bool {
    forall|i: int| 0 <= i < entities.len() ==> (#[trigger] entities[i]).wf()
}

/// The entities once `entity` has been registered: it takes the place of
/// the entity that had its handle, or else comes last.
pub open spec fn placed(entities: Seq<AnyEntity>, entity: AnyEntity) -> Seq<AnyEntity> {
    let slot = slot_of(entities, entity.model().id);
    if slot >= 0 {
        entities.update(slot, entity)
    } else {
        entities.push(entity)
    }
}

/// The entity as the manager stores it: one that comes without a handle is
/// given `next_id`.
pub open spec fn registered(entity: AnyEntity, next_id: EntityId) -> AnyEntity {
    if entity.model().id == INVALID_ID {
        entity.with_id(next_id)
    } else {
        entity
    }
}

/// Whether a tick in `room` can turn the entities and the queues into what
/// stands behind, one entity after the other in their order.
pub open spec fn all_ticked(
    before: Seq<AnyEntity>,
    room: Room,
    queues: Queues,
    after: Seq<AnyEntity>,
    queues_after: Queues,
) -> bool
    decreases before.len(),
{
    if before.len() == 0 {
        after.len() == 0 && queues_after == queues
    } else {
        &&& after.len() == before.len()
        &&& exists|between: Queues|
            all_ticked(before.drop_last(), room, queues, after.drop_last(), between)
                && #[trigger] before.last().ticks_to(room, between, after.last(), queues_after)
    }
}

/// Whether drawing the entities, one after the other in their order, on a
/// screen scrolled by `offset` turns `before` into `after`.
pub open spec fn all_drawn(entities: Seq<AnyEntity>, offset: Vec2, before: Screen, after: Screen) -> bool
    decreases entities.len(),
{
    if entities.len() == 0 {
        after == before
    } else {
        exists|between: Screen|
            all_drawn(entities.drop_last(), offset, before, between) && #[trigger] entities.last().drawn(
                offset,
                between,
                after,
            )
    }
}

/// What `player` runs into among `entities`, in their order: the handle and
/// the box of each. The entity that bears the handle of the player is left
/// out.
pub open spec fn hits_among(player: AnyEntity, entities: Seq<AnyEntity>) -> Seq<(EntityId, Collider)>
    decreases entities.len(),
{
    if entities.len() == 0 {
        Seq::empty()
    } else {
        let rest = hits_among(player, entities.drop_last());
        let other = entities.last().model();
        if other.id != PLAYER_ID && player.runs_into(other.collider) {
            rest.push((other.id, other.collider->0))
        } else {
            rest
        }
    }
}

/// The queues once every hit has been reported: for each, in their order,
/// a telegram from the player to what it ran into, and one back.
pub open spec fn collisions_reported(queues: Queues, hits: Seq<(EntityId, Collider)>) -> Queues
    decreases hits.len(),
{
    if hits.len() == 0 {
        queues
    } else {
        let id = hits.last().0;
        routed(
            routed(
                collisions_reported(queues, hits.drop_last()),
                Telegram { sender: PLAYER_ID, receiver: id, message: Message::Collides },
            ),
            Telegram { sender: id, receiver: PLAYER_ID, message: Message::Collides },
        )
    }
}

/// What a check for collisions makes of the player: hits are remembered,
/// and the first of them pushes the player out, from where it is.
pub open spec fn pushed_out(player: AnyEntity, hits: Seq<(EntityId, Collider)>) -> AnyEntity {
    if hits.len() == 0 {
        player
    } else {
        let marked = player.with_collided(true);
        marked.with_position(
            marked.model().position.spec_plus(
                marked.model().collider->0.spec_push_out(hits[0].1),
            ),
        )
    }
}

/// The entities that are not marked for removal, in their order.
pub open spec fn survivors(entities: Seq<AnyEntity>) -> Seq<AnyEntity> {
    entities.filter(|entity: AnyEntity| !entity.model().removed)
}

/// The entities that bear the handle of the player, in their order.
pub open spec fn players_only(entities: Seq<AnyEntity>) -> Seq<AnyEntity> {
    entities.filter(|entity: AnyEntity| entity.model().id == PLAYER_ID)
}

/// Whether the player is among the entities and is not marked for removal.
pub open spec fn has_player(entities: Seq<AnyEntity>) -> bool {
    let slot = slot_of(entities, PLAYER_ID);
    &&& slot >= 0
    &&& entities[slot] is Player
    &&& !entities[slot].model().removed
}

/// The entities and the next fresh handle once the manager has been handed
/// `requests`, in their order: every request to spawn adds a projectile, as
/// long as a fresh handle is left.
pub open spec fn spawned(entities: Seq<AnyEntity>, next_id: EntityId, requests: Seq<Telegram>) -> (
    Seq<AnyEntity>,
    EntityId,
)
    decreases requests.len(),
{
    if requests.len() == 0 {
        (entities, next_id)
    } else {
        let (so_far, fresh) = spawned(entities, next_id, requests.drop_last());
        match requests.last().message {
            Message::SpawnEntity(position, heading, speed) => if fresh < u32::MAX {
                (
                    placed(
                        so_far,
                        AnyEntity::Projectile(
                            Projectile::spec_new(position, heading, speed, INVALID_ID),
                        ).with_id(fresh),
                    ),
                    (fresh + 1) as EntityId,
                )
            } else {
                (so_far, fresh)
            },
            _ => (so_far, fresh),
        }
    }
}

/// Registering an entity that is not the player keeps the player.
pub proof fn lemma_placed_keeps_player(entities: Seq<AnyEntity>, entity: AnyEntity)
    requires
        has_player(entities),
        entity.model().id != PLAYER_ID,
    ensures
        has_player(placed(entities, entity)),
{
    lemma_slot_of(entities, PLAYER_ID);
    lemma_slot_of(entities, entity.model().id);
    let slot = slot_of(entities, entity.model().id);
    let after = placed(entities, entity);
    if slot >= 0 {
        lemma_changed_other_slot(entities, slot, entity);
    } else {
        assert(after.drop_last() == entities);
    }
}

/// Changing an entity that is not the player, and stays none, leaves the
/// player where it is.
pub proof fn lemma_changed_other_slot(entities: Seq<AnyEntity>, slot: int, entity: AnyEntity)
    requires
        0 <= slot < entities.len(),
        entities[slot].model().id != PLAYER_ID,
        entity.model().id != PLAYER_ID,
    ensures
        slot_of(entities.update(slot, entity), PLAYER_ID) == slot_of(entities, PLAYER_ID),
        slot_of(entities, PLAYER_ID) >= 0 ==> entities.update(slot, entity)[slot_of(
            entities,
            PLAYER_ID,
        )] == entities[slot_of(entities, PLAYER_ID)],
    decreases entities.len(),
{
    let after = entities.update(slot, entity);
    lemma_slot_of(entities, PLAYER_ID);
    if slot == entities.len() - 1 {
        assert(after.drop_last() == entities.drop_last());
    } else {
        if entities.last().model().id != PLAYER_ID {
            assert(after.drop_last() == entities.drop_last().update(slot, entity));
            lemma_changed_other_slot(entities.drop_last(), slot, entity);
            lemma_slot_of(entities.drop_last(), PLAYER_ID);
        }
    }
}

/// A tick leaves every entity its handle and its kind and sends nothing to
/// other entities, and it never marks a player for removal.
pub proof fn lemma_all_ticked(
    before: Seq<AnyEntity>,
    room: Room,
    queues: Queues,
    after: Seq<AnyEntity>,
    queues_after: Queues,
)
    requires
        all_ticked(before, room, queues, after, queues_after),
    ensures
        after.len() == before.len(),
        queues_after.general == queues.general,
        forall|i: int|
            0 <= i < before.len() ==> {
                &&& (#[trigger] after[i]).model().id == before[i].model().id
                &&& after[i].same_kind(before[i])
                &&& (before[i] is Player ==> after[i].model().removed == before[i].model().removed)
            },
    decreases before.len(),
{
    if before.len() > 0 {
        let between = choose|between: Queues|
            all_ticked(before.drop_last(), room, queues, after.drop_last(), between)
                && #[trigger] before.last().ticks_to(room, between, after.last(), queues_after);
        lemma_all_ticked(before.drop_last(), room, queues, after.drop_last(), between);
        crate::entity::any::lemma_ticks_to(
            before.last(),
            room,
            between,
            after.last(),
            queues_after,
        );
        assert forall|i: int| 0 <= i < before.len() implies {
            &&& (#[trigger] after[i]).model().id == before[i].model().id
            &&& after[i].same_kind(before[i])
            &&& (before[i] is Player ==> after[i].model().removed == before[i].model().removed)
        } by {
            if i < before.len() - 1 {
                assert(after.drop_last()[i] == after[i]);
            }
        }
    }
}

/// Whatever the player runs into is one of the entities.
pub proof fn lemma_hits_are_entities(player: AnyEntity, entities: Seq<AnyEntity>, k: int)
    requires
        0 <= k < hits_among(player, entities).len(),
    ensures
        slot_of(entities, hits_among(player, entities)[k].0) >= 0,
    decreases entities.len(),
{
    if entities.len() > 0 {
        let rest = hits_among(player, entities.drop_last());
        let id = hits_among(player, entities)[k].0;
        if k < rest.len() {
            lemma_hits_are_entities(player, entities.drop_last(), k);
        }
    }
}

/// Reports of collisions go to the player and to what it ran into, so every
/// one of them can be delivered where those that waited before can.
pub proof fn lemma_reports_deliverable(
    queues: Queues,
    hits: Seq<(EntityId, Collider)>,
    entities: Seq<AnyEntity>,
)
    requires
        crate::entity::message::receivers_known(queues.general, entities),
        slot_of(entities, PLAYER_ID) >= 0,
        forall|k: int| 0 <= k < hits.len() ==> slot_of(entities, (#[trigger] hits[k]).0) >= 0,
    ensures
        crate::entity::message::receivers_known(
            collisions_reported(queues, hits).general,
            entities,
        ),
        collisions_reported(queues, hits).game.len() >= queues.game.len(),
    decreases hits.len(),
{
    if hits.len() > 0 {
        assert forall|k: int| 0 <= k < hits.drop_last().len() implies slot_of(
            entities,
            (#[trigger] hits.drop_last()[k]).0,
        ) >= 0 by {}
        lemma_reports_deliverable(queues, hits.drop_last(), entities);
        assert(slot_of(entities, hits.last().0) >= 0) by {}
    }
}

/// What a check for collisions makes of the player is still the player.
pub proof fn lemma_pushed_out(player: AnyEntity, hits: Seq<(EntityId, Collider)>)
    requires
        player is Player,
    ensures
        pushed_out(player, hits) is Player,
        pushed_out(player, hits).model().id == player.model().id,
        pushed_out(player, hits).model().removed == player.model().removed,
        player.wf() ==> pushed_out(player, hits).wf(),
{
    if hits.len() > 0 {
        let marked = player.with_collided(true);
        player->Player_0.lemma_with_collided();
        lemma_with_position(
            marked,
            marked.model().position.spec_plus(
                marked.model().collider->0.spec_push_out(hits[0].1),
            ),
        );
    }
}

/// An entity that has been registered is found under its handle.
pub proof fn lemma_placed_found(entities: Seq<AnyEntity>, entity: AnyEntity)
    ensures
        slot_of(placed(entities, entity), entity.model().id) >= 0,
        placed(entities, entity)[slot_of(placed(entities, entity), entity.model().id)] == entity,
{
    let id = entity.model().id;
    lemma_slot_of(entities, id);
    let slot = slot_of(entities, id);
    if slot >= 0 {
        lemma_same_ids_same_slots(entities, entities.update(slot, entity), id);
    }
}

/// Dropping what is marked for removal keeps a player that is not, and
/// keeps the handles distinct.
pub proof fn lemma_survivors_keep_player(entities: Seq<AnyEntity>)
    requires
        distinct_ids(entities),
        has_player(entities),
    ensures
        has_player(survivors(entities)),
        distinct_ids(survivors(entities)),
{
    lemma_slot_of(entities, PLAYER_ID);
    lemma_filter_keeps_player(entities, |entity: AnyEntity| !entity.model().removed);
    lemma_filter_keeps_wf(entities, |entity: AnyEntity| !entity.model().removed);
}

/// Dropping everything but the player keeps the player.
pub proof fn lemma_players_only_keep_player(entities: Seq<AnyEntity>)
    requires
        distinct_ids(entities),
        has_player(entities),
    ensures
        has_player(players_only(entities)),
{
    lemma_slot_of(entities, PLAYER_ID);
    lemma_filter_keeps_player(entities, |entity: AnyEntity| entity.model().id == PLAYER_ID);
}

/// Leaving out entities, but not the player, keeps the player.
pub proof fn lemma_filter_keeps_player(entities: Seq<AnyEntity>, keep: spec_fn(AnyEntity) -> bool)
    requires
        distinct_ids(entities),
        has_player(entities),
        keep(entities[slot_of(entities, PLAYER_ID)]),
    ensures
        has_player(entities.filter(keep)),
{
    let slot = slot_of(entities, PLAYER_ID);
    lemma_slot_of(entities, PLAYER_ID);
    let kept = entities.filter(keep);
    lemma_filter_keeps_wf(entities, keep);
    entities.lemma_filter_contains(keep, slot);
    let j = choose|j: int| 0 <= j < kept.len() && kept[j] == entities[slot];
    lemma_slot_of_distinct(kept, j);
}

/// Whether `states` can be the states that a manager goes through, whatever
/// is registered, removed or swept in between.
pub open spec fn is_history(states: Seq<EntityManager>) -> bool {
    forall|i: int| 0 <= i < states.len() - 1 ==> (#[trigger] states[i]).precedes(states[i + 1])
}

/// Along a history the next fresh handle never gets smaller.
pub proof fn lemma_history_grows(states: Seq<EntityManager>, i: int, j: int)
    requires
        is_history(states),
        0 <= i <= j < states.len(),
    ensures
        states[i].spec_next_id() <= states[j].spec_next_id(),
    decreases j - i,
{
    if i < j {
        lemma_history_grows(states, i, j - 1);
    }
}

/// Fresh handles start at `FIRST_FREE_ID` and grow: of two handles that are
/// handed out along a history, the later one is larger, whatever has been
/// removed in between. So no handle is handed out twice.
pub proof fn lemma_fresh_ids_increase(states: Seq<EntityManager>, i: int, j: int)
    requires
        is_history(states),
        0 <= i < j < states.len() - 1,
        states[i].wf(),
        states[i].hands_out_to(states[i + 1]),
        states[j].hands_out_to(states[j + 1]),
    ensures
        FIRST_FREE_ID <= states[i].spec_next_id() < states[j].spec_next_id(),
{
    lemma_history_grows(states, i + 1, j);
}

/// Giving an entity a handle changes nothing else that others see of it.
pub proof fn lemma_with_id(entity: AnyEntity, id: EntityId)
    ensures
        entity.with_id(id).model() == (crate::entity::EntityView { id, ..entity.model() }),
        entity.with_id(id).same_kind(entity),
{
    match entity {
        AnyEntity::Player(player) => {
            player.lemma_with_id(id);
        },
        AnyEntity::Enemy(enemy) => {
            enemy.lemma_with_id(id);
        },
        AnyEntity::Projectile(projectile) => {
            projectile.lemma_with_id(id);
        },
        AnyEntity::Door(door) => {
            door.lemma_with_id(id);
        },
    }
}

/// Another position changes nothing that others see but the position and
/// the box.
pub proof fn lemma_with_position(entity: AnyEntity, position: Vec2)
    ensures
        entity.with_position(position).model() == (crate::entity::EntityView {
            position,
            collider: entity.collider_at(position),
            ..entity.model()
        }),
        entity.with_position(position).same_kind(entity),
        entity.wf() ==> entity.with_position(position).wf(),
{
    match entity {
        AnyEntity::Player(player) => {
            player.lemma_with_position(position);
        },
        AnyEntity::Enemy(enemy) => {
            enemy.lemma_with_position(position);
        },
        AnyEntity::Projectile(projectile) => {
            projectile.lemma_with_position(position);
        },
        AnyEntity::Door(door) => {
            door.lemma_with_position(position);
        },
    }
}

/// Setting the hit flag of an entity twice is the same as setting it once.
pub proof fn lemma_collided_twice(entity: AnyEntity)
    ensures
        entity.with_collided(true).with_collided(true) == entity.with_collided(true),
        entity.with_collided(entity.model().collided) == entity,
        entity.with_collided(true).model().collided || entity.with_collided(true) == entity,
{
    match entity {
        AnyEntity::Player(player) => {
            player.lemma_with_collided();
        },
        AnyEntity::Projectile(projectile) => {
            projectile.lemma_with_collided();
        },
        _ => {},
    }
}

/// Putting a sound entity in the place of one with the same handle keeps
/// all entities sound, their handles distinct, and every entity where it
/// was.
pub proof fn lemma_replaced_keeps_wf(entities: Seq<AnyEntity>, slot: int, replacement: AnyEntity)
    requires
        all_wf(entities),
        distinct_ids(entities),
        0 <= slot < entities.len(),
        replacement.wf(),
        replacement.model().id == entities[slot].model().id,
    ensures
        all_wf(entities.update(slot, replacement)),
        distinct_ids(entities.update(slot, replacement)),
        forall|id: EntityId|
            slot_of(#[trigger] entities.update(slot, replacement), id) == slot_of(entities, id),
{
    let after = entities.update(slot, replacement);
    assert forall|i: int, j: int|
        0 <= i < after.len() && 0 <= j < after.len() && i != j implies (#[trigger] after[i]).model().id
        != (#[trigger] after[j]).model().id by {}
    assert forall|id: EntityId| slot_of(#[trigger] entities.update(slot, replacement), id)
        == slot_of(entities, id) by {
        lemma_same_ids_same_slots(entities, after, id);
    }
}

/// Where the handles are the same, place by place, every handle is found in
/// the same place.
pub proof fn lemma_same_ids_same_slots(before: Seq<AnyEntity>, after: Seq<AnyEntity>, id: EntityId)
    requires
        after.len() == before.len(),
        forall|i: int| 0 <= i < before.len() ==> (#[trigger] after[i]).model().id == before[i].model().id,
    ensures
        slot_of(after, id) == slot_of(before, id),
    decreases before.len(),
{
    if before.len() > 0 {
        assert forall|i: int| 0 <= i < before.drop_last().len() implies (#[trigger] after.drop_last()[i]).model().id
            == before.drop_last()[i].model().id by {}
        lemma_same_ids_same_slots(before.drop_last(), after.drop_last(), id);
    }
}

/// What `slot_of` finds is the entity with the handle, and there is none
/// where it finds nothing.
pub proof fn lemma_slot_of(entities: Seq<AnyEntity>, id: EntityId)
    ensures
        slot_of(entities, id) < entities.len(),
        slot_of(entities, id) >= 0 ==> entities[slot_of(entities, id)].model().id == id,
        slot_of(entities, id) < 0 ==> forall|i: int|
            0 <= i < entities.len() ==> (#[trigger] entities[i]).model().id != id,
        slot_of(entities, id) >= -1,
    decreases entities.len(),
{
    if entities.len() > 0 {
        lemma_slot_of(entities.drop_last(), id);
        if entities.last().model().id != id {
            assert forall|i: int| 0 <= i < entities.len() && slot_of(entities, id) < 0 implies (#[trigger] entities[i]).model().id
                != id by {
                if i < entities.len() - 1 {
                    assert(entities.drop_last()[i] == entities[i]);
                }
            }
        }
    }
}

/// Among entities with distinct handles an entity is found in its place.
pub proof fn lemma_slot_of_distinct(entities: Seq<AnyEntity>, i: int)
    requires
        distinct_ids(entities),
        0 <= i < entities.len(),
    ensures
        slot_of(entities, entities[i].model().id) == i,
{
    lemma_slot_of(entities, entities[i].model().id);
    let slot = slot_of(entities, entities[i].model().id);
}

impl EntityManager {
    pub closed spec fn entities(self) -> Seq<AnyEntity> {
        self.entities@
    }

    /// The handle that the next entity without one is given.
    pub closed spec fn spec_next_id(self) -> EntityId {
        self.next_id
    }

    /// Every entity is sound, no two share a handle, and the next fresh
    /// handle is none of the fixed ones.
    pub open spec fn wf(self) -> bool {
        &&& all_wf(self.entities())
        &&& distinct_ids(self.entities())
        &&& self.spec_next_id() >= FIRST_FREE_ID
    }

    /// Whether an entity with handle `id` is registered.
    pub open spec fn contains(self, id: EntityId) -> bool {
        slot_of(self.entities(), id) >= 0
    }

    /// The entity with handle `id`.
    pub open spec fn entity(self, id: EntityId) -> AnyEntity
        recommends
            self.contains(id),
    {
        self.entities()[slot_of(self.entities(), id)]
    }

    /// Whether `later` can follow this state: no operation of a manager
    /// ever takes a fresh handle back.
    pub open spec fn precedes(self, later: EntityManager) -> bool {
        self.spec_next_id() <= later.spec_next_id()
    }

    /// Whether the step from this state to `later` hands out a fresh
    /// handle, which then is the next fresh handle of this state.
    pub open spec fn hands_out_to(self, later: EntityManager) -> bool {
        later.spec_next_id() == self.spec_next_id() + 1
    }

    /// A manager without entities.
    pub fn new() -> (manager: Self)
        ensures
            manager.wf(),
            manager.entities().len() == 0,
            manager.spec_next_id() == FIRST_FREE_ID,
    {
        EntityManager { entities: Vec::with_capacity(1), next_id: FIRST_FREE_ID }
    }

    /// Finds the place of the entity with handle `id`.
    fn find(&self, id: EntityId) -> (slot: Option<usize>)
        ensures
            match slot {
                Some(index) => index == slot_of(self.entities(), id) && index < self.entities().len(),
                None => slot_of(self.entities(), id) < 0,
            },
    {
        let mut i: usize = self.entities.len();
        assert(self.entities@.subrange(0, i as int) == self.entities@);
        while i > 0
            invariant
                i <= self.entities@.len(),
                slot_of(self.entities@, id) == slot_of(self.entities@.subrange(0, i as int), id),
            decreases i,
        {
            let ghost prefix = self.entities@.subrange(0, i as int);
            i -= 1;
            assert(prefix.drop_last() == self.entities@.subrange(0, i as int));
            if self.entities[i].id() == id {
                return Some(i);
            }
        }
        None
    }

    /// The entity with handle `id`, to be looked at.
    pub fn get_entity(&self, id: &EntityId) -> (entity: &AnyEntity)
        requires
            self.contains(*id),
        ensures
            *entity == self.entity(*id),
    {
        proof {
            lemma_slot_of(self.entities@, *id);
        }
        let slot = self.find(*id).unwrap();
        &self.entities[slot]
    }

    /// Whether there is a fresh handle left to hand out.
    pub fn has_free_id(&self) -> (free: bool)
        ensures
            free == (self.spec_next_id() < u32::MAX),
    {
        self.next_id < u32::MAX
    }

    /// Whether at least `count` fresh handles are left to hand out.
    pub fn has_ids_left(&self, count: u32) -> (left: bool)
        ensures
            left == (self.spec_next_id() <= u32::MAX - count),
    {
        self.next_id <= u32::MAX - count
    }

    /// Whether an entity with handle `id` is registered.
    pub fn has_entity(&self, id: EntityId) -> (found: bool)
        ensures
            found == self.contains(id),
    {
        self.find(id).is_some()
    }

    /// Registers an entity. One that comes without a handle is given the
    /// next fresh one; any other keeps its own and takes the place of the
    /// entity that had it before.
    pub fn add_entity(&mut self, entity: AnyEntity)
        requires
            old(self).wf(),
            entity.wf(),
            entity.model().id == INVALID_ID ==> old(self).spec_next_id() < u32::MAX,
        ensures
            final(self).wf(),
            final(self).entities() == placed(
                old(self).entities(),
                registered(entity, old(self).spec_next_id()),
            ),
            final(self).spec_next_id() == if entity.model().id == INVALID_ID {
                (old(self).spec_next_id() + 1) as EntityId
            } else {
                old(self).spec_next_id()
            },
            final(self).contains(registered(entity, old(self).spec_next_id()).model().id),
            old(self).precedes(*final(self)),
    {
        let mut entity = entity;
        let id = if entity.id() == INVALID_ID {
            let id = self.next_id();
            proof {
                lemma_with_id(entity, id);
            }
            entity.set_id(id);
            id
        } else {
            entity.id()
        };
        let ghost stored = entity;
        let ghost before = self.entities@;
        proof {
            lemma_slot_of(before, id);
        }
        match self.find(id) {
            Some(slot) => {
                self.entities[slot] = entity;
                proof {
                    let after = self.entities@;
                    assert forall|i: int, j: int|
                        0 <= i < after.len() && 0 <= j < after.len() && i != j implies (#[trigger] after[i]).model().id
                        != (#[trigger] after[j]).model().id by {
                        assert(after[i].model().id == before[i].model().id);
                        assert(after[j].model().id == before[j].model().id);
                    }
                    lemma_slot_of_distinct(after, slot as int);
                }
            },
            None => {
                self.entities.push(entity);
                proof {
                    let after = self.entities@;
                    assert(after.last() == stored);
                }
            },
        }
    }

    /// Reacts to a telegram for the manager: a request to spawn makes and
    /// registers a projectile, anything else is ignored.
    pub fn handle_message(&mut self, message: Telegram, _dispatcher: &mut MessageDispatcher)
        requires
            old(self).wf(),
            message.message is SpawnEntity ==> old(self).spec_next_id() < u32::MAX,
        ensures
            final(self).wf(),
            old(self).precedes(*final(self)),
            final(_dispatcher)@ == old(_dispatcher)@,
            match message.message {
                Message::SpawnEntity(position, heading, speed) => {
                    &&& final(self).entities() == placed(
                        old(self).entities(),
                        AnyEntity::Projectile(
                            Projectile::spec_new(position, heading, speed, INVALID_ID),
                        ).with_id(old(self).spec_next_id()),
                    )
                    &&& final(self).spec_next_id() == old(self).spec_next_id() + 1
                },
                _ => final(self).entities() == old(self).entities() && final(self).spec_next_id()
                    == old(self).spec_next_id(),
            },
    {
        let Telegram { sender: _, receiver: _, message } = message;
        match message {
            Message::SpawnEntity(position, heading, speed) => {
                let projectile = Projectile::new(position, heading, speed, INVALID_ID);
                self.add_entity(AnyEntity::Projectile(projectile));
            },
            _ => {},
        }
    }

    /// Removes every entity but the player.
    pub fn clean_up(&mut self)
        requires
            old(self).wf(),
        ensures
            final(self).wf(),
            final(self).entities() == players_only(old(self).entities()),
            final(self).spec_next_id() == old(self).spec_next_id(),
            old(self).precedes(*final(self)),
    {
        let ghost before = self.entities@;
        let ghost keep = |entity: AnyEntity| entity.model().id == PLAYER_ID;
        let mut i: usize = 0;
        let ghost mut done: int = 0;
        while i < self.entities.len()
            invariant
                0 <= done <= before.len(),
                self.entities@ == before.subrange(0, done).filter(keep) + before.subrange(
                    done,
                    before.len() as int,
                ),
                i == before.subrange(0, done).filter(keep).len(),
                self.next_id == old(self).next_id,
                keep == |entity: AnyEntity| entity.model().id == PLAYER_ID,
            decreases before.len() - done,
        {
            proof {
                lemma_sweep_step(before, done, keep, self.entities@);
            }
            if self.entities[i].id() != PLAYER_ID {
                self.entities.remove(i);
            } else {
                i += 1;
            }
            proof {
                done = done + 1;
            }
        }
        proof {
            lemma_filter_keeps_wf(before, keep);
        }
    }

    /// Finds what the player runs into, pushes the player out of the first
    /// of it, and tells the player and everything it ran into.
    pub fn check_collisions(&mut self, dispatcher: &mut MessageDispatcher)
        requires
            old(self).wf(),
            old(self).contains(PLAYER_ID),
            old(dispatcher).wf(),
        ensures
            final(self).wf(),
            final(dispatcher).wf(),
            final(self).spec_next_id() == old(self).spec_next_id(),
            final(self).entities() == old(self).entities().update(
                slot_of(old(self).entities(), PLAYER_ID),
                pushed_out(
                    old(self).entity(PLAYER_ID),
                    hits_among(old(self).entity(PLAYER_ID), old(self).entities()),
                ),
            ),
            final(dispatcher)@ == collisions_reported(
                old(dispatcher)@,
                hits_among(old(self).entity(PLAYER_ID), old(self).entities()),
            ),
    {
        let ghost before = self.entities@;
        let ghost player = self.entity(PLAYER_ID);
        proof {
            lemma_slot_of(before, PLAYER_ID);
        }
        let slot = self.find(PLAYER_ID).unwrap();
        let mut colliding_entities: Vec<(EntityId, Collider)> = Vec::new();
        let count = self.entities.len();
        let mut k: usize = 0;
        while k < count
            invariant
                k <= count,
                count == before.len(),
                slot < count,
                before[slot as int] == player,
                player.model().id == PLAYER_ID,
                distinct_ids(before),
                all_wf(before),
                self.next_id == old(self).next_id,
                colliding_entities@ == hits_among(player, before.subrange(0, k as int)),
                self.entities@ == before.update(
                    slot as int,
                    if colliding_entities@.len() == 0 {
                        player
                    } else {
                        player.with_collided(true)
                    },
                ),
                forall|c: Option<Collider>| (#[trigger] self.entities@[slot as int].runs_into(c)) == player.runs_into(c),
                self.entities@[slot as int].wf(),
                self.entities@[slot as int].model().id == PLAYER_ID,
                self.entities@[slot as int].model().collider == player.model().collider,
                self.entities@[slot as int].model().position == player.model().position,
            decreases count - k,
        {
            let ghost seen = before.subrange(0, k as int);
            let ghost next = before.subrange(0, k + 1);
            proof {
                assert(next.drop_last() == seen);
            }
            if k != slot {
                let collider = self.entities[k].collider();
                let id = self.entities[k].id();
                proof {
                    lemma_collided_twice(player);
                }
                if self.entities[slot].collides_with(&collider) {
                    colliding_entities.push((id, collider.unwrap()));
                }
            }
            k += 1;
        }
        proof {
            assert(before.subrange(0, count as int) == before);
        }
        let ghost hits = colliding_entities@;
        if colliding_entities.len() == 0 {
            return ;
        }
        let player_collider = self.entities[slot].collider().unwrap();
        let offset = player_collider.push_out(&colliding_entities[0].1);
        self.entities[slot].offset_pos(offset);
        proof {
            let after = self.entities@;
            lemma_with_position(player.with_collided(true), after[slot as int].model().position);
            assert forall|i: int| 0 <= i < after.len() implies (#[trigger] after[i]).model().id
                == before[i].model().id by {}
        }
        let total = colliding_entities.len();
        let mut i: usize = 0;
        while i < total
            invariant
                i <= total,
                total == hits.len(),
                hits == colliding_entities@,
                dispatcher.wf(),
                dispatcher@ == collisions_reported(old(dispatcher)@, hits.subrange(0, i as int)),
            decreases total - i,
        {
            let ghost done = hits.subrange(0, i + 1);
            proof {
                assert(done.drop_last() == hits.subrange(0, i as int));
            }
            let id = colliding_entities[i].0;
            dispatcher.queue_message(PLAYER_ID, id, Message::Collides);
            dispatcher.queue_message(id, PLAYER_ID, Message::Collides);
            i += 1;
        }
        proof {
            assert(hits.subrange(0, total as int) == hits);
        }
    }

    /// Lets one tick pass for every entity, in their order, and then drops
    /// those that are marked for removal.
    pub fn update(&mut self, room: &Room, dispatcher: &mut MessageDispatcher)
        requires
            old(self).wf(),
            room.wf(),
            old(dispatcher).wf(),
        ensures
            final(self).wf(),
            final(dispatcher).wf(),
            final(self).spec_next_id() == old(self).spec_next_id(),
            exists|ticked: Seq<AnyEntity>| #[trigger]
                all_ticked(old(self).entities(), *room, old(dispatcher)@, ticked, final(dispatcher)@)
                    && final(self).entities() == survivors(ticked),
            forall|i: int|
                0 <= i < final(self).entities().len() ==> !(#[trigger] final(self).entities()[i]).model().removed,
            final(dispatcher)@.general == old(dispatcher)@.general,
    {
        let ghost before = self.entities@;
        let ghost queues = dispatcher@;
        let count = self.entities.len();
        let mut n: usize = 0;
        while n < count
            invariant
                n <= count,
                count == before.len(),
                self.entities@.len() == count,
                room.wf(),
                dispatcher.wf(),
                self.next_id == old(self).next_id,
                all_wf(self.entities@),
                forall|k: int| 0 <= k < count ==> (#[trigger] self.entities@[k]).model().id == before[k].model().id,
                forall|k: int| n <= k < count ==> #[trigger] self.entities@[k] == before[k],
                all_ticked(
                    before.subrange(0, n as int),
                    *room,
                    queues,
                    self.entities@.subrange(0, n as int),
                    dispatcher@,
                ),
                dispatcher@.general == queues.general,
            decreases count - n,
        {
            let ghost entities_before = self.entities@;
            let ghost between = dispatcher@;
            self.entities[n].update(room, dispatcher);
            proof {
                let now = self.entities@;
                assert forall|k: int| 0 <= k < count && k != n implies now[k] == entities_before[k] by {}
                let done = before.subrange(0, n + 1);
                let ticked = now.subrange(0, n + 1);
                assert(done.drop_last() == before.subrange(0, n as int));
                assert(ticked.drop_last() =~= entities_before.subrange(0, n as int));
                assert(all_ticked(done.drop_last(), *room, queues, ticked.drop_last(), between)
                    && done.last().ticks_to(*room, between, ticked.last(), dispatcher@));
            }
            n += 1;
        }
        let ghost ticked = self.entities@;
        let ghost keep = |entity: AnyEntity| !entity.model().removed;
        proof {
            assert(before.subrange(0, count as int) == before);
            assert forall|i: int, j: int|
                0 <= i < ticked.len() && 0 <= j < ticked.len() && i != j implies (#[trigger] ticked[i]).model().id
                != (#[trigger] ticked[j]).model().id by {}
        }
        let mut i: usize = 0;
        let ghost mut done: int = 0;
        while i < self.entities.len()
            invariant
                0 <= done <= ticked.len(),
                self.entities@ == ticked.subrange(0, done).filter(keep) + ticked.subrange(
                    done,
                    ticked.len() as int,
                ),
                i == ticked.subrange(0, done).filter(keep).len(),
                self.next_id == old(self).next_id,
                keep == |entity: AnyEntity| !entity.model().removed,
            decreases ticked.len() - done,
        {
            proof {
                lemma_sweep_step(ticked, done, keep, self.entities@);
            }
            if self.entities[i].is_removed() {
                self.entities.remove(i);
            } else {
                i += 1;
            }
            proof {
                done = done + 1;
            }
        }
        proof {
            assert(ticked.subrange(0, ticked.len() as int) == ticked);
            lemma_filter_keeps_wf(ticked, keep);
            assert forall|i: int| 0 <= i < self.entities@.len() implies !(#[trigger] self.entities@[i]).model().removed by {
                ticked.lemma_filter_pred(keep, i);
            }
            assert(all_ticked(old(self).entities(), *room, old(dispatcher)@, ticked, dispatcher@)
                && self.entities() == survivors(ticked));
        }
    }

    /// Draws every entity, in their order.
    pub fn render(&self, screen: &mut Screen, offset: Vec2)
        requires
            self.wf(),
            old(screen).wf(),
        ensures
            final(screen).wf(),
            final(screen).same_frame(*old(screen)),
            all_drawn(self.entities(), offset, *old(screen), *final(screen)),
    {
        let ghost before = *screen;
        let count = self.entities.len();
        let mut i: usize = 0;
        while i < count
            invariant
                i <= count,
                count == self.entities@.len(),
                self.wf(),
                screen.wf(),
                screen.same_frame(before),
                all_drawn(self.entities@.subrange(0, i as int), offset, before, *screen),
            decreases count - i,
        {
            let ghost between = *screen;
            self.entities[i].render(screen, offset);
            proof {
                let done = self.entities@.subrange(0, i + 1);
                assert(done.drop_last() == self.entities@.subrange(0, i as int));
                assert(all_drawn(done.drop_last(), offset, before, between) && done.last().drawn(
                    offset,
                    between,
                    *screen,
                ));
            }
            i += 1;
        }
        assert(self.entities@.subrange(0, count as int) == self.entities@);
    }

    /// Hands out the entity with handle `id`, to be changed in place. The
    /// manager stays sound if the entity is left sound and with its handle.
    pub fn get_entity_mut(&mut self, id: &EntityId) -> (entity: &mut AnyEntity)
        requires
            old(self).contains(*id),
        ensures
            *entity == old(self).entity(*id),
            final(self).entities() == old(self).entities().update(
                slot_of(old(self).entities(), *id),
                *final(entity),
            ),
            final(self).spec_next_id() == old(self).spec_next_id(),
            old(self).wf() && final(entity).wf() && final(entity).model().id == *id
                ==> final(self).wf(),
    {
        proof {
            lemma_slot_of(self.entities@, *id);
            assert forall|replacement: AnyEntity|
                self.wf() && replacement.wf() && replacement.model().id == *id implies all_wf(
                #[trigger] self.entities@.update(slot_of(self.entities@, *id), replacement),
            ) && distinct_ids(
                self.entities@.update(slot_of(self.entities@, *id), replacement),
            ) by {
                lemma_replaced_keeps_wf(self.entities@, slot_of(self.entities@, *id), replacement);
            }
        }
        let slot = self.find(*id).unwrap();
        &mut self.entities[slot]
    }

    fn next_id(&mut self) -> (id: EntityId)
        requires
            old(self).next_id < u32::MAX,
        ensures
            id == old(self).next_id,
            final(self).next_id == old(self).next_id + 1,
            final(self).entities == old(self).entities,
    {
        let id = self.next_id;
        self.next_id += 1;
        id
    }
}

/// One step of a sweep that keeps what `keep` says. With the first `done`
/// of `before` swept and the rest untouched, the next entity stands right
/// behind those that were kept; to pass over it where it is kept, and to
/// take it out where it is not, gives the state with one more swept.
pub proof fn lemma_sweep_step(
    before: Seq<AnyEntity>,
    done: int,
    keep: spec_fn(AnyEntity) -> bool,
    current: Seq<AnyEntity>,
)
    requires
        0 <= done <= before.len(),
        current == before.subrange(0, done).filter(keep) + before.subrange(
            done,
            before.len() as int,
        ),
    ensures
        current.len() == before.subrange(0, done).filter(keep).len() + before.len() - done,
        done < before.len() ==> ({
            let kept = before.subrange(0, done).filter(keep);
            let more = before.subrange(0, done + 1).filter(keep);
            let rest = before.subrange(done + 1, before.len() as int);
            &&& current[kept.len() as int] == before[done]
            &&& keep(before[done]) ==> current == more + rest && more.len() == kept.len() + 1
            &&& !keep(before[done]) ==> current.remove(kept.len() as int) == more + rest
                && more.len() == kept.len()
        }),
{
    if done < before.len() {
        reveal(Seq::filter);
        let kept = before.subrange(0, done).filter(keep);
        let next = before.subrange(0, done + 1);
        let rest = before.subrange(done + 1, before.len() as int);
        assert(next.drop_last() == before.subrange(0, done));
        assert(next.last() == before[done]);
        if keep(before[done]) {
            assert(current =~= next.filter(keep) + rest);
        } else {
            assert(current.remove(kept.len() as int) =~= next.filter(keep) + rest);
        }
    }
}

/// Leaving entities out keeps the others sound and their handles distinct.
pub proof fn lemma_filter_keeps_wf(entities: Seq<AnyEntity>, keep: spec_fn(AnyEntity) -> bool)
    requires
        distinct_ids(entities),
    ensures
        all_wf(entities) ==> all_wf(entities.filter(keep)),
        distinct_ids(entities.filter(keep)),
        forall|id: EntityId|
            slot_of(entities, id) < 0 ==> slot_of(#[trigger] entities.filter(keep), id) < 0,
    decreases entities.len(),
{
    reveal(Seq::filter);
    let kept = entities.filter(keep);
    if entities.len() > 0 {
        let rest = entities.drop_last();
        if all_wf(entities) {
            assert forall|i: int| 0 <= i < rest.len() implies (#[trigger] rest[i]).wf() by {
                assert(rest[i] == entities[i]);
            }
        }
        assert forall|i: int, j: int|
            0 <= i < rest.len() && 0 <= j < rest.len() && i != j implies (#[trigger] rest[i]).model().id
            != (#[trigger] rest[j]).model().id by {
            assert(rest[i] == entities[i]);
            assert(rest[j] == entities[j]);
        }
        lemma_filter_keeps_wf(rest, keep);
        let last = entities.last();
        lemma_slot_of(rest, last.model().id);
        assert(slot_of(rest, last.model().id) < 0) by {
            let slot = slot_of(rest, last.model().id);
            if slot >= 0 {
                assert(rest[slot] == entities[slot]);
                assert(entities[slot].model().id != entities[entities.len() - 1].model().id);
            }
        }
        lemma_slot_of(rest.filter(keep), last.model().id);
        assert forall|id: EntityId| slot_of(entities, id) < 0 implies slot_of(
            #[trigger] entities.filter(keep),
            id,
        ) < 0 by {
            lemma_slot_of(entities, id);
            lemma_slot_of(rest, id);
            lemma_slot_of(rest.filter(keep), id);
            lemma_slot_of(kept, id);
            assert(slot_of(rest, id) < 0) by {
                let slot = slot_of(rest, id);
                if slot >= 0 {
                    assert(rest[slot] == entities[slot]);
                }
            }
        }
    }
}

} // verus!
