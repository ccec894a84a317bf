//! Telegrams and the queues that route them.

use vstd::prelude::*;
use std::collections::VecDeque;
use crate::entity::manager::slot_of;
use crate::entity::{
    AnyEntity, Entity, EntityId, EntityManager, RoomId, ENTITY_MANAGER_ID, GAME_ID,
};
use crate::vector::Vec2;

verus! {

/// What one party tells another.
#[derive(Debug, Eq, PartialEq, Copy, Clone, Structural)]
pub enum Message {
    /// The game should switch to the room named.
    LoadRoom(RoomId),
    /// The manager should create a projectile at a position, with a heading
    /// and a speed.
    SpawnEntity(Vec2, Vec2, i32),
    /// Sender and receiver have run into each other.
    Collides,
}

/// A message together with who sent it and who is to receive it.
#[derive(Debug, Eq, PartialEq, Copy, Clone, Structural)]
pub struct Telegram {
    pub sender: EntityId,
    pub receiver: EntityId,
    pub message: Message,
}

/// The three queues of a dispatcher, oldest telegram first.
pub struct Queues {
    /// Telegrams for the game loop.
    pub game: Seq<Telegram>,
    /// Telegrams for the entity manager.
    pub manager: Seq<Telegram>,
    /// Telegrams for entities.
    pub general: Seq<Telegram>,
}

/// Which queue a telegram for `receiver` belongs to.
pub open spec fn routed(queues: Queues, telegram: Telegram) -> Queues {
    if telegram.receiver == GAME_ID {
        Queues { game: queues.game.push(telegram), ..queues }
    } else if telegram.receiver == ENTITY_MANAGER_ID {
        Queues { manager: queues.manager.push(telegram), ..queues }
    } else {
        Queues { general: queues.general.push(telegram), ..queues }
    }
}

/// Every telegram waits in the queue of its receiver, and in no other.
pub open spec fn sorted_by_receiver(queues: Queues) -> bool {
    &&& forall|i: int| 0 <= i < queues.game.len() ==> (#[trigger] queues.game[i]).receiver == GAME_ID
    &&& forall|i: int|
        0 <= i < queues.manager.len() ==> (#[trigger] queues.manager[i]).receiver
            == ENTITY_MANAGER_ID
    &&& forall|i: int|
        0 <= i < queues.general.len() ==> (#[trigger] queues.general[i]).receiver != GAME_ID
            && queues.general[i].receiver != ENTITY_MANAGER_ID
}

/// The queues once `telegrams` have been handed, in their order, to their
/// receivers among `entities`.
pub open spec fn answered(queues: Queues, telegrams: Seq<Telegram>, entities: Seq<AnyEntity>) -> Queues
    decreases telegrams.len(),
{
    if telegrams.len() == 0 {
        queues
    } else {
        let telegram = telegrams.last();
        entities[slot_of(entities, telegram.receiver)].reply(
            telegram,
            answered(queues, telegrams.drop_last(), entities),
        )
    }
}

/// Every one of `telegrams` has its receiver among `entities`.
pub open spec fn receivers_known(telegrams: Seq<Telegram>, entities: Seq<AnyEntity>) -> bool {
    forall|i: int|
        0 <= i < telegrams.len() ==> slot_of(entities, (#[trigger] telegrams[i]).receiver) >= 0
}

/// The answers of entities never go to other entities.
pub proof fn lemma_answered_general(queues: Queues, telegrams: Seq<Telegram>, entities: Seq<AnyEntity>)
    ensures
        answered(queues, telegrams, entities).general == queues.general,
        answered(queues, telegrams, entities).manager == queues.manager,
        sorted_by_receiver(queues) ==> sorted_by_receiver(answered(queues, telegrams, entities)),
    decreases telegrams.len(),
{
    if telegrams.len() > 0 {
        lemma_answered_general(queues, telegrams.drop_last(), entities);
    }
}

pub struct MessageDispatcher {
    game_messages: VecDeque<Telegram>,
    entity_messages: VecDeque<Telegram>,
    messages: VecDeque<Telegram>,
}

impl View for MessageDispatcher {
    type V = Queues;

    closed spec fn view(&self) -> Queues {
        Queues {
            game: self.game_messages@,
            manager: self.entity_messages@,
            general: self.messages@,
        }
    }
}

impl MessageDispatcher {
    /// Every telegram waits in the queue of its receiver.
    pub open spec fn wf(self) -> bool {
        sorted_by_receiver(self@)
    }

    pub fn new() -> (dispatcher: MessageDispatcher)
        ensures
            dispatcher@.game == Seq::<Telegram>::empty(),
            dispatcher@.manager == Seq::<Telegram>::empty(),
            dispatcher@.general == Seq::<Telegram>::empty(),
            dispatcher.wf(),
    {
        MessageDispatcher {
            game_messages: VecDeque::new(),
            entity_messages: VecDeque::new(),
            messages: VecDeque::new(),
        }
    }

    /// Takes the oldest telegram for the game loop, if there is one.
    pub fn poll_game_message(&mut self) -> (polled: Option<Telegram>)
        requires
            old(self).wf(),
        ensures
            final(self).wf(),
            final(self)@.manager == old(self)@.manager,
            final(self)@.general == old(self)@.general,
            old(self)@.game.len() == 0 ==> polled is None && final(self)@.game == old(self)@.game,
            old(self)@.game.len() > 0 ==> polled == Some(old(self)@.game[0])
                && final(self)@.game == old(self)@.game.subrange(1, old(self)@.game.len() as int)
                && old(self)@.game[0].receiver == GAME_ID,
    {
        self.game_messages.pop_front()
    }

    /// Takes the oldest telegram for the entity manager, if there is one.
    pub fn poll_entity_message(&mut self) -> (polled: Option<Telegram>)
        requires
            old(self).wf(),
        ensures
            final(self).wf(),
            final(self)@.game == old(self)@.game,
            final(self)@.general == old(self)@.general,
            old(self)@.manager.len() == 0 ==> polled is None && final(self)@.manager
                == old(self)@.manager,
            old(self)@.manager.len() > 0 ==> polled == Some(old(self)@.manager[0])
                && final(self)@.manager == old(self)@.manager.subrange(
                1,
                old(self)@.manager.len() as int,
            ) && old(self)@.manager[0].receiver == ENTITY_MANAGER_ID,
    {
        self.entity_messages.pop_front()
    }

    /// Puts a telegram at the end of the queue of its receiver.
    pub fn queue_message(&mut self, sender: EntityId, receiver: EntityId, message: Message)
        requires
            old(self).wf(),
        ensures
            final(self).wf(),
            final(self)@ == routed(old(self)@, Telegram { sender, receiver, message }),
    {
        let telegram = Telegram { sender, receiver, message };

        if receiver == GAME_ID {
            self.game_messages.push_back(telegram);
        } else if receiver == ENTITY_MANAGER_ID {
            self.entity_messages.push_back(telegram);
        } else {
            self.messages.push_back(telegram);
        }
    }

    /// The telegrams that wait for entities, oldest first.
    pub fn waiting(&self) -> (telegrams: Vec<Telegram>)
        ensures
            telegrams@ == self@.general,
    {
        let mut telegrams: Vec<Telegram> = Vec::new();
        let count = self.messages.len();
        let mut i: usize = 0;
        while i < count
            invariant
                i <= count,
                count == self.messages@.len(),
                telegrams@ == self.messages@.subrange(0, i as int),
            decreases count - i,
        {
            telegrams.push(self.messages[i]);
            i += 1;
        }
        telegrams
    }

    /// Hands a telegram to its receiver.
    fn discharge(&mut self, manager: &mut EntityManager, message: Telegram)
        requires
            old(self).wf(),
            old(manager).wf(),
            old(manager).contains(message.receiver),
        ensures
            final(self).wf(),
            final(manager).wf(),
            final(manager).entities() == old(manager).entities(),
            final(manager).spec_next_id() == old(manager).spec_next_id(),
            final(self)@ == old(manager).entity(message.receiver).reply(message, old(self)@),
            final(self)@.general == old(self)@.general,
    {
        proof {
            crate::entity::manager::lemma_slot_of(manager.entities(), message.receiver);
        }
        let entity = manager.get_entity_mut(&message.receiver);
        entity.handle_message(message, self);
    }

    /// Whether every telegram for an entity has its receiver among the
    /// entities of `manager`.
    pub fn deliverable(&self, manager: &EntityManager) -> (known: bool)
        ensures
            known == receivers_known(self@.general, manager.entities()),
    {
        let count = self.messages.len();
        let mut i: usize = 0;
        while i < count
            invariant
                i <= count,
                count == self.messages@.len(),
                receivers_known(self.messages@.subrange(0, i as int), manager.entities()),
            decreases count - i,
        {
            if !manager.has_entity(self.messages[i].receiver) {
                return false;
            }
            proof {
                let done = self.messages@.subrange(0, i + 1);
                assert forall|k: int| 0 <= k < done.len() implies slot_of(
                    manager.entities(),
                    (#[trigger] done[k]).receiver,
                ) >= 0 by {}
            }
            i += 1;
        }
        assert(self.messages@.subrange(0, count as int) == self.messages@);
        true
    }

    /// Hands every telegram for an entity to its receiver, oldest first,
    /// until none is left.
    pub fn dispatch_messages(&mut self, manager: &mut EntityManager)
        requires
            old(self).wf(),
            old(manager).wf(),
            receivers_known(old(self)@.general, old(manager).entities()),
        ensures
            final(self).wf(),
            final(manager).wf(),
            final(manager).entities() == old(manager).entities(),
            final(manager).spec_next_id() == old(manager).spec_next_id(),
            final(self)@.general.len() == 0,
            final(self)@ == answered(
                Queues { general: Seq::empty(), ..old(self)@ },
                old(self)@.general,
                old(manager).entities(),
            ),
    {
        let ghost start = self@;
        let ghost telegrams = self@.general;
        let ghost entities = manager.entities();
        let ghost mut done: int = 0;
        loop
            invariant
                self.wf(),
                manager.wf(),
                manager.entities() == entities,
                manager.spec_next_id() == old(manager).spec_next_id(),
                0 <= done <= telegrams.len(),
                self@.general == telegrams.subrange(done, telegrams.len() as int),
                receivers_known(telegrams, entities),
                (Queues { general: Seq::empty(), ..self@ }) == answered(
                    Queues { general: Seq::empty(), ..start },
                    telegrams.subrange(0, done),
                    entities,
                ),
            ensures
                self@.general.len() == 0,
                done == telegrams.len(),
            decreases telegrams.len() - done,
        {
            let polled = self.messages.pop_front();
            match polled {
                Some(message) => {
                    let ghost waiting = self@;
                    proof {
                        let next = telegrams.subrange(0, done + 1);
                        assert(next.drop_last() == telegrams.subrange(0, done));
                        assert(self@.general =~= telegrams.subrange(
                            done + 1,
                            telegrams.len() as int,
                        ));
                    }
                    self.discharge(manager, message);
                    proof {
                        lemma_reply_apart(entities[slot_of(entities, message.receiver)], message, waiting);
                        done = done + 1;
                    }
                },
                None => {
                    break ;
                },
            }
        }
        proof {
            assert(self@.general =~= Seq::<Telegram>::empty());
        }
    }

    /// Whatever has been queued and polled, a telegram for the game loop is
    /// never among those for entities or for the manager, and the other way
    /// round.
    pub proof fn lemma_queues_stay_apart(self, telegram: Telegram)
        requires
            self.wf(),
        ensures
            self@.general.contains(telegram) ==> telegram.receiver != GAME_ID && telegram.receiver
                != ENTITY_MANAGER_ID,
            self@.game.contains(telegram) ==> telegram.receiver == GAME_ID,
            self@.manager.contains(telegram) ==> telegram.receiver == ENTITY_MANAGER_ID,
    {
    }
}

/// What an entity answers does not depend on the telegrams that wait for
/// entities, and leaves them alone.
pub proof fn lemma_reply_apart(entity: AnyEntity, telegram: Telegram, queues: Queues)
    ensures
        entity.reply(telegram, queues).general == queues.general,
        (Queues { general: Seq::empty(), ..entity.reply(telegram, queues) }) == entity.reply(
            telegram,
            Queues { general: Seq::empty(), ..queues },
        ),
{
}

} // verus!
