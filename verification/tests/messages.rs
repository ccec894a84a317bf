use atoma::entity::{
    Door, Entity, Message, MessageDispatcher, Telegram, ENTITY_MANAGER_ID, GAME_ID, PLAYER_ID,
};
use atoma::vector::Vec2;

#[test]
fn telegrams_are_sorted_by_receiver() {
    let mut dispatcher = MessageDispatcher::new();
    dispatcher.queue_message(PLAYER_ID, GAME_ID, Message::LoadRoom(3));
    dispatcher.queue_message(
        PLAYER_ID,
        ENTITY_MANAGER_ID,
        Message::SpawnEntity(Vec2::new(1, 2), Vec2::new(1000, 0), 4000),
    );
    dispatcher.queue_message(11, 12, Message::Collides);
    dispatcher.queue_message(12, 11, Message::Collides);

    let waiting = dispatcher.waiting();
    assert_eq!(waiting.len(), 2);
    assert_eq!(waiting[0], Telegram { sender: 11, receiver: 12, message: Message::Collides });
    assert_eq!(waiting[1], Telegram { sender: 12, receiver: 11, message: Message::Collides });

    assert_eq!(
        dispatcher.poll_game_message(),
        Some(Telegram { sender: PLAYER_ID, receiver: GAME_ID, message: Message::LoadRoom(3) })
    );
    assert_eq!(dispatcher.poll_game_message(), None);
    assert_eq!(
        dispatcher.poll_entity_message(),
        Some(Telegram {
            sender: PLAYER_ID,
            receiver: ENTITY_MANAGER_ID,
            message: Message::SpawnEntity(Vec2::new(1, 2), Vec2::new(1000, 0), 4000),
        })
    );
    assert_eq!(dispatcher.poll_entity_message(), None);
    assert_eq!(dispatcher.waiting().len(), 2);
}

#[test]
fn queues_are_first_in_first_out() {
    let mut dispatcher = MessageDispatcher::new();
    for room in 0..5u8 {
        dispatcher.queue_message(20, GAME_ID, Message::LoadRoom(room));
    }
    for room in 0..5u8 {
        let polled = dispatcher.poll_game_message().unwrap();
        assert_eq!(polled.message, Message::LoadRoom(room));
    }
    assert!(dispatcher.poll_game_message().is_none());
}

#[test]
fn door_asks_for_its_room_when_the_player_runs_into_it() {
    let mut door = Door::new((2, 3), 7);
    door.set_id(42);
    let mut dispatcher = MessageDispatcher::new();
    door.handle_message(
        Telegram { sender: PLAYER_ID, receiver: 42, message: Message::Collides },
        &mut dispatcher,
    );
    assert_eq!(
        dispatcher.poll_game_message(),
        Some(Telegram { sender: 42, receiver: GAME_ID, message: Message::LoadRoom(7) })
    );
    assert_eq!(dispatcher.poll_game_message(), None);
    assert!(dispatcher.waiting().is_empty());
    assert_eq!(dispatcher.poll_entity_message(), None);
}

#[test]
fn door_ignores_everything_else() {
    let mut door = Door::new((2, 3), 7);
    door.set_id(42);
    let mut dispatcher = MessageDispatcher::new();
    door.handle_message(
        Telegram { sender: 11, receiver: 42, message: Message::Collides },
        &mut dispatcher,
    );
    door.handle_message(
        Telegram { sender: PLAYER_ID, receiver: 42, message: Message::LoadRoom(1) },
        &mut dispatcher,
    );
    assert_eq!(dispatcher.poll_game_message(), None);
    assert!(dispatcher.waiting().is_empty());
}

#[test]
fn door_stands_in_the_middle_of_its_tile() {
    let door = Door::new((2, 3), 7);
    assert_eq!(door.collider.origin, Vec2::new(40_000, 56_000));
    assert_eq!(door.collider.dimensions, Vec2::new(1000, 1000));
    assert!(door.collider.hostile());
    assert_eq!(door.id(), 0);
    assert_eq!(door.room, 7);
    assert_eq!(door.absolute_pos(), Vec2::new(40, 56));
    assert_eq!(door.relative_pos(Vec2::new(30, 50)), Vec2::new(10, 6));
    let from: Door = (&((2, 3), 7)).into();
    assert_eq!(from.collider.origin, door.collider.origin);
    assert_eq!(from.room, 7);
}

#[test]
fn send_message_names_the_sender() {
    let mut door = Door::new((0, 0), 1);
    door.set_id(15);
    let mut dispatcher = MessageDispatcher::new();
    door.send_message(Message::Collides, 16, &mut dispatcher);
    assert_eq!(
        dispatcher.waiting(),
        vec![Telegram { sender: 15, receiver: 16, message: Message::Collides }]
    );
}
